//! Decision logic of the single background worker.
//!
//! The worker loop lives outside this crate: it pops the oldest request,
//! performs the verifier call that `next_task` selects, and posts the
//! notification that `conclude_request` builds. Everything the loop decides
//! — which descriptor a request resolves to, how verifier failures are
//! downgraded, what the peer is told — is specified and verified here.

use vstd::prelude::*;

use crate::errors::VerificationError;
use crate::models::JoltProof;
use crate::models::MidenProof;
use crate::models::PostVerificationResult;
use crate::models::Risc0Proof;
use crate::models::Sp1Proof;
use crate::models::VerificationResult;
use crate::models::VerifyProof;
use crate::state::ProofKind;
use crate::state::VerifierState;

verus! {

/// What the worker must do for one dequeued request: run the verifier of the
/// request's kind on the re-fetched descriptor, or skip the verifier when
/// the registry no longer answers (or the tag names no kind) and report the
/// proof as invalid.
pub enum WorkerTask {
    RunSp1(Sp1Proof),
    RunMiden(MidenProof),
    RunRisc0(Risc0Proof),
    RunJolt(JoltProof),
    Skip,
}

/// The task one request resolves to against the given registries.
pub open spec fn spec_task_for(s: VerifierState, request: VerifyProof) -> WorkerTask {
    match ProofKind::spec_from_tag(request.verify_type) {
        Some(ProofKind::Sp1) => if s.sp1_map().contains_key(request.tx_id@) {
            WorkerTask::RunSp1(s.sp1_map()[request.tx_id@])
        } else {
            WorkerTask::Skip
        },
        Some(ProofKind::Miden) => if s.miden_map().contains_key(request.tx_id@) {
            WorkerTask::RunMiden(s.miden_map()[request.tx_id@])
        } else {
            WorkerTask::Skip
        },
        Some(ProofKind::Risc0) => if s.risc0_map().contains_key(request.tx_id@) {
            WorkerTask::RunRisc0(s.risc0_map()[request.tx_id@])
        } else {
            WorkerTask::Skip
        },
        Some(ProofKind::Jolt) => if s.jolt_map().contains_key(request.tx_id@) {
            WorkerTask::RunJolt(s.jolt_map()[request.tx_id@])
        } else {
            WorkerTask::Skip
        },
        None => WorkerTask::Skip,
    }
}

impl VerifierState {
    /// Removes the oldest queued request and resolves it against the
    /// registries: the worker receives the request together with the task it
    /// must now perform. A missing descriptor yields `Skip`, never a crash;
    /// the registries are left untouched.
    pub fn next_task(&mut self) -> (r: Option<(VerifyProof, WorkerTask)>)
        requires
            old(self).wf(),
        ensures
            final(self).wf(),
            final(self).sp1_map() == old(self).sp1_map(),
            final(self).miden_map() == old(self).miden_map(),
            final(self).risc0_map() == old(self).risc0_map(),
            final(self).jolt_map() == old(self).jolt_map(),
            match r {
                Some(pair) => old(self).queue_seq().len() > 0 && pair.0 == old(
                    self,
                ).queue_seq()[0] && final(self).queue_seq() == old(self).queue_seq().subrange(
                    1,
                    old(self).queue_seq().len() as int,
                ) && pair.1 == spec_task_for(*old(self), pair.0),
                None => old(self).queue_seq().len() == 0 && final(self).queue_seq() == old(
                    self,
                ).queue_seq(),
            },
    {
        let request = match self.pop_request() {
            Some(request) => request,
            None => {
                return None;
            },
        };
        let task = match ProofKind::from_tag(request.verify_type) {
            Some(ProofKind::Sp1) => match self.get_sp1(&request.tx_id) {
                Some(descriptor) => WorkerTask::RunSp1(descriptor.clone()),
                None => WorkerTask::Skip,
            },
            Some(ProofKind::Miden) => match self.get_miden(&request.tx_id) {
                Some(descriptor) => WorkerTask::RunMiden(descriptor.clone()),
                None => WorkerTask::Skip,
            },
            Some(ProofKind::Risc0) => match self.get_risc0(&request.tx_id) {
                Some(descriptor) => WorkerTask::RunRisc0(descriptor.clone()),
                None => WorkerTask::Skip,
            },
            Some(ProofKind::Jolt) => match self.get_jolt(&request.tx_id) {
                Some(descriptor) => WorkerTask::RunJolt(descriptor.clone()),
                None => WorkerTask::Skip,
            },
            None => WorkerTask::Skip,
        };
        Some((request, task))
    }
}

/// Whether a verifier call's outcome counts as a valid proof: only a run
/// that returned a positive result does; every verifier error is downgraded
/// to invalid.
pub open spec fn spec_result_valid(
    verification_result: Result<VerificationResult, VerificationError>,
) -> bool {
    match verification_result {
        Ok(result) => result.is_valid,
        Err(_) => false,
    }
}

/// Folds a verifier call's outcome into the boolean the peer is told:
/// verifier errors are downgraded to `false` (fail closed) and never reach
/// the submitting caller.
pub fn handle_verification_result(
    verification_result: Result<VerificationResult, VerificationError>,
) -> (is_valid: bool)
    ensures
        is_valid == spec_result_valid(verification_result),
{
    match verification_result {
        Ok(result) => result.is_valid,
        Err(_) => false,
    }
}

/// Whether the whole handling of one dequeued request counts as valid:
/// `None` stands for a request whose verifier never ran because the
/// descriptor was gone or the tag named no kind.
pub open spec fn spec_outcome_valid(
    outcome: Option<Result<VerificationResult, VerificationError>>,
) -> bool {
    match outcome {
        Some(verification_result) => spec_result_valid(verification_result),
        None => false,
    }
}

/// Builds the one notification a dequeued request yields. The function is
/// total in the outcome: a successful run, a negative result, a verifier
/// error and a skipped verifier all map to exactly one notification
/// carrying the request's transaction id.
pub fn conclude_request(
    tx_id: String,
    outcome: Option<Result<VerificationResult, VerificationError>>,
) -> (r: PostVerificationResult)
    ensures
        r.tx_id == tx_id,
        r.is_valid == spec_outcome_valid(outcome),
{
    match outcome {
        Some(verification_result) => {
            let is_valid = handle_verification_result(verification_result);
            PostVerificationResult { tx_id, is_valid }
        },
        None => PostVerificationResult { tx_id, is_valid: false },
    }
}

/// Folds the Miden verifier's outcome into a verification result: Miden
/// reports the security level its check achieved, and only a run that
/// reached level 96 counts as valid; errors are downgraded to invalid as
/// everywhere else.
pub fn miden_security_outcome(security_level: Result<u32, VerificationError>) -> (r:
    VerificationResult)
    ensures
        r.is_valid == (security_level matches Ok(level) && level == 96),
{
    match security_level {
        Ok(level) => VerificationResult { is_valid: level == 96 },
        Err(_) => VerificationResult { is_valid: false },
    }
}

} // verus!
