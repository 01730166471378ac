//! The shared coordination state: one proof registry per kind, and the FIFO
//! verification queue drained by the single background worker.
//!
//! Handlers and the worker share one value of this type behind a lock; every
//! operation here is a short, non-suspending critical section.

use std::collections::VecDeque;
use vstd::prelude::*;

use crate::models::JoltProof;
use crate::models::MidenProof;
use crate::models::ProodDataRisc0;
use crate::models::ProofDataJolt;
use crate::models::ProofDataMiden;
use crate::models::ProofDataSP1;
use crate::models::Risc0Proof;
use crate::models::Sp1Proof;
use crate::models::SubmitionResult;
use crate::models::VerifyProof;
use crate::txmap::TxMap;

verus! {

/// The proof systems the service coordinates.
#[derive(Clone, Copy, Debug, PartialEq, Eq, Structural)]
pub enum ProofKind {
    Sp1,
    Miden,
    Risc0,
    Jolt,
}

impl ProofKind {
    /// The kind a wire tag selects: 1 is SP1, 2 is Miden, 3 is RISC Zero,
    /// 4 is Jolt; every other tag selects nothing.
    pub open spec fn spec_from_tag(tag: u8) -> Option<ProofKind> {
        if tag == 1 {
            Some(ProofKind::Sp1)
        } else if tag == 2 {
            Some(ProofKind::Miden)
        } else if tag == 3 {
            Some(ProofKind::Risc0)
        } else if tag == 4 {
            Some(ProofKind::Jolt)
        } else {
            None
        }
    }

    /// Decodes a wire tag.
    pub fn from_tag(tag: u8) -> (r: Option<ProofKind>)
        ensures
            r == Self::spec_from_tag(tag),
    {
        match tag {
            1 => Some(ProofKind::Sp1),
            2 => Some(ProofKind::Miden),
            3 => Some(ProofKind::Risc0),
            4 => Some(ProofKind::Jolt),
            _ => None,
        }
    }

    /// The wire tag of a kind.
    pub fn tag(self) -> (r: u8)
        ensures
            Self::spec_from_tag(r) == Some(self),
    {
        match self {
            ProofKind::Sp1 => 1,
            ProofKind::Miden => 2,
            ProofKind::Risc0 => 3,
            ProofKind::Jolt => 4,
        }
    }
}

/// The registries and the verification queue.
pub struct VerifierState {
    sp1: TxMap<Sp1Proof>,
    miden: TxMap<MidenProof>,
    risc0: TxMap<Risc0Proof>,
    jolt: TxMap<JoltProof>,
    queue: VecDeque<VerifyProof>,
}

impl VerifierState {
    /// The SP1 registry: transaction id to descriptor.
    pub closed spec fn sp1_map(&self) -> Map<Seq<char>, Sp1Proof> {
        self.sp1@
    }

    /// The Miden registry.
    pub closed spec fn miden_map(&self) -> Map<Seq<char>, MidenProof> {
        self.miden@
    }

    /// The RISC Zero registry.
    pub closed spec fn risc0_map(&self) -> Map<Seq<char>, Risc0Proof> {
        self.risc0@
    }

    /// The Jolt registry.
    pub closed spec fn jolt_map(&self) -> Map<Seq<char>, JoltProof> {
        self.jolt@
    }

    /// The queued verification requests, oldest first.
    pub closed spec fn queue_seq(&self) -> Seq<VerifyProof> {
        self.queue@
    }

    /// The registries' internal invariant.
    pub closed spec fn wf(&self) -> bool {
        self.sp1.wf() && self.miden.wf() && self.risc0.wf() && self.jolt.wf()
    }

    /// Whether the registry of the kind that `request` names currently holds
    /// a descriptor under the request's transaction id. A request whose tag
    /// names no kind is never considered registered.
    pub open spec fn is_registered(&self, request: VerifyProof) -> bool {
        match ProofKind::spec_from_tag(request.verify_type) {
            Some(ProofKind::Sp1) => self.sp1_map().contains_key(request.tx_id@),
            Some(ProofKind::Miden) => self.miden_map().contains_key(request.tx_id@),
            Some(ProofKind::Risc0) => self.risc0_map().contains_key(request.tx_id@),
            Some(ProofKind::Jolt) => self.jolt_map().contains_key(request.tx_id@),
            None => false,
        }
    }

    /// Empty registries and an empty queue.
    pub fn new() -> (r: Self)
        ensures
            r.wf(),
            r.sp1_map() == Map::<Seq<char>, Sp1Proof>::empty(),
            r.miden_map() == Map::<Seq<char>, MidenProof>::empty(),
            r.risc0_map() == Map::<Seq<char>, Risc0Proof>::empty(),
            r.jolt_map() == Map::<Seq<char>, JoltProof>::empty(),
            r.queue_seq() == Seq::<VerifyProof>::empty(),
    {
        VerifierState {
            sp1: TxMap::new(),
            miden: TxMap::new(),
            risc0: TxMap::new(),
            jolt: TxMap::new(),
            queue: VecDeque::new(),
        }
    }

    /// Records an SP1 proof descriptor under the submitted transaction id,
    /// overwriting any prior submission, and acknowledges unconditionally.
    pub fn submit_sp1(&mut self, data: ProofDataSP1) -> (r: SubmitionResult)
        requires
            old(self).wf(),
        ensures
            final(self).wf(),
            r.is_submitted,
            final(self).sp1_map() == old(self).sp1_map().insert(
                data.tx_id@,
                (Sp1Proof {
                    proof_file_path: data.proof_file_path,
                    elf_file_path: data.elf_file_path,
                }),
            ),
            final(self).miden_map() == old(self).miden_map(),
            final(self).risc0_map() == old(self).risc0_map(),
            final(self).jolt_map() == old(self).jolt_map(),
            final(self).queue_seq() == old(self).queue_seq(),
    {
        self.sp1.put(
            data.tx_id,
            Sp1Proof { proof_file_path: data.proof_file_path, elf_file_path: data.elf_file_path },
        );
        SubmitionResult { is_submitted: true }
    }

    /// Records a Miden proof descriptor, as `submit_sp1` does for SP1.
    pub fn submit_miden(&mut self, data: ProofDataMiden) -> (r: SubmitionResult)
        requires
            old(self).wf(),
        ensures
            final(self).wf(),
            r.is_submitted,
            final(self).miden_map() == old(self).miden_map().insert(
                data.tx_id@,
                (MidenProof {
                    program_hash: data.program_hash,
                    inputs_stack: data.inputs_stack,
                    outputs_stack: data.outputs_stack,
                    proof_file_path: data.proof_file_path,
                }),
            ),
            final(self).sp1_map() == old(self).sp1_map(),
            final(self).risc0_map() == old(self).risc0_map(),
            final(self).jolt_map() == old(self).jolt_map(),
            final(self).queue_seq() == old(self).queue_seq(),
    {
        self.miden.put(
            data.tx_id,
            MidenProof {
                program_hash: data.program_hash,
                inputs_stack: data.inputs_stack,
                outputs_stack: data.outputs_stack,
                proof_file_path: data.proof_file_path,
            },
        );
        SubmitionResult { is_submitted: true }
    }

    /// Records a RISC Zero proof descriptor, as `submit_sp1` does for SP1.
    pub fn submit_risc0(&mut self, data: ProodDataRisc0) -> (r: SubmitionResult)
        requires
            old(self).wf(),
        ensures
            final(self).wf(),
            r.is_submitted,
            final(self).risc0_map() == old(self).risc0_map().insert(
                data.tx_id@,
                (Risc0Proof {
                    proof_file_path: data.proof_file_path,
                    risc_zero_image_id: data.risc_zero_image_id,
                }),
            ),
            final(self).sp1_map() == old(self).sp1_map(),
            final(self).miden_map() == old(self).miden_map(),
            final(self).jolt_map() == old(self).jolt_map(),
            final(self).queue_seq() == old(self).queue_seq(),
    {
        self.risc0.put(
            data.tx_id,
            Risc0Proof {
                proof_file_path: data.proof_file_path,
                risc_zero_image_id: data.risc_zero_image_id,
            },
        );
        SubmitionResult { is_submitted: true }
    }

    /// Records a Jolt proof descriptor, as `submit_sp1` does for SP1.
    pub fn submit_jolt(&mut self, data: ProofDataJolt) -> (r: SubmitionResult)
        requires
            old(self).wf(),
        ensures
            final(self).wf(),
            r.is_submitted,
            final(self).jolt_map() == old(self).jolt_map().insert(
                data.tx_id@,
                (JoltProof {
                    proof_file_path: data.proof_file_path,
                    elf_file_path: data.elf_file_path,
                }),
            ),
            final(self).sp1_map() == old(self).sp1_map(),
            final(self).miden_map() == old(self).miden_map(),
            final(self).risc0_map() == old(self).risc0_map(),
            final(self).queue_seq() == old(self).queue_seq(),
    {
        self.jolt.put(
            data.tx_id,
            JoltProof { proof_file_path: data.proof_file_path, elf_file_path: data.elf_file_path },
        );
        SubmitionResult { is_submitted: true }
    }

    /// The SP1 descriptor stored under `tx_id`, if any; the entry stays.
    pub fn get_sp1(&self, tx_id: &String) -> (r: Option<&Sp1Proof>)
        requires
            self.wf(),
        ensures
            match r {
                Some(d) => self.sp1_map().contains_key(tx_id@) && *d == self.sp1_map()[tx_id@],
                None => !self.sp1_map().contains_key(tx_id@),
            },
    {
        self.sp1.get(tx_id)
    }

    /// The Miden descriptor stored under `tx_id`, if any.
    pub fn get_miden(&self, tx_id: &String) -> (r: Option<&MidenProof>)
        requires
            self.wf(),
        ensures
            match r {
                Some(d) => self.miden_map().contains_key(tx_id@) && *d
                    == self.miden_map()[tx_id@],
                None => !self.miden_map().contains_key(tx_id@),
            },
    {
        self.miden.get(tx_id)
    }

    /// The RISC Zero descriptor stored under `tx_id`, if any.
    pub fn get_risc0(&self, tx_id: &String) -> (r: Option<&Risc0Proof>)
        requires
            self.wf(),
        ensures
            match r {
                Some(d) => self.risc0_map().contains_key(tx_id@) && *d
                    == self.risc0_map()[tx_id@],
                None => !self.risc0_map().contains_key(tx_id@),
            },
    {
        self.risc0.get(tx_id)
    }

    /// The Jolt descriptor stored under `tx_id`, if any.
    pub fn get_jolt(&self, tx_id: &String) -> (r: Option<&JoltProof>)
        requires
            self.wf(),
        ensures
            match r {
                Some(d) => self.jolt_map().contains_key(tx_id@) && *d == self.jolt_map()[tx_id@],
                None => !self.jolt_map().contains_key(tx_id@),
            },
    {
        self.jolt.get(tx_id)
    }

    /// Appends `request` to the back of the verification queue if the
    /// registry of its kind currently holds its transaction id; otherwise
    /// rejects it and leaves the queue unchanged. The existence check and
    /// the enqueue are two steps of one critical section here; callers that
    /// drop the lock between them reintroduce the documented race.
    pub fn request_verification(&mut self, request: VerifyProof) -> (r: SubmitionResult)
        requires
            old(self).wf(),
        ensures
            final(self).wf(),
            r.is_submitted == old(self).is_registered(request),
            old(self).is_registered(request) ==> final(self).queue_seq() == old(
                self,
            ).queue_seq().push(request),
            !old(self).is_registered(request) ==> final(self).queue_seq() == old(
                self,
            ).queue_seq(),
            final(self).sp1_map() == old(self).sp1_map(),
            final(self).miden_map() == old(self).miden_map(),
            final(self).risc0_map() == old(self).risc0_map(),
            final(self).jolt_map() == old(self).jolt_map(),
    {
        let registered = match ProofKind::from_tag(request.verify_type) {
            Some(ProofKind::Sp1) => self.sp1.contains(&request.tx_id),
            Some(ProofKind::Miden) => self.miden.contains(&request.tx_id),
            Some(ProofKind::Risc0) => self.risc0.contains(&request.tx_id),
            Some(ProofKind::Jolt) => self.jolt.contains(&request.tx_id),
            None => false,
        };
        if registered {
            self.queue.push_back(request);
            SubmitionResult { is_submitted: true }
        } else {
            SubmitionResult { is_submitted: false }
        }
    }

    /// Removes and returns the oldest queued request; `None` when the queue
    /// is empty.
    pub fn pop_request(&mut self) -> (r: Option<VerifyProof>)
        requires
            old(self).wf(),
        ensures
            final(self).wf(),
            match r {
                Some(request) => old(self).queue_seq().len() > 0 && request == old(
                    self,
                ).queue_seq()[0] && final(self).queue_seq() == old(self).queue_seq().subrange(
                    1,
                    old(self).queue_seq().len() as int,
                ),
                None => old(self).queue_seq().len() == 0 && final(self).queue_seq() == old(
                    self,
                ).queue_seq(),
            },
            final(self).sp1_map() == old(self).sp1_map(),
            final(self).miden_map() == old(self).miden_map(),
            final(self).risc0_map() == old(self).risc0_map(),
            final(self).jolt_map() == old(self).jolt_map(),
    {
        self.queue.pop_front()
    }

    /// How many requests are waiting.
    pub fn queue_len(&self) -> (n: usize)
        ensures
            n == self.queue_seq().len(),
    {
        self.queue.len()
    }
}

/// Law of FIFO draining, one step: a pop of a nonempty queue yields the
/// entry at the front and leaves exactly the entries behind it, so the
/// `k`-th pop of a queue yields its `k`-th entry: requests are drained in
/// enqueue order.
pub proof fn lemma_drain_in_order(q: Seq<VerifyProof>, k: int)
    requires
        0 <= k < q.len(),
    ensures
        q.skip(k)[0] == q[k],
        q.skip(k).subrange(1, q.skip(k).len() as int) == q.skip(k + 1),
{
    assert(q.skip(k).subrange(1, q.skip(k).len() as int) =~= q.skip(k + 1));
}

/// Law of queue order: enqueueing `a` and then `b` onto any queue leaves
/// `a` in front of `b`, so the worker — which only ever pops the front —
/// processes `a` strictly before `b`: once the entries before them are
/// drained, exactly `a` then `b` remain.
pub proof fn lemma_fifo_order(q: Seq<VerifyProof>, a: VerifyProof, b: VerifyProof)
    ensures
        q.push(a).push(b).skip(q.len() as int) == seq![a, b],
{
    assert(q.push(a).push(b).skip(q.len() as int) =~= seq![a, b]);
}

} // verus!
