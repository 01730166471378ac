//! Data model of the coordination layer: proof descriptors, the requests and
//! responses of the HTTP surface, and the process configuration.

use vstd::prelude::*;

verus! {

/// Submission payload for an SP1 proof: a transaction id plus the descriptor
/// fields.
#[derive(Debug)]
pub struct ProofDataSP1 {
    pub tx_id: String,
    pub proof_file_path: String,
    pub elf_file_path: String,
}

/// Registry entry for an SP1 proof: where the proof and program artifacts
/// live on disk.
#[derive(Debug)]
pub struct Sp1Proof {
    pub proof_file_path: String,
    pub elf_file_path: String,
}

/// Submission payload for a Jolt proof.
#[derive(Debug)]
pub struct ProofDataJolt {
    pub tx_id: String,
    pub proof_file_path: String,
    pub elf_file_path: String,
}

/// Registry entry for a Jolt proof.
#[derive(Debug)]
pub struct JoltProof {
    pub proof_file_path: String,
    pub elf_file_path: String,
}

/// Submission payload for a Miden proof: program hash, stack inputs and
/// outputs, and the proof artifact path.
#[derive(Debug)]
pub struct ProofDataMiden {
    pub tx_id: String,
    pub program_hash: String,
    pub inputs_stack: String,
    pub outputs_stack: String,
    pub proof_file_path: String,
}

/// Registry entry for a Miden proof.
#[derive(Debug)]
pub struct MidenProof {
    pub program_hash: String,
    pub inputs_stack: String,
    pub outputs_stack: String,
    pub proof_file_path: String,
}

/// Submission payload for a RISC Zero proof.
#[derive(Debug)]
pub struct ProodDataRisc0 {
    pub tx_id: String,
    pub proof_file_path: String,
    pub risc_zero_image_id: String,
}

/// Registry entry for a RISC Zero proof.
#[derive(Debug)]
pub struct Risc0Proof {
    pub proof_file_path: String,
    pub risc_zero_image_id: String,
}

/// A verification request: which transaction to verify and under which proof
/// kind. `verify_type` is the wire tag of the kind.
#[derive(Debug)]
pub struct VerifyProof {
    pub tx_id: String,
    pub verify_type: u8,
}

/// Acknowledgment returned by the submission and verification-request
/// endpoints.
#[derive(Debug)]
pub struct SubmitionResult {
    pub is_submitted: bool,
}

/// Outcome of running a verifier on one proof.
#[derive(Debug)]
pub struct VerificationResult {
    pub is_valid: bool,
}

/// Raw proof bytes as decoded from a proof artifact.
#[derive(Debug)]
pub struct Proof {
    pub proof: Vec<u8>,
}

/// Response of the health-check endpoint: a freshly allocated port pair, or a
/// failure marker when the pool cursor had run past the end.
#[derive(Debug)]
pub struct Ping {
    pub success: bool,
    pub rust_port: String,
    pub uinit_port: String,
}

/// Notification sent to the configured peer once a queued request has been
/// processed.
#[derive(Debug)]
pub struct PostVerificationResult {
    pub tx_id: String,
    pub is_valid: bool,
}

/// The two parallel port pools handed out by the health-check endpoint.
#[derive(Debug)]
pub struct Ports {
    pub instantiated_ports: Vec<u16>,
    pub uninstantiated_ports: Vec<u16>,
}

/// Response of the single-instance health check.
#[derive(Debug)]
pub struct PingSingle {
    pub success: bool,
}

/// Decoded form of a Miden stack-outputs document: the stack values and the
/// optional overflow addresses.
#[derive(Debug)]
pub struct Outputs {
    pub stack: Vec<u64>,
    pub overflow_addrs: Option<Vec<u64>>,
}

/// Process configuration: listen port, worker count, whether consumed
/// artifact files are deleted after verification, and the peer port that
/// receives verification outcomes.
#[derive(Clone, Copy, Debug)]
pub struct Config {
    pub port: u16,
    pub workers: usize,
    pub delete_files: bool,
    pub u_port: u16,
}

impl Outputs {
    /// The stack values and the overflow addresses, with an empty list
    /// standing in when no overflow addresses were given — the default the
    /// stack-outputs decoder applies.
    pub fn into_parts(self) -> (r: (Vec<u64>, Vec<u64>))
        ensures
            r.0 == self.stack,
            match self.overflow_addrs {
                Some(addrs) => r.1 == addrs,
                None => r.1@ == Seq::<u64>::empty(),
            },
    {
        let overflow = match self.overflow_addrs {
            Some(addrs) => addrs,
            None => Vec::new(),
        };
        (self.stack, overflow)
    }
}

impl Clone for Sp1Proof {
    fn clone(&self) -> (res: Self)
        ensures
            res == *self,
    {
        Sp1Proof {
            proof_file_path: self.proof_file_path.clone(),
            elf_file_path: self.elf_file_path.clone(),
        }
    }
}

impl Clone for JoltProof {
    fn clone(&self) -> (res: Self)
        ensures
            res == *self,
    {
        JoltProof {
            proof_file_path: self.proof_file_path.clone(),
            elf_file_path: self.elf_file_path.clone(),
        }
    }
}

impl Clone for MidenProof {
    fn clone(&self) -> (res: Self)
        ensures
            res == *self,
    {
        MidenProof {
            program_hash: self.program_hash.clone(),
            inputs_stack: self.inputs_stack.clone(),
            outputs_stack: self.outputs_stack.clone(),
            proof_file_path: self.proof_file_path.clone(),
        }
    }
}

impl Clone for Risc0Proof {
    fn clone(&self) -> (res: Self)
        ensures
            res == *self,
    {
        Risc0Proof {
            proof_file_path: self.proof_file_path.clone(),
            risc_zero_image_id: self.risc_zero_image_id.clone(),
        }
    }
}

impl Clone for VerifyProof {
    fn clone(&self) -> (res: Self)
        ensures
            res == *self,
    {
        VerifyProof { tx_id: self.tx_id.clone(), verify_type: self.verify_type }
    }
}

} // verus!
