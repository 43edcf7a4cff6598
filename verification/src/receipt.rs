//! The attestation that comes with a command, and what the arbiter asks of
//! it.

use crate::command::Command;
use risc0_zkvm::Receipt;
use vstd::prelude::*;

verus! {

/// `risc0_zkvm::Receipt`: an attestation that a program produced a journal.
/// Nothing is known of what it holds.
#[verifier::external_type_specification]
#[verifier::external_body]
pub struct ExReceipt(risc0_zkvm::Receipt);

/// The identifiers of the five programs, one for each kind of command.
pub struct ImageIds {
    pub join: [u32; 8],
    pub fire: [u32; 8],
    pub report: [u32; 8],
    pub wave: [u32; 8],
    pub win: [u32; 8],
}

impl ImageIds {
    /// The identifier of the program that a kind of command must come from.
    pub open spec fn expected(self, cmd: Command) -> [u32; 8] {
        match cmd {
            Command::Join => self.join,
            Command::Fire => self.fire,
            Command::Report => self.report,
            Command::Wave => self.wave,
            Command::Win => self.win,
        }
    }

    /// The identifier of the program that a kind of command must come from.
    pub fn of(&self, cmd: Command) -> (id: [u32; 8])
        ensures
            id == self.expected(cmd),
    {
        match cmd {
            Command::Join => self.join,
            Command::Fire => self.fire,
            Command::Report => self.report,
            Command::Wave => self.wave,
            Command::Win => self.win,
        }
    }
}

/// A command as it arrives: its kind, the attestation, the signature over
/// the attested bytes and, for a join, the public key.
pub struct CommunicationData {
    pub cmd: Command,
    pub receipt: Receipt,
    pub signature: Vec<u8>,
    pub public_key: Option<Vec<u8>>,
}

/// Calls `verify` of `risc0_zkvm::Receipt` with the image identifier and
/// reports whether it returned `Ok`. `verify` consults the process
/// environment, so the contract claims nothing of the result.
#[verifier::external_body]
pub(crate) fn receipt_verifies(receipt: &Receipt, image_id: &[u32; 8]) -> (ok: bool) {
    receipt.verify(*image_id).is_ok()
}

/// Copies the journal bytes out of a `risc0_zkvm::Receipt`: its public field
/// `journal.bytes`. The contract claims nothing of them.
#[verifier::external_body]
pub(crate) fn journal_bytes(receipt: &Receipt) -> (bytes: Vec<u8>) {
    receipt.journal.bytes.clone()
}

} // verus!
