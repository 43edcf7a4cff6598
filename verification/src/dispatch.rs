//! The command dispatcher: binds a command's kind to the program that must
//! have produced its attestation and to the shape of its journal, then hands
//! the journal to the matching handler.

use crate::command::{Command, Journal};
use crate::laws::all_consistent;
use crate::messages::{event_text, result_text, Details, DetailsModel, Reply};
use crate::outcome::Outcome;
use crate::receipt::{journal_bytes, receipt_verifies, CommunicationData, ImageIds};
use crate::session::SessionModel;
use crate::signature::{authenticates, key_decodes};
use crate::store::{
    claim_details, fire_details, join_details, key_outcome, report_details, signed_by,
    store_claim_effect, store_claim_outcome, store_fire_effect, store_fire_outcome,
    store_join_effect, store_join_outcome, store_report_effect, store_report_outcome,
    store_wave_effect, store_wave_outcome, wave_details, SessionStore,
};
use vstd::prelude::*;

verus! {

/// Whether a command is admitted to its handler: its attestation verified
/// against the program of its kind, and the journal decoded and has the shape
/// of that kind.
pub open spec fn admitted(cmd: Command, verified: bool, journal: Option<Journal>) -> bool {
    verified && journal is Some && cmd.fits(journal->0)
}

/// The details of the messages about a command that was not admitted: they
/// name nothing.
pub open spec fn blank_details() -> DetailsModel {
    DetailsModel {
        session: Seq::empty(),
        player: Seq::empty(),
        target: Seq::empty(),
        pos: 0,
        tag: Seq::empty(),
        claimant: Seq::empty(),
        debtor: Seq::empty(),
        successor: Seq::empty(),
        idle_since: 0,
        timeout: 0,
        claimants: Seq::empty(),
    }
}

/// The decision on a command whose attestation verified or not as `verified`
/// says, and whose attested bytes are `message`.
pub open spec fn dispatch_outcome(
    store: Seq<SessionModel>,
    cmd: Command,
    verified: bool,
    journal: Option<Journal>,
    message: Seq<u8>,
    signature: Seq<u8>,
    public_key: Option<Vec<u8>>,
    now: u64,
) -> Outcome {
    if !admitted(cmd, verified, journal) {
        Outcome::ReceiptInvalid
    } else {
        match journal->0 {
            Journal::Base(j) => {
                let signed = signed_by(store, j.gameid@, j.fleet@, message, signature);
                match cmd {
                    Command::Join => match key_outcome(public_key) {
                        Some(o) => o,
                        None => store_join_outcome(
                            store,
                            j,
                            key_decodes(public_key->0@),
                            authenticates(public_key->0@, message, signature),
                        ),
                    },
                    Command::Wave => store_wave_outcome(store, j, signed, now),
                    _ => store_claim_outcome(store, j, signed, now),
                }
            },
            Journal::Fire(j) => store_fire_outcome(
                store,
                j,
                signed_by(store, j.gameid@, j.fleet@, message, signature),
                now,
            ),
            Journal::Report(j) => store_report_outcome(
                store,
                j,
                signed_by(store, j.gameid@, j.fleet@, message, signature),
                now,
            ),
        }
    }
}

/// The store after a command.
pub open spec fn dispatch_effect(
    store: Seq<SessionModel>,
    cmd: Command,
    verified: bool,
    journal: Option<Journal>,
    message: Seq<u8>,
    signature: Seq<u8>,
    public_key: Option<Vec<u8>>,
    now: u64,
) -> Seq<SessionModel> {
    if !admitted(cmd, verified, journal) {
        store
    } else {
        match journal->0 {
            Journal::Base(j) => {
                let signed = signed_by(store, j.gameid@, j.fleet@, message, signature);
                match cmd {
                    Command::Join => match key_outcome(public_key) {
                        Some(o) => store,
                        None => store_join_effect(
                            store,
                            j,
                            public_key->0@,
                            key_decodes(public_key->0@),
                            authenticates(public_key->0@, message, signature),
                            now,
                        ),
                    },
                    Command::Wave => store_wave_effect(store, j, signed, now),
                    _ => store_claim_effect(store, j, signed, now),
                }
            },
            Journal::Fire(j) => store_fire_effect(
                store,
                j,
                signed_by(store, j.gameid@, j.fleet@, message, signature),
                now,
            ),
            Journal::Report(j) => store_report_effect(
                store,
                j,
                signed_by(store, j.gameid@, j.fleet@, message, signature),
                now,
            ),
        }
    }
}

/// The details of the messages about a command.
pub open spec fn dispatch_details(
    store: Seq<SessionModel>,
    cmd: Command,
    verified: bool,
    journal: Option<Journal>,
    message: Seq<u8>,
    signature: Seq<u8>,
    now: u64,
) -> DetailsModel {
    if !admitted(cmd, verified, journal) {
        blank_details()
    } else {
        match journal->0 {
            Journal::Base(j) => match cmd {
                Command::Join => join_details(store, j),
                Command::Wave => wave_details(store, j),
                _ => claim_details(
                    store,
                    j,
                    signed_by(store, j.gameid@, j.fleet@, message, signature),
                    now,
                ),
            },
            Journal::Fire(j) => fire_details(store, j),
            Journal::Report(j) => report_details(store, j),
        }
    }
}

impl SessionStore {
    /// Routes a command to its handler. `verified` says whether the
    /// attestation verified against the program of the command's kind,
    /// `journal` is its decoded output (`None` where it did not decode) and
    /// `message` its raw bytes. A command that is not admitted is answered
    /// with "Could not verify receipt" and changes nothing.
    pub fn dispatch(
        &mut self,
        cmd: Command,
        verified: bool,
        journal: &Option<Journal>,
        message: &Vec<u8>,
        signature: &Vec<u8>,
        public_key: &Option<Vec<u8>>,
        now: u64,
    ) -> (reply: Reply)
        requires
            old(self).wf(),
        ensures
            final(self).wf(),
            all_consistent(old(self)@) ==> all_consistent(final(self)@),
            reply.outcome == dispatch_outcome(
                old(self)@,
                cmd,
                verified,
                *journal,
                message@,
                signature@,
                *public_key,
                now,
            ),
            reply.result@ == result_text(
                cmd,
                reply.outcome,
                dispatch_details(old(self)@, cmd, verified, *journal, message@, signature@, now),
            ),
            reply.event@ == event_text(
                cmd,
                reply.outcome,
                dispatch_details(old(self)@, cmd, verified, *journal, message@, signature@, now),
            ),
            final(self)@ == dispatch_effect(
                old(self)@,
                cmd,
                verified,
                *journal,
                message@,
                signature@,
                *public_key,
                now,
            ),
    {
        if verified {
            match journal {
                Some(Journal::Base(j)) => match cmd {
                    Command::Join => {
                        return self.handle_join(j, public_key, message, signature, now);
                    },
                    Command::Wave => {
                        return self.handle_wave(j, message, signature, now);
                    },
                    Command::Win => {
                        return self.handle_win(j, message, signature, now);
                    },
                    _ => {},
                },
                Some(Journal::Fire(j)) => match cmd {
                    Command::Fire => {
                        return self.handle_fire(j, message, signature, now);
                    },
                    _ => {},
                },
                Some(Journal::Report(j)) => match cmd {
                    Command::Report => {
                        return self.handle_report(j, message, signature, now);
                    },
                    _ => {},
                },
                None => {},
            }
        }
        let blank: String = String::new();
        let d: Details = Details::of(&blank, &blank);
        Reply::compose(cmd, Outcome::ReceiptInvalid, &d)
    }

    /// Handles a command as it arrives: verifies the attestation against the
    /// program of the command's kind and dispatches on what came of it, with
    /// the attestation's journal bytes as the signed message. `journal` is
    /// the attestation's decoded output, `None` where it did not decode.
    pub fn smart_contract(
        &mut self,
        data: &CommunicationData,
        journal: &Option<Journal>,
        ids: &ImageIds,
        now: u64,
    ) -> (reply: Reply)
        requires
            old(self).wf(),
        ensures
            final(self).wf(),
            all_consistent(old(self)@) ==> all_consistent(final(self)@),
            exists|verified: bool, message: Seq<u8>|
                {
                    &&& reply.outcome == #[trigger] dispatch_outcome(
                        old(self)@,
                        data.cmd,
                        verified,
                        *journal,
                        message,
                        data.signature@,
                        data.public_key,
                        now,
                    )
                    &&& reply.result@ == result_text(
                        data.cmd,
                        reply.outcome,
                        dispatch_details(
                            old(self)@,
                            data.cmd,
                            verified,
                            *journal,
                            message,
                            data.signature@,
                            now,
                        ),
                    )
                    &&& reply.event@ == event_text(
                        data.cmd,
                        reply.outcome,
                        dispatch_details(
                            old(self)@,
                            data.cmd,
                            verified,
                            *journal,
                            message,
                            data.signature@,
                            now,
                        ),
                    )
                    &&& final(self)@ == dispatch_effect(
                        old(self)@,
                        data.cmd,
                        verified,
                        *journal,
                        message,
                        data.signature@,
                        data.public_key,
                        now,
                    )
                },
    {
        let id: [u32; 8] = ids.of(data.cmd);
        let verified: bool = receipt_verifies(&data.receipt, &id);
        let message: Vec<u8> = journal_bytes(&data.receipt);
        self.dispatch(data.cmd, verified, journal, &message, &data.signature, &data.public_key, now)
    }
}

} // verus!
