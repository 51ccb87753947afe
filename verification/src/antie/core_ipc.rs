//! The validator's core, as the gateway asks it: to filter a transaction before
//! the ledger service sees it, and to verify a fan-out message before it is
//! passed on.
//!
//! What the core takes and the gateway does not read is held in CBOR.
use vstd::prelude::*;
use crate::antie::error::{labelled, AntieError, ErrorView};
use crate::antie::payload;

verus! {

/// What the core is asked for.
#[derive(Debug, Clone, Copy, PartialEq, Eq, Structural)]
pub enum CoreLogicMode {
    /// The checks on a transaction that need no stored state.
    Cl2Prefilter,
    /// The checks on a fan-out message.
    Cl10,
}

/// What the core is given. All that is not listed here it is given empty.
pub struct CoreInputs {
    pub mode: CoreLogicMode,
    /// Zero, which leaves the check of the core's own identity to the ledger
    /// service.
    pub local_core_id: [u8; 32],
    /// `None` for the default transaction.
    pub transaction: Option<Vec<u8>>,
    pub prev_receipts: Vec<Vec<u8>>,
    /// The gateway never claims to know a wallet's state.
    pub current_state: Option<Vec<u8>>,
    pub vbc_bundle: Option<Vec<u8>>,
    pub my_validator_pk: Option<Vec<u8>>,
    pub overlapped_signatures: Vec<Vec<u8>>,
    pub sender_fact_chain: Option<Vec<u8>>,
    pub fanout_message: Option<Vec<u8>>,
    pub current_tick: u64,
}

/// What the core decides.
#[derive(Debug, Clone, Copy, PartialEq, Eq, Structural)]
pub enum ValidationResult {
    Accept,
    Reject,
    /// The validator's own certificates do not hold up.
    Fatal,
}

/// What the core returns.
pub struct CoreOutputs {
    pub result: ValidationResult,
    pub rejection_reason: Option<String>,
    pub produced_state_id: Option<[u8; 32]>,
    pub new_wallet_seq: Option<u64>,
    pub commitment_hash: Option<[u8; 32]>,
    pub fanout_new_ttl: Option<u8>,
}

/// The outcome of filtering a transaction.
pub struct ValidationOutput {
    pub accepted: bool,
    pub new_state_id: Option<[u8; 32]>,
    pub new_wallet_seq: Option<u64>,
    pub commitment_hash: Option<[u8; 32]>,
    pub rejection_reason: Option<String>,
}

/// The outcome of verifying a fan-out message.
pub struct FanOutVerifyResult {
    pub accepted: bool,
    pub new_ttl: u8,
    pub rejection_reason: Option<String>,
}

/// The exit status of a validator that must shut down.
pub const FATAL_EXIT: i32 = 78;

/// What comes of asking the core about a transaction.
pub enum Cl2Outcome {
    /// An answer, or a failure of the core.
    Answer(Result<ValidationOutput, AntieError>),
    /// The validator must shut down, for the given reason.
    ShutDown { reason: String, status: i32 },
}

/// The inputs for filtering a transaction.
pub fn cl2_inputs(
    transaction: Vec<u8>,
    prev_receipts: Vec<Vec<u8>>,
    overlapped_signatures: Vec<Vec<u8>>,
    vbc_bundle: Option<Vec<u8>>,
    my_validator_pk: Option<Vec<u8>>,
    sender_fact_chain: Option<Vec<u8>>,
) -> (r: CoreInputs)
    ensures
        r.mode == CoreLogicMode::Cl2Prefilter,
        r.local_core_id@ == Seq::new(32, |i: int| 0u8),
        r.transaction == Some(transaction),
        r.prev_receipts == prev_receipts,
        r.current_state is None,
        r.vbc_bundle == vbc_bundle,
        r.my_validator_pk == my_validator_pk,
        r.overlapped_signatures == overlapped_signatures,
        r.sender_fact_chain == sender_fact_chain,
        r.fanout_message is None,
        r.current_tick == 0,
{
    let id: [u8; 32] = [0u8; 32];
    assert(id@ == Seq::new(32, |i: int| 0u8));
    CoreInputs {
        mode: CoreLogicMode::Cl2Prefilter,
        local_core_id: id,
        transaction: Some(transaction),
        prev_receipts,
        current_state: None,
        vbc_bundle,
        my_validator_pk,
        overlapped_signatures,
        sender_fact_chain,
        fanout_message: None,
        current_tick: 0,
    }
}

/// The inputs for verifying a fan-out message.
pub fn cl10_inputs(fanout_message: Vec<u8>, vbc_bundle: Option<Vec<u8>>) -> (r: CoreInputs)
    ensures
        r.mode == CoreLogicMode::Cl10,
        r.local_core_id@ == Seq::new(32, |i: int| 0u8),
        r.transaction is None,
        r.prev_receipts@.len() == 0,
        r.current_state is None,
        r.vbc_bundle == vbc_bundle,
        r.my_validator_pk is None,
        r.overlapped_signatures@.len() == 0,
        r.sender_fact_chain is None,
        r.fanout_message == Some(fanout_message),
        r.current_tick == 0,
{
    let id: [u8; 32] = [0u8; 32];
    assert(id@ == Seq::new(32, |i: int| 0u8));
    CoreInputs {
        mode: CoreLogicMode::Cl10,
        local_core_id: id,
        transaction: None,
        prev_receipts: Vec::new(),
        current_state: None,
        vbc_bundle,
        my_validator_pk: None,
        overlapped_signatures: Vec::new(),
        sender_fact_chain: None,
        fanout_message: Some(fanout_message),
        current_tick: 0,
    }
}

/// The reason that the core gives, or that it gives none.
pub open spec fn reason_of(o: Option<String>) -> Seq<char> {
    match o {
        Some(s) => s@,
        None => "Unknown"@,
    }
}

fn reason(o: Option<String>) -> (r: String)
    ensures
        r@ == reason_of(o),
{
    match o {
        Some(s) => s,
        None => String::from_str("Unknown"),
    }
}

/// What the core's answer about a transaction means.
pub fn validate_transaction_cl2(outputs: Result<CoreOutputs, String>) -> (r: Cl2Outcome)
    ensures
        match outputs {
            Err(e) => r matches Cl2Outcome::Answer(Err(got)) && got@ == ErrorView::CoreError(
                "AVM: "@ + e@,
            ),
            Ok(o) => match o.result {
                ValidationResult::Accept => r matches Cl2Outcome::Answer(Ok(v)) && v.accepted
                    && v.new_state_id == o.produced_state_id && v.new_wallet_seq == o.new_wallet_seq
                    && v.commitment_hash == o.commitment_hash && v.rejection_reason is None,
                ValidationResult::Reject => r matches Cl2Outcome::Answer(Ok(v)) && !v.accepted
                    && v.new_state_id is None && v.new_wallet_seq is None && v.commitment_hash is None
                    && payload::opt(v.rejection_reason) == Some(reason_of(o.rejection_reason)),
                ValidationResult::Fatal => r matches Cl2Outcome::ShutDown { reason, status } && reason@
                    == reason_of(o.rejection_reason) && status == FATAL_EXIT,
            },
        },
{
    match outputs {
        Err(e) => Cl2Outcome::Answer(Err(AntieError::CoreError(labelled("AVM: ", e.as_str())))),
        Ok(o) => match o.result {
            ValidationResult::Accept => Cl2Outcome::Answer(
                Ok(
                    ValidationOutput {
                        accepted: true,
                        new_state_id: o.produced_state_id,
                        new_wallet_seq: o.new_wallet_seq,
                        commitment_hash: o.commitment_hash,
                        rejection_reason: None,
                    },
                ),
            ),
            ValidationResult::Reject => Cl2Outcome::Answer(
                Ok(
                    ValidationOutput {
                        accepted: false,
                        new_state_id: None,
                        new_wallet_seq: None,
                        commitment_hash: None,
                        rejection_reason: Some(reason(o.rejection_reason)),
                    },
                ),
            ),
            ValidationResult::Fatal => Cl2Outcome::ShutDown {
                reason: reason(o.rejection_reason),
                status: FATAL_EXIT,
            },
        },
    }
}

/// What the core's answer about a fan-out message means.
pub fn verify_fanout_cl10(outputs: Result<CoreOutputs, String>) -> (r: Result<
    FanOutVerifyResult,
    AntieError,
>)
    ensures
        match outputs {
            Err(e) => r matches Err(got) && got@ == ErrorView::CoreError("CL10 AVM: "@ + e@),
            Ok(o) => r matches Ok(v) && match o.result {
                ValidationResult::Accept => v.accepted && v.rejection_reason is None && v.new_ttl == (
                match o.fanout_new_ttl {
                    Some(t) => t,
                    None => 0,
                }),
                ValidationResult::Reject => !v.accepted && v.new_ttl == 0 && payload::opt(
                    v.rejection_reason,
                ) == Some(reason_of(o.rejection_reason)),
                ValidationResult::Fatal => !v.accepted && v.new_ttl == 0 && payload::opt(
                    v.rejection_reason,
                ) == Some("Fatal error in CL10"@),
            },
        },
{
    match outputs {
        Err(e) => Err(AntieError::CoreError(labelled("CL10 AVM: ", e.as_str()))),
        Ok(o) => match o.result {
            ValidationResult::Accept => {
                let new_ttl: u8 = match o.fanout_new_ttl {
                    Some(t) => t,
                    None => 0,
                };
                Ok(FanOutVerifyResult { accepted: true, new_ttl, rejection_reason: None })
            },
            ValidationResult::Reject => Ok(
                FanOutVerifyResult {
                    accepted: false,
                    new_ttl: 0,
                    rejection_reason: Some(reason(o.rejection_reason)),
                },
            ),
            ValidationResult::Fatal => Ok(
                FanOutVerifyResult {
                    accepted: false,
                    new_ttl: 0,
                    rejection_reason: Some(String::from_str("Fatal error in CL10")),
                },
            ),
        },
    }
}


/// The reason is the one that is given, if one is.
pub proof fn law_reason_is_what_is_given(given: String)
    ensures
        reason_of(Some(given)) == given@,
        reason_of(None) == "Unknown"@,
{
}


/// What a process that cannot go on exits with.
pub proof fn law_fatal_exit_is_a_configuration_error()
    ensures
        FATAL_EXIT == 78,
{
}

} // verus!
