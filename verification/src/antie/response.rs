//! Answers to requests.
use vstd::prelude::*;
use vstd::utf8::*;
use crate::antie::cbor;
use crate::antie::cbor_map;
use crate::antie::cbor_map::{write_text, MapWriter};
use crate::antie::email;
use crate::antie::error::{labelled, AntieError, ErrorView};
use crate::antie::lambda_client::{ErrorInfo, ValidatorHint};
use crate::antie::payload;
use crate::json;
use crate::json::{Json, JsonValue};

verus! {

/// An answer to a request. What the gateway only passes on is held in CBOR.
pub struct ResponsePayload {
    /// Whether the request succeeded.
    pub success: bool,
    /// The request that this answers.
    pub request_id: String,
    /// The validator's signature as a witness.
    pub witness_signature: Option<Vec<u8>>,
    /// A cheque for the receiver.
    pub cheque_for_receiver: Option<Vec<u8>>,
    /// The proof of a receiver's consent, for the sender's next hops.
    pub scar_consent_voucher: Option<Vec<u8>>,
    /// The wallet's new state.
    pub produced_state_id: Option<Vec<u8>>,
    /// The receipt, once there are witnesses enough.
    pub receipt: Option<Vec<u8>>,
    /// The core's hashes.
    pub commitment_hash: Option<Vec<u8>>,
    pub state_hash: Option<Vec<u8>>,
    pub receipt_commitment: Option<Vec<u8>>,
    /// The transaction.
    pub txid: Option<Vec<u8>>,
    /// Genesis: the wallet's first state.
    pub state_id: Option<Vec<u8>>,
    /// What went wrong.
    pub error: Option<String>,
    /// The kind of what went wrong.
    pub rejection_code: Option<String>,
    /// What went wrong, as the ledger service reports it.
    pub error_response: Option<ErrorInfo>,
    /// Other validators.
    pub validator_hints: Vec<ValidatorHint>,
    /// The wallets' fact chains.
    pub sender_fact_chain: Option<Vec<u8>>,
    pub receiver_fact_chain: Option<Vec<u8>>,
    /// The validator's signature on a fact link.
    pub fact_signature: Option<Vec<u8>>,
    /// What a query found.
    pub query_data: Option<JsonValue>,
}

impl ResponsePayload {
    /// Whether the answer carries no signature, hash, receipt or other proof.
    pub open spec fn proves_nothing(self) -> bool {
        &&& self.witness_signature is None
        &&& self.cheque_for_receiver is None
        &&& self.scar_consent_voucher is None
        &&& self.produced_state_id is None
        &&& self.receipt is None
        &&& self.commitment_hash is None
        &&& self.state_hash is None
        &&& self.receipt_commitment is None
        &&& self.txid is None
        &&& self.state_id is None
        &&& self.error_response is None
        &&& self.sender_fact_chain is None
        &&& self.receiver_fact_chain is None
        &&& self.fact_signature is None
    }

    /// Whether the answer says nothing besides whether the request succeeded,
    /// which one it was, and what went wrong.
    pub open spec fn is_bare(self) -> bool {
        self.proves_nothing() && self.validator_hints@.len() == 0 && self.query_data is None
    }

    /// Whether the answer is the bare one with the given parts.
    pub open spec fn says(
        self,
        success: bool,
        request_id: Seq<char>,
        error: Option<Seq<char>>,
        code: Option<Seq<char>>,
    ) -> bool {
        &&& self.success == success
        &&& self.request_id@ == request_id
        &&& payload::opt(self.error) == error
        &&& payload::opt(self.rejection_code) == code
        &&& self.is_bare()
    }

    /// A bare answer.
    pub fn bare(success: bool, request_id: &str, error: Option<String>, code: Option<&str>) -> (r:
        Self)
        ensures
            r.says(
                success,
                request_id@,
                payload::opt(error),
                match code {
                    Some(c) => Some(c@),
                    None => None,
                },
            ),
    {
        ResponsePayload {
            success,
            request_id: String::from_str(request_id),
            witness_signature: None,
            cheque_for_receiver: None,
            scar_consent_voucher: None,
            produced_state_id: None,
            receipt: None,
            commitment_hash: None,
            state_hash: None,
            receipt_commitment: None,
            txid: None,
            state_id: None,
            error,
            rejection_code: match code {
                Some(c) => Some(String::from_str(c)),
                None => None,
            },
            error_response: None,
            validator_hints: Vec::new(),
            sender_fact_chain: None,
            receiver_fact_chain: None,
            fact_signature: None,
            query_data: None,
        }
    }
}

// ---------------------------------------------------------------------------
// The CBOR form
// ---------------------------------------------------------------------------

/// The CBOR form of a truth value.
pub open spec fn flag_item(b: bool) -> Seq<u8> {
    seq![if b { 245u8 } else { 244u8 }]
}

/// The CBOR form of bytes.
pub open spec fn bytes_item(b: Seq<u8>) -> Seq<u8> {
    cbor::head(2, b.len()) + b
}

/// The CBOR form of optional bytes.
pub open spec fn opt_bytes(o: Option<Vec<u8>>) -> Option<Seq<u8>> {
    match o {
        Some(b) => Some(bytes_item(b@)),
        None => None,
    }
}

/// The CBOR form of optional text.
pub open spec fn opt_text(o: Option<String>) -> Option<Seq<u8>> {
    match o {
        Some(s) => Some(cbor::text_item(s@)),
        None => None,
    }
}

/// The CBOR form of an optional error.
pub open spec fn opt_error(o: Option<ErrorInfo>) -> Option<Seq<u8>> {
    match o {
        Some(e) => Some(e.cbor@),
        None => None,
    }
}

/// The CBOR forms of what is known of validators, one after the other.
pub open spec fn hints_cbor(h: Seq<ValidatorHint>) -> Seq<u8>
    decreases h.len(),
{
    if h.len() == 0 {
        Seq::empty()
    } else {
        hints_cbor(h.drop_last()) + h.last().cbor@
    }
}

/// The CBOR form of what is known of validators, if there are any.
pub open spec fn opt_hints(h: Seq<ValidatorHint>) -> Option<Seq<u8>> {
    if h.len() == 0 {
        None
    } else {
        Some(cbor::head(4, h.len()) + hints_cbor(h))
    }
}

/// The fields of an answer. `query` is what a query found, in CBOR.
pub open spec fn response_fields(r: ResponsePayload, query: Option<Seq<u8>>) -> Seq<
    (Seq<char>, Seq<u8>),
> {
    cbor_map::field("success"@, Some(flag_item(r.success))) + cbor_map::field("request_id"@, Some(cbor::text_item(r.request_id@))) + cbor_map::field("witness_signature"@, payload::opt(r.witness_signature)) + cbor_map::field("cheque_for_receiver"@, payload::opt(r.cheque_for_receiver)) + cbor_map::field("scar_consent_voucher"@, payload::opt(r.scar_consent_voucher)) + cbor_map::field("produced_state_id"@, opt_bytes(r.produced_state_id)) + cbor_map::field("receipt"@, payload::opt(r.receipt)) + cbor_map::field("commitment_hash"@, opt_bytes(r.commitment_hash)) + cbor_map::field("state_hash"@, opt_bytes(r.state_hash)) + cbor_map::field("receipt_commitment"@, opt_bytes(r.receipt_commitment)) + cbor_map::field("txid"@, opt_bytes(r.txid)) + cbor_map::field("state_id"@, opt_bytes(r.state_id)) + cbor_map::field("error"@, opt_text(r.error)) + cbor_map::field("rejection_code"@, opt_text(r.rejection_code)) + cbor_map::field("error_response"@, opt_error(r.error_response)) + cbor_map::field("validator_hints"@, opt_hints(r.validator_hints@)) + cbor_map::field("sender_fact_chain"@, payload::opt(r.sender_fact_chain)) + cbor_map::field("receiver_fact_chain"@, payload::opt(r.receiver_fact_chain)) + cbor_map::field("fact_signature"@, opt_bytes(r.fact_signature)) + cbor_map::field("query_data"@, query)
}

/// What a query found, in CBOR, or why it has no form there.
pub open spec fn query_form(data: Option<JsonValue>) -> Result<Option<Seq<u8>>, Seq<char>> {
    match data {
        Some(v) => match cbor_map::ciborium_form(json::json_text(v@)) {
            Ok(b) => Ok(Some(b)),
            Err(e) => Err(e),
        },
        None => Ok(None),
    }
}

fn write_flag(b: bool) -> (r: Vec<u8>)
    ensures
        r@ == flag_item(b),
{
    let mut out: Vec<u8> = Vec::new();
    out.push(
        if b {
            245
        } else {
            244
        },
    );
    assert(out@ == flag_item(b));
    out
}

fn write_opt_text(o: &Option<String>) -> (r: Option<Vec<u8>>)
    ensures
        payload::opt(r) == opt_text(*o),
{
    match o {
        Some(s) => Some(write_text(s.as_str())),
        None => None,
    }
}

fn write_opt_bytes(o: &Option<Vec<u8>>) -> (r: Option<Vec<u8>>)
    ensures
        payload::opt(r) == opt_bytes(*o),
{
    match o {
        Some(b) => {
            let mut out: Vec<u8> = Vec::new();
            cbor::encode_head(2, b.len() as u64, &mut out);
            cbor::push_bytes(&mut out, b.as_slice());
            assert(out@ == bytes_item(b@));
            Some(out)
        },
        None => None,
    }
}

fn copy_item(o: &Option<Vec<u8>>) -> (r: Option<Vec<u8>>)
    ensures
        payload::opt(r) == payload::opt(*o),
{
    match o {
        Some(b) => Some(vstd::slice::slice_to_vec(b.as_slice())),
        None => None,
    }
}

fn write_opt_error(o: &Option<ErrorInfo>) -> (r: Option<Vec<u8>>)
    ensures
        payload::opt(r) == opt_error(*o),
{
    match o {
        Some(e) => Some(vstd::slice::slice_to_vec(e.cbor.as_slice())),
        None => None,
    }
}

fn write_opt_hints(h: &Vec<ValidatorHint>) -> (r: Option<Vec<u8>>)
    ensures
        payload::opt(r) == opt_hints(h@),
{
    if h.len() == 0 {
        return None;
    }
    let mut out: Vec<u8> = Vec::new();
    cbor::encode_head(4, h.len() as u64, &mut out);
    let ghost first = out@;
    let mut i: usize = 0;
    assert(first + hints_cbor(h@.take(0)) == first);
    while i < h.len()
        invariant
            i <= h@.len(),
            out@ == first + hints_cbor(h@.take(i as int)),
        decreases h@.len() - i,
    {
        proof {
            assert(h@.take(i + 1).drop_last() == h@.take(i as int));
        }
        cbor::push_bytes(&mut out, h[i].cbor.as_slice());
        proof {
            assert(out@ == first + hints_cbor(h@.take(i + 1)));
        }
        i = i + 1;
    }
    assert(h@.take(h@.len() as int) == h@);
    assert(out@ == cbor::head(4, h@.len()) + hints_cbor(h@));
    Some(out)
}

impl ResponsePayload {
    /// The answer in CBOR: a map of its fields, without those that have no value. Bytes are
    /// written as byte strings. What a query found may have no form in CBOR; the answer then
    /// has none.
    pub fn to_cbor(&self) -> (r: Result<Vec<u8>, AntieError>)
        ensures
            match query_form(self.query_data) {
                Ok(query) => r matches Ok(b) && b@ == email::cbor_map(response_fields(*self, query)),
                Err(e) => r matches Err(got) && got@ == ErrorView::SerializationError(
                    "CBOR encode: "@ + e,
                ),
            },
    {
        let query = match &self.query_data {
            Some(v) => match cbor_map::write_json(v) {
                Ok(b) => Some(b),
                Err(e) => {
                    return Err(AntieError::SerializationError(labelled("CBOR encode: ", e.as_str())));
                },
            },
            None => None,
        };
        let ghost found = payload::opt(query);
        let mut w = MapWriter::new();
        w.push("success", Some(write_flag(self.success)));
        w.push("request_id", Some(write_text(self.request_id.as_str())));
        w.push("witness_signature", copy_item(&self.witness_signature));
        w.push("cheque_for_receiver", copy_item(&self.cheque_for_receiver));
        w.push("scar_consent_voucher", copy_item(&self.scar_consent_voucher));
        w.push("produced_state_id", write_opt_bytes(&self.produced_state_id));
        w.push("receipt", copy_item(&self.receipt));
        w.push("commitment_hash", write_opt_bytes(&self.commitment_hash));
        w.push("state_hash", write_opt_bytes(&self.state_hash));
        w.push("receipt_commitment", write_opt_bytes(&self.receipt_commitment));
        w.push("txid", write_opt_bytes(&self.txid));
        w.push("state_id", write_opt_bytes(&self.state_id));
        w.push("error", write_opt_text(&self.error));
        w.push("rejection_code", write_opt_text(&self.rejection_code));
        w.push("error_response", write_opt_error(&self.error_response));
        w.push("validator_hints", write_opt_hints(&self.validator_hints));
        w.push("sender_fact_chain", copy_item(&self.sender_fact_chain));
        w.push("receiver_fact_chain", copy_item(&self.receiver_fact_chain));
        w.push("fact_signature", write_opt_bytes(&self.fact_signature));
        w.push("query_data", query);
        proof {
            assert(w.fields@ == response_fields(*self, found));
        }
        Ok(w.finish())
    }
}

/// The names of an answer's parts in turn, and the parts.
spec fn answer_part(r: ResponsePayload, query: Option<Seq<u8>>, at: int) -> (Seq<char>, Option<Seq<u8>>) {
    if at == 0 {
        ("success"@, Some(flag_item(r.success)))
    } else if at == 1 {
        ("request_id"@, Some(cbor::text_item(r.request_id@)))
    } else if at == 2 {
        ("witness_signature"@, payload::opt(r.witness_signature))
    } else if at == 3 {
        ("cheque_for_receiver"@, payload::opt(r.cheque_for_receiver))
    } else if at == 4 {
        ("scar_consent_voucher"@, payload::opt(r.scar_consent_voucher))
    } else if at == 5 {
        ("produced_state_id"@, opt_bytes(r.produced_state_id))
    } else if at == 6 {
        ("receipt"@, payload::opt(r.receipt))
    } else if at == 7 {
        ("commitment_hash"@, opt_bytes(r.commitment_hash))
    } else if at == 8 {
        ("state_hash"@, opt_bytes(r.state_hash))
    } else if at == 9 {
        ("receipt_commitment"@, opt_bytes(r.receipt_commitment))
    } else if at == 10 {
        ("txid"@, opt_bytes(r.txid))
    } else if at == 11 {
        ("state_id"@, opt_bytes(r.state_id))
    } else if at == 12 {
        ("error"@, opt_text(r.error))
    } else if at == 13 {
        ("rejection_code"@, opt_text(r.rejection_code))
    } else if at == 14 {
        ("error_response"@, opt_error(r.error_response))
    } else if at == 15 {
        ("validator_hints"@, opt_hints(r.validator_hints@))
    } else if at == 16 {
        ("sender_fact_chain"@, payload::opt(r.sender_fact_chain))
    } else if at == 17 {
        ("receiver_fact_chain"@, payload::opt(r.receiver_fact_chain))
    } else if at == 18 {
        ("fact_signature"@, opt_bytes(r.fact_signature))
    } else {
        ("query_data"@, query)
    }
}

/// The first parts of an answer.
spec fn answer_parts(r: ResponsePayload, query: Option<Seq<u8>>, n: nat) -> Seq<(Seq<char>, Seq<u8>)>
    decreases n,
{
    if n == 0 {
        Seq::empty()
    } else {
        let part = answer_part(r, query, n - 1);
        answer_parts(r, query, (n - 1) as nat) + cbor_map::field(part.0, part.1)
    }
}

/// What tells the names of an answer's parts apart: their lengths and first letters.
proof fn lemma_answer_names()
    ensures
        "success"@.len() == 7 && "success"@[0] == 's',
        "request_id"@.len() == 10 && "request_id"@[0] == 'r',
        "witness_signature"@.len() == 17 && "witness_signature"@[0] == 'w',
        "cheque_for_receiver"@.len() == 19 && "cheque_for_receiver"@[0] == 'c',
        "scar_consent_voucher"@.len() == 20 && "scar_consent_voucher"@[0] == 's',
        "produced_state_id"@.len() == 17 && "produced_state_id"@[0] == 'p',
        "receipt"@.len() == 7 && "receipt"@[0] == 'r',
        "commitment_hash"@.len() == 15 && "commitment_hash"@[0] == 'c',
        "state_hash"@.len() == 10 && "state_hash"@[0] == 's',
        "receipt_commitment"@.len() == 18 && "receipt_commitment"@[0] == 'r',
        "txid"@.len() == 4 && "txid"@[0] == 't',
        "state_id"@.len() == 8 && "state_id"@[0] == 's',
        "error"@.len() == 5 && "error"@[0] == 'e',
        "rejection_code"@.len() == 14 && "rejection_code"@[0] == 'r',
        "error_response"@.len() == 14 && "error_response"@[0] == 'e',
        "validator_hints"@.len() == 15 && "validator_hints"@[0] == 'v',
        "sender_fact_chain"@.len() == 17 && "sender_fact_chain"@[0] == 's',
        "receiver_fact_chain"@.len() == 19 && "receiver_fact_chain"@[0] == 'r',
        "fact_signature"@.len() == 14 && "fact_signature"@[0] == 'f',
        "query_data"@.len() == 10 && "query_data"@[0] == 'q',
{
    reveal_strlit("success");
    reveal_strlit("request_id");
    reveal_strlit("witness_signature");
    reveal_strlit("cheque_for_receiver");
    reveal_strlit("scar_consent_voucher");
    reveal_strlit("produced_state_id");
    reveal_strlit("receipt");
    reveal_strlit("commitment_hash");
    reveal_strlit("state_hash");
    reveal_strlit("receipt_commitment");
    reveal_strlit("txid");
    reveal_strlit("state_id");
    reveal_strlit("error");
    reveal_strlit("rejection_code");
    reveal_strlit("error_response");
    reveal_strlit("validator_hints");
    reveal_strlit("sender_fact_chain");
    reveal_strlit("receiver_fact_chain");
    reveal_strlit("fact_signature");
    reveal_strlit("query_data");
}

proof fn lemma_answer_names_differ(r: ResponsePayload, query: Option<Seq<u8>>, i: int, j: int)
    requires
        0 <= i < 20,
        0 <= j < 20,
        answer_part(r, query, i).0 == answer_part(r, query, j).0,
    ensures
        i == j,
{
    lemma_answer_names();
}

proof fn lemma_answer_walk(r: ResponsePayload, query: Option<Seq<u8>>, at: int, n: nat)
    requires
        0 <= at < 20,
        n <= 20,
    ensures
        at < n ==> cbor_map::holds_only(
            answer_parts(r, query, n),
            answer_part(r, query, at).0,
            answer_part(r, query, at).1,
        ),
        at >= n ==> cbor_map::lacks(answer_parts(r, query, n), answer_part(r, query, at).0),
    decreases n,
{
    if n > 0 {
        lemma_answer_walk(r, query, at, (n - 1) as nat);
        let (name, value) = answer_part(r, query, at);
        let part = answer_part(r, query, n - 1);
        cbor_map::lemma_field_added(answer_parts(r, query, (n - 1) as nat), part.0, part.1, name, value);
        if at != n - 1 && part.0 == name {
            lemma_answer_names_differ(r, query, at, n - 1);
        }
    }
}

proof fn lemma_answer_parts(r: ResponsePayload, query: Option<Seq<u8>>)
    ensures
        answer_parts(r, query, 20) == response_fields(r, query),
{
    reveal_with_fuel(answer_parts, 21);
    let first = cbor_map::field("success"@, Some(flag_item(r.success)));
    assert(Seq::<(Seq<char>, Seq<u8>)>::empty() + first == first);
}

/// An answer in CBOR holds under each name that part of the answer, once, and no other; where the
/// answer lacks the part, the name is not there.
pub proof fn law_answer_holds_its_parts(r: ResponsePayload, query: Option<Seq<u8>>)
    ensures
        cbor_map::holds_only(response_fields(r, query), "success"@, Some(flag_item(r.success))),
        cbor_map::holds_only(response_fields(r, query), "request_id"@, Some(cbor::text_item(r.request_id@))),
        cbor_map::holds_only(response_fields(r, query), "witness_signature"@, payload::opt(r.witness_signature)),
        cbor_map::holds_only(response_fields(r, query), "cheque_for_receiver"@, payload::opt(r.cheque_for_receiver)),
        cbor_map::holds_only(response_fields(r, query), "scar_consent_voucher"@, payload::opt(r.scar_consent_voucher)),
        cbor_map::holds_only(response_fields(r, query), "produced_state_id"@, opt_bytes(r.produced_state_id)),
        cbor_map::holds_only(response_fields(r, query), "receipt"@, payload::opt(r.receipt)),
        cbor_map::holds_only(response_fields(r, query), "commitment_hash"@, opt_bytes(r.commitment_hash)),
        cbor_map::holds_only(response_fields(r, query), "state_hash"@, opt_bytes(r.state_hash)),
        cbor_map::holds_only(response_fields(r, query), "receipt_commitment"@, opt_bytes(r.receipt_commitment)),
        cbor_map::holds_only(response_fields(r, query), "txid"@, opt_bytes(r.txid)),
        cbor_map::holds_only(response_fields(r, query), "state_id"@, opt_bytes(r.state_id)),
        cbor_map::holds_only(response_fields(r, query), "error"@, opt_text(r.error)),
        cbor_map::holds_only(response_fields(r, query), "rejection_code"@, opt_text(r.rejection_code)),
        cbor_map::holds_only(response_fields(r, query), "error_response"@, opt_error(r.error_response)),
        cbor_map::holds_only(response_fields(r, query), "validator_hints"@, opt_hints(r.validator_hints@)),
        cbor_map::holds_only(response_fields(r, query), "sender_fact_chain"@, payload::opt(r.sender_fact_chain)),
        cbor_map::holds_only(response_fields(r, query), "receiver_fact_chain"@, payload::opt(r.receiver_fact_chain)),
        cbor_map::holds_only(response_fields(r, query), "fact_signature"@, opt_bytes(r.fact_signature)),
        cbor_map::holds_only(response_fields(r, query), "query_data"@, query),
{
    lemma_answer_parts(r, query);
    lemma_answer_walk(r, query, 0, 20);
    lemma_answer_walk(r, query, 1, 20);
    lemma_answer_walk(r, query, 2, 20);
    lemma_answer_walk(r, query, 3, 20);
    lemma_answer_walk(r, query, 4, 20);
    lemma_answer_walk(r, query, 5, 20);
    lemma_answer_walk(r, query, 6, 20);
    lemma_answer_walk(r, query, 7, 20);
    lemma_answer_walk(r, query, 8, 20);
    lemma_answer_walk(r, query, 9, 20);
    lemma_answer_walk(r, query, 10, 20);
    lemma_answer_walk(r, query, 11, 20);
    lemma_answer_walk(r, query, 12, 20);
    lemma_answer_walk(r, query, 13, 20);
    lemma_answer_walk(r, query, 14, 20);
    lemma_answer_walk(r, query, 15, 20);
    lemma_answer_walk(r, query, 16, 20);
    lemma_answer_walk(r, query, 17, 20);
    lemma_answer_walk(r, query, 18, 20);
    lemma_answer_walk(r, query, 19, 20);
}

/// An answer in CBOR has no other names.
pub proof fn law_answer_has_no_other_names(r: ResponsePayload, query: Option<Seq<u8>>, name: Seq<char>)
    requires
        name != "success"@,
        name != "request_id"@,
        name != "witness_signature"@,
        name != "cheque_for_receiver"@,
        name != "scar_consent_voucher"@,
        name != "produced_state_id"@,
        name != "receipt"@,
        name != "commitment_hash"@,
        name != "state_hash"@,
        name != "receipt_commitment"@,
        name != "txid"@,
        name != "state_id"@,
        name != "error"@,
        name != "rejection_code"@,
        name != "error_response"@,
        name != "validator_hints"@,
        name != "sender_fact_chain"@,
        name != "receiver_fact_chain"@,
        name != "fact_signature"@,
        name != "query_data"@,
    ensures
        cbor_map::lacks(response_fields(r, query), name),
{
    lemma_answer_parts(r, query);
    lemma_answer_lacks(r, query, name, 20);
}

proof fn lemma_answer_lacks(r: ResponsePayload, query: Option<Seq<u8>>, name: Seq<char>, n: nat)
    requires
        n <= 20,
        forall|i: int| 0 <= i < 20 ==> (#[trigger] answer_part(r, query, i)).0 != name,
    ensures
        cbor_map::lacks(answer_parts(r, query, n), name),
    decreases n,
{
    if n > 0 {
        lemma_answer_lacks(r, query, name, (n - 1) as nat);
        let part = answer_part(r, query, n - 1);
        cbor_map::lemma_field_added(answer_parts(r, query, (n - 1) as nat), part.0, part.1, name, None);
    }
}

/// Truth values, bytes and texts in CBOR read back as themselves.
pub proof fn law_plain_parts_read_back(flag: bool, bytes: Seq<u8>, text: Seq<char>, rest: Seq<u8>)
    requires
        bytes.len() <= u64::MAX,
        encode_utf8(text).len() <= u64::MAX,
    ensures
        cbor::item_at(flag_item(flag) + rest, 0, 0) == Ok::<(Json, int), Seq<char>>((Json::Bool(flag), 1)),
        cbor::item_at(bytes_item(bytes) + rest, 0, 0) == Ok::<(Json, int), Seq<char>>(
            (Json::Array(cbor::byte_items(bytes)), bytes_item(bytes).len() as int),
        ),
        cbor::item_at(cbor::text_item(text) + rest, 0, 0) == Ok::<(Json, int), Seq<char>>(
            (Json::Str(text), cbor::text_item(text).len() as int),
        ),
{
    assert(flag_item(flag) == cbor::cbor(Json::Bool(flag)));
    cbor::law_json_cbor_json(Json::Bool(flag), rest);
    cbor::law_json_cbor_json(Json::Str(text), rest);
    let data = bytes_item(bytes) + rest;
    let h = cbor::head(2, bytes.len());
    assert(data.subrange(0, h.len() as int) == h);
    cbor::lemma_head_round_trip(data, 0, 2, bytes.len());
    assert(data.subrange(h.len() as int, (h.len() + bytes.len()) as int) == bytes);
}

/// What is known of validators is written as a list of them, in their order; each as it came.
pub proof fn law_hints_stand_in_a_list(a: Seq<ValidatorHint>, b: Seq<ValidatorHint>, h: ValidatorHint)
    ensures
        hints_cbor(a + b) == hints_cbor(a) + hints_cbor(b),
        hints_cbor(seq![h]) == h.cbor@,
        opt_hints(a) is None <==> a.len() == 0,
        opt_hints(a) matches Some(c) ==> c == cbor::head(4, a.len()) + hints_cbor(a),
    decreases b.len(),
{
    reveal_with_fuel(hints_cbor, 2);
    assert(seq![h].drop_last().len() == 0);
    assert(Seq::<u8>::empty() + h.cbor@ == h.cbor@);
    if b.len() == 0 {
        assert(a + b == a);
        assert(hints_cbor(a) + hints_cbor(b) == hints_cbor(a));
    } else {
        law_hints_stand_in_a_list(a, b.drop_last(), h);
        assert((a + b).drop_last() == a + b.drop_last());
        assert((a + b).last() == b.last());
        assert(hints_cbor(a) + hints_cbor(b.drop_last()) + b.last().cbor@ == hints_cbor(a) + (hints_cbor(
            b.drop_last(),
        ) + b.last().cbor@));
    }
}


/// An answer that only says whether it is good, and why not, holds nothing else.
pub proof fn law_bare_answer_holds_nothing_else(
    r: ResponsePayload,
    success: bool,
    request_id: Seq<char>,
    error: Option<Seq<char>>,
    code: Option<Seq<char>>,
)
    requires
        r.says(success, request_id, error, code),
    ensures
        r.success == success,
        r.request_id@ == request_id,
        r.error is Some <==> error is Some,
        r.error is Some ==> r.error->0@ == error->0,
        r.rejection_code is Some <==> code is Some,
        r.rejection_code is Some ==> r.rejection_code->0@ == code->0,
        r.witness_signature is None && r.cheque_for_receiver is None && r.scar_consent_voucher is None,
        r.produced_state_id is None && r.receipt is None && r.commitment_hash is None,
        r.state_hash is None && r.receipt_commitment is None && r.txid is None && r.state_id is None,
        r.error_response is None && r.sender_fact_chain is None && r.receiver_fact_chain is None,
        r.fact_signature is None && r.query_data is None && r.validator_hints@.len() == 0,
{
}

/// What a query found goes out as its JSON text is written in CBOR; without it nothing does.
pub proof fn law_query_goes_out_as_cbor(v: JsonValue)
    ensures
        query_form(None) == Ok::<Option<Seq<u8>>, Seq<char>>(None),
        query_form(Some(v)) is Ok <==> cbor_map::ciborium_form(json::json_text(v@)) is Ok,
        query_form(Some(v)) is Ok ==> query_form(Some(v))->Ok_0 == Some(
            cbor_map::ciborium_form(json::json_text(v@))->Ok_0,
        ),
        query_form(Some(v)) is Err ==> query_form(Some(v))->Err_0 == cbor_map::ciborium_form(
            json::json_text(v@),
        )->Err_0,
{
}

} // verus!
