//! The body of a request: the fields that the handlers read.
use vstd::prelude::*;
use crate::antie::error::{labelled, AntieError, ErrorView};
use crate::json;
use crate::json::{Json, JsonValue};
use crate::text;

verus! {

/// What an optional piece of text stands for.
pub open spec fn opt_str(o: Option<&str>) -> Option<Seq<char>> {
    match o {
        Some(s) => Some(s@),
        None => None,
    }
}

/// What reading some bytes gave: them, or the text of the error.
pub open spec fn file_view(r: Result<Vec<u8>, String>) -> Result<Seq<u8>, Seq<char>> {
    match r {
        Ok(b) => Ok(b@),
        Err(e) => Err(e@),
    }
}

/// The fields of a request body, each absent unless the request needs it.
pub struct AntiePayload {
    /// The body itself, as it came out of its envelope.
    pub raw_ump_body: Vec<u8>,
    /// Query: what to look up.
    pub query_params: Option<JsonValue>,
    /// Genesis and owner proof: the wallet's public key.
    pub public_key: Option<Vec<u8>>,
    /// Genesis: the opening balance.
    pub balance: Option<u64>,
    /// Genesis: the members of a group wallet.
    pub group_members: Option<Vec<JsonValue>>,
    /// Acknowledgement: the transaction.
    pub txid: Option<Vec<u8>>,
    /// Acknowledgement: the validator that witnessed it.
    pub validator_pk: Option<Vec<u8>>,
    /// Acknowledgement: the sender's signature.
    pub sender_sig: Option<Vec<u8>>,
    /// Acknowledgement: the client's public key.
    pub client_pk: Option<Vec<u8>>,
    /// Certificate signing: the subject's keys, in hexadecimal.
    pub sphincs_pk_hex: Option<String>,
    pub dilithium_pk_hex: Option<String>,
    pub ed25519_pk_hex: Option<String>,
    pub pgp_fingerprint_hex: Option<String>,
    /// Certificate signing: the term, the depth and the issuers.
    pub issued_at: Option<u64>,
    pub expires_at: Option<u64>,
    pub chain_depth: Option<u8>,
    pub issuer_set_hex: Vec<String>,
    /// Scar healing: the proof and the wallet that it heals.
    pub scar_recovery_proof: Option<JsonValue>,
    pub target_wallet_id: Option<String>,
    /// Onboarding: what the node can prove and what it is called.
    pub proof_cap: Option<String>,
    pub node_name_field: Option<String>,
    /// Owner proof: the key to demand from now on.
    pub auth_hash: Option<Vec<u8>>,
    /// Peer audit: a question or an answer of another validator.
    pub peer_audit_request: Option<JsonValue>,
    pub peer_audit_response: Option<JsonValue>,
    /// Fan-out: the message to pass on.
    pub fanout_message: Option<JsonValue>,
}

/// The mathematical value of an [`AntiePayload`].
#[verifier::ext_equal]
pub struct PayloadView {
    pub raw_ump_body: Seq<u8>,
    pub query_params: Option<Json>,
    pub public_key: Option<Seq<u8>>,
    pub balance: Option<u64>,
    pub group_members: Option<Seq<Json>>,
    pub txid: Option<Seq<u8>>,
    pub validator_pk: Option<Seq<u8>>,
    pub sender_sig: Option<Seq<u8>>,
    pub client_pk: Option<Seq<u8>>,
    pub sphincs_pk_hex: Option<Seq<char>>,
    pub dilithium_pk_hex: Option<Seq<char>>,
    pub ed25519_pk_hex: Option<Seq<char>>,
    pub pgp_fingerprint_hex: Option<Seq<char>>,
    pub issued_at: Option<u64>,
    pub expires_at: Option<u64>,
    pub chain_depth: Option<u8>,
    pub issuer_set_hex: Seq<Seq<char>>,
    pub scar_recovery_proof: Option<Json>,
    pub target_wallet_id: Option<Seq<char>>,
    pub proof_cap: Option<Seq<char>>,
    pub node_name_field: Option<Seq<char>>,
    pub auth_hash: Option<Seq<u8>>,
    pub peer_audit_request: Option<Json>,
    pub peer_audit_response: Option<Json>,
    pub fanout_message: Option<Json>,
}

/// What an optional value stands for.
pub open spec fn opt<T: View>(o: Option<T>) -> Option<T::V> {
    match o {
        Some(v) => Some(v@),
        None => None,
    }
}

/// What an optional list of values stands for.
pub open spec fn opt_items(o: Option<Vec<JsonValue>>) -> Option<Seq<Json>> {
    match o {
        Some(v) => Some(json::items_view(v@)),
        None => None,
    }
}

impl View for AntiePayload {
    type V = PayloadView;

    open spec fn view(&self) -> PayloadView {
        PayloadView {
            raw_ump_body: self.raw_ump_body@,
            query_params: opt(self.query_params),
            public_key: opt(self.public_key),
            balance: self.balance,
            group_members: opt_items(self.group_members),
            txid: opt(self.txid),
            validator_pk: opt(self.validator_pk),
            sender_sig: opt(self.sender_sig),
            client_pk: opt(self.client_pk),
            sphincs_pk_hex: opt(self.sphincs_pk_hex),
            dilithium_pk_hex: opt(self.dilithium_pk_hex),
            ed25519_pk_hex: opt(self.ed25519_pk_hex),
            pgp_fingerprint_hex: opt(self.pgp_fingerprint_hex),
            issued_at: self.issued_at,
            expires_at: self.expires_at,
            chain_depth: self.chain_depth,
            issuer_set_hex: text::views(self.issuer_set_hex@),
            scar_recovery_proof: opt(self.scar_recovery_proof),
            target_wallet_id: opt(self.target_wallet_id),
            proof_cap: opt(self.proof_cap),
            node_name_field: opt(self.node_name_field),
            auth_hash: opt(self.auth_hash),
            peer_audit_request: opt(self.peer_audit_request),
            peer_audit_response: opt(self.peer_audit_response),
            fanout_message: opt(self.fanout_message),
        }
    }
}

/// The payload without any field.
pub open spec fn empty_payload() -> PayloadView {
    PayloadView {
        raw_ump_body: Seq::empty(),
        query_params: None,
        public_key: None,
        balance: None,
        group_members: None,
        txid: None,
        validator_pk: None,
        sender_sig: None,
        client_pk: None,
        sphincs_pk_hex: None,
        dilithium_pk_hex: None,
        ed25519_pk_hex: None,
        pgp_fingerprint_hex: None,
        issued_at: None,
        expires_at: None,
        chain_depth: None,
        issuer_set_hex: Seq::empty(),
        scar_recovery_proof: None,
        target_wallet_id: None,
        proof_cap: None,
        node_name_field: None,
        auth_hash: None,
        peer_audit_request: None,
        peer_audit_response: None,
        fanout_message: None,
    }
}

impl Default for AntiePayload {
    fn default() -> (r: Self)
        ensures
            r@ == empty_payload(),
    {
        let r = AntiePayload {
            raw_ump_body: Vec::new(),
            query_params: None,
            public_key: None,
            balance: None,
            group_members: None,
            txid: None,
            validator_pk: None,
            sender_sig: None,
            client_pk: None,
            sphincs_pk_hex: None,
            dilithium_pk_hex: None,
            ed25519_pk_hex: None,
            pgp_fingerprint_hex: None,
            issued_at: None,
            expires_at: None,
            chain_depth: None,
            issuer_set_hex: Vec::new(),
            scar_recovery_proof: None,
            target_wallet_id: None,
            proof_cap: None,
            node_name_field: None,
            auth_hash: None,
            peer_audit_request: None,
            peer_audit_response: None,
            fanout_message: None,
        };
        assert(text::views(r.issuer_set_hex@) == Seq::<Seq<char>>::empty());
        r
    }
}

// ---------------------------------------------------------------------------
// Reading the fields
// ---------------------------------------------------------------------------

/// The value that a body has for a field: by name in an object, by position in
/// an array.
pub open spec fn raw_field(j: Json, name: Seq<char>, index: int) -> Option<Json> {
    match j {
        Json::Object(o) => json::lookup(o, name),
        Json::Array(a) => if index < a.len() {
            Some(a[index])
        } else {
            None
        },
        _ => None,
    }
}

/// The value that a body has for a field. A null counts as none.
pub open spec fn field(j: Json, name: Seq<char>, index: int) -> Option<Json> {
    match raw_field(j, name, index) {
        Some(Json::Null) => None,
        v => v,
    }
}

/// The bytes in a field.
pub open spec fn bytes_field(j: Json, name: Seq<char>, index: int) -> Option<Seq<u8>> {
    match field(j, name, index) {
        Some(Json::Array(a)) => Some(a.map_values(|v: Json| v->PosInt_0 as u8)),
        _ => None,
    }
}

/// Whether all items are integers up to 255.
pub open spec fn is_bytes(a: Seq<Json>) -> bool {
    forall|i: int| 0 <= i < a.len() ==> (#[trigger] a[i] matches Json::PosInt(u) && u <= 255)
}

/// The unsigned integer in a field.
pub open spec fn number_field(j: Json, name: Seq<char>, index: int) -> Option<u64> {
    match field(j, name, index) {
        Some(Json::PosInt(u)) => Some(u),
        _ => None,
    }
}

/// The text in a field.
pub open spec fn text_field(j: Json, name: Seq<char>, index: int) -> Option<Seq<char>> {
    match field(j, name, index) {
        Some(Json::Str(s)) => Some(s),
        _ => None,
    }
}

/// The list of any values in a field.
pub open spec fn list_field(j: Json, name: Seq<char>, index: int) -> Option<Seq<Json>> {
    match field(j, name, index) {
        Some(Json::Array(a)) => Some(a),
        _ => None,
    }
}

/// The list of texts in a field, which is empty where it is missing.
pub open spec fn texts_field(j: Json, name: Seq<char>, index: int) -> Seq<Seq<char>> {
    match raw_field(j, name, index) {
        Some(Json::Array(a)) => a.map_values(|v: Json| v->Str_0),
        _ => Seq::empty(),
    }
}

// ---------------------------------------------------------------------------
// What is wrong with a body
// ---------------------------------------------------------------------------

/// How a value is called where it was not expected.
pub open spec fn unexpected(j: Json) -> Seq<char> {
    match j {
        Json::Null => "null"@,
        Json::Bool(b) => if b {
            "boolean `true`"@
        } else {
            "boolean `false`"@
        },
        Json::PosInt(_) | Json::NegInt(_) => "integer `"@ + json::number_text(j) + "`"@,
        Json::Float(_) => "floating point `"@ + json::number_text(j) + "`"@,
        Json::Str(s) => "string "@ + text::str_debug_text(s),
        Json::Array(_) => "sequence"@,
        Json::Object(_) => "map"@,
    }
}

/// The fault of a value of the wrong type.
pub open spec fn wrong_type(j: Json, expected: Seq<char>) -> Seq<char> {
    "invalid type: "@ + unexpected(j) + ", expected "@ + expected
}

/// The fault of a value of the right type that is out of range.
pub open spec fn wrong_value(j: Json, expected: Seq<char>) -> Seq<char> {
    "invalid value: "@ + unexpected(j) + ", expected "@ + expected
}

/// What is wrong with a value as an unsigned integer up to `max`, if anything.
pub open spec fn integer_fault(j: Json, max: u64, expected: Seq<char>) -> Option<Seq<char>> {
    match j {
        Json::PosInt(u) => if u <= max {
            None
        } else {
            Some(wrong_value(j, expected))
        },
        Json::NegInt(_) => Some(wrong_value(j, expected)),
        _ => Some(wrong_type(j, expected)),
    }
}

/// What is wrong with the first item from the `i`th on that is no byte.
pub open spec fn byte_fault_from(a: Seq<Json>, i: int) -> Option<Seq<char>>
    decreases a.len() - i,
{
    if i < 0 || i >= a.len() {
        None
    } else {
        match integer_fault(a[i], 255, "u8"@) {
            Some(m) => Some(m),
            None => byte_fault_from(a, i + 1),
        }
    }
}

/// What is wrong with the first item from the `i`th on that is no text.
pub open spec fn text_fault_from(a: Seq<Json>, i: int) -> Option<Seq<char>>
    decreases a.len() - i,
{
    if i < 0 || i >= a.len() {
        None
    } else if a[i] is Str {
        text_fault_from(a, i + 1)
    } else {
        Some(wrong_type(a[i], "a string"@))
    }
}

/// What is wrong with a value as optional bytes, if anything.
pub open spec fn bytes_fault(j: Json) -> Option<Seq<char>> {
    match j {
        Json::Null => None,
        Json::Array(a) => byte_fault_from(a, 0),
        _ => Some(wrong_type(j, "a sequence"@)),
    }
}

/// What is wrong with a value as an optional unsigned integer, if anything.
pub open spec fn number_fault(j: Json, max: u64, expected: Seq<char>) -> Option<Seq<char>> {
    match j {
        Json::Null => None,
        _ => integer_fault(j, max, expected),
    }
}

/// What is wrong with a value as an optional text, if anything.
pub open spec fn text_fault(j: Json) -> Option<Seq<char>> {
    match j {
        Json::Null | Json::Str(_) => None,
        _ => Some(wrong_type(j, "a string"@)),
    }
}

/// What is wrong with a value as an optional list, if anything.
pub open spec fn list_fault(j: Json) -> Option<Seq<char>> {
    match j {
        Json::Null | Json::Array(_) => None,
        _ => Some(wrong_type(j, "a sequence"@)),
    }
}

/// What is wrong with a value as a list of texts, if anything. It may not be
/// null.
pub open spec fn texts_fault(j: Json) -> Option<Seq<char>> {
    match j {
        Json::Array(a) => text_fault_from(a, 0),
        _ => Some(wrong_type(j, "a sequence"@)),
    }
}

/// Whether a field holds bytes.
pub open spec fn names_bytes(name: Seq<char>) -> bool {
    ||| name == "public_key"@
    ||| name == "txid"@
    ||| name == "validator_pk"@
    ||| name == "sender_sig"@
    ||| name == "client_pk"@
    ||| name == "auth_hash"@
}

fn is_names_bytes(name: &str) -> (r: bool)
    ensures
        r == names_bytes(name@),
{
    text::same_text(name, "public_key")
        || text::same_text(name, "txid")
        || text::same_text(name, "validator_pk")
        || text::same_text(name, "sender_sig")
        || text::same_text(name, "client_pk")
        || text::same_text(name, "auth_hash")
}

/// Whether a field holds an unsigned integer of 64 bits.
pub open spec fn names_number(name: Seq<char>) -> bool {
    ||| name == "balance"@
    ||| name == "issued_at"@
    ||| name == "expires_at"@
}

fn is_names_number(name: &str) -> (r: bool)
    ensures
        r == names_number(name@),
{
    text::same_text(name, "balance")
        || text::same_text(name, "issued_at")
        || text::same_text(name, "expires_at")
}

/// Whether a field holds a text.
pub open spec fn names_text(name: Seq<char>) -> bool {
    ||| name == "sphincs_pk_hex"@
    ||| name == "dilithium_pk_hex"@
    ||| name == "ed25519_pk_hex"@
    ||| name == "pgp_fingerprint_hex"@
    ||| name == "target_wallet_id"@
    ||| name == "proof_cap"@
    ||| name == "node_name_field"@
}

fn is_names_text(name: &str) -> (r: bool)
    ensures
        r == names_text(name@),
{
    text::same_text(name, "sphincs_pk_hex")
        || text::same_text(name, "dilithium_pk_hex")
        || text::same_text(name, "ed25519_pk_hex")
        || text::same_text(name, "pgp_fingerprint_hex")
        || text::same_text(name, "target_wallet_id")
        || text::same_text(name, "proof_cap")
        || text::same_text(name, "node_name_field")
}

/// What is wrong with a value for a field, if anything. Fields of no other kind
/// hold any value.
pub open spec fn value_fault(name: Seq<char>, j: Json) -> Option<Seq<char>> {
    if names_bytes(name) && bytes_fault(j) is Some {
        bytes_fault(j)
    } else if names_number(name) && number_fault(j, u64::MAX, "u64"@) is Some {
        number_fault(j, u64::MAX, "u64"@)
    } else if name == "chain_depth"@ && number_fault(j, 255, "u8"@) is Some {
        number_fault(j, 255, "u8"@)
    } else if names_text(name) && text_fault(j) is Some {
        text_fault(j)
    } else if name == "group_members"@ && list_fault(j) is Some {
        list_fault(j)
    } else if name == "issuer_set_hex"@ && texts_fault(j) is Some {
        texts_fault(j)
    } else {
        None
    }
}

/// The name of the field at a position.
pub open spec fn field_name(index: int) -> Seq<char> {
    if index == 0 {
        "query_params"@
    } else if index == 1 {
        "public_key"@
    } else if index == 2 {
        "balance"@
    } else if index == 3 {
        "group_members"@
    } else if index == 4 {
        "txid"@
    } else if index == 5 {
        "validator_pk"@
    } else if index == 6 {
        "sender_sig"@
    } else if index == 7 {
        "client_pk"@
    } else if index == 8 {
        "sphincs_pk_hex"@
    } else if index == 9 {
        "dilithium_pk_hex"@
    } else if index == 10 {
        "ed25519_pk_hex"@
    } else if index == 11 {
        "pgp_fingerprint_hex"@
    } else if index == 12 {
        "issued_at"@
    } else if index == 13 {
        "expires_at"@
    } else if index == 14 {
        "chain_depth"@
    } else if index == 15 {
        "issuer_set_hex"@
    } else if index == 16 {
        "scar_recovery_proof"@
    } else if index == 17 {
        "target_wallet_id"@
    } else if index == 18 {
        "proof_cap"@
    } else if index == 19 {
        "node_name_field"@
    } else if index == 20 {
        "auth_hash"@
    } else if index == 21 {
        "peer_audit_request"@
    } else if index == 22 {
        "peer_audit_response"@
    } else {
        "fanout_message"@
    }
}

fn name_at(index: usize) -> (r: &'static str)
    ensures
        r@ == field_name(index as int),
{
    match index {
        0 => "query_params",
        1 => "public_key",
        2 => "balance",
        3 => "group_members",
        4 => "txid",
        5 => "validator_pk",
        6 => "sender_sig",
        7 => "client_pk",
        8 => "sphincs_pk_hex",
        9 => "dilithium_pk_hex",
        10 => "ed25519_pk_hex",
        11 => "pgp_fingerprint_hex",
        12 => "issued_at",
        13 => "expires_at",
        14 => "chain_depth",
        15 => "issuer_set_hex",
        16 => "scar_recovery_proof",
        17 => "target_wallet_id",
        18 => "proof_cap",
        19 => "node_name_field",
        20 => "auth_hash",
        21 => "peer_audit_request",
        22 => "peer_audit_response",
        _ => "fanout_message",
    }
}

/// How many fields a body has.
pub const FIELDS: usize = 24;

/// Whether the field at a position may be missing from an array.
pub open spec fn may_be_missing(index: int) -> bool {
    index == 3 || index == 11 || index >= 15
}

/// What is wrong with the entries of an object from the `i`th on, if anything.
pub open spec fn object_fault_from(o: Seq<(Seq<char>, Json)>, i: int) -> Option<Seq<char>>
    decreases o.len() - i,
{
    if i < 0 || i >= o.len() {
        None
    } else {
        match value_fault(o[i].0, o[i].1) {
            Some(m) => Some(m),
            None => object_fault_from(o, i + 1),
        }
    }
}

/// What is wrong with an array from the `i`th position on, if anything: with
/// an item, with a missing one, or with the number of items.
pub open spec fn array_fault_from(a: Seq<Json>, i: int) -> Option<Seq<char>>
    decreases FIELDS - i,
{
    if i >= FIELDS {
        if a.len() > FIELDS {
            Some("invalid length "@ + text::dec(a.len()) + ", expected fewer elements in array"@)
        } else {
            None
        }
    } else if i < a.len() {
        match value_fault(field_name(i), a[i]) {
            Some(m) => Some(m),
            None => array_fault_from(a, i + 1),
        }
    } else if may_be_missing(i) {
        array_fault_from(a, i + 1)
    } else {
        Some(
            "invalid length "@ + text::dec(i as nat)
                + ", expected struct AntiePayload with 24 elements"@,
        )
    }
}

/// What is wrong with a body, if anything. The entries of an object are looked
/// at in the order of their keys, and those of an array in their own.
pub open spec fn payload_fault(j: Json) -> Option<Seq<char>> {
    match j {
        Json::Object(o) => object_fault_from(o, 0),
        Json::Array(a) => array_fault_from(a, 0),
        _ => Some(wrong_type(j, "struct AntiePayload"@)),
    }
}

// ---------------------------------------------------------------------------
// Reading a whole body
// ---------------------------------------------------------------------------

/// The fields of a body in order.
pub open spec fn fields_of(j: Json, body: Seq<u8>) -> PayloadView {
    PayloadView {
        raw_ump_body: body,
        query_params: field(j, "query_params"@, 0),
        public_key: bytes_field(j, "public_key"@, 1),
        balance: number_field(j, "balance"@, 2),
        group_members: list_field(j, "group_members"@, 3),
        txid: bytes_field(j, "txid"@, 4),
        validator_pk: bytes_field(j, "validator_pk"@, 5),
        sender_sig: bytes_field(j, "sender_sig"@, 6),
        client_pk: bytes_field(j, "client_pk"@, 7),
        sphincs_pk_hex: text_field(j, "sphincs_pk_hex"@, 8),
        dilithium_pk_hex: text_field(j, "dilithium_pk_hex"@, 9),
        ed25519_pk_hex: text_field(j, "ed25519_pk_hex"@, 10),
        pgp_fingerprint_hex: text_field(j, "pgp_fingerprint_hex"@, 11),
        issued_at: number_field(j, "issued_at"@, 12),
        expires_at: number_field(j, "expires_at"@, 13),
        chain_depth: match number_field(j, "chain_depth"@, 14) {
            Some(u) => Some(u as u8),
            None => None,
        },
        issuer_set_hex: texts_field(j, "issuer_set_hex"@, 15),
        scar_recovery_proof: field(j, "scar_recovery_proof"@, 16),
        target_wallet_id: text_field(j, "target_wallet_id"@, 17),
        proof_cap: text_field(j, "proof_cap"@, 18),
        node_name_field: text_field(j, "node_name_field"@, 19),
        auth_hash: bytes_field(j, "auth_hash"@, 20),
        peer_audit_request: field(j, "peer_audit_request"@, 21),
        peer_audit_response: field(j, "peer_audit_response"@, 22),
        fanout_message: field(j, "fanout_message"@, 23),
    }
}

/// What reading a body as a payload gives.
pub open spec fn payload_of(j: Json, body: Seq<u8>) -> Result<PayloadView, ErrorView> {
    match payload_fault(j) {
        Some(m) => Err(ErrorView::EmailParseError("JSON→struct failed: "@ + m)),
        None => Ok(fields_of(j, body)),
    }
}

/// The value that a body has for a field, a null included.
fn find_field<'a>(j: &'a JsonValue, name: &str, index: usize) -> (r: Option<&'a JsonValue>)
    ensures
        match r {
            Some(v) => raw_field(j@, name@, index as int) == Some(v@),
            None => raw_field(j@, name@, index as int) is None,
        },
{
    match j {
        JsonValue::Object(_) => j.get(name),
        JsonValue::Array(a) => {
            proof {
                json::lemma_array_view(*a);
            }
            if index < a.len() {
                Some(&a[index])
            } else {
                None
            }
        },
        _ => None,
    }
}

fn read_json(j: &JsonValue, name: &str, index: usize) -> (r: Option<JsonValue>)
    ensures
        opt(r) == field(j@, name@, index as int),
{
    match find_field(j, name, index) {
        None => None,
        Some(v) => match v {
            JsonValue::Null => None,
            _ => Some(v.clone()),
        },
    }
}

fn unexpected_text(j: &JsonValue) -> (r: String)
    ensures
        r@ == unexpected(j@),
{
    match j {
        JsonValue::Null => String::from_str("null"),
        JsonValue::Bool(b) => if *b {
            String::from_str("boolean `true`")
        } else {
            String::from_str("boolean `false`")
        },
        JsonValue::PosInt(_) | JsonValue::NegInt(_) => {
            let mut m = labelled("integer `", j.number_string().as_str());
            m.append("`");
            m
        },
        JsonValue::Float(_) => {
            let mut m = labelled("floating point `", j.number_string().as_str());
            m.append("`");
            m
        },
        JsonValue::Str(s) => labelled("string ", text::str_debug_string(s.as_str()).as_str()),
        JsonValue::Array(_) => String::from_str("sequence"),
        JsonValue::Object(_) => String::from_str("map"),
    }
}

/// `label`, how a value is called, and what was expected.
fn mismatch(label: &str, j: &JsonValue, expected: &str) -> (r: String)
    ensures
        r@ == label@ + unexpected(j@) + ", expected "@ + expected@,
{
    let mut m = labelled(label, unexpected_text(j).as_str());
    m.append(", expected ");
    m.append(expected);
    m
}

fn check_integer(j: &JsonValue, max: u64, expected: &str) -> (r: Option<String>)
    ensures
        opt(r) == integer_fault(j@, max, expected@),
{
    match j {
        JsonValue::PosInt(u) => if *u <= max {
            None
        } else {
            Some(mismatch("invalid value: ", j, expected))
        },
        JsonValue::NegInt(_) => Some(mismatch("invalid value: ", j, expected)),
        _ => Some(mismatch("invalid type: ", j, expected)),
    }
}

fn check_bytes(j: &JsonValue) -> (r: Option<String>)
    ensures
        opt(r) == bytes_fault(j@),
{
    match j {
        JsonValue::Null => None,
        JsonValue::Array(a) => {
            proof {
                json::lemma_array_view(*a);
            }
            let ghost items = json::items_view(a@);
            let mut i: usize = 0;
            while i < a.len()
                invariant
                    i <= a@.len(),
                    items == json::items_view(a@),
                    j@ == Json::Array(items),
                    byte_fault_from(items, 0) == byte_fault_from(items, i as int),
                decreases a@.len() - i,
            {
                assert(items[i as int] == a@[i as int]@);
                if let Some(m) = check_integer(&a[i], 255, "u8") {
                    return Some(m);
                }
                i = i + 1;
            }
            None
        },
        _ => Some(mismatch("invalid type: ", j, "a sequence")),
    }
}

fn check_number(j: &JsonValue, max: u64, expected: &str) -> (r: Option<String>)
    ensures
        opt(r) == number_fault(j@, max, expected@),
{
    match j {
        JsonValue::Null => None,
        _ => check_integer(j, max, expected),
    }
}

fn check_text(j: &JsonValue) -> (r: Option<String>)
    ensures
        opt(r) == text_fault(j@),
{
    match j {
        JsonValue::Null | JsonValue::Str(_) => None,
        _ => Some(mismatch("invalid type: ", j, "a string")),
    }
}

fn check_list(j: &JsonValue) -> (r: Option<String>)
    ensures
        opt(r) == list_fault(j@),
{
    match j {
        JsonValue::Null | JsonValue::Array(_) => None,
        _ => Some(mismatch("invalid type: ", j, "a sequence")),
    }
}

fn check_texts(j: &JsonValue) -> (r: Option<String>)
    ensures
        opt(r) == texts_fault(j@),
{
    match j {
        JsonValue::Array(a) => {
            proof {
                json::lemma_array_view(*a);
            }
            let ghost items = json::items_view(a@);
            let mut i: usize = 0;
            while i < a.len()
                invariant
                    i <= a@.len(),
                    items == json::items_view(a@),
                    j@ == Json::Array(items),
                    text_fault_from(items, 0) == text_fault_from(items, i as int),
                decreases a@.len() - i,
            {
                assert(items[i as int] == a@[i as int]@);
                match &a[i] {
                    JsonValue::Str(_) => {},
                    v => {
                        return Some(mismatch("invalid type: ", v, "a string"));
                    },
                }
                i = i + 1;
            }
            None
        },
        _ => Some(mismatch("invalid type: ", j, "a sequence")),
    }
}

fn check_value(name: &str, j: &JsonValue) -> (r: Option<String>)
    ensures
        opt(r) == value_fault(name@, j@),
{
    if is_names_bytes(name) {
        if let Some(m) = check_bytes(j) {
            return Some(m);
        }
    }
    if is_names_number(name) {
        if let Some(m) = check_number(j, u64::MAX, "u64") {
            return Some(m);
        }
    }
    if text::same_text(name, "chain_depth") {
        if let Some(m) = check_number(j, 255, "u8") {
            return Some(m);
        }
    }
    if is_names_text(name) {
        if let Some(m) = check_text(j) {
            return Some(m);
        }
    }
    if text::same_text(name, "group_members") {
        if let Some(m) = check_list(j) {
            return Some(m);
        }
    }
    if text::same_text(name, "issuer_set_hex") {
        if let Some(m) = check_texts(j) {
            return Some(m);
        }
    }
    None
}

fn check_array(a: &Vec<JsonValue>) -> (r: Option<String>)
    ensures
        opt(r) == array_fault_from(json::items_view(a@), 0),
{
    let ghost items = json::items_view(a@);
    let mut i: usize = 0;
    while i < FIELDS
        invariant
            i <= FIELDS,
            items == json::items_view(a@),
            array_fault_from(items, 0) == array_fault_from(items, i as int),
        decreases FIELDS - i,
    {
        if i < a.len() {
            assert(items[i as int] == a@[i as int]@);
            if let Some(m) = check_value(name_at(i), &a[i]) {
                return Some(m);
            }
        } else if i != 3 && i != 11 && i < 15 {
            let mut m = String::from_str("invalid length ");
            text::push_dec(&mut m, i as u64);
            m.append(", expected struct AntiePayload with 24 elements");
            return Some(m);
        }
        i = i + 1;
    }
    if a.len() > FIELDS {
        let mut m = String::from_str("invalid length ");
        text::push_dec(&mut m, a.len() as u64);
        m.append(", expected fewer elements in array");
        return Some(m);
    }
    None
}

/// What is wrong with a body, if anything.
fn check_payload(j: &JsonValue) -> (r: Option<String>)
    ensures
        opt(r) == payload_fault(j@),
{
    match j {
        JsonValue::Object(o) => {
            proof {
                json::lemma_object_view(*o);
            }
            let ghost entries = json::entries_view(o@);
            let mut i: usize = 0;
            while i < o.len()
                invariant
                    i <= o@.len(),
                    entries == json::entries_view(o@),
                    j@ == Json::Object(entries),
                    object_fault_from(entries, 0) == object_fault_from(entries, i as int),
                decreases o@.len() - i,
            {
                let e = &o[i];
                assert(entries[i as int] == (e.0@, e.1@));
                if let Some(m) = check_value(e.0.as_str(), &e.1) {
                    return Some(m);
                }
                i = i + 1;
            }
            None
        },
        JsonValue::Array(a) => {
            proof {
                json::lemma_array_view(*a);
            }
            check_array(a)
        },
        _ => Some(mismatch("invalid type: ", j, "struct AntiePayload")),
    }
}

proof fn lemma_bytes_in_order(a: Seq<Json>, i: int, k: int)
    requires
        0 <= i <= k < a.len(),
        byte_fault_from(a, i) is None,
    ensures
        a[k] matches Json::PosInt(u) && u <= 255,
    decreases k - i,
{
    if i < k {
        lemma_bytes_in_order(a, i + 1, k);
    }
}

proof fn lemma_texts_in_order(a: Seq<Json>, i: int, k: int)
    requires
        0 <= i <= k < a.len(),
        text_fault_from(a, i) is None,
    ensures
        a[k] is Str,
    decreases k - i,
{
    if i < k {
        lemma_texts_in_order(a, i + 1, k);
    }
}

proof fn lemma_entry_in_order(o: Seq<(Seq<char>, Json)>, i: int, name: Seq<char>)
    requires
        0 <= i <= o.len(),
        object_fault_from(o, i) is None,
    ensures
        json::lookup(o.skip(i), name) matches Some(v) ==> value_fault(name, v) is None,
    decreases o.len() - i,
{
    if i < o.len() {
        assert(o.skip(i)[0] == o[i]);
        assert(o.skip(i).drop_first() == o.skip(i + 1));
        lemma_entry_in_order(o, i + 1, name);
    }
}

proof fn lemma_item_in_order(a: Seq<Json>, i: int, k: int)
    requires
        0 <= i <= k < FIELDS,
        k < a.len(),
        array_fault_from(a, i) is None,
    ensures
        value_fault(field_name(k), a[k]) is None,
    decreases k - i,
{
    if i < k {
        lemma_item_in_order(a, i + 1, k);
    }
}

/// In a body with nothing wrong, nothing is wrong with a field.
proof fn lemma_field_in_order(j: Json, index: int)
    requires
        payload_fault(j) is None,
        0 <= index < FIELDS,
    ensures
        raw_field(j, field_name(index), index) matches Some(v) ==> value_fault(field_name(index), v) is None,
{
    match j {
        Json::Object(o) => {
            assert(o.skip(0) == o);
            lemma_entry_in_order(o, 0, field_name(index));
        },
        Json::Array(a) => {
            if index < a.len() {
                lemma_item_in_order(a, 0, index);
            }
        },
        _ => {},
    }
}

fn read_bytes(j: &JsonValue, name: &str, index: usize) -> (r: Option<Vec<u8>>)
    requires
        raw_field(j@, name@, index as int) matches Some(v) ==> bytes_fault(v) is None,
    ensures
        opt(r) == bytes_field(j@, name@, index as int),
{
    match find_field(j, name, index) {
        Some(JsonValue::Array(a)) => {
            proof {
                json::lemma_array_view(*a);
                let items = json::items_view(a@);
                assert forall|k: int| 0 <= k < items.len() implies (#[trigger] items[k] matches Json::PosInt(
                    u,
                ) && u <= 255) by {
                    lemma_bytes_in_order(items, 0, k);
                }
                assert(is_bytes(items));
            }
            byte_list(a)
        },
        _ => None,
    }
}

/// The bytes of a list of integers up to 255.
pub fn byte_list(a: &Vec<JsonValue>) -> (r: Option<Vec<u8>>)
    ensures
        match r {
            Some(b) => is_bytes(json::items_view(a@)) && b@ == json::items_view(a@).map_values(
                |v: Json| v->PosInt_0 as u8,
            ),
            None => !is_bytes(json::items_view(a@)),
        },
{
    let ghost items = json::items_view(a@);
    let mut out: Vec<u8> = Vec::new();
    let mut i: usize = 0;
    while i < a.len()
        invariant
            i <= a@.len(),
            items == json::items_view(a@),
            out@.len() == i,
            forall|k: int|
                0 <= k < i ==> (#[trigger] items[k] matches Json::PosInt(u) && u <= 255 && out@[k] == u as u8),
        decreases a@.len() - i,
    {
        assert(items[i as int] == a@[i as int]@);
        match &a[i] {
            JsonValue::PosInt(u) => {
                if *u > 255 {
                    return None;
                }
                out.push(*u as u8);
            },
            _ => {
                return None;
            },
        }
        i = i + 1;
    }
    assert(out@ == items.map_values(|v: Json| v->PosInt_0 as u8));
    Some(out)
}

fn read_number(j: &JsonValue, name: &str, index: usize) -> (r: Option<u64>)
    ensures
        r == number_field(j@, name@, index as int),
{
    match find_field(j, name, index) {
        Some(JsonValue::PosInt(u)) => Some(*u),
        _ => None,
    }
}

fn read_text(j: &JsonValue, name: &str, index: usize) -> (r: Option<String>)
    ensures
        opt(r) == text_field(j@, name@, index as int),
{
    match find_field(j, name, index) {
        Some(JsonValue::Str(s)) => Some(s.clone()),
        _ => None,
    }
}

fn read_list(j: &JsonValue, name: &str, index: usize) -> (r: Option<Vec<JsonValue>>)
    ensures
        opt_items(r) == list_field(j@, name@, index as int),
{
    match find_field(j, name, index) {
        Some(JsonValue::Array(a)) => {
            proof {
                json::lemma_array_view(*a);
            }
            Some(copy_items(a))
        },
        _ => None,
    }
}

/// A copy of a list of values.
fn copy_items(a: &Vec<JsonValue>) -> (r: Vec<JsonValue>)
    ensures
        json::items_view(r@) == json::items_view(a@),
{
    let mut out: Vec<JsonValue> = Vec::new();
    let mut i: usize = 0;
    while i < a.len()
        invariant
            i <= a@.len(),
            out@.len() == i,
            forall|k: int| 0 <= k < i ==> (#[trigger] out@[k])@ == a@[k]@,
        decreases a@.len() - i,
    {
        out.push(a[i].clone());
        i = i + 1;
    }
    assert(json::items_view(out@) == json::items_view(a@));
    out
}

fn read_texts(j: &JsonValue, name: &str, index: usize) -> (r: Vec<String>)
    requires
        raw_field(j@, name@, index as int) matches Some(v) ==> texts_fault(v) is None,
    ensures
        text::views(r@) == texts_field(j@, name@, index as int),
{
    if let Some(JsonValue::Array(a)) = find_field(j, name, index) {
        proof {
            json::lemma_array_view(*a);
            let items = json::items_view(a@);
            assert forall|k: int| 0 <= k < items.len() implies #[trigger] items[k] is Str by {
                lemma_texts_in_order(items, 0, k);
            }
        }
        if let Some(l) = text_list(a) {
            return l;
        }
    }
    let none: Vec<String> = Vec::new();
    assert(text::views(none@) == Seq::<Seq<char>>::empty());
    none
}

/// The texts of a list of nothing but texts.
pub fn text_list(a: &Vec<JsonValue>) -> (r: Option<Vec<String>>)
    ensures
        match r {
            Some(l) => (forall|i: int|
                0 <= i < a@.len() ==> #[trigger] json::items_view(a@)[i] is Str) && text::views(l@)
                == json::items_view(a@).map_values(|v: Json| v->Str_0),
            None => exists|i: int| 0 <= i < a@.len() && !(#[trigger] json::items_view(a@)[i] is Str),
        },
{
    let ghost items = json::items_view(a@);
    let mut out: Vec<String> = Vec::new();
    let mut i: usize = 0;
    while i < a.len()
        invariant
            i <= a@.len(),
            items == json::items_view(a@),
            out@.len() == i,
            forall|k: int| 0 <= k < i ==> (#[trigger] items[k] matches Json::Str(s) && out@[k]@ == s),
        decreases a@.len() - i,
    {
        assert(items[i as int] == a@[i as int]@);
        match &a[i] {
            JsonValue::Str(s) => out.push(s.clone()),
            _ => {
                return None;
            },
        }
        i = i + 1;
    }
    assert(text::views(out@) == items.map_values(|v: Json| v->Str_0));
    Some(out)
}

/// Reads a body as a payload. `body` is kept beside the fields.
pub fn read_payload(j: &JsonValue, body: Vec<u8>) -> (r: Result<AntiePayload, AntieError>)
    ensures
        match payload_of(j@, body@) {
            Ok(p) => r matches Ok(got) && got@ == p,
            Err(e) => r matches Err(got) && got@ == e,
        },
{
    if let Some(m) = check_payload(j) {
        return Err(AntieError::EmailParseError(labelled("JSON→struct failed: ", m.as_str())));
    }
    proof {
        lemma_field_in_order(j@, 1);
        lemma_field_in_order(j@, 4);
        lemma_field_in_order(j@, 5);
        lemma_field_in_order(j@, 6);
        lemma_field_in_order(j@, 7);
        lemma_field_in_order(j@, 15);
        lemma_field_in_order(j@, 20);
    }
    let chain_depth: Option<u64> = read_number(j, "chain_depth", 14);
    let depth: Option<u8> = match chain_depth {
        Some(u) => Some(u as u8),
        None => None,
    };
    Ok(
        AntiePayload {
            raw_ump_body: body,
            query_params: read_json(j, "query_params", 0),
            public_key: read_bytes(j, "public_key", 1),
            balance: read_number(j, "balance", 2),
            group_members: read_list(j, "group_members", 3),
            txid: read_bytes(j, "txid", 4),
            validator_pk: read_bytes(j, "validator_pk", 5),
            sender_sig: read_bytes(j, "sender_sig", 6),
            client_pk: read_bytes(j, "client_pk", 7),
            sphincs_pk_hex: read_text(j, "sphincs_pk_hex", 8),
            dilithium_pk_hex: read_text(j, "dilithium_pk_hex", 9),
            ed25519_pk_hex: read_text(j, "ed25519_pk_hex", 10),
            pgp_fingerprint_hex: read_text(j, "pgp_fingerprint_hex", 11),
            issued_at: read_number(j, "issued_at", 12),
            expires_at: read_number(j, "expires_at", 13),
            chain_depth: depth,
            issuer_set_hex: read_texts(j, "issuer_set_hex", 15),
            scar_recovery_proof: read_json(j, "scar_recovery_proof", 16),
            target_wallet_id: read_text(j, "target_wallet_id", 17),
            proof_cap: read_text(j, "proof_cap", 18),
            node_name_field: read_text(j, "node_name_field", 19),
            auth_hash: read_bytes(j, "auth_hash", 20),
            peer_audit_request: read_json(j, "peer_audit_request", 21),
            peer_audit_response: read_json(j, "peer_audit_response", 22),
            fanout_message: read_json(j, "fanout_message", 23),
        },
    )
}

/// Bytes in JSON: the list of their numbers.
pub open spec fn numbers_json(b: Seq<u8>) -> Json {
    Json::Array(Seq::new(b.len(), |i: int| Json::PosInt(b[i] as u64)))
}

/// Texts in JSON.
pub open spec fn text_list_json(v: Seq<Seq<char>>) -> Json {
    Json::Array(Seq::new(v.len(), |i: int| Json::Str(v[i])))
}

/// Each field of a request is what its body holds under the field's own name: bytes are given by
/// their numbers, and a field that is missing or null has no value.
pub proof fn law_fields_are_found_by_name(o: Seq<(Seq<char>, Json)>, body: Seq<u8>)
    ensures
        fields_of(Json::Object(o), body).raw_ump_body == body,
        json::lookup(o, "query_params"@) is None || json::lookup(o, "query_params"@) == Some(Json::Null) ==> fields_of(Json::Object(o), body).query_params is None,
        json::lookup(o, "query_params"@) is Some && json::lookup(o, "query_params"@) != Some(Json::Null) ==> fields_of(Json::Object(o), body).query_params == json::lookup(o, "query_params"@),
        json::lookup(o, "public_key"@) is None || json::lookup(o, "public_key"@) == Some(Json::Null) ==> fields_of(Json::Object(o), body).public_key is None,
        forall|v: Seq<u8>| json::lookup(o, "public_key"@) == Some(#[trigger] numbers_json(v)) ==> fields_of(Json::Object(o), body).public_key == Some(v),
        json::lookup(o, "balance"@) is None || json::lookup(o, "balance"@) == Some(Json::Null) ==> fields_of(Json::Object(o), body).balance is None,
        json::lookup(o, "balance"@) matches Some(Json::PosInt(v)) ==> fields_of(Json::Object(o), body).balance == Some(v),
        json::lookup(o, "group_members"@) is None || json::lookup(o, "group_members"@) == Some(Json::Null) ==> fields_of(Json::Object(o), body).group_members is None,
        json::lookup(o, "group_members"@) matches Some(Json::Array(v)) ==> fields_of(Json::Object(o), body).group_members == Some(v),
        json::lookup(o, "txid"@) is None || json::lookup(o, "txid"@) == Some(Json::Null) ==> fields_of(Json::Object(o), body).txid is None,
        forall|v: Seq<u8>| json::lookup(o, "txid"@) == Some(#[trigger] numbers_json(v)) ==> fields_of(Json::Object(o), body).txid == Some(v),
        json::lookup(o, "validator_pk"@) is None || json::lookup(o, "validator_pk"@) == Some(Json::Null) ==> fields_of(Json::Object(o), body).validator_pk is None,
        forall|v: Seq<u8>| json::lookup(o, "validator_pk"@) == Some(#[trigger] numbers_json(v)) ==> fields_of(Json::Object(o), body).validator_pk == Some(v),
        json::lookup(o, "sender_sig"@) is None || json::lookup(o, "sender_sig"@) == Some(Json::Null) ==> fields_of(Json::Object(o), body).sender_sig is None,
        forall|v: Seq<u8>| json::lookup(o, "sender_sig"@) == Some(#[trigger] numbers_json(v)) ==> fields_of(Json::Object(o), body).sender_sig == Some(v),
        json::lookup(o, "client_pk"@) is None || json::lookup(o, "client_pk"@) == Some(Json::Null) ==> fields_of(Json::Object(o), body).client_pk is None,
        forall|v: Seq<u8>| json::lookup(o, "client_pk"@) == Some(#[trigger] numbers_json(v)) ==> fields_of(Json::Object(o), body).client_pk == Some(v),
        json::lookup(o, "sphincs_pk_hex"@) is None || json::lookup(o, "sphincs_pk_hex"@) == Some(Json::Null) ==> fields_of(Json::Object(o), body).sphincs_pk_hex is None,
        json::lookup(o, "sphincs_pk_hex"@) matches Some(Json::Str(v)) ==> fields_of(Json::Object(o), body).sphincs_pk_hex == Some(v),
        json::lookup(o, "dilithium_pk_hex"@) is None || json::lookup(o, "dilithium_pk_hex"@) == Some(Json::Null) ==> fields_of(Json::Object(o), body).dilithium_pk_hex is None,
        json::lookup(o, "dilithium_pk_hex"@) matches Some(Json::Str(v)) ==> fields_of(Json::Object(o), body).dilithium_pk_hex == Some(v),
        json::lookup(o, "ed25519_pk_hex"@) is None || json::lookup(o, "ed25519_pk_hex"@) == Some(Json::Null) ==> fields_of(Json::Object(o), body).ed25519_pk_hex is None,
        json::lookup(o, "ed25519_pk_hex"@) matches Some(Json::Str(v)) ==> fields_of(Json::Object(o), body).ed25519_pk_hex == Some(v),
        json::lookup(o, "pgp_fingerprint_hex"@) is None || json::lookup(o, "pgp_fingerprint_hex"@) == Some(Json::Null) ==> fields_of(Json::Object(o), body).pgp_fingerprint_hex is None,
        json::lookup(o, "pgp_fingerprint_hex"@) matches Some(Json::Str(v)) ==> fields_of(Json::Object(o), body).pgp_fingerprint_hex == Some(v),
        json::lookup(o, "issued_at"@) is None || json::lookup(o, "issued_at"@) == Some(Json::Null) ==> fields_of(Json::Object(o), body).issued_at is None,
        json::lookup(o, "issued_at"@) matches Some(Json::PosInt(v)) ==> fields_of(Json::Object(o), body).issued_at == Some(v),
        json::lookup(o, "expires_at"@) is None || json::lookup(o, "expires_at"@) == Some(Json::Null) ==> fields_of(Json::Object(o), body).expires_at is None,
        json::lookup(o, "expires_at"@) matches Some(Json::PosInt(v)) ==> fields_of(Json::Object(o), body).expires_at == Some(v),
        json::lookup(o, "chain_depth"@) is None || json::lookup(o, "chain_depth"@) == Some(Json::Null) ==> fields_of(Json::Object(o), body).chain_depth is None,
        json::lookup(o, "chain_depth"@) matches Some(Json::PosInt(v)) ==> v <= 255 ==> fields_of(Json::Object(o), body).chain_depth == Some(v as u8),
        json::lookup(o, "issuer_set_hex"@) is None ==> fields_of(Json::Object(o), body).issuer_set_hex.len() == 0,
        forall|v: Seq<Seq<char>>| json::lookup(o, "issuer_set_hex"@) == Some(#[trigger] text_list_json(v)) ==> fields_of(Json::Object(o), body).issuer_set_hex == v,
        json::lookup(o, "scar_recovery_proof"@) is None || json::lookup(o, "scar_recovery_proof"@) == Some(Json::Null) ==> fields_of(Json::Object(o), body).scar_recovery_proof is None,
        json::lookup(o, "scar_recovery_proof"@) is Some && json::lookup(o, "scar_recovery_proof"@) != Some(Json::Null) ==> fields_of(Json::Object(o), body).scar_recovery_proof == json::lookup(o, "scar_recovery_proof"@),
        json::lookup(o, "target_wallet_id"@) is None || json::lookup(o, "target_wallet_id"@) == Some(Json::Null) ==> fields_of(Json::Object(o), body).target_wallet_id is None,
        json::lookup(o, "target_wallet_id"@) matches Some(Json::Str(v)) ==> fields_of(Json::Object(o), body).target_wallet_id == Some(v),
        json::lookup(o, "proof_cap"@) is None || json::lookup(o, "proof_cap"@) == Some(Json::Null) ==> fields_of(Json::Object(o), body).proof_cap is None,
        json::lookup(o, "proof_cap"@) matches Some(Json::Str(v)) ==> fields_of(Json::Object(o), body).proof_cap == Some(v),
        json::lookup(o, "node_name_field"@) is None || json::lookup(o, "node_name_field"@) == Some(Json::Null) ==> fields_of(Json::Object(o), body).node_name_field is None,
        json::lookup(o, "node_name_field"@) matches Some(Json::Str(v)) ==> fields_of(Json::Object(o), body).node_name_field == Some(v),
        json::lookup(o, "auth_hash"@) is None || json::lookup(o, "auth_hash"@) == Some(Json::Null) ==> fields_of(Json::Object(o), body).auth_hash is None,
        forall|v: Seq<u8>| json::lookup(o, "auth_hash"@) == Some(#[trigger] numbers_json(v)) ==> fields_of(Json::Object(o), body).auth_hash == Some(v),
        json::lookup(o, "peer_audit_request"@) is None || json::lookup(o, "peer_audit_request"@) == Some(Json::Null) ==> fields_of(Json::Object(o), body).peer_audit_request is None,
        json::lookup(o, "peer_audit_request"@) is Some && json::lookup(o, "peer_audit_request"@) != Some(Json::Null) ==> fields_of(Json::Object(o), body).peer_audit_request == json::lookup(o, "peer_audit_request"@),
        json::lookup(o, "peer_audit_response"@) is None || json::lookup(o, "peer_audit_response"@) == Some(Json::Null) ==> fields_of(Json::Object(o), body).peer_audit_response is None,
        json::lookup(o, "peer_audit_response"@) is Some && json::lookup(o, "peer_audit_response"@) != Some(Json::Null) ==> fields_of(Json::Object(o), body).peer_audit_response == json::lookup(o, "peer_audit_response"@),
        json::lookup(o, "fanout_message"@) is None || json::lookup(o, "fanout_message"@) == Some(Json::Null) ==> fields_of(Json::Object(o), body).fanout_message is None,
        json::lookup(o, "fanout_message"@) is Some && json::lookup(o, "fanout_message"@) != Some(Json::Null) ==> fields_of(Json::Object(o), body).fanout_message == json::lookup(o, "fanout_message"@),
{
    assert forall|v: Seq<u8>, name: Seq<char>, index: int|
        json::lookup(o, name) == Some(#[trigger] numbers_json(v)) implies #[trigger] bytes_field(Json::Object(o), name, index) == Some(v) by {
        let a = numbers_json(v)->Array_0;
        assert(a.map_values(|w: Json| w->PosInt_0 as u8) == v);
    }
    assert forall|v: Seq<Seq<char>>|
        json::lookup(o, "issuer_set_hex"@) == Some(#[trigger] text_list_json(v)) implies fields_of(Json::Object(o), body).issuer_set_hex == v by {
        let a = text_list_json(v)->Array_0;
        assert(a.map_values(|w: Json| w->Str_0) == v);
    }
}

/// A body that is a list is read like the one that holds the same values under the names of the
/// fields, in their order.
pub proof fn law_list_is_read_in_the_order_of_the_fields(o: Seq<(Seq<char>, Json)>, a: Seq<Json>, body: Seq<u8>)
    requires
        forall|i: int|
            0 <= i < FIELDS ==> json::lookup(o, #[trigger] field_name(i)) == if i < a.len() {
                Some(a[i])
            } else {
                None
            },
    ensures
        fields_of(Json::Array(a), body) == fields_of(Json::Object(o), body),
{
    assert(field_name(0) == "query_params"@);
    assert(field_name(1) == "public_key"@);
    assert(field_name(2) == "balance"@);
    assert(field_name(3) == "group_members"@);
    assert(field_name(4) == "txid"@);
    assert(field_name(5) == "validator_pk"@);
    assert(field_name(6) == "sender_sig"@);
    assert(field_name(7) == "client_pk"@);
    assert(field_name(8) == "sphincs_pk_hex"@);
    assert(field_name(9) == "dilithium_pk_hex"@);
    assert(field_name(10) == "ed25519_pk_hex"@);
    assert(field_name(11) == "pgp_fingerprint_hex"@);
    assert(field_name(12) == "issued_at"@);
    assert(field_name(13) == "expires_at"@);
    assert(field_name(14) == "chain_depth"@);
    assert(field_name(15) == "issuer_set_hex"@);
    assert(field_name(16) == "scar_recovery_proof"@);
    assert(field_name(17) == "target_wallet_id"@);
    assert(field_name(18) == "proof_cap"@);
    assert(field_name(19) == "node_name_field"@);
    assert(field_name(20) == "auth_hash"@);
    assert(field_name(21) == "peer_audit_request"@);
    assert(field_name(22) == "peer_audit_response"@);
    assert(field_name(23) == "fanout_message"@);
}

proof fn lemma_bytes_fault(a: Seq<Json>, i: int)
    requires
        0 <= i <= a.len(),
    ensures
        byte_fault_from(a, i) is None <==> forall|k: int|
            i <= k < a.len() ==> (#[trigger] a[k] matches Json::PosInt(u) && u <= 255),
        text_fault_from(a, i) is None <==> forall|k: int| i <= k < a.len() ==> #[trigger] a[k] is Str,
    decreases a.len() - i,
{
    if i < a.len() {
        lemma_bytes_fault(a, i + 1);
    }
}

/// What is taken for bytes is null or a list of numbers up to 255; for a text, null or a text; for
/// a list of texts, such a list; for a number, null or a number that is not too large.
pub proof fn law_kinds_of_values(j: Json, max: u64, expected: Seq<char>)
    ensures
        bytes_fault(j) is None <==> j == Json::Null || (j is Array && is_bytes(j->Array_0)),
        text_fault(j) is None <==> j == Json::Null || j is Str,
        list_fault(j) is None <==> j == Json::Null || j is Array,
        number_fault(j, max, expected) is None <==> j == Json::Null || (j is PosInt && j->PosInt_0 <= max),
        texts_fault(j) is None <==> j is Array && forall|i: int|
            0 <= i < j->Array_0.len() ==> #[trigger] j->Array_0[i] is Str,
{
    if j is Array {
        lemma_bytes_fault(j->Array_0, 0);
    }
}

/// A body is taken exactly if each of its values is; values under other names are passed over.
pub proof fn law_body_is_as_good_as_its_values(o: Seq<(Seq<char>, Json)>, i: int)
    requires
        0 <= i <= o.len(),
    ensures
        object_fault_from(o, i) is None <==> forall|k: int|
            i <= k < o.len() ==> value_fault((#[trigger] o[k]).0, o[k].1) is None,
        i == 0 ==> (payload_fault(Json::Object(o)) is None <==> forall|k: int|
            0 <= k < o.len() ==> value_fault((#[trigger] o[k]).0, o[k].1) is None),
    decreases o.len() - i,
{
    if i < o.len() {
        law_body_is_as_good_as_its_values(o, i + 1);
    }
}

proof fn lemma_found_value_is_good(o: Seq<(Seq<char>, Json)>, name: Seq<char>)
    requires
        payload_fault(Json::Object(o)) is None,
    ensures
        json::lookup(o, name) matches Some(v) ==> value_fault(name, v) is None,
{
    law_body_is_as_good_as_its_values(o, 0);
    json::law_lookup_is_by_key(o, name);
    if json::lookup(o, name) is Some {
        let k = choose|k: int| 0 <= k < o.len() && o[k] == (name, json::lookup(o, name)->0);
        assert(value_fault(o[k].0, o[k].1) is None);
    }
}

/// In a body that is taken, each field has a value of its kind.
pub proof fn law_taken_values_are_of_their_kinds(o: Seq<(Seq<char>, Json)>)
    requires
        payload_fault(Json::Object(o)) is None,
    ensures
        json::lookup(o, "public_key"@) matches Some(v) ==> bytes_fault(v) is None,
        json::lookup(o, "balance"@) matches Some(v) ==> number_fault(v, u64::MAX, "u64"@) is None,
        json::lookup(o, "group_members"@) matches Some(v) ==> list_fault(v) is None,
        json::lookup(o, "txid"@) matches Some(v) ==> bytes_fault(v) is None,
        json::lookup(o, "validator_pk"@) matches Some(v) ==> bytes_fault(v) is None,
        json::lookup(o, "sender_sig"@) matches Some(v) ==> bytes_fault(v) is None,
        json::lookup(o, "client_pk"@) matches Some(v) ==> bytes_fault(v) is None,
        json::lookup(o, "sphincs_pk_hex"@) matches Some(v) ==> text_fault(v) is None,
        json::lookup(o, "dilithium_pk_hex"@) matches Some(v) ==> text_fault(v) is None,
        json::lookup(o, "ed25519_pk_hex"@) matches Some(v) ==> text_fault(v) is None,
        json::lookup(o, "pgp_fingerprint_hex"@) matches Some(v) ==> text_fault(v) is None,
        json::lookup(o, "issued_at"@) matches Some(v) ==> number_fault(v, u64::MAX, "u64"@) is None,
        json::lookup(o, "expires_at"@) matches Some(v) ==> number_fault(v, u64::MAX, "u64"@) is None,
        json::lookup(o, "chain_depth"@) matches Some(v) ==> number_fault(v, 255, "u8"@) is None,
        json::lookup(o, "issuer_set_hex"@) matches Some(v) ==> texts_fault(v) is None,
        json::lookup(o, "target_wallet_id"@) matches Some(v) ==> text_fault(v) is None,
        json::lookup(o, "proof_cap"@) matches Some(v) ==> text_fault(v) is None,
        json::lookup(o, "node_name_field"@) matches Some(v) ==> text_fault(v) is None,
        json::lookup(o, "auth_hash"@) matches Some(v) ==> bytes_fault(v) is None,
{
    lemma_found_value_is_good(o, "public_key"@);
    lemma_found_value_is_good(o, "balance"@);
    lemma_found_value_is_good(o, "group_members"@);
    lemma_found_value_is_good(o, "txid"@);
    lemma_found_value_is_good(o, "validator_pk"@);
    lemma_found_value_is_good(o, "sender_sig"@);
    lemma_found_value_is_good(o, "client_pk"@);
    lemma_found_value_is_good(o, "sphincs_pk_hex"@);
    lemma_found_value_is_good(o, "dilithium_pk_hex"@);
    lemma_found_value_is_good(o, "ed25519_pk_hex"@);
    lemma_found_value_is_good(o, "pgp_fingerprint_hex"@);
    lemma_found_value_is_good(o, "issued_at"@);
    lemma_found_value_is_good(o, "expires_at"@);
    lemma_found_value_is_good(o, "chain_depth"@);
    lemma_found_value_is_good(o, "issuer_set_hex"@);
    lemma_found_value_is_good(o, "target_wallet_id"@);
    lemma_found_value_is_good(o, "proof_cap"@);
    lemma_found_value_is_good(o, "node_name_field"@);
    lemma_found_value_is_good(o, "auth_hash"@);
}

/// A value is faulty only under the name of a field of another kind: under any other name it is
/// passed over.
pub proof fn law_other_names_are_passed_over(name: Seq<char>, j: Json)
    requires
        name != "public_key"@,
        name != "balance"@,
        name != "group_members"@,
        name != "txid"@,
        name != "validator_pk"@,
        name != "sender_sig"@,
        name != "client_pk"@,
        name != "sphincs_pk_hex"@,
        name != "dilithium_pk_hex"@,
        name != "ed25519_pk_hex"@,
        name != "pgp_fingerprint_hex"@,
        name != "issued_at"@,
        name != "expires_at"@,
        name != "chain_depth"@,
        name != "issuer_set_hex"@,
        name != "target_wallet_id"@,
        name != "proof_cap"@,
        name != "node_name_field"@,
        name != "auth_hash"@,
    ensures
        value_fault(name, j) is None,
{
}


/// What is said of a value that does not fit: what it is, and what was expected.
pub proof fn law_unfit_values_are_named(j: Json, s: Seq<char>, u: u64, expected: Seq<char>)
    ensures
        unexpected(Json::Null) == "null"@,
        unexpected(Json::Bool(true)) == "boolean `true`"@,
        unexpected(Json::Bool(false)) == "boolean `false`"@,
        unexpected(Json::PosInt(u)) == "integer `"@ + text::dec(u as nat) + "`"@,
        unexpected(Json::Str(s)) == "string "@ + text::str_debug_text(s),
        j is NegInt ==> unexpected(j) == "integer `"@ + json::number_text(j) + "`"@,
        j is Float ==> unexpected(j) == "floating point `"@ + json::number_text(j) + "`"@,
        j is Array ==> unexpected(j) == "sequence"@,
        j is Object ==> unexpected(j) == "map"@,
        wrong_type(j, expected) == "invalid type: "@ + unexpected(j) + ", expected "@ + expected,
        wrong_value(j, expected) == "invalid value: "@ + unexpected(j) + ", expected "@ + expected,
{
}

/// A number that is too large, or below zero, has the wrong value; anything but a number has
/// the wrong type.
pub proof fn law_wrong_values_and_types(j: Json, max: u64, expected: Seq<char>)
    ensures
        integer_fault(j, max, expected) is None <==> j is PosInt && j->PosInt_0 <= max,
        j is NegInt || (j is PosInt && j->PosInt_0 > max) ==> integer_fault(j, max, expected) == Some(
            wrong_value(j, expected),
        ),
        !(j is NegInt) && !(j is PosInt) ==> integer_fault(j, max, expected) == Some(wrong_type(j, expected)),
        text_fault(j) is Some ==> text_fault(j) == Some(wrong_type(j, "a string"@)),
        list_fault(j) is Some ==> list_fault(j) == Some(wrong_type(j, "a sequence"@)),
        bytes_fault(j) is Some && !(j is Array) ==> bytes_fault(j) == Some(wrong_type(j, "a sequence"@)),
        texts_fault(j) is Some && !(j is Array) ==> texts_fault(j) == Some(wrong_type(j, "a sequence"@)),
        !(j is Object) && !(j is Array) ==> payload_fault(j) == Some(wrong_type(j, "struct AntiePayload"@)),
{
}

/// The first item that does not fit is the one that is named.
pub proof fn law_first_unfit_item_is_named(a: Seq<Json>, i: int)
    requires
        0 <= i < a.len(),
    ensures
        a[i] is PosInt && a[i]->PosInt_0 <= 255 ==> byte_fault_from(a, i) == byte_fault_from(a, i + 1),
        !(a[i] is PosInt && a[i]->PosInt_0 <= 255) ==> byte_fault_from(a, i) == integer_fault(a[i], 255, "u8"@),
        a[i] is Str ==> text_fault_from(a, i) == text_fault_from(a, i + 1),
        !(a[i] is Str) ==> text_fault_from(a, i) == Some(wrong_type(a[i], "a string"@)),
{
}

proof fn lemma_array_fault(a: Seq<Json>, i: int)
    requires
        0 <= i <= 24,
    ensures
        array_fault_from(a, i) is None <==> a.len() <= 24 && (i < 15 ==> a.len() >= 15) && forall|k: int|
            i <= k < a.len() ==> value_fault(field_name(k), #[trigger] a[k]) is None,
    decreases 24 - i,
{
    if i < 24 {
        lemma_array_fault(a, i + 1);
        if array_fault_from(a, i) is None {
            assert forall|k: int| i <= k < a.len() implies value_fault(field_name(k), #[trigger] a[k]) is None by {}
        }
        if a.len() <= 24 && (i < 15 ==> a.len() >= 15) && forall|k: int|
            i <= k < a.len() ==> value_fault(field_name(k), #[trigger] a[k]) is None {
            if i < a.len() {
                assert(value_fault(field_name(i), a[i]) is None);
            }
        }
    }
}

/// A list stands for a body if it has at least fifteen items and at most as many as there are
/// fields, each of them fit for the field at its place; and only then.
pub proof fn law_list_is_as_good_as_its_values(a: Seq<Json>)
    ensures
        payload_fault(Json::Array(a)) is None <==> 15 <= a.len() <= 24 && forall|k: int|
            0 <= k < a.len() ==> value_fault(field_name(k), #[trigger] a[k]) is None,
{
    lemma_array_fault(a, 0);
}

/// A body that does not fit is an error that says so; every other body is read.
pub proof fn law_unfit_bodies_are_errors(j: Json, body: Seq<u8>)
    ensures
        payload_fault(j) is None <==> payload_of(j, body) is Ok,
        payload_fault(j) is None ==> payload_of(j, body)->Ok_0 == fields_of(j, body),
        payload_fault(j) is Some ==> payload_of(j, body)->Err_0 == ErrorView::EmailParseError(
            "JSON→struct failed: "@ + payload_fault(j)->0,
        ),
{
}


proof fn lemma_fit_items(a: Seq<Json>, i: int, m: int)
    requires
        0 <= i <= m <= 24,
        m <= a.len(),
        forall|k: int| 0 <= k < m ==> value_fault(field_name(k), #[trigger] a[k]) is None,
    ensures
        array_fault_from(a, i) == array_fault_from(a, m),
    decreases m - i,
{
    if i < m {
        assert(value_fault(field_name(i), a[i]) is None);
        lemma_fit_items(a, i + 1, m);
    }
}

/// A list that ends too early is named by the place of the first item that it may not lack, and
/// one that is too long by its length, as long as the items fit.
pub proof fn law_wrong_lengths_are_named(a: Seq<Json>)
    requires
        forall|k: int| 0 <= k < a.len() && k < 24 ==> value_fault(field_name(k), #[trigger] a[k]) is None,
    ensures
        a.len() < 15 && a.len() != 3 && a.len() != 11 ==> payload_fault(Json::Array(a)) == Some(
            "invalid length "@ + text::dec(a.len()) + ", expected struct AntiePayload with 24 elements"@,
        ),
        a.len() == 3 ==> payload_fault(Json::Array(a)) == Some(
            "invalid length "@ + text::dec(4) + ", expected struct AntiePayload with 24 elements"@,
        ),
        a.len() == 11 ==> payload_fault(Json::Array(a)) == Some(
            "invalid length "@ + text::dec(12) + ", expected struct AntiePayload with 24 elements"@,
        ),
        a.len() > 24 ==> payload_fault(Json::Array(a)) == Some(
            "invalid length "@ + text::dec(a.len()) + ", expected fewer elements in array"@,
        ),
{
    let m: int = if a.len() < 24 {
        a.len() as int
    } else {
        24
    };
    lemma_fit_items(a, 0, m);
    reveal_with_fuel(array_fault_from, 3);
}

} // verus!
