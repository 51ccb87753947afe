//! What the ledger service is asked, in CBOR. Each request is a map; most name their kind under
//! `type`.
use vstd::prelude::*;
use crate::antie::cbor;
use crate::antie::cbor_map;
use crate::antie::cbor_map::{ciborium_form, numbers_item, write_json, write_numbers, write_text, MapWriter};
use crate::antie::email;
use crate::antie::email::random_uuid;
use crate::antie::error::{labelled, AntieError, ErrorView};
use crate::antie::lambda_client::{fanout_request_id, LambdaClient, LambdaScarHealRequest};
use crate::json;
use crate::text;

verus! {

/// The fields that name a request's kind and the request.
pub open spec fn named(kind: Seq<char>, request_id: Seq<char>) -> Seq<(Seq<char>, Seq<u8>)> {
    seq![("type"@, cbor::text_item(kind)), ("request_id"@, cbor::text_item(request_id))]
}

/// A request about a fan-out message.
pub open spec fn about_fanout(kind: Seq<char>, label: Seq<char>, id: Seq<u8>) -> Seq<u8> {
    email::cbor_map(
        named(kind, label + text::hex_text(id.take(8))).push(("diffusion_id"@, numbers_item(id))),
    )
}

/// The fields of a request to heal a scar.
pub open spec fn heal_fields(request: LambdaScarHealRequest, proof_cbor: Seq<u8>) -> Seq<
    (Seq<char>, Seq<u8>),
> {
    seq![
        ("request_type"@, cbor::text_item(request.request_type@)),
        ("request_id"@, cbor::text_item(request.request_id@)),
        ("scar_recovery_proof"@, proof_cbor),
        ("target_wallet_id"@, cbor::text_item(request.target_wallet_id@)),
    ]
}

/// The start of a request.
fn start(kind: &str, request_id: &str) -> (r: MapWriter)
    ensures
        r.wf(),
        r.count == 2,
        r.fields@ == named(kind@, request_id@),
{
    let mut w = MapWriter::new();
    w.put("type", write_text(kind));
    w.put("request_id", write_text(request_id));
    proof {
        let fields = named(kind@, request_id@);
        assert(w.fields@[0] == fields[0]);
        assert(w.fields@[1] == fields[1]);
        assert(w.fields@ =~= fields);
    }
    w
}

fn ask_fanout(kind: &str, label: &str, diffusion_id: &[u8; 32]) -> (r: Vec<u8>)
    ensures
        r@ == about_fanout(kind@, label@, diffusion_id@),
{
    let id = fanout_request_id(label, diffusion_id);
    let mut w = start(kind, id.as_str());
    w.put("diffusion_id", write_numbers(diffusion_id.as_slice()));
    assert(w.fields@ == named(kind@, id@).push(("diffusion_id"@, numbers_item(diffusion_id@))));
    w.finish()
}

impl LambdaClient {
    /// Asks whether the service answers, under a fresh id.
    pub fn health_check(&self) -> (r: Vec<u8>)
        ensures
            exists|unique: Seq<char>| #[trigger]
                email::is_uuid(unique) && r@ == email::cbor_map(named("health"@, "health-"@ + unique)),
    {
        let unique = random_uuid();
        let id = labelled("health-", unique.as_str());
        assert(email::is_uuid(unique@));
        start("health", id.as_str()).finish()
    }

    /// Asks what the validator says of itself.
    pub fn send_validator_status_request(&self, request_id: &str) -> (r: Vec<u8>)
        ensures
            r@ == email::cbor_map(named("validator_status"@, request_id@)),
    {
        start("validator_status", request_id).finish()
    }

    /// Asks for a change of a wallet's owner proof.
    pub fn send_set_auth_hash_request(&self, request_id: &str, public_key: &[u8], auth_hash: &[u8]) -> (r:
        Vec<u8>)
        ensures
            r@ == email::cbor_map(
                named("set_auth_hash"@, request_id@).push(("public_key"@, numbers_item(public_key@))).push(
                    ("auth_hash"@, numbers_item(auth_hash@)),
                ),
            ),
    {
        let mut w = start("set_auth_hash", request_id);
        w.put("public_key", write_numbers(public_key));
        w.put("auth_hash", write_numbers(auth_hash));
        assert(w.fields@ == named("set_auth_hash"@, request_id@).push(
            ("public_key"@, numbers_item(public_key@)),
        ).push(("auth_hash"@, numbers_item(auth_hash@))));
        w.finish()
    }

    /// Asks whether a fan-out message has been seen before. It is not marked.
    pub fn send_fanout_dedup(&self, diffusion_id: &[u8; 32]) -> (r: Vec<u8>)
        ensures
            r@ == about_fanout("fanout_dedup"@, "dedup-"@, diffusion_id@),
    {
        ask_fanout("fanout_dedup", "dedup-", diffusion_id)
    }

    /// Asks to mark a fan-out message as seen.
    pub fn send_fanout_mark(&self, diffusion_id: &[u8; 32]) -> (r: Vec<u8>)
        ensures
            r@ == about_fanout("fanout_mark"@, "mark-"@, diffusion_id@),
    {
        ask_fanout("fanout_mark", "mark-", diffusion_id)
    }

    /// Asks to heal a scar. The proof may have no form in CBOR; the request then has none.
    pub fn send_scar_heal_request(&self, request: &LambdaScarHealRequest) -> (r: Result<
        Vec<u8>,
        AntieError,
    >)
        ensures
            match ciborium_form(json::json_text(request.scar_recovery_proof@)) {
                Ok(proof_cbor) => r matches Ok(b) && b@ == email::cbor_map(
                    heal_fields(*request, proof_cbor),
                ),
                Err(e) => r matches Err(got) && got@ == ErrorView::LambdaError(
                    "CBOR encode error: "@ + e,
                ),
            },
    {
        let proof_cbor = match write_json(&request.scar_recovery_proof) {
            Ok(b) => b,
            Err(e) => {
                return Err(AntieError::LambdaError(labelled("CBOR encode error: ", e.as_str())));
            },
        };
        let ghost proof_bytes = proof_cbor@;
        let mut w = MapWriter::new();
        w.put("request_type", write_text(request.request_type.as_str()));
        w.put("request_id", write_text(request.request_id.as_str()));
        w.put("scar_recovery_proof", proof_cbor);
        w.put("target_wallet_id", write_text(request.target_wallet_id.as_str()));
        proof {
            let fields = heal_fields(*request, proof_bytes);
            assert(w.fields@[0] == fields[0]);
            assert(w.fields@[1] == fields[1]);
            assert(w.fields@[2] == fields[2]);
            assert(w.fields@[3] == fields[3]);
            assert(w.fields@ =~= fields);
        }
        Ok(w.finish())
    }
}

/// A request names its kind and itself.
pub proof fn law_request_names_its_kind(kind: Seq<char>, request_id: Seq<char>)
    ensures
        cbor_map::holds_only(named(kind, request_id), "type"@, Some(cbor::text_item(kind))),
        cbor_map::holds_only(named(kind, request_id), "request_id"@, Some(cbor::text_item(request_id))),
        named(kind, request_id).len() == 2,
{
    reveal_strlit("type");
    reveal_strlit("request_id");
    assert("type"@.len() == 4);
    assert("request_id"@.len() == 10);
    cbor_map::lemma_fields_held(named(kind, request_id), 0);
    cbor_map::lemma_fields_held(named(kind, request_id), 1);
}

/// A request about a fan-out message names its kind and the message, and is called after the
/// first bytes of the message's id.
pub proof fn law_fanout_request_names_the_message(kind: Seq<char>, label: Seq<char>, id: Seq<u8>)
    requires
        id.len() == 32,
    ensures
        exists|fields: Seq<(Seq<char>, Seq<u8>)>|
            about_fanout(kind, label, id) == #[trigger] email::cbor_map(fields) && fields.len() == 3
                && cbor_map::holds_only(fields, "type"@, Some(cbor::text_item(kind))) && cbor_map::holds_only(
                fields,
                "diffusion_id"@,
                Some(numbers_item(id)),
            ) && cbor_map::holds_only(
                fields,
                "request_id"@,
                Some(cbor::text_item(label + text::hex_text(id.take(8)))),
            ),
{
    reveal_strlit("type");
    reveal_strlit("request_id");
    reveal_strlit("diffusion_id");
    assert("type"@.len() == 4);
    assert("request_id"@.len() == 10);
    assert("diffusion_id"@.len() == 12);
    let fields = named(kind, label + text::hex_text(id.take(8))).push(("diffusion_id"@, numbers_item(id)));
    cbor_map::lemma_fields_held(fields, 0);
    cbor_map::lemma_fields_held(fields, 1);
    cbor_map::lemma_fields_held(fields, 2);
    assert(about_fanout(kind, label, id) == email::cbor_map(fields));
}

/// A request to heal a scar holds the proof and the wallet.
pub proof fn law_heal_request_holds_its_parts(request: LambdaScarHealRequest, proof_cbor: Seq<u8>)
    ensures
        cbor_map::holds_only(
            heal_fields(request, proof_cbor),
            "request_type"@,
            Some(cbor::text_item(request.request_type@)),
        ),
        cbor_map::holds_only(
            heal_fields(request, proof_cbor),
            "request_id"@,
            Some(cbor::text_item(request.request_id@)),
        ),
        cbor_map::holds_only(heal_fields(request, proof_cbor), "scar_recovery_proof"@, Some(proof_cbor)),
        cbor_map::holds_only(
            heal_fields(request, proof_cbor),
            "target_wallet_id"@,
            Some(cbor::text_item(request.target_wallet_id@)),
        ),
        heal_fields(request, proof_cbor).len() == 4,
{
    reveal_strlit("request_type");
    reveal_strlit("request_id");
    reveal_strlit("scar_recovery_proof");
    reveal_strlit("target_wallet_id");
    assert("request_type"@.len() == 12);
    assert("request_id"@.len() == 10);
    assert("scar_recovery_proof"@.len() == 19);
    assert("target_wallet_id"@.len() == 16);
    let fields = heal_fields(request, proof_cbor);
    cbor_map::lemma_fields_held(fields, 0);
    cbor_map::lemma_fields_held(fields, 1);
    cbor_map::lemma_fields_held(fields, 2);
    cbor_map::lemma_fields_held(fields, 3);
}

} // verus!
