//! Witness requests: their form on the wire, and what a witness sends to whom.
use vstd::prelude::*;
use crate::antie::cbor;
use crate::antie::cbor_map;
use crate::antie::core_ipc::ValidationOutput;
use crate::antie::email;
use crate::antie::email::{build_cheque_delivery_email, build_peer_audit_request_email, build_scar_consent_email};
use crate::antie::error::AntieError;
use crate::antie::lambda_client::WitnessResponse;
use crate::antie::payload;
use crate::antie::response;
use crate::antie::response::ResponsePayload;
use crate::antie::skip_list::SkipList;
use crate::json;
use crate::json::Json;
use crate::paths;
use crate::text;

verus! {

// ---------------------------------------------------------------------------
// The body of a witness request
// ---------------------------------------------------------------------------

/// An entry of a CBOR map: its key if that is text, its value if that is a truth value, and
/// both in CBOR.
pub struct CborEntry {
    pub key: Option<String>,
    pub flag: Option<bool>,
    pub key_cbor: Vec<u8>,
    pub value_cbor: Vec<u8>,
}

/// The mathematical value of a [`CborEntry`].
pub struct EntryView {
    pub key: Option<Seq<char>>,
    pub flag: Option<bool>,
    pub key_cbor: Seq<u8>,
    pub value_cbor: Seq<u8>,
}

impl View for CborEntry {
    type V = EntryView;

    open spec fn view(&self) -> EntryView {
        EntryView {
            key: payload::opt(self.key),
            flag: self.flag,
            key_cbor: self.key_cbor@,
            value_cbor: self.value_cbor@,
        }
    }
}

/// What a list of entries stands for.
pub open spec fn entry_views(v: Seq<CborEntry>) -> Seq<EntryView> {
    Seq::new(v.len(), |i: int| v[i]@)
}

/// The entries of the map that bytes hold in CBOR; `None` if they hold something else, and
/// the text of the error if they are not CBOR.
pub uninterp spec fn map_entries(b: Seq<u8>) -> Result<Option<Seq<EntryView>>, Seq<char>>;

/// What reading a map gave.
pub open spec fn read_view(r: Result<Option<Vec<CborEntry>>, String>) -> Result<
    Option<Seq<EntryView>>,
    Seq<char>,
> {
    match r {
        Ok(Some(v)) => Ok(Some(entry_views(v@))),
        Ok(None) => Ok(None),
        Err(e) => Err(e@),
    }
}

/// `ciborium::from_reader` into a `ciborium::Value`, and `ciborium::into_writer` for each key
/// and value if it is a map.
#[verifier::external_body]
fn read_map(b: &[u8]) -> (r: Result<Option<Vec<CborEntry>>, String>)
    ensures
        read_view(r) == map_entries(b@),
{
    let value: ciborium::Value = ciborium::from_reader(b).map_err(|e| e.to_string())?;
    value.into_map().ok().map(|m| m.iter().map(|(k, v)| {
        let (mut key_cbor, mut value_cbor) = (Vec::new(), Vec::new());
        ciborium::into_writer(k, &mut key_cbor).map_err(|e| e.to_string())?;
        ciborium::into_writer(v, &mut value_cbor).map_err(|e| e.to_string())?;
        Ok(CborEntry { key: k.as_text().map(String::from), flag: v.as_bool(), key_cbor, value_cbor })
    }).collect()).transpose()
}

/// What a transaction is for.
#[derive(Debug, Clone, Copy, PartialEq, Eq, Structural)]
pub enum TxKind {
    Normal,
    Heal,
    GenesisClaim,
    ValidatorWithdrawalMint,
    HalReanchor,
    Recall,
}

/// Where the first entry with a key is.
pub open spec fn position(e: Seq<EntryView>, key: Seq<char>) -> Option<int>
    decreases e.len(),
{
    if e.len() == 0 {
        None
    } else if e[0].key == Some(key) {
        Some(0)
    } else {
        match position(e.drop_first(), key) {
            Some(i) => Some(i + 1),
            None => None,
        }
    }
}

proof fn lemma_position(e: Seq<EntryView>, key: Seq<char>)
    ensures
        match position(e, key) {
            Some(i) => 0 <= i < e.len() && e[i].key == Some(key),
            None => forall|k: int| 0 <= k < e.len() ==> (#[trigger] e[k]).key != Some(key),
        },
    decreases e.len(),
{
    if e.len() > 0 && e[0].key != Some(key) {
        let t = e.drop_first();
        lemma_position(t, key);
        match position(t, key) {
            Some(i) => {
                assert(t[i] == e[i + 1]);
            },
            None => {
                assert forall|k: int| 0 <= k < e.len() implies (#[trigger] e[k]).key != Some(key) by {
                    if k > 0 {
                        assert(t[k - 1] == e[k]);
                    }
                }
            },
        }
    }
}

proof fn lemma_position_at(e: Seq<EntryView>, key: Seq<char>, i: int)
    requires
        0 <= i < e.len(),
        e[i].key == Some(key),
        forall|k: int| 0 <= k < i ==> (#[trigger] e[k]).key != Some(key),
    ensures
        position(e, key) == Some(i),
    decreases i,
{
    if i > 0 {
        let t = e.drop_first();
        assert(t[i - 1] == e[i]);
        assert forall|k: int| 0 <= k < i - 1 implies (#[trigger] t[k]).key != Some(key) by {
            assert(t[k] == e[k + 1]);
        }
        assert(e[0].key != Some(key));
        lemma_position_at(t, key, i - 1);
    }
}

/// Where the first entry with a key is.
fn find_entry(e: &Vec<CborEntry>, key: &str) -> (r: Option<usize>)
    ensures
        match r {
            Some(i) => i < e@.len() && position(entry_views(e@), key@) == Some(i as int),
            None => position(entry_views(e@), key@) is None,
        },
{
    let ghost all = entry_views(e@);
    let mut i: usize = 0;
    while i < e.len()
        invariant
            i <= e@.len(),
            all == entry_views(e@),
            forall|k: int| 0 <= k < i ==> (#[trigger] all[k]).key != Some(key@),
        decreases e@.len() - i,
    {
        let hit = match &e[i].key {
            Some(k) => text::same_text(k.as_str(), key),
            None => false,
        };
        if hit {
            proof {
                assert(all[i as int].key == Some(key@));
                lemma_position_at(all, key@, i as int);
            }
            return Some(i);
        }
        proof {
            assert(all[i as int].key != Some(key@));
        }
        i = i + 1;
    }
    proof {
        lemma_position(all, key@);
    }
    None
}

/// The entries without the first one that has a key.
pub open spec fn without(e: Seq<EntryView>, key: Seq<char>) -> Seq<EntryView> {
    match position(e, key) {
        Some(i) => e.remove(i),
        None => e,
    }
}

/// Whether the first entry with a key is there, and whether it is set.
pub open spec fn flag_of(e: Seq<EntryView>, key: Seq<char>) -> (bool, bool) {
    match position(e, key) {
        Some(i) => (true, e[i].flag == Some(true)),
        None => (false, false),
    }
}

/// Takes the first entry with a key out; says whether it was there and whether it was set.
fn take_flag(e: &mut Vec<CborEntry>, key: &str) -> (r: (bool, bool))
    ensures
        entry_views(final(e)@) == without(entry_views(old(e)@), key@),
        r == flag_of(entry_views(old(e)@), key@),
{
    match find_entry(e, key) {
        Some(i) => {
            let ghost before = e@;
            let entry = e.remove(i);
            proof {
                assert(entry_views(e@) == entry_views(before).remove(i as int));
            }
            (
                true,
                match entry.flag {
                    Some(b) => b,
                    None => false,
                },
            )
        },
        None => (false, false),
    }
}

/// The CBOR form of entries, one after the other.
pub open spec fn entries_cbor(e: Seq<EntryView>) -> Seq<u8>
    decreases e.len(),
{
    if e.len() == 0 {
        Seq::empty()
    } else {
        entries_cbor(e.drop_last()) + e.last().key_cbor + e.last().value_cbor
    }
}

/// The CBOR form of a map.
pub open spec fn map_cbor(e: Seq<EntryView>) -> Seq<u8> {
    cbor::head(5, e.len()) + entries_cbor(e)
}

/// Writes a map in CBOR.
fn write_map(e: &Vec<CborEntry>) -> (r: Vec<u8>)
    ensures
        r@ == map_cbor(entry_views(e@)),
{
    let ghost all = entry_views(e@);
    let mut out: Vec<u8> = Vec::new();
    cbor::encode_head(5, e.len() as u64, &mut out);
    let ghost first = out@;
    let mut i: usize = 0;
    proof {
        assert(first + entries_cbor(all.take(0)) == first);
    }
    while i < e.len()
        invariant
            i <= e@.len(),
            all == entry_views(e@),
            out@ == first + entries_cbor(all.take(i as int)),
        decreases e@.len() - i,
    {
        proof {
            assert(all.take(i + 1).drop_last() == all.take(i as int));
        }
        cbor::push_bytes(&mut out, e[i].key_cbor.as_slice());
        cbor::push_bytes(&mut out, e[i].value_cbor.as_slice());
        proof {
            assert(out@ == first + entries_cbor(all.take(i + 1)));
        }
        i = i + 1;
    }
    proof {
        assert(all.take(all.len() as int) == all);
    }
    out
}

/// The entries of a transaction without the marks of its kind.
pub open spec fn unmarked(tx: Seq<EntryView>) -> Seq<EntryView> {
    without(
        without(
            without(
                without(without(tx, "is_heal"@), "is_validator_withdrawal_mint"@),
                "is_genesis_claim"@,
            ),
            "is_hal_reanchor"@,
        ),
        "is_recall"@,
    )
}

/// The kind that the marks in a transaction give; `None` if it has none of them, and then the
/// transaction names its kind itself.
pub open spec fn marked_kind(tx: Seq<EntryView>) -> Option<TxKind> {
    let heal = flag_of(tx, "is_heal"@);
    let mint = flag_of(tx, "is_validator_withdrawal_mint"@);
    let genesis = flag_of(tx, "is_genesis_claim"@);
    let reanchor = flag_of(tx, "is_hal_reanchor"@);
    let recall = flag_of(tx, "is_recall"@);
    if !(heal.0 || mint.0 || genesis.0 || reanchor.0 || recall.0) {
        None
    } else if mint.1 {
        Some(TxKind::ValidatorWithdrawalMint)
    } else if genesis.1 {
        Some(TxKind::GenesisClaim)
    } else if reanchor.1 {
        Some(TxKind::HalReanchor)
    } else if recall.1 {
        Some(TxKind::Recall)
    } else if heal.1 {
        Some(TxKind::Heal)
    } else {
        Some(TxKind::Normal)
    }
}

proof fn lemma_flag_elsewhere(e: Seq<EntryView>, gone: Seq<char>, key: Seq<char>)
    requires
        gone != key,
    ensures
        flag_of(without(e, gone), key) == flag_of(e, key),
{
    lemma_position(e, gone);
    match position(e, gone) {
        Some(i) => {
            let f = e.remove(i);
            lemma_position(e, key);
            match position(e, key) {
                Some(p) => {
                    lemma_first(e, key);
                    let q = if p < i { p } else { p - 1 };
                    assert(p != i);
                    assert(f[q] == e[p]);
                    assert forall|k: int| 0 <= k < q implies (#[trigger] f[k]).key != Some(key) by {
                        if k < i {
                            assert(f[k] == e[k]);
                        } else {
                            assert(f[k] == e[k + 1]);
                        }
                    }
                    lemma_position_at(f, key, q);
                },
                None => {
                    lemma_position(f, key);
                    if position(f, key) is Some {
                        let q = position(f, key)->0;
                        if q < i {
                            assert(f[q] == e[q]);
                        } else {
                            assert(f[q] == e[q + 1]);
                        }
                    }
                },
            }
        },
        None => {},
    }
}

proof fn lemma_first(e: Seq<EntryView>, key: Seq<char>)
    requires
        position(e, key) is Some,
    ensures
        forall|k: int| 0 <= k < position(e, key)->0 ==> (#[trigger] e[k]).key != Some(key),
    decreases e.len(),
{
    if e.len() > 0 && e[0].key != Some(key) {
        let t = e.drop_first();
        lemma_first(t, key);
        lemma_position(t, key);
        assert forall|k: int| 0 <= k < position(e, key)->0 implies (#[trigger] e[k]).key != Some(key) by {
            if k > 0 {
                assert(t[k - 1] == e[k]);
            }
        }
    }
}

/// Takes the marks of its kind out of a transaction, and says which kind they give.
fn strip_marks(tx: &mut Vec<CborEntry>) -> (r: Option<TxKind>)
    ensures
        entry_views(final(tx)@) == unmarked(entry_views(old(tx)@)),
        r == marked_kind(entry_views(old(tx)@)),
{
    let ghost t0 = entry_views(tx@);
    let heal = take_flag(tx, "is_heal");
    let ghost t1 = entry_views(tx@);
    let mint = take_flag(tx, "is_validator_withdrawal_mint");
    let ghost t2 = entry_views(tx@);
    let genesis = take_flag(tx, "is_genesis_claim");
    let ghost t3 = entry_views(tx@);
    let reanchor = take_flag(tx, "is_hal_reanchor");
    let ghost t4 = entry_views(tx@);
    let recall = take_flag(tx, "is_recall");
    proof {
        lemma_mark_names();
        lemma_flag_elsewhere(t0, "is_heal"@, "is_validator_withdrawal_mint"@);
        lemma_flag_elsewhere(t0, "is_heal"@, "is_genesis_claim"@);
        lemma_flag_elsewhere(t1, "is_validator_withdrawal_mint"@, "is_genesis_claim"@);
        lemma_flag_elsewhere(t0, "is_heal"@, "is_hal_reanchor"@);
        lemma_flag_elsewhere(t1, "is_validator_withdrawal_mint"@, "is_hal_reanchor"@);
        lemma_flag_elsewhere(t2, "is_genesis_claim"@, "is_hal_reanchor"@);
        lemma_flag_elsewhere(t0, "is_heal"@, "is_recall"@);
        lemma_flag_elsewhere(t1, "is_validator_withdrawal_mint"@, "is_recall"@);
        lemma_flag_elsewhere(t2, "is_genesis_claim"@, "is_recall"@);
        lemma_flag_elsewhere(t3, "is_hal_reanchor"@, "is_recall"@);
    }
    if !(heal.0 || mint.0 || genesis.0 || reanchor.0 || recall.0) {
        None
    } else if mint.1 {
        Some(TxKind::ValidatorWithdrawalMint)
    } else if genesis.1 {
        Some(TxKind::GenesisClaim)
    } else if reanchor.1 {
        Some(TxKind::HalReanchor)
    } else if recall.1 {
        Some(TxKind::Recall)
    } else if heal.1 {
        Some(TxKind::Heal)
    } else {
        Some(TxKind::Normal)
    }
}

/// The marks of a kind have different names.
proof fn lemma_mark_names()
    ensures
        "is_heal"@ != "is_validator_withdrawal_mint"@,
        "is_heal"@ != "is_genesis_claim"@,
        "is_heal"@ != "is_hal_reanchor"@,
        "is_heal"@ != "is_recall"@,
        "is_validator_withdrawal_mint"@ != "is_genesis_claim"@,
        "is_validator_withdrawal_mint"@ != "is_hal_reanchor"@,
        "is_validator_withdrawal_mint"@ != "is_recall"@,
        "is_genesis_claim"@ != "is_hal_reanchor"@,
        "is_genesis_claim"@ != "is_recall"@,
        "is_hal_reanchor"@ != "is_recall"@,
{
    reveal_strlit("is_heal");
    reveal_strlit("is_validator_withdrawal_mint");
    reveal_strlit("is_genesis_claim");
    reveal_strlit("is_hal_reanchor");
    reveal_strlit("is_recall");
    assert("is_heal"@.len() == 7);
    assert("is_validator_withdrawal_mint"@.len() == 28);
    assert("is_genesis_claim"@.len() == 16);
    assert("is_hal_reanchor"@.len() == 15);
    assert("is_recall"@.len() == 9);
}

/// The entry with another value.
pub open spec fn with_value(e: EntryView, value_cbor: Seq<u8>) -> EntryView {
    EntryView { key: e.key, flag: None, key_cbor: e.key_cbor, value_cbor }
}

/// The body of a witness request as the core reads it, and the kind that it gives its
/// transaction by marks; given the entries of the body and those of its transaction. A body
/// that is no map, or has no transaction that is a map, stays as it is.
pub open spec fn cleaned(
    body: Seq<u8>,
    top: Option<Seq<EntryView>>,
    tx: Option<Seq<EntryView>>,
) -> (Seq<u8>, Option<TxKind>) {
    match (top, tx) {
        (Some(t), Some(x)) => match position(t, "transaction"@) {
            Some(i) => (
                map_cbor(t.update(i, with_value(t[i], map_cbor(unmarked(x))))),
                marked_kind(x),
            ),
            None => (body, None),
        },
        _ => (body, None),
    }
}

/// The entries of the transaction in a body.
pub open spec fn tx_entries(top: Option<Seq<EntryView>>) -> Option<Seq<EntryView>> {
    match top {
        Some(t) => match position(t, "transaction"@) {
            Some(i) => match map_entries(t[i].value_cbor) {
                Ok(x) => x,
                Err(_) => None,
            },
            None => None,
        },
        None => None,
    }
}

/// A body and the kind that its marks gave.
pub struct WitnessBody {
    pub cbor: Vec<u8>,
    pub kind: Option<TxKind>,
}

/// Takes the marks out of a body whose entries are given.
pub fn clean_body(body: &[u8], top: Option<Vec<CborEntry>>, tx: Option<Vec<CborEntry>>) -> (r: WitnessBody)
    ensures
        (r.cbor@, r.kind) == cleaned(
            body@,
            match top {
                Some(t) => Some(entry_views(t@)),
                None => None,
            },
            match tx {
                Some(x) => Some(entry_views(x@)),
                None => None,
            },
        ),
{
    if let (Some(t), Some(x)) = (top, tx) {
        let mut t = t;
        let mut x = x;
        if let Some(i) = find_entry(&t, "transaction") {
            let ghost before = entry_views(t@);
            let kind = strip_marks(&mut x);
            let value_cbor = write_map(&x);
            let old_entry = t.remove(i);
            t.insert(
                i,
                CborEntry { key: old_entry.key, flag: None, key_cbor: old_entry.key_cbor, value_cbor },
            );
            proof {
                assert(entry_views(t@) == before.update(
                    i as int,
                    with_value(before[i as int], value_cbor@),
                ));
            }
            return WitnessBody { cbor: write_map(&t), kind };
        }
    }
    WitnessBody { cbor: vstd::slice::slice_to_vec(body), kind: None }
}

/// Reads the body of a witness request and takes the marks of its kind out. The error is what
/// the CBOR reader says.
pub fn deserialize_witness_request(body: &[u8]) -> (r: Result<WitnessBody, String>)
    ensures
        match map_entries(body@) {
            Err(e) => r matches Err(m) && m@ == e,
            Ok(top) => r matches Ok(b) && (b.cbor@, b.kind) == cleaned(body@, top, tx_entries(top)),
        },
{
    let top = match read_map(body) {
        Err(e) => {
            return Err(e);
        },
        Ok(t) => t,
    };
    let tx = match &top {
        Some(t) => match find_entry(t, "transaction") {
            Some(i) => match read_map(t[i].value_cbor.as_slice()) {
                Ok(x) => x,
                Err(_) => None,
            },
            None => None,
        },
        None => None,
    };
    Ok(clean_body(body, top, tx))
}

/// No mark of the kind is left in a transaction that has none of them twice.
pub proof fn law_marks_are_gone(tx: Seq<EntryView>, key: Seq<char>)
    requires
        key == "is_heal"@ || key == "is_validator_withdrawal_mint"@ || key == "is_genesis_claim"@ || key
            == "is_hal_reanchor"@ || key == "is_recall"@,
        forall|i: int, j: int|
            0 <= i < j < tx.len() && (#[trigger] tx[i]).key == Some(key) ==> (#[trigger] tx[j]).key != Some(
                key,
            ),
    ensures
        position(unmarked(tx), key) is None,
{
    lemma_mark_names();
    let t1 = without(tx, "is_heal"@);
    let t2 = without(t1, "is_validator_withdrawal_mint"@);
    let t3 = without(t2, "is_genesis_claim"@);
    let t4 = without(t3, "is_hal_reanchor"@);
    lemma_without(tx, "is_heal"@, key);
    lemma_without(t1, "is_validator_withdrawal_mint"@, key);
    lemma_without(t2, "is_genesis_claim"@, key);
    lemma_without(t3, "is_hal_reanchor"@, key);
    lemma_without(t4, "is_recall"@, key);
    lemma_position(unmarked(tx), key);
}

/// Whether at most one entry has a key.
spec fn at_most_once(e: Seq<EntryView>, key: Seq<char>) -> bool {
    forall|i: int, j: int|
        0 <= i < j < e.len() && (#[trigger] e[i]).key == Some(key) ==> (#[trigger] e[j]).key != Some(key)
}

proof fn lemma_without(e: Seq<EntryView>, gone: Seq<char>, key: Seq<char>)
    requires
        at_most_once(e, key),
    ensures
        at_most_once(without(e, gone), key),
        gone == key ==> position(without(e, gone), key) is None,
        position(e, key) is None ==> position(without(e, gone), key) is None,
{
    lemma_position(e, gone);
    lemma_position(e, key);
    match position(e, gone) {
        Some(i) => {
            let f = e.remove(i);
            assert forall|a: int, b: int| 0 <= a < b < f.len() && (#[trigger] f[a]).key == Some(key) implies (
            #[trigger] f[b]).key != Some(key) by {
                let a0 = if a < i { a } else { a + 1 };
                let b0 = if b < i { b } else { b + 1 };
                assert(f[a] == e[a0] && f[b] == e[b0]);
            }
            lemma_position(f, key);
            if position(f, key) is Some {
                let q = position(f, key)->0;
                let q0 = if q < i { q } else { q + 1 };
                assert(f[q] == e[q0]);
                if gone == key {
                    if q0 < i {
                        assert(e[q0].key == Some(key) && e[i].key == Some(key));
                    } else {
                        assert(e[i].key == Some(key) && e[q0].key == Some(key));
                    }
                }
            }
        },
        None => {},
    }
}

// ---------------------------------------------------------------------------
// The request
// ---------------------------------------------------------------------------

/// A witness request: what the gateway reads of it, and the whole of it in CBOR.
pub struct WitnessRequest {
    pub request_id: String,
    pub requester_address: String,
    /// How many signatures of the previous witnesses it carries.
    pub overlapped_signatures: usize,
    pub sender_wallet_id: String,
    pub receiver_wallet_id: String,
    pub receiver_address: Option<String>,
    /// What the core computed of it.
    pub produced_state_id: Option<Vec<u8>>,
    pub commitment_hash: Option<Vec<u8>>,
    pub cbor: Vec<u8>,
}

/// Whether a request differs from another at most in what the mail and the core fill in.
pub open spec fn same_request(a: WitnessRequest, b: WitnessRequest) -> bool {
    &&& a.overlapped_signatures == b.overlapped_signatures
    &&& a.sender_wallet_id@ == b.sender_wallet_id@
    &&& a.receiver_wallet_id@ == b.receiver_wallet_id@
    &&& a.receiver_address == b.receiver_address
    &&& a.cbor == b.cbor
}

/// A text, or another where it is empty.
pub open spec fn or_else(a: Seq<char>, b: Seq<char>) -> Seq<char> {
    if a.len() == 0 {
        b
    } else {
        a
    }
}

/// Fills in what the request leaves to the mail: its id and who asks.
pub fn fill_in(req: WitnessRequest, request_id: &str, from: &str) -> (r: WitnessRequest)
    ensures
        same_request(r, req),
        r.request_id@ == or_else(req.request_id@, request_id@),
        r.requester_address@ == or_else(req.requester_address@, from@),
        r.produced_state_id == req.produced_state_id,
        r.commitment_hash == req.commitment_hash,
{
    let mut req = req;
    if req.request_id.as_str().is_empty() {
        req.request_id = String::from_str(request_id);
    }
    if req.requester_address.as_str().is_empty() {
        req.requester_address = String::from_str(from);
    }
    req
}

/// The bytes of an id or a hash.
pub open spec fn bytes_of(o: Option<[u8; 32]>) -> Option<Seq<u8>> {
    match o {
        Some(b) => Some(b@),
        None => None,
    }
}

fn to_bytes(o: Option<[u8; 32]>) -> (r: Option<Vec<u8>>)
    ensures
        payload::opt(r) == bytes_of(o),
{
    match o {
        Some(b) => Some(vstd::slice::slice_to_vec(b.as_slice())),
        None => None,
    }
}

/// Where a request stands once the core has checked its transaction.
pub enum CoreStep {
    /// It goes on to the ledger service, with what the core computed.
    Passed(WitnessRequest),
    /// It is refused.
    Refused(ResponsePayload),
}

/// What the core's check of a transaction leads to. Only a request whose transaction the core
/// accepted goes on; where the core failed, so does the request.
pub fn after_core(
    req: WitnessRequest,
    email_request_id: &str,
    verdict: Result<ValidationOutput, AntieError>,
) -> (r: Result<CoreStep, AntieError>)
    ensures
        match verdict {
            Ok(v) => if v.accepted {
                r matches Ok(CoreStep::Passed(q)) && same_request(q, req) && q.request_id == req.request_id
                    && q.requester_address == req.requester_address && payload::opt(q.produced_state_id)
                    == bytes_of(v.new_state_id) && payload::opt(q.commitment_hash) == bytes_of(
                    v.commitment_hash,
                )
            } else {
                r matches Ok(CoreStep::Refused(p)) && p.says(
                    false,
                    email_request_id@,
                    payload::opt(v.rejection_reason),
                    Some("CL2_VALIDATION_FAILED"@),
                )
            },
            Err(e) => r matches Err(got) && got == e,
        },
{
    let v = match verdict {
        Ok(v) => v,
        Err(e) => {
            return Err(e);
        },
    };
    if !v.accepted {
        return Ok(
            CoreStep::Refused(
                ResponsePayload::bare(
                    false,
                    email_request_id,
                    v.rejection_reason,
                    Some("CL2_VALIDATION_FAILED"),
                ),
            ),
        );
    }
    let mut req = req;
    req.produced_state_id = to_bytes(v.new_state_id);
    req.commitment_hash = to_bytes(v.commitment_hash);
    Ok(CoreStep::Passed(req))
}

// ---------------------------------------------------------------------------
// Deliveries
// ---------------------------------------------------------------------------

/// What stands before the last slash.
pub open spec fn before_slash(s: Seq<char>) -> Option<Seq<char>> {
    match text::last_index(s, '/') {
        Some(i) => Some(s.take(i)),
        None => None,
    }
}

fn cut_at_slash(s: &str) -> (r: Option<String>)
    ensures
        payload::opt(r) == before_slash(s@),
{
    let v = text::chars_of(s);
    match text::find_last(&v, '/') {
        Some(i) => {
            let head = text::string_of(&v, 0, i);
            proof {
                assert(v@.subrange(0, i as int) == v@.take(i as int));
            }
            Some(head)
        },
        None => None,
    }
}

/// The receiver's mail address: that of the address given for the receiver, or else that of
/// the receiving wallet.
pub open spec fn receiver_email(address: Option<Seq<char>>, wallet_id: Seq<char>) -> Option<Seq<char>> {
    match address {
        Some(a) => match before_slash(a) {
            Some(m) => Some(m),
            None => before_slash(wallet_id),
        },
        None => before_slash(wallet_id),
    }
}

/// The receiver's mail address.
pub fn find_receiver(req: &WitnessRequest) -> (r: Option<String>)
    ensures
        payload::opt(r) == receiver_email(payload::opt(req.receiver_address), req.receiver_wallet_id@),
{
    if let Some(a) = &req.receiver_address {
        if let Some(m) = cut_at_slash(a.as_str()) {
            return Some(m);
        }
    }
    cut_at_slash(req.receiver_wallet_id.as_str())
}

/// A mail to be sent.
pub struct Delivery {
    pub to: String,
    pub mail: Vec<u8>,
}

/// A cheque to be delivered.
pub struct ChequeDelivery {
    pub to: String,
    pub mail: Vec<u8>,
    /// Where it is written, and then renamed to, if a sibling carrier delivers it.
    pub skipped: Option<(String, String)>,
    /// The transaction, in hexadecimal.
    pub txid_hex: String,
}

/// The mails that a witness sends besides its answer.
pub struct Deliveries {
    pub cheque: Option<ChequeDelivery>,
    pub consent: Option<Delivery>,
    pub audit: Option<Delivery>,
}

/// The name of the file of a skipped cheque.
pub open spec fn cheque_file(txid: Seq<u8>) -> Seq<char> {
    text::hex_text(txid) + ".cheque"@
}

/// Whether a cheque is delivered as it should be.
pub open spec fn is_cheque_delivery(
    d: Option<ChequeDelivery>,
    identity: Seq<char>,
    list: Option<SkipList>,
    burn_address: Seq<char>,
    req: WitnessRequest,
    w: WitnessResponse,
) -> bool {
    let to = receiver_email(payload::opt(req.receiver_address), req.receiver_wallet_id@);
    match (w.cheque_for_receiver, to) {
        (Some(cheque), Some(to)) => if req.receiver_wallet_id@ == burn_address {
            d is None
        } else {
            d matches Some(c) && c.to@ == to && c.txid_hex@ == text::hex_text(cheque.txid@)
                && email::is_notice(
                c.mail@,
                identity,
                to,
                "cheque"@,
                email::cbor_map(email::cheque_fields(cheque.cbor@, payload::opt(w.sender_fact_chain))),
            ) && match list {
                Some(l) => if l.ids().contains(req.receiver_wallet_id@) {
                    c.skipped matches Some(p) && p.0@ == paths::joined(
                        l.target(),
                        ".tmp."@ + cheque_file(cheque.txid@),
                    ) && p.1@ == paths::joined(l.target(), cheque_file(cheque.txid@))
                } else {
                    c.skipped is None
                },
                None => c.skipped is None,
            }
        },
        _ => d is None,
    }
}

/// Whether a receiver is asked for consent as it should be.
pub open spec fn is_consent_delivery(
    d: Option<Delivery>,
    identity: Seq<char>,
    req: WitnessRequest,
    w: WitnessResponse,
) -> bool {
    let to = receiver_email(payload::opt(req.receiver_address), req.receiver_wallet_id@);
    match (w.scar_consent_for_receiver, to) {
        (Some(note), Some(to)) => d matches Some(c) && c.to@ == to && email::is_notice(
            c.mail@,
            identity,
            to,
            "scar_consent"@,
            email::cbor_map(seq![("scar_consent"@, note@)]),
        ),
        _ => d is None,
    }
}

/// Whether a peer is asked for an audit as it should be.
pub open spec fn is_audit_delivery(d: Option<Delivery>, identity: Seq<char>, w: WitnessResponse) -> bool {
    match w.outbound_peer_audit {
        Some(a) => d matches Some(c) && c.to@ == a.target_email@ && email::is_notice(
            c.mail@,
            identity,
            a.target_email@,
            "peer_audit_request"@,
            cbor::cbor(Json::Object(json::object_of(seq![("peer_audit_request"@, a.request@)]))),
        ),
        None => d is None,
    }
}

fn cheque_delivery(
    identity: &str,
    list: &Option<SkipList>,
    burn_address: &str,
    req: &WitnessRequest,
    w: &WitnessResponse,
) -> (r: Option<ChequeDelivery>)
    ensures
        is_cheque_delivery(r, identity@, *list, burn_address@, *req, *w),
{
    let cheque = match &w.cheque_for_receiver {
        Some(c) => c,
        None => {
            return None;
        },
    };
    let to = match find_receiver(req) {
        Some(to) => to,
        None => {
            return None;
        },
    };
    if text::same_text(req.receiver_wallet_id.as_str(), burn_address) {
        return None;
    }
    let chain = match &w.sender_fact_chain {
        Some(c) => Some(c.as_slice()),
        None => None,
    };
    let mail = build_cheque_delivery_email(identity, to.as_str(), cheque.cbor.as_slice(), chain);
    let txid_hex = text::hex_encode(cheque.txid.as_slice());
    let skipped = match list {
        Some(l) => {
            if l.contains(req.receiver_wallet_id.as_str()) {
                let mut name = txid_hex.clone();
                name.append(".cheque");
                Some(l.write_skipped(name.as_str()))
            } else {
                None
            }
        },
        None => None,
    };
    Some(ChequeDelivery { to, mail, skipped, txid_hex })
}

/// What a witness sends besides its answer: the cheque and the request for consent to the
/// receiver, the audit request to a peer.
pub fn deliveries(
    identity: &str,
    list: &Option<SkipList>,
    burn_address: &str,
    req: &WitnessRequest,
    w: &WitnessResponse,
) -> (r: Deliveries)
    ensures
        is_cheque_delivery(r.cheque, identity@, *list, burn_address@, *req, *w),
        is_consent_delivery(r.consent, identity@, *req, *w),
        is_audit_delivery(r.audit, identity@, *w),
{
    let cheque = cheque_delivery(identity, list, burn_address, req, w);
    let consent = match (&w.scar_consent_for_receiver, find_receiver(req)) {
        (Some(note), Some(to)) => {
            let mail = build_scar_consent_email(identity, to.as_str(), note.as_slice());
            Some(Delivery { to, mail })
        },
        _ => None,
    };
    let audit = match &w.outbound_peer_audit {
        Some(a) => Some(
            Delivery {
                to: a.target_email.clone(),
                mail: build_peer_audit_request_email(identity, a.target_email.as_str(), &a.request),
            },
        ),
        None => None,
    };
    Deliveries { cheque, consent, audit }
}

/// Whether a cheque is mailed: unless a sibling carrier has it.
pub fn is_mailed(cheque: &ChequeDelivery, written: bool) -> (r: bool)
    ensures
        r == !(cheque.skipped is Some && written),
{
    !(cheque.skipped.is_some() && written)
}

/// What the ledger service is told of a mailed cheque.
pub open spec fn update_text(txid_hex: Seq<char>, encrypted: bool) -> Seq<char> {
    "{\"txid\":\""@ + txid_hex + "\",\"encrypted\":"@ + if encrypted {
        "true"@
    } else {
        "false"@
    } + "}"@
}

/// Where the ledger service is told of a mailed cheque, and what.
pub fn delivery_update(admin_url: &str, txid_hex: &str, encrypted: bool) -> (r: (String, String))
    ensures
        r.0@ == admin_url@ + "/delivery-update"@,
        r.1@ == update_text(txid_hex@, encrypted),
{
    let mut url = String::from_str(admin_url);
    url.append("/delivery-update");
    let mut body = String::from_str("{\"txid\":\"");
    body.append(txid_hex);
    body.append("\",\"encrypted\":");
    if encrypted {
        body.append("true");
    } else {
        body.append("false");
    }
    body.append("}");
    (url, body)
}

// ---------------------------------------------------------------------------
// The answer
// ---------------------------------------------------------------------------

/// Whether an answer to the sender is the one that the ledger service's answer gives.
pub open spec fn is_witness_answer(r: ResponsePayload, w: WitnessResponse) -> bool {
    &&& r.success == w.success
    &&& r.request_id@ == w.request_id@
    &&& r.witness_signature == w.witness_signature
    &&& r.cheque_for_receiver is None
    &&& r.scar_consent_voucher == w.scar_consent_voucher
    &&& r.produced_state_id == w.produced_state_id
    &&& r.receipt == w.receipt
    &&& r.commitment_hash == w.commitment_hash
    &&& r.state_hash == w.state_hash
    &&& r.receipt_commitment == w.receipt_commitment
    &&& payload::opt(r.txid) == Some(w.txid@)
    &&& r.state_id is None
    &&& payload::opt(r.error) == (match w.rejection {
        Some(j) => Some(j.message@),
        None => None,
    })
    &&& payload::opt(r.rejection_code) == (match w.rejection {
        Some(j) => Some(j.code@),
        None => None,
    })
    &&& r.error_response is None
    &&& r.validator_hints == w.validator_hints
    &&& r.sender_fact_chain == w.sender_fact_chain
    &&& r.receiver_fact_chain is None
    &&& r.fact_signature is None
    &&& r.query_data is None
}

/// The answer to the sender. The cheque is not in it.
pub fn witness_answer(w: WitnessResponse) -> (r: ResponsePayload)
    ensures
        is_witness_answer(r, w),
{
    let (error, rejection_code) = match w.rejection {
        Some(j) => (Some(j.message), Some(j.code)),
        None => (None, None),
    };
    ResponsePayload {
        success: w.success,
        request_id: w.request_id,
        witness_signature: w.witness_signature,
        cheque_for_receiver: None,
        scar_consent_voucher: w.scar_consent_voucher,
        produced_state_id: w.produced_state_id,
        receipt: w.receipt,
        commitment_hash: w.commitment_hash,
        state_hash: w.state_hash,
        receipt_commitment: w.receipt_commitment,
        txid: Some(w.txid),
        state_id: None,
        error,
        rejection_code,
        error_response: None,
        validator_hints: w.validator_hints,
        sender_fact_chain: w.sender_fact_chain,
        receiver_fact_chain: None,
        fact_signature: None,
        query_data: None,
    }
}

/// Whether two answers of the ledger service differ at most in the cheque, in what the
/// receiver is told of a scar, and in the audit asked for.
pub open spec fn same_for_sender(a: WitnessResponse, b: WitnessResponse) -> bool {
    &&& a.success == b.success
    &&& a.request_id == b.request_id
    &&& a.witness_signature == b.witness_signature
    &&& a.scar_consent_voucher == b.scar_consent_voucher
    &&& a.produced_state_id == b.produced_state_id
    &&& a.receipt == b.receipt
    &&& a.commitment_hash == b.commitment_hash
    &&& a.state_hash == b.state_hash
    &&& a.receipt_commitment == b.receipt_commitment
    &&& a.txid == b.txid
    &&& a.rejection == b.rejection
    &&& a.validator_hints == b.validator_hints
    &&& a.sender_fact_chain == b.sender_fact_chain
}

/// The sender learns neither the cheque nor the receiver's passcode: the answer to the sender
/// does not depend on them.
pub proof fn law_sender_sees_no_cheque_and_no_passcode(
    r: ResponsePayload,
    a: WitnessResponse,
    b: WitnessResponse,
)
    requires
        same_for_sender(a, b),
        is_witness_answer(r, a),
    ensures
        is_witness_answer(r, b),
        r.cheque_for_receiver is None,
{
}

/// Cheques and requests for consent go to the receiver's mailbox only.
pub proof fn law_receiver_mail_goes_to_the_receiver(
    d: Deliveries,
    identity: Seq<char>,
    list: Option<SkipList>,
    burn_address: Seq<char>,
    req: WitnessRequest,
    w: WitnessResponse,
)
    requires
        is_cheque_delivery(d.cheque, identity, list, burn_address, req, w),
        is_consent_delivery(d.consent, identity, req, w),
    ensures
        d.cheque matches Some(c) ==> Some(c.to@) == receiver_email(
            payload::opt(req.receiver_address),
            req.receiver_wallet_id@,
        ),
        d.consent matches Some(c) ==> Some(c.to@) == receiver_email(
            payload::opt(req.receiver_address),
            req.receiver_wallet_id@,
        ),
        req.receiver_wallet_id@ == burn_address ==> d.cheque is None,
{
}

/// Whether the first entry with a key is there and true.
pub open spec fn first_is_true(tx: Seq<EntryView>, key: Seq<char>) -> bool {
    exists|i: int|
        0 <= i < tx.len() && (#[trigger] tx[i]).key == Some(key) && tx[i].flag == Some(true) && forall|j: int|
            0 <= j < i ==> (#[trigger] tx[j]).key != Some(key)
}

/// Whether an entry with a key is there and true.
pub open spec fn some_is_true(tx: Seq<EntryView>, key: Seq<char>) -> bool {
    exists|i: int| 0 <= i < tx.len() && (#[trigger] tx[i]).key == Some(key) && tx[i].flag == Some(true)
}

/// Whether a key is that of a mark.
pub open spec fn is_mark(key: Option<Seq<char>>) -> bool {
    key == Some("is_validator_withdrawal_mint"@) || key == Some("is_genesis_claim"@) || key == Some("is_hal_reanchor"@) || key == Some("is_recall"@) || key == Some("is_heal"@)
}

proof fn lemma_flag_is(tx: Seq<EntryView>, key: Seq<char>)
    ensures
        flag_of(tx, key).0 <==> exists|i: int| 0 <= i < tx.len() && (#[trigger] tx[i]).key == Some(key),
        flag_of(tx, key).1 <==> first_is_true(tx, key),
        first_is_true(tx, key) ==> some_is_true(tx, key),
{
    lemma_position(tx, key);
    match position(tx, key) {
        Some(p) => {
            lemma_first(tx, key);
            assert(tx[p].key == Some(key));
            if first_is_true(tx, key) {
                let i = choose|i: int|
                    0 <= i < tx.len() && (#[trigger] tx[i]).key == Some(key) && tx[i].flag == Some(true)
                        && forall|j: int| 0 <= j < i ==> (#[trigger] tx[j]).key != Some(key);
                assert(i == p);
            }
        },
        None => {},
    }
}

/// The kind of a transaction is that of its mark. Where a mark alone is true, the transaction has
/// the kind of that mark; where several are, the minting of a withdrawal comes first, then a
/// genesis claim, a reanchoring, a recall and a healing. It is an ordinary one only if it has
/// marks and none of them is true, and names its kind itself only if it has no marks.
pub proof fn law_kind_is_that_of_the_mark(tx: Seq<EntryView>)
    ensures
        first_is_true(tx, "is_validator_withdrawal_mint"@) && !some_is_true(tx, "is_genesis_claim"@) && !some_is_true(tx, "is_hal_reanchor"@) && !some_is_true(tx, "is_recall"@) && !some_is_true(tx, "is_heal"@) ==> marked_kind(tx) == Some(
            TxKind::ValidatorWithdrawalMint,
        ),
        first_is_true(tx, "is_genesis_claim"@) && !some_is_true(tx, "is_validator_withdrawal_mint"@) && !some_is_true(tx, "is_hal_reanchor"@) && !some_is_true(tx, "is_recall"@) && !some_is_true(tx, "is_heal"@) ==> marked_kind(tx) == Some(
            TxKind::GenesisClaim,
        ),
        first_is_true(tx, "is_hal_reanchor"@) && !some_is_true(tx, "is_validator_withdrawal_mint"@) && !some_is_true(tx, "is_genesis_claim"@) && !some_is_true(tx, "is_recall"@) && !some_is_true(tx, "is_heal"@) ==> marked_kind(tx) == Some(
            TxKind::HalReanchor,
        ),
        first_is_true(tx, "is_recall"@) && !some_is_true(tx, "is_validator_withdrawal_mint"@) && !some_is_true(tx, "is_genesis_claim"@) && !some_is_true(tx, "is_hal_reanchor"@) && !some_is_true(tx, "is_heal"@) ==> marked_kind(tx) == Some(
            TxKind::Recall,
        ),
        first_is_true(tx, "is_heal"@) && !some_is_true(tx, "is_validator_withdrawal_mint"@) && !some_is_true(tx, "is_genesis_claim"@) && !some_is_true(tx, "is_hal_reanchor"@) && !some_is_true(tx, "is_recall"@) ==> marked_kind(tx) == Some(
            TxKind::Heal,
        ),
        marked_kind(tx) == Some(TxKind::ValidatorWithdrawalMint) <==> first_is_true(tx, "is_validator_withdrawal_mint"@),
        marked_kind(tx) == Some(TxKind::GenesisClaim) <==> first_is_true(tx, "is_genesis_claim"@) && !first_is_true(tx, "is_validator_withdrawal_mint"@),
        marked_kind(tx) == Some(TxKind::HalReanchor) <==> first_is_true(tx, "is_hal_reanchor"@) && !first_is_true(tx, "is_validator_withdrawal_mint"@) && !first_is_true(tx, "is_genesis_claim"@),
        marked_kind(tx) == Some(TxKind::Recall) <==> first_is_true(tx, "is_recall"@) && !first_is_true(tx, "is_validator_withdrawal_mint"@) && !first_is_true(tx, "is_genesis_claim"@) && !first_is_true(tx, "is_hal_reanchor"@),
        marked_kind(tx) == Some(TxKind::Heal) <==> first_is_true(tx, "is_heal"@) && !first_is_true(tx, "is_validator_withdrawal_mint"@) && !first_is_true(tx, "is_genesis_claim"@) && !first_is_true(tx, "is_hal_reanchor"@) && !first_is_true(tx, "is_recall"@),
        marked_kind(tx) == Some(TxKind::Normal) <==> (exists|i: int|
            0 <= i < tx.len() && is_mark((#[trigger] tx[i]).key)) && !first_is_true(tx, "is_validator_withdrawal_mint"@) && !first_is_true(tx, "is_genesis_claim"@) && !first_is_true(tx, "is_hal_reanchor"@) && !first_is_true(tx, "is_recall"@) && !first_is_true(tx, "is_heal"@),
        marked_kind(tx) is None <==> forall|i: int| 0 <= i < tx.len() ==> !is_mark((#[trigger] tx[i]).key),
{
    lemma_flag_is(tx, "is_validator_withdrawal_mint"@);
    lemma_flag_is(tx, "is_genesis_claim"@);
    lemma_flag_is(tx, "is_hal_reanchor"@);
    lemma_flag_is(tx, "is_recall"@);
    lemma_flag_is(tx, "is_heal"@);
    if exists|i: int| 0 <= i < tx.len() && is_mark((#[trigger] tx[i]).key) {
        let i = choose|i: int| 0 <= i < tx.len() && is_mark((#[trigger] tx[i]).key);
        assert(is_mark(tx[i].key));
    }
    if marked_kind(tx) is Some {
        let key = if flag_of(tx, "is_heal"@).0 {
            "is_heal"@
        } else if flag_of(tx, "is_validator_withdrawal_mint"@).0 {
            "is_validator_withdrawal_mint"@
        } else if flag_of(tx, "is_genesis_claim"@).0 {
            "is_genesis_claim"@
        } else if flag_of(tx, "is_hal_reanchor"@).0 {
            "is_hal_reanchor"@
        } else {
            "is_recall"@
        };
        let i = choose|i: int| 0 <= i < tx.len() && (#[trigger] tx[i]).key == Some(key);
        assert(is_mark(tx[i].key));
    }
}

proof fn lemma_without_keeps(e: Seq<EntryView>, gone: Seq<char>, kept: spec_fn(EntryView) -> bool)
    requires
        forall|x: EntryView| x.key == Some(gone) ==> !#[trigger] kept(x),
    ensures
        without(e, gone).filter(kept) == e.filter(kept),
    decreases e.len(),
{
    lemma_position(e, gone);
    match position(e, gone) {
        Some(i) => {
            let a = e.take(i);
            let b = e.skip(i + 1);
            let x = e[i];
            assert(e.remove(i) == a + b);
            assert(e == a.push(x) + b);
            Seq::filter_distributes_over_add(a, b, kept);
            Seq::filter_distributes_over_add(a.push(x), b, kept);
            assert(!kept(x));
            reveal(Seq::filter);
            assert(a.push(x).drop_last() == a);
        },
        None => {},
    }
}

/// Nothing is taken out of a transaction but marks: its other entries stand there as before, in
/// the same order.
pub proof fn law_only_marks_are_taken_out(tx: Seq<EntryView>)
    ensures
        unmarked(tx).filter(|x: EntryView| !is_mark(x.key)) == tx.filter(|x: EntryView| !is_mark(x.key)),
        unmarked(tx).len() <= tx.len(),
        (forall|i: int| 0 <= i < tx.len() ==> !is_mark((#[trigger] tx[i]).key)) ==> unmarked(tx) == tx,
{
    let kept = |x: EntryView| !is_mark(x.key);
    let t1 = without(tx, "is_heal"@);
    let t2 = without(t1, "is_validator_withdrawal_mint"@);
    let t3 = without(t2, "is_genesis_claim"@);
    let t4 = without(t3, "is_hal_reanchor"@);
    lemma_without_keeps(tx, "is_heal"@, kept);
    lemma_without_keeps(t1, "is_validator_withdrawal_mint"@, kept);
    lemma_without_keeps(t2, "is_genesis_claim"@, kept);
    lemma_without_keeps(t3, "is_hal_reanchor"@, kept);
    lemma_without_keeps(t4, "is_recall"@, kept);
    lemma_position(tx, "is_heal"@);
    lemma_position(t1, "is_validator_withdrawal_mint"@);
    lemma_position(t2, "is_genesis_claim"@);
    lemma_position(t3, "is_hal_reanchor"@);
    lemma_position(t4, "is_recall"@);
}

/// What the core reads is the map of the same entries in the same order; only the value of the
/// transaction is another, and that is the transaction without its marks. What is no map, or has
/// no transaction that is one, is read as it came.
pub proof fn law_only_the_transaction_changes(body: Seq<u8>, top: Seq<EntryView>, tx: Seq<EntryView>, i: int)
    requires
        0 <= i < top.len(),
        top[i].key == Some("transaction"@),
        forall|j: int| 0 <= j < i ==> (#[trigger] top[j]).key != Some("transaction"@),
    ensures
        exists|n: Seq<EntryView>|
            cleaned(body, Some(top), Some(tx)).0 == #[trigger] map_cbor(n) && n.len() == top.len() && (forall|j: int|
                0 <= j < n.len() && j != i ==> #[trigger] n[j] == top[j]) && n[i].key_cbor == top[i].key_cbor
                && n[i].value_cbor == map_cbor(unmarked(tx)),
        cleaned(body, Some(top), Some(tx)).1 == marked_kind(tx),
        cleaned(body, None, Some(tx)) == (body, None::<TxKind>),
        cleaned(body, Some(top), None) == (body, None::<TxKind>),
{
    lemma_position_at(top, "transaction"@, i);
    let n = top.update(i, with_value(top[i], map_cbor(unmarked(tx))));
    assert(cleaned(body, Some(top), Some(tx)).0 == map_cbor(n));
}

/// A map is written as its entries one after the other, each as its key and its value.
pub proof fn law_map_is_its_entries(a: Seq<EntryView>, b: Seq<EntryView>, x: EntryView)
    ensures
        entries_cbor(a + b) == entries_cbor(a) + entries_cbor(b),
        entries_cbor(seq![x]) == x.key_cbor + x.value_cbor,
        map_cbor(a) == cbor::head(5, a.len()) + entries_cbor(a),
    decreases b.len(),
{
    reveal_with_fuel(entries_cbor, 2);
    assert(seq![x].drop_last().len() == 0);
    assert(Seq::<u8>::empty() + x.key_cbor == x.key_cbor);
    if b.len() == 0 {
        assert(a + b == a);
        assert(entries_cbor(a) + entries_cbor(b) == entries_cbor(a));
    } else {
        law_map_is_its_entries(a, b.drop_last(), x);
        assert((a + b).drop_last() == a + b.drop_last());
        assert((a + b).last() == b.last());
        assert(entries_cbor(a) + entries_cbor(b.drop_last()) + b.last().key_cbor + b.last().value_cbor
            == entries_cbor(a) + (entries_cbor(b.drop_last()) + b.last().key_cbor + b.last().value_cbor));
    }
}

/// Whether a text stands before the last slash of another.
pub open spec fn stands_before_slash(m: Seq<char>, s: Seq<char>) -> bool {
    exists|rest: Seq<char>| s == #[trigger] (m + seq!['/'] + rest) && !rest.contains('/')
}

proof fn lemma_before_slash(s: Seq<char>)
    ensures
        before_slash(s) is Some <==> s.contains('/'),
        before_slash(s) matches Some(m) ==> stands_before_slash(m, s),
{
    text::lemma_last_index(s, '/');
    if text::last_index(s, '/') is Some {
        let i = text::last_index(s, '/')->0;
        let rest = s.skip(i + 1);
        let m = s.take(i);
        assert(s[i] == '/');
        assert(s == m + seq!['/'] + rest);
        if rest.contains('/') {
            let k = choose|k: int| 0 <= k < rest.len() && rest[k] == '/';
            assert(s[i + 1 + k] == '/');
        }
        assert(stands_before_slash(m, s));
    }
}

/// The receiver's mailbox is what stands before the last slash: of the address given for the
/// receiver, if that has a slash, and else of the receiving wallet.
pub proof fn law_mailbox_stands_before_the_last_slash(address: Option<Seq<char>>, wallet_id: Seq<char>)
    ensures
        address is Some && address->0.contains('/') ==> receiver_email(address, wallet_id) is Some
            && stands_before_slash(receiver_email(address, wallet_id)->0, address->0),
        !(address is Some && address->0.contains('/')) && wallet_id.contains('/') ==> receiver_email(
            address,
            wallet_id,
        ) is Some && stands_before_slash(receiver_email(address, wallet_id)->0, wallet_id),
        !(address is Some && address->0.contains('/')) && !wallet_id.contains('/') ==> receiver_email(
            address,
            wallet_id,
        ) is None,
{
    lemma_before_slash(wallet_id);
    if address is Some {
        lemma_before_slash(address->0);
    }
}

/// The answer to the sender says under each name what the ledger service said: the signature, the
/// receipt, the hashes and the rest; and why, where the request was rejected.
pub proof fn law_sender_hears_what_the_ledger_said(r: ResponsePayload, w: WitnessResponse)
    requires
        is_witness_answer(r, w),
    ensures
        cbor_map::holds_only(response::response_fields(r, None), "success"@, Some(response::flag_item(w.success))),
        cbor_map::holds_only(response::response_fields(r, None), "request_id"@, Some(cbor::text_item(w.request_id@))),
        cbor_map::holds_only(response::response_fields(r, None), "witness_signature"@, payload::opt(w.witness_signature)),
        cbor_map::holds_only(response::response_fields(r, None), "cheque_for_receiver"@, None),
        cbor_map::holds_only(response::response_fields(r, None), "scar_consent_voucher"@, payload::opt(w.scar_consent_voucher)),
        cbor_map::holds_only(response::response_fields(r, None), "produced_state_id"@, response::opt_bytes(w.produced_state_id)),
        cbor_map::holds_only(response::response_fields(r, None), "receipt"@, payload::opt(w.receipt)),
        cbor_map::holds_only(response::response_fields(r, None), "commitment_hash"@, response::opt_bytes(w.commitment_hash)),
        cbor_map::holds_only(response::response_fields(r, None), "state_hash"@, response::opt_bytes(w.state_hash)),
        cbor_map::holds_only(response::response_fields(r, None), "receipt_commitment"@, response::opt_bytes(w.receipt_commitment)),
        cbor_map::holds_only(response::response_fields(r, None), "txid"@, Some(response::bytes_item(w.txid@))),
        cbor_map::holds_only(response::response_fields(r, None), "state_id"@, None),
        cbor_map::holds_only(response::response_fields(r, None), "error_response"@, None),
        cbor_map::holds_only(response::response_fields(r, None), "validator_hints"@, response::opt_hints(w.validator_hints@)),
        cbor_map::holds_only(response::response_fields(r, None), "sender_fact_chain"@, payload::opt(w.sender_fact_chain)),
        cbor_map::holds_only(response::response_fields(r, None), "receiver_fact_chain"@, None),
        cbor_map::holds_only(response::response_fields(r, None), "fact_signature"@, None),
        cbor_map::holds_only(response::response_fields(r, None), "query_data"@, None),
        cbor_map::holds_only(
            response::response_fields(r, None),
            "error"@,
            match w.rejection {
                Some(j) => Some(cbor::text_item(j.message@)),
                None => None,
            },
        ),
        cbor_map::holds_only(
            response::response_fields(r, None),
            "rejection_code"@,
            match w.rejection {
                Some(j) => Some(cbor::text_item(j.code@)),
                None => None,
            },
        ),
{
    response::law_answer_holds_its_parts(r, None);
}

/// A cheque is delivered exactly if there is one, its receiver has a mailbox, and it does not go
/// to the address where money is burnt. It is left to a sibling carrier exactly if the receiver
/// is on the skip list.
pub proof fn law_cheque_is_delivered(
    d: Option<ChequeDelivery>,
    identity: Seq<char>,
    list: Option<SkipList>,
    burn_address: Seq<char>,
    req: WitnessRequest,
    w: WitnessResponse,
)
    requires
        is_cheque_delivery(d, identity, list, burn_address, req, w),
    ensures
        d is Some <==> w.cheque_for_receiver is Some && receiver_email(
            payload::opt(req.receiver_address),
            req.receiver_wallet_id@,
        ) is Some && req.receiver_wallet_id@ != burn_address,
        d matches Some(c) ==> c.txid_hex@ == text::hex_text(w.cheque_for_receiver->0.txid@),
        d matches Some(c) ==> Some(c.to@) == receiver_email(
            payload::opt(req.receiver_address),
            req.receiver_wallet_id@,
        ),
        d matches Some(c) ==> (c.skipped matches Some(p) ==> p.1@ == paths::joined(
            list->0.target(),
            text::hex_text(w.cheque_for_receiver->0.txid@) + ".cheque"@,
        ) && p.0@ == paths::joined(
            list->0.target(),
            ".tmp."@ + (text::hex_text(w.cheque_for_receiver->0.txid@) + ".cheque"@),
        )),
        d matches Some(c) ==> (c.skipped is Some <==> list is Some && list->0.ids().contains(
            req.receiver_wallet_id@,
        )),
        d matches Some(c) ==> exists|fields: Seq<(Seq<char>, Seq<u8>)>|
            email::is_notice(c.mail@, identity, c.to@, "cheque"@, #[trigger] email::cbor_map(fields))
                && cbor_map::holds_only(fields, "cheque"@, Some(w.cheque_for_receiver->0.cbor@))
                && cbor_map::holds_only(fields, "cheque_fact_chain"@, payload::opt(w.sender_fact_chain)),
{
    if d is Some {
        let chain = payload::opt(w.sender_fact_chain);
        let cheque = w.cheque_for_receiver->0.cbor@;
        law_cheque_mail_holds_the_cheque(cheque, chain);
        assert(email::is_notice(
            d->0.mail@,
            identity,
            d->0.to@,
            "cheque"@,
            email::cbor_map(email::cheque_fields(cheque, chain)),
        ));
    }
}

/// The mail of a cheque holds the cheque, and beside it the sender's fact chain if there is one.
pub proof fn law_cheque_mail_holds_the_cheque(cheque: Seq<u8>, chain: Option<Seq<u8>>)
    ensures
        cbor_map::holds_only(email::cheque_fields(cheque, chain), "cheque"@, Some(cheque)),
        cbor_map::holds_only(email::cheque_fields(cheque, chain), "cheque_fact_chain"@, chain),
        email::cheque_fields(cheque, chain).len() == if chain is Some {
            2int
        } else {
            1int
        },
{
    reveal_strlit("cheque");
    reveal_strlit("cheque_fact_chain");
    assert("cheque"@.len() == 6);
    assert("cheque_fact_chain"@.len() == 17);
    let none = Seq::<(Seq<char>, Seq<u8>)>::empty();
    let one = none + cbor_map::field("cheque"@, Some(cheque));
    let all = one + cbor_map::field("cheque_fact_chain"@, chain);
    cbor_map::lemma_field_added(none, "cheque"@, Some(cheque), "cheque_fact_chain"@, None);
    cbor_map::lemma_field_added(one, "cheque_fact_chain"@, chain, "cheque"@, Some(cheque));
    assert(all == email::cheque_fields(cheque, chain));
}

/// A receiver is asked for consent exactly if there is something to consent to and the receiver
/// has a mailbox; a peer is asked for an audit exactly if the ledger service wants one, and it is
/// the peer that the service names.
pub proof fn law_notices_follow_the_ledger(
    consent: Option<Delivery>,
    audit: Option<Delivery>,
    identity: Seq<char>,
    req: WitnessRequest,
    w: WitnessResponse,
)
    requires
        is_consent_delivery(consent, identity, req, w),
        is_audit_delivery(audit, identity, w),
    ensures
        consent is Some <==> w.scar_consent_for_receiver is Some && receiver_email(
            payload::opt(req.receiver_address),
            req.receiver_wallet_id@,
        ) is Some,
        consent matches Some(c) ==> Some(c.to@) == receiver_email(
            payload::opt(req.receiver_address),
            req.receiver_wallet_id@,
        ),
        audit is Some <==> w.outbound_peer_audit is Some,
        audit matches Some(c) ==> c.to@ == w.outbound_peer_audit->0.target_email@,
{
}

/// What the ledger service is told of a mailed cheque is the JSON form of the transaction and
/// whether it was encrypted, for a transaction in hexadecimal.
pub proof fn law_update_is_json(txid_hex: Seq<char>, encrypted: bool)
    requires
        json::escaped_text(txid_hex) == txid_hex,
    ensures
        update_text(txid_hex, encrypted) == "{"@ + json::json_entries(
            seq![("txid"@, Json::Str(txid_hex)), ("encrypted"@, Json::Bool(encrypted))],
        ) + "}"@,
{
    let e = seq![("txid"@, Json::Str(txid_hex)), ("encrypted"@, Json::Bool(encrypted))];
    reveal_with_fuel(json::json_entries, 3);
    reveal_with_fuel(json::json_text, 2);
    reveal_with_fuel(json::escaped_text, 10);
    reveal_strlit("{\"txid\":\"");
    reveal_strlit("\",\"encrypted\":");
    reveal_strlit("txid");
    reveal_strlit("encrypted");
    reveal_strlit("{");
    reveal_strlit("\"");
    reveal_strlit(":");
    reveal_strlit(",");
    assert(e.drop_last().len() == 1);
    assert(e.drop_last()[0] == e[0]);
    lemma_plain_escape("txid"@);
    lemma_plain_escape("encrypted"@);
    assert(json::json_entries(e.drop_last()) == json::quoted("txid"@) + ":"@ + json::quoted(txid_hex));
    let flag = json::json_text(Json::Bool(encrypted));
    assert("{\"txid\":\""@ == "{"@ + json::quoted("txid"@) + ":"@ + "\""@);
    assert("\",\"encrypted\":"@ == "\""@ + ","@ + json::quoted("encrypted"@) + ":"@);
    assert(update_text(txid_hex, encrypted) == "{"@ + json::quoted("txid"@) + ":"@ + "\""@ + txid_hex + "\""@ + ","@
        + json::quoted("encrypted"@) + ":"@ + flag + "}"@);
    assert(json::json_entries(e) == json::quoted("txid"@) + ":"@ + ("\""@ + txid_hex + "\""@) + ","@ + (json::quoted(
        "encrypted"@,
    ) + ":"@ + flag));
}

/// Letters of the Latin alphabet are written as they are.
proof fn lemma_plain_escape(s: Seq<char>)
    requires
        forall|i: int| 0 <= i < s.len() ==> 'a' <= #[trigger] s[i] && s[i] <= 'z',
    ensures
        json::escaped_text(s) == s,
    decreases s.len(),
{
    if s.len() > 0 {
        assert forall|i: int| 0 <= i < s.drop_last().len() implies 'a' <= #[trigger] s.drop_last()[i]
            && s.drop_last()[i] <= 'z' by {
            assert(s.drop_last()[i] == s[i]);
        }
        lemma_plain_escape(s.drop_last());
        assert('a' <= s[s.len() - 1] && s[s.len() - 1] <= 'z');
        assert(s == s.drop_last() + seq![s.last()]);
    }
}


/// What a request says of itself stands; what it leaves out is taken from the mail.
pub proof fn law_mail_fills_only_gaps(own: Seq<char>, mail: Seq<char>)
    ensures
        own.len() > 0 ==> or_else(own, mail) == own,
        or_else(Seq::empty(), mail) == mail,
{
}


/// The file of a cheque is named after its transaction, and no two share one.
pub proof fn law_one_file_per_cheque(a: Seq<u8>, b: Seq<u8>)
    ensures
        cheque_file(a) == cheque_file(b) <==> a == b,
        text::ends_with(cheque_file(a), ".cheque"@),
        text::hex_bytes(cheque_file(a).take(2 * (a.len() as int))) == a,
{
    reveal_strlit(".cheque");
    text::lemma_hex_round_trip(a);
    text::lemma_hex_round_trip(b);
    let x = cheque_file(a);
    let y = cheque_file(b);
    assert(x.take(x.len() - 7) =~= text::hex_text(a));
    assert(y.take(y.len() - 7) =~= text::hex_text(b));
    text::lemma_put_together(text::hex_text(a), ".cheque"@, Seq::empty());
    assert(x.len() - 7 == 2 * a.len());
}


/// A receiver that is asked for consent is sent the note of the ledger service, and a peer that
/// is asked for an audit the request of the ledger service, each under its name.
pub proof fn law_notices_carry_what_the_ledger_says(
    consent: Option<Delivery>,
    audit: Option<Delivery>,
    identity: Seq<char>,
    req: WitnessRequest,
    w: WitnessResponse,
)
    requires
        is_consent_delivery(consent, identity, req, w),
        is_audit_delivery(audit, identity, w),
    ensures
        consent matches Some(c) ==> exists|fields: Seq<(Seq<char>, Seq<u8>)>|
            email::is_notice(c.mail@, identity, c.to@, "scar_consent"@, #[trigger] email::cbor_map(fields))
                && cbor_map::holds_only(fields, "scar_consent"@, Some(w.scar_consent_for_receiver->0@))
                && fields.len() == 1,
        audit matches Some(c) ==> exists|o: Seq<(Seq<char>, Json)>|
            email::is_notice(c.mail@, identity, c.to@, "peer_audit_request"@, cbor::cbor(Json::Object(o)))
                && #[trigger] json::lookup(o, "peer_audit_request"@) == Some(w.outbound_peer_audit->0.request@) && o.len()
                == 1,
{
    if consent is Some {
        let note = w.scar_consent_for_receiver->0@;
        let fields = seq![("scar_consent"@, note)];
        cbor_map::lemma_fields_held(fields, 0);
        assert(email::is_notice(consent->0.mail@, identity, consent->0.to@, "scar_consent"@, email::cbor_map(fields)));
    }
    if audit is Some {
        let e = seq![("peer_audit_request"@, w.outbound_peer_audit->0.request@)];
        let o = json::object_of(e);
        assert(json::no_key_twice(e));
        json::law_object_holds_its_entries(e, 0);
        reveal_with_fuel(json::object_of, 2);
        assert(e.drop_last() =~= Seq::<(Seq<char>, Json)>::empty());
        assert(o.len() == 1);
        let j = Json::Object(o);
        assert(email::is_notice(audit->0.mail@, identity, audit->0.to@, "peer_audit_request"@, cbor::cbor(j)));
    }
}

/// The transaction of a body is what the first entry of that name holds, if that is a map.
pub proof fn law_transaction_is_the_entry_of_that_name(top: Seq<EntryView>, i: int)
    requires
        0 <= i < top.len(),
        top[i].key == Some("transaction"@),
        forall|j: int| 0 <= j < i ==> (#[trigger] top[j]).key != Some("transaction"@),
    ensures
        map_entries(top[i].value_cbor) is Ok ==> tx_entries(Some(top)) == map_entries(top[i].value_cbor)->Ok_0,
        map_entries(top[i].value_cbor) is Err ==> tx_entries(Some(top)) is None,
        tx_entries(None) is None,
        tx_entries(Some(Seq::empty())) is None,
{
    lemma_position_at(top, "transaction"@, i);
}

/// What the mail and the core do not fill in stays as the request has it.
pub proof fn law_requests_are_the_same_in_the_rest(a: WitnessRequest, b: WitnessRequest)
    requires
        same_request(a, b),
    ensures
        a.overlapped_signatures == b.overlapped_signatures,
        a.sender_wallet_id@ == b.sender_wallet_id@,
        a.receiver_wallet_id@ == b.receiver_wallet_id@,
        a.receiver_address == b.receiver_address,
        a.cbor@ == b.cbor@,
{
}

} // verus!
