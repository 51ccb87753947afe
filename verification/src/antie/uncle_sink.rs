//! Copies of outgoing answers for a sibling carrier that waits for them on disk.
use vstd::prelude::*;
use crate::paths;
use crate::paths::join_path;
use crate::text;

verus! {

/// The directory the copies go to.
#[derive(Debug)]
pub struct UncleSink {
    outbox_path: String,
}

/// The name of the copy of an answer about a transaction.
pub open spec fn copy_name(txid: Seq<u8>) -> Seq<char> {
    text::hex_text(txid) + ".cbor"@
}

/// The name a copy has while it is being written.
pub open spec fn draft_name(pid: nat, nanos: nat) -> Seq<char> {
    ".uncle_tee.tmp."@ + text::dec(pid) + "."@ + text::dec(nanos)
}

/// Copies about different transactions have different names.
pub proof fn law_one_copy_per_transaction(a: Seq<u8>, b: Seq<u8>)
    requires
        copy_name(a) == copy_name(b),
    ensures
        a == b,
{
    let ha = text::hex_text(a);
    let hb = text::hex_text(b);
    let n = ".cbor"@.len();
    assert(copy_name(a).len() == ha.len() + n);
    assert(copy_name(b).len() == hb.len() + n);
    assert(copy_name(a).take(ha.len() as int) == ha);
    assert(copy_name(b).take(hb.len() as int) == hb);
    text::lemma_hex_round_trip(a);
    text::lemma_hex_round_trip(b);
}

impl UncleSink {
    /// The directory.
    pub closed spec fn dir(self) -> Seq<char> {
        self.outbox_path@
    }

    /// A sink that writes into the given directory.
    pub fn new(outbox_path: String) -> (r: UncleSink)
        ensures
            r.dir() == outbox_path@,
    {
        UncleSink { outbox_path }
    }

    /// Where the copy of an answer is written first, and where it is renamed to.
    pub fn tee(&self, txid: &[u8; 32], pid: u32, nanos: u128) -> (r: (String, String))
        ensures
            r.0@ == paths::joined(self.dir(), draft_name(pid as nat, nanos as nat)),
            r.1@ == paths::joined(self.dir(), copy_name(txid@)),
    {
        let mut draft = String::from_str(".uncle_tee.tmp.");
        text::push_dec(&mut draft, pid as u64);
        draft.append(".");
        text::push_dec_wide(&mut draft, nanos);
        let mut name = text::hex_encode(txid.as_slice());
        name.append(".cbor");
        (
            join_path(self.outbox_path.as_str(), draft.as_str()),
            join_path(self.outbox_path.as_str(), name.as_str()),
        )
    }

    /// The directory.
    pub fn outbox_path(&self) -> (r: &str)
        ensures
            r@ == self.dir(),
    {
        self.outbox_path.as_str()
    }
}


/// The copy for a transaction is named after it, in hexadecimal. Drafts are hidden files, named
/// after the process and the time: others have other names.
pub proof fn law_drafts_have_names_of_their_own(txid: Seq<u8>, pid: nat, nanos: nat, a: nat, b: nat)
    ensures
        text::ends_with(copy_name(txid), ".cbor"@),
        text::hex_bytes(copy_name(txid).take(2 * (txid.len() as int))) == txid,
        text::starts_with(draft_name(pid, nanos), ".uncle_tee.tmp."@),
        draft_name(pid, nanos).skip(15) == text::dec(pid) + seq!['.'] + text::dec(nanos),
        draft_name(pid, nanos) == draft_name(a, b) <==> pid == a && nanos == b,
{
    reveal_strlit(".uncle_tee.tmp.");
    reveal_strlit(".cbor");
    reveal_strlit(".");
    assert("."@ =~= seq!['.']);
    text::lemma_hex_round_trip(txid);
    let c = copy_name(txid);
    assert(c.take(2 * (txid.len() as int)) =~= text::hex_text(txid));
    assert(c.skip(c.len() - 5) =~= ".cbor"@);
    let d = draft_name(pid, nanos);
    assert(d.take(15) =~= ".uncle_tee.tmp."@);
    assert(d.skip(15) =~= text::dec(pid) + seq!['.'] + text::dec(nanos));
    let e = draft_name(a, b);
    assert(e.skip(15) =~= text::dec(a) + seq!['.'] + text::dec(b));
    if d == e {
        let x = seq!['.'] + text::dec(nanos);
        let y = seq!['.'] + text::dec(b);
        assert(text::dec(pid) + x =~= d.skip(15));
        assert(text::dec(a) + y =~= e.skip(15));
        text::lemma_numeral_cut(pid, x, a, y);
        assert(x.skip(1) =~= text::dec(nanos));
        assert(y.skip(1) =~= text::dec(b));
        text::lemma_dec_value(nanos);
        text::lemma_dec_value(b);
    }
}

} // verus!
