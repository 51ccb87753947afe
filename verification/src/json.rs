//! JSON values: the shape in which message bodies are read and written.
//!
//! An object is a vector of entries kept in ascending byte order of their
//! keys, no key twice.
use vstd::prelude::*;
use vstd::utf8::*;
use crate::text;

verus! {

/// A JSON value. Integers are split by sign, as they are written differently;
/// a fractional number is held by the bits of its binary64 encoding.
#[derive(Debug, PartialEq, Eq)]
pub enum JsonValue {
    Null,
    Bool(bool),
    PosInt(u64),
    NegInt(i64),
    Float(u64),
    Str(String),
    Array(Vec<JsonValue>),
    Object(Vec<(String, JsonValue)>),
}

/// The mathematical value of a [`JsonValue`].
pub enum Json {
    Null,
    Bool(bool),
    PosInt(u64),
    NegInt(i64),
    Float(u64),
    Str(Seq<char>),
    Array(Seq<Json>),
    Object(Seq<(Seq<char>, Json)>),
}

/// What a value stands for.
pub open spec fn json_of(v: JsonValue) -> Json
    decreases v,
{
    match v {
        JsonValue::Null => Json::Null,
        JsonValue::Bool(b) => Json::Bool(b),
        JsonValue::PosInt(u) => Json::PosInt(u),
        JsonValue::NegInt(i) => Json::NegInt(i),
        JsonValue::Float(f) => Json::Float(f),
        JsonValue::Str(s) => Json::Str(s@),
        JsonValue::Array(a) => Json::Array(
            Seq::new(
                a@.len(),
                |i: int|
                    if 0 <= i < a@.len() {
                        json_of(a@[i])
                    } else {
                        Json::Null
                    },
            ),
        ),
        JsonValue::Object(o) => Json::Object(
            Seq::new(
                o@.len(),
                |i: int|
                    if 0 <= i < o@.len() {
                        (o@[i].0@, json_of(o@[i].1))
                    } else {
                        (Seq::empty(), Json::Null)
                    },
            ),
        ),
    }
}

impl View for JsonValue {
    type V = Json;

    open spec fn view(&self) -> Json {
        json_of(*self)
    }
}

/// The items of a vector of values.
pub open spec fn items_view(a: Seq<JsonValue>) -> Seq<Json> {
    Seq::new(a.len(), |i: int| a[i]@)
}

/// The entries of a vector of keyed values.
pub open spec fn entries_view(o: Seq<(String, JsonValue)>) -> Seq<(Seq<char>, Json)> {
    Seq::new(o.len(), |i: int| (o[i].0@, o[i].1@))
}

/// What an array stands for.
pub proof fn lemma_array_view(a: Vec<JsonValue>)
    ensures
        JsonValue::Array(a)@ == Json::Array(items_view(a@)),
{
    reveal_with_fuel(json_of, 2);
    assert(JsonValue::Array(a)@->Array_0 =~= items_view(a@));
}

/// What an object stands for.
pub proof fn lemma_object_view(o: Vec<(String, JsonValue)>)
    ensures
        JsonValue::Object(o)@ == Json::Object(entries_view(o@)),
{
    reveal_with_fuel(json_of, 2);
    assert(JsonValue::Object(o)@->Object_0 =~= entries_view(o@));
}

// ---------------------------------------------------------------------------
// Objects: entries in ascending order of their keys
// ---------------------------------------------------------------------------

/// Lexicographic order of byte sequences.
pub open spec fn bytes_less(a: Seq<u8>, b: Seq<u8>) -> bool
    decreases a.len(),
{
    if b.len() == 0 {
        false
    } else if a.len() == 0 {
        true
    } else if a[0] != b[0] {
        a[0] < b[0]
    } else {
        bytes_less(a.drop_first(), b.drop_first())
    }
}

/// The order of keys: that of their UTF-8 bytes.
pub open spec fn key_less(a: Seq<char>, b: Seq<char>) -> bool {
    bytes_less(encode_utf8(a), encode_utf8(b))
}

/// Whether entries stand in strictly ascending order of their keys.
pub open spec fn sorted(e: Seq<(Seq<char>, Json)>) -> bool {
    forall|i: int, j: int| 0 <= i < j < e.len() ==> key_less(#[trigger] e[i].0, #[trigger] e[j].0)
}

/// How many leading entries have a key below `k`.
pub open spec fn slot(e: Seq<(Seq<char>, Json)>, k: Seq<char>) -> nat
    decreases e.len(),
{
    if e.len() == 0 || !key_less(e[0].0, k) {
        0
    } else {
        1 + slot(e.drop_first(), k)
    }
}

/// Entries with `k` mapped to `v`: in place of an entry with the same key, or
/// as a new one where its key belongs.
pub open spec fn with_entry(e: Seq<(Seq<char>, Json)>, k: Seq<char>, v: Json) -> Seq<
    (Seq<char>, Json),
> {
    let p = slot(e, k) as int;
    if p < e.len() && e[p].0 == k {
        e.update(p, (k, v))
    } else {
        e.insert(p, (k, v))
    }
}

/// The value of the first entry whose key is `k`.
pub open spec fn lookup(e: Seq<(Seq<char>, Json)>, k: Seq<char>) -> Option<Json>
    decreases e.len(),
{
    if e.len() == 0 {
        None
    } else if e[0].0 == k {
        Some(e[0].1)
    } else {
        lookup(e.drop_first(), k)
    }
}

proof fn lemma_bytes_less_irreflexive(a: Seq<u8>)
    ensures
        !bytes_less(a, a),
    decreases a.len(),
{
    if a.len() > 0 {
        lemma_bytes_less_irreflexive(a.drop_first());
    }
}

proof fn lemma_bytes_less_transitive(a: Seq<u8>, b: Seq<u8>, c: Seq<u8>)
    requires
        bytes_less(a, b),
        bytes_less(b, c),
    ensures
        bytes_less(a, c),
    decreases a.len(),
{
    if a.len() > 0 && a[0] == b[0] && b[0] == c[0] {
        lemma_bytes_less_transitive(a.drop_first(), b.drop_first(), c.drop_first());
    }
}

proof fn lemma_bytes_less_total(a: Seq<u8>, b: Seq<u8>)
    ensures
        a == b || bytes_less(a, b) || bytes_less(b, a),
    decreases a.len(),
{
    if a.len() > 0 && b.len() > 0 && a[0] == b[0] {
        lemma_bytes_less_total(a.drop_first(), b.drop_first());
        if a.drop_first() == b.drop_first() {
            assert(a == seq![a[0]] + a.drop_first());
            assert(b == seq![b[0]] + b.drop_first());
        }
    } else if a.len() == 0 && b.len() == 0 {
        assert(a == b);
    }
}

/// Keys are totally ordered: exactly one of equal, below and above holds, and
/// the order is transitive.
pub proof fn lemma_key_order(a: Seq<char>, b: Seq<char>, c: Seq<char>)
    ensures
        !key_less(a, a),
        a == b || key_less(a, b) || key_less(b, a),
        !(key_less(a, b) && key_less(b, a)),
        key_less(a, b) && key_less(b, c) ==> key_less(a, c),
{
    encode_utf8_decode_utf8(a);
    encode_utf8_decode_utf8(b);
    let (x, y, z) = (encode_utf8(a), encode_utf8(b), encode_utf8(c));
    lemma_bytes_less_irreflexive(x);
    lemma_bytes_less_total(x, y);
    if bytes_less(x, y) && bytes_less(y, x) {
        lemma_bytes_less_transitive(x, y, x);
    }
    if bytes_less(x, y) && bytes_less(y, z) {
        lemma_bytes_less_transitive(x, y, z);
    }
}

/// The slot is the one position with only smaller keys before it and no
/// smaller key at it.
pub proof fn lemma_slot_is(e: Seq<(Seq<char>, Json)>, k: Seq<char>, p: int)
    requires
        0 <= p <= e.len(),
        forall|i: int| 0 <= i < p ==> key_less(#[trigger] e[i].0, k),
        p < e.len() ==> !key_less(e[p].0, k),
    ensures
        slot(e, k) == p,
    decreases e.len(),
{
    if p > 0 {
        assert(key_less(e[0].0, k));
        let t = e.drop_first();
        assert forall|i: int| 0 <= i < p - 1 implies key_less(#[trigger] t[i].0, k) by {
            assert(t[i] == e[i + 1]);
        }
        lemma_slot_is(t, k, p - 1);
    }
}

pub proof fn lemma_slot_facts(e: Seq<(Seq<char>, Json)>, k: Seq<char>)
    ensures
        slot(e, k) <= e.len(),
        forall|i: int| 0 <= i < slot(e, k) ==> key_less(#[trigger] e[i].0, k),
        slot(e, k) < e.len() ==> !key_less(e[slot(e, k) as int].0, k),
    decreases e.len(),
{
    if e.len() > 0 && key_less(e[0].0, k) {
        let t = e.drop_first();
        lemma_slot_facts(t, k);
        assert forall|i: int| 0 <= i < slot(e, k) implies key_less(#[trigger] e[i].0, k) by {
            if i > 0 {
                assert(t[i - 1] == e[i]);
            }
        }
    }
}

/// Mapping a key keeps the entries in order.
pub proof fn lemma_with_entry_sorted(e: Seq<(Seq<char>, Json)>, k: Seq<char>, v: Json)
    requires
        sorted(e),
    ensures
        sorted(with_entry(e, k, v)),
{
    let p = slot(e, k) as int;
    lemma_slot_facts(e, k);
    let r = with_entry(e, k, v);
    if p < e.len() && e[p].0 == k {
        assert forall|i: int, j: int| 0 <= i < j < r.len() implies key_less(
            #[trigger] r[i].0,
            #[trigger] r[j].0,
        ) by {
            assert(r[i].0 == e[i].0 && r[j].0 == e[j].0);
        }
    } else {
        assert forall|i: int, j: int| 0 <= i < j < r.len() implies key_less(
            #[trigger] r[i].0,
            #[trigger] r[j].0,
        ) by {
            if i < p && j == p {
                assert(r[i] == e[i]);
            } else if i == p {
                assert(r[j] == e[j - 1]);
                lemma_key_order(e[p].0, k, k);
                if j - 1 > p {
                    lemma_key_order(k, e[p].0, e[j - 1].0);
                }
            } else {
                let i0 = if i < p { i } else { i - 1 };
                let j0 = if j < p { j } else { j - 1 };
                assert(r[i] == e[i0] && r[j] == e[j0]);
            }
        }
    }
}

/// Mapping a key above all others appends the entry.
pub proof fn lemma_with_entry_append(e: Seq<(Seq<char>, Json)>, k: Seq<char>, v: Json)
    requires
        forall|i: int| 0 <= i < e.len() ==> key_less(#[trigger] e[i].0, k),
    ensures
        with_entry(e, k, v) == e.push((k, v)),
{
    lemma_slot_is(e, k, e.len() as int);
    assert(e.insert(e.len() as int, (k, v)) == e.push((k, v)));
}

/// Whether the bytes of `x` come before those of `y`.
fn bytes_before(x: &[u8], y: &[u8]) -> (r: bool)
    ensures
        r == bytes_less(x@, y@),
{
    let mut i: usize = 0;
    proof {
        assert(x@.skip(0) == x@);
        assert(y@.skip(0) == y@);
    }
    while i < x.len() && i < y.len()
        invariant
            i <= x@.len(),
            i <= y@.len(),
            bytes_less(x@, y@) == bytes_less(x@.skip(i as int), y@.skip(i as int)),
        decreases x@.len() - i,
    {
        if x[i] != y[i] {
            return x[i] < y[i];
        }
        proof {
            assert(x@.skip(i as int).drop_first() == x@.skip(i + 1));
            assert(y@.skip(i as int).drop_first() == y@.skip(i + 1));
        }
        i = i + 1;
    }
    i < y.len()
}

/// Maps `key` to `value` in the entries of an object.
pub fn insert_entry(entries: &mut Vec<(String, JsonValue)>, key: String, value: JsonValue)
    requires
        sorted(entries_view(old(entries)@)),
    ensures
        entries_view(final(entries)@) == with_entry(entries_view(old(entries)@), key@, value@),
        sorted(entries_view(final(entries)@)),
{
    let ghost e = entries_view(entries@);
    let mut lo: usize = 0;
    let mut hi: usize = entries.len();
    while lo < hi
        invariant
            lo <= hi <= entries@.len(),
            e == entries_view(entries@),
            sorted(e),
            forall|i: int| 0 <= i < lo ==> key_less(#[trigger] e[i].0, key@),
            forall|i: int| hi <= i < e.len() ==> !key_less(#[trigger] e[i].0, key@),
        decreases hi - lo,
    {
        let mid: usize = lo + (hi - lo) / 2;
        if bytes_before(entries[mid].0.as_str().as_bytes(), key.as_str().as_bytes()) {
            proof {
                assert forall|i: int| 0 <= i < mid + 1 implies key_less(#[trigger] e[i].0, key@) by {
                    assert(e[mid as int].0 == entries@[mid as int].0@);
                    if i < mid {
                        lemma_key_order(e[i].0, e[mid as int].0, key@);
                    }
                }
            }
            lo = mid + 1;
        } else {
            proof {
                assert forall|i: int| mid <= i < e.len() implies !key_less(
                    #[trigger] e[i].0,
                    key@,
                ) by {
                    assert(e[mid as int].0 == entries@[mid as int].0@);
                    if mid < i {
                        lemma_key_order(e[mid as int].0, e[i].0, key@);
                    }
                }
            }
            hi = mid;
        }
    }
    proof {
        lemma_slot_is(e, key@, lo as int);
        lemma_with_entry_sorted(e, key@, value@);
    }
    let present = lo < entries.len() && text::same_text(entries[lo].0.as_str(), key.as_str());
    let ghost v = value@;
    let ghost k = key@;
    if present {
        entries.set(lo, (key, value));
        assert(entries_view(entries@) == e.update(lo as int, (k, v)));
    } else {
        entries.insert(lo, (key, value));
        assert(entries_view(entries@) == e.insert(lo as int, (k, v)));
    }
}

impl Clone for JsonValue {
    fn clone(&self) -> (r: Self)
        ensures
            r@ == self@,
        decreases self,
    {
        match self {
            JsonValue::Null => JsonValue::Null,
            JsonValue::Bool(b) => JsonValue::Bool(*b),
            JsonValue::PosInt(u) => JsonValue::PosInt(*u),
            JsonValue::NegInt(i) => JsonValue::NegInt(*i),
            JsonValue::Float(f) => JsonValue::Float(*f),
            JsonValue::Str(s) => JsonValue::Str(s.clone()),
            JsonValue::Array(a) => {
                let mut out: Vec<JsonValue> = Vec::new();
                let mut i: usize = 0;
                while i < a.len()
                    invariant
                        i <= a@.len(),
                        out@.len() == i,
                        forall|k: int| 0 <= k < i ==> (#[trigger] out@[k])@ == a@[k]@,
                        decreases_to!(self => a@),
                    decreases a@.len() - i,
                {
                    out.push(a[i].clone());
                    i = i + 1;
                }
                proof {
                    lemma_array_view(*a);
                    lemma_array_view(out);
                    assert(items_view(out@) == items_view(a@));
                }
                JsonValue::Array(out)
            },
            JsonValue::Object(o) => {
                let mut out: Vec<(String, JsonValue)> = Vec::new();
                let mut i: usize = 0;
                while i < o.len()
                    invariant
                        i <= o@.len(),
                        out@.len() == i,
                        forall|k: int|
                            0 <= k < i ==> (#[trigger] out@[k]).0@ == o@[k].0@ && out@[k].1@ == o@[k].1@,
                        decreases_to!(self => o@),
                    decreases o@.len() - i,
                {
                    let e = &o[i];
                    out.push((e.0.clone(), e.1.clone()));
                    i = i + 1;
                }
                proof {
                    lemma_object_view(*o);
                    lemma_object_view(out);
                    assert(entries_view(out@) == entries_view(o@));
                }
                JsonValue::Object(out)
            },
        }
    }
}

// ---------------------------------------------------------------------------
// Validity
// ---------------------------------------------------------------------------

/// Whether binary64 bits stand for a finite number: the exponent is not all
/// ones.
pub open spec fn is_finite(bits: u64) -> bool {
    (bits / 0x10_0000_0000_0000) % 0x800 != 0x7ff
}

/// Whether a value is valid: negative integers are negative, fractional
/// numbers are finite, objects are in order, and so are all values inside.
pub open spec fn valid(j: Json) -> bool
    decreases j,
{
    match j {
        Json::NegInt(i) => i < 0,
        Json::Float(bits) => is_finite(bits),
        Json::Array(a) => forall|i: int| 0 <= i < a.len() ==> valid(#[trigger] a[i]),
        Json::Object(o) => sorted(o) && forall|i: int|
            0 <= i < o.len() ==> valid((#[trigger] o[i]).1),
        _ => true,
    }
}

// ---------------------------------------------------------------------------
// Text
// ---------------------------------------------------------------------------

/// How a finite fractional number is written in JSON.
pub uninterp spec fn float_text(bits: u64) -> Seq<char>;

/// `serde_json::Value`'s text form of a number, the number being read by
/// `ciborium::from_reader` from its binary64 encoding (the byte 0xfb, then the
/// bits, most significant byte first).
#[verifier::external_body]
fn float_string(bits: u64) -> (r: String)
    requires
        is_finite(bits),
    ensures
        r@ == float_text(bits),
{
    let b = bits.to_be_bytes();
    let item = [0xfb, b[0], b[1], b[2], b[3], b[4], b[5], b[6], b[7]];
    match ciborium::from_reader::<serde_json::Value, &[u8]>(&item[..]) {
        Ok(v) => v.to_string(),
        Err(e) => e.to_string(),
    }
}

/// How a number is written. One that is not finite has no form of its own.
pub open spec fn number_text(j: Json) -> Seq<char> {
    match j {
        Json::PosInt(u) => text::dec(u as nat),
        Json::NegInt(i) => text::dec_int(i as int),
        Json::Float(bits) => if is_finite(bits) {
            float_text(bits)
        } else {
            "null"@
        },
        _ => Seq::empty(),
    }
}

/// A diagnostic form of a value: the name of its kind, then what it holds.
pub open spec fn debug_text(j: Json) -> Seq<char>
    decreases j,
{
    match j {
        Json::Null => "Null"@,
        Json::Bool(b) => "Bool("@ + (if b { "true"@ } else { "false"@ }) + ")"@,
        Json::PosInt(_) | Json::NegInt(_) | Json::Float(_) => "Number("@ + number_text(j) + ")"@,
        Json::Str(s) => "String("@ + text::str_debug_text(s) + ")"@,
        Json::Array(a) => "Array ["@ + debug_items(a) + "]"@,
        Json::Object(o) => "Object {"@ + debug_entries(o) + "}"@,
    }
}

/// The diagnostic forms of items, separated by commas.
pub open spec fn debug_items(a: Seq<Json>) -> Seq<char>
    decreases a,
{
    if a.len() == 0 {
        Seq::empty()
    } else if a.len() == 1 {
        debug_text(a[0])
    } else {
        debug_items(a.drop_last()) + ", "@ + debug_text(a.last())
    }
}

/// The diagnostic forms of entries, separated by commas.
pub open spec fn debug_entries(o: Seq<(Seq<char>, Json)>) -> Seq<char>
    decreases o,
{
    if o.len() == 0 {
        Seq::empty()
    } else {
        let e = o.last();
        let own = text::str_debug_text(e.0) + ": "@ + debug_text(e.1);
        if o.len() == 1 {
            own
        } else {
            debug_entries(o.drop_last()) + ", "@ + own
        }
    }
}

impl JsonValue {
    /// An object with the given entries; of entries with the same key the last
    /// one counts.
    pub fn object(entries: Vec<(String, JsonValue)>) -> (r: JsonValue)
        ensures
            r@ == Json::Object(object_of(entries_view(entries@))),
    {
        let mut src = entries;
        let ghost all = entries_view(src@);
        let mut out: Vec<(String, JsonValue)> = Vec::new();
        let mut rest: Vec<(String, JsonValue)> = Vec::new();
        while src.len() > 0
            invariant
                entries_view(src@) + entries_view(rest@).reverse() == all,
            decreases src@.len(),
        {
            let ghost before = src@;
            let e = src.pop().unwrap();
            rest.push(e);
            assert(entries_view(src@) + entries_view(rest@).reverse() == entries_view(before) + entries_view(rest@.drop_last()).reverse());
        }
        assert(entries_view(rest@).reverse() == all);
        assert(entries_view(out@) == object_of(all.take(0)));
        let ghost mut done: int = 0;
        while rest.len() > 0
            invariant
                0 <= done <= all.len(),
                entries_view(rest@).reverse() == all.skip(done),
                entries_view(out@) == object_of(all.take(done)),
                sorted(entries_view(out@)),
            decreases rest@.len(),
        {
            let ghost before = entries_view(rest@);
            let e = rest.pop().unwrap();
            proof {
                assert(before.reverse()[0] == before.last());
                assert(all.skip(done).len() == before.len());
                assert(all.skip(done)[0] == all[done]);
                assert(all.take(done + 1).drop_last() == all.take(done));
                assert(entries_view(rest@) == before.drop_last());
                assert(before.drop_last().reverse() == before.reverse().skip(1));
                assert(all.skip(done).skip(1) == all.skip(done + 1));
            }
            insert_entry(&mut out, e.0, e.1);
            proof {
                done = done + 1;
            }
        }
        proof {
            assert(all.skip(done).len() == 0);
            assert(all.take(done) == all);
            lemma_object_view(out);
        }
        JsonValue::Object(out)
    }

    /// The value that an object maps `key` to; `None` for a key that it lacks
    /// and for any other value.
    pub fn get(&self, key: &str) -> (r: Option<&JsonValue>)
        ensures
            match self@ {
                Json::Object(o) => match r {
                    Some(v) => lookup(o, key@) == Some(v@),
                    None => lookup(o, key@) is None,
                },
                _ => r is None,
            },
    {
        match self {
            JsonValue::Object(o) => {
                proof {
                    lemma_object_view(*o);
                }
                let ghost e = entries_view(o@);
                assert(e.skip(0) == e);
                let mut i: usize = 0;
                while i < o.len()
                    invariant
                        i <= o@.len(),
                        e == entries_view(o@),
                        self@ == Json::Object(e),
                        lookup(e, key@) == lookup(e.skip(i as int), key@),
                    decreases o@.len() - i,
                {
                    assert(e.skip(i as int)[0] == e[i as int]);
                    if text::same_text(o[i].0.as_str(), key) {
                        return Some(&o[i].1);
                    }
                    assert(e.skip(i as int).drop_first() == e.skip(i + 1));
                    i = i + 1;
                }
                None
            },
            _ => None,
        }
    }

    /// The diagnostic form of a value.
    pub fn debug_string(&self) -> (r: String)
        requires
            valid(self@),
        ensures
            r@ == debug_text(self@),
        decreases self,
    {
        match self {
            JsonValue::Null => String::from_str("Null"),
            JsonValue::Bool(b) => {
                let mut out = String::from_str("Bool(");
                out.append(if *b { "true" } else { "false" });
                out.append(")");
                out
            },
            JsonValue::PosInt(_) | JsonValue::NegInt(_) | JsonValue::Float(_) => {
                let mut out = String::from_str("Number(");
                out.append(self.number_string().as_str());
                out.append(")");
                out
            },
            JsonValue::Str(s) => {
                let mut out = String::from_str("String(");
                out.append(text::str_debug_string(s.as_str()).as_str());
                out.append(")");
                out
            },
            JsonValue::Array(a) => {
                let ghost items = items_view(a@);
                proof {
                    lemma_array_view(*a);
                    assert(self@ == Json::Array(items));
                    assert forall|k: int| 0 <= k < items.len() implies valid(#[trigger] items[k]) by {
                        assert(valid(self@->Array_0[k]));
                    }
                }
                let mut out = String::from_str("Array [");
                let mut i: usize = 0;
                assert(debug_items(items.take(0)) == Seq::<char>::empty());
                assert(out@ == "Array ["@ + debug_items(items.take(0)));
                while i < a.len()
                    invariant
                        i <= a@.len(),
                        items == items_view(a@),
                        forall|k: int| 0 <= k < items.len() ==> valid(#[trigger] items[k]),
                        out@ == "Array ["@ + debug_items(items.take(i as int)),
                        decreases_to!(self => a@),
                    decreases a@.len() - i,
                {
                    proof {
                        assert(items[i as int] == a@[i as int]@);
                        assert(items.take(i + 1).drop_last() == items.take(i as int));
                        assert(items.take(i + 1).last() == a@[i as int]@);
                    }
                    if i > 0 {
                        out.append(", ");
                    }
                    out.append(a[i].debug_string().as_str());
                    i = i + 1;
                    assert(out@ == "Array ["@ + debug_items(items.take(i as int)));
                }
                assert(items.take(i as int) == items);
                out.append("]");
                out
            },
            JsonValue::Object(o) => {
                let ghost entries = entries_view(o@);
                proof {
                    lemma_object_view(*o);
                }
                let mut out = String::from_str("Object {");
                let mut i: usize = 0;
                assert(debug_entries(entries.take(0)) == Seq::<char>::empty());
                assert(out@ == "Object {"@ + debug_entries(entries.take(0)));
                while i < o.len()
                    invariant
                        i <= o@.len(),
                        entries == entries_view(o@),
                        forall|k: int| 0 <= k < entries.len() ==> valid((#[trigger] entries[k]).1),
                        out@ == "Object {"@ + debug_entries(entries.take(i as int)),
                        decreases_to!(self => o@),
                    decreases o@.len() - i,
                {
                    proof {
                        assert(valid(entries[i as int].1));
                        assert(entries.take(i + 1).drop_last() == entries.take(i as int));
                        assert(entries.take(i + 1).last() == entries[i as int]);
                    }
                    if i > 0 {
                        out.append(", ");
                    }
                    let e = &o[i];
                    out.append(text::str_debug_string(e.0.as_str()).as_str());
                    out.append(": ");
                    out.append(e.1.debug_string().as_str());
                    i = i + 1;
                    assert(out@ == "Object {"@ + debug_entries(entries.take(i as int)));
                }
                assert(entries.take(i as int) == entries);
                out.append("}");
                out
            },
        }
    }

    /// How a number is written; empty for any other value.
    pub fn number_string(&self) -> (r: String)
        ensures
            r@ == number_text(self@),
    {
        match self {
            JsonValue::PosInt(u) => text::dec_string(*u),
            JsonValue::NegInt(i) => text::dec_int_string(*i),
            JsonValue::Float(bits) => if (*bits / 0x10_0000_0000_0000) % 0x800 != 0x7ff {
                float_string(*bits)
            } else {
                String::from_str("null")
            },
            _ => String::new(),
        }
    }
}

/// Entries mapped one after the other into an empty object.
pub open spec fn object_of(e: Seq<(Seq<char>, Json)>) -> Seq<(Seq<char>, Json)>
    decreases e.len(),
{
    if e.len() == 0 {
        Seq::empty()
    } else {
        with_entry(object_of(e.drop_last()), e.last().0, e.last().1)
    }
}

/// Mapping a key to a valid value keeps an object valid.
pub proof fn lemma_with_entry_valid(e: Seq<(Seq<char>, Json)>, k: Seq<char>, v: Json)
    requires
        valid(Json::Object(e)),
        valid(v),
    ensures
        valid(Json::Object(with_entry(e, k, v))),
{
    lemma_with_entry_sorted(e, k, v);
    lemma_slot_facts(e, k);
    let r = with_entry(e, k, v);
    let p = slot(e, k) as int;
    assert forall|i: int| 0 <= i < r.len() implies valid((#[trigger] r[i]).1) by {
        if p < e.len() && e[p].0 == k {
            if i != p {
                assert(r[i] == e[i]);
            }
        } else if i < p {
            assert(r[i] == e[i]);
        } else if i > p {
            assert(r[i] == e[i - 1]);
        }
    }
}

/// An object of valid values is valid.
pub proof fn lemma_object_of_valid(e: Seq<(Seq<char>, Json)>)
    requires
        forall|i: int| 0 <= i < e.len() ==> valid((#[trigger] e[i]).1),
    ensures
        valid(Json::Object(object_of(e))),
    decreases e.len(),
{
    if e.len() > 0 {
        assert forall|i: int| 0 <= i < e.drop_last().len() implies valid(
            (#[trigger] e.drop_last()[i]).1,
        ) by {
            assert(e.drop_last()[i] == e[i]);
        }
        lemma_object_of_valid(e.drop_last());
        assert(valid(e[e.len() - 1].1));
        lemma_with_entry_valid(object_of(e.drop_last()), e.last().0, e.last().1);
    }
}

/// Whether no two entries have the same key.
pub open spec fn no_key_twice(e: Seq<(Seq<char>, Json)>) -> bool {
    forall|i: int, j: int| 0 <= i < j < e.len() ==> (#[trigger] e[i]).0 != (#[trigger] e[j]).0
}

/// Looking a key up gives the value of the first entry that has it, and nothing if none has.
pub proof fn law_lookup_is_by_key(e: Seq<(Seq<char>, Json)>, k: Seq<char>)
    ensures
        forall|i: int|
            0 <= i < e.len() && (#[trigger] e[i]).0 == k && (forall|j: int| 0 <= j < i ==> (#[trigger] e[j]).0 != k)
                ==> lookup(e, k) == Some(e[i].1),
        (forall|i: int| 0 <= i < e.len() ==> (#[trigger] e[i]).0 != k) ==> lookup(e, k) is None,
        lookup(e, k) matches Some(v) ==> e.contains((k, v)),
    decreases e.len(),
{
    if e.len() > 0 {
        let t = e.drop_first();
        law_lookup_is_by_key(t, k);
        assert(forall|i: int| 0 <= i < t.len() ==> #[trigger] t[i] == e[i + 1]);
        assert forall|i: int|
            0 <= i < e.len() && (#[trigger] e[i]).0 == k && (forall|j: int| 0 <= j < i ==> (#[trigger] e[j]).0 != k)
            implies lookup(e, k) == Some(e[i].1) by {
            if i > 0 {
                assert(e[0].0 != k);
                assert(t[i - 1] == e[i]);
                assert forall|j: int| 0 <= j < i - 1 implies (#[trigger] t[j]).0 != k by {
                    assert(t[j] == e[j + 1]);
                }
            }
        }
        if forall|i: int| 0 <= i < e.len() ==> (#[trigger] e[i]).0 != k {
            assert(e[0].0 != k);
            assert forall|i: int| 0 <= i < t.len() implies (#[trigger] t[i]).0 != k by {
                assert(t[i] == e[i + 1]);
            }
        }
        if lookup(e, k) is Some {
            let v = lookup(e, k)->0;
            if e[0].0 == k {
                assert(e[0] == (k, v));
            } else {
                let i = choose|i: int| 0 <= i < t.len() && t[i] == (k, v);
                assert(e[i + 1] == (k, v));
            }
        }
    }
}

/// Among entries in order, each key stands once: looking it up gives the value beside it.
proof fn lemma_lookup_sorted(e: Seq<(Seq<char>, Json)>, i: int)
    requires
        sorted(e),
        0 <= i < e.len(),
    ensures
        lookup(e, e[i].0) == Some(e[i].1),
{
    assert forall|j: int| 0 <= j < i implies (#[trigger] e[j]).0 != e[i].0 by {
        lemma_key_order(e[j].0, e[i].0, e[i].0);
    }
    law_lookup_is_by_key(e, e[i].0);
}

/// Mapping a key neither adds nor removes an entry with another key.
proof fn lemma_other_entries(e: Seq<(Seq<char>, Json)>, k: Seq<char>, v: Json, x: Seq<char>, w: Json)
    requires
        x != k,
    ensures
        with_entry(e, k, v).contains((x, w)) == e.contains((x, w)),
{
    let r = with_entry(e, k, v);
    let p = slot(e, k) as int;
    lemma_slot_facts(e, k);
    let same = p < e.len() && e[p].0 == k;
    if e.contains((x, w)) {
        let i = choose|i: int| 0 <= i < e.len() && e[i] == (x, w);
        if same || i < p {
            assert(r[i] == (x, w));
        } else {
            assert(r[i + 1] == (x, w));
        }
    }
    if r.contains((x, w)) {
        let q = choose|q: int| 0 <= q < r.len() && r[q] == (x, w);
        assert(r[p] == (k, v));
        if same || q < p {
            assert(e[q] == (x, w));
        } else {
            assert(e[q - 1] == (x, w));
        }
    }
}

proof fn lemma_lookup_contains(e: Seq<(Seq<char>, Json)>, x: Seq<char>, w: Json)
    requires
        sorted(e),
    ensures
        e.contains((x, w)) == (lookup(e, x) == Some(w)),
{
    if e.contains((x, w)) {
        let i = choose|i: int| 0 <= i < e.len() && e[i] == (x, w);
        lemma_lookup_sorted(e, i);
    }
    law_lookup_is_by_key(e, x);
}

/// Mapping a key changes what is found under that key, and nothing else.
pub proof fn law_one_key_is_mapped(e: Seq<(Seq<char>, Json)>, k: Seq<char>, v: Json, x: Seq<char>)
    requires
        sorted(e),
    ensures
        lookup(with_entry(e, k, v), k) == Some(v),
        x != k ==> lookup(with_entry(e, k, v), x) == lookup(e, x),
{
    let r = with_entry(e, k, v);
    let p = slot(e, k) as int;
    lemma_with_entry_sorted(e, k, v);
    assert(r[p] == (k, v)) by {
        lemma_slot_facts(e, k);
    }
    assert(r.contains((k, v))) by {
        lemma_slot_facts(e, k);
        assert(r[p] == (k, v));
    }
    lemma_lookup_contains(r, k, v);
    if x != k {
        if lookup(e, x) is Some {
            let w = lookup(e, x)->0;
            lemma_lookup_contains(e, x, w);
            lemma_other_entries(e, k, v, x, w);
            lemma_lookup_contains(r, x, w);
        } else if lookup(r, x) is Some {
            let w = lookup(r, x)->0;
            lemma_lookup_contains(r, x, w);
            lemma_other_entries(e, k, v, x, w);
            lemma_lookup_contains(e, x, w);
        }
    }
}

/// An object made of entries holds under each key the value of the last entry with that key, and
/// no other key.
pub proof fn law_object_holds_the_last(e: Seq<(Seq<char>, Json)>, k: Seq<char>)
    ensures
        sorted(object_of(e)),
        forall|i: int|
            0 <= i < e.len() && (#[trigger] e[i]).0 == k && (forall|j: int|
                i < j < e.len() ==> (#[trigger] e[j]).0 != k) ==> lookup(object_of(e), k) == Some(e[i].1),
        (forall|i: int| 0 <= i < e.len() ==> (#[trigger] e[i]).0 != k) ==> lookup(object_of(e), k) is None,
    decreases e.len(),
{
    if e.len() > 0 {
        let t = e.drop_last();
        law_object_holds_the_last(t, k);
        let (l, v) = e.last();
        lemma_with_entry_sorted(object_of(t), l, v);
        law_one_key_is_mapped(object_of(t), l, v, k);
        assert forall|i: int|
            0 <= i < e.len() && (#[trigger] e[i]).0 == k && (forall|j: int|
                i < j < e.len() ==> (#[trigger] e[j]).0 != k) implies lookup(object_of(e), k) == Some(e[i].1) by {
            if i < e.len() - 1 {
                assert(e[e.len() - 1].0 != k);
                assert(t[i] == e[i]);
                assert forall|j: int| i < j < t.len() implies (#[trigger] t[j]).0 != k by {
                    assert(t[j] == e[j]);
                }
            }
        }
        if forall|i: int| 0 <= i < e.len() ==> (#[trigger] e[i]).0 != k {
            assert(e[e.len() - 1].0 != k);
            assert forall|i: int| 0 <= i < t.len() implies (#[trigger] t[i]).0 != k by {
                assert(t[i] == e[i]);
            }
        }
    }
}

/// An object made of entries with different keys holds each of them.
pub proof fn law_object_holds_its_entries(e: Seq<(Seq<char>, Json)>, i: int)
    requires
        no_key_twice(e),
        0 <= i < e.len(),
    ensures
        lookup(object_of(e), e[i].0) == Some(e[i].1),
{
    law_object_holds_the_last(e, e[i].0);
    assert forall|j: int| i < j < e.len() implies (#[trigger] e[j]).0 != e[i].0 by {}
}

/// Entries in order have no key twice.
pub proof fn lemma_sorted_no_key_twice(e: Seq<(Seq<char>, Json)>)
    requires
        sorted(e),
    ensures
        no_key_twice(e),
{
    assert forall|i: int, j: int| 0 <= i < j < e.len() implies (#[trigger] e[i]).0 != (#[trigger] e[j]).0 by {
        lemma_key_order(e[i].0, e[j].0, e[j].0);
    }
}

// ---------------------------------------------------------------------------
// JSON text
// ---------------------------------------------------------------------------

/// How a character is written inside a JSON string.
pub open spec fn escaped(c: char) -> Seq<char> {
    if c == '"' {
        seq!['\\', '"']
    } else if c == '\\' {
        seq!['\\', '\\']
    } else if c == '\n' {
        seq!['\\', 'n']
    } else if c == '\r' {
        seq!['\\', 'r']
    } else if c == '\t' {
        seq!['\\', 't']
    } else if c as u32 == 8 {
        seq!['\\', 'b']
    } else if c as u32 == 12 {
        seq!['\\', 'f']
    } else if (c as u32) < 32 {
        seq!['\\', 'u', '0', '0'] + text::hex_text(seq![c as u8])
    } else {
        seq![c]
    }
}

/// The characters of a text as they are written inside a JSON string.
pub open spec fn escaped_text(s: Seq<char>) -> Seq<char>
    decreases s.len(),
{
    if s.len() == 0 {
        s
    } else {
        escaped_text(s.drop_last()) + escaped(s.last())
    }
}

/// A text as a JSON string.
pub open spec fn quoted(s: Seq<char>) -> Seq<char> {
    "\""@ + escaped_text(s) + "\""@
}

/// `serde_json::to_string` of a string: the string in double quotes, with
/// quotes, backslashes and control characters escaped.
#[verifier::external_body]
pub(crate) fn quoted_string(s: &str) -> (r: String)
    ensures
        r@ == quoted(s@),
{
    match serde_json::to_string(s) {
        Ok(t) => t,
        Err(e) => e.to_string(),
    }
}

/// A value as compact JSON text.
pub open spec fn json_text(j: Json) -> Seq<char>
    decreases j,
{
    match j {
        Json::Null => "null"@,
        Json::Bool(b) => if b {
            "true"@
        } else {
            "false"@
        },
        Json::PosInt(_) | Json::NegInt(_) | Json::Float(_) => number_text(j),
        Json::Str(s) => quoted(s),
        Json::Array(a) => "["@ + json_items(a) + "]"@,
        Json::Object(o) => "{"@ + json_entries(o) + "}"@,
    }
}

/// Items as JSON text, separated by commas.
pub open spec fn json_items(a: Seq<Json>) -> Seq<char>
    decreases a,
{
    if a.len() == 0 {
        Seq::empty()
    } else if a.len() == 1 {
        json_text(a[0])
    } else {
        json_items(a.drop_last()) + ","@ + json_text(a.last())
    }
}

/// Entries as JSON text, separated by commas.
pub open spec fn json_entries(o: Seq<(Seq<char>, Json)>) -> Seq<char>
    decreases o,
{
    if o.len() == 0 {
        Seq::empty()
    } else {
        let own = quoted(o.last().0) + ":"@ + json_text(o.last().1);
        if o.len() == 1 {
            own
        } else {
            json_entries(o.drop_last()) + ","@ + own
        }
    }
}

impl JsonValue {
    /// The value as compact JSON text.
    pub fn to_text(&self) -> (r: String)
        ensures
            r@ == json_text(self@),
        decreases self,
    {
        match self {
            JsonValue::Null => String::from_str("null"),
            JsonValue::Bool(b) => if *b {
                String::from_str("true")
            } else {
                String::from_str("false")
            },
            JsonValue::PosInt(_) | JsonValue::NegInt(_) | JsonValue::Float(_) => self.number_string(),
            JsonValue::Str(s) => quoted_string(s.as_str()),
            JsonValue::Array(a) => {
                let ghost items = items_view(a@);
                proof {
                    lemma_array_view(*a);
                }
                let mut out = String::from_str("[");
                let mut i: usize = 0;
                assert(out@ == "["@ + json_items(items.take(0)));
                while i < a.len()
                    invariant
                        i <= a@.len(),
                        items == items_view(a@),
                        out@ == "["@ + json_items(items.take(i as int)),
                        decreases_to!(self => a@),
                    decreases a@.len() - i,
                {
                    proof {
                        assert(items[i as int] == a@[i as int]@);
                        assert(items.take(i + 1).drop_last() == items.take(i as int));
                        assert(items.take(i + 1).last() == a@[i as int]@);
                    }
                    if i > 0 {
                        out.append(",");
                    }
                    out.append(a[i].to_text().as_str());
                    i = i + 1;
                    assert(out@ == "["@ + json_items(items.take(i as int)));
                }
                assert(items.take(i as int) == items);
                out.append("]");
                out
            },
            JsonValue::Object(o) => {
                let ghost entries = entries_view(o@);
                proof {
                    lemma_object_view(*o);
                }
                let mut out = String::from_str("{");
                let mut i: usize = 0;
                assert(out@ == "{"@ + json_entries(entries.take(0)));
                while i < o.len()
                    invariant
                        i <= o@.len(),
                        entries == entries_view(o@),
                        out@ == "{"@ + json_entries(entries.take(i as int)),
                        decreases_to!(self => o@),
                    decreases o@.len() - i,
                {
                    proof {
                        assert(entries.take(i + 1).drop_last() == entries.take(i as int));
                        assert(entries.take(i + 1).last() == entries[i as int]);
                    }
                    if i > 0 {
                        out.append(",");
                    }
                    let e = &o[i];
                    out.append(quoted_string(e.0.as_str()).as_str());
                    out.append(":");
                    out.append(e.1.to_text().as_str());
                    i = i + 1;
                    assert(out@ == "{"@ + json_entries(entries.take(i as int)));
                }
                assert(entries.take(i as int) == entries);
                out.append("}");
                out
            },
        }
    }
}


// ---------------------------------------------------------------------------
// Laws of JSON text
// ---------------------------------------------------------------------------

/// The texts of values.
pub open spec fn item_texts(a: Seq<Json>) -> Seq<Seq<char>> {
    Seq::new(a.len(), |i: int| json_text(a[i]))
}

/// The texts of entries: each a key in quotes, a colon and a value.
pub open spec fn entry_texts(o: Seq<(Seq<char>, Json)>) -> Seq<Seq<char>> {
    Seq::new(o.len(), |i: int| quoted(o[i].0) + seq![':'] + json_text(o[i].1))
}

proof fn lemma_items_joined(a: Seq<Json>)
    ensures
        json_items(a) == text::join(item_texts(a), seq![',']),
    decreases a.len(),
{
    reveal_strlit(",");
    assert(","@ =~= seq![',']);
    if a.len() > 1 {
        lemma_items_joined(a.drop_last());
        assert(item_texts(a).drop_last() =~= item_texts(a.drop_last()));
    }
}

proof fn lemma_entries_joined(o: Seq<(Seq<char>, Json)>)
    ensures
        json_entries(o) == text::join(entry_texts(o), seq![',']),
    decreases o.len(),
{
    reveal_strlit(",");
    reveal_strlit(":");
    assert(","@ =~= seq![',']);
    assert(":"@ =~= seq![':']);
    if o.len() > 1 {
        lemma_entries_joined(o.drop_last());
        assert(entry_texts(o).drop_last() =~= entry_texts(o.drop_last()));
    }
}

/// An array is written as its items between brackets and an object as its entries between
/// braces, with a comma between any two of them.
pub proof fn law_text_of_lists(a: Seq<Json>, o: Seq<(Seq<char>, Json)>)
    ensures
        json_text(Json::Array(a)) == seq!['['] + text::join(item_texts(a), seq![',']) + seq![']'],
        json_text(Json::Object(o)) == seq!['{'] + text::join(entry_texts(o), seq![',']) + seq!['}'],
{
    reveal_strlit("[");
    reveal_strlit("]");
    reveal_strlit("{");
    reveal_strlit("}");
    assert("["@ =~= seq!['[']);
    assert("]"@ =~= seq![']']);
    assert("{"@ =~= seq!['{']);
    assert("}"@ =~= seq!['}']);
    lemma_items_joined(a);
    lemma_entries_joined(o);
}

/// Plain values are written as their words and numerals; a number that is not finite has no
/// numeral.
pub proof fn law_text_of_plain_values(b: bool, u: u64, i: i64, s: Seq<char>, bits: u64)
    requires
        i < 0,
        !is_finite(bits),
    ensures
        json_text(Json::Null) == seq!['n', 'u', 'l', 'l'],
        json_text(Json::Bool(true)) == seq!['t', 'r', 'u', 'e'],
        json_text(Json::Bool(false)) == seq!['f', 'a', 'l', 's', 'e'],
        text::digits_value(json_text(Json::PosInt(u))) == u,
        json_text(Json::NegInt(i)) == seq!['-'] + text::dec((-i) as nat),
        json_text(Json::Float(bits)) == json_text(Json::Null),
        json_text(Json::Str(s)) == seq!['"'] + escaped_text(s) + seq!['"'],
{
    reveal_strlit("null");
    reveal_strlit("true");
    reveal_strlit("false");
    reveal_strlit("\"");
    assert("null"@ =~= seq!['n', 'u', 'l', 'l']);
    assert("true"@ =~= seq!['t', 'r', 'u', 'e']);
    assert("false"@ =~= seq!['f', 'a', 'l', 's', 'e']);
    assert("\""@ =~= seq!['"']);
    text::lemma_dec_value(u as nat);
}

/// A text is escaped part by part.
pub proof fn law_escaped_part_by_part(a: Seq<char>, b: Seq<char>)
    ensures
        escaped_text(a + b) == escaped_text(a) + escaped_text(b),
    decreases b.len(),
{
    if b.len() == 0 {
        assert(a + b =~= a);
        assert(escaped_text(a) + escaped_text(b) =~= escaped_text(a));
    } else {
        law_escaped_part_by_part(a, b.drop_last());
        assert((a + b).drop_last() =~= a + b.drop_last());
        assert(escaped_text(a + b) =~= escaped_text(a) + escaped_text(b));
    }
}

/// Whether a text holds no quotation mark, no backslash and no control character.
pub open spec fn is_unescaped(s: Seq<char>) -> bool {
    forall|i: int| 0 <= i < s.len() ==> #[trigger] s[i] as u32 >= 32 && s[i] != '"' && s[i] != '\\'
}

/// What needs no escape stands as it is.
pub proof fn law_unescaped_stands_as_it_is(s: Seq<char>)
    requires
        is_unescaped(s),
    ensures
        escaped_text(s) == s,
    decreases s.len(),
{
    if s.len() > 0 {
        let most = s.drop_last();
        assert forall|i: int| 0 <= i < most.len() implies #[trigger] most[i] as u32 >= 32 && most[i] != '"'
            && most[i] != '\\' by {
            assert(most[i] == s[i]);
        }
        law_unescaped_stands_as_it_is(most);
        assert(s[s.len() - 1] as u32 >= 32);
        assert(escaped(s.last()) == seq![s.last()]);
        assert(escaped_text(s) =~= s);
    }
}

/// Bytes are compared from the first on: what they share makes no difference, the first
/// difference decides, and what ends first comes first.
pub proof fn law_bytes_are_compared_in_order(p: Seq<u8>, a: Seq<u8>, b: Seq<u8>, x: u8, y: u8)
    ensures
        bytes_less(p + a, p + b) == bytes_less(a, b),
        x < y ==> bytes_less(seq![x] + a, seq![y] + b),
        x > y ==> !bytes_less(seq![x] + a, seq![y] + b),
        bytes_less(p, p + a) <==> a.len() > 0,
        !bytes_less(p + a, p),
    decreases p.len(),
{
    let xa = seq![x] + a;
    let yb = seq![y] + b;
    assert(xa[0] == x && yb[0] == y);
    if p.len() == 0 {
        assert(p + a =~= a);
        assert(p + b =~= b);
    } else {
        law_bytes_are_compared_in_order(p.drop_first(), a, b, x, y);
        assert((p + a).drop_first() =~= p.drop_first() + a);
        assert((p + b).drop_first() =~= p.drop_first() + b);
    }
}

/// An entry behind others is written behind them.
pub proof fn lemma_entry_added(o: Seq<(Seq<char>, Json)>, key: Seq<char>, v: Json, label: Seq<char>)
    requires
        o.len() > 0,
        is_unescaped(key),
        label == seq![',', '"'] + key + seq!['"', ':'],
    ensures
        "{"@ + json_entries(o.push((key, v))) == "{"@ + json_entries(o) + label + json_text(v),
{
    reveal_strlit(",");
    reveal_strlit(":");
    reveal_strlit("\"");
    law_unescaped_stands_as_it_is(key);
    assert(o.push((key, v)).drop_last() =~= o);
    assert(json_entries(o.push((key, v))) =~= json_entries(o) + label + json_text(v));
    assert("{"@ + json_entries(o.push((key, v))) =~= "{"@ + json_entries(o) + label + json_text(v));
}


/// What is shown of values in messages.
pub open spec fn shown_items(a: Seq<Json>) -> Seq<Seq<char>> {
    Seq::new(a.len(), |i: int| debug_text(a[i]))
}

/// What is shown of entries in messages: each a key, a colon and a value.
pub open spec fn shown_entries(o: Seq<(Seq<char>, Json)>) -> Seq<Seq<char>> {
    Seq::new(o.len(), |i: int| text::str_debug_text(o[i].0) + ": "@ + debug_text(o[i].1))
}

proof fn lemma_shown_items(a: Seq<Json>)
    ensures
        debug_items(a) == text::join(shown_items(a), ", "@),
    decreases a.len(),
{
    if a.len() > 1 {
        lemma_shown_items(a.drop_last());
        assert(shown_items(a).drop_last() =~= shown_items(a.drop_last()));
    }
}

proof fn lemma_shown_entries(o: Seq<(Seq<char>, Json)>)
    ensures
        debug_entries(o) == text::join(shown_entries(o), ", "@),
    decreases o.len(),
{
    if o.len() > 1 {
        lemma_shown_entries(o.drop_last());
        assert(shown_entries(o).drop_last() =~= shown_entries(o.drop_last()));
    }
}

/// A value is shown in messages by its kind and what it holds, lists with a comma and a space
/// between their parts.
pub proof fn law_values_are_shown_by_kind(u: u64, i: i64, s: Seq<char>, a: Seq<Json>, o: Seq<(Seq<char>, Json)>)
    requires
        i < 0,
    ensures
        debug_text(Json::Null) == "Null"@,
        debug_text(Json::Bool(true)) == "Bool("@ + "true"@ + ")"@,
        debug_text(Json::Bool(false)) == "Bool("@ + "false"@ + ")"@,
        debug_text(Json::PosInt(u)) == "Number("@ + text::dec(u as nat) + ")"@,
        debug_text(Json::NegInt(i)) == "Number("@ + (seq!['-'] + text::dec((-i) as nat)) + ")"@,
        debug_text(Json::Str(s)) == "String("@ + text::str_debug_text(s) + ")"@,
        debug_text(Json::Array(a)) == "Array ["@ + text::join(shown_items(a), ", "@) + "]"@,
        debug_text(Json::Object(o)) == "Object {"@ + text::join(shown_entries(o), ", "@) + "}"@,
{
    lemma_shown_items(a);
    lemma_shown_entries(o);
}

} // verus!
