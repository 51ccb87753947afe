//! CBOR maps, written field by field.
use vstd::prelude::*;
use vstd::utf8::*;
use crate::antie::cbor;
use crate::antie::email;
use crate::antie::payload;
use crate::json;
use crate::json::{Json, JsonValue};

verus! {

/// A field of a CBOR map, left out where it has no value.
pub open spec fn field(name: Seq<char>, value: Option<Seq<u8>>) -> Seq<(Seq<char>, Seq<u8>)> {
    match value {
        Some(v) => seq![(name, v)],
        None => Seq::empty(),
    }
}

/// A CBOR map in the making.
pub struct MapWriter {
    /// The fields so far, in CBOR.
    pub body: Vec<u8>,
    /// How many they are.
    pub count: u64,
    /// The fields so far.
    pub fields: Ghost<Seq<(Seq<char>, Seq<u8>)>>,
}

impl MapWriter {
    /// Whether what is written is what the fields say.
    pub open spec fn wf(self) -> bool {
        self.body@ == email::cbor_fields(self.fields@) && self.count == self.fields@.len()
    }

    /// A map without fields.
    pub fn new() -> (r: MapWriter)
        ensures
            r.wf(),
            r.fields@ == Seq::<(Seq<char>, Seq<u8>)>::empty(),
    {
        MapWriter { body: Vec::new(), count: 0, fields: Ghost(Seq::empty()) }
    }

    /// Adds a field, unless it has no value.
    pub fn push(&mut self, name: &str, value: Option<Vec<u8>>)
        requires
            old(self).wf(),
            old(self).count < u64::MAX,
        ensures
            final(self).wf(),
            final(self).count <= old(self).count + 1,
            final(self).fields@ == old(self).fields@ + field(name@, payload::opt(value)),
    {
        match value {
            Some(v) => {
                cbor::encode_text(name, &mut self.body);
                cbor::push_bytes(&mut self.body, v.as_slice());
                self.count = self.count + 1;
                proof {
                    let before = self.fields@;
                    let after = before + field(name@, Some(v@));
                    assert(after.drop_last() == before);
                    assert(after.last() == (name@, v@));
                    self.fields@ = after;
                    assert(self.body@ == email::cbor_fields(after));
                }
            },
            None => {
                proof {
                    assert(self.fields@ + field(name@, None) == self.fields@);
                }
            },
        }
    }

    /// Adds a field.
    pub fn put(&mut self, name: &str, value: Vec<u8>)
        requires
            old(self).wf(),
            old(self).count < u64::MAX,
        ensures
            final(self).wf(),
            final(self).count == old(self).count + 1,
            final(self).fields@ == old(self).fields@.push((name@, value@)),
    {
        let ghost before = self.fields@;
        let ghost item = value@;
        let held = Some(value);
        assert(payload::opt(held) == Some(item));
        self.push(name, held);
        proof {
            let one = field(name@, Some(item));
            assert(one == seq![(name@, item)]);
            assert(self.fields@ == before + one);
            assert(before + one =~= before.push((name@, item)));
        }
    }

    /// The map.
    pub fn finish(self) -> (r: Vec<u8>)
        requires
            self.wf(),
        ensures
            r@ == email::cbor_map(self.fields@),
    {
        let mut out: Vec<u8> = Vec::new();
        cbor::encode_head(5, self.count, &mut out);
        cbor::push_bytes(&mut out, self.body.as_slice());
        assert(out@ == email::cbor_map(self.fields@));
        out
    }
}

/// What `ciborium` makes of the value that a JSON text stands for, or why it makes nothing.
pub uninterp spec fn ciborium_form(text: Seq<char>) -> Result<Seq<u8>, Seq<char>>;

/// `ciborium::into_writer` of the `serde_json::Value` that `serde_json::from_str` reads from a
/// text: the bytes, or the text of the error.
#[verifier::external_body]
fn ciborium_bytes(text: &str) -> (r: Result<Vec<u8>, String>)
    ensures
        payload::file_view(r) == ciborium_form(text@),
{
    let value = serde_json::from_str::<serde_json::Value>(text).map_err(|e| e.to_string())?;
    let mut out = Vec::new();
    ciborium::into_writer(&value, &mut out).map_err(|e| e.to_string())?;
    Ok(out)
}

/// A JSON value in CBOR, every array as an array.
pub fn write_json(value: &JsonValue) -> (r: Result<Vec<u8>, String>)
    ensures
        payload::file_view(r) == ciborium_form(json::json_text(value@)),
{
    ciborium_bytes(value.to_text().as_str())
}

/// A text in CBOR.
pub fn write_text(s: &str) -> (r: Vec<u8>)
    ensures
        r@ == cbor::text_item(s@),
{
    let mut out: Vec<u8> = Vec::new();
    cbor::encode_text(s, &mut out);
    assert(out@ == cbor::text_item(s@));
    out
}

/// The CBOR forms of bytes as numbers, one after the other.
pub open spec fn numbers(b: Seq<u8>) -> Seq<u8>
    decreases b.len(),
{
    if b.len() == 0 {
        Seq::empty()
    } else {
        numbers(b.drop_last()) + cbor::head(0, b.last() as nat)
    }
}

/// The CBOR form of a list of bytes as numbers.
pub open spec fn numbers_item(b: Seq<u8>) -> Seq<u8> {
    cbor::head(4, b.len()) + numbers(b)
}

/// Bytes in CBOR, as a list of numbers.
pub fn write_numbers(b: &[u8]) -> (r: Vec<u8>)
    ensures
        r@ == numbers_item(b@),
{
    let mut out: Vec<u8> = Vec::new();
    cbor::encode_head(4, b.len() as u64, &mut out);
    let ghost first = out@;
    let mut i: usize = 0;
    assert(first + numbers(b@.take(0)) == first);
    while i < b.len()
        invariant
            i <= b@.len(),
            out@ == first + numbers(b@.take(i as int)),
        decreases b@.len() - i,
    {
        proof {
            assert(b@.take(i + 1).drop_last() == b@.take(i as int));
        }
        cbor::encode_head(0, b[i] as u64, &mut out);
        assert(out@ == first + numbers(b@.take(i + 1)));
        i = i + 1;
    }
    assert(b@.take(b@.len() as int) == b@);
    assert(out@ == numbers_item(b@));
    out
}

/// Whether a map holds a value under a name, and nothing else under it; none if there is no value.
pub open spec fn holds_only(fields: Seq<(Seq<char>, Seq<u8>)>, name: Seq<char>, value: Option<Seq<u8>>) -> bool {
    &&& forall|v: Seq<u8>| #[trigger] fields.contains((name, v)) <==> value == Some(v)
    &&& forall|i: int, j: int|
        0 <= i < j < fields.len() && (#[trigger] fields[i]).0 == name ==> (#[trigger] fields[j]).0 != name
}

/// Whether no field of a map has a name.
pub open spec fn lacks(fields: Seq<(Seq<char>, Seq<u8>)>, name: Seq<char>) -> bool {
    forall|i: int| 0 <= i < fields.len() ==> (#[trigger] fields[i]).0 != name
}

/// A field that is added is held under its name, and takes nothing away from the others.
pub proof fn lemma_field_added(
    fields: Seq<(Seq<char>, Seq<u8>)>,
    name: Seq<char>,
    value: Option<Seq<u8>>,
    other: Seq<char>,
    held: Option<Seq<u8>>,
)
    ensures
        lacks(fields, name) ==> holds_only(fields + field(name, value), name, value),
        other != name && lacks(fields, other) ==> lacks(fields + field(name, value), other),
        other != name && holds_only(fields, other, held) ==> holds_only(fields + field(name, value), other, held),
{
    let all = fields + field(name, value);
    let n = fields.len() as int;
    assert(forall|i: int| 0 <= i < n ==> #[trigger] all[i] == fields[i]);
    assert(all.len() > n ==> all[n].0 == name && value == Some(all[n].1));
    if lacks(fields, name) {
        assert forall|v: Seq<u8>| #[trigger] all.contains((name, v)) <==> value == Some(v) by {
            if all.contains((name, v)) {
                let k = choose|k: int| 0 <= k < all.len() && all[k] == (name, v);
                if k < n {
                    assert(fields[k].0 == name);
                }
            }
            if value == Some(v) {
                assert(all[n] == (name, v));
            }
        }
        assert forall|i: int, j: int| 0 <= i < j < all.len() && (#[trigger] all[i]).0 == name implies (
        #[trigger] all[j]).0 != name by {
            assert(fields[i].0 != name);
        }
    }
    if other != name && holds_only(fields, other, held) {
        assert forall|v: Seq<u8>| #[trigger] all.contains((other, v)) <==> held == Some(v) by {
            if all.contains((other, v)) {
                let k = choose|k: int| 0 <= k < all.len() && all[k] == (other, v);
                assert(k < n);
                assert(fields[k] == (other, v));
                assert(fields.contains((other, v)));
            }
            if held == Some(v) {
                assert(fields.contains((other, v)));
                let k = choose|k: int| 0 <= k < fields.len() && fields[k] == (other, v);
                assert(all[k] == (other, v));
            }
        }
    }
}

/// The entries that names and values make up.
pub open spec fn paired(fields: Seq<(Seq<char>, Seq<u8>)>, values: Seq<Json>) -> Seq<(Seq<char>, Json)> {
    Seq::new(fields.len(), |i: int| (fields[i].0, values[i]))
}

proof fn lemma_fields_prefix(fields: Seq<(Seq<char>, Seq<u8>)>, i: int)
    requires
        0 <= i <= fields.len(),
    ensures
        exists|rest: Seq<u8>| email::cbor_fields(fields) == email::cbor_fields(fields.take(i)) + rest,
{
    assert(fields == fields.take(i) + fields.skip(i));
    email::law_map_is_its_fields(fields.take(i), fields.skip(i), Seq::empty(), Seq::empty());
}

proof fn lemma_holds_parts(data: Seq<u8>, pos: int, a: Seq<u8>, b: Seq<u8>)
    requires
        cbor::holds_at(data, pos, a + b),
    ensures
        cbor::holds_at(data, pos, a),
        cbor::holds_at(data, pos + a.len(), b),
{
    let whole = data.subrange(pos, pos + (a + b).len());
    assert(whole.subrange(0, a.len() as int) == a);
    assert(whole.subrange(a.len() as int, (a + b).len() as int) == b);
    assert(data.subrange(pos, pos + a.len()) == whole.subrange(0, a.len() as int));
    assert(data.subrange(pos + a.len(), pos + a.len() + b.len()) == whole.subrange(
        a.len() as int,
        (a + b).len() as int,
    ));
}

/// Whether values are what the fields of a map hold in CBOR, and within the limits of reading.
pub open spec fn are_values(fields: Seq<(Seq<char>, Seq<u8>)>, values: Seq<Json>) -> bool {
    &&& values.len() == fields.len()
    &&& fields.len() <= cbor::MAX_CBOR_ELEMENTS
    &&& forall|i: int|
        0 <= i < fields.len() ==> (#[trigger] fields[i]).1 == cbor::cbor(values[i]) && json::valid(values[i])
            && encode_utf8(fields[i].0).len() <= u64::MAX && cbor::within_limits(
            values[i],
            cbor::MAX_CBOR_DEPTH - 1,
        )
}

proof fn lemma_entry_reads(
    data: Seq<u8>,
    at: int,
    name: Seq<char>,
    value: Json,
    count: nat,
    seen: Seq<(Seq<char>, Json)>,
)
    requires
        count > 0,
        cbor::holds_at(data, at, cbor::text_item(name) + cbor::cbor(value)),
        json::valid(value),
        encode_utf8(name).len() <= u64::MAX,
        cbor::within_limits(value, cbor::MAX_CBOR_DEPTH - 1),
    ensures
        cbor::entries_at(data, at, 1, count, seen) == cbor::entries_at(
            data,
            at + (cbor::text_item(name) + cbor::cbor(value)).len(),
            1,
            (count - 1) as nat,
            json::with_entry(seen, name, value),
        ),
{
    lemma_holds_parts(data, at, cbor::text_item(name), cbor::cbor(value));
    assert(cbor::cbor(Json::Str(name)) == cbor::text_item(name));
    cbor::lemma_item(data, at, Json::Str(name), 1);
    cbor::lemma_item(data, at + cbor::text_item(name).len(), value, 1);
}

proof fn lemma_fields_read(data: Seq<u8>, pos: int, fields: Seq<(Seq<char>, Seq<u8>)>, values: Seq<Json>, i: nat)
    requires
        i <= fields.len(),
        are_values(fields, values),
        cbor::holds_at(data, pos, email::cbor_fields(fields)),
    ensures
        email::cbor_fields(fields.take(i as int)).len() <= email::cbor_fields(fields).len(),
        cbor::entries_at(data, pos, 1, fields.len(), Seq::empty()) == cbor::entries_at(
            data,
            pos + email::cbor_fields(fields.take(i as int)).len(),
            1,
            (fields.len() - i) as nat,
            json::object_of(paired(fields, values).take(i as int)),
        ),
    decreases i,
{
    let all = paired(fields, values);
    if i == 0 {
        assert(all.take(0).len() == 0);
        assert(fields.take(0).len() == 0);
    } else {
        lemma_fields_read(data, pos, fields, values, (i - 1) as nat);
        let (name, form) = fields[i - 1];
        let value = values[i - 1];
        let before = email::cbor_fields(fields.take(i - 1));
        assert(fields.take(i as int).drop_last() == fields.take(i - 1));
        assert(fields.take(i as int).last() == fields[i - 1]);
        lemma_fields_prefix(fields, i as int);
        let rest = choose|rest: Seq<u8>|
            email::cbor_fields(fields) == email::cbor_fields(fields.take(i as int)) + rest;
        lemma_holds_parts(data, pos, email::cbor_fields(fields.take(i as int)), rest);
        assert(email::cbor_fields(fields.take(i as int)) == before + (cbor::text_item(name) + form));
        lemma_holds_parts(data, pos, before, cbor::text_item(name) + form);
        let seen = json::object_of(all.take(i - 1));
        lemma_entry_reads(data, pos + before.len(), name, value, (fields.len() - i + 1) as nat, seen);
        assert(all.take(i as int).drop_last() == all.take(i - 1));
        assert(all.take(i as int).last() == (name, value));
        assert(json::object_of(all.take(i as int)) == json::with_entry(seen, name, value));
    }
}

/// A map written field by field reads back as the object with those names and values.
pub proof fn law_map_reads_back(fields: Seq<(Seq<char>, Seq<u8>)>, values: Seq<Json>, rest: Seq<u8>)
    requires
        are_values(fields, values),
    ensures
        cbor::item_at(email::cbor_map(fields) + rest, 0, 0) == Ok::<(Json, int), Seq<char>>(
            (Json::Object(json::object_of(paired(fields, values))), email::cbor_map(fields).len() as int),
        ),
{
    let data = email::cbor_map(fields) + rest;
    let n = fields.len();
    let h = cbor::head(5, n);
    assert(data.subrange(0, email::cbor_map(fields).len() as int) == email::cbor_map(fields));
    lemma_holds_parts(data, 0, h, email::cbor_fields(fields));
    cbor::lemma_head_round_trip(data, 0, 5, n);
    lemma_fields_read(data, h.len() as int, fields, values, n);
    assert(fields.take(n as int) == fields);
    assert(paired(fields, values).take(n as int) == paired(fields, values));
}

/// The fields that parts with names give, those without a value left out.
pub open spec fn written(parts: Seq<(Seq<char>, Option<Seq<u8>>)>) -> Seq<(Seq<char>, Seq<u8>)>
    decreases parts.len(),
{
    if parts.len() == 0 {
        Seq::empty()
    } else {
        written(parts.drop_last()) + field(parts.last().0, parts.last().1)
    }
}

/// Whether parts have different names.
pub open spec fn named_apart(parts: Seq<(Seq<char>, Option<Seq<u8>>)>) -> bool {
    forall|i: int, j: int| 0 <= i < j < parts.len() ==> (#[trigger] parts[i]).0 != (#[trigger] parts[j]).0
}

/// A name that no part has is in no field.
pub proof fn lemma_parts_lack(parts: Seq<(Seq<char>, Option<Seq<u8>>)>, name: Seq<char>)
    requires
        forall|i: int| 0 <= i < parts.len() ==> (#[trigger] parts[i]).0 != name,
    ensures
        lacks(written(parts), name),
    decreases parts.len(),
{
    if parts.len() > 0 {
        let t = parts.drop_last();
        assert forall|i: int| 0 <= i < t.len() implies (#[trigger] t[i]).0 != name by {
            assert(t[i] == parts[i]);
        }
        lemma_parts_lack(t, name);
        assert(parts[parts.len() - 1].0 != name);
        lemma_field_added(written(t), parts.last().0, parts.last().1, name, None);
    }
}

/// A map made of parts with different names holds each of them under its name.
pub proof fn lemma_parts_held(parts: Seq<(Seq<char>, Option<Seq<u8>>)>, i: int)
    requires
        named_apart(parts),
        0 <= i < parts.len(),
    ensures
        holds_only(written(parts), parts[i].0, parts[i].1),
    decreases parts.len(),
{
    let t = parts.drop_last();
    let (name, value) = parts.last();
    assert(forall|k: int| 0 <= k < t.len() ==> #[trigger] t[k] == parts[k]);
    assert(parts[parts.len() - 1] == (name, value));
    if i == t.len() {
        assert forall|k: int| 0 <= k < t.len() implies (#[trigger] t[k]).0 != name by {
            assert(t[k] == parts[k]);
            assert(parts[k].0 != parts[parts.len() - 1].0);
        }
        lemma_parts_lack(t, name);
        lemma_field_added(written(t), name, value, name, value);
    } else {
        assert(named_apart(t)) by {
            assert forall|a: int, b: int| 0 <= a < b < t.len() implies (#[trigger] t[a]).0 != (#[trigger] t[b]).0 by {
                assert(t[a] == parts[a] && t[b] == parts[b]);
            }
        }
        lemma_parts_held(t, i);
        assert(parts[i].0 != parts[parts.len() - 1].0);
        lemma_field_added(written(t), name, value, parts[i].0, parts[i].1);
    }
}

/// Parts that all have a value are written one field each.
pub proof fn lemma_whole_parts(parts: Seq<(Seq<char>, Option<Seq<u8>>)>)
    requires
        forall|i: int| 0 <= i < parts.len() ==> (#[trigger] parts[i]).1 is Some,
    ensures
        written(parts).len() == parts.len(),
        forall|i: int|
            0 <= i < parts.len() ==> #[trigger] written(parts)[i] == (parts[i].0, parts[i].1->0),
    decreases parts.len(),
{
    if parts.len() > 0 {
        let t = parts.drop_last();
        assert(forall|i: int| 0 <= i < t.len() ==> #[trigger] t[i] == parts[i]);
        lemma_whole_parts(t);
        assert(parts[parts.len() - 1].1 is Some);
    }
}


/// Fields with different names are each held under their name.
pub proof fn lemma_fields_held(fields: Seq<(Seq<char>, Seq<u8>)>, i: int)
    requires
        forall|a: int, b: int| 0 <= a < b < fields.len() ==> (#[trigger] fields[a]).0 != (#[trigger] fields[b]).0,
        0 <= i < fields.len(),
    ensures
        holds_only(fields, fields[i].0, Some(fields[i].1)),
{
    let (name, value) = fields[i];
    assert forall|v: Seq<u8>| #[trigger] fields.contains((name, v)) <==> Some(value) == Some(v) by {
        if fields.contains((name, v)) {
            let k = choose|k: int| 0 <= k < fields.len() && fields[k] == (name, v);
            if k < i {
                assert(fields[k].0 != fields[i].0);
            } else if i < k {
                assert(fields[i].0 != fields[k].0);
            }
        }
        if v == value {
            assert(fields[i] == (name, v));
        }
    }
}

/// A list of numbers is written as its numbers in order, behind how many they are.
pub proof fn law_numbers_stand_in_a_list(a: Seq<u8>, b: Seq<u8>, x: u8, rest: Seq<u8>)
    ensures
        numbers(a + b) == numbers(a) + numbers(b),
        cbor::item_at(numbers(seq![x]) + rest, 0, 0) == Ok::<(Json, int), Seq<char>>(
            (Json::PosInt(x as u64), numbers(seq![x]).len() as int),
        ),
        numbers_item(a) == cbor::head(4, a.len()) + numbers(a),
    decreases b.len(),
{
    reveal_with_fuel(numbers, 2);
    assert(seq![x].drop_last().len() == 0);
    assert(Seq::<u8>::empty() + cbor::head(0, x as nat) == cbor::head(0, x as nat));
    cbor::law_json_cbor_json(Json::PosInt(x as u64), rest);
    if b.len() == 0 {
        assert(a + b == a);
        assert(numbers(a) + numbers(b) == numbers(a));
    } else {
        law_numbers_stand_in_a_list(a, b.drop_last(), x, rest);
        assert((a + b).drop_last() == a + b.drop_last());
        assert((a + b).last() == b.last());
        assert(numbers(a) + numbers(b.drop_last()) + cbor::head(0, b.last() as nat) == numbers(a) + (numbers(
            b.drop_last(),
        ) + cbor::head(0, b.last() as nat)));
    }
}

} // verus!
