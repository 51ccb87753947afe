//! CBOR (RFC 8949) as the wire form of JSON values.
//!
//! Supported are unsigned and negative integers, byte strings (read as arrays
//! of integers), text strings, arrays, maps, the simple values and binary64
//! numbers. Nothing of indefinite length is.
use vstd::prelude::*;
use vstd::utf8::*;
use crate::json;
use crate::json::{insert_entry, Json, JsonValue};
use crate::text;

verus! {

/// How deep items may be nested.
pub const MAX_CBOR_DEPTH: usize = 32;

/// How many elements an array or a map may have.
pub const MAX_CBOR_ELEMENTS: u64 = 100_000;

// ---------------------------------------------------------------------------
// What bytes stand for
// ---------------------------------------------------------------------------

/// The argument of an item head whose first byte has the low bits `info` and
/// ends at `pos`: the argument and where it ends, or why there is none.
pub open spec fn arg_at(data: Seq<u8>, pos: int, info: u8) -> Result<(u64, int), Seq<char>> {
    if info <= 23 {
        Ok((info as u64, pos))
    } else if info == 24 {
        sized_arg_at(data, pos, 1, "Truncated 1-byte arg"@)
    } else if info == 25 {
        sized_arg_at(data, pos, 2, "Truncated 2-byte arg"@)
    } else if info == 26 {
        sized_arg_at(data, pos, 4, "Truncated 4-byte arg"@)
    } else if info == 27 {
        sized_arg_at(data, pos, 8, "Truncated 8-byte arg"@)
    } else if info == 31 {
        Err("Indefinite-length CBOR not supported"@)
    } else {
        Err("Reserved CBOR additional info: "@ + text::dec(info as nat))
    }
}

/// An argument of `n` bytes at `pos`, or `truncated` if the data end before.
pub open spec fn sized_arg_at(data: Seq<u8>, pos: int, n: int, truncated: Seq<char>) -> Result<
    (u64, int),
    Seq<char>,
> {
    if pos + n > data.len() {
        Err(truncated)
    } else {
        Ok((text::be_value(data.subrange(pos, pos + n)) as u64, pos + n))
    }
}

/// The negative integer with argument `arg`, which is one less than the
/// negated argument, or why there is none: it must fit 64 bits.
pub open spec fn negative(arg: u64) -> Result<Json, Seq<char>> {
    if arg < 0x8000_0000_0000_0000 {
        Ok(Json::NegInt((-1 - arg) as i64))
    } else {
        Err("Negative integer out of range: -1 - "@ + text::dec(arg as nat))
    }
}

/// Bytes as an array of integers.
pub open spec fn byte_items(b: Seq<u8>) -> Seq<Json> {
    Seq::new(b.len(), |i: int| Json::PosInt(b[i] as u64))
}

/// How a number that is not finite is written.
pub open spec fn non_finite_text(bits: u64) -> Seq<char> {
    if bits == 0x7ff0_0000_0000_0000 {
        "inf"@
    } else if bits == 0xfff0_0000_0000_0000 {
        "-inf"@
    } else {
        "NaN"@
    }
}

/// What `std::str::from_utf8` says of bytes that are not UTF-8.
pub uninterp spec fn utf8_error_text(b: Seq<u8>) -> Seq<char>;

/// The text of bytes, or why they are not text.
pub open spec fn text_of(b: Seq<u8>) -> Result<Seq<char>, Seq<char>> {
    if valid_utf8(b) {
        Ok(decode_utf8(b))
    } else {
        Err(utf8_error_text(b))
    }
}

/// The text that a decoded map key stands for: strings and numbers have one.
pub open spec fn key_of(key: Json) -> Result<Seq<char>, Seq<char>> {
    match key {
        Json::Str(s) => Ok(s),
        Json::PosInt(_) | Json::NegInt(_) | Json::Float(_) => Ok(json::number_text(key)),
        _ => Err("Non-string map key: "@ + json::debug_text(key)),
    }
}

/// The item at `pos`, `depth` levels inside others, and where it ends; or why
/// there is none.
pub open spec fn item_at(data: Seq<u8>, pos: int, depth: int) -> Result<(Json, int), Seq<char>>
    decreases MAX_CBOR_DEPTH + 1 - depth, 0nat, 0nat,
{
    if depth > MAX_CBOR_DEPTH {
        Err("CBOR nesting too deep (>32 levels)"@)
    } else if pos >= data.len() {
        Err("Unexpected end of CBOR data"@)
    } else {
        let initial = data[pos];
        let major = initial / 32;
        match arg_at(data, pos + 1, (initial % 32) as u8) {
            Err(e) => Err(e),
            Ok((arg, at)) => if major == 0 {
                Ok((Json::PosInt(arg), at))
            } else if major == 1 {
                match negative(arg) {
                    Ok(v) => Ok((v, at)),
                    Err(e) => Err(e),
                }
            } else if major == 2 {
                if at + arg > data.len() {
                    Err(
                        "Byte string length "@ + text::dec(arg as nat) + " exceeds data at pos "@
                            + text::dec(at as nat),
                    )
                } else {
                    Ok((Json::Array(byte_items(data.subrange(at, at + arg))), at + arg))
                }
            } else if major == 3 {
                if at + arg > data.len() {
                    Err(
                        "Text string length "@ + text::dec(arg as nat) + " exceeds data at pos "@
                            + text::dec(at as nat),
                    )
                } else {
                    match text_of(data.subrange(at, at + arg)) {
                        Ok(s) => Ok((Json::Str(s), at + arg)),
                        Err(e) => Err("Invalid UTF-8 in text string: "@ + e),
                    }
                }
            } else if major == 4 {
                if arg > MAX_CBOR_ELEMENTS {
                    Err("CBOR array too large: "@ + text::dec(arg as nat) + " elements"@)
                } else {
                    match items_at(data, at, depth + 1, arg as nat, Seq::empty()) {
                        Ok((a, end)) => Ok((Json::Array(a), end)),
                        Err(e) => Err(e),
                    }
                }
            } else if major == 5 {
                if arg > MAX_CBOR_ELEMENTS {
                    Err("CBOR map too large: "@ + text::dec(arg as nat) + " entries"@)
                } else {
                    match entries_at(data, at, depth + 1, arg as nat, Seq::empty()) {
                        Ok((o, end)) => Ok((Json::Object(o), end)),
                        Err(e) => Err(e),
                    }
                }
            } else if major == 7 {
                simple(initial, arg, at)
            } else {
                Err("Unknown CBOR major type: "@ + text::dec(major as nat))
            },
        }
    }
}

/// The simple value or fractional number with the given first byte and
/// argument.
pub open spec fn simple(initial: u8, arg: u64, at: int) -> Result<(Json, int), Seq<char>> {
    if initial == 0xf4 {
        Ok((Json::Bool(false), at))
    } else if initial == 0xf5 {
        Ok((Json::Bool(true), at))
    } else if initial == 0xf6 || initial == 0xf7 {
        Ok((Json::Null, at))
    } else if initial == 0xfb {
        if json::is_finite(arg) {
            Ok((Json::Float(arg), at))
        } else {
            Err("Cannot represent float "@ + non_finite_text(arg) + " as JSON number"@)
        }
    } else {
        Err("Unknown CBOR simple value: 0x"@ + text::hex_text(seq![initial]))
    }
}

/// `seen` followed by the `count` items from `pos` on.
pub open spec fn items_at(
    data: Seq<u8>,
    pos: int,
    depth: int,
    count: nat,
    seen: Seq<Json>,
) -> Result<(Seq<Json>, int), Seq<char>>
    decreases MAX_CBOR_DEPTH + 1 - depth, 1nat, count,
{
    if count == 0 {
        Ok((seen, pos))
    } else {
        match item_at(data, pos, depth) {
            Err(e) => Err(e),
            Ok((item, next)) => items_at(data, next, depth, (count - 1) as nat, seen.push(item)),
        }
    }
}

/// `seen` with the `count` entries from `pos` on mapped into it, in turn.
pub open spec fn entries_at(
    data: Seq<u8>,
    pos: int,
    depth: int,
    count: nat,
    seen: Seq<(Seq<char>, Json)>,
) -> Result<(Seq<(Seq<char>, Json)>, int), Seq<char>>
    decreases MAX_CBOR_DEPTH + 1 - depth, 1nat, count,
{
    if count == 0 {
        Ok((seen, pos))
    } else {
        match item_at(data, pos, depth) {
            Err(e) => Err(e),
            Ok((key, at)) => match item_at(data, at, depth) {
                Err(e) => Err(e),
                Ok((value, next)) => match key_of(key) {
                    Err(e) => Err(e),
                    Ok(k) => entries_at(
                        data,
                        next,
                        depth,
                        (count - 1) as nat,
                        json::with_entry(seen, k, value),
                    ),
                },
            },
        }
    }
}

// ---------------------------------------------------------------------------
// Reading
// ---------------------------------------------------------------------------

/// `std::str::from_utf8`: the text of UTF-8 bytes, and an error for others.
#[verifier::external_body]
fn utf8_string(b: &[u8]) -> (r: Result<String, String>)
    ensures
        r is Ok <==> valid_utf8(b@),
        r matches Ok(s) ==> s@ == decode_utf8(b@),
        r matches Err(e) ==> e@ == utf8_error_text(b@),
{
    match std::str::from_utf8(b) {
        Ok(s) => Ok(s.to_string()),
        Err(e) => Err(e.to_string()),
    }
}

/// Whether an outcome of reading is the one that the data prescribe.
pub open spec fn reads_as<T: View>(
    r: Result<(T, usize), String>,
    e: Result<(T::V, int), Seq<char>>,
) -> bool {
    match r {
        Ok((v, end)) => e == Ok::<(T::V, int), Seq<char>>((v@, end as int)),
        Err(m) => e == Err::<(T::V, int), Seq<char>>(m@),
    }
}

/// Reads the value that `data` begin with. Bytes behind it are ignored.
pub fn cbor_to_json(data: &[u8]) -> (r: Result<JsonValue, String>)
    ensures
        match item_at(data@, 0, 0) {
            Ok((v, _)) => r matches Ok(got) && got@ == v && json::valid(v),
            Err(e) => r matches Err(m) && m@ == e,
        },
{
    match decode_item(data, 0, 0) {
        Ok((value, _)) => Ok(value),
        Err(e) => Err(e),
    }
}

/// Reads the argument of an item head: its value and where it ends.
pub fn decode_arg(data: &[u8], pos: usize, info: u8) -> (r: Result<(u64, usize), String>)
    ensures
        match arg_at(data@, pos as int, info) {
            Ok((arg, end)) => r matches Ok((a, p)) && a == arg && p == end,
            Err(e) => r matches Err(m) && m@ == e,
        },
        r is Ok && pos <= data@.len() ==> pos <= r->Ok_0.1 <= data@.len(),
{
    if info <= 23 {
        Ok((info as u64, pos))
    } else if info == 24 {
        sized_arg(data, pos, 1, "Truncated 1-byte arg")
    } else if info == 25 {
        sized_arg(data, pos, 2, "Truncated 2-byte arg")
    } else if info == 26 {
        sized_arg(data, pos, 4, "Truncated 4-byte arg")
    } else if info == 27 {
        sized_arg(data, pos, 8, "Truncated 8-byte arg")
    } else if info == 31 {
        Err(String::from_str("Indefinite-length CBOR not supported"))
    } else {
        let mut m = String::from_str("Reserved CBOR additional info: ");
        text::push_dec(&mut m, info as u64);
        Err(m)
    }
}

fn sized_arg(data: &[u8], pos: usize, n: usize, truncated: &str) -> (r: Result<
    (u64, usize),
    String,
>)
    requires
        n <= 8,
    ensures
        match sized_arg_at(data@, pos as int, n as int, truncated@) {
            Ok((arg, end)) => r matches Ok((a, p)) && a == arg && p == end,
            Err(e) => r matches Err(m) && m@ == e,
        },
        r matches Ok((_, p)) ==> pos <= p <= data@.len(),
{
    if pos > data.len() || n > data.len() - pos {
        return Err(String::from_str(truncated));
    }
    let v: u64 = text::read_be(data, pos, n);
    Ok((v, pos + n))
}

/// The message for a string that is longer than the data.
fn too_long(what: &str, arg: u64, pos: usize) -> (r: String)
    ensures
        r@ == what@ + text::dec(arg as nat) + " exceeds data at pos "@ + text::dec(pos as nat),
{
    let mut m = String::from_str(what);
    text::push_dec(&mut m, arg);
    m.append(" exceeds data at pos ");
    text::push_dec(&mut m, pos as u64);
    m
}

/// Reads the item at `pos`, `depth` levels inside others: its value and where
/// it ends.
pub fn decode_item(data: &[u8], pos: usize, depth: usize) -> (r: Result<(JsonValue, usize), String>)
    ensures
        reads_as(r, item_at(data@, pos as int, depth as int)),
        r matches Ok((v, end)) ==> json::valid(v@) && pos < end <= data@.len(),
    decreases MAX_CBOR_DEPTH + 1 - depth, 1nat,
{
    if depth > MAX_CBOR_DEPTH {
        return Err(String::from_str("CBOR nesting too deep (>32 levels)"));
    }
    if pos >= data.len() {
        return Err(String::from_str("Unexpected end of CBOR data"));
    }
    let initial: u8 = data[pos];
    let major: u8 = initial / 32;
    let info: u8 = initial % 32;
    let (arg, at): (u64, usize) = match decode_arg(data, pos + 1, info) {
        Ok(a) => a,
        Err(e) => {
            return Err(e);
        },
    };
    if major == 0 {
        Ok((JsonValue::PosInt(arg), at))
    } else if major == 1 {
        if arg < 0x8000_0000_0000_0000 {
            Ok((JsonValue::NegInt(-1 - (arg as i64)), at))
        } else {
            let mut m = String::from_str("Negative integer out of range: -1 - ");
            text::push_dec(&mut m, arg);
            Err(m)
        }
    } else if major == 2 {
        if arg > (data.len() - at) as u64 {
            return Err(too_long("Byte string length ", arg, at));
        }
        let end: usize = at + arg as usize;
        let items = byte_array(data, at, end);
        Ok((JsonValue::Array(items), end))
    } else if major == 3 {
        if arg > (data.len() - at) as u64 {
            return Err(too_long("Text string length ", arg, at));
        }
        let end: usize = at + arg as usize;
        match utf8_string(vstd::slice::slice_subrange(data, at, end)) {
            Ok(s) => Ok((JsonValue::Str(s), end)),
            Err(e) => {
                let mut m = String::from_str("Invalid UTF-8 in text string: ");
                m.append(e.as_str());
                Err(m)
            },
        }
    } else if major == 4 {
        if arg > MAX_CBOR_ELEMENTS {
            let mut m = String::from_str("CBOR array too large: ");
            text::push_dec(&mut m, arg);
            m.append(" elements");
            return Err(m);
        }
        decode_array(data, at, depth, arg)
    } else if major == 5 {
        if arg > MAX_CBOR_ELEMENTS {
            let mut m = String::from_str("CBOR map too large: ");
            text::push_dec(&mut m, arg);
            m.append(" entries");
            return Err(m);
        }
        decode_map(data, at, depth, arg)
    } else if major == 7 {
        decode_simple(initial, arg, at)
    } else {
        let mut m = String::from_str("Unknown CBOR major type: ");
        text::push_dec(&mut m, major as u64);
        Err(m)
    }
}

/// The bytes `data[from..to]` as integers.
fn byte_array(data: &[u8], from: usize, to: usize) -> (r: Vec<JsonValue>)
    requires
        from <= to <= data@.len(),
    ensures
        JsonValue::Array(r)@ == Json::Array(byte_items(data@.subrange(from as int, to as int))),
        json::valid(JsonValue::Array(r)@),
{
    let mut items: Vec<JsonValue> = Vec::new();
    let mut i: usize = from;
    while i < to
        invariant
            from <= i <= to <= data@.len(),
            items@.len() == i - from,
            forall|k: int| 0 <= k < i - from ==> (#[trigger] items@[k])@ == Json::PosInt(data@[from + k] as u64),
        decreases to - i,
    {
        items.push(JsonValue::PosInt(data[i] as u64));
        i = i + 1;
    }
    proof {
        json::lemma_array_view(items);
        let b = data@.subrange(from as int, to as int);
        assert(json::items_view(items@) == byte_items(b));
        assert forall|k: int| 0 <= k < b.len() implies json::valid(#[trigger] byte_items(b)[k]) by {}
    }
    items
}

/// Reads `count` items from `pos` on as an array.
fn decode_array(data: &[u8], pos: usize, depth: usize, count: u64) -> (r: Result<
    (JsonValue, usize),
    String,
>)
    requires
        depth <= MAX_CBOR_DEPTH,
        pos <= data@.len(),
    ensures
        match items_at(data@, pos as int, depth + 1, count as nat, Seq::empty()) {
            Ok((a, end)) => r matches Ok((v, p)) && v@ == Json::Array(a) && p == end && json::valid(v@)
                && pos <= p <= data@.len(),
            Err(e) => r matches Err(m) && m@ == e,
        },
    decreases MAX_CBOR_DEPTH + 1 - depth, 0nat,
{
    let mut items: Vec<JsonValue> = Vec::new();
    let mut p: usize = pos;
    let mut left: u64 = count;
    assert(json::items_view(items@) == Seq::<Json>::empty());
    while left > 0
        invariant
            depth <= MAX_CBOR_DEPTH,
            pos <= p <= data@.len(),
            items_at(data@, pos as int, depth + 1, count as nat, Seq::empty()) == items_at(
                data@,
                p as int,
                depth + 1,
                left as nat,
                json::items_view(items@),
            ),
            forall|i: int| 0 <= i < items@.len() ==> json::valid((#[trigger] items@[i])@),
        decreases left,
    {
        let ghost before = json::items_view(items@);
        match decode_item(data, p, depth + 1) {
            Ok((item, next)) => {
                let ghost v = item@;
                items.push(item);
                p = next;
                assert(json::items_view(items@) == before.push(v));
            },
            Err(e) => {
                return Err(e);
            },
        }
        left = left - 1;
    }
    proof {
        json::lemma_array_view(items);
        assert forall|i: int| 0 <= i < items@.len() implies json::valid(
            #[trigger] json::items_view(items@)[i],
        ) by {
            assert(json::valid(items@[i]@));
        }
    }
    Ok((JsonValue::Array(items), p))
}

/// Reads `count` entries from `pos` on as an object.
fn decode_map(data: &[u8], pos: usize, depth: usize, count: u64) -> (r: Result<
    (JsonValue, usize),
    String,
>)
    requires
        depth <= MAX_CBOR_DEPTH,
        pos <= data@.len(),
    ensures
        match entries_at(data@, pos as int, depth + 1, count as nat, Seq::empty()) {
            Ok((o, end)) => r matches Ok((v, p)) && v@ == Json::Object(o) && p == end && json::valid(v@)
                && pos <= p <= data@.len(),
            Err(e) => r matches Err(m) && m@ == e,
        },
    decreases MAX_CBOR_DEPTH + 1 - depth, 0nat,
{
    let mut entries: Vec<(String, JsonValue)> = Vec::new();
    let mut p: usize = pos;
    let mut left: u64 = count;
    assert(json::entries_view(entries@) == Seq::<(Seq<char>, Json)>::empty());
    while left > 0
        invariant
            depth <= MAX_CBOR_DEPTH,
            pos <= p <= data@.len(),
            entries_at(data@, pos as int, depth + 1, count as nat, Seq::empty()) == entries_at(
                data@,
                p as int,
                depth + 1,
                left as nat,
                json::entries_view(entries@),
            ),
            json::valid(Json::Object(json::entries_view(entries@))),
        decreases left,
    {
        let ghost before = json::entries_view(entries@);
        let (key, at): (JsonValue, usize) = match decode_item(data, p, depth + 1) {
            Ok(k) => k,
            Err(e) => {
                return Err(e);
            },
        };
        let (value, next): (JsonValue, usize) = match decode_item(data, at, depth + 1) {
            Ok(v) => v,
            Err(e) => {
                return Err(e);
            },
        };
        let name = match key_text(key) {
            Ok(k) => k,
            Err(e) => {
                return Err(e);
            },
        };
        proof {
            json::lemma_with_entry_valid(before, name@, value@);
        }
        insert_entry(&mut entries, name, value);
        p = next;
        left = left - 1;
    }
    proof {
        json::lemma_object_view(entries);
    }
    Ok((JsonValue::Object(entries), p))
}

/// The text that a decoded map key stands for.
fn key_text(key: JsonValue) -> (r: Result<String, String>)
    requires
        json::valid(key@),
    ensures
        match key_of(key@) {
            Ok(k) => r matches Ok(s) && s@ == k,
            Err(e) => r matches Err(m) && m@ == e,
        },
{
    match key {
        JsonValue::Str(s) => Ok(s),
        JsonValue::PosInt(_) | JsonValue::NegInt(_) | JsonValue::Float(_) => Ok(
            key.number_string(),
        ),
        _ => {
            let mut m = String::from_str("Non-string map key: ");
            m.append(key.debug_string().as_str());
            Err(m)
        },
    }
}

/// The simple value or fractional number with the given first byte and
/// argument.
fn decode_simple(initial: u8, arg: u64, at: usize) -> (r: Result<(JsonValue, usize), String>)
    ensures
        reads_as(r, simple(initial, arg, at as int)),
        r matches Ok((v, p)) ==> json::valid(v@) && p == at,
{
    if initial == 0xf4 {
        Ok((JsonValue::Bool(false), at))
    } else if initial == 0xf5 {
        Ok((JsonValue::Bool(true), at))
    } else if initial == 0xf6 || initial == 0xf7 {
        Ok((JsonValue::Null, at))
    } else if initial == 0xfb {
        if (arg / 0x10_0000_0000_0000) % 0x800 != 0x7ff {
            Ok((JsonValue::Float(arg), at))
        } else {
            let mut m = String::from_str("Cannot represent float ");
            if arg == 0x7ff0_0000_0000_0000 {
                m.append("inf");
            } else if arg == 0xfff0_0000_0000_0000 {
                m.append("-inf");
            } else {
                m.append("NaN");
            }
            m.append(" as JSON number");
            Err(m)
        }
    } else {
        let mut m = String::from_str("Unknown CBOR simple value: 0x");
        let b: [u8; 1] = [initial];
        m.append(text::hex_encode(b.as_slice()).as_str());
        assert(b@ == seq![initial]);
        Err(m)
    }
}

// ---------------------------------------------------------------------------
// Writing
// ---------------------------------------------------------------------------

/// The shortest item head with a major type and an argument.
pub open spec fn head(major: nat, arg: nat) -> Seq<u8> {
    if arg < 24 {
        seq![(32 * major + arg) as u8]
    } else if arg < 0x100 {
        seq![(32 * major + 24) as u8] + text::be_bytes(arg, 1)
    } else if arg < 0x1_0000 {
        seq![(32 * major + 25) as u8] + text::be_bytes(arg, 2)
    } else if arg < 0x1_0000_0000 {
        seq![(32 * major + 26) as u8] + text::be_bytes(arg, 4)
    } else {
        seq![(32 * major + 27) as u8] + text::be_bytes(arg, 8)
    }
}

/// Whether an array looks like bytes: it has elements, all of them integers up
/// to 255.
pub open spec fn looks_like_bytes(a: Seq<Json>) -> bool {
    a.len() > 0 && forall|i: int|
        0 <= i < a.len() ==> (#[trigger] a[i] matches Json::PosInt(u) && u <= 255)
}

/// The bytes of an array that looks like bytes.
pub open spec fn bytes_of(a: Seq<Json>) -> Seq<u8> {
    Seq::new(a.len(), |i: int| a[i]->PosInt_0 as u8)
}

/// The CBOR form of a text.
pub open spec fn text_item(s: Seq<char>) -> Seq<u8> {
    head(3, encode_utf8(s).len()) + encode_utf8(s)
}

/// The CBOR form of a value. An array that looks like bytes is written as a
/// byte string.
pub open spec fn cbor(j: Json) -> Seq<u8>
    decreases j,
{
    match j {
        Json::Null => seq![0xf6u8],
        Json::Bool(b) => if b {
            seq![0xf5u8]
        } else {
            seq![0xf4u8]
        },
        Json::PosInt(u) => head(0, u as nat),
        Json::NegInt(i) => if i < 0 {
            head(1, (-1 - i) as nat)
        } else {
            head(0, i as nat)
        },
        Json::Float(bits) => seq![0xfbu8] + text::be_bytes(bits as nat, 8),
        Json::Str(s) => text_item(s),
        Json::Array(a) => if looks_like_bytes(a) {
            head(2, a.len()) + bytes_of(a)
        } else {
            head(4, a.len()) + cbor_items(a)
        },
        Json::Object(o) => head(5, o.len()) + cbor_entries(o),
    }
}

/// The CBOR forms of items, one after the other.
pub open spec fn cbor_items(a: Seq<Json>) -> Seq<u8>
    decreases a,
{
    if a.len() == 0 {
        Seq::empty()
    } else {
        cbor_items(a.drop_last()) + cbor(a.last())
    }
}

/// The CBOR forms of entries, each a key and its value, one after the other.
pub open spec fn cbor_entries(o: Seq<(Seq<char>, Json)>) -> Seq<u8>
    decreases o,
{
    if o.len() == 0 {
        Seq::empty()
    } else {
        cbor_entries(o.drop_last()) + (text_item(o.last().0) + cbor(o.last().1))
    }
}

/// Whether every length in a value fits an argument. It does in every value
/// that a machine can hold.
pub open spec fn lengths_fit(j: Json) -> bool
    decreases j,
{
    match j {
        Json::Str(s) => encode_utf8(s).len() <= u64::MAX,
        Json::Array(a) => a.len() <= u64::MAX && forall|i: int|
            0 <= i < a.len() ==> lengths_fit(#[trigger] a[i]),
        Json::Object(o) => o.len() <= u64::MAX && forall|i: int|
            0 <= i < o.len() ==> encode_utf8((#[trigger] o[i]).0).len() <= u64::MAX && lengths_fit(
                o[i].1,
            ),
        _ => true,
    }
}

/// Writes a value.
pub fn json_to_cbor(value: &JsonValue) -> (r: Vec<u8>)
    ensures
        r@ == cbor(value@),
        lengths_fit(value@),
{
    let mut buf: Vec<u8> = Vec::new();
    encode_value(value, &mut buf);
    buf
}

/// Appends an item head.
pub fn encode_head(major: u8, value: u64, buf: &mut Vec<u8>)
    requires
        major < 8,
    ensures
        final(buf)@ == old(buf)@ + head(major as nat, value as nat),
{
    let mt: u8 = major * 32;
    if value < 24 {
        buf.push(mt + value as u8);
    } else if value < 0x100 {
        buf.push(mt + 24);
        text::push_be(buf, value, 1);
    } else if value < 0x10000 {
        buf.push(mt + 25);
        text::push_be(buf, value, 2);
    } else if value < 0x100000000 {
        buf.push(mt + 26);
        text::push_be(buf, value, 4);
    } else {
        buf.push(mt + 27);
        text::push_be(buf, value, 8);
    }
    assert(buf@ == old(buf)@ + head(major as nat, value as nat));
}

/// Appends `b` to `buf`.
pub fn push_bytes(buf: &mut Vec<u8>, b: &[u8])
    ensures
        final(buf)@ == old(buf)@ + b@,
{
    let mut i: usize = 0;
    while i < b.len()
        invariant
            i <= b@.len(),
            buf@ == old(buf)@ + b@.take(i as int),
        decreases b@.len() - i,
    {
        buf.push(b[i]);
        i = i + 1;
        assert(b@.take(i as int) == b@.take(i - 1).push(b@[i - 1]));
    }
    assert(b@.take(i as int) == b@);
}

/// Appends the CBOR form of a text.
pub fn encode_text(s: &str, buf: &mut Vec<u8>)
    ensures
        final(buf)@ == old(buf)@ + text_item(s@),
        encode_utf8(s@).len() <= u64::MAX,
{
    let bytes = s.as_bytes();
    encode_head(3, bytes.len() as u64, buf);
    push_bytes(buf, bytes);
    assert(buf@ == old(buf)@ + text_item(s@));
}

/// Whether an array looks like bytes.
pub fn is_byte_array(arr: &Vec<JsonValue>) -> (r: bool)
    ensures
        r == looks_like_bytes(json::items_view(arr@)),
{
    let ghost a = json::items_view(arr@);
    if arr.len() == 0 {
        return false;
    }
    let mut i: usize = 0;
    while i < arr.len()
        invariant
            i <= arr@.len(),
            arr@.len() > 0,
            a == json::items_view(arr@),
            forall|k: int| 0 <= k < i ==> (#[trigger] a[k] matches Json::PosInt(u) && u <= 255),
        decreases arr@.len() - i,
    {
        assert(a[i as int] == arr@[i as int]@);
        match &arr[i] {
            JsonValue::PosInt(u) => {
                if *u > 255 {
                    return false;
                }
            },
            _ => {
                return false;
            },
        }
        i = i + 1;
    }
    true
}

/// Appends the CBOR form of a value.
pub fn encode_value(value: &JsonValue, buf: &mut Vec<u8>)
    ensures
        final(buf)@ == old(buf)@ + cbor(value@),
        lengths_fit(value@),
    decreases value,
{
    match value {
        JsonValue::Null => buf.push(0xf6),
        JsonValue::Bool(b) => if *b {
            buf.push(0xf5)
        } else {
            buf.push(0xf4)
        },
        JsonValue::PosInt(u) => encode_head(0, *u, buf),
        JsonValue::NegInt(i) => if *i < 0 {
            encode_head(1, (-1 - *i) as u64, buf)
        } else {
            encode_head(0, *i as u64, buf)
        },
        JsonValue::Float(bits) => {
            buf.push(0xfb);
            text::push_be(buf, *bits, 8);
            assert(buf@ == old(buf)@ + cbor(value@));
        },
        JsonValue::Str(s) => encode_text(s.as_str(), buf),
        JsonValue::Array(arr) => {
            proof {
                json::lemma_array_view(*arr);
            }
            if is_byte_array(arr) {
                encode_byte_string(arr, buf);
                assert(arr.len() <= u64::MAX);
                assert forall|k: int| 0 <= k < arr@.len() implies lengths_fit(
                    #[trigger] json::items_view(arr@)[k],
                ) by {
                    assert(json::items_view(arr@)[k] is PosInt);
                }
                assert(lengths_fit(value@));
            } else {
                encode_head(4, arr.len() as u64, buf);
                let ghost start = buf@;
                let ghost a = json::items_view(arr@);
                let mut i: usize = 0;
                assert(cbor_items(a.take(0)) == Seq::<u8>::empty());
                while i < arr.len()
                    invariant
                        i <= arr@.len(),
                        a == json::items_view(arr@),
                        buf@ == start + cbor_items(a.take(i as int)),
                        forall|k: int| 0 <= k < i ==> lengths_fit(#[trigger] a[k]),
                        decreases_to!(value => arr@),
                    decreases arr@.len() - i,
                {
                    encode_value(&arr[i], buf);
                    i = i + 1;
                    proof {
                        assert(a.take(i as int).drop_last() == a.take(i - 1));
                        assert(a.take(i as int).last() == arr@[i - 1]@);
                        assert(buf@ == start + cbor_items(a.take(i as int)));
                    }
                }
                assert(a.take(i as int) == a);
                assert(buf@ == old(buf)@ + cbor(value@));
                assert(lengths_fit(value@));
            }
        },
        JsonValue::Object(map) => {
            proof {
                json::lemma_object_view(*map);
            }
            encode_head(5, map.len() as u64, buf);
            let ghost start = buf@;
            let ghost o = json::entries_view(map@);
            let mut i: usize = 0;
            assert(cbor_entries(o.take(0)) == Seq::<u8>::empty());
            while i < map.len()
                invariant
                    i <= map@.len(),
                    o == json::entries_view(map@),
                    buf@ == start + cbor_entries(o.take(i as int)),
                    forall|k: int|
                        0 <= k < i ==> encode_utf8((#[trigger] o[k]).0).len() <= u64::MAX && lengths_fit(
                            o[k].1,
                        ),
                    decreases_to!(value => map@),
                decreases map@.len() - i,
            {
                let e = &map[i];
                encode_text(e.0.as_str(), buf);
                encode_value(&e.1, buf);
                i = i + 1;
                proof {
                    assert(o.take(i as int).drop_last() == o.take(i - 1));
                    assert(o.take(i as int).last() == o[i - 1]);
                    assert(buf@ == start + cbor_entries(o.take(i as int)));
                }
            }
            assert(o.take(i as int) == o);
            assert(buf@ == old(buf)@ + cbor(value@));
            assert(lengths_fit(value@));
        },
    }
}

/// Appends an array that looks like bytes, as a byte string.
fn encode_byte_string(arr: &Vec<JsonValue>, buf: &mut Vec<u8>)
    requires
        looks_like_bytes(json::items_view(arr@)),
    ensures
        final(buf)@ == old(buf)@ + (head(2, arr@.len()) + bytes_of(json::items_view(arr@))),
{
    let ghost a = json::items_view(arr@);
    encode_head(2, arr.len() as u64, buf);
    let ghost start = buf@;
    let mut i: usize = 0;
    assert(bytes_of(a).take(0) == Seq::<u8>::empty());
    while i < arr.len()
        invariant
            i <= arr@.len(),
            a == json::items_view(arr@),
            looks_like_bytes(a),
            buf@ == start + bytes_of(a).take(i as int),
        decreases arr@.len() - i,
    {
        assert(a[i as int] == arr@[i as int]@);
        match &arr[i] {
            JsonValue::PosInt(u) => buf.push(*u as u8),
            _ => {},
        }
        i = i + 1;
        assert(bytes_of(a).take(i as int) == bytes_of(a).take(i - 1).push(bytes_of(a)[i - 1]));
    }
    assert(bytes_of(a).take(i as int) == bytes_of(a));
    assert(buf@ == old(buf)@ + (head(2, arr@.len()) + bytes_of(a)));
}

// ---------------------------------------------------------------------------
// Laws
// ---------------------------------------------------------------------------

/// Whether a value keeps to the limits of reading with `levels` levels left:
/// nesting, the number of elements, and lengths that fit an argument. Arrays
/// that look like bytes are not nested.
pub open spec fn within_limits(j: Json, levels: int) -> bool
    decreases j,
{
    levels >= 0 && match j {
        Json::Str(s) => encode_utf8(s).len() <= u64::MAX,
        Json::Array(a) => if looks_like_bytes(a) {
            a.len() <= u64::MAX
        } else {
            a.len() <= MAX_CBOR_ELEMENTS && forall|i: int|
                0 <= i < a.len() ==> within_limits(#[trigger] a[i], levels - 1)
        },
        Json::Object(o) => o.len() <= MAX_CBOR_ELEMENTS && forall|i: int|
            0 <= i < o.len() ==> encode_utf8((#[trigger] o[i]).0).len() <= u64::MAX
                && within_limits(o[i].1, levels - 1),
        _ => true,
    }
}

/// Whether `data` hold `part` at `pos`.
pub open spec fn holds_at(data: Seq<u8>, pos: int, part: Seq<u8>) -> bool {
    0 <= pos && pos + part.len() <= data.len() && data.subrange(pos, pos + part.len()) == part
}

proof fn lemma_holds_parts(data: Seq<u8>, pos: int, a: Seq<u8>, b: Seq<u8>)
    requires
        holds_at(data, pos, a + b),
    ensures
        holds_at(data, pos, a),
        holds_at(data, pos + a.len(), b),
{
    let whole = data.subrange(pos, pos + (a + b).len());
    assert(whole.subrange(0, a.len() as int) == a);
    assert(whole.subrange(a.len() as int, (a + b).len() as int) == b);
    assert(data.subrange(pos, pos + a.len()) == whole.subrange(0, a.len() as int));
    assert(data.subrange(pos + a.len(), pos + a.len() + b.len()) == whole.subrange(
        a.len() as int,
        (a + b).len() as int,
    ));
}

/// Reading an item head gives back its major type and argument.
pub proof fn lemma_head_round_trip(data: Seq<u8>, pos: int, major: nat, arg: nat)
    requires
        major < 8,
        arg <= u64::MAX,
        holds_at(data, pos, head(major, arg)),
    ensures
        head(major, arg).len() > 0,
        data[pos] / 32 == major,
        arg_at(data, pos + 1, (data[pos] % 32) as u8) == Ok::<(u64, int), Seq<char>>(
            (arg as u64, pos + head(major, arg).len()),
        ),
{
    text::lemma_byte_ranges();
    let h = head(major, arg);
    let n: nat = if arg < 24 {
        0
    } else if arg < 0x100 {
        1
    } else if arg < 0x1_0000 {
        2
    } else if arg < 0x1_0000_0000 {
        4
    } else {
        8
    };
    text::lemma_be_bytes_len(arg, n);
    assert(data.subrange(pos, pos + h.len())[0] == h[0]);
    assert(data[pos] == h[0]);
    if n > 0 {
        let first = seq![h[0]];
        assert(h == first + text::be_bytes(arg, n));
        lemma_holds_parts(data, pos, first, text::be_bytes(arg, n));
        text::lemma_be_round_trip(arg, n);
    }
}

proof fn lemma_text_item(data: Seq<u8>, pos: int, s: Seq<char>, depth: int)
    requires
        depth <= MAX_CBOR_DEPTH,
        encode_utf8(s).len() <= u64::MAX,
        holds_at(data, pos, text_item(s)),
    ensures
        item_at(data, pos, depth) == Ok::<(Json, int), Seq<char>>(
            (Json::Str(s), pos + text_item(s).len()),
        ),
        text_item(s).len() > 0,
{
    let b = encode_utf8(s);
    lemma_holds_parts(data, pos, head(3, b.len()), b);
    lemma_head_round_trip(data, pos, 3, b.len());
    encode_utf8_valid_utf8(s);
    encode_utf8_decode_utf8(s);
}

proof fn lemma_items(data: Seq<u8>, pos: int, a: Seq<Json>, depth: int, i: nat)
    requires
        i <= a.len(),
        holds_at(data, pos, cbor_items(a)),
        forall|k: int| 0 <= k < a.len() ==> json::valid(#[trigger] a[k]) && within_limits(
            a[k],
            MAX_CBOR_DEPTH - depth,
        ),
        depth >= 0,
    ensures
        cbor_items(a.take(i as int)).len() <= cbor_items(a).len(),
        items_at(data, pos, depth, a.len(), Seq::empty()) == items_at(
            data,
            pos + cbor_items(a.take(i as int)).len(),
            depth,
            (a.len() - i) as nat,
            a.take(i as int),
        ),
    decreases a, 1nat, i,
{
    if i == 0 {
        assert(a.take(0) == Seq::<Json>::empty());
    } else {
        lemma_items(data, pos, a, depth, (i - 1) as nat);
        let x = a[i - 1];
        let before = cbor_items(a.take(i - 1));
        assert(a.take(i as int).drop_last() == a.take(i - 1));
        assert(a.take(i as int).last() == x);
        lemma_items_prefix(a, i as int);
        let rest = choose|rest: Seq<u8>| cbor_items(a) == cbor_items(a.take(i as int)) + rest;
        lemma_holds_parts(data, pos, cbor_items(a.take(i as int)), rest);
        lemma_holds_parts(data, pos, before, cbor(x));
        assert(json::valid(x) && within_limits(x, MAX_CBOR_DEPTH - depth));
        lemma_item(data, pos + before.len(), x, depth);
        assert(a.take(i - 1).push(x) == a.take(i as int));
    }
}

proof fn lemma_items_prefix(a: Seq<Json>, i: int)
    requires
        0 <= i <= a.len(),
    ensures
        exists|rest: Seq<u8>| cbor_items(a) == cbor_items(a.take(i)) + rest,
    decreases a.len(),
{
    if i == a.len() {
        assert(a.take(i) == a);
        assert(cbor_items(a) == cbor_items(a.take(i)) + Seq::<u8>::empty());
    } else {
        lemma_items_prefix(a.drop_last(), i);
        assert(a.drop_last().take(i) == a.take(i));
        let rest = choose|rest: Seq<u8>|
            cbor_items(a.drop_last()) == cbor_items(a.drop_last().take(i)) + rest;
        assert(cbor_items(a) == cbor_items(a.take(i)) + (rest + cbor(a.last())));
    }
}

proof fn lemma_entries(data: Seq<u8>, pos: int, o: Seq<(Seq<char>, Json)>, depth: int, i: nat)
    requires
        i <= o.len(),
        holds_at(data, pos, cbor_entries(o)),
        json::sorted(o),
        forall|k: int|
            0 <= k < o.len() ==> json::valid((#[trigger] o[k]).1) && encode_utf8(o[k].0).len()
                <= u64::MAX && within_limits(o[k].1, MAX_CBOR_DEPTH - depth),
        depth >= 0,
    ensures
        cbor_entries(o.take(i as int)).len() <= cbor_entries(o).len(),
        entries_at(data, pos, depth, o.len(), Seq::empty()) == entries_at(
            data,
            pos + cbor_entries(o.take(i as int)).len(),
            depth,
            (o.len() - i) as nat,
            o.take(i as int),
        ),
    decreases o, 1nat, i,
{
    if i == 0 {
        assert(o.take(0) == Seq::<(Seq<char>, Json)>::empty());
    } else {
        lemma_entries(data, pos, o, depth, (i - 1) as nat);
        let e = o[i - 1];
        let before = cbor_entries(o.take(i - 1));
        assert(o.take(i as int).drop_last() == o.take(i - 1));
        assert(o.take(i as int).last() == e);
        lemma_entries_prefix(o, i as int);
        let rest = choose|rest: Seq<u8>| cbor_entries(o) == cbor_entries(o.take(i as int)) + rest;
        lemma_holds_parts(data, pos, cbor_entries(o.take(i as int)), rest);
        lemma_holds_parts(data, pos, before, text_item(e.0) + cbor(e.1));
        lemma_holds_parts(data, pos + before.len(), text_item(e.0), cbor(e.1));
        assert(json::valid(e.1) && within_limits(e.1, MAX_CBOR_DEPTH - depth));
        lemma_text_item(data, pos + before.len(), e.0, depth);
        lemma_item(data, pos + before.len() + text_item(e.0).len(), e.1, depth);
        assert forall|k: int| 0 <= k < o.take(i - 1).len() implies json::key_less(
            #[trigger] o.take(i - 1)[k].0,
            e.0,
        ) by {
            assert(o.take(i - 1)[k] == o[k]);
        }
        json::lemma_with_entry_append(o.take(i - 1), e.0, e.1);
        assert(o.take(i - 1).push(e) == o.take(i as int));
    }
}

proof fn lemma_entries_prefix(o: Seq<(Seq<char>, Json)>, i: int)
    requires
        0 <= i <= o.len(),
    ensures
        exists|rest: Seq<u8>| cbor_entries(o) == cbor_entries(o.take(i)) + rest,
    decreases o.len(),
{
    if i == o.len() {
        assert(o.take(i) == o);
        assert(cbor_entries(o) == cbor_entries(o.take(i)) + Seq::<u8>::empty());
    } else {
        lemma_entries_prefix(o.drop_last(), i);
        assert(o.drop_last().take(i) == o.take(i));
        let rest = choose|rest: Seq<u8>|
            cbor_entries(o.drop_last()) == cbor_entries(o.drop_last().take(i)) + rest;
        assert(cbor_entries(o) == cbor_entries(o.take(i)) + (rest + (text_item(o.last().0) + cbor(
            o.last().1,
        ))));
    }
}

/// Wherever data hold the CBOR form of a value, reading there gives the value
/// and ends behind it, as long as the value keeps to the limits.
pub proof fn lemma_item(data: Seq<u8>, pos: int, j: Json, depth: int)
    requires
        json::valid(j),
        depth >= 0,
        within_limits(j, MAX_CBOR_DEPTH - depth),
        holds_at(data, pos, cbor(j)),
    ensures
        item_at(data, pos, depth) == Ok::<(Json, int), Seq<char>>((j, pos + cbor(j).len())),
        cbor(j).len() > 0,
    decreases j, 0nat, 0nat,
{
    match j {
        Json::Null => {
            assert(data[pos] == data.subrange(pos, pos + 1)[0]);
        },
        Json::Bool(b) => {
            assert(data[pos] == data.subrange(pos, pos + 1)[0]);
        },
        Json::PosInt(u) => {
            lemma_head_round_trip(data, pos, 0, u as nat);
        },
        Json::NegInt(i) => {
            lemma_head_round_trip(data, pos, 1, (-1 - i) as nat);
        },
        Json::Float(bits) => {
            text::lemma_byte_ranges();
            text::lemma_be_bytes_len(bits as nat, 8);
            text::lemma_be_round_trip(bits as nat, 8);
            let first = seq![0xfbu8];
            lemma_holds_parts(data, pos, first, text::be_bytes(bits as nat, 8));
            assert(data[pos] == data.subrange(pos, pos + 1)[0]);
        },
        Json::Str(s) => {
            lemma_text_item(data, pos, s, depth);
        },
        Json::Array(a) => {
            if looks_like_bytes(a) {
                lemma_holds_parts(data, pos, head(2, a.len()), bytes_of(a));
                lemma_head_round_trip(data, pos, 2, a.len());
                assert(byte_items(bytes_of(a)) == a) by {
                    assert forall|i: int| 0 <= i < a.len() implies byte_items(bytes_of(a))[i]
                        == a[i] by {
                        assert(a[i] matches Json::PosInt(u) && u <= 255);
                    }
                }
            } else {
                lemma_holds_parts(data, pos, head(4, a.len()), cbor_items(a));
                lemma_head_round_trip(data, pos, 4, a.len());
                lemma_items(data, pos + head(4, a.len()).len(), a, depth + 1, a.len());
                assert(a.take(a.len() as int) == a);
            }
        },
        Json::Object(o) => {
            lemma_holds_parts(data, pos, head(5, o.len()), cbor_entries(o));
            lemma_head_round_trip(data, pos, 5, o.len());
            lemma_entries(data, pos + head(5, o.len()).len(), o, depth + 1, o.len());
            assert(o.take(o.len() as int) == o);
        },
    }
}

/// Writing a value and reading it back preserves it, whatever bytes follow.
pub proof fn law_json_cbor_json(j: Json, rest: Seq<u8>)
    requires
        json::valid(j),
        within_limits(j, MAX_CBOR_DEPTH as int),
    ensures
        item_at(cbor(j) + rest, 0, 0) == Ok::<(Json, int), Seq<char>>((j, cbor(j).len() as int)),
{
    let data = cbor(j) + rest;
    assert(data.subrange(0, cbor(j).len() as int) == cbor(j));
    lemma_item(data, 0, j, 0);
}

/// What can be read of the beginning of data is read of all of them alike.
proof fn lemma_item_grows(data: Seq<u8>, k: int, pos: int, depth: int)
    requires
        0 <= k <= data.len(),
        0 <= pos,
        item_at(data.take(k), pos, depth) is Ok,
    ensures
        item_at(data, pos, depth) == item_at(data.take(k), pos, depth),
        pos <= item_at(data, pos, depth)->Ok_0.1 <= k,
    decreases MAX_CBOR_DEPTH + 1 - depth, 0nat, 0nat,
{
    let part = data.take(k);
    let initial = part[pos];
    assert(initial == data[pos]);
    let info = (initial % 32) as u8;
    let n: int = if info == 24 {
        1
    } else if info == 25 {
        2
    } else if info == 26 {
        4
    } else {
        8
    };
    if 24 <= info <= 27 {
        assert(pos + 1 + n <= k);
        assert(part.subrange(pos + 1, pos + 1 + n) == data.subrange(pos + 1, pos + 1 + n));
    }
    assert(arg_at(part, pos + 1, info) == arg_at(data, pos + 1, info));
    let (arg, at) = arg_at(part, pos + 1, info)->Ok_0;
    let major = initial / 32;
    if major == 2 || major == 3 {
        assert(part.subrange(at, at + arg) == data.subrange(at, at + arg));
    } else if major == 4 {
        lemma_items_grow(data, k, at, depth + 1, arg as nat, Seq::empty());
    } else if major == 5 {
        lemma_entries_grow(data, k, at, depth + 1, arg as nat, Seq::empty());
    }
}

proof fn lemma_items_grow(data: Seq<u8>, k: int, pos: int, depth: int, count: nat, seen: Seq<Json>)
    requires
        0 <= k <= data.len(),
        0 <= pos <= k,
        items_at(data.take(k), pos, depth, count, seen) is Ok,
    ensures
        items_at(data, pos, depth, count, seen) == items_at(data.take(k), pos, depth, count, seen),
        pos <= items_at(data, pos, depth, count, seen)->Ok_0.1 <= k,
    decreases MAX_CBOR_DEPTH + 1 - depth, 1nat, count,
{
    if count > 0 {
        lemma_item_grows(data, k, pos, depth);
        let (item, next) = item_at(data, pos, depth)->Ok_0;
        lemma_items_grow(data, k, next, depth, (count - 1) as nat, seen.push(item));
    }
}

proof fn lemma_entries_grow(
    data: Seq<u8>,
    k: int,
    pos: int,
    depth: int,
    count: nat,
    seen: Seq<(Seq<char>, Json)>,
)
    requires
        0 <= k <= data.len(),
        0 <= pos <= k,
        entries_at(data.take(k), pos, depth, count, seen) is Ok,
    ensures
        entries_at(data, pos, depth, count, seen) == entries_at(data.take(k), pos, depth, count, seen),
        pos <= entries_at(data, pos, depth, count, seen)->Ok_0.1 <= k,
    decreases MAX_CBOR_DEPTH + 1 - depth, 1nat, count,
{
    if count > 0 {
        lemma_item_grows(data, k, pos, depth);
        let (key, at) = item_at(data, pos, depth)->Ok_0;
        lemma_item_grows(data, k, at, depth);
        let (value, next) = item_at(data, at, depth)->Ok_0;
        lemma_entries_grow(
            data,
            k,
            next,
            depth,
            (count - 1) as nat,
            json::with_entry(seen, key_of(key)->Ok_0, value),
        );
    }
}

/// Wherever data hold the CBOR form of a value and an item can be read there,
/// reading ends behind that form.
proof fn lemma_item_end(data: Seq<u8>, pos: int, j: Json, depth: int)
    requires
        lengths_fit(j),
        holds_at(data, pos, cbor(j)),
        item_at(data, pos, depth) is Ok,
    ensures
        item_at(data, pos, depth)->Ok_0.1 == pos + cbor(j).len(),
    decreases j, 0nat, 0nat,
{
    match j {
        Json::Null => {
            assert(data[pos] == data.subrange(pos, pos + 1)[0]);
        },
        Json::Bool(b) => {
            assert(data[pos] == data.subrange(pos, pos + 1)[0]);
        },
        Json::PosInt(u) => {
            lemma_head_round_trip(data, pos, 0, u as nat);
        },
        Json::NegInt(i) => {
            if i < 0 {
                lemma_head_round_trip(data, pos, 1, (-1 - i) as nat);
            } else {
                lemma_head_round_trip(data, pos, 0, i as nat);
            }
        },
        Json::Float(bits) => {
            text::lemma_byte_ranges();
            text::lemma_be_bytes_len(bits as nat, 8);
            text::lemma_be_round_trip(bits as nat, 8);
            let first = seq![0xfbu8];
            lemma_holds_parts(data, pos, first, text::be_bytes(bits as nat, 8));
            assert(data[pos] == data.subrange(pos, pos + 1)[0]);
        },
        Json::Str(s) => {
            lemma_text_item(data, pos, s, depth);
        },
        Json::Array(a) => {
            if looks_like_bytes(a) {
                lemma_holds_parts(data, pos, head(2, a.len()), bytes_of(a));
                lemma_head_round_trip(data, pos, 2, a.len());
            } else {
                lemma_holds_parts(data, pos, head(4, a.len()), cbor_items(a));
                lemma_head_round_trip(data, pos, 4, a.len());
                assert(a.skip(0) == a);
                assert(a.take(0) == Seq::<Json>::empty());
                assert(cbor_items(a.take(0)).len() == 0);
                lemma_items_end(
                    data,
                    pos + head(4, a.len()).len(),
                    a,
                    depth + 1,
                    0,
                    Seq::empty(),
                );
            }
        },
        Json::Object(o) => {
            lemma_holds_parts(data, pos, head(5, o.len()), cbor_entries(o));
            lemma_head_round_trip(data, pos, 5, o.len());
            assert(o.take(0) == Seq::<(Seq<char>, Json)>::empty());
            assert(cbor_entries(o.take(0)).len() == 0);
            lemma_entries_end(
                data,
                pos + head(5, o.len()).len(),
                o,
                depth + 1,
                0,
                Seq::empty(),
            );
        },
    }
}

proof fn lemma_items_end(data: Seq<u8>, pos: int, a: Seq<Json>, depth: int, i: int, seen: Seq<Json>)
    requires
        0 <= i <= a.len(),
        holds_at(data, pos, cbor_items(a)),
        forall|k: int| 0 <= k < a.len() ==> lengths_fit(#[trigger] a[k]),
        items_at(data, pos + cbor_items(a.take(i)).len(), depth, (a.len() - i) as nat, seen) is Ok,
    ensures
        items_at(
            data,
            pos + cbor_items(a.take(i)).len(),
            depth,
            (a.len() - i) as nat,
            seen,
        )->Ok_0.1 == pos + cbor_items(a).len(),
    decreases a, 1nat, a.len() - i,
{
    if i == a.len() {
        assert(a.take(i) == a);
    } else {
        let x = a[i];
        let before = cbor_items(a.take(i));
        let next = a.take(i + 1);
        assert(next.drop_last() == a.take(i));
        assert(next.last() == x);
        lemma_items_prefix(a, i + 1);
        let rest = choose|rest: Seq<u8>| cbor_items(a) == cbor_items(next) + rest;
        lemma_holds_parts(data, pos, cbor_items(next), rest);
        lemma_holds_parts(data, pos, before, cbor(x));
        lemma_item_end(data, pos + before.len(), x, depth);
        let item = item_at(data, pos + before.len(), depth)->Ok_0.0;
        lemma_items_end(data, pos, a, depth, i + 1, seen.push(item));
    }
}

proof fn lemma_entries_end(
    data: Seq<u8>,
    pos: int,
    o: Seq<(Seq<char>, Json)>,
    depth: int,
    i: int,
    seen: Seq<(Seq<char>, Json)>,
)
    requires
        0 <= i <= o.len(),
        holds_at(data, pos, cbor_entries(o)),
        forall|k: int|
            0 <= k < o.len() ==> encode_utf8((#[trigger] o[k]).0).len() <= u64::MAX && lengths_fit(
                o[k].1,
            ),
        entries_at(data, pos + cbor_entries(o.take(i)).len(), depth, (o.len() - i) as nat, seen) is Ok,
    ensures
        entries_at(
            data,
            pos + cbor_entries(o.take(i)).len(),
            depth,
            (o.len() - i) as nat,
            seen,
        )->Ok_0.1 == pos + cbor_entries(o).len(),
    decreases o, 1nat, o.len() - i,
{
    if i == o.len() {
        assert(o.take(i) == o);
    } else {
        let e = o[i];
        let before = cbor_entries(o.take(i));
        let next = o.take(i + 1);
        assert(next.drop_last() == o.take(i));
        assert(next.last() == e);
        lemma_entries_prefix(o, i + 1);
        let rest = choose|rest: Seq<u8>| cbor_entries(o) == cbor_entries(next) + rest;
        lemma_holds_parts(data, pos, cbor_entries(next), rest);
        lemma_holds_parts(data, pos, before, text_item(e.0) + cbor(e.1));
        lemma_holds_parts(data, pos + before.len(), text_item(e.0), cbor(e.1));
        assert(item_at(data, pos + before.len(), depth) is Ok);
        lemma_text_item(data, pos + before.len(), e.0, depth);
        let at = pos + before.len() + text_item(e.0).len();
        lemma_item_end(data, at, e.1, depth);
        let value = item_at(data, at, depth)->Ok_0.0;
        lemma_entries_end(data, pos, o, depth, i + 1, json::with_entry(seen, e.0, value));
    }
}

/// No strict beginning of what is written for a value can be read. That there
/// is nothing to read of no bytes at all is the shortest case of it.
pub proof fn law_no_part_reads(j: Json, k: int)
    requires
        lengths_fit(j),
        0 <= k < cbor(j).len(),
    ensures
        item_at(cbor(j).take(k), 0, 0) is Err,
{
    let data = cbor(j);
    if item_at(data.take(k), 0, 0) is Ok {
        lemma_item_grows(data, k, 0, 0);
        assert(data.subrange(0, data.len() as int) == data);
        lemma_item_end(data, 0, j, 0);
    }
}


/// A head says its kind in the three highest bits of the first byte, and its number in the
/// others or, where it is too large, in as few bytes as hold it, the highest first.
pub proof fn law_head_says_kind_and_number(major: nat, arg: nat)
    requires
        major < 8,
        arg <= u64::MAX,
    ensures
        head(major, arg)[0] / 32 == major,
        head(major, arg).len() == (if arg < 24 {
            1int
        } else if arg <= u8::MAX {
            2
        } else if arg <= u16::MAX {
            3
        } else if arg <= u32::MAX {
            5
        } else {
            9
        }),
        arg < 24 ==> head(major, arg)[0] % 32 == arg,
        arg >= 24 ==> text::be_value(head(major, arg).skip(1)) == arg,
        24 <= arg <= u8::MAX ==> head(major, arg)[0] % 32 == 24,
        u8::MAX < arg <= u16::MAX ==> head(major, arg)[0] % 32 == 25,
        u16::MAX < arg <= u32::MAX ==> head(major, arg)[0] % 32 == 26,
        u32::MAX < arg ==> head(major, arg)[0] % 32 == 27,
{
    text::lemma_byte_ranges();
    text::lemma_be_bytes_len(arg, 1);
    text::lemma_be_bytes_len(arg, 2);
    text::lemma_be_bytes_len(arg, 4);
    text::lemma_be_bytes_len(arg, 8);
    if arg >= 24 {
        let n: nat = if arg < 0x100 {
            1
        } else if arg < 0x1_0000 {
            2
        } else if arg < 0x1_0000_0000 {
            4
        } else {
            8
        };
        text::lemma_be_round_trip(arg, n);
        assert(head(major, arg).skip(1) =~= text::be_bytes(arg, n));
    }
}

/// How values are written: the plain ones in one byte, numbers by their size, text with the
/// number of its bytes before it, and bytes as they are.
pub proof fn law_values_are_written_so(u: u64, i: i64, bits: u64, s: Seq<char>, b: Seq<u8>)
    requires
        i < 0,
        b.len() > 0,
    ensures
        cbor(Json::Null) == seq![0xf6u8],
        cbor(Json::Bool(true)) == seq![0xf5u8],
        cbor(Json::Bool(false)) == seq![0xf4u8],
        cbor(Json::PosInt(u)) == head(0, u as nat),
        cbor(Json::NegInt(i)) == head(1, (-1 - i) as nat),
        cbor(Json::Float(bits)).len() == 9 && cbor(Json::Float(bits))[0] == 0xfb && text::be_value(
            cbor(Json::Float(bits)).skip(1),
        ) == bits,
        cbor(Json::Str(s)) == head(3, encode_utf8(s).len()) + encode_utf8(s),
        text_item(s) == cbor(Json::Str(s)),
        cbor(Json::Array(byte_items(b))) == head(2, b.len()) + b,
        cbor(Json::Array(Seq::empty())) == seq![0x80u8],
        cbor(Json::Object(Seq::empty())) == seq![0xa0u8],
{
    text::lemma_byte_ranges();
    text::lemma_be_bytes_len(bits as nat, 8);
    text::lemma_be_round_trip(bits as nat, 8);
    assert(cbor(Json::Float(bits)).skip(1) =~= text::be_bytes(bits as nat, 8));
    let a = byte_items(b);
    assert(looks_like_bytes(a));
    assert(bytes_of(a) =~= b);
    assert(cbor_items(Seq::empty()) =~= Seq::<u8>::empty());
    assert(cbor_entries(Seq::empty()) =~= Seq::<u8>::empty());
    assert(cbor(Json::Array(Seq::empty())) =~= seq![0x80u8]);
    assert(cbor(Json::Object(Seq::empty())) =~= seq![0xa0u8]);
}

/// Items and entries are written one behind the other.
pub proof fn law_lists_are_written_in_order(
    a: Seq<Json>,
    j: Json,
    o: Seq<(Seq<char>, Json)>,
    key: Seq<char>,
)
    ensures
        cbor_items(a.push(j)) == cbor_items(a) + cbor(j),
        cbor_entries(o.push((key, j))) == cbor_entries(o) + cbor(Json::Str(key)) + cbor(j),
        !looks_like_bytes(a) ==> cbor(Json::Array(a)) == head(4, a.len()) + cbor_items(a),
        cbor(Json::Object(o)) == head(5, o.len()) + cbor_entries(o),
{
    assert(a.push(j).drop_last() =~= a);
    assert(o.push((key, j)).drop_last() =~= o);
    assert(cbor_entries(o) + (text_item(key) + cbor(j)) =~= cbor_entries(o) + cbor(Json::Str(key)) + cbor(j));
}

/// A negative number is one less than its number is above zero; those below the least number
/// of 64 bits are refused.
pub proof fn law_negative_numbers(arg: u64)
    ensures
        negative(arg) matches Ok(j) ==> (j matches Json::NegInt(i) && i + arg == -1),
        negative(arg) is Ok <==> -1 - arg >= i64::MIN,
        negative(arg) matches Err(e) ==> e == "Negative integer out of range: -1 - "@ + text::dec(arg as nat),
{
}

/// What a key may be: text, or a number as its numeral.
pub proof fn law_keys_are_text_or_numbers(key: Json, s: Seq<char>, u: u64)
    ensures
        key_of(Json::Str(s)) == Ok::<Seq<char>, Seq<char>>(s),
        key_of(Json::PosInt(u)) == Ok::<Seq<char>, Seq<char>>(text::dec(u as nat)),
        key_of(key) is Ok <==> key is Str || key is PosInt || key is NegInt || key is Float,
        key_of(key) is Err ==> key_of(key)->Err_0 == "Non-string map key: "@ + json::debug_text(key),
{
}

/// Which single bytes stand for a value of their own, and which is followed by a number with a
/// fraction.
pub proof fn law_simple_values(initial: u8, arg: u64, at: int)
    ensures
        simple(initial, arg, at) == Ok::<(Json, int), Seq<char>>((Json::Bool(true), at)) <==> initial == 0xf5,
        simple(initial, arg, at) == Ok::<(Json, int), Seq<char>>((Json::Bool(false), at)) <==> initial == 0xf4,
        simple(initial, arg, at) == Ok::<(Json, int), Seq<char>>((Json::Null, at)) <==> initial == 0xf6 || initial
            == 0xf7,
        simple(initial, arg, at) == Ok::<(Json, int), Seq<char>>((Json::Float(arg), at)) <==> initial == 0xfb
            && json::is_finite(arg),
        simple(initial, arg, at) is Ok ==> simple(initial, arg, at)->Ok_0.1 == at,
        simple(initial, arg, at) is Ok <==> 0xf4 <= initial <= 0xf7 || (initial == 0xfb && json::is_finite(arg)),
{
}

/// A number is not finite if all bits of its exponent are set.
pub proof fn law_finite_numbers(bits: u64)
    ensures
        json::is_finite(bits) <==> bits & 0x7ff0_0000_0000_0000 != 0x7ff0_0000_0000_0000,
        non_finite_text(0x7ff0_0000_0000_0000) == "inf"@,
        non_finite_text(0xfff0_0000_0000_0000) == "-inf"@,
        bits & 0x7fff_ffff_ffff_ffff != 0x7ff0_0000_0000_0000 ==> non_finite_text(bits) == "NaN"@,
{
    assert((bits / 0x10_0000_0000_0000) % 0x800 != 0x7ff <==> bits & 0x7ff0_0000_0000_0000
        != 0x7ff0_0000_0000_0000) by (bit_vector);
    assert(0x7ff0_0000_0000_0000u64 & 0x7fff_ffff_ffff_ffff == 0x7ff0_0000_0000_0000) by (bit_vector);
    assert(0xfff0_0000_0000_0000u64 & 0x7fff_ffff_ffff_ffff == 0x7ff0_0000_0000_0000) by (bit_vector);
}

/// What is refused wherever it stands: too many levels, an end before anything came, lengths
/// that are not given, tags, and lists that are too long.
pub proof fn law_what_is_refused(data: Seq<u8>, pos: int, depth: int)
    requires
        0 <= pos,
        0 <= depth,
    ensures
        depth > 32 ==> item_at(data, pos, depth) == Err::<(Json, int), Seq<char>>("CBOR nesting too deep (>32 levels)"@),
        depth <= 32 && pos >= data.len() ==> item_at(data, pos, depth) == Err::<(Json, int), Seq<char>>(
            "Unexpected end of CBOR data"@,
        ),
        pos < data.len() && data[pos] % 32 >= 28 ==> item_at(data, pos, depth) is Err,
        pos < data.len() && data[pos] / 32 == 6 ==> item_at(data, pos, depth) is Err,
        depth <= 32 && pos < data.len() && data[pos] % 32 == 31 ==> item_at(data, pos, depth) == Err::<
            (Json, int),
            Seq<char>,
        >("Indefinite-length CBOR not supported"@),
        pos < data.len() && (data[pos] / 32 == 4 || data[pos] / 32 == 5) ==> (arg_at(
            data,
            pos + 1,
            (data[pos] % 32) as u8,
        ) matches Ok((n, _)) ==> n > 100_000 ==> item_at(data, pos, depth) is Err),
        pos < data.len() && (data[pos] / 32 == 2 || data[pos] / 32 == 3) ==> (arg_at(
            data,
            pos + 1,
            (data[pos] % 32) as u8,
        ) matches Ok((n, at)) ==> n > data.len() - at ==> item_at(data, pos, depth) is Err),
{
}

/// What a first byte leads to: a number, bytes, text, a list or an object, by its three highest
/// bits.
pub proof fn law_kind_of_what_is_read(data: Seq<u8>, pos: int, depth: int)
    requires
        0 <= pos < data.len(),
        item_at(data, pos, depth) is Ok,
    ensures
        data[pos] / 32 == 0 <==> item_at(data, pos, depth)->Ok_0.0 is PosInt,
        data[pos] / 32 == 1 <==> item_at(data, pos, depth)->Ok_0.0 is NegInt,
        data[pos] / 32 == 2 || data[pos] / 32 == 4 <==> item_at(data, pos, depth)->Ok_0.0 is Array,
        data[pos] / 32 == 3 <==> item_at(data, pos, depth)->Ok_0.0 is Str,
        data[pos] / 32 == 5 <==> item_at(data, pos, depth)->Ok_0.0 is Object,
        data[pos] == 0xfb <==> item_at(data, pos, depth)->Ok_0.0 is Float,
        data[pos] == 0xf4 || data[pos] == 0xf5 <==> item_at(data, pos, depth)->Ok_0.0 is Bool,
        data[pos] == 0xf6 || data[pos] == 0xf7 <==> item_at(data, pos, depth)->Ok_0.0 is Null,
{
}

/// Text reads as what it encodes.
pub proof fn law_text_reads_as_encoded(s: Seq<char>)
    ensures
        text_of(encode_utf8(s)) == Ok::<Seq<char>, Seq<char>>(s),
{
    vstd::utf8::encode_utf8_valid_utf8(s);
    vstd::utf8::encode_utf8_decode_utf8(s);
}


/// A number of a head is small and stands in the first byte, or follows it in one, two, four or
/// eight bytes; where these are missing the error says how many were wanted.
pub proof fn law_numbers_of_heads(data: Seq<u8>, pos: int, info: u8)
    requires
        0 <= pos <= data.len(),
        info < 32,
    ensures
        info < 24 ==> arg_at(data, pos, info) == Ok::<(u64, int), Seq<char>>((info as u64, pos)),
        arg_at(data, pos, 24) is Ok <==> pos + 1 <= data.len(),
        arg_at(data, pos, 25) is Ok <==> pos + 2 <= data.len(),
        arg_at(data, pos, 26) is Ok <==> pos + 4 <= data.len(),
        arg_at(data, pos, 27) is Ok <==> pos + 8 <= data.len(),
        pos + 1 > data.len() ==> arg_at(data, pos, 24) == Err::<(u64, int), Seq<char>>("Truncated 1-byte arg"@),
        pos + 2 > data.len() ==> arg_at(data, pos, 25) == Err::<(u64, int), Seq<char>>("Truncated 2-byte arg"@),
        pos + 4 > data.len() ==> arg_at(data, pos, 26) == Err::<(u64, int), Seq<char>>("Truncated 4-byte arg"@),
        pos + 8 > data.len() ==> arg_at(data, pos, 27) == Err::<(u64, int), Seq<char>>("Truncated 8-byte arg"@),
        arg_at(data, pos, 28) == Err::<(u64, int), Seq<char>>("Reserved CBOR additional info: "@ + text::dec(28)),
        arg_at(data, pos, 29) == Err::<(u64, int), Seq<char>>("Reserved CBOR additional info: "@ + text::dec(29)),
        arg_at(data, pos, 30) == Err::<(u64, int), Seq<char>>("Reserved CBOR additional info: "@ + text::dec(30)),
        arg_at(data, pos, info) matches Ok((_, end)) ==> pos <= end <= data.len(),
        24 <= info <= 27 && arg_at(data, pos, info) is Ok ==> arg_at(data, pos, info)->Ok_0.0 == text::be_value(
            data.subrange(pos, arg_at(data, pos, info)->Ok_0.1),
        ),
{
    if 24 <= info <= 27 && arg_at(data, pos, info) is Ok {
        let part = data.subrange(pos, arg_at(data, pos, info)->Ok_0.1);
        text::lemma_be_value_bound(part);
        text::lemma_byte_ranges();
    }
}

/// What is said of strings that end too early and of lists that are too long names the length.
pub proof fn law_wrong_lengths_are_named(data: Seq<u8>, pos: int, depth: int, n: u64, at: int)
    requires
        0 <= pos < data.len(),
        0 <= depth <= 32,
        arg_at(data, pos + 1, (data[pos] % 32) as u8) == Ok::<(u64, int), Seq<char>>((n, at)),
    ensures
        data[pos] / 32 == 2 && at + n > data.len() ==> item_at(data, pos, depth) == Err::<(Json, int), Seq<char>>(
            "Byte string length "@ + text::dec(n as nat) + " exceeds data at pos "@ + text::dec(at as nat),
        ),
        data[pos] / 32 == 3 && at + n > data.len() ==> item_at(data, pos, depth) == Err::<(Json, int), Seq<char>>(
            "Text string length "@ + text::dec(n as nat) + " exceeds data at pos "@ + text::dec(at as nat),
        ),
        data[pos] / 32 == 4 && n > 100_000 ==> item_at(data, pos, depth) == Err::<(Json, int), Seq<char>>(
            "CBOR array too large: "@ + text::dec(n as nat) + " elements"@,
        ),
        data[pos] / 32 == 5 && n > 100_000 ==> item_at(data, pos, depth) == Err::<(Json, int), Seq<char>>(
            "CBOR map too large: "@ + text::dec(n as nat) + " entries"@,
        ),
        data[pos] / 32 == 6 ==> item_at(data, pos, depth) == Err::<(Json, int), Seq<char>>(
            "Unknown CBOR major type: "@ + text::dec(6),
        ),
{
}

} // verus!
