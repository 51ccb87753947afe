//! Text and byte helpers shared by every module: decimal numerals, hexadecimal,
//! big-endian integers, and conversions between strings and character vectors.
use vstd::prelude::*;
use vstd::utf8::*;

verus! {

/// `String::push`: appends one character to the end of the string.
pub assume_specification[ String::push ](s: &mut String, c: char)
    ensures
        final(s)@ == old(s)@.push(c),
;

// ---------------------------------------------------------------------------
// Strings and characters
// ---------------------------------------------------------------------------

/// The characters of `s`, one by one.
pub fn chars_of(s: &str) -> (r: Vec<char>)
    ensures
        r@ == s@,
{
    let mut out: Vec<char> = Vec::new();
    for c in it: s.chars()
        invariant
            out@ == it.seq().take(it.index()),
            it.seq() == s@,
    {
        out.push(c);
        assert(it.seq().take(it.index() + 1) == it.seq().take(it.index()).push(it.seq()[it.index()]));
    }
    assert(s@.take(s@.len() as int) == s@);
    out
}

/// The string made of `v[from..to]`.
pub fn string_of(v: &Vec<char>, from: usize, to: usize) -> (r: String)
    requires
        from <= to <= v@.len(),
    ensures
        r@ == v@.subrange(from as int, to as int),
{
    let mut out = String::new();
    let mut i: usize = from;
    while i < to
        invariant
            from <= i <= to <= v@.len(),
            out@ == v@.subrange(from as int, i as int),
        decreases to - i,
    {
        out.push(v[i]);
        i = i + 1;
        assert(v@.subrange(from as int, i as int) == v@.subrange(from as int, i - 1).push(v@[i - 1]));
    }
    out
}

/// Whether two strings hold the same characters.
pub fn same_text(a: &str, b: &str) -> (r: bool)
    ensures
        r == (a@ == b@),
{
    let x = a.as_bytes();
    let y = b.as_bytes();
    proof {
        encode_utf8_decode_utf8(a@);
        encode_utf8_decode_utf8(b@);
    }
    same_bytes(x, y)
}

/// Whether two byte slices are equal.
pub fn same_bytes(x: &[u8], y: &[u8]) -> (r: bool)
    ensures
        r == (x@ == y@),
{
    if x.len() != y.len() {
        return false;
    }
    let mut i: usize = 0;
    while i < x.len()
        invariant
            i <= x@.len(),
            x@.len() == y@.len(),
            forall|k: int| 0 <= k < i ==> x@[k] == y@[k],
        decreases x@.len() - i,
    {
        if x[i] != y[i] {
            return false;
        }
        i = i + 1;
    }
    assert(x@ == y@);
    true
}

/// How `{:?}` writes a string: in double quotes, with escapes.
pub uninterp spec fn str_debug_text(s: Seq<char>) -> Seq<char>;

/// The `Debug` form of a `str`.
#[verifier::external_body]
pub(crate) fn str_debug_string(s: &str) -> (r: String)
    ensures
        r@ == str_debug_text(s@),
{
    format!("{:?}", s)
}

// ---------------------------------------------------------------------------
// Decimal numerals
// ---------------------------------------------------------------------------

/// The character of a decimal digit.
pub open spec fn digit(d: nat) -> char
    recommends
        d < 10,
{
    (48 + d) as char
}

/// The decimal numeral of `n`, without leading zeros.
pub open spec fn dec(n: nat) -> Seq<char>
    decreases n,
{
    if n < 10 {
        seq![digit(n)]
    } else {
        dec(n / 10).push(digit(n % 10))
    }
}

/// The decimal numeral of an integer, with a minus sign if it is negative.
pub open spec fn dec_int(i: int) -> Seq<char> {
    if i < 0 {
        seq!['-'] + dec((-i) as nat)
    } else {
        dec(i as nat)
    }
}

/// Appends the decimal numeral of `n` to `out`.
pub fn push_dec(out: &mut String, n: u64)
    ensures
        final(out)@ == old(out)@ + dec(n as nat),
{
    push_dec_wide(out, n as u128);
}

/// Appends the decimal numeral of `n` to `out`.
pub fn push_dec_wide(out: &mut String, n: u128)
    ensures
        final(out)@ == old(out)@ + dec(n as nat),
    decreases n,
{
    if n >= 10 {
        push_dec_wide(out, n / 10);
    }
    let d: u8 = (n % 10) as u8;
    out.push((48u8 + d) as char);
    proof {
        if n < 10 {
            assert(dec(n as nat) == seq![digit(n as nat)]);
        }
    }
}

/// The decimal numeral of `n`.
pub fn dec_string(n: u64) -> (r: String)
    ensures
        r@ == dec(n as nat),
{
    let mut out = String::new();
    push_dec(&mut out, n);
    assert(Seq::<char>::empty() + dec(n as nat) == dec(n as nat));
    out
}

/// The decimal numeral of a signed integer.
pub fn dec_int_string(i: i64) -> (r: String)
    ensures
        r@ == dec_int(i as int),
{
    let mut out = String::new();
    if i < 0 {
        out.push('-');
        let m: u64 = (-(i as i128)) as u64;
        push_dec(&mut out, m);
        assert(out@ == seq!['-'] + dec((-i) as nat));
    } else {
        push_dec(&mut out, i as u64);
        assert(out@ == dec(i as nat));
    }
    out
}

/// A numeral has one digit or more, and nothing but digits.
pub proof fn lemma_dec_digits(n: nat)
    ensures
        dec(n).len() > 0,
        forall|i: int| 0 <= i < dec(n).len() ==> is_digit(#[trigger] dec(n)[i]),
    decreases n,
{
    if n >= 10 {
        lemma_dec_digits(n / 10);
        let d = dec(n / 10);
        assert forall|i: int| 0 <= i < dec(n).len() implies is_digit(#[trigger] dec(n)[i]) by {
            if i < d.len() {
                assert(dec(n)[i] == d[i]);
            }
        }
    }
}

/// A numeral stands for its number.
pub proof fn lemma_dec_value(n: nat)
    ensures
        digits_value(dec(n)) == n,
    decreases n,
{
    reveal_with_fuel(digits_value, 2);
    if n < 10 {
        assert(dec(n).drop_last().len() == 0);
    } else {
        lemma_dec_value(n / 10);
        assert(dec(n).drop_last() == dec(n / 10));
    }
}

/// Zeros before digits do not change their number.
pub proof fn lemma_leading_zeros(z: Seq<char>, d: Seq<char>)
    requires
        forall|i: int| 0 <= i < z.len() ==> z[i] == '0',
    ensures
        digits_value(z + d) == digits_value(d),
    decreases z.len() + d.len(),
{
    if d.len() > 0 {
        assert((z + d).drop_last() == z + d.drop_last());
        lemma_leading_zeros(z, d.drop_last());
    } else if z.len() > 0 {
        assert(z + d == z);
        assert(z.drop_last() + d == z.drop_last());
        lemma_leading_zeros(z.drop_last(), d);
    } else {
        assert(z + d == d);
    }
}

/// Two texts that each begin with a numeral, which something other than a digit follows, are
/// the same only if both parts are.
pub proof fn lemma_numeral_cut(a: nat, x: Seq<char>, b: nat, y: Seq<char>)
    requires
        dec(a) + x == dec(b) + y,
        x.len() > 0 ==> !is_digit(x[0]),
        y.len() > 0 ==> !is_digit(y[0]),
    ensures
        a == b,
        x == y,
{
    lemma_dec_digits(a);
    lemma_dec_digits(b);
    let da = dec(a);
    let db = dec(b);
    let s = da + x;
    let t = db + y;
    if da.len() < db.len() {
        assert(s[da.len() as int] == x[0]);
        assert(t[da.len() as int] == db[da.len() as int]);
    }
    if db.len() < da.len() {
        assert(t[db.len() as int] == y[0]);
        assert(s[db.len() as int] == da[db.len() as int]);
    }
    assert(da == s.take(da.len() as int));
    assert(db == t.take(db.len() as int));
    assert(x == s.skip(da.len() as int));
    assert(y == t.skip(db.len() as int));
    lemma_dec_value(a);
    lemma_dec_value(b);
}

// ---------------------------------------------------------------------------
// Big-endian integers
// ---------------------------------------------------------------------------

/// How many values `n` bytes can hold.
pub open spec fn byte_range(n: nat) -> nat
    decreases n,
{
    if n == 0 {
        1
    } else {
        256 * byte_range((n - 1) as nat)
    }
}

/// The `n` low-order bytes of `v`, most significant first.
pub open spec fn be_bytes(v: nat, n: nat) -> Seq<u8>
    decreases n,
{
    if n == 0 {
        Seq::empty()
    } else {
        be_bytes(v / 256, (n - 1) as nat).push((v % 256) as u8)
    }
}

/// The integer that bytes stand for, most significant first.
pub open spec fn be_value(s: Seq<u8>) -> nat
    decreases s.len(),
{
    if s.len() == 0 {
        0
    } else {
        256 * be_value(s.drop_last()) + s.last() as nat
    }
}

/// `be_bytes` gives `n` bytes.
pub proof fn lemma_be_bytes_len(v: nat, n: nat)
    ensures
        be_bytes(v, n).len() == n,
    decreases n,
{
    if n > 0 {
        lemma_be_bytes_len(v / 256, (n - 1) as nat);
    }
}

/// Reading back the bytes of an integer that fits gives the integer.
pub proof fn lemma_be_round_trip(v: nat, n: nat)
    requires
        v < byte_range(n),
    ensures
        be_value(be_bytes(v, n)) == v,
    decreases n,
{
    if n > 0 {
        lemma_be_round_trip(v / 256, (n - 1) as nat);
        let s = be_bytes(v, n);
        assert(s.drop_last() == be_bytes(v / 256, (n - 1) as nat));
    }
}

/// What bytes stand for is within their range.
pub proof fn lemma_be_value_bound(s: Seq<u8>)
    ensures
        be_value(s) < byte_range(s.len()),
    decreases s.len(),
{
    if s.len() > 0 {
        lemma_be_value_bound(s.drop_last());
    }
}

/// The ranges of the byte counts in use.
pub proof fn lemma_byte_ranges()
    ensures
        byte_range(1) == 0x100,
        byte_range(2) == 0x1_0000,
        byte_range(4) == 0x1_0000_0000,
        byte_range(8) == 0x1_0000_0000_0000_0000,
{
    reveal_with_fuel(byte_range, 9);
}

/// More bytes hold no fewer values.
pub proof fn lemma_byte_range_monotonic(m: nat, n: nat)
    requires
        m <= n,
    ensures
        byte_range(m) <= byte_range(n),
    decreases n,
{
    if m < n {
        lemma_byte_range_monotonic(m, (n - 1) as nat);
    }
}

/// Appends the `n` low-order bytes of `v`, most significant first.
pub fn push_be(out: &mut Vec<u8>, v: u64, n: u8)
    ensures
        final(out)@ == old(out)@ + be_bytes(v as nat, n as nat),
    decreases n,
{
    if n > 0 {
        push_be(out, v / 256, n - 1);
        out.push((v % 256) as u8);
    }
}

/// The integer in `data[pos..pos + n]`, most significant byte first.
pub fn read_be(data: &[u8], pos: usize, n: usize) -> (r: u64)
    requires
        n <= 8,
        pos + n <= data@.len(),
    ensures
        r == be_value(data@.subrange(pos as int, pos + n)),
{
    let len: usize = data.len();
    let mut acc: u64 = 0;
    let mut i: usize = 0;
    while i < n
        invariant
            i <= n <= 8,
            pos + n <= data@.len(),
            data@.len() == len,
            acc == be_value(data@.subrange(pos as int, pos + i)),
        decreases n - i,
    {
        let ghost before = data@.subrange(pos as int, pos + i);
        let ghost after = data@.subrange(pos as int, pos + i + 1);
        proof {
            assert(after.drop_last() == before);
            lemma_be_value_bound(before);
            lemma_be_value_bound(after);
            lemma_byte_ranges();
            lemma_byte_range_monotonic(after.len(), 8);
        }
        acc = acc * 256 + data[pos + i] as u64;
        i = i + 1;
    }
    acc
}

// ---------------------------------------------------------------------------
// Hexadecimal
// ---------------------------------------------------------------------------

/// The lower-case hexadecimal digit of a value below sixteen.
pub open spec fn hex_digit(d: nat) -> char
    recommends
        d < 16,
{
    if d < 10 {
        (48 + d) as char
    } else {
        (87 + d) as char
    }
}

/// Bytes as lower-case hexadecimal text, two digits each.
pub open spec fn hex_text(b: Seq<u8>) -> Seq<char> {
    Seq::new(
        2 * b.len(),
        |i: int|
            if i % 2 == 0 {
                hex_digit((b[i / 2] / 16) as nat)
            } else {
                hex_digit((b[i / 2] % 16) as nat)
            },
    )
}

/// Whether a character is a hexadecimal digit of either case.
pub open spec fn is_hex_digit(c: char) -> bool {
    ('0' <= c && c <= '9') || ('a' <= c && c <= 'f') || ('A' <= c && c <= 'F')
}

/// The value of a hexadecimal digit.
pub open spec fn hex_digit_value(c: char) -> int
    recommends
        is_hex_digit(c),
{
    if c <= '9' {
        c as int - 48
    } else if c <= 'F' {
        c as int - 55
    } else {
        c as int - 87
    }
}

/// Whether text is hexadecimal: digits of either case, an even number of them.
pub open spec fn is_hex(s: Seq<char>) -> bool {
    s.len() % 2 == 0 && forall|i: int| 0 <= i < s.len() ==> is_hex_digit(#[trigger] s[i])
}

/// The bytes that hexadecimal text stands for.
pub open spec fn hex_bytes(s: Seq<char>) -> Seq<u8>
    recommends
        is_hex(s),
{
    Seq::new(
        s.len() / 2,
        |i: int| (16 * hex_digit_value(s[2 * i]) + hex_digit_value(s[2 * i + 1])) as u8,
    )
}

/// What `hex::decode` says of text that is not hexadecimal.
pub uninterp spec fn hex_error_text(s: Seq<char>) -> Seq<char>;

/// `hex::encode`: the bytes as lower-case hexadecimal text.
#[verifier::external_body]
pub(crate) fn hex_encode(b: &[u8]) -> (r: String)
    ensures
        r@ == hex_text(b@),
{
    hex::encode(b)
}

/// `hex::decode`: the bytes of hexadecimal text of even length with digits of
/// either case, and an error for any other text.
#[verifier::external_body]
pub(crate) fn hex_decode(s: &str) -> (r: Result<Vec<u8>, String>)
    ensures
        r is Ok <==> is_hex(s@),
        r matches Ok(b) ==> b@ == hex_bytes(s@),
        r matches Err(m) ==> m@ == hex_error_text(s@),
{
    hex::decode(s).map_err(|e| e.to_string())
}

/// Hexadecimal text of bytes is hexadecimal, and stands for those bytes.
pub proof fn lemma_hex_round_trip(b: Seq<u8>)
    ensures
        is_hex(hex_text(b)),
        hex_bytes(hex_text(b)) == b,
{
    let s = hex_text(b);
    assert forall|i: int| 0 <= i < s.len() implies is_hex_digit(#[trigger] s[i]) by {
        let d = if i % 2 == 0 { b[i / 2] / 16 } else { b[i / 2] % 16 };
        assert(d < 16);
    }
    assert forall|i: int| 0 <= i < b.len() implies #[trigger] hex_bytes(s)[i] == b[i] by {
        assert((2 * i) / 2 == i && (2 * i + 1) / 2 == i && (2 * i) % 2 == 0 && (2 * i + 1) % 2 == 1);
        let hi = b[i] / 16;
        let lo = b[i] % 16;
        assert(s[2 * i] == hex_digit(hi as nat));
        assert(s[2 * i + 1] == hex_digit(lo as nat));
        assert(hex_digit_value(hex_digit(hi as nat)) == hi);
        assert(hex_digit_value(hex_digit(lo as nat)) == lo);
        assert(16 * hi + lo == b[i]);
    }
    assert(hex_bytes(s) == b);
}

// ---------------------------------------------------------------------------
// Splitting, joining, trimming
// ---------------------------------------------------------------------------

/// What the strings of a vector hold.
pub open spec fn views(v: Seq<String>) -> Seq<Seq<char>> {
    Seq::new(v.len(), |i: int| v[i]@)
}

/// The pieces of `s` between the characters `sep`: one more than there are
/// separators.
pub open spec fn split(s: Seq<char>, sep: char) -> Seq<Seq<char>>
    decreases s.len(),
{
    if s.len() == 0 {
        seq![Seq::empty()]
    } else {
        let before = split(s.drop_last(), sep);
        if s.last() == sep {
            before.push(Seq::empty())
        } else {
            before.drop_last().push(before.last().push(s.last()))
        }
    }
}

/// Pieces with `sep` between each two.
pub open spec fn join(parts: Seq<Seq<char>>, sep: Seq<char>) -> Seq<char>
    decreases parts.len(),
{
    if parts.len() == 0 {
        Seq::empty()
    } else if parts.len() == 1 {
        parts[0]
    } else {
        join(parts.drop_last(), sep) + sep + parts.last()
    }
}

/// There is always a piece, and no piece holds the separator.
pub proof fn lemma_split_pieces(s: Seq<char>, sep: char)
    ensures
        split(s, sep).len() > 0,
        forall|i: int| 0 <= i < split(s, sep).len() ==> !(#[trigger] split(s, sep)[i]).contains(sep),
    decreases s.len(),
{
    if s.len() > 0 {
        lemma_split_pieces(s.drop_last(), sep);
        let before = split(s.drop_last(), sep);
        let all = split(s, sep);
        assert forall|i: int| 0 <= i < all.len() implies !(#[trigger] all[i]).contains(sep) by {
            if i < all.len() - 1 {
                assert(all[i] == before[i]);
            } else if s.last() != sep {
                assert(all[i] == before.last().push(s.last()));
                assert(!before[before.len() - 1].contains(sep));
                if all[i].contains(sep) {
                    let k = choose|k: int| 0 <= k < all[i].len() && all[i][k] == sep;
                    assert(before.last()[k] == sep);
                }
            }
        }
    }
}

/// Joining the pieces with the separator gives the text back.
pub proof fn lemma_split_join(s: Seq<char>, sep: char)
    ensures
        join(split(s, sep), seq![sep]) == s,
    decreases s.len(),
{
    lemma_split_pieces(s, sep);
    if s.len() > 0 {
        let before = split(s.drop_last(), sep);
        lemma_split_join(s.drop_last(), sep);
        lemma_split_pieces(s.drop_last(), sep);
        if s.last() == sep {
            assert(split(s, sep).drop_last() == before);
            assert(join(split(s, sep), seq![sep]) == s.drop_last() + seq![sep] + Seq::<char>::empty());
            assert(s == s.drop_last().push(sep));
        } else {
            let all = split(s, sep);
            assert(all.drop_last() == before.drop_last());
            if before.len() == 1 {
                assert(join(before, seq![sep]) == before[0]);
                assert(all[0] == s.drop_last().push(s.last()));
            } else {
                assert(join(all, seq![sep]) == join(before.drop_last(), seq![sep]) + seq![sep]
                    + before.last().push(s.last()));
                assert(join(before, seq![sep]) == join(before.drop_last(), seq![sep]) + seq![sep]
                    + before.last());
            }
            assert(join(all, seq![sep]) == s.drop_last().push(s.last()));
            assert(s == s.drop_last().push(s.last()));
        }
    }
}

/// The pieces of `s` between the characters `sep`.
pub fn split_on(s: &str, sep: char) -> (r: Vec<String>)
    ensures
        views(r@) == split(s@, sep),
        r@.len() > 0,
{
    let chars = chars_of(s);
    let mut done: Vec<String> = Vec::new();
    let mut current = String::new();
    let mut i: usize = 0;
    assert(views(done@).push(current@) == split(s@.take(0), sep));
    while i < chars.len()
        invariant
            i <= chars@.len(),
            chars@ == s@,
            views(done@).push(current@) == split(s@.take(i as int), sep),
        decreases chars@.len() - i,
    {
        let c = chars[i];
        let ghost before = views(done@).push(current@);
        proof {
            assert(s@.take(i + 1).drop_last() == s@.take(i as int));
            assert(before.drop_last() == views(done@));
        }
        if c == sep {
            let ghost piece = current@;
            done.push(current);
            current = String::new();
            assert(views(done@) == before);
        } else {
            current.push(c);
        }
        i = i + 1;
        assert(views(done@).push(current@) == split(s@.take(i as int), sep));
    }
    let ghost last = current@;
    let ghost most = views(done@);
    done.push(current);
    proof {
        assert(views(done@) == most.push(last));
        assert(s@.take(i as int) == s@);
    }
    done
}

/// The strings with `sep` between each two.
pub fn join_with(parts: &Vec<String>, sep: &str) -> (r: String)
    ensures
        r@ == join(views(parts@), sep@),
{
    let mut out = String::new();
    let mut i: usize = 0;
    let ghost all = views(parts@);
    assert(join(all.take(0), sep@) == Seq::<char>::empty());
    while i < parts.len()
        invariant
            i <= parts@.len(),
            all == views(parts@),
            out@ == join(all.take(i as int), sep@),
        decreases parts@.len() - i,
    {
        proof {
            assert(all.take(i + 1).drop_last() == all.take(i as int));
            assert(all.take(i + 1).last() == parts@[i as int]@);
        }
        if i > 0 {
            out.append(sep);
        }
        out.append(parts[i].as_str());
        i = i + 1;
        assert(out@ == join(all.take(i as int), sep@));
    }
    assert(all.take(i as int) == all);
    out
}

/// Whether a character is white space (the Unicode property `White_Space`).
pub open spec fn is_white(c: char) -> bool {
    let u = c as u32;
    (0x09 <= u && u <= 0x0d) || u == 0x20 || u == 0x85 || u == 0xa0 || u == 0x1680 || (0x2000 <= u
        && u <= 0x200a) || u == 0x2028 || u == 0x2029 || u == 0x202f || u == 0x205f || u == 0x3000
}

/// Whether a character is white space.
pub fn is_white_char(c: char) -> (r: bool)
    ensures
        r == is_white(c),
{
    let u: u32 = c as u32;
    (0x09 <= u && u <= 0x0d) || u == 0x20 || u == 0x85 || u == 0xa0 || u == 0x1680 || (0x2000 <= u
        && u <= 0x200a) || u == 0x2028 || u == 0x2029 || u == 0x202f || u == 0x205f || u == 0x3000
}

/// `s` without white space at its start.
pub open spec fn trim_start(s: Seq<char>) -> Seq<char>
    decreases s.len(),
{
    if s.len() > 0 && is_white(s[0]) {
        trim_start(s.drop_first())
    } else {
        s
    }
}

/// `s` without white space at its end.
pub open spec fn trim_end(s: Seq<char>) -> Seq<char>
    decreases s.len(),
{
    if s.len() > 0 && is_white(s.last()) {
        trim_end(s.drop_last())
    } else {
        s
    }
}

/// `s` without white space at either end.
pub open spec fn trim(s: Seq<char>) -> Seq<char> {
    trim_end(trim_start(s))
}

/// The range of `v[from..to]` that is left without white space at either end.
pub fn trim_range(v: &Vec<char>, from: usize, to: usize) -> (r: (usize, usize))
    requires
        from <= to <= v@.len(),
    ensures
        from <= r.0 <= r.1 <= to,
        v@.subrange(r.0 as int, r.1 as int) == trim(v@.subrange(from as int, to as int)),
{
    let mut a: usize = from;
    let ghost whole = v@.subrange(from as int, to as int);
    while a < to && is_white_char(v[a])
        invariant
            from <= a <= to <= v@.len(),
            trim_start(whole) == trim_start(v@.subrange(a as int, to as int)),
        decreases to - a,
    {
        assert(v@.subrange(a as int, to as int).drop_first() == v@.subrange(a + 1, to as int));
        a = a + 1;
    }
    let mut b: usize = to;
    let ghost start = v@.subrange(a as int, to as int);
    assert(trim_start(whole) == start);
    while a < b && is_white_char(v[b - 1])
        invariant
            from <= a <= b <= to <= v@.len(),
            trim_end(start) == trim_end(v@.subrange(a as int, b as int)),
        decreases b - a,
    {
        assert(v@.subrange(a as int, b as int).drop_last() == v@.subrange(a as int, b - 1));
        b = b - 1;
    }
    (a, b)
}

/// `s` without white space at either end.
pub fn trimmed(s: &str) -> (r: String)
    ensures
        r@ == trim(s@),
{
    let v = chars_of(s);
    let (a, b): (usize, usize) = trim_range(&v, 0, v.len());
    assert(v@.subrange(0, v@.len() as int) == s@);
    string_of(&v, a, b)
}

/// A line as it stands before a line feed: without a carriage return at its
/// end.
pub open spec fn without_cr(s: Seq<char>) -> Seq<char> {
    if s.len() > 0 && s.last() == '\r' {
        s.drop_last()
    } else {
        s
    }
}

/// The lines of a text. A line ends with a line feed, before which a carriage
/// return is dropped; nothing after the last line feed is no line.
pub open spec fn lines(s: Seq<char>) -> Seq<Seq<char>> {
    let p = split(s, '\n');
    let n = p.len() - 1;
    let ended = Seq::new(n as nat, |i: int| without_cr(p[i]));
    if p.last().len() == 0 {
        ended
    } else {
        ended.push(p.last())
    }
}

/// The lines of a text.
pub fn lines_of(s: &str) -> (r: Vec<String>)
    ensures
        views(r@) == lines(s@),
{
    let mut p = split_on(s, '\n');
    let ghost all = views(p@);
    let last = p.pop().unwrap();
    assert(last@ == all.last());
    assert(views(p@) == all.drop_last());
    let ghost target = Seq::new((all.len() - 1) as nat, |i: int| without_cr(all[i]));
    let mut out: Vec<String> = Vec::new();
    let mut i: usize = 0;
    while i < p.len()
        invariant
            i <= p@.len(),
            views(p@) == all.drop_last(),
            target == Seq::new((all.len() - 1) as nat, |i: int| without_cr(all[i])),
            all.len() == p@.len() + 1,
            views(out@) == target.take(i as int),
        decreases p@.len() - i,
    {
        let v = chars_of(p[i].as_str());
        assert(v@ == views(p@)[i as int]);
        let n: usize = v.len();
        let line = if n > 0 && v[n - 1] == '\r' {
            string_of(&v, 0, n - 1)
        } else {
            string_of(&v, 0, n)
        };
        assert(v@.subrange(0, n as int) == v@);
        assert(line@ == without_cr(all[i as int]));
        let ghost before = views(out@);
        let ghost l = line@;
        out.push(line);
        i = i + 1;
        assert(views(out@) == before.push(l));
        assert(target.take(i as int) == target.take(i - 1).push(target[i - 1]));
    }
    assert(target.take(i as int) == target);
    if !last.as_str().is_empty() {
        let ghost l = last@;
        out.push(last);
        assert(views(out@) == target.push(l));
    }
    out
}

// ---------------------------------------------------------------------------
// Searching
// ---------------------------------------------------------------------------

/// Whether `s` begins with `prefix`.
pub open spec fn starts_with(s: Seq<char>, prefix: Seq<char>) -> bool {
    prefix.len() <= s.len() && s.take(prefix.len() as int) == prefix
}

/// Whether `v[at..]` begins with `prefix`.
pub fn has_at(v: &Vec<char>, at: usize, prefix: &Vec<char>) -> (r: bool)
    requires
        at <= v@.len(),
    ensures
        r == starts_with(v@.skip(at as int), prefix@),
{
    let ghost rest = v@.skip(at as int);
    let len: usize = v.len();
    if prefix.len() > len - at {
        return false;
    }
    let mut i: usize = 0;
    while i < prefix.len()
        invariant
            len == v@.len(),
            i <= prefix@.len(),
            at + prefix@.len() <= v@.len(),
            at <= v@.len(),
            rest == v@.skip(at as int),
            forall|k: int| 0 <= k < i ==> rest[k] == prefix@[k],
        decreases prefix@.len() - i,
    {
        assert(rest[i as int] == v@[at + i]);
        if v[at + i] != prefix[i] {
            assert(rest.take(prefix@.len() as int)[i as int] != prefix@[i as int]);
            return false;
        }
        i = i + 1;
    }
    assert(rest.take(prefix@.len() as int) == prefix@);
    true
}

/// Whether `s` begins with `prefix`.
pub fn has_prefix(s: &str, prefix: &str) -> (r: bool)
    ensures
        r == starts_with(s@, prefix@),
{
    let v = chars_of(s);
    let p = chars_of(prefix);
    assert(v@.skip(0) == v@);
    has_at(&v, 0, &p)
}

/// Whether `s` ends with `suffix`.
pub open spec fn ends_with(s: Seq<char>, suffix: Seq<char>) -> bool {
    suffix.len() <= s.len() && s.skip(s.len() - suffix.len()) == suffix
}

/// Whether `s` ends with `suffix`.
pub fn has_suffix(s: &str, suffix: &str) -> (r: bool)
    ensures
        r == ends_with(s@, suffix@),
{
    let v = chars_of(s);
    let p = chars_of(suffix);
    if p.len() > v.len() {
        return false;
    }
    let at: usize = v.len() - p.len();
    let ghost rest = v@.skip(at as int);
    assert(rest.take(p@.len() as int) == rest);
    has_at(&v, at, &p)
}

/// `s` with each occurrence of the character `c` replaced by the text `by`.
pub open spec fn replaced(s: Seq<char>, c: char, by: Seq<char>) -> Seq<char>
    decreases s.len(),
{
    if s.len() == 0 {
        Seq::empty()
    } else if s.last() == c {
        replaced(s.drop_last(), c, by) + by
    } else {
        replaced(s.drop_last(), c, by).push(s.last())
    }
}

/// What is left after a replacement: no `c` if the replacement has none, and no other
/// character that neither the text nor the replacement has.
pub proof fn lemma_replaced(s: Seq<char>, c: char, by: Seq<char>, x: char)
    requires
        !by.contains(x),
        x == c || !s.contains(x),
    ensures
        !replaced(s, c, by).contains(x),
    decreases s.len(),
{
    if s.len() > 0 {
        let front = s.drop_last();
        assert(x == c || !front.contains(x)) by {
            if x != c && front.contains(x) {
                let k = choose|k: int| 0 <= k < front.len() && front[k] == x;
                assert(s[k] == x);
            }
        }
        lemma_replaced(front, c, by, x);
        let done = replaced(front, c, by);
        let all = replaced(s, c, by);
        assert forall|k: int| 0 <= k < all.len() implies all[k] != x by {
            if k < done.len() {
                assert(all[k] == done[k]);
            } else if s.last() == c {
                assert(all[k] == by[k - done.len()]);
            } else {
                assert(all[k] == s.last());
                assert(s[s.len() - 1] == s.last());
            }
        }
    }
}

/// `s` with each occurrence of the character `c` replaced by the text `by`.
pub fn replace_char(s: &str, c: char, by: &str) -> (r: String)
    ensures
        r@ == replaced(s@, c, by@),
{
    let v = chars_of(s);
    let mut out = String::new();
    let mut i: usize = 0;
    while i < v.len()
        invariant
            i <= v@.len(),
            out@ == replaced(v@.take(i as int), c, by@),
        decreases v@.len() - i,
    {
        proof {
            assert(v@.take(i + 1).drop_last() == v@.take(i as int));
        }
        if v[i] == c {
            out.append(by);
        } else {
            out.push(v[i]);
        }
        i = i + 1;
    }
    proof {
        assert(v@.take(v@.len() as int) == v@);
    }
    out
}

/// Whether `s` holds the character `c`.
pub fn has_char(s: &str, c: char) -> (r: bool)
    ensures
        r == s@.contains(c),
{
    let v = chars_of(s);
    let mut i: usize = 0;
    while i < v.len()
        invariant
            i <= v@.len(),
            v@ == s@,
            forall|k: int| 0 <= k < i ==> s@[k] != c,
        decreases v@.len() - i,
    {
        if v[i] == c {
            assert(s@[i as int] == c);
            return true;
        }
        i = i + 1;
    }
    false
}

/// Whether `s` holds `part` somewhere.
pub open spec fn holds(s: Seq<char>, part: Seq<char>) -> bool {
    exists|i: int| 0 <= i <= s.len() && starts_with(#[trigger] s.skip(i), part)
}

/// Where `v` first holds `part` at or after `from`.
pub fn find_text(v: &Vec<char>, part: &Vec<char>, from: usize) -> (r: Option<usize>)
    requires
        from <= v@.len(),
    ensures
        match r {
            Some(i) => from <= i <= v@.len() && starts_with(v@.skip(i as int), part@) && forall|k: int|
                from <= k < i ==> !starts_with(#[trigger] v@.skip(k), part@),
            None => forall|k: int|
                from <= k <= v@.len() ==> !starts_with(#[trigger] v@.skip(k), part@),
        },
{
    let mut i: usize = from;
    while i < v.len()
        invariant
            from <= i <= v@.len(),
            forall|k: int| from <= k < i ==> !starts_with(#[trigger] v@.skip(k), part@),
        decreases v@.len() - i,
    {
        if has_at(v, i, part) {
            return Some(i);
        }
        i = i + 1;
    }
    if has_at(v, i, part) {
        return Some(i);
    }
    None
}

/// Where `s` first holds `part` at or after `from`.
pub open spec fn first_from(s: Seq<char>, part: Seq<char>, from: int) -> Option<int>
    decreases s.len() - from + 1,
{
    if from < 0 || from > s.len() {
        None
    } else if starts_with(s.skip(from), part) {
        Some(from)
    } else {
        first_from(s, part, from + 1)
    }
}

/// Where `v` first holds `part` at or after `from`.
pub fn find_first(v: &Vec<char>, part: &Vec<char>, from: usize) -> (r: Option<usize>)
    requires
        from <= v@.len(),
    ensures
        match r {
            Some(i) => i <= v@.len() && first_from(v@, part@, from as int) == Some(i as int)
                && starts_with(v@.skip(i as int), part@),
            None => first_from(v@, part@, from as int) is None,
        },
{
    let mut i: usize = from;
    while i < v.len()
        invariant
            from <= i <= v@.len(),
            first_from(v@, part@, from as int) == first_from(v@, part@, i as int),
        decreases v@.len() - i,
    {
        if has_at(v, i, part) {
            return Some(i);
        }
        i = i + 1;
    }
    if has_at(v, i, part) {
        return Some(i);
    }
    assert(first_from(v@, part@, v@.len() + 1int) is None);
    None
}

/// Where one of two characters first stands in `s`.
pub open spec fn first_of(s: Seq<char>, a: char, b: char) -> Option<int>
    decreases s.len(),
{
    if s.len() == 0 {
        None
    } else if s[0] == a || s[0] == b {
        Some(0)
    } else {
        match first_of(s.drop_first(), a, b) {
            Some(i) => Some(i + 1),
            None => None,
        }
    }
}

/// How far from `from` one of two characters first stands in `v`.
pub fn find_first_of(v: &Vec<char>, from: usize, a: char, b: char) -> (r: Option<usize>)
    requires
        from <= v@.len(),
    ensures
        match r {
            Some(i) => from + i < v@.len() && first_of(v@.skip(from as int), a, b) == Some(i as int),
            None => first_of(v@.skip(from as int), a, b) is None,
        },
    decreases v@.len() - from,
{
    if from == v.len() {
        return None;
    }
    assert(v@.skip(from as int)[0] == v@[from as int]);
    if v[from] == a || v[from] == b {
        return Some(0);
    }
    assert(v@.skip(from as int).drop_first() == v@.skip(from + 1));
    match find_first_of(v, from + 1, a, b) {
        Some(i) => Some(i + 1),
        None => None,
    }
}

/// Whether `s` holds `part` somewhere.
pub fn has_text(s: &str, part: &str) -> (r: bool)
    ensures
        r == holds(s@, part@),
{
    let v = chars_of(s);
    let p = chars_of(part);
    find_text(&v, &p, 0).is_some()
}

/// Where `c` last stands in `s`.
pub open spec fn last_index(s: Seq<char>, c: char) -> Option<int>
    decreases s.len(),
{
    if s.len() == 0 {
        None
    } else if s.last() == c {
        Some(s.len() - 1)
    } else {
        last_index(s.drop_last(), c)
    }
}

/// The last place of a character is where it stands, with no other behind it.
pub proof fn lemma_last_index(s: Seq<char>, c: char)
    ensures
        match last_index(s, c) {
            Some(i) => 0 <= i < s.len() && s[i] == c && forall|k: int| i < k < s.len() ==> s[k] != c,
            None => !s.contains(c),
        },
    decreases s.len(),
{
    if s.len() > 0 && s.last() != c {
        let t = s.drop_last();
        lemma_last_index(t, c);
        match last_index(t, c) {
            Some(i) => {
                assert(t[i] == s[i]);
                assert forall|k: int| i < k < s.len() implies s[k] != c by {
                    if k < t.len() {
                        assert(t[k] == s[k]);
                    }
                }
            },
            None => {
                if s.contains(c) {
                    let k = choose|k: int| 0 <= k < s.len() && s[k] == c;
                    assert(t[k] == c);
                }
            },
        }
    }
}

/// Where `c` last stands in `v`.
pub fn find_last(v: &Vec<char>, c: char) -> (r: Option<usize>)
    ensures
        match r {
            Some(i) => last_index(v@, c) == Some(i as int) && i < v@.len(),
            None => last_index(v@, c) is None,
        },
{
    let mut i: usize = v.len();
    assert(v@.take(i as int) == v@);
    while i > 0
        invariant
            i <= v@.len(),
            last_index(v@, c) == last_index(v@.take(i as int), c),
        decreases i,
    {
        if v[i - 1] == c {
            return Some(i - 1);
        }
        assert(v@.take(i as int).drop_last() == v@.take(i - 1));
        i = i - 1;
    }
    None
}

// ---------------------------------------------------------------------------
// Reading numerals
// ---------------------------------------------------------------------------

/// Whether a character is a decimal digit.
pub open spec fn is_digit(c: char) -> bool {
    '0' <= c && c <= '9'
}

/// The number that decimal digits stand for.
pub open spec fn digits_value(s: Seq<char>) -> nat
    decreases s.len(),
{
    if s.len() == 0 {
        0
    } else {
        10 * digits_value(s.drop_last()) + (s.last() as int - 48) as nat
    }
}

/// The digits of a numeral: a plus sign before them is dropped.
pub open spec fn unsigned(s: Seq<char>) -> Seq<char> {
    if s.len() > 0 && s[0] == '+' {
        s.drop_first()
    } else {
        s
    }
}

/// The number below or at `max` that a numeral stands for: one or more digits,
/// which a plus sign may precede.
pub open spec fn numeral(s: Seq<char>, max: nat) -> Option<nat> {
    let d = unsigned(s);
    if d.len() > 0 && (forall|i: int| 0 <= i < d.len() ==> is_digit(#[trigger] d[i]))
        && digits_value(d) <= max {
        Some(digits_value(d))
    } else {
        None
    }
}

proof fn lemma_digits_prefix(d: Seq<char>, i: int)
    requires
        0 <= i <= d.len(),
        forall|k: int| 0 <= k < d.len() ==> is_digit(#[trigger] d[k]),
    ensures
        digits_value(d.take(i)) <= digits_value(d),
    decreases d.len(),
{
    if i == d.len() {
        assert(d.take(i) == d);
    } else {
        lemma_digits_prefix(d.drop_last(), i);
        assert(d.drop_last().take(i) == d.take(i));
    }
}

/// Reads the numeral `v[from..to]`.
pub fn read_numeral(v: &Vec<char>, from: usize, to: usize, max: u64) -> (r: Option<u64>)
    requires
        from <= to <= v@.len(),
    ensures
        match numeral(v@.subrange(from as int, to as int), max as nat) {
            Some(n) => r == Some(n as u64) && n <= max,
            None => r is None,
        },
{
    let ghost whole = v@.subrange(from as int, to as int);
    let start: usize = if from < to && v[from] == '+' {
        from + 1
    } else {
        from
    };
    let ghost d = v@.subrange(start as int, to as int);
    proof {
        if start != from {
            assert(d == whole.drop_first());
        }
        assert(d == unsigned(whole));
    }
    if start == to {
        return None;
    }
    let mut acc: u64 = 0;
    let mut i: usize = start;
    assert(d.take(0).len() == 0);
    while i < to
        invariant
            start <= i <= to <= v@.len(),
            whole == v@.subrange(from as int, to as int),
            d == v@.subrange(start as int, to as int),
            d == unsigned(whole),
            forall|k: int| 0 <= k < i - start ==> is_digit(#[trigger] d[k]),
            acc == digits_value(d.take(i - start)),
            acc <= max,
        decreases to - i,
    {
        let c = v[i];
        proof {
            assert(d[i - start] == c);
            assert(d.take(i - start + 1).drop_last() == d.take(i - start));
            assert(d.take(i - start + 1).last() == c);
        }
        if !('0' <= c && c <= '9') {
            return None;
        }
        let n: u64 = (c as u32 - 48) as u64;
        if acc as u128 * 10 + n as u128 > max as u128 {
            proof {
                if forall|k: int| 0 <= k < d.len() ==> is_digit(#[trigger] d[k]) {
                    lemma_digits_prefix(d, i - start + 1);
                }
            }
            return None;
        }
        acc = acc * 10 + n;
        i = i + 1;
    }
    assert(d.take(to - start) == d);
    Some(acc)
}

// ---------------------------------------------------------------------------
// Words
// ---------------------------------------------------------------------------

/// How many characters before the first white space.
pub open spec fn run_len(s: Seq<char>) -> nat
    decreases s.len(),
{
    if s.len() == 0 || is_white(s[0]) {
        0
    } else {
        1 + run_len(s.drop_first())
    }
}

/// A run is no longer than the text.
pub proof fn lemma_run_len(s: Seq<char>)
    ensures
        run_len(s) <= s.len(),
    decreases s.len(),
{
    if s.len() > 0 && !is_white(s[0]) {
        lemma_run_len(s.drop_first());
    }
}

/// Trimming makes nothing longer, and leaves no white space at the start.
pub proof fn lemma_trim_start(s: Seq<char>)
    ensures
        trim_start(s).len() <= s.len(),
        trim_start(s).len() > 0 ==> !is_white(trim_start(s)[0]),
    decreases s.len(),
{
    if s.len() > 0 && is_white(s[0]) {
        lemma_trim_start(s.drop_first());
    }
}

/// The words of a text: what stands between white space.
pub open spec fn words(s: Seq<char>) -> Seq<Seq<char>>
    decreases s.len(),
{
    let t = trim_start(s);
    if t.len() == 0 {
        Seq::empty()
    } else {
        proof {
            lemma_trim_start(s);
            lemma_run_len(t);
        }
        seq![t.take(run_len(t) as int)] + words(t.skip(run_len(t) as int))
    }
}

/// The words of a text.
pub fn words_of(s: &str) -> (r: Vec<String>)
    ensures
        views(r@) == words(s@),
{
    let v = chars_of(s);
    let n: usize = v.len();
    let mut out: Vec<String> = Vec::new();
    let mut at: usize = 0;
    proof {
        assert(v@.skip(0) == s@);
        assert(views(out@) + words(s@) == words(s@));
    }
    loop
        invariant
            at <= n == v@.len(),
            v@ == s@,
            views(out@) + words(v@.skip(at as int)) == words(s@),
        decreases n - at,
    {
        let ghost rest = v@.skip(at as int);
        let mut a: usize = at;
        while a < n && is_white_char(v[a])
            invariant
                at <= a <= n == v@.len(),
                rest == v@.skip(at as int),
                trim_start(rest) == trim_start(v@.skip(a as int)),
            decreases n - a,
        {
            assert(v@.skip(a as int).drop_first() == v@.skip(a + 1));
            a = a + 1;
        }
        let ghost t = v@.skip(a as int);
        assert(trim_start(rest) == t);
        if a == n {
            assert(words(rest) == Seq::<Seq<char>>::empty());
            assert(views(out@) == words(s@));
            return out;
        }
        let mut b: usize = a;
        while b < n && !is_white_char(v[b])
            invariant
                a <= b <= n == v@.len(),
                t == v@.skip(a as int),
                run_len(t) == b - a + run_len(v@.skip(b as int)),
            decreases n - b,
        {
            assert(v@.skip(b as int).drop_first() == v@.skip(b + 1));
            b = b + 1;
        }
        let word = string_of(&v, a, b);
        let ghost before = views(out@);
        let ghost w = word@;
        out.push(word);
        proof {
            assert(run_len(t) == b - a);
            assert(w == t.take(b - a));
            assert(t.skip(b - a) == v@.skip(b as int));
            assert(words(rest) == seq![w] + words(v@.skip(b as int)));
            assert(views(out@) == before.push(w));
            assert(before + (seq![w] + words(v@.skip(b as int))) == before.push(w) + words(
                v@.skip(b as int),
            ));
        }
        at = b;
    }
}

/// What `String::from_utf8_lossy` makes of bytes.
pub uninterp spec fn lossy_text(b: Seq<u8>) -> Seq<char>;

/// `String::from_utf8_lossy`: the text of bytes, with a replacement character
/// for what is not UTF-8.
#[verifier::external_body]
pub(crate) fn lossy_string(b: &[u8]) -> (r: String)
    ensures
        r@ == lossy_text(b@),
        valid_utf8(b@) ==> r@ == decode_utf8(b@),
{
    String::from_utf8_lossy(b).to_string()
}


// ---------------------------------------------------------------------------
// Laws
// ---------------------------------------------------------------------------

/// A text is replaced part by part, and of one character alone either all or nothing.
pub proof fn law_replaced_part_by_part(a: Seq<char>, b: Seq<char>, x: char, c: char, by: Seq<char>)
    ensures
        replaced(a + b, c, by) == replaced(a, c, by) + replaced(b, c, by),
        replaced(seq![c], c, by) == by,
        x != c ==> replaced(seq![x], c, by) == seq![x],
    decreases b.len(),
{
    reveal_with_fuel(replaced, 2);
    assert(seq![c].drop_last() == Seq::<char>::empty());
    assert(seq![x].drop_last() == Seq::<char>::empty());
    assert(replaced(seq![c], c, by) =~= by);
    assert(x != c ==> replaced(seq![x], c, by) =~= seq![x]);
    if b.len() == 0 {
        assert(a + b =~= a);
        assert(replaced(a, c, by) + replaced(b, c, by) =~= replaced(a, c, by));
    } else {
        law_replaced_part_by_part(a, b.drop_last(), x, c, by);
        assert((a + b).drop_last() =~= a + b.drop_last());
        assert((a + b).last() == b.last());
        assert(replaced(a + b, c, by) =~= replaced(a, c, by) + replaced(b, c, by));
    }
}

/// Joined parts stand in their order, with the separator between any two of them and nowhere
/// else.
pub proof fn law_joined_part_by_part(a: Seq<Seq<char>>, b: Seq<Seq<char>>, x: Seq<char>, sep: Seq<char>)
    ensures
        join(seq![x], sep) == x,
        join(Seq::empty(), sep) == Seq::<char>::empty(),
        a.len() > 0 && b.len() > 0 ==> join(a + b, sep) == join(a, sep) + sep + join(b, sep),
    decreases b.len(),
{
    if a.len() > 0 && b.len() > 0 {
        assert((a + b).drop_last() =~= a + b.drop_last());
        assert((a + b).last() == b.last());
        if b.len() == 1 {
            assert(a + b.drop_last() =~= a);
        } else {
            law_joined_part_by_part(a, b.drop_last(), x, sep);
            assert(join(a + b, sep) =~= join(a, sep) + sep + join(b, sep));
        }
    }
}

/// White space is made of these characters.
pub proof fn law_white_space_is_these(c: char)
    ensures
        is_white(c) <==> c == ' ' || c == '\t' || c == '\n' || c == '\u{b}' || c == '\u{c}' || c == '\r'
            || c == '\u{85}' || c == '\u{a0}' || c == '\u{1680}' || c == '\u{2000}' || c == '\u{2001}' || c
            == '\u{2002}' || c == '\u{2003}' || c == '\u{2004}' || c == '\u{2005}' || c == '\u{2006}' || c
            == '\u{2007}' || c == '\u{2008}' || c == '\u{2009}' || c == '\u{200a}' || c == '\u{2028}' || c
            == '\u{2029}' || c == '\u{202f}' || c == '\u{205f}' || c == '\u{3000}',
{
}

/// Whether a text is white space and nothing else.
pub open spec fn all_white(s: Seq<char>) -> bool {
    forall|i: int| 0 <= i < s.len() ==> is_white(#[trigger] s[i])
}

/// Whether a text has no white space at its ends.
pub open spec fn is_tight(s: Seq<char>) -> bool {
    s.len() > 0 ==> !is_white(s[0]) && !is_white(s.last())
}

proof fn lemma_trim_start_white(a: Seq<char>, t: Seq<char>)
    requires
        all_white(a),
        t.len() > 0 ==> !is_white(t[0]),
    ensures
        trim_start(a + t) == t,
    decreases a.len(),
{
    if a.len() == 0 {
        assert(a + t =~= t);
    } else {
        assert(is_white(a[0]));
        assert((a + t)[0] == a[0]);
        assert((a + t).drop_first() =~= a.drop_first() + t);
        assert forall|i: int| 0 <= i < a.drop_first().len() implies is_white(
            #[trigger] a.drop_first()[i],
        ) by {
            assert(is_white(a[i + 1]));
        }
        lemma_trim_start_white(a.drop_first(), t);
    }
}

proof fn lemma_trim_end_white(t: Seq<char>, b: Seq<char>)
    requires
        all_white(b),
        t.len() > 0 ==> !is_white(t.last()),
    ensures
        trim_end(t + b) == t,
    decreases b.len(),
{
    if b.len() == 0 {
        assert(t + b =~= t);
    } else {
        assert(is_white(b[b.len() - 1]));
        assert((t + b).last() == b.last());
        assert((t + b).drop_last() =~= t + b.drop_last());
        assert forall|i: int| 0 <= i < b.drop_last().len() implies is_white(
            #[trigger] b.drop_last()[i],
        ) by {
            assert(is_white(b[i]));
        }
        lemma_trim_end_white(t, b.drop_last());
    }
}

/// What is left of a text when the white space round it is taken away is what stood inside it,
/// whatever white space stood round it.
pub proof fn law_trimmed_is_what_stands_inside(before: Seq<char>, t: Seq<char>, after: Seq<char>)
    requires
        all_white(before),
        all_white(after),
        is_tight(t),
    ensures
        trim(before + t + after) == t,
{
    if t.len() > 0 {
        lemma_trim_start_white(before, t + after);
        assert(before + t + after =~= before + (t + after));
        lemma_trim_end_white(t, after);
    } else {
        let all = before + t + after;
        assert forall|i: int| 0 <= i < all.len() implies is_white(#[trigger] all[i]) by {
            if i < before.len() {
                assert(is_white(before[i]));
            } else {
                assert(is_white(after[i - before.len()]));
            }
        }
        lemma_trim_start_white(all, t);
        assert(all + t =~= all);
        assert(trim_end(t) == t);
    }
}

proof fn lemma_white_start(s: Seq<char>)
    ensures
        trim_start(s).len() <= s.len(),
        s.skip(s.len() - trim_start(s).len()) == trim_start(s),
        all_white(s.take(s.len() - trim_start(s).len())),
    decreases s.len(),
{
    if s.len() > 0 && is_white(s[0]) {
        let rest = s.drop_first();
        lemma_white_start(rest);
        let n = s.len() - trim_start(s).len();
        assert(s.skip(n) =~= rest.skip(n - 1));
        assert forall|i: int| 0 <= i < n implies is_white(#[trigger] s.take(n)[i]) by {
            if i > 0 {
                assert(is_white(rest.take(n - 1)[i - 1]));
            }
        }
    } else {
        assert(s.skip(0) =~= s);
    }
}

proof fn lemma_white_end(s: Seq<char>)
    ensures
        trim_end(s).len() <= s.len(),
        s.take(trim_end(s).len() as int) == trim_end(s),
        all_white(s.skip(trim_end(s).len() as int)),
        trim_end(s).len() > 0 ==> !is_white(trim_end(s).last()),
    decreases s.len(),
{
    if s.len() > 0 && is_white(s.last()) {
        let most = s.drop_last();
        lemma_white_end(most);
        let n = trim_end(s).len() as int;
        assert(s.take(n) =~= most.take(n));
        assert forall|i: int| 0 <= i < s.len() - n implies is_white(#[trigger] s.skip(n)[i]) by {
            if i < most.len() - n {
                assert(is_white(most.skip(n)[i]));
            }
        }
    } else {
        assert(s.take(s.len() as int) =~= s);
    }
}

/// Every text is white space, the trimmed text and white space. The trimmed text has none at
/// its ends.
pub proof fn law_only_white_space_is_trimmed(s: Seq<char>) -> (r: (Seq<char>, Seq<char>))
    ensures
        all_white(r.0),
        all_white(r.1),
        is_tight(trim(s)),
        s == r.0 + trim(s) + r.1,
{
    lemma_white_start(s);
    lemma_trim_start(s);
    let t = trim_start(s);
    lemma_white_end(t);
    let before = s.take(s.len() - t.len());
    let after = t.skip(trim_end(t).len() as int);
    assert(s =~= before + trim(s) + after);
    (before, after)
}

/// A text starts with another if something follows that other to make it, and ends with
/// another if something precedes it.
pub proof fn law_ends_of_a_text(s: Seq<char>, part: Seq<char>)
    ensures
        starts_with(s, part) <==> exists|rest: Seq<char>| s == #[trigger] (part + rest),
        ends_with(s, part) <==> exists|rest: Seq<char>| s == #[trigger] (rest + part),
        holds(s, part) <==> exists|a: Seq<char>, b: Seq<char>| s == #[trigger] (a + part + b),
{
    if starts_with(s, part) {
        assert(s =~= part + s.skip(part.len() as int));
    }
    if exists|rest: Seq<char>| s == #[trigger] (part + rest) {
        assert(s.take(part.len() as int) =~= part);
    }
    if ends_with(s, part) {
        assert(s =~= s.take(s.len() - part.len()) + part);
    }
    if exists|rest: Seq<char>| s == #[trigger] (rest + part) {
        assert(s.skip(s.len() - part.len()) =~= part);
    }
    if holds(s, part) {
        let i = choose|i: int| 0 <= i <= s.len() && starts_with(#[trigger] s.skip(i), part);
        let t = s.skip(i);
        assert(s =~= s.take(i) + part + t.skip(part.len() as int));
    }
    if exists|a: Seq<char>, b: Seq<char>| s == #[trigger] (a + part + b) {
        let (a, b) = choose|a: Seq<char>, b: Seq<char>| s == #[trigger] (a + part + b);
        assert(s.skip(a.len() as int).take(part.len() as int) =~= part);
        assert(starts_with(s.skip(a.len() as int), part));
    }
}

/// A part is found where it stands first, and not found only where it stands nowhere.
pub proof fn law_found_where_it_stands_first(s: Seq<char>, part: Seq<char>, from: int)
    requires
        0 <= from,
    ensures
        match first_from(s, part, from) {
            Some(i) => from <= i <= s.len() && starts_with(s.skip(i), part) && forall|k: int|
                from <= k < i ==> !starts_with(#[trigger] s.skip(k), part),
            None => forall|k: int| from <= k <= s.len() ==> !starts_with(#[trigger] s.skip(k), part),
        },
    decreases s.len() - from + 1,
{
    if from <= s.len() && !starts_with(s.skip(from), part) {
        law_found_where_it_stands_first(s, part, from + 1);
    }
}

/// The first of two characters is where one of them stands and none stood before.
pub proof fn law_first_of_two_characters(s: Seq<char>, a: char, b: char)
    ensures
        match first_of(s, a, b) {
            Some(i) => 0 <= i < s.len() && (s[i] == a || s[i] == b) && forall|k: int|
                0 <= k < i ==> s[k] != a && s[k] != b,
            None => !s.contains(a) && !s.contains(b),
        },
    decreases s.len(),
{
    if s.len() > 0 && s[0] != a && s[0] != b {
        let rest = s.drop_first();
        law_first_of_two_characters(rest, a, b);
        match first_of(rest, a, b) {
            Some(i) => {
                assert forall|k: int| 0 <= k < i + 1 implies s[k] != a && s[k] != b by {
                    if k > 0 {
                        assert(rest[k - 1] == s[k]);
                    }
                }
            },
            None => {
                assert forall|k: int| 0 <= k < s.len() implies s[k] != a && s[k] != b by {
                    if k > 0 {
                        assert(rest[k - 1] == s[k]);
                        assert(rest.contains(s[k]));
                    }
                }
            },
        }
    }
}

/// A numeral reads back as the number it was written for, with a plus sign or without, as long
/// as the number is not too large. What is read is made of digits, with at most one plus sign
/// before them.
pub proof fn law_numerals_read_back(n: nat, max: nat, s: Seq<char>)
    ensures
        numeral(dec(n), max) == (if n <= max {
            Some(n)
        } else {
            None::<nat>
        }),
        numeral(seq!['+'] + dec(n), max) == numeral(dec(n), max),
        numeral(s, max) is Some ==> s.len() > 0 && is_digit(s.last()) && forall|i: int|
            0 <= i < s.len() ==> is_digit(#[trigger] s[i]) || (i == 0 && s[i] == '+'),
        numeral(Seq::empty(), max) is None,
        numeral(seq!['+'], max) is None,
{
    lemma_dec_digits(n);
    lemma_dec_value(n);
    assert(is_digit(dec(n)[0]));
    assert(unsigned(dec(n)) == dec(n));
    assert((seq!['+'] + dec(n)).drop_first() =~= dec(n));
    assert(unsigned(seq!['+']).len() == 0);
    if numeral(s, max) is Some {
        let d = unsigned(s);
        assert(is_digit(d[d.len() - 1]));
        assert forall|i: int| 0 <= i < s.len() implies is_digit(#[trigger] s[i]) || (i == 0 && s[i]
            == '+') by {
            if s[0] == '+' {
                if i > 0 {
                    assert(is_digit(d[i - 1]));
                }
            } else {
                assert(is_digit(d[i]));
            }
        }
    }
}

/// One more byte makes a number as many times larger as a byte has values.
pub proof fn law_bytes_count_from_the_last(s: Seq<u8>, b: u8, v: nat, n: nat)
    ensures
        be_value(s.push(b)) == 256 * be_value(s) + b,
        be_bytes(256 * v + b as nat, n + 1) == be_bytes(v, n).push(b),
        be_value(seq![b]) == b,
{
    assert(s.push(b).drop_last() =~= s);
    assert(seq![b].drop_last() == Seq::<u8>::empty());
    reveal_with_fuel(be_value, 2);
    assert((256 * v + b as nat) / 256 == v);
    assert((256 * v + b as nat) % 256 == b);
}


/// Without the separator a text is one piece. Otherwise its first piece is what stands before
/// the first separator, and the others are those of what follows.
pub proof fn law_first_piece_is_cut_off(piece: Seq<char>, sep: char, rest: Seq<char>)
    requires
        !piece.contains(sep),
    ensures
        split(piece, sep) == seq![piece],
        split(piece + seq![sep] + rest, sep) == seq![piece] + split(rest, sep),
    decreases piece.len() + rest.len(),
{
    if piece.len() > 0 {
        let most = piece.drop_last();
        assert forall|k: int| 0 <= k < most.len() implies most[k] != sep by {
            assert(piece[k] == most[k]);
        }
        law_first_piece_is_cut_off(most, sep, Seq::empty());
        assert(piece.last() != sep);
        assert(most.push(piece.last()) =~= piece);
        assert(seq![most].drop_last().push(piece) =~= seq![piece]);
    } else {
        assert(piece =~= Seq::empty());
    }
    let all = piece + seq![sep] + rest;
    if rest.len() == 0 {
        assert(all.drop_last() =~= piece);
        assert(all.last() == sep);
        assert(rest =~= Seq::empty());
        assert(seq![piece].push(Seq::empty()) =~= seq![piece] + split(rest, sep));
    } else {
        law_first_piece_is_cut_off(piece, sep, rest.drop_last());
        lemma_split_pieces(rest.drop_last(), sep);
        assert(all.drop_last() =~= piece + seq![sep] + rest.drop_last());
        assert(all.last() == rest.last());
        let before = split(rest.drop_last(), sep);
        assert((seq![piece] + before).last() == before.last());
        assert(split(all, sep) =~= seq![piece] + split(rest, sep));
    }
}

/// A line ends at a line feed, with a carriage return before it or without. What follows the
/// last line feed is a line unless it is empty.
pub proof fn law_lines_end_at_line_feeds(line: Seq<char>, rest: Seq<char>)
    requires
        !line.contains('\n'),
    ensures
        line.len() == 0 || line.last() != '\r' ==> lines(line + seq!['\n'] + rest) == seq![line] + lines(
            rest,
        ),
        lines(line + seq!['\r', '\n'] + rest) == seq![line] + lines(rest),
        line.len() > 0 ==> lines(line) == seq![line],
        lines(Seq::empty()) == Seq::<Seq<char>>::empty(),
{
    lemma_split_pieces(rest, '\n');
    law_first_piece_is_cut_off(line, '\n', rest);
    law_first_piece_is_cut_off(Seq::empty(), '\n', rest);
    assert(lines(Seq::empty()) =~= Seq::<Seq<char>>::empty());
    if line.len() > 0 {
        assert(lines(line) =~= seq![line]);
    }
    if line.len() == 0 || line.last() != '\r' {
        assert(lines(line + seq!['\n'] + rest) =~= seq![line] + lines(rest));
    }
    let ended = line.push('\r');
    assert forall|k: int| 0 <= k < ended.len() implies ended[k] != '\n' by {
        if k < line.len() {
            assert(line[k] == ended[k]);
        }
    }
    law_first_piece_is_cut_off(ended, '\n', rest);
    assert(line + seq!['\r', '\n'] + rest =~= ended + seq!['\n'] + rest);
    assert(without_cr(ended) =~= line);
    assert(lines(ended + seq!['\n'] + rest) =~= seq![line] + lines(rest));
}

proof fn lemma_run(w: Seq<char>, rest: Seq<char>)
    requires
        forall|i: int| 0 <= i < w.len() ==> !is_white(#[trigger] w[i]),
        rest.len() > 0 ==> is_white(rest[0]),
    ensures
        run_len(w + rest) == w.len(),
    decreases w.len(),
{
    if w.len() == 0 {
        assert(w + rest =~= rest);
    } else {
        assert((w + rest)[0] == w[0]);
        assert((w + rest).drop_first() =~= w.drop_first() + rest);
        assert forall|i: int| 0 <= i < w.drop_first().len() implies !is_white(
            #[trigger] w.drop_first()[i],
        ) by {
            assert(!is_white(w[i + 1]));
        }
        lemma_run(w.drop_first(), rest);
    }
}

/// The words of a text are what stands between white space: white space alone holds none, and
/// what stands before the next white space is one.
pub proof fn law_words_stand_between_white_space(white: Seq<char>, word: Seq<char>, rest: Seq<char>)
    requires
        all_white(white),
        word.len() > 0,
        forall|i: int| 0 <= i < word.len() ==> !is_white(#[trigger] word[i]),
        rest.len() > 0 ==> is_white(rest[0]),
    ensures
        words(white) == Seq::<Seq<char>>::empty(),
        words(white + word + rest) == seq![word] + words(rest),
{
    let all = white + word + rest;
    lemma_trim_start_white(white, Seq::empty());
    assert(white + Seq::<char>::empty() =~= white);
    assert(!is_white(word[0]));
    assert(all =~= white + (word + rest));
    lemma_trim_start_white(white, word + rest);
    lemma_run(word, rest);
    assert((word + rest).take(word.len() as int) =~= word);
    assert((word + rest).skip(word.len() as int) =~= rest);
}


/// What a text is put together from is in it.
pub proof fn lemma_put_together(a: Seq<char>, part: Seq<char>, b: Seq<char>)
    ensures
        starts_with(part + b, part),
        ends_with(a + part, part),
        holds(a + part + b, part),
{
    assert((part + b).take(part.len() as int) =~= part);
    assert((a + part).skip(a.len() as int) =~= part);
    let s = a + part + b;
    assert(s.skip(a.len() as int) =~= part + b);
    assert(starts_with(s.skip(a.len() as int), part));
}


/// The hexadecimal digits, with their values. Large and small letters count the same.
pub proof fn law_hexadecimal_digits_have_values(c: char)
    ensures
        is_hex_digit('0') && hex_digit_value('0') == 0,
        is_hex_digit('9') && hex_digit_value('9') == 9,
        is_hex_digit('a') && hex_digit_value('a') == 10,
        is_hex_digit('f') && hex_digit_value('f') == 15,
        is_hex_digit('A') && hex_digit_value('A') == 10,
        is_hex_digit('F') && hex_digit_value('F') == 15,
        is_hex_digit(c) ==> 0 <= hex_digit_value(c) < 16 && (c == hex_digit(hex_digit_value(c) as nat) || (
        c as int + 32 == hex_digit(hex_digit_value(c) as nat) as int && hex_digit_value(c) >= 10)),
{
}


/// A text without the character stays as it is.
pub proof fn law_nothing_to_replace(s: Seq<char>, c: char, by: Seq<char>)
    requires
        !s.contains(c),
    ensures
        replaced(s, c, by) == s,
    decreases s.len(),
{
    if s.len() > 0 {
        let most = s.drop_last();
        assert forall|k: int| 0 <= k < most.len() implies most[k] != c by {
            assert(s[k] == most[k]);
        }
        law_nothing_to_replace(most, c, by);
        assert(s[s.len() - 1] != c);
        assert(replaced(s, c, by) =~= s);
    }
}

} // verus!
