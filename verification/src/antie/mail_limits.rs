//! Which raw mails the mail parser may be handed.
//!
//! The parser follows messages inside messages to any depth and then takes them apart one within
//! the other, so that enough of them exhaust the stack; two of them in a multipart trip a debug
//! assertion. It counts in 32 bits. With overflow checks it stops at a quoted-printable part that
//! breaks off before it has begun, and at the least number of 64 bits as a time zone. A mail in
//! which none of this can happen is parsable; one message in a mail may stand there, if it cannot
//! be encoded.
use vstd::prelude::*;

verus! {

/// The longest mail that is parsed, in bytes.
pub const MAX_MAIL: usize = 0x7fff_ffff;

/// `message`, the type of messages in a mail.
pub const MESSAGE: [u8; 7] = [109, 101, 115, 115, 97, 103, 101];

/// `multipart`, the type of parts that hold others.
pub const MULTIPART: [u8; 9] = [109, 117, 108, 116, 105, 112, 97, 114, 116];

/// `rfc822`, the kind of a message in a mail.
pub const RFC822: [u8; 6] = [114, 102, 99, 56, 50, 50];

/// `global`, the kind of a message in a mail with headers in UTF-8.
pub const GLOBAL: [u8; 6] = [103, 108, 111, 98, 97, 108];

/// `digest`, the kind of a multipart whose parts are messages.
pub const DIGEST: [u8; 6] = [100, 105, 103, 101, 115, 116];

/// `base64`, a transfer encoding.
pub const BASE64: [u8; 6] = [98, 97, 115, 101, 54, 52];

/// `quoted-printable`, a transfer encoding.
pub const QUOTED_PRINTABLE: [u8; 16] = [
    113, 117, 111, 116, 101, 100, 45, 112, 114, 105, 110, 116, 97, 98, 108, 101,
];

/// `=?`, the start of an encoded word.
pub const ENCODED_WORD: [u8; 2] = [61, 63];

/// The digits of the least number of 64 bits.
pub const LEAST: [u8; 19] = [57, 50, 50, 51, 51, 55, 50, 48, 51, 54, 56, 53, 52, 55, 55, 53, 56, 48, 56];

/// A byte, ASCII capitals made small.
pub open spec fn small(x: u8) -> u8 {
    if 65 <= x <= 90 {
        (x + 32) as u8
    } else {
        x
    }
}

/// Whether a word in small letters stands at a place, in any letter case.
pub open spec fn word_at(b: Seq<u8>, word: Seq<u8>, i: int) -> bool {
    &&& 0 <= i
    &&& i + word.len() <= b.len()
    &&& forall|k: int| 0 <= k < word.len() ==> small(b[i + k]) == #[trigger] word[k]
}

/// Whether a word in small letters stands anywhere, in any letter case.
pub open spec fn holds(b: Seq<u8>, word: Seq<u8>) -> bool {
    exists|i: int| word_at(b, word, i)
}

/// Whether a byte is passed over between the words of a content type: a blank, a quote, or a
/// backslash.
pub open spec fn passed_over(x: u8) -> bool {
    x == 32 || x == 9 || x == 13 || x == 34 || x == 92
}

/// The place behind the last byte before another place that is not passed over.
pub open spec fn word_end(b: Seq<u8>, i: int) -> int
    decreases i,
{
    if i <= 0 || !passed_over(b[i - 1]) {
        i
    } else {
        word_end(b, i - 1)
    }
}

/// Whether a slash at a place can stand behind `message` or `multipart` in a content type. What
/// stands before a comment or on an earlier line is not looked at.
pub open spec fn slash_at(b: Seq<u8>, i: int) -> bool {
    let end = word_end(b, i);
    &&& 0 <= i < b.len()
    &&& b[i] == 47
    &&& {
        ||| word_at(b, MESSAGE@, end - 7)
        ||| word_at(b, MULTIPART@, end - 9)
        ||| end > 0 && (b[end - 1] == 41 || b[end - 1] == 10)
    }
}

/// Whether such a slash stands on the line of a place, before it.
pub open spec fn behind_slash(b: Seq<u8>, i: int) -> bool {
    exists|s: int| s < i && #[trigger] slash_at(b, s) && forall|k: int| s < k < i ==> b[k] != 10
}

/// Whether the second word of a content type can start behind a byte: the slash, one passed over,
/// or the end of a comment.
pub open spec fn opens(x: u8) -> bool {
    x == 47 || passed_over(x) || x == 41
}

/// Whether the second word of a content type can end before a byte: a semicolon, the end of the
/// line, one passed over, or the start of a comment.
pub open spec fn closes(x: u8) -> bool {
    x == 59 || x == 10 || passed_over(x) || x == 40
}

/// Whether a content type that makes messages of parts can have its second word at a place.
pub open spec fn names_message_at(b: Seq<u8>, i: int) -> bool {
    &&& 1 <= i
    &&& i + 6 < b.len()
    &&& behind_slash(b, i)
    &&& opens(b[i - 1])
    &&& closes(b[i + 6])
    &&& word_at(b, RFC822@, i) || word_at(b, GLOBAL@, i) || word_at(b, DIGEST@, i)
}

/// Whether a transfer encoding can be named.
pub open spec fn names_encoding(b: Seq<u8>) -> bool {
    holds(b, BASE64@) || holds(b, QUOTED_PRINTABLE@) || holds(b, ENCODED_WORD@)
}

/// Whether messages can stand in messages: where two are named, or one that may be encoded and
/// hold others.
pub open spec fn nests(b: Seq<u8>) -> bool {
    ||| exists|i: int, j: int|
        i < j && #[trigger] names_message_at(b, i) && #[trigger] names_message_at(b, j)
    ||| (exists|i: int| names_message_at(b, i)) && names_encoding(b)
}

/// Whether a byte is a blank within a line.
pub open spec fn blank(x: u8) -> bool {
    x == 32 || x == 9 || x == 13 || x == 12
}

/// What the last line holds besides blanks.
pub open spec fn last_line(b: Seq<u8>) -> Seq<u8>
    decreases b.len(),
{
    if b.len() == 0 || b.last() == 10 {
        Seq::empty()
    } else if blank(b.last()) {
        last_line(b.drop_last())
    } else {
        last_line(b.drop_last()).push(b.last())
    }
}

/// Whether a line ends at a place in a soft break behind at most one quoted-printable character,
/// and the next line begins like a boundary.
pub open spec fn breaks_off_at(b: Seq<u8>, i: int) -> bool {
    &&& 0 <= i
    &&& i + 2 < b.len()
    &&& b[i] == 10
    &&& b[i + 1] == 45
    &&& b[i + 2] == 45
    &&& 1 <= last_line(b.take(i)).len() <= 4
    &&& last_line(b.take(i)).last() == 61
}

/// Whether a quoted-printable part can break off before it has begun.
pub open spec fn breaks_off(b: Seq<u8>) -> bool {
    exists|i: int| breaks_off_at(b, i)
}

/// Whether the digits of the least number stand at a place, behind a minus sign or a zero.
pub open spec fn least_at(b: Seq<u8>, i: int) -> bool {
    1 <= i && word_at(b, LEAST@, i) && (b[i - 1] == 45 || b[i - 1] == 48)
}

/// Whether the least number can be named.
pub open spec fn names_least(b: Seq<u8>) -> bool {
    exists|i: int| least_at(b, i)
}

/// Whether a mail may be handed to the parser.
pub open spec fn parsable(b: Seq<u8>) -> bool {
    b.len() <= MAX_MAIL && !nests(b) && !breaks_off(b) && !names_least(b)
}

fn to_small(x: u8) -> (r: u8)
    ensures
        r == small(x),
{
    if 65 <= x && x <= 90 {
        x + 32
    } else {
        x
    }
}

fn is_word_at(b: &[u8], word: &[u8], i: usize) -> (r: bool)
    requires
        i <= b@.len(),
    ensures
        r == word_at(b@, word@, i as int),
{
    let len = b.len();
    if len - i < word.len() {
        return false;
    }
    let mut k: usize = 0;
    while k < word.len()
        invariant
            k <= word@.len(),
            len == b@.len(),
            i + word@.len() <= len,
            forall|m: int| 0 <= m < k ==> small(b@[i + m]) == #[trigger] word@[m],
        decreases word@.len() - k,
    {
        if to_small(b[i + k]) != word[k] {
            return false;
        }
        k = k + 1;
    }
    true
}

fn has_word(b: &[u8], word: &[u8]) -> (r: bool)
    requires
        word@.len() > 0,
    ensures
        r == holds(b@, word@),
{
    let mut i: usize = 0;
    while i < b.len()
        invariant
            i <= b@.len(),
            word@.len() > 0,
            forall|m: int| m < i ==> !word_at(b@, word@, m),
        decreases b@.len() - i,
    {
        if is_word_at(b, word, i) {
            return true;
        }
        i = i + 1;
    }
    false
}

fn is_passed_over(x: u8) -> (r: bool)
    ensures
        r == passed_over(x),
{
    x == 32 || x == 9 || x == 13 || x == 34 || x == 92
}

fn ends_with_word(b: &[u8], word: &[u8], end: usize) -> (r: bool)
    requires
        end <= b@.len(),
    ensures
        r == word_at(b@, word@, end - word@.len()),
{
    end >= word.len() && is_word_at(b, word, end - word.len())
}

fn is_slash_at(b: &[u8], i: usize) -> (r: bool)
    requires
        i < b@.len(),
    ensures
        r == slash_at(b@, i as int),
{
    if b[i] != 47 {
        return false;
    }
    let mut end: usize = i;
    while end > 0 && is_passed_over(b[end - 1])
        invariant
            end <= i < b@.len(),
            word_end(b@, end as int) == word_end(b@, i as int),
        decreases end,
    {
        end = end - 1;
    }
    let message: [u8; 7] = MESSAGE;
    let multipart: [u8; 9] = MULTIPART;
    ends_with_word(b, message.as_slice(), end) || ends_with_word(b, multipart.as_slice(), end) || (end
        > 0 && (b[end - 1] == 41 || b[end - 1] == 10))
}

fn is_message_at(b: &[u8], i: usize, behind: bool) -> (r: bool)
    requires
        i <= b@.len(),
        behind == behind_slash(b@, i as int),
    ensures
        r == names_message_at(b@, i as int),
{
    if !behind || i < 1 || b.len() - i <= 6 {
        return false;
    }
    let before = b[i - 1];
    let after = b[i + 6];
    if !(before == 47 || is_passed_over(before) || before == 41) {
        return false;
    }
    if !(after == 59 || after == 10 || is_passed_over(after) || after == 40) {
        return false;
    }
    let rfc822: [u8; 6] = RFC822;
    let global: [u8; 6] = GLOBAL;
    let digest: [u8; 6] = DIGEST;
    is_word_at(b, rfc822.as_slice(), i) || is_word_at(b, global.as_slice(), i) || is_word_at(
        b,
        digest.as_slice(),
        i,
    )
}

fn has_encoding(b: &[u8]) -> (r: bool)
    ensures
        r == names_encoding(b@),
{
    let base64: [u8; 6] = BASE64;
    let quoted: [u8; 16] = QUOTED_PRINTABLE;
    let encoded: [u8; 2] = ENCODED_WORD;
    has_word(b, base64.as_slice()) || has_word(b, quoted.as_slice()) || has_word(b, encoded.as_slice())
}

proof fn lemma_behind_next(b: Seq<u8>, i: int)
    requires
        0 <= i < b.len(),
    ensures
        behind_slash(b, i + 1) == (slash_at(b, i) || (behind_slash(b, i) && b[i] != 10)),
{
    if behind_slash(b, i + 1) {
        let s = choose|s: int|
            s < i + 1 && #[trigger] slash_at(b, s) && forall|k: int| s < k < i + 1 ==> b[k] != 10;
        if s < i {
            assert(b[i] != 10);
            assert(behind_slash(b, i));
        }
    }
    if behind_slash(b, i) && b[i] != 10 {
        let s = choose|s: int|
            s < i && #[trigger] slash_at(b, s) && forall|k: int| s < k < i ==> b[k] != 10;
        assert(forall|k: int| s < k < i + 1 ==> b[k] != 10);
        assert(behind_slash(b, i + 1));
    }
    if slash_at(b, i) {
        assert(behind_slash(b, i + 1));
    }
}

fn has_nested(b: &[u8]) -> (r: bool)
    ensures
        r == nests(b@),
{
    let mut found = false;
    let ghost mut first: int = 0;
    let mut behind = false;
    let mut i: usize = 0;
    assert(forall|s: int| s < 0 ==> !slash_at(b@, s));
    while i < b.len()
        invariant
            i <= b@.len(),
            behind == behind_slash(b@, i as int),
            found ==> first < i && names_message_at(b@, first),
            forall|m: int| m < i && #[trigger] names_message_at(b@, m) ==> found && m == first,
        decreases b@.len() - i,
    {
        if is_message_at(b, i, behind) {
            if found {
                assert(first < i && names_message_at(b@, first) && names_message_at(b@, i as int));
                return true;
            }
            found = true;
            proof {
                first = i as int;
            }
        }
        proof {
            lemma_behind_next(b@, i as int);
        }
        behind = is_slash_at(b, i) || (behind && b[i] != 10);
        i = i + 1;
    }
    assert(forall|m: int| #[trigger] names_message_at(b@, m) ==> found && m == first);
    found && has_encoding(b)
}

fn has_break(b: &[u8]) -> (r: bool)
    ensures
        r == breaks_off(b@),
{
    let mut marks: usize = 0;
    let mut last: u8 = 0;
    let mut i: usize = 0;
    assert(b@.take(0) == Seq::<u8>::empty());
    while i < b.len()
        invariant
            i <= b@.len(),
            marks <= i,
            marks == last_line(b@.take(i as int)).len(),
            marks > 0 ==> last == last_line(b@.take(i as int)).last(),
            forall|m: int| m < i ==> !breaks_off_at(b@, m),
        decreases b@.len() - i,
    {
        let x = b[i];
        if x == 10 && b.len() - i > 2 && b[i + 1] == 45 && b[i + 2] == 45 && 1 <= marks && marks <= 4
            && last == 61 {
            assert(breaks_off_at(b@, i as int));
            return true;
        }
        assert(!breaks_off_at(b@, i as int));
        proof {
            let next = b@.take(i + 1);
            assert(next.drop_last() == b@.take(i as int));
            assert(next.last() == x);
        }
        if x == 10 {
            marks = 0;
        } else if !(x == 32 || x == 9 || x == 13 || x == 12) {
            marks = marks + 1;
            last = x;
        }
        i = i + 1;
    }
    false
}

fn has_least(b: &[u8]) -> (r: bool)
    ensures
        r == names_least(b@),
{
    let least: [u8; 19] = LEAST;
    let mut i: usize = 1;
    while i < b.len()
        invariant
            1 <= i,
            least@ == LEAST@,
            forall|m: int| m < i ==> !least_at(b@, m),
        decreases b@.len() - i,
    {
        if (b[i - 1] == 45 || b[i - 1] == 48) && is_word_at(b, least.as_slice(), i) {
            assert(least_at(b@, i as int));
            return true;
        }
        i = i + 1;
    }
    assert(forall|m: int| m >= b@.len() ==> !least_at(b@, m));
    false
}

/// Whether a mail may be handed to the parser.
pub fn is_parsable(b: &[u8]) -> (r: bool)
    ensures
        r == parsable(b@),
{
    b.len() <= MAX_MAIL && !has_nested(b) && !has_break(b) && !has_least(b)
}


/// The words that are looked for, letter by letter, and the longest mail.
pub proof fn law_words_are_spelled()
    ensures
        MESSAGE@.len() == "message"@.len(),
        forall|i: int| 0 <= i < MESSAGE@.len() ==> #[trigger] MESSAGE@[i] as int == "message"@[i] as int,
        MULTIPART@.len() == "multipart"@.len(),
        forall|i: int| 0 <= i < MULTIPART@.len() ==> #[trigger] MULTIPART@[i] as int == "multipart"@[i] as int,
        RFC822@.len() == "rfc822"@.len(),
        forall|i: int| 0 <= i < RFC822@.len() ==> #[trigger] RFC822@[i] as int == "rfc822"@[i] as int,
        GLOBAL@.len() == "global"@.len(),
        forall|i: int| 0 <= i < GLOBAL@.len() ==> #[trigger] GLOBAL@[i] as int == "global"@[i] as int,
        DIGEST@.len() == "digest"@.len(),
        forall|i: int| 0 <= i < DIGEST@.len() ==> #[trigger] DIGEST@[i] as int == "digest"@[i] as int,
        BASE64@.len() == "base64"@.len(),
        forall|i: int| 0 <= i < BASE64@.len() ==> #[trigger] BASE64@[i] as int == "base64"@[i] as int,
        QUOTED_PRINTABLE@.len() == "quoted-printable"@.len(),
        forall|i: int| 0 <= i < QUOTED_PRINTABLE@.len() ==> #[trigger] QUOTED_PRINTABLE@[i] as int == "quoted-printable"@[i] as int,
        ENCODED_WORD@.len() == "=?"@.len(),
        forall|i: int| 0 <= i < ENCODED_WORD@.len() ==> #[trigger] ENCODED_WORD@[i] as int == "=?"@[i] as int,
        LEAST@.len() == "9223372036854775808"@.len(),
        forall|i: int| 0 <= i < LEAST@.len() ==> #[trigger] LEAST@[i] as int == "9223372036854775808"@[i] as int,
        MAX_MAIL == 2 * 1024 * 1024 * 1024 - 1,
{
    reveal_strlit("message");
    reveal_strlit("multipart");
    reveal_strlit("rfc822");
    reveal_strlit("global");
    reveal_strlit("digest");
    reveal_strlit("base64");
    reveal_strlit("quoted-printable");
    reveal_strlit("=?");
    reveal_strlit("9223372036854775808");
}

/// Capitals are made small and no other byte changes.
pub proof fn law_only_capitals_are_made_small(x: u8)
    ensures
        'A' as u8 <= x <= 'Z' as u8 ==> small(x) - x == 'a' as int - 'A' as int,
        !('A' as u8 <= x <= 'Z' as u8) ==> small(x) == x,
        small(small(x)) == small(x),
{
}

/// A word stands at a place in a mail if the mail reads so there, in large or small letters,
/// whatever stands before and behind it.
pub proof fn law_word_stands_where_it_is_read(before: Seq<u8>, word: Seq<u8>, after: Seq<u8>, b: Seq<u8>, i: int)
    requires
        forall|k: int| 0 <= k < word.len() ==> small(#[trigger] word[k]) == word[k],
    ensures
        word_at(before + word + after, word, before.len() as int),
        word_at(b, word, i) ==> 0 <= i && i + word.len() <= b.len() && forall|k: int|
            0 <= k < word.len() ==> small(#[trigger] b.subrange(i, i + word.len())[k]) == word[k],
        holds(before + word + after, word),
{
    let all = before + word + after;
    assert forall|k: int| 0 <= k < word.len() implies small(all[before.len() as int + k]) == #[trigger] word[k] by {
        assert(all[before.len() as int + k] == word[k]);
        assert(small(word[k]) == word[k]);
    }
    assert(word_at(all, word, before.len() as int));
    if word_at(b, word, i) {
        assert forall|k: int| 0 <= k < word.len() implies small(
            #[trigger] b.subrange(i, i + word.len())[k],
        ) == word[k] by {
            assert(b.subrange(i, i + word.len())[k] == b[i + k]);
            assert(small(b[i + k]) == word[k]);
        }
    }
}

/// What is passed over between the parts of a type, and what may stand round a kind.
pub proof fn law_bytes_round_a_kind(x: u8)
    ensures
        passed_over(x) <==> x as char == ' ' || x as char == '\t' || x as char == '\r' || x as char == '"' || x as char
            == '\\',
        opens(x) <==> x as char == '/' || x as char == ')' || passed_over(x),
        closes(x) <==> x as char == ';' || x as char == '\n' || x as char == '(' || passed_over(x),
        blank(x) <==> x as char == ' ' || x as char == '\t' || x as char == '\r' || x as char == '\u{c}',
{
}

/// The last line of a mail is what stands behind its last line feed, without blanks.
pub proof fn law_last_line_is_behind_the_line_feed(b: Seq<u8>, x: u8)
    ensures
        last_line(b.push(10)) == Seq::<u8>::empty(),
        blank(x) ==> last_line(b.push(x)) == last_line(b),
        x != 10 && !blank(x) ==> last_line(b.push(x)) == last_line(b).push(x),
        last_line(Seq::empty()) == Seq::<u8>::empty(),
{
    assert(b.push(x).drop_last() =~= b);
    assert(b.push(10).drop_last() =~= b);
}

/// A mail is not parsed if it is too long, if it has a message within a message or within an
/// encoded part, if an encoded part breaks off, or if it names the least number; and only then.
pub proof fn law_what_keeps_a_mail_from_being_parsed(b: Seq<u8>, i: int, j: int)
    ensures
        b.len() > 0x7fff_ffff ==> !parsable(b),
        i < j && names_message_at(b, i) && names_message_at(b, j) ==> !parsable(b),
        names_message_at(b, i) && (holds(b, BASE64@) || holds(b, QUOTED_PRINTABLE@) || holds(b, ENCODED_WORD@))
            ==> !parsable(b),
        breaks_off_at(b, i) ==> !parsable(b),
        least_at(b, i) ==> !parsable(b),
        !parsable(b) ==> b.len() > 0x7fff_ffff || names_least(b) || breaks_off(b) || exists|k: int| names_message_at(b, k),
{
}


/// A part is a message if its type says so, in large or small letters; two of them anywhere in
/// a mail keep it from being parsed.
pub proof fn law_message_types_are_found(before: Seq<u8>, after: Seq<u8>)
    ensures
        ({
            let b = before + MESSAGE@ + seq![47u8] + RFC822@ + seq![59u8] + after;
            slash_at(b, before.len() as int + 7) && names_message_at(b, before.len() as int + 8)
        }),
        ({
            let b = before + MESSAGE@ + seq![47u8] + GLOBAL@ + seq![59u8] + after;
            names_message_at(b, before.len() as int + 8)
        }),
        ({
            let b = before + MULTIPART@ + seq![47u8] + DIGEST@ + seq![59u8] + after;
            slash_at(b, before.len() as int + 9) && names_message_at(b, before.len() as int + 10)
        }),
{
    lemma_type_found(before, MESSAGE@, RFC822@, after);
    lemma_type_found(before, MESSAGE@, GLOBAL@, after);
    lemma_type_found(before, MULTIPART@, DIGEST@, after);
}

proof fn lemma_type_found(before: Seq<u8>, outer: Seq<u8>, inner: Seq<u8>, after: Seq<u8>)
    requires
        outer == MESSAGE@ || outer == MULTIPART@,
        inner == RFC822@ || inner == GLOBAL@ || inner == DIGEST@,
    ensures
        slash_at(before + outer + seq![47u8] + inner + seq![59u8] + after, before.len() as int + outer.len()),
        names_message_at(
            before + outer + seq![47u8] + inner + seq![59u8] + after,
            before.len() as int + outer.len() + 1,
        ),
{
    let b = before + outer + seq![47u8] + inner + seq![59u8] + after;
    let n = before.len() as int;
    let s = n + outer.len();
    assert(b[s] == 47);
    assert forall|k: int| 0 <= k < outer.len() implies small(b[n + k]) == #[trigger] outer[k] by {
        assert(b[n + k] == outer[k]);
    }
    assert(word_at(b, outer, n));
    assert(b[s - 1] == outer[outer.len() - 1]);
    assert(word_end(b, s) == s);
    assert(slash_at(b, s));
    assert(behind_slash(b, s + 1));
    assert forall|k: int| 0 <= k < inner.len() implies small(b[s + 1 + k]) == #[trigger] inner[k] by {
        assert(b[s + 1 + k] == inner[k]);
    }
    assert(word_at(b, inner, s + 1));
    assert(b[s + 7] == 59);
}


/// The least number counts where a minus sign or a zero stands before its digits.
pub proof fn law_least_number_has_a_sign(before: Seq<u8>, sign: u8, after: Seq<u8>)
    ensures
        least_at(before + seq![sign] + LEAST@ + after, before.len() as int + 1) <==> sign as char == '-' || sign as char
            == '0',
{
    let b = before + seq![sign] + LEAST@ + after;
    let i = before.len() as int + 1;
    assert(b[i - 1] == sign);
    let word = LEAST@;
    assert forall|k: int| 0 <= k < word.len() implies small(b[i + k]) == #[trigger] word[k] by {
        assert(b[i + k] == word[k]);
        assert(48 <= word[k] <= 57);
    }
    assert(word_at(b, word, i));
}

/// A part breaks off where a boundary follows a last line of at most four bytes that ends in an
/// equals sign.
pub proof fn law_boundaries_break_parts_off(part: Seq<u8>, after: Seq<u8>)
    ensures
        breaks_off_at(part + seq!['\n' as u8, '-' as u8, '-' as u8] + after, part.len() as int) <==> 1 <= last_line(
            part,
        ).len() <= 4 && last_line(part).last() as char == '=',
{
    let b = part + seq![10u8, 45u8, 45u8] + after;
    let i = part.len() as int;
    assert(b.take(i) =~= part);
    assert(b[i] == 10 && b[i + 1] == 45 && b[i + 2] == 45);
}

/// One message in a mail that names no encoding is not nested in anything.
pub proof fn law_one_message_is_not_nested(b: Seq<u8>)
    requires
        forall|i: int, j: int| #[trigger] names_message_at(b, i) && #[trigger] names_message_at(b, j) ==> i == j,
        !holds(b, BASE64@) && !holds(b, QUOTED_PRINTABLE@) && !holds(b, ENCODED_WORD@),
    ensures
        !nests(b),
{
}

} // verus!
