//! The monitoring endpoint: `/health` for everyone, `/status` for those who
//! know the token.
use vstd::prelude::*;
use vstd::utf8::*;
use crate::antie::error_response;
use crate::antie::error_response::{dual_format_error_body, ErrorCategory};
use crate::antie::payload;
use crate::antie::stats;
use crate::antie::stats::AntieStats;
use crate::json;
use crate::text;

verus! {

/// The value of the first parameter named `key` among pieces of a query.
pub open spec fn first_value(pieces: Seq<Seq<char>>, key: Seq<char>) -> Option<Seq<char>>
    decreases pieces.len(),
{
    if pieces.len() == 0 {
        None
    } else if text::starts_with(pieces[0], key + "="@) {
        Some(pieces[0].skip(key.len() as int + 1))
    } else {
        first_value(pieces.drop_first(), key)
    }
}

/// The value of the parameter named `key` in a query.
pub open spec fn param(query: Seq<char>, key: Seq<char>) -> Option<Seq<char>> {
    first_value(text::split(query, '&'), key)
}

/// The value of the parameter named `key` in a query.
pub fn extract_query_param(query: &str, key: &str) -> (r: Option<String>)
    ensures
        payload::opt(r) == param(query@, key@),
{
    let pieces = text::split_on(query, '&');
    let mut prefix = String::from_str(key);
    prefix.append("=");
    let p = text::chars_of(prefix.as_str());
    let ghost all = text::views(pieces@);
    assert(all.skip(0) == all);
    let mut i: usize = 0;
    while i < pieces.len()
        invariant
            i <= pieces@.len(),
            all == text::views(pieces@),
            p@ == key@ + "="@,
            first_value(all, key@) == first_value(all.skip(i as int), key@),
            first_value(all, key@) == param(query@, key@),
        decreases pieces@.len() - i,
    {
        let v = text::chars_of(pieces[i].as_str());
        proof {
            reveal_strlit("=");
            assert(v@.skip(0) == v@);
            assert(all.skip(i as int)[0] == v@);
            assert(all.skip(i as int).drop_first() == all.skip(i + 1));
        }
        if text::has_at(&v, 0, &p) {
            let value = text::string_of(&v, p.len(), v.len());
            assert(value@ == v@.skip(key@.len() as int + 1));
            return Some(value);
        }
        i = i + 1;
    }
    None
}

/// Whether a caller may see a page: everyone sees `/health`; the rest is for
/// those who give the token, if there is one.
pub open spec fn may_see(path: Seq<char>, query: Option<Seq<char>>, token: Option<Seq<char>>) -> bool {
    path == "/health"@ || match token {
        None => true,
        Some(t) => query is Some && param(query->0, "token"@) == Some(t),
    }
}

/// The health page is open to everyone, whatever the token and the query.
pub proof fn law_health_needs_no_token(query: Option<Seq<char>>, token: Option<Seq<char>>)
    ensures
        may_see("/health"@, query, token),
{
}

/// Whether a caller may see a page.
pub fn check_auth(path: &str, query: Option<&str>, auth_token: &Option<String>) -> (r: bool)
    ensures
        r == may_see(
            path@,
            match query {
                Some(q) => Some(q@),
                None => None,
            },
            payload::opt(*auth_token),
        ),
{
    if text::same_text(path, "/health") {
        return true;
    }
    let expected = match auth_token {
        Some(t) => t,
        None => {
            return true;
        },
    };
    match query {
        None => false,
        Some(q) => match extract_query_param(q, "token") {
            Some(t) => text::same_text(t.as_str(), expected.as_str()),
            None => false,
        },
    }
}

/// The target of a request: the second word of its first line.
pub open spec fn target_of(request: Seq<char>) -> Seq<char> {
    let first = if text::lines(request).len() > 0 {
        text::lines(request)[0]
    } else {
        Seq::empty()
    };
    if text::words(first).len() > 1 {
        text::words(first)[1]
    } else {
        "/"@
    }
}

/// The path of a target: what stands before the first question mark.
pub open spec fn path_of(target: Seq<char>) -> Seq<char> {
    text::split(target, '?')[0]
}

/// The query of a target: what stands behind the first question mark.
pub open spec fn query_of(target: Seq<char>) -> Option<Seq<char>> {
    if target.contains('?') {
        Some(target.skip(path_of(target).len() as int + 1))
    } else {
        None
    }
}

/// The status line and the body of the answer to a request.
pub open spec fn page(
    request: Seq<char>,
    s: AntieStats,
    token: Option<Seq<char>>,
    now: u64,
) -> (Seq<char>, Seq<char>) {
    let path = path_of(target_of(request));
    let uptime = stats::uptime_at(s.started_at, now);
    if !may_see(path, query_of(target_of(request)), token) {
        (
            "401 Unauthorized"@,
            json::json_text(
                error_response::dual_format(
                    "E_ANTIE_UNAUTHORIZED"@,
                    ErrorCategory::ClientBug,
                    "unauthorized"@,
                ),
            ),
        )
    } else if path == "/health"@ {
        ("200 OK"@, "{\"ok\":true,\"uptime_secs\":"@ + text::dec(uptime) + "}"@)
    } else if path == "/status"@ {
        ("200 OK"@, stats::stats_text(s, uptime))
    } else {
        (
            "404 Not Found"@,
            json::json_text(
                error_response::dual_format(
                    "E_ANTIE_NOT_FOUND"@,
                    ErrorCategory::ClientBug,
                    "not found"@,
                ),
            ),
        )
    }
}

/// An HTTP answer with a status line and a body.
pub open spec fn http(status: Seq<char>, body: Seq<char>) -> Seq<char> {
    "HTTP/1.1 "@ + status + "\r\nContent-Type: application/json\r\nContent-Length: "@ + text::dec(
        encode_utf8(body).len(),
    ) + "\r\nConnection: close\r\n\r\n"@ + body
}

proof fn lemma_split_at(s: Seq<char>, sep: char, n: int)
    requires
        0 <= n <= s.len(),
        forall|k: int| 0 <= k < n ==> s[k] != sep,
        n < s.len() ==> s[n] == sep,
    ensures
        text::split(s, sep)[0] == s.take(n),
    decreases s.len(),
{
    if s.len() == 0 {
        assert(s.take(0) == s);
    } else {
        let t = s.drop_last();
        text::lemma_split_pieces(t, sep);
        if n == s.len() {
            lemma_split_at(t, sep, n - 1);
            lemma_split_none(t, sep);
            assert(s.last() != sep);
            assert(t.take(n - 1) == t);
            assert(s.take(n) == t.push(s.last()));
        } else {
            if n == t.len() {
                assert(s.last() == sep);
            }
            lemma_split_at(t, sep, n);
            assert(t.take(n) == s.take(n));
            if s.last() != sep {
                lemma_split_some(t, sep, n);
            }
        }
    }
}

proof fn lemma_split_none(s: Seq<char>, sep: char)
    requires
        forall|k: int| 0 <= k < s.len() ==> s[k] != sep,
    ensures
        text::split(s, sep).len() == 1,
    decreases s.len(),
{
    if s.len() > 0 {
        assert(s.last() != sep);
        lemma_split_none(s.drop_last(), sep);
    }
}

proof fn lemma_split_some(s: Seq<char>, sep: char, n: int)
    requires
        0 <= n < s.len(),
        s[n] == sep,
    ensures
        text::split(s, sep).len() > 1,
    decreases s.len(),
{
    text::lemma_split_pieces(s.drop_last(), sep);
    if n < s.len() - 1 {
        lemma_split_some(s.drop_last(), sep, n);
    }
}

/// Answers a request to the monitoring endpoint.
pub fn answer_request(request: &[u8], s: &AntieStats, auth_token: &Option<String>, now: u64) -> (r:
    String)
    ensures
        r@ == http(
            page(text::lossy_text(request@), *s, payload::opt(*auth_token), now).0,
            page(text::lossy_text(request@), *s, payload::opt(*auth_token), now).1,
        ),
{
    let read = text::lossy_string(request);
    answer_text(read.as_str(), s, auth_token, now)
}

/// Answers a request whose text is known.
pub fn answer_text(request: &str, s: &AntieStats, auth_token: &Option<String>, now: u64) -> (r:
    String)
    ensures
        r@ == http(
            page(request@, *s, payload::opt(*auth_token), now).0,
            page(request@, *s, payload::opt(*auth_token), now).1,
        ),
{
    let lines = text::lines_of(request);
    let words = if lines.len() > 0 {
        assert(lines@[0]@ == text::views(lines@)[0]);
        text::words_of(lines[0].as_str())
    } else {
        text::words_of("")
    };
    proof {
        reveal_strlit("");
        assert(""@ == Seq::<char>::empty());
    }
    let target = if words.len() > 1 {
        assert(words@[1]@ == text::views(words@)[1]);
        words[1].clone()
    } else {
        String::from_str("/")
    };
    assert(target@ == target_of(request@));
    let v = text::chars_of(target.as_str());
    let mut n: usize = 0;
    while n < v.len() && v[n] != '?'
        invariant
            n <= v@.len(),
            forall|k: int| 0 <= k < n ==> v@[k] != '?',
        decreases v@.len() - n,
    {
        n = n + 1;
    }
    let path = text::string_of(&v, 0, n);
    let query: Option<String> = if n < v.len() {
        Some(text::string_of(&v, n + 1, v.len()))
    } else {
        None
    };
    proof {
        lemma_split_at(target@, '?', n as int);
        assert(path@ == path_of(target@));
        if n < v@.len() {
            assert(target@[n as int] == '?');
            assert(target@.contains('?'));
            assert(query->0@ == target@.skip(n + 1));
        } else {
            assert(!target@.contains('?'));
        }
        assert(payload::opt(query) == query_of(target@));
    }
    let query_ref: Option<&str> = match &query {
        Some(q) => Some(q.as_str()),
        None => None,
    };
    let up: u64 = s.uptime(now);
    if !check_auth(path.as_str(), query_ref, auth_token) {
        let body = dual_format_error_body(
            "E_ANTIE_UNAUTHORIZED",
            ErrorCategory::ClientBug,
            "unauthorized",
        );
        http_answer("401 Unauthorized", body.as_str())
    } else if text::same_text(path.as_str(), "/health") {
        let mut body = String::from_str("{\"ok\":true,\"uptime_secs\":");
        text::push_dec(&mut body, up);
        body.append("}");
        http_answer("200 OK", body.as_str())
    } else if text::same_text(path.as_str(), "/status") {
        let body = s.to_text_at(now);
        http_answer("200 OK", body.as_str())
    } else {
        let body = dual_format_error_body(
            "E_ANTIE_NOT_FOUND",
            ErrorCategory::ClientBug,
            "not found",
        );
        http_answer("404 Not Found", body.as_str())
    }
}

/// Writes an HTTP answer.
fn http_answer(status: &str, body: &str) -> (r: String)
    ensures
        r@ == http(status@, body@),
{
    let mut out = String::from_str("HTTP/1.1 ");
    out.append(status);
    out.append("\r\nContent-Type: application/json\r\nContent-Length: ");
    text::push_dec(&mut out, body.as_bytes().len() as u64);
    out.append("\r\nConnection: close\r\n\r\n");
    out.append(body);
    out
}


/// A parameter of a query is the first piece of it that names the key: what stands behind the
/// equals sign there. There is none only if no piece names the key.
pub proof fn law_parameter_is_the_first_that_names_it(pieces: Seq<Seq<char>>, key: Seq<char>)
    ensures
        match first_value(pieces, key) {
            Some(v) => exists|i: int|
                0 <= i < pieces.len() && #[trigger] pieces[i] == key + seq!['='] + v && forall|j: int|
                    0 <= j < i ==> !text::starts_with(#[trigger] pieces[j], key + seq!['=']),
            None => forall|j: int|
                0 <= j < pieces.len() ==> !text::starts_with(#[trigger] pieces[j], key + seq!['=']),
        },
    decreases pieces.len(),
{
    reveal_strlit("=");
    assert("="@ =~= seq!['=']);
    if pieces.len() > 0 {
        if text::starts_with(pieces[0], key + seq!['=']) {
            let v = pieces[0].skip(key.len() as int + 1);
            assert(pieces[0] =~= key + seq!['='] + v);
        } else {
            let rest = pieces.drop_first();
            law_parameter_is_the_first_that_names_it(rest, key);
            match first_value(rest, key) {
                Some(v) => {
                    let i = choose|i: int|
                        0 <= i < rest.len() && #[trigger] rest[i] == key + seq!['='] + v && forall|j: int|
                            0 <= j < i ==> !text::starts_with(#[trigger] rest[j], key + seq!['=']);
                    assert(pieces[i + 1] == rest[i]);
                    assert forall|j: int| 0 <= j < i + 1 implies !text::starts_with(
                        #[trigger] pieces[j],
                        key + seq!['='],
                    ) by {
                        if j > 0 {
                            assert(rest[j - 1] == pieces[j]);
                        }
                    }
                },
                None => {
                    assert forall|j: int| 0 <= j < pieces.len() implies !text::starts_with(
                        #[trigger] pieces[j],
                        key + seq!['='],
                    ) by {
                        if j > 0 {
                            assert(rest[j - 1] == pieces[j]);
                        }
                    }
                },
            }
        }
    }
}

/// Whoever says the token sees every page. Who says none, or another, sees only whether the
/// gateway is up. Where no token is set everyone sees everything.
pub proof fn law_token_opens_the_pages(path: Seq<char>, query: Seq<char>, token: Seq<char>, said: Seq<char>)
    requires
        path != "/health"@,
        !said.contains('&'),
    ensures
        may_see(path, Some("token="@ + said), Some(token)) <==> said == token,
        may_see(path, Some("token="@ + said + "&"@ + query), Some(token)) <==> said == token,
        !may_see(path, None, Some(token)),
        may_see(path, None, None),
        may_see(path, Some(query), None),
{
    reveal_strlit("token=");
    reveal_strlit("token");
    reveal_strlit("=");
    reveal_strlit("&");
    let piece = "token="@ + said;
    assert("token"@ + "="@ =~= "token="@);
    assert(!piece.contains('&')) by {
        assert forall|k: int| 0 <= k < piece.len() implies piece[k] != '&' by {
            if k >= 6 {
                assert(said[k - 6] == piece[k]);
            }
        }
    }
    text::law_first_piece_is_cut_off(piece, '&', query);
    assert(piece + "&"@ + query =~= piece + seq!['&'] + query);
    let more = seq![piece] + text::split(query, '&');
    assert(more[0] == piece);
    assert(piece.take(6) =~= "token="@);
    assert(piece.skip(6) =~= said);
}

/// The question mark parts a target into its path and its query.
pub proof fn law_question_mark_parts_the_target(path: Seq<char>, query: Seq<char>)
    requires
        !path.contains('?'),
    ensures
        path_of(path) == path,
        query_of(path) is None,
        path_of(path + seq!['?'] + query) == path,
        query_of(path + seq!['?'] + query) == Some(query),
{
    text::law_first_piece_is_cut_off(path, '?', query);
    let all = path + seq!['?'] + query;
    assert((seq![path] + text::split(query, '?'))[0] == path);
    assert(all[path.len() as int] == '?');
    assert(all.skip(path.len() as int + 1) =~= query);
}

/// The target of a request is the second word of its first line, whatever else it holds. A
/// request without one is for the root.
pub proof fn law_target_is_the_second_word(
    method: Seq<char>,
    target: Seq<char>,
    version: Seq<char>,
    rest: Seq<char>,
)
    requires
        method.len() > 0,
        forall|i: int| 0 <= i < method.len() ==> !text::is_white(#[trigger] method[i]),
        target.len() > 0,
        forall|i: int| 0 <= i < target.len() ==> !text::is_white(#[trigger] target[i]),
        !version.contains('\n'),
    ensures
        target_of(method + seq![' '] + target + (seq![' '] + version) + seq!['\r', '\n'] + rest) == target,
        target_of(method + seq!['\r', '\n'] + rest) == seq!['/'],
        target_of(Seq::empty()) == seq!['/'],
{
    reveal_strlit("/");
    assert("/"@ =~= seq!['/']);
    let tail = seq![' '] + version;
    let line = method + seq![' '] + target + tail;
    assert(tail[0] == ' ');
    assert forall|k: int| 0 <= k < line.len() implies line[k] != '\n' by {
        if k < method.len() {
            assert(!text::is_white(method[k]));
        } else if k == method.len() {
        } else if k < method.len() + 1 + target.len() {
            assert(!text::is_white(target[k - method.len() - 1]));
        } else if k > method.len() + 1 + target.len() {
            assert(version[k - method.len() - target.len() - 2] == line[k]);
        }
    }
    text::law_lines_end_at_line_feeds(line, rest);
    assert((seq![line] + text::lines(rest))[0] == line);
    let after = seq![' '] + target + tail;
    assert(line =~= Seq::<char>::empty() + method + after);
    assert(after[0] == ' ');
    text::law_words_stand_between_white_space(Seq::empty(), method, after);
    text::law_words_stand_between_white_space(seq![' '], target, tail);
    assert(text::words(after) == seq![target] + text::words(tail));
    assert(text::words(line) =~= seq![method, target] + text::words(tail));
    assert forall|k: int| 0 <= k < method.len() implies method[k] != '\n' by {
        assert(!text::is_white(method[k]));
    }
    text::law_lines_end_at_line_feeds(method, rest);
    assert((seq![method] + text::lines(rest))[0] == method);
    text::law_words_stand_between_white_space(Seq::empty(), method, Seq::empty());
    assert(Seq::<char>::empty() + method + Seq::<char>::empty() =~= method);
    assert(text::words(Seq::<char>::empty()) =~= Seq::<Seq<char>>::empty());
    assert(text::words(method) =~= seq![method]);
}

/// What a caller gets: only who may see it gets a page, being up and the counters have one
/// each, and nothing else has.
pub proof fn law_each_path_has_its_page(
    request: Seq<char>,
    s: AntieStats,
    token: Option<Seq<char>>,
    now: u64,
)
    ensures
        page(request, s, token, now).0 == "401 Unauthorized"@ <==> !may_see(
            path_of(target_of(request)),
            query_of(target_of(request)),
            token,
        ),
        path_of(target_of(request)) == "/health"@ ==> page(request, s, token, now) == (
            "200 OK"@,
            "{\"ok\":true,\"uptime_secs\":"@ + text::dec(stats::uptime_at(s.started_at, now)) + "}"@,
        ),
        path_of(target_of(request)) == "/status"@ && token is None ==> page(request, s, token, now) == (
            "200 OK"@,
            stats::stats_text(s, stats::uptime_at(s.started_at, now)),
        ),
        page(request, s, token, now).0 == "200 OK"@ <==> path_of(target_of(request)) == "/health"@ || (
        path_of(target_of(request)) == "/status"@ && may_see(
            "/status"@,
            query_of(target_of(request)),
            token,
        )),
        page(request, s, token, now).0 == "404 Not Found"@ <==> path_of(target_of(request)) != "/health"@
            && path_of(target_of(request)) != "/status"@ && may_see(
            path_of(target_of(request)),
            query_of(target_of(request)),
            token,
        ),
{
    reveal_strlit("401 Unauthorized");
    reveal_strlit("200 OK");
    reveal_strlit("404 Not Found");
    reveal_strlit("/health");
    reveal_strlit("/status");
    assert("/health"@[1] == 'h' && "/status"@[1] == 's');
    assert("401 Unauthorized"@.len() == 16 && "200 OK"@.len() == 6 && "404 Not Found"@.len() == 13);
}

proof fn lemma_type_line(start: Seq<char>, nl: Seq<char>, kind: Seq<char>, label: Seq<char>, rest: Seq<char>)
    ensures
        text::starts_with(start + (nl + kind + nl + label) + rest, start + nl),
        text::holds(start + (nl + kind + nl + label) + rest, nl + kind + nl),
{
    let h = start + (nl + kind + nl + label) + rest;
    assert(h =~= (start + nl) + (kind + nl + label + rest));
    text::lemma_put_together(Seq::empty(), start + nl, kind + nl + label + rest);
    let line = nl + kind + nl;
    assert(h =~= start + line + (label + rest));
    text::lemma_put_together(start, line, label + rest);
}

proof fn lemma_length_line(before: Seq<char>, nl: Seq<char>, label: Seq<char>, n: Seq<char>, rest: Seq<char>)
    ensures
        text::holds(before + (nl + label) + n + (nl + rest), nl + label + n + nl),
{
    let h = before + (nl + label) + n + (nl + rest);
    let line = nl + label + n + nl;
    assert(h =~= before + line + rest);
    text::lemma_put_together(before, line, rest);
}

proof fn lemma_last_line(before: Seq<char>, nl: Seq<char>, close: Seq<char>, body: Seq<char>)
    ensures
        text::holds(before + (nl + close + nl + nl) + body, nl + close + nl),
{
    let line = nl + close + nl;
    assert(before + (line + nl) + body =~= before + line + (nl + body));
    text::lemma_put_together(before, line, nl + body);
}

proof fn lemma_body_at_the_end(before: Seq<char>, start: Seq<char>, nl: Seq<char>, body: Seq<char>)
    ensures
        text::ends_with(before + (start + nl + nl) + body, nl + nl + body),
{
    let gap = nl + nl;
    assert(start + nl + nl =~= start + gap);
    assert(before + (start + gap) + body =~= before + start + (gap + body));
    text::lemma_put_together(before + start, gap + body, Seq::empty());
}

/// An HTTP answer starts with its status, says how many bytes its body has, and ends with an
/// empty line and the body.
pub proof fn law_http_answer_is_framed(status: Seq<char>, body: Seq<char>)
    ensures
        text::starts_with(http(status, body), "HTTP/1.1 "@ + status + seq!['\r', '\n']),
        text::ends_with(http(status, body), seq!['\r', '\n', '\r', '\n'] + body),
        text::holds(
            http(status, body),
            seq!['\r', '\n'] + "Content-Length: "@ + text::dec(encode_utf8(body).len()) + seq!['\r', '\n'],
        ),
        text::holds(
            http(status, body),
            seq!['\r', '\n'] + "Content-Type: application/json"@ + seq!['\r', '\n'],
        ),
        text::holds(http(status, body), seq!['\r', '\n'] + "Connection: close"@ + seq!['\r', '\n']),
{
    reveal_strlit("HTTP/1.1 ");
    reveal_strlit("\r\nContent-Type: application/json\r\nContent-Length: ");
    reveal_strlit("\r\nConnection: close\r\n\r\n");
    reveal_strlit("Content-Length: ");
    reveal_strlit("Content-Type: application/json");
    reveal_strlit("Connection: close");
    let nl = seq!['\r', '\n'];
    let h = http(status, body);
    let n = text::dec(encode_utf8(body).len());
    let start = "HTTP/1.1 "@ + status;
    let kind = "Content-Type: application/json"@;
    let label = "Content-Length: "@;
    let close = "Connection: close"@;
    let first = "\r\nContent-Type: application/json\r\nContent-Length: "@;
    let last = "\r\nConnection: close\r\n\r\n"@;
    assert(first =~= nl + kind + nl + label);
    assert(last =~= nl + close + nl + nl);
    assert(h == start + first + n + last + body);
    assert(h == start + first + (n + last + body)) by {
        let x = start + first;
        assert(x + n + last + body =~= x + (n + last + body));
    }
    lemma_type_line(start, nl, kind, label, n + last + body);
    assert(h == (start + (nl + kind)) + (nl + label) + n + (nl + (close + nl + nl + body))) by {
        assert(start + first =~= (start + (nl + kind)) + (nl + label));
        let x = start + first + n;
        assert(last =~= nl + (close + nl + nl));
        let y = close + nl + nl;
        assert(x + (nl + y) + body =~= x + (nl + (y + body)));
    }
    lemma_length_line(start + (nl + kind), nl, label, n, close + nl + nl + body);
    lemma_last_line(start + first + n, nl, close, body);
    lemma_body_at_the_end(start + first + n, nl + close, nl, body);
    assert(nl + nl + body =~= seq!['\r', '\n', '\r', '\n'] + body);
}

} // verus!
