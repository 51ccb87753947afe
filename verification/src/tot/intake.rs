//! What comes in by a connection.
use vstd::prelude::*;
use crate::antie::limiter::{instant_now, nanos_since};
use crate::text;
use crate::tot::config::Config;

verus! {

/// A second, in nanoseconds.
pub const SECOND: u64 = 1_000_000_000;

// ---------------------------------------------------------------------------
// Telling connections apart
// ---------------------------------------------------------------------------

/// What a connection is, by its first four bytes.
#[derive(Debug, Clone, Copy, PartialEq, Eq, Structural)]
pub enum Leg {
    /// A browser: they are the beginning of its request.
    WebSocket,
    /// Another client: they are the length of what it brings.
    Tcp,
}

/// Whether bytes begin a browser's request: `GET` and a space.
pub open spec fn is_get(head: Seq<u8>) -> bool {
    head == seq![71u8, 69u8, 84u8, 32u8]
}

/// What a connection is, by its first four bytes.
pub fn demux(head: &[u8; 4]) -> (r: Leg)
    ensures
        r == (if is_get(head@) {
            Leg::WebSocket
        } else {
            Leg::Tcp
        }),
{
    if head[0] == 71 && head[1] == 69 && head[2] == 84 && head[3] == 32 {
        assert(head@ == seq![71u8, 69u8, 84u8, 32u8]);
        Leg::WebSocket
    } else {
        Leg::Tcp
    }
}

/// The number that bytes stand for, the lowest first.
pub open spec fn le_value(s: Seq<u8>) -> nat
    decreases s.len(),
{
    if s.len() == 0 {
        0
    } else {
        s[0] as nat + 256 * le_value(s.drop_first())
    }
}

/// The bytes of a number below two to the thirty-second, the lowest first.
pub open spec fn le_bytes(n: nat) -> Seq<u8> {
    seq![
        (n % 256) as u8,
        ((n / 256) % 256) as u8,
        ((n / 65_536) % 256) as u8,
        ((n / 16_777_216) % 256) as u8,
    ]
}

proof fn lemma_le_value(s: Seq<u8>)
    requires
        s.len() == 4,
    ensures
        le_value(s) == s[0] + 256 * s[1] + 65_536 * s[2] + 16_777_216 * s[3],
        le_value(s) < 4_294_967_296,
{
    reveal_with_fuel(le_value, 5);
    let a = s.drop_first();
    let b = a.drop_first();
    let c = b.drop_first();
    assert(a[0] == s[1] && b[0] == s[2] && c[0] == s[3]);
    assert(c.drop_first().len() == 0);
}

/// A length announced in four bytes reads back as that length.
pub proof fn law_length_reads_back(n: nat)
    requires
        n < 4_294_967_296,
    ensures
        le_bytes(n).len() == 4,
        le_value(le_bytes(n)) == n,
{
    lemma_le_value(le_bytes(n));
}

/// A client that brings no more than half a gigabyte is never taken for a browser.
pub proof fn law_no_length_looks_like_a_browser(n: nat)
    requires
        n < 542_393_671,
    ensures
        !is_get(le_bytes(n)),
{
    law_length_reads_back(n);
    if is_get(le_bytes(n)) {
        lemma_le_value(le_bytes(n));
    }
}

/// What is wrong with an announced length, if anything.
pub open spec fn length_error(len: nat, cap: nat) -> Option<Seq<char>> {
    if len == 0 {
        Some("tcp intake: zero-length frame"@)
    } else if len > cap {
        Some("tcp intake frame "@ + text::dec(len) + " bytes exceeds cap "@ + text::dec(cap))
    } else {
        None
    }
}

/// The length of what a client brings, or why it is refused.
pub fn tcp_intake_leg(len_prefix: &[u8; 4], max_message_bytes: usize) -> (r: Result<usize, String>)
    ensures
        match length_error(le_value(len_prefix@), max_message_bytes as nat) {
            Some(e) => r matches Err(m) && m@ == e,
            None => r matches Ok(n) && n == le_value(len_prefix@),
        },
{
    proof {
        lemma_le_value(len_prefix@);
    }
    let len: u64 = len_prefix[0] as u64 + 256 * (len_prefix[1] as u64) + 65_536 * (len_prefix[2] as u64)
        + 16_777_216 * (len_prefix[3] as u64);
    if len == 0 {
        return Err(String::from_str("tcp intake: zero-length frame"));
    }
    if len > max_message_bytes as u64 {
        let mut m = String::from_str("tcp intake frame ");
        text::push_dec(&mut m, len);
        m.append(" bytes exceeds cap ");
        text::push_dec(&mut m, max_message_bytes as u64);
        return Err(m);
    }
    Ok(len as usize)
}

// ---------------------------------------------------------------------------
// Bytes read ahead
// ---------------------------------------------------------------------------

/// Bytes that were read ahead and have to be read again.
#[derive(Debug)]
pub struct Prefix {
    bytes: Vec<u8>,
    pos: usize,
}

impl Prefix {
    /// What is still to be read again.
    pub closed spec fn rest(self) -> Seq<u8> {
        self.bytes@.skip(self.pos as int)
    }

    /// Whether no more has been read than there is.
    pub closed spec fn wf(self) -> bool {
        self.pos <= self.bytes@.len()
    }

    /// Bytes to be read again.
    pub fn new(bytes: Vec<u8>) -> (r: Prefix)
        ensures
            r.wf(),
            r.rest() == bytes@,
    {
        let p = Prefix { bytes, pos: 0 };
        assert(p.bytes@.skip(0) == p.bytes@);
        p
    }

    /// The next bytes, as many as there is room for; `None` if there are none left, and the
    /// connection itself is read.
    pub fn read(&mut self, room: usize) -> (r: Option<Vec<u8>>)
        requires
            old(self).wf(),
        ensures
            final(self).wf(),
            old(self).rest().len() == 0 ==> r is None && final(self).rest() == old(self).rest(),
            old(self).rest().len() > 0 ==> (r matches Some(b) && b@.len() == (if room as nat
                <= old(self).rest().len() {
                room as nat
            } else {
                old(self).rest().len()
            }) && b@ + final(self).rest() == old(self).rest()),
    {
        if self.pos >= self.bytes.len() {
            return None;
        }
        let left: usize = self.bytes.len() - self.pos;
        let n: usize = if left <= room {
            left
        } else {
            room
        };
        let piece = vstd::slice::slice_subrange(self.bytes.as_slice(), self.pos, self.pos + n);
        let out = vstd::slice::slice_to_vec(piece);
        let ghost before = self.rest();
        self.pos = self.pos + n;
        assert(out@ + self.rest() == before);
        Some(out)
    }
}

// ---------------------------------------------------------------------------
// Limiting the rate
// ---------------------------------------------------------------------------

/// How many requests a connection has brought in the current second.
pub struct RateLimiter {
    start: std::time::Instant,
    max_per_sec: u32,
    window_start: u64,
    count: u32,
}

/// The state of a limiter: when the current second began, and how many requests it has let
/// through since.
pub struct Window {
    pub start: u64,
    pub count: nat,
}

/// The second that a request at `now` falls in.
pub open spec fn window_at(w: Window, now: u64) -> Window {
    if now >= w.start + SECOND {
        Window { start: now, count: 0 }
    } else {
        w
    }
}

/// Whether a request at `now` is let through, and the state after it.
pub open spec fn stepped(w: Window, max: u32, now: u64) -> (bool, Window) {
    let v = window_at(w, now);
    if max == 0 {
        (true, w)
    } else if v.count < max {
        (true, Window { start: v.start, count: v.count + 1 })
    } else {
        (false, v)
    }
}

/// How many of the requests at the given times are let through.
pub open spec fn let_through(w: Window, max: u32, times: Seq<u64>) -> nat
    decreases times.len(),
{
    if times.len() == 0 {
        0
    } else {
        let (ok, v) = stepped(w, max, times[0]);
        let_through(v, max, times.drop_first()) + if ok {
            1nat
        } else {
            0nat
        }
    }
}

/// Within a second as many requests are let through as the limit has left, and no more.
pub proof fn law_limit_caps_the_second(w: Window, max: u32, times: Seq<u64>)
    requires
        max > 0,
        w.count <= max,
        forall|i: int| 0 <= i < times.len() ==> (#[trigger] times[i]) < w.start + SECOND,
    ensures
        let_through(w, max, times) == (if times.len() <= max - w.count {
            times.len()
        } else {
            (max - w.count) as nat
        }),
    decreases times.len(),
{
    if times.len() > 0 {
        let v = stepped(w, max, times[0]).1;
        let rest = times.drop_first();
        assert forall|i: int| 0 <= i < rest.len() implies (#[trigger] rest[i]) < v.start + SECOND by {
            assert(rest[i] == times[i + 1]);
        }
        law_limit_caps_the_second(v, max, rest);
    }
}

/// Without a limit every request is let through.
pub proof fn law_zero_is_no_limit(w: Window, times: Seq<u64>)
    ensures
        let_through(w, 0, times) == times.len(),
    decreases times.len(),
{
    if times.len() > 0 {
        law_zero_is_no_limit(w, times.drop_first());
    }
}

impl RateLimiter {
    /// The state.
    pub closed spec fn window(self) -> Window {
        Window { start: self.window_start, count: self.count as nat }
    }

    /// The limit.
    pub closed spec fn max(self) -> u32 {
        self.max_per_sec
    }

    /// A limiter whose first second begins now.
    pub fn new(max_per_sec: u32) -> (r: RateLimiter)
        ensures
            r.max() == max_per_sec,
            r.window() == (Window { start: 0, count: 0 }),
    {
        RateLimiter { start: instant_now(), max_per_sec, window_start: 0, count: 0 }
    }

    /// Whether a request is let through now.
    pub fn allow(&mut self) -> (r: bool)
        ensures
            final(self).max() == old(self).max(),
            exists|now: u64| (r, final(self).window()) == #[trigger] stepped(
                old(self).window(),
                old(self).max(),
                now,
            ),
    {
        let now: u64 = nanos_since(&self.start);
        self.allow_at(now)
    }

    /// Whether a request is let through at `now`, in nanoseconds since the limiter was made.
    pub fn allow_at(&mut self, now: u64) -> (r: bool)
        ensures
            final(self).max() == old(self).max(),
            (r, final(self).window()) == stepped(old(self).window(), old(self).max(), now),
    {
        if self.max_per_sec == 0 {
            return true;
        }
        if now as u128 >= self.window_start as u128 + SECOND as u128 {
            self.window_start = now;
            self.count = 0;
        }
        if self.count < self.max_per_sec {
            self.count = self.count + 1;
            true
        } else {
            false
        }
    }
}

// ---------------------------------------------------------------------------
// What browsers send
// ---------------------------------------------------------------------------

/// What comes by a browser's connection.
pub enum WsEvent {
    Binary(Vec<u8>),
    Close,
    /// A text or a sign of life.
    Other,
    /// The connection failed.
    Failed(String),
}

/// What is done with what a browser brings.
pub enum IntakeStep {
    Deliver(Vec<u8>),
    Ignore,
    Done,
    Refuse(String),
}

/// What is said of a request that is too large.
pub open spec fn oversize(len: nat, cap: nat) -> Seq<char> {
    "intake message "@ + text::dec(len) + " bytes exceeds cap "@ + text::dec(cap)
}

/// What is done with what a browser brings at `now`: a request of a size and at a rate within
/// the limits is delivered, any other ends the connection.
pub fn intake_leg(cfg: &Config, limiter: &mut RateLimiter, event: WsEvent, now: u64) -> (r: IntakeStep)
    ensures
        final(limiter).max() == old(limiter).max(),
        match event {
            WsEvent::Binary(b) => if b@.len() > cfg.max_message_bytes {
                (r matches IntakeStep::Refuse(m) && m@ == oversize(
                    b@.len(),
                    cfg.max_message_bytes as nat,
                )) && final(limiter).window() == old(limiter).window()
            } else {
                let (ok, w) = stepped(old(limiter).window(), old(limiter).max(), now);
                final(limiter).window() == w && (if ok {
                    r == IntakeStep::Deliver(b)
                } else {
                    r matches IntakeStep::Refuse(m) && m@ == "intake rate limit exceeded"@
                })
            },
            WsEvent::Close => r == IntakeStep::Done && *final(limiter) == *old(limiter),
            WsEvent::Other => r == IntakeStep::Ignore && *final(limiter) == *old(limiter),
            WsEvent::Failed(e) => (r matches IntakeStep::Refuse(m) && m@ == "websocket recv: "@ + e@)
                && *final(limiter) == *old(limiter),
        },
{
    match event {
        WsEvent::Binary(b) => {
            if b.len() > cfg.max_message_bytes {
                let mut m = String::from_str("intake message ");
                text::push_dec(&mut m, b.len() as u64);
                m.append(" bytes exceeds cap ");
                text::push_dec(&mut m, cfg.max_message_bytes as u64);
                return IntakeStep::Refuse(m);
            }
            if !limiter.allow_at(now) {
                return IntakeStep::Refuse(String::from_str("intake rate limit exceeded"));
            }
            IntakeStep::Deliver(b)
        },
        WsEvent::Close => IntakeStep::Done,
        WsEvent::Other => IntakeStep::Ignore,
        WsEvent::Failed(e) => {
            let mut m = String::from_str("websocket recv: ");
            m.append(e.as_str());
            IntakeStep::Refuse(m)
        },
    }
}

/// What is done with what a browser sends to a node.
pub enum PumpStep {
    /// It is passed on as it is.
    Forward(Vec<u8>),
    Ignore,
    Stop,
}

/// What is done with what a browser sends to a node: bytes are passed on as they are.
pub fn pump(event: WsEvent) -> (r: PumpStep)
    ensures
        match event {
            WsEvent::Binary(b) => r == PumpStep::Forward(b),
            WsEvent::Other => r == PumpStep::Ignore,
            WsEvent::Close => r == PumpStep::Stop,
            WsEvent::Failed(_) => r == PumpStep::Stop,
        },
{
    match event {
        WsEvent::Binary(b) => PumpStep::Forward(b),
        WsEvent::Other => PumpStep::Ignore,
        WsEvent::Close => PumpStep::Stop,
        WsEvent::Failed(_) => PumpStep::Stop,
    }
}


/// A browser is known by the first four bytes of its request.
pub proof fn law_browser_says_get(head: Seq<u8>)
    ensures
        is_get(head) <==> head.len() == 4 && head[0] == 'G' as u8 && head[1] == 'E' as u8 && head[2] == 'T' as u8
            && head[3] == ' ' as u8,
{
    if head.len() == 4 && head[0] == 71 && head[1] == 69 && head[2] == 84 && head[3] == 32 {
        assert(head =~= seq![71u8, 69u8, 84u8, 32u8]);
    }
}

/// The length of a request stands before it in four bytes, the lowest first.
pub proof fn law_lowest_byte_comes_first(a: u8, b: u8, c: u8, d: u8)
    ensures
        le_value(seq![a, b, c, d]) == a + 0x100 * b + 0x1_0000 * c + 0x100_0000 * d,
        le_bytes((a + 0x100 * b + 0x1_0000 * c + 0x100_0000 * d) as nat) == seq![a, b, c, d],
{
    lemma_le_value(seq![a, b, c, d]);
    let n = (a + 0x100 * b + 0x1_0000 * c + 0x100_0000 * d) as nat;
    assert(n / 0x100 == b + 0x100 * c + 0x1_0000 * d);
    assert(n / 0x1_0000 == c + 0x100 * d);
    assert(n / 0x100_0000 == d);
    assert(le_bytes(n) =~= seq![a, b, c, d]);
}

/// A request has a good length from one byte up to the limit, the limit included.
pub proof fn law_good_lengths(len: nat, cap: nat)
    ensures
        length_error(len, cap) is None <==> 1 <= len <= cap,
        length_error(0, cap) == Some("tcp intake: zero-length frame"@),
        len > cap ==> len > 0 ==> length_error(len, cap) == Some(
            "tcp intake frame "@ + text::dec(len) + " bytes exceeds cap "@ + text::dec(cap),
        ),
        oversize(len, cap) == "intake message "@ + text::dec(len) + " bytes exceeds cap "@ + text::dec(cap),
{
}

/// A new second starts with the first request that comes a second or more after the last one
/// started, and that request is let through. Until then the second goes on.
pub proof fn law_each_second_starts_anew(w: Window, max: u32, now: u64)
    requires
        max > 0,
    ensures
        now - w.start >= 1_000_000_000 ==> stepped(w, max, now) == (true, (Window { start: now, count: 1 })),
        now - w.start < 1_000_000_000 && w.count < max ==> stepped(w, max, now) == (
            true,
            (Window { start: w.start, count: w.count + 1 }),
        ),
        now - w.start < 1_000_000_000 && w.count >= max ==> stepped(w, max, now) == (false, w),
        stepped(w, 0, now) == (true, w),
{
}

} // verus!
