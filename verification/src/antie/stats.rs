//! What the gateway counts.
use vstd::prelude::*;
use vstd::utf8::*;
use crate::json;
use crate::json::Json;
use crate::text;

verus! {

/// The gateway's counters and the facts that it shows beside them.
pub struct AntieStats {
    /// Mails taken in.
    pub messages_received: u64,
    /// Mails answered or dropped on purpose.
    pub messages_processed: u64,
    /// Mails that could not be processed.
    pub messages_failed: u64,
    /// Direct connections.
    pub tcp_connections: u64,
    /// Direct connections turned away.
    pub tcp_rate_limited: u64,
    /// Requests to the ledger service.
    pub lambda_requests: u64,
    /// Requests to the ledger service that failed.
    pub lambda_errors: u64,
    /// Mails sent.
    pub emails_sent: u64,
    /// When the gateway started, in seconds since the epoch.
    pub started_at: u64,
    /// The names of the carriers in use, separated by commas.
    pub active_carriers: String,
    /// The ledger service's average time for a witness, as last heard.
    pub avg_witness_ms: u64,
    /// Requests turned away because the queue was too long.
    pub busy_rejections: u64,
    /// Requests of wallets that asked again too soon.
    pub rate_limited: u64,
    /// Requests of wallets on the ban list.
    pub ban_rejected: u64,
    /// Sealed requests that could not be opened.
    pub decrypt_fail: u64,
    /// Mails that could not be read.
    pub parse_fail: u64,
    /// Mails over the size limit.
    pub oversize_dropped: u64,
    /// The fingerprint of the core.
    pub core_version: String,
    /// Cheques that wait for a sibling carrier.
    pub skipped_dir_count: u64,
}

/// `std::time::SystemTime::now`, as whole seconds since the epoch. A clock
/// before the epoch counts as the epoch.
#[verifier::external_body]
pub(crate) fn unix_seconds() -> (r: u64) {
    std::time::SystemTime::now().duration_since(std::time::UNIX_EPOCH).unwrap_or_default().as_secs()
}

/// The seconds between the start and now, or none if now is before the start.
pub open spec fn uptime_at(started_at: u64, now: u64) -> nat {
    if now < started_at {
        0
    } else {
        (now - started_at) as nat
    }
}

/// The counters as JSON text, after `uptime` seconds.
pub open spec fn stats_text(s: AntieStats, uptime: nat) -> Seq<char> {
    "{\"uptime_secs\":"@ + text::dec(uptime)
        + ",\"messages_received\":"@ + text::dec(s.messages_received as nat)
        + ",\"messages_processed\":"@ + text::dec(s.messages_processed as nat)
        + ",\"messages_failed\":"@ + text::dec(s.messages_failed as nat)
        + ",\"tcp_connections\":"@ + text::dec(s.tcp_connections as nat)
        + ",\"tcp_rate_limited\":"@ + text::dec(s.tcp_rate_limited as nat)
        + ",\"lambda_requests\":"@ + text::dec(s.lambda_requests as nat)
        + ",\"lambda_errors\":"@ + text::dec(s.lambda_errors as nat)
        + ",\"emails_sent\":"@ + text::dec(s.emails_sent as nat)
        + ",\"active_carriers\":"@ + json::quoted(s.active_carriers@)
        + ",\"avg_witness_ms\":"@ + text::dec(s.avg_witness_ms as nat)
        + ",\"busy_rejections\":"@ + text::dec(s.busy_rejections as nat)
        + ",\"wallet_rate_limited\":"@ + text::dec(s.rate_limited as nat)
        + ",\"ban_rejected\":"@ + text::dec(s.ban_rejected as nat)
        + ",\"decrypt_fail\":"@ + text::dec(s.decrypt_fail as nat)
        + ",\"parse_fail\":"@ + text::dec(s.parse_fail as nat)
        + ",\"oversize_dropped\":"@ + text::dec(s.oversize_dropped as nat)
        + ",\"core_version\":"@ + json::quoted(s.core_version@)
        + ",\"skipped_dir_count\":"@ + text::dec(s.skipped_dir_count as nat)
        + "}"@
}

/// One more; after the largest number comes zero.
pub open spec fn bumped(n: u64) -> u64 {
    if n == u64::MAX {
        0
    } else {
        (n + 1) as u64
    }
}

/// Counts one more.
pub fn bump(n: u64) -> (r: u64)
    ensures
        r == bumped(n),
{
    n.wrapping_add(1)
}

impl AntieStats {
    /// Whether nothing has been counted, and no carrier is in use.
    pub open spec fn counts_nothing(self) -> bool {
        &&& self.messages_received == 0
        &&& self.messages_processed == 0
        &&& self.messages_failed == 0
        &&& self.tcp_connections == 0
        &&& self.tcp_rate_limited == 0
        &&& self.lambda_requests == 0
        &&& self.lambda_errors == 0
        &&& self.emails_sent == 0
        &&& self.avg_witness_ms == 0
        &&& self.busy_rejections == 0
        &&& self.rate_limited == 0
        &&& self.ban_rejected == 0
        &&& self.decrypt_fail == 0
        &&& self.parse_fail == 0
        &&& self.oversize_dropped == 0
        &&& self.skipped_dir_count == 0
        &&& self.active_carriers@ == Seq::<char>::empty()
    }

    /// Whether nothing has been counted, and nothing is known of the core.
    pub open spec fn is_fresh(self) -> bool {
        self.counts_nothing() && self.core_version@ == Seq::<char>::empty()
    }

    /// Fresh counters, started now.
    pub fn new() -> (r: Self)
        ensures
            r.is_fresh(),
    {
        AntieStats::started(unix_seconds())
    }

    /// Fresh counters, started at the given time.
    pub fn started(started_at: u64) -> (r: Self)
        ensures
            r.started_at == started_at,
            r.is_fresh(),
    {
        AntieStats {
            messages_received: 0,
            messages_processed: 0,
            messages_failed: 0,
            tcp_connections: 0,
            tcp_rate_limited: 0,
            lambda_requests: 0,
            lambda_errors: 0,
            emails_sent: 0,
            started_at,
            active_carriers: String::new(),
            avg_witness_ms: 0,
            busy_rejections: 0,
            rate_limited: 0,
            ban_rejected: 0,
            decrypt_fail: 0,
            parse_fail: 0,
            oversize_dropped: 0,
            core_version: String::new(),
            skipped_dir_count: 0,
        }
    }

    /// How long the gateway has run at the given time.
    pub fn uptime(&self, now: u64) -> (r: u64)
        ensures
            r == uptime_at(self.started_at, now),
    {
        now.saturating_sub(self.started_at)
    }

    /// The counters as JSON text, at the given time.
    pub fn to_text_at(&self, now: u64) -> (r: String)
        ensures
            r@ == stats_text(*self, uptime_at(self.started_at, now)),
    {
        let up: u64 = self.uptime(now);
        let mut out = String::from_str("{\"uptime_secs\":");
        text::push_dec(&mut out, up);
        out.append(",\"messages_received\":");
        text::push_dec(&mut out, self.messages_received);
        out.append(",\"messages_processed\":");
        text::push_dec(&mut out, self.messages_processed);
        out.append(",\"messages_failed\":");
        text::push_dec(&mut out, self.messages_failed);
        out.append(",\"tcp_connections\":");
        text::push_dec(&mut out, self.tcp_connections);
        out.append(",\"tcp_rate_limited\":");
        text::push_dec(&mut out, self.tcp_rate_limited);
        out.append(",\"lambda_requests\":");
        text::push_dec(&mut out, self.lambda_requests);
        out.append(",\"lambda_errors\":");
        text::push_dec(&mut out, self.lambda_errors);
        out.append(",\"emails_sent\":");
        text::push_dec(&mut out, self.emails_sent);
        out.append(",\"active_carriers\":");
        out.append(json::quoted_string(self.active_carriers.as_str()).as_str());
        out.append(",\"avg_witness_ms\":");
        text::push_dec(&mut out, self.avg_witness_ms);
        out.append(",\"busy_rejections\":");
        text::push_dec(&mut out, self.busy_rejections);
        out.append(",\"wallet_rate_limited\":");
        text::push_dec(&mut out, self.rate_limited);
        out.append(",\"ban_rejected\":");
        text::push_dec(&mut out, self.ban_rejected);
        out.append(",\"decrypt_fail\":");
        text::push_dec(&mut out, self.decrypt_fail);
        out.append(",\"parse_fail\":");
        text::push_dec(&mut out, self.parse_fail);
        out.append(",\"oversize_dropped\":");
        text::push_dec(&mut out, self.oversize_dropped);
        out.append(",\"core_version\":");
        out.append(json::quoted_string(self.core_version.as_str()).as_str());
        out.append(",\"skipped_dir_count\":");
        text::push_dec(&mut out, self.skipped_dir_count);
        out.append("}");
        out
    }

    /// The counters as JSON text in UTF-8, at the given time.
    pub fn to_json_at(&self, now: u64) -> (r: Vec<u8>)
        ensures
            r@ == encode_utf8(stats_text(*self, uptime_at(self.started_at, now))),
    {
        let out = self.to_text_at(now);
        vstd::slice::slice_to_vec(out.as_str().as_bytes())
    }

    /// The counters as JSON text in UTF-8, now.
    pub fn to_json(&self) -> (r: Vec<u8>)
        ensures
            exists|now: u64|
                r@ == encode_utf8(stats_text(*self, #[trigger] uptime_at(self.started_at, now))),
    {
        self.to_json_at(unix_seconds())
    }
}

impl Default for AntieStats {
    fn default() -> (r: Self)
        ensures
            r.is_fresh(),
    {
        AntieStats::new()
    }
}


/// The counters as a JSON value, after `uptime` seconds: each under its name, in this order.
pub open spec fn told(s: AntieStats, uptime: u64) -> Seq<(Seq<char>, Json)> {
    seq![
        ("uptime_secs"@, Json::PosInt(uptime)),
        ("messages_received"@, Json::PosInt(s.messages_received)),
        ("messages_processed"@, Json::PosInt(s.messages_processed)),
        ("messages_failed"@, Json::PosInt(s.messages_failed)),
        ("tcp_connections"@, Json::PosInt(s.tcp_connections)),
        ("tcp_rate_limited"@, Json::PosInt(s.tcp_rate_limited)),
        ("lambda_requests"@, Json::PosInt(s.lambda_requests)),
        ("lambda_errors"@, Json::PosInt(s.lambda_errors)),
        ("emails_sent"@, Json::PosInt(s.emails_sent)),
        ("active_carriers"@, Json::Str(s.active_carriers@)),
        ("avg_witness_ms"@, Json::PosInt(s.avg_witness_ms)),
        ("busy_rejections"@, Json::PosInt(s.busy_rejections)),
        ("wallet_rate_limited"@, Json::PosInt(s.rate_limited)),
        ("ban_rejected"@, Json::PosInt(s.ban_rejected)),
        ("decrypt_fail"@, Json::PosInt(s.decrypt_fail)),
        ("parse_fail"@, Json::PosInt(s.parse_fail)),
        ("oversize_dropped"@, Json::PosInt(s.oversize_dropped)),
        ("core_version"@, Json::Str(s.core_version@)),
        ("skipped_dir_count"@, Json::PosInt(s.skipped_dir_count)),
    ]
}

proof fn lemma_told_first(s: AntieStats, uptime: u64)
    ensures
        "{"@ + json::json_entries(told(s, uptime).take(7)) == "{"@ + json::json_entries(told(s, uptime).take(1))
            + ",\"messages_received\":"@ + text::dec(s.messages_received as nat)
            + ",\"messages_processed\":"@ + text::dec(s.messages_processed as nat)
            + ",\"messages_failed\":"@ + text::dec(s.messages_failed as nat)
            + ",\"tcp_connections\":"@ + text::dec(s.tcp_connections as nat)
            + ",\"tcp_rate_limited\":"@ + text::dec(s.tcp_rate_limited as nat)
            + ",\"lambda_requests\":"@ + text::dec(s.lambda_requests as nat),
{
    let all = told(s, uptime);
    reveal_strlit(",\"messages_received\":");
    reveal_strlit("messages_received");
    assert(",\"messages_received\":"@ =~= seq![',', '"'] + "messages_received"@ + seq!['"', ':']);
    assert(all.take(2) =~= all.take(1).push(("messages_received"@, Json::PosInt(s.messages_received))));
    json::lemma_entry_added(all.take(1), "messages_received"@, Json::PosInt(s.messages_received), ",\"messages_received\":"@);
    reveal_strlit(",\"messages_processed\":");
    reveal_strlit("messages_processed");
    assert(",\"messages_processed\":"@ =~= seq![',', '"'] + "messages_processed"@ + seq!['"', ':']);
    assert(all.take(3) =~= all.take(2).push(("messages_processed"@, Json::PosInt(s.messages_processed))));
    json::lemma_entry_added(all.take(2), "messages_processed"@, Json::PosInt(s.messages_processed), ",\"messages_processed\":"@);
    reveal_strlit(",\"messages_failed\":");
    reveal_strlit("messages_failed");
    assert(",\"messages_failed\":"@ =~= seq![',', '"'] + "messages_failed"@ + seq!['"', ':']);
    assert(all.take(4) =~= all.take(3).push(("messages_failed"@, Json::PosInt(s.messages_failed))));
    json::lemma_entry_added(all.take(3), "messages_failed"@, Json::PosInt(s.messages_failed), ",\"messages_failed\":"@);
    reveal_strlit(",\"tcp_connections\":");
    reveal_strlit("tcp_connections");
    assert(",\"tcp_connections\":"@ =~= seq![',', '"'] + "tcp_connections"@ + seq!['"', ':']);
    assert(all.take(5) =~= all.take(4).push(("tcp_connections"@, Json::PosInt(s.tcp_connections))));
    json::lemma_entry_added(all.take(4), "tcp_connections"@, Json::PosInt(s.tcp_connections), ",\"tcp_connections\":"@);
    reveal_strlit(",\"tcp_rate_limited\":");
    reveal_strlit("tcp_rate_limited");
    assert(",\"tcp_rate_limited\":"@ =~= seq![',', '"'] + "tcp_rate_limited"@ + seq!['"', ':']);
    assert(all.take(6) =~= all.take(5).push(("tcp_rate_limited"@, Json::PosInt(s.tcp_rate_limited))));
    json::lemma_entry_added(all.take(5), "tcp_rate_limited"@, Json::PosInt(s.tcp_rate_limited), ",\"tcp_rate_limited\":"@);
    reveal_strlit(",\"lambda_requests\":");
    reveal_strlit("lambda_requests");
    assert(",\"lambda_requests\":"@ =~= seq![',', '"'] + "lambda_requests"@ + seq!['"', ':']);
    assert(all.take(7) =~= all.take(6).push(("lambda_requests"@, Json::PosInt(s.lambda_requests))));
    json::lemma_entry_added(all.take(6), "lambda_requests"@, Json::PosInt(s.lambda_requests), ",\"lambda_requests\":"@);
}

proof fn lemma_told_middle(s: AntieStats, uptime: u64)
    ensures
        "{"@ + json::json_entries(told(s, uptime).take(13)) == "{"@ + json::json_entries(told(s, uptime).take(7))
            + ",\"lambda_errors\":"@ + text::dec(s.lambda_errors as nat)
            + ",\"emails_sent\":"@ + text::dec(s.emails_sent as nat)
            + ",\"active_carriers\":"@ + json::quoted(s.active_carriers@)
            + ",\"avg_witness_ms\":"@ + text::dec(s.avg_witness_ms as nat)
            + ",\"busy_rejections\":"@ + text::dec(s.busy_rejections as nat)
            + ",\"wallet_rate_limited\":"@ + text::dec(s.rate_limited as nat),
{
    let all = told(s, uptime);
    reveal_strlit(",\"lambda_errors\":");
    reveal_strlit("lambda_errors");
    assert(",\"lambda_errors\":"@ =~= seq![',', '"'] + "lambda_errors"@ + seq!['"', ':']);
    assert(all.take(8) =~= all.take(7).push(("lambda_errors"@, Json::PosInt(s.lambda_errors))));
    json::lemma_entry_added(all.take(7), "lambda_errors"@, Json::PosInt(s.lambda_errors), ",\"lambda_errors\":"@);
    reveal_strlit(",\"emails_sent\":");
    reveal_strlit("emails_sent");
    assert(",\"emails_sent\":"@ =~= seq![',', '"'] + "emails_sent"@ + seq!['"', ':']);
    assert(all.take(9) =~= all.take(8).push(("emails_sent"@, Json::PosInt(s.emails_sent))));
    json::lemma_entry_added(all.take(8), "emails_sent"@, Json::PosInt(s.emails_sent), ",\"emails_sent\":"@);
    reveal_strlit(",\"active_carriers\":");
    reveal_strlit("active_carriers");
    assert(",\"active_carriers\":"@ =~= seq![',', '"'] + "active_carriers"@ + seq!['"', ':']);
    assert(all.take(10) =~= all.take(9).push(("active_carriers"@, Json::Str(s.active_carriers@))));
    json::lemma_entry_added(all.take(9), "active_carriers"@, Json::Str(s.active_carriers@), ",\"active_carriers\":"@);
    reveal_strlit(",\"avg_witness_ms\":");
    reveal_strlit("avg_witness_ms");
    assert(",\"avg_witness_ms\":"@ =~= seq![',', '"'] + "avg_witness_ms"@ + seq!['"', ':']);
    assert(all.take(11) =~= all.take(10).push(("avg_witness_ms"@, Json::PosInt(s.avg_witness_ms))));
    json::lemma_entry_added(all.take(10), "avg_witness_ms"@, Json::PosInt(s.avg_witness_ms), ",\"avg_witness_ms\":"@);
    reveal_strlit(",\"busy_rejections\":");
    reveal_strlit("busy_rejections");
    assert(",\"busy_rejections\":"@ =~= seq![',', '"'] + "busy_rejections"@ + seq!['"', ':']);
    assert(all.take(12) =~= all.take(11).push(("busy_rejections"@, Json::PosInt(s.busy_rejections))));
    json::lemma_entry_added(all.take(11), "busy_rejections"@, Json::PosInt(s.busy_rejections), ",\"busy_rejections\":"@);
    reveal_strlit(",\"wallet_rate_limited\":");
    reveal_strlit("wallet_rate_limited");
    assert(",\"wallet_rate_limited\":"@ =~= seq![',', '"'] + "wallet_rate_limited"@ + seq!['"', ':']);
    assert(all.take(13) =~= all.take(12).push(("wallet_rate_limited"@, Json::PosInt(s.rate_limited))));
    json::lemma_entry_added(all.take(12), "wallet_rate_limited"@, Json::PosInt(s.rate_limited), ",\"wallet_rate_limited\":"@);
}

proof fn lemma_told_last(s: AntieStats, uptime: u64)
    ensures
        "{"@ + json::json_entries(told(s, uptime).take(19)) == "{"@ + json::json_entries(told(s, uptime).take(13))
            + ",\"ban_rejected\":"@ + text::dec(s.ban_rejected as nat)
            + ",\"decrypt_fail\":"@ + text::dec(s.decrypt_fail as nat)
            + ",\"parse_fail\":"@ + text::dec(s.parse_fail as nat)
            + ",\"oversize_dropped\":"@ + text::dec(s.oversize_dropped as nat)
            + ",\"core_version\":"@ + json::quoted(s.core_version@)
            + ",\"skipped_dir_count\":"@ + text::dec(s.skipped_dir_count as nat),
{
    let all = told(s, uptime);
    reveal_strlit(",\"ban_rejected\":");
    reveal_strlit("ban_rejected");
    assert(",\"ban_rejected\":"@ =~= seq![',', '"'] + "ban_rejected"@ + seq!['"', ':']);
    assert(all.take(14) =~= all.take(13).push(("ban_rejected"@, Json::PosInt(s.ban_rejected))));
    json::lemma_entry_added(all.take(13), "ban_rejected"@, Json::PosInt(s.ban_rejected), ",\"ban_rejected\":"@);
    reveal_strlit(",\"decrypt_fail\":");
    reveal_strlit("decrypt_fail");
    assert(",\"decrypt_fail\":"@ =~= seq![',', '"'] + "decrypt_fail"@ + seq!['"', ':']);
    assert(all.take(15) =~= all.take(14).push(("decrypt_fail"@, Json::PosInt(s.decrypt_fail))));
    json::lemma_entry_added(all.take(14), "decrypt_fail"@, Json::PosInt(s.decrypt_fail), ",\"decrypt_fail\":"@);
    reveal_strlit(",\"parse_fail\":");
    reveal_strlit("parse_fail");
    assert(",\"parse_fail\":"@ =~= seq![',', '"'] + "parse_fail"@ + seq!['"', ':']);
    assert(all.take(16) =~= all.take(15).push(("parse_fail"@, Json::PosInt(s.parse_fail))));
    json::lemma_entry_added(all.take(15), "parse_fail"@, Json::PosInt(s.parse_fail), ",\"parse_fail\":"@);
    reveal_strlit(",\"oversize_dropped\":");
    reveal_strlit("oversize_dropped");
    assert(",\"oversize_dropped\":"@ =~= seq![',', '"'] + "oversize_dropped"@ + seq!['"', ':']);
    assert(all.take(17) =~= all.take(16).push(("oversize_dropped"@, Json::PosInt(s.oversize_dropped))));
    json::lemma_entry_added(all.take(16), "oversize_dropped"@, Json::PosInt(s.oversize_dropped), ",\"oversize_dropped\":"@);
    reveal_strlit(",\"core_version\":");
    reveal_strlit("core_version");
    assert(",\"core_version\":"@ =~= seq![',', '"'] + "core_version"@ + seq!['"', ':']);
    assert(all.take(18) =~= all.take(17).push(("core_version"@, Json::Str(s.core_version@))));
    json::lemma_entry_added(all.take(17), "core_version"@, Json::Str(s.core_version@), ",\"core_version\":"@);
    reveal_strlit(",\"skipped_dir_count\":");
    reveal_strlit("skipped_dir_count");
    assert(",\"skipped_dir_count\":"@ =~= seq![',', '"'] + "skipped_dir_count"@ + seq!['"', ':']);
    assert(all.take(19) =~= all.take(18).push(("skipped_dir_count"@, Json::PosInt(s.skipped_dir_count))));
    json::lemma_entry_added(all.take(18), "skipped_dir_count"@, Json::PosInt(s.skipped_dir_count), ",\"skipped_dir_count\":"@);
}

proof fn lemma_told_at_first(s: AntieStats, uptime: u64)
    ensures
        "{"@ + json::json_entries(told(s, uptime).take(1)) == "{\"uptime_secs\":"@ + text::dec(uptime as nat),
{
    reveal_strlit("{\"uptime_secs\":");
    reveal_strlit("uptime_secs");
    reveal_strlit("{");
    reveal_strlit("\"");
    reveal_strlit(":");
    let one = told(s, uptime).take(1);
    assert(one =~= seq![("uptime_secs"@, Json::PosInt(uptime))]);
    json::law_unescaped_stands_as_it_is("uptime_secs"@);
    assert(one.last() == ("uptime_secs"@, Json::PosInt(uptime)));
    assert(json::json_text(Json::PosInt(uptime)) == text::dec(uptime as nat));
    assert(json::json_entries(one) == json::quoted("uptime_secs"@) + ":"@ + text::dec(uptime as nat));
    assert("{"@ + (json::quoted("uptime_secs"@) + ":"@) =~= "{\"uptime_secs\":"@);
    assert("{"@ + json::json_entries(one) =~= "{"@ + (json::quoted("uptime_secs"@) + ":"@) + text::dec(
        uptime as nat,
    ));
}

/// The counters in JSON text are a JSON object that holds each of them under its name.
pub proof fn law_counters_are_told_by_name(s: AntieStats, uptime: u64)
    ensures
        stats_text(s, uptime as nat) == json::json_text(Json::Object(told(s, uptime))),
{
    let all = told(s, uptime);
    lemma_told_at_first(s, uptime);
    lemma_told_first(s, uptime);
    lemma_told_middle(s, uptime);
    lemma_told_last(s, uptime);
    assert(all.take(19) =~= all);
}

/// The gateway has run since it started; a clock that stands before that says nothing.
pub proof fn law_uptime_runs_from_the_start(started_at: u64, now: u64)
    ensures
        now >= started_at ==> started_at + uptime_at(started_at, now) == now,
        now <= started_at ==> uptime_at(started_at, now) == 0,
{
}

/// Counting goes up by one, and starts again at zero behind the largest number.
pub proof fn law_counting_goes_up_by_one(n: u64)
    ensures
        n < u64::MAX ==> bumped(n) - n == 1,
        bumped(u64::MAX) == 0,
{
}

} // verus!
