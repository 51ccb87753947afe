//! Fan-out messages: each is passed on once, to a few peers, for a limited number of hops.
use vstd::prelude::*;
use crate::antie::cbor;
use crate::antie::core_ipc::FanOutVerifyResult;
use crate::antie::email;
use crate::antie::email::{build_fanout_relay_email, AntieEmail};
use crate::antie::error::{labelled, AntieError};
use crate::antie::gateway::Gateway;
use crate::antie::lambda_client::ValidatorHint;
use crate::antie::payload;
use crate::antie::response::ResponsePayload;
use crate::antie::witness::Delivery;
use crate::json;
use crate::json::{Json, JsonValue};
use crate::text;

verus! {

/// The most peers that a message is passed on to.
pub const MAX_FANOUT: usize = 3;

/// A fan-out message: what the gateway reads of it, and the whole of it.
pub struct FanOutMessage {
    pub diffusion_id: [u8; 32],
    /// How many peers it asks to be passed on to.
    pub fanout: u8,
    pub content_type: u16,
    pub whole: JsonValue,
}

/// A message to be passed on.
pub struct FanOutRelay {
    pub message: JsonValue,
    /// To how many peers at most.
    pub limit: usize,
}

/// What the core's verdict on a message leads to.
pub enum FanoutVerdict {
    /// The core failed.
    Failed(AntieError),
    /// It is refused, with this answer.
    Refused(ResponsePayload),
    /// It is accepted, with this answer, and passed on if it has hops left.
    Accepted(ResponsePayload, Option<FanOutRelay>),
}

/// The message in a mail, or the answer to one that is ill-formed.
pub fn fanout_message(email: &AntieEmail, parsed: Result<FanOutMessage, String>) -> (r: Result<
    FanOutMessage,
    ResponsePayload,
>)
    ensures
        match parsed {
            Ok(m) => r == Ok::<FanOutMessage, ResponsePayload>(m),
            Err(e) => r matches Err(p) && p.says(
                false,
                email.request_id@,
                Some("Bad Fan-Out message: "@ + e@),
                Some("FANOUT_BAD_FORMAT"@),
            ),
        },
{
    match parsed {
        Ok(m) => Ok(m),
        Err(e) => Err(
            ResponsePayload::bare(
                false,
                email.request_id.as_str(),
                Some(labelled("Bad Fan-Out message: ", e.as_str())),
                Some("FANOUT_BAD_FORMAT"),
            ),
        ),
    }
}

/// Whether an answer says that a message has been processed before.
pub open spec fn is_duplicate(r: ResponsePayload, email: AntieEmail) -> bool {
    r.says(true, email.request_id@, None, Some("FANOUT_DUPLICATE"@))
}

fn duplicate(email: &AntieEmail) -> (r: ResponsePayload)
    ensures
        is_duplicate(r, *email),
{
    ResponsePayload::bare(true, email.request_id.as_str(), None, Some("FANOUT_DUPLICATE"))
}

/// A message with another number of hops left.
pub open spec fn with_ttl(whole: Json, ttl: u8) -> Json {
    match whole {
        Json::Object(o) => Json::Object(
            json::object_of(o.push(("ttl_current"@, Json::PosInt(ttl as u64)))),
        ),
        other => other,
    }
}

fn set_ttl(whole: &JsonValue, ttl: u8) -> (r: JsonValue)
    ensures
        r@ == with_ttl(whole@, ttl),
{
    match whole.clone() {
        JsonValue::Object(o) => {
            let ghost before = json::entries_view(o@);
            proof {
                json::lemma_object_view(o);
            }
            let mut entries = o;
            entries.push((String::from_str("ttl_current"), JsonValue::PosInt(ttl as u64)));
            assert(json::entries_view(entries@) == before.push(
                ("ttl_current"@, Json::PosInt(ttl as u64)),
            ));
            JsonValue::object(entries)
        },
        other => other,
    }
}

/// To how many peers a message is passed on.
pub open spec fn reach(fanout: u8) -> nat {
    if fanout as nat <= MAX_FANOUT as nat {
        fanout as nat
    } else {
        MAX_FANOUT as nat
    }
}

/// Whether an accepted message is passed on as it should be.
pub open spec fn is_relay(r: Option<FanOutRelay>, m: FanOutMessage, new_ttl: u8) -> bool {
    if new_ttl > 0 {
        r matches Some(f) && f.message@ == with_ttl(m.whole@, new_ttl) && f.limit == reach(m.fanout)
    } else {
        r is None
    }
}

impl Gateway {
    /// Whether a message has been accepted before.
    fn has_seen(&self, id: &[u8; 32]) -> (r: bool)
        ensures
            r == self.seen().contains(id@),
    {
        let mut i: usize = 0;
        while i < self.fanout_seen.len()
            invariant
                i <= self.fanout_seen@.len(),
                forall|k: int| 0 <= k < i ==> (#[trigger] self.fanout_seen@[k])@ != id@,
            decreases self.fanout_seen@.len() - i,
        {
            if text::same_bytes(self.fanout_seen[i].as_slice(), id.as_slice()) {
                assert(self.fanout_seen@[i as int]@ == id@);
                return true;
            }
            i = i + 1;
        }
        false
    }

    /// Notes that a message has been accepted.
    fn note_seen(&mut self, id: &[u8; 32])
        ensures
            final(self).seen() == old(self).seen().insert(id@),
            *final(self) == (Gateway { fanout_seen: final(self).fanout_seen, ..*old(self) }),
    {
        let ghost before = self.fanout_seen@;
        if self.has_seen(id) {
            assert(self.seen() =~= self.seen().insert(id@));
            return;
        }
        self.fanout_seen.push(*id);
        proof {
            let after = self.fanout_seen@;
            assert forall|x: Seq<u8>| old(self).seen().insert(id@).contains(x) implies self.seen().contains(x) by {
                if x == id@ {
                    assert(after[before.len() as int]@ == x);
                } else {
                    let k = choose|k: int| 0 <= k < before.len() && #[trigger] before[k]@ == x;
                    assert(after[k]@ == x);
                }
            }
            assert forall|x: Seq<u8>| self.seen().contains(x) implies old(self).seen().insert(id@).contains(x) by {
                let k = choose|k: int| 0 <= k < after.len() && #[trigger] after[k]@ == x;
                if k < before.len() {
                    assert(before[k]@ == x);
                }
            }
            assert(self.seen() =~= old(self).seen().insert(id@));
        }
    }

    /// The answer to a message that has been accepted before; `None` if it has not, as far as
    /// is remembered.
    pub fn fanout_known(&self, email: &AntieEmail, m: &FanOutMessage) -> (r: Option<ResponsePayload>)
        ensures
            self.seen().contains(m.diffusion_id@) ==> (r matches Some(p) && is_duplicate(p, *email)),
            !self.seen().contains(m.diffusion_id@) ==> r is None,
    {
        if self.has_seen(&m.diffusion_id) {
            Some(duplicate(email))
        } else {
            None
        }
    }

    /// The answer to a message that the ledger service has seen before; that is remembered. If
    /// it has not, or cannot be asked, `None`.
    pub fn fanout_ledger(
        &mut self,
        email: &AntieEmail,
        m: &FanOutMessage,
        already_seen: &Result<bool, AntieError>,
    ) -> (r: Option<ResponsePayload>)
        ensures
            match *already_seen {
                Ok(true) => {
                    &&& r matches Some(p) && is_duplicate(p, *email)
                    &&& final(self).seen() == old(self).seen().insert(m.diffusion_id@)
                    &&& *final(self) == (Gateway {
                        fanout_seen: final(self).fanout_seen,
                        ..*old(self)
                    })
                },
                _ => r is None && *final(self) == *old(self),
            },
    {
        match already_seen {
            Ok(true) => {
                self.note_seen(&m.diffusion_id);
                Some(duplicate(email))
            },
            _ => None,
        }
    }

    /// What the core's verdict on a message leads to. Only an accepted message is remembered.
    pub fn fanout_verdict(
        &mut self,
        email: &AntieEmail,
        m: &FanOutMessage,
        verdict: Result<FanOutVerifyResult, AntieError>,
    ) -> (r: FanoutVerdict)
        ensures
            match verdict {
                Err(e) => r == FanoutVerdict::Failed(e) && *final(self) == *old(self),
                Ok(v) => if v.accepted {
                    &&& r matches FanoutVerdict::Accepted(p, relay) && p.says(
                        true,
                        email.request_id@,
                        None,
                        None,
                    ) && is_relay(relay, *m, v.new_ttl)
                    &&& final(self).seen() == old(self).seen().insert(m.diffusion_id@)
                    &&& *final(self) == (Gateway {
                        fanout_seen: final(self).fanout_seen,
                        ..*old(self)
                    })
                } else {
                    &&& r matches FanoutVerdict::Refused(p) && p.says(
                        false,
                        email.request_id@,
                        payload::opt(v.rejection_reason),
                        Some("CL10_FANOUT_REJECTED"@),
                    )
                    &&& *final(self) == *old(self)
                },
            },
    {
        match verdict {
            Err(e) => FanoutVerdict::Failed(e),
            Ok(v) => {
                if !v.accepted {
                    return FanoutVerdict::Refused(
                        ResponsePayload::bare(
                            false,
                            email.request_id.as_str(),
                            v.rejection_reason,
                            Some("CL10_FANOUT_REJECTED"),
                        ),
                    );
                }
                self.note_seen(&m.diffusion_id);
                let relay = if v.new_ttl > 0 {
                    let limit: usize = if m.fanout as usize <= MAX_FANOUT {
                        m.fanout as usize
                    } else {
                        MAX_FANOUT
                    };
                    Some(FanOutRelay { message: set_ttl(&m.whole, v.new_ttl), limit })
                } else {
                    None
                };
                FanoutVerdict::Accepted(
                    ResponsePayload::bare(true, email.request_id.as_str(), None, None),
                    relay,
                )
            },
        }
    }
}

/// The first mail address among the ways to reach a validator.
pub open spec fn first_mail(carriers: Seq<Seq<char>>) -> Option<Seq<char>>
    decreases carriers.len(),
{
    if carriers.len() == 0 {
        None
    } else if text::starts_with(carriers[0], "email:"@) {
        Some(carriers[0].skip("email:"@.len() as int))
    } else {
        first_mail(carriers.drop_first())
    }
}

fn find_mail(carriers: &Vec<String>) -> (r: Option<String>)
    ensures
        payload::opt(r) == first_mail(text::views(carriers@)),
{
    let ghost all = text::views(carriers@);
    let prefix = text::chars_of("email:");
    let mut i: usize = 0;
    assert(all.skip(0) == all);
    while i < carriers.len()
        invariant
            i <= carriers@.len(),
            all == text::views(carriers@),
            prefix@ == "email:"@,
            first_mail(all) == first_mail(all.skip(i as int)),
        decreases carriers@.len() - i,
    {
        let v = text::chars_of(carriers[i].as_str());
        proof {
            assert(all.skip(i as int)[0] == v@);
            assert(all.skip(i as int).drop_first() == all.skip(i + 1));
            assert(v@.skip(0) == v@);
        }
        if text::has_at(&v, 0, &prefix) {
            let rest = text::string_of(&v, prefix.len(), v.len());
            assert(v@.subrange(prefix@.len() as int, v@.len() as int) == v@.skip(prefix@.len() as int));
            return Some(rest);
        }
        i = i + 1;
    }
    None
}

/// What is known of the ways to reach a validator.
pub open spec fn ways(h: ValidatorHint) -> Seq<Seq<char>> {
    text::views(h.carriers@)
}

/// The mail addresses of the first validators that have one, `limit` of them at most.
pub open spec fn peers(hints: Seq<ValidatorHint>, limit: nat) -> Seq<Seq<char>>
    decreases hints.len(),
{
    if limit == 0 || hints.len() == 0 {
        Seq::empty()
    } else {
        match first_mail(ways(hints[0])) {
            Some(m) => seq![m] + peers(hints.drop_first(), (limit - 1) as nat),
            None => peers(hints.drop_first(), limit),
        }
    }
}

/// The peers that a message is passed on to.
pub fn relay_peers(hints: &Vec<ValidatorHint>, limit: usize) -> (r: Vec<String>)
    ensures
        text::views(r@) == peers(hints@, limit as nat),
{
    let mut out: Vec<String> = Vec::new();
    let mut i: usize = 0;
    proof {
        assert(hints@.skip(0) == hints@);
        assert(text::views(out@) + peers(hints@, limit as nat) == peers(hints@, limit as nat));
    }
    while i < hints.len() && out.len() < limit
        invariant
            i <= hints@.len(),
            out@.len() <= limit,
            text::views(out@) + peers(hints@.skip(i as int), (limit - out@.len()) as nat) == peers(
                hints@,
                limit as nat,
            ),
        decreases hints@.len() - i,
    {
        let ghost before = text::views(out@);
        let ghost rest = hints@.skip(i as int);
        let ghost left = (limit - out@.len()) as nat;
        proof {
            assert(rest[0] == hints@[i as int]);
            assert(rest.drop_first() == hints@.skip(i + 1));
        }
        if let Some(m) = find_mail(&hints[i].carriers) {
            out.push(m);
            proof {
                assert(text::views(out@) == before.push(m@));
                assert(before.push(m@) + peers(rest.drop_first(), (left - 1) as nat) == before + (seq![m@]
                    + peers(rest.drop_first(), (left - 1) as nat)));
            }
        }
        i = i + 1;
    }
    proof {
        assert(text::views(out@) + Seq::<Seq<char>>::empty() == text::views(out@));
    }
    out
}

/// The body of the mail that passes a message on.
pub open spec fn relay_body(message: Json) -> Seq<u8> {
    cbor::cbor(
        Json::Object(
            json::object_of(
                seq![("message_type"@, Json::Str("fanout"@)), ("fanout_message"@, message)],
            ),
        ),
    )
}

/// The mails that pass a message on, one to each peer.
pub fn relay_mails(identity: &str, hints: &Vec<ValidatorHint>, relay: &FanOutRelay) -> (r: Vec<Delivery>)
    ensures
        r@.len() == peers(hints@, relay.limit as nat).len(),
        forall|i: int|
            0 <= i < r@.len() ==> (#[trigger] r@[i]).to@ == peers(hints@, relay.limit as nat)[i]
                && email::is_notice(
                r@[i].mail@,
                identity@,
                r@[i].to@,
                "fanout"@,
                relay_body(relay.message@),
            ),
{
    let to = relay_peers(hints, relay.limit);
    let ghost all = text::views(to@);
    let mut mails: Vec<Delivery> = Vec::new();
    let mut i: usize = 0;
    while i < to.len()
        invariant
            i <= to@.len(),
            mails@.len() == i,
            all == text::views(to@),
            forall|k: int|
                0 <= k < i ==> (#[trigger] mails@[k]).to@ == all[k] && email::is_notice(
                    mails@[k].mail@,
                    identity@,
                    mails@[k].to@,
                    "fanout"@,
                    relay_body(relay.message@),
                ),
        decreases to@.len() - i,
    {
        let mail = build_fanout_relay_email(identity, to[i].as_str(), &relay.message);
        mails.push(Delivery { to: to[i].clone(), mail });
        i = i + 1;
    }
    mails
}

proof fn lemma_peers_len(hints: Seq<ValidatorHint>, limit: nat)
    ensures
        peers(hints, limit).len() <= limit,
    decreases hints.len(),
{
    if limit > 0 && hints.len() > 0 {
        match first_mail(ways(hints[0])) {
            Some(_) => lemma_peers_len(hints.drop_first(), (limit - 1) as nat),
            None => lemma_peers_len(hints.drop_first(), limit),
        }
    }
}

/// A message goes to three peers at most, and to no more than it asks for.
pub proof fn law_fanout_is_bounded(hints: Seq<ValidatorHint>, fanout: u8)
    ensures
        peers(hints, reach(fanout)).len() <= 3,
        peers(hints, reach(fanout)).len() <= fanout,
{
    lemma_peers_len(hints, reach(fanout));
}

/// What becomes of a message, and of the set of messages seen: it is processed unless it was
/// seen before or the core does not accept it. `in_ledger` is whether the ledger service has
/// seen it, `accepted` whether the core accepts it.
pub open spec fn processed(seen: Set<Seq<u8>>, id: Seq<u8>, in_ledger: bool, accepted: bool) -> (
    bool,
    Set<Seq<u8>>,
) {
    if seen.contains(id) {
        (false, seen)
    } else if in_ledger {
        (false, seen.insert(id))
    } else if accepted {
        (true, seen.insert(id))
    } else {
        (false, seen)
    }
}

/// A message that was processed is not processed again, whatever the ledger service and the
/// core say of it later; one that was refused can still be processed.
pub proof fn law_processed_once(
    seen: Set<Seq<u8>>,
    id: Seq<u8>,
    in_ledger: bool,
    accepted: bool,
    later_in_ledger: bool,
    later_accepted: bool,
)
    ensures
        processed(seen, id, in_ledger, accepted).0 ==> !processed(
            processed(seen, id, in_ledger, accepted).1,
            id,
            later_in_ledger,
            later_accepted,
        ).0,
        !seen.contains(id) && !in_ledger && !accepted ==> processed(
            processed(seen, id, in_ledger, accepted).1,
            id,
            false,
            true,
        ).0,
        processed(seen, id, in_ledger, accepted).0 <==> accepted && !in_ledger && !seen.contains(id),
        processed(seen, id, in_ledger, accepted).1.contains(id) <==> seen.contains(id) || in_ledger || accepted,
        forall|other: Seq<u8>|
            other != id ==> (processed(seen, id, in_ledger, accepted).1.contains(other) <==> #[trigger] seen.contains(
                other,
            )),
{
}

impl Gateway {
    /// Handles a message, given what the ledger service and the core say of it: the answer or
    /// the core's failure, the message to pass on, and whether the ledger service is to
    /// remember it.
    pub fn handle_fanout_relay(
        &mut self,
        email: &AntieEmail,
        m: &FanOutMessage,
        already_seen: &Result<bool, AntieError>,
        verdict: Result<FanOutVerifyResult, AntieError>,
    ) -> (r: (Result<ResponsePayload, AntieError>, Option<FanOutRelay>, bool))
        ensures
            ({
                let id = m.diffusion_id@;
                let in_ledger = *already_seen == Ok::<bool, AntieError>(true);
                let accepted = verdict matches Ok(v) && v.accepted;
                let (done, seen) = processed(old(self).seen(), id, in_ledger, accepted);
                &&& final(self).seen() == seen
                &&& *final(self) == (Gateway { fanout_seen: final(self).fanout_seen, ..*old(self) })
                &&& r.2 == done
                &&& done ==> (r.0 matches Ok(p) && p.says(true, email.request_id@, None, None))
                    && is_relay(r.1, *m, verdict->Ok_0.new_ttl)
                &&& !done ==> r.1 is None
                &&& old(self).seen().contains(id) || in_ledger ==> (r.0 matches Ok(p) && is_duplicate(
                    p,
                    *email,
                ))
                &&& !old(self).seen().contains(id) && !in_ledger && !accepted ==> match verdict {
                    Err(e) => r.0 == Err::<ResponsePayload, AntieError>(e),
                    Ok(v) => r.0 matches Ok(p) && p.says(
                        false,
                        email.request_id@,
                        payload::opt(v.rejection_reason),
                        Some("CL10_FANOUT_REJECTED"@),
                    ),
                }
            }),
    {
        if let Some(p) = self.fanout_known(email, m) {
            return (Ok(p), None, false);
        }
        if let Some(p) = self.fanout_ledger(email, m, already_seen) {
            return (Ok(p), None, false);
        }
        match self.fanout_verdict(email, m, verdict) {
            FanoutVerdict::Failed(e) => (Err(e), None, false),
            FanoutVerdict::Refused(p) => (Ok(p), None, false),
            FanoutVerdict::Accepted(p, relay) => (Ok(p), relay, true),
        }
    }
}

/// A message that is passed on differs from the one that came in only in the number of hops that
/// it has left: no other name is added, lost or given another value.
pub proof fn law_only_the_hops_change(o: Seq<(Seq<char>, Json)>, ttl: u8, name: Seq<char>)
    requires
        json::no_key_twice(o),
    ensures
        with_ttl(Json::Object(o), ttl) is Object,
        json::lookup(with_ttl(Json::Object(o), ttl)->Object_0, "ttl_current"@) == Some(
            Json::PosInt(ttl as u64),
        ),
        name != "ttl_current"@ ==> json::lookup(with_ttl(Json::Object(o), ttl)->Object_0, name)
            == json::lookup(o, name),
{
    let e = o.push(("ttl_current"@, Json::PosInt(ttl as u64)));
    let n = o.len() as int;
    json::law_object_holds_the_last(e, "ttl_current"@);
    assert(e[n].0 == "ttl_current"@);
    if name != "ttl_current"@ {
        json::law_object_holds_the_last(e, name);
        json::law_lookup_is_by_key(o, name);
        if exists|i: int| 0 <= i < o.len() && (#[trigger] o[i]).0 == name {
            let i = choose|i: int| 0 <= i < o.len() && (#[trigger] o[i]).0 == name;
            assert(e[i] == o[i]);
            assert forall|j: int| i < j < e.len() implies (#[trigger] e[j]).0 != name by {
                if j < n {
                    assert(e[j] == o[j]);
                }
            }
            assert forall|j: int| 0 <= j < i implies (#[trigger] o[j]).0 != name by {}
        } else {
            assert forall|j: int| 0 <= j < e.len() implies (#[trigger] e[j]).0 != name by {
                if j < n {
                    assert(e[j] == o[j]);
                }
            }
        }
    }
}

/// An accepted message is passed on as long as it has hops left, with the hops that the core
/// says, to as many peers as it asks for, but no more than three.
pub proof fn law_relay_is_the_message_with_its_hops(
    r: Option<FanOutRelay>,
    m: FanOutMessage,
    new_ttl: u8,
    name: Seq<char>,
)
    requires
        is_relay(r, m, new_ttl),
    ensures
        r is Some <==> new_ttl > 0,
        r matches Some(f) ==> f.limit <= 3 && f.limit <= m.fanout && (m.fanout <= 3 ==> f.limit == m.fanout)
            && (m.fanout > 3 ==> f.limit == 3),
        r is Some && m.whole@ is Object && json::no_key_twice(m.whole@->Object_0) ==> {
            &&& r->0.message@ is Object
            &&& json::lookup(r->0.message@->Object_0, "ttl_current"@) == Some(Json::PosInt(new_ttl as u64))
            &&& name != "ttl_current"@ ==> json::lookup(r->0.message@->Object_0, name) == json::lookup(
                m.whole@->Object_0,
                name,
            )
        },
        r matches Some(f) ==> (m.whole@ is Object || f.message@ == m.whole@),
{
    if m.whole@ is Object && json::no_key_twice(m.whole@->Object_0) {
        law_only_the_hops_change(m.whole@->Object_0, new_ttl, name);
    }
}

/// The mail address of a validator is what follows `email:` in the first of its ways that is by
/// mail; without such a way it has none.
pub proof fn law_mail_is_the_first_way_by_mail(carriers: Seq<Seq<char>>)
    ensures
        match first_mail(carriers) {
            Some(m) => exists|i: int|
                0 <= i < carriers.len() && #[trigger] carriers[i] == "email:"@ + m && forall|j: int, t: Seq<char>|
                    0 <= j < i ==> #[trigger] carriers[j] != #[trigger] ("email:"@ + t),
            None => forall|j: int, t: Seq<char>|
                0 <= j < carriers.len() ==> #[trigger] carriers[j] != #[trigger] ("email:"@ + t),
        },
    decreases carriers.len(),
{
    if carriers.len() > 0 {
        let first = carriers[0];
        let n = "email:"@.len() as int;
        if text::starts_with(first, "email:"@) {
            assert(first == "email:"@ + first.skip(n));
        } else {
            assert forall|t: Seq<char>| first != #[trigger] ("email:"@ + t) by {
                assert(("email:"@ + t).take(n) == "email:"@);
            }
            let rest = carriers.drop_first();
            law_mail_is_the_first_way_by_mail(rest);
            assert(forall|j: int| 0 <= j < rest.len() ==> #[trigger] rest[j] == carriers[j + 1]);
            match first_mail(rest) {
                Some(m) => {
                    let i = choose|i: int|
                        0 <= i < rest.len() && #[trigger] rest[i] == "email:"@ + m && forall|j: int, t: Seq<char>|
                            0 <= j < i ==> #[trigger] rest[j] != #[trigger] ("email:"@ + t);
                    assert(carriers[i + 1] == "email:"@ + m);
                    assert forall|j: int, t: Seq<char>| 0 <= j < i + 1 implies #[trigger] carriers[j]
                        != #[trigger] ("email:"@ + t) by {
                        if j > 0 {
                            assert(rest[j - 1] == carriers[j]);
                        }
                    }
                },
                None => {
                    assert forall|j: int, t: Seq<char>| 0 <= j < carriers.len() implies #[trigger] carriers[j]
                        != #[trigger] ("email:"@ + t) by {
                        if j > 0 {
                            assert(rest[j - 1] == carriers[j]);
                        }
                    }
                },
            }
        }
    }
}

/// The peers of a list of validators are those of its first part and, as far as the limit lets
/// them, those of its second. A validator by itself is a peer exactly if it has a mail address.
pub proof fn law_peers_in_turn(a: Seq<ValidatorHint>, b: Seq<ValidatorHint>, h: ValidatorHint, limit: nat)
    ensures
        peers(a, limit).len() <= limit,
        peers(a + b, limit) == peers(a, limit) + peers(b, (limit - peers(a, limit).len()) as nat),
        limit > 0 ==> peers(seq![h], limit) == (match first_mail(ways(h)) {
            Some(m) => seq![m],
            None => Seq::<Seq<char>>::empty(),
        }),
    decreases a.len(),
{
    lemma_peers_len(a, limit);
    reveal_with_fuel(peers, 2);
    assert(seq![h].drop_first().len() == 0);
    if a.len() == 0 {
        assert(a + b == b);
        assert(peers(a, limit) + peers(b, limit) == peers(b, limit));
    } else if limit == 0 {
        assert(peers(a + b, limit) == peers(a, limit) + peers(b, 0));
    } else {
        let t = a.drop_first();
        assert((a + b).drop_first() == t + b);
        assert((a + b)[0] == a[0]);
        match first_mail(ways(a[0])) {
            Some(m) => {
                law_peers_in_turn(t, b, h, (limit - 1) as nat);
                lemma_peers_len(t, (limit - 1) as nat);
                assert(seq![m] + (peers(t, (limit - 1) as nat) + peers(
                    b,
                    (limit - 1 - peers(t, (limit - 1) as nat).len()) as nat,
                )) == (seq![m] + peers(t, (limit - 1) as nat)) + peers(
                    b,
                    (limit - 1 - peers(t, (limit - 1) as nat).len()) as nat,
                ));
            },
            None => {
                law_peers_in_turn(t, b, h, limit);
            },
        }
    }
}

/// The mail that passes a message on carries the message whole, under `fanout_message`, and says
/// of itself that it is a fan-out.
pub proof fn law_relay_mail_carries_the_message(message: Json, name: Seq<char>)
    ensures
        exists|o: Seq<(Seq<char>, Json)>|
            relay_body(message) == #[trigger] cbor::cbor(Json::Object(o)) && json::lookup(o, "fanout_message"@)
                == Some(message) && json::lookup(o, "message_type"@) == Some(Json::Str("fanout"@)) && (name
                != "fanout_message"@ && name != "message_type"@ ==> json::lookup(o, name) is None),
{
    let e = seq![("message_type"@, Json::Str("fanout"@)), ("fanout_message"@, message)];
    reveal_strlit("message_type");
    reveal_strlit("fanout_message");
    assert("message_type"@.len() == 12);
    assert("fanout_message"@.len() == 14);
    json::law_object_holds_the_last(e, "message_type"@);
    json::law_object_holds_the_last(e, "fanout_message"@);
    json::law_object_holds_the_last(e, name);
    assert(e[0].0 == "message_type"@ && e[1].0 == "fanout_message"@);
    let o = json::object_of(e);
    assert(relay_body(message) == cbor::cbor(Json::Object(o)));
}


/// A message that was seen before is answered as a success that says so.
pub proof fn law_duplicates_are_no_failure(r: ResponsePayload, email: AntieEmail)
    requires
        is_duplicate(r, email),
    ensures
        r.success,
        r.request_id@ == email.request_id@,
        r.error is None,
        r.rejection_code matches Some(c) && c@ == "FANOUT_DUPLICATE"@,
        r.witness_signature is None && r.receipt is None && r.query_data is None,
{
}


/// A message goes to as many peers as it asks for, but never to more than three.
pub proof fn law_reach_is_what_is_asked_for(fanout: u8)
    ensures
        reach(fanout) <= 3,
        reach(fanout) <= fanout,
        fanout <= 3 ==> reach(fanout) == fanout,
        fanout >= 3 ==> reach(fanout) == 3,
{
}

} // verus!
