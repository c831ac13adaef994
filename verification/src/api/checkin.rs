//! The check-in protocol: a bearer token resets the deadline of a switch,
//! and a caller who fails learns nothing about which switches exist.

use crate::auth::tokens_match;
use crate::db::{self, with_checkin, Store, StoreView};
use crate::models::{CheckinResponse, Switch, SwitchView};
use crate::text::{chars_of, decimal, has_prefix, push_decimal, starts_with, text_of};
use vstd::prelude::*;
use vstd::string::*;

verus! {

/// The scheme that an `Authorization` header must begin with, the space
/// included.
pub open spec fn bearer_scheme() -> Seq<char> {
    seq!['B', 'e', 'a', 'r', 'e', 'r', ' ']
}

/// The token that an `Authorization` header carries: what follows the
/// scheme, if the header is there and begins with it.
pub open spec fn bearer_token(header: Option<Seq<char>>) -> Option<Seq<char>> {
    match header {
        Some(h) => if has_prefix(h, bearer_scheme()) {
            Some(h.subrange(7, h.len() as int))
        } else {
            None
        },
        None => None,
    }
}

/// The view of an optional header value.
pub open spec fn header_text(header: Option<&str>) -> Option<Seq<char>> {
    match header {
        Some(h) => Some(h@),
        None => None,
    }
}

/// Extracts the bearer token from the value of the `Authorization` header.
pub fn extract_bearer_token(header: Option<&str>) -> (r: Option<String>)
    ensures
        match r {
            Some(token) => bearer_token(header_text(header)) == Some(token@),
            None => bearer_token(header_text(header)) is None,
        },
{
    match header {
        None => None,
        Some(h) => {
            let chars = chars_of(h);
            let scheme = chars_of("Bearer ");
            proof {
                reveal_strlit("Bearer ");
                assert(scheme@ =~= bearer_scheme());
            }
            if starts_with(&chars, &scheme) {
                Some(text_of(&chars, 7, chars.len()))
            } else {
                None
            }
        },
    }
}

/// How a check-in request is answered.
#[derive(Clone, Copy, Debug, PartialEq, Eq, Structural)]
pub enum CheckinReply {
    /// The deadline has been reset.
    Accepted(CheckinResponse),
    /// There is no `Authorization` header, or it carries no bearer token.
    MissingAuthorization,
    /// The switch is unknown or the token is not its token; the two are not
    /// told apart.
    AuthenticationFailed,
    /// The switch could not be looked up.
    LookupFailed,
    /// The check-in could not be recorded.
    UpdateFailed,
}

impl CheckinReply {
    /// The HTTP status of the reply.
    pub open spec fn status(self) -> int {
        match self {
            CheckinReply::Accepted(_) => 200,
            CheckinReply::MissingAuthorization => 401,
            CheckinReply::AuthenticationFailed => 401,
            CheckinReply::LookupFailed => 500,
            CheckinReply::UpdateFailed => 500,
        }
    }

    /// The message of a reply that reports an error.
    pub open spec fn error(self) -> Option<Seq<char>> {
        match self {
            CheckinReply::Accepted(_) => None,
            CheckinReply::MissingAuthorization => Some(
                "Missing or invalid Authorization header"@,
            ),
            CheckinReply::AuthenticationFailed => Some("Authentication failed"@),
            CheckinReply::LookupFailed => Some("Internal server error"@),
            CheckinReply::UpdateFailed => Some("Failed to update checkin"@),
        }
    }

    /// The JSON body of the reply: the three fields of a success, or the
    /// one field `error`.
    pub open spec fn body_text(self) -> Seq<char> {
        match self {
            CheckinReply::Accepted(response) => "{\"success\":"@ + (if response.success {
                "true"@
            } else {
                "false"@
            }) + ",\"last_checkin\":"@ + decimal(response.last_checkin as int)
                + ",\"next_deadline\":"@ + decimal(response.next_deadline as int) + "}"@,
            _ => "{\"error\":\""@ + self.error()->0 + "\"}"@,
        }
    }

    /// The HTTP status of the reply.
    pub fn status_code(&self) -> (r: u16)
        ensures
            r == self.status(),
    {
        match self {
            CheckinReply::Accepted(_) => 200,
            CheckinReply::MissingAuthorization => 401,
            CheckinReply::AuthenticationFailed => 401,
            CheckinReply::LookupFailed => 500,
            CheckinReply::UpdateFailed => 500,
        }
    }

    /// The message of a reply that reports an error.
    pub fn error_message(&self) -> (r: Option<&'static str>)
        ensures
            match r {
                Some(m) => self.error() == Some(m@),
                None => self.error() is None,
            },
    {
        match self {
            CheckinReply::Accepted(_) => None,
            CheckinReply::MissingAuthorization => Some("Missing or invalid Authorization header"),
            CheckinReply::AuthenticationFailed => Some("Authentication failed"),
            CheckinReply::LookupFailed => Some("Internal server error"),
            CheckinReply::UpdateFailed => Some("Failed to update checkin"),
        }
    }

    /// Writes the JSON body of the reply.
    pub fn body(&self) -> (r: String)
        ensures
            r@ == self.body_text(),
    {
        let mut out = String::new();
        match self {
            CheckinReply::Accepted(response) => {
                out.append("{\"success\":");
                if response.success {
                    out.append("true");
                } else {
                    out.append("false");
                }
                out.append(",\"last_checkin\":");
                push_decimal(&mut out, response.last_checkin as i128);
                out.append(",\"next_deadline\":");
                push_decimal(&mut out, response.next_deadline as i128);
                out.append("}");
                proof {
                    assert(out@ =~= self.body_text());
                }
            },
            _ => {
                out.append("{\"error\":\"");
                match self.error_message() {
                    Some(m) => out.append(m),
                    None => {},
                }
                out.append("\"}");
                proof {
                    assert(out@ =~= self.body_text());
                }
            },
        }
        out
    }
}

/// The switch `id` of the store, where it holds one.
pub open spec fn switch_of(v: StoreView, id: Seq<char>) -> SwitchView {
    v.switches[choose|i: int| 0 <= i < v.switches.len() && (#[trigger] v.switches[i]).id == id]
}

/// What looking up the switch `id` finds.
pub open spec fn lookup(v: StoreView, id: Seq<char>) -> Option<SwitchView> {
    if v.has_switch(id) {
        Some(switch_of(v, id))
    } else {
        None
    }
}

/// The view of a switch that was or was not found.
pub open spec fn found_view(found: Option<&Switch>) -> Option<SwitchView> {
    match found {
        Some(s) => Some(s@),
        None => None,
    }
}

/// The answer to a check-in at `now` that carries `token`, given what the
/// lookup of its switch found: a switch that was not found and a token
/// that is not the token of the switch get the same answer; otherwise the
/// check-in is accepted, with the deadline that follows from it, unless
/// that deadline cannot be written down.
pub open spec fn verdict(found: Option<SwitchView>, token: Seq<char>, now: int) -> CheckinReply {
    match found {
        Some(s) => if s.api_token != token {
            CheckinReply::AuthenticationFailed
        } else if i64::MIN <= now + s.timeout_seconds <= i64::MAX {
            CheckinReply::Accepted(
                CheckinResponse {
                    success: true,
                    last_checkin: now as i64,
                    next_deadline: (now + s.timeout_seconds) as i64,
                },
            )
        } else {
            CheckinReply::UpdateFailed
        },
        None => CheckinReply::AuthenticationFailed,
    }
}

/// Decides a check-in at `now` that carries `token`, given what the lookup
/// of its switch found.
pub fn authorize(found: Option<&Switch>, token: &str, now: i64) -> (r: CheckinReply)
    ensures
        r == verdict(found_view(found), token@, now as int),
{
    match found {
        None => CheckinReply::AuthenticationFailed,
        Some(switch) => {
            if !tokens_match(switch.api_token.as_str(), token) {
                return CheckinReply::AuthenticationFailed;
            }
            let deadline: i128 = now as i128 + switch.timeout_seconds as i128;
            if deadline < i64::MIN as i128 || deadline > i64::MAX as i128 {
                return CheckinReply::UpdateFailed;
            }
            CheckinReply::Accepted(
                CheckinResponse {
                    success: true,
                    last_checkin: now,
                    next_deadline: deadline as i64,
                },
            )
        },
    }
}

/// Decides a check-in that carries `token` at the instant that the clock
/// shows.
pub fn authorize_now(found: Option<&Switch>, token: &str) -> (r: CheckinReply)
    ensures
        exists|now: int|
            0 <= now <= i64::MAX && r == #[trigger] verdict(found_view(found), token@, now),
{
    let now = crate::clock::now();
    let r = authorize(found, token, now);
    proof {
        assert(r == verdict(found_view(found), token@, now as int));
    }
    r
}

/// The answer to a check-in for the switch `id` at `now`: without a bearer
/// token the header is reported; otherwise the token is held against the
/// switch.
pub open spec fn checkin_reply(v: StoreView, id: Seq<char>, header: Option<Seq<char>>, now: int)
    -> CheckinReply {
    match bearer_token(header) {
        None => CheckinReply::MissingAuthorization,
        Some(token) => verdict(lookup(v, id), token, now),
    }
}

/// The store after a check-in for the switch `id` at `now` has been
/// answered with `reply`: `last_checkin` of the switch is `now` where the
/// check-in was accepted, and nothing has changed otherwise.
pub open spec fn after_checkin(v: StoreView, id: Seq<char>, reply: CheckinReply, now: int)
    -> StoreView {
    if reply is Accepted {
        StoreView { switches: with_checkin(v.switches, id, now), ..v }
    } else {
        v
    }
}

/// Answers to a check-in for the switch `switch_id` at `now`, and records
/// it where it is accepted.
pub fn checkin_at(store: &mut Store, switch_id: &str, authorization: Option<&str>, now: i64) -> (r:
    CheckinReply)
    ensures
        r == checkin_reply(old(store)@, switch_id@, header_text(authorization), now as int),
        final(store)@ == after_checkin(old(store)@, switch_id@, r, now as int),
{
    let token = match extract_bearer_token(authorization) {
        Some(token) => token,
        None => {
            return CheckinReply::MissingAuthorization;
        },
    };
    let found = db::get_switch_by_id(store, switch_id);
    proof {
        let v = store@;
        if found is Some {
            let hit = found->0@;
            let k = choose|k: int| 0 <= k < v.switches.len() && v.switches[k] == hit;
            assert(v.switches[k].id == switch_id@);
            let c = choose|i: int|
                0 <= i < v.switches.len() && (#[trigger] v.switches[i]).id == switch_id@;
            assert(c == k);
        }
    }
    let reply = authorize(found.as_ref(), token.as_str(), now);
    match reply {
        CheckinReply::Accepted(_) => db::update_checkin(store, switch_id, now),
        _ => {},
    }
    reply
}

/// Answers to a check-in for the switch `switch_id` at the instant that the
/// clock shows, and records it where it is accepted.
pub fn checkin(store: &mut Store, switch_id: &str, authorization: Option<&str>) -> (r: CheckinReply)
    ensures
        exists|now: int|
            0 <= now <= i64::MAX && r == #[trigger] checkin_reply(
                old(store)@,
                switch_id@,
                header_text(authorization),
                now,
            ) && final(store)@ == after_checkin(old(store)@, switch_id@, r, now),
{
    let now = crate::clock::now();
    let r = checkin_at(store, switch_id, authorization, now);
    proof {
        assert(r == checkin_reply(old(store)@, switch_id@, header_text(authorization), now as int));
    }
    r
}

/// A check-in for a switch that the store does not hold and a check-in for
/// one that it holds, with a token that is not its token, are answered
/// alike: the same reply, so the same status and the same body, byte for
/// byte.
pub proof fn theorem_failures_answer_alike(
    v: StoreView,
    unknown: Seq<char>,
    first: Option<Seq<char>>,
    known: Seq<char>,
    second: Option<Seq<char>>,
    now: int,
    then: int,
)
    requires
        !v.has_switch(unknown),
        bearer_token(first) is Some,
        v.has_switch(known),
        bearer_token(second) matches Some(token) && token != switch_of(v, known).api_token,
    ensures
        checkin_reply(v, unknown, first, now) == checkin_reply(v, known, second, then),
        checkin_reply(v, unknown, first, now) == CheckinReply::AuthenticationFailed,
        checkin_reply(v, unknown, first, now).status() == checkin_reply(
            v,
            known,
            second,
            then,
        ).status(),
        checkin_reply(v, unknown, first, now).body_text() == checkin_reply(
            v,
            known,
            second,
            then,
        ).body_text(),
        after_checkin(v, unknown, checkin_reply(v, unknown, first, now), now) == v,
        after_checkin(v, known, checkin_reply(v, known, second, then), then) == v,
{
}

/// An accepted check-in reports the instant of the request as the last
/// check-in and the instant `timeout_seconds` later as the next deadline,
/// and it is that instant that the store then holds for the switch.
pub proof fn theorem_accepted_checkin_reports_deadline(
    v: StoreView,
    id: Seq<char>,
    header: Option<Seq<char>>,
    now: int,
    i: int,
)
    requires
        i64::MIN <= now <= i64::MAX,
        checkin_reply(v, id, header, now) is Accepted,
        0 <= i < v.switches.len(),
        v.switches[i].id == id,
    ensures
        checkin_reply(v, id, header, now)->Accepted_0.success,
        checkin_reply(v, id, header, now)->Accepted_0.last_checkin == now,
        checkin_reply(v, id, header, now)->Accepted_0.next_deadline == now + switch_of(
            v,
            id,
        ).timeout_seconds,
        checkin_reply(v, id, header, now).status() == 200,
        after_checkin(v, id, checkin_reply(v, id, header, now), now).switches[i].last_checkin
            == now,
{
}

/// Two identical check-ins that come `delta` seconds or more apart leave
/// `last_checkin` values that lie as far apart: each accepted check-in
/// records its own instant, whatever was recorded before.
pub proof fn theorem_checkins_follow_the_clock(
    v: StoreView,
    id: Seq<char>,
    header: Option<Seq<char>>,
    first: int,
    second: int,
    delta: int,
    i: int,
)
    requires
        v.wf(),
        0 <= i < v.switches.len(),
        v.switches[i].id == id,
        i64::MIN <= first <= i64::MAX,
        i64::MIN <= second <= i64::MAX,
        second - first >= delta,
        checkin_reply(v, id, header, first) is Accepted,
        i64::MIN <= second + v.switches[i].timeout_seconds <= i64::MAX,
    ensures
        ({
            let once = after_checkin(v, id, checkin_reply(v, id, header, first), first);
            let again = checkin_reply(once, id, header, second);
            let twice = after_checkin(once, id, again, second);
            &&& again is Accepted
            &&& once.switches[i].last_checkin == first
            &&& twice.switches[i].last_checkin == second
            &&& twice.switches[i].last_checkin - once.switches[i].last_checkin >= delta
        }),
{
    let once = after_checkin(v, id, checkin_reply(v, id, header, first), first);
    let a = choose|k: int| 0 <= k < v.switches.len() && (#[trigger] v.switches[k]).id == id;
    assert(a == i) by {
        if a < i {
            assert(v.switches[a].id != v.switches[i].id);
        } else if i < a {
            assert(v.switches[i].id != v.switches[a].id);
        }
    }
    assert(once.switches[i].id == id);
    assert(once.has_switch(id));
    let b = choose|k: int| 0 <= k < once.switches.len() && (#[trigger] once.switches[k]).id == id;
    assert(b == i) by {
        assert(once.switches[b].id == v.switches[b].id);
        if b < i {
            assert(v.switches[b].id != v.switches[i].id);
        } else if i < b {
            assert(v.switches[i].id != v.switches[b].id);
        }
    }
}

} // verus!
