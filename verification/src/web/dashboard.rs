//! Escaping and the human-readable times and states shown on the dashboard.

use crate::models::{Switch, SwitchStatus, SwitchView};
use crate::text::{decimal, push_decimal};
use vstd::prelude::*;

verus! {

/// What one character becomes in HTML text: the five characters with a
/// meaning in markup become entities, every other character stays.
pub open spec fn escape_char(c: char) -> Seq<char> {
    if c == '&' {
        "&amp;"@
    } else if c == '<' {
        "&lt;"@
    } else if c == '>' {
        "&gt;"@
    } else if c == '"' {
        "&quot;"@
    } else if c == '\'' {
        "&#39;"@
    } else {
        seq![c]
    }
}

/// A text with every character escaped, in order.
pub open spec fn escaped(s: Seq<char>) -> Seq<char>
    decreases s.len(),
{
    if s.len() == 0 {
        Seq::<char>::empty()
    } else {
        escaped(s.drop_last()) + escape_char(s.last())
    }
}

/// Escapes `s` for use as HTML text or as an attribute value.
pub fn escape_html(s: &str) -> (r: String)
    ensures
        r@ == escaped(s@),
{
    let mut out = String::new();
    for c in it: s.chars()
        invariant
            it.seq() == s@,
            out@ == escaped(s@.take(it.index() as int)),
    {
        proof {
            let next = s@.take(it.index() + 1);
            assert(next.drop_last() =~= s@.take(it.index() as int));
            assert(next.last() == c);
        }
        if c == '&' {
            out.append("&amp;");
        } else if c == '<' {
            out.append("&lt;");
        } else if c == '>' {
            out.append("&gt;");
        } else if c == '"' {
            out.append("&quot;");
        } else if c == '\'' {
            out.append("&#39;");
        } else {
            out.push(c);
            proof {
                assert(escaped(s@.take(it.index() as int)).push(c) =~= escaped(
                    s@.take(it.index() as int),
                ) + seq![c]);
            }
        }
    }
    proof {
        assert(s@.take(s@.len() as int) =~= s@);
    }
    out
}

/// Escaping leaves none of `<`, `>`, `"`, `'` in the text.
pub proof fn lemma_escaped_has_no_markup(s: Seq<char>, i: int)
    requires
        0 <= i < escaped(s).len(),
    ensures
        escaped(s)[i] != '<',
        escaped(s)[i] != '>',
        escaped(s)[i] != '"',
        escaped(s)[i] != '\'',
    decreases s.len(),
{
    reveal_strlit("&amp;");
    reveal_strlit("&lt;");
    reveal_strlit("&gt;");
    reveal_strlit("&quot;");
    reveal_strlit("&#39;");
    if s.len() > 0 {
        let head = escaped(s.drop_last());
        if i < head.len() {
            lemma_escaped_has_no_markup(s.drop_last(), i);
        } else {
            let tail = escape_char(s.last());
            assert(escaped(s)[i] == tail[i - head.len()]);
        }
    }
}

/// A span of seconds in its largest whole unit: seconds below a minute,
/// minutes below an hour, hours below a day, days from there on.
pub open spec fn duration_text(seconds: int) -> Seq<char> {
    if seconds < 60 {
        decimal(seconds) + " seconds"@
    } else if seconds < 3600 {
        decimal(seconds / 60) + " minutes"@
    } else if seconds < 86400 {
        decimal(seconds / 3600) + " hours"@
    } else {
        decimal(seconds / 86400) + " days"@
    }
}

fn push_duration(out: &mut String, seconds: i128)
    requires
        seconds > i128::MIN,
    ensures
        final(out)@ == old(out)@ + duration_text(seconds as int),
{
    if seconds < 60 {
        push_decimal(out, seconds);
        out.append(" seconds");
        proof {
            assert(final(out)@ =~= old(out)@ + (decimal(seconds as int) + " seconds"@));
        }
    } else if seconds < 3600 {
        push_decimal(out, seconds / 60);
        out.append(" minutes");
        proof {
            assert(final(out)@ =~= old(out)@ + (decimal(seconds / 60) + " minutes"@));
        }
    } else if seconds < 86400 {
        push_decimal(out, seconds / 3600);
        out.append(" hours");
        proof {
            assert(final(out)@ =~= old(out)@ + (decimal(seconds / 3600) + " hours"@));
        }
    } else {
        push_decimal(out, seconds / 86400);
        out.append(" days");
        proof {
            assert(final(out)@ =~= old(out)@ + (decimal(seconds / 86400) + " days"@));
        }
    }
}

/// Writes a span of seconds in its largest whole unit.
pub fn format_duration(seconds: i64) -> (r: String)
    ensures
        r@ == duration_text(seconds as int),
{
    let mut out = String::new();
    push_duration(&mut out, seconds as i128);
    proof {
        assert(Seq::<char>::empty() + duration_text(seconds as int) =~= duration_text(
            seconds as int,
        ));
    }
    out
}

/// How far `timestamp` lies from `now`: the distance, then "ago" for the
/// past and the present, "from now" for the future.
pub open spec fn relative_time_text(timestamp: int, now: int) -> Seq<char> {
    let diff = now - timestamp;
    if diff < 0 {
        duration_text(-diff) + " from now"@
    } else {
        duration_text(diff) + " ago"@
    }
}

/// Writes where `timestamp` lies relative to `now`.
pub fn format_relative_time(timestamp: i64, now: i64) -> (r: String)
    ensures
        r@ == relative_time_text(timestamp as int, now as int),
{
    let diff: i128 = now as i128 - timestamp as i128;
    let mut out = String::new();
    if diff < 0 {
        push_duration(&mut out, -diff);
        out.append(" from now");
        proof {
            assert(out@ =~= duration_text(-diff as int) + " from now"@);
        }
    } else {
        push_duration(&mut out, diff);
        out.append(" ago");
        proof {
            assert(out@ =~= duration_text(diff as int) + " ago"@);
        }
    }
    out
}

/// Seconds left at `now` until the deadline of `switch`; negative once it
/// has passed.
pub open spec fn time_until_deadline(switch: SwitchView, now: int) -> int {
    switch.timeout_seconds - (now - switch.last_checkin)
}

/// The deadline of `switch` as seen at `now`: "in" the time left while there
/// is some, otherwise the time since it passed and "ago".
pub open spec fn deadline_text(switch: SwitchView, now: int) -> Seq<char> {
    let left = time_until_deadline(switch, now);
    if left > 0 {
        "in "@ + duration_text(left)
    } else {
        duration_text(-left) + " ago"@
    }
}

/// Writes the deadline of `switch` as seen at `now`.
pub fn format_deadline(switch: &Switch, now: i64) -> (r: String)
    ensures
        r@ == deadline_text(switch@, now as int),
{
    let left: i128 = switch.timeout_seconds as i128 - (now as i128 - switch.last_checkin as i128);
    let mut out = String::new();
    if left > 0 {
        out.append("in ");
        push_duration(&mut out, left);
    } else {
        push_duration(&mut out, -left);
        out.append(" ago");
        proof {
            assert(out@ =~= duration_text(-left as int) + " ago"@);
        }
    }
    out
}

/// How a switch is shown on the dashboard.
#[derive(Clone, Copy, Debug, PartialEq, Eq, Structural)]
pub enum Health {
    Alive,
    Warning,
    Expired,
}

impl Health {
    /// The style class of the switch's card.
    pub fn class(&self) -> (r: &'static str)
        ensures
            r@ == (match self {
                Health::Alive => "alive"@,
                Health::Warning => "warning"@,
                Health::Expired => "expired"@,
            }),
    {
        match self {
            Health::Alive => "alive",
            Health::Warning => "warning",
            Health::Expired => "expired",
        }
    }
}

/// A switch that is not active, or whose deadline has passed, is expired; an
/// active one with less than a quarter of its timeout left is in warning;
/// any other is alive.
pub open spec fn health_of(switch: SwitchView, now: int) -> Health {
    let left = time_until_deadline(switch, now);
    if switch.status != SwitchStatus::Active || left < 0 {
        Health::Expired
    } else if left < switch.timeout_seconds / 4 {
        Health::Warning
    } else {
        Health::Alive
    }
}

/// Classifies `switch` for display at `now`.
pub fn health(switch: &Switch, now: i64) -> (r: Health)
    ensures
        r == health_of(switch@, now as int),
{
    let left: i128 = switch.timeout_seconds as i128 - (now as i128 - switch.last_checkin as i128);
    let timeout: i128 = switch.timeout_seconds as i128;
    if switch.status != SwitchStatus::Active || left < 0 {
        Health::Expired
    } else if timeout >= 0 && left < timeout / 4 {
        Health::Warning
    } else {
        Health::Alive
    }
}

} // verus!
