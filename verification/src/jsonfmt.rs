//! The wire form of bus events: JSON text frames, built and proved
//! character by character. A log event becomes
//! `{"type":"log","value":{...}}`, a notification
//! `{"type":"notification","value":{"title":...,"message":...,"level":...}}`,
//! with the status as its integer code and the level as its lowercase
//! name.

use vstd::prelude::*;

use crate::log::LogForCreate;
use crate::status::Status;
use crate::ws::{Event, Notification};

verus! {

/// The decimal digit character for `d`.
pub open spec fn digit_char(d: nat) -> char {
    if d == 0 {
        '0'
    } else if d == 1 {
        '1'
    } else if d == 2 {
        '2'
    } else if d == 3 {
        '3'
    } else if d == 4 {
        '4'
    } else if d == 5 {
        '5'
    } else if d == 6 {
        '6'
    } else if d == 7 {
        '7'
    } else if d == 8 {
        '8'
    } else {
        '9'
    }
}

/// The decimal representation of `n`, most significant digit first, with
/// no leading zeros (a single `0` for zero).
pub open spec fn dec_rep(n: nat) -> Seq<char>
    decreases n,
{
    if n < 10 {
        seq![digit_char(n)]
    } else {
        dec_rep(n / 10).push(digit_char(n % 10))
    }
}

/// The single-character string for a decimal digit.
fn digit_str(d: u64) -> (r: &'static str)
    requires
        d < 10,
    ensures
        r@ == seq![digit_char(d as nat)],
{
    proof {
        reveal_strlit("0");
        reveal_strlit("1");
        reveal_strlit("2");
        reveal_strlit("3");
        reveal_strlit("4");
        reveal_strlit("5");
        reveal_strlit("6");
        reveal_strlit("7");
        reveal_strlit("8");
        reveal_strlit("9");
    }
    if d == 0 {
        "0"
    } else if d == 1 {
        "1"
    } else if d == 2 {
        "2"
    } else if d == 3 {
        "3"
    } else if d == 4 {
        "4"
    } else if d == 5 {
        "5"
    } else if d == 6 {
        "6"
    } else if d == 7 {
        "7"
    } else if d == 8 {
        "8"
    } else {
        "9"
    }
}

/// `n` written in decimal.
pub fn u64_to_dec(n: u64) -> (r: String)
    ensures
        r@ == dec_rep(n as nat),
    decreases n,
{
    if n < 10 {
        String::from_str(digit_str(n))
    } else {
        u64_to_dec(n / 10).concat(digit_str(n % 10))
    }
}

/// How one character appears inside a JSON string literal: quote,
/// backslash, newline, carriage return and tab are escaped; any other
/// control character is replaced by a space; everything else stands as
/// itself.
pub open spec fn esc_char(c: char) -> Seq<char> {
    if c == '"' {
        seq!['\\', '"']
    } else if c == '\\' {
        seq!['\\', '\\']
    } else if c == '\n' {
        seq!['\\', 'n']
    } else if c == '\r' {
        seq!['\\', 'r']
    } else if c == '\t' {
        seq!['\\', 't']
    } else if (c as nat) < 32 {
        seq![' ']
    } else {
        seq![c]
    }
}

/// `s` with every character escaped for a JSON string literal.
pub open spec fn json_escaped(s: Seq<char>) -> Seq<char>
    decreases s.len(),
{
    if s.len() == 0 {
        Seq::empty()
    } else {
        json_escaped(s.drop_last()) + esc_char(s.last())
    }
}

/// A JSON string literal holding `s`, quotes included.
pub open spec fn json_string(s: Seq<char>) -> Seq<char> {
    seq!['"'] + json_escaped(s) + seq!['"']
}

/// Escapes `s` for use inside a JSON string literal.
pub fn escape_json(s: &str) -> (r: String)
    ensures
        r@ == json_escaped(s@),
{
    let n = s.unicode_len();
    let mut out = String::new();
    for i in 0..n
        invariant
            n == s@.len(),
            out@ == json_escaped(s@.take(i as int)),
    {
        let c = s.get_char(i);
        proof {
            assert(s@.take(i + 1).drop_last() == s@.take(i as int));
            assert(s@.take(i + 1).last() == s@[i as int]);
            reveal_strlit("\\\"");
            reveal_strlit("\\\\");
            reveal_strlit("\\n");
            reveal_strlit("\\r");
            reveal_strlit("\\t");
            reveal_strlit(" ");
        }
        if c == '"' {
            out.append("\\\"");
            proof {
                assert(out@ =~= json_escaped(s@.take(i + 1)));
            }
        } else if c == '\\' {
            out.append("\\\\");
            proof {
                assert(out@ =~= json_escaped(s@.take(i + 1)));
            }
        } else if c == '\n' {
            out.append("\\n");
            proof {
                assert(out@ =~= json_escaped(s@.take(i + 1)));
            }
        } else if c == '\r' {
            out.append("\\r");
            proof {
                assert(out@ =~= json_escaped(s@.take(i + 1)));
            }
        } else if c == '\t' {
            out.append("\\t");
            proof {
                assert(out@ =~= json_escaped(s@.take(i + 1)));
            }
        } else if (c as u32) < 32 {
            out.append(" ");
            proof {
                assert(out@ =~= json_escaped(s@.take(i + 1)));
            }
        } else {
            let one = s.substring_char(i, i + 1);
            out.append(one);
            proof {
                assert(one@ =~= seq![s@[i as int]]);
                assert(out@ =~= json_escaped(s@.take(i + 1)));
            }
        }
    }
    proof {
        assert(s@.take(n as int) == s@);
    }
    out
}

/// `"..."` for a present message, `null` for a missing one.
pub open spec fn json_opt_string(m: Option<Seq<char>>) -> Seq<char> {
    match m {
        Some(s) => json_string(s),
        None => "null"@,
    }
}

/// `t` for a present time, `null` for a missing one.
pub open spec fn json_opt_u64(t: Option<u64>) -> Seq<char> {
    match t {
        Some(v) => dec_rep(v as nat),
        None => "null"@,
    }
}

/// The JSON object for one log record.
pub open spec fn log_json(l: LogForCreate) -> Seq<char> {
    "{\"service_id\":"@ + dec_rep(l.service_id as nat) + ",\"status\":"@ + dec_rep(
        l.status.code_spec() as nat,
    ) + ",\"message\":"@ + json_opt_string(
        match l.message {
            Some(m) => Some(m@),
            None => None,
        },
    ) + ",\"time\":"@ + json_opt_u64(l.time) + ",\"duration\":"@ + dec_rep(l.duration as nat)
        + "}"@
}

/// The JSON object for one notification.
pub open spec fn notification_json(n: Notification) -> Seq<char> {
    "{\"title\":"@ + json_string(n.title@) + ",\"message\":"@ + json_string(n.message@)
        + ",\"level\":"@ + json_string(n.level.name_spec()) + "}"@
}

/// The JSON text frame for one bus event: a union tagged by `type`.
pub open spec fn event_json(e: Event) -> Seq<char> {
    match e {
        Event::Log(l) => "{\"type\":\"log\",\"value\":"@ + log_json(l) + "}"@,
        Event::Notification(n) => "{\"type\":\"notification\",\"value\":"@ + notification_json(
            n,
        ) + "}"@,
    }
}

/// A string option's view, for stating contracts over `message` fields.
pub open spec fn opt_view(m: Option<String>) -> Option<Seq<char>> {
    match m {
        Some(s) => Some(s@),
        None => None,
    }
}

/// Writes a JSON string literal for `s`.
fn json_string_of(s: &str) -> (r: String)
    ensures
        r@ == json_string(s@),
{
    proof {
        reveal_strlit("\"");
    }
    let mut out = String::from_str("\"");
    let body = escape_json(s);
    out.append(body.as_str());
    out.append("\"");
    proof {
        assert(out@ =~= json_string(s@));
    }
    out
}

/// The text frame for one event, exactly `event_json`.
pub fn event_to_json(e: &Event) -> (r: String)
    ensures
        r@ == event_json(*e),
{
    match e {
        Event::Log(l) => {
            proof {
                reveal_strlit("{\"type\":\"log\",\"value\":");
                reveal_strlit("{\"service_id\":");
                reveal_strlit(",\"status\":");
                reveal_strlit(",\"message\":");
                reveal_strlit(",\"time\":");
                reveal_strlit(",\"duration\":");
                reveal_strlit("}");
                reveal_strlit("null");
            }
            let mut out = String::from_str("{\"type\":\"log\",\"value\":");
            out.append("{\"service_id\":");
            let sid = u64_to_dec(l.service_id as u64);
            out.append(sid.as_str());
            out.append(",\"status\":");
            let st = u64_to_dec(l.status.code() as u64);
            out.append(st.as_str());
            out.append(",\"message\":");
            match &l.message {
                Some(m) => {
                    let ms = json_string_of(m.as_str());
                    out.append(ms.as_str());
                },
                None => {
                    out.append("null");
                },
            }
            out.append(",\"time\":");
            match &l.time {
                Some(t) => {
                    let ts = u64_to_dec(*t);
                    out.append(ts.as_str());
                },
                None => {
                    out.append("null");
                },
            }
            out.append(",\"duration\":");
            let d = u64_to_dec(l.duration as u64);
            out.append(d.as_str());
            out.append("}");
            out.append("}");
            proof {
                assert(out@ =~= event_json(*e));
            }
            out
        },
        Event::Notification(n) => {
            proof {
                reveal_strlit("{\"type\":\"notification\",\"value\":");
                reveal_strlit("{\"title\":");
                reveal_strlit(",\"message\":");
                reveal_strlit(",\"level\":");
                reveal_strlit("}");
            }
            let mut out = String::from_str("{\"type\":\"notification\",\"value\":");
            out.append("{\"title\":");
            let t = json_string_of(n.title.as_str());
            out.append(t.as_str());
            out.append(",\"message\":");
            let m = json_string_of(n.message.as_str());
            out.append(m.as_str());
            out.append(",\"level\":");
            let lv = json_string_of(n.level.name());
            out.append(lv.as_str());
            out.append("}");
            out.append("}");
            proof {
                assert(out@ =~= event_json(*e));
            }
            out
        },
    }
}

} // verus!
