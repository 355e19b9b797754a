//! Reading of the optional `.env` file at build time: which of its lines set
//! which of the firmware's configuration variables.

use vstd::prelude::*;
use crate::text::{trim, trim_spec, trim_start_spec, trim_end_spec, starts_with, has_prefix, same_text, lemma_trim_end_is_prefix};

verus! {

/// Index of the first `=` in `s`, or -1 when there is none.
pub open spec fn first_equals(s: Seq<char>) -> int
    decreases s.len(),
{
    if s.len() == 0 {
        -1
    } else if s[0] == '=' {
        0
    } else if first_equals(s.drop_first()) < 0 {
        -1
    } else {
        first_equals(s.drop_first()) + 1
    }
}

/// `raw` without one pair of matching double or single quotes around it.
pub open spec fn unquote(raw: Seq<char>) -> Seq<char> {
    if raw.len() >= 2 && ((raw[0] == '"' && raw.last() == '"') || (raw[0] == '\''
        && raw.last() == '\'')) {
        raw.subrange(1, raw.len() - 1)
    } else {
        raw
    }
}

/// The key and value of a `KEY=VALUE` line: the key is the trimmed text
/// before the first `=`, the value the trimmed text after it without one pair
/// of surrounding quotes. Nothing when there is no `=` or the key is empty.
pub open spec fn parse_env_line_spec(s: Seq<char>) -> Option<(Seq<char>, Seq<char>)> {
    let i = first_equals(s);
    if i < 0 {
        None
    } else {
        let key = trim_spec(s.subrange(0, i));
        let raw = trim_spec(s.subrange(i + 1, s.len() as int));
        if key.len() == 0 {
            None
        } else {
            Some((key, unquote(raw)))
        }
    }
}

/// The configuration variables that the build hands to the compiler.
pub open spec fn is_exported_key(k: Seq<char>) -> bool {
    ||| k == "SSID"@
    ||| k == "PASSWORD"@
    ||| k == "TOPIC_GROUND_TEMPERATURE"@
    ||| k == "MQTT_BROKER_HOST"@
    ||| k == "MQTT_BROKER_PORT"@
    ||| k == "MQTT_BROKER_USERNAME"@
    ||| k == "MQTT_BROKER_PASSWORD"@
}

/// What a line of the `.env` file sets: nothing for a blank line or a
/// comment (`#` after leading white space), nothing for a line that does not
/// parse or names another variable, else its key and value.
pub open spec fn env_export_spec(line: Seq<char>) -> Option<(Seq<char>, Seq<char>)> {
    let t = trim_spec(line);
    if t.len() == 0 || has_prefix(t, "#"@) {
        None
    } else {
        match parse_env_line_spec(t) {
            Some(kv) => if is_exported_key(kv.0) {
                Some(kv)
            } else {
                None
            },
            None => None,
        }
    }
}

proof fn lemma_first_equals_at(s: Seq<char>, i: int)
    requires
        0 <= i <= s.len(),
        forall|j: int| 0 <= j < i ==> #[trigger] s[j] != '=',
        i < s.len() ==> s[i] == '=',
    ensures
        first_equals(s) == if i < s.len() {
            i
        } else {
            -1
        },
    decreases i,
{
    if i > 0 {
        let t = s.drop_first();
        assert forall|j: int| 0 <= j < i - 1 implies #[trigger] t[j] != '=' by {
            assert(t[j] == s[j + 1]);
        }
        if i < s.len() {
            assert(t[i - 1] == s[i]);
        }
        assert(s[0] != '=');
        lemma_first_equals_at(t, i - 1);
    }
}

proof fn lemma_first_equals_bounds(s: Seq<char>)
    ensures
        -1 <= first_equals(s) < s.len(),
        first_equals(s) >= 0 ==> s[first_equals(s)] == '=',
    decreases s.len(),
{
    if s.len() > 0 && s[0] != '=' {
        lemma_first_equals_bounds(s.drop_first());
        if first_equals(s.drop_first()) >= 0 {
            assert(s[first_equals(s)] == s.drop_first()[first_equals(s.drop_first())]);
        }
    }
}

/// Removes one pair of matching double or single quotes around `raw`.
fn unquote_text(raw: &str) -> (v: String)
    ensures
        v@ == unquote(raw@),
{
    let n = raw.unicode_len();
    if n >= 2 {
        let first = raw.get_char(0);
        let last = raw.get_char(n - 1);
        if (first == '"' && last == '"') || (first == '\'' && last == '\'') {
            return String::from_str(raw.substring_char(1, n - 1));
        }
    }
    String::from_str(raw)
}

/// Splits a `KEY=VALUE` line at its first `=`: the trimmed key and the
/// trimmed value without one pair of surrounding quotes. `None` when there is
/// no `=` or the key is empty.
#[verifier::rlimit(30)]
pub fn parse_env_line(s: &str) -> (r: Option<(&str, String)>)
    ensures
        match r {
            Some((k, v)) => parse_env_line_spec(s@) == Some((k@, v@)),
            None => parse_env_line_spec(s@) is None,
        },
{
    let n = s.unicode_len();
    let mut i: usize = 0;
    while i < n && s.get_char(i) != '='
        invariant
            i <= n,
            n == s@.len(),
            forall|j: int| 0 <= j < i ==> #[trigger] s@[j] != '=',
        decreases n - i,
    {
        i = i + 1;
    }
    proof {
        lemma_first_equals_at(s@, i as int);
    }
    if i == n {
        return None;
    }
    let key = trim(s.substring_char(0, i));
    let raw = trim(s.substring_char(i + 1, n));
    if key.unicode_len() == 0 {
        return None;
    }
    let value = unquote_text(raw);
    Some((key, value))
}

/// Whether the build passes the variable `k` on to the compiler.
pub fn is_exported(k: &str) -> (b: bool)
    ensures
        b == is_exported_key(k@),
{
    same_text(k, "SSID") || same_text(k, "PASSWORD") || same_text(k, "TOPIC_GROUND_TEMPERATURE")
        || same_text(k, "MQTT_BROKER_HOST") || same_text(k, "MQTT_BROKER_PORT") || same_text(
        k,
        "MQTT_BROKER_USERNAME",
    ) || same_text(k, "MQTT_BROKER_PASSWORD")
}

/// The variable that a line of the `.env` file sets, with its value, if any.
pub fn env_export(line: &str) -> (r: Option<(String, String)>)
    ensures
        match r {
            Some((k, v)) => env_export_spec(line@) == Some((k@, v@)),
            None => env_export_spec(line@) is None,
        },
{
    let t = trim(line);
    if t.unicode_len() == 0 || starts_with(t, "#") {
        return None;
    }
    match parse_env_line(t) {
        Some((k, v)) => {
            if is_exported(k) {
                Some((String::from_str(k), v))
            } else {
                None
            }
        },
        None => None,
    }
}


/// A line `KEY=value` whose key is one of the seven variables the firmware
/// reads (SSID, PASSWORD, TOPIC_GROUND_TEMPERATURE, MQTT_BROKER_HOST,
/// MQTT_BROKER_PORT, MQTT_BROKER_USERNAME, MQTT_BROKER_PASSWORD) is passed on
/// as that key and value; and every line that is passed on names one of them.
pub proof fn lemma_firmware_variables_exported(line: Seq<char>)
    ensures
        parse_env_line_spec(trim_spec(line)) matches Some(kv) ==> ((kv.0 == "SSID"@ || kv.0
            == "PASSWORD"@ || kv.0 == "TOPIC_GROUND_TEMPERATURE"@ || kv.0 == "MQTT_BROKER_HOST"@
            || kv.0 == "MQTT_BROKER_PORT"@ || kv.0 == "MQTT_BROKER_USERNAME"@ || kv.0
            == "MQTT_BROKER_PASSWORD"@) ==> env_export_spec(line) == Some(kv)),
        env_export_spec(line) matches Some(kv) ==> (kv.0 == "SSID"@ || kv.0 == "PASSWORD"@ || kv.0
            == "TOPIC_GROUND_TEMPERATURE"@ || kv.0 == "MQTT_BROKER_HOST"@ || kv.0
            == "MQTT_BROKER_PORT"@ || kv.0 == "MQTT_BROKER_USERNAME"@ || kv.0
            == "MQTT_BROKER_PASSWORD"@),
{
    reveal_strlit("SSID");
    reveal_strlit("PASSWORD");
    reveal_strlit("TOPIC_GROUND_TEMPERATURE");
    reveal_strlit("MQTT_BROKER_HOST");
    reveal_strlit("MQTT_BROKER_PORT");
    reveal_strlit("MQTT_BROKER_USERNAME");
    reveal_strlit("MQTT_BROKER_PASSWORD");
    reveal_strlit("#");
    let t = trim_spec(line);
    if let Some(kv) = parse_env_line_spec(t) {
        let k = kv.0;
        let i = first_equals(t);
        lemma_first_equals_bounds(t);
        assert(i >= 0);
        if i == 0 {
            assert(t.subrange(0, 0) =~= Seq::<char>::empty());
            assert(trim_start_spec(Seq::<char>::empty()) == Seq::<char>::empty());
            assert(trim_end_spec(Seq::<char>::empty()) == Seq::<char>::empty());
        }
        let s0 = t.subrange(0, i);
        assert(k == trim_spec(s0));
        if k.len() > 0 && t.len() > 0 && t[0] == '#' {
            assert(s0.len() > 0 && s0[0] == '#');
            assert(!crate::text::is_white_space('#'));
            assert(trim_start_spec(s0) == s0);
            lemma_trim_end_is_prefix(s0);
            assert(k[0] == s0[0]);
        }
        if t.len() == 0 {
            assert(first_equals(t) == -1);
        }
    }
}

} // verus!
