use vstd::prelude::*;

use crate::json::{hashmap_value_to_string, text_of, JsonValue};
use vstd::string::StringExecFns;

verus! {

/// The variables of a template as a map from name to text; a later entry
/// with the same name wins.
pub open spec fn vars_map(vars: Seq<(Seq<char>, Seq<char>)>) -> Map<Seq<char>, Seq<char>>
    decreases vars.len(),
{
    if vars.len() == 0 {
        Map::empty()
    } else {
        vars_map(vars.drop_last()).insert(vars.last().0, vars.last().1)
    }
}

/// The names and texts of a list of variables.
pub open spec fn pairs_view(vars: Seq<(String, String)>) -> Seq<(Seq<char>, Seq<char>)> {
    vars.map_values(|p: (String, String)| (p.0@, p.1@))
}

/// What `strfmt` makes of the template `fmt` with the variables `vars`:
/// the filled-in text, or the text of its error.
pub uninterp spec fn strfmt_output(fmt: Seq<char>, vars: Map<Seq<char>, Seq<char>>) -> Result<
    Seq<char>,
    Seq<char>,
>;

/// Fills in the `{name}` fields of a template.
///
/// Trusted: `strfmt::strfmt` with the variables gathered in a `HashMap`
/// (a later entry with the same name wins); the outcome, and the `Display`
/// text of its error, is named `strfmt_output`.
#[verifier::external_body]
fn strfmt_call(fmt: &str, vars: &Vec<(String, String)>) -> (r: Result<String, String>)
    ensures
        match strfmt_output(fmt@, vars_map(pairs_view(vars@))) {
            Ok(s) => r matches Ok(x) && x@ == s,
            Err(e) => r matches Err(x) && x@ == e,
        },
{
    let map: std::collections::HashMap<String, String> = vars.iter().cloned().collect();
    strfmt::strfmt(fmt, &map).map_err(|e| e.to_string())
}

/// The members of an object shown as text, as template variables.
pub open spec fn object_vars(obj: Seq<(String, JsonValue)>) -> Map<Seq<char>, Seq<char>> {
    vars_map(obj.map_values(|p: (String, JsonValue)| (p.0@, text_of(p.1.model()))))
}

/// Fills in the `{name}` fields of `text` with the members of `obj`, each
/// shown as text.
pub fn format(text: &str, obj: &Vec<(String, JsonValue)>) -> (r: Result<String, String>)
    ensures
        match strfmt_output(text@, object_vars(obj@)) {
            Ok(s) => r matches Ok(x) && x@ == s,
            Err(e) => r matches Err(x) && x@ == e,
        },
{
    let vars = hashmap_value_to_string(obj);
    assert(pairs_view(vars@) =~= obj@.map_values(
        |p: (String, JsonValue)| (p.0@, text_of(p.1.model())),
    ));
    strfmt_call(text, &vars)
}

/// The title-case form of a text, as the `titlecase` crate makes it.
pub uninterp spec fn titlecase_of(text: Seq<char>) -> Seq<char>;

/// The title-case form of a text.
///
/// Trusted: `titlecase::Titlecase::titlecase`; the result is named
/// `titlecase_of`.
#[verifier::external_body]
fn titlecase_call(text: &str) -> (r: String)
    ensures
        r@ == titlecase_of(text@),
{
    titlecase::titlecase(text)
}

/// `text` in title case.
pub fn title(text: &str) -> (r: String)
    ensures
        r@ == titlecase_of(text@),
{
    titlecase_call(text)
}

/// What `humantime` reads from a duration text: its length in whole
/// milliseconds, or the text of its error.
pub uninterp spec fn humantime_millis(text: Seq<char>) -> Result<nat, Seq<char>>;

/// The number of decimal digits `0` to `9` in a text.
pub open spec fn digit_count(s: Seq<char>) -> nat
    decreases s.len(),
{
    if s.len() == 0 {
        0
    } else {
        digit_count(s.drop_last()) + if '0' as int <= s.last() as int <= '9' as int {
            1nat
        } else {
            0nat
        }
    }
}

/// The value of the decimal number written by all the digits of a text,
/// read one after the other (other characters are passed over).
pub open spec fn digits_value(s: Seq<char>) -> nat
    decreases s.len(),
{
    if s.len() == 0 {
        0
    } else if '0' as int <= s.last() as int <= '9' as int {
        digits_value(s.drop_last()) * 10 + (s.last() as int - '0' as int) as nat
    } else {
        digits_value(s.drop_last())
    }
}

/// The largest number of seconds a `Duration` holds.
pub open spec fn max_duration_secs() -> nat {
    18446744073709551615
}

/// The longest time unit a duration text can name: a year of 365.25 days,
/// in seconds.
pub open spec fn year_secs() -> nat {
    31557600
}

/// A duration text whose seconds cannot reach the largest a `Duration`
/// holds. Each number of the text (the integer part or the fractional
/// digits of a span) is written by a block of its digits, so all of them
/// together are at most `digits_value`; each span adds at most its number
/// plus one of its unit (the fraction and the carried nanoseconds), and a
/// unit is at most a year; there are at most `digit_count` spans.
pub open spec fn duration_text_in_range(s: Seq<char>) -> bool {
    (digits_value(s) + digit_count(s) + 1) * year_secs() <= max_duration_secs()
}

proof fn lemma_digits_value_grows(s: Seq<char>, j: int, k: int)
    requires
        0 <= j <= k <= s.len(),
    ensures
        digits_value(s.take(j)) <= digits_value(s.take(k)),
    decreases k - j,
{
    if j < k {
        lemma_digits_value_grows(s, j, k - 1);
        assert(s.take(k).drop_last() =~= s.take(k - 1));
    }
}

/// Whether a duration text is in range, so that reading it cannot overflow.
pub fn duration_digits_in_range(text: &str) -> (r: bool)
    ensures
        r == duration_text_in_range(text@),
{
    let cs = crate::text::chars_of(text);
    let cap: u64 = 584542046090;
    let mut v: u64 = 0;
    let mut n: usize = 0;
    let mut i: usize = 0;
    assert(cap * year_secs() <= max_duration_secs()) by (nonlinear_arith)
        requires cap == 584542046090;
    assert((cap + 1) * year_secs() > max_duration_secs()) by (nonlinear_arith)
        requires cap == 584542046090;
    while i < cs.len()
        invariant
            i <= cs.len(),
            cs@ == text@,
            n == digit_count(cs@.take(i as int)),
            v == digits_value(cs@.take(i as int)),
            n <= i,
            v <= cap,
            cap == 584542046090,
            (cap + 1) * year_secs() > max_duration_secs(),
        decreases cs.len() - i,
    {
        proof {
            assert(cs@.take(i + 1).drop_last() =~= cs@.take(i as int));
        }
        let c = cs[i];
        if '0' <= c && c <= '9' {
            let d = (c as u32 - '0' as u32) as u64;
            let nv = v * 10 + d;
            if nv > cap {
                proof {
                    lemma_digits_value_grows(cs@, i + 1, cs.len() as int);
                    assert(cs@.take(cs.len() as int) =~= cs@);
                    let t = digits_value(text@);
                    assert(t >= cap + 1);
                    assert(t * year_secs() >= (cap + 1) * year_secs()) by (nonlinear_arith)
                        requires t >= cap + 1;
                    assert((t + digit_count(text@) + 1) * year_secs() >= t * year_secs()) by (
                    nonlinear_arith);
                }
                return false;
            }
            v = nv;
            n += 1;
        }
        i += 1;
    }
    assert(cs@.take(cs.len() as int) =~= cs@);
    let total: u128 = (v as u128 + n as u128 + 1) * 31557600;
    total <= 18446744073709551615u128
}

/// Reads a human-readable duration such as `1h 30m`.
///
/// Trusted: `humantime::parse_duration`, its result taken in whole
/// milliseconds (`Duration::as_millis`) and its error by its `Display` text;
/// the outcome is named `humantime_millis`. `parse_duration` adds its spans
/// with checked arithmetic but builds each partial sum with `Duration::new`,
/// which panics when a carried second overflows the seconds. That needs a
/// running sum of the largest count of seconds a `Duration` holds, which a
/// text in range cannot reach (the partial sums only grow, up to the
/// total), so such texts are the only ones admitted.
#[verifier::external_body]
fn parse_duration_millis(text: &str) -> (r: Result<u128, String>)
    requires
        duration_text_in_range(text@),
    ensures
        match humantime_millis(text@) {
            Ok(ms) => r matches Ok(x) && x as nat == ms,
            Err(e) => r matches Err(x) && x@ == e,
        },
{
    humantime::parse_duration(text).map(|d| d.as_millis()).map_err(|e| e.to_string())
}

/// The answer to a duration query made of what `humantime` read: the
/// milliseconds, or its error behind `Duration parse error: `.
pub fn duration_outcome(read: Result<u128, String>) -> (r: Result<u128, String>)
    ensures
        match read {
            Ok(ms) => r == Ok::<u128, String>(ms),
            Err(e) => r matches Err(x) && x@ == "Duration parse error: "@ + e@,
        },
{
    match read {
        Ok(ms) => Ok(ms),
        Err(e) => {
            let mut msg = String::from_str("Duration parse error: ");
            msg.append(e.as_str());
            Err(msg)
        },
    }
}

/// The length in milliseconds of a human-readable duration in range, or why
/// it could not be read.
pub fn time_parse_duration(text: &str) -> (r: Result<u128, String>)
    requires
        duration_text_in_range(text@),
    ensures
        match humantime_millis(text@) {
            Ok(ms) => r matches Ok(x) && x as nat == ms,
            Err(e) => r matches Err(x) && x@ == "Duration parse error: "@ + e,
        },
{
    duration_outcome(parse_duration_millis(text))
}

/// The length in milliseconds of a human-readable duration, or why it
/// could not be read; nothing for a text out of range, which is not read.
pub fn time_parse_duration_checked(text: &str) -> (r: Option<Result<u128, String>>)
    ensures
        !duration_text_in_range(text@) ==> r is None,
        duration_text_in_range(text@) ==> match humantime_millis(text@) {
            Ok(ms) => r matches Some(Ok(x)) && x as nat == ms,
            Err(e) => r matches Some(Err(x)) && x@ == "Duration parse error: "@ + e,
        },
{
    if duration_digits_in_range(text) {
        Some(time_parse_duration(text))
    } else {
        None
    }
}

} // verus!
