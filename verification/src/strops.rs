use vstd::prelude::*;

use crate::crypto::{hex_digit, hex_spec};
use crate::text::{chars_of, push_char, string_of_range};
use vstd::string::StringExecFns;

verus! {

// ---------------------------------------------------------------------------
// White space and trimming
// ---------------------------------------------------------------------------

/// The characters with the Unicode `White_Space` property.
pub open spec fn is_white_space(c: char) -> bool {
    let n = c as int;
    ||| 0x9 <= n <= 0xd
    ||| n == 0x20
    ||| n == 0x85
    ||| n == 0xa0
    ||| n == 0x1680
    ||| 0x2000 <= n <= 0x200a
    ||| n == 0x2028
    ||| n == 0x2029
    ||| n == 0x202f
    ||| n == 0x205f
    ||| n == 0x3000
}

/// `s` without its leading white space.
pub open spec fn trim_start_spec(s: Seq<char>) -> Seq<char>
    decreases s.len(),
{
    if s.len() > 0 && is_white_space(s[0]) {
        trim_start_spec(s.skip(1))
    } else {
        s
    }
}

/// `s` without its trailing white space.
pub open spec fn trim_end_spec(s: Seq<char>) -> Seq<char>
    decreases s.len(),
{
    if s.len() > 0 && is_white_space(s.last()) {
        trim_end_spec(s.drop_last())
    } else {
        s
    }
}

/// `s` without its leading and trailing white space.
pub open spec fn trim_spec(s: Seq<char>) -> Seq<char> {
    trim_end_spec(trim_start_spec(s))
}

/// Whether a character is white space.
pub fn white_space(c: char) -> (r: bool)
    ensures
        r == is_white_space(c),
{
    let n = c as u32;
    (0x9 <= n && n <= 0xd) || n == 0x20 || n == 0x85 || n == 0xa0 || n == 0x1680 || (0x2000 <= n
        && n <= 0x200a) || n == 0x2028 || n == 0x2029 || n == 0x202f || n == 0x205f || n == 0x3000
}

proof fn lemma_trim_start(s: Seq<char>, i: int)
    requires
        0 <= i <= s.len(),
        forall|k: int| 0 <= k < i ==> is_white_space(s[k]),
    ensures
        trim_start_spec(s) == trim_start_spec(s.skip(i)),
    decreases i,
{
    if i == 0 {
        assert(s.skip(0) =~= s);
    } else {
        lemma_trim_start(s.skip(1), i - 1);
        assert(s.skip(1).skip(i - 1) =~= s.skip(i));
    }
}

proof fn lemma_trim_end(s: Seq<char>, j: int)
    requires
        0 <= j <= s.len(),
        forall|k: int| j <= k < s.len() ==> is_white_space(s[k]),
    ensures
        trim_end_spec(s) == trim_end_spec(s.take(j)),
    decreases s.len() - j,
{
    if j == s.len() {
        assert(s.take(j) =~= s);
    } else {
        lemma_trim_end(s.drop_last(), j);
        assert(s.drop_last().take(j) =~= s.take(j));
    }
}

/// The first position from `from` on whose character is not white space,
/// or `to` when there is none before it.
fn skip_white_start(cs: &Vec<char>, from: usize, to: usize) -> (i: usize)
    requires
        from <= to <= cs.len(),
    ensures
        from <= i <= to,
        forall|k: int| from <= k < i ==> is_white_space(cs@[k]),
        i < to ==> !is_white_space(cs@[i as int]),
{
    let mut i = from;
    while i < to && white_space(cs[i])
        invariant
            from <= i <= to <= cs.len(),
            forall|k: int| from <= k < i ==> is_white_space(cs@[k]),
        decreases to - i,
    {
        i += 1;
    }
    i
}

/// The position after the last character before `to` that is not white
/// space, or `from` when there is none after it.
fn skip_white_end(cs: &Vec<char>, from: usize, to: usize) -> (j: usize)
    requires
        from <= to <= cs.len(),
    ensures
        from <= j <= to,
        forall|k: int| j <= k < to ==> is_white_space(cs@[k]),
        j > from ==> !is_white_space(cs@[j - 1]),
{
    let mut j = to;
    while j > from && white_space(cs[j - 1])
        invariant
            from <= j <= to <= cs.len(),
            forall|k: int| j <= k < to ==> is_white_space(cs@[k]),
        decreases j - from,
    {
        j -= 1;
    }
    j
}

/// `text` without its leading white space.
pub fn trim_left(text: &str) -> (r: String)
    ensures
        r@ == trim_start_spec(text@),
{
    let cs = chars_of(text);
    let i = skip_white_start(&cs, 0, cs.len());
    proof {
        lemma_trim_start(cs@, i as int);
        assert(cs@.skip(i as int) =~= cs@.subrange(i as int, cs.len() as int));
    }
    string_of_range(&cs, i, cs.len())
}

/// `text` without its trailing white space.
pub fn trim_right(text: &str) -> (r: String)
    ensures
        r@ == trim_end_spec(text@),
{
    let cs = chars_of(text);
    let j = skip_white_end(&cs, 0, cs.len());
    proof {
        lemma_trim_end(cs@, j as int);
        assert(cs@.take(j as int) =~= cs@.subrange(0, j as int));
        if j > 0 {
            assert(cs@.take(j as int).last() == cs@[j - 1]);
        }
    }
    string_of_range(&cs, 0, j)
}

/// `text` without its leading and trailing white space.
pub fn trim(text: &str) -> (r: String)
    ensures
        r@ == trim_spec(text@),
{
    let cs = chars_of(text);
    let i = skip_white_start(&cs, 0, cs.len());
    let j = skip_white_end(&cs, i, cs.len());
    proof {
        let s = cs@;
        lemma_trim_start(s, i as int);
        let t = s.skip(i as int);
        assert(trim_start_spec(t) == t);
        lemma_trim_end(t, j - i);
        assert(t.take(j - i) =~= s.subrange(i as int, j as int));
        if j > i {
            assert(t.take(j - i).last() == s[j - 1]);
        }
    }
    string_of_range(&cs, i, j)
}

proof fn lemma_trim_start_shape(s: Seq<char>)
    ensures
        trim_start_spec(s).len() <= s.len(),
        trim_start_spec(s) == s.skip(s.len() - trim_start_spec(s).len()),
        trim_start_spec(s).len() > 0 ==> !is_white_space(trim_start_spec(s)[0]),
    decreases s.len(),
{
    if s.len() > 0 && is_white_space(s[0]) {
        lemma_trim_start_shape(s.skip(1));
        let r = trim_start_spec(s.skip(1));
        assert(s.skip(1).skip(s.skip(1).len() - r.len()) =~= s.skip(s.len() - r.len()));
    } else {
        assert(s.skip(0) =~= s);
    }
}

proof fn lemma_trim_end_shape(s: Seq<char>)
    ensures
        trim_end_spec(s).len() <= s.len(),
        trim_end_spec(s) == s.take(trim_end_spec(s).len() as int),
        trim_end_spec(s).len() > 0 ==> !is_white_space(trim_end_spec(s).last()),
    decreases s.len(),
{
    if s.len() > 0 && is_white_space(s.last()) {
        lemma_trim_end_shape(s.drop_last());
        let r = trim_end_spec(s.drop_last());
        assert(s.drop_last().take(r.len() as int) =~= s.take(r.len() as int));
    } else {
        assert(s.take(s.len() as int) =~= s);
    }
}

/// Trimming a trimmed text changes nothing.
pub proof fn law_trim_idempotent(s: Seq<char>)
    ensures
        trim_spec(trim_spec(s)) == trim_spec(s),
{
    let t = trim_start_spec(s);
    let u = trim_end_spec(t);
    lemma_trim_start_shape(s);
    lemma_trim_end_shape(t);
    if u.len() > 0 {
        assert(u[0] == t[0]);
        assert(trim_start_spec(u) == u);
        assert(trim_end_spec(u) == u);
    } else {
        assert(trim_start_spec(u) == u);
        assert(trim_end_spec(u) == u);
    }
}

// ---------------------------------------------------------------------------
// Characters and case
// ---------------------------------------------------------------------------

/// The characters of `text`, each as a string of its own.
pub fn chars(text: &str) -> (r: Vec<String>)
    ensures
        r.len() == text@.len(),
        forall|k: int| 0 <= k < r.len() ==> (#[trigger] r@[k])@ == seq![text@[k]],
{
    let cs = chars_of(text);
    let mut r: Vec<String> = Vec::new();
    let mut i: usize = 0;
    while i < cs.len()
        invariant
            cs@ == text@,
            i <= cs.len(),
            r.len() == i,
            forall|k: int| 0 <= k < i ==> (#[trigger] r@[k])@ == seq![cs@[k]],
        decreases cs.len() - i,
    {
        let mut s = String::new();
        push_char(&mut s, cs[i]);
        assert(s@ =~= seq![cs@[i as int]]);
        r.push(s);
        i += 1;
    }
    r
}

/// The upper-case form of a text, as `str::to_uppercase` makes it.
pub uninterp spec fn uppercase_of(text: Seq<char>) -> Seq<char>;

/// The lower-case form of a text, as `str::to_lowercase` makes it.
pub uninterp spec fn lowercase_of(text: Seq<char>) -> Seq<char>;

/// Trusted: `str::to_uppercase`, which maps each character by the Unicode
/// upper-case mapping; the result is named `uppercase_of`.
#[verifier::external_body]
fn to_uppercase_call(text: &str) -> (r: String)
    ensures
        r@ == uppercase_of(text@),
{
    text.to_uppercase()
}

/// Trusted: `str::to_lowercase`, which maps each character by the Unicode
/// lower-case mapping; the result is named `lowercase_of`.
#[verifier::external_body]
fn to_lowercase_call(text: &str) -> (r: String)
    ensures
        r@ == lowercase_of(text@),
{
    text.to_lowercase()
}

/// `text` in upper case.
pub fn uppercase(text: &str) -> (r: String)
    ensures
        r@ == uppercase_of(text@),
{
    to_uppercase_call(text)
}

/// `text` in lower case.
pub fn lowercase(text: &str) -> (r: String)
    ensures
        r@ == lowercase_of(text@),
{
    to_lowercase_call(text)
}

// ---------------------------------------------------------------------------
// Colours
// ---------------------------------------------------------------------------

/// A colour as text: `#` and the red, green and blue channels in two
/// hexadecimal digits each, and the alpha channel too unless it is opaque.
pub open spec fn color_hex_spec(r: u8, g: u8, b: u8, a: u8) -> Seq<char> {
    let rgb = "#"@ + hex_spec(seq![r, g, b]);
    if a != 255 {
        rgb + hex_spec(seq![a])
    } else {
        rgb
    }
}

fn hex_char(d: u8) -> (c: char)
    requires
        d < 16,
    ensures
        c == hex_digit(d as int),
{
    if d < 10 {
        let c = (48u8 + d) as char;
        assert(c == hex_digit(d as int)) by {
            assert('0' as int == 48);
        }
        c
    } else {
        let c = (87u8 + d) as char;
        assert(c == hex_digit(d as int)) by {
            assert('a' as int == 97);
        }
        c
    }
}

fn push_hex_byte(s: &mut String, b: u8)
    ensures
        final(s)@ == old(s)@ + seq![hex_digit(b as int / 16), hex_digit(b as int % 16)],
{
    push_char(s, hex_char(b / 16));
    push_char(s, hex_char(b % 16));
    assert(s@ =~= old(s)@ + seq![hex_digit(b as int / 16), hex_digit(b as int % 16)]);
}

proof fn lemma_hex_push(x: Seq<u8>, b: u8)
    ensures
        hex_spec(x.push(b)) == hex_spec(x) + seq![hex_digit(b as int / 16), hex_digit(b as int % 16)],
{
    assert(x.push(b).drop_last() =~= x);
    assert(hex_spec(x.push(b)) =~= hex_spec(x) + seq![
        hex_digit(b as int / 16),
        hex_digit(b as int % 16),
    ]);
}

/// The text of a colour whose channels are bytes.
pub fn str_color(r: u8, g: u8, b: u8, a: u8) -> (res: String)
    ensures
        res@ == color_hex_spec(r, g, b, a),
{
    let mut s = String::from_str("#");
    proof {
        reveal_strlit("#");
        let e = Seq::<u8>::empty();
        lemma_hex_push(e, r);
        lemma_hex_push(e.push(r), g);
        lemma_hex_push(e.push(r).push(g), b);
        lemma_hex_push(e, a);
        assert(e.push(r).push(g).push(b) =~= seq![r, g, b]);
        assert(e.push(a) =~= seq![a]);
    }
    push_hex_byte(&mut s, r);
    push_hex_byte(&mut s, g);
    push_hex_byte(&mut s, b);
    proof {
        assert(s@ =~= "#"@ + hex_spec(seq![r, g, b]));
    }
    if a != 255 {
        push_hex_byte(&mut s, a);
    }
    s
}

} // verus!
