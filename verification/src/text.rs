use vstd::prelude::*;
use vstd::string::StringSliceAdditionalSpecFns;

verus! {

// ---------------------------------------------------------------------------
// Specifications over sequences of characters
// ---------------------------------------------------------------------------

/// `p` occurs in `s` starting at position `i`.
pub open spec fn matches_at(s: Seq<char>, p: Seq<char>, i: int) -> bool {
    0 <= i && i + p.len() <= s.len() && s.subrange(i, i + p.len()) == p
}

/// `p` is a prefix of `s`.
pub open spec fn starts_with_spec(s: Seq<char>, p: Seq<char>) -> bool {
    matches_at(s, p, 0)
}

/// `p` is a suffix of `s`.
pub open spec fn ends_with_spec(s: Seq<char>, p: Seq<char>) -> bool {
    p.len() <= s.len() && matches_at(s, p, s.len() - p.len())
}

/// `p` occurs somewhere in `s`.
pub open spec fn contains_spec(s: Seq<char>, p: Seq<char>) -> bool {
    exists|i: int| matches_at(s, p, i)
}

/// Every match of `p` in `s`, scanned from the left without overlap, replaced
/// by `r`. An empty pattern matches before every character and at the end.
pub open spec fn replace_spec(s: Seq<char>, p: Seq<char>, r: Seq<char>) -> Seq<char>
    decreases s.len(),
{
    if p.len() == 0 {
        if s.len() == 0 {
            r
        } else {
            r + seq![s[0]] + replace_spec(s.skip(1), p, r)
        }
    } else if s.len() == 0 {
        Seq::empty()
    } else if matches_at(s, p, 0) {
        r + replace_spec(s.skip(p.len() as int), p, r)
    } else {
        seq![s[0]] + replace_spec(s.skip(1), p, r)
    }
}

/// The pieces of `s` between the matches of a non-empty pattern `p`, where
/// `cur` is the part of the current piece that has been read already.
pub open spec fn split_from(s: Seq<char>, p: Seq<char>, cur: Seq<char>) -> Seq<Seq<char>>
    recommends
        p.len() > 0,
    decreases s.len(),
{
    if s.len() == 0 || p.len() == 0 {
        seq![cur + s]
    } else if matches_at(s, p, 0) {
        seq![cur] + split_from(s.skip(p.len() as int), p, Seq::empty())
    } else {
        split_from(s.skip(1), p, cur.push(s[0]))
    }
}

/// Splitting on an empty pattern: an empty piece, one piece per character,
/// and a final empty piece.
pub open spec fn split_empty(s: Seq<char>) -> Seq<Seq<char>> {
    seq![Seq::<char>::empty()] + s.map_values(|c: char| seq![c]) + seq![Seq::<char>::empty()]
}

/// The pieces of `s` separated by the pattern `p`.
pub open spec fn split_spec(s: Seq<char>, p: Seq<char>) -> Seq<Seq<char>> {
    if p.len() == 0 {
        split_empty(s)
    } else {
        split_from(s, p, Seq::empty())
    }
}

/// The pieces joined, with `sep` between each two neighbours.
pub open spec fn join_spec(parts: Seq<Seq<char>>, sep: Seq<char>) -> Seq<char>
    decreases parts.len(),
{
    if parts.len() == 0 {
        Seq::empty()
    } else if parts.len() == 1 {
        parts[0]
    } else {
        join_spec(parts.drop_last(), sep) + sep + parts.last()
    }
}

/// The views of a sequence of strings.
pub open spec fn views(v: Seq<String>) -> Seq<Seq<char>> {
    v.map_values(|x: String| x@)
}

/// The characters of `s` from position `start`, at most `size` of them.
pub open spec fn substring_spec(s: Seq<char>, start: int, size: int) -> Seq<char> {
    let b = if start < s.len() { start } else { s.len() as int };
    let e = if b + size < s.len() { b + size } else { s.len() as int };
    s.subrange(b, e)
}

/// The position of the first occurrence of `x` in `s`, if any.
pub open spec fn first_index_of<A>(s: Seq<A>, x: A) -> Option<int> {
    if exists|i: int| 0 <= i < s.len() && s[i] == x {
        Some(
            choose|i: int| 0 <= i < s.len() && s[i] == x && forall|j: int| 0 <= j < i ==> s[j] != x,
        )
    } else {
        None
    }
}

/// An occurrence with none before it is the first one.
pub proof fn lemma_first_index_of<A>(s: Seq<A>, x: A, i: int)
    requires
        0 <= i < s.len(),
        s[i] == x,
        forall|j: int| 0 <= j < i ==> s[j] != x,
    ensures
        first_index_of(s, x) == Some(i),
{
    let k = choose|k: int| 0 <= k < s.len() && s[k] == x && forall|j: int| 0 <= j < k ==> s[j] != x;
    assert(0 <= k < s.len() && s[k] == x && forall|j: int| 0 <= j < k ==> s[j] != x);
    if k < i {
        assert(s[k] != x);
    }
    if i < k {
        assert(s[i] != x);
    }
}

proof fn lemma_min_witness<A>(s: Seq<A>, x: A, j: int) -> (k: int)
    requires
        0 <= j < s.len(),
        s[j] == x,
    ensures
        0 <= k <= j,
        s[k] == x,
        forall|m: int| 0 <= m < k ==> s[m] != x,
    decreases j,
{
    if exists|m: int| 0 <= m < j && s[m] == x {
        let m = choose|m: int| 0 <= m < j && s[m] == x;
        lemma_min_witness(s, x, m)
    } else {
        j
    }
}

/// What the first occurrence of `x` is: an occurrence with none before it,
/// or none at all.
pub proof fn lemma_first_index_of_props<A>(s: Seq<A>, x: A)
    ensures
        match first_index_of(s, x) {
            Some(i) => 0 <= i < s.len() && s[i] == x && forall|j: int| 0 <= j < i ==> s[j] != x,
            None => forall|j: int| 0 <= j < s.len() ==> s[j] != x,
        },
{
    if exists|j: int| 0 <= j < s.len() && s[j] == x {
        let j = choose|j: int| 0 <= j < s.len() && s[j] == x;
        let k = lemma_min_witness(s, x, j);
        lemma_first_index_of(s, x, k);
    }
}

/// The first position of `c` in `s`, given one.
pub proof fn lemma_first_char(s: Seq<char>, c: char, j: int) -> (k: int)
    requires
        0 <= j < s.len(),
        s[j] == c,
    ensures
        0 <= k <= j,
        s[k] == c,
        lacks(s.take(k), c),
{
    let k = lemma_min_witness(s, c, j);
    assert forall|m: int| 0 <= m < s.take(k).len() implies #[trigger] s.take(k)[m] != c by {
        assert(s.take(k)[m] == s[m]);
    }
    k
}

// ---------------------------------------------------------------------------
// Building blocks
// ---------------------------------------------------------------------------

/// Appends one character to a string.
///
/// Trusted: `String::push`, which the standard library documents as
/// appending the given `char` to the end of the string.
#[verifier::external_body]
pub(crate) fn push_char(s: &mut String, c: char)
    ensures
        final(s)@ == old(s)@.push(c),
{
    s.push(c)
}

/// The characters of a string slice, in order.
pub fn chars_of(s: &str) -> (v: Vec<char>)
    ensures
        v@ == s@,
{
    let mut v: Vec<char> = Vec::new();
    for c in it: s.chars()
        invariant
            v@ == it.seq().take(it.index() as int),
            it.seq() == s@,
    {
        v.push(c);
    }
    v
}

/// Whether the characters `p` occur in `s` at position `i`.
pub fn matches_at_exec(s: &Vec<char>, p: &Vec<char>, i: usize) -> (b: bool)
    ensures
        b == matches_at(s@, p@, i as int),
{
    if i > s.len() || p.len() > s.len() - i {
        return false;
    }
    let mut j: usize = 0;
    while j < p.len()
        invariant
            i + p.len() <= s.len(),
            j <= p.len(),
            forall|k: int| 0 <= k < j ==> s@[i + k] == p@[k],
        decreases p.len() - j,
    {
        if s[i + j] != p[j] {
            assert(s@.subrange(i as int, i + p.len())[j as int] != p@[j as int]);
            return false;
        }
        j += 1;
    }
    assert(s@.subrange(i as int, i + p.len()) =~= p@);
    true
}

/// The string made of the characters `cs[from..to]`.
pub fn string_of_range(cs: &Vec<char>, from: usize, to: usize) -> (r: String)
    requires
        from <= to <= cs.len(),
    ensures
        r@ == cs@.subrange(from as int, to as int),
{
    let mut r = String::new();
    let mut i = from;
    while i < to
        invariant
            from <= i <= to <= cs.len(),
            r@ == cs@.subrange(from as int, i as int),
        decreases to - i,
    {
        push_char(&mut r, cs[i]);
        assert(cs@.subrange(from as int, i + 1) =~= cs@.subrange(from as int, i as int).push(
            cs@[i as int],
        ));
        i += 1;
    }
    r
}

/// A copy of a string slice as an owned string.
pub fn to_owned_string(s: &str) -> (r: String)
    ensures
        r@ == s@,
{
    let cs = chars_of(s);
    let r = string_of_range(&cs, 0, cs.len());
    assert(cs@.subrange(0, cs@.len() as int) =~= cs@);
    r
}

/// Equality of two string slices, character by character.
pub fn str_equal(a: &str, b: &str) -> (r: bool)
    ensures
        r == (a@ == b@),
{
    let x = to_owned_string(a);
    let y = to_owned_string(b);
    x == y
}

// ---------------------------------------------------------------------------
// String operations
// ---------------------------------------------------------------------------

/// Whether `text` begins with `prefix`.
pub fn starts_with(text: &str, prefix: &str) -> (r: bool)
    ensures
        r == starts_with_spec(text@, prefix@),
{
    let cs = chars_of(text);
    let ps = chars_of(prefix);
    matches_at_exec(&cs, &ps, 0)
}

/// Whether `text` ends with `suffix`.
pub fn ends_with(text: &str, suffix: &str) -> (r: bool)
    ensures
        r == ends_with_spec(text@, suffix@),
{
    let cs = chars_of(text);
    let ps = chars_of(suffix);
    if ps.len() > cs.len() {
        return false;
    }
    matches_at_exec(&cs, &ps, cs.len() - ps.len())
}

/// Whether `subtext` occurs anywhere in `text`.
pub fn contains(text: &str, subtext: &str) -> (r: bool)
    ensures
        r == contains_spec(text@, subtext@),
{
    let cs = chars_of(text);
    let ps = chars_of(subtext);
    let mut i: usize = 0;
    while i < cs.len()
        invariant
            cs@ == text@,
            ps@ == subtext@,
            i <= cs.len(),
            forall|k: int| 0 <= k < i ==> !matches_at(cs@, ps@, k),
        decreases cs.len() - i,
    {
        if matches_at_exec(&cs, &ps, i) {
            return true;
        }
        i += 1;
    }
    if matches_at_exec(&cs, &ps, i) {
        return true;
    }
    assert forall|k: int| !matches_at(cs@, ps@, k) by {
        if 0 <= k <= i {
        } else if k > cs.len() {
        }
    }
    false
}

/// The number of bytes of the UTF-8 encoding of `text`.
pub fn length(text: &str) -> (r: usize)
    ensures
        r == text.spec_bytes().len() as usize,
{
    text.len()
}

/// At most `size` characters of `text`, starting with the character at
/// position `start`.
pub fn substring(text: &str, start: usize, size: usize) -> (r: String)
    ensures
        r@ == substring_spec(text@, start as int, size as int),
{
    let cs = chars_of(text);
    let b = if start < cs.len() {
        start
    } else {
        cs.len()
    };
    let e = if size < cs.len() - b {
        b + size
    } else {
        cs.len()
    };
    string_of_range(&cs, b, e)
}

proof fn lemma_skip_skip(s: Seq<char>, i: int, j: int)
    requires
        0 <= i,
        0 <= j,
        i + j <= s.len(),
    ensures
        s.skip(i).skip(j) == s.skip(i + j),
{
    assert(s.skip(i).skip(j) =~= s.skip(i + j));
}

proof fn lemma_matches_skip(s: Seq<char>, p: Seq<char>, i: int)
    requires
        0 <= i <= s.len(),
    ensures
        matches_at(s.skip(i), p, 0) == matches_at(s, p, i),
{
    if i + p.len() <= s.len() {
        assert(s.skip(i).subrange(0, p.len() as int) =~= s.subrange(i, i + p.len()));
    }
}

/// `text` with every match of `from` replaced by `to`.
pub fn replace_all(text: &str, from: &str, to: &str) -> (r: String)
    ensures
        r@ == replace_spec(text@, from@, to@),
{
    let cs = chars_of(text);
    let ps = chars_of(from);
    let n = cs.len();
    let m = ps.len();
    let mut out = String::new();
    let mut i: usize = 0;
    assert(cs@.skip(0) =~= cs@);
    if m == 0 {
        while i < n
            invariant
                n == cs@.len(),
                ps@.len() == 0,
                i <= n,
                replace_spec(cs@, ps@, to@) == out@ + replace_spec(cs@.skip(i as int), ps@, to@),
            decreases n - i,
        {
            let ghost before = out@;
            out.append(to);
            push_char(&mut out, cs[i]);
            proof {
                lemma_skip_skip(cs@, i as int, 1);
                let rest = cs@.skip(i as int);
                assert(rest[0] == cs@[i as int]);
                assert(replace_spec(rest, ps@, to@) == to@ + seq![rest[0]] + replace_spec(
                    rest.skip(1),
                    ps@,
                    to@,
                ));
                assert(before + (to@ + seq![cs@[i as int]] + replace_spec(
                    cs@.skip(i + 1),
                    ps@,
                    to@,
                )) =~= out@ + replace_spec(cs@.skip(i + 1), ps@, to@));
            }
            i += 1;
        }
        let ghost before = out@;
        out.append(to);
        proof {
            assert(cs@.skip(i as int) =~= Seq::<char>::empty());
        }
        return out;
    }
    while i < n
        invariant
            n == cs@.len(),
            m == ps@.len(),
            m > 0,
            i <= n,
            replace_spec(cs@, ps@, to@) == out@ + replace_spec(cs@.skip(i as int), ps@, to@),
        decreases n - i,
    {
        let ghost before = out@;
        let ghost rest = cs@.skip(i as int);
        proof {
            lemma_matches_skip(cs@, ps@, i as int);
        }
        if matches_at_exec(&cs, &ps, i) {
            out.append(to);
            proof {
                lemma_skip_skip(cs@, i as int, m as int);
                assert(replace_spec(rest, ps@, to@) == to@ + replace_spec(
                    rest.skip(m as int),
                    ps@,
                    to@,
                ));
                assert(before + (to@ + replace_spec(cs@.skip(i + m), ps@, to@)) =~= out@
                    + replace_spec(cs@.skip(i + m), ps@, to@));
            }
            i += m;
        } else {
            push_char(&mut out, cs[i]);
            proof {
                lemma_skip_skip(cs@, i as int, 1);
                assert(rest[0] == cs@[i as int]);
                assert(before + (seq![rest[0]] + replace_spec(cs@.skip(i + 1), ps@, to@))
                    =~= out@ + replace_spec(cs@.skip(i + 1), ps@, to@));
            }
            i += 1;
        }
    }
    proof {
        assert(cs@.skip(i as int) =~= Seq::<char>::empty());
        assert(out@ + Seq::<char>::empty() =~= out@);
    }
    out
}

/// The pieces of `text` separated by `pat`.
pub fn split(text: &str, pat: &str) -> (r: Vec<String>)
    ensures
        views(r@) == split_spec(text@, pat@),
{
    let cs = chars_of(text);
    let ps = chars_of(pat);
    let n = cs.len();
    let m = ps.len();
    let mut out: Vec<String> = Vec::new();
    if m == 0 {
        out.push(String::new());
        let mut i: usize = 0;
        while i < n
            invariant
                n == cs@.len(),
                i <= n,
                views(out@) =~= seq![Seq::<char>::empty()] + cs@.take(i as int).map_values(
                    |c: char| seq![c],
                ),
            decreases n - i,
        {
            let piece = string_of_range(&cs, i, i + 1);
            let ghost before = out@;
            out.push(piece);
            proof {
                assert(views(out@) =~= views(before).push(piece@));
                assert(cs@.subrange(i as int, i + 1) =~= seq![cs@[i as int]]);
                assert(cs@.take(i + 1).map_values(|c: char| seq![c]) =~= cs@.take(
                    i as int,
                ).map_values(|c: char| seq![c]).push(seq![cs@[i as int]]));
            }
            i += 1;
        }
        out.push(String::new());
        proof {
            assert(cs@.take(n as int) =~= cs@);
            assert(views(out@) =~= split_empty(text@));
        }
        return out;
    }
    let mut start: usize = 0;
    let mut i: usize = 0;
    assert(cs@.skip(0) =~= cs@);
    assert(cs@.subrange(0, 0) =~= Seq::<char>::empty());
    while i < n
        invariant
            n == cs@.len(),
            m == ps@.len(),
            m > 0,
            start <= i <= n,
            split_spec(cs@, ps@) == views(out@) + split_from(
                cs@.skip(i as int),
                ps@,
                cs@.subrange(start as int, i as int),
            ),
        decreases n - i,
    {
        let ghost rest = cs@.skip(i as int);
        let ghost cur = cs@.subrange(start as int, i as int);
        let ghost before = views(out@);
        proof {
            lemma_matches_skip(cs@, ps@, i as int);
        }
        if matches_at_exec(&cs, &ps, i) {
            let piece = string_of_range(&cs, start, i);
            out.push(piece);
            proof {
                lemma_skip_skip(cs@, i as int, m as int);
                assert(cs@.subrange((i + m) as int, (i + m) as int) =~= Seq::<char>::empty());
                assert(views(out@) =~= before.push(cur));
                assert(before + (seq![cur] + split_from(
                    cs@.skip(i + m),
                    ps@,
                    Seq::empty(),
                )) =~= views(out@) + split_from(cs@.skip(i + m), ps@, Seq::empty()));
            }
            i += m;
            start = i;
        } else {
            proof {
                lemma_skip_skip(cs@, i as int, 1);
                assert(rest[0] == cs@[i as int]);
                assert(cur.push(rest[0]) =~= cs@.subrange(start as int, i + 1));
            }
            i += 1;
        }
    }
    let last = string_of_range(&cs, start, n);
    let ghost before = views(out@);
    out.push(last);
    proof {
        assert(cs@.skip(i as int) =~= Seq::<char>::empty());
        assert(cs@.subrange(start as int, i as int) + Seq::<char>::empty() =~= cs@.subrange(
            start as int,
            n as int,
        ));
        assert(views(out@) =~= before.push(cs@.subrange(start as int, n as int)));
    }
    out
}

/// The strings of `parts`, with `sep` between each two neighbours.
pub fn join(parts: &Vec<String>, sep: &str) -> (r: String)
    ensures
        r@ == join_spec(views(parts@), sep@),
{
    let mut out = String::new();
    let mut i: usize = 0;
    while i < parts.len()
        invariant
            i <= parts.len(),
            out@ == join_spec(views(parts@.take(i as int)), sep@),
        decreases parts.len() - i,
    {
        let ghost before = out@;
        if i > 0 {
            out.append(sep);
        }
        out.append(parts[i].as_str());
        proof {
            let vs = views(parts@.take(i + 1));
            assert(vs.drop_last() =~= views(parts@.take(i as int)));
            assert(vs.last() == parts@[i as int]@);
            if i == 0 {
                assert(before =~= Seq::<char>::empty());
                assert(out@ =~= parts@[0]@);
            }
        }
        i += 1;
    }
    assert(parts@.take(parts.len() as int) =~= parts@);
    out
}

// ---------------------------------------------------------------------------
// Splitting on and replacing one character
// ---------------------------------------------------------------------------

/// The character `c` does not occur in `s`.
pub open spec fn lacks(s: Seq<char>, c: char) -> bool {
    forall|i: int| 0 <= i < s.len() ==> s[i] != c
}

/// `s` with every `c` turned into `d`.
pub open spec fn map_char(s: Seq<char>, c: char, d: char) -> Seq<char> {
    s.map_values(|x: char| if x == c { d } else { x })
}

pub proof fn lemma_matches_one(s: Seq<char>, c: char)
    ensures
        matches_at(s, seq![c], 0) == (s.len() > 0 && s[0] == c),
{
    if s.len() > 0 {
        if s[0] == c {
            assert(s.subrange(0, 1) =~= seq![c]);
        } else {
            assert(s.subrange(0, 1)[0] == s[0]);
        }
    }
}

/// A text without `c` splits on `c` into one piece.
pub proof fn lemma_split_one_none(s: Seq<char>, c: char, cur: Seq<char>)
    requires
        lacks(s, c),
    ensures
        split_from(s, seq![c], cur) == seq![cur + s],
    decreases s.len(),
{
    lemma_matches_one(s, c);
    if s.len() > 0 {
        let t = s.skip(1);
        assert forall|i: int| 0 <= i < t.len() implies #[trigger] t[i] != c by {
            assert(t[i] == s[i + 1]);
        }
        lemma_split_one_none(s.skip(1), c, cur.push(s[0]));
        assert(cur.push(s[0]) + s.skip(1) =~= cur + s);
    } else {
        assert(cur + s =~= cur);
    }
}

/// Splitting on `c` at its first occurrence `k`: the text before it is the
/// first piece, and the rest is split after it.
pub proof fn lemma_split_one_at(s: Seq<char>, c: char, cur: Seq<char>, k: int)
    requires
        0 <= k < s.len(),
        s[k] == c,
        lacks(s.take(k), c),
    ensures
        split_from(s, seq![c], cur) == seq![cur + s.take(k)] + split_from(
            s.skip(k + 1),
            seq![c],
            Seq::empty(),
        ),
    decreases k,
{
    lemma_matches_one(s, c);
    if k == 0 {
        assert(cur + s.take(0) =~= cur);
    } else {
        assert(s.take(k)[0] == s[0]);
        let t = s.skip(1);
        assert(t[k - 1] == s[k]);
        let tk = t.take(k - 1);
        assert forall|i: int| 0 <= i < tk.len() implies #[trigger] tk[i] != c by {
            assert(t.take(k - 1)[i] == s.take(k)[i + 1]);
        }
        lemma_split_one_at(t, c, cur.push(s[0]), k - 1);
        assert(cur.push(s[0]) + t.take(k - 1) =~= cur + s.take(k));
        assert(t.skip(k) =~= s.skip(k + 1));
    }
}

/// A text holding `c` splits on `c` into at least two pieces.
pub proof fn lemma_split_one_has(s: Seq<char>, c: char, cur: Seq<char>, k: int)
    requires
        0 <= k < s.len(),
        s[k] == c,
    ensures
        split_from(s, seq![c], cur).len() >= 2,
    decreases s.len(),
{
    lemma_matches_one(s, c);
    if s[0] == c {
        lemma_split_from_nonempty(s.skip(1), seq![c], Seq::empty());
    } else {
        assert(s.skip(1)[k - 1] == s[k]);
        lemma_split_one_has(s.skip(1), c, cur.push(s[0]), k - 1);
    }
}

/// Replacing the one-character pattern `c` by `d` turns each `c` into `d`.
pub proof fn lemma_replace_one(s: Seq<char>, c: char, d: char)
    ensures
        replace_spec(s, seq![c], seq![d]) == map_char(s, c, d),
    decreases s.len(),
{
    lemma_matches_one(s, c);
    if s.len() > 0 {
        lemma_replace_one(s.skip(1), c, d);
        assert(map_char(s, c, d) =~= seq![if s[0] == c { d } else { s[0] }] + map_char(
            s.skip(1),
            c,
            d,
        ));
        if s[0] == c {
            assert(s.skip(seq![c].len() as int) == s.skip(1));
        }
    } else {
        assert(map_char(s, c, d) =~= Seq::<char>::empty());
    }
}

// ---------------------------------------------------------------------------
// Laws
// ---------------------------------------------------------------------------

proof fn lemma_join_cons(a: Seq<char>, rest: Seq<Seq<char>>, sep: Seq<char>)
    requires
        rest.len() > 0,
    ensures
        join_spec(seq![a] + rest, sep) == a + sep + join_spec(rest, sep),
    decreases rest.len(),
{
    let all = seq![a] + rest;
    assert(join_spec(all, sep) == join_spec(all.drop_last(), sep) + sep + all.last());
    if rest.len() == 1 {
        assert(all.drop_last() =~= seq![a]);
        assert(all.last() == rest[0]);
        assert(join_spec(rest, sep) == rest[0]);
        assert(join_spec(seq![a], sep) == a);
    } else {
        assert(all.drop_last() =~= seq![a] + rest.drop_last());
        assert(all.last() == rest.last());
        assert(join_spec(rest, sep) == join_spec(rest.drop_last(), sep) + sep + rest.last());
        lemma_join_cons(a, rest.drop_last(), sep);
        assert(a + sep + join_spec(rest.drop_last(), sep) + sep + rest.last() =~= a + sep + (
        join_spec(rest.drop_last(), sep) + sep + rest.last()));
    }
}

proof fn lemma_split_from_nonempty(s: Seq<char>, p: Seq<char>, cur: Seq<char>)
    ensures
        split_from(s, p, cur).len() > 0,
    decreases s.len(),
{
    if s.len() == 0 || p.len() == 0 {
    } else if matches_at(s, p, 0) {
        lemma_split_from_nonempty(s.skip(p.len() as int), p, Seq::empty());
    } else {
        lemma_split_from_nonempty(s.skip(1), p, cur.push(s[0]));
    }
}

proof fn lemma_join_split_from(s: Seq<char>, p: Seq<char>, cur: Seq<char>)
    requires
        p.len() > 0,
    ensures
        join_spec(split_from(s, p, cur), p) == cur + s,
    decreases s.len(),
{
    if s.len() == 0 {
        assert(cur + s =~= cur);
    } else if matches_at(s, p, 0) {
        let rest = s.skip(p.len() as int);
        lemma_join_split_from(rest, p, Seq::empty());
        lemma_split_from_nonempty(rest, p, Seq::empty());
        lemma_join_cons(cur, split_from(rest, p, Seq::empty()), p);
        assert(s =~= p + rest);
        assert(cur + p + (Seq::<char>::empty() + rest) =~= cur + s);
    } else {
        lemma_join_split_from(s.skip(1), p, cur.push(s[0]));
        assert(cur.push(s[0]) + s.skip(1) =~= cur + s);
    }
}

proof fn lemma_join_chars(s: Seq<char>, k: int)
    requires
        0 <= k <= s.len(),
    ensures
        join_spec(
            seq![Seq::<char>::empty()] + s.take(k).map_values(|c: char| seq![c]),
            Seq::empty(),
        ) == s.take(k),
    decreases k,
{
    let pieces = seq![Seq::<char>::empty()] + s.take(k).map_values(|c: char| seq![c]);
    if k == 0 {
        assert(pieces =~= seq![Seq::<char>::empty()]);
        assert(s.take(0) =~= Seq::<char>::empty());
    } else {
        lemma_join_chars(s, k - 1);
        assert(pieces.drop_last() =~= seq![Seq::<char>::empty()] + s.take(k - 1).map_values(
            |c: char| seq![c],
        ));
        assert(pieces.last() == seq![s[k - 1]]);
        assert(s.take(k - 1) + Seq::<char>::empty() + seq![s[k - 1]] =~= s.take(k));
    }
}

/// Joining the pieces of a split with the separator gives back the text:
/// `join(split(s, p), p) == s` for every text `s` and pattern `p`.
pub proof fn law_join_split(s: Seq<char>, p: Seq<char>)
    ensures
        join_spec(split_spec(s, p), p) == s,
{
    if p.len() == 0 {
        lemma_join_chars(s, s.len() as int);
        let front = seq![Seq::<char>::empty()] + s.map_values(|c: char| seq![c]);
        assert(s.take(s.len() as int) =~= s);
        assert(s.take(s.len() as int).map_values(|c: char| seq![c]) =~= s.map_values(
            |c: char| seq![c],
        ));
        assert(split_empty(s) =~= front.push(Seq::<char>::empty()));
        assert(split_empty(s).drop_last() =~= front);
        assert(join_spec(split_empty(s), p) == join_spec(front, p) + p + Seq::<char>::empty());
        assert(p =~= Seq::<char>::empty());
        assert(front =~= seq![Seq::<char>::empty()] + s.take(s.len() as int).map_values(
            |c: char| seq![c],
        ));
        assert(join_spec(front, p) == s);
        assert(s + p + Seq::<char>::empty() =~= s);
    } else {
        lemma_join_split_from(s, p, Seq::empty());
        assert(Seq::<char>::empty() + s =~= s);
    }
}

/// Replacing a pattern by itself leaves a text unchanged.
pub proof fn law_replace_identity(s: Seq<char>, p: Seq<char>)
    ensures
        replace_spec(s, p, p) == s,
    decreases s.len(),
{
    if p.len() == 0 {
        if s.len() > 0 {
            law_replace_identity(s.skip(1), p);
            assert(p + seq![s[0]] + s.skip(1) =~= s);
        } else {
            assert(p =~= s);
        }
    } else if s.len() == 0 {
        assert(s =~= Seq::<char>::empty());
    } else if matches_at(s, p, 0) {
        law_replace_identity(s.skip(p.len() as int), p);
        assert(p + s.skip(p.len() as int) =~= s);
    } else {
        law_replace_identity(s.skip(1), p);
        assert(seq![s[0]] + s.skip(1) =~= s);
    }
}

} // verus!
