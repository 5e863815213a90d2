use vstd::prelude::*;

use crate::dsl::pairs_view;
use crate::text::{replace_all, replace_spec};
use vstd::string::StringExecFns;

verus! {

/// The marker of a named placeholder: the name between braces.
pub open spec fn placeholder(key: Seq<char>) -> Seq<char> {
    "{"@ + key + "}"@
}

/// `base` with the placeholders of the context filled in, one entry after
/// the other in the order of the context; the value of an entry replaces
/// every `{name}` of its name.
pub open spec fn fill_placeholders(base: Seq<char>, ctx: Seq<(Seq<char>, Seq<char>)>) -> Seq<char>
    decreases ctx.len(),
{
    if ctx.len() == 0 {
        base
    } else {
        replace_spec(
            fill_placeholders(base, ctx.drop_last()),
            placeholder(ctx.last().0),
            ctx.last().1,
        )
    }
}

/// `a` comes strictly before `b` in the order of their characters' code
/// points, a prefix before its extensions; the order in which a script's map
/// keeps its keys.
pub open spec fn text_before(a: Seq<char>, b: Seq<char>) -> bool
    decreases a.len(),
{
    if a.len() == 0 {
        b.len() > 0
    } else if b.len() == 0 {
        false
    } else if a[0] != b[0] {
        (a[0] as u32) < (b[0] as u32)
    } else {
        text_before(a.skip(1), b.skip(1))
    }
}

/// The entries of a context as a script's map hands them out: each name once,
/// in ascending order.
pub open spec fn context_ordered(ctx: Seq<(Seq<char>, Seq<char>)>) -> bool {
    forall|i: int, j: int| 0 <= i < j < ctx.len() ==> text_before(ctx[i].0, ctx[j].0)
}

proof fn lemma_text_before_skip(a: Seq<char>, b: Seq<char>, k: int)
    requires
        0 <= k <= a.len(),
        k <= b.len(),
        forall|j: int| 0 <= j < k ==> a[j] == b[j],
    ensures
        text_before(a, b) == text_before(a.skip(k), b.skip(k)),
    decreases k,
{
    if k > 0 {
        assert(a.len() > 0 && b.len() > 0 && a[0] == b[0]);
        lemma_text_before_skip(a.skip(1), b.skip(1), k - 1);
        assert(a.skip(1).skip(k - 1) =~= a.skip(k));
        assert(b.skip(1).skip(k - 1) =~= b.skip(k));
    } else {
        assert(a.skip(0) =~= a);
        assert(b.skip(0) =~= b);
    }
}

/// Whether the text `a` comes strictly before `b`.
pub fn text_is_before(a: &str, b: &str) -> (r: bool)
    ensures
        r == text_before(a@, b@),
{
    let xs = crate::text::chars_of(a);
    let ys = crate::text::chars_of(b);
    let mut k: usize = 0;
    while k < xs.len() && k < ys.len() && xs[k] == ys[k]
        invariant
            k <= xs.len(),
            k <= ys.len(),
            forall|j: int| 0 <= j < k ==> xs@[j] == ys@[j],
        decreases xs.len() - k,
    {
        k += 1;
    }
    proof {
        lemma_text_before_skip(xs@, ys@, k as int);
        let sa = xs@.skip(k as int);
        let sb = ys@.skip(k as int);
        assert(sa.len() == xs.len() - k);
        assert(sb.len() == ys.len() - k);
        if k < xs.len() && k < ys.len() {
            assert(sa[0] == xs@[k as int]);
            assert(sb[0] == ys@[k as int]);
        }
    }
    if k == xs.len() {
        k < ys.len()
    } else if k == ys.len() {
        false
    } else {
        let x = xs[k];
        let y = ys[k];
        assert(x != y);
        assert(text_before(xs@.skip(k as int), ys@.skip(k as int)) == ((x as u32) < (y as u32)));
        (x as u32) < (y as u32)
    }
}

/// Whether the names of a context are in ascending order, each once.
pub fn context_is_ordered(context: &Vec<(String, String)>) -> (r: bool)
    ensures
        r == context_ordered(pairs_view(context@)),
{
    let ghost ctx = pairs_view(context@);
    let mut i: usize = 1;
    if context.len() == 0 {
        return true;
    }
    while i < context.len()
        invariant
            ctx == pairs_view(context@),
            1 <= i <= context.len(),
            forall|a: int, b: int| 0 <= a < b < i ==> text_before(ctx[a].0, ctx[b].0),
        decreases context.len() - i,
    {
        if !text_is_before(context[i - 1].0.as_str(), context[i].0.as_str()) {
            proof {
                assert(ctx[i - 1].0 == context@[i - 1].0@);
                assert(ctx[i as int].0 == context@[i as int].0@);
                assert(!text_before(ctx[i - 1].0, ctx[i as int].0));
            }
            return false;
        }
        proof {
            assert forall|a: int, b: int| 0 <= a < b < i + 1 implies text_before(
                ctx[a].0,
                ctx[b].0,
            ) by {
                if b == i && a < i - 1 {
                    lemma_text_before_trans(ctx[a].0, ctx[i - 1].0, ctx[b].0);
                }
            }
        }
        i += 1;
    }
    true
}

proof fn lemma_text_before_trans(a: Seq<char>, b: Seq<char>, c: Seq<char>)
    requires
        text_before(a, b),
        text_before(b, c),
    ensures
        text_before(a, c),
    decreases a.len(),
{
    if a.len() > 0 && b.len() > 0 && c.len() > 0 && a[0] == b[0] && b[0] == c[0] {
        lemma_text_before_trans(a.skip(1), b.skip(1), c.skip(1));
    }
}

/// The text that stands for a translation key.
pub open spec fn raw_translation(key: Seq<char>) -> Seq<char> {
    "Translated: "@ + key
}

/// The translation keys that are known.
pub open spec fn known_key(key: Seq<char>) -> bool {
    key == "hello"@ || key == "bye"@ || key == "name_prompt"@
}

/// Replaces the `{name}` placeholders of an already translated text with the
/// values of the context, shown as text, entry after entry in the context's
/// ascending order of names.
pub fn format_with_placeholders(base: &str, context: &Vec<(String, String)>) -> (r: String)
    requires
        context_ordered(pairs_view(context@)),
    ensures
        r@ == fill_placeholders(base@, pairs_view(context@)),
{
    let mut result = String::from_str(base);
    let ghost ctx = pairs_view(context@);
    let mut i: usize = 0;
    while i < context.len()
        invariant
            ctx == pairs_view(context@),
            i <= context.len(),
            result@ == fill_placeholders(base@, ctx.take(i as int)),
        decreases context.len() - i,
    {
        let mut marker = String::from_str("{");
        marker.append(context[i].0.as_str());
        marker.append("}");
        proof {
            reveal_strlit("{");
            reveal_strlit("}");
            assert(ctx.take(i as int + 1).drop_last() =~= ctx.take(i as int));
            assert(marker@ == placeholder(ctx[i as int].0));
        }
        result = replace_all(result.as_str(), marker.as_str(), context[i].1.as_str());
        i += 1;
    }
    assert(ctx.take(context.len() as int) =~= ctx);
    result
}

/// The translation of a key, with no placeholders filled in.
pub fn get_raw(key: &str) -> (r: String)
    ensures
        r@ == raw_translation(key@),
{
    let mut r = String::from_str("Translated: ");
    r.append(key);
    r
}

/// Whether a translation key is known.
pub fn key_exists(key: &str) -> (r: bool)
    ensures
        r == known_key(key@),
{
    let a = "hello";
    let b = "bye";
    let c = "name_prompt";
    proof {
        reveal_strlit("hello");
        reveal_strlit("bye");
        reveal_strlit("name_prompt");
    }
    crate::text::str_equal(key, a) || crate::text::str_equal(key, b) || crate::text::str_equal(
        key,
        c,
    )
}

/// The translation of a key with the placeholders of the context filled in.
pub fn get(key: &str, context: &Vec<(String, String)>) -> (r: String)
    requires
        context_ordered(pairs_view(context@)),
    ensures
        r@ == fill_placeholders(raw_translation(key@), pairs_view(context@)),
{
    let raw = get_raw(key);
    format_with_placeholders(raw.as_str(), context)
}

/// The translation of a known key, or the fallback text for an unknown one.
pub fn get_or(key: &str, fallback: &str) -> (r: String)
    ensures
        known_key(key@) ==> r@ == raw_translation(key@),
        !known_key(key@) ==> r@ == fallback@,
{
    if key_exists(key) {
        get_raw(key)
    } else {
        String::from_str(fallback)
    }
}

/// A script's assertion, which fails with the message when its condition
/// holds and passes otherwise.
pub fn script_assert(condition: bool, msg: String) -> (r: Result<(), String>)
    ensures
        condition ==> r == Err::<(), String>(msg),
        !condition ==> r is Ok,
{
    if condition {
        Err(msg)
    } else {
        Ok(())
    }
}

} // verus!
