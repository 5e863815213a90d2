use vstd::prelude::*;

use crate::text::{
    chars_of, first_index_of, lacks, lemma_first_char, lemma_first_index_of,
    lemma_first_index_of_props, lemma_replace_one, lemma_split_one_at, lemma_split_one_has,
    lemma_split_one_none, map_char, replace_all, replace_spec, split, split_from, split_spec,
    starts_with, starts_with_spec, str_equal, string_of_range, views,
};
use crate::skill_context::{sub_path, SkillContext};
use vstd::string::StringExecFns;

verus! {

/// The function name an intent is handled by: the part after the first `@`
/// (the whole name when there is none), with `.` turned into `_`.
pub open spec fn intent_function_name(name: Seq<char>) -> Seq<char> {
    let parts = split_spec(name, "@"@);
    let base = if parts.len() > 1 {
        parts[1]
    } else {
        name
    };
    replace_spec(base, "."@, "_"@)
}

/// A loaded skill, as far as its decisions go: its name, the directory it
/// lives in and its context. The script engine that runs it is kept by the
/// caller.
pub struct Skill {
    pathname: String,
    name: String,
    context: SkillContext,
}

impl Skill {
    /// The name of the skill.
    pub closed spec fn name_view(&self) -> Seq<char> {
        self.name@
    }

    /// The directory of the skill.
    pub closed spec fn path_view(&self) -> Seq<char> {
        self.pathname@
    }

    /// The context of the skill.
    pub closed spec fn context_view(&self) -> SkillContext {
        self.context
    }

    /// Where the skill named `name` lives under the skills directory `root`.
    pub fn skill_path(root: &str, name: &str) -> (r: String)
        ensures
            r@ == sub_path(root@, name@),
    {
        let mut r = crate::text::to_owned_string(root);
        r.append("/");
        r.append(name);
        r
    }

    /// A skill named `name`, living in `pathname`, with its loaded context.
    pub fn new(name: String, pathname: String, context: SkillContext) -> (r: Skill)
        ensures
            r.name_view() == name@,
            r.path_view() == pathname@,
            r.context_view() == context,
    {
        Skill { pathname, name, context }
    }

    /// Formats an intent name into the name of the function that handles it.
    pub fn format_intent_name(name: &str) -> (r: String)
        ensures
            r@ == intent_function_name(name@),
    {
        let parts = split(name, "@");
        assert(views(parts@).len() == parts.len());
        if parts.len() > 1 {
            assert(views(parts@)[1] == parts@[1]@);
            replace_all(parts[1].as_str(), ".", "_")
        } else {
            replace_all(name, ".", "_")
        }
    }

    /// The function that runs an intent of this skill: the formatted name of
    /// the intent, or an error when the intent has no name.
    pub fn intent_handler(intent_name: Option<&str>) -> (r: Result<String, String>)
        ensures
            match intent_name {
                Some(n) => r matches Ok(f) && f@ == intent_function_name(n@),
                None => r matches Err(e) && e@ == "Intent is not defined"@,
            },
    {
        match intent_name {
            Some(n) => Ok(Self::format_intent_name(n)),
            None => Err(String::from_str("Intent is not defined")),
        }
    }

    /// Whether the skill is disabled.
    pub fn is_disabled(&self) -> (r: bool)
        ensures
            r == self.context_view().info.disabled,
    {
        self.context.info.disabled
    }

    /// Whether the skill may start: a disabled skill is refused.
    pub fn start(&self) -> (r: Result<(), String>)
        ensures
            self.context_view().info.disabled ==> (r matches Err(e) && e@ == "Skill is disabled"@),
            !self.context_view().info.disabled ==> r is Ok,
    {
        check_can_start(self.is_disabled())
    }

    /// The name of the skill.
    pub fn name(&self) -> (r: &str)
        ensures
            r@ == self.name_view(),
    {
        self.name.as_str()
    }

    /// The directory of the skill.
    pub fn pathname(&self) -> (r: String)
        ensures
            r@ == self.path_view(),
    {
        self.pathname.clone()
    }

    /// The context of the skill.
    pub fn context(&self) -> (r: &SkillContext)
        ensures
            *r == self.context_view(),
    {
        &self.context
    }
}

/// A script without its `#!` line: when it starts with `#!`, everything up
/// to and including the first line break goes, and all of it when there is
/// no line break.
pub open spec fn without_shebang(s: Seq<char>) -> Seq<char> {
    if starts_with_spec(s, "#!"@) {
        match first_index_of(s, '\n') {
            Some(k) => s.skip(k + 1),
            None => Seq::empty(),
        }
    } else {
        s
    }
}

/// Removes a leading `#!` line from the text of a script.
#[verifier::loop_isolation(false)]
pub fn strip_shebang(contents: String) -> (r: String)
    ensures
        r@ == without_shebang(contents@),
{
    if !starts_with(contents.as_str(), "#!") {
        return contents;
    }
    let cs = chars_of(contents.as_str());
    let mut i: usize = 0;
    while i < cs.len()
        invariant
            cs@ == contents@,
            i <= cs.len(),
            forall|j: int| 0 <= j < i ==> cs@[j] != '\n',
        decreases cs.len() - i,
    {
        if cs[i] == '\n' {
            proof {
                lemma_first_index_of(cs@, '\n', i as int);
                assert(cs@.subrange(i + 1, cs@.len() as int) =~= cs@.skip(i + 1));
            }
            return string_of_range(&cs, i + 1, cs.len());
        }
        i += 1;
    }
    String::new()
}

/// Whether an intent sent to a skill is the one a handler is declared for:
/// the names agree when ASCII letters are compared without case.
pub open spec fn names_match_ignoring_case(a: Seq<char>, b: Seq<char>) -> bool {
    a.len() == b.len() && forall|i: int| 0 <= i < a.len() ==> ascii_lower(a[i]) == ascii_lower(b[i])
}

/// The ASCII lower-case form of a character; other characters stay.
pub open spec fn ascii_lower(c: char) -> char {
    if 'A' <= c <= 'Z' {
        (((c as u8) + 32) as u8) as char
    } else {
        c
    }
}

fn to_ascii_lower(c: char) -> (r: char)
    ensures
        r == ascii_lower(c),
{
    if 'A' <= c && c <= 'Z' {
        let v: u8 = (c as u8) + 32;
        v as char
    } else {
        c
    }
}

/// Whether the intent name `sent` selects the handler declared for
/// `declared`, comparing ASCII letters without case.
pub fn intent_name_matches(sent: &str, declared: &str) -> (r: bool)
    ensures
        r == names_match_ignoring_case(sent@, declared@),
{
    let a = chars_of(sent);
    let b = chars_of(declared);
    if a.len() != b.len() {
        return false;
    }
    let mut i: usize = 0;
    while i < a.len()
        invariant
            a@ == sent@,
            b@ == declared@,
            a.len() == b.len(),
            i <= a.len(),
            forall|j: int| 0 <= j < i ==> ascii_lower(a@[j]) == ascii_lower(b@[j]),
        decreases a.len() - i,
    {
        if to_ascii_lower(a[i]) != to_ascii_lower(b[i]) {
            return false;
        }
        i += 1;
    }
    true
}

/// Which loaded skill an intent goes to, as an error message or the
/// position of the skill among the loaded ones.
pub open spec fn intent_route(name: Option<Seq<char>>, loaded: Seq<Seq<char>>) -> Result<int, Seq<char>> {
    match name {
        None => Err("Intent name is not defined"@),
        Some(n) => {
            let parts = split_spec(n, "@"@);
            if parts.len() != 2 {
                Err("Intent name must contain '@' separator"@)
            } else {
                match first_index_of(loaded, parts[0]) {
                    Some(i) => Ok(i),
                    None => Err("Skill "@ + parts[0] + " not found"@),
                }
            }
        },
    }
}

/// The loaded skill that handles the intent named `intent_name` (written
/// `skill@intent`), as its position among the names of the loaded skills.
#[verifier::loop_isolation(false)]
pub fn resolve_intent_skill(intent_name: Option<&str>, loaded: &Vec<String>) -> (r: Result<usize, String>)
    ensures
        match intent_route(
            match intent_name {
                Some(n) => Some(n@),
                None => None,
            },
            views(loaded@),
        ) {
            Ok(i) => r == Ok::<usize, String>(i as usize),
            Err(e) => r matches Err(s) && s@ == e,
        },
{
    let name = match intent_name {
        Some(n) => n,
        None => {
            return Err(String::from_str("Intent name is not defined"));
        },
    };
    let parts = split(name, "@");
    if parts.len() != 2 {
        return Err(String::from_str("Intent name must contain '@' separator"));
    }
    let ghost ls = views(loaded@);
    let ghost skill = views(parts@)[0];
    assert(skill == parts@[0]@);
    let mut i: usize = 0;
    while i < loaded.len()
        invariant
            ls == views(loaded@),
            parts.len() == 2,
            views(parts@) == split_spec(name@, "@"@),
            skill == parts@[0]@,
            i <= loaded.len(),
            forall|j: int| 0 <= j < i ==> ls[j] != skill,
        decreases loaded.len() - i,
    {
        if str_equal(loaded[i].as_str(), parts[0].as_str()) {
            proof {
                lemma_first_index_of(ls, skill, i as int);
            }
            return Ok(i);
        }
        i += 1;
    }
    let mut msg = String::from_str("Skill ");
    msg.append(parts[0].as_str());
    msg.append(" not found");
    Err(msg)
}

/// Whether a subscription handler runs for a received event: it is skipped
/// only when the event's name is the subscribed one (ignoring ASCII case)
/// while its kind (topic or event) is not the subscribed kind.
pub fn subscription_runs(received_name: &str, subscribed_name: &str, same_kind: bool) -> (r: bool)
    ensures
        r == !(names_match_ignoring_case(received_name@, subscribed_name@) && !same_kind),
{
    !(intent_name_matches(received_name, subscribed_name) && !same_kind)
}

/// Where an intent goes: an error when the intent data itself is missing,
/// and otherwise the route of its name.
pub open spec fn intent_dispatch(
    intent: Option<Option<Seq<char>>>,
    loaded: Seq<Seq<char>>,
) -> Result<int, Seq<char>> {
    match intent {
        None => Err("Intent is not defined"@),
        Some(name) => intent_route(name, loaded),
    }
}

/// The loaded skill that handles an intent, as its position among the names
/// of the loaded skills. `intent` is the recognised intent's data, when
/// there is any, holding the intent's name (written `skill@intent`) when it
/// has one.
pub fn skill_for_intent(intent: Option<Option<&str>>, loaded: &Vec<String>) -> (r: Result<
    usize,
    String,
>)
    ensures
        match intent_dispatch(
            match intent {
                Some(Some(n)) => Some(Some(n@)),
                Some(None) => Some(None),
                None => None,
            },
            views(loaded@),
        ) {
            Ok(i) => r == Ok::<usize, String>(i as usize),
            Err(e) => r matches Err(s) && s@ == e,
        },
{
    match intent {
        None => Err(String::from_str("Intent is not defined")),
        Some(name) => resolve_intent_skill(name, loaded),
    }
}

/// Starting a skill is refused when it is disabled.
pub fn check_can_start(disabled: bool) -> (r: Result<(), String>)
    ensures
        disabled ==> (r matches Err(e) && e@ == "Skill is disabled"@),
        !disabled ==> r is Ok,
{
    if disabled {
        Err(String::from_str("Skill is disabled"))
    } else {
        Ok(())
    }
}


// ---------------------------------------------------------------------------
// Laws
// ---------------------------------------------------------------------------

proof fn lemma_split_at_none(name: Seq<char>)
    requires
        lacks(name, '@'),
    ensures
        split_spec(name, "@"@) == seq![name],
{
    reveal_strlit("@");
    assert("@"@ =~= seq!['@']);
    lemma_split_one_none(name, '@', Seq::empty());
    assert(Seq::<char>::empty() + name =~= name);
}

proof fn lemma_split_at_first(name: Seq<char>, k: int)
    requires
        0 <= k < name.len(),
        name[k] == '@',
        lacks(name.take(k), '@'),
    ensures
        split_spec(name, "@"@) == seq![name.take(k)] + split_from(
            name.skip(k + 1),
            seq!['@'],
            Seq::empty(),
        ),
{
    reveal_strlit("@");
    assert("@"@ =~= seq!['@']);
    lemma_split_one_at(name, '@', Seq::empty(), k);
    assert(Seq::<char>::empty() + name.take(k) =~= name.take(k));
}

/// An intent name with exactly one `@`, at `k`, is routed by the text before
/// it: to the first loaded skill of exactly that name, and when no loaded
/// skill has that name the skill is reported missing.
pub proof fn law_route_by_skill_name(name: Seq<char>, loaded: Seq<Seq<char>>, k: int)
    requires
        0 <= k < name.len(),
        name[k] == '@',
        forall|m: int| 0 <= m < name.len() && m != k ==> name[m] != '@',
    ensures
        forall|i: int|
            0 <= i < loaded.len() && #[trigger] loaded[i] == name.take(k) && (forall|j: int|
                0 <= j < i ==> loaded[j] != name.take(k)) ==> intent_route(Some(name), loaded)
                == Ok::<int, Seq<char>>(i),
        (forall|i: int| 0 <= i < loaded.len() ==> loaded[i] != name.take(k)) ==> intent_route(
            Some(name),
            loaded,
        ) == Err::<int, Seq<char>>("Skill "@ + name.take(k) + " not found"@),
{
    let before = name.take(k);
    let after = name.skip(k + 1);
    assert forall|m: int| 0 <= m < before.len() implies #[trigger] before[m] != '@' by {
        assert(before[m] == name[m]);
    }
    assert forall|m: int| 0 <= m < after.len() implies #[trigger] after[m] != '@' by {
        assert(after[m] == name[m + k + 1]);
    }
    lemma_split_at_first(name, k);
    lemma_split_one_none(after, '@', Seq::empty());
    assert(Seq::<char>::empty() + after =~= after);
    let parts = split_spec(name, "@"@);
    assert(parts =~= seq![before, after]);
    assert forall|i: int|
        0 <= i < loaded.len() && #[trigger] loaded[i] == before && (forall|j: int|
            0 <= j < i ==> loaded[j] != before) implies intent_route(Some(name), loaded) == Ok::<
        int,
        Seq<char>,
    >(i) by {
        lemma_first_index_of(loaded, before, i);
    }
}

/// An intent name without exactly one `@` is refused.
pub proof fn law_route_needs_one_at(name: Seq<char>, loaded: Seq<Seq<char>>)
    ensures
        (lacks(name, '@') || exists|a: int, b: int|
            0 <= a < b < name.len() && #[trigger] name[a] == '@' && #[trigger] name[b] == '@')
            ==> intent_route(Some(name), loaded) == Err::<int, Seq<char>>(
            "Intent name must contain '@' separator"@,
        ),
{
    if lacks(name, '@') {
        lemma_split_at_none(name);
    } else if exists|a: int, b: int|
        0 <= a < b < name.len() && #[trigger] name[a] == '@' && #[trigger] name[b] == '@' {
        let (a, b) = choose|a: int, b: int|
            0 <= a < b < name.len() && #[trigger] name[a] == '@' && #[trigger] name[b] == '@';
        let k = lemma_first_char(name, '@', a);
        lemma_split_at_first(name, k);
        let after = name.skip(k + 1);
        assert(after[b - k - 1] == name[b]);
        lemma_split_one_has(after, '@', Seq::empty(), b - k - 1);
    }
}

/// A routed intent goes to a loaded skill named exactly as the text before
/// the one `@` of the intent name, and to the first skill of that name.
pub proof fn law_route_exact(name: Seq<char>, loaded: Seq<Seq<char>>)
    ensures
        intent_route(Some(name), loaded) matches Ok(i) ==> {
            &&& 0 <= i < loaded.len()
            &&& name.len() > loaded[i].len()
            &&& name.take(loaded[i].len() as int) == loaded[i]
            &&& name[loaded[i].len() as int] == '@'
            &&& forall|m: int|
                0 <= m < name.len() && m != loaded[i].len() ==> name[m] != '@'
            &&& forall|j: int| 0 <= j < i ==> loaded[j] != loaded[i]
        },
{
    if let Ok(i) = intent_route(Some(name), loaded) {
        if lacks(name, '@') {
            lemma_split_at_none(name);
            assert(false);
        }
        let j = choose|j: int| 0 <= j < name.len() && name[j] == '@';
        let k = lemma_first_char(name, '@', j);
        lemma_split_at_first(name, k);
        let after = name.skip(k + 1);
        if !lacks(after, '@') {
            let m = choose|m: int| 0 <= m < after.len() && after[m] == '@';
            lemma_split_one_has(after, '@', Seq::empty(), m);
            assert(false);
        }
        lemma_split_one_none(after, '@', Seq::empty());
        let parts = split_spec(name, "@"@);
        assert(parts[0] == name.take(k));
        lemma_first_index_of_props(loaded, name.take(k));
        assert(loaded[i] == name.take(k));
        assert forall|m: int| 0 <= m < name.len() && m != k implies name[m] != '@' by {
            if m < k {
                assert(name.take(k)[m] == name[m]);
            } else {
                assert(after[m - k - 1] == name[m]);
            }
        }
    }
}

/// The handler of an intent name whose first `@` is at `k`, and whose next
/// `@` is at `e` (or that has none after `k`, with `e` its length), is named
/// by the text between them with each `.` made `_`.
pub proof fn law_handler_name(name: Seq<char>, k: int, e: int)
    requires
        0 <= k < e <= name.len(),
        name[k] == '@',
        lacks(name.take(k), '@'),
        e == name.len() || name[e] == '@',
        forall|m: int| k < m < e ==> name[m] != '@',
    ensures
        intent_function_name(name).len() == e - k - 1,
        forall|j: int|
            0 <= j < e - k - 1 ==> #[trigger] intent_function_name(name)[j] == if name[k + 1 + j]
                == '.' {
                '_'
            } else {
                name[k + 1 + j]
            },
{
    lemma_split_at_first(name, k);
    let after = name.skip(k + 1);
    let base = name.subrange(k + 1, e);
    if e == name.len() {
        assert forall|m: int| 0 <= m < after.len() implies #[trigger] after[m] != '@' by {
            assert(after[m] == name[m + k + 1]);
        }
        lemma_split_one_none(after, '@', Seq::empty());
        assert(Seq::<char>::empty() + after =~= base);
    } else {
        let t = e - k - 1;
        assert(after[t] == name[e]);
        assert forall|m: int| 0 <= m < after.take(t).len() implies #[trigger] after.take(t)[m]
            != '@' by {
            assert(after.take(t)[m] == name[m + k + 1]);
        }
        lemma_split_one_at(after, '@', Seq::empty(), t);
        assert(Seq::<char>::empty() + after.take(t) =~= base);
    }
    let parts = split_spec(name, "@"@);
    assert(parts.len() > 1);
    assert(parts[1] == base);
    reveal_strlit(".");
    reveal_strlit("_");
    assert("."@ =~= seq!['.']);
    assert("_"@ =~= seq!['_']);
    lemma_replace_one(base, '.', '_');
}

/// The handler of an intent name without `@` is named by the whole name
/// with each `.` made `_`.
pub proof fn law_handler_name_plain(name: Seq<char>)
    requires
        lacks(name, '@'),
    ensures
        intent_function_name(name).len() == name.len(),
        forall|j: int|
            0 <= j < name.len() ==> #[trigger] intent_function_name(name)[j] == if name[j] == '.' {
                '_'
            } else {
                name[j]
            },
{
    lemma_split_at_none(name);
    reveal_strlit(".");
    reveal_strlit("_");
    assert("."@ =~= seq!['.']);
    assert("_"@ =~= seq!['_']);
    lemma_replace_one(name, '.', '_');
}

proof fn lemma_ascii_lower(c: char)
    ensures
        'A' <= c <= 'Z' ==> ascii_lower(c) as int == c as int + 32,
        !('A' <= c <= 'Z') ==> ascii_lower(c) == c,
        !('A' <= ascii_lower(c) <= 'Z'),
{
    if 'A' <= c <= 'Z' {
        assert((c as u8) as int == c as int);
    }
}

/// Two names match exactly when they have the same length and, at each
/// position, the same character or the same ASCII letter in the two cases.
pub proof fn law_names_match(a: Seq<char>, b: Seq<char>)
    ensures
        names_match_ignoring_case(a, b) <==> (a.len() == b.len() && forall|i: int|
            0 <= i < a.len() ==> {
                ||| a[i] == b[i]
                ||| 'A' <= a[i] <= 'Z' && b[i] as int == a[i] as int + 32
                ||| 'A' <= b[i] <= 'Z' && a[i] as int == b[i] as int + 32
            }),
{
    assert forall|i: int| 0 <= i < a.len() && i < b.len() implies (ascii_lower(a[i]) == ascii_lower(
        b[i],
    )) == {
        ||| a[i] == b[i]
        ||| 'A' <= a[i] <= 'Z' && b[i] as int == a[i] as int + 32
        ||| 'A' <= b[i] <= 'Z' && a[i] as int == b[i] as int + 32
    } by {
        lemma_ascii_lower(a[i]);
        lemma_ascii_lower(b[i]);
    }
}

} // verus!
