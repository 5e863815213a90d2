use vstd::prelude::*;

use crate::paths::{join_call, joined_path};
use crate::text::{ends_with, ends_with_spec, str_equal, to_owned_string};
use vstd::string::StringExecFns;

verus! {

/// The path `base` extended by `p`, as the platform's `Path::join` does it.
pub fn path_join(base: &str, p: &str) -> (r: String)
    ensures
        r@ == joined_path(base@, p@),
{
    join_call(base, p)
}

/// The directory, under `base`, where the script library lives:
/// `base/avi/library`, with `.` standing for a missing `base`.
pub open spec fn library_path_under(base: Option<Seq<char>>) -> Seq<char> {
    let root = match base {
        Some(b) => b,
        None => "."@,
    };
    joined_path(joined_path(root, "avi"@), "library"@)
}

/// The directory where the script library lives under the data directory
/// `base`, or under `.` when there is none.
pub fn library_path_from(base: Option<String>) -> (r: String)
    ensures
        r@ == library_path_under(
            match base {
                Some(b) => Some(b@),
                None => None,
            },
        ),
{
    let root = match base {
        Some(b) => b,
        None => String::from_str("."),
    };
    let avi = path_join(root.as_str(), "avi");
    path_join(avi.as_str(), "library")
}

/// The user's local data directory, as text.
///
/// Trusted: `dirs::data_local_dir()`, shown with `to_string_lossy`; it
/// depends on the environment and the platform, so nothing is stated of it.
#[verifier::external_body]
fn data_local_dir() -> (r: Option<String>) {
    dirs::data_local_dir().map(|p| p.to_string_lossy().into_owned())
}

/// The directory where the script library lives: `avi/library` under the
/// user's local data directory, or under `.` when it is unknown.
pub fn get_lib_path() -> (r: String)
    ensures
        exists|base: Option<Seq<char>>| r@ == library_path_under(base),
{
    let base = data_local_dir();
    let ghost b = match &base {
        Some(x) => Some(x@),
        None => None,
    };
    let r = library_path_from(base);
    assert(r@ == library_path_under(b));
    r
}

/// The scripts a library manager installs, each as name and content.
pub struct AviScriptLibraryManager {
    library_dir: String,
    embedded_scripts: Vec<(String, String)>,
}

/// The names and contents of a list of scripts.
pub open spec fn scripts_view(s: Seq<(String, String)>) -> Seq<(Seq<char>, Seq<char>)> {
    s.map_values(|e: (String, String)| (e.0@, e.1@))
}

/// No script name occurs twice.
pub open spec fn names_unique(s: Seq<(Seq<char>, Seq<char>)>) -> bool {
    forall|i: int, j: int| 0 <= i < j < s.len() ==> s[i].0 != s[j].0
}

/// The scripts with `name` given `content`: the entry of that name changes
/// in place, or a new entry is added at the end.
pub open spec fn register_spec(
    s: Seq<(Seq<char>, Seq<char>)>,
    name: Seq<char>,
    content: Seq<char>,
) -> Seq<(Seq<char>, Seq<char>)> {
    if exists|i: int| 0 <= i < s.len() && #[trigger] s[i].0 == name {
        let i = choose|i: int| 0 <= i < s.len() && #[trigger] s[i].0 == name;
        s.update(i, (name, content))
    } else {
        s.push((name, content))
    }
}

/// Whether a script must be written: when forced, when its file is missing,
/// or when the file differs from the script.
pub open spec fn should_update(force: bool, existing: Option<Seq<char>>, content: Seq<char>) -> bool {
    force || match existing {
        None => true,
        Some(e) => e != content,
    }
}

/// The names of the scripts that must be written, in order.
pub open spec fn updates_spec(
    s: Seq<(Seq<char>, Seq<char>)>,
    force: bool,
    existing: Seq<Option<Seq<char>>>,
) -> Seq<Seq<char>>
    decreases s.len(),
{
    if s.len() == 0 {
        Seq::empty()
    } else {
        let n = (s.len() - 1) as int;
        let rest = updates_spec(s.take(n), force, existing.take(n));
        if should_update(force, existing[n], s[n].1) {
            rest.push(s[n].0)
        } else {
            rest
        }
    }
}

/// The views of a list of optional texts.
pub open spec fn opt_views(v: Seq<Option<String>>) -> Seq<Option<Seq<char>>> {
    v.map_values(
        |o: Option<String>|
            match o {
                Some(x) => Some(x@),
                None => None,
            },
    )
}

impl AviScriptLibraryManager {
    /// The directory the scripts are installed in.
    pub closed spec fn dir(&self) -> Seq<char> {
        self.library_dir@
    }

    /// The registered scripts, as names and contents.
    pub closed spec fn scripts(&self) -> Seq<(Seq<char>, Seq<char>)> {
        scripts_view(self.embedded_scripts@)
    }

    /// No script is registered twice.
    pub open spec fn wf(&self) -> bool {
        names_unique(self.scripts())
    }

    /// A manager for the library in `library_dir`, with no scripts.
    pub fn new(library_dir: String) -> (r: Self)
        ensures
            r.wf(),
            r.dir() == library_dir@,
            r.scripts().len() == 0,
    {
        let r = AviScriptLibraryManager { library_dir, embedded_scripts: Vec::new() };
        assert(r.scripts() =~= Seq::<(Seq<char>, Seq<char>)>::empty());
        r
    }

    /// Registers the script `name` with `content`, replacing a script of the
    /// same name.
    pub fn register_script(&mut self, name: &str, content: &str) -> (r: &mut Self)
        requires
            old(self).wf(),
        ensures
            r.wf(),
            r.dir() == old(self).dir(),
            r.scripts() == register_spec(old(self).scripts(), name@, content@),
            *final(self) == *final(r),
    {
        self.insert_script(name, content);
        self
    }

    /// Registers the script `name` with `content` in place.
    fn insert_script(&mut self, name: &str, content: &str)
        requires
            old(self).wf(),
        ensures
            final(self).wf(),
            final(self).dir() == old(self).dir(),
            final(self).scripts() == register_spec(old(self).scripts(), name@, content@),
    {
        let ghost s = self.scripts();
        let mut i: usize = 0;
        while i < self.embedded_scripts.len()
            invariant
                s == scripts_view(self.embedded_scripts@),
                s == old(self).scripts(),
                names_unique(s),
                self.dir() == old(self).dir(),
                i <= self.embedded_scripts.len(),
                forall|j: int| 0 <= j < i ==> s[j].0 != name@,
            decreases self.embedded_scripts.len() - i,
        {
            if str_equal(self.embedded_scripts[i].0.as_str(), name) {
                let _old = self.embedded_scripts.remove(i);
                self.embedded_scripts.insert(i, (to_owned_string(name), to_owned_string(content)));
                proof {
                    assert(s[i as int].0 == name@);
                    let k = choose|k: int| 0 <= k < s.len() && #[trigger] s[k].0 == name@;
                    if k != i {
                        assert(s[k].0 == s[i as int].0);
                    }
                    assert(self.scripts() =~= s.update(i as int, (name@, content@)));
                    let t = self.scripts();
                    assert forall|a: int, b: int| 0 <= a < b < t.len() implies t[a].0 != t[b].0 by {
                        if a != i && b != i {
                            assert(t[a] == s[a] && t[b] == s[b]);
                        } else if a == i {
                            assert(t[b] == s[b]);
                        } else {
                            assert(t[a] == s[a]);
                        }
                    }
                }
                return;
            }
            i += 1;
        }
        self.embedded_scripts.push((to_owned_string(name), to_owned_string(content)));
        proof {
            assert(self.scripts() =~= s.push((name@, content@)));
            let t = self.scripts();
            assert forall|a: int, b: int| 0 <= a < b < t.len() implies t[a].0 != t[b].0 by {
                assert(t[a] == s[a]);
                if b < s.len() {
                    assert(t[b] == s[b]);
                }
            }
        }
    }

    /// Registers each script in turn, later ones replacing earlier ones of
    /// the same name.
    pub fn register_scripts(&mut self, scripts: &[(&str, &str)]) -> (r: &mut Self)
        requires
            old(self).wf(),
        ensures
            r.wf(),
            r.dir() == old(self).dir(),
            r.scripts() == register_all(old(self).scripts(), scripts@),
            *final(self) == *final(r),
    {
        let mut i: usize = 0;
        while i < scripts.len()
            invariant
                self.wf(),
                self.dir() == old(self).dir(),
                i <= scripts.len(),
                self.scripts() == register_all(old(self).scripts(), scripts@.take(i as int)),
            decreases scripts.len() - i,
        {
            let (name, content) = scripts[i];
            self.insert_script(name, content);
            proof {
                assert(scripts@.take(i + 1).drop_last() =~= scripts@.take(i as int));
            }
            i += 1;
        }
        assert(scripts@.take(scripts.len() as int) =~= scripts@);
        self
    }

    /// Where the script `script_name` is installed.
    pub fn get_script_path(&self, script_name: &str) -> (r: String)
        ensures
            r@ == joined_path(self.dir(), script_name@),
    {
        path_join(self.library_dir.as_str(), script_name)
    }

    /// The directory the scripts are installed in.
    pub fn library_dir(&self) -> (r: &str)
        ensures
            r@ == self.dir(),
    {
        self.library_dir.as_str()
    }

    /// The registered scripts, as names and contents.
    pub fn embedded_scripts(&self) -> (r: &Vec<(String, String)>)
        ensures
            scripts_view(r@) == self.scripts(),
    {
        &self.embedded_scripts
    }

    /// The names of the scripts to write, given what each script's file
    /// holds now (`None` for a missing file): all of them when `force`, else
    /// those whose file is missing or differs.
    pub fn update_scripts(&self, force: bool, existing: &Vec<Option<String>>) -> (r: Vec<String>)
        requires
            existing.len() == self.scripts().len(),
        ensures
            crate::text::views(r@) == updates_spec(self.scripts(), force, opt_views(existing@)),
    {
        let ghost s = self.scripts();
        let ghost ex = opt_views(existing@);
        let mut out: Vec<String> = Vec::new();
        let mut i: usize = 0;
        while i < self.embedded_scripts.len()
            invariant
                s == scripts_view(self.embedded_scripts@),
                ex == opt_views(existing@),
                existing.len() == s.len(),
                i <= s.len(),
                crate::text::views(out@) == updates_spec(s.take(i as int), force, ex.take(i as int)),
            decreases s.len() - i,
        {
            let content = &self.embedded_scripts[i].1;
            let update = if force {
                true
            } else {
                match &existing[i] {
                    None => true,
                    Some(e) => !(*e == *content),
                }
            };
            proof {
                assert(s.take(i + 1).take(i as int) =~= s.take(i as int));
                assert(ex.take(i + 1).take(i as int) =~= ex.take(i as int));
                assert(s.take(i + 1)[i as int] == s[i as int]);
                assert(ex.take(i + 1)[i as int] == ex[i as int]);
            }
            if update {
                let ghost before = out@;
                out.push(self.embedded_scripts[i].0.clone());
                assert(crate::text::views(out@) =~= crate::text::views(before).push(s[i as int].0));
            }
            i += 1;
        }
        assert(s.take(s.len() as int) =~= s);
        assert(ex.take(ex.len() as int) =~= ex);
        out
    }

    /// The names of the scripts to install: those whose file is missing or
    /// differs from the script.
    pub fn install_scripts(&self, existing: &Vec<Option<String>>) -> (r: Vec<String>)
        requires
            existing.len() == self.scripts().len(),
        ensures
            crate::text::views(r@) == updates_spec(self.scripts(), false, opt_views(existing@)),
    {
        self.update_scripts(false, existing)
    }
}

/// The names of the directory entries that are script files: plain files
/// whose name ends in `.avi`, in the order of the entries.
pub open spec fn script_files_spec(entries: Seq<(Seq<char>, bool)>) -> Seq<Seq<char>>
    decreases entries.len(),
{
    if entries.len() == 0 {
        Seq::empty()
    } else {
        let rest = script_files_spec(entries.drop_last());
        let e = entries.last();
        if e.1 && ends_with_spec(e.0, ".avi"@) {
            rest.push(e.0)
        } else {
            rest
        }
    }
}

/// The scripts available in a library directory, from its entries given as
/// name and whether the entry is a plain file.
pub fn select_script_files(entries: &Vec<(String, bool)>) -> (r: Vec<String>)
    ensures
        crate::text::views(r@) == script_files_spec(
            entries@.map_values(|e: (String, bool)| (e.0@, e.1)),
        ),
{
    let ghost es = entries@.map_values(|e: (String, bool)| (e.0@, e.1));
    let mut out: Vec<String> = Vec::new();
    let mut i: usize = 0;
    while i < entries.len()
        invariant
            es == entries@.map_values(|e: (String, bool)| (e.0@, e.1)),
            i <= entries.len(),
            crate::text::views(out@) == script_files_spec(es.take(i as int)),
        decreases entries.len() - i,
    {
        proof {
            assert(es.take(i + 1).drop_last() =~= es.take(i as int));
            assert(es.take(i + 1).last() == es[i as int]);
        }
        if entries[i].1 && ends_with(entries[i].0.as_str(), ".avi") {
            let ghost before = out@;
            out.push(entries[i].0.clone());
            assert(crate::text::views(out@) =~= crate::text::views(before).push(entries@[i as int].0@));
        }
        i += 1;
    }
    assert(es.take(entries.len() as int) =~= es);
    out
}

/// `x` ends in `.avi`.
spec fn avi_name(x: Seq<char>) -> bool {
    x.len() >= 4 && x.subrange(x.len() - 4, x.len() as int) == seq!['.', 'a', 'v', 'i']
}

/// The scripts listed in a directory are exactly its plain files whose name
/// ends in `.avi`: each listed name is such a file, and each such file is
/// listed.
pub proof fn law_script_files(entries: Seq<(Seq<char>, bool)>)
    ensures
        forall|k: int|
            0 <= k < script_files_spec(entries).len() ==> {
                let x = #[trigger] script_files_spec(entries)[k];
                &&& x.len() >= 4
                &&& x.subrange(x.len() - 4, x.len() as int) == seq!['.', 'a', 'v', 'i']
                &&& exists|i: int| 0 <= i < entries.len() && #[trigger] entries[i] == (x, true)
            },
        forall|i: int|
            0 <= i < entries.len() && (#[trigger] entries[i]).1 && entries[i].0.len() >= 4
                && entries[i].0.subrange(entries[i].0.len() - 4, entries[i].0.len() as int)
                == seq!['.', 'a', 'v', 'i'] ==> script_files_spec(entries).contains(entries[i].0),
    decreases entries.len(),
{
    reveal_strlit(".avi");
    assert(".avi"@ =~= seq!['.', 'a', 'v', 'i']);
    assert forall|x: Seq<char>| ends_with_spec(x, ".avi"@) == avi_name(x) by {
        if x.len() >= 4 {
            assert(x.len() - 4 + ".avi"@.len() == x.len());
        }
    }
    if entries.len() > 0 {
        let d = entries.drop_last();
        let e = entries.last();
        let n = entries.len() - 1;
        law_script_files(d);
        let rest = script_files_spec(d);
        let all = script_files_spec(entries);
        assert forall|k: int| 0 <= k < all.len() implies {
            let x = #[trigger] all[k];
            &&& x.len() >= 4
            &&& x.subrange(x.len() - 4, x.len() as int) == seq!['.', 'a', 'v', 'i']
            &&& exists|i: int| 0 <= i < entries.len() && #[trigger] entries[i] == (x, true)
        } by {
            if k < rest.len() {
                assert(all[k] == rest[k]);
                let i = choose|i: int| 0 <= i < d.len() && #[trigger] d[i] == (rest[k], true);
                assert(entries[i] == d[i]);
            } else {
                assert(all[k] == e.0);
                assert(entries[n] == e);
            }
        }
        assert forall|i: int|
            0 <= i < entries.len() && (#[trigger] entries[i]).1 && entries[i].0.len() >= 4
                && entries[i].0.subrange(entries[i].0.len() - 4, entries[i].0.len() as int)
                == seq!['.', 'a', 'v', 'i'] implies all.contains(entries[i].0) by {
            if i < n {
                assert(d[i] == entries[i]);
                assert(rest.contains(entries[i].0));
                let k = choose|k: int| 0 <= k < rest.len() && rest[k] == entries[i].0;
                if e.1 && ends_with_spec(e.0, ".avi"@) {
                    assert(all[k] == rest[k]);
                } else {
                    assert(all == rest);
                }
            } else {
                assert(entries[i] == e);
                assert(avi_name(e.0));
                assert(all[rest.len() as int] == e.0);
            }
        }
    }
}

/// The scripts after registering each of `new` in turn.
pub open spec fn register_all(
    s: Seq<(Seq<char>, Seq<char>)>,
    new: Seq<(&str, &str)>,
) -> Seq<(Seq<char>, Seq<char>)>
    decreases new.len(),
{
    if new.len() == 0 {
        s
    } else {
        register_spec(register_all(s, new.drop_last()), new.last().0@, new.last().1@)
    }
}

/// The name under which the configuration script is installed.
pub fn config_script_name() -> (r: &'static str)
    ensures
        r@ == "config.avi"@,
{
    "config.avi"
}

/// The library manager set up at start in the directory `library_dir`: when
/// the library does not exist yet it holds the configuration script
/// `config_script` under the name `config.avi`.
pub fn initialize_avi_library_in(library_dir: String, library_exists: bool, config_script: &str) -> (r:
    AviScriptLibraryManager)
    ensures
        r.wf(),
        r.dir() == library_dir@,
        library_exists ==> r.scripts().len() == 0,
        !library_exists ==> r.scripts() == seq![("config.avi"@, config_script@)],
{
    let mut manager = AviScriptLibraryManager::new(library_dir);
    if !library_exists {
        let name = config_script_name();
        let entries = [(name, config_script)];
        assert(manager.scripts() =~= Seq::<(Seq<char>, Seq<char>)>::empty());
        manager.register_scripts(&entries);
        proof {
            let s = Seq::<(Seq<char>, Seq<char>)>::empty();
            let new = entries@;
            assert(new.len() == 1);
            assert(new.drop_last() =~= Seq::<(&str, &str)>::empty());
            assert(new.last() == (name, config_script));
            assert(register_all(s, new.drop_last()) == s);
            assert(register_all(s, new) == register_spec(s, "config.avi"@, config_script@));
            assert(register_spec(s, "config.avi"@, config_script@) =~= seq![("config.avi"@, config_script@)]);
        }
    }
    manager
}

/// The library manager set up at start: it installs into the library path,
/// and when the library does not exist yet it holds the configuration script
/// `config_script` under the name `config.avi`.
pub fn initialize_avi_library(library_exists: bool, config_script: &str) -> (r:
    AviScriptLibraryManager)
    ensures
        r.wf(),
        exists|base: Option<Seq<char>>| r.dir() == library_path_under(base),
        library_exists ==> r.scripts().len() == 0,
        !library_exists ==> r.scripts() == seq![("config.avi"@, config_script@)],
{
    initialize_avi_library_in(get_lib_path(), library_exists, config_script)
}

// ---------------------------------------------------------------------------
// Laws
// ---------------------------------------------------------------------------

/// Registering a script twice under one name is the same as registering the
/// second content once.
pub proof fn law_register_twice(
    s: Seq<(Seq<char>, Seq<char>)>,
    name: Seq<char>,
    c1: Seq<char>,
    c2: Seq<char>,
)
    requires
        names_unique(s),
    ensures
        register_spec(register_spec(s, name, c1), name, c2) == register_spec(s, name, c2),
{
    let once = register_spec(s, name, c1);
    if exists|i: int| 0 <= i < s.len() && #[trigger] s[i].0 == name {
        let i = choose|i: int| 0 <= i < s.len() && #[trigger] s[i].0 == name;
        assert(once[i].0 == name);
        let k = choose|k: int| 0 <= k < once.len() && #[trigger] once[k].0 == name;
        if k != i {
            assert(once[k] == s[k]);
        }
        assert(once.update(i, (name, c2)) =~= s.update(i, (name, c2)));
    } else {
        let n = s.len() as int;
        assert(once[n].0 == name);
        let k = choose|k: int| 0 <= k < once.len() && #[trigger] once[k].0 == name;
        if k != n {
            assert(once[k] == s[k]);
        }
        assert(once.update(n, (name, c2)) =~= s.push((name, c2)));
    }
}

/// Once every file holds its script, installing writes nothing.
pub proof fn law_install_idempotent(s: Seq<(Seq<char>, Seq<char>)>, existing: Seq<Option<Seq<char>>>)
    requires
        existing.len() == s.len(),
        forall|i: int| 0 <= i < s.len() ==> existing[i] == Some(#[trigger] s[i].1),
    ensures
        updates_spec(s, false, existing).len() == 0,
    decreases s.len(),
{
    if s.len() > 0 {
        let n = (s.len() - 1) as int;
        assert forall|i: int| 0 <= i < n implies existing.take(n)[i] == Some(#[trigger] s.take(n)[i].1) by {
            assert(existing.take(n)[i] == existing[i]);
            assert(s.take(n)[i] == s[i]);
        }
        assert(existing[n] == Some(s[n].1));
        law_install_idempotent(s.take(n), existing.take(n));
    }
}

/// The file contents after an update has written, for each script it
/// names, the script's content: the content where the script was written,
/// and what was there before elsewhere.
pub open spec fn files_after_update(
    s: Seq<(Seq<char>, Seq<char>)>,
    force: bool,
    existing: Seq<Option<Seq<char>>>,
) -> Seq<Option<Seq<char>>> {
    Seq::new(
        s.len(),
        |i: int|
            if should_update(force, existing[i], s[i].1) {
                Some(s[i].1)
            } else {
                existing[i]
            },
    )
}

/// A script is among those an update writes exactly when it must be
/// written: its file is missing or differs, or the update is forced.
pub proof fn law_update_names(
    s: Seq<(Seq<char>, Seq<char>)>,
    force: bool,
    existing: Seq<Option<Seq<char>>>,
    i: int,
)
    requires
        names_unique(s),
        existing.len() == s.len(),
        0 <= i < s.len(),
    ensures
        updates_spec(s, force, existing).contains(s[i].0) == should_update(
            force,
            existing[i],
            s[i].1,
        ),
    decreases s.len(),
{
    let n = (s.len() - 1) as int;
    let rest = updates_spec(s.take(n), force, existing.take(n));
    lemma_updates_names_in(s.take(n), force, existing.take(n));
    if i < n {
        assert(s.take(n)[i] == s[i]);
        assert(existing.take(n)[i] == existing[i]);
        law_update_names(s.take(n), force, existing.take(n), i);
        if should_update(force, existing[n], s[n].1) {
            assert(s[n].0 != s[i].0);
            assert(rest.push(s[n].0).contains(s[i].0) == rest.contains(s[i].0)) by {
                if rest.push(s[n].0).contains(s[i].0) {
                    let k = choose|k: int| 0 <= k < rest.len() + 1 && rest.push(s[n].0)[k] == s[i].0;
                    if k < rest.len() {
                        assert(rest[k] == s[i].0);
                    }
                }
                if rest.contains(s[i].0) {
                    let k = choose|k: int| 0 <= k < rest.len() && rest[k] == s[i].0;
                    assert(rest.push(s[n].0)[k] == s[i].0);
                }
            }
        }
    } else {
        assert(i == n);
        if should_update(force, existing[n], s[n].1) {
            assert(rest.push(s[n].0)[rest.len() as int] == s[n].0);
        } else {
            if rest.contains(s[n].0) {
                let k = choose|k: int| 0 <= k < rest.len() && rest[k] == s[n].0;
                assert(is_script_name(s.take(n), rest[k]));
                let j = choose|j: int| 0 <= j < n && #[trigger] s.take(n)[j].0 == rest[k];
                assert(s[j].0 == s.take(n)[j].0);
                assert(s[j].0 == s[n].0);
            }
        }
    }
}

/// `x` is the name of one of the scripts.
spec fn is_script_name(s: Seq<(Seq<char>, Seq<char>)>, x: Seq<char>) -> bool {
    exists|j: int| 0 <= j < s.len() && #[trigger] s[j].0 == x
}

/// Every name an update writes is the name of one of its scripts.
proof fn lemma_updates_names_in(
    s: Seq<(Seq<char>, Seq<char>)>,
    force: bool,
    existing: Seq<Option<Seq<char>>>,
)
    ensures
        forall|k: int|
            0 <= k < updates_spec(s, force, existing).len() ==> is_script_name(
                s,
                #[trigger] updates_spec(s, force, existing)[k],
            ),
    decreases s.len(),
{
    if s.len() > 0 {
        let n = (s.len() - 1) as int;
        lemma_updates_names_in(s.take(n), force, existing.take(n));
        let rest = updates_spec(s.take(n), force, existing.take(n));
        let all = updates_spec(s, force, existing);
        assert forall|k: int| 0 <= k < all.len() implies is_script_name(s, #[trigger] all[k]) by {
            if k < rest.len() {
                assert(all[k] == rest[k]);
                assert(is_script_name(s.take(n), rest[k]));
                let j = choose|j: int| 0 <= j < n && #[trigger] s.take(n)[j].0 == rest[k];
                assert(s[j].0 == s.take(n)[j].0);
            } else {
                assert(s[n].0 == all[k]);
            }
        }
    }
}

/// Installing again right after an update has written its scripts writes
/// nothing: every file then holds its script.
pub proof fn law_install_twice(
    s: Seq<(Seq<char>, Seq<char>)>,
    force: bool,
    existing: Seq<Option<Seq<char>>>,
)
    requires
        existing.len() == s.len(),
    ensures
        updates_spec(s, false, files_after_update(s, force, existing)).len() == 0,
{
    let after = files_after_update(s, force, existing);
    assert forall|i: int| 0 <= i < s.len() implies after[i] == Some(#[trigger] s[i].1) by {
        if !should_update(force, existing[i], s[i].1) {
            assert(existing[i] == Some(s[i].1));
        }
    }
    law_install_idempotent(s, after);
}

/// A forced update writes every script, in order.
pub proof fn law_force_updates_all(s: Seq<(Seq<char>, Seq<char>)>, existing: Seq<Option<Seq<char>>>)
    ensures
        updates_spec(s, true, existing) == s.map_values(|e: (Seq<char>, Seq<char>)| e.0),
    decreases s.len(),
{
    if s.len() > 0 {
        let n = (s.len() - 1) as int;
        law_force_updates_all(s.take(n), existing.take(n));
        assert(s.map_values(|e: (Seq<char>, Seq<char>)| e.0) =~= s.take(n).map_values(
            |e: (Seq<char>, Seq<char>)| e.0,
        ).push(s[n].0));
    } else {
        assert(s.map_values(|e: (Seq<char>, Seq<char>)| e.0) =~= Seq::<Seq<char>>::empty());
    }
}

} // verus!
