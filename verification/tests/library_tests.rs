use avicore::library::{
    config_script_name, get_lib_path, initialize_avi_library, initialize_avi_library_in,
    library_path_from, path_join,
    AviScriptLibraryManager,
};

fn s(x: &str) -> String {
    String::from(x)
}

#[test]
fn path_join_like_unix_paths() {
    assert_eq!(path_join("/a/b", "c"), "/a/b/c");
    assert_eq!(path_join("/a/b/", "c"), "/a/b/c");
    assert_eq!(path_join("", "c"), "c");
    assert_eq!(path_join("/a", "/etc"), "/etc");
}

#[test]
fn library_path_under_data_dir() {
    assert_eq!(library_path_from(Some(s("/home/u/.local/share"))), "/home/u/.local/share/avi/library");
    assert_eq!(library_path_from(None), "./avi/library");
    assert!(get_lib_path().ends_with("avi/library"));
}

#[test]
fn new_manager_is_empty() {
    let m = AviScriptLibraryManager::new(s("/lib"));
    assert_eq!(m.library_dir(), "/lib");
    assert!(m.embedded_scripts().is_empty());
    assert_eq!(m.get_script_path("x.avi"), "/lib/x.avi");
}

#[test]
fn register_replaces_same_name() {
    let mut m = AviScriptLibraryManager::new(s("/lib"));
    m.register_script("a.avi", "one").register_script("b.avi", "two");
    m.register_script("a.avi", "three");
    assert_eq!(
        m.embedded_scripts(),
        &vec![(s("a.avi"), s("three")), (s("b.avi"), s("two"))]
    );
}

#[test]
fn register_scripts_in_turn() {
    let mut m = AviScriptLibraryManager::new(s("/lib"));
    m.register_scripts(&[("a.avi", "1"), ("b.avi", "2"), ("a.avi", "3")]);
    assert_eq!(
        m.embedded_scripts(),
        &vec![(s("a.avi"), s("3")), (s("b.avi"), s("2"))]
    );
}

#[test]
fn install_writes_missing_or_changed_scripts() {
    let mut m = AviScriptLibraryManager::new(s("/lib"));
    m.register_scripts(&[("a.avi", "1"), ("b.avi", "2"), ("c.avi", "3")]);
    let existing = vec![Some(s("1")), None, Some(s("old"))];
    assert_eq!(m.install_scripts(&existing), vec![s("b.avi"), s("c.avi")]);
    assert_eq!(m.update_scripts(false, &existing), vec![s("b.avi"), s("c.avi")]);
    assert_eq!(m.update_scripts(true, &existing), vec![s("a.avi"), s("b.avi"), s("c.avi")]);
}

#[test]
fn install_after_install_writes_nothing() {
    let mut m = AviScriptLibraryManager::new(s("/lib"));
    m.register_scripts(&[("a.avi", "1"), ("b.avi", "2")]);
    let after = vec![Some(s("1")), Some(s("2"))];
    assert!(m.install_scripts(&after).is_empty());
}

#[test]
fn initialize_library() {
    assert_eq!(config_script_name(), "config.avi");
    let fresh = initialize_avi_library(false, "print(1)");
    assert_eq!(fresh.embedded_scripts(), &vec![(s("config.avi"), s("print(1)"))]);
    assert!(fresh.library_dir().ends_with("avi/library"));
    let existing = initialize_avi_library(true, "print(1)");
    assert!(existing.embedded_scripts().is_empty());
}

#[test]
fn initialize_library_in_a_given_directory() {
    let fresh = initialize_avi_library_in(s("/tmp/lib"), false, "x");
    assert_eq!(fresh.library_dir(), "/tmp/lib");
    assert_eq!(fresh.embedded_scripts(), &vec![(s("config.avi"), s("x"))]);
    assert!(initialize_avi_library_in(s("/tmp/lib"), true, "x").embedded_scripts().is_empty());
}

#[test]
fn writing_the_updated_scripts_makes_a_second_install_write_nothing() {
    let mut m = AviScriptLibraryManager::new(s("/lib"));
    m.register_scripts(&[("a.avi", "1"), ("b.avi", "2"), ("c.avi", "3")]);
    let mut files = vec![Some(s("1")), None, Some(s("old"))];
    let written = m.install_scripts(&files);
    for (i, (name, content)) in m.embedded_scripts().iter().enumerate() {
        if written.contains(name) {
            files[i] = Some(content.clone());
        }
    }
    assert!(m.install_scripts(&files).is_empty());
}
