use std::cell::RefCell;
use std::collections::HashSet;

use dv_format::locator::{choose_powershell, locate, locate_from_env, locate_from_hints, locate_from_path, Shell};

fn fs(files: &[&str]) -> HashSet<String> {
    files.iter().map(|s| s.to_string()).collect()
}

fn dirs(d: &[&str]) -> Vec<String> {
    d.iter().map(|s| s.to_string()).collect()
}

#[test]
fn found_only_in_override_dirs() {
    let regular = fs(&["/opt/tools/verusfmt"]);
    let probe = |p: &String| regular.contains(p);
    let r = locate("verusfmt", Some("/x:/opt/tools"), &dirs(&["/h"]), Some("/usr/bin"), "/w", &probe);
    assert_eq!(r, Some("/opt/tools/verusfmt".to_string()));
}

#[test]
fn found_only_in_hint_dirs() {
    let regular = fs(&["/h2/verusfmt"]);
    let probe = |p: &String| regular.contains(p);
    let r = locate("verusfmt", Some("/x"), &dirs(&["/h1", "/h2/"]), Some("/usr/bin"), "/w", &probe);
    assert_eq!(r, Some("/h2/verusfmt".to_string()));
}

#[test]
fn found_only_on_search_path() {
    let regular = fs(&["/usr/local/bin/rustfmt"]);
    let probe = |p: &String| regular.contains(p);
    let r = locate("rustfmt", None, &dirs(&["/h"]), Some("/usr/bin:/usr/local/bin"), "/w", &probe);
    assert_eq!(r, Some("/usr/local/bin/rustfmt".to_string()));
}

#[test]
fn override_dir_wins_over_hint_dir() {
    let regular = fs(&["/env/verusfmt", "/hint/verusfmt", "/usr/bin/verusfmt"]);
    let probe = |p: &String| regular.contains(p);
    let r = locate("verusfmt", Some("/env"), &dirs(&["/hint"]), Some("/usr/bin"), "/w", &probe);
    assert_eq!(r, Some("/env/verusfmt".to_string()));
}

#[test]
fn later_strategies_are_not_probed_after_a_match() {
    let regular = fs(&["/env/verusfmt", "/hint/verusfmt"]);
    let asked: RefCell<Vec<String>> = RefCell::new(Vec::new());
    let probe = |p: &String| {
        asked.borrow_mut().push(p.clone());
        regular.contains(p)
    };
    let r = locate("verusfmt", Some("/env"), &dirs(&["/hint"]), Some("/usr/bin"), "/w", &probe);
    assert_eq!(r, Some("/env/verusfmt".to_string()));
    assert_eq!(asked.into_inner(), vec!["/env/verusfmt".to_string()]);
}

#[test]
fn a_directory_named_like_the_binary_is_skipped() {
    // "/a/verusfmt" exists but is a directory: the probe reports only regular files.
    let regular = fs(&["/b/verusfmt"]);
    let probe = |p: &String| regular.contains(p);
    let r = locate_from_hints("verusfmt", &dirs(&["/a", "/b"]), &probe);
    assert_eq!(r, Some("/b/verusfmt".to_string()));
    let none = locate_from_hints("verusfmt", &dirs(&["/a"]), &probe);
    assert_eq!(none, None);
}

#[test]
fn relative_match_is_made_absolute() {
    let regular = fs(&["./tools/../bin/verusfmt"]);
    let probe = |p: &String| regular.contains(p);
    let r = locate("verusfmt", None, &dirs(&["./tools/../bin"]), None, "/home/dev/ws", &probe);
    assert_eq!(r, Some("/home/dev/ws/bin/verusfmt".to_string()));
}

#[test]
fn unresolved_everywhere() {
    let regular = fs(&[]);
    let probe = |p: &String| regular.contains(p);
    let r = locate("verusfmt", Some("/env"), &dirs(&["/hint"]), Some("/usr/bin"), "/w", &probe);
    assert_eq!(r, None);
}

#[test]
fn unset_variables_give_no_candidates() {
    let asked: RefCell<usize> = RefCell::new(0);
    let probe = |_p: &String| {
        *asked.borrow_mut() += 1;
        true
    };
    assert_eq!(locate_from_env("fmt", None, &probe), None);
    assert_eq!(locate_from_path("fmt", None, &probe), None);
    assert_eq!(*asked.borrow(), 0);
}

#[test]
fn search_path_is_split_on_colons() {
    let regular = fs(&["/c/fmt"]);
    let probe = |p: &String| regular.contains(p);
    assert_eq!(locate_from_path("fmt", Some("/a::/c"), &probe), Some("/c/fmt".to_string()));
}

#[test]
fn powershell_choice() {
    assert_eq!(choose_powershell(true, true), Some(Shell::Pwsh));
    assert_eq!(choose_powershell(true, false), Some(Shell::Pwsh));
    assert_eq!(choose_powershell(false, true), Some(Shell::WindowsPowerShell));
    assert_eq!(choose_powershell(false, false), None);
    assert_eq!(Shell::Pwsh.program(), "pwsh");
    assert_eq!(Shell::WindowsPowerShell.program(), "powershell");
    assert!(Shell::WindowsPowerShell.needs_compat_warning());
    assert!(!Shell::Pwsh.needs_compat_warning());
}
