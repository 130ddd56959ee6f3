use std::cell::Cell;

use dv_format::error::FormatError;
use dv_format::targets::{normalize_target, target_parser, PackageNameCache};
use dv_format::workspace::{member_names, target_source_dirs, PackageInfo};

fn names(n: &[&str]) -> Vec<String> {
    n.iter().map(|s| s.to_string()).collect()
}

fn package(id: &str, name: &str, srcs: &[&str]) -> PackageInfo {
    PackageInfo { id: id.to_string(), name: name.to_string(), src_paths: names(srcs) }
}

#[test]
fn normalization_strips_one_marker_and_one_separator() {
    assert_eq!(normalize_target("./core/"), "core");
    assert_eq!(normalize_target(".\\core\\"), "core");
    assert_eq!(normalize_target("core"), "core");
    assert_eq!(normalize_target("core//"), "core/");
    assert_eq!(normalize_target("././core"), "./core");
    assert_eq!(normalize_target("./"), "");
}

#[test]
fn normalization_is_idempotent_on_ordinary_names() {
    for s in ["./utils/", "utils", ".\\vstd", "a/b/"] {
        let once = normalize_target(s);
        assert_eq!(normalize_target(&once), once);
    }
}

#[test]
fn parser_accepts_known_names_only() {
    let known = names(&["core", "utils"]);
    assert_eq!(target_parser("./core/", &known), Ok("core".to_string()));
    assert_eq!(target_parser("utils", &known), Ok("utils".to_string()));
    assert_eq!(target_parser("./nope", &known), Err("Unknown target: ./nope".to_string()));
    assert_eq!(target_parser("cor", &known), Err("Unknown target: cor".to_string()));
}

#[test]
fn package_names_are_queried_once() {
    let calls = Cell::new(0usize);
    let mut cache = PackageNameCache::new();
    for _ in 0..3 {
        let got = cache.all_targets(|| {
            calls.set(calls.get() + 1);
            names(&["core", "utils"])
        });
        assert_eq!(got, names(&["core", "utils"]));
    }
    assert_eq!(calls.get(), 1);
}

#[test]
fn members_are_named_by_their_packages() {
    let pkgs = vec![package("id-u", "utils", &[]), package("id-c", "core", &[])];
    assert_eq!(member_names(&names(&["id-c", "id-u"]), &pkgs), Ok(names(&["core", "utils"])));
    assert_eq!(member_names(&names(&["id-c", "id-x"]), &pkgs), Err(FormatError::MetadataUnavailable));
    assert_eq!(member_names(&names(&[]), &pkgs), Ok(names(&[])));
}

#[test]
fn all_packages_when_no_target_is_named() {
    let pkgs = vec![
        package("a", "core", &["/w/core/src/lib.rs", "/w/core/src/bin/tool.rs"]),
        package("b", "utils", &["/w/utils/src/lib.rs"]),
    ];
    assert_eq!(
        target_source_dirs(&pkgs, &names(&[])),
        Ok(names(&["/w/core/src", "/w/core/src/bin", "/w/utils/src"]))
    );
    assert_eq!(target_source_dirs(&pkgs, &names(&["utils"])), Ok(names(&["/w/utils/src"])));
}

#[test]
fn unknown_target_fails_the_run() {
    let pkgs = vec![package("a", "core", &["/w/core/src/lib.rs"])];
    assert_eq!(
        target_source_dirs(&pkgs, &names(&["core", "ghost"])),
        Err(FormatError::UnknownTarget("ghost".to_string()))
    );
}
