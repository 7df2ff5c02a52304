//! Packages: how they are loaded, searched, filtered and ordered.

use apr::listing::{list_packages, marked_names, marked_size, orphan_count, wrapping_sum};
use apr::mode::SortMode;
use apr::package::{load_packages, PkgInfo, RawPkg, Reason};
use std::collections::HashSet;

fn raw(name: &str, reason: Reason, depends: &[&str]) -> RawPkg {
    RawPkg {
        name: name.to_string(),
        version: "1.0-1".to_string(),
        desc: None,
        size: 1000,
        reason,
        depends: depends.iter().map(|s| s.to_string()).collect(),
        optdeps: Vec::new(),
    }
}

fn pkg(name: &str, version: &str, desc: &str, size: i64, orphan: bool) -> PkgInfo {
    PkgInfo {
        name: name.to_string(),
        version: version.to_string(),
        desc: desc.to_string(),
        size,
        reason: if orphan { Reason::Depend } else { Reason::Explicit },
        depends: Vec::new(),
        optdeps: Vec::new(),
        required_by: Vec::new(),
    }
}

fn shelf() -> Vec<PkgInfo> {
    vec![
        pkg("zlib", "1.3.1-2", "Compression library", 300, true),
        pkg("Bash", "5.2.037-1", "The GNU Bourne Again SHELL", 9000, false),
        pkg("attr", "2.5.2-1", "Extended attribute support", 300, true),
        pkg("less", "668-1", "A terminal based pager", 400, false),
    ]
}

#[test]
fn loading_sorts_by_name() {
    let pkgs = load_packages(&vec![
        raw("xz", Reason::Explicit, &[]),
        raw("acl", Reason::Explicit, &[]),
        raw("Zed", Reason::Explicit, &[]),
        raw("a", Reason::Explicit, &[]),
    ]);
    let names: Vec<&str> = pkgs.iter().map(|p| p.name.as_str()).collect();
    assert_eq!(names, vec!["Zed", "a", "acl", "xz"]);
}

#[test]
fn loading_turns_dependencies_round() {
    let pkgs = load_packages(&vec![
        raw("vim", Reason::Explicit, &["glibc", "acl"]),
        raw("glibc", Reason::Depend, &[]),
        raw("acl", Reason::Depend, &["glibc", "glibc"]),
        raw("old", Reason::Depend, &["nothing"]),
    ]);
    let by = |name: &str| -> Vec<String> {
        pkgs.iter().find(|p| p.name == name).map(|p| p.required_by.clone()).unwrap_or_default()
    };
    assert_eq!(by("glibc"), vec!["vim", "acl", "acl"]);
    assert_eq!(by("acl"), vec!["vim"]);
    assert!(by("vim").is_empty());
    assert!(by("old").is_empty());
}

#[test]
fn orphans_are_what_nothing_needs() {
    let pkgs = load_packages(&vec![
        raw("vim", Reason::Explicit, &["acl"]),
        raw("acl", Reason::Depend, &[]),
        raw("old", Reason::Depend, &[]),
    ]);
    let orphans: Vec<&str> =
        pkgs.iter().filter(|p| p.is_orphan()).map(|p| p.name.as_str()).collect();
    assert_eq!(orphans, vec!["old"]);
    assert_eq!(orphan_count(&pkgs), 1);
}

#[test]
fn loading_keeps_the_fields() {
    let pkgs = load_packages(&vec![RawPkg {
        name: "p".to_string(),
        version: "2:3-4".to_string(),
        desc: Some("text".to_string()),
        size: -7,
        reason: Reason::Depend,
        depends: vec!["d".to_string()],
        optdeps: vec!["o1".to_string(), "o2".to_string()],
    }]);
    let p = &pkgs[0];
    assert_eq!((p.name.as_str(), p.version.as_str(), p.desc.as_str()), ("p", "2:3-4", "text"));
    assert_eq!((p.size, p.reason), (-7, Reason::Depend));
    assert_eq!(p.depends, vec!["d"]);
    assert_eq!(p.optdeps, vec!["o1", "o2"]);
    assert!(p.required_by.is_empty());
}

#[test]
fn missing_descriptions_are_empty() {
    assert_eq!(load_packages(&vec![raw("p", Reason::Explicit, &[])])[0].desc, "");
    assert!(load_packages(&Vec::new()).is_empty());
}

#[test]
fn equal_names_keep_their_order() {
    let mut first = raw("same", Reason::Explicit, &[]);
    first.size = 1;
    let mut second = raw("same", Reason::Explicit, &[]);
    second.size = 2;
    let pkgs = load_packages(&vec![first, second]);
    assert_eq!((pkgs[0].size, pkgs[1].size), (1, 2));
}

#[test]
fn listing_by_name_goes_by_code_points() {
    assert_eq!(list_packages(&shelf(), "", false, SortMode::Name), vec![1, 2, 3, 0]);
}

#[test]
fn listing_by_size_puts_the_largest_first() {
    assert_eq!(list_packages(&shelf(), "", false, SortMode::Size), vec![1, 3, 0, 2]);
}

#[test]
fn listing_orphans_first() {
    assert_eq!(list_packages(&shelf(), "", false, SortMode::OrphansFirst), vec![2, 0, 1, 3]);
}

#[test]
fn listing_orphans_only() {
    assert_eq!(list_packages(&shelf(), "", true, SortMode::Name), vec![2, 0]);
    assert_eq!(list_packages(&shelf(), "lib", true, SortMode::Name), vec![0]);
}

#[test]
fn searches_look_at_name_description_and_version() {
    assert_eq!(list_packages(&shelf(), "les", false, SortMode::Name), vec![3]);
    assert_eq!(list_packages(&shelf(), "bourne", false, SortMode::Name), vec![1]);
    assert_eq!(list_packages(&shelf(), "1.3", false, SortMode::Name), vec![0]);
    assert_eq!(list_packages(&shelf(), "-1", false, SortMode::Name), vec![1, 2, 3]);
    assert!(list_packages(&shelf(), "nowhere", false, SortMode::Name).is_empty());
}

#[test]
fn searches_ignore_case() {
    for q in ["bash", "BASH", "bAsH"] {
        assert_eq!(list_packages(&shelf(), q, false, SortMode::Name), vec![1]);
    }
    let pkgs = vec![pkg("p", "1", "ΟΔΟΣ ÄRGER", 0, false)];
    assert_eq!(list_packages(&pkgs, "ärger", false, SortMode::Name), vec![0]);
    assert_eq!(list_packages(&pkgs, "οδος", false, SortMode::Name), vec![0]);
}

#[test]
fn typing_on_only_shrinks_the_list() {
    let orders = [SortMode::Name, SortMode::Size, SortMode::OrphansFirst];
    for query in ["-1", "BASH", "Library", "ess", "a te"] {
        for end in 1..=query.len() {
            for (from, to) in [(false, false), (false, true), (true, true)] {
                for k in 0..3 {
                    let wide = list_packages(&shelf(), &query[..end - 1], from, orders[k]);
                    let narrow = list_packages(&shelf(), &query[..end], to, orders[2 - k]);
                    assert!(narrow.iter().all(|i| wide.contains(i)));
                    assert!(narrow.len() <= wide.len());
                }
            }
        }
    }
}

#[test]
fn the_order_only_reorders_the_list() {
    for query in ["", "lib", "-1"] {
        let mut expected = list_packages(&shelf(), query, false, SortMode::Name);
        expected.sort();
        for order in [SortMode::Size, SortMode::OrphansFirst] {
            let mut list = list_packages(&shelf(), query, false, order);
            list.sort();
            assert_eq!(list, expected);
        }
    }
}

#[test]
fn marked_names_are_sorted() {
    let marked: HashSet<usize> = [0, 1, 3].into_iter().collect();
    assert_eq!(marked_names(&shelf(), &marked), vec!["Bash", "less", "zlib"]);
    assert!(marked_names(&shelf(), &HashSet::new()).is_empty());
}

#[test]
fn marked_sizes_add_up() {
    let marked: HashSet<usize> = [0, 1].into_iter().collect();
    assert_eq!(marked_size(&shelf(), &marked), 9300);
    assert_eq!(marked_size(&shelf(), &HashSet::new()), 0);
}

#[test]
fn sums_that_do_not_fit_wrap() {
    assert_eq!(wrapping_sum(i64::MAX, 1), i64::MIN);
    assert_eq!(wrapping_sum(-5, 3), -2);
}
