use cog::naming::{ancestors, last_segment, normalize, parent_qname, path_to_qualified};

// ── last_segment ──────────────────────────────────────────────────

#[test]
fn last_segment_qualified() {
    assert_eq!(
        last_segment("cog::repo::sqlite::SqliteRepository"),
        "SqliteRepository"
    );
}

#[test]
fn last_segment_bare() {
    assert_eq!(last_segment("foo"), "foo");
}

// ── parent_qname ──────────────────────────────────────────────────

#[test]
fn parent_qname_qualified() {
    assert_eq!(
        parent_qname("cog::repo::sqlite::SqliteRepository"),
        Some("cog::repo::sqlite")
    );
}

#[test]
fn parent_qname_single() {
    assert_eq!(parent_qname("foo"), None);
}

#[test]
fn parent_qname_two_segments() {
    assert_eq!(parent_qname("a::b"), Some("a"));
}

// ── ancestors ─────────────────────────────────────────────────────

#[test]
fn ancestors_multi() {
    assert_eq!(ancestors("a::b::c"), vec!["a", "a::b"]);
}

#[test]
fn ancestors_single() {
    assert!(ancestors("a").is_empty());
}

#[test]
fn ancestors_two() {
    assert_eq!(ancestors("a::b"), vec!["a"]);
}

// ── normalize ─────────────────────────────────────────────────────

#[test]
fn normalize_dots() {
    assert_eq!(normalize("pkg.mod.fn"), "pkg::mod::fn");
}

#[test]
fn normalize_already_canonical() {
    assert_eq!(normalize("pkg::mod::fn"), "pkg::mod::fn");
}

#[test]
fn normalize_mixed() {
    assert_eq!(normalize("a.b::c"), "a::b::c");
}

// ── path_to_qualified ─────────────────────────────────────────────

#[test]
fn path_strips_src_prefix() {
    assert_eq!(path_to_qualified("src/repo/sqlite.rs"), "repo::sqlite");
}

#[test]
fn path_strips_lib_prefix() {
    assert_eq!(path_to_qualified("lib/utils.ex"), "utils");
}

#[test]
fn path_no_prefix() {
    assert_eq!(path_to_qualified("top/mod.rs"), "top::mod");
}

#[test]
fn path_nested_dirs() {
    assert_eq!(path_to_qualified("src/a/b/c.go"), "a::b::c");
}

// ── further cases ─────────────────────────────────────────────────

#[test]
fn last_segment_trailing_separator_is_empty() {
    assert_eq!(last_segment("a::"), "");
}

#[test]
fn parent_of_triple_colon_takes_last_match() {
    assert_eq!(parent_qname("a:::b"), Some("a:"));
    assert_eq!(last_segment("a:::b"), "b");
}

#[test]
fn ancestors_leading_separator() {
    assert_eq!(ancestors("::b"), vec!["", "b"]);
}

#[test]
fn path_extension_dot_in_directory() {
    assert_eq!(path_to_qualified("pkg/a.b/c"), "a.b::c");
    assert_eq!(path_to_qualified("src/v1.2/README"), "v1.2::README");
    assert_eq!(path_to_qualified("src/v1.2/main.rs"), "v1.2::main");
    assert_eq!(path_to_qualified("srcx/y.rs"), "srcx::y");
}

#[test]
fn parent_and_last_segment_rebuild_the_name() {
    for q in ["a::b::c", "x::y", "m:::n"] {
        let p = parent_qname(q).unwrap();
        assert_eq!(format!("{}::{}", p, last_segment(q)), q);
    }
}

#[test]
fn normalize_is_idempotent_on_examples() {
    for q in ["a.b.c", "a::b", "x.y::z", ""] {
        assert_eq!(normalize(&normalize(q)), normalize(q));
    }
}
