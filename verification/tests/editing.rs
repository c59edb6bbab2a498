use flake_edit::ast::{Binding, Expr, FunctionHead, Part, Position, RawToken, Span};
use flake_edit::convert::{apply_input_url_update, fixup_flake_compat_input};
use flake_edit::err::EditError;
use flake_edit::matcher::{
    collect_inputs, find_first_attrset_by_path, find_input_value_by_path, find_value_site,
    FindOutcome,
};
use flake_edit::surgeon::{insert_flake_input, replace_input_value, replace_value};
use flake_edit::upsert::upsert_flake_input;

fn chars(s: &str) -> Vec<char> {
    s.chars().collect()
}

fn text(v: &[char]) -> String {
    v.iter().collect()
}

fn span(l1: usize, c1: usize, l2: usize, c2: usize) -> Span {
    Span {
        start: Position { line: l1, column: c1 },
        end: Position { line: l2, column: c2 },
    }
}

fn raw(s: &str, l1: usize, c1: usize, l2: usize, c2: usize) -> Part {
    Part::Raw(RawToken { content: chars(s), span: span(l1, c1, l2, c2) })
}

fn kv(from: Vec<Part>, to: Expr) -> Binding {
    Binding::KeyValue { from, to: Box::new(to) }
}

fn path(segs: &[&str]) -> Vec<Vec<char>> {
    segs.iter().map(|s| chars(s)).collect()
}

/// `{ inputs = { }; outputs = { ... }: { }; }` over four lines.
fn doc_skeleton() -> (Vec<char>, Expr) {
    let buf = chars("{\n  inputs = { };\n  outputs = { ... }: { };\n}\n");
    let tree = Expr::AttrSet {
        bindings: vec![
            kv(
                vec![raw("inputs", 2, 3, 2, 9)],
                Expr::AttrSet { bindings: vec![], span: span(2, 12, 2, 16) },
            ),
            kv(
                vec![raw("outputs", 3, 3, 3, 10)],
                Expr::Function {
                    head: FunctionHead::Destructured { args: vec![] },
                    kind: chars("Function"),
                    span: span(3, 13, 3, 26),
                },
            ),
        ],
        span: span(1, 1, 5, 1),
    };
    (buf, tree)
}

/// `{ inputs.foo.url = "github:nixos/nixpkgs/nixos-22.11"; }` over three
/// lines.
fn doc_one_input() -> (Vec<char>, Expr) {
    let buf = chars("{\n  inputs.foo.url = \"github:nixos/nixpkgs/nixos-22.11\";\n}\n");
    let tree = Expr::AttrSet {
        bindings: vec![
            kv(
                vec![
                    raw("inputs", 2, 3, 2, 9),
                    raw("foo", 2, 10, 2, 13),
                    raw("url", 2, 14, 2, 17),
                ],
                Expr::Str {
                    parts: vec![raw("github:nixos/nixpkgs/nixos-22.11", 2, 21, 2, 53)],
                    span: span(2, 20, 2, 54),
                },
            ),
        ],
        span: span(1, 1, 4, 1),
    };
    (buf, tree)
}

#[test]
fn upsert_inserts_above_existing_inputs_without_blank_line() {
    let (buf, tree) = doc_skeleton();
    let url = chars("https://flakehub.com/f/NixOS/nixpkgs/0.2305.2.tar.gz");
    let out = upsert_flake_input(
        &tree,
        &chars("nixpkgs"),
        &url,
        &buf,
        &path(&["inputs", "nixpkgs", "url"]),
    )
    .unwrap();
    assert_eq!(
        text(&out),
        "{\n  inputs.nixpkgs.url = \"https://flakehub.com/f/NixOS/nixpkgs/0.2305.2.tar.gz\";\n  inputs = { };\n  outputs = { ... }: { };\n}\n"
    );
}

#[test]
fn upsert_inserts_with_blank_line_above_other_binding() {
    let buf = chars("{\n  description = \"x\";\n}\n");
    let tree = Expr::AttrSet {
        bindings: vec![
            kv(
                vec![raw("description", 2, 3, 2, 14)],
                Expr::Str { parts: vec![raw("x", 2, 20, 2, 21)], span: span(2, 19, 2, 22) },
            ),
        ],
        span: span(1, 1, 4, 1),
    };
    let out = upsert_flake_input(
        &tree,
        &chars("foo"),
        &chars("URL"),
        &buf,
        &path(&["inputs", "foo", "url"]),
    )
    .unwrap();
    // The pushed-down line keeps its exact two-space indentation, and a blank
    // line separates it from the new binding.
    assert_eq!(text(&out), "{\n  inputs.foo.url = \"URL\";\n\n  description = \"x\";\n}\n");
}

#[test]
fn upsert_replaces_matched_value_in_place() {
    let (buf, tree) = doc_one_input();
    let url = chars("https://flakehub.com/f/NixOS/nixpkgs/0.2211.0.tar.gz");
    let out = upsert_flake_input(&tree, &chars("foo"), &url, &buf, &path(
        &["inputs", "foo", "url"],
    )).unwrap();
    assert_eq!(
        text(&out),
        "{\n  inputs.foo.url = \"https://flakehub.com/f/NixOS/nixpkgs/0.2211.0.tar.gz\";\n}\n"
    );
}

#[test]
fn upsert_changes_only_the_value_span() {
    let (buf, tree) = doc_one_input();
    let url = chars("https://flakehub.com/f/NixOS/nixpkgs/0.2211.0.tar.gz");
    let out = upsert_flake_input(&tree, &chars("foo"), &url, &buf, &path(
        &["inputs", "foo", "url"],
    )).unwrap();
    // The value starts at offset 22 and ran to offset 54 in the original.
    assert_eq!(out[..22], buf[..22]);
    assert_eq!(text(&out[22..22 + url.len()]), text(&url));
    assert_eq!(out[22 + url.len()..], buf[54..]);
}

#[test]
fn upsert_twice_is_idempotent() {
    let (buf, tree) = doc_one_input();
    let url = chars("X");
    let once = upsert_flake_input(&tree, &chars("foo"), &url, &buf, &path(
        &["inputs", "foo", "url"],
    )).unwrap();
    assert_eq!(text(&once), "{\n  inputs.foo.url = \"X\";\n}\n");
    // The tree a fresh parse of `once` would report: the value span now
    // covers the single character X.
    let tree2 = Expr::AttrSet {
        bindings: vec![
            kv(
                vec![
                    raw("inputs", 2, 3, 2, 9),
                    raw("foo", 2, 10, 2, 13),
                    raw("url", 2, 14, 2, 17),
                ],
                Expr::Str { parts: vec![raw("X", 2, 21, 2, 22)], span: span(2, 20, 2, 23) },
            ),
        ],
        span: span(1, 1, 4, 1),
    };
    let twice = upsert_flake_input(&tree2, &chars("foo"), &url, &once, &path(
        &["inputs", "foo", "url"],
    )).unwrap();
    assert_eq!(text(&twice), text(&once));
}

#[test]
fn upsert_without_match_or_anchor_returns_buffer_unchanged() {
    let buf = chars("{ }\n");
    let tree = Expr::AttrSet { bindings: vec![], span: span(1, 1, 2, 1) };
    let out = upsert_flake_input(&tree, &chars("foo"), &chars("URL"), &buf, &path(
        &["inputs", "foo", "url"],
    )).unwrap();
    assert_eq!(text(&out), "{ }\n");
}

#[test]
fn find_reports_match_site() {
    let (_, tree) = doc_one_input();
    let r = find_value_site(&tree, &path(&["inputs", "foo", "url"])).unwrap();
    match r {
        FindOutcome::Matched { site: Some(tok) } => {
            assert_eq!(text(&tok.content), "github:nixos/nixpkgs/nixos-22.11");
            assert_eq!(tok.span.start.line, 2);
            assert_eq!(tok.span.start.column, 21);
        },
        _ => panic!("expected a matched site"),
    }
}

#[test]
fn find_reports_anchor_when_nothing_matches() {
    let (_, tree) = doc_one_input();
    let r = find_value_site(&tree, &path(&["inputs", "bar", "url"])).unwrap();
    match r {
        FindOutcome::NotFound { anchor: Some(tok) } => {
            assert_eq!(text(&tok.content), "inputs");
        },
        _ => panic!("expected an anchor"),
    }
}

#[test]
fn inherit_bindings_are_refused() {
    let tree = Expr::AttrSet {
        bindings: vec![Binding::Inherit { span: span(2, 3, 2, 10) }],
        span: span(1, 1, 3, 1),
    };
    let r = find_value_site(&tree, &path(&["inputs"]));
    assert_eq!(r.unwrap_err(), EditError::UnsupportedConstruct { line: 2, column: 3 });
}

#[test]
fn interpolated_value_is_refused() {
    let tree = Expr::AttrSet {
        bindings: vec![
            kv(
                vec![raw("inputs", 1, 3, 1, 9)],
                Expr::Str {
                    parts: vec![Part::Interpolation { span: span(1, 13, 1, 20) }],
                    span: span(1, 12, 1, 21),
                },
            ),
        ],
        span: span(1, 1, 2, 1),
    };
    let r = find_value_site(&tree, &path(&["inputs"]));
    assert_eq!(r.unwrap_err(), EditError::UnsupportedConstruct { line: 1, column: 13 });
}

#[test]
fn multi_part_value_is_refused() {
    let tree = Expr::AttrSet {
        bindings: vec![
            kv(
                vec![raw("inputs", 1, 3, 1, 9)],
                Expr::Str {
                    parts: vec![
                        raw("a", 1, 13, 1, 14),
                        Part::Interpolation { span: span(1, 14, 1, 20) },
                    ],
                    span: span(1, 12, 1, 21),
                },
            ),
        ],
        span: span(1, 1, 2, 1),
    };
    let r = find_value_site(&tree, &path(&["inputs"]));
    assert_eq!(r.unwrap_err(), EditError::MultiPartValue { line: 1, column: 12 });
}

#[test]
fn unsupported_leaf_kind_is_refused() {
    let tree = Expr::AttrSet {
        bindings: vec![
            kv(
                vec![raw("inputs", 1, 3, 1, 9)],
                Expr::Other { kind: chars("Int"), span: span(1, 12, 1, 13) },
            ),
        ],
        span: span(1, 1, 2, 1),
    };
    let r = find_value_site(&tree, &path(&["inputs"]));
    assert_eq!(r.unwrap_err(), EditError::UnsupportedExpressionKind {
        kind: chars("Int"),
        line: 1,
        column: 12,
    });
}

#[test]
fn replace_value_rejects_stale_span() {
    let buf = chars("short\n");
    let r = replace_value(&buf, span(9, 1, 9, 4), &chars("x"));
    assert!(matches!(r, Err(EditError::PositionNotFound { line: 9, column: 1 })));
}

#[test]
fn replace_input_value_swaps_the_literal() {
    let buf = chars("k = \"old\";\n");
    let parts = vec![raw("old", 1, 6, 1, 9)];
    let out = replace_input_value(&parts, &chars("newer"), &buf).unwrap();
    assert_eq!(text(&out), "k = \"newer\";\n");
}

#[test]
fn insert_flake_input_reindents_the_pushed_line() {
    let buf = chars("{\n    deep = 1;\n}\n");
    let anchor = RawToken { content: chars("deep"), span: span(2, 5, 2, 9) };
    let out = insert_flake_input(&anchor, &chars("a.url = \"u\";\n"), &buf).unwrap();
    assert_eq!(text(&out), "{\n    a.url = \"u\";\n\n    deep = 1;\n}\n");
}

#[test]
fn extracts_input_value_by_path() {
    let (_, tree) = doc_one_input();
    let v = find_input_value_by_path(&tree, &path(&["inputs", "foo", "url"])).unwrap();
    assert_eq!(text(&v.unwrap()), "github:nixos/nixpkgs/nixos-22.11");
    let none = find_input_value_by_path(&tree, &path(&["inputs", "bar", "url"])).unwrap();
    assert!(none.is_none());
}

#[test]
fn extraction_takes_the_first_occurrence_of_a_duplicate_path() {
    // { url = "x"; url = "y"; } — the first syntactic occurrence wins, with
    // no backtracking across siblings.
    let tree = Expr::AttrSet {
        bindings: vec![
            kv(
                vec![raw("url", 1, 3, 1, 6)],
                Expr::Str { parts: vec![raw("x", 1, 10, 1, 11)], span: span(1, 9, 1, 12) },
            ),
            kv(
                vec![raw("url", 1, 14, 1, 17)],
                Expr::Str { parts: vec![raw("y", 1, 21, 1, 22)], span: span(1, 20, 1, 23) },
            ),
        ],
        span: span(1, 1, 2, 1),
    };
    let v = find_input_value_by_path(&tree, &path(&["url"])).unwrap();
    assert_eq!(text(&v.unwrap()), "x");
}

#[test]
fn extraction_does_not_backtrack_past_a_fruitless_first_match() {
    // { a = { }; a.url = "y"; } — the first binding matching the prefix `a`
    // is descended into and taken, even though it holds no value.
    let tree = Expr::AttrSet {
        bindings: vec![
            kv(
                vec![raw("a", 1, 3, 1, 4)],
                Expr::AttrSet { bindings: vec![], span: span(1, 7, 1, 10) },
            ),
            kv(
                vec![raw("a", 1, 12, 1, 13), raw("url", 1, 14, 1, 17)],
                Expr::Str { parts: vec![raw("y", 1, 21, 1, 22)], span: span(1, 20, 1, 23) },
            ),
        ],
        span: span(1, 1, 2, 1),
    };
    let v = find_input_value_by_path(&tree, &path(&["a", "url"])).unwrap();
    assert!(v.is_none());
}

#[test]
fn extracting_an_interpolated_value_is_an_error() {
    let tree = Expr::AttrSet {
        bindings: vec![
            kv(
                vec![raw("url", 1, 1, 1, 4)],
                Expr::Str {
                    parts: vec![Part::Interpolation { span: span(1, 8, 1, 16) }],
                    span: span(1, 7, 1, 17),
                },
            ),
        ],
        span: span(1, 1, 2, 1),
    };
    let r = find_input_value_by_path(&tree, &path(&["url"]));
    assert_eq!(r.unwrap_err(), EditError::UnsupportedConstruct { line: 1, column: 8 });
}

#[test]
fn extracting_a_multi_part_value_is_an_error() {
    let tree = Expr::AttrSet {
        bindings: vec![
            kv(
                vec![raw("url", 1, 1, 1, 4)],
                Expr::Str {
                    parts: vec![
                        raw("github:nixos/", 1, 8, 1, 21),
                        Part::Interpolation { span: span(1, 21, 1, 28) },
                    ],
                    span: span(1, 7, 1, 29),
                },
            ),
        ],
        span: span(1, 1, 2, 1),
    };
    let r = find_input_value_by_path(&tree, &path(&["url"]));
    assert_eq!(r.unwrap_err(), EditError::MultiPartValue { line: 1, column: 7 });
}

#[test]
fn extracted_value_is_trimmed() {
    let tree = Expr::AttrSet {
        bindings: vec![
            kv(
                vec![raw("url", 1, 1, 1, 4)],
                Expr::Str { parts: vec![raw("  padded ", 1, 8, 1, 17)], span: span(1, 7, 1, 18) },
            ),
        ],
        span: span(1, 1, 2, 1),
    };
    let v = find_input_value_by_path(&tree, &path(&["url"])).unwrap();
    assert_eq!(text(&v.unwrap()), "padded");
}

#[test]
fn first_attrset_lookup_returns_the_extending_binding() {
    let (_, tree) = doc_one_input();
    let b = find_first_attrset_by_path(&tree, &path(&["inputs", "foo"])).unwrap().unwrap();
    match b {
        Binding::KeyValue { from, .. } => assert_eq!(from.len(), 3),
        _ => panic!("expected a key-value binding"),
    }
    let none = find_first_attrset_by_path(&tree, &path(&["inputs", "bar"])).unwrap();
    assert!(none.is_none());
}

#[test]
fn collects_inputs_from_both_declaration_shapes() {
    // inputs = { a.url = "x"; }; plus a dotted inputs.b.url binding.
    let tree = Expr::AttrSet {
        bindings: vec![
            kv(
                vec![raw("inputs", 2, 3, 2, 9)],
                Expr::AttrSet {
                    bindings: vec![
                        kv(
                            vec![raw("a", 2, 14, 2, 15), raw("url", 2, 16, 2, 19)],
                            Expr::Str {
                                parts: vec![raw("x", 2, 23, 2, 24)],
                                span: span(2, 22, 2, 25),
                            },
                        ),
                    ],
                    span: span(2, 12, 2, 28),
                },
            ),
            kv(
                vec![
                    raw("inputs", 3, 3, 3, 9),
                    raw("b", 3, 10, 3, 11),
                    raw("url", 3, 12, 3, 15),
                ],
                Expr::Str { parts: vec![raw("y", 3, 20, 3, 21)], span: span(3, 19, 3, 22) },
            ),
        ],
        span: span(1, 1, 4, 1),
    };
    let inputs = collect_inputs(&tree).unwrap();
    assert_eq!(inputs.len(), 2);
    match inputs[0] {
        Binding::KeyValue { from, .. } => match &from[0] {
            Part::Raw(tok) => assert_eq!(text(&tok.content), "a"),
            _ => panic!("expected a raw segment"),
        },
        _ => panic!("expected a key-value binding"),
    }
}

#[test]
fn applies_resolved_url_to_named_input() {
    let (buf, tree) = doc_one_input();
    let out = apply_input_url_update(
        &tree,
        &chars("foo"),
        &chars("https://flakehub.com/f/NixOS/nixpkgs/0.2211.0.tar.gz"),
        &buf,
    )
    .unwrap();
    assert_eq!(
        text(&out),
        "{\n  inputs.foo.url = \"https://flakehub.com/f/NixOS/nixpkgs/0.2211.0.tar.gz\";\n}\n"
    );
}

#[test]
fn applying_to_a_missing_input_fails() {
    let (buf, tree) = doc_one_input();
    let r = apply_input_url_update(&tree, &chars("bar"), &chars("u"), &buf);
    assert_eq!(r.unwrap_err(), EditError::MissingAttribute);
}

#[test]
fn fixup_rewrites_the_compat_binding_in_place() {
    let buf = chars(
        "{\n  inputs.flake-compat.url = \"github:edolstra/flake-compat\";\n  inputs.foo.url = \"x\";\n}\n",
    );
    let tree = Expr::AttrSet {
        bindings: vec![
            kv(
                vec![
                    raw("inputs", 2, 3, 2, 9),
                    raw("flake-compat", 2, 10, 2, 22),
                    raw("url", 2, 23, 2, 26),
                ],
                Expr::Str {
                    parts: vec![raw("github:edolstra/flake-compat", 2, 30, 2, 58)],
                    span: span(2, 29, 2, 59),
                },
            ),
            kv(
                vec![
                    raw("inputs", 3, 3, 3, 9),
                    raw("foo", 3, 10, 3, 13),
                    raw("url", 3, 14, 3, 17),
                ],
                Expr::Str { parts: vec![raw("x", 3, 21, 3, 22)], span: span(3, 20, 3, 23) },
            ),
        ],
        span: span(1, 1, 5, 1),
    };
    let out = fixup_flake_compat_input(
        &tree,
        &chars("flake-compat"),
        &chars("https://flakehub.com/f/edolstra/flake-compat/1.1.0.tar.gz"),
        &buf,
    )
    .unwrap();
    assert_eq!(
        text(&out),
        "{\n  inputs.flake-compat.url = \"https://flakehub.com/f/edolstra/flake-compat/1.1.0.tar.gz\";\n  inputs.foo.url = \"x\";\n}\n"
    );
}
