use flake_edit::ast::{Binding, Expr, FunctionHead, Part, Position, RawToken, Span};
use flake_edit::convert::{
    classify_nixpkgs_branch, needs_explicit_nixpkgs, plan_conversions, plan_github_conversion,
    plan_input_conversion, BranchClass, InputAction, InputPlan, SkipReason,
};
use flake_edit::err::EditError;
use flake_edit::refs::{
    flake_doc_is_empty_attrset, flakehub_request_segments, infer_flake_input_name_url, InferredRef,
};
use flake_edit::search::SearchResult;

fn chars(s: &str) -> Vec<char> {
    s.chars().collect()
}

fn text(v: &[char]) -> String {
    v.iter().collect()
}

fn span(l1: usize, c1: usize, l2: usize, c2: usize) -> Span {
    Span {
        start: Position { line: l1, column: c1 },
        end: Position { line: l2, column: c2 },
    }
}

fn raw(s: &str, l1: usize, c1: usize, l2: usize, c2: usize) -> Part {
    Part::Raw(RawToken { content: chars(s), span: span(l1, c1, l2, c2) })
}

fn kv(from: Vec<Part>, to: Expr) -> Binding {
    Binding::KeyValue { from, to: Box::new(to) }
}

fn release_version(r: BranchClass) -> String {
    match r {
        BranchClass::Release { version } => text(&version),
        _ => panic!("expected a release branch"),
    }
}

#[test]
fn release_branch_classifies_by_year_and_month() {
    assert_eq!(release_version(classify_nixpkgs_branch(&chars("nixos-23.05"))), "0.2305.0");
    assert!(matches!(classify_nixpkgs_branch(&chars("nixos-19.09")), BranchClass::PreFlake));
    assert!(matches!(classify_nixpkgs_branch(&chars("nixos-20.02")), BranchClass::PreFlake));
    assert!(matches!(classify_nixpkgs_branch(&chars("nixpkgs-unstable")), BranchClass::Unstable));
    assert!(matches!(classify_nixpkgs_branch(&chars("nixos-unstable")), BranchClass::Unstable));
    assert_eq!(
        release_version(classify_nixpkgs_branch(&chars("release-23.05-small"))),
        "0.2305.0"
    );
    assert_eq!(release_version(classify_nixpkgs_branch(&chars("nixos-22.11-darwin"))), "0.2211.0");
    assert!(matches!(
        classify_nixpkgs_branch(&chars("staging-next")),
        BranchClass::Unrecognized
    ));
}

#[test]
fn github_semver_branch_resolves_at_that_version() {
    let a = plan_github_conversion(&chars("foo/bar/v1.2.3")).unwrap();
    match a {
        InputAction::Resolve { org, project, version } => {
            assert_eq!(text(&org), "foo");
            assert_eq!(text(&project), "bar");
            assert_eq!(text(&version.unwrap()), "1.2.3");
        },
        _ => panic!("expected a resolution"),
    }
}

#[test]
fn github_two_segments_resolve_at_latest() {
    let a = plan_github_conversion(&chars("nixos/nixpkgs")).unwrap();
    match a {
        InputAction::Resolve { version, .. } => assert!(version.is_none()),
        _ => panic!("expected a resolution"),
    }
}

#[test]
fn github_wrong_segment_count_is_malformed() {
    assert_eq!(
        plan_github_conversion(&chars("justone")).unwrap_err(),
        EditError::MalformedReference
    );
    assert_eq!(
        plan_github_conversion(&chars("a/b/c/d")).unwrap_err(),
        EditError::MalformedReference
    );
}

#[test]
fn github_nixpkgs_owner_matches_case_insensitively() {
    let a = plan_input_conversion(&chars("github:NixOS/nixpkgs/nixos-22.11")).unwrap();
    match a {
        InputAction::Resolve { org, version, .. } => {
            // The original casing travels through; only the comparison folds.
            assert_eq!(text(&org), "NixOS");
            assert_eq!(text(&version.unwrap()), "0.2211.0");
        },
        _ => panic!("expected a resolution"),
    }
}

#[test]
fn github_unknown_branch_of_other_project_is_kept() {
    let a = plan_github_conversion(&chars("someone/project/main")).unwrap();
    assert!(matches!(a, InputAction::Keep { reason: SkipReason::NonSemverBranch }));
}

#[test]
fn hosted_and_foreign_scheme_urls_are_kept() {
    let a = plan_input_conversion(&chars("https://github.com/nixos/nixpkgs")).unwrap();
    assert!(matches!(a, InputAction::Keep { reason: SkipReason::HostedUrl }));
    let b = plan_input_conversion(&chars("gitlab:group/project")).unwrap();
    assert!(matches!(b, InputAction::Keep { reason: SkipReason::UnsupportedScheme }));
    let c = plan_input_conversion(&chars("not a url at all")).unwrap();
    assert!(matches!(c, InputAction::Keep { reason: SkipReason::NotAUrl }));
}

#[test]
fn plans_every_declared_input() {
    // { inputs.a.url = "github:nixos/nixpkgs/nixos-23.05";
    //   inputs.compat.url = "github:edolstra/flake-compat";
    //   inputs.c.url = "https://example.com/x.tar.gz"; }
    let tree = Expr::AttrSet {
        bindings: vec![
            kv(
                vec![raw("inputs", 1, 1, 1, 7), raw("a", 1, 8, 1, 9), raw("url", 1, 10, 1, 13)],
                Expr::Str {
                    parts: vec![raw("github:nixos/nixpkgs/nixos-23.05", 1, 18, 1, 50)],
                    span: span(1, 17, 1, 51),
                },
            ),
            kv(
                vec![
                    raw("inputs", 2, 1, 2, 7),
                    raw("compat", 2, 8, 2, 14),
                    raw("url", 2, 15, 2, 18),
                ],
                Expr::Str {
                    parts: vec![raw("github:edolstra/flake-compat", 2, 23, 2, 51)],
                    span: span(2, 22, 2, 52),
                },
            ),
            kv(
                vec![raw("inputs", 3, 1, 3, 7), raw("c", 3, 8, 3, 9), raw("url", 3, 10, 3, 13)],
                Expr::Str {
                    parts: vec![raw("https://example.com/x.tar.gz", 3, 18, 3, 46)],
                    span: span(3, 17, 3, 47),
                },
            ),
        ],
        span: span(1, 1, 4, 1),
    };
    let plans = plan_conversions(&tree).unwrap();
    assert_eq!(plans.len(), 3);
    match &plans[0] {
        InputPlan::Resolve { name, org, project, version } => {
            assert_eq!(text(name), "a");
            assert_eq!(text(org), "nixos");
            assert_eq!(text(project), "nixpkgs");
            assert_eq!(text(version.as_ref().unwrap()), "0.2305.0");
        },
        _ => panic!("expected the first input to resolve"),
    }
    match &plans[1] {
        InputPlan::CompatShim { name } => assert_eq!(text(name), "compat"),
        _ => panic!("expected the shim to be set aside"),
    }
    match &plans[2] {
        InputPlan::Unconvertible { name, reason } => {
            assert_eq!(text(name), "c");
            assert!(matches!(reason, SkipReason::HostedUrl));
        },
        _ => panic!("expected the hosted input to be kept"),
    }
}

#[test]
fn input_without_url_gets_no_action() {
    // inputs.a = { follows = "x"; }; — a set that declares no url.
    let tree = Expr::AttrSet {
        bindings: vec![
            kv(
                vec![raw("inputs", 1, 1, 1, 7), raw("a", 1, 8, 1, 9)],
                Expr::AttrSet {
                    bindings: vec![
                        kv(
                            vec![raw("follows", 1, 14, 1, 21)],
                            Expr::Str {
                                parts: vec![raw("x", 1, 25, 1, 26)],
                                span: span(1, 24, 1, 27),
                            },
                        ),
                    ],
                    span: span(1, 12, 1, 30),
                },
            ),
        ],
        span: span(1, 1, 2, 1),
    };
    let plans = plan_conversions(&tree).unwrap();
    assert_eq!(plans.len(), 1);
    match &plans[0] {
        InputPlan::NoUrl { name } => assert_eq!(text(name), "a"),
        _ => panic!("expected an input with nothing to convert"),
    }
}

#[test]
fn unsupported_input_value_kind_skips_only_that_input() {
    // The first input's value is an unsupported expression kind; the second
    // is fine. The first is skipped with its error recorded, the second is
    // still planned.
    let tree = Expr::AttrSet {
        bindings: vec![
            kv(
                vec![raw("inputs", 1, 1, 1, 7), raw("a", 1, 8, 1, 9), raw("flake", 1, 10, 1, 15)],
                Expr::Other { kind: chars("False"), span: span(1, 18, 1, 23) },
            ),
            kv(
                vec![raw("inputs", 2, 1, 2, 7), raw("b", 2, 8, 2, 9), raw("url", 2, 10, 2, 13)],
                Expr::Str {
                    parts: vec![raw("github:nixos/nixpkgs/nixos-23.05", 2, 18, 2, 50)],
                    span: span(2, 17, 2, 51),
                },
            ),
        ],
        span: span(1, 1, 3, 1),
    };
    let plans = plan_conversions(&tree).unwrap();
    assert_eq!(plans.len(), 2);
    match &plans[0] {
        InputPlan::Unreadable { name, error } => {
            assert_eq!(text(name), "a");
            assert_eq!(
                *error,
                EditError::UnsupportedExpressionKind { kind: chars("False"), line: 1, column: 18 }
            );
        },
        _ => panic!("expected the unreadable input to be skipped"),
    }
    assert!(matches!(&plans[1], InputPlan::Resolve { .. }));
}

#[test]
fn interpolated_input_value_skips_only_that_input() {
    // inputs.a.url = "${...}"; — a lone interpolation cannot be read as a
    // whole literal, so this input is skipped with the error's position.
    let tree = Expr::AttrSet {
        bindings: vec![
            kv(
                vec![raw("inputs", 1, 1, 1, 7), raw("a", 1, 8, 1, 9), raw("url", 1, 10, 1, 13)],
                Expr::Str {
                    parts: vec![Part::Interpolation { span: span(1, 18, 1, 26) }],
                    span: span(1, 17, 1, 27),
                },
            ),
        ],
        span: span(1, 1, 2, 1),
    };
    let plans = plan_conversions(&tree).unwrap();
    assert_eq!(plans.len(), 1);
    match &plans[0] {
        InputPlan::Unreadable { name, error } => {
            assert_eq!(text(name), "a");
            assert_eq!(*error, EditError::UnsupportedConstruct { line: 1, column: 18 });
        },
        _ => panic!("expected the interpolated input to be skipped"),
    }
}

#[test]
fn multi_part_input_value_skips_only_that_input() {
    // inputs.a.url = "github:nixos/${rest}"; — a multi-part string cannot be
    // read as a whole literal; its prefix must not leak into a plan.
    let tree = Expr::AttrSet {
        bindings: vec![
            kv(
                vec![raw("inputs", 1, 1, 1, 7), raw("a", 1, 8, 1, 9), raw("url", 1, 10, 1, 13)],
                Expr::Str {
                    parts: vec![
                        raw("github:nixos/", 1, 18, 1, 31),
                        Part::Interpolation { span: span(1, 31, 1, 38) },
                    ],
                    span: span(1, 17, 1, 39),
                },
            ),
        ],
        span: span(1, 1, 2, 1),
    };
    let plans = plan_conversions(&tree).unwrap();
    assert_eq!(plans.len(), 1);
    match &plans[0] {
        InputPlan::Unreadable { name, error } => {
            assert_eq!(text(name), "a");
            assert_eq!(*error, EditError::MultiPartValue { line: 1, column: 17 });
        },
        _ => panic!("expected the multi-part input to be skipped"),
    }
}

#[test]
fn inherit_among_inputs_aborts_the_pass() {
    // An inherit among the enumerated bindings aborts the walk itself.
    let tree = Expr::AttrSet {
        bindings: vec![Binding::Inherit { span: span(1, 3, 1, 10) }],
        span: span(1, 1, 2, 1),
    };
    let r = plan_conversions(&tree);
    assert_eq!(r.unwrap_err(), EditError::UnsupportedConstruct { line: 1, column: 3 });
}

#[test]
fn infer_scheme_reference_takes_second_path_segment() {
    let r = infer_flake_input_name_url(&chars("github:nixos/nixpkgs"), None).unwrap();
    match r {
        InferredRef::SchemeRef { name, url } => {
            assert_eq!(text(&name), "nixpkgs");
            assert_eq!(text(&url), "github:nixos/nixpkgs");
        },
        _ => panic!("expected a scheme reference"),
    }
}

#[test]
fn infer_prefers_the_given_name() {
    let given = chars("pinned");
    let r = infer_flake_input_name_url(&chars("github:nixos/nixpkgs"), Some(&given)).unwrap();
    match r {
        InferredRef::SchemeRef { name, .. } => assert_eq!(text(&name), "pinned"),
        _ => panic!("expected a scheme reference"),
    }
}

#[test]
fn infer_short_form_strips_archive_suffix_and_v_prefix() {
    let r = infer_flake_input_name_url(&chars("NixOS/nixpkgs/v0.2305.tar.gz"), None).unwrap();
    match r {
        InferredRef::ShortForm { org, repo, version } => {
            assert_eq!(text(&org), "NixOS");
            assert_eq!(text(&repo), "nixpkgs");
            assert_eq!(text(&version.unwrap()), "0.2305");
        },
        _ => panic!("expected a short form"),
    }
    let r2 = infer_flake_input_name_url(&chars("nixos/nixpkgs"), None).unwrap();
    match r2 {
        InferredRef::ShortForm { version, .. } => assert!(version.is_none()),
        _ => panic!("expected a short form"),
    }
}

#[test]
fn infer_full_url_needs_a_name() {
    let r = infer_flake_input_name_url(&chars("https://flakehub.com/f/NixOS/nixpkgs/*.tar.gz"), None);
    assert_eq!(r.unwrap_err(), EditError::AmbiguousName);
    let given = chars("nixpkgs");
    let ok = infer_flake_input_name_url(
        &chars("https://flakehub.com/f/NixOS/nixpkgs/0.1.0.tar.gz"),
        Some(&given),
    )
    .unwrap();
    assert!(matches!(ok, InferredRef::FullUrl { .. }));
}

#[test]
fn infer_rejects_malformed_short_form() {
    let r = infer_flake_input_name_url(&chars("a/b/c/d"), None);
    assert_eq!(r.unwrap_err(), EditError::MalformedReference);
}

#[test]
fn request_segments_for_versioned_and_latest() {
    let org = chars("NixOS");
    let repo = chars("nixpkgs");
    let ver = chars("0.2305.0");
    let with: Vec<String> = flakehub_request_segments(&org, &repo, Some(&ver))
        .iter()
        .map(|s| text(s))
        .collect();
    assert_eq!(with, vec!["version", "NixOS", "nixpkgs", "0.2305.0"]);
    let latest: Vec<String> = flakehub_request_segments(&org, &repo, None)
        .iter()
        .map(|s| text(s))
        .collect();
    assert_eq!(latest, vec!["f", "NixOS", "nixpkgs"]);
}

#[test]
fn implicit_nixpkgs_detection() {
    let outputs_with_nixpkgs = kv(
        vec![raw("outputs", 1, 1, 1, 8)],
        Expr::Function {
            head: FunctionHead::Destructured { args: vec![chars("self"), chars("nixpkgs")] },
            kind: chars("Function"),
            span: span(1, 11, 1, 40),
        },
    );
    let needs = Expr::AttrSet {
        bindings: vec![outputs_with_nixpkgs],
        span: span(1, 1, 2, 1),
    };
    assert_eq!(needs_explicit_nixpkgs(&needs).unwrap(), true);

    // With an inputs.nixpkgs binding already there, nothing is needed.
    let declared = Expr::AttrSet {
        bindings: vec![
            kv(
                vec![
                    raw("inputs", 1, 1, 1, 7),
                    raw("nixpkgs", 1, 8, 1, 15),
                    raw("url", 1, 16, 1, 19),
                ],
                Expr::Str { parts: vec![raw("u", 1, 24, 1, 25)], span: span(1, 23, 1, 26) },
            ),
            kv(
                vec![raw("outputs", 2, 1, 2, 8)],
                Expr::Function {
                    head: FunctionHead::Destructured { args: vec![chars("nixpkgs")] },
                    kind: chars("Function"),
                    span: span(2, 11, 2, 40),
                },
            ),
        ],
        span: span(1, 1, 3, 1),
    };
    assert_eq!(needs_explicit_nixpkgs(&declared).unwrap(), false);

    // A simple (non-destructured) head never asks for it.
    let simple = Expr::AttrSet {
        bindings: vec![
            kv(
                vec![raw("outputs", 1, 1, 1, 8)],
                Expr::Function {
                    head: FunctionHead::Simple,
                    kind: chars("Function"),
                    span: span(1, 11, 1, 30),
                },
            ),
        ],
        span: span(1, 1, 2, 1),
    };
    assert_eq!(needs_explicit_nixpkgs(&simple).unwrap(), false);
}

#[test]
fn empty_attrset_detection() {
    let empty = Expr::AttrSet { bindings: vec![], span: span(1, 1, 1, 4) };
    assert!(flake_doc_is_empty_attrset(&empty));
    let nonempty = Expr::AttrSet {
        bindings: vec![
            kv(
                vec![raw("a", 1, 3, 1, 4)],
                Expr::Str { parts: vec![], span: span(1, 7, 1, 9) },
            ),
        ],
        span: span(1, 1, 1, 12),
    };
    assert!(!flake_doc_is_empty_attrset(&nonempty));
    let other = Expr::Other { kind: chars("Int"), span: span(1, 1, 1, 2) };
    assert!(!flake_doc_is_empty_attrset(&other));
}

#[test]
fn search_result_texts() {
    let r = SearchResult {
        org: "NixOS".to_owned(),
        project: "nixpkgs".to_owned(),
        description: None,
        tags: None,
    };
    assert_eq!(r.name(), "NixOS/nixpkgs");
    assert_eq!(r.url("https://flakehub.com"), "https://flakehub.com/flake/NixOS/nixpkgs");
}
