//! The conversion rules: classifying a declared input's reference and
//! deciding what registry lookup, if any, should replace it. The caller
//! performs the lookups the plan asks for and hands the resolved URL back to
//! the editing functions.

use vstd::prelude::*;

use crate::ast::{Binding, Expr, FunctionHead, Part};
use crate::err::{err_matches, EditError};
use crate::matcher::{
    find_first_attrset_by_path, first_attr_spec, inputs_of, value_spec,
};
use crate::outside::{
    lower_of, semver_norm_of, url_outcome_of, UrlOutcomeV,
};
use crate::text::{ends_with, trimmed};

verus! {

/// `-small`, the first release-branch suffix that is ignored.
pub open spec fn small_suffix() -> Seq<char> {
    seq!['-', 's', 'm', 'a', 'l', 'l']
}

/// `-darwin`, the second release-branch suffix that is ignored.
pub open spec fn darwin_suffix() -> Seq<char> {
    seq!['-', 'd', 'a', 'r', 'w', 'i', 'n']
}

/// A branch name with its `-small` or `-darwin` suffix stripped; `-small` is
/// tried first, and a name carrying neither stays as it is.
pub open spec fn normalized_branch(b: Seq<char>) -> Seq<char> {
    if ends_with(b, small_suffix()) {
        b.take(b.len() - small_suffix().len())
    } else if ends_with(b, darwin_suffix()) {
        b.take(b.len() - darwin_suffix().len())
    } else {
        b
    }
}

/// `nixpkgs-unstable`.
pub open spec fn unstable_nixpkgs() -> Seq<char> {
    seq!['n', 'i', 'x', 'p', 'k', 'g', 's', '-', 'u', 'n', 's', 't', 'a', 'b', 'l', 'e']
}

/// `nixos-unstable`.
pub open spec fn unstable_nixos() -> Seq<char> {
    seq!['n', 'i', 'x', 'o', 's', '-', 'u', 'n', 's', 't', 'a', 'b', 'l', 'e']
}

/// An ASCII decimal digit.
pub open spec fn is_ascii_digit(c: char) -> bool {
    48 <= c as u32 <= 57
}

/// The numeric value of an ASCII digit.
pub open spec fn digit_val(c: char) -> int {
    c as u32 - 48
}

/// The year and month encoded in a release branch name ending in `-YY.MM`.
pub open spec fn release_numbers(n: Seq<char>) -> Option<(int, int)> {
    let l = n.len();
    if l >= 6 && n[l - 6] == '-' && is_ascii_digit(n[l - 5]) && is_ascii_digit(n[l - 4]) && n[l - 3]
        == '.' && is_ascii_digit(n[l - 2]) && is_ascii_digit(n[l - 1]) {
        Some(
            (
                10 * digit_val(n[l - 5]) + digit_val(n[l - 4]),
                10 * digit_val(n[l - 2]) + digit_val(n[l - 1]),
            ),
        )
    } else {
        None
    }
}

/// The registry version string `0.YYMM.0` for a release branch ending in
/// `-YY.MM`.
pub open spec fn release_version_text(n: Seq<char>) -> Seq<char> {
    let l = n.len();
    seq!['0', '.', n[l - 5], n[l - 4], n[l - 2], n[l - 1], '.', '0']
}

/// How a branch name of the well-known `nixos/nixpkgs` project classifies.
#[derive(Debug)]
pub enum BranchClass {
    /// `nixpkgs-unstable` or `nixos-unstable`: resolved as version `0.1.0`.
    Unstable,
    /// A release branch `-YY.MM` from the era that ships this file format
    /// (year at least 20 and month at least 3): resolved as `0.YYMM.0`.
    Release { version: Vec<char> },
    /// A release branch from before that era: left unconverted, silently.
    PreFlake,
    /// Any other branch name: left unconverted, with a warning.
    Unrecognized,
}

/// A branch classification over character sequences.
pub enum BranchClassV {
    Unstable,
    Release { version: Seq<char> },
    PreFlake,
    Unrecognized,
}

/// The classification a caller holds, viewed over character sequences.
pub open spec fn branch_class_view(r: BranchClass) -> BranchClassV {
    match r {
        BranchClass::Unstable => BranchClassV::Unstable,
        BranchClass::Release { version } => BranchClassV::Release { version: version@ },
        BranchClass::PreFlake => BranchClassV::PreFlake,
        BranchClass::Unrecognized => BranchClassV::Unrecognized,
    }
}

/// What classifying a branch name yields: suffixes are stripped, the two
/// unstable branches resolve as `0.1.0`, a `-YY.MM` release branch from the
/// flake era resolves as `0.YYMM.0`, and everything else stays unconverted.
pub open spec fn classify_branch_spec(branch: Seq<char>) -> BranchClassV {
    let n = normalized_branch(branch);
    if n == unstable_nixpkgs() || n == unstable_nixos() {
        BranchClassV::Unstable
    } else {
        match release_numbers(n) {
            Some((y, m)) => if y >= 20 && m >= 3 {
                BranchClassV::Release { version: release_version_text(n) }
            } else {
                BranchClassV::PreFlake
            },
            None => BranchClassV::Unrecognized,
        }
    }
}

/// A version or branch text without its leading `v`, if it has one.
pub open spec fn strip_v_prefix(s: Seq<char>) -> Seq<char> {
    if s.len() > 0 && s[0] == 'v' {
        s.skip(1)
    } else {
        s
    }
}

/// `0.1.0`, the registry version that stands for the unstable branches.
pub open spec fn unstable_version() -> Seq<char> {
    seq!['0', '.', '1', '.', '0']
}

/// `github`, the one URL scheme the conversion understands.
pub open spec fn github_scheme() -> Seq<char> {
    seq!['g', 'i', 't', 'h', 'u', 'b']
}

/// `nixos`, the owner of the well-known nixpkgs project.
pub open spec fn nixos_owner() -> Seq<char> {
    seq!['n', 'i', 'x', 'o', 's']
}

/// `nixpkgs`, the name of the well-known nixpkgs project.
pub open spec fn nixpkgs_project() -> Seq<char> {
    seq!['n', 'i', 'x', 'p', 'k', 'g', 's']
}

/// Why an input is left as it is.
#[derive(PartialEq, Eq, Structural, Clone, Copy, Debug)]
pub enum SkipReason {
    /// Its value does not parse as a URL at all.
    NotAUrl,
    /// Its URL has a host, so it is already a full URL.
    HostedUrl,
    /// Its URL scheme is not `github`.
    UnsupportedScheme,
    /// Its third segment is neither a version nor a known nixpkgs branch.
    NonSemverBranch,
    /// It points at a nixpkgs branch this conversion does not recognize.
    UnknownNixpkgsBranch,
    /// It points at a nixpkgs release from before the flake era.
    PreFlakeRelease,
}

/// What should happen to one input.
#[derive(Debug)]
pub enum InputAction {
    /// Resolve `org/project`, at the given version or at the latest, and
    /// rewrite the input to the resolved URL.
    Resolve { org: Vec<char>, project: Vec<char>, version: Option<Vec<char>> },
    /// Leave the input exactly as it is.
    Keep { reason: SkipReason },
}

/// An action over character sequences.
pub enum InputActionV {
    Resolve { org: Seq<char>, project: Seq<char>, version: Option<Seq<char>> },
    Keep { reason: SkipReason },
}

/// The action a caller holds, viewed over character sequences.
pub open spec fn input_action_view(a: InputAction) -> InputActionV {
    match a {
        InputAction::Resolve { org, project, version } => InputActionV::Resolve {
            org: org@,
            project: project@,
            version: match version {
                Some(v) => Some(v@),
                None => None,
            },
        },
        InputAction::Keep { reason } => InputActionV::Keep { reason },
    }
}

/// What planning a `github:` reference path yields. `org/project/x` resolves
/// at version `x` when `x` (without a leading `v`) is a semantic version; a
/// branch of the well-known nixpkgs project resolves by the branch rules;
/// `org/project` alone resolves at the latest version; anything else is
/// malformed.
pub open spec fn github_plan_spec(path: Seq<char>) -> Result<InputActionV, EditError> {
    let parts = crate::text::split_char(path, '/');
    if parts.len() == 3 {
        match semver_norm_of(strip_v_prefix(parts[2])) {
            Some(ver) => Ok(
                InputActionV::Resolve { org: parts[0], project: parts[1], version: Some(ver) },
            ),
            None => if lower_of(parts[0]) == nixos_owner() && lower_of(parts[1])
                == nixpkgs_project() {
                match classify_branch_spec(parts[2]) {
                    BranchClassV::Unstable => Ok(
                        InputActionV::Resolve {
                            org: parts[0],
                            project: parts[1],
                            version: Some(unstable_version()),
                        },
                    ),
                    BranchClassV::Release { version } => Ok(
                        InputActionV::Resolve {
                            org: parts[0],
                            project: parts[1],
                            version: Some(version),
                        },
                    ),
                    BranchClassV::PreFlake => Ok(
                        InputActionV::Keep { reason: SkipReason::PreFlakeRelease },
                    ),
                    BranchClassV::Unrecognized => Ok(
                        InputActionV::Keep { reason: SkipReason::UnknownNixpkgsBranch },
                    ),
                }
            } else {
                Ok(InputActionV::Keep { reason: SkipReason::NonSemverBranch })
            },
        }
    } else if parts.len() == 2 {
        Ok(InputActionV::Resolve { org: parts[0], project: parts[1], version: None })
    } else {
        Err(EditError::MalformedReference)
    }
}

/// What planning one input's URL text yields: a URL with a host or with a
/// scheme other than `github` is kept, a `github:` reference is planned by
/// its path, and a value that is no URL is kept untouched.
pub open spec fn input_conversion_spec(u: Seq<char>) -> Result<InputActionV, EditError> {
    match url_outcome_of(u) {
        UrlOutcomeV::Parsed(p) => if p.has_host {
            Ok(InputActionV::Keep { reason: SkipReason::HostedUrl })
        } else if p.scheme == github_scheme() {
            github_plan_spec(p.path)
        } else {
            Ok(InputActionV::Keep { reason: SkipReason::UnsupportedScheme })
        },
        _ => Ok(InputActionV::Keep { reason: SkipReason::NotAUrl }),
    }
}

/// Plans the conversion of one `github:` reference path.
pub fn plan_github_conversion(path: &Vec<char>) -> (r: Result<InputAction, EditError>)
    ensures
        ({
            let m = github_plan_spec(path@);
            match r {
                Ok(a) => m == Ok::<InputActionV, EditError>(input_action_view(a)),
                Err(e) => m is Err && err_matches(e, m->Err_0),
            }
        }),
{
    let ghost pm = crate::text::split_char(path@, '/');
    let parts = crate::text::split_chars(path, '/');
    proof {
        assert(parts.deep_view() == pm);
    }
    if parts.len() == 3 {
        proof {
            assert(parts@[0]@ =~= pm[0]);
            assert(parts@[1]@ =~= pm[1]);
            assert(parts@[2]@ =~= pm[2]);
        }
        let vb = &parts[2];
        let stripped: Vec<char> = if vb.len() > 0 && vb[0] == 'v' {
            crate::text::subrange_chars(vb, 1, vb.len())
        } else {
            crate::text::copy_chars(vb)
        };
        proof {
            assert(vb@.subrange(1, vb@.len() as int) =~= vb@.skip(1));
            assert(stripped@ == strip_v_prefix(pm[2]));
        }
        match crate::outside::parse_semver_normalized(&stripped) {
            Some(ver) => Ok(InputAction::Resolve {
                org: crate::text::copy_chars(&parts[0]),
                project: crate::text::copy_chars(&parts[1]),
                version: Some(ver),
            }),
            None => {
                let lo = crate::outside::to_lowercase_chars(&parts[0]);
                let lp = crate::outside::to_lowercase_chars(&parts[1]);
                let nixos_kw: Vec<char> = vec!['n', 'i', 'x', 'o', 's'];
                let nixpkgs_kw: Vec<char> = vec!['n', 'i', 'x', 'p', 'k', 'g', 's'];
                proof {
                    assert(nixos_kw@ =~= nixos_owner());
                    assert(nixpkgs_kw@ =~= nixpkgs_project());
                }
                if crate::text::chars_eq(&lo, &nixos_kw) && crate::text::chars_eq(
                    &lp,
                    &nixpkgs_kw,
                ) {
                    match classify_nixpkgs_branch(&parts[2]) {
                        BranchClass::Unstable => {
                            let v010: Vec<char> = vec!['0', '.', '1', '.', '0'];
                            proof {
                                assert(v010@ =~= unstable_version());
                            }
                            Ok(InputAction::Resolve {
                                org: crate::text::copy_chars(&parts[0]),
                                project: crate::text::copy_chars(&parts[1]),
                                version: Some(v010),
                            })
                        },
                        BranchClass::Release { version } => Ok(InputAction::Resolve {
                            org: crate::text::copy_chars(&parts[0]),
                            project: crate::text::copy_chars(&parts[1]),
                            version: Some(version),
                        }),
                        BranchClass::PreFlake => Ok(InputAction::Keep {
                            reason: SkipReason::PreFlakeRelease,
                        }),
                        BranchClass::Unrecognized => Ok(InputAction::Keep {
                            reason: SkipReason::UnknownNixpkgsBranch,
                        }),
                    }
                } else {
                    Ok(InputAction::Keep { reason: SkipReason::NonSemverBranch })
                }
            },
        }
    } else if parts.len() == 2 {
        proof {
            assert(parts@[0]@ =~= pm[0]);
            assert(parts@[1]@ =~= pm[1]);
        }
        Ok(InputAction::Resolve {
            org: crate::text::copy_chars(&parts[0]),
            project: crate::text::copy_chars(&parts[1]),
            version: None,
        })
    } else {
        Err(EditError::MalformedReference)
    }
}

/// Plans the conversion of one input's URL text.
pub fn plan_input_conversion(u: &Vec<char>) -> (r: Result<InputAction, EditError>)
    ensures
        ({
            let m = input_conversion_spec(u@);
            match r {
                Ok(a) => m == Ok::<InputActionV, EditError>(input_action_view(a)),
                Err(e) => m is Err && err_matches(e, m->Err_0),
            }
        }),
{
    match crate::outside::parse_url_outcome(u) {
        crate::outside::UrlParseOutcome::Parsed(p) => {
            if p.has_host {
                Ok(InputAction::Keep { reason: SkipReason::HostedUrl })
            } else {
                let github_kw: Vec<char> = vec!['g', 'i', 't', 'h', 'u', 'b'];
                proof {
                    assert(github_kw@ =~= github_scheme());
                }
                if crate::text::chars_eq(&p.scheme, &github_kw) {
                    plan_github_conversion(&p.path)
                } else {
                    Ok(InputAction::Keep { reason: SkipReason::UnsupportedScheme })
                }
            }
        },
        _ => Ok(InputAction::Keep { reason: SkipReason::NotAUrl }),
    }
}

/// `url`, the attribute that holds an input's reference.
pub open spec fn url_keyword() -> Seq<char> {
    seq!['u', 'r', 'l']
}

/// The one-segment attribute path `url`.
pub open spec fn url_attr_path() -> Seq<Seq<char>> {
    seq![url_keyword()]
}

/// `github:edolstra/flake-compat`, the compatibility-shim reference that is
/// special-cased and fixed up after every other edit.
pub open spec fn flake_compat_ref() -> Seq<char> {
    seq![
        'g',
        'i',
        't',
        'h',
        'u',
        'b',
        ':',
        'e',
        'd',
        'o',
        'l',
        's',
        't',
        'r',
        'a',
        '/',
        'f',
        'l',
        'a',
        'k',
        'e',
        '-',
        'c',
        'o',
        'm',
        'p',
        'a',
        't',
    ]
}

/// The name of an input, read off its attribute path: the trimmed content of
/// the first raw segment that is neither `inputs` nor `url`.
pub open spec fn input_name_of(parts: Seq<Part>) -> Option<Seq<char>>
    decreases parts.len(),
{
    if parts.len() == 0 {
        None
    } else {
        match parts[0] {
            Part::Raw(tok) => {
                let c = trimmed(tok.content@);
                if c == crate::surgeon::inputs_keyword() || c == url_keyword() {
                    input_name_of(parts.skip(1))
                } else {
                    Some(c)
                }
            },
            Part::Interpolation { .. } => input_name_of(parts.skip(1)),
        }
    }
}

/// Reads the input's name off its attribute-path parts.
pub fn input_name_from(parts: &Vec<Part>) -> (r: Option<Vec<char>>)
    ensures
        ({
            match r {
                Some(v) => input_name_of(parts@) == Some(v@),
                None => input_name_of(parts@) is None,
            }
        }),
{
    let inputs_kw: Vec<char> = vec!['i', 'n', 'p', 'u', 't', 's'];
    let url_kw: Vec<char> = vec!['u', 'r', 'l'];
    proof {
        assert(inputs_kw@ =~= crate::surgeon::inputs_keyword());
        assert(url_kw@ =~= url_keyword());
        assert(parts@.skip(0) =~= parts@);
    }
    let mut j: usize = 0;
    while j < parts.len()
        invariant
            j <= parts@.len(),
            inputs_kw@ == crate::surgeon::inputs_keyword(),
            url_kw@ == url_keyword(),
            input_name_of(parts@) == input_name_of(parts@.skip(j as int)),
        decreases parts@.len() - j,
    {
        proof {
            assert(parts@.skip(j as int)[0] == parts@[j as int]);
            assert(parts@.skip(j as int).skip(1) =~= parts@.skip(j + 1));
        }
        match &parts[j] {
            Part::Raw(tok) => {
                let c = crate::text::trim_chars(&tok.content);
                if !(crate::text::chars_eq(&c, &inputs_kw) || crate::text::chars_eq(&c, &url_kw)) {
                    proof {
                        assert(input_name_of(parts@.skip(j as int)) == Some(c@));
                    }
                    return Some(c);
                }
                proof {
                    assert(input_name_of(parts@.skip(j as int)) == input_name_of(
                        parts@.skip(j + 1),
                    ));
                }
            },
            Part::Interpolation { .. } => {
                proof {
                    assert(input_name_of(parts@.skip(j as int)) == input_name_of(
                        parts@.skip(j + 1),
                    ));
                }
            },
        }
        j = j + 1;
    }
    proof {
        assert(parts@.skip(parts@.len() as int) =~= Seq::<Part>::empty());
    }
    None
}

/// The plan for one declared input.
#[derive(Debug)]
pub enum InputPlan {
    /// No name could be read off its attribute path; skipped with a warning.
    NoName,
    /// It declares no `url` string; nothing to convert.
    NoUrl { name: Vec<char> },
    /// Reading or classifying its value failed; the input is skipped with a
    /// warning carrying the error and its position, and the rest of the pass
    /// goes on.
    Unreadable { name: Vec<char>, error: EditError },
    /// Its reference stays as it is, for the reason given.
    Unconvertible { name: Vec<char>, reason: SkipReason },
    /// It is the compatibility shim, deferred to the fix-up pass.
    CompatShim { name: Vec<char> },
    /// Resolve `org/project` at the given version (or latest) and rewrite the
    /// input's `url` to the resolved URL.
    Resolve {
        name: Vec<char>,
        org: Vec<char>,
        project: Vec<char>,
        version: Option<Vec<char>>,
    },
}

/// One input's plan over character sequences.
pub enum InputPlanV {
    NoName,
    NoUrl { name: Seq<char> },
    Unreadable { name: Seq<char>, error: crate::err::EditErrorV },
    Unconvertible { name: Seq<char>, reason: SkipReason },
    CompatShim { name: Seq<char> },
    Resolve { name: Seq<char>, org: Seq<char>, project: Seq<char>, version: Option<Seq<char>> },
}

/// The plan a caller holds, viewed over character sequences.
pub open spec fn input_plan_view(p: InputPlan) -> InputPlanV {
    match p {
        InputPlan::NoName => InputPlanV::NoName,
        InputPlan::NoUrl { name } => InputPlanV::NoUrl { name: name@ },
        InputPlan::Unreadable { name, error } => InputPlanV::Unreadable {
            name: name@,
            error: crate::err::error_view(error),
        },
        InputPlan::Unconvertible { name, reason } => InputPlanV::Unconvertible {
            name: name@,
            reason,
        },
        InputPlan::CompatShim { name } => InputPlanV::CompatShim { name: name@ },
        InputPlan::Resolve { name, org, project, version } => InputPlanV::Resolve {
            name: name@,
            org: org@,
            project: project@,
            version: match version {
                Some(v) => Some(v@),
                None => None,
            },
        },
    }
}

/// A sequence of plans, viewed over character sequences.
pub open spec fn plans_view(v: Seq<InputPlan>) -> Seq<InputPlanV> {
    Seq::new(v.len(), |m: int| input_plan_view(v[m]))
}

/// What planning one declared input yields: its name is read off its path,
/// its `url` value is extracted, the compatibility shim is set aside, and
/// everything else is classified by its URL. A structural error inside this
/// one input's resolution — a non-literal value, an unsupported expression
/// kind, a malformed reference — marks only this input as unreadable and
/// never stops the pass.
pub open spec fn plan_for_input(b: Binding) -> InputPlanV {
    match b {
        Binding::Inherit { .. } => InputPlanV::NoName,
        Binding::KeyValue { from, to } => match input_name_of(from@) {
            None => InputPlanV::NoName,
            Some(nm) => match value_spec(*to, url_attr_path()) {
                Err(e) => InputPlanV::Unreadable { name: nm, error: crate::err::error_view(e) },
                Ok(None) => InputPlanV::NoUrl { name: nm },
                Ok(Some(u)) => if u == flake_compat_ref() {
                    InputPlanV::CompatShim { name: nm }
                } else {
                    match input_conversion_spec(u) {
                        Err(e) => InputPlanV::Unreadable {
                            name: nm,
                            error: crate::err::error_view(e),
                        },
                        Ok(InputActionV::Resolve { org, project, version }) => {
                            InputPlanV::Resolve { name: nm, org, project, version }
                        },
                        Ok(InputActionV::Keep { reason }) => InputPlanV::Unconvertible {
                            name: nm,
                            reason,
                        },
                    }
                },
            },
        },
    }
}

/// The plans for a sequence of declared inputs, from index `i` on.
pub open spec fn plans_of(inputs: Seq<Binding>, i: int) -> Seq<InputPlanV>
    decreases inputs.len() - i,
{
    if i < 0 || i >= inputs.len() {
        Seq::empty()
    } else {
        seq![plan_for_input(inputs[i])] + plans_of(inputs, i + 1)
    }
}

/// What planning a whole document yields: one plan per declared input, in
/// source order. Only the enumeration itself can fail — an `inherit` among
/// the scanned bindings aborts the walk; every error inside one input's own
/// resolution is recorded on that input's plan instead.
pub open spec fn conversions_spec(e: Expr) -> Result<Seq<InputPlanV>, EditError> {
    match inputs_of(e) {
        Err(e2) => Err(e2),
        Ok(inputs) => Ok(plans_of(inputs, 0)),
    }
}

/// Plans the conversion of every declared input of the document: reads each
/// input's name and `url` value, sets the compatibility shim aside, and
/// decides for each reference whether and how it should be resolved. An input
/// whose value cannot be read as a whole literal, or whose reference is
/// malformed, is skipped with its error recorded; the other inputs are still
/// planned.
pub fn plan_conversions(expr: &Expr) -> (r: Result<Vec<InputPlan>, EditError>)
    ensures
        ({
            let m = conversions_spec(*expr);
            match r {
                Ok(v) => m == Ok::<Seq<InputPlanV>, EditError>(plans_view(v@)),
                Err(e) => m is Err && err_matches(e, m->Err_0),
            }
        }),
{
    let inputs = match crate::matcher::collect_inputs(expr) {
        Ok(v) => v,
        Err(e) => {
            return Err(e);
        },
    };
    let ghost iseq = crate::matcher::derefs(inputs@);
    let mut url_path: Vec<Vec<char>> = Vec::new();
    url_path.push(vec!['u', 'r', 'l']);
    proof {
        assert(url_path.deep_view() =~~= url_attr_path());
    }
    let compat: Vec<char> = vec![
        'g',
        'i',
        't',
        'h',
        'u',
        'b',
        ':',
        'e',
        'd',
        'o',
        'l',
        's',
        't',
        'r',
        'a',
        '/',
        'f',
        'l',
        'a',
        'k',
        'e',
        '-',
        'c',
        'o',
        'm',
        'p',
        'a',
        't',
    ];
    proof {
        assert(compat@ =~= flake_compat_ref());
    }
    let mut out: Vec<InputPlan> = Vec::new();
    proof {
        assert(plans_view(out@) =~= Seq::<InputPlanV>::empty());
        assert(Seq::<InputPlanV>::empty() + plans_of(iseq, 0) =~= plans_of(iseq, 0));
    }
    let mut i: usize = 0;
    while i < inputs.len()
        invariant
            i <= inputs@.len(),
            iseq == crate::matcher::derefs(inputs@),
            iseq.len() == inputs@.len(),
            url_path.deep_view() == url_attr_path(),
            compat@ == flake_compat_ref(),
            conversions_spec(*expr) == Ok::<Seq<InputPlanV>, EditError>(plans_of(iseq, 0)),
            plans_of(iseq, 0) == plans_view(out@) + plans_of(iseq, i as int),
        decreases inputs@.len() - i,
    {
        let b: &Binding = inputs[i];
        proof {
            assert(*b == iseq[i as int]);
        }
        let ghost pm = plan_for_input(iseq[i as int]);
        let plan: InputPlan = match b {
            Binding::Inherit { .. } => InputPlan::NoName,
            Binding::KeyValue { from, to } => {
                match input_name_from(from) {
                    None => InputPlan::NoName,
                    Some(nm) => {
                        match crate::matcher::find_input_value_by_path(&**to, &url_path) {
                            Err(e) => InputPlan::Unreadable { name: nm, error: e },
                            Ok(None) => InputPlan::NoUrl { name: nm },
                            Ok(Some(u)) => {
                                if crate::text::chars_eq(&u, &compat) {
                                    InputPlan::CompatShim { name: nm }
                                } else {
                                    match plan_input_conversion(&u) {
                                        Err(e) => InputPlan::Unreadable { name: nm, error: e },
                                        Ok(InputAction::Resolve { org, project, version }) => {
                                            InputPlan::Resolve {
                                                name: nm,
                                                org,
                                                project,
                                                version,
                                            }
                                        },
                                        Ok(InputAction::Keep { reason }) => {
                                            InputPlan::Unconvertible { name: nm, reason }
                                        },
                                    }
                                }
                            },
                        }
                    },
                }
            },
        };
        proof {
            assert(pm == input_plan_view(plan));
        }
        let ghost pre = out@;
        out.push(plan);
        proof {
            assert(plans_view(out@) =~= plans_view(pre).push(input_plan_view(plan)));
            assert(plans_of(iseq, i as int) == seq![input_plan_view(plan)] + plans_of(
                iseq,
                i + 1,
            ));
            assert(plans_view(pre) + (seq![input_plan_view(plan)] + plans_of(iseq, i + 1))
                =~= plans_view(out@) + plans_of(iseq, i + 1));
        }
        i = i + 1;
    }
    proof {
        assert(plans_of(iseq, iseq.len() as int) =~= Seq::<InputPlanV>::empty());
        assert(plans_view(out@) + Seq::<InputPlanV>::empty() =~= plans_view(out@));
    }
    Ok(out)
}

/// Decides whether `c` is an ASCII decimal digit.
fn is_digit_char(c: char) -> (r: bool)
    ensures
        r == is_ascii_digit(c),
{
    let u = c as u32;
    48 <= u && u <= 57
}

/// Strips a `-small` or `-darwin` suffix off a branch name, if one is there.
fn normalize_branch(b: &Vec<char>) -> (r: Vec<char>)
    ensures
        r@ == normalized_branch(b@),
{
    let small: Vec<char> = vec!['-', 's', 'm', 'a', 'l', 'l'];
    let darwin: Vec<char> = vec!['-', 'd', 'a', 'r', 'w', 'i', 'n'];
    proof {
        assert(small@ =~= small_suffix());
        assert(darwin@ =~= darwin_suffix());
    }
    if crate::text::ends_with_chars(b, &small) {
        crate::text::subrange_chars(b, 0, b.len() - small.len())
    } else if crate::text::ends_with_chars(b, &darwin) {
        crate::text::subrange_chars(b, 0, b.len() - darwin.len())
    } else {
        crate::text::copy_chars(b)
    }
}

/// Classifies a branch name of the `nixos/nixpkgs` project.
pub fn classify_nixpkgs_branch(branch: &Vec<char>) -> (r: BranchClass)
    ensures
        branch_class_view(r) == classify_branch_spec(branch@),
{
    let n = normalize_branch(branch);
    let unstable1: Vec<char> = vec![
        'n',
        'i',
        'x',
        'p',
        'k',
        'g',
        's',
        '-',
        'u',
        'n',
        's',
        't',
        'a',
        'b',
        'l',
        'e',
    ];
    let unstable2: Vec<char> = vec![
        'n',
        'i',
        'x',
        'o',
        's',
        '-',
        'u',
        'n',
        's',
        't',
        'a',
        'b',
        'l',
        'e',
    ];
    proof {
        assert(unstable1@ =~= unstable_nixpkgs());
        assert(unstable2@ =~= unstable_nixos());
    }
    if crate::text::chars_eq(&n, &unstable1) || crate::text::chars_eq(&n, &unstable2) {
        return BranchClass::Unstable;
    }
    let l = n.len();
    if l >= 6 && n[l - 6] == '-' && is_digit_char(n[l - 5]) && is_digit_char(n[l - 4]) && n[l - 3]
        == '.' && is_digit_char(n[l - 2]) && is_digit_char(n[l - 1]) {
        let y: u32 = 10 * (n[l - 5] as u32 - 48) + (n[l - 4] as u32 - 48);
        let m: u32 = 10 * (n[l - 2] as u32 - 48) + (n[l - 1] as u32 - 48);
        if y >= 20 && m >= 3 {
            let mut version: Vec<char> = vec!['0', '.'];
            version.push(n[l - 5]);
            version.push(n[l - 4]);
            version.push(n[l - 2]);
            version.push(n[l - 1]);
            version.push('.');
            version.push('0');
            proof {
                assert(version@ =~= release_version_text(n@));
            }
            BranchClass::Release { version }
        } else {
            BranchClass::PreFlake
        }
    } else {
        BranchClass::Unrecognized
    }
}

/// The attribute path `inputs.<name>.url`.
pub open spec fn input_url_path(name: Seq<char>) -> Seq<Seq<char>> {
    seq![crate::surgeon::inputs_keyword(), name, url_keyword()]
}

/// What rewriting the `url` of the input called `name` yields: the first
/// binding at `inputs.<name>.url` must exist and hold a whole-literal string
/// value, which is replaced in place.
pub open spec fn apply_update_spec(e: Expr, name: Seq<char>, url: Seq<char>, s: Seq<char>) -> Result<
    Seq<char>,
    EditError,
> {
    match first_attr_spec(e, input_url_path(name)) {
        Err(e2) => Err(e2),
        Ok(None) => Err(EditError::MissingAttribute),
        Ok(Some(b)) => match b {
            Binding::Inherit { span } => Err(EditError::UnsupportedConstruct {
                line: span.start.line,
                column: span.start.column,
            }),
            Binding::KeyValue { to, .. } => match *to {
                Expr::Str { parts, .. } => crate::surgeon::replace_input_value_spec(
                    parts@,
                    url,
                    s,
                ),
                Expr::Function { kind, span, .. } => Err(EditError::UnsupportedExpressionKind {
                    kind,
                    line: span.start.line,
                    column: span.start.column,
                }),
                Expr::Other { kind, span } => Err(EditError::UnsupportedExpressionKind {
                    kind,
                    line: span.start.line,
                    column: span.start.column,
                }),
                Expr::AttrSet { span, .. } => Err(EditError::UnsupportedConstruct {
                    line: span.start.line,
                    column: span.start.column,
                }),
            },
        },
    }
}

/// Replaces the string value of `inputs.<input_name>.url` with `new_url`,
/// leaving every other character of the buffer unchanged.
pub fn apply_input_url_update(
    expr: &Expr,
    input_name: &Vec<char>,
    new_url: &Vec<char>,
    buf: &Vec<char>,
) -> (r: Result<Vec<char>, EditError>)
    requires
        buf@.len() < usize::MAX,
    ensures
        crate::surgeon::edit_result_matches(
            r,
            apply_update_spec(*expr, input_name@, new_url@, buf@),
        ),
{
    let mut path: Vec<Vec<char>> = Vec::new();
    path.push(vec!['i', 'n', 'p', 'u', 't', 's']);
    path.push(crate::text::copy_chars(input_name));
    path.push(vec!['u', 'r', 'l']);
    proof {
        assert(path.deep_view() =~~= input_url_path(input_name@));
    }
    match find_first_attrset_by_path(expr, &path) {
        Err(e) => Err(e),
        Ok(None) => Err(EditError::MissingAttribute),
        Ok(Some(b)) => match b {
            Binding::Inherit { span } => Err(EditError::UnsupportedConstruct {
                line: span.start.line,
                column: span.start.column,
            }),
            Binding::KeyValue { to, .. } => match &**to {
                Expr::Str { parts, .. } => crate::surgeon::replace_input_value(
                    parts,
                    new_url,
                    buf,
                ),
                Expr::Function { kind, span, .. } => Err(EditError::UnsupportedExpressionKind {
                    kind: crate::text::copy_chars(kind),
                    line: span.start.line,
                    column: span.start.column,
                }),
                Expr::Other { kind, span } => Err(EditError::UnsupportedExpressionKind {
                    kind: crate::text::copy_chars(kind),
                    line: span.start.line,
                    column: span.start.column,
                }),
                Expr::AttrSet { span, .. } => Err(EditError::UnsupportedConstruct {
                    line: span.start.line,
                    column: span.start.column,
                }),
            },
        },
    }
}

/// `outputs`, the attribute whose function head names the document's inputs.
pub open spec fn outputs_keyword() -> Seq<char> {
    seq!['o', 'u', 't', 'p', 'u', 't', 's']
}

/// Whether one of the destructured arguments equals `ident`.
pub fn args_contain(args: &Vec<Vec<char>>, ident: &Vec<char>) -> (r: bool)
    ensures
        r == args.deep_view().contains(ident@),
{
    let ghost dv = args.deep_view();
    let mut m: usize = 0;
    while m < args.len()
        invariant
            m <= args@.len(),
            dv == args.deep_view(),
            forall|q: int| 0 <= q < m ==> dv[q] != ident@,
        decreases args@.len() - m,
    {
        proof {
            assert(dv[m as int] =~= args@[m as int]@);
        }
        if crate::text::chars_eq(&args[m], ident) {
            proof {
                assert(dv[m as int] == ident@);
                assert(dv.contains(ident@));
            }
            return true;
        }
        m = m + 1;
    }
    proof {
        assert(!dv.contains(ident@)) by {
            if dv.contains(ident@) {
                let w = choose|w: int| 0 <= w < dv.len() && dv[w] == ident@;
            }
        }
    }
    false
}

/// Whether the document needs an explicit `nixpkgs` input: it declares none
/// under `inputs`, yet the destructured head of its `outputs` function names
/// `nixpkgs` as a parameter.
pub open spec fn needs_nixpkgs_spec(e: Expr) -> Result<bool, EditError> {
    match first_attr_spec(e, seq![outputs_keyword()]) {
        Err(e2) => Err(e2),
        Ok(outputs) => match first_attr_spec(
            e,
            seq![crate::surgeon::inputs_keyword(), nixpkgs_project()],
        ) {
            Err(e2) => Err(e2),
            Ok(Some(_)) => Ok(false),
            Ok(None) => match outputs {
                Some(Binding::KeyValue { to, .. }) => match *to {
                    Expr::Function { head: FunctionHead::Destructured { args }, .. } => Ok(
                        args.deep_view().contains(nixpkgs_project()),
                    ),
                    _ => Ok(false),
                },
                _ => Ok(false),
            },
        },
    }
}

/// Decides whether the implicit `nixpkgs` dependency must be made explicit:
/// true exactly when no `inputs.nixpkgs` binding exists and the `outputs`
/// function destructures a parameter named `nixpkgs`.
pub fn needs_explicit_nixpkgs(expr: &Expr) -> (r: Result<bool, EditError>)
    ensures
        ({
            let m = needs_nixpkgs_spec(*expr);
            match r {
                Ok(b) => m == Ok::<bool, EditError>(b),
                Err(e) => m is Err && err_matches(e, m->Err_0),
            }
        }),
{
    let mut outputs_path: Vec<Vec<char>> = Vec::new();
    outputs_path.push(vec!['o', 'u', 't', 'p', 'u', 't', 's']);
    proof {
        assert(outputs_path.deep_view() =~~= seq![outputs_keyword()]);
    }
    let outputs_attr = match find_first_attrset_by_path(expr, &outputs_path) {
        Ok(v) => v,
        Err(e) => {
            return Err(e);
        },
    };
    let mut nixpkgs_path: Vec<Vec<char>> = Vec::new();
    nixpkgs_path.push(vec!['i', 'n', 'p', 'u', 't', 's']);
    nixpkgs_path.push(vec!['n', 'i', 'x', 'p', 'k', 'g', 's']);
    proof {
        assert(nixpkgs_path.deep_view() =~~= seq![
            crate::surgeon::inputs_keyword(),
            nixpkgs_project(),
        ]);
    }
    match find_first_attrset_by_path(expr, &nixpkgs_path) {
        Err(e) => Err(e),
        Ok(Some(_)) => Ok(false),
        Ok(None) => match outputs_attr {
            Some(b) => match b {
                Binding::KeyValue { to, .. } => match &**to {
                    Expr::Function { head: FunctionHead::Destructured { args }, .. } => {
                        let nixpkgs_kw: Vec<char> = vec!['n', 'i', 'x', 'p', 'k', 'g', 's'];
                        proof {
                            assert(nixpkgs_kw@ =~= nixpkgs_project());
                        }
                        Ok(args_contain(args, &nixpkgs_kw))
                    },
                    _ => Ok(false),
                },
                Binding::Inherit { .. } => Ok(false),
            },
            None => Ok(false),
        },
    }
}


/// The span of one attribute-path part.
pub open spec fn part_span(p: Part) -> crate::ast::Span {
    match p {
        Part::Raw(tok) => tok.span,
        Part::Interpolation { span } => span,
    }
}

/// The replacement binding text for the compatibility shim:
/// `<name>.url = "<value>";` inside a plain `inputs = { ... };` set, and
/// `inputs.<name>.url = "<value>";` beside dotted-path bindings.
pub open spec fn compat_binding_text(name: Seq<char>, value: Seq<char>, nested: bool) -> Seq<char> {
    (if nested {
        seq!['i', 'n', 'p', 'u', 't', 's', '.']
    } else {
        Seq::<char>::empty()
    }) + name + seq!['.', 'u', 'r', 'l', ' ', '=', ' ', '"'] + value + seq!['"', ';']
}

/// Builds the replacement binding text for the compatibility shim.
fn build_compat_binding_text(name: &Vec<char>, value: &Vec<char>, nested: bool) -> (r: Vec<char>)
    ensures
        r@ == compat_binding_text(name@, value@, nested),
{
    let mut t: Vec<char> = Vec::new();
    if nested {
        t.push('i');
        t.push('n');
        t.push('p');
        t.push('u');
        t.push('t');
        t.push('s');
        t.push('.');
    }
    crate::text::append_chars(&mut t, name);
    let mid: Vec<char> = vec!['.', 'u', 'r', 'l', ' ', '=', ' ', '"'];
    crate::text::append_chars(&mut t, &mid);
    crate::text::append_chars(&mut t, value);
    t.push('"');
    t.push(';');
    proof {
        assert(t@ =~= compat_binding_text(name@, value@, nested));
    }
    t
}

/// What fixing up the compatibility shim yields. The binding at
/// `inputs.<name>` is located in the freshly re-parsed tree; the text from
/// the start of its first path part through the character just past its value
/// is deleted; and the replacement binding text is written at the indentation
/// point of that line, in the single-binding form when the whole `inputs`
/// attribute is one plain set and in the dotted form otherwise.
pub open spec fn fixup_spec(e: Expr, name: Seq<char>, value: Seq<char>, s: Seq<char>) -> Result<
    Seq<char>,
    EditError,
> {
    match first_attr_spec(e, seq![crate::surgeon::inputs_keyword(), name]) {
        Err(e2) => Err(e2),
        Ok(None) => Err(EditError::MissingAttribute),
        Ok(Some(b)) => match b {
            Binding::Inherit { span } => Err(EditError::UnsupportedConstruct {
                line: span.start.line,
                column: span.start.column,
            }),
            Binding::KeyValue { from, to } => if from@.len() == 0 {
                Err(EditError::MissingAttribute)
            } else {
                let fs = part_span(from@[0]).start;
                let te = (*to).spec_span().end;
                match (crate::text::offset_of(s, fs), crate::text::offset_of(
                    s,
                    crate::ast::Position { line: fs.line, column: 1 },
                )) {
                    (Some(st), Some(ls)) => if ls <= st {
                        let ins_pos = crate::ast::Position {
                            line: fs.line,
                            column: (st - ls + 1) as usize,
                        };
                        match crate::text::offset_of(s, ins_pos) {
                            Some(off) => match crate::text::offset_of(s, te) {
                                Some(en) => if st <= en && off <= st {
                                    let removed = crate::text::splice(
                                        s,
                                        st,
                                        en + 1,
                                        Seq::empty(),
                                    );
                                    match first_attr_spec(e, seq![crate::surgeon::inputs_keyword()]) {
                                        Err(e2) => Err(e2),
                                        Ok(None) => Err(EditError::MissingAttribute),
                                        Ok(Some(ib)) => match ib {
                                            Binding::Inherit { span } => Err(
                                                EditError::UnsupportedConstruct {
                                                    line: span.start.line,
                                                    column: span.start.column,
                                                },
                                            ),
                                            Binding::KeyValue { from: ifrom, .. } => Ok(
                                                crate::text::splice(
                                                    removed,
                                                    off,
                                                    off,
                                                    compat_binding_text(
                                                        name,
                                                        value,
                                                        ifrom@.len() != 1,
                                                    ),
                                                ),
                                            ),
                                        },
                                    }
                                } else {
                                    Err(EditError::PositionNotFound {
                                        line: te.line,
                                        column: te.column,
                                    })
                                },
                                None => Err(EditError::PositionNotFound {
                                    line: te.line,
                                    column: te.column,
                                }),
                            },
                            None => Err(EditError::PositionNotFound {
                                line: ins_pos.line,
                                column: ins_pos.column,
                            }),
                        }
                    } else {
                        Err(EditError::PositionNotFound { line: fs.line, column: fs.column })
                    },
                    (None, _) => Err(EditError::PositionNotFound {
                        line: fs.line,
                        column: fs.column,
                    }),
                    (Some(_), None) => Err(EditError::PositionNotFound { line: fs.line, column: 1 }),
                }
            },
        },
    }
}

/// Rewrites the compatibility-shim binding in place against a freshly
/// re-parsed tree: the old binding is deleted from the start of its path
/// through the character just past its value, and the replacement binding is
/// written at the original line's indentation point, shaped after how the
/// document declares its `inputs`.
pub fn fixup_flake_compat_input(
    expr: &Expr,
    input_name: &Vec<char>,
    new_value: &Vec<char>,
    buf: &Vec<char>,
) -> (r: Result<Vec<char>, EditError>)
    requires
        buf@.len() < usize::MAX,
    ensures
        crate::surgeon::edit_result_matches(
            r,
            fixup_spec(*expr, input_name@, new_value@, buf@),
        ),
{
    let mut path: Vec<Vec<char>> = Vec::new();
    path.push(vec!['i', 'n', 'p', 'u', 't', 's']);
    path.push(crate::text::copy_chars(input_name));
    proof {
        assert(path.deep_view() =~~= seq![crate::surgeon::inputs_keyword(), input_name@]);
    }
    let found = match find_first_attrset_by_path(expr, &path) {
        Ok(v) => v,
        Err(e) => {
            return Err(e);
        },
    };
    let b = match found {
        Some(b) => b,
        None => {
            return Err(EditError::MissingAttribute);
        },
    };
    match b {
        Binding::Inherit { span } => Err(EditError::UnsupportedConstruct {
            line: span.start.line,
            column: span.start.column,
        }),
        Binding::KeyValue { from, to } => {
            if from.len() == 0 {
                return Err(EditError::MissingAttribute);
            }
            let fs = match &from[0] {
                Part::Raw(tok) => tok.span.start,
                Part::Interpolation { span } => span.start,
            };
            let te = to.span().end;
            let st = crate::text::position_to_offset(buf, fs)?;
            let ls = match crate::text::position_to_offset(
                buf,
                crate::ast::Position { line: fs.line, column: 1 },
            ) {
                Ok(v) => v,
                Err(_) => {
                    return Err(EditError::PositionNotFound { line: fs.line, column: 1 });
                },
            };
            if ls > st {
                return Err(EditError::PositionNotFound { line: fs.line, column: fs.column });
            }
            proof {
                crate::text::lemma_position_offset_round_trip(buf@, fs);
            }
            let ins_pos = crate::ast::Position { line: fs.line, column: st - ls + 1 };
            let off = match crate::text::position_to_offset(buf, ins_pos) {
                Ok(v) => v,
                Err(_) => {
                    return Err(EditError::PositionNotFound {
                        line: ins_pos.line,
                        column: ins_pos.column,
                    });
                },
            };
            let en = match crate::text::position_to_offset(buf, te) {
                Ok(v) => v,
                Err(_) => {
                    return Err(EditError::PositionNotFound { line: te.line, column: te.column });
                },
            };
            if !(st <= en && off <= st) {
                return Err(EditError::PositionNotFound { line: te.line, column: te.column });
            }
            proof {
                crate::text::lemma_position_offset_round_trip(buf@, te);
            }
            let empty: Vec<char> = Vec::new();
            let removed = crate::text::splice_chars(buf, st, en + 1, &empty);
            let mut inputs_path: Vec<Vec<char>> = Vec::new();
            inputs_path.push(vec!['i', 'n', 'p', 'u', 't', 's']);
            proof {
                assert(inputs_path.deep_view() =~~= seq![crate::surgeon::inputs_keyword()]);
            }
            match find_first_attrset_by_path(expr, &inputs_path) {
                Err(e) => Err(e),
                Ok(None) => Err(EditError::MissingAttribute),
                Ok(Some(ib)) => match ib {
                    Binding::Inherit { span } => Err(EditError::UnsupportedConstruct {
                        line: span.start.line,
                        column: span.start.column,
                    }),
                    Binding::KeyValue { from: ifrom, .. } => {
                        let text = build_compat_binding_text(
                            input_name,
                            new_value,
                            ifrom.len() != 1,
                        );
                        proof {
                            assert(off <= removed@.len());
                        }
                        Ok(crate::text::splice_chars(&removed, off, off, &text))
                    },
                },
            }
        },
    }
}

} // verus!
