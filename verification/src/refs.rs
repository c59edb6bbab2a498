//! Interpreting a user-supplied flake reference: deciding whether it is a
//! scheme-style reference, a short `org/repo[/version]` form that the
//! registry must resolve, or a full URL, and inferring the input name where
//! one is not given.

use vstd::prelude::*;

use crate::ast::Expr;
use crate::convert::strip_v_prefix;
use crate::err::{err_matches, EditError};
use crate::outside::{url_outcome_of, UrlOutcomeV};
use crate::text::{ends_with, split_char};

verus! {

/// `.tar.gz`, the archive suffix a short-form version may carry.
pub open spec fn tar_gz_suffix() -> Seq<char> {
    seq!['.', 't', 'a', 'r', '.', 'g', 'z']
}

/// A short-form version with its `.tar.gz` suffix and `v` prefix stripped.
pub open spec fn short_version(v: Seq<char>) -> Seq<char> {
    strip_v_prefix(
        if ends_with(v, tar_gz_suffix()) {
            v.take(v.len() - tar_gz_suffix().len())
        } else {
            v
        },
    )
}

/// How a flake reference is interpreted.
#[derive(Debug)]
pub enum InferredRef {
    /// A hostless URL such as `github:nixos/nixpkgs`: used as the input URL
    /// directly, named after its second path segment unless a name was given.
    SchemeRef { name: Vec<char>, url: Vec<char> },
    /// A short `org/repo[/version]` form: the registry resolves it, and the
    /// resolved project name stands in unless a name was given.
    ShortForm { org: Vec<char>, repo: Vec<char>, version: Option<Vec<char>> },
    /// A full URL with a host: used directly; the name must be given.
    FullUrl { name: Vec<char>, url: Vec<char> },
}

/// An interpreted reference over character sequences.
pub enum InferredRefV {
    SchemeRef { name: Seq<char>, url: Seq<char> },
    ShortForm { org: Seq<char>, repo: Seq<char>, version: Option<Seq<char>> },
    FullUrl { name: Seq<char>, url: Seq<char> },
}

/// The interpretation a caller holds, viewed over character sequences.
pub open spec fn inferred_ref_view(r: InferredRef) -> InferredRefV {
    match r {
        InferredRef::SchemeRef { name, url } => InferredRefV::SchemeRef {
            name: name@,
            url: url@,
        },
        InferredRef::ShortForm { org, repo, version } => InferredRefV::ShortForm {
            org: org@,
            repo: repo@,
            version: match version {
                Some(v) => Some(v@),
                None => None,
            },
        },
        InferredRef::FullUrl { name, url } => InferredRefV::FullUrl { name: name@, url: url@ },
    }
}

/// An optional character vector passed by reference, viewed as an optional
/// sequence.
pub open spec fn opt_name_view(a: Option<&Vec<char>>) -> Option<Seq<char>> {
    match a {
        Some(v) => Some(v@),
        None => None,
    }
}

/// What interpreting a reference yields. A URL without a host is used as it
/// re-serializes, named by the given name or its second path segment; a
/// relative reference must be `org/repo` or `org/repo/version`, with the
/// version stripped of any `.tar.gz` suffix and `v` prefix; a URL with a host
/// needs an explicit name; anything else is no flake reference.
pub open spec fn infer_spec(refstr: Seq<char>, given: Option<Seq<char>>) -> Result<
    InferredRefV,
    EditError,
> {
    match url_outcome_of(refstr) {
        UrlOutcomeV::Parsed(p) => if !p.has_host {
            match given {
                Some(n) => Ok(InferredRefV::SchemeRef { name: n, url: p.rendered }),
                None => {
                    let parts = split_char(p.path, '/');
                    if parts.len() >= 2 {
                        Ok(InferredRefV::SchemeRef { name: parts[1], url: p.rendered })
                    } else {
                        Err(EditError::AmbiguousName)
                    }
                },
            }
        } else {
            match given {
                Some(n) => Ok(InferredRefV::FullUrl { name: n, url: p.rendered }),
                None => Err(EditError::AmbiguousName),
            }
        },
        UrlOutcomeV::RelativeWithoutBase => {
            let parts = split_char(refstr, '/');
            if parts.len() == 3 {
                Ok(
                    InferredRefV::ShortForm {
                        org: parts[0],
                        repo: parts[1],
                        version: Some(short_version(parts[2])),
                    },
                )
            } else if parts.len() == 2 {
                Ok(InferredRefV::ShortForm { org: parts[0], repo: parts[1], version: None })
            } else {
                Err(EditError::MalformedReference)
            }
        },
        UrlOutcomeV::Invalid => Err(EditError::InvalidFlakeRef),
    }
}

/// Interprets the reference a caller supplied, together with the input name
/// it may have chosen.
pub fn infer_flake_input_name_url(flake_ref: &Vec<char>, input_name: Option<&Vec<char>>) -> (r:
    Result<InferredRef, EditError>)
    ensures
        ({
            let m = infer_spec(flake_ref@, opt_name_view(input_name));
            match r {
                Ok(ir) => m == Ok::<InferredRefV, EditError>(inferred_ref_view(ir)),
                Err(e) => m is Err && err_matches(e, m->Err_0),
            }
        }),
{
    match crate::outside::parse_url_outcome(flake_ref) {
        crate::outside::UrlParseOutcome::Parsed(p) => {
            if !p.has_host {
                match input_name {
                    Some(n) => Ok(InferredRef::SchemeRef {
                        name: crate::text::copy_chars(n),
                        url: p.rendered,
                    }),
                    None => {
                        let ghost pm = split_char(p.path@, '/');
                        let parts = crate::text::split_chars(&p.path, '/');
                        if parts.len() >= 2 {
                            proof {
                                assert(parts@[1]@ =~= pm[1]);
                            }
                            Ok(InferredRef::SchemeRef {
                                name: crate::text::copy_chars(&parts[1]),
                                url: p.rendered,
                            })
                        } else {
                            Err(EditError::AmbiguousName)
                        }
                    },
                }
            } else {
                match input_name {
                    Some(n) => Ok(InferredRef::FullUrl {
                        name: crate::text::copy_chars(n),
                        url: p.rendered,
                    }),
                    None => Err(EditError::AmbiguousName),
                }
            }
        },
        crate::outside::UrlParseOutcome::RelativeWithoutBase => {
            let ghost pm = split_char(flake_ref@, '/');
            let parts = crate::text::split_chars(flake_ref, '/');
            if parts.len() == 3 {
                proof {
                    assert(parts@[0]@ =~= pm[0]);
                    assert(parts@[1]@ =~= pm[1]);
                    assert(parts@[2]@ =~= pm[2]);
                }
                let tgz: Vec<char> = vec!['.', 't', 'a', 'r', '.', 'g', 'z'];
                proof {
                    assert(tgz@ =~= tar_gz_suffix());
                }
                let vb = &parts[2];
                let without_tgz: Vec<char> = if crate::text::ends_with_chars(vb, &tgz) {
                    crate::text::subrange_chars(vb, 0, vb.len() - tgz.len())
                } else {
                    crate::text::copy_chars(vb)
                };
                let version: Vec<char> = if without_tgz.len() > 0 && without_tgz[0] == 'v' {
                    crate::text::subrange_chars(&without_tgz, 1, without_tgz.len())
                } else {
                    without_tgz
                };
                proof {
                    assert(version@ =~= short_version(pm[2]));
                }
                Ok(InferredRef::ShortForm {
                    org: crate::text::copy_chars(&parts[0]),
                    repo: crate::text::copy_chars(&parts[1]),
                    version: Some(version),
                })
            } else if parts.len() == 2 {
                proof {
                    assert(parts@[0]@ =~= pm[0]);
                    assert(parts@[1]@ =~= pm[1]);
                }
                Ok(InferredRef::ShortForm {
                    org: crate::text::copy_chars(&parts[0]),
                    repo: crate::text::copy_chars(&parts[1]),
                    version: None,
                })
            } else {
                Err(EditError::MalformedReference)
            }
        },
        crate::outside::UrlParseOutcome::Invalid => Err(EditError::InvalidFlakeRef),
    }
}

/// The registry request path that resolves `org/repo`: under `version` with
/// the wanted version, or under `f` for the latest release.
pub open spec fn request_segments_spec(
    org: Seq<char>,
    repo: Seq<char>,
    version: Option<Seq<char>>,
) -> Seq<Seq<char>> {
    match version {
        Some(v) => seq![seq!['v', 'e', 'r', 's', 'i', 'o', 'n'], org, repo, v],
        None => seq![seq!['f'], org, repo],
    }
}

/// Builds the registry request path segments for resolving `org/repo`.
pub fn flakehub_request_segments(
    org: &Vec<char>,
    repo: &Vec<char>,
    version: Option<&Vec<char>>,
) -> (r: Vec<Vec<char>>)
    ensures
        r.deep_view() == request_segments_spec(org@, repo@, opt_name_view(version)),
{
    let mut out: Vec<Vec<char>> = Vec::new();
    match version {
        Some(v) => {
            out.push(vec!['v', 'e', 'r', 's', 'i', 'o', 'n']);
            out.push(crate::text::copy_chars(org));
            out.push(crate::text::copy_chars(repo));
            out.push(crate::text::copy_chars(v));
            proof {
                assert(out.deep_view() =~~= request_segments_spec(org@, repo@, Some(v@)));
            }
        },
        None => {
            out.push(vec!['f']);
            out.push(crate::text::copy_chars(org));
            out.push(crate::text::copy_chars(repo));
            proof {
                assert(out.deep_view() =~~= request_segments_spec(
                    org@,
                    repo@,
                    None::<Seq<char>>,
                ));
            }
        },
    }
    out
}

/// Whether the parsed document is an attribute set with no bindings at all —
/// the case in which a caller substitutes the skeleton document before
/// editing.
pub fn flake_doc_is_empty_attrset(expr: &Expr) -> (r: bool)
    ensures
        r == match *expr {
            Expr::AttrSet { bindings, .. } => bindings@.len() == 0,
            _ => false,
        },
{
    match expr {
        Expr::AttrSet { bindings, .. } => bindings.len() == 0,
        _ => false,
    }
}

} // verus!
