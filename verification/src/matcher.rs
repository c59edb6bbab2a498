//! The attribute-path matcher: walking the parsed tree, consuming one path
//! segment per nesting level of key-value bindings, and returning the raw
//! string token at the matched leaf, or the anchor token to insert above when
//! nothing matches.

use vstd::prelude::*;

use crate::ast::{Binding, Expr, Part, RawToken, token_matches};
use crate::err::{EditError, err_matches};

verus! {

/// The raw path segments of a binding's left-hand side: the contents of its
/// `Raw` parts in order; interpolated parts contribute no segment.
pub open spec fn raw_segments(parts: Seq<Part>) -> Seq<Seq<char>>
    decreases parts.len(),
{
    if parts.len() == 0 {
        Seq::empty()
    } else {
        raw_segments(parts.drop_last()) + match parts.last() {
            Part::Raw(tok) => seq![tok.content@],
            Part::Interpolation { .. } => Seq::<Seq<char>>::empty(),
        }
    }
}

/// The first `Raw` part of a binding's left-hand side, recorded as the
/// insertion anchor the first time any binding is visited.
pub open spec fn first_raw(parts: Seq<Part>) -> Option<RawToken>
    decreases parts.len(),
{
    if parts.len() == 0 {
        None
    } else {
        match parts[0] {
            Part::Raw(tok) => Some(tok),
            Part::Interpolation { .. } => first_raw(parts.skip(1)),
        }
    }
}

/// The length of the longest common prefix of two segment sequences.
pub open spec fn lcp(a: Seq<Seq<char>>, b: Seq<Seq<char>>) -> int
    decreases a.len(),
{
    if a.len() == 0 || b.len() == 0 || a[0] != b[0] {
        0
    } else {
        1 + lcp(a.skip(1), b.skip(1))
    }
}

/// `lcp` is pinned down by its first-mismatch characterization.
proof fn lemma_lcp_characterization(a: Seq<Seq<char>>, b: Seq<Seq<char>>, k: int)
    requires
        0 <= k <= a.len(),
        k <= b.len(),
        forall|m: int| 0 <= m < k ==> a[m] == b[m],
        k == a.len() || k == b.len() || a[k] != b[k],
    ensures
        lcp(a, b) == k,
    decreases k,
{
    if k == 0 {
    } else {
        assert(a[0] == b[0]);
        lemma_lcp_characterization(a.skip(1), b.skip(1), k - 1);
    }
}

/// What the matcher reports: either the raw token of the matched string leaf
/// (`site` is `None` when the leaf string has no parts at all, so there is
/// nothing to edit), or no match together with the anchor token recorded for
/// insertion.
#[derive(Debug)]
pub enum FindOutcome {
    Matched { site: Option<RawToken> },
    NotFound { anchor: Option<RawToken> },
}

/// Outcome equality up to the view of the embedded token contents.
pub open spec fn outcome_matches(a: FindOutcome, b: FindOutcome) -> bool {
    match (a, b) {
        (FindOutcome::Matched { site: s1 }, FindOutcome::Matched { site: s2 }) => match (s1, s2) {
            (None, None) => true,
            (Some(x), Some(y)) => token_matches(x, y),
            _ => false,
        },
        (FindOutcome::NotFound { anchor: a1 }, FindOutcome::NotFound { anchor: a2 }) => match (
            a1,
            a2,
        ) {
            (None, None) => true,
            (Some(x), Some(y)) => token_matches(x, y),
            _ => false,
        },
        _ => false,
    }
}

/// Result equality over `outcome_matches` and `err_matches`.
pub open spec fn find_result_matches(
    r: Result<FindOutcome, EditError>,
    m: Result<FindOutcome, EditError>,
) -> bool {
    match (r, m) {
        (Ok(a), Ok(b)) => outcome_matches(a, b),
        (Err(a), Err(b)) => err_matches(a, b),
        _ => false,
    }
}

/// What matching means at a string leaf: an empty parts list matches with
/// nothing to edit; a single raw part is the replaceable site; interpolation
/// or several parts cannot be replaced as a whole literal.
pub open spec fn str_leaf_outcome(parts: Seq<Part>, span: crate::ast::Span) -> Result<
    FindOutcome,
    EditError,
> {
    if parts.len() == 0 {
        Ok(FindOutcome::Matched { site: None })
    } else {
        match parts[0] {
            Part::Raw(tok) => if parts.len() > 1 {
                Err(EditError::MultiPartValue {
                    line: span.start.line,
                    column: span.start.column,
                })
            } else {
                Ok(FindOutcome::Matched { site: Some(tok) })
            },
            Part::Interpolation { span: isp } => Err(EditError::UnsupportedConstruct {
                line: isp.start.line,
                column: isp.start.column,
            }),
        }
    }
}

/// The matcher's walk over one expression. Bindings of an attribute set are
/// scanned in source order; the first binding whose own segments are a prefix
/// of the remaining target path is descended into and no later sibling is
/// tried. A string leaf is the matched value whatever target path remains;
/// any other leaf is unsupported.
pub open spec fn find_spec(e: Expr, path: Seq<Seq<char>>, anchor: Option<RawToken>) -> Result<
    FindOutcome,
    EditError,
>
    decreases e, 0nat,
{
    match e {
        Expr::AttrSet { bindings, .. } => find_in_bindings(bindings@, 0, path, anchor),
        Expr::Str { parts, span } => str_leaf_outcome(parts@, span),
        Expr::Function { kind, span, .. } => Err(EditError::UnsupportedExpressionKind {
            kind,
            line: span.start.line,
            column: span.start.column,
        }),
        Expr::Other { kind, span } => Err(EditError::UnsupportedExpressionKind {
            kind,
            line: span.start.line,
            column: span.start.column,
        }),
    }
}

/// The walk over the bindings of one attribute set, from index `i` on, with
/// the anchor recorded so far.
pub open spec fn find_in_bindings(
    bs: Seq<Binding>,
    i: int,
    path: Seq<Seq<char>>,
    anchor: Option<RawToken>,
) -> Result<FindOutcome, EditError>
    decreases bs, bs.len() - i + 1,
{
    if i < 0 || i >= bs.len() {
        Ok(FindOutcome::NotFound { anchor })
    } else {
        match bs[i] {
            Binding::Inherit { span } => Err(EditError::UnsupportedConstruct {
                line: span.start.line,
                column: span.start.column,
            }),
            Binding::KeyValue { from, to } => {
                let segs = raw_segments(from@);
                let anchor2 = if anchor is Some {
                    anchor
                } else {
                    first_raw(from@)
                };
                let k = lcp(segs, path);
                if k == segs.len() {
                    find_spec(*to, path.skip(k), anchor2)
                } else {
                    find_in_bindings(bs, i + 1, path, anchor2)
                }
            },
        }
    }
}

/// Copies the raw segments of a binding's left-hand side.
fn collect_raw_segments(parts: &Vec<Part>) -> (r: Vec<Vec<char>>)
    ensures
        r.deep_view() == raw_segments(parts@),
{
    let mut out: Vec<Vec<char>> = Vec::new();
    let mut j: usize = 0;
    while j < parts.len()
        invariant
            j <= parts@.len(),
            out.deep_view() == raw_segments(parts@.take(j as int)),
        decreases parts@.len() - j,
    {
        let ghost pre = out.deep_view();
        match &parts[j] {
            Part::Raw(tok) => {
                let seg = crate::text::copy_chars(&tok.content);
                proof {
                    assert(seg.deep_view() =~= seg@);
                }
                out.push(seg);
                assert(out.deep_view() =~= pre.push(tok.content@));
            },
            Part::Interpolation { .. } => {},
        }
        proof {
            assert(parts@.take(j + 1).drop_last() =~= parts@.take(j as int));
            assert(parts@.take(j + 1).last() == parts@[j as int]);
            assert(out.deep_view() =~= raw_segments(parts@.take(j + 1)));
        }
        j = j + 1;
    }
    assert(parts@.take(parts@.len() as int) =~= parts@);
    out
}

/// The first raw part of a binding's left-hand side, if any.
fn first_raw_part<'a>(parts: &'a Vec<Part>) -> (r: Option<&'a RawToken>)
    ensures
        match r {
            Some(x) => first_raw(parts@) == Some(*x),
            None => first_raw(parts@) is None,
        },
{
    proof {
        assert(parts@.skip(0) =~= parts@);
    }
    let mut j: usize = 0;
    while j < parts.len()
        invariant
            j <= parts@.len(),
            first_raw(parts@) == first_raw(parts@.skip(j as int)),
        decreases parts@.len() - j,
    {
        match &parts[j] {
            Part::Raw(tok) => {
                proof {
                    assert(parts@.skip(j as int)[0] == parts@[j as int]);
                    assert(first_raw(parts@.skip(j as int)) == Some(*tok));
                }
                return Some(tok);
            },
            Part::Interpolation { .. } => {
                proof {
                    assert(parts@.skip(j as int)[0] == parts@[j as int]);
                    assert(parts@.skip(j as int).skip(1) =~= parts@.skip(j + 1));
                    assert(first_raw(parts@.skip(j as int)) == first_raw(parts@.skip(j + 1)));
                }
            },
        }
        j = j + 1;
    }
    proof {
        assert(parts@.skip(parts@.len() as int) =~= Seq::<Part>::empty());
        assert(first_raw(parts@) is None);
    }
    None
}

/// How many leading segments of `segs` equal the target path from
/// `path_idx` on.
fn lcp_index(segs: &Vec<Vec<char>>, path: &Vec<Vec<char>>, path_idx: usize) -> (k: usize)
    requires
        path_idx <= path@.len(),
    ensures
        k as int == lcp(segs.deep_view(), path.deep_view().skip(path_idx as int)),
        k <= segs@.len(),
        path_idx + k <= path@.len() <= usize::MAX,
{
    let path_len = path.len();
    let ghost a = segs.deep_view();
    let ghost b = path.deep_view().skip(path_idx as int);
    let mut k: usize = 0;
    loop
        invariant
            path_idx <= path@.len(),
            path_len == path@.len(),
            a == segs.deep_view(),
            b == path.deep_view().skip(path_idx as int),
            a.len() == segs@.len(),
            b.len() == path@.len() - path_idx,
            k <= a.len(),
            path_idx + k <= path@.len(),
            forall|m: int| 0 <= m < k ==> a[m] == b[m],
        decreases a.len() - k,
    {
        if k >= segs.len() || k >= path_len - path_idx {
            proof {
                lemma_lcp_characterization(a, b, k as int);
            }
            return k;
        }
        if !crate::text::chars_eq(&segs[k], &path[path_idx + k]) {
            proof {
                assert(a[k as int] =~= segs@[k as int]@);
                assert(b[k as int] =~= path@[path_idx + k]@);
                lemma_lcp_characterization(a, b, k as int);
            }
            return k;
        }
        proof {
            assert(a[k as int] =~= segs@[k as int]@);
            assert(b[k as int] =~= path@[path_idx + k]@);
        }
        k = k + 1;
    }
}

/// The matcher's outcome carrying references into the tree.
enum Located<'a> {
    Matched { site: Option<&'a RawToken> },
    NotFound { anchor: Option<&'a RawToken> },
}

spec fn located_view(o: Located) -> FindOutcome {
    match o {
        Located::Matched { site } => FindOutcome::Matched {
            site: match site {
                Some(x) => Some(*x),
                None => None,
            },
        },
        Located::NotFound { anchor } => FindOutcome::NotFound {
            anchor: match anchor {
                Some(x) => Some(*x),
                None => None,
            },
        },
    }
}

spec fn anchor_view(a: Option<&RawToken>) -> Option<RawToken> {
    match a {
        Some(x) => Some(*x),
        None => None,
    }
}

/// The recursive walk; `path_idx` is how much of the target path has been
/// consumed, `anchor` the first raw token recorded so far.
fn find_rec<'a>(
    expr: &'a Expr,
    path: &Vec<Vec<char>>,
    path_idx: usize,
    anchor: Option<&'a RawToken>,
) -> (r: Result<Located<'a>, EditError>)
    requires
        path_idx <= path@.len(),
    ensures
        match r {
            Ok(o) => find_spec(*expr, path.deep_view().skip(path_idx as int), anchor_view(anchor))
                == Ok::<FindOutcome, EditError>(located_view(o)),
            Err(e) => {
                &&& find_spec(
                    *expr,
                    path.deep_view().skip(path_idx as int),
                    anchor_view(anchor),
                ) is Err
                &&& err_matches(
                    e,
                    find_spec(
                        *expr,
                        path.deep_view().skip(path_idx as int),
                        anchor_view(anchor),
                    )->Err_0,
                )
            },
        },
    decreases *expr,
{
    let ghost pv = path.deep_view().skip(path_idx as int);
    match expr {
        Expr::AttrSet { bindings, .. } => {
            proof {
                assert(find_spec(*expr, pv, anchor_view(anchor)) == find_in_bindings(
                    bindings@,
                    0,
                    pv,
                    anchor_view(anchor),
                ));
            }
            let mut anch: Option<&'a RawToken> = anchor;
            let mut i: usize = 0;
            while i < bindings.len()
                invariant
                    path_idx <= path@.len(),
                    pv == path.deep_view().skip(path_idx as int),
                    i <= bindings@.len(),
                    find_spec(*expr, pv, anchor_view(anchor)) == find_in_bindings(
                        bindings@,
                        i as int,
                        pv,
                        anchor_view(anch),
                    ),
                    *expr == (Expr::AttrSet { bindings: *bindings, span: expr->AttrSet_span }),
                decreases bindings@.len() - i,
            {
                let ghost pre_anch = anchor_view(anch);
                match &bindings[i] {
                    Binding::Inherit { span } => {
                        proof {
                            assert(find_in_bindings(bindings@, i as int, pv, pre_anch)
                                == Err::<FindOutcome, EditError>(
                                EditError::UnsupportedConstruct {
                                    line: span.start.line,
                                    column: span.start.column,
                                },
                            ));
                        }
                        return Err(EditError::UnsupportedConstruct {
                            line: span.start.line,
                            column: span.start.column,
                        });
                    },
                    Binding::KeyValue { from, to } => {
                        if anch.is_none() {
                            anch = first_raw_part(from);
                        }
                        proof {
                            assert(anchor_view(anch) == if pre_anch is Some {
                                pre_anch
                            } else {
                                first_raw(from@)
                            });
                            assert(find_in_bindings(bindings@, i as int, pv, pre_anch)
                                == find_in_bindings(bindings@, i as int, pv, anchor_view(anch)));
                        }
                        let segs = collect_raw_segments(from);
                        let k = lcp_index(&segs, path, path_idx);
                        if k == segs.len() {
                            proof {
                                assert(decreases_to!(*expr => expr->AttrSet_bindings));
                                assert(decreases_to!(expr->AttrSet_bindings =>
                                    expr->AttrSet_bindings@));
                                assert(expr->AttrSet_bindings@ == bindings@);
                                assert(decreases_to!(bindings@ => bindings@[i as int]));
                                assert(decreases_to!(bindings@[i as int] =>
                                    bindings@[i as int]->KeyValue_to));
                                assert(bindings@[i as int]->KeyValue_to == *to);
                                assert(path.deep_view().skip(path_idx + k) =~= pv.skip(k as int));
                                assert(find_in_bindings(bindings@, i as int, pv, anchor_view(anch))
                                    == find_spec(**to, pv.skip(k as int), anchor_view(anch)));
                            }
                            let res = find_rec(&**to, path, path_idx + k, anch);
                            return res;
                        }
                        proof {
                            assert(find_in_bindings(bindings@, i as int, pv, anchor_view(anch))
                                == find_in_bindings(bindings@, i + 1, pv, anchor_view(anch)));
                        }
                    },
                }
                i = i + 1;
            }
            proof {
                assert(find_in_bindings(bindings@, bindings@.len() as int, pv, anchor_view(anch))
                    == Ok::<FindOutcome, EditError>(
                    FindOutcome::NotFound { anchor: anchor_view(anch) },
                ));
            }
            Ok(Located::NotFound { anchor: anch })
        },
        Expr::Str { parts, span } => {
            if parts.len() == 0 {
                Ok(Located::Matched { site: None })
            } else {
                match &parts[0] {
                    Part::Raw(tok) => {
                        if parts.len() > 1 {
                            Err(EditError::MultiPartValue {
                                line: span.start.line,
                                column: span.start.column,
                            })
                        } else {
                            Ok(Located::Matched { site: Some(tok) })
                        }
                    },
                    Part::Interpolation { span: isp } => Err(EditError::UnsupportedConstruct {
                        line: isp.start.line,
                        column: isp.start.column,
                    }),
                }
            }
        },
        Expr::Function { kind, span, .. } => Err(EditError::UnsupportedExpressionKind {
            kind: crate::text::copy_chars(kind),
            line: span.start.line,
            column: span.start.column,
        }),
        Expr::Other { kind, span } => Err(EditError::UnsupportedExpressionKind {
            kind: crate::text::copy_chars(kind),
            line: span.start.line,
            column: span.start.column,
        }),
    }
}

/// The first-binding lookup: walking down the tree for `path` and returning
/// the first binding whose own segments extend or equal the remaining path.
pub open spec fn first_attr_spec(e: Expr, path: Seq<Seq<char>>) -> Result<Option<Binding>, EditError>
    decreases e, 0nat,
{
    match e {
        Expr::AttrSet { bindings, .. } => first_attr_in_bindings(bindings@, 0, path),
        _ => Ok(None),
    }
}

/// The first-binding lookup over the bindings of one attribute set, from
/// index `i` on. A binding whose segments start with the whole remaining path
/// is the match; one whose segments are a proper prefix of the path is
/// descended into, and no later sibling is tried after that.
pub open spec fn first_attr_in_bindings(bs: Seq<Binding>, i: int, path: Seq<Seq<char>>) -> Result<
    Option<Binding>,
    EditError,
>
    decreases bs, bs.len() - i + 1,
{
    if i < 0 || i >= bs.len() {
        Ok(None)
    } else {
        match bs[i] {
            Binding::Inherit { span } => Err(EditError::UnsupportedConstruct {
                line: span.start.line,
                column: span.start.column,
            }),
            Binding::KeyValue { from, to } => {
                let segs = raw_segments(from@);
                let k = lcp(segs, path);
                if k == path.len() {
                    Ok(Some(bs[i]))
                } else if k == segs.len() {
                    first_attr_spec(*to, path.skip(k))
                } else {
                    first_attr_in_bindings(bs, i + 1, path)
                }
            },
        }
    }
}

/// The recursive walk behind `find_first_attrset_by_path`.
fn first_attr_rec<'a>(expr: &'a Expr, path: &Vec<Vec<char>>, path_idx: usize) -> (r: Result<
    Option<&'a Binding>,
    EditError,
>)
    requires
        path_idx <= path@.len(),
    ensures
        ({
            let m = first_attr_spec(*expr, path.deep_view().skip(path_idx as int));
            match r {
                Ok(Some(b)) => m == Ok::<Option<Binding>, EditError>(Some(*b)),
                Ok(None) => m == Ok::<Option<Binding>, EditError>(None),
                Err(e) => m is Err && err_matches(e, m->Err_0),
            }
        }),
    decreases *expr,
{
    let ghost pv = path.deep_view().skip(path_idx as int);
    match expr {
        Expr::AttrSet { bindings, .. } => {
            proof {
                assert(first_attr_spec(*expr, pv) == first_attr_in_bindings(bindings@, 0, pv));
            }
            let mut i: usize = 0;
            while i < bindings.len()
                invariant
                    path_idx <= path@.len(),
                    pv == path.deep_view().skip(path_idx as int),
                    i <= bindings@.len(),
                    first_attr_spec(*expr, pv) == first_attr_in_bindings(bindings@, i as int, pv),
                    *expr == (Expr::AttrSet { bindings: *bindings, span: expr->AttrSet_span }),
                decreases bindings@.len() - i,
            {
                match &bindings[i] {
                    Binding::Inherit { span } => {
                        proof {
                            assert(first_attr_in_bindings(bindings@, i as int, pv)
                                == Err::<Option<Binding>, EditError>(
                                EditError::UnsupportedConstruct {
                                    line: span.start.line,
                                    column: span.start.column,
                                },
                            ));
                        }
                        return Err(EditError::UnsupportedConstruct {
                            line: span.start.line,
                            column: span.start.column,
                        });
                    },
                    Binding::KeyValue { from, to } => {
                        let segs = collect_raw_segments(from);
                        let k = lcp_index(&segs, path, path_idx);
                        if path_idx + k == path.len() {
                            proof {
                                assert(first_attr_in_bindings(bindings@, i as int, pv)
                                    == Ok::<Option<Binding>, EditError>(Some(bindings@[i as int])));
                            }
                            return Ok(Some(&bindings[i]));
                        }
                        if k == segs.len() {
                            proof {
                                assert(decreases_to!(*expr => expr->AttrSet_bindings));
                                assert(decreases_to!(expr->AttrSet_bindings =>
                                    expr->AttrSet_bindings@));
                                assert(expr->AttrSet_bindings@ == bindings@);
                                assert(decreases_to!(bindings@ => bindings@[i as int]));
                                assert(decreases_to!(bindings@[i as int] =>
                                    bindings@[i as int]->KeyValue_to));
                                assert(bindings@[i as int]->KeyValue_to == *to);
                                assert(path.deep_view().skip(path_idx + k) =~= pv.skip(k as int));
                                assert(first_attr_in_bindings(bindings@, i as int, pv)
                                    == first_attr_spec(**to, pv.skip(k as int)));
                            }
                            let res = first_attr_rec(&**to, path, path_idx + k);
                            return res;
                        }
                        proof {
                            assert(first_attr_in_bindings(bindings@, i as int, pv)
                                == first_attr_in_bindings(bindings@, i + 1, pv));
                        }
                    },
                }
                i = i + 1;
            }
            proof {
                assert(first_attr_in_bindings(bindings@, bindings@.len() as int, pv)
                    == Ok::<Option<Binding>, EditError>(None));
            }
            Ok(None)
        },
        _ => Ok(None),
    }
}

/// Walks down the tree along `attr_path` and returns the first binding whose
/// own attribute path extends or equals it, in source order and without
/// backtracking across siblings; `None` when the path names nothing.
pub fn find_first_attrset_by_path<'a>(expr: &'a Expr, attr_path: &Vec<Vec<char>>) -> (r: Result<
    Option<&'a Binding>,
    EditError,
>)
    ensures
        ({
            let m = first_attr_spec(*expr, attr_path.deep_view());
            match r {
                Ok(Some(b)) => m == Ok::<Option<Binding>, EditError>(Some(*b)),
                Ok(None) => m == Ok::<Option<Binding>, EditError>(None),
                Err(e) => m is Err && err_matches(e, m->Err_0),
            }
        }),
{
    proof {
        assert(attr_path.deep_view().skip(0) =~= attr_path.deep_view());
    }
    first_attr_rec(expr, attr_path, 0)
}

/// The string value read off a string leaf: the trimmed content of its lone
/// raw part. An empty parts list holds no value; only whole-literal values
/// are readable, so a string of several parts is a `MultiPartValue` error and
/// one whose first part is interpolated is an `UnsupportedConstruct` error.
pub open spec fn str_value(parts: Seq<Part>, span: crate::ast::Span) -> Result<
    Option<Seq<char>>,
    EditError,
> {
    if parts.len() == 0 {
        Ok(None)
    } else {
        match parts[0] {
            Part::Raw(tok) => if parts.len() > 1 {
                Err(EditError::MultiPartValue {
                    line: span.start.line,
                    column: span.start.column,
                })
            } else {
                Ok(Some(crate::text::trimmed(tok.content@)))
            },
            Part::Interpolation { span: isp } => Err(EditError::UnsupportedConstruct {
                line: isp.start.line,
                column: isp.start.column,
            }),
        }
    }
}

/// The value extractor's walk over one expression: a string leaf yields its
/// whole-literal value whatever target path remains, an attribute set is
/// scanned binding by binding, and any other expression kind is an error.
pub open spec fn value_spec(e: Expr, path: Seq<Seq<char>>) -> Result<Option<Seq<char>>, EditError>
    decreases e, 0nat,
{
    match e {
        Expr::AttrSet { bindings, .. } => value_in_bindings(bindings@, 0, path),
        Expr::Str { parts, span } => str_value(parts@, span),
        Expr::Function { kind, span, .. } => Err(EditError::UnsupportedExpressionKind {
            kind,
            line: span.start.line,
            column: span.start.column,
        }),
        Expr::Other { kind, span } => Err(EditError::UnsupportedExpressionKind {
            kind,
            line: span.start.line,
            column: span.start.column,
        }),
    }
}

/// The value extractor's walk over the bindings of one attribute set, from
/// index `i` on: the first binding whose own segments are a prefix of the
/// remaining path is descended into and its result taken — the first
/// syntactic occurrence wins, and no later sibling is tried.
pub open spec fn value_in_bindings(bs: Seq<Binding>, i: int, path: Seq<Seq<char>>) -> Result<
    Option<Seq<char>>,
    EditError,
>
    decreases bs, bs.len() - i + 1,
{
    if i < 0 || i >= bs.len() {
        Ok(None)
    } else {
        match bs[i] {
            Binding::Inherit { span } => Err(EditError::UnsupportedConstruct {
                line: span.start.line,
                column: span.start.column,
            }),
            Binding::KeyValue { from, to } => {
                let segs = raw_segments(from@);
                let k = lcp(segs, path);
                if k == segs.len() {
                    value_spec(*to, path.skip(k))
                } else {
                    value_in_bindings(bs, i + 1, path)
                }
            },
        }
    }
}

/// An optional character vector, viewed as an optional sequence.
pub open spec fn opt_chars_view(a: Option<Vec<char>>) -> Option<Seq<char>> {
    match a {
        Some(v) => Some(v@),
        None => None,
    }
}

/// The recursive walk behind `find_input_value_by_path`.
fn value_rec(expr: &Expr, path: &Vec<Vec<char>>, path_idx: usize) -> (r: Result<
    Option<Vec<char>>,
    EditError,
>)
    requires
        path_idx <= path@.len(),
    ensures
        ({
            let m = value_spec(*expr, path.deep_view().skip(path_idx as int));
            match r {
                Ok(v) => m == Ok::<Option<Seq<char>>, EditError>(opt_chars_view(v)),
                Err(e) => m is Err && err_matches(e, m->Err_0),
            }
        }),
    decreases *expr,
{
    let ghost pv = path.deep_view().skip(path_idx as int);
    match expr {
        Expr::AttrSet { bindings, .. } => {
            proof {
                assert(value_spec(*expr, pv) == value_in_bindings(bindings@, 0, pv));
            }
            let mut i: usize = 0;
            while i < bindings.len()
                invariant
                    path_idx <= path@.len(),
                    pv == path.deep_view().skip(path_idx as int),
                    i <= bindings@.len(),
                    value_spec(*expr, pv) == value_in_bindings(bindings@, i as int, pv),
                    *expr == (Expr::AttrSet { bindings: *bindings, span: expr->AttrSet_span }),
                decreases bindings@.len() - i,
            {
                match &bindings[i] {
                    Binding::Inherit { span } => {
                        proof {
                            assert(value_in_bindings(bindings@, i as int, pv) == Err::<
                                Option<Seq<char>>,
                                EditError,
                            >(EditError::UnsupportedConstruct {
                                line: span.start.line,
                                column: span.start.column,
                            }));
                        }
                        return Err(EditError::UnsupportedConstruct {
                            line: span.start.line,
                            column: span.start.column,
                        });
                    },
                    Binding::KeyValue { from, to } => {
                        let segs = collect_raw_segments(from);
                        let k = lcp_index(&segs, path, path_idx);
                        if k == segs.len() {
                            proof {
                                assert(decreases_to!(*expr => expr->AttrSet_bindings));
                                assert(decreases_to!(expr->AttrSet_bindings =>
                                    expr->AttrSet_bindings@));
                                assert(expr->AttrSet_bindings@ == bindings@);
                                assert(decreases_to!(bindings@ => bindings@[i as int]));
                                assert(decreases_to!(bindings@[i as int] =>
                                    bindings@[i as int]->KeyValue_to));
                                assert(bindings@[i as int]->KeyValue_to == *to);
                                assert(path.deep_view().skip(path_idx + k) =~= pv.skip(k as int));
                                assert(value_in_bindings(bindings@, i as int, pv) == value_spec(
                                    **to,
                                    pv.skip(k as int),
                                ));
                            }
                            let res = value_rec(&**to, path, path_idx + k);
                            return res;
                        }
                        proof {
                            assert(value_in_bindings(bindings@, i as int, pv) == value_in_bindings(
                                bindings@,
                                i + 1,
                                pv,
                            ));
                        }
                    },
                }
                i = i + 1;
            }
            proof {
                assert(value_in_bindings(bindings@, bindings@.len() as int, pv) == Ok::<
                    Option<Seq<char>>,
                    EditError,
                >(None));
            }
            Ok(None)
        },
        Expr::Str { parts, span } => {
            if parts.len() == 0 {
                Ok(None)
            } else {
                match &parts[0] {
                    Part::Raw(tok) => {
                        if parts.len() > 1 {
                            Err(EditError::MultiPartValue {
                                line: span.start.line,
                                column: span.start.column,
                            })
                        } else {
                            Ok(Some(crate::text::trim_chars(&tok.content)))
                        }
                    },
                    Part::Interpolation { span: isp } => Err(EditError::UnsupportedConstruct {
                        line: isp.start.line,
                        column: isp.start.column,
                    }),
                }
            }
        },
        Expr::Function { kind, span, .. } => Err(EditError::UnsupportedExpressionKind {
            kind: crate::text::copy_chars(kind),
            line: span.start.line,
            column: span.start.column,
        }),
        Expr::Other { kind, span } => Err(EditError::UnsupportedExpressionKind {
            kind: crate::text::copy_chars(kind),
            line: span.start.line,
            column: span.start.column,
        }),
    }
}

/// Extracts the string value stored under `attr_path`: scans bindings in
/// source order, descends into the first binding whose own segments are a
/// prefix of the remaining path — the first syntactic occurrence wins, with
/// no backtracking across siblings — and returns the trimmed content of the
/// string leaf that descent reached, or `None` when the path names nothing.
/// A string that is not a whole literal — several parts, or an interpolated
/// first part — is an error carrying the offending position.
pub fn find_input_value_by_path(expr: &Expr, attr_path: &Vec<Vec<char>>) -> (r: Result<
    Option<Vec<char>>,
    EditError,
>)
    ensures
        ({
            let m = value_spec(*expr, attr_path.deep_view());
            match r {
                Ok(v) => m == Ok::<Option<Seq<char>>, EditError>(opt_chars_view(v)),
                Err(e) => m is Err && err_matches(e, m->Err_0),
            }
        }),
{
    proof {
        assert(attr_path.deep_view().skip(0) =~= attr_path.deep_view());
    }
    value_rec(expr, attr_path, 0)
}

/// All the key-value bindings of one attribute set, in source order; an
/// `inherit` binding among them is an error.
pub open spec fn kvs_of(bs: Seq<Binding>, i: int) -> Result<Seq<Binding>, EditError>
    decreases bs, bs.len() - i + 1,
{
    if i < 0 || i >= bs.len() {
        Ok(Seq::empty())
    } else {
        match bs[i] {
            Binding::Inherit { span } => Err(EditError::UnsupportedConstruct {
                line: span.start.line,
                column: span.start.column,
            }),
            Binding::KeyValue { .. } => match kvs_of(bs, i + 1) {
                Err(e) => Err(e),
                Ok(rest) => Ok(seq![bs[i]] + rest),
            },
        }
    }
}

/// What one top-level binding contributes to the declared inputs.
pub open spec fn input_contrib(b: Binding) -> Result<Seq<Binding>, EditError>
    decreases b, 1nat,
{
    match b {
        Binding::Inherit { .. } => Ok(Seq::empty()),
        Binding::KeyValue { from, to } => {
            let segs = raw_segments(from@);
            if segs.len() >= 1 && segs[0] == crate::surgeon::inputs_keyword() {
                if segs.len() == 1 {
                    match *to {
                        Expr::AttrSet { bindings: inner, .. } => kvs_of(inner@, 0),
                        _ => Ok(Seq::empty()),
                    }
                } else {
                    Ok(seq![b])
                }
            } else {
                Ok(Seq::empty())
            }
        },
    }
}

/// The declared inputs of a document: for each top-level binding whose first
/// segment is `inputs`, either the binding itself (when its path goes on past
/// `inputs`) or, for a plain `inputs = { ... };` set, every binding inside
/// that set.
pub open spec fn inputs_of_bindings(bs: Seq<Binding>, i: int) -> Result<Seq<Binding>, EditError>
    decreases bs, bs.len() - i + 1,
{
    if i < 0 || i >= bs.len() {
        Ok(Seq::empty())
    } else {
        match bs[i] {
            Binding::Inherit { span } => Err(EditError::UnsupportedConstruct {
                line: span.start.line,
                column: span.start.column,
            }),
            Binding::KeyValue { .. } => match input_contrib(bs[i]) {
                Err(e) => Err(e),
                Ok(s1) => match inputs_of_bindings(bs, i + 1) {
                    Err(e) => Err(e),
                    Ok(s2) => Ok(s1 + s2),
                },
            },
        }
    }
}

/// The declared inputs of a document tree.
pub open spec fn inputs_of(e: Expr) -> Result<Seq<Binding>, EditError> {
    match e {
        Expr::AttrSet { bindings, .. } => inputs_of_bindings(bindings@, 0),
        _ => Ok(Seq::empty()),
    }
}

/// A sequence of binding references, element by element equal to a sequence
/// of bindings.
pub open spec fn derefs(v: Seq<&Binding>) -> Seq<Binding> {
    Seq::new(v.len(), |m: int| *v[m])
}

/// Enumerates the declared inputs of the document: every binding nested under
/// a top-level `inputs` attribute, depth one, in source order.
pub fn collect_inputs<'a>(expr: &'a Expr) -> (r: Result<Vec<&'a Binding>, EditError>)
    ensures
        ({
            let m = inputs_of(*expr);
            match r {
                Ok(v) => m == Ok::<Seq<Binding>, EditError>(derefs(v@)),
                Err(e) => m is Err && err_matches(e, m->Err_0),
            }
        }),
{
    let mut out: Vec<&'a Binding> = Vec::new();
    match expr {
        Expr::AttrSet { bindings, .. } => {
            proof {
                assert(inputs_of(*expr) == inputs_of_bindings(bindings@, 0));
                assert(derefs(out@) =~= Seq::<Binding>::empty());
                if inputs_of_bindings(bindings@, 0) is Ok {
                    assert(Seq::<Binding>::empty() + inputs_of_bindings(bindings@, 0)->Ok_0
                        =~= inputs_of_bindings(bindings@, 0)->Ok_0);
                }
            }
            let kw: Vec<char> = vec!['i', 'n', 'p', 'u', 't', 's'];
            proof {
                assert(kw@ =~= crate::surgeon::inputs_keyword());
            }
            let mut i: usize = 0;
            while i < bindings.len()
                invariant
                    i <= bindings@.len(),
                    kw@ == crate::surgeon::inputs_keyword(),
                    match inputs_of_bindings(bindings@, i as int) {
                        Ok(rest) => inputs_of(*expr) == Ok::<Seq<Binding>, EditError>(
                            derefs(out@) + rest,
                        ),
                        Err(e2) => inputs_of(*expr) == Err::<Seq<Binding>, EditError>(e2),
                    },
                    *expr == (Expr::AttrSet { bindings: *bindings, span: expr->AttrSet_span }),
                decreases bindings@.len() - i,
            {
                let ghost done = derefs(out@);
                match &bindings[i] {
                    Binding::Inherit { span } => {
                        proof {
                            assert(inputs_of_bindings(bindings@, i as int)
                                == Err::<Seq<Binding>, EditError>(EditError::UnsupportedConstruct {
                                line: span.start.line,
                                column: span.start.column,
                            }));
                        }
                        return Err(EditError::UnsupportedConstruct {
                            line: span.start.line,
                            column: span.start.column,
                        });
                    },
                    Binding::KeyValue { from, to } => {
                        let ghost segv = raw_segments(from@);
                        let ghost own = input_contrib(bindings@[i as int]);
                        let segs = collect_raw_segments(from);
                        if segs.len() >= 1 && crate::text::chars_eq(&segs[0], &kw) {
                            proof {
                                assert(segv[0] =~= segs@[0]@);
                            }
                            if segs.len() == 1 {
                                match &**to {
                                    Expr::AttrSet { bindings: inner, .. } => {
                                        proof {
                                            assert(own == kvs_of(inner@, 0));
                                            assert(derefs(out@).take(done.len() as int) =~= done);
                                            assert(derefs(out@).skip(done.len() as int) =~= Seq::<
                                                Binding,
                                            >::empty());
                                            if kvs_of(inner@, 0) is Ok {
                                                assert(Seq::<Binding>::empty() + kvs_of(
                                                    inner@,
                                                    0,
                                                )->Ok_0 =~= kvs_of(inner@, 0)->Ok_0);
                                            }
                                        }
                                        let mut j: usize = 0;
                                        while j < inner.len()
                                            invariant
                                                j <= inner@.len(),
                                                i < bindings@.len(),
                                                own == input_contrib(bindings@[i as int]),
                                                own == kvs_of(inner@, 0),
                                                done.len() <= derefs(out@).len(),
                                                derefs(out@).take(done.len() as int) == done,
                                                match kvs_of(inner@, j as int) {
                                                    Ok(rest) => kvs_of(inner@, 0) == Ok::<
                                                        Seq<Binding>,
                                                        EditError,
                                                    >(derefs(out@).skip(done.len() as int) + rest),
                                                    Err(e2) => kvs_of(inner@, 0) == Err::<
                                                        Seq<Binding>,
                                                        EditError,
                                                    >(e2),
                                                },
                                                bindings@[i as int] matches Binding::KeyValue {
                                                    ..
                                                },
                                                match inputs_of_bindings(bindings@, i as int) {
                                                    Ok(rest) => inputs_of(*expr) == Ok::<
                                                        Seq<Binding>,
                                                        EditError,
                                                    >(done + rest),
                                                    Err(e2) => inputs_of(*expr) == Err::<
                                                        Seq<Binding>,
                                                        EditError,
                                                    >(e2),
                                                },
                                            decreases inner@.len() - j,
                                        {
                                            match &inner[j] {
                                                Binding::Inherit { span } => {
                                                    let ghost e2 = EditError::UnsupportedConstruct {
                                                        line: span.start.line,
                                                        column: span.start.column,
                                                    };
                                                    proof {
                                                        assert(kvs_of(inner@, j as int) == Err::<
                                                            Seq<Binding>,
                                                            EditError,
                                                        >(e2));
                                                        assert(own == Err::<
                                                            Seq<Binding>,
                                                            EditError,
                                                        >(e2));
                                                        assert(inputs_of_bindings(
                                                            bindings@,
                                                            i as int,
                                                        ) == Err::<Seq<Binding>, EditError>(e2));
                                                    }
                                                    return Err(EditError::UnsupportedConstruct {
                                                        line: span.start.line,
                                                        column: span.start.column,
                                                    });
                                                },
                                                Binding::KeyValue { .. } => {
                                                    let ghost pre = out@;
                                                    out.push(&inner[j]);
                                                    proof {
                                                        assert(derefs(out@) =~= derefs(pre).push(
                                                            inner@[j as int],
                                                        ));
                                                        assert(derefs(out@).take(
                                                            done.len() as int,
                                                        ) =~= done);
                                                        assert(kvs_of(inner@, j as int) == match
                                                            kvs_of(inner@, j + 1) {
                                                            Ok(rest) => Ok::<
                                                                Seq<Binding>,
                                                                EditError,
                                                            >(seq![inner@[j as int]] + rest),
                                                            Err(e2) => Err::<
                                                                Seq<Binding>,
                                                                EditError,
                                                            >(e2),
                                                        });
                                                        if kvs_of(inner@, j + 1) is Ok {
                                                            assert(derefs(pre).skip(
                                                                done.len() as int,
                                                            ) + (seq![inner@[j as int]] + kvs_of(
                                                                inner@,
                                                                j + 1,
                                                            )->Ok_0) =~= derefs(out@).skip(
                                                                done.len() as int,
                                                            ) + kvs_of(inner@, j + 1)->Ok_0);
                                                        }
                                                    }
                                                },
                                            }
                                            j = j + 1;
                                        }
                                        proof {
                                            assert(kvs_of(inner@, inner@.len() as int) == Ok::<
                                                Seq<Binding>,
                                                EditError,
                                            >(Seq::empty()));
                                            assert(derefs(out@).skip(done.len() as int)
                                                + Seq::<Binding>::empty() =~= derefs(out@).skip(
                                                done.len() as int,
                                            ));
                                            assert(own == Ok::<Seq<Binding>, EditError>(
                                                derefs(out@).skip(done.len() as int),
                                            ));
                                            assert(done + derefs(out@).skip(done.len() as int)
                                                =~= derefs(out@));
                                        }
                                    },
                                    _ => {
                                        proof {
                                            assert(own == Ok::<Seq<Binding>, EditError>(
                                                Seq::empty(),
                                            ));
                                            assert(done + Seq::<Binding>::empty() =~= derefs(out@));
                                        }
                                    },
                                }
                            } else {
                                let ghost pre = out@;
                                out.push(&bindings[i]);
                                proof {
                                    assert(own == Ok::<Seq<Binding>, EditError>(seq![
                                        bindings@[i as int],
                                    ]));
                                    assert(derefs(out@) =~= derefs(pre).push(bindings@[i as int]));
                                    assert(done + seq![bindings@[i as int]] =~= derefs(out@));
                                }
                            }
                        } else {
                            proof {
                                if segv.len() >= 1 {
                                    assert(segv[0] =~= segs@[0]@);
                                }
                                assert(own == Ok::<Seq<Binding>, EditError>(Seq::empty()));
                                assert(done + Seq::<Binding>::empty() =~= derefs(out@));
                            }
                        }
                        proof {
                            assert(own is Ok);
                            assert(derefs(out@) == done + own->Ok_0);
                            if inputs_of_bindings(bindings@, i + 1) is Ok {
                                assert(inputs_of_bindings(bindings@, i as int) == Ok::<
                                    Seq<Binding>,
                                    EditError,
                                >(own->Ok_0 + inputs_of_bindings(bindings@, i + 1)->Ok_0));
                                assert(done + (own->Ok_0 + inputs_of_bindings(
                                    bindings@,
                                    i + 1,
                                )->Ok_0) =~= derefs(out@) + inputs_of_bindings(
                                    bindings@,
                                    i + 1,
                                )->Ok_0);
                            } else {
                                assert(inputs_of_bindings(bindings@, i as int)
                                    == inputs_of_bindings(bindings@, i + 1));
                            }
                        }
                    },
                }
                i = i + 1;
            }
            proof {
                assert(inputs_of_bindings(bindings@, bindings@.len() as int) == Ok::<
                    Seq<Binding>,
                    EditError,
                >(Seq::empty()));
                assert(derefs(out@) + Seq::<Binding>::empty() =~= derefs(out@));
            }
            Ok(out)
        },
        _ => {
            proof {
                assert(derefs(out@) =~= Seq::<Binding>::empty());
            }
            Ok(out)
        },
    }
}

/// Walks the tree for `attr_path` and reports the matched string leaf or the
/// anchor to insert above; the walk starts with no anchor recorded.
pub fn find_value_site(expr: &Expr, attr_path: &Vec<Vec<char>>) -> (r: Result<
    FindOutcome,
    EditError,
>)
    ensures
        find_result_matches(r, find_spec(*expr, attr_path.deep_view(), None)),
{
    proof {
        assert(attr_path.deep_view().skip(0) =~= attr_path.deep_view());
    }
    match find_rec(expr, attr_path, 0, None) {
        Ok(Located::Matched { site }) => {
            match site {
                Some(x) => Ok(FindOutcome::Matched {
                    site: Some(RawToken { content: crate::text::copy_chars(&x.content), span: x.span }),
                }),
                None => Ok(FindOutcome::Matched { site: None }),
            }
        },
        Ok(Located::NotFound { anchor }) => {
            match anchor {
                Some(x) => Ok(FindOutcome::NotFound {
                    anchor: Some(RawToken { content: crate::text::copy_chars(&x.content), span: x.span }),
                }),
                None => Ok(FindOutcome::NotFound { anchor: None }),
            }
        },
        Err(e) => Err(e),
    }
}

} // verus!
