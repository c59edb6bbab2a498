//! The text surgeon: replacing the value inside a span, and inserting a new
//! binding above an anchor token while re-establishing the indentation of the
//! line that was pushed down.

use vstd::prelude::*;

use crate::ast::{Part, Position, RawToken, Span};
use crate::err::{err_matches, EditError};
use crate::text::{offset_of, splice};

verus! {

/// Edited-buffer results match when both succeed with the same characters or
/// both fail with matching errors.
pub open spec fn edit_result_matches(
    r: Result<Vec<char>, EditError>,
    m: Result<Seq<char>, EditError>,
) -> bool {
    match (r, m) {
        (Ok(v), Ok(s)) => v@ == s,
        (Err(a), Err(b)) => err_matches(a, b),
        _ => false,
    }
}

/// What replacing the text under `span` with `v` produces: the spliced buffer
/// when both span endpoints resolve in order, and `PositionNotFound` naming
/// the endpoint at fault otherwise.
pub open spec fn replace_spec(s: Seq<char>, span: Span, v: Seq<char>) -> Result<
    Seq<char>,
    EditError,
> {
    match (offset_of(s, span.start), offset_of(s, span.end)) {
        (Some(st), Some(en)) => if st <= en {
            Ok(splice(s, st, en, v))
        } else {
            Err(EditError::PositionNotFound { line: span.end.line, column: span.end.column })
        },
        (None, _) => Err(EditError::PositionNotFound {
            line: span.start.line,
            column: span.start.column,
        }),
        (Some(_), None) => Err(EditError::PositionNotFound {
            line: span.end.line,
            column: span.end.column,
        }),
    }
}

/// Deletes the characters under `value_span` and puts `new_value` in their
/// place; every character outside the span is kept as it was.
pub fn replace_value(buf: &Vec<char>, value_span: Span, new_value: &Vec<char>) -> (r: Result<
    Vec<char>,
    EditError,
>)
    requires
        buf@.len() < usize::MAX,
    ensures
        edit_result_matches(r, replace_spec(buf@, value_span, new_value@)),
{
    let start = crate::text::position_to_offset(buf, value_span.start)?;
    let end = crate::text::position_to_offset(buf, value_span.end)?;
    if start > end {
        return Err(EditError::PositionNotFound {
            line: value_span.end.line,
            column: value_span.end.column,
        });
    }
    proof {
        crate::text::lemma_position_offset_round_trip(buf@, value_span.end);
    }
    Ok(crate::text::splice_chars(buf, start, end, new_value))
}

/// What replacing a string value given as its parts produces: an empty parts
/// list leaves the buffer unchanged, a lone raw part is replaced under its
/// span, anything else is refused.
pub open spec fn replace_input_value_spec(parts: Seq<Part>, v: Seq<char>, s: Seq<char>) -> Result<
    Seq<char>,
    EditError,
> {
    if parts.len() == 0 {
        Ok(s)
    } else {
        match parts[0] {
            Part::Raw(tok) => if parts.len() > 1 {
                Err(EditError::MultiPartValue {
                    line: tok.span.start.line,
                    column: tok.span.start.column,
                })
            } else {
                replace_spec(s, tok.span, v)
            },
            Part::Interpolation { span } => Err(EditError::UnsupportedConstruct {
                line: span.start.line,
                column: span.start.column,
            }),
        }
    }
}

/// Replaces a whole-literal string value with `new_value`. The value must be
/// a single raw part: interpolation or a multi-part string cannot be replaced
/// as a whole literal, and an empty parts list leaves the buffer unchanged.
pub fn replace_input_value(parts: &Vec<Part>, new_value: &Vec<char>, buf: &Vec<char>) -> (r: Result<
    Vec<char>,
    EditError,
>)
    requires
        buf@.len() < usize::MAX,
    ensures
        edit_result_matches(r, replace_input_value_spec(parts@, new_value@, buf@)),
{
    if parts.len() == 0 {
        return Ok(crate::text::copy_chars(buf));
    }
    match &parts[0] {
        Part::Raw(tok) => {
            if parts.len() > 1 {
                Err(EditError::MultiPartValue {
                    line: tok.span.start.line,
                    column: tok.span.start.column,
                })
            } else {
                replace_value(buf, tok.span, new_value)
            }
        },
        Part::Interpolation { span } => Err(EditError::UnsupportedConstruct {
            line: span.start.line,
            column: span.start.column,
        }),
    }
}

/// The literal token text that announces an existing `inputs` attribute: a
/// new binding inserted right above it needs no separating blank line.
pub open spec fn inputs_keyword() -> Seq<char> {
    seq!['i', 'n', 'p', 'u', 't', 's']
}

/// What inserting `text` above the anchor produces. The text goes in at the
/// anchor's start offset, so the anchor line's indentation now precedes the
/// inserted text; a copy of that indentation is placed before the pushed-down
/// anchor, re-establishing the line exactly as it was. A blank separator line
/// follows the text unless the anchor is the literal `inputs` keyword.
pub open spec fn insert_spec(s: Seq<char>, anchor: RawToken, text: Seq<char>) -> Result<
    Seq<char>,
    EditError,
> {
    let t = if anchor.content@ == inputs_keyword() {
        text
    } else {
        text.push('\n')
    };
    let line_start = Position { line: anchor.span.start.line, column: 1 };
    match (offset_of(s, anchor.span.start), offset_of(s, line_start)) {
        (Some(st), Some(ls)) => if ls <= st {
            Ok(s.take(st) + t + s.subrange(ls, st) + s.skip(st))
        } else {
            Err(EditError::PositionNotFound {
                line: anchor.span.start.line,
                column: anchor.span.start.column,
            })
        },
        (None, _) => Err(EditError::PositionNotFound {
            line: anchor.span.start.line,
            column: anchor.span.start.column,
        }),
        (Some(_), None) => Err(EditError::PositionNotFound {
            line: anchor.span.start.line,
            column: 1,
        }),
    }
}

/// Inserts a freshly synthesized binding immediately before the anchor token,
/// then re-inserts the anchor line's leading indentation before the
/// pushed-down anchor. When the anchor is not an existing `inputs` keyword an
/// extra blank line separates the new binding from it.
pub fn insert_flake_input(anchor: &RawToken, text: &Vec<char>, buf: &Vec<char>) -> (r: Result<
    Vec<char>,
    EditError,
>)
    requires
        buf@.len() < usize::MAX,
    ensures
        edit_result_matches(r, insert_spec(buf@, *anchor, text@)),
{
    let ghost s = buf@;
    let st = crate::text::position_to_offset(buf, anchor.span.start)?;
    let ls = crate::text::position_to_offset(
        buf,
        Position { line: anchor.span.start.line, column: 1 },
    )?;
    if ls > st {
        return Err(EditError::PositionNotFound {
            line: anchor.span.start.line,
            column: anchor.span.start.column,
        });
    }
    let mut t = crate::text::copy_chars(text);
    let kw: Vec<char> = vec!['i', 'n', 'p', 'u', 't', 's'];
    proof {
        assert(kw@ =~= inputs_keyword());
    }
    if !crate::text::chars_eq(&anchor.content, &kw) {
        t.push('\n');
    }
    let ghost tv = if anchor.content@ == inputs_keyword() {
        text@
    } else {
        text@.push('\n')
    };
    assert(t@ == tv);
    proof {
        crate::text::lemma_position_offset_round_trip(buf@, anchor.span.start);
    }
    let ind = crate::text::subrange_chars(buf, ls, st);
    let step1 = crate::text::splice_chars(buf, st, st, &t);
    let n1 = step1.len();
    assert(n1 == s.len() + tv.len());
    let pos2 = st + t.len();
    let out = crate::text::splice_chars(&step1, pos2, pos2, &ind);
    proof {
        assert(step1@.take(pos2 as int) =~= s.take(st as int) + tv);
        assert(step1@.skip(pos2 as int) =~= s.skip(st as int));
        assert(out@ =~= s.take(st as int) + tv + s.subrange(ls as int, st as int) + s.skip(
            st as int,
        ));
    }
    Ok(out)
}

} // verus!
