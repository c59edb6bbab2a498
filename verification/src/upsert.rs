//! The insertion planner: replace the value at an attribute path when a
//! binding matches, insert a synthesized binding above the anchor when none
//! does, and leave the document alone when there is neither a match nor an
//! anchor (the caller substitutes a skeleton document in that case).

use vstd::prelude::*;

use crate::ast::{Expr, RawToken};
use crate::err::EditError;
use crate::matcher::{find_spec, FindOutcome};
use crate::surgeon::{edit_result_matches, insert_spec, replace_spec};
use crate::text::{offset_of, splice};

verus! {

/// The text of a freshly synthesized binding:
/// `inputs.<name>.url = "<value>";` followed by a line break.
pub open spec fn flake_input_text(name: Seq<char>, value: Seq<char>) -> Seq<char> {
    seq!['i', 'n', 'p', 'u', 't', 's', '.'] + name + seq!['.', 'u', 'r', 'l', ' ', '=', ' ', '"']
        + value + seq!['"', ';', '\n']
}

/// Builds the synthesized binding text.
pub fn build_flake_input_text(name: &Vec<char>, value: &Vec<char>) -> (r: Vec<char>)
    ensures
        r@ == flake_input_text(name@, value@),
{
    let mut t: Vec<char> = vec!['i', 'n', 'p', 'u', 't', 's', '.'];
    crate::text::append_chars(&mut t, name);
    let mid: Vec<char> = vec!['.', 'u', 'r', 'l', ' ', '=', ' ', '"'];
    crate::text::append_chars(&mut t, &mid);
    crate::text::append_chars(&mut t, value);
    let tail: Vec<char> = vec!['"', ';', '\n'];
    crate::text::append_chars(&mut t, &tail);
    assert(t@ =~= flake_input_text(name@, value@));
    t
}

/// What upserting produces: the matched value replaced in place; or, with no
/// match but an anchor, a synthesized `inputs.<name>.url` binding inserted
/// above the anchor; or the buffer unchanged when the matched string has no
/// content parts or when the document offers no anchor at all.
pub open spec fn upsert_spec(
    e: Expr,
    name: Seq<char>,
    value: Seq<char>,
    path: Seq<Seq<char>>,
    s: Seq<char>,
) -> Result<Seq<char>, EditError> {
    match find_spec(e, path, None) {
        Err(er) => Err(er),
        Ok(FindOutcome::Matched { site }) => match site {
            Some(tok) => replace_spec(s, tok.span, value),
            None => Ok(s),
        },
        Ok(FindOutcome::NotFound { anchor }) => match anchor {
            Some(a) => insert_spec(s, a, flake_input_text(name, value)),
            None => Ok(s),
        },
    }
}

/// Replaces the value of the binding at `attr_path` with `input_value`, or
/// inserts `inputs.<input_name>.url = "<input_value>";` above the first raw
/// token when no binding matches. A document with neither a match nor an
/// anchor token comes back unchanged.
pub fn upsert_flake_input(
    expr: &Expr,
    input_name: &Vec<char>,
    input_value: &Vec<char>,
    buf: &Vec<char>,
    attr_path: &Vec<Vec<char>>,
) -> (r: Result<Vec<char>, EditError>)
    requires
        buf@.len() < usize::MAX,
    ensures
        edit_result_matches(
            r,
            upsert_spec(*expr, input_name@, input_value@, attr_path.deep_view(), buf@),
        ),
{
    let ghost m = upsert_spec(*expr, input_name@, input_value@, attr_path.deep_view(), buf@);
    match crate::matcher::find_value_site(expr, attr_path) {
        Err(e) => Err(e),
        Ok(FindOutcome::Matched { site }) => match site {
            Some(tok) => crate::surgeon::replace_value(buf, tok.span, input_value),
            None => Ok(crate::text::copy_chars(buf)),
        },
        Ok(FindOutcome::NotFound { anchor }) => match anchor {
            Some(a) => {
                let text = build_flake_input_text(input_name, input_value);
                let res = crate::surgeon::insert_flake_input(&a, &text, buf);
                proof {
                    let ghost_anchor = find_spec(
                        *expr,
                        attr_path.deep_view(),
                        None,
                    )->Ok_0->NotFound_anchor->Some_0;
                    assert(insert_spec(buf@, a, text@) == insert_spec(buf@, ghost_anchor, text@));
                }
                res
            },
            None => Ok(crate::text::copy_chars(buf)),
        },
    }
}

/// When a binding matches, the upsert changes only the characters under the
/// matched value span: everything before the span start and everything after
/// the span end is carried over verbatim, and the span itself now holds the
/// new value.
pub proof fn lemma_upsert_changes_only_value_span(
    e: Expr,
    name: Seq<char>,
    value: Seq<char>,
    path: Seq<Seq<char>>,
    s: Seq<char>,
    tok: RawToken,
    st: int,
    en: int,
)
    requires
        find_spec(e, path, None) == Ok::<FindOutcome, EditError>(
            FindOutcome::Matched { site: Some(tok) },
        ),
        offset_of(s, tok.span.start) == Some(st),
        offset_of(s, tok.span.end) == Some(en),
        st <= en,
    ensures
        ({
            let out = upsert_spec(e, name, value, path, s)->Ok_0;
            &&& upsert_spec(e, name, value, path, s) is Ok
            &&& out.len() == s.len() - (en - st) + value.len()
            &&& out.subrange(0, st) == s.subrange(0, st)
            &&& out.subrange(st, st + value.len() as int) == value
            &&& out.subrange(st + value.len() as int, out.len() as int) == s.subrange(
                en,
                s.len() as int,
            )
        }),
{
    crate::text::lemma_position_offset_round_trip(s, tok.span.start);
    crate::text::lemma_position_offset_round_trip(s, tok.span.end);
    assert(0 <= st <= en < s.len());
    let out = splice(s, st, en, value);
    assert(out.subrange(0, st) =~= s.subrange(0, st));
    assert(out.subrange(st, st + value.len() as int) =~= value);
    assert(out.subrange(st + value.len() as int, out.len() as int) =~= s.subrange(
        en,
        s.len() as int,
    ));
}

/// When no binding matches but an anchor exists, the inserted text lands
/// between the anchor line's indentation and a second copy of that
/// indentation: the new binding's leading indentation equals the indentation
/// of the line that followed it, and everything from that line's start onward
/// is shifted down verbatim, not otherwise altered.
pub proof fn lemma_insert_preserves_layout(s: Seq<char>, anchor: RawToken, text: Seq<char>)
    requires
        insert_spec(s, anchor, text) is Ok,
    ensures
        ({
            let out = insert_spec(s, anchor, text)->Ok_0;
            let st = offset_of(s, anchor.span.start)->Some_0;
            let ls = offset_of(
                s,
                crate::ast::Position { line: anchor.span.start.line, column: 1 },
            )->Some_0;
            let ind = s.subrange(ls, st);
            let t = if anchor.content@ == crate::surgeon::inputs_keyword() {
                text
            } else {
                text.push('\n')
            };
            &&& out == s.take(ls) + ind + t + ind + s.skip(st)
            &&& out.take(st) == s.take(st)
            &&& out.subrange(st, st + t.len() as int) == t
            &&& out.skip(st + t.len() as int) == s.skip(ls)
        }),
{
    let out = insert_spec(s, anchor, text)->Ok_0;
    let st = offset_of(s, anchor.span.start)->Some_0;
    let ls = offset_of(s, crate::ast::Position { line: anchor.span.start.line, column: 1 })->Some_0;
    let ind = s.subrange(ls, st);
    let t = if anchor.content@ == crate::surgeon::inputs_keyword() {
        text
    } else {
        text.push('\n')
    };
    crate::text::lemma_position_offset_round_trip(s, anchor.span.start);
    crate::text::lemma_position_offset_round_trip(
        s,
        crate::ast::Position { line: anchor.span.start.line, column: 1 },
    );
    assert(0 <= ls <= st < s.len());
    assert(s.take(st) =~= s.take(ls) + ind);
    assert(out =~= s.take(ls) + ind + t + ind + s.skip(st));
    assert(out.take(st) =~= s.take(st));
    assert(out.subrange(st, st + t.len() as int) =~= t);
    assert(out.skip(st + t.len() as int) =~= ind + s.skip(st));
    assert(ind + s.skip(st) =~= s.skip(ls));
}

/// When no binding matches and an anchor was recorded, the upsert inserts the
/// synthesized binding text with the layout that `lemma_insert_preserves_layout`
/// states: the new binding takes over the anchor line's indentation, and every
/// previously-existing character from that line's start onward is shifted down
/// verbatim.
pub proof fn lemma_upsert_insertion_layout(
    e: Expr,
    name: Seq<char>,
    value: Seq<char>,
    path: Seq<Seq<char>>,
    s: Seq<char>,
    a: RawToken,
)
    requires
        find_spec(e, path, None) == Ok::<FindOutcome, EditError>(
            FindOutcome::NotFound { anchor: Some(a) },
        ),
        insert_spec(s, a, flake_input_text(name, value)) is Ok,
    ensures
        upsert_spec(e, name, value, path, s) == insert_spec(s, a, flake_input_text(name, value)),
        ({
            let out = upsert_spec(e, name, value, path, s)->Ok_0;
            let st = offset_of(s, a.span.start)->Some_0;
            let ls = offset_of(s, crate::ast::Position { line: a.span.start.line, column: 1 })->Some_0;
            let ind = s.subrange(ls, st);
            let t = if a.content@ == crate::surgeon::inputs_keyword() {
                flake_input_text(name, value)
            } else {
                flake_input_text(name, value).push('\n')
            };
            &&& out == s.take(ls) + ind + t + ind + s.skip(st)
            &&& out.take(st) == s.take(st)
            &&& out.skip(st + t.len() as int) == s.skip(ls)
        }),
{
    lemma_insert_preserves_layout(s, a, flake_input_text(name, value));
}

/// Idempotence: when the tree reflects a buffer whose matched value span
/// already holds exactly the target value — as it does after a successful
/// upsert followed by a re-parse — running the upsert again returns the
/// buffer unchanged.
pub proof fn lemma_upsert_second_run_noop(
    e: Expr,
    name: Seq<char>,
    value: Seq<char>,
    path: Seq<Seq<char>>,
    s: Seq<char>,
    tok: RawToken,
    st: int,
    en: int,
)
    requires
        find_spec(e, path, None) == Ok::<FindOutcome, EditError>(
            FindOutcome::Matched { site: Some(tok) },
        ),
        offset_of(s, tok.span.start) == Some(st),
        offset_of(s, tok.span.end) == Some(en),
        st <= en,
        s.subrange(st, en) == value,
    ensures
        upsert_spec(e, name, value, path, s) == Ok::<Seq<char>, EditError>(s),
{
    crate::text::lemma_position_offset_round_trip(s, tok.span.start);
    crate::text::lemma_position_offset_round_trip(s, tok.span.end);
    assert(0 <= st <= en <= s.len());
    assert(en - st == value.len()) by {
        assert(s.subrange(st, en).len() == value.len());
    }
    assert(splice(s, st, en, value) =~= s);
}

} // verus!
