//! The mathematical model of the parse: what `parse_document` returns, as a
//! function of the input characters and of the KDL parser's outcomes.

use vstd::prelude::*;

use crate::error::ErrorKind;
use crate::fragment::FragmentView;
use crate::grammar::kdl_result;
use crate::text::find_char_from;
use crate::text::lemma_find_char_from;

verus! {

/// A text fragment copied verbatim from the input.
pub open spec fn text_view(s: Seq<char>) -> FragmentView {
    FragmentView::Text { chars: s, synthesized: false }
}

/// The synthesized literal opening marker produced by an escape.
pub open spec fn marker_view() -> FragmentView {
    FragmentView::Text { chars: seq!['<'], synthesized: true }
}

/// One node fragment per parsed element, in order.
pub open spec fn node_views(nodes: Seq<kdl::KdlNode>) -> Seq<FragmentView> {
    nodes.map_values(|n: kdl::KdlNode| FragmentView::Node(n))
}

/// Boundary search for the fragment opened just before `back`: the closing
/// marker is the first `>` at or after `offset` whose candidate window (the
/// text before it) the KDL parser accepts, searching with a forward-progress
/// cursor and remembering the most recent rejection in `last`.
///
/// On success the result carries the accepted closing position and the
/// parsed elements of the window before it. The search fails with
/// `UnclosedKdl` when no closing marker exists and nothing was ever tried,
/// and otherwise with the KDL parser's error: the rejection of the final
/// all-consuming window if that window was tried, else the rejection
/// recorded when the search got stuck or ran out of closing markers.
pub open spec fn spec_resolve(
    back: Seq<char>,
    offset: int,
    last: Option<kdl::KdlError>,
) -> Result<(int, Seq<kdl::KdlNode>), ErrorKind>
    decreases back.len() - offset
        when 0 <= offset <= back.len()
        via spec_resolve_decreases
{
    match find_char_from(back, '>', offset) {
        None => match last {
            None => Err(ErrorKind::UnclosedKdl),
            Some(e) => Err(ErrorKind::KdlError(e)),
        },
        Some(close) => {
            if close == offset && last is Some {
                Err(ErrorKind::KdlError(last->0))
            } else {
                match kdl_result(back.take(close)) {
                    Ok(nodes) => Ok((close, nodes)),
                    Err(e) => if close == back.len() - 1 {
                        Err(ErrorKind::KdlError(e))
                    } else {
                        spec_resolve(back, close + 1, Some(e))
                    },
                }
            }
        },
    }
}

#[via_fn]
proof fn spec_resolve_decreases(back: Seq<char>, offset: int, last: Option<kdl::KdlError>) {
    lemma_find_char_from(back, '>', offset);
}

/// A successful boundary search accepts a closing marker inside `back`, and
/// the elements it returns are the KDL parse of the window before it.
pub proof fn lemma_spec_resolve_ok(back: Seq<char>, offset: int, last: Option<kdl::KdlError>)
    requires
        0 <= offset <= back.len(),
    ensures
        (match spec_resolve(back, offset, last) {
            Ok((close, nodes)) => offset <= close < back.len() && back[close] == '>'
                && kdl_result(back.take(close)) == Ok::<Seq<kdl::KdlNode>, kdl::KdlError>(nodes),
            Err(_) => true,
        }),
    decreases back.len() - offset,
{
    lemma_find_char_from(back, '>', offset);
    match find_char_from(back, '>', offset) {
        None => {},
        Some(close) => {
            if !(close == offset && last is Some) {
                match kdl_result(back.take(close)) {
                    Ok(_) => {},
                    Err(e) => {
                        if close != back.len() - 1 {
                            lemma_spec_resolve_ok(back, close + 1, Some(e));
                        }
                    },
                }
            }
        },
    }
}

/// The parse of a whole input: scan to the next opening marker, emit the text
/// before it, then either treat an escaped marker as literal text or resolve
/// the fragment boundary, and continue after it. The first failure aborts the
/// whole parse.
pub open spec fn spec_parse(input: Seq<char>) -> Result<Seq<FragmentView>, ErrorKind>
    decreases input.len()
        via spec_parse_decreases
{
    match find_char_from(input, '<', 0) {
        None => Ok(seq![text_view(input)]),
        Some(open) => {
            let front = input.take(open);
            let back = input.skip(open + 1);
            if 0 < open && input[open - 1] == '\\' {
                match spec_parse(back) {
                    Ok(rest) => Ok(seq![text_view(front), marker_view()] + rest),
                    Err(e) => Err(e),
                }
            } else {
                match spec_resolve(back, 0, None) {
                    Ok((close, nodes)) => match spec_parse(back.skip(close + 1)) {
                        Ok(rest) => Ok(seq![text_view(front)] + node_views(nodes) + rest),
                        Err(e) => Err(e),
                    },
                    Err(e) => Err(e),
                }
            }
        },
    }
}

#[via_fn]
proof fn spec_parse_decreases(input: Seq<char>) {
    lemma_find_char_from(input, '<', 0);
    match find_char_from(input, '<', 0) {
        None => {},
        Some(open) => {
            lemma_spec_resolve_ok(input.skip(open + 1), 0, None);
        },
    }
}

/// Puts already-emitted fragments in front of the outcome of parsing the
/// rest of the input.
pub open spec fn prepend(
    front: Seq<FragmentView>,
    rest: Result<Seq<FragmentView>, ErrorKind>,
) -> Result<Seq<FragmentView>, ErrorKind> {
    match rest {
        Ok(frags) => Ok(front + frags),
        Err(e) => Err(e),
    }
}

/// The views of a sequence of fragments, in order.
pub open spec fn frag_views(frags: Seq<crate::fragment::Fragment>) -> Seq<FragmentView> {
    frags.map_values(|f: crate::fragment::Fragment| f@)
}

/// Appending a fragment appends its view.
pub proof fn lemma_frag_views_push(frags: Seq<crate::fragment::Fragment>, f: crate::fragment::Fragment)
    ensures
        frag_views(frags.push(f)) =~= frag_views(frags).push(f@),
{
}

/// The mathematical content of what `parse_document` returns.
pub open spec fn doc_view(r: Result<Vec<crate::fragment::Fragment>, crate::error::Error>)
    -> Result<Seq<FragmentView>, ErrorKind> {
    match r {
        Ok(frags) => Ok(frag_views(frags@)),
        Err(e) => Err(e@),
    }
}

} // verus!
