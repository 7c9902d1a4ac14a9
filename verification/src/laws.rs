//! The laws of the parse, proved of the model that `parse_document`'s
//! contract pins its result to.

use vstd::prelude::*;

use crate::error::ErrorKind;
use crate::fragment::FragmentView;
use crate::grammar::kdl_result;
use crate::model::marker_view;
use crate::model::node_views;
use crate::model::prepend;
use crate::model::spec_parse;
use crate::model::spec_resolve;
use crate::model::text_view;
use crate::text::lemma_find_char_from_is;
use crate::text::lemma_find_char_from_none;

verus! {

/// `c` occurs nowhere in `s`.
pub open spec fn no_char(s: Seq<char>, c: char) -> bool {
    forall|i: int| 0 <= i < s.len() ==> s[i] != c
}

/// `s` does not end with the escape character.
pub open spec fn no_trailing_escape(s: Seq<char>) -> bool {
    s.len() > 0 ==> s[s.len() - 1] != '\\'
}

/// Fragments already emitted stand unchanged in front of whatever the rest of
/// the input parses to.
pub proof fn lemma_prepend_assoc(
    a: Seq<FragmentView>,
    b: Seq<FragmentView>,
    r: Result<Seq<FragmentView>, ErrorKind>,
)
    ensures
        prepend(a, prepend(b, r)) == prepend(a + b, r),
{
    match r {
        Ok(x) => {
            assert(a + (b + x) =~= (a + b) + x);
        },
        Err(_) => {},
    }
}

/// An input with no opening marker is exactly one text fragment: the whole
/// input, unchanged.
pub proof fn lemma_all_text(input: Seq<char>)
    requires
        no_char(input, '<'),
    ensures
        spec_parse(input) == Ok::<Seq<FragmentView>, ErrorKind>(seq![text_view(input)]),
{
    lemma_find_char_from_none(input, '<', 0);
}

/// A fragment whose content has no closing-marker character inside resolves
/// at the closing marker right after it, when the KDL parser accepts the
/// content.
pub proof fn lemma_resolve_simple(content: Seq<char>, rest: Seq<char>)
    requires
        no_char(content, '>'),
        kdl_result(content) is Ok,
    ensures
        spec_resolve(content + seq!['>'] + rest, 0, None) == Ok::<
            (int, Seq<kdl::KdlNode>),
            ErrorKind,
        >((content.len() as int, kdl_result(content)->Ok_0)),
{
    let back = content + seq!['>'] + rest;
    assert(back[content.len() as int] == '>');
    assert forall|i: int| 0 <= i < content.len() implies back[i] != '>' by {
        assert(back[i] == content[i]);
    }
    lemma_find_char_from_is(back, '>', 0, content.len() as int);
    assert(back.take(content.len() as int) =~= content);
}

/// The text before a fragment and the parse of the text after it stand
/// unchanged around the fragment's elements, when the fragment's content has
/// no closing-marker character inside and the KDL parser accepts it.
pub proof fn lemma_parse_fragment(front: Seq<char>, content: Seq<char>, rest: Seq<char>)
    requires
        no_char(front, '<'),
        no_trailing_escape(front),
        no_char(content, '>'),
        kdl_result(content) is Ok,
    ensures
        spec_parse(front + seq!['<'] + content + seq!['>'] + rest) == prepend(
            seq![text_view(front)] + node_views(kdl_result(content)->Ok_0),
            spec_parse(rest),
        ),
{
    let input = front + seq!['<'] + content + seq!['>'] + rest;
    let flen = front.len() as int;
    assert(input[flen] == '<');
    assert forall|i: int| 0 <= i < flen implies input[i] != '<' by {
        assert(input[i] == front[i]);
    }
    lemma_find_char_from_is(input, '<', 0, flen);
    assert(input.take(flen) =~= front);
    let back = input.skip(flen + 1);
    assert(back =~= content + seq!['>'] + rest);
    lemma_resolve_simple(content, rest);
    assert(back.skip(content.len() as int + 1) =~= rest);
    let nodes = kdl_result(content)->Ok_0;
    match spec_parse(rest) {
        Ok(tail) => {
            assert(seq![text_view(front)] + node_views(nodes) + tail =~= (seq![text_view(front)]
                + node_views(nodes)) + tail);
        },
        Err(_) => {},
    }
}

/// An empty delimiter pair contributes no elements at all: the text before it
/// and the parse of the text after it stand unchanged.
pub proof fn lemma_empty_fragment(front: Seq<char>, rest: Seq<char>)
    requires
        no_char(front, '<'),
        no_trailing_escape(front),
    ensures
        spec_parse(front + seq!['<', '>'] + rest) == prepend(
            seq![text_view(front)],
            spec_parse(rest),
        ),
{
    lemma_parse_fragment(front, Seq::<char>::empty(), rest);
    assert(front + seq!['<'] + Seq::<char>::empty() + seq!['>'] + rest =~= front + seq![
        '<',
        '>',
    ] + rest);
    assert(node_views(kdl_result(Seq::<char>::empty())->Ok_0) =~= Seq::<FragmentView>::empty());
    assert(seq![text_view(front)] + Seq::<FragmentView>::empty() =~= seq![text_view(front)]);
}

/// Between two immediately adjacent fragments an empty text fragment is
/// emitted, between the two groups of elements.
pub proof fn lemma_adjacent_fragments(
    front: Seq<char>,
    first: Seq<char>,
    second: Seq<char>,
    rest: Seq<char>,
)
    requires
        no_char(front, '<'),
        no_trailing_escape(front),
        no_char(first, '>'),
        kdl_result(first) is Ok,
        no_char(second, '>'),
        kdl_result(second) is Ok,
    ensures
        spec_parse(front + seq!['<'] + first + seq!['>', '<'] + second + seq!['>'] + rest)
            == prepend(
            seq![text_view(front)] + node_views(kdl_result(first)->Ok_0) + seq![
                text_view(Seq::<char>::empty()),
            ] + node_views(kdl_result(second)->Ok_0),
            spec_parse(rest),
        ),
{
    let between = seq!['<'] + second + seq!['>'] + rest;
    lemma_parse_fragment(front, first, between);
    assert(front + seq!['<'] + first + seq!['>'] + between =~= front + seq!['<'] + first + seq![
        '>',
        '<',
    ] + second + seq!['>'] + rest);
    lemma_parse_fragment(Seq::<char>::empty(), second, rest);
    assert(Seq::<char>::empty() + seq!['<'] + second + seq!['>'] + rest =~= between);
    assert(text_view(Seq::<char>::empty()) == FragmentView::Text {
        chars: Seq::<char>::empty(),
        synthesized: false,
    });
    lemma_prepend_assoc(
        seq![text_view(front)] + node_views(kdl_result(first)->Ok_0),
        seq![text_view(Seq::<char>::empty())] + node_views(kdl_result(second)->Ok_0),
        spec_parse(rest),
    );
    assert((seq![text_view(front)] + node_views(kdl_result(first)->Ok_0)) + (seq![
        text_view(Seq::<char>::empty()),
    ] + node_views(kdl_result(second)->Ok_0)) =~= seq![text_view(front)] + node_views(
        kdl_result(first)->Ok_0,
    ) + seq![text_view(Seq::<char>::empty())] + node_views(kdl_result(second)->Ok_0));
}

/// An escape character immediately before an opening marker yields the text
/// before the marker with the escape retained, then a synthesized literal
/// marker, and scanning resumes right after the marker.
pub proof fn lemma_escaped_marker(front: Seq<char>, rest: Seq<char>)
    requires
        no_char(front, '<'),
        front.len() > 0,
        front[front.len() - 1] == '\\',
    ensures
        spec_parse(front + seq!['<'] + rest) == prepend(
            seq![text_view(front), marker_view()],
            spec_parse(rest),
        ),
{
    let input = front + seq!['<'] + rest;
    let flen = front.len() as int;
    assert(input[flen] == '<');
    assert forall|i: int| 0 <= i < flen implies input[i] != '<' by {
        assert(input[i] == front[i]);
    }
    lemma_find_char_from_is(input, '<', 0, flen);
    assert(input.take(flen) =~= front);
    assert(input.skip(flen + 1) =~= rest);
    assert(input[flen - 1] == front[flen - 1]);
}

/// A closing-marker character inside a fragment's content does not end the
/// fragment early: when the window up to it is rejected, the search widens
/// past it until the whole content parses.
pub proof fn lemma_resolver_widens(content: Seq<char>, inner: int, rest: Seq<char>)
    requires
        0 <= inner < content.len() - 1,
        content[inner] == '>',
        forall|i: int| 0 <= i < content.len() && i != inner ==> content[i] != '>',
        kdl_result(content.take(inner)) is Err,
        kdl_result(content) is Ok,
    ensures
        spec_resolve(content + seq!['>'] + rest, 0, None) == Ok::<
            (int, Seq<kdl::KdlNode>),
            ErrorKind,
        >((content.len() as int, kdl_result(content)->Ok_0)),
{
    let back = content + seq!['>'] + rest;
    let clen = content.len() as int;
    assert(back[inner] == '>');
    assert forall|i: int| 0 <= i < inner implies back[i] != '>' by {
        assert(back[i] == content[i]);
    }
    lemma_find_char_from_is(back, '>', 0, inner);
    assert(back.take(inner) =~= content.take(inner));
    let err = kdl_result(content.take(inner))->Err_0;
    assert(back[clen] == '>');
    assert forall|i: int| inner + 1 <= i < clen implies back[i] != '>' by {
        assert(back[i] == content[i]);
    }
    lemma_find_char_from_is(back, '>', inner + 1, clen);
    assert(back.take(clen) =~= content);
    assert(spec_resolve(back, inner + 1, Some(err)) == Ok::<
        (int, Seq<kdl::KdlNode>),
        ErrorKind,
    >((clen, kdl_result(content)->Ok_0)));
}

/// An opening marker with no closing marker anywhere after it fails the whole
/// parse: no document is returned.
pub proof fn lemma_unclosed(front: Seq<char>, back: Seq<char>)
    requires
        no_char(front, '<'),
        no_trailing_escape(front),
        no_char(back, '>'),
    ensures
        spec_parse(front + seq!['<'] + back) == Err::<Seq<FragmentView>, ErrorKind>(
            ErrorKind::UnclosedKdl,
        ),
{
    let input = front + seq!['<'] + back;
    let flen = front.len() as int;
    assert(input[flen] == '<');
    assert forall|i: int| 0 <= i < flen implies input[i] != '<' by {
        assert(input[i] == front[i]);
    }
    lemma_find_char_from_is(input, '<', 0, flen);
    assert(input.skip(flen + 1) =~= back);
    lemma_find_char_from_none(back, '>', 0);
}

/// The parse is a pure function of its input: two outcomes that both satisfy
/// `parse_document`'s contract for the same input are the same document.
pub proof fn lemma_parse_deterministic(
    input: Seq<char>,
    first: Result<Seq<FragmentView>, ErrorKind>,
    second: Result<Seq<FragmentView>, ErrorKind>,
)
    requires
        first == spec_parse(input),
        second == spec_parse(input),
    ensures
        first == second,
{
}

} // verus!
