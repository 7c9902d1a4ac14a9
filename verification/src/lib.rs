//! Parses documents that mix free-form text with embedded KDL fragments.
//!
//! A document is plain text in which an opening marker `<` starts an embedded
//! KDL fragment and a closing marker `>` ends it. The closing-marker character
//! may legally occur inside a fragment (for instance in a quoted value), so
//! the boundary of a fragment is found by speculative widening: each candidate
//! window up to some closing marker is offered whole to the KDL parser until
//! one is accepted. A backslash immediately before an opening marker escapes
//! it, turning it into literal text.

use vstd::prelude::*;

pub mod error;
pub mod fragment;
pub mod grammar;
pub mod laws;
pub mod model;
pub mod text;

pub use kdl;

pub use error::Error;
pub use error::ErrorKind;
pub use fragment::Fragment;
pub use fragment::Text;

verus! {

use crate::fragment::FragmentView;
use crate::grammar::parse_kdl;
use crate::model::doc_view;
use crate::model::frag_views;
use crate::model::lemma_frag_views_push;
use crate::model::marker_view;
use crate::model::node_views;
use crate::model::prepend;
use crate::model::spec_parse;
use crate::model::spec_resolve;
use crate::model::text_view;
use crate::text::chars_string;
use crate::text::copy_range;
use crate::text::find_char;
use crate::text::lemma_find_char_from;
use crate::text::str_chars;

/// Boundary search for the fragment opened just before `back`: tries each
/// closing-marker position in turn, widening the candidate window until the
/// KDL parser accepts it, as `spec_resolve` describes.
#[verifier::loop_isolation(false)]
fn resolve(back: &Vec<char>) -> (r: Result<(usize, Vec<kdl::KdlNode>), Error>)
    ensures
        (match r {
            Ok((close, nodes)) => spec_resolve(back@, 0, None) == Ok::<
                (int, Seq<kdl::KdlNode>),
                ErrorKind,
            >((close as int, nodes@)) && close < back@.len(),
            Err(e) => spec_resolve(back@, 0, None) == Err::<
                (int, Seq<kdl::KdlNode>),
                ErrorKind,
            >(e@),
        }),
{
    let mut offset: usize = 0;
    let mut last: Option<kdl::KdlError> = None;
    loop
        invariant
            offset <= back@.len(),
            spec_resolve(back@, 0, None) == spec_resolve(back@, offset as int, last),
        decreases back@.len() - offset,
    {
        proof {
            lemma_find_char_from(back@, '>', offset as int);
        }
        match find_char(back, '>', offset) {
            None => {
                return match last {
                    None => Err(Error { kind: ErrorKind::UnclosedKdl }),
                    Some(e) => Err(Error { kind: ErrorKind::KdlError(e) }),
                };
            },
            Some(close) => {
                proof {
                    assert(close < back@.len());
                }
                if close == offset && last.is_some() {
                    let e = last.unwrap();
                    return Err(Error { kind: ErrorKind::KdlError(e) });
                }
                let candidate = copy_range(back, 0, close);
                proof {
                    assert(candidate@ =~= back@.take(close as int));
                }
                match parse_kdl(candidate.as_slice()) {
                    Ok(nodes) => {
                        return Ok((close, nodes));
                    },
                    Err(e) => {
                        let blen = back.len();
                        if close + 1 == blen {
                            return Err(Error { kind: ErrorKind::KdlError(e) });
                        }
                        last = Some(e);
                        offset = close + 1;
                    },
                }
            },
        }
    }
}

/// The scan-and-assemble loop of `parse_document`, over the input characters.
#[verifier::loop_isolation(false)]
fn parse_chars(chars: Vec<char>) -> (r: Result<Vec<Fragment>, Error>)
    ensures
        doc_view(r) == spec_parse(chars@),
{
    let ghost whole: Seq<char> = chars@;
    let mut rest = chars;
    let mut frags: Vec<Fragment> = Vec::new();
    loop
        invariant
            spec_parse(whole) == prepend(frag_views(frags@), spec_parse(rest@)),
        decreases rest@.len(),
    {
        let ghost seen = frag_views(frags@);
        proof {
            lemma_find_char_from(rest@, '<', 0);
        }
        match find_char(&rest, '<', 0) {
            None => {
                let text = chars_string(rest.as_slice());
                frags.push(Fragment::Text(Text::FromInput(text)));
                proof {
                    assert(spec_parse(rest@) == Ok::<Seq<FragmentView>, ErrorKind>(seq![
                        text_view(rest@),
                    ]));
                    assert(frag_views(frags@) =~= seen + seq![text_view(rest@)]);
                }
                return Ok(frags);
            },
            Some(open) => {
                proof {
                    assert(open < rest@.len());
                }
                let front = copy_range(&rest, 0, open);
                let text = chars_string(front.as_slice());
                let escaped = open > 0 && rest[open - 1] == '\\';
                frags.push(Fragment::Text(Text::FromInput(text)));
                let ghost front_v = rest@.take(open as int);
                proof {
                    assert(front@ =~= front_v);
                    assert(frag_views(frags@) =~= seen.push(text_view(front_v)));
                }
                let rlen = rest.len();
                let back = copy_range(&rest, open + 1, rlen);
                proof {
                    assert(back@ =~= rest@.skip(open + 1));
                }
                if escaped {
                    let marker = "<".to_owned();
                    proof {
                        reveal_strlit("<");
                        assert(marker@ =~= seq!['<']);
                    }
                    frags.push(Fragment::Text(Text::Synthesized(marker)));
                    proof {
                        assert(frag_views(frags@) =~= seen + seq![
                            text_view(front_v),
                            marker_view(),
                        ]);
                        if let Ok(tail) = spec_parse(back@) {
                            assert(seen + (seq![text_view(front_v), marker_view()] + tail) =~= (
                            seen + seq![text_view(front_v), marker_view()]) + tail);
                        }
                    }
                    rest = back;
                } else {
                    match resolve(&back) {
                        Ok((close, nodes)) => {
                            let next = copy_range(&back, close + 1, back.len());
                            proof {
                                assert(next@ =~= back@.skip(close + 1));
                            }
                            let ghost mid = frag_views(frags@);
                            let ghost all = nodes@;
                            let mut nodes = nodes;
                            let ghost mut done: int = 0;
                            while nodes.len() > 0
                                invariant
                                    0 <= done <= all.len(),
                                    nodes@ == all.skip(done),
                                    frag_views(frags@) == mid + node_views(all.take(done)),
                                decreases nodes@.len(),
                            {
                                let n = nodes.remove(0);
                                let ghost fprev = frags@;
                                frags.push(Fragment::Node(n));
                                proof {
                                    let prev = done;
                                    done = done + 1;
                                    lemma_frag_views_push(fprev, Fragment::Node(n));
                                    assert(n == all[prev]);
                                    assert(nodes@ =~= all.skip(done));
                                    assert(node_views(all.take(done)) =~= node_views(
                                        all.take(prev),
                                    ).push(FragmentView::Node(all[prev])));
                                    assert(frag_views(frags@) =~= mid + node_views(
                                        all.take(done),
                                    ));
                                }
                            }
                            proof {
                                assert(all.take(done) =~= all);
                                assert(frag_views(frags@) =~= seen + seq![text_view(front_v)]
                                    + node_views(all));
                                if let Ok(tail) = spec_parse(next@) {
                                    assert(seen + (seq![text_view(front_v)] + node_views(all)
                                        + tail) =~= (seen + seq![text_view(front_v)] + node_views(
                                        all,
                                    )) + tail);
                                }
                            }
                            rest = next;
                        },
                        Err(e) => {
                            proof {
                                assert(spec_parse(rest@) == Err::<Seq<FragmentView>, ErrorKind>(
                                    e@,
                                ));
                            }
                            return Err(e);
                        },
                    }
                }
            },
        }
    }
}

/// Parses a document of mixed text and embedded KDL fragments into its
/// ordered fragments.
///
/// The outcome is `spec_parse` of the input's characters: a function of the
/// input alone. In particular, every span outside delimiters is returned as a
/// text fragment (even when empty), an escaped opening marker yields the text
/// before it followed by a synthesized literal marker, each resolved fragment
/// yields one node per parsed element, and the first failure aborts the whole
/// parse with `UnclosedKdl` or the KDL parser's error, as the model spells
/// out.
pub fn parse_document(input: &str) -> (r: Result<Vec<Fragment>, Error>)
    ensures
        doc_view(r) == spec_parse(input@),
{
    let chars = str_chars(input);
    parse_chars(chars)
}

} // verus!
