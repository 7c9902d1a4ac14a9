//! The boundary with the external KDL parser.
//!
//! The parser is a collaborator: its grammar is given, not designed here.
//! This crate only relies on its calling contract: handed a complete string,
//! it either parses it in full as a sequence of zero or more top-level nodes
//! or rejects it, and the outcome is a function of the string alone.

use vstd::prelude::*;

verus! {

/// The structured element type produced by the KDL parser. Nodes are carried
/// through this crate opaquely: nothing here reads their insides.
#[verifier::external_type_specification]
#[verifier::external_body]
pub struct ExKdlNode(kdl::KdlNode);

/// The error the KDL parser reports when it rejects its input. Carried
/// through opaquely.
#[verifier::external_type_specification]
#[verifier::external_body]
pub struct ExKdlError(kdl::KdlError);

/// The outcome of `kdl::KdlDocument::from_str` on the given characters: the
/// parsed top-level nodes in order, or the parser's error.
pub uninterp spec fn kdl_outcome(s: Seq<char>) -> Result<Seq<kdl::KdlNode>, kdl::KdlError>;

/// `kdl_outcome`, with the one outcome that is fixed in advance spelled out:
/// an empty string is a complete document with zero nodes.
pub open spec fn kdl_result(s: Seq<char>) -> Result<Seq<kdl::KdlNode>, kdl::KdlError> {
    if s.len() == 0 {
        Ok(Seq::empty())
    } else {
        kdl_outcome(s)
    }
}

/// Relies on `kdl::KdlDocument::from_str`: it parses the whole input as a
/// complete KDL document or rejects it (trailing unconsumed content is a
/// failure), it returns the document's top-level nodes in order, it is
/// deterministic in its input, it accepts an empty input as a document with
/// zero nodes, and it returns on every input rather than panicking (its
/// rejections are built from collected diagnostics, with no partial
/// re-slicing of the input).
#[verifier::external_body]
pub(crate) fn parse_kdl(chars: &[char]) -> (r: Result<Vec<kdl::KdlNode>, kdl::KdlError>)
    ensures
        (match r {
            Ok(nodes) => kdl_result(chars@) == Ok::<Seq<kdl::KdlNode>, kdl::KdlError>(nodes@),
            Err(e) => kdl_result(chars@) == Err::<Seq<kdl::KdlNode>, kdl::KdlError>(e),
        }),
        (match r {
            Ok(nodes) => kdl_outcome(chars@) == Ok::<Seq<kdl::KdlNode>, kdl::KdlError>(nodes@),
            Err(e) => kdl_outcome(chars@) == Err::<Seq<kdl::KdlNode>, kdl::KdlError>(e),
        }),
{
    let source: String = chars.iter().collect();
    match source.parse::<kdl::KdlDocument>() {
        Ok(doc) => Ok(doc.into_iter().collect()),
        Err(err) => Err(err),
    }
}

} // verus!
