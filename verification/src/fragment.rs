use vstd::prelude::*;

verus! {

/// One run of literal text in a parsed document.
///
/// `FromInput` holds characters copied verbatim from a span of the input.
/// `Synthesized` holds characters that stand at this position without being
/// present verbatim there: the literal opening marker produced by an escape.
/// Consumers that only care about the characters can treat both alike.
#[derive(Debug, Clone, PartialEq, Eq)]
pub enum Text {
    FromInput(String),
    Synthesized(String),
}

impl Text {
    /// The characters this text stands for.
    pub open spec fn spec_chars(&self) -> Seq<char> {
        match self {
            Text::FromInput(s) => s@,
            Text::Synthesized(s) => s@,
        }
    }

    /// Whether the characters were synthesized rather than copied from the
    /// input.
    pub open spec fn spec_synthesized(&self) -> bool {
        self is Synthesized
    }

    /// The characters this text stands for.
    pub fn chars(&self) -> (r: &String)
        ensures
            r@ == self.spec_chars(),
    {
        match self {
            Text::FromInput(s) => s,
            Text::Synthesized(s) => s,
        }
    }

    /// Whether the characters were synthesized rather than copied from the
    /// input.
    pub fn is_synthesized(&self) -> (r: bool)
        ensures
            r == self.spec_synthesized(),
    {
        matches!(self, Text::Synthesized(_))
    }
}

/// One unit of parsed output: a literal text span, or one structured element
/// produced by the KDL parser.
#[derive(Debug, PartialEq)]
pub enum Fragment {
    Text(Text),
    Node(kdl::KdlNode),
}

/// The mathematical content of a `Fragment`: the characters of a text span
/// together with its provenance tag, or the parsed element itself.
#[verifier::ext_equal]
pub ghost enum FragmentView {
    Text { chars: Seq<char>, synthesized: bool },
    Node(kdl::KdlNode),
}

impl View for Fragment {
    type V = FragmentView;

    open spec fn view(&self) -> FragmentView {
        match self {
            Fragment::Text(t) => FragmentView::Text {
                chars: t.spec_chars(),
                synthesized: t.spec_synthesized(),
            },
            Fragment::Node(n) => FragmentView::Node(*n),
        }
    }
}

} // verus!
