use ikdl::parse_document;
use ikdl::Error;
use ikdl::ErrorKind;
use ikdl::Fragment;
use ikdl::Text;

/// Parses a KDL snippet with the same external parser the library calls, so
/// expected nodes are built from the same text the library hands over.
fn kdl_nodes(src: &str) -> Vec<kdl::KdlNode> {
    src.parse::<kdl::KdlDocument>()
        .expect("expected KDL snippet parses")
        .into_iter()
        .collect()
}

fn kdl_node(src: &str) -> kdl::KdlNode {
    let mut nodes = kdl_nodes(src);
    assert_eq!(nodes.len(), 1);
    nodes.remove(0)
}

fn input_text(s: &str) -> Fragment {
    Fragment::Text(Text::FromInput(s.to_string()))
}

fn property<'a>(node: &'a kdl::KdlNode, key: &str) -> &'a str {
    node.get(key)
        .expect("property present")
        .as_string()
        .expect("string property")
}

#[test]
fn simple_node() {
    let doc = "This <cuddly> thing.";
    let parsed = parse_document(doc);
    assert_eq!(
        parsed,
        Ok(vec![
            input_text("This "),
            Fragment::Node(kdl_node("cuddly")),
            input_text(" thing."),
        ])
    );
    let frags = parsed.unwrap();
    match &frags[1] {
        Fragment::Node(node) => assert_eq!(node.name().value(), "cuddly"),
        other => panic!("expected a node, got {:?}", other),
    }
}

#[test]
fn empty_node() {
    let doc = "This <> thing.";
    assert_eq!(
        parse_document(doc),
        Ok(vec![input_text("This "), input_text(" thing.")])
    );
}

#[test]
fn back_to_back_nodes() {
    let doc = "This <curious><cuddly> thing.";
    assert_eq!(
        parse_document(doc),
        Ok(vec![
            input_text("This "),
            Fragment::Node(kdl_node("curious")),
            input_text(""),
            Fragment::Node(kdl_node("cuddly")),
            input_text(" thing."),
        ])
    );
}

#[test]
fn example_latin() {
    let doc = r#"
	Hic voluptatem eum et repudiandae nisi cum qui sed. Voluptatum molestiae recusa
	quod<note latin="quī" case="nominative" gender="neuter" number="singular"> quas
	suscipit reprehenderit eos commodi. Dolores earum iste tempore culpa ut nostrum.
	"#;
    let expected_node =
        kdl_node(r#"note latin="quī" case="nominative" gender="neuter" number="singular""#);
    assert_eq!(
        parse_document(doc),
        Ok(vec![
            input_text(
                "\n\tHic voluptatem eum et repudiandae nisi cum qui sed. Voluptatum molestiae recusa\n\tquod"
            ),
            Fragment::Node(expected_node.clone()),
            input_text(
                " quas\n\tsuscipit reprehenderit eos commodi. Dolores earum iste tempore culpa ut nostrum.\n\t"
            ),
        ])
    );
    assert_eq!(expected_node.name().value(), "note");
    assert_eq!(property(&expected_node, "case"), "nominative");
    assert_eq!(property(&expected_node, "latin"), "quī");
    assert_eq!(property(&expected_node, "gender"), "neuter");
    assert_eq!(property(&expected_node, "number"), "singular");
}

#[test]
fn example_multiline() {
    let doc = r#"
	Inflection of quī (“who, which”), Proto-Indo-European *kʷod, whence also <etymology \
		word="hwæt" \
		lang="Old English" \
		{
			translation {
				text "what"
				lang "English"
			}
		}
	>.
	"#;
    let open = doc.find('<').expect("opening marker");
    let close = doc.rfind('>').expect("closing marker");
    let expected_node = kdl_node(&doc[open + 1..close]);
    assert_eq!(
        parse_document(doc),
        Ok(vec![
            input_text(
                "\n\tInflection of quī (“who, which”), Proto-Indo-European *kʷod, whence also "
            ),
            Fragment::Node(expected_node.clone()),
            input_text(".\n\t"),
        ])
    );
    assert_eq!(expected_node.name().value(), "etymology");
    assert_eq!(property(&expected_node, "word"), "hwæt");
    assert_eq!(property(&expected_node, "lang"), "Old English");
    let children = expected_node.children().expect("children block").nodes();
    assert_eq!(children.len(), 1);
    assert_eq!(children[0].name().value(), "translation");
    let grand = children[0].children().expect("children block").nodes();
    assert_eq!(grand.len(), 2);
    assert_eq!(grand[0].name().value(), "text");
    assert_eq!(grand[0].entries()[0].value().as_string(), Some("what"));
    assert_eq!(grand[1].name().value(), "lang");
    assert_eq!(grand[1].entries()[0].value().as_string(), Some("English"));
}

#[test]
fn example_inner_angles() {
    let doc = r#"i-kdl uses <code "<"> and <code ">"> to indicate a KDL fragment."#;
    let left = kdl_node(r#"code "<""#);
    let right = kdl_node(r#"code ">""#);
    assert_eq!(
        parse_document(doc),
        Ok(vec![
            input_text("i-kdl uses "),
            Fragment::Node(left.clone()),
            input_text(" and "),
            Fragment::Node(right.clone()),
            input_text(" to indicate a KDL fragment."),
        ])
    );
    assert_eq!(left.entries()[0].value().as_string(), Some("<"));
    assert_eq!(right.entries()[0].value().as_string(), Some(">"));
}

#[test]
fn example_escape() {
    // A bare `true` is a reserved keyword in this version of the KDL grammar,
    // so the node name is written as a quoted identifier here.
    let doc = r#"Escaping \< is possible: <"true">."#;
    let ikdl = parse_document(doc);
    assert_eq!(
        ikdl,
        Ok(vec![
            input_text(r#"Escaping \"#),
            Fragment::Text(Text::Synthesized(r#"<"#.to_string())),
            input_text(r#" is possible: "#),
            Fragment::Node(kdl_node(r#""true""#)),
            input_text(r#"."#),
        ])
    );

    let owned = ikdl.unwrap().remove(1);
    assert!(matches!(owned, Fragment::Text(Text::Synthesized(_))));
}

#[test]
fn no_markers_whole_input() {
    let doc = "nothing embedded here at all.";
    assert_eq!(parse_document(doc), Ok(vec![input_text(doc)]));
}

#[test]
fn empty_input() {
    assert_eq!(parse_document(""), Ok(vec![input_text("")]));
}

#[test]
fn fragment_at_start() {
    let doc = "<curious> thing";
    assert_eq!(
        parse_document(doc),
        Ok(vec![
            input_text(""),
            Fragment::Node(kdl_node("curious")),
            input_text(" thing"),
        ])
    );
}

#[test]
fn escape_at_start() {
    let doc = r#"\<x"#;
    assert_eq!(
        parse_document(doc),
        Ok(vec![
            input_text(r#"\"#),
            Fragment::Text(Text::Synthesized("<".to_string())),
            input_text("x"),
        ])
    );
}

#[test]
fn unclosed_marker() {
    let doc = "an opening <note with no close";
    assert_eq!(
        parse_document(doc),
        Err(Error {
            kind: ErrorKind::UnclosedKdl,
        })
    );
}

#[test]
fn grammar_error_on_final_window() {
    // The only candidate window consumes all remaining input and is rejected:
    // the parse fails with that rejection.
    let doc = r#"a <" b>"#;
    let parsed = parse_document(doc);
    assert!(matches!(
        parsed,
        Err(Error {
            kind: ErrorKind::KdlError(_)
        })
    ));
}

#[test]
fn grammar_error_when_search_is_stuck() {
    // After a rejection, a closing marker immediately at the cursor cannot
    // extend the window: the prior rejection is reported.
    let doc = r#"x <a ">>" b>"#;
    let parsed = parse_document(doc);
    assert!(matches!(
        parsed,
        Err(Error {
            kind: ErrorKind::KdlError(_)
        })
    ));
}

#[test]
fn widened_window_keeps_inner_close_marker() {
    let doc = r#"see <code ">">!"#;
    let node = kdl_node(r#"code ">""#);
    assert_eq!(
        parse_document(doc),
        Ok(vec![
            input_text("see "),
            Fragment::Node(node.clone()),
            input_text("!"),
        ])
    );
    assert_eq!(node.name().value(), "code");
    assert_eq!(node.entries()[0].value().as_string(), Some(">"));
}

#[test]
fn keyword_in_type_annotation_is_an_error() {
    // A reserved keyword inside a type annotation right before the closing
    // marker: the KDL parser must reject this without aborting, even though
    // only one byte of the candidate follows the keyword.
    let parsed = parse_document("a <(true)> b");
    assert!(matches!(
        parsed,
        Err(Error {
            kind: ErrorKind::KdlError(_)
        })
    ));
}

#[test]
fn keyword_in_type_annotation_at_end_of_input() {
    let parsed = parse_document("a <(true)>");
    assert!(matches!(
        parsed,
        Err(Error {
            kind: ErrorKind::KdlError(_)
        })
    ));
}

#[test]
fn parse_is_deterministic() {
    let doc = r#"Escaping \< stays; <code "<"> rest."#;
    let first = parse_document(doc);
    let second = parse_document(doc);
    assert_eq!(first, second);
}

#[test]
fn text_accessors_report_content_and_provenance() {
    let doc = r#"a\<b"#;
    let frags = parse_document(doc).unwrap();
    assert_eq!(frags.len(), 3);
    match &frags[0] {
        Fragment::Text(t) => {
            assert_eq!(t.chars(), r#"a\"#);
            assert!(!t.is_synthesized());
        }
        other => panic!("expected text, got {:?}", other),
    }
    match &frags[1] {
        Fragment::Text(t) => {
            assert_eq!(t.chars(), "<");
            assert!(t.is_synthesized());
        }
        other => panic!("expected text, got {:?}", other),
    }
}
