use xml_tokenizer::tokenize;
use xml_tokenizer::tokenize_bytes;
use xml_tokenizer::BufferSource;
use xml_tokenizer::ByteReader;
use xml_tokenizer::ReadFailure;
use xml_tokenizer::StateRecord;
use xml_tokenizer::ThrottledSource;
use xml_tokenizer::Token;
use xml_tokenizer::TokenRecord;

fn kinds(toks: &[TokenRecord]) -> Vec<u8> {
    toks.iter().map(|t| t.kind.wire_code()).collect()
}

fn shape(toks: &[TokenRecord]) -> Vec<(u8, String, Option<String>)> {
    toks.iter().map(|t| (t.kind.wire_code(), t.value.clone(), t.detail.clone())).collect()
}

fn run(doc: &str, html: Option<bool>) -> (Vec<TokenRecord>, Vec<StateRecord>) {
    tokenize_bytes(doc.as_bytes().to_vec(), html)
}

#[test]
fn wire_codes_are_stable() {
    assert_eq!(Token::Error.wire_code(), 0);
    assert_eq!(Token::XMLDeclaration.wire_code(), 1);
    assert_eq!(Token::XMLDoctype.wire_code(), 2);
    assert_eq!(Token::XMLInstruction.wire_code(), 3);
    assert_eq!(Token::TagOpen.wire_code(), 4);
    assert_eq!(Token::TagClose.wire_code(), 5);
    assert_eq!(Token::TagAttribute.wire_code(), 6);
    assert_eq!(Token::Text.wire_code(), 7);
    assert_eq!(Token::CData.wire_code(), 8);
    assert_eq!(Token::Comment.wire_code(), 9);
}

#[test]
fn strict_scenario_declaration_root_attribute_text_comment() {
    let (toks, states) = run("<?xml version=\"1.0\"?><root id=\"1\">hi<!-- c --></root>", None);
    let expected = vec![
        (1u8, "xml version=\"1.0\"".to_string(), None),
        (4u8, "root".to_string(), None),
        (6u8, "id".to_string(), Some("1".to_string())),
        (7u8, "hi".to_string(), None),
        (9u8, " c ".to_string(), None),
        (5u8, "root".to_string(), None),
    ];
    assert_eq!(shape(&toks), expected);
    assert!(states.is_empty());
}

#[test]
fn malformed_nesting_ends_in_one_error_token() {
    let (toks, _) = run("<a><b></a>", None);
    assert!(toks.len() >= 1);
    let last = toks.last().unwrap();
    assert_eq!(last.kind.wire_code(), 0);
    assert!(last.value.starts_with("Error at position "));
    // every token before the error is well-formed (not an error)
    for t in &toks[..toks.len() - 1] {
        assert_ne!(t.kind.wire_code(), 0);
    }
    // exactly one error token
    assert_eq!(toks.iter().filter(|t| t.kind.wire_code() == 0).count(), 1);
}

#[test]
fn error_message_carries_byte_offset() {
    let (toks, _) = run("<a><b></a>", None);
    let last = toks.last().unwrap();
    let rest = &last.value["Error at position ".len()..];
    let digits: String = rest.chars().take_while(|c| c.is_ascii_digit()).collect();
    assert!(!digits.is_empty());
    assert!(rest[digits.len()..].starts_with(": "));
}

#[test]
fn attribute_order_is_preserved() {
    let (toks, _) = run("<a x=\"1\" y=\"2\"/>", None);
    let expected = vec![
        (4u8, "a".to_string(), None),
        (6u8, "x".to_string(), Some("1".to_string())),
        (6u8, "y".to_string(), Some("2".to_string())),
        (5u8, "a".to_string(), None),
    ];
    assert_eq!(shape(&toks), expected);
}

#[test]
fn whitespace_only_text_is_discarded_by_default() {
    let (toks, _) = run("<a><b>  </b></a>", None);
    assert!(toks.iter().all(|t| t.kind.wire_code() != 7));
    assert_eq!(kinds(&toks), vec![4, 4, 5, 5]);
}

#[test]
fn whitespace_kept_at_preserving_depth() {
    let (toks, _) = run("<a xml:space=\"preserve\">  <b/></a>", None);
    let texts: Vec<&TokenRecord> = toks.iter().filter(|t| t.kind.wire_code() == 7).collect();
    assert_eq!(texts.len(), 1);
    assert_eq!(texts[0].value, "  ");
}

#[test]
fn whitespace_below_preserving_depth_is_collapsed() {
    // The scope keeps text at the preserving element's own depth only;
    // whitespace one level deeper (inside <b>) is still collapsed.
    let (toks, _) = run("<a xml:space=\"preserve\"><b>  </b></a>", None);
    assert!(toks.iter().all(|t| t.kind.wire_code() != 7));
}

#[test]
fn preserve_scope_is_a_single_depth_mark() {
    // The scope is one integer, the depth at which preservation was switched
    // on (here 2, for <a>). An end tag clears it only when its decrement
    // lands exactly on that depth, so </a> (landing on 1) leaves it active
    // and the whitespace in the sibling <b> at depth 2 is kept as well.
    let (toks, _) = run("<r><a xml:space=\"preserve\">  </a><b>  </b></r>", None);
    let texts: Vec<&TokenRecord> = toks.iter().filter(|t| t.kind.wire_code() == 7).collect();
    assert_eq!(texts.len(), 2);
    assert_eq!(texts[0].value, "  ");
    assert_eq!(texts[1].value, "  ");
}

#[test]
fn tokenizing_twice_yields_identical_sequences() {
    let doc = "<?xml version=\"1.0\"?><r a=\"1\">x<e/> </r>";
    let (t1, s1) = run(doc, None);
    let (t2, s2) = run(doc, None);
    assert_eq!(shape(&t1), shape(&t2));
    assert_eq!(s1.len(), s2.len());
}

#[test]
fn partial_reads_match_buffer_source() {
    // a 50-byte document, served whole and one byte per read
    let doc = "<doc a=\"1\">abcdefghijklmnopqrstuvwxyz0123456</doc>";
    assert_eq!(doc.len(), 50);
    let mut buffered = BufferSource::new(doc.as_bytes().to_vec());
    let mut throttled = ThrottledSource::new(doc.as_bytes().to_vec(), 1);
    let (t1, s1) = tokenize(&mut buffered, None);
    let (t2, s2) = tokenize(&mut throttled, None);
    assert_eq!(shape(&t1), shape(&t2));
    assert_eq!(s1.len(), s2.len());
}

#[test]
fn balanced_document_has_equal_open_and_close_counts() {
    let (toks, _) = run("<a><b><c/></b><d>t</d></a>", None);
    let opens = toks.iter().filter(|t| t.kind.wire_code() == 4).count();
    let closes = toks.iter().filter(|t| t.kind.wire_code() == 5).count();
    assert_eq!(opens, closes);
    assert_eq!(opens, 4);
}

#[test]
fn tokens_before_error_form_prefix_of_clean_run() {
    let (bad, _) = run("<a><b></a>", None);
    let (good, _) = run("<a><b></b></a>", None);
    let bad_shape = shape(&bad[..bad.len() - 1]);
    let good_shape = shape(&good);
    assert!(bad_shape.len() <= good_shape.len());
    assert_eq!(bad_shape[..], good_shape[..bad_shape.len()]);
}

#[test]
fn permissive_mode_accepts_boolean_attributes() {
    let (toks, _) = run("<input disabled><x/></input>", Some(true));
    let attrs: Vec<&TokenRecord> = toks.iter().filter(|t| t.kind.wire_code() == 6).collect();
    assert_eq!(attrs.len(), 1);
    assert_eq!(attrs[0].value, "disabled");
    assert_eq!(attrs[0].detail.as_deref(), Some(""));
}

#[test]
fn permissive_mode_tolerates_mismatched_end_tags() {
    let (toks, _) = run("<a><b></a>", Some(true));
    assert!(toks.iter().all(|t| t.kind.wire_code() != 0));
    assert_eq!(kinds(&toks), vec![4, 4, 5]);
}

#[test]
fn strict_mode_rejects_unquoted_attribute_values() {
    let (toks, states) = run("<a x=1></a>", None);
    assert_eq!(toks.iter().filter(|t| t.kind.wire_code() == 0).count(), 1);
    assert_eq!(toks.last().unwrap().kind.wire_code(), 0);
    // the attribute-parsing marker is popped even when parsing fails
    assert!(states.is_empty());
}

#[test]
fn permissive_mode_accepts_unquoted_attribute_values() {
    let (toks, _) = run("<a x=1></a>", Some(true));
    let attrs: Vec<&TokenRecord> = toks.iter().filter(|t| t.kind.wire_code() == 6).collect();
    assert_eq!(attrs.len(), 1);
    assert_eq!(attrs[0].value, "x");
    assert_eq!(attrs[0].detail.as_deref(), Some("1"));
}

#[test]
fn empty_input_yields_no_tokens() {
    let (toks, states) = run("", None);
    assert!(toks.is_empty());
    assert!(states.is_empty());
}

#[test]
fn text_outside_any_element_is_discarded() {
    let (toks, _) = run("<a/>stray", None);
    assert!(toks.iter().all(|t| t.kind.wire_code() != 7));
}

#[test]
fn doctype_instruction_and_cdata_tokens() {
    let (toks, _) = run("<!DOCTYPE html><?pi data?><r><![CDATA[x<y]]></r>", None);
    assert_eq!(kinds(&toks), vec![2, 3, 4, 8, 5]);
    assert_eq!(toks[3].value, "x<y");
}

#[test]
fn empty_tag_emits_open_then_close() {
    let (toks, _) = run("<r><e k=\"v\"/></r>", None);
    assert_eq!(kinds(&toks), vec![4, 4, 6, 5, 5]);
    assert_eq!(toks[1].value, "e");
    assert_eq!(toks[3].value, "e");
}

struct FailingReader;

impl ByteReader for FailingReader {
    fn remaining(&self) -> vstd::seq::Seq<u8> {
        unreachable!()
    }

    fn infallible(&self) -> bool {
        unreachable!()
    }

    fn read_chunk(&mut self, _max: usize) -> Result<Vec<u8>, ReadFailure> {
        Err(ReadFailure { message: "host hung up".to_string() })
    }
}

#[test]
fn read_failure_becomes_single_error_token() {
    let mut src = FailingReader;
    let (toks, states) = tokenize(&mut src, None);
    assert_eq!(toks.len(), 1);
    assert_eq!(toks[0].kind.wire_code(), 0);
    assert!(toks[0].value.contains("read failure"));
    assert!(toks[0].value.contains("host hung up"));
    assert!(states.is_empty());
}

#[test]
fn running_tag_balance_never_negative() {
    let (toks, _) = run("<a><b><c/></b><d>t</d></a>", None);
    let mut sum: i64 = 0;
    for t in &toks {
        if t.kind.wire_code() == 4 {
            sum += 1;
        }
        if t.kind.wire_code() == 5 {
            sum -= 1;
        }
        assert!(sum >= 0);
    }
    assert_eq!(sum, 0);
}
