use braceml::{
    compile, formatted_or_raw, parse_document, render_document, to_html, Attribute, ErrorKind,
    TextElement,
};

fn pos_of(input: &str, c: char) -> usize {
    input.chars().position(|x| x == c).unwrap()
}

fn tag(
    name: &str,
    id: Option<&str>,
    classes: Option<Vec<&str>>,
    attributes: Option<Vec<(&str, &str)>>,
    content: Vec<TextElement>,
) -> TextElement {
    TextElement::CustomTag {
        name: name.to_string(),
        content,
        id: id.map(|s| s.to_string()),
        classes: classes.map(|v| v.into_iter().map(|s| s.to_string()).collect()),
        attributes: attributes
            .map(|v| v.into_iter().map(|(n, x)| Attribute(n.to_string(), x.to_string())).collect()),
    }
}

fn text(s: &str) -> TextElement {
    TextElement::Plain(s.to_string())
}

#[test]
fn doctype_id_and_classes() {
    let out = compile("!doctype { \"html\" } div#main.box1.box2 { \"Hello\" }").unwrap();
    assert!(out.starts_with("<!DOCTYPE html>"));
    assert_eq!(out, "<!DOCTYPE html>\n<div id=\"main\" class=\"box1 box2\" >Hello</div>");
}

#[test]
fn missing_closing_brace_is_element_error() {
    let input = "!doctype { \"html\" } div { \"x\" ";
    let e = compile(input).unwrap_err();
    assert_eq!(e.kind, ErrorKind::ElementSyntax);
    assert_eq!(e.pos, input.chars().count());
}

#[test]
fn attributes_keep_declaration_order() {
    let out =
        compile("!doctype { \"html\" } a[href=\"http://x\" target=\"_blank\"] { \"go\" }").unwrap();
    assert_eq!(out, "<!DOCTYPE html>\n<a   href=\"http://x\" target=\"_blank\">go</a>");
}

#[test]
fn duplicate_attributes_are_kept() {
    let doc = parse_document("!doctype { \"html\" } p[x=\"1\"  x=\"2\"] { }").unwrap();
    match doc.root {
        TextElement::CustomTag { attributes: Some(a), .. } => {
            assert_eq!(a.len(), 2);
            assert_eq!((a[0].0.as_str(), a[0].1.as_str()), ("x", "1"));
            assert_eq!((a[1].0.as_str(), a[1].1.as_str()), ("x", "2"));
        }
        _ => panic!("expected an element with attributes"),
    }
}

#[test]
fn escapes_decode_to_single_characters() {
    let out = compile("!doctype { \"html\" } p { \"a\\\\b\\\"c\\nd\" }").unwrap();
    assert_eq!(out, "<!DOCTYPE html>\n<p   >a\\b\"c\nd</p>");
}

#[test]
fn unknown_escape_is_string_error() {
    let input = "!doctype { \"html\" } p { \"a\\qb\" }";
    let e = compile(input).unwrap_err();
    assert_eq!(e.kind, ErrorKind::StringSyntax);
    assert_eq!(e.pos, pos_of(input, '\\'));
}

#[test]
fn unterminated_string_is_string_error() {
    let input = "!doctype { \"html\" } p { \"abc";
    let e = compile(input).unwrap_err();
    assert_eq!(e.kind, ErrorKind::StringSyntax);
    assert_eq!(e.pos, input.chars().count());
}

#[test]
fn br_discards_everything() {
    let out = compile("!doctype { \"html\" } div { br#x.y[a=\"b\"] { \"gone\" } }").unwrap();
    assert_eq!(out, "<!DOCTYPE html>\n<div   ><br></div>");
    let t = tag("br", Some("i"), Some(vec!["c"]), Some(vec![("k", "v")]), vec![text("t")]);
    assert_eq!(to_html(&t), "<br>");
}

#[test]
fn doctype_element_in_body() {
    let t = tag("doctype", None, None, None, vec![text("html")]);
    assert_eq!(to_html(&t), "<!DOCTYPE html>");
    let out = compile("!DOCTYPE { \"x\" } body { doctype { \"html\" } }").unwrap();
    assert_eq!(out, "<!DOCTYPE x>\n<body   ><!DOCTYPE html></body>");
}

#[test]
fn empty_string_is_empty_text() {
    let doc = parse_document("!doctype { \"\" } p { \"\" \"a\" }").unwrap();
    assert_eq!(doc.doctype, "<!DOCTYPE >\n");
    match &doc.root {
        TextElement::CustomTag { content, .. } => {
            assert_eq!(content.len(), 2);
            assert!(matches!(&content[0], TextElement::Plain(s) if s.is_empty()));
        }
        _ => panic!("expected an element"),
    }
    assert_eq!(to_html(&doc.root), "<p   >a</p>");
}

#[test]
fn constructed_tree_renders_its_parts() {
    let t = tag(
        "section",
        Some("s1"),
        Some(vec!["a", "b"]),
        Some(vec![("data-x", "1"), ("title", "t")]),
        vec![text("one"), tag("em", None, Some(vec![]), None, vec![text("two")])],
    );
    assert_eq!(
        to_html(&t),
        "<section id=\"s1\" class=\"a b\" data-x=\"1\" title=\"t\">one<em   >two</em></section>"
    );
}

#[test]
fn missing_doctype_is_doctype_error() {
    let e = compile("div { }").unwrap_err();
    assert_eq!(e.kind, ErrorKind::DoctypeSyntax);
    assert_eq!(e.pos, 0);
    let e = compile("!doctype{ \"html\" } div { }").unwrap_err();
    assert_eq!(e.kind, ErrorKind::DoctypeSyntax);
    assert_eq!(e.pos, 8);
    let e = compile("!doctype { html } div { }").unwrap_err();
    assert_eq!(e.kind, ErrorKind::DoctypeSyntax);
    assert_eq!(e.pos, 11);
}

#[test]
fn bare_identifier_in_body_is_element_error() {
    let input = "!doctype { \"html\" } div { p \"x\" }";
    let e = compile(input).unwrap_err();
    assert_eq!(e.kind, ErrorKind::ElementSyntax);
    assert_eq!(e.pos, 28);
}

#[test]
fn root_must_be_an_element() {
    let input = "!doctype { \"html\" } \"text\"";
    let e = compile(input).unwrap_err();
    assert_eq!(e.kind, ErrorKind::ElementSyntax);
    assert_eq!(e.pos, 20);
}

#[test]
fn attribute_without_separator_is_element_error() {
    let input = "!doctype { \"html\" } p[a=\"1\"b=\"2\"] { }";
    let e = compile(input).unwrap_err();
    assert_eq!(e.kind, ErrorKind::ElementSyntax);
    assert_eq!(e.pos, 27);
}

#[test]
fn unicode_identifiers_are_names() {
    let out = compile("!doctype { \"html\" } día_1 { \"x\" }").unwrap();
    assert_eq!(out, "<!DOCTYPE html>\n<día_1   >x</día_1>");
    let e = compile("!doctype { \"html\" } d-v { }").unwrap_err();
    assert_eq!(e.kind, ErrorKind::ElementSyntax);
}

#[test]
fn text_after_root_is_not_read() {
    let out = compile("!doctype { \"html\" } p { } trailing").unwrap();
    assert_eq!(out, "<!DOCTYPE html>\n<p   ></p>");
}

#[test]
fn rendering_is_repeatable() {
    let input = "!doctype { \"html\" } ul.list { li { \"1\" } li { \"2\" } }";
    let a = compile(input).unwrap();
    let b = compile(input).unwrap();
    assert_eq!(a, b);
    let doc = parse_document(input).unwrap();
    assert_eq!(render_document(&doc), a);
    assert_eq!(a, "<!DOCTYPE html>\n<ul  class=\"list\" ><li   >1</li><li   >2</li></ul>");
}

#[test]
fn formatter_fallback() {
    assert_eq!(formatted_or_raw("raw".to_string(), Some("nice".to_string())), "nice");
    assert_eq!(formatted_or_raw("raw".to_string(), None), "raw");
}
