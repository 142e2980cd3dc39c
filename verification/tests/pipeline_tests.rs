use rustdoc_text::dom::NodeData;
use rustdoc_text::extract::extract;
use rustdoc_text::extract::extract_with;
use rustdoc_text::extract::ExtractError;
use rustdoc_text::lines::tidy_lines;
use rustdoc_text::process_html_content;
use rustdoc_text::render::render;
use rustdoc_text::render::render_with_mode;
use rustdoc_text::render::RenderMode;

#[test]
fn title_and_hello_scenario() {
    let html = "<div id=\"main-content\"><h1>Title</h1><p>Hello</p></div>";
    let out = process_html_content(html).unwrap();
    assert_eq!(out, "\n\nTitle\n\nHello\n\n");
    assert!(out.contains("Title"));
    assert!(out.contains("Hello"));
    assert!(!out.contains('<') && !out.contains('>'));
    assert!(!out.contains("\n\n\n"));
}

#[test]
fn missing_marker_fails_with_not_found() {
    let html = "<html><body><div><p>words</p></div></body></html>";
    let r = process_html_content(html);
    assert!(matches!(r, Err(ExtractError::NotFound)));
    let e = r.unwrap_err();
    assert_eq!(e.describe(), "could not find main content section");
}

#[test]
fn empty_input_fails_with_not_found() {
    assert!(matches!(process_html_content(""), Err(ExtractError::NotFound)));
}

#[test]
fn script_body_never_rendered() {
    let html = "<div id=\"main-content\"><script>alert(1)</script><p>Visible</p></div>";
    let out = process_html_content(html).unwrap();
    assert!(out.contains("Visible"));
    assert!(!out.contains("alert"));
}

#[test]
fn style_body_never_rendered() {
    let html = "<div id=\"main-content\"><style>.x{color:red}</style><p>Seen</p></div>";
    let out = process_html_content(html).unwrap();
    assert!(out.contains("Seen"));
    assert!(!out.contains("color"));
}

#[test]
fn empty_blocks_collapse_to_two_newlines() {
    let html = "<div id=\"main-content\"><p></p><p></p><p></p><p></p><p></p></div>";
    let out = process_html_content(html).unwrap();
    assert!(!out.contains("\n\n\n"));
    assert_eq!(out, "\n\n");
}

#[test]
fn extract_returns_the_marked_element() {
    let html = "<div id=\"wrap\"><div id=\"main-content\"><p>x</p></div></div>";
    let cr = extract(html).unwrap();
    match &cr.doc.nodes[cr.root].data {
        NodeData::Element { tag, id } => {
            assert_eq!(tag, "div");
            assert_eq!(id.as_deref(), Some("main-content"));
        },
        _ => panic!("content root is not an element"),
    }
}

#[test]
fn extract_with_takes_another_marker() {
    let html = "<div id=\"main-content\">no</div><section id=\"docs\"><p>yes</p></section>";
    let cr = extract_with(html, "docs").unwrap();
    let raw = render(&cr);
    assert!(raw.contains("yes"));
    assert!(!raw.contains("no"));
    assert!(matches!(extract_with(html, "absent"), Err(ExtractError::NotFound)));
}

#[test]
fn extract_tolerates_malformed_markup() {
    let html = "<div id=\"main-content\"><p>open<b>bold</div></oops><<";
    let cr = extract(html).unwrap();
    let raw = render(&cr);
    assert!(raw.contains("open"));
    assert!(raw.contains("bold"));
}

#[test]
fn inline_elements_add_no_spacing() {
    let html = "<div id=\"main-content\"><p><b>bold</b></p></div>";
    let out = process_html_content(html).unwrap();
    assert_eq!(out, "\n\nbold\n\n");
}

#[test]
fn strict_trim_mode_drops_blank_structure() {
    let html = "<div id=\"main-content\"><h1>Title</h1><p>Hello</p></div>";
    let cr = extract(html).unwrap();
    let structured = render_with_mode(&cr, &RenderMode::Structured);
    assert_eq!(structured, "\n\nTitle\n\n\nHello\n\n\n");
    let strict = render_with_mode(&cr, &RenderMode::StrictTrim);
    assert_eq!(strict, "Title\nHello");
}

#[test]
fn whitespace_text_nodes_still_terminate_lines() {
    let html = "<div id=\"main-content\">\n  <p>A</p>\n</div>";
    let out = process_html_content(html).unwrap();
    assert_eq!(out, "\n\n  \n\nA\n\n");
}

#[test]
fn doctype_and_comments_render_as_nothing() {
    let html = "<!DOCTYPE html><html><body><!-- hidden --><div id=\"main-content\"><p>Shown</p></div></body></html>";
    let out = process_html_content(html).unwrap();
    assert!(out.contains("Shown"));
    assert!(!out.contains("hidden"));
    assert!(!out.contains("DOCTYPE") && !out.contains("html"));
}

#[test]
fn tidy_lines_trims_and_drops_empties() {
    assert_eq!(tidy_lines("  a  \n\n   \nb"), "a\nb");
    assert_eq!(tidy_lines(""), "");
    assert_eq!(tidy_lines(" \t \r \n \t "), "");
    assert_eq!(tidy_lines("one\ntwo"), "one\ntwo");
}
