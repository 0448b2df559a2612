use markup_pages::page::gen_page;
use markup_pages::parser::parse;
use markup_pages::tag::{class_names, Tag};

fn p(s: &str) -> String {
    parse(s.to_string())
}

#[test]
fn heading_with_level() {
    assert_eq!(p("[HEADING;2:Hi]"), "<h2>Hi</h2>");
}

#[test]
fn heading_default_level() {
    assert_eq!(p("[HEADING:Hi]"), "<h1>Hi</h1>");
}

#[test]
fn nested_tags_close_innermost_first() {
    assert_eq!(
        p("[E;BI:[LINK;http\\://x:t]]"),
        "<span class='bold italic'><a href='http://x'>t</a></span>"
    );
    // An unescaped colon ends the link's header early; the nesting still
    // closes innermost first.
    assert_eq!(
        p("[E;BI:[LINK;http://x:t]]"),
        "<span class='bold italic'><a href='http'>//x:t</a></span>"
    );
}

#[test]
fn unknown_kind_passes_content() {
    assert_eq!(p("[FOO:bar]"), "bar");
}

#[test]
fn line_break_substitution() {
    assert_eq!(p("a~b"), "a<br />b");
}

#[test]
fn spacer_substitution() {
    assert_eq!(p("a`b"), "a<div style='width:2em;display:inline-block;'></div>b");
}

#[test]
fn unmatched_open_never_closes() {
    assert_eq!(p("[HEADING:Hi"), "<h1>Hi");
}

#[test]
fn unmatched_close_is_ignored() {
    assert_eq!(p("Hi]"), "Hi");
    assert_eq!(p("]]"), "");
}

#[test]
fn title_line_is_extracted() {
    let page = gen_page("!My Title\nBody text".to_string(), &"s.css".to_string());
    assert_eq!(
        page,
        "<!DOCTYPE html><html><head><title>My Title</title>\
         <link rel='stylesheet' href='s.css' /></head><body>Body text</body></html>"
    );
}

#[test]
fn title_is_trimmed() {
    let page = gen_page("!  Spaced  \nx".to_string(), &"a.css".to_string());
    assert!(page.contains("<title>Spaced</title>"));
    assert!(page.ends_with("<body>x</body></html>"));
}

#[test]
fn backslash_first_line_stays_in_body() {
    let page = gen_page("\\Line one\nLine two".to_string(), &"s.css".to_string());
    assert!(page.contains("<title></title>"));
    assert!(page.ends_with("<body>Line oneLine two</body></html>"));
}

#[test]
fn document_without_marker_is_all_body() {
    let page = gen_page("!\n".to_string(), &"s.css".to_string());
    assert!(page.contains("<title></title>"));
    let page = gen_page("plain [HEADING:x]".to_string(), &"s.css".to_string());
    assert!(page.contains("<title></title>"));
    assert!(page.ends_with("<body>plain <h1>x</h1></body></html>"));
}

#[test]
fn empty_document() {
    let page = gen_page(String::new(), &String::new());
    assert_eq!(
        page,
        "<!DOCTYPE html><html><head><title></title>\
         <link rel='stylesheet' href='' /></head><body></body></html>"
    );
}

#[test]
fn newlines_are_dropped() {
    assert_eq!(p("a\nb\n"), "ab");
    assert_eq!(p("[HEAD\nING;3:x\ny]"), "<h3>xy</h3>");
}

#[test]
fn escaped_open_keeps_backslash() {
    assert_eq!(p("\\[x"), "\\[x");
}

#[test]
fn escaped_close_and_literals_drop_backslash() {
    assert_eq!(p("a\\]"), "a]");
    assert_eq!(p("a\\~b"), "a~b");
    assert_eq!(p("a\\`b"), "a`b");
}

#[test]
fn escaped_colon_in_arguments() {
    assert_eq!(p("[LINK;http\\://x:t]"), "<a href='http://x'>t</a>");
}

#[test]
fn colon_in_plain_text() {
    assert_eq!(p("a:b;c"), "a:b;c");
}

#[test]
fn kind_is_trimmed() {
    assert_eq!(p("[ HEADING ;3:x]"), "<h3>x</h3>");
}

#[test]
fn subtitle_ignores_arguments() {
    assert_eq!(p("[SUBTITLE;zz:s]"), "<div class='subtitle'>s</div>");
}

#[test]
fn align_is_trimmed_and_lowercased() {
    assert_eq!(
        p("[ALIGN; Center :c]"),
        "<div style='text-align: center'>c</div>"
    );
}

#[test]
fn style_letters() {
    assert_eq!(class_names("BIUS"), "bold italic underlined secondary");
    assert_eq!(class_names("BXI"), "bold  italic");
    assert_eq!(class_names("XB"), " bold");
    assert_eq!(class_names(""), "");
    assert_eq!(p("[E:x]"), "<span class=''>x</span>");
}

#[test]
fn close_with_empty_stack_in_kind_mode() {
    assert_eq!(p("[]:x"), "x");
}

#[test]
fn tag_record_edits() {
    let mut t = Tag::new();
    t.push_kind('E');
    t.push_args('B');
    t.push_args('U');
    t.pop_args();
    let (open, close) = t.construct();
    assert_eq!(open, "<span class='bold'>");
    assert_eq!(close, "</span>");
    let mut empty = Tag::new();
    empty.pop_args();
    assert_eq!(empty.construct(), (String::new(), String::new()));
}

#[test]
fn separator_in_arguments_is_data() {
    assert_eq!(p("[LINK;a;b:t]"), "<a href='a;b'>t</a>");
}
