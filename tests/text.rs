use reveal_yaml::{code_block_head, dec, escape, lower_camelcase, md2html, wrap};

#[test]
fn wrap_empty_stays_empty() {
    assert_eq!(wrap("", "<b>", "</b>"), "");
}

#[test]
fn wrap_adds_prefix_and_suffix() {
    assert_eq!(wrap("x", "<b>", "</b>"), "<b>x</b>");
}

#[test]
fn escape_quotes_and_breaks() {
    assert_eq!(escape("a\"b\nc"), "a\\\"b\\nc");
    assert_eq!(escape("plain"), "plain");
}

#[test]
fn decimal_numbers() {
    assert_eq!(dec(0), "0");
    assert_eq!(dec(7), "7");
    assert_eq!(dec(1024), "1024");
    assert_eq!(dec(u64::MAX), "18446744073709551615");
}

#[test]
fn camel_case_of_option_names() {
    assert_eq!(lower_camelcase("slide-number"), "slideNumber");
    assert_eq!(lower_camelcase("slide number"), "slideNumber");
    assert_eq!(lower_camelcase("slide_number"), "slideNumber");
    assert_eq!(lower_camelcase("slideNumber"), "slideNumber");
    assert_eq!(lower_camelcase("a-b-c"), "aBC");
}

#[test]
fn code_head_without_info() {
    assert_eq!(code_block_head(""), "<pre><code>");
    assert_eq!(code_block_head("  "), "<pre><code>");
}

#[test]
fn code_head_with_language() {
    assert_eq!(code_block_head("rust"), "<pre><code class=\"language-rust\">");
}

#[test]
fn code_head_with_line_numbers() {
    assert_eq!(
        code_block_head("rust [1-3|5]"),
        "<pre><code class=\"language-rust\" data-line-numbers=\"1-3|5\">"
    );
}

#[test]
fn markdown_heading_and_paragraph() {
    assert_eq!(md2html("# Hello"), "<h1>Hello</h1>\n");
    assert_eq!(md2html("World"), "<p>World</p>\n");
    assert_eq!(md2html(""), "");
}

#[test]
fn markdown_code_block_gets_line_numbers() {
    let h = md2html("```py [2]\nx = 1\n```\n");
    assert!(h.contains("<pre><code class=\"language-py\" data-line-numbers=\"2\">"), "{}", h);
    assert!(h.contains("x = 1"));
}
