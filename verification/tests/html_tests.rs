use cms_dl::html::fix_html;

#[test]
fn fix_html_decodes_and_drops_no_break_spaces() {
    assert_eq!(fix_html("a&nbsp;b &amp; c"), "ab & c");
    assert_eq!(fix_html("x\u{a0}y"), "xy");
    assert_eq!(fix_html("&lt;p&gt;"), "<p>");
    assert_eq!(fix_html("plain"), "plain");
}
