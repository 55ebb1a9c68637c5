use gvk::text::{markup_escape_text, markup_html_links, process_text};

#[test]
fn test_markup_escape_text() {
    assert_eq!(markup_escape_text("Justerini & Brooks").as_str(), r"Justerini &amp; Brooks");
    assert_eq!(markup_escape_text("I <...> you").as_str(), r"I &lt;...&gt; you");
}

#[test]
fn test_markup_html_links() {
    assert_eq!(markup_html_links(""), "");
    assert_eq!(
        markup_html_links("http://www.google.com"),
        r#"<a href="http://www.google.com">http://www.google.com</a>"#
    );
    assert_eq!(
        markup_html_links(
            "Google recommends visiting the site http://www.google.com in the morning"
        ),
        r#"Google recommends visiting the site <a href="http://www.google.com">http://www.google.com</a> in the morning"#
    );
    assert_eq!(
        markup_html_links("There are links: https://www.gvk.com and https://gvk.com"),
        r#"There are links: <a href="https://www.gvk.com">https://www.gvk.com</a> and <a href="https://gvk.com">https://gvk.com</a>"#
    );
    assert_eq!(
        markup_html_links(
            "https://www.gvk.com https://gvk.com http://www.gvk.com http://gvk.com"
        ),
        r#"<a href="https://www.gvk.com">https://www.gvk.com</a> <a href="https://gvk.com">https://gvk.com</a> <a href="http://www.gvk.com">http://www.gvk.com</a> <a href="http://gvk.com">http://gvk.com</a>"#
    );
}

#[test]
fn test_link_formatting() {
    let src_url = "https://habr.com/ru/post/538874/?utm_campaign=538874&utm_source=habrahabr&utm_medium=rss";
    let uri = format!(r#"<a href="{}">{}</a>"#, &src_url, &src_url);
    let expected = r#"<a href="https://habr.com/ru/post/538874/?utm_campaign=538874&utm_source=habrahabr&utm_medium=rss">https://habr.com/ru/post/538874/?utm_campaign=538874&utm_source=habrahabr&utm_medium=rss</a>"#;
    assert_eq!(uri, expected);

    let uri = format!(r#"<a href="{}">{}</a>"#, &src_url, markup_escape_text(src_url));
    let expected = r#"<a href="https://habr.com/ru/post/538874/?utm_campaign=538874&utm_source=habrahabr&utm_medium=rss">https://habr.com/ru/post/538874/?utm_campaign=538874&amp;utm_source=habrahabr&amp;utm_medium=rss</a>"#;
    assert_eq!(uri, expected);
}

#[test]
fn link_ification_of_a_sentence() {
    assert_eq!(
        process_text("visit http://a.com now"),
        "visit <a href=\"http://a.com\">http://a.com</a> now"
    );
}

#[test]
fn escaping_runs_before_link_ification() {
    assert_eq!(process_text("A & B < C"), "A &amp; B &lt; C");
    assert_eq!(markup_escape_text("A & B < C"), "A &amp; B &lt; C");
}

#[test]
fn link_ification_keeps_text_without_links() {
    let t = "plain text, no links; quotes and tabs\tstay";
    assert_eq!(markup_html_links(t), t);
    let once = markup_html_links(t);
    assert_eq!(markup_html_links(&once), once);
}

#[test]
fn link_ification_keeps_trailing_punctuation() {
    assert_eq!(
        markup_html_links("see http://a.com, then"),
        "see <a href=\"http://a.com,\">http://a.com,</a> then"
    );
}

#[test]
fn escape_of_quotes_and_controls() {
    assert_eq!(markup_escape_text("'\""), "&#39;&quot;");
    assert_eq!(markup_escape_text("a\u{1}b\u{1f}c\u{85}d\u{86}"), "a&#x1;b&#x1f;c\u{85}d&#x86;");
    assert_eq!(markup_escape_text("tab\tnl\ncr\r"), "tab\tnl\ncr\r");
    assert_eq!(markup_escape_text(""), "");
}
