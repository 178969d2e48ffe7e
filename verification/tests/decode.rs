use yt_summarizer::entities::decode_html_entities;

#[test]
fn plain_text_is_unchanged() {
    let s = "Plain text with no references at all.";
    assert_eq!(decode_html_entities(s), s);
}

#[test]
fn named_references_decode_once() {
    assert_eq!(decode_html_entities("&quot;"), "\"");
    assert_eq!(decode_html_entities("&amp;"), "&");
    assert_eq!(decode_html_entities("&lt;"), "<");
    assert_eq!(decode_html_entities("&gt;"), ">");
    assert_eq!(decode_html_entities("&#39;"), "'");
    assert_eq!(decode_html_entities("&apos;"), "'");
    assert_eq!(decode_html_entities("&#x27;"), "'");
    assert_eq!(decode_html_entities("&#x2F;"), "/");
}

#[test]
fn break_tags_become_newlines() {
    assert_eq!(decode_html_entities("a<br/>b<br />c"), "a\nb\nc");
}

#[test]
fn double_escaped_entity_is_not_rescanned() {
    assert_eq!(decode_html_entities("&amp;lt;"), "&lt;");
}

#[test]
fn decimal_reference_decodes_to_character() {
    assert_eq!(decode_html_entities("&#65;"), "A");
    assert_eq!(decode_html_entities("x&#66;y"), "xBy");
}

#[test]
fn malformed_numeric_reference_is_deleted() {
    assert_eq!(decode_html_entities("&#x;"), "");
    assert_eq!(decode_html_entities("a&#nope;b"), "ab");
}

#[test]
fn numeric_reference_beyond_unicode_is_deleted() {
    assert_eq!(decode_html_entities("&#1114112;"), "");
    assert_eq!(decode_html_entities("&#4294967296;"), "");
}

#[test]
fn surrogate_numeric_reference_is_deleted() {
    assert_eq!(decode_html_entities("&#55296;"), "");
}

#[test]
fn high_numeric_reference_decodes() {
    assert_eq!(decode_html_entities("&#128512;"), "\u{1F600}");
}

#[test]
fn unterminated_numeric_reference_is_kept() {
    assert_eq!(decode_html_entities("&#65"), "&#65");
}

#[test]
fn mixed_text_decodes_in_one_pass() {
    assert_eq!(
        decode_html_entities("Tom &amp; Jerry say &quot;hi&quot; &#33;"),
        "Tom & Jerry say \"hi\" !"
    );
}
