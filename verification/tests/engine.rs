//! Tests of the Tag Engine and the escaping discipline.

use hotwire_turbo::attrs::Attributes;
use hotwire_turbo::escape::escape_attribute;
use hotwire_turbo::response::TurboStream;
use hotwire_turbo::{turbo_stream_tag, turbo_stream_target};

#[test]
fn custom() {
    let expected =
        "<turbo-stream action=\"custom\" target=\"target\"><template></template></turbo-stream>";
    assert_eq!(
        expected,
        turbo_stream_target("custom", "target", Attributes::default(), "")
    );
}

#[test]
fn additional_attributes() {
    let expected = "<turbo-stream action=\"custom\" foo=\"bar\" hello=\"world\" target=\"target\"><template></template></turbo-stream>";
    let mut attributes = Attributes::new();
    attributes.insert("hello", "world");
    attributes.insert("foo", "bar");
    assert_eq!(
        expected,
        turbo_stream_target("custom", "target", attributes, "")
    );
}

#[test]
fn no_attributes_no_space() {
    let expected = "<turbo-stream><template>Plain</template></turbo-stream>";
    assert_eq!(expected, turbo_stream_tag(Attributes::new(), "Plain"));
}

#[test]
fn identical_calls_identical_bytes() {
    let a = hotwire_turbo::stream::replace("message_1", "<p>Same</p>");
    let b = hotwire_turbo::stream::replace("message_1", "<p>Same</p>");
    assert_eq!(a.as_bytes(), b.as_bytes());
}

#[test]
fn insertion_order_irrelevant() {
    let mut first = Attributes::new();
    first.insert("hello", "world");
    first.insert("foo", "bar");
    let mut second = Attributes::new();
    second.insert("foo", "bar");
    second.insert("hello", "world");
    assert_eq!(
        turbo_stream_tag(first, ""),
        turbo_stream_tag(second, "")
    );
}

#[test]
fn reinsertion_overwrites() {
    let mut attributes = Attributes::new();
    attributes.insert("key", "old");
    attributes.insert("key", "new");
    let expected = "<turbo-stream key=\"new\"><template></template></turbo-stream>";
    assert_eq!(expected, turbo_stream_tag(attributes, ""));
}

#[test]
fn escape_all_delimiters() {
    assert_eq!("&amp;&lt;&gt;&quot;&#x27;", escape_attribute("&<>\"'"));
}

#[test]
fn escape_leaves_plain_text() {
    assert_eq!("plain text 123", escape_attribute("plain text 123"));
}

#[test]
fn escape_round_trip_decodes() {
    let original = "a < b && c > \"d\" & 'e'";
    let escaped = escape_attribute(original);
    let decoded = html_escape::decode_html_entities(escaped.as_str());
    assert_eq!(original, decoded);
}

#[test]
fn content_passes_through_unescaped() {
    let content = "<div data-x=\"1\">&amp; 'raw' & more</div>";
    let rendered = turbo_stream_tag(Attributes::new(), content);
    let open = "<turbo-stream><template>";
    let close = "</template></turbo-stream>";
    assert!(rendered.starts_with(open));
    assert!(rendered.ends_with(close));
    assert_eq!(
        content,
        &rendered[open.len()..rendered.len() - close.len()]
    );
}

#[test]
fn attribute_keys_ascend_in_output() {
    let mut attributes = Attributes::new();
    attributes.insert("zeta", "1");
    attributes.insert("alpha", "2");
    attributes.insert("mid", "3");
    let expected =
        "<turbo-stream alpha=\"2\" mid=\"3\" zeta=\"1\"><template></template></turbo-stream>";
    assert_eq!(expected, turbo_stream_tag(attributes, ""));
}

#[test]
fn turbo_stream_wraps_body() {
    let wrapped = TurboStream::from("Test");
    assert_eq!("Test", wrapped.0);
}
