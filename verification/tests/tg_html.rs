use gramhive::tg_html::TgHtml;

// A helper function that takes a &str.
fn takes_str(s: &str) -> &str {
    s
}

#[test]
fn test_html_builder() {
    let result = TgHtml::new()
        .plain("Hello, ")
        .bold("World")
        .n(1)
        .italic("!")
        .n(2)
        .underline("Underlined")
        .plain(" ")
        .strikethrough("Striked")
        .n(0) // n(0) should not change anything.
        .link("Link", "https://example.com")
        .build();

    let expected = "Hello, <b>World</b>\n<i>!</i>\n\n<u>Underlined</u> <s>Striked</s><a href=\"https://example.com\">Link</a>";
    assert_eq!(result, expected);
}

#[test]
fn test_as_str() {
    let builder = TgHtml::new().plain("Test ").bold("string");
    // Using Deref so that &builder is a &str:
    let s: &str = &builder;
    // Using AsRef:
    let s2: &str = builder.as_ref();
    assert_eq!(s, "Test <b>string</b>");
    assert_eq!(s2, "Test <b>string</b>");
    // Passing the builder to a function expecting &str.
    assert_eq!(takes_str(&builder), "Test <b>string</b>");
}

#[test]
fn test_generic_input() {
    // Test using a String instead of a &str.
    let my_string = String::from("Hello, world!");
    let result = TgHtml::new().bold(&my_string).build();
    let expected = format!("<b>{}</b>", "Hello, world!");
    assert_eq!(result, expected);
}

#[test]
fn escapes_minimal_entities() {
    let result = TgHtml::new().plain("<em>Hej!</em>").build();
    assert_eq!(result, "&lt;em&gt;Hej!&lt;/em&gt;");
    let quoted = TgHtml::new().plain("a\"b&c'd").build();
    assert_eq!(quoted, "a&quot;b&amp;c&#x27;d");
}

#[test]
fn code_pre_spoiler_blockquote() {
    let result = TgHtml::new()
        .code("x<1")
        .pre("y>2")
        .spoiler("s&t")
        .blockquote("raw <kept>")
        .build();
    assert_eq!(
        result,
        "<code>x&lt;1</code><pre>y&gt;2</pre><details>s&amp;t</details><blockquote expandable>raw <kept></blockquote>"
    );
}

#[test]
fn mention_renders_decimal_id() {
    let result = TgHtml::new().mention("Alice", 12345i64).build();
    assert_eq!(result, "<a href=\"tg://user?id=12345\">Alice</a>");
    let negative = TgHtml::new().mention("Bob", -7i64).build();
    assert_eq!(negative, "<a href=\"tg://user?id=-7\">Bob</a>");
}

#[test]
fn spaces_and_append() {
    let result = gramhive::tg_html().s(3).append("<raw>").build();
    assert_eq!(result, "   <raw>");
}
