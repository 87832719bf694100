use blog_post::{normalize, str_less, BlogPost, FieldValue};
use serde_json::Value;

fn text(s: &str) -> FieldValue {
    FieldValue::Text(s.to_string())
}

fn keys(post: &BlogPost) -> Vec<String> {
    post.frontmatter().iter().map(|e| e.0.clone()).collect()
}

#[test]
fn it_works() {
    let post = BlogPost::new("Builder APIs in Rust".to_string()).post("do this, then that".to_string());

    assert_eq!(post.title(), "Builder APIs in Rust");
    assert_eq!(
        post.frontmatter(),
        &vec![
            ("slug".to_string(), text("builder-apis-in-rust")),
            ("tags".to_string(), FieldValue::List(vec![])),
            ("title".to_string(), text("Builder APIs in Rust")),
        ]
    );
    assert!(post.tags().is_empty());
    assert_eq!(post.slug(), "builder-apis-in-rust");
    assert_eq!(post.body(), "do this, then that");
}

#[test]
fn to_frontmatter() {
    let post = BlogPost::new("Builder APIs in Rust".to_string()).post("do this, then that".to_string());

    assert_eq!(
        "slug: builder-apis-in-rust
tags: []
title: Builder APIs in Rust
",
        post.as_frontmatter()
    );
}

#[test]
fn to_file() {
    let post = BlogPost::new("Builder APIs in Rust".to_string()).post("do this, then that".to_string());

    assert_eq!(
        "slug: builder-apis-in-rust
tags: []
title: Builder APIs in Rust
---

do this, then that",
        post.as_file()
    );
}

#[test]
fn tags_and_slug_override() {
    let mut template = BlogPost::new("Builder APIs in Rust".to_string());
    template.tag("rust").tag("design-pattern");
    template.tag("rust");
    template.slug("builder-apis");
    let post = template.post("do this, then that".to_string());

    assert_eq!(post.slug(), "builder-apis");
    assert_eq!(post.tags(), &vec!["design-pattern".to_string(), "rust".to_string()]);
    assert_eq!(
        post.as_frontmatter(),
        "slug: builder-apis\ntags:\n- design-pattern\n- rust\ntitle: Builder APIs in Rust\n"
    );
    assert_eq!(
        post.as_file(),
        "slug: builder-apis\ntags:\n- design-pattern\n- rust\ntitle: Builder APIs in Rust\n---\n\ndo this, then that"
    );
}

#[test]
fn reserved_properties_are_overwritten() {
    let mut template = BlogPost::new("Hello World".to_string());
    template
        .property("slug".to_string(), Value::String("other".to_string()))
        .property("title".to_string(), Value::from(7))
        .property("tags".to_string(), Value::Bool(true))
        .property("author".to_string(), Value::String("me".to_string()));
    template.tag("News");
    let post = template.post(String::new());

    assert_eq!(
        post.frontmatter(),
        &vec![
            ("author".to_string(), FieldValue::Json(Value::String("me".to_string()))),
            ("slug".to_string(), text("hello-world")),
            ("tags".to_string(), FieldValue::List(vec!["news".to_string()])),
            ("title".to_string(), text("Hello World")),
        ]
    );
    assert_eq!(
        post.as_frontmatter(),
        "author: me\nslug: hello-world\ntags:\n- news\ntitle: Hello World\n"
    );
}

#[test]
fn property_set_twice_keeps_the_last() {
    let mut template = BlogPost::new("t".to_string());
    template.property("count".to_string(), Value::from(1));
    template.property("count".to_string(), Value::from(2));
    let post = template.post(String::new());

    assert_eq!(post.frontmatter()[0], ("count".to_string(), FieldValue::Json(Value::from(2))));
    assert_eq!(post.frontmatter().len(), 4);
    assert_eq!(post.as_frontmatter(), "count: 2\nslug: t\ntags: []\ntitle: t\n");
}

#[test]
fn frontmatter_keys_ascend() {
    let mut template = BlogPost::new("Order".to_string());
    template.property("zeta".to_string(), Value::from(1));
    template.property("alpha".to_string(), Value::from(2));
    template.property("Tags".to_string(), Value::from(3));
    let post = template.post("b".to_string());

    assert_eq!(keys(&post), vec!["Tags", "alpha", "slug", "tags", "title", "zeta"]);
    assert_eq!(
        post.as_frontmatter(),
        "Tags: 3\nalpha: 2\nslug: order\ntags: []\ntitle: Order\nzeta: 1\n"
    );
}

#[test]
fn file_is_frontmatter_separator_body() {
    let mut template = BlogPost::new("A Post".to_string());
    template.tag("x").property("draft".to_string(), Value::Bool(false));
    let post = template.post("line one\nline two\n".to_string());

    let expected = format!("{}---\n\n{}", post.as_frontmatter(), "line one\nline two\n");
    assert_eq!(post.as_file(), expected);
}

#[test]
fn equivalent_tags_count_once() {
    let mut template = BlogPost::new("t".to_string());
    template.tag("Design Pattern");
    template.tag("  design_pattern!! ");
    let post = template.post(String::new());

    assert_eq!(post.tags(), &vec!["design-pattern".to_string()]);
}

#[test]
fn same_tag_twice_is_once() {
    let mut once = BlogPost::new("t".to_string());
    once.tag("rust");
    let mut twice = BlogPost::new("t".to_string());
    twice.tag("rust").tag("rust");

    assert_eq!(once.post(String::new()), twice.post(String::new()));
}

#[test]
fn punctuation_tag_is_empty_and_kept() {
    let mut template = BlogPost::new("t".to_string());
    template.tag("!!!");
    let post = template.post(String::new());

    assert_eq!(post.tags(), &vec![String::new()]);
}

#[test]
fn empty_title_gives_empty_slug() {
    let post = BlogPost::new(String::new()).post(String::new());

    assert_eq!(post.slug(), "");
    assert_eq!(post.title(), "");
    assert_eq!(post.body(), "");
}

#[test]
fn normalize_gives_slugs() {
    assert_eq!(normalize("Hello World"), "hello-world");
    assert_eq!(normalize("  --Hello__World!! "), "hello-world");
    assert_eq!(normalize("My Test String!!!1!1"), "my-test-string-1-1");
    assert_eq!(normalize(""), "");
    assert_eq!(normalize("?!"), "");
    for s in ["Ünïcödé Title", "a  --  b", "--x--", "UPPER lower 123"] {
        let r = normalize(s);
        assert!(r.chars().all(|c| c.is_ascii_lowercase() || c.is_ascii_digit() || c == '-'));
        assert!(!r.starts_with('-') && !r.ends_with('-'));
        assert!(!r.contains("--"));
    }
}

#[test]
fn str_less_orders_by_code_point() {
    assert!(str_less("a", "b"));
    assert!(!str_less("b", "a"));
    assert!(!str_less("a", "a"));
    assert!(str_less("a", "ab"));
    assert!(!str_less("ab", "a"));
    assert!(str_less("", "a"));
    assert!(!str_less("", ""));
    assert!(str_less("Z", "a"));
    assert!(str_less("z", "é"));
}

#[test]
fn normalize_ignores_case_and_separator_kind() {
    assert_eq!(normalize("Design Pattern"), normalize("design_pattern"));
    assert_eq!(normalize("DESIGN.PATTERN"), "design-pattern");
    assert_eq!(normalize("Rust!"), normalize("rust?"));
    assert_eq!(normalize("a--b"), "a-b");
}
