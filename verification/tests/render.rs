use rssg::meta::parse_front_matter;
use rssg::template::TemplateErr;
use rssg::meta::value_text;
use rssg::meta::MetaValue;
use rssg::template::apply_template;

fn meta(entries: Vec<(&str, MetaValue)>) -> Vec<(String, MetaValue)> {
    entries.into_iter().map(|(k, v)| (String::from(k), v)).collect()
}

#[test]
fn whole_file_placeholder_is_replaced() {
    let r = apply_template("<body>{{data}}</body>", "hello", &meta(vec![]), "1.0");
    assert_eq!(r, "<body>hello</body>");
}

#[test]
fn space_padded_placeholder_is_replaced() {
    let r = apply_template("<p>{{ data }}</p>", "x", &meta(vec![]), "1.0");
    assert_eq!(r, "<p>x</p>");
}

#[test]
fn nested_key_substitutes_exactly_once() {
    let m = meta(vec![("title", MetaValue::Str(String::from("Hi")))]);
    let r = apply_template("<h1>{{data.title}}</h1><p>{{data}}</p>", "text", &m, "1.0");
    assert_eq!(r, "<h1>Hi</h1><p>text</p>");
}

#[test]
fn absent_key_is_left_untouched() {
    let r = apply_template("x {{data.missing}} y", "b", &meta(vec![]), "1.0");
    assert_eq!(r, "x {{data.missing}} y");
}

#[test]
fn version_is_always_in_the_environment() {
    let r = apply_template("v={{data.version}}", "b", &meta(vec![]), "9.9");
    assert_eq!(r, "v=9.9");
    let m = meta(vec![("version", MetaValue::Str(String::from("0.0")))]);
    let r = apply_template("v={{data.version}}", "b", &m, "9.9");
    assert_eq!(r, "v=9.9");
}

#[test]
fn brace_escape_is_restored() {
    let r = apply_template("a {\\{data}} b", "X", &meta(vec![]), "1.0");
    assert_eq!(r, "a {{data}} b");
}

#[test]
fn unterminated_placeholder_is_left_alone() {
    let r = apply_template("x {{data.title", "b", &meta(vec![]), "1.0");
    assert_eq!(r, "x {{data.title");
}

#[test]
fn values_stringify_naturally() {
    assert_eq!(value_text(&MetaValue::Str(String::from("s"))), "s");
    assert_eq!(value_text(&MetaValue::Bool(true)), "true");
    assert_eq!(value_text(&MetaValue::Bool(false)), "false");
    assert_eq!(value_text(&MetaValue::Num(String::from("42"))), "42");
    assert_eq!(value_text(&MetaValue::Null), "null");
}

#[test]
fn substituted_values_follow_their_kind() {
    let m = meta(vec![
        ("flag", MetaValue::Bool(true)),
        ("count", MetaValue::Num(String::from("3"))),
        ("none", MetaValue::Null),
    ]);
    let r = apply_template("{{data.flag}}/{{data.count}}/{{data.none}}", "b", &m, "1");
    assert_eq!(r, "true/3/null");
}

#[test]
fn template_errors_carry_their_detail() {
    let cases = vec![
        (TemplateErr::InvalidPath(String::from("x")), "invalid file path: x"),
        (
            TemplateErr::TemplateNotFound(String::from("t")),
            "failed to find template file: t",
        ),
        (TemplateErr::FileNotFound(String::from("f")), "failed to find input file: f"),
        (
            TemplateErr::FailedToReadTemplate(String::from("e")),
            "failed to read template file: e",
        ),
        (
            TemplateErr::FailedToReadFile(String::from("e")),
            "failed to read input file: e",
        ),
        (
            TemplateErr::FailedToWrite(String::from("e")),
            "failed to write output file: e",
        ),
    ];
    for (err, text) in cases {
        assert_eq!(err.message(), text);
    }
}

#[test]
fn front_matter_is_split_and_parsed() {
    let (m, body) = parse_front_matter("---\ntitle: Hi\n---\ntext");
    assert_eq!(body, "text");
    assert_eq!(m.len(), 1);
    assert_eq!(m[0].0, "title");
    assert!(matches!(&m[0].1, MetaValue::Str(s) if s == "Hi"));
}

#[test]
fn front_matter_feeds_the_renderer() {
    let (m, body) = parse_front_matter("---\ntitle: Hi\n---\ntext");
    let r = apply_template("<h1>{{data.title}}</h1>{{data}}", &body, &m, "1.0");
    assert_eq!(r, "<h1>Hi</h1>text");
}

#[test]
fn front_matter_kinds_come_through_yaml() {
    let (m, _) = parse_front_matter("---\ndraft: true\nweight: 7\nblank: null\n---\nbody");
    assert_eq!(m.len(), 3);
    assert!(matches!(m[0].1, MetaValue::Bool(true)));
    assert!(matches!(&m[1].1, MetaValue::Num(s) if s == "7"));
    assert!(matches!(m[2].1, MetaValue::Null));
}

#[test]
fn missing_front_matter_means_whole_body() {
    let (m, body) = parse_front_matter("just text");
    assert!(m.is_empty());
    assert_eq!(body, "just text");
}

#[test]
fn unterminated_front_matter_means_whole_body() {
    let (m, body) = parse_front_matter("---\ntitle: Hi\nno terminator");
    assert!(m.is_empty());
    assert_eq!(body, "---\ntitle: Hi\nno terminator");
}

#[test]
fn non_mapping_front_matter_means_whole_body() {
    let doc = "---\n- just\n- a list\n---\nbody";
    let (m, body) = parse_front_matter(doc);
    assert!(m.is_empty());
    assert_eq!(body, doc);
}

#[test]
fn empty_front_matter_block_is_not_a_mapping() {
    let doc = "---\n---\nbody";
    let (m, body) = parse_front_matter(doc);
    assert!(m.is_empty());
    assert_eq!(body, doc);
}
