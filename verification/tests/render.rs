use mdbook_xmldoc::generator::{generate, Context, GeneratorError, GeneratorOptions, HeaderLevel};
use mdbook_xmldoc::model::loader::load_from;
use mdbook_xmldoc::model::TagList;
use mdbook_xmldoc::schema::{Attribute, Child, FileRoot, Params, Tag};

fn level(n: i32) -> HeaderLevel {
    match HeaderLevel::new(n) {
        Ok(level) => level,
        Err(error) => panic!("{}", error.message()),
    }
}

fn options(n: i32, crlf: bool) -> GeneratorOptions {
    GeneratorOptions { level: level(n), crlf }
}

fn bare_tag(id: &str, description: &str) -> Tag {
    Tag {
        id: id.to_string(),
        description: description.to_string(),
        attributes: None,
        children: None,
        value: None,
        example: None,
    }
}

fn child(name: &str, optional: Option<bool>, multiple: Option<bool>) -> Child {
    Child { reference: name.to_string(), optional, multiple }
}

fn model_of(namespace: &str, tags: Vec<Tag>) -> TagList {
    let root = FileRoot {
        schema: Params { version: "r1".to_string(), namespace: namespace.to_string() },
        tags,
    };
    match load_from(root) {
        Ok(digest) => digest.model,
        Err(error) => panic!("load failed: {:?}", error),
    }
}

fn rich_tags() -> Vec<Tag> {
    let mut first = bare_tag("A", "  Alpha tag. ");
    first.attributes = Some(vec![
        Attribute {
            id: "size".to_string(),
            brief: " Size ".to_string(),
            description: Some(" Long text. ".to_string()),
            expected: Some(" int ".to_string()),
            default: Some(" 4 ".to_string()),
            optional: Some(true),
        },
        Attribute {
            id: "kind".to_string(),
            brief: "Kind".to_string(),
            description: None,
            expected: None,
            default: None,
            optional: None,
        },
    ]);
    first.children = Some(vec![child("B", Some(true), Some(true)), child("Missing", None, None)]);
    first.value = Some(" text ".to_string());
    first.example = Some("<A/>\n  \n".to_string());
    vec![first, bare_tag("B", "Beta")]
}

fn written_by(crlf: bool, write: impl FnOnce(&mut Context)) -> String {
    let options = options(3, crlf);
    let mut context = Context::new(&options);
    write(&mut context);
    context.finish()
}

#[test]
fn single_root_tag_renders_header_description_and_parents() {
    let model = model_of("ex", vec![bare_tag("Root", "The root.")]);
    let text = generate(&model, &options(1, false));
    assert_eq!(
        text,
        "# `ex:Root`\n\nThe root.\n\n_**Parents:**_\n\nThis tag has no possible parents!\n\n"
    );
    let header = text.lines().next().unwrap();
    assert!(header.contains("ex:Root"));
}

#[test]
fn full_document_is_rendered_block_by_block() {
    let model = model_of("ns", rich_tags());
    let text = generate(&model, &options(2, false));
    let expected = concat_all(&[
        "## `ns:A`\n\n",
        "Alpha tag.\n\n",
        "_**Attributes:**_\n\n",
        "* `size` - Size _(optional)_\n",
        "  * Long text.\n",
        "  * _Expected value:_ int\n",
        "  * _Default value:_ 4\n",
        "* `kind` - Kind\n",
        "\n\n",
        "_**Value:**_\n\n",
        "text\n\n",
        "_**Children:**_\n\n",
        "* [`ns:B`](#nsb) _(optional, repeated)_\n",
        "* `ns:Missing`\n",
        "\n\n",
        "_**Parents:**_\n\n",
        "This tag has no possible parents!\n\n",
        "_**Example:**_\n\n",
        "```xml\n<A/>\n```\n\n",
        "## `ns:B`\n\n",
        "Beta\n\n",
        "_**Parents:**_\n\n",
        "* [`ns:A`](#nsa)\n",
        "\n\n",
    ]);
    assert_eq!(text, expected);
}

fn concat_all(parts: &[&str]) -> String {
    let mut out = String::new();
    for part in parts {
        out.push_str(part);
    }
    out
}

#[test]
fn carriage_returns_are_used_when_asked_for() {
    let model = model_of("ns", rich_tags());
    let unix = generate(&model, &options(2, false));
    let dos = generate(&model, &options(2, true));
    assert_eq!(dos, unix.replace('\n', "\r\n"));
    let small = model_of("ex", vec![bare_tag("Root", "The root.")]);
    assert_eq!(
        generate(&small, &options(6, true)),
        "###### `ex:Root`\r\n\r\nThe root.\r\n\r\n_**Parents:**_\r\n\r\nThis tag has no possible parents!\r\n\r\n"
    );
}

#[test]
fn empty_model_renders_nothing() {
    let model = model_of("ex", vec![]);
    assert_eq!(generate(&model, &options(1, false)), "");
}

#[test]
fn rendering_twice_gives_the_same_bytes() {
    let first = model_of("ns", rich_tags());
    let second = model_of("ns", rich_tags());
    let config = options(4, true);
    let a = generate(&first, &config);
    let b = generate(&first, &config);
    let c = generate(&second, &config);
    assert_eq!(a.as_bytes(), b.as_bytes());
    assert_eq!(a.as_bytes(), c.as_bytes());
}

#[test]
fn tags_render_in_declaration_order() {
    let names = ["Zulu", "Alpha", "Mike", "Bravo", "Yankee", "Charlie"];
    let tags: Vec<Tag> = names.iter().map(|name| bare_tag(name, "x")).collect();
    let model = model_of("ns", tags);
    let text = generate(&model, &options(1, false));
    let mut last = 0;
    for name in names {
        let header = format!("# `ns:{}`\n\n", name);
        let at = text.find(&header).expect("header present");
        assert!(at >= last);
        last = at + header.len();
    }
    let headers: Vec<&str> = text.lines().filter(|line| line.starts_with("# ")).collect();
    assert_eq!(
        headers,
        vec![
            "# `ns:Zulu`",
            "# `ns:Alpha`",
            "# `ns:Mike`",
            "# `ns:Bravo`",
            "# `ns:Yankee`",
            "# `ns:Charlie`"
        ]
    );
}

#[test]
fn unresolved_child_is_shown_as_code_not_as_link() {
    let mut tag = bare_tag("X", "Lonely");
    tag.children = Some(vec![child("Y", None, None)]);
    let model = model_of("ns", vec![tag]);
    let text = generate(&model, &options(1, false));
    assert_eq!(
        text,
        "# `ns:X`\n\nLonely\n\n_**Children:**_\n\n* `ns:Y`\n\n\n_**Parents:**_\n\nThis tag has no possible parents!\n\n"
    );
    assert!(!text.contains("]("));
}

#[test]
fn parents_are_listed_in_declaration_order() {
    let mut late = bare_tag("Late", "l");
    late.children = Some(vec![child("Shared", None, None)]);
    let mut early = bare_tag("Early", "e");
    early.children = Some(vec![child("Shared", None, Some(true)), child("Shared", None, None)]);
    let model = model_of("N", vec![early, bare_tag("Shared", "s"), late]);
    let text = generate(&model, &options(1, false));
    let section = "# `N:Shared`\n\ns\n\n_**Parents:**_\n\n* [`N:Early`](#nearly)\n* [`N:Early`](#nearly)\n* [`N:Late`](#nlate)\n\n\n";
    assert!(text.contains(section));
}

#[test]
fn anchors_are_lower_case_without_separator() {
    let text = written_by(false, |context| context.write_parent_item("My-NS", "Tag_One"));
    assert_eq!(text, "* [`My-NS:Tag_One`](#my-nstag_one)\n");
    let accented = written_by(false, |context| context.write_parent_item("\u{c4}", "\u{d6}l"));
    assert_eq!(accented, "* [`\u{c4}:\u{d6}l`](#\u{e4}\u{f6}l)\n");
    let clash_one = written_by(false, |context| context.write_parent_item("ab", "c"));
    let clash_two = written_by(false, |context| context.write_parent_item("a", "bc"));
    assert_eq!(clash_one, "* [`ab:c`](#abc)\n");
    assert_eq!(clash_two, "* [`a:bc`](#abc)\n");
}

#[test]
fn tag_header_uses_the_configured_level() {
    for (n, marker) in [(1, "#"), (2, "##"), (3, "###"), (4, "####"), (5, "#####"), (6, "######")] {
        let config = options(n, false);
        let mut context = Context::new(&config);
        context.writer_tag_header("ns", "Tag");
        assert_eq!(context.finish(), format!("{} `ns:Tag`\n\n", marker));
    }
}

#[test]
fn subheader_paragraph_and_newblock() {
    assert_eq!(written_by(false, |c| c.write_tag_subheader("Value")), "_**Value:**_\n\n");
    assert_eq!(written_by(true, |c| c.write_tag_subheader("Value")), "_**Value:**_\r\n\r\n");
    assert_eq!(written_by(false, |c| c.write_paragraph("Some text.")), "Some text.\n\n");
    assert_eq!(written_by(true, |c| c.write_paragraph("")), "\r\n\r\n");
    assert_eq!(written_by(false, |c| c.write_newblock()), "\n\n");
    assert_eq!(written_by(true, |c| c.write_newblock()), "\r\n\r\n");
}

#[test]
fn context_appends_in_call_order() {
    let text = written_by(false, |context| {
        context.write_paragraph("one");
        context.write_tag_subheader("two");
        context.write_newblock();
        context.write_paragraph("three");
    });
    assert_eq!(text, "one\n\n_**two:**_\n\n\n\nthree\n\n");
}

#[test]
fn attribute_bullets_and_sub_bullets() {
    assert_eq!(
        written_by(false, |c| c.write_attribute("id", "The id", None, false, None, None)),
        "* `id` - The id\n"
    );
    assert_eq!(
        written_by(false, |c| c.write_attribute("id", "The id", None, true, None, None)),
        "* `id` - The id _(optional)_\n"
    );
    assert_eq!(
        written_by(false, |c| c.write_attribute(
            "id",
            "The id",
            Some("Long"),
            true,
            Some("text"),
            Some("none")
        )),
        "* `id` - The id _(optional)_\n  * Long\n  * _Expected value:_ text\n  * _Default value:_ none\n"
    );
    assert_eq!(
        written_by(true, |c| c.write_attribute("id", "The id", None, false, Some("text"), None)),
        "* `id` - The id\r\n  * _Expected value:_ text\r\n"
    );
    assert_eq!(
        written_by(false, |c| c.write_attribute("id", "The id", Some("Long"), false, None, Some("d"))),
        "* `id` - The id\n  * Long\n  * _Default value:_ d\n"
    );
}

#[test]
fn child_items_with_every_qualifier() {
    let linked = |optional, repeated| {
        written_by(false, |c| c.write_child_item(true, "ns", "Kid", optional, repeated))
    };
    assert_eq!(linked(false, false), "* [`ns:Kid`](#nskid)\n");
    assert_eq!(linked(true, false), "* [`ns:Kid`](#nskid) _(optional)_\n");
    assert_eq!(linked(false, true), "* [`ns:Kid`](#nskid) _(repeated)_\n");
    assert_eq!(linked(true, true), "* [`ns:Kid`](#nskid) _(optional, repeated)_\n");
    let plain = |optional, repeated| {
        written_by(true, |c| c.write_child_item(false, "ns", "Kid", optional, repeated))
    };
    assert_eq!(plain(false, false), "* `ns:Kid`\r\n");
    assert_eq!(plain(true, false), "* `ns:Kid` _(optional)_\r\n");
    assert_eq!(plain(false, true), "* `ns:Kid` _(repeated)_\r\n");
    assert_eq!(plain(true, true), "* `ns:Kid` _(optional, repeated)_\r\n");
}

#[test]
fn xml_block_drops_trailing_white_space_only() {
    assert_eq!(written_by(false, |c| c.write_xml("<a/>")), "```xml\n<a/>\n```\n\n");
    assert_eq!(
        written_by(false, |c| c.write_xml("  <a>\n  <b/>\n</a> \n\t\n")),
        "```xml\n  <a>\n  <b/>\n</a>\n```\n\n"
    );
    assert_eq!(written_by(true, |c| c.write_xml(" \n")), "```xml\r\n\r\n```\r\n\r\n");
}

#[test]
fn heading_levels_one_to_six_are_accepted() {
    for n in 1..=6 {
        match HeaderLevel::new(n) {
            Ok(level) => assert_eq!(level.get(), n),
            Err(error) => panic!("{}", error.message()),
        }
    }
}

#[test]
fn heading_levels_outside_the_bounds_are_refused() {
    for n in [0, 7, -1, 100, i32::MIN, i32::MAX] {
        match HeaderLevel::new(n) {
            Err(GeneratorError::BadHeaderLevel { level }) => assert_eq!(level, n),
            other => panic!("unexpected result for {}: {:?}", n, other),
        }
    }
}

#[test]
fn next_level_is_one_deeper() {
    for n in 1..=5 {
        match level(n).next() {
            Ok(deeper) => assert_eq!(deeper.get(), n + 1),
            Err(error) => panic!("{}", error.message()),
        }
    }
    assert!(matches!(level(6).next(), Err(GeneratorError::BadHeaderLevel { level: 7 })));
}

#[test]
fn prefix_has_one_hash_per_level() {
    let prefixes: Vec<&str> = (1..=6).map(|n| level(n).get_prefix()).collect();
    assert_eq!(prefixes, vec!["#", "##", "###", "####", "#####", "######"]);
}

#[test]
fn error_messages() {
    assert_eq!(GeneratorError::BadHeaderLevel { level: 7 }.message(), "invalid header level '7'");
    assert_eq!(GeneratorError::BadHeaderLevel { level: 0 }.message(), "invalid header level '0'");
    assert_eq!(
        GeneratorError::BadHeaderLevel { level: -12 }.message(),
        "invalid header level '-12'"
    );
    assert_eq!(
        GeneratorError::BadHeaderLevel { level: i32::MIN }.message(),
        "invalid header level '-2147483648'"
    );
    assert_eq!(
        GeneratorError::BadHeaderLevel { level: i32::MAX }.message(),
        "invalid header level '2147483647'"
    );
    assert_eq!(
        GeneratorError::InternalFormatting { inner: "bad format".to_string(), description: None }
            .message(),
        "internal formatting error: bad format"
    );
    assert_eq!(
        GeneratorError::InternalFormatting {
            inner: "bad format".to_string(),
            description: Some("in header".to_string())
        }
        .message(),
        "internal formatting error: bad format, description: in header"
    );
    assert_eq!(
        GeneratorError::InternalInputOutput { inner: "disk full".to_string(), description: None }
            .message(),
        "internal input/output error: disk full"
    );
    assert_eq!(
        GeneratorError::InternalInputOutput {
            inner: "disk full".to_string(),
            description: Some("writing out.md".to_string())
        }
        .message(),
        "internal input/output error: disk full, description: writing out.md"
    );
}
