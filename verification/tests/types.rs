use hot_curry::address::{join_address, parse_address};
use hot_curry::assets::{asset_attribute, prepend_base_url};
use hot_curry::errors::Failure;
use hot_curry::filters::markdown;
use hot_curry::types::{data_url, page_url, OutputType, SourceFileVisitor, SourceType};

#[test]
fn source_type_goes_by_the_extension() {
    assert_eq!(SourceType::from_extension("json"), Some(SourceType::Json));
    assert_eq!(SourceType::from_extension("toml"), Some(SourceType::Toml));
    assert_eq!(SourceType::from_extension("yml"), Some(SourceType::Yaml));
    assert_eq!(SourceType::from_extension("yaml"), Some(SourceType::Yaml));
}

#[test]
fn source_type_knows_no_other_extension() {
    assert_eq!(SourceType::from_extension(""), None);
    assert_eq!(SourceType::from_extension("JSON"), None);
    assert_eq!(SourceType::from_extension("jso"), None);
    assert_eq!(SourceType::from_extension("jsonl"), None);
    assert_eq!(SourceType::from_extension("xml"), None);
    assert_eq!(SourceType::from_extension(".json"), None);
}

fn expected_document() -> serde_json::Value {
    let mut person = serde_json::Map::new();
    person.insert("name".to_string(), serde_json::Value::String("Ada".to_string()));
    person.insert("age".to_string(), serde_json::Value::Number(serde_json::Number::from(36)));
    let mut document = serde_json::Map::new();
    document.insert("person".to_string(), serde_json::Value::Object(person));
    document.insert(
        "tags".to_string(),
        serde_json::Value::Array(vec![
            serde_json::Value::String("a".to_string()),
            serde_json::Value::String("b".to_string()),
        ]),
    );
    serde_json::Value::Object(document)
}

#[test]
fn to_value_reads_json() {
    let source = r#"{"person": {"name": "Ada", "age": 36}, "tags": ["a", "b"]}"#;
    let value = SourceType::Json.to_value(source).unwrap();
    assert_eq!(value.0, expected_document());
}

#[test]
fn to_value_reads_yaml() {
    let source = "person:\n  name: Ada\n  age: 36\ntags:\n  - a\n  - b\n";
    let value = SourceType::Yaml.to_value(source).unwrap();
    assert_eq!(value.0, expected_document());
}

#[test]
fn to_value_reads_toml() {
    let source = "tags = [\"a\", \"b\"]\n\n[person]\nname = \"Ada\"\nage = 36\n";
    let value = SourceType::Toml.to_value(source).unwrap();
    assert_eq!(value.0, expected_document());
}

#[test]
fn to_value_fails_with_the_error_of_the_format() {
    assert!(matches!(SourceType::Json.to_value("{"), Err(Failure::Json(_))));
    assert!(matches!(SourceType::Yaml.to_value("a: [1, 2"), Err(Failure::Yaml(_))));
    assert!(matches!(SourceType::Toml.to_value("a = "), Err(Failure::TomlDeserialization(_))));
}

#[test]
fn to_value_reads_a_source_in_its_own_format_only() {
    let toml = "[person]\nname = \"Ada\"\n";
    assert!(SourceType::Toml.to_value(toml).is_ok());
    assert!(matches!(SourceType::Json.to_value(toml), Err(Failure::Json(_))));
}

#[test]
fn file_name_ends_with_the_ending_of_the_format() {
    assert_eq!(OutputType::Html.file_name("out/cv"), "out/cv.html");
    assert_eq!(OutputType::Pdf.file_name("out/cv"), "out/cv.pdf");
    assert_eq!(OutputType::Html.file_name(""), ".html");
    assert_eq!(OutputType::Pdf.file_name("a.b"), "a.b.pdf");
}

#[test]
fn data_url_holds_the_page_behind_its_head() {
    assert_eq!(data_url(""), "data:text/html;charset=UTF-8,");
    assert_eq!(data_url("<p>hi</p>"), "data:text/html;charset=UTF-8,<p>hi</p>");
}

#[test]
fn data_url_escapes_five_characters() {
    assert_eq!(data_url("%"), "data:text/html;charset=UTF-8,%25");
    assert_eq!(data_url("&"), "data:text/html;charset=UTF-8,%26");
    assert_eq!(data_url("#"), "data:text/html;charset=UTF-8,%23");
    assert_eq!(data_url("\""), "data:text/html;charset=UTF-8,%22");
    assert_eq!(data_url("'"), "data:text/html;charset=UTF-8,%27");
    assert_eq!(
        data_url("<a href=\"#top\" title='100% & more'>é</a>"),
        "data:text/html;charset=UTF-8,<a href=%22%23top%22 title=%27100%25 %26 more%27>é</a>"
    );
}

#[test]
fn data_url_escapes_as_a_chain_of_replacements_does() {
    let pages = ["%25", "&amp;", "a%b&c#d\"e'f", "%%&&##\"\"''", "plain", "%26%23"];
    for page in pages {
        let replaced = page
            .replace('%', "%25")
            .replace('&', "%26")
            .replace('#', "%23")
            .replace('"', "%22")
            .replace('\'', "%27");
        assert_eq!(data_url(page), format!("data:text/html;charset=UTF-8,{replaced}"));
    }
}

#[test]
fn page_url_is_the_data_url_as_url_writes_it() {
    assert_eq!(page_url("<p>hi</p>").unwrap(), "data:text/html;charset=UTF-8,<p>hi</p>");
    assert_eq!(
        page_url("<p id=\"a\">1 & 2</p>").unwrap(),
        "data:text/html;charset=UTF-8,<p id=%22a%22>1 %26 2</p>"
    );
    // url takes tabs and line breaks out of an address
    assert_eq!(
        page_url("<p>\n\thi\n</p>").unwrap(),
        "data:text/html;charset=UTF-8,<p>hi</p>"
    );
}

#[test]
fn parse_address_reads_absolute_addresses() {
    assert_eq!(parse_address("https://example.net").unwrap(), "https://example.net/");
    assert_eq!(parse_address("HTTP://Example.NET/a/../b").unwrap(), "http://example.net/b");
    assert!(matches!(parse_address("img/logo.png"), Err(Failure::Url(_))));
    assert!(matches!(parse_address(""), Err(Failure::Url(_))));
}

#[test]
fn join_address_takes_a_reference_relative_to_a_base() {
    assert_eq!(
        join_address("https://example.net/a/b.html", "c.png").unwrap(),
        "https://example.net/a/c.png"
    );
    assert_eq!(
        join_address("https://example.net/a/b/", "c.png").unwrap(),
        "https://example.net/a/b/c.png"
    );
    assert_eq!(join_address("https://alice.com/a", "//eve.com/b").unwrap(), "https://eve.com/b");
    assert_eq!(
        join_address("https://alice.com/a", "/v1/meta").unwrap(),
        "https://alice.com/v1/meta"
    );
    assert!(matches!(join_address("not an address", "c.png"), Err(Failure::Url(_))));
    assert!(matches!(join_address("mailto:a@example.net", "c.png"), Err(Failure::Url(_))));
}

#[test]
fn asset_attribute_names_the_attribute_of_an_element() {
    assert_eq!(asset_attribute("script"), Some("src"));
    assert_eq!(asset_attribute("img"), Some("src"));
    assert_eq!(asset_attribute("link"), Some("href"));
    assert_eq!(asset_attribute("a"), None);
    assert_eq!(asset_attribute("IMG"), None);
    assert_eq!(asset_attribute(""), None);
}

#[test]
fn it_prepends_base_url_to_relative_paths() {
    let base = "https://fake.com/static/";
    assert_eq!(
        prepend_base_url(base, "css/main.css").unwrap(),
        Some("https://fake.com/static/css/main.css".to_string())
    );
    assert_eq!(
        prepend_base_url(base, "/js/app.js").unwrap(),
        Some("https://fake.com/js/app.js".to_string())
    );
    assert_eq!(
        prepend_base_url(base, "../logo.png").unwrap(),
        Some("https://fake.com/logo.png".to_string())
    );
}

#[test]
fn prepend_base_url_leaves_absolute_addresses_alone() {
    let base = "https://fake.com/static/";
    assert_eq!(prepend_base_url(base, "https://cdn.example.net/lib.js").unwrap(), None);
    assert_eq!(prepend_base_url(base, "data:image/png;base64,AAAA").unwrap(), None);
}

#[test]
fn prepend_base_url_fails_where_no_address_comes_of_base_and_value() {
    assert!(matches!(prepend_base_url("no base", "css/main.css"), Err(Failure::Url(_))));
    assert!(matches!(
        prepend_base_url("https://fake.com/", "//[bad/x.css"),
        Err(Failure::Url(_))
    ));
}

#[test]
fn markdown_renders_a_string_to_html() {
    assert_eq!(markdown(Some("# Title")).unwrap(), "<h1>Title</h1>\n");
    assert_eq!(
        markdown(Some("one *two* **three**")).unwrap(),
        "<p>one <em>two</em> <strong>three</strong></p>\n"
    );
    assert_eq!(markdown(Some("")).unwrap(), "");
}

#[test]
fn markdown_renders_with_the_extensions_switched_on() {
    assert_eq!(markdown(Some("~~gone~~")).unwrap(), "<p><del>gone</del></p>\n");
    assert_eq!(
        markdown(Some("- [x] done")).unwrap(),
        "<ul>\n<li><input disabled=\"\" type=\"checkbox\" checked=\"\"/>\ndone</li>\n</ul>\n"
    );
}

#[test]
fn markdown_refuses_a_value_that_is_no_string() {
    assert_eq!(markdown(None), Err("Expected the incoming value to be a string".to_string()));
}

#[test]
fn source_file_visitor_reads_a_path_with_a_known_extension() {
    let file = SourceFileVisitor.visit_str("data/cv.yml", Some("yml")).unwrap();
    assert_eq!(file.path, "data/cv.yml");
    assert_eq!(file.type_, SourceType::Yaml);
    let file = SourceFileVisitor.visit_str("cv.json", Some("json")).unwrap();
    assert_eq!(file.path, "cv.json");
    assert_eq!(file.type_, SourceType::Json);
    let file = SourceFileVisitor.visit_str("./cv.toml", Some("toml")).unwrap();
    assert_eq!(file.type_, SourceType::Toml);
}

#[test]
fn source_file_visitor_refuses_other_paths() {
    assert!(SourceFileVisitor.visit_str("data/cv", None).is_none());
    assert!(SourceFileVisitor.visit_str("data/cv.txt", Some("txt")).is_none());
    assert!(SourceFileVisitor.visit_str("data/cv.YAML", Some("YAML")).is_none());
}

#[test]
fn source_file_visitor_says_what_it_expects() {
    assert_eq!(
        SourceFileVisitor.expecting(),
        "a valid path with one of the following extensions: json, toml, or yml/yaml"
    );
}
