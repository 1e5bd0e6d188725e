use repo2prompt::{
    files_map_to_vec, format_as_json, format_as_text, format_as_xml, generate_output, Config,
    FileMap, OutputFormat,
};

const HELLO: &str = "def hello():\n    print('Hello, world!')\n";

fn hello_map() -> FileMap {
    let mut files_map = FileMap::new();
    files_map.insert("test.py".to_string(), HELLO.to_string());
    files_map
}

fn parsed_pairs(json: &str) -> Vec<(String, String)> {
    let value: serde_json::Value = serde_json::from_str(json).unwrap();
    let files = value.get("files").unwrap().as_array().unwrap();
    let mut pairs: Vec<(String, String)> = files
        .iter()
        .map(|f| {
            (
                f.get("path").unwrap().as_str().unwrap().to_string(),
                f.get("content").unwrap().as_str().unwrap().to_string(),
            )
        })
        .collect();
    pairs.sort();
    pairs
}

#[test]
fn test_format_as_text() {
    let files_map = hello_map();
    let text = format_as_text(&files_map).unwrap();
    assert!(text.contains("# test.py"));
    assert!(text.contains("def hello():"));
}

#[test]
fn test_format_as_json() {
    let files_map = hello_map();
    let json = format_as_json(&files_map, false).unwrap();
    assert!(json.contains("test.py"));
    assert!(json.contains("def hello():"));

    let json_pretty = format_as_json(&files_map, true).unwrap();
    assert!(json_pretty.contains("test.py"));
    assert!(json_pretty.contains("def hello():"));
    assert!(json_pretty.len() > json.len());
}

#[test]
fn test_format_as_xml() {
    let files_map = hello_map();
    let xml = format_as_xml(&files_map, false).unwrap();
    assert!(xml.contains("test.py"));
    assert!(xml.contains("def hello():"));

    let xml_pretty = format_as_xml(&files_map, true).unwrap();
    assert!(xml_pretty.contains("test.py"));
    assert!(xml_pretty.contains("def hello():"));
}

#[test]
fn text_header_is_followed_by_content() {
    let text = format_as_text(&hello_map()).unwrap();
    assert!(text.contains("# test.py\ndef hello():"));
}

#[test]
fn text_exact_document() {
    let mut files_map = FileMap::new();
    files_map.insert("a.md".to_string(), "A".to_string());
    files_map.insert("b/c.rs".to_string(), "fn c() {}".to_string());
    let text = format_as_text(&files_map).unwrap();
    assert_eq!(text, "# a.md\nA\n\n# b/c.rs\nfn c() {}\n\n");
}

#[test]
fn text_of_empty_map_is_empty() {
    assert_eq!(format_as_text(&FileMap::new()).unwrap(), "");
}

#[test]
fn json_compact_exact_document() {
    let json = format_as_json(&hello_map(), false).unwrap();
    assert_eq!(
        json,
        "{\"files\":[{\"path\":\"test.py\",\"content\":\"def hello():\\n    print('Hello, world!')\\n\"}]}"
    );
}

#[test]
fn json_pretty_exact_document() {
    let mut files_map = FileMap::new();
    files_map.insert("a".to_string(), "x".to_string());
    files_map.insert("b".to_string(), "y".to_string());
    let json = format_as_json(&files_map, true).unwrap();
    assert_eq!(
        json,
        "{\n  \"files\": [\n    {\n      \"path\": \"a\",\n      \"content\": \"x\"\n    },\n    {\n      \"path\": \"b\",\n      \"content\": \"y\"\n    }\n  ]\n}"
    );
}

#[test]
fn json_empty_documents() {
    let empty = FileMap::new();
    assert_eq!(format_as_json(&empty, false).unwrap(), "{\"files\":[]}");
    assert_eq!(format_as_json(&empty, true).unwrap(), "{\n  \"files\": []\n}");
    assert!(parsed_pairs(&format_as_json(&empty, true).unwrap()).is_empty());
}

#[test]
fn json_quotes_special_characters() {
    let mut files_map = FileMap::new();
    files_map.insert("q.txt".to_string(), "say \"hi\"\\".to_string());
    let json = format_as_json(&files_map, false).unwrap();
    assert!(json.contains("\"say \\\"hi\\\"\\\\\""));
}

#[test]
fn json_round_trip_keeps_pairs() {
    let mut files_map = FileMap::new();
    files_map.insert("test.py".to_string(), HELLO.to_string());
    files_map.insert("dir/quote \"q\".md".to_string(), "tab\there\r\nüñí & <x>".to_string());
    files_map.insert("empty.txt".to_string(), String::new());
    let mut expected = vec![
        ("test.py".to_string(), HELLO.to_string()),
        ("dir/quote \"q\".md".to_string(), "tab\there\r\nüñí & <x>".to_string()),
        ("empty.txt".to_string(), String::new()),
    ];
    expected.sort();
    for pretty in [false, true] {
        let json = format_as_json(&files_map, pretty).unwrap();
        assert_eq!(parsed_pairs(&json), expected);
    }
}

#[test]
fn json_pretty_and_compact_hold_equal_data() {
    let files_map = hello_map();
    let compact = format_as_json(&files_map, false).unwrap();
    let pretty = format_as_json(&files_map, true).unwrap();
    assert!(pretty.len() > compact.len());
    let a: serde_json::Value = serde_json::from_str(&compact).unwrap();
    let b: serde_json::Value = serde_json::from_str(&pretty).unwrap();
    assert_eq!(a, b);
}

#[test]
fn xml_compact_exact_document() {
    let xml = format_as_xml(&hello_map(), false).unwrap();
    assert_eq!(
        xml,
        format!("<Repository><files><path>test.py</path><content>{}</content></files></Repository>", HELLO)
    );
}

#[test]
fn xml_pretty_exact_document() {
    let mut files_map = FileMap::new();
    files_map.insert("a".to_string(), "x".to_string());
    let xml = format_as_xml(&files_map, true).unwrap();
    assert_eq!(
        xml,
        "<Repository>\n  <files>\n    <path>a</path>\n    <content>x</content>\n  </files>\n</Repository>"
    );
    assert_eq!(format_as_xml(&FileMap::new(), false).unwrap(), "<Repository></Repository>");
}

#[test]
fn xml_escapes_markup() {
    let mut files_map = FileMap::new();
    files_map.insert("a&b.rs".to_string(), "if a < b && c > d { \"x\" }\r".to_string());
    let xml = format_as_xml(&files_map, false).unwrap();
    assert!(xml.contains("<path>a&amp;b.rs</path>"));
    assert!(xml.contains("if a &lt; b &amp;&amp; c &gt; d { \"x\" }&#13;</content>"));
}

#[test]
fn generate_output_follows_format() {
    let files_map = hello_map();
    let mut config = Config::default();
    config.format = OutputFormat::Text;
    assert_eq!(generate_output(&files_map, &config).unwrap(), format_as_text(&files_map).unwrap());
    config.format = OutputFormat::Json;
    config.pretty_print = true;
    assert_eq!(
        generate_output(&files_map, &config).unwrap(),
        format_as_json(&files_map, true).unwrap()
    );
    config.format = OutputFormat::Xml;
    config.pretty_print = false;
    assert_eq!(
        generate_output(&files_map, &config).unwrap(),
        format_as_xml(&files_map, false).unwrap()
    );
}

#[test]
fn file_map_insert_replaces_same_path() {
    let mut files_map = FileMap::new();
    files_map.insert("a".to_string(), "1".to_string());
    files_map.insert("b".to_string(), "2".to_string());
    files_map.insert("a".to_string(), "3".to_string());
    assert_eq!(files_map.len(), 2);
    assert_eq!(files_map.get("a").unwrap(), "3");
    assert!(files_map.contains_key("b"));
    assert!(!files_map.contains_key("c"));
    let files = files_map_to_vec(&files_map);
    assert_eq!(files[0].path, "a");
    assert_eq!(files[0].content, "3");
    assert_eq!(files[1].path, "b");
}

#[test]
fn json_document_frames_quoted_texts() {
    let quoted = vec![
        ("\"a.py\"".to_string(), "\"x\\n\"".to_string()),
        ("\"b\"".to_string(), "\"\"".to_string()),
    ];
    assert_eq!(
        repo2prompt::json_document(&quoted, false),
        "{\"files\":[{\"path\":\"a.py\",\"content\":\"x\\n\"},{\"path\":\"b\",\"content\":\"\"}]}"
    );
    assert_eq!(
        repo2prompt::json_document(&Vec::new(), false),
        "{\"files\":[]}"
    );
    let pretty = repo2prompt::json_document(&quoted, true);
    assert!(pretty.starts_with("{\n  \"files\": [\n    {\n      \"path\": \"a.py\",\n"));
    assert!(pretty.ends_with("    }\n  ]\n}"));
}

#[test]
fn json_compact_is_one_line_pretty_is_not() {
    let mut files_map = FileMap::new();
    files_map.insert("a\nb".to_string(), "x\ny\u{1}\u{8}".to_string());
    let compact = format_as_json(&files_map, false).unwrap();
    assert!(!compact.contains('\n'));
    assert!(compact.contains("\"x\\ny\\u0001\\b\""));
    assert!(format_as_json(&files_map, true).unwrap().contains('\n'));
}

#[test]
fn text_ignores_pretty_flag() {
    let files_map = hello_map();
    let mut config = Config::default();
    config.format = OutputFormat::Text;
    let a = generate_output(&files_map, &config).unwrap();
    config.pretty_print = true;
    assert_eq!(generate_output(&files_map, &config).unwrap(), a);
}
