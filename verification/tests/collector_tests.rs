use mdbook_markers::collector::Collected;
use mdbook_markers::collector::Collector;
use mdbook_markers::collector::Config;
use mdbook_markers::collector::DataType;
use mdbook_markers::collector::FlatAggregate;
use mdbook_markers::collector::drain_if_parsed;
use mdbook_markers::collector::parse_payload;
use mdbook_markers::marker::MatchedSpan;
use mdbook_markers::payload::TOML_NESTING_LIMIT;
use mdbook_markers::document::Document;
use mdbook_markers::error::ConfigError;
use mdbook_markers::error::RunError;

fn table(text: &str) -> toml::value::Table {
    toml::from_str(text).unwrap()
}

fn object(text: &str) -> serde_json::Map<String, serde_json::Value> {
    serde_json::from_str(text).unwrap()
}

fn doc(path: &str, name: &str, content: &str) -> Document {
    Document::new(path.to_string(), name.to_string(), content.to_string())
}

#[test]
fn data_type_of_configured_words() {
    assert_eq!(DataType::new("yaml"), DataType::Yaml);
    assert_eq!(DataType::new("yml"), DataType::Yaml);
    assert_eq!(DataType::new("YAML"), DataType::Yaml);
    assert_eq!(DataType::new("Yml"), DataType::Yaml);
    assert_eq!(DataType::new("toml"), DataType::Toml);
    assert_eq!(DataType::new("TOML"), DataType::Toml);
    assert_eq!(DataType::new("json"), DataType::Json);
    assert_eq!(DataType::new("anything"), DataType::Json);
    assert_eq!(DataType::new(""), DataType::Json);
}

#[test]
fn data_type_of_keyword_is_exact() {
    assert_eq!(DataType::of_keyword("yaml"), DataType::Yaml);
    assert_eq!(DataType::of_keyword("YAML"), DataType::Json);
    assert_eq!(DataType::of_keyword("toml"), DataType::Toml);
    assert_eq!(DataType::of_keyword("toml "), DataType::Json);
}

#[test]
fn data_type_default_is_json() {
    assert_eq!(DataType::default(), DataType::Json);
}

#[test]
fn config_defaults_without_a_table() {
    let cfg = Config::new(None).unwrap();
    assert_eq!(cfg.input_type(), DataType::Json);
    assert_eq!(cfg.marker(), "collect");
    assert_eq!(cfg.save_path(), "collect.json");
    assert!(cfg.add_title());
}

#[test]
fn config_defaults_with_an_empty_table() {
    let t = table("");
    let cfg = Config::new(Some(&t)).unwrap();
    assert_eq!(cfg.input_type(), DataType::Json);
    assert_eq!(cfg.marker(), "collect");
    assert_eq!(cfg.save_path(), "collect.json");
    assert!(cfg.add_title());
}

#[test]
fn config_takes_what_the_table_says() {
    let t = table("input_type = \"Yaml\"\nmarker = \"data\"\nsave_path = \"out/d.json\"\nadd_title = false\nother = 3");
    let cfg = Config::new(Some(&t)).unwrap();
    assert_eq!(cfg.input_type(), DataType::Yaml);
    assert_eq!(cfg.marker(), "data");
    assert_eq!(cfg.save_path(), "out/d.json");
    assert!(!cfg.add_title());
    assert!(cfg.regex().find_first("<!-- data x: 1 -->").is_some());
    assert!(cfg.regex().find_first("<!-- collect {} -->").is_none());
}

#[test]
fn config_rejects_a_marker_that_is_not_a_string() {
    let t = table("marker = 5");
    match Config::new(Some(&t)) {
        Err(e) => {
            assert!(matches!(e, ConfigError::NotAString { .. }));
            assert_eq!(e.message(), "marker Integer(5) is not a valid string");
        }
        Ok(_) => panic!("a number is no marker"),
    }
}

#[test]
fn config_rejects_an_input_type_that_is_not_a_string() {
    let t = table("input_type = true\nmarker = 5");
    let e = Config::new(Some(&t)).err().unwrap();
    assert_eq!(e.message(), "input_type Boolean(true) is not a valid string");
}

#[test]
fn config_rejects_a_save_path_that_is_not_a_string() {
    let t = table("save_path = [1]");
    let e = Config::new(Some(&t)).err().unwrap();
    assert_eq!(e.message(), "save_path Array([Integer(1)]) is not a valid string");
}

#[test]
fn config_rejects_an_add_title_that_is_not_a_boolean() {
    let t = table("add_title = \"yes\"");
    match Config::new(Some(&t)) {
        Err(e) => {
            assert!(matches!(e, ConfigError::NotABoolean { .. }));
            assert_eq!(e.message(), "add_title String(\"yes\") is not a valid boolean type");
        }
        Ok(_) => panic!("a string is no boolean"),
    }
}

#[test]
fn config_rejects_a_marker_that_does_not_compile() {
    let t = table("marker = \"co[llect\"");
    match Config::new(Some(&t)) {
        Err(e) => {
            assert!(matches!(e, ConfigError::BadMarker { .. }));
            assert_eq!(
                e.message(),
                "marker \"co[llect\" has failed to be parsed into regular expression"
            );
        }
        Ok(_) => panic!("an open class must not compile"),
    }
}

#[test]
fn config_reports_a_wrong_type_before_a_bad_marker() {
    let t = table("marker = \"co[llect\"\nadd_title = 1");
    let e = Config::new(Some(&t)).err().unwrap();
    assert_eq!(e.message(), "add_title Integer(1) is not a valid boolean type");
}

#[test]
fn collect_without_a_marker_is_a_no_op() {
    let cfg = Config::new(None).unwrap();
    let mut content = String::from("no marker here");
    let found = cfg.collect_and_drain(&mut content, "Beta");
    assert!(matches!(found, Collected::Nothing));
    assert_eq!(content, "no marker here");
}

#[test]
fn collect_removes_exactly_the_marker() {
    let cfg = Config::new(None).unwrap();
    let mut content = String::from("intro <!-- collect {\"x\":1} --> rest");
    match cfg.collect_and_drain(&mut content, "Alpha") {
        Collected::Payload(payload) => assert_eq!(payload, object("{\"x\":1}")),
        _ => panic!("the literal is valid JSON"),
    }
    assert_eq!(content, "intro  rest");
}

#[test]
fn collect_takes_the_first_marker_only() {
    let cfg = Config::new(None).unwrap();
    let mut content = String::from("<!-- collect {\"a\":1} --> and <!-- collect {\"b\":2} -->");
    match cfg.collect_and_drain(&mut content, "Two") {
        Collected::Payload(payload) => assert_eq!(payload, object("{\"a\":1}")),
        _ => panic!("the first literal is valid JSON"),
    }
    assert_eq!(content, " and <!-- collect {\"b\":2} -->");
}

#[test]
fn collect_leaves_a_malformed_marker_in_place() {
    let cfg = Config::new(None).unwrap();
    let mut content = String::from("intro <!-- collect {x:1 --> rest");
    match cfg.collect_and_drain(&mut content, "Gamma") {
        Collected::Malformed(failure) => {
            assert_eq!(failure.format, DataType::Json);
            assert_eq!(failure.post, "Gamma");
            assert!(failure.detail.len() > 0);
            let expected = format!(
                "While parsing Json data from post Gamma, meets error: {}",
                failure.detail
            );
            assert_eq!(failure.message(), expected);
        }
        _ => panic!("the literal is no JSON"),
    }
    assert_eq!(content, "intro <!-- collect {x:1 --> rest");
}

#[test]
fn collect_rejects_a_literal_that_is_no_object() {
    let cfg = Config::new(None).unwrap();
    let mut content = String::from("<!-- collect [1, 2] -->");
    assert!(matches!(cfg.collect_and_drain(&mut content, "List"), Collected::Malformed(_)));
    assert_eq!(content, "<!-- collect [1, 2] -->");
}

#[test]
fn collect_reads_yaml() {
    let t = table("input_type = \"yaml\"");
    let cfg = Config::new(Some(&t)).unwrap();
    let mut content = String::from("a\n<!-- collect\nx: 1\ny: [a, b]\n-->\nb");
    match cfg.collect_and_drain(&mut content, "Y") {
        Collected::Payload(payload) => assert_eq!(payload, object("{\"x\":1,\"y\":[\"a\",\"b\"]}")),
        _ => panic!("the literal is valid YAML"),
    }
    assert_eq!(content, "a\n\nb");
}

#[test]
fn collect_reports_malformed_yaml() {
    let t = table("input_type = \"yaml\"");
    let cfg = Config::new(Some(&t)).unwrap();
    let mut content = String::from("<!-- collect\nx: [1\n-->");
    match cfg.collect_and_drain(&mut content, "Y") {
        Collected::Malformed(failure) => {
            assert_eq!(failure.format, DataType::Yaml);
            assert!(failure.message().starts_with("While parsing Yaml data from post Y, meets error: "));
        }
        _ => panic!("the literal is no YAML"),
    }
    assert_eq!(content, "<!-- collect\nx: [1\n-->");
}

#[test]
fn collect_reads_toml() {
    let t = table("input_type = \"toml\"");
    let cfg = Config::new(Some(&t)).unwrap();
    let mut content = String::from("<!-- collect\nx = 1\nname = \"n\"\n-->tail");
    match cfg.collect_and_drain(&mut content, "T") {
        Collected::Payload(payload) => assert_eq!(payload, object("{\"x\":1,\"name\":\"n\"}")),
        _ => panic!("the literal is valid TOML"),
    }
    assert_eq!(content, "tail");
}

#[test]
fn collect_reports_malformed_toml() {
    let t = table("input_type = \"toml\"");
    let cfg = Config::new(Some(&t)).unwrap();
    let mut content = String::from("<!-- collect\nx = \n-->");
    match cfg.collect_and_drain(&mut content, "T") {
        Collected::Malformed(failure) => {
            assert_eq!(failure.format, DataType::Toml);
            assert!(failure.message().starts_with("While parsing Toml data from post T, meets error: "));
        }
        _ => panic!("the literal is no TOML"),
    }
    assert_eq!(content, "<!-- collect\nx = \n-->");
}

#[test]
fn collecting_twice_is_collecting_once() {
    let cfg = Config::new(None).unwrap();
    let mut content = String::from("intro <!-- collect {\"x\":1} --> rest");
    let _ = cfg.collect_and_drain(&mut content, "Alpha");
    let once = content.clone();
    let again = cfg.collect_and_drain(&mut content, "Alpha");
    assert!(matches!(again, Collected::Nothing));
    assert_eq!(content, once);
}

#[test]
fn aggregate_starts_empty_and_is_not_rendered() {
    let agg = FlatAggregate::new();
    assert_eq!(agg.len(), 0);
    assert!(agg.render().is_none());
    assert_eq!(agg.as_object().len(), 0);
}

#[test]
fn aggregate_insert_replaces_what_a_path_held() {
    let mut agg = FlatAggregate::new();
    agg.insert("a.md", object("{\"x\":1}"));
    agg.insert("b.md", object("{}"));
    agg.insert("a.md", object("{\"y\":2}"));
    assert_eq!(agg.len(), 2);
    assert_eq!(agg.as_object(), &object("{\"a.md\":{\"y\":2},\"b.md\":{}}"));
    assert_eq!(agg.render().unwrap().unwrap(), "{\"a.md\":{\"y\":2},\"b.md\":{}}");
}

#[test]
fn visit_adds_the_title_over_the_payloads_own() {
    let cfg = Config::new(None).unwrap();
    let mut agg = FlatAggregate::new();
    let mut d = doc("t.md", "Real", "<!-- collect {\"title\":\"old\",\"k\":null} -->");
    assert!(Collector::new().visit(&cfg, &mut agg, &mut d).is_none());
    assert_eq!(agg.as_object(), &object("{\"t.md\":{\"title\":\"Real\",\"k\":null}}"));
    assert_eq!(d.content, "");
    assert_eq!(d.path, "t.md");
    assert_eq!(d.name, "Real");
}

#[test]
fn visit_keeps_the_payload_as_it_is_without_titles() {
    let t = table("add_title = false");
    let cfg = Config::new(Some(&t)).unwrap();
    let mut agg = FlatAggregate::new();
    let mut d = doc("t.md", "Real", "<!-- collect {\"title\":\"old\"} -->");
    assert!(Collector::new().visit(&cfg, &mut agg, &mut d).is_none());
    assert_eq!(agg.as_object(), &object("{\"t.md\":{\"title\":\"old\"}}"));
}

#[test]
fn visit_of_a_malformed_document_adds_nothing() {
    let cfg = Config::new(None).unwrap();
    let mut agg = FlatAggregate::new();
    agg.insert("a.md", object("{}"));
    let mut d = doc("bad.md", "Bad", "x <!-- collect nope --> y");
    let failure = Collector::new().visit(&cfg, &mut agg, &mut d).unwrap();
    assert_eq!(failure.post, "Bad");
    assert_eq!(d.content, "x <!-- collect nope --> y");
    assert_eq!(agg.as_object(), &object("{\"a.md\":{}}"));
}

#[test]
fn collector_name() {
    assert_eq!(Collector::new().name(), "collector");
}

#[test]
fn run_collects_a_corpus_of_two_documents() {
    let t = table("add_title = true");
    let mut docs = vec![
        doc("a.md", "Alpha", "intro <!-- collect {\"x\":1} --> rest"),
        doc("b.md", "Beta", "no marker here"),
    ];
    let report = Collector::new().run(Some(&t), &mut docs).unwrap();
    assert_eq!(docs[0].content, "intro  rest");
    assert_eq!(docs[1].content, "no marker here");
    assert_eq!(docs[0].path, "a.md");
    assert_eq!(docs[1].name, "Beta");
    assert_eq!(report.save_path, "collect.json");
    assert_eq!(report.collected, 1);
    assert!(report.failures.is_empty());
    let data = report.data.unwrap();
    assert_eq!(data, "{\"a.md\":{\"title\":\"Alpha\",\"x\":1}}");
    assert_eq!(object(&data), object("{\"a.md\": {\"x\": 1, \"title\": \"Alpha\"}}"));
    assert!(!object(&data).contains_key("b.md"));
}

#[test]
fn run_without_markers_writes_nothing() {
    let mut docs = vec![doc("a.md", "A", "plain"), doc("b.md", "B", "<!-- other {} -->")];
    let report = Collector::new().run(None, &mut docs).unwrap();
    assert!(report.data.is_none());
    assert!(report.failures.is_empty());
    assert_eq!(docs[0].content, "plain");
    assert_eq!(docs[1].content, "<!-- other {} -->");
}

#[test]
fn run_of_an_empty_corpus_writes_nothing() {
    let mut docs: Vec<Document> = Vec::new();
    let report = Collector::new().run(None, &mut docs).unwrap();
    assert!(report.data.is_none());
    assert_eq!(report.save_path, "collect.json");
}

#[test]
fn run_goes_on_after_a_malformed_document() {
    let mut docs = vec![
        doc("1.md", "One", "<!-- collect {\"n\":1} -->"),
        doc("2.md", "Two", "<!-- collect {broken -->"),
        doc("3.md", "Three", "<!-- collect {\"n\":3} -->!"),
        doc("4.md", "Four", "<!-- collect 7 -->"),
    ];
    let report = Collector::new().run(None, &mut docs).unwrap();
    assert_eq!(docs[0].content, "");
    assert_eq!(docs[1].content, "<!-- collect {broken -->");
    assert_eq!(docs[2].content, "!");
    assert_eq!(docs[3].content, "<!-- collect 7 -->");
    assert_eq!(report.failures.len(), 2);
    assert_eq!(report.failures[0].path, "2.md");
    assert_eq!(report.failures[0].failure.post, "Two");
    assert_eq!(report.failures[0].failure.format, DataType::Json);
    assert_eq!(report.failures[1].path, "4.md");
    assert_eq!(report.failures[1].failure.post, "Four");
    let expected = format!(
        "While parsing Json data from post Four, meets error: {} (in 4.md)",
        report.failures[1].failure.detail
    );
    assert_eq!(report.failures[1].message(), expected);
    assert_eq!(
        object(&report.data.unwrap()),
        object("{\"1.md\":{\"n\":1,\"title\":\"One\"},\"3.md\":{\"n\":3,\"title\":\"Three\"}}")
    );
}

#[test]
fn run_stops_on_a_bad_configuration_before_any_document() {
    let t = table("marker = 1");
    let mut docs = vec![doc("a.md", "A", "<!-- collect {} -->")];
    match Collector::new().run(Some(&t), &mut docs) {
        Err(RunError::Config(e)) => assert_eq!(e.message(), "marker Integer(1) is not a valid string"),
        _ => panic!("the configuration is wrong"),
    }
    assert_eq!(docs[0].content, "<!-- collect {} -->");
}

#[test]
fn run_twice_changes_nothing_the_second_time() {
    let mut docs = vec![doc("a.md", "Alpha", "intro <!-- collect {\"x\":1} --> rest")];
    let _ = Collector::new().run(None, &mut docs).unwrap();
    let once = docs[0].content.clone();
    let second = Collector::new().run(None, &mut docs).unwrap();
    assert_eq!(docs[0].content, once);
    assert!(second.data.is_none());
}

#[test]
fn gather_puts_the_title_in() {
    let mut agg = FlatAggregate::new();
    agg.gather(true, "a.md", "Alpha", object("{\"x\":1}"));
    agg.gather(false, "b.md", "Beta", object("{\"x\":2}"));
    agg.gather(true, "c.md", "Q\"uote", object("{\"title\":[1]}"));
    assert_eq!(
        agg.as_object(),
        &object("{\"a.md\":{\"x\":1,\"title\":\"Alpha\"},\"b.md\":{\"x\":2},\"c.md\":{\"title\":\"Q\\\"uote\"}}")
    );
}

#[test]
fn parse_payload_reads_each_format() {
    assert_eq!(parse_payload(DataType::Json, "{\"a\": [1, 2]}").unwrap(), object("{\"a\":[1,2]}"));
    assert_eq!(parse_payload(DataType::Yaml, "a:\n  - 1\n  - 2\n").unwrap(), object("{\"a\":[1,2]}"));
    assert_eq!(parse_payload(DataType::Toml, "a = [1, 2]").unwrap(), object("{\"a\":[1,2]}"));
    assert!(parse_payload(DataType::Json, "a = [1, 2]").is_err());
    assert!(parse_payload(DataType::Toml, "{\"a\": [1, 2]}").is_err());
    assert!(parse_payload(DataType::Json, "").is_err());
    assert!(parse_payload(DataType::Json, "\"text\"").is_err());
}

#[test]
fn a_parsed_literal_drains_the_span() {
    let mut content = String::from("ab<!-- collect {} -->cd");
    let span = MatchedSpan { start: 2, end: 21, literal: " {} ".to_string() };
    match drain_if_parsed(&mut content, &span, Ok(object("{\"k\":true}")), DataType::Json, "N") {
        Collected::Payload(payload) => assert_eq!(payload, object("{\"k\":true}")),
        _ => panic!("the payload is handed on"),
    }
    assert_eq!(content, "abcd");
}

#[test]
fn an_unparsed_literal_keeps_the_span() {
    let mut content = String::from("ab<!-- collect {} -->cd");
    let span = MatchedSpan { start: 2, end: 21, literal: " {} ".to_string() };
    match drain_if_parsed(&mut content, &span, Err("why".to_string()), DataType::Toml, "N") {
        Collected::Malformed(failure) => {
            assert_eq!(failure.format, DataType::Toml);
            assert_eq!(failure.post, "N");
            assert_eq!(failure.detail, "why");
            assert_eq!(failure.message(), "While parsing Toml data from post N, meets error: why");
        }
        _ => panic!("the error becomes a failure"),
    }
    assert_eq!(content, "ab<!-- collect {} -->cd");
}

#[test]
fn a_second_marker_is_taken_by_a_second_run() {
    let cfg = Config::new(None).unwrap();
    let mut content = String::from("<!-- collect {} --><!-- collect {} -->");
    let _ = cfg.collect_and_drain(&mut content, "Two");
    assert_eq!(content, "<!-- collect {} -->");
    let _ = cfg.collect_and_drain(&mut content, "Two");
    assert_eq!(content, "");
}

#[test]
fn encode_error_message() {
    let e = mdbook_markers::error::EncodeError {};
    assert_eq!(e.message(), "Parsing into json has failed. Check out the Json syntax.");
}

fn nested_toml(depth: usize) -> String {
    let mut text = String::from("a = ");
    for _ in 0..depth {
        text.push('[');
    }
    for _ in 0..depth {
        text.push(']');
    }
    text
}

#[test]
fn toml_at_the_nesting_limit_is_parsed() {
    assert_eq!(TOML_NESTING_LIMIT, 128);
    let object = parse_payload(DataType::Toml, &nested_toml(128)).unwrap();
    let mut depth = 0;
    let mut value = object.get("a").unwrap();
    while let Some(inner) = value.as_array() {
        depth += 1;
        match inner.first() {
            Some(next) => value = next,
            None => break,
        }
    }
    assert_eq!(depth, 128);
}

#[test]
fn toml_past_the_nesting_limit_is_not_parsed() {
    let detail = parse_payload(DataType::Toml, &nested_toml(129)).err().unwrap();
    assert_eq!(detail, "the literal nests too deeply");
    let deep = nested_toml(100000);
    assert!(parse_payload(DataType::Toml, &deep).is_err());
    let mut dotted = String::from("a");
    for _ in 0..129 {
        dotted.push_str(".a");
    }
    dotted.push_str(" = 1");
    assert_eq!(parse_payload(DataType::Toml, &dotted).err().unwrap(), "the literal nests too deeply");
    let mut header = String::from("[a");
    for _ in 0..129 {
        header.push_str(".a");
    }
    header.push_str("]\nx = 1\n");
    assert_eq!(parse_payload(DataType::Toml, &header).err().unwrap(), "the literal nests too deeply");
}

fn many_floats() -> String {
    let mut text = String::new();
    for i in 0..130 {
        text.push_str(&format!("k{} = 1.5\n", i));
    }
    text
}

fn many_arrays() -> String {
    let mut text = String::from("list = [");
    for i in 0..70 {
        text.push_str(&format!("[{}, {}], ", i, i + 1));
    }
    text.push_str("]\n");
    text
}

fn many_sections() -> String {
    let mut text = String::new();
    for i in 0..129 {
        text.push_str(&format!("[section{}]\nv = \"a.b.[c].{{d}}\" # e.f [g]\n", i));
    }
    text
}

#[test]
fn flat_toml_is_parsed_however_long() {
    let floats = parse_payload(DataType::Toml, &many_floats()).unwrap();
    assert_eq!(floats.len(), 130);
    assert_eq!(floats.get("k129").unwrap().as_f64(), Some(1.5));
    let arrays = parse_payload(DataType::Toml, &many_arrays()).unwrap();
    assert_eq!(arrays.get("list").unwrap().as_array().unwrap().len(), 70);
    let sections = parse_payload(DataType::Toml, &many_sections()).unwrap();
    assert_eq!(sections.len(), 129);
    assert_eq!(
        sections.get("section128").unwrap().get("v").unwrap().as_str(),
        Some("a.b.[c].{d}")
    );
}

#[test]
fn a_long_flat_toml_marker_is_drained_and_gathered() {
    let t = table("input_type = \"toml\"\nadd_title = false");
    for literal in [many_floats(), many_arrays(), many_sections()].iter() {
        let mut docs = vec![doc("flat.md", "Flat", &format!("x <!-- collect\n{}--> y", literal))];
        let report = Collector::new().run(Some(&t), &mut docs).unwrap();
        assert_eq!(docs[0].content, "x  y");
        assert!(report.failures.is_empty());
        assert_eq!(report.collected, 1);
        let expected: serde_json::Map<String, serde_json::Value> = toml::from_str(literal).unwrap();
        let data = object(&report.data.unwrap());
        assert_eq!(data.get("flat.md").unwrap().as_object().unwrap(), &expected);
    }
}

#[test]
fn the_nesting_limit_is_for_toml_only() {
    let mut json = String::from("{\"a\":");
    for _ in 0..100 {
        json.push('[');
    }
    for _ in 0..100 {
        json.push(']');
    }
    json.push_str(",\"b\":[1.5,2.5],\"c\":\"");
    for _ in 0..200 {
        json.push('.');
    }
    json.push_str("\"}");
    assert!(parse_payload(DataType::Json, &json).is_ok());
    assert!(parse_payload(DataType::Yaml, &json).is_ok());
}

#[test]
fn a_toml_marker_past_the_nesting_limit_stays_in_place() {
    let t = table("input_type = \"toml\"");
    let cfg = Config::new(Some(&t)).unwrap();
    let text = format!("x <!-- collect\n{}\n--> y", nested_toml(5000));
    let mut content = text.clone();
    match cfg.collect_and_drain(&mut content, "Deep") {
        Collected::Malformed(failure) => {
            assert_eq!(failure.format, DataType::Toml);
            assert_eq!(
                failure.message(),
                "While parsing Toml data from post Deep, meets error: the literal nests too deeply"
            );
        }
        _ => panic!("the literal is not handed to the parser"),
    }
    assert_eq!(content, text);
}

#[test]
fn a_rendered_aggregate_is_always_text() {
    let mut agg = FlatAggregate::new();
    agg.insert("z.md", object("{\"b\":[1,{\"c\":null}],\"a\":1.5}"));
    agg.insert("a.md", object("{}"));
    match agg.render() {
        Some(Ok(text)) => assert_eq!(text, "{\"a.md\":{},\"z.md\":{\"a\":1.5,\"b\":[1,{\"c\":null}]}}"),
        _ => panic!("an aggregate with entries is encoded"),
    }
}
