use mdbook_markers::tocjs::Config;
use mdbook_markers::tocjs::TocJsMaker;

fn table(text: &str) -> toml::value::Table {
    toml::from_str(text).unwrap()
}

#[test]
fn tocjs_config_defaults() {
    let cfg = Config::new(None).unwrap();
    assert_eq!(cfg.save_dir(), "lib");
    assert_eq!(cfg.block_marker_id(), "tock");
    assert_eq!(cfg.wing_marker_id(), "tocw");
    assert_eq!(cfg.theme_dir(), "theme");
    assert_eq!(cfg.base_url(), "/");
}

#[test]
fn tocjs_config_takes_what_the_table_says() {
    let t = table("save_dir = \"assets\"\nblock_marker_id = \"b\"\nwing_marker_id = \"w\"\ntheme_dir = \"th\"\nbase_url = \"/book/\"");
    let cfg = Config::new(Some(&t)).unwrap();
    assert_eq!(cfg.save_dir(), "assets");
    assert_eq!(cfg.block_marker_id(), "b");
    assert_eq!(cfg.wing_marker_id(), "w");
    assert_eq!(cfg.theme_dir(), "th");
    assert_eq!(cfg.base_url(), "/book/");
}

#[test]
fn tocjs_config_rejects_values_that_are_no_strings() {
    let t = table("base_url = 1\ntheme_dir = 2");
    assert_eq!(Config::new(Some(&t)).err().unwrap().message(), "theme_dir Integer(2) is not a valid string");
    let t = table("save_dir = true");
    assert_eq!(Config::new(Some(&t)).err().unwrap().message(), "save_dir Boolean(true) is not a valid string");
}

#[test]
fn format_js_writes_the_configured_ids() {
    let t = table("block_marker_id = \"blk\"\nwing_marker_id = \"wng\"");
    let cfg = Config::new(Some(&t)).unwrap();
    let js = "a; toc_maker.build_block(\"tock\"); toc_maker.build_wing(\"tocw\"); toc_maker.build_block(\"tock\")";
    assert_eq!(
        cfg.format_js(js),
        "a; toc_maker.build_block(\"blk\"); toc_maker.build_wing(\"wng\"); toc_maker.build_block(\"blk\")"
    );
}

#[test]
fn format_js_with_the_default_ids_changes_nothing() {
    let cfg = Config::new(None).unwrap();
    let js = "toc_maker.build_block(\"tock\");\ntoc_maker.build_wing(\"tocw\");\n";
    assert_eq!(cfg.format_js(js), js);
    assert_eq!(cfg.format_js(""), "");
    assert_eq!(cfg.format_js("toc_maker.build_block('tock')"), "toc_maker.build_block('tock')");
}

#[test]
fn head_links_name_the_two_assets() {
    let t = table("base_url = \"/b/\"");
    let cfg = Config::new(Some(&t)).unwrap();
    let (style, script) = cfg.head_links();
    assert_eq!(style, "<link rel=\"stylesheet\" href=\"/b/lib/toc.css\">");
    assert_eq!(script, "<script src=\"/b/lib/toc.js\"></script>");
}

#[test]
fn a_new_head_gets_both_lines() {
    let cfg = Config::new(None).unwrap();
    assert_eq!(
        cfg.head_additions(None),
        "<link rel=\"stylesheet\" href=\"/lib/toc.css\"><script src=\"/lib/toc.js\"></script>"
    );
}

#[test]
fn an_old_head_gets_the_lines_it_lacks() {
    let cfg = Config::new(None).unwrap();
    assert_eq!(
        cfg.head_additions(Some("")),
        "<link rel=\"stylesheet\" href=\"/lib/toc.css\"><script src=\"/lib/toc.js\"></script>"
    );
    assert_eq!(
        cfg.head_additions(Some("<x><link rel=\"stylesheet\" href=\"/lib/toc.css\">")),
        "<script src=\"/lib/toc.js\"></script>"
    );
    assert_eq!(
        cfg.head_additions(Some("<script src=\"/lib/toc.js\"></script>\n")),
        "<link rel=\"stylesheet\" href=\"/lib/toc.css\">"
    );
    assert_eq!(
        cfg.head_additions(Some(
            "<link rel=\"stylesheet\" href=\"/lib/toc.css\"><script src=\"/lib/toc.js\"></script>"
        )),
        ""
    );
}

#[test]
fn tocjs_name() {
    assert_eq!(TocJsMaker::new().name(), "tocjs");
}
