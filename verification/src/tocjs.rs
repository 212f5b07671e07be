//! The table-of-contents assets: the script with the configured marker
//! ids written in, and the two lines that the page head needs.

use vstd::prelude::*;
use vstd::string::StringExecFns;
use crate::error::ConfigError;
use crate::error::ConfigErrorView;
use crate::settings::SettingView;
use crate::settings::get_value_to_str;
use crate::settings::table_settings;
use crate::settings::text_of;
use crate::text::contains;
use crate::text::contains_text;
use crate::text::replace_all;
use crate::text::replace_text;

verus! {

/// What the configuration of the assets says.
pub struct ConfigView {
    pub save_dir: Seq<char>,
    pub block_marker_id: Seq<char>,
    pub wing_marker_id: Seq<char>,
    pub theme_dir: Seq<char>,
    pub base_url: Seq<char>,
}

/// The configuration without a table: the directory `lib`, the ids `tock`
/// and `tocw`, the theme directory `theme`, the base URL `/`.
pub open spec fn default_view() -> ConfigView {
    ConfigView {
        save_dir: "lib"@,
        block_marker_id: "tock"@,
        wing_marker_id: "tocw"@,
        theme_dir: "theme"@,
        base_url: "/"@,
    }
}

/// What the table chooses, key by key, over the defaults; the first value
/// that is not a string, in the order `save_dir`, `block_marker_id`,
/// `wing_marker_id`, `theme_dir`, `base_url`, is the error.
pub open spec fn chosen(settings: Map<Seq<char>, SettingView>) -> Result<
    ConfigView,
    ConfigErrorView,
> {
    let save_dir = text_of(settings, "save_dir"@);
    let block_marker_id = text_of(settings, "block_marker_id"@);
    let wing_marker_id = text_of(settings, "wing_marker_id"@);
    let theme_dir = text_of(settings, "theme_dir"@);
    let base_url = text_of(settings, "base_url"@);
    if let Some(Err(e)) = save_dir {
        Err(e)
    } else if let Some(Err(e)) = block_marker_id {
        Err(e)
    } else if let Some(Err(e)) = wing_marker_id {
        Err(e)
    } else if let Some(Err(e)) = theme_dir {
        Err(e)
    } else if let Some(Err(e)) = base_url {
        Err(e)
    } else {
        Ok(
            ConfigView {
                save_dir: match save_dir {
                    Some(Ok(dir)) => dir,
                    _ => default_view().save_dir,
                },
                block_marker_id: match block_marker_id {
                    Some(Ok(id)) => id,
                    _ => default_view().block_marker_id,
                },
                wing_marker_id: match wing_marker_id {
                    Some(Ok(id)) => id,
                    _ => default_view().wing_marker_id,
                },
                theme_dir: match theme_dir {
                    Some(Ok(dir)) => dir,
                    _ => default_view().theme_dir,
                },
                base_url: match base_url {
                    Some(Ok(url)) => url,
                    _ => default_view().base_url,
                },
            },
        )
    }
}

/// The configuration that an optional table gives.
pub open spec fn configured(settings: Option<Map<Seq<char>, SettingView>>) -> Result<
    ConfigView,
    ConfigErrorView,
> {
    match settings {
        Some(s) => chosen(s),
        None => Ok(default_view()),
    }
}

/// The settings of an optional table.
pub open spec fn settings_of(table: Option<&toml::map::Map<String, toml::Value>>) -> Option<
    Map<Seq<char>, SettingView>,
> {
    match table {
        Some(t) => Some(table_settings(*t)),
        None => None,
    }
}

/// The call that builds the block table of contents under an id.
pub open spec fn block_call(id: Seq<char>) -> Seq<char> {
    "toc_maker.build_block(\""@ + id + "\")"@
}

/// The call that builds the wing table of contents under an id.
pub open spec fn wing_call(id: Seq<char>) -> Seq<char> {
    "toc_maker.build_wing(\""@ + id + "\")"@
}

/// The script with the configured ids: first every block call under the
/// id `tock` is rewritten, then every wing call under the id `tocw`.
pub open spec fn formatted_js(cfg: ConfigView, literal: Seq<char>) -> Seq<char> {
    replace_all(
        replace_all(
            literal,
            "toc_maker.build_block(\"tock\")"@,
            block_call(cfg.block_marker_id),
        ),
        "toc_maker.build_wing(\"tocw\")"@,
        wing_call(cfg.wing_marker_id),
    )
}

/// The line of the page head that loads the style sheet.
pub open spec fn style_link(base_url: Seq<char>) -> Seq<char> {
    "<link rel=\"stylesheet\" href=\""@ + base_url + "lib/toc.css\">"@
}

/// The line of the page head that loads the script.
pub open spec fn script_link(base_url: Seq<char>) -> Seq<char> {
    "<script src=\""@ + base_url + "lib/toc.js\"></script>"@
}

/// What is written to the page head: both lines where there is no head
/// yet, and else each line that the head does not hold already.
pub open spec fn head_text(existing: Option<Seq<char>>, base_url: Seq<char>) -> Seq<char> {
    match existing {
        None => style_link(base_url) + script_link(base_url),
        Some(head) => (if contains(head, style_link(base_url)) {
            Seq::<char>::empty()
        } else {
            style_link(base_url)
        }) + (if contains(head, script_link(base_url)) {
            Seq::<char>::empty()
        } else {
            script_link(base_url)
        }),
    }
}

/// The configuration of the assets.
pub struct Config {
    save_dir: String,
    block_marker_id: String,
    wing_marker_id: String,
    theme_dir: String,
    base_url: String,
}

impl View for Config {
    type V = ConfigView;

    closed spec fn view(&self) -> ConfigView {
        ConfigView {
            save_dir: self.save_dir@,
            block_marker_id: self.block_marker_id@,
            wing_marker_id: self.wing_marker_id@,
            theme_dir: self.theme_dir@,
            base_url: self.base_url@,
        }
    }
}

impl Config {
    /// Reads the configuration from the preprocessor's table, if it has
    /// one.
    pub fn new(table: Option<&toml::map::Map<String, toml::Value>>) -> (r: Result<
        Config,
        ConfigError,
    >)
        ensures
            match r {
                Ok(cfg) => configured(settings_of(table)) == Ok::<ConfigView, ConfigErrorView>(
                    cfg@,
                ),
                Err(e) => configured(settings_of(table)) == Err::<ConfigView, ConfigErrorView>(
                    e@,
                ),
            },
    {
        let mut save_dir = String::from_str("lib");
        let mut block_marker_id = String::from_str("tock");
        let mut wing_marker_id = String::from_str("tocw");
        let mut theme_dir = String::from_str("theme");
        let mut base_url = String::from_str("/");
        if let Some(cfg) = table {
            match get_value_to_str(cfg, "save_dir") {
                Some(Err(e)) => {
                    return Err(e);
                },
                Some(Ok(dir)) => {
                    save_dir = dir;
                },
                None => {},
            }
            match get_value_to_str(cfg, "block_marker_id") {
                Some(Err(e)) => {
                    return Err(e);
                },
                Some(Ok(id)) => {
                    block_marker_id = id;
                },
                None => {},
            }
            match get_value_to_str(cfg, "wing_marker_id") {
                Some(Err(e)) => {
                    return Err(e);
                },
                Some(Ok(id)) => {
                    wing_marker_id = id;
                },
                None => {},
            }
            match get_value_to_str(cfg, "theme_dir") {
                Some(Err(e)) => {
                    return Err(e);
                },
                Some(Ok(dir)) => {
                    theme_dir = dir;
                },
                None => {},
            }
            match get_value_to_str(cfg, "base_url") {
                Some(Err(e)) => {
                    return Err(e);
                },
                Some(Ok(url)) => {
                    base_url = url;
                },
                None => {},
            }
        }
        Ok(Config { save_dir, block_marker_id, wing_marker_id, theme_dir, base_url })
    }

    /// The directory of the assets, relative to the corpus source root.
    pub fn save_dir(&self) -> (r: &str)
        ensures
            r@ == self@.save_dir,
    {
        self.save_dir.as_str()
    }

    pub fn block_marker_id(&self) -> (r: &str)
        ensures
            r@ == self@.block_marker_id,
    {
        self.block_marker_id.as_str()
    }

    pub fn wing_marker_id(&self) -> (r: &str)
        ensures
            r@ == self@.wing_marker_id,
    {
        self.wing_marker_id.as_str()
    }

    /// The theme directory, relative to the book's root.
    pub fn theme_dir(&self) -> (r: &str)
        ensures
            r@ == self@.theme_dir,
    {
        self.theme_dir.as_str()
    }

    pub fn base_url(&self) -> (r: &str)
        ensures
            r@ == self@.base_url,
    {
        self.base_url.as_str()
    }

    /// Writes the configured ids into the script.
    pub fn format_js(&self, literal: &str) -> (r: String)
        ensures
            r@ == formatted_js(self@, literal@),
    {
        let mut block = String::from_str("toc_maker.build_block(\"");
        block.append(self.block_marker_id.as_str());
        block.append("\")");
        let mut wing = String::from_str("toc_maker.build_wing(\"");
        wing.append(self.wing_marker_id.as_str());
        wing.append("\")");
        let first = replace_text(literal, "toc_maker.build_block(\"tock\")", block.as_str());
        replace_text(first.as_str(), "toc_maker.build_wing(\"tocw\")", wing.as_str())
    }

    /// The two lines that the page head needs: the style sheet's, then
    /// the script's.
    pub fn head_links(&self) -> (r: (String, String))
        ensures
            r.0@ == style_link(self@.base_url),
            r.1@ == script_link(self@.base_url),
    {
        let mut style = String::from_str("<link rel=\"stylesheet\" href=\"");
        style.append(self.base_url.as_str());
        style.append("lib/toc.css\">");
        let mut script = String::from_str("<script src=\"");
        script.append(self.base_url.as_str());
        script.append("lib/toc.js\"></script>");
        (style, script)
    }

    /// What to write to the page head, given the head as it is now, if
    /// there is one: to a new head both lines, to an old one each line
    /// that it lacks.
    pub fn head_additions(&self, existing: Option<&str>) -> (r: String)
        ensures
            r@ == head_text(
                match existing {
                    Some(head) => Some(head@),
                    None => None,
                },
                self@.base_url,
            ),
    {
        let (style, script) = self.head_links();
        let mut out = String::new();
        match existing {
            None => {
                out.append(style.as_str());
                out.append(script.as_str());
                assert(out@ =~= style@ + script@);
            },
            Some(head) => {
                let ghost first = if contains(head@, style@) {
                    Seq::<char>::empty()
                } else {
                    style@
                };
                if !contains_text(head, style.as_str()) {
                    out.append(style.as_str());
                }
                assert(out@ =~= first);
                if !contains_text(head, script.as_str()) {
                    out.append(script.as_str());
                } else {
                    assert(out@ =~= first + Seq::<char>::empty());
                }
            },
        }
        out
    }
}

/// The maker of the table-of-contents assets.
pub struct TocJsMaker;

impl TocJsMaker {
    pub fn new() -> (r: Self) {
        Self
    }

    pub fn name(&self) -> (r: &'static str)
        ensures
            r@ == "tocjs"@,
    {
        "tocjs"
    }
}

} // verus!
