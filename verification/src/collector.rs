//! The collector: it takes the payload out of each document's first marker
//! and gathers the payloads under the documents' paths.

use vstd::prelude::*;
use vstd::utf8::encode_utf8;
use vstd::string::StringExecFns;
use crate::document::Document;
use crate::document::DocumentView;
use crate::document::corpus_view;
use crate::error::ConfigError;
use crate::error::ConfigErrorView;
use crate::error::EncodeError;
use crate::error::RunError;
use crate::marker::Grammar;
use crate::marker::MarkerPattern;
use crate::marker::MatchedSpan;
use crate::marker::span_fits;
use crate::marker::drain_span;
use crate::marker::first_marker;
use crate::marker::pattern_text;
use crate::marker::regex_compiles;
use crate::marker::bytes_without;
use crate::marker::without_span;
use crate::payload::Entries;
use crate::payload::TOML_NESTING_LIMIT;
use crate::nesting::measure_nesting;
use crate::nesting::toml_nesting;
use crate::payload::JsonObject;
use crate::payload::json_entries;
use crate::payload::json_error_text;
use crate::payload::json_object;
use crate::payload::json_parsed;
use crate::payload::json_string;
use crate::payload::json_text;
use crate::payload::object_insert;
use crate::payload::object_len;
use crate::payload::object_new;
use crate::payload::object_to_string;
use crate::payload::parse_json;
use crate::payload::parse_toml;
use crate::payload::parse_yaml;
use crate::payload::toml_error_text;
use crate::payload::toml_parsed;
use crate::payload::value_of_object;
use crate::payload::value_of_string;
use crate::payload::yaml_error_text;
use crate::payload::yaml_parsed;
use crate::settings::SettingView;
use crate::settings::flag_of;
use crate::settings::get_value_to_bool;
use crate::settings::get_value_to_str;
use crate::settings::table_settings;
use crate::settings::text_of;

verus! {

/// The format in which the literals of a run are written.
#[derive(Clone, Copy, Debug, PartialEq, Eq, Structural)]
pub enum DataType {
    Json,
    Yaml,
    Toml,
}

impl Default for DataType {
    fn default() -> (r: DataType)
        ensures
            r == DataType::Json,
    {
        DataType::Json
    }
}

/// `s` in lower case, as `str::to_lowercase` gives it.
pub uninterp spec fn lowercase_text(s: Seq<char>) -> Seq<char>;

/// `str::to_lowercase`. The contract only names the text that comes back,
/// which depends on the argument alone.
#[verifier::external_body]
fn lowercase(s: &str) -> (r: String)
    ensures
        r@ == lowercase_text(s@),
{
    s.to_lowercase()
}

/// The format that a word in lower case stands for: `yaml` and `yml` for
/// YAML, `toml` for TOML, and anything else for JSON.
pub open spec fn data_type_of(word: Seq<char>) -> DataType {
    if word == "yaml"@ || word == "yml"@ {
        DataType::Yaml
    } else if word == "toml"@ {
        DataType::Toml
    } else {
        DataType::Json
    }
}

impl DataType {
    /// The format that a word in lower case stands for.
    pub fn of_keyword(word: &str) -> (r: DataType)
        ensures
            r == data_type_of(word@),
    {
        let w = String::from_str(word);
        if w == String::from_str("yaml") || w == String::from_str("yml") {
            DataType::Yaml
        } else if w == String::from_str("toml") {
            DataType::Toml
        } else {
            DataType::Json
        }
    }

    /// The format that a configured word stands for, whatever its case.
    pub fn new(str: &str) -> (r: DataType)
        ensures
            r == data_type_of(lowercase_text(str@)),
    {
        let lowered = lowercase(str);
        DataType::of_keyword(lowered.as_str())
    }

    /// The format's name as messages write it.
    pub open spec fn label_text(self) -> Seq<char> {
        match self {
            DataType::Json => "Json"@,
            DataType::Yaml => "Yaml"@,
            DataType::Toml => "Toml"@,
        }
    }

    /// The format's name as messages write it.
    pub fn label(self) -> (r: &'static str)
        ensures
            r@ == self.label_text(),
    {
        match self {
            DataType::Json => "Json",
            DataType::Yaml => "Yaml",
            DataType::Toml => "Toml",
        }
    }
}

/// What a collector's configuration says.
pub struct ConfigView {
    pub input_type: DataType,
    pub marker: Seq<char>,
    pub save_path: Seq<char>,
    pub add_title: bool,
}

impl ConfigView {
    /// The pattern that finds this configuration's markers.
    pub open spec fn pattern(self) -> Seq<char> {
        pattern_text(self.marker, Grammar::Payload)
    }
}

/// The configuration of a collector without a table: JSON literals, the
/// marker `collect`, the file `collect.json`, titles added.
pub open spec fn default_view() -> ConfigView {
    ConfigView {
        input_type: DataType::Json,
        marker: "collect"@,
        save_path: "collect.json"@,
        add_title: true,
    }
}

/// What the table chooses, key by key, over the defaults; the first value
/// of a wrong type, in the order `input_type`, `marker`, `save_path`,
/// `add_title`, is the error.
pub open spec fn chosen(settings: Map<Seq<char>, SettingView>) -> Result<
    ConfigView,
    ConfigErrorView,
> {
    let input_type = text_of(settings, "input_type"@);
    let marker = text_of(settings, "marker"@);
    let save_path = text_of(settings, "save_path"@);
    let add_title = flag_of(settings, "add_title"@);
    if let Some(Err(e)) = input_type {
        Err(e)
    } else if let Some(Err(e)) = marker {
        Err(e)
    } else if let Some(Err(e)) = save_path {
        Err(e)
    } else if let Some(Err(e)) = add_title {
        Err(e)
    } else {
        Ok(
            ConfigView {
                input_type: match input_type {
                    Some(Ok(word)) => data_type_of(lowercase_text(word)),
                    _ => default_view().input_type,
                },
                marker: match marker {
                    Some(Ok(token)) => token,
                    _ => default_view().marker,
                },
                save_path: match save_path {
                    Some(Ok(path)) => path,
                    _ => default_view().save_path,
                },
                add_title: match add_title {
                    Some(Ok(flag)) => flag,
                    _ => default_view().add_title,
                },
            },
        )
    }
}

/// The configuration that a table gives, if it gives one: what the table
/// chooses, provided that a pattern can be compiled around the marker.
pub open spec fn configured(settings: Option<Map<Seq<char>, SettingView>>) -> Result<
    ConfigView,
    ConfigErrorView,
> {
    let choice = match settings {
        Some(s) => chosen(s),
        None => Ok(default_view()),
    };
    match choice {
        Ok(view) => if regex_compiles(view.pattern()) {
            Ok(view)
        } else {
            Err(ConfigErrorView::BadMarker { marker: view.marker })
        },
        Err(e) => Err(e),
    }
}

/// The settings of an optional table.
pub open spec fn settings_of(table: Option<&toml::map::Map<String, toml::Value>>) -> Option<
    Map<Seq<char>, SettingView>,
> {
    match table {
        Some(t) => Some(table_settings(*t)),
        None => None,
    }
}

/// The entries that a literal parses to in a format, if it parses to an
/// object. A TOML literal that nests deeper than the limit is not parsed.
pub open spec fn parsed_payload(input_type: DataType, literal: Seq<char>) -> Option<Entries> {
    match input_type {
        DataType::Json => json_parsed(literal),
        DataType::Yaml => yaml_parsed(literal),
        DataType::Toml => if toml_nesting(literal) <= TOML_NESTING_LIMIT {
            toml_parsed(literal)
        } else {
            None
        },
    }
}

/// What is said of a TOML literal that is not handed to the parser.
pub open spec fn too_deep_text() -> Seq<char> {
    "the literal nests too deeply"@
}

/// The payload of a text: what the literal of its first marker parses to.
/// A text without a marker has none, and so has one whose literal does not
/// parse.
pub open spec fn payload_of(cfg: ConfigView, text: Seq<char>) -> Option<Entries> {
    match first_marker(cfg.pattern(), text) {
        Some(span) => parsed_payload(cfg.input_type, span.literal),
        None => None,
    }
}

/// A text after collecting: without its first marker where that marker's
/// literal parses, and unchanged otherwise.
pub open spec fn drained(cfg: ConfigView, text: Seq<char>) -> Seq<char> {
    match first_marker(cfg.pattern(), text) {
        Some(span) => if parsed_payload(cfg.input_type, span.literal) is Some {
            without_span(text, span.start, span.end)
        } else {
            text
        },
        None => text,
    }
}

/// A literal that did not parse: the format tried, the name of the
/// document, and the parser's own words.
#[derive(Debug)]
pub struct ParseFailure {
    pub format: DataType,
    pub post: String,
    pub detail: String,
}

impl ParseFailure {
    pub open spec fn message_text(self) -> Seq<char> {
        "While parsing "@ + self.format.label_text() + " data from post "@ + self.post@
            + ", meets error: "@ + self.detail@
    }

    /// The sentence for the log.
    pub fn message(&self) -> (r: String)
        ensures
            r@ == self.message_text(),
    {
        let mut out = String::from_str("While parsing ");
        out.append(self.format.label());
        out.append(" data from post ");
        out.append(self.post.as_str());
        out.append(", meets error: ");
        out.append(self.detail.as_str());
        out
    }
}

/// What collecting found in a document.
#[derive(Debug)]
pub enum Collected {
    /// No marker.
    Nothing,
    /// A marker whose literal parsed to this payload.
    Payload(JsonObject),
    /// A marker whose literal did not parse.
    Malformed(ParseFailure),
}

/// Parses a literal in a format. The error holds the parser's words. A
/// TOML literal that nests deeper than the limit is not handed to the
/// parser: it does not parse.
pub fn parse_payload(input_type: DataType, literal: &str) -> (r: Result<JsonObject, String>)
    ensures
        match r {
            Ok(object) => parsed_payload(input_type, literal@) == Some(json_entries(object)),
            Err(_) => parsed_payload(input_type, literal@) is None,
        },
        input_type == DataType::Toml && toml_nesting(literal@) > TOML_NESTING_LIMIT ==> (r matches Err(
            detail,
        ) && detail@ == too_deep_text()),
{
    match input_type {
        DataType::Json => match parse_json(literal) {
            Ok(object) => Ok(object),
            Err(e) => Err(json_error_text(&e)),
        },
        DataType::Yaml => match parse_yaml(literal) {
            Ok(object) => Ok(object),
            Err(e) => Err(yaml_error_text(&e)),
        },
        DataType::Toml => if measure_nesting(literal) > TOML_NESTING_LIMIT {
            Err(String::from_str("the literal nests too deeply"))
        } else {
            match parse_toml(literal) {
                Ok(object) => Ok(object),
                Err(e) => Err(toml_error_text(&e)),
            }
        },
    }
}

/// Settles a marker once its literal was parsed. A payload is handed on
/// and the marker's span is removed from `content`; a parser's error
/// becomes a failure under the document's name, and `content` stays as it
/// was.
pub fn drain_if_parsed(
    content: &mut String,
    span: &MatchedSpan,
    parsed: Result<JsonObject, String>,
    format: DataType,
    name: &str,
) -> (r: Collected)
    requires
        span_fits(old(content)@, span.start as int, span.end as int),
    ensures
        match parsed {
            Ok(object) => {
                &&& r == Collected::Payload(object)
                &&& final(content)@ == without_span(
                    old(content)@,
                    span.start as int,
                    span.end as int,
                )
                &&& encode_utf8(final(content)@) == bytes_without(
                    old(content)@,
                    span.start as int,
                    span.end as int,
                )
            },
            Err(detail) => {
                &&& r matches Collected::Malformed(failure) && failure.format == format
                    && failure.post@ == name@ && failure.detail == detail
                &&& final(content)@ == old(content)@
            },
        },
{
    match parsed {
        Ok(object) => {
            drain_span(content, span.start, span.end);
            Collected::Payload(object)
        },
        Err(detail) => Collected::Malformed(
            ParseFailure { format, post: String::from_str(name), detail },
        ),
    }
}

/// The configuration of a collector, with the compiled pattern of its
/// marker.
pub struct Config {
    input_type: DataType,
    marker: String,
    save_path: String,
    add_title: bool,
    pattern: MarkerPattern,
}

impl View for Config {
    type V = ConfigView;

    closed spec fn view(&self) -> ConfigView {
        ConfigView {
            input_type: self.input_type,
            marker: self.marker@,
            save_path: self.save_path@,
            add_title: self.add_title,
        }
    }
}

impl Config {
    #[verifier::type_invariant]
    spec fn compiled(self) -> bool {
        self.pattern@ == pattern_text(self.marker@, Grammar::Payload)
    }

    /// Reads the configuration from the preprocessor's table, if it has
    /// one, and compiles the marker's pattern.
    pub fn new(table: Option<&toml::map::Map<String, toml::Value>>) -> (r: Result<
        Config,
        ConfigError,
    >)
        ensures
            match r {
                Ok(cfg) => configured(settings_of(table)) == Ok::<ConfigView, ConfigErrorView>(
                    cfg@,
                ),
                Err(e) => configured(settings_of(table)) == Err::<ConfigView, ConfigErrorView>(
                    e@,
                ),
            },
    {
        let mut input_type = DataType::Json;
        let mut marker = String::from_str("collect");
        let mut save_path = String::from_str("collect.json");
        let mut add_title = true;
        if let Some(cfg) = table {
            match get_value_to_str(cfg, "input_type") {
                Some(Err(e)) => {
                    return Err(e);
                },
                Some(Ok(word)) => {
                    input_type = DataType::new(word.as_str());
                },
                None => {},
            }
            match get_value_to_str(cfg, "marker") {
                Some(Err(e)) => {
                    return Err(e);
                },
                Some(Ok(token)) => {
                    marker = token;
                },
                None => {},
            }
            match get_value_to_str(cfg, "save_path") {
                Some(Err(e)) => {
                    return Err(e);
                },
                Some(Ok(path)) => {
                    save_path = path;
                },
                None => {},
            }
            match get_value_to_bool(cfg, "add_title") {
                Some(Err(e)) => {
                    return Err(e);
                },
                Some(Ok(flag)) => {
                    add_title = flag;
                },
                None => {},
            }
        }
        match MarkerPattern::compile(marker.as_str(), Grammar::Payload) {
            Ok(pattern) => Ok(Config { input_type, marker, save_path, add_title, pattern }),
            Err(e) => Err(e),
        }
    }

    /// The compiled pattern of the marker.
    pub fn regex(&self) -> (r: &MarkerPattern)
        ensures
            r@ == self@.pattern(),
    {
        proof {
            use_type_invariant(self);
        }
        &self.pattern
    }

    pub fn input_type(&self) -> (r: DataType)
        ensures
            r == self@.input_type,
    {
        self.input_type
    }

    pub fn marker(&self) -> (r: &str)
        ensures
            r@ == self@.marker,
    {
        self.marker.as_str()
    }

    /// Where the collected data goes, relative to the corpus source root.
    pub fn save_path(&self) -> (r: &str)
        ensures
            r@ == self@.save_path,
    {
        self.save_path.as_str()
    }

    pub fn add_title(&self) -> (r: bool)
        ensures
            r == self@.add_title,
    {
        self.add_title
    }

    /// Looks for the first marker of `content` and parses its literal. If
    /// the literal parses, the marker is removed from `content` and the
    /// payload is handed out. A literal that does not parse leaves
    /// `content` as it was, and so does a text without a marker.
    pub fn collect_and_drain(&self, content: &mut String, name: &str) -> (r: Collected)
        ensures
            final(content)@ == drained(self@, old(content)@),
            match first_marker(self@.pattern(), old(content)@) {
                None => r is Nothing && final(content)@ == old(content)@,
                Some(span) => match parsed_payload(self@.input_type, span.literal) {
                    Some(entries) => {
                        &&& span_fits(old(content)@, span.start, span.end)
                        &&& r matches Collected::Payload(object) && json_entries(object) == entries
                        &&& final(content)@ == without_span(old(content)@, span.start, span.end)
                        &&& encode_utf8(final(content)@) == bytes_without(
                            old(content)@,
                            span.start,
                            span.end,
                        )
                    },
                    None => {
                        &&& r matches Collected::Malformed(failure) && failure.format
                            == self@.input_type && failure.post@ == name@
                        &&& final(content)@ == old(content)@
                    },
                },
            },
    {
        proof {
            use_type_invariant(self);
        }
        match self.pattern.find_first(content.as_str()) {
            None => Collected::Nothing,
            Some(span) => {
                let parsed = parse_payload(self.input_type, span.literal.as_str());
                drain_if_parsed(content, &span, parsed, self.input_type, name)
            },
        }
    }
}

/// A payload as it enters the aggregate: with the document's name under
/// the key `title` where titles are added, in place of whatever the
/// payload held under that key.
pub open spec fn titled(entries: Entries, add_title: bool, name: Seq<char>) -> Entries {
    if add_title {
        entries.insert("title"@, json_string(name))
    } else {
        entries
    }
}

/// The aggregate after a document: with the document's titled payload
/// under the document's path if the document has a payload, and as it was
/// otherwise.
pub open spec fn gathered(cfg: ConfigView, before: Entries, doc: DocumentView) -> Entries {
    match payload_of(cfg, doc.content) {
        Some(entries) => before.insert(
            doc.path,
            json_object(titled(entries, cfg.add_title, doc.name)),
        ),
        None => before,
    }
}

/// The aggregate of a corpus: the documents gathered in order, starting
/// from nothing.
pub open spec fn gathered_all(cfg: ConfigView, docs: Seq<DocumentView>) -> Entries
    decreases docs.len(),
{
    if docs.len() == 0 {
        Map::empty()
    } else {
        gathered(cfg, gathered_all(cfg, docs.drop_last()), docs.last())
    }
}

/// A document after collecting: its text drained, the rest as it was.
pub open spec fn drained_doc(cfg: ConfigView, doc: DocumentView) -> DocumentView {
    DocumentView { path: doc.path, name: doc.name, content: drained(cfg, doc.content) }
}

/// The flat aggregate: under each document's path, the object of its
/// payload.
pub struct FlatAggregate {
    map: JsonObject,
}

impl View for FlatAggregate {
    type V = Entries;

    closed spec fn view(&self) -> Entries {
        json_entries(self.map)
    }
}

impl FlatAggregate {
    /// An aggregate without entries.
    pub fn new() -> (r: FlatAggregate)
        ensures
            r@ == Entries::empty(),
    {
        FlatAggregate { map: object_new() }
    }

    /// Puts a payload under a path, in place of what the path held.
    pub fn insert(&mut self, path: &str, payload: JsonObject)
        ensures
            final(self)@ == old(self)@.insert(path@, json_object(json_entries(payload))),
    {
        let value = value_of_object(payload);
        object_insert(&mut self.map, String::from_str(path), value);
    }

    /// Gathers a document's payload: the payload gets the document's name
    /// under the key `title` where titles are added, whatever it held
    /// there, and goes under the document's path.
    pub fn gather(&mut self, add_title: bool, path: &str, name: &str, payload: JsonObject)
        ensures
            final(self)@ == old(self)@.insert(
                path@,
                json_object(titled(json_entries(payload), add_title, name@)),
            ),
    {
        let mut payload = payload;
        if add_title {
            let title = value_of_string(String::from_str(name));
            object_insert(&mut payload, String::from_str("title"), title);
        }
        self.insert(path, payload);
    }

    /// The number of documents that have an entry.
    pub fn len(&self) -> (r: usize)
        ensures
            r == self@.len(),
            r == 0 <==> self@ == Entries::empty(),
    {
        object_len(&self.map)
    }

    /// The aggregate as a JSON object.
    pub fn as_object(&self) -> (r: &JsonObject)
        ensures
            json_entries(*r) == self@,
    {
        &self.map
    }

    /// The aggregate as JSON text, for an aggregate that has entries. An
    /// aggregate without entries is not written at all.
    pub fn render(&self) -> (r: Option<Result<String, EncodeError>>)
        ensures
            match r {
                None => self@ == Entries::empty(),
                Some(Ok(text)) => self@ != Entries::empty() && text@ == json_text(self@),
                Some(Err(_)) => false,
            },
    {
        if object_len(&self.map) > 0 {
            match object_to_string(&self.map) {
                Ok(text) => Some(Ok(text)),
                Err(_) => Some(Err(EncodeError {  })),
            }
        } else {
            None
        }
    }
}

/// Whether a text has a marker whose literal does not parse.
pub open spec fn malformed(cfg: ConfigView, text: Seq<char>) -> bool {
    first_marker(cfg.pattern(), text) is Some && payload_of(cfg, text) is None
}

/// The documents of a corpus whose marker's literal does not parse, in
/// order, each as its path and its name.
pub open spec fn malformed_all(cfg: ConfigView, docs: Seq<DocumentView>) -> Seq<
    (Seq<char>, Seq<char>),
>
    decreases docs.len(),
{
    if docs.len() == 0 {
        seq![]
    } else if malformed(cfg, docs.last().content) {
        malformed_all(cfg, docs.drop_last()).push((docs.last().path, docs.last().name))
    } else {
        malformed_all(cfg, docs.drop_last())
    }
}

/// A document whose literal did not parse: its path, and the failure,
/// which holds its name.
#[derive(Debug)]
pub struct FailedDocument {
    pub path: String,
    pub failure: ParseFailure,
}

impl FailedDocument {
    pub open spec fn message_text(self) -> Seq<char> {
        self.failure.message_text() + " (in "@ + self.path@ + ")"@
    }

    /// The sentence for the log: the failure's, then the path.
    pub fn message(&self) -> (r: String)
        ensures
            r@ == self.message_text(),
    {
        let mut out = self.failure.message();
        out.append(" (in ");
        out.append(self.path.as_str());
        out.append(")");
        out
    }
}

/// The paths and names in a list of failed documents, in order.
pub open spec fn failed_posts(failures: Seq<FailedDocument>) -> Seq<(Seq<char>, Seq<char>)> {
    Seq::new(failures.len(), |i: int| (failures[i].path@, failures[i].failure.post@))
}

/// Whether every failure of a list is one of this format.
pub open spec fn all_of_format(failures: Seq<FailedDocument>, format: DataType) -> bool {
    forall|i: int| 0 <= i < failures.len() ==> (#[trigger] failures[i]).failure.format == format
}

/// Collecting a second time changes nothing. Where collecting removed a
/// marker, this holds of every text that is then left without a marker
/// whose literal parses; where it removed none, it holds of every text.
pub proof fn lemma_collect_again(cfg: ConfigView, text: Seq<char>)
    ensures
        (payload_of(cfg, text) is Some ==> payload_of(cfg, drained(cfg, text)) is None)
            ==> drained(cfg, drained(cfg, text)) == drained(cfg, text),
{
}

/// A corpus without a payload gathers nothing.
pub proof fn lemma_nothing_to_gather(cfg: ConfigView, docs: Seq<DocumentView>)
    ensures
        (forall|i: int|
            0 <= i < docs.len() ==> payload_of(cfg, (#[trigger] docs[i]).content) is None)
            ==> gathered_all(cfg, docs) == Entries::empty(),
    decreases docs.len(),
{
    if docs.len() > 0 {
        lemma_nothing_to_gather(cfg, docs.drop_last());
        if forall|i: int|
            0 <= i < docs.len() ==> payload_of(cfg, (#[trigger] docs[i]).content) is None {
            assert forall|i: int| 0 <= i < docs.drop_last().len() implies payload_of(
                cfg,
                (#[trigger] docs.drop_last()[i]).content,
            ) is None by {
                assert(docs.drop_last()[i] == docs[i]);
            }
            assert(payload_of(cfg, docs[docs.len() - 1].content) is None);
        }
    }
}

/// What a run leaves to be done: the file to write, if any, and the
/// literals that did not parse.
#[derive(Debug)]
pub struct Report {
    /// Where the data goes, relative to the corpus source root.
    pub save_path: String,
    /// The collected data as JSON text; `None` where nothing was collected.
    pub data: Option<String>,
    /// The number of documents that the collected data holds.
    pub collected: usize,
    /// One entry for each document whose literal did not parse, with the
    /// document's path and name.
    pub failures: Vec<FailedDocument>,
}

/// The collector.
pub struct Collector;

impl Collector {
    pub fn new() -> (r: Self) {
        Self
    }

    pub fn name(&self) -> (r: &'static str)
        ensures
            r@ == "collector"@,
    {
        "collector"
    }

    /// Handles one document: drains its text and gathers its payload, or
    /// hands out the failure where its literal does not parse.
    pub fn visit(&self, cfg: &Config, aggregate: &mut FlatAggregate, doc: &mut Document) -> (r:
        Option<ParseFailure>)
        ensures
            final(doc)@ == drained_doc(cfg@, old(doc)@),
            final(aggregate)@ == gathered(cfg@, old(aggregate)@, old(doc)@),
            payload_of(cfg@, old(doc)@.content) is None ==> final(aggregate)@ == old(aggregate)@
                && final(doc)@ == old(doc)@,
            r is Some <==> malformed(cfg@, old(doc)@.content),
            r matches Some(failure) ==> failure.format == cfg@.input_type && failure.post@ == old(
                doc,
            )@.name,
    {
        match cfg.collect_and_drain(&mut doc.content, doc.name.as_str()) {
            Collected::Nothing => None,
            Collected::Payload(payload) => {
                aggregate.gather(cfg.add_title(), doc.path.as_str(), doc.name.as_str(), payload);
                None
            },
            Collected::Malformed(failure) => Some(failure),
        }
    }

    /// Handles a whole corpus: reads the configuration, visits every
    /// document in order, and encodes what was gathered.
    pub fn run(&self, table: Option<&toml::map::Map<String, toml::Value>>, docs: &mut Vec<
        Document,
    >) -> (r: Result<Report, RunError>)
        ensures
            match configured(settings_of(table)) {
                Err(e) => {
                    &&& final(docs)@ == old(docs)@
                    &&& r matches Err(RunError::Config(err)) && err@ == e
                },
                Ok(cfg) => {
                    let before = corpus_view(old(docs)@);
                    &&& corpus_view(final(docs)@) == Seq::new(
                        before.len(),
                        |i: int| drained_doc(cfg, before[i]),
                    )
                    &&& (forall|i: int|
                        0 <= i < before.len() ==> payload_of(cfg, (#[trigger] before[i]).content)
                            is None) ==> (r matches Ok(report) && report.data is None)
                    &&& match r {
                        Ok(report) => {
                            &&& report.save_path@ == cfg.save_path
                            &&& report.collected == gathered_all(cfg, before).len()
                            &&& failed_posts(report.failures@) == malformed_all(cfg, before)
                            &&& all_of_format(report.failures@, cfg.input_type)
                            &&& match report.data {
                                Some(text) => gathered_all(cfg, before) != Entries::empty()
                                    && text@ == json_text(gathered_all(cfg, before)),
                                None => gathered_all(cfg, before) == Entries::empty(),
                            }
                        },
                        Err(_) => false,
                    }
                },
            },
    {
        let cfg = match Config::new(table) {
            Ok(cfg) => cfg,
            Err(e) => {
                return Err(RunError::Config(e));
            },
        };
        let ghost before = corpus_view(docs@);
        let mut aggregate = FlatAggregate::new();
        let mut failures: Vec<FailedDocument> = Vec::new();
        let mut i: usize = 0;
        while i < docs.len()
            invariant
                i <= docs.len(),
                docs.len() == before.len(),
                before == corpus_view(old(docs)@),
                forall|j: int|
                    0 <= j < i ==> (#[trigger] docs@[j])@ == drained_doc(cfg@, before[j]),
                forall|j: int| i <= j < docs.len() ==> (#[trigger] docs@[j])@ == before[j],
                aggregate@ == gathered_all(cfg@, before.take(i as int)),
                failed_posts(failures@) == malformed_all(cfg@, before.take(i as int)),
                all_of_format(failures@, cfg@.input_type),
            decreases docs.len() - i,
        {
            proof {
                assert(before.take(i + 1).drop_last() =~= before.take(i as int));
            }
            let ghost failed_before = failed_posts(failures@);
            let path = docs[i].path.clone();
            match self.visit(&cfg, &mut aggregate, &mut docs[i]) {
                Some(failure) => {
                    failures.push(FailedDocument { path, failure });
                    assert(failed_posts(failures@) =~= failed_before.push(
                        (before[i as int].path, before[i as int].name),
                    ));
                },
                None => {},
            }
            i += 1;
        }
        proof {
            assert(before.take(i as int) =~= before);
            assert(corpus_view(docs@) =~= Seq::new(
                before.len(),
                |i: int| drained_doc(cfg@, before[i]),
            ));
            lemma_nothing_to_gather(cfg@, before);
        }
        let data = match aggregate.render() {
            None => None,
            Some(Ok(text)) => Some(text),
            Some(Err(e)) => {
                return Err(RunError::Encode(e));
            },
        };
        let collected = aggregate.len();
        Ok(Report { save_path: String::from_str(cfg.save_path()), data, collected, failures })
    }
}

} // verus!
