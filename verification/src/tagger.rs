//! The tagger: it reads the tag list out of each document's first marker,
//! removes the marker, and enters the document in the tag aggregate.

use vstd::prelude::*;
use vstd::utf8::encode_utf8;
use vstd::string::StringExecFns;
use crate::document::Document;
use crate::document::DocumentView;
use crate::document::corpus_view;
use crate::error::ConfigError;
use crate::error::ConfigErrorView;
use crate::error::RunError;
use crate::marker::Grammar;
use crate::marker::MarkerPattern;
use crate::marker::MatchedSpan;
use crate::marker::span_fits;
use crate::marker::drain_span;
use crate::marker::first_marker;
use crate::marker::pattern_text;
use crate::marker::regex_compiles;
use crate::marker::bytes_without;
use crate::marker::without_span;
use crate::settings::SettingView;
use crate::settings::get_value_to_str;
use crate::settings::table_settings;
use crate::settings::text_of;
use crate::tag_index::TagBuckets;
use crate::tag_index::TagIndex;
use crate::tag_index::TagIndexView;
use crate::tag_index::TagLists;
use crate::tag_index::add_posts;
use crate::tag_index::buckets_object;
use crate::tag_index::lists_object;
use crate::payload::json_text;
use crate::tag_index::lemma_add_posts;
use crate::tag_index::lemma_tagged_in_step;
use crate::tags::split_tags;
use crate::tags::tag_list;

verus! {

/// What a tagger's configuration says.
pub struct ConfigView {
    pub marker: Seq<char>,
    pub tag2posts_path: Seq<char>,
    pub post2tags_path: Seq<char>,
    pub split: Seq<char>,
}

impl ConfigView {
    /// The pattern that finds this configuration's markers.
    pub open spec fn pattern(self) -> Seq<char> {
        pattern_text(self.marker, Grammar::Tags)
    }
}

/// The configuration of a tagger without a table: the marker `tags`, the
/// files `tag2posts.json` and `post2tags.json`, the delimiter `;`.
pub open spec fn default_view() -> ConfigView {
    ConfigView {
        marker: "tags"@,
        tag2posts_path: "tag2posts.json"@,
        post2tags_path: "post2tags.json"@,
        split: ";"@,
    }
}

/// What the table chooses, key by key, over the defaults; the first value
/// that is not a string, in the order `marker`, `tag2posts_path`,
/// `post2tags_path`, `split`, is the error.
pub open spec fn chosen(settings: Map<Seq<char>, SettingView>) -> Result<
    ConfigView,
    ConfigErrorView,
> {
    let marker = text_of(settings, "marker"@);
    let tag2posts_path = text_of(settings, "tag2posts_path"@);
    let post2tags_path = text_of(settings, "post2tags_path"@);
    let split = text_of(settings, "split"@);
    if let Some(Err(e)) = marker {
        Err(e)
    } else if let Some(Err(e)) = tag2posts_path {
        Err(e)
    } else if let Some(Err(e)) = post2tags_path {
        Err(e)
    } else if let Some(Err(e)) = split {
        Err(e)
    } else {
        Ok(
            ConfigView {
                marker: match marker {
                    Some(Ok(token)) => token,
                    _ => default_view().marker,
                },
                tag2posts_path: match tag2posts_path {
                    Some(Ok(path)) => path,
                    _ => default_view().tag2posts_path,
                },
                post2tags_path: match post2tags_path {
                    Some(Ok(path)) => path,
                    _ => default_view().post2tags_path,
                },
                split: match split {
                    Some(Ok(delim)) => delim,
                    _ => default_view().split,
                },
            },
        )
    }
}

/// The configuration that a table gives, if it gives one: what the table
/// chooses, provided that a pattern can be compiled around the marker.
pub open spec fn configured(settings: Option<Map<Seq<char>, SettingView>>) -> Result<
    ConfigView,
    ConfigErrorView,
> {
    let choice = match settings {
        Some(s) => chosen(s),
        None => Ok(default_view()),
    };
    match choice {
        Ok(view) => if regex_compiles(view.pattern()) {
            Ok(view)
        } else {
            Err(ConfigErrorView::BadMarker { marker: view.marker })
        },
        Err(e) => Err(e),
    }
}

/// The settings of an optional table.
pub open spec fn settings_of(table: Option<&toml::map::Map<String, toml::Value>>) -> Option<
    Map<Seq<char>, SettingView>,
> {
    match table {
        Some(t) => Some(table_settings(*t)),
        None => None,
    }
}

/// The tag list of a text: that of the literal of its first marker. A
/// text without a marker has none; a marker whose literal holds no tag
/// gives the empty list.
pub open spec fn tags_of(cfg: ConfigView, text: Seq<char>) -> Option<Seq<Seq<char>>> {
    match first_marker(cfg.pattern(), text) {
        Some(span) => Some(tag_list(span.literal, cfg.split)),
        None => None,
    }
}

/// A text after tagging: without its first marker, if it has one.
pub open spec fn drained(cfg: ConfigView, text: Seq<char>) -> Seq<char> {
    match first_marker(cfg.pattern(), text) {
        Some(span) => without_span(text, span.start, span.end),
        None => text,
    }
}

/// A document after tagging: its text drained, the rest as it was.
pub open spec fn drained_doc(cfg: ConfigView, doc: DocumentView) -> DocumentView {
    DocumentView { path: doc.path, name: doc.name, content: drained(cfg, doc.content) }
}

/// The aggregate after a document: the document entered with its tag
/// list if it has a marker, and the aggregate as it was otherwise.
pub open spec fn indexed(cfg: ConfigView, before: TagIndexView, doc: DocumentView) -> TagIndexView {
    match tags_of(cfg, doc.content) {
        Some(tags) => before.tagged(doc.name, doc.path, tags),
        None => before,
    }
}

/// The aggregate of a corpus: the documents entered in order, starting
/// from nothing.
pub open spec fn indexed_all(cfg: ConfigView, docs: Seq<DocumentView>) -> TagIndexView
    decreases docs.len(),
{
    if docs.len() == 0 {
        TagIndexView::empty()
    } else {
        indexed(cfg, indexed_all(cfg, docs.drop_last()), docs.last())
    }
}

/// Tagging a second time changes nothing in the text. Where tagging
/// removed a marker, this holds of every text that is then left without
/// a marker; where it removed none, it holds of every text.
pub proof fn lemma_tag_again(cfg: ConfigView, text: Seq<char>)
    ensures
        (first_marker(cfg.pattern(), text) is Some ==> first_marker(
            cfg.pattern(),
            drained(cfg, text),
        ) is None) ==> drained(cfg, drained(cfg, text)) == drained(cfg, text),
{
}

/// A corpus without a marker leaves the aggregate empty.
pub proof fn lemma_nothing_to_index(cfg: ConfigView, docs: Seq<DocumentView>)
    ensures
        (forall|i: int|
            0 <= i < docs.len() ==> tags_of(cfg, (#[trigger] docs[i]).content) is None)
            ==> indexed_all(cfg, docs) == TagIndexView::empty(),
    decreases docs.len(),
{
    if docs.len() > 0 {
        lemma_nothing_to_index(cfg, docs.drop_last());
        if forall|i: int| 0 <= i < docs.len() ==> tags_of(cfg, (#[trigger] docs[i]).content) is None {
            assert forall|i: int| 0 <= i < docs.drop_last().len() implies tags_of(
                cfg,
                (#[trigger] docs.drop_last()[i]).content,
            ) is None by {
                assert(docs.drop_last()[i] == docs[i]);
            }
            assert(tags_of(cfg, docs[docs.len() - 1].content) is None);
        }
    }
}

/// No two documents of the corpus share a path.
pub open spec fn distinct_paths(docs: Seq<DocumentView>) -> bool {
    forall|i: int, j: int| 0 <= i < j < docs.len() ==> docs[i].path != docs[j].path
}

/// Each document with a marker is listed under its path with its own tag
/// list, and the bucket of each of its tags holds its name and path.
pub open spec fn documents_are_listed(
    cfg: ConfigView,
    docs: Seq<DocumentView>,
    index: TagIndexView,
) -> bool {
    forall|i: int|
        0 <= i < docs.len() && tags_of(cfg, (#[trigger] docs[i]).content) is Some ==> {
            let tags = tags_of(cfg, docs[i].content)->0;
            &&& index.post2tags.contains_key(docs[i].path)
            &&& index.post2tags[docs[i].path] == tags
            &&& forall|k: int|
                0 <= k < tags.len() ==> index.tag2posts.contains_key(#[trigger] tags[k])
                    && index.tag2posts[tags[k]].contains((docs[i].name, docs[i].path))
        }
}

/// Each listed path is the path of a document with a marker.
pub open spec fn lists_are_documents(
    cfg: ConfigView,
    docs: Seq<DocumentView>,
    index: TagIndexView,
) -> bool {
    forall|path: Seq<char>| #[trigger]
        index.post2tags.contains_key(path) ==> exists|i: int|
            0 <= i < docs.len() && (#[trigger] docs[i]).path == path && tags_of(
                cfg,
                docs[i].content,
            ) is Some
}

/// Each pair in a tag's bucket is the name and the path of a document
/// that is listed under its path with a tag list that holds the tag.
pub open spec fn buckets_are_documents(
    cfg: ConfigView,
    docs: Seq<DocumentView>,
    index: TagIndexView,
) -> bool {
    forall|tag: Seq<char>, j: int|
        index.tag2posts.contains_key(tag) && 0 <= j < index.tag2posts[tag].len() ==> exists|
            i: int,
        |
            0 <= i < docs.len() && ((#[trigger] docs[i]).name, docs[i].path)
                == #[trigger] index.tag2posts[tag][j] && index.post2tags.contains_key(
                docs[i].path,
            ) && index.post2tags[docs[i].path].contains(tag)
}

/// The two directions of the tag aggregate agree. In the aggregate of a
/// corpus whose paths are distinct, each document with a marker is listed
/// under its path with its tag list, and its name and path are in the
/// bucket of each tag of that list; no other path is listed; and each
/// pair in a tag's bucket is the name and path of a document whose own
/// tag list holds the tag.
pub proof fn lemma_tag_index_symmetry(cfg: ConfigView, docs: Seq<DocumentView>)
    requires
        distinct_paths(docs),
    ensures
        documents_are_listed(cfg, docs, indexed_all(cfg, docs)),
        lists_are_documents(cfg, docs, indexed_all(cfg, docs)),
        buckets_are_documents(cfg, docs, indexed_all(cfg, docs)),
    decreases docs.len(),
{
    let after = indexed_all(cfg, docs);
    if docs.len() > 0 {
        let front = docs.drop_last();
        let last = docs.len() - 1;
        let d = docs[last];
        let before = indexed_all(cfg, front);
        assert(distinct_paths(front)) by {
            assert forall|i: int, j: int| 0 <= i < j < front.len() implies front[i].path
                != front[j].path by {
                assert(front[i] == docs[i] && front[j] == docs[j]);
            }
        }
        lemma_tag_index_symmetry(cfg, front);
        assert(after == indexed(cfg, before, d));
        match tags_of(cfg, d.content) {
            None => {
                assert(after == before);
                assert forall|i: int|
                    0 <= i < docs.len() && tags_of(cfg, (#[trigger] docs[i]).content)
                        is Some implies {
                    let tags = tags_of(cfg, docs[i].content)->0;
                    &&& after.post2tags.contains_key(docs[i].path)
                    &&& after.post2tags[docs[i].path] == tags
                    &&& forall|k: int|
                        0 <= k < tags.len() ==> after.tag2posts.contains_key(#[trigger] tags[k])
                            && after.tag2posts[tags[k]].contains((docs[i].name, docs[i].path))
                } by {
                    assert(i < last);
                    assert(front[i] == docs[i]);
                }
                assert forall|path: Seq<char>| #[trigger]
                    after.post2tags.contains_key(path) implies exists|i: int|
                    0 <= i < docs.len() && (#[trigger] docs[i]).path == path && tags_of(
                        cfg,
                        docs[i].content,
                    ) is Some by {
                    let w = choose|i: int|
                        0 <= i < front.len() && (#[trigger] front[i]).path == path && tags_of(
                            cfg,
                            front[i].content,
                        ) is Some;
                    assert(docs[w] == front[w]);
                }
                assert forall|tag: Seq<char>, j: int|
                    after.tag2posts.contains_key(tag) && 0 <= j
                        < after.tag2posts[tag].len() implies exists|i: int|
                    0 <= i < docs.len() && ((#[trigger] docs[i]).name, docs[i].path)
                        == #[trigger] after.tag2posts[tag][j] && after.post2tags.contains_key(
                        docs[i].path,
                    ) && after.post2tags[docs[i].path].contains(tag) by {
                    let w = choose|i: int|
                        0 <= i < front.len() && ((#[trigger] front[i]).name, front[i].path)
                            == before.tag2posts[tag][j] && before.post2tags.contains_key(
                            front[i].path,
                        ) && before.post2tags[front[i].path].contains(tag);
                    assert(docs[w] == front[w]);
                }
            },
            Some(tags) => {
                let post = (d.name, d.path);
                lemma_add_posts(before.tag2posts, tags, post);
                assert(after.tag2posts == add_posts(before.tag2posts, tags, post));
                assert(after.post2tags == before.post2tags.insert(d.path, tags));
                assert forall|i: int|
                    0 <= i < docs.len() && tags_of(cfg, (#[trigger] docs[i]).content)
                        is Some implies {
                    let own = tags_of(cfg, docs[i].content)->0;
                    &&& after.post2tags.contains_key(docs[i].path)
                    &&& after.post2tags[docs[i].path] == own
                    &&& forall|k: int|
                        0 <= k < own.len() ==> after.tag2posts.contains_key(#[trigger] own[k])
                            && after.tag2posts[own[k]].contains((docs[i].name, docs[i].path))
                } by {
                    let own = tags_of(cfg, docs[i].content)->0;
                    if i < last {
                        assert(front[i] == docs[i]);
                        assert(docs[i].path != docs[last].path);
                        assert forall|k: int| 0 <= k < own.len() implies after.tag2posts.contains_key(
                            #[trigger] own[k],
                        ) && after.tag2posts[own[k]].contains((docs[i].name, docs[i].path)) by {
                            let t = own[k];
                            let pair = (docs[i].name, docs[i].path);
                            assert(before.tag2posts.contains_key(t));
                            assert(before.tag2posts[t].contains(pair));
                            let w = choose|w: int|
                                0 <= w < before.tag2posts[t].len() && before.tag2posts[t][w]
                                    == pair;
                            assert(after.tag2posts[t].subrange(
                                0,
                                before.tag2posts[t].len() as int,
                            )[w] == pair);
                            assert(after.tag2posts[t][w] == pair);
                        }
                    }
                }
                assert forall|path: Seq<char>| #[trigger]
                    after.post2tags.contains_key(path) implies exists|i: int|
                    0 <= i < docs.len() && (#[trigger] docs[i]).path == path && tags_of(
                        cfg,
                        docs[i].content,
                    ) is Some by {
                    if path == d.path {
                        assert(docs[last].path == path);
                    } else {
                        assert(before.post2tags.contains_key(path));
                        let w = choose|i: int|
                            0 <= i < front.len() && (#[trigger] front[i]).path == path && tags_of(
                                cfg,
                                front[i].content,
                            ) is Some;
                        assert(docs[w] == front[w]);
                    }
                }
                assert forall|tag: Seq<char>, j: int|
                    after.tag2posts.contains_key(tag) && 0 <= j
                        < after.tag2posts[tag].len() implies exists|i: int|
                    0 <= i < docs.len() && ((#[trigger] docs[i]).name, docs[i].path)
                        == #[trigger] after.tag2posts[tag][j] && after.post2tags.contains_key(
                        docs[i].path,
                    ) && after.post2tags[docs[i].path].contains(tag) by {
                    if before.tag2posts.contains_key(tag) && j < before.tag2posts[tag].len() {
                        assert(after.tag2posts[tag].subrange(
                            0,
                            before.tag2posts[tag].len() as int,
                        )[j] == before.tag2posts[tag][j]);
                        let w = choose|i: int|
                            0 <= i < front.len() && ((#[trigger] front[i]).name, front[i].path)
                                == before.tag2posts[tag][j] && before.post2tags.contains_key(
                                front[i].path,
                            ) && before.post2tags[front[i].path].contains(tag);
                        assert(docs[w] == front[w]);
                        assert(docs[w].path != docs[last].path);
                    } else {
                        assert(add_posts(before.tag2posts, tags, post)[tag][j]
                            == after.tag2posts[tag][j]);
                        assert(after.tag2posts[tag][j] == post && tags.contains(tag));
                        assert((docs[last].name, docs[last].path) == post);
                    }
                }
            },
        }
    }
}

/// In the aggregate of a corpus whose paths are distinct, the two
/// directions are in step: no bucket is empty, every post of a bucket is
/// a listed path, and the bucket of a tag lists a path as often as the
/// path's tag list holds the tag.
pub proof fn lemma_corpus_in_step(cfg: ConfigView, docs: Seq<DocumentView>)
    requires
        distinct_paths(docs),
    ensures
        indexed_all(cfg, docs).in_step(),
    decreases docs.len(),
{
    if docs.len() > 0 {
        let front = docs.drop_last();
        let last = docs.len() - 1;
        let d = docs[last];
        let before = indexed_all(cfg, front);
        assert(distinct_paths(front)) by {
            assert forall|i: int, j: int| 0 <= i < j < front.len() implies front[i].path
                != front[j].path by {
                assert(front[i] == docs[i] && front[j] == docs[j]);
            }
        }
        lemma_corpus_in_step(cfg, front);
        lemma_tag_index_symmetry(cfg, front);
        if let Some(tags) = tags_of(cfg, d.content) {
            if before.post2tags.contains_key(d.path) {
                let w = choose|i: int|
                    0 <= i < front.len() && (#[trigger] front[i]).path == d.path && tags_of(
                        cfg,
                        front[i].content,
                    ) is Some;
                assert(docs[w] == front[w]);
                assert(docs[w].path != docs[last].path);
            }
            lemma_tagged_in_step(before, d.name, d.path, tags);
        }
    }
}

/// The configuration of a tagger, with the compiled pattern of its
/// marker.
pub struct Config {
    marker: String,
    tag2posts_path: String,
    post2tags_path: String,
    split: String,
    pattern: MarkerPattern,
}

impl View for Config {
    type V = ConfigView;

    closed spec fn view(&self) -> ConfigView {
        ConfigView {
            marker: self.marker@,
            tag2posts_path: self.tag2posts_path@,
            post2tags_path: self.post2tags_path@,
            split: self.split@,
        }
    }
}

impl Config {
    #[verifier::type_invariant]
    spec fn compiled(self) -> bool {
        self.pattern@ == pattern_text(self.marker@, Grammar::Tags)
    }

    /// Reads the configuration from the preprocessor's table, if it has
    /// one, and compiles the marker's pattern.
    pub fn new(table: Option<&toml::map::Map<String, toml::Value>>) -> (r: Result<
        Config,
        ConfigError,
    >)
        ensures
            match r {
                Ok(cfg) => configured(settings_of(table)) == Ok::<ConfigView, ConfigErrorView>(
                    cfg@,
                ),
                Err(e) => configured(settings_of(table)) == Err::<ConfigView, ConfigErrorView>(
                    e@,
                ),
            },
    {
        let mut marker = String::from_str("tags");
        let mut tag2posts_path = String::from_str("tag2posts.json");
        let mut post2tags_path = String::from_str("post2tags.json");
        let mut split = String::from_str(";");
        if let Some(cfg) = table {
            match get_value_to_str(cfg, "marker") {
                Some(Err(e)) => {
                    return Err(e);
                },
                Some(Ok(token)) => {
                    marker = token;
                },
                None => {},
            }
            match get_value_to_str(cfg, "tag2posts_path") {
                Some(Err(e)) => {
                    return Err(e);
                },
                Some(Ok(path)) => {
                    tag2posts_path = path;
                },
                None => {},
            }
            match get_value_to_str(cfg, "post2tags_path") {
                Some(Err(e)) => {
                    return Err(e);
                },
                Some(Ok(path)) => {
                    post2tags_path = path;
                },
                None => {},
            }
            match get_value_to_str(cfg, "split") {
                Some(Err(e)) => {
                    return Err(e);
                },
                Some(Ok(delim)) => {
                    split = delim;
                },
                None => {},
            }
        }
        match MarkerPattern::compile(marker.as_str(), Grammar::Tags) {
            Ok(pattern) => Ok(Config { marker, tag2posts_path, post2tags_path, split, pattern }),
            Err(e) => Err(e),
        }
    }

    /// The compiled pattern of the marker.
    pub fn regex(&self) -> (r: &MarkerPattern)
        ensures
            r@ == self@.pattern(),
    {
        proof {
            use_type_invariant(self);
        }
        &self.pattern
    }

    pub fn marker(&self) -> (r: &str)
        ensures
            r@ == self@.marker,
    {
        self.marker.as_str()
    }

    /// Where the tag-to-posts data goes, relative to the corpus source
    /// root.
    pub fn tag2posts_path(&self) -> (r: &str)
        ensures
            r@ == self@.tag2posts_path,
    {
        self.tag2posts_path.as_str()
    }

    /// Where the path-to-tags data goes, relative to the corpus source
    /// root.
    pub fn post2tags_path(&self) -> (r: &str)
        ensures
            r@ == self@.post2tags_path,
    {
        self.post2tags_path.as_str()
    }

    pub fn split(&self) -> (r: &str)
        ensures
            r@ == self@.split,
    {
        self.split.as_str()
    }

    /// Looks for the first marker of `content`. If there is one, its
    /// literal is cut into tags, the document is entered in the aggregate
    /// under `path` with these tags, and the marker is removed from
    /// `content`. A text without a marker changes nothing.
    pub fn collect_and_drain(
        &self,
        content: &mut String,
        name: &str,
        path: String,
        index: &mut TagIndex,
    )
        ensures
            final(content)@ == drained(self@, old(content)@),
            final(index)@ == indexed(
                self@,
                old(index)@,
                (DocumentView { path: path@, name: name@, content: old(content)@ }),
            ),
            old(index)@.in_step() && !old(index)@.post2tags.contains_key(path@) ==>
                final(index)@.in_step(),
            match first_marker(self@.pattern(), old(content)@) {
                None => final(content)@ == old(content)@ && final(index)@ == old(index)@,
                Some(span) => {
                    &&& span_fits(old(content)@, span.start, span.end)
                    &&& final(content)@ == without_span(old(content)@, span.start, span.end)
                    &&& encode_utf8(final(content)@) == bytes_without(
                        old(content)@,
                        span.start,
                        span.end,
                    )
                    &&& final(index)@ == old(index)@.tagged(
                        name@,
                        path@,
                        tag_list(span.literal, self@.split),
                    )
                },
            },
    {
        proof {
            use_type_invariant(self);
        }
        match self.pattern.find_first(content.as_str()) {
            None => {},
            Some(span) => {
                self.tag_and_drain(content, name, path, index, &span);
            },
        }
    }

    /// Settles a marker: its literal is cut into tags at the configured
    /// delimiter, the document is entered in the aggregate under `path`
    /// with these tags, and the marker's span is removed from `content`.
    pub fn tag_and_drain(
        &self,
        content: &mut String,
        name: &str,
        path: String,
        index: &mut TagIndex,
        span: &MatchedSpan,
    )
        requires
            span_fits(old(content)@, span.start as int, span.end as int),
        ensures
            final(content)@ == without_span(old(content)@, span.start as int, span.end as int),
            encode_utf8(final(content)@) == bytes_without(
                old(content)@,
                span.start as int,
                span.end as int,
            ),
            final(index)@ == old(index)@.tagged(name@, path@, tag_list(span.literal@, self@.split)),
            old(index)@.in_step() && !old(index)@.post2tags.contains_key(path@) ==>
                final(index)@.in_step(),
    {
        let tags = split_tags(span.literal.as_str(), self.split.as_str());
        index.add(name, path, tags);
        drain_span(content, span.start, span.end);
    }
}

/// What a run leaves to be done: the aggregate, and for each direction
/// the file to write, if any.
pub struct Report {
    pub index: TagIndex,
    /// Where the tag-to-posts data goes, relative to the corpus source
    /// root.
    pub tag2posts_path: String,
    /// The tag-to-posts data as JSON text, the tags in sorted order;
    /// `None` where no tag was found.
    pub tag2posts: Option<String>,
    /// Where the path-to-tags data goes, relative to the corpus source
    /// root.
    pub post2tags_path: String,
    /// The path-to-tags data as JSON text, the paths in sorted order;
    /// `None` where no marker was found.
    pub post2tags: Option<String>,
}

/// The tagger.
pub struct Tagger;

impl Tagger {
    pub fn new() -> (r: Self) {
        Self
    }

    pub fn name(&self) -> (r: &'static str)
        ensures
            r@ == "tagger"@,
    {
        "tagger"
    }

    /// Handles one document: enters it in the aggregate and drains its
    /// text.
    pub fn visit(&self, cfg: &Config, index: &mut TagIndex, doc: &mut Document)
        ensures
            final(doc)@ == drained_doc(cfg@, old(doc)@),
            final(index)@ == indexed(cfg@, old(index)@, old(doc)@),
            old(index)@.in_step() && !old(index)@.post2tags.contains_key(old(doc)@.path) ==>
                final(index)@.in_step(),
    {
        let path = doc.path.clone();
        cfg.collect_and_drain(&mut doc.content, doc.name.as_str(), path, index);
    }

    /// Handles a whole corpus: reads the configuration, visits every
    /// document in order, and encodes both directions of the aggregate.
    pub fn run(&self, table: Option<&toml::map::Map<String, toml::Value>>, docs: &mut Vec<
        Document,
    >) -> (r: Result<Report, RunError>)
        ensures
            match configured(settings_of(table)) {
                Err(e) => {
                    &&& final(docs)@ == old(docs)@
                    &&& r matches Err(RunError::Config(err)) && err@ == e
                },
                Ok(cfg) => {
                    let before = corpus_view(old(docs)@);
                    let all = indexed_all(cfg, before);
                    &&& corpus_view(final(docs)@) == Seq::new(
                        before.len(),
                        |i: int| drained_doc(cfg, before[i]),
                    )
                    &&& (forall|i: int|
                        0 <= i < before.len() ==> tags_of(cfg, (#[trigger] before[i]).content)
                            is None) ==> (r matches Ok(report) && report.tag2posts is None
                        && report.post2tags is None)
                    &&& distinct_paths(before) ==> all.in_step()
                    &&& match r {
                        Ok(report) => {
                            &&& report.index@ == all
                            &&& report.tag2posts_path@ == cfg.tag2posts_path
                            &&& report.post2tags_path@ == cfg.post2tags_path
                            &&& match report.tag2posts {
                                Some(text) => all.tag2posts != TagBuckets::empty() && text@
                                    == json_text(buckets_object(all.tag2posts)),
                                None => all.tag2posts == TagBuckets::empty(),
                            }
                            &&& match report.post2tags {
                                Some(text) => all.post2tags != TagLists::empty() && text@
                                    == json_text(lists_object(all.post2tags)),
                                None => all.post2tags == TagLists::empty(),
                            }
                        },
                        Err(_) => false,
                    }
                },
            },
    {
        let cfg = match Config::new(table) {
            Ok(cfg) => cfg,
            Err(e) => {
                return Err(RunError::Config(e));
            },
        };
        let ghost before = corpus_view(docs@);
        let mut index = TagIndex::new();
        let mut i: usize = 0;
        while i < docs.len()
            invariant
                i <= docs.len(),
                docs.len() == before.len(),
                before == corpus_view(old(docs)@),
                forall|j: int|
                    0 <= j < i ==> (#[trigger] docs@[j])@ == drained_doc(cfg@, before[j]),
                forall|j: int| i <= j < docs.len() ==> (#[trigger] docs@[j])@ == before[j],
                index@ == indexed_all(cfg@, before.take(i as int)),
            decreases docs.len() - i,
        {
            proof {
                assert(before.take(i + 1).drop_last() =~= before.take(i as int));
            }
            self.visit(&cfg, &mut index, &mut docs[i]);
            i += 1;
        }
        proof {
            assert(before.take(i as int) =~= before);
            assert(corpus_view(docs@) =~= Seq::new(
                before.len(),
                |i: int| drained_doc(cfg@, before[i]),
            ));
            lemma_nothing_to_index(cfg@, before);
            if distinct_paths(before) {
                lemma_corpus_in_step(cfg@, before);
            }
        }
        let tag2posts = match index.render_tag2posts() {
            None => None,
            Some(Ok(text)) => Some(text),
            Some(Err(e)) => {
                return Err(RunError::Encode(e));
            },
        };
        let post2tags = match index.render_post2tags() {
            None => None,
            Some(Ok(text)) => Some(text),
            Some(Err(e)) => {
                return Err(RunError::Encode(e));
            },
        };
        Ok(
            Report {
                index,
                tag2posts_path: String::from_str(cfg.tag2posts_path()),
                tag2posts,
                post2tags_path: String::from_str(cfg.post2tags_path()),
                post2tags,
            },
        )
    }
}

} // verus!
