//! The tag aggregate: for each tag the documents that carry it, and for
//! each document its tags.
//!
//! Both directions are kept in hash maps of the `hashbrown` crate. This
//! file states what the library relies on from them.

use vstd::prelude::*;
use vstd::string::StringExecFns;
use crate::error::EncodeError;
use crate::payload::Entries;
use crate::payload::JsonObject;
use crate::payload::json_array;
use crate::payload::json_entries;
use crate::payload::json_string;
use crate::payload::json_text;
use crate::payload::object_insert;
use crate::payload::object_new;
use crate::payload::object_to_string;
use crate::payload::value_of_array;
use crate::payload::value_of_string;
use crate::tags::texts;

verus! {

/// A document as a tag's bucket lists it: its name, then its path.
pub type Post = (Seq<char>, Seq<char>);

/// Buckets by tag.
pub type TagBuckets = Map<Seq<char>, Seq<Post>>;

/// Tag lists by path.
pub type TagLists = Map<Seq<char>, Seq<Seq<char>>>;

/// The map from each tag to the documents that carry it: a
/// `hashbrown::HashMap`, of which only what this file states is known.
#[verifier::external_body]
pub struct TagPosts {
    inner: hashbrown::HashMap<String, Vec<(String, String)>>,
}

/// The map from each document's path to its tags: a
/// `hashbrown::HashMap`, of which only what this file states is known.
#[verifier::external_body]
pub struct PostTags {
    inner: hashbrown::HashMap<String, Vec<String>>,
}

/// What a `TagPosts` holds: under each tag, its bucket.
pub uninterp spec fn tag_posts_entries(table: TagPosts) -> Map<
    Seq<char>,
    Seq<(Seq<char>, Seq<char>)>,
>;

/// What a `PostTags` holds: under each path, the tag list.
pub uninterp spec fn post_tags_entries(table: PostTags) -> Map<Seq<char>, Seq<Seq<char>>>;

/// The posts of a bucket, in order.
pub open spec fn posts(bucket: Seq<(String, String)>) -> Seq<Post> {
    Seq::new(bucket.len(), |i: int| (bucket[i].0@, bucket[i].1@))
}

/// `HashMap::new` of `hashbrown`: a map without entries.
#[verifier::external_body]
fn tag_posts_new() -> (r: TagPosts)
    ensures
        tag_posts_entries(r) == TagBuckets::empty(),
{
    TagPosts { inner: hashbrown::HashMap::new() }
}

/// `HashMap::get` of `hashbrown`, with the bucket found handed out as a
/// copy: the bucket that the map holds under the tag, if it holds one.
#[verifier::external_body]
fn tag_posts_get(table: &TagPosts, tag: &str) -> (r: Option<Vec<(String, String)>>)
    ensures
        match r {
            Some(bucket) => tag_posts_entries(*table).contains_key(tag@) && tag_posts_entries(
                *table,
            )[tag@] == posts(bucket@),
            None => !tag_posts_entries(*table).contains_key(tag@),
        },
{
    table.inner.get(tag).cloned()
}

/// `HashMap::remove` of `hashbrown`: the bucket that the map held under
/// the tag is handed out, if it held one, and the map holds nothing under
/// the tag afterwards; every other tag keeps its bucket.
#[verifier::external_body]
fn tag_posts_remove(table: &mut TagPosts, tag: &str) -> (r: Option<Vec<(String, String)>>)
    ensures
        tag_posts_entries(*final(table)) == tag_posts_entries(*old(table)).remove(tag@),
        match r {
            Some(bucket) => tag_posts_entries(*old(table)).contains_key(tag@)
                && tag_posts_entries(*old(table))[tag@] == posts(bucket@),
            None => !tag_posts_entries(*old(table)).contains_key(tag@),
        },
{
    table.inner.remove(tag)
}

/// `HashMap::insert` of `hashbrown`: afterwards the tag holds the new
/// bucket, whether or not it held one before, and every other tag holds
/// what it held.
#[verifier::external_body]
fn tag_posts_insert(table: &mut TagPosts, tag: String, bucket: Vec<(String, String)>)
    ensures
        tag_posts_entries(*final(table)) == tag_posts_entries(*old(table)).insert(
            tag@,
            posts(bucket@),
        ),
{
    table.inner.insert(tag, bucket);
}

/// `HashMap::len` of `hashbrown`: the number of entries, which is zero
/// for a map without entries and for no other.
#[verifier::external_body]
fn tag_posts_len(table: &TagPosts) -> (r: usize)
    ensures
        r == tag_posts_entries(*table).len(),
        r == 0 <==> tag_posts_entries(*table) == TagBuckets::empty(),
{
    table.inner.len()
}

/// `HashMap::keys` of `hashbrown`, with the keys handed out as a list of
/// copies. The order in which a hash map is walked is not fixed, so the
/// contract says only which tags are in the list: those of the map.
#[verifier::external_body]
fn tag_posts_keys(table: &TagPosts) -> (r: Vec<String>)
    ensures
        forall|tag: Seq<char>| #[trigger]
            texts(r@).contains(tag) <==> tag_posts_entries(*table).contains_key(tag),
{
    table.inner.keys().cloned().collect()
}

/// `HashMap::new` of `hashbrown`: a map without entries.
#[verifier::external_body]
fn post_tags_new() -> (r: PostTags)
    ensures
        post_tags_entries(r) == TagLists::empty(),
{
    PostTags { inner: hashbrown::HashMap::new() }
}

/// `HashMap::get` of `hashbrown`, with the list found handed out as a
/// copy: the tag list that the map holds under the path, if it holds one.
#[verifier::external_body]
fn post_tags_get(table: &PostTags, path: &str) -> (r: Option<Vec<String>>)
    ensures
        match r {
            Some(tags) => post_tags_entries(*table).contains_key(path@) && post_tags_entries(
                *table,
            )[path@] == texts(tags@),
            None => !post_tags_entries(*table).contains_key(path@),
        },
{
    table.inner.get(path).cloned()
}

/// `HashMap::insert` of `hashbrown`: afterwards the path holds the new
/// tag list, whether or not it held one before, and every other path
/// holds what it held.
#[verifier::external_body]
fn post_tags_insert(table: &mut PostTags, path: String, tags: Vec<String>)
    ensures
        post_tags_entries(*final(table)) == post_tags_entries(*old(table)).insert(
            path@,
            texts(tags@),
        ),
{
    table.inner.insert(path, tags);
}

/// `HashMap::len` of `hashbrown`: the number of entries, which is zero
/// for a map without entries and for no other.
#[verifier::external_body]
fn post_tags_len(table: &PostTags) -> (r: usize)
    ensures
        r == post_tags_entries(*table).len(),
        r == 0 <==> post_tags_entries(*table) == TagLists::empty(),
{
    table.inner.len()
}

/// `HashMap::keys` of `hashbrown`, with the keys handed out as a list of
/// copies. The order in which a hash map is walked is not fixed, so the
/// contract says only which paths are in the list: those of the map.
#[verifier::external_body]
fn post_tags_keys(table: &PostTags) -> (r: Vec<String>)
    ensures
        forall|path: Seq<char>| #[trigger]
            texts(r@).contains(path) <==> post_tags_entries(*table).contains_key(path),
{
    table.inner.keys().cloned().collect()
}

/// A post as JSON: the array of its name and its path.
pub open spec fn post_value(post: Post) -> serde_json::Value {
    json_array(seq![json_string(post.0), json_string(post.1)])
}

/// A bucket as JSON: the array of its posts, in order.
pub open spec fn bucket_value(bucket: Seq<Post>) -> serde_json::Value {
    json_array(Seq::new(bucket.len(), |i: int| post_value(bucket[i])))
}

/// A tag list as JSON: the array of its tags, in order.
pub open spec fn tags_value(tags: Seq<Seq<char>>) -> serde_json::Value {
    json_array(Seq::new(tags.len(), |i: int| json_string(tags[i])))
}

/// The tag-to-posts direction as a JSON object: under each tag, its
/// bucket.
pub open spec fn buckets_object(buckets: TagBuckets) -> Entries {
    Map::new(
        |tag: Seq<char>| buckets.contains_key(tag),
        |tag: Seq<char>| bucket_value(buckets[tag]),
    )
}

/// The path-to-tags direction as a JSON object: under each path, its tag
/// list.
pub open spec fn lists_object(lists: TagLists) -> Entries {
    Map::new(|path: Seq<char>| lists.contains_key(path), |path: Seq<char>| tags_value(lists[path]))
}

/// A bucket as a JSON value.
fn bucket_to_value(bucket: &Vec<(String, String)>) -> (r: serde_json::Value)
    ensures
        r == bucket_value(posts(bucket@)),
{
    let mut items: Vec<serde_json::Value> = Vec::new();
    let mut k: usize = 0;
    while k < bucket.len()
        invariant
            k <= bucket.len(),
            items@ == Seq::new(k as nat, |i: int| post_value(posts(bucket@)[i])),
        decreases bucket.len() - k,
    {
        let mut pair: Vec<serde_json::Value> = Vec::new();
        pair.push(value_of_string(bucket[k].0.clone()));
        pair.push(value_of_string(bucket[k].1.clone()));
        assert(pair@ =~= seq![
            json_string(bucket@[k as int].0@),
            json_string(bucket@[k as int].1@),
        ]);
        items.push(value_of_array(pair));
        assert(items@ =~= Seq::new((k + 1) as nat, |i: int| post_value(posts(bucket@)[i])));
        k += 1;
    }
    assert(items@ =~= Seq::new(posts(bucket@).len(), |i: int| post_value(posts(bucket@)[i])));
    value_of_array(items)
}

/// A tag list as a JSON value.
fn tags_to_value(tags: &Vec<String>) -> (r: serde_json::Value)
    ensures
        r == tags_value(texts(tags@)),
{
    let mut items: Vec<serde_json::Value> = Vec::new();
    let mut k: usize = 0;
    while k < tags.len()
        invariant
            k <= tags.len(),
            items@ == Seq::new(k as nat, |i: int| json_string(texts(tags@)[i])),
        decreases tags.len() - k,
    {
        items.push(value_of_string(tags[k].clone()));
        assert(items@ =~= Seq::new((k + 1) as nat, |i: int| json_string(texts(tags@)[i])));
        k += 1;
    }
    assert(items@ =~= Seq::new(texts(tags@).len(), |i: int| json_string(texts(tags@)[i])));
    value_of_array(items)
}

/// The buckets after a post joins a tag: the post comes last in the tag's
/// bucket, which is made if the tag had none.
pub open spec fn add_post(buckets: TagBuckets, tag: Seq<char>, post: Post) -> TagBuckets {
    buckets.insert(
        tag,
        if buckets.contains_key(tag) {
            buckets[tag].push(post)
        } else {
            seq![post]
        },
    )
}

/// The buckets after a post joins each tag of a list, in the list's order;
/// a tag that the list holds twice gets the post twice.
pub open spec fn add_posts(buckets: TagBuckets, tags: Seq<Seq<char>>, post: Post) -> TagBuckets
    decreases tags.len(),
{
    if tags.len() == 0 {
        buckets
    } else {
        add_post(add_posts(buckets, tags.drop_last(), post), tags.last(), post)
    }
}

/// What joining does to the buckets: every bucket keeps what it held, in
/// front; whatever is new in a bucket is the post, under a tag of the
/// list; and the bucket of every tag of the list holds the post.
pub proof fn lemma_add_posts(buckets: TagBuckets, tags: Seq<Seq<char>>, post: Post)
    ensures
        forall|t: Seq<char>| #[trigger]
            buckets.contains_key(t) ==> add_posts(buckets, tags, post).contains_key(t)
                && buckets[t].len() <= add_posts(buckets, tags, post)[t].len()
                && add_posts(buckets, tags, post)[t].subrange(0, buckets[t].len() as int)
                == buckets[t],
        forall|t: Seq<char>, j: int|
            add_posts(buckets, tags, post).contains_key(t) && 0 <= j < add_posts(
                buckets,
                tags,
                post,
            )[t].len() ==> (buckets.contains_key(t) && j < buckets[t].len()) || (#[trigger] add_posts(
                buckets,
                tags,
                post,
            )[t][j] == post && tags.contains(t)),
        forall|k: int|
            0 <= k < tags.len() ==> add_posts(buckets, tags, post).contains_key(#[trigger] tags[k])
                && add_posts(buckets, tags, post)[tags[k]].contains(post),
    decreases tags.len(),
{
    let after = add_posts(buckets, tags, post);
    if tags.len() > 0 {
        let front = tags.drop_last();
        let last = tags.last();
        let mid = add_posts(buckets, front, post);
        lemma_add_posts(buckets, front, post);
        assert(after == add_post(mid, last, post));
        assert forall|t: Seq<char>| #[trigger] buckets.contains_key(t) implies after.contains_key(t)
            && buckets[t].len() <= after[t].len() && after[t].subrange(0, buckets[t].len() as int)
            == buckets[t] by {
            assert(mid[t].subrange(0, buckets[t].len() as int) == buckets[t]);
            assert(after[t].subrange(0, buckets[t].len() as int) =~= mid[t].subrange(
                0,
                buckets[t].len() as int,
            ));
        }
        assert forall|t: Seq<char>, j: int|
            after.contains_key(t) && 0 <= j < after[t].len() implies (buckets.contains_key(t) && j
                < buckets[t].len()) || (#[trigger] after[t][j] == post && tags.contains(t)) by {
            if t == last {
                assert(tags[tags.len() - 1] == t);
                if mid.contains_key(t) && j < mid[t].len() {
                    assert(after[t][j] == mid[t][j]);
                    if !(buckets.contains_key(t) && j < buckets[t].len()) {
                        assert(mid[t][j] == post);
                    }
                }
            } else {
                assert(mid.contains_key(t));
                assert(after[t] == mid[t]);
                assert(after[t][j] == mid[t][j]);
                if !(buckets.contains_key(t) && j < buckets[t].len()) {
                    assert(mid[t][j] == post);
                    assert(front.contains(t));
                    let w = choose|w: int| 0 <= w < front.len() && front[w] == t;
                    assert(tags[w] == t);
                }
            }
        }
        assert forall|k: int| 0 <= k < tags.len() implies after.contains_key(#[trigger] tags[k])
            && after[tags[k]].contains(post) by {
            let t = tags[k];
            if t == last {
                assert(after[t][after[t].len() - 1] == post);
            } else {
                assert(front[k] == t);
                assert(mid[t].contains(post));
                assert(after[t] == mid[t]);
            }
        }
    } else {
        assert forall|t: Seq<char>| #[trigger] buckets.contains_key(t) implies after[t].subrange(
            0,
            buckets[t].len() as int,
        ) == buckets[t] by {
            assert(after[t].subrange(0, buckets[t].len() as int) =~= buckets[t]);
        }
    }
}

/// How often a bucket lists a path.
pub open spec fn count_path(bucket: Seq<Post>, path: Seq<char>) -> nat
    decreases bucket.len(),
{
    if bucket.len() == 0 {
        0
    } else {
        count_path(bucket.drop_last(), path) + if bucket.last().1 == path {
            1nat
        } else {
            0nat
        }
    }
}

/// How often a tag list holds a tag.
pub open spec fn count_tag(tags: Seq<Seq<char>>, tag: Seq<char>) -> nat
    decreases tags.len(),
{
    if tags.len() == 0 {
        0
    } else {
        count_tag(tags.drop_last(), tag) + if tags.last() == tag {
            1nat
        } else {
            0nat
        }
    }
}

/// The bucket of a tag; the empty one where the tag has none.
pub open spec fn bucket_of(buckets: TagBuckets, tag: Seq<char>) -> Seq<Post> {
    if buckets.contains_key(tag) {
        buckets[tag]
    } else {
        Seq::empty()
    }
}

/// A bucket lists a path at least once exactly if one of its posts has
/// that path.
pub proof fn lemma_count_path(bucket: Seq<Post>, path: Seq<char>)
    ensures
        count_path(bucket, path) > 0 <==> exists|j: int|
            0 <= j < bucket.len() && (#[trigger] bucket[j]).1 == path,
    decreases bucket.len(),
{
    if bucket.len() > 0 {
        let front = bucket.drop_last();
        lemma_count_path(front, path);
        if count_path(bucket, path) > 0 {
            if bucket.last().1 == path {
                assert(bucket[bucket.len() - 1].1 == path);
            } else {
                let w = choose|j: int| 0 <= j < front.len() && (#[trigger] front[j]).1 == path;
                assert(bucket[w].1 == path);
            }
        }
        if exists|j: int| 0 <= j < bucket.len() && (#[trigger] bucket[j]).1 == path {
            let w = choose|j: int| 0 <= j < bucket.len() && (#[trigger] bucket[j]).1 == path;
            if w < front.len() {
                assert(front[w].1 == path);
            }
        }
    }
}

/// A tag list holds a tag at least once exactly if the tag is in it.
pub proof fn lemma_count_tag(tags: Seq<Seq<char>>, tag: Seq<char>)
    ensures
        count_tag(tags, tag) > 0 <==> tags.contains(tag),
    decreases tags.len(),
{
    if tags.len() > 0 {
        let front = tags.drop_last();
        lemma_count_tag(front, tag);
        if count_tag(tags, tag) > 0 {
            if tags.last() == tag {
                assert(tags[tags.len() - 1] == tag);
            } else {
                let w = choose|j: int| 0 <= j < front.len() && front[j] == tag;
                assert(tags[w] == tag);
            }
        }
        if tags.contains(tag) {
            let w = choose|j: int| 0 <= j < tags.len() && tags[j] == tag;
            if w < front.len() {
                assert(front[w] == tag);
            }
        }
    }
}

/// What joining does to the counts: the bucket of a tag lists the post's
/// path as often more as the list holds the tag, and every other path as
/// often as before.
pub proof fn lemma_add_posts_counts(
    buckets: TagBuckets,
    tags: Seq<Seq<char>>,
    post: Post,
    tag: Seq<char>,
    path: Seq<char>,
)
    ensures
        count_path(bucket_of(add_posts(buckets, tags, post), tag), path) == count_path(
            bucket_of(buckets, tag),
            path,
        ) + if path == post.1 {
            count_tag(tags, tag)
        } else {
            0nat
        },
    decreases tags.len(),
{
    if tags.len() > 0 {
        let front = tags.drop_last();
        let last = tags.last();
        let mid = add_posts(buckets, front, post);
        let after = add_posts(buckets, tags, post);
        lemma_add_posts_counts(buckets, front, post, tag, path);
        assert(after == add_post(mid, last, post));
        if tag == last {
            assert(bucket_of(after, tag) =~= bucket_of(mid, tag).push(post));
            assert(bucket_of(after, tag).drop_last() =~= bucket_of(mid, tag));
        } else {
            assert(bucket_of(after, tag) == bucket_of(mid, tag));
        }
    }
}

/// Joining leaves no bucket empty that was not empty before, and makes
/// none that is empty.
pub proof fn lemma_add_posts_nonempty(buckets: TagBuckets, tags: Seq<Seq<char>>, post: Post)
    requires
        forall|tag: Seq<char>| #[trigger] buckets.contains_key(tag) ==> buckets[tag].len() > 0,
    ensures
        forall|tag: Seq<char>| #[trigger]
            add_posts(buckets, tags, post).contains_key(tag) ==> add_posts(
                buckets,
                tags,
                post,
            )[tag].len() > 0,
    decreases tags.len(),
{
    if tags.len() > 0 {
        let mid = add_posts(buckets, tags.drop_last(), post);
        let after = add_posts(buckets, tags, post);
        lemma_add_posts_nonempty(buckets, tags.drop_last(), post);
        assert(after == add_post(mid, tags.last(), post));
        assert forall|tag: Seq<char>| #[trigger] after.contains_key(tag) implies after[tag].len()
            > 0 by {
            if tag != tags.last() {
                assert(mid.contains_key(tag));
                assert(after[tag] == mid[tag]);
            }
        }
    }
}

/// Both directions of the tag aggregate.
pub struct TagIndexView {
    pub tag2posts: TagBuckets,
    pub post2tags: TagLists,
}

impl TagIndexView {
    /// The aggregate of no document.
    pub open spec fn empty() -> TagIndexView {
        TagIndexView { tag2posts: Map::empty(), post2tags: Map::empty() }
    }

    /// Whether the two directions agree: no bucket is empty; every post
    /// of a bucket is a listed path; and the bucket of a tag lists a
    /// listed path as often as the path's tag list holds the tag.
    pub open spec fn in_step(self) -> bool {
        &&& forall|tag: Seq<char>| #[trigger]
            self.tag2posts.contains_key(tag) ==> self.tag2posts[tag].len() > 0
        &&& forall|tag: Seq<char>, j: int|
            self.tag2posts.contains_key(tag) && 0 <= j < self.tag2posts[tag].len()
                ==> self.post2tags.contains_key((#[trigger] self.tag2posts[tag][j]).1)
        &&& forall|path: Seq<char>, tag: Seq<char>|
            self.post2tags.contains_key(path) ==> count_path(
                bucket_of(self.tag2posts, tag),
                path,
            ) == #[trigger] count_tag(self.post2tags[path], tag)
    }

    /// The aggregate after a document with these tags: the path holds the
    /// tag list, also an empty one, and the document joins each tag.
    pub open spec fn tagged(
        self,
        name: Seq<char>,
        path: Seq<char>,
        tags: Seq<Seq<char>>,
    ) -> TagIndexView {
        TagIndexView {
            tag2posts: add_posts(self.tag2posts, tags, (name, path)),
            post2tags: self.post2tags.insert(path, tags),
        }
    }
}

/// The aggregate of no document has its two directions in step.
pub proof fn lemma_empty_in_step()
    ensures
        TagIndexView::empty().in_step(),
{
}

/// Entering a document under a path that is not listed yet keeps the two
/// directions in step.
pub proof fn lemma_tagged_in_step(
    index: TagIndexView,
    name: Seq<char>,
    path: Seq<char>,
    tags: Seq<Seq<char>>,
)
    requires
        index.in_step(),
        !index.post2tags.contains_key(path),
    ensures
        index.tagged(name, path, tags).in_step(),
{
    let post = (name, path);
    let after = index.tagged(name, path, tags);
    lemma_add_posts(index.tag2posts, tags, post);
    lemma_add_posts_nonempty(index.tag2posts, tags, post);
    assert forall|tag: Seq<char>, j: int|
        after.tag2posts.contains_key(tag) && 0 <= j
            < after.tag2posts[tag].len() implies after.post2tags.contains_key(
        (#[trigger] after.tag2posts[tag][j]).1,
    ) by {
        if index.tag2posts.contains_key(tag) && j < index.tag2posts[tag].len() {
            assert(after.tag2posts[tag].subrange(0, index.tag2posts[tag].len() as int)[j]
                == index.tag2posts[tag][j]);
            assert(index.post2tags.contains_key(index.tag2posts[tag][j].1));
        } else {
            assert(add_posts(index.tag2posts, tags, post)[tag][j] == after.tag2posts[tag][j]);
            assert(after.tag2posts[tag][j] == post);
        }
    }
    assert forall|p: Seq<char>, tag: Seq<char>| after.post2tags.contains_key(p) implies count_path(
        bucket_of(after.tag2posts, tag),
        p,
    ) == #[trigger] count_tag(after.post2tags[p], tag) by {
        lemma_add_posts_counts(index.tag2posts, tags, post, tag, p);
        if p == path {
            let held = bucket_of(index.tag2posts, tag);
            lemma_count_path(held, path);
            if count_path(held, path) > 0 {
                let w = choose|j: int| 0 <= j < held.len() && (#[trigger] held[j]).1 == path;
                assert(index.post2tags.contains_key(index.tag2posts[tag][w].1));
            }
        } else {
            assert(index.post2tags.contains_key(p));
            assert(count_path(bucket_of(index.tag2posts, tag), p) == count_tag(
                index.post2tags[p],
                tag,
            ));
        }
    }
}

/// Where the two directions are in step, each reaches the other: the
/// bucket of every tag of a listed path holds a post with that path, and
/// the tag list of every post of a bucket holds the bucket's tag.
pub proof fn lemma_in_step_reaches(index: TagIndexView)
    requires
        index.in_step(),
    ensures
        forall|path: Seq<char>, k: int|
            index.post2tags.contains_key(path) && 0 <= k < index.post2tags[path].len() ==> {
                let tag = #[trigger] index.post2tags[path][k];
                index.tag2posts.contains_key(tag) && exists|j: int|
                    0 <= j < index.tag2posts[tag].len() && (#[trigger] index.tag2posts[tag][j]).1
                        == path
            },
        forall|tag: Seq<char>, j: int|
            index.tag2posts.contains_key(tag) && 0 <= j < index.tag2posts[tag].len() ==> {
                let path = (#[trigger] index.tag2posts[tag][j]).1;
                index.post2tags.contains_key(path) && index.post2tags[path].contains(tag)
            },
{
    assert forall|path: Seq<char>, k: int|
        index.post2tags.contains_key(path) && 0 <= k < index.post2tags[path].len() implies {
        let tag = #[trigger] index.post2tags[path][k];
        index.tag2posts.contains_key(tag) && exists|j: int|
            0 <= j < index.tag2posts[tag].len() && (#[trigger] index.tag2posts[tag][j]).1 == path
    } by {
        let tag = index.post2tags[path][k];
        lemma_count_tag(index.post2tags[path], tag);
        lemma_count_path(bucket_of(index.tag2posts, tag), path);
        assert(count_path(bucket_of(index.tag2posts, tag), path) == count_tag(
            index.post2tags[path],
            tag,
        ));
    }
    assert forall|tag: Seq<char>, j: int|
        index.tag2posts.contains_key(tag) && 0 <= j < index.tag2posts[tag].len() implies {
        let path = (#[trigger] index.tag2posts[tag][j]).1;
        index.post2tags.contains_key(path) && index.post2tags[path].contains(tag)
    } by {
        let path = index.tag2posts[tag][j].1;
        lemma_count_tag(index.post2tags[path], tag);
        lemma_count_path(bucket_of(index.tag2posts, tag), path);
        assert(count_path(bucket_of(index.tag2posts, tag), path) == count_tag(
            index.post2tags[path],
            tag,
        ));
    }
}

/// The tag aggregate.
pub struct TagIndex {
    tag2posts: TagPosts,
    post2tags: PostTags,
}

impl View for TagIndex {
    type V = TagIndexView;

    closed spec fn view(&self) -> TagIndexView {
        TagIndexView {
            tag2posts: tag_posts_entries(self.tag2posts),
            post2tags: post_tags_entries(self.post2tags),
        }
    }
}

impl TagIndex {
    /// The aggregate of no document.
    pub fn new() -> (r: TagIndex)
        ensures
            r@ == TagIndexView::empty(),
            r@.in_step(),
    {
        TagIndex { tag2posts: tag_posts_new(), post2tags: post_tags_new() }
    }

    /// Enters a document with its tag list. Under a path that is not
    /// listed yet, this keeps the two directions in step.
    pub fn add(&mut self, name: &str, path: String, tags: Vec<String>)
        ensures
            final(self)@ == old(self)@.tagged(name@, path@, texts(tags@)),
            old(self)@.in_step() && !old(self)@.post2tags.contains_key(path@) ==>
                final(self)@.in_step(),
    {
        let ghost list = texts(tags@);
        let ghost post = (name@, path@);
        proof {
            if old(self)@.in_step() && !old(self)@.post2tags.contains_key(path@) {
                lemma_tagged_in_step(old(self)@, name@, path@, list);
            }
        }
        let mut k: usize = 0;
        while k < tags.len()
            invariant
                k <= tags.len(),
                list == texts(tags@),
                post == (name@, path@),
                self.post2tags == old(self).post2tags,
                tag_posts_entries(self.tag2posts) == add_posts(
                    tag_posts_entries(old(self).tag2posts),
                    list.take(k as int),
                    post,
                ),
            decreases tags.len() - k,
        {
            proof {
                assert(list.take(k + 1).drop_last() =~= list.take(k as int));
            }
            let ghost before = tag_posts_entries(self.tag2posts);
            let tag = tags[k].clone();
            assert(tag@ == list[k as int]);
            let mut bucket = match tag_posts_remove(&mut self.tag2posts, tag.as_str()) {
                Some(found) => found,
                None => Vec::new(),
            };
            let ghost held = posts(bucket@);
            assert(held == if before.contains_key(tag@) {
                before[tag@]
            } else {
                Seq::<Post>::empty()
            }) by {
                if !before.contains_key(tag@) {
                    assert(held =~= Seq::<Post>::empty());
                }
            }
            bucket.push((String::from_str(name), path.clone()));
            assert(posts(bucket@) =~= held.push(post));
            assert(Seq::<Post>::empty().push(post) =~= seq![post]);
            tag_posts_insert(&mut self.tag2posts, tag, bucket);
            assert(tag_posts_entries(self.tag2posts) =~= add_post(before, list[k as int], post));
            k += 1;
        }
        assert(list.take(k as int) =~= list);
        post_tags_insert(&mut self.post2tags, path, tags);
    }

    /// The bucket of a tag, if the tag has one.
    pub fn posts_of(&self, tag: &str) -> (r: Option<Vec<(String, String)>>)
        ensures
            match r {
                Some(bucket) => self@.tag2posts.contains_key(tag@) && self@.tag2posts[tag@]
                    == posts(bucket@),
                None => !self@.tag2posts.contains_key(tag@),
            },
    {
        tag_posts_get(&self.tag2posts, tag)
    }

    /// The tag list of a path, if the path has one.
    pub fn tags_of(&self, path: &str) -> (r: Option<Vec<String>>)
        ensures
            match r {
                Some(tags) => self@.post2tags.contains_key(path@) && self@.post2tags[path@]
                    == texts(tags@),
                None => !self@.post2tags.contains_key(path@),
            },
    {
        post_tags_get(&self.post2tags, path)
    }

    /// The number of tags that have a bucket.
    pub fn tag_count(&self) -> (r: usize)
        ensures
            r == self@.tag2posts.len(),
            r == 0 <==> self@.tag2posts == TagBuckets::empty(),
    {
        tag_posts_len(&self.tag2posts)
    }

    /// The number of paths that have a tag list.
    pub fn post_count(&self) -> (r: usize)
        ensures
            r == self@.post2tags.len(),
            r == 0 <==> self@.post2tags == TagLists::empty(),
    {
        post_tags_len(&self.post2tags)
    }

    /// The tag-to-posts direction as a JSON object: under each tag, the
    /// array of its `[name, path]` pairs.
    pub fn tag2posts_object(&self) -> (r: JsonObject)
        ensures
            json_entries(r) == buckets_object(self@.tag2posts),
    {
        let ghost buckets = tag_posts_entries(self.tag2posts);
        let keys = tag_posts_keys(&self.tag2posts);
        let mut object = object_new();
        let mut k: usize = 0;
        while k < keys.len()
            invariant
                k <= keys.len(),
                buckets == tag_posts_entries(self.tag2posts),
                forall|tag: Seq<char>| #[trigger]
                    texts(keys@).contains(tag) <==> buckets.contains_key(tag),
                forall|tag: Seq<char>| #[trigger]
                    json_entries(object).contains_key(tag) <==> texts(keys@).take(
                        k as int,
                    ).contains(tag),
                forall|tag: Seq<char>| #[trigger]
                    json_entries(object).contains_key(tag) ==> json_entries(object)[tag]
                        == bucket_value(buckets[tag]),
            decreases keys.len() - k,
        {
            let ghost before = json_entries(object);
            let ghost seen = texts(keys@).take(k as int);
            let ghost tag = texts(keys@)[k as int];
            proof {
                assert(texts(keys@).take(k + 1) =~= seen.push(tag));
                assert(texts(keys@).contains(tag));
            }
            match tag_posts_get(&self.tag2posts, keys[k].as_str()) {
                Some(bucket) => {
                    let value = bucket_to_value(&bucket);
                    object_insert(&mut object, keys[k].clone(), value);
                },
                // The map handed the key out, so it holds a bucket under it.
                None => {},
            }
            proof {
                assert(json_entries(object) == before.insert(tag, bucket_value(buckets[tag])));
                assert forall|t: Seq<char>| #[trigger]
                    json_entries(object).contains_key(t) <==> seen.push(tag).contains(t) by {
                    if t == tag {
                        assert(seen.push(tag)[seen.len() as int] == t);
                    } else if seen.contains(t) {
                        let w = choose|w: int| 0 <= w < seen.len() && seen[w] == t;
                        assert(seen.push(tag)[w] == t);
                    } else if seen.push(tag).contains(t) {
                        let w = choose|w: int|
                            0 <= w < seen.push(tag).len() && seen.push(tag)[w] == t;
                        assert(seen[w] == t);
                    }
                }
            }
            k += 1;
        }
        proof {
            assert(texts(keys@).take(k as int) =~= texts(keys@));
            assert(json_entries(object) =~= buckets_object(buckets));
        }
        object
    }

    /// The path-to-tags direction as a JSON object: under each path, the
    /// array of its tags.
    pub fn post2tags_object(&self) -> (r: JsonObject)
        ensures
            json_entries(r) == lists_object(self@.post2tags),
    {
        let ghost lists = post_tags_entries(self.post2tags);
        let keys = post_tags_keys(&self.post2tags);
        let mut object = object_new();
        let mut k: usize = 0;
        while k < keys.len()
            invariant
                k <= keys.len(),
                lists == post_tags_entries(self.post2tags),
                forall|path: Seq<char>| #[trigger]
                    texts(keys@).contains(path) <==> lists.contains_key(path),
                forall|path: Seq<char>| #[trigger]
                    json_entries(object).contains_key(path) <==> texts(keys@).take(
                        k as int,
                    ).contains(path),
                forall|path: Seq<char>| #[trigger]
                    json_entries(object).contains_key(path) ==> json_entries(object)[path]
                        == tags_value(lists[path]),
            decreases keys.len() - k,
        {
            let ghost before = json_entries(object);
            let ghost seen = texts(keys@).take(k as int);
            let ghost path = texts(keys@)[k as int];
            proof {
                assert(texts(keys@).take(k + 1) =~= seen.push(path));
                assert(texts(keys@).contains(path));
            }
            match post_tags_get(&self.post2tags, keys[k].as_str()) {
                Some(tags) => {
                    let value = tags_to_value(&tags);
                    object_insert(&mut object, keys[k].clone(), value);
                },
                // The map handed the key out, so it holds a list under it.
                None => {},
            }
            proof {
                assert(json_entries(object) == before.insert(path, tags_value(lists[path])));
                assert forall|t: Seq<char>| #[trigger]
                    json_entries(object).contains_key(t) <==> seen.push(path).contains(t) by {
                    if t == path {
                        assert(seen.push(path)[seen.len() as int] == t);
                    } else if seen.contains(t) {
                        let w = choose|w: int| 0 <= w < seen.len() && seen[w] == t;
                        assert(seen.push(path)[w] == t);
                    } else if seen.push(path).contains(t) {
                        let w = choose|w: int|
                            0 <= w < seen.push(path).len() && seen.push(path)[w] == t;
                        assert(seen[w] == t);
                    }
                }
            }
            k += 1;
        }
        proof {
            assert(texts(keys@).take(k as int) =~= texts(keys@));
            assert(json_entries(object) =~= lists_object(lists));
        }
        object
    }

    /// The tag-to-posts direction as JSON text: an object that holds, for
    /// each tag, the array of its `[name, path]` pairs, the tags in sorted
    /// order. `None` where no tag has a bucket: then nothing is written.
    pub fn render_tag2posts(&self) -> (r: Option<Result<String, EncodeError>>)
        ensures
            match r {
                None => self@.tag2posts == TagBuckets::empty(),
                Some(Ok(text)) => self@.tag2posts != TagBuckets::empty() && text@ == json_text(
                    buckets_object(self@.tag2posts),
                ),
                Some(Err(_)) => false,
            },
    {
        if tag_posts_len(&self.tag2posts) > 0 {
            let object = self.tag2posts_object();
            match object_to_string(&object) {
                Ok(text) => Some(Ok(text)),
                Err(_) => Some(Err(EncodeError {  })),
            }
        } else {
            None
        }
    }

    /// The path-to-tags direction as JSON text: an object that holds, for
    /// each path, the array of its tags, the paths in sorted order. `None`
    /// where no path has a tag list: then nothing is written.
    pub fn render_post2tags(&self) -> (r: Option<Result<String, EncodeError>>)
        ensures
            match r {
                None => self@.post2tags == TagLists::empty(),
                Some(Ok(text)) => self@.post2tags != TagLists::empty() && text@ == json_text(
                    lists_object(self@.post2tags),
                ),
                Some(Err(_)) => false,
            },
    {
        if post_tags_len(&self.post2tags) > 0 {
            let object = self.post2tags_object();
            match object_to_string(&object) {
                Ok(text) => Some(Ok(text)),
                Err(_) => Some(Err(EncodeError {  })),
            }
        } else {
            None
        }
    }
}

} // verus!
