//! A document of the corpus.

use vstd::prelude::*;

verus! {

/// A document: its path in the corpus, which no other document shares,
/// its display name, and its text.
#[derive(Debug)]
pub struct Document {
    pub path: String,
    pub name: String,
    pub content: String,
}

pub struct DocumentView {
    pub path: Seq<char>,
    pub name: Seq<char>,
    pub content: Seq<char>,
}

impl View for Document {
    type V = DocumentView;

    open spec fn view(&self) -> DocumentView {
        DocumentView { path: self.path@, name: self.name@, content: self.content@ }
    }
}

impl Document {
    pub fn new(path: String, name: String, content: String) -> (r: Document)
        ensures
            r@ == (DocumentView { path: path@, name: name@, content: content@ }),
    {
        Document { path, name, content }
    }
}

/// The views of the documents of a corpus, in order.
pub open spec fn corpus_view(docs: Seq<Document>) -> Seq<DocumentView> {
    Seq::new(docs.len(), |i: int| docs[i]@)
}

} // verus!
