use vstd::prelude::*;

use crate::models::{indexed_doc, Post, SearchEngineError};
use crate::preprocess;
use crate::state::{
    add_doc_raw, committed_docs, has_key, pending_docs, visible_docs, SearchState, StoredDoc,
};
use tantivy::collector::TopDocs;
use tantivy::query::TermQuery;
use tantivy::schema::IndexRecordOption;
use tantivy::Term;

verus! {

impl SearchState {
    /// Buffers one post as a new document: its title and text are
    /// normalized first, so the buffered document is the post's indexed
    /// form.
    pub fn add(&mut self, post: &Post) -> (r: Result<(), SearchEngineError>)
        ensures
            r is Ok ==> pending_docs(*final(self)) == pending_docs(*old(self)).push(
                indexed_doc(post@),
            ),
            committed_docs(*final(self)) == committed_docs(*old(self)),
            visible_docs(*final(self)) == visible_docs(*old(self)),
    {
        let title = preprocess(post.title.as_str());
        let text = preprocess(post.text.as_str());
        add_doc_raw(
            self,
            post.thread_id,
            title.as_str(),
            text.as_str(),
            post.node_id,
            post.needModer,
            post.post_date,
        )
    }
}

/// Relies on tantivy's TermQuery with a one-result TopDocs collector and
/// Searcher::doc: an exact-match lookup on the key field against the
/// reader's snapshot returns a hit if and only if the snapshot holds a
/// document with that key, and hands back that document's stored fields.
#[verifier::external_body]
pub fn doc_by_id(s: &SearchState, thread_id: i64) -> (r: Result<
    Option<StoredDoc>,
    SearchEngineError,
>)
    ensures
        r matches Ok(Some(d)) ==> has_key(visible_docs(*s), thread_id as int) && d.thread_id
            == thread_id && (exists|i: int|
            0 <= i < visible_docs(*s).len() && (#[trigger] visible_docs(*s)[i]).thread_id
                == thread_id as int && visible_docs(*s)[i].title == d.title@),
        r matches Ok(None) ==> !has_key(visible_docs(*s), thread_id as int),
        r is Err ==> (r->Err_0 == SearchEngineError::SearchUnavailable || r->Err_0
            == SearchEngineError::SchemaMismatch),
{
    let searcher = s.reader.searcher();
    let term = Term::from_field_i64(s.f_thread_id, thread_id);
    let query = TermQuery::new(term, IndexRecordOption::Basic);
    let top = searcher.search(&query, &TopDocs::with_limit(1).order_by_score()).map_err(|_e| SearchEngineError::SearchUnavailable)?;
    if let Some((_score, addr)) = top.first() {
        let (_tid, title) = crate::state::fetch_stored(s, &searcher, *addr)?;
        Ok(Some(StoredDoc { thread_id, title }))
    } else {
        Ok(None)
    }
}

} // verus!
