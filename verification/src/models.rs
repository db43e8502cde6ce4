use vstd::prelude::*;

verus! {

/// One forum post, the unit of content. `thread_id` is the external,
/// globally unique key used for upsert and delete; it is not the engine's
/// internal document address.
#[allow(non_snake_case)]
#[derive(Debug)]
pub struct Post {
    pub thread_id: i64,
    pub title: String,
    pub text: String,
    pub node_id: i64,
    pub needModer: i64,
    pub post_date: i64,
}

/// Mathematical view of a post, and of one indexed document.
pub struct DocView {
    pub thread_id: int,
    pub title: Seq<char>,
    pub text: Seq<char>,
    pub node_id: int,
    pub need_moder: int,
    pub post_date: int,
}

impl View for Post {
    type V = DocView;

    open spec fn view(&self) -> DocView {
        DocView {
            thread_id: self.thread_id as int,
            title: self.title@,
            text: self.text@,
            node_id: self.node_id as int,
            need_moder: self.needModer as int,
            post_date: self.post_date as int,
        }
    }
}

/// The document a post becomes in the index: its content fields carry the
/// normalized text, its attributes are unchanged.
pub open spec fn indexed_doc(p: DocView) -> DocView {
    DocView {
        thread_id: p.thread_id,
        title: crate::normalize_spec(p.title),
        text: crate::normalize_spec(p.text),
        node_id: p.node_id,
        need_moder: p.need_moder,
        post_date: p.post_date,
    }
}

/// The error taxonomy of the engine boundary. Point-lookup misses are not
/// errors; they are the `None` outcome of `doc_by_id`.
#[derive(Clone, Copy, Debug, PartialEq, Eq, Structural)]
pub enum SearchEngineError {
    /// The index directory is missing or unreadable.
    StorageUnavailable,
    /// The index on disk does not carry the fields this library expects.
    SchemaMismatch,
    /// A commit did not complete; the batch must be resubmitted.
    CommitFailed,
    /// The query text did not parse; a caller input error.
    QuerySyntaxError,
    /// A transient engine failure while searching or reloading.
    SearchUnavailable,
}

impl SearchEngineError {
    /// A short description, in place of `Display`.
    pub fn message(&self) -> (r: String)
        ensures
            r@.len() > 0,
    {
        let m: &str = match self {
            SearchEngineError::StorageUnavailable => "storage unavailable",
            SearchEngineError::SchemaMismatch => "schema mismatch",
            SearchEngineError::CommitFailed => "commit failed",
            SearchEngineError::QuerySyntaxError => "query syntax error",
            SearchEngineError::SearchUnavailable => "search unavailable",
        };
        proof {
            reveal_strlit("storage unavailable");
            reveal_strlit("schema mismatch");
            reveal_strlit("commit failed");
            reveal_strlit("query syntax error");
            reveal_strlit("search unavailable");
        }
        m.to_owned()
    }
}

} // verus!
