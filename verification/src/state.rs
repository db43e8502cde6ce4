use vstd::prelude::*;

use crate::models::{DocView, SearchEngineError};
use tantivy::collector::TopDocs;
use tantivy::query::{AllQuery, QueryParser};
use tantivy::schema::Value;
use tantivy::schema::{IndexRecordOption, Schema, TextFieldIndexing, TextOptions, INDEXED, STORED};
use tantivy::tokenizer::{
    Language, LowerCaser, RemoveLongFilter, SimpleTokenizer, Stemmer, StopWordFilter, TextAnalyzer,
};
use tantivy::{ReloadPolicy, TantivyDocument};

verus! {

/// The committed documents of the index a handle points to.
pub uninterp spec fn index_docs(i: tantivy::Index) -> Seq<DocView>;

/// The documents durably committed to the index behind a state.
pub uninterp spec fn committed_docs(s: SearchState) -> Seq<DocView>;

/// The documents the index will hold after the next commit: the committed
/// documents with the writer's buffered adds and deletes applied in order.
pub uninterp spec fn pending_docs(s: SearchState) -> Seq<DocView>;

/// The documents the reader's current snapshot serves: the committed
/// documents as of the last reload.
pub uninterp spec fn visible_docs(s: SearchState) -> Seq<DocView>;

/// There is a document with the given key.
pub open spec fn has_key(docs: Seq<DocView>, tid: int) -> bool {
    exists|i: int| 0 <= i < docs.len() && (#[trigger] docs[i]).thread_id == tid
}

/// The documents that survive a delete-by-term of the given key.
pub open spec fn remove_key(docs: Seq<DocView>, tid: int) -> Seq<DocView> {
    docs.filter(|d: DocView| d.thread_id != tid)
}

/// The documents holding the given key.
pub open spec fn docs_with_key(docs: Seq<DocView>, tid: int) -> Seq<DocView> {
    docs.filter(|d: DocView| d.thread_id == tid)
}

/// No two documents share a key.
pub open spec fn unique_keys(docs: Seq<DocView>) -> bool {
    forall|i: int, j: int|
        0 <= i < j < docs.len() ==> (#[trigger] docs[i]).thread_id != (#[trigger] docs[j]).thread_id
}

#[verifier::external_type_specification]
#[verifier::external_body]
pub struct ExIndex(tantivy::Index);

#[verifier::external_type_specification]
#[verifier::external_body]
pub struct ExSchema(tantivy::schema::Schema);

#[verifier::external_type_specification]
#[verifier::external_body]
pub struct ExSearcher(tantivy::Searcher);

#[verifier::external_type_specification]
#[verifier::external_body]
pub struct ExDocAddress(tantivy::DocAddress);

/// One live index with its exclusive writer, its reader, and the resolved
/// field handles. The underlying engine structures are opaque; the three
/// document sequences above are their mathematical contents.
#[verifier::external_body]
pub struct SearchState {
    pub(crate) index: tantivy::Index,
    pub(crate) reader: tantivy::IndexReader,
    pub(crate) writer: tantivy::IndexWriter,
    pub(crate) parser: tantivy::query::QueryParser,
    pub(crate) f_thread_id: tantivy::schema::Field,
    pub(crate) f_title: tantivy::schema::Field,
    pub(crate) f_text: tantivy::schema::Field,
    pub(crate) f_node_id: tantivy::schema::Field,
    pub(crate) f_need_moder: tantivy::schema::Field,
    pub(crate) f_post_date: tantivy::schema::Field,
}

/// The stored fields a point lookup can hand back.
#[derive(Debug)]
pub struct StoredDoc {
    pub thread_id: i64,
    pub title: String,
}

/// Relies on tantivy::schema::SchemaBuilder: declares the six post fields.
/// thread_id is indexed and stored; title and text run through the
/// registered analysis pipeline, title is also stored; the three integer
/// attributes are indexed only.
#[verifier::external_body]
pub(crate) fn build_post_schema() -> tantivy::schema::Schema {
    let indexing = TextFieldIndexing::default().set_tokenizer("ru_stem").set_index_option(IndexRecordOption::WithFreqsAndPositions);
    let opts = TextOptions::default().set_indexing_options(indexing);
    let mut b = Schema::builder();
    b.add_i64_field("thread_id", INDEXED | STORED);
    b.add_text_field("title", opts.clone() | STORED);
    b.add_text_field("text", opts);
    b.add_i64_field("node_id", INDEXED);
    b.add_i64_field("needModer", INDEXED);
    b.add_i64_field("post_date", INDEXED);
    b.build()
}

/// Relies on tantivy::Index::create_in_ram: a freshly created index holds
/// no document, whatever the schema.
#[verifier::external_body]
pub(crate) fn fresh_index_ram(schema: tantivy::schema::Schema) -> (i: tantivy::Index)
    ensures
        index_docs(i) == Seq::<DocView>::empty(),
{
    tantivy::Index::create_in_ram(schema)
}

/// Relies on tantivy::Index::create_in_dir: creates an index in an existing
/// empty directory, so the new index holds no document; fails if the
/// directory already carries an index or cannot be written.
#[verifier::external_body]
pub(crate) fn fresh_index_dir(path: &str, schema: tantivy::schema::Schema) -> (r: Result<
    tantivy::Index,
    SearchEngineError,
>)
    ensures
        r matches Ok(i) ==> index_docs(i) == Seq::<DocView>::empty(),
        r is Err ==> r->Err_0 == SearchEngineError::StorageUnavailable,
{
    match tantivy::Index::create_in_dir(path, schema) {
        Ok(i) => Ok(i),
        Err(_e) => Err(SearchEngineError::StorageUnavailable),
    }
}

/// Relies on tantivy::Index::open_in_dir: opens the index stored in the
/// given directory; fails if the directory is missing or unreadable.
#[verifier::external_body]
pub(crate) fn open_index_dir(path: &str) -> (r: Result<tantivy::Index, SearchEngineError>)
    ensures
        r is Err ==> r->Err_0 == SearchEngineError::StorageUnavailable,
{
    match tantivy::Index::open_in_dir(path) {
        Ok(i) => Ok(i),
        Err(_e) => Err(SearchEngineError::StorageUnavailable),
    }
}

/// Opens the index stored under the default directory and registers the
/// analysis pipeline on it; a missing or unreadable directory is the one
/// failure.
pub fn load_index() -> (r: Result<tantivy::Index, SearchEngineError>)
    ensures
        r is Err ==> r->Err_0 == SearchEngineError::StorageUnavailable,
{
    let index = open_index_dir("./index")?;
    crate::register_tokenizer(&index);
    Ok(index)
}

impl SearchState {
    /// Opens the index stored under the default directory, registers the
    /// analysis pipeline, and takes the exclusive writer. A settled state:
    /// nothing is buffered and the reader serves the committed documents.
    pub fn new() -> (r: Result<SearchState, SearchEngineError>)
        ensures
            r matches Ok(s) ==> pending_docs(s) == committed_docs(s) && visible_docs(s)
                == committed_docs(s),
            r is Err ==> (r->Err_0 == SearchEngineError::StorageUnavailable || r->Err_0
                == SearchEngineError::SchemaMismatch || r->Err_0
                == SearchEngineError::SearchUnavailable),
    {
        let index = load_index()?;
        state_from_index(index)
    }

    /// Creates a fresh index in the given empty directory and opens it as
    /// `new` does. The new index holds no document.
    pub fn create_dir(path: &str) -> (r: Result<SearchState, SearchEngineError>)
        ensures
            r matches Ok(s) ==> committed_docs(s) == Seq::<DocView>::empty() && pending_docs(s)
                == committed_docs(s) && visible_docs(s) == committed_docs(s),
            r is Err ==> (r->Err_0 == SearchEngineError::StorageUnavailable || r->Err_0
                == SearchEngineError::SchemaMismatch || r->Err_0
                == SearchEngineError::SearchUnavailable),
    {
        let index = fresh_index_dir(path, build_post_schema())?;
        crate::register_tokenizer(&index);
        state_from_index(index)
    }

    /// Creates a fresh index in anonymous memory and opens it as `new`
    /// does. The new index holds no document.
    pub fn new_in_ram() -> (r: Result<SearchState, SearchEngineError>)
        ensures
            r matches Ok(s) ==> committed_docs(s) == Seq::<DocView>::empty() && pending_docs(s)
                == committed_docs(s) && visible_docs(s) == committed_docs(s),
            r is Err ==> (r->Err_0 == SearchEngineError::StorageUnavailable || r->Err_0
                == SearchEngineError::SchemaMismatch || r->Err_0
                == SearchEngineError::SearchUnavailable),
    {
        let index = fresh_index_ram(build_post_schema());
        crate::register_tokenizer(&index);
        state_from_index(index)
    }
}

/// Relies on tantivy's tokenizer chain: SimpleTokenizer splits on
/// non-alphanumeric characters, RemoveLongFilter drops tokens longer than
/// the given limit, LowerCaser lowercases, StopWordFilter removes the given
/// words, Stemmer applies the Russian Snowball stemmer. Registration under
/// the name the schema's text fields reference changes no stored document.
#[verifier::external_body]
pub(crate) fn register_ru_stem(index: &tantivy::Index, stopwords: Vec<String>, long_limit: usize) {
    let ru = TextAnalyzer::builder(SimpleTokenizer::default())
        .filter(RemoveLongFilter::limit(long_limit))
        .filter(LowerCaser)
        .filter(StopWordFilter::remove(stopwords))
        .filter(Stemmer::new(Language::Russian))
        .build();
    index.tokenizers().register("ru_stem", ru);
}

/// Relies on tantivy::Index::writer, Index::reader_builder and
/// QueryParser::for_index: a fresh writer carries no buffered operation and
/// a fresh manual-policy reader serves the last committed state, so the
/// assembled state's pending and visible documents both equal its committed
/// documents, which are the given index's documents. Writer acquisition
/// fails if another live writer holds the index's lock.
#[verifier::external_body]
pub(crate) fn state_from_index(index: tantivy::Index) -> (r: Result<
    SearchState,
    SearchEngineError,
>)
    ensures
        r matches Ok(s) ==> committed_docs(s) == index_docs(index) && pending_docs(s)
            == committed_docs(s) && visible_docs(s) == committed_docs(s),
        r is Err ==> (r->Err_0 == SearchEngineError::SchemaMismatch || r->Err_0
            == SearchEngineError::SearchUnavailable || r->Err_0
            == SearchEngineError::StorageUnavailable),
{
    let schema = index.schema();
    let gf = |n: &str| schema.get_field(n).map_err(|_e| SearchEngineError::SchemaMismatch);
    let reader = index.reader_builder().reload_policy(ReloadPolicy::Manual).try_into().map_err(|_e| SearchEngineError::SearchUnavailable)?;
    let writer = index.writer(50_000_000).map_err(|_e| SearchEngineError::StorageUnavailable)?;
    let parser = QueryParser::for_index(&index, vec![gf("title")?, gf("text")?]);
    Ok(SearchState { index, reader, writer, parser, f_thread_id: gf("thread_id")?, f_title: gf("title")?, f_text: gf("text")?, f_node_id: gf("node_id")?, f_need_moder: gf("needModer")?, f_post_date: gf("post_date")? })
}

/// Relies on tantivy::IndexWriter::add_document: the document joins the
/// writer's buffer after every operation buffered before it; it becomes
/// durable only at the next commit. On failure the indexing pipeline is
/// broken and the buffer's content is unspecified, but nothing was
/// committed.
#[verifier::external_body]
pub(crate) fn add_doc_raw(
    s: &mut SearchState,
    thread_id: i64,
    title: &str,
    text: &str,
    node_id: i64,
    need_moder: i64,
    post_date: i64,
) -> (r: Result<(), SearchEngineError>)
    ensures
        r is Ok ==> pending_docs(*final(s)) == pending_docs(*old(s)).push(
            DocView {
                thread_id: thread_id as int,
                title: title@,
                text: text@,
                node_id: node_id as int,
                need_moder: need_moder as int,
                post_date: post_date as int,
            },
        ),
        committed_docs(*final(s)) == committed_docs(*old(s)),
        visible_docs(*final(s)) == visible_docs(*old(s)),
{
    let mut doc = tantivy::TantivyDocument::new();
    doc.add_i64(s.f_thread_id, thread_id);
    doc.add_text(s.f_title, title);
    doc.add_text(s.f_text, text);
    doc.add_i64(s.f_node_id, node_id);
    doc.add_i64(s.f_need_moder, need_moder);
    doc.add_i64(s.f_post_date, post_date);
    match s.writer.add_document(doc) {
        Ok(_stamp) => Ok(()),
        Err(_e) => Err(SearchEngineError::CommitFailed),
    }
}

/// Relies on tantivy::IndexWriter::delete_term: buffers a delete of every
/// document whose thread_id equals the given key, both committed ones and
/// ones buffered earlier in the same batch; visible only after commit.
#[verifier::external_body]
pub(crate) fn delete_term_i64(s: &mut SearchState, thread_id: i64)
    ensures
        pending_docs(*final(s)) == remove_key(pending_docs(*old(s)), thread_id as int),
        committed_docs(*final(s)) == committed_docs(*old(s)),
        visible_docs(*final(s)) == visible_docs(*old(s)),
{
    let term = tantivy::Term::from_field_i64(s.f_thread_id, thread_id);
    s.writer.delete_term(term);
}

/// Relies on tantivy::IndexWriter::commit: publishes the buffered
/// operations durably and atomically; on failure nothing new is visible to
/// readers and the buffer's content is unspecified.
#[verifier::external_body]
pub(crate) fn commit_state(s: &mut SearchState) -> (r: Result<(), SearchEngineError>)
    ensures
        r is Ok ==> committed_docs(*final(s)) == pending_docs(*old(s)) && pending_docs(*final(s))
            == pending_docs(*old(s)),
        r is Err ==> committed_docs(*final(s)) == committed_docs(*old(s)) && r->Err_0
            == SearchEngineError::CommitFailed,
        visible_docs(*final(s)) == visible_docs(*old(s)),
{
    match s.writer.commit() {
        Ok(_stamp) => Ok(()),
        Err(_e) => Err(SearchEngineError::CommitFailed),
    }
}

/// Relies on tantivy::IndexWriter::rollback: drops every buffered operation,
/// restoring the writer to the last committed state.
#[verifier::external_body]
pub(crate) fn rollback_state(s: &mut SearchState) -> (r: Result<(), SearchEngineError>)
    ensures
        r is Ok ==> pending_docs(*final(s)) == committed_docs(*old(s)),
        committed_docs(*final(s)) == committed_docs(*old(s)),
        visible_docs(*final(s)) == visible_docs(*old(s)),
{
    match s.writer.rollback() {
        Ok(_stamp) => Ok(()),
        Err(_e) => Err(SearchEngineError::CommitFailed),
    }
}

/// Relies on tantivy::IndexReader::reload: points the reader at the latest
/// committed state; on failure it keeps serving its current snapshot.
#[verifier::external_body]
pub(crate) fn reload_state(s: &mut SearchState) -> (r: Result<(), SearchEngineError>)
    ensures
        r is Ok ==> visible_docs(*final(s)) == committed_docs(*old(s)),
        r is Err ==> visible_docs(*final(s)) == visible_docs(*old(s)),
        committed_docs(*final(s)) == committed_docs(*old(s)),
        pending_docs(*final(s)) == pending_docs(*old(s)),
{
    match s.reader.reload() {
        Ok(()) => Ok(()),
        Err(_e) => Err(SearchEngineError::SearchUnavailable),
    }
}

/// Relies on Searcher::doc and the document's stored values: fetches the
/// stored key and title of one already-found hit.
#[verifier::external_body]
pub(crate) fn fetch_stored(s: &SearchState, searcher: &tantivy::Searcher, addr: tantivy::DocAddress) -> (r: Result<(i64, String), SearchEngineError>) {
    let doc: TantivyDocument = searcher.doc(addr).map_err(|_e| SearchEngineError::SearchUnavailable)?;
    let tid = match doc.get_first(s.f_thread_id).and_then(|v| v.as_i64()) { Some(t) => t, None => return Err(SearchEngineError::SchemaMismatch) };
    let title = match doc.get_first(s.f_title).and_then(|v| v.as_str()) { Some(t) => t.to_owned(), None => return Err(SearchEngineError::SchemaMismatch) };
    Ok((tid, title))
}

/// Relies on tantivy's AllQuery with a bounded TopDocs collector and
/// Searcher::doc: a match-all scan of the reader's snapshot returns the
/// keys of up to `limit` live documents; it returns none only when the
/// snapshot holds no document.
#[verifier::external_body]
pub(crate) fn fetch_all_ids(s: &SearchState, limit: usize) -> (r: Result<
    Vec<i64>,
    SearchEngineError,
>)
    requires
        limit >= 1,
    ensures
        r matches Ok(ids) ==> ids@.len() <= limit && (forall|j: int|
            0 <= j < ids@.len() ==> has_key(visible_docs(*s), ids@[j] as int)) && (ids@.len() == 0
            ==> visible_docs(*s).len() == 0),
{
    let searcher = s.reader.searcher();
    let top = searcher.search(&AllQuery, &TopDocs::with_limit(limit).order_by_score()).map_err(|_e| SearchEngineError::SearchUnavailable)?;
    let mut ids: Vec<i64> = Vec::new();
    for (_score, addr) in top {
        let (tid, _title) = fetch_stored(s, &searcher, addr)?;
        ids.push(tid);
    }
    Ok(ids)
}

/// Relies on tantivy::IndexWriter::garbage_collect_files: reclaims disk
/// space from segments no commit references; it changes no document.
#[verifier::external_body]
pub(crate) fn garbage_collect(s: &SearchState) -> (r: Result<(), SearchEngineError>) {
    match s.writer.garbage_collect_files().wait() {
        Ok(_res) => Ok(()),
        Err(_e) => Err(SearchEngineError::StorageUnavailable),
    }
}

} // verus!
