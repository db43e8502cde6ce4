use vstd::prelude::*;

use crate::crud::doc_by_id;
use crate::models::{indexed_doc, DocView, Post, SearchEngineError};
use crate::state::{
    commit_state, committed_docs, delete_term_i64, docs_with_key, fetch_all_ids, garbage_collect,
    has_key, pending_docs, reload_state, remove_key, rollback_state, unique_keys, visible_docs,
    SearchState,
};

verus! {

/// How many live keys one pass of the bulk clear fetches and deletes
/// before it commits and releases the writer.
pub const CLEAR_CHUNK: usize = 10_000;

/// One unit of work submitted to the mutation coordinator.
pub enum MutationCommand {
    /// Insert the post, or replace the document carrying its key when
    /// `overwrite` holds; with `overwrite` false an existing document is
    /// left untouched and the command is a silent no-op.
    Upsert { post: Post, overwrite: bool },
    /// Remove every document carrying the key; removing an absent key is a
    /// no-op, not an error.
    Delete { thread_id: i64 },
}

/// Mathematical view of a mutation command.
pub enum CommandView {
    Upsert { doc: DocView, overwrite: bool },
    Delete { thread_id: int },
}

impl View for MutationCommand {
    type V = CommandView;

    open spec fn view(&self) -> CommandView {
        match self {
            MutationCommand::Upsert { post, overwrite } => CommandView::Upsert {
                doc: post@,
                overwrite: *overwrite,
            },
            MutationCommand::Delete { thread_id } => CommandView::Delete {
                thread_id: *thread_id as int,
            },
        }
    }
}

/// The views of a batch of commands.
pub open spec fn views_of(cs: Seq<MutationCommand>) -> Seq<CommandView> {
    cs.map_values(|c: MutationCommand| c@)
}

/// What one command does to the write buffer. An overwriting upsert
/// buffers a delete-by-term ahead of its add — a no-op when the key is
/// new — so exactly one document per key survives a batch however often
/// the key repeats. Only the skip policy consults the reader's snapshot,
/// which does not see buffered operations; within one batch `visible`
/// stays the snapshot the batch started from.
pub open spec fn apply_command(
    visible: Seq<DocView>,
    pending: Seq<DocView>,
    c: CommandView,
) -> Seq<DocView> {
    match c {
        CommandView::Delete { thread_id } => remove_key(pending, thread_id),
        CommandView::Upsert { doc, overwrite } => {
            if overwrite {
                remove_key(pending, doc.thread_id).push(indexed_doc(doc))
            } else if !has_key(visible, doc.thread_id) {
                pending.push(indexed_doc(doc))
            } else {
                pending
            }
        },
    }
}

/// What a batch does to the write buffer, command by command in
/// submission order.
pub open spec fn apply_commands(
    visible: Seq<DocView>,
    pending: Seq<DocView>,
    cs: Seq<CommandView>,
) -> Seq<DocView>
    decreases cs.len(),
{
    if cs.len() == 0 {
        pending
    } else {
        apply_command(visible, apply_commands(visible, pending, cs.drop_last()), cs.last())
    }
}

/// Whether a command changes the buffer: only an upsert of a key already
/// present in the snapshot, with overwrite off, is skipped.
pub open spec fn command_applies(visible: Seq<DocView>, c: CommandView) -> bool {
    match c {
        CommandView::Delete { .. } => true,
        CommandView::Upsert { doc, overwrite } => overwrite || !has_key(visible, doc.thread_id),
    }
}

/// Applies one batch of commands through the exclusive writer and commits,
/// then reloads the reader, so a successful call leaves the index settled
/// on the batch's outcome. The buffer is rolled back to the committed
/// state first, so leftovers of an earlier failed batch are never
/// committed by this one: each batch is all-or-nothing. Per-item outcomes
/// are reported: the flag for a command says whether it changed the
/// buffer rather than being skipped. On failure nothing beyond the
/// previously committed state is visible, except that a failure of the
/// final reload can leave the reader one commit behind the applied batch.
pub fn modify_index(s: &mut SearchState, commands: &Vec<MutationCommand>) -> (r: Result<
    Vec<bool>,
    SearchEngineError,
>)
    ensures
        r is Ok ==> committed_docs(*final(s)) == apply_commands(
            visible_docs(*old(s)),
            committed_docs(*old(s)),
            views_of(commands@),
        ),
        r is Ok ==> pending_docs(*final(s)) == committed_docs(*final(s)) && visible_docs(
            *final(s),
        ) == committed_docs(*final(s)),
        r matches Ok(applied) ==> applied@.len() == commands@.len() && (forall|i: int|
            0 <= i < commands@.len() ==> applied@[i] == command_applies(
                visible_docs(*old(s)),
                commands@[i]@,
            )),
        r is Err ==> visible_docs(*final(s)) == visible_docs(*old(s)),
        r is Err ==> committed_docs(*final(s)) == committed_docs(*old(s)) || committed_docs(
            *final(s),
        ) == apply_commands(visible_docs(*old(s)), committed_docs(*old(s)), views_of(commands@)),
{
    let ghost vis0 = visible_docs(*s);
    let ghost com0 = committed_docs(*s);
    match rollback_state(s) {
        Ok(()) => {},
        Err(e) => {
            return Err(e);
        },
    }
    let mut applied: Vec<bool> = Vec::new();
    let mut idx: usize = 0;
    while idx < commands.len()
        invariant
            vis0 == visible_docs(*old(s)),
            com0 == committed_docs(*old(s)),
            idx <= commands@.len(),
            applied@.len() == idx,
            visible_docs(*s) == vis0,
            committed_docs(*s) == com0,
            pending_docs(*s) == apply_commands(vis0, com0, views_of(commands@).take(idx as int)),
            forall|i: int|
                0 <= i < idx ==> applied@[i] == command_applies(vis0, commands@[i]@),
        decreases commands@.len() - idx,
    {
        let ghost pen_here = pending_docs(*s);
        let cmd = &commands[idx];
        match cmd {
            MutationCommand::Delete { thread_id } => {
                delete_term_i64(s, *thread_id);
                applied.push(true);
            },
            MutationCommand::Upsert { post, overwrite } => {
                if *overwrite {
                    delete_term_i64(s, post.thread_id);
                    match s.add(post) {
                        Ok(()) => {},
                        Err(e) => {
                            return Err(e);
                        },
                    }
                    applied.push(true);
                } else {
                    let present = match doc_by_id(s, post.thread_id) {
                        Ok(found) => found.is_some(),
                        Err(e) => {
                            return Err(e);
                        },
                    };
                    if present {
                        applied.push(false);
                    } else {
                        match s.add(post) {
                            Ok(()) => {},
                            Err(e) => {
                                return Err(e);
                            },
                        }
                        applied.push(true);
                    }
                }
            },
        }
        proof {
            let cs = views_of(commands@);
            assert(cs.take(idx + 1).drop_last() =~= cs.take(idx as int));
            assert(cs.take(idx + 1).last() == commands@[idx as int]@);
            assert(pending_docs(*s) == apply_command(vis0, pen_here, commands@[idx as int]@));
        }
        idx = idx + 1;
    }
    proof {
        assert(views_of(commands@).take(commands@.len() as int) =~= views_of(commands@));
    }
    match commit_state(s) {
        Ok(()) => {},
        Err(e) => {
            return Err(e);
        },
    }
    match reload_state(s) {
        Ok(()) => {},
        Err(e) => {
            return Err(e);
        },
    }
    Ok(applied)
}

/// Scans the reader's snapshot with a match-all query for up to `limit`
/// live document keys; an empty answer means the snapshot is empty. This
/// is the scan the bulk clear loops on.
pub fn scan_ids(s: &SearchState, limit: usize) -> (r: Result<Vec<i64>, SearchEngineError>)
    requires
        limit >= 1,
    ensures
        r matches Ok(ids) ==> ids@.len() <= limit && (forall|j: int|
            0 <= j < ids@.len() ==> has_key(visible_docs(*s), ids@[j] as int)) && (ids@.len() == 0
            ==> visible_docs(*s).len() == 0),
{
    fetch_all_ids(s, limit)
}

/// The documents that survive deleting every key of the list, in order.
pub open spec fn remove_keys(docs: Seq<DocView>, keys: Seq<i64>) -> Seq<DocView>
    decreases keys.len(),
{
    if keys.len() == 0 {
        docs
    } else {
        remove_key(remove_keys(docs, keys.drop_last()), keys.last() as int)
    }
}

/// Deleting one key never grows the document list, and strictly shrinks it
/// when the key is present.
proof fn lemma_remove_key_len(docs: Seq<DocView>, k: int)
    ensures
        remove_key(docs, k).len() <= docs.len(),
        has_key(docs, k) ==> remove_key(docs, k).len() < docs.len(),
    decreases docs.len(),
{
    reveal(Seq::filter);
    if docs.len() > 0 {
        lemma_remove_key_len(docs.drop_last(), k);
        if has_key(docs, k) && docs.last().thread_id != k {
            let i = choose|i: int| 0 <= i < docs.len() && docs[i].thread_id == k;
            assert(docs.drop_last()[i] == docs[i]);
            assert(has_key(docs.drop_last(), k));
        }
    }
}

/// Deleting the keys of one list and then of another deletes the keys of
/// their concatenation.
proof fn lemma_remove_keys_concat(docs: Seq<DocView>, a: Seq<i64>, b: Seq<i64>)
    ensures
        remove_keys(remove_keys(docs, a), b) == remove_keys(docs, a + b),
    decreases b.len(),
{
    if b.len() == 0 {
        assert(a + b =~= a);
    } else {
        lemma_remove_keys_concat(docs, a, b.drop_last());
        assert((a + b).drop_last() =~= a + b.drop_last());
        assert((a + b).last() == b.last());
    }
}

/// Deleting a list of keys never grows the document list, and strictly
/// shrinks it when the first key is present.
proof fn lemma_remove_keys_len(docs: Seq<DocView>, keys: Seq<i64>)
    ensures
        remove_keys(docs, keys).len() <= docs.len(),
        keys.len() > 0 && has_key(docs, keys[0] as int) ==> remove_keys(docs, keys).len()
            < docs.len(),
    decreases keys.len(),
{
    if keys.len() > 0 {
        lemma_remove_keys_len(docs, keys.drop_last());
        lemma_remove_key_len(remove_keys(docs, keys.drop_last()), keys.last() as int);
        if keys.len() > 1 {
            assert(keys.drop_last()[0] == keys[0]);
        } else {
            assert(remove_keys(docs, keys.drop_last()) == docs);
        }
    }
}

/// Filtering a sequence extended by one element keeps the element exactly
/// when it satisfies the predicate.
proof fn lemma_filter_push(s: Seq<DocView>, pred: spec_fn(DocView) -> bool, e: DocView)
    ensures
        s.push(e).filter(pred) == if pred(e) {
            s.filter(pred).push(e)
        } else {
            s.filter(pred)
        },
{
    reveal(Seq::filter);
    assert(s.push(e).drop_last() =~= s);
    assert(s.push(e).last() == e);
}

/// Filtering keeps nothing when no element satisfies the predicate.
proof fn lemma_filter_none(s: Seq<DocView>, pred: spec_fn(DocView) -> bool)
    requires
        forall|i: int| 0 <= i < s.len() ==> !pred(#[trigger] s[i]),
    ensures
        s.filter(pred) == Seq::<DocView>::empty(),
    decreases s.len(),
{
    reveal(Seq::filter);
    if s.len() > 0 {
        assert(forall|i: int|
            0 <= i < s.drop_last().len() ==> #[trigger] s.drop_last()[i] == s[i]);
        lemma_filter_none(s.drop_last(), pred);
    }
}

/// Filtering keeps everything when every element satisfies the predicate.
proof fn lemma_filter_all(s: Seq<DocView>, pred: spec_fn(DocView) -> bool)
    requires
        forall|i: int| 0 <= i < s.len() ==> pred(#[trigger] s[i]),
    ensures
        s.filter(pred) == s,
    decreases s.len(),
{
    reveal(Seq::filter);
    if s.len() > 0 {
        assert(forall|i: int|
            0 <= i < s.drop_last().len() ==> #[trigger] s.drop_last()[i] == s[i]);
        lemma_filter_all(s.drop_last(), pred);
        assert(s.drop_last().push(s.last()) =~= s);
    }
}

/// After a delete-by-term, no document carries the deleted key.
proof fn lemma_key_after_remove(docs: Seq<DocView>, k: int)
    ensures
        docs_with_key(remove_key(docs, k), k) == Seq::<DocView>::empty(),
{
    let r = remove_key(docs, k);
    assert forall|i: int| 0 <= i < r.len() implies (#[trigger] r[i]).thread_id != k by {
        docs.lemma_filter_pred(|d: DocView| d.thread_id != k, i);
    }
    lemma_filter_none(r, |d: DocView| d.thread_id == k);
}

/// An overwriting upsert leaves exactly one document with the post's key
/// — the post's indexed form — whatever the buffer held and whatever the
/// snapshot shows.
proof fn lemma_upsert_overwrite_one(visible: Seq<DocView>, pending: Seq<DocView>, p: DocView)
    ensures
        docs_with_key(
            apply_command(visible, pending, CommandView::Upsert { doc: p, overwrite: true }),
            p.thread_id,
        ) == seq![indexed_doc(p)],
{
    let k = p.thread_id;
    let d = indexed_doc(p);
    let keyed = |x: DocView| x.thread_id == k;
    let r = remove_key(pending, k);
    lemma_key_after_remove(pending, k);
    lemma_filter_push(r, keyed, d);
    assert(Seq::<DocView>::empty().push(d) =~= seq![d]);
}

/// Law: overwriting upserts are idempotent. One `Upsert(P, overwrite)`
/// leaves exactly one document with P's key, holding P's indexed fields,
/// and repeating the upsert — against whatever snapshot the repeat sees,
/// in particular the reloaded one after the intervening commit — leaves
/// the buffer exactly as the first upsert left it.
pub proof fn lemma_upsert_overwrite_idempotent(
    visible: Seq<DocView>,
    pending: Seq<DocView>,
    later: Seq<DocView>,
    p: DocView,
)
    ensures
        docs_with_key(
            apply_command(visible, pending, CommandView::Upsert { doc: p, overwrite: true }),
            p.thread_id,
        ) == seq![indexed_doc(p)],
        ({
            let once = apply_command(
                visible,
                pending,
                CommandView::Upsert { doc: p, overwrite: true },
            );
            apply_command(later, once, CommandView::Upsert { doc: p, overwrite: true }) == once
        }),
{
    let k = p.thread_id;
    let d = indexed_doc(p);
    let not_keyed = |x: DocView| x.thread_id != k;
    lemma_upsert_overwrite_one(visible, pending, p);
    let once = apply_command(visible, pending, CommandView::Upsert { doc: p, overwrite: true });
    let r = remove_key(pending, k);
    lemma_filter_push(r, not_keyed, d);
    assert forall|i: int| 0 <= i < r.len() implies not_keyed(#[trigger] r[i]) by {
        pending.lemma_filter_pred(not_keyed, i);
    }
    lemma_filter_all(r, not_keyed);
    assert(remove_key(once, k) == r);
}

/// Law: an upsert without overwrite of a key the snapshot already holds
/// changes nothing: the buffer, and with it every existing document, is
/// left exactly as it was.
pub proof fn lemma_upsert_skip_existing(visible: Seq<DocView>, pending: Seq<DocView>, p: DocView)
    requires
        has_key(visible, p.thread_id),
    ensures
        apply_command(visible, pending, CommandView::Upsert { doc: p, overwrite: false })
            == pending,
{
}

/// Law: deletes are idempotent. Deleting a key no document carries is a
/// no-op, and deleting a key twice has exactly the effect of deleting it
/// once. At a batch boundary the buffer equals the committed index — the
/// coordinator rolls back before applying — so the no-op half says the
/// committed index is left unchanged.
pub proof fn lemma_delete_idempotent(visible: Seq<DocView>, pending: Seq<DocView>, t: int)
    ensures
        !has_key(pending, t) ==> apply_command(
            visible,
            pending,
            CommandView::Delete { thread_id: t },
        ) == pending,
        apply_command(
            visible,
            apply_command(visible, pending, CommandView::Delete { thread_id: t }),
            CommandView::Delete { thread_id: t },
        ) == apply_command(visible, pending, CommandView::Delete { thread_id: t }),
{
    let pred = |d: DocView| d.thread_id != t;
    if !has_key(pending, t) {
        assert(forall|i: int| 0 <= i < pending.len() ==> pred(#[trigger] pending[i]));
        lemma_filter_all(pending, pred);
    }
    let once = remove_key(pending, t);
    assert forall|i: int| 0 <= i < once.len() implies pred(#[trigger] once[i]) by {
        pending.lemma_filter_pred(pred, i);
    }
    lemma_filter_all(once, pred);
}

/// Law: point lookup is determined. On a snapshot whose keys are unique —
/// the settled-state invariant — at most one document carries a key, so
/// any two lookups of one snapshot that both find the key hand back the
/// same stored title.
pub proof fn lemma_lookup_determined(docs: Seq<DocView>, tid: int, t1: Seq<char>, t2: Seq<char>)
    requires
        unique_keys(docs),
        exists|i: int|
            0 <= i < docs.len() && (#[trigger] docs[i]).thread_id == tid && docs[i].title == t1,
        exists|i: int|
            0 <= i < docs.len() && (#[trigger] docs[i]).thread_id == tid && docs[i].title == t2,
    ensures
        t1 == t2,
{
    let i1 = choose|i: int|
        0 <= i < docs.len() && (#[trigger] docs[i]).thread_id == tid && docs[i].title == t1;
    let i2 = choose|i: int|
        0 <= i < docs.len() && (#[trigger] docs[i]).thread_id == tid && docs[i].title == t2;
    assert(i1 == i2);
}

/// Law: a batch holding two overwriting upserts of the same key — present
/// in the snapshot or not — converges to exactly one surviving document
/// for that key, the later upsert's indexed form, because each upsert's
/// delete-by-term also removes documents buffered earlier in the same
/// batch.
pub proof fn lemma_batch_duplicate_keys(
    visible: Seq<DocView>,
    pending: Seq<DocView>,
    p1: DocView,
    p2: DocView,
)
    requires
        p1.thread_id == p2.thread_id,
    ensures
        ({
            let batch = seq![
                CommandView::Upsert { doc: p1, overwrite: true },
                CommandView::Upsert { doc: p2, overwrite: true },
            ];
            docs_with_key(apply_commands(visible, pending, batch), p1.thread_id) == seq![
                indexed_doc(p2),
            ]
        }),
{
    let k = p1.thread_id;
    let keyed = |x: DocView| x.thread_id == k;
    let batch = seq![
        CommandView::Upsert { doc: p1, overwrite: true },
        CommandView::Upsert { doc: p2, overwrite: true },
    ];
    assert(batch.drop_last() =~= seq![CommandView::Upsert { doc: p1, overwrite: true }]);
    assert(batch.drop_last().drop_last() =~= Seq::<CommandView>::empty());
    assert(apply_commands(visible, pending, Seq::<CommandView>::empty()) == pending);
    let after1 = apply_commands(visible, pending, batch.drop_last());
    assert(after1 == remove_key(pending, k).push(indexed_doc(p1)));
    let after2 = apply_commands(visible, pending, batch);
    assert(after2 == remove_key(after1, k).push(indexed_doc(p2)));
    lemma_key_after_remove(after1, k);
    lemma_filter_push(remove_key(after1, k), keyed, indexed_doc(p2));
    assert(Seq::<DocView>::empty().push(indexed_doc(p2)) =~= seq![indexed_doc(p2)]);
}

/// The command upserts the key, with either overwrite policy.
pub open spec fn upserts_key(c: CommandView, k: int) -> bool {
    match c {
        CommandView::Upsert { doc, .. } => doc.thread_id == k,
        CommandView::Delete { .. } => false,
    }
}

/// The command is a skip-policy upsert of a key the snapshot does not
/// hold: it buffers a plain add with no delete in front of it.
pub open spec fn fresh_skip(visible: Seq<DocView>, c: CommandView, k: int) -> bool {
    match c {
        CommandView::Upsert { doc, overwrite } => !overwrite && doc.thread_id == k && !has_key(
            visible,
            k,
        ),
        CommandView::Delete { .. } => false,
    }
}

/// No skip-policy upsert of a snapshot-absent key repeats a key an
/// earlier command of the batch already upserted.
pub open spec fn no_repeated_fresh_skip(visible: Seq<DocView>, cs: Seq<CommandView>) -> bool {
    forall|i: int, j: int, k: int|
        0 <= i < j < cs.len() && #[trigger] upserts_key(cs[i], k) ==> !(#[trigger] fresh_skip(
            visible,
            cs[j],
            k,
        ))
}

/// Every key of `st` was either in the snapshot or upserted by one of the
/// prefix's commands.
spec fn keys_covered(visible: Seq<DocView>, prefix: Seq<CommandView>, st: Seq<DocView>) -> bool {
    forall|k: int|
        #[trigger] has_key(st, k) ==> has_key(visible, k) || (exists|i: int|
            0 <= i < prefix.len() && upserts_key(#[trigger] prefix[i], k))
}

/// A key found among the survivors of a filter was in the original list.
proof fn lemma_has_key_filter(s: Seq<DocView>, pred: spec_fn(DocView) -> bool, k: int)
    requires
        has_key(s.filter(pred), k),
    ensures
        has_key(s, k),
    decreases s.len(),
{
    reveal(Seq::filter);
    if s.len() > 0 {
        let f = s.filter(pred);
        if pred(s.last()) {
            let i = choose|i: int| 0 <= i < f.len() && f[i].thread_id == k;
            if i == f.len() - 1 {
                assert(s.last().thread_id == k);
            } else {
                assert(has_key(s.drop_last().filter(pred), k));
                lemma_has_key_filter(s.drop_last(), pred, k);
            }
        } else {
            lemma_has_key_filter(s.drop_last(), pred, k);
        }
        let w = choose|w: int| 0 <= w < s.drop_last().len() && s.drop_last()[w].thread_id == k;
        if has_key(s.drop_last(), k) {
            assert(s[w] == s.drop_last()[w]);
        }
    }
}

/// Filtering keeps keys unique.
proof fn lemma_unique_filter(s: Seq<DocView>, pred: spec_fn(DocView) -> bool)
    requires
        unique_keys(s),
    ensures
        unique_keys(s.filter(pred)),
    decreases s.len(),
{
    reveal(Seq::filter);
    if s.len() > 0 {
        let dl = s.drop_last();
        assert(forall|i: int| 0 <= i < dl.len() ==> #[trigger] dl[i] == s[i]);
        lemma_unique_filter(dl, pred);
        if pred(s.last()) {
            let f = s.filter(pred);
            assert(f == dl.filter(pred).push(s.last()));
            assert forall|i: int, j: int|
                0 <= i < j < f.len() implies (#[trigger] f[i]).thread_id != (
            #[trigger] f[j]).thread_id by {
                if j == f.len() - 1 {
                    if f[i].thread_id == s.last().thread_id {
                        lemma_has_key_filter(dl, pred, f[i].thread_id);
                        let w = choose|w: int|
                            0 <= w < dl.len() && dl[w].thread_id == f[i].thread_id;
                        assert(s[w].thread_id == s.last().thread_id);
                    }
                }
            }
        }
    }
}

/// Appending a document whose key is absent keeps keys unique.
proof fn lemma_unique_push(s: Seq<DocView>, d: DocView)
    requires
        unique_keys(s),
        !has_key(s, d.thread_id),
    ensures
        unique_keys(s.push(d)),
{
    let p = s.push(d);
    assert forall|i: int, j: int|
        0 <= i < j < p.len() implies (#[trigger] p[i]).thread_id != (#[trigger] p[j]).thread_id by {
        if j == p.len() - 1 {
            assert(p[i] == s[i]);
        }
    }
}

/// After a delete-by-term, the deleted key is gone.
proof fn lemma_no_key_after_remove(docs: Seq<DocView>, k: int)
    ensures
        !has_key(remove_key(docs, k), k),
{
    let r = remove_key(docs, k);
    assert forall|i: int| 0 <= i < r.len() implies (#[trigger] r[i]).thread_id != k by {
        docs.lemma_filter_pred(|d: DocView| d.thread_id != k, i);
    }
}

/// The induction behind the uniqueness law: along the batch, keys stay
/// unique and every key present is accounted for by the snapshot or by an
/// earlier upsert of the batch.
proof fn lemma_batch_unique_inner(visible: Seq<DocView>, pending: Seq<DocView>, cs: Seq<
    CommandView,
>)
    requires
        unique_keys(pending),
        forall|k: int| #[trigger] has_key(pending, k) ==> has_key(visible, k),
        no_repeated_fresh_skip(visible, cs),
    ensures
        unique_keys(apply_commands(visible, pending, cs)),
        keys_covered(visible, cs, apply_commands(visible, pending, cs)),
    decreases cs.len(),
{
    let st = apply_commands(visible, pending, cs);
    if cs.len() == 0 {
        assert(st == pending);
    } else {
        let prefix = cs.drop_last();
        let c = cs.last();
        assert(forall|i: int| 0 <= i < prefix.len() ==> #[trigger] prefix[i] == cs[i]);
        lemma_batch_unique_inner(visible, pending, prefix);
        let st0 = apply_commands(visible, pending, prefix);
        assert(st == apply_command(visible, st0, c));
        match c {
            CommandView::Delete { thread_id } => {
                lemma_unique_filter(st0, |d: DocView| d.thread_id != thread_id);
                assert forall|k: int| #[trigger] has_key(st, k) implies has_key(visible, k) || (
                exists|i: int|
                    0 <= i < cs.len() && upserts_key(#[trigger] cs[i], k)) by {
                    lemma_has_key_filter(st0, |d: DocView| d.thread_id != thread_id, k);
                }
            },
            CommandView::Upsert { doc, overwrite } => {
                let k = doc.thread_id;
                let d = indexed_doc(doc);
                if overwrite {
                    let r = remove_key(st0, k);
                    lemma_unique_filter(st0, |x: DocView| x.thread_id != k);
                    lemma_no_key_after_remove(st0, k);
                    lemma_unique_push(r, d);
                    assert forall|k2: int| #[trigger] has_key(st, k2) implies has_key(visible, k2)
                        || (exists|i: int|
                        0 <= i < cs.len() && upserts_key(#[trigger] cs[i], k2)) by {
                        let w = choose|w: int| 0 <= w < st.len() && st[w].thread_id == k2;
                        if w < r.len() {
                            assert(st[w] == r[w]);
                            lemma_has_key_filter(st0, |x: DocView| x.thread_id != k, k2);
                        } else {
                            assert(st[w] == d);
                            assert(upserts_key(cs[cs.len() - 1], k2));
                        }
                    }
                } else if !has_key(visible, k) {
                    assert(fresh_skip(visible, cs[cs.len() - 1], k));
                    if has_key(st0, k) {
                        let i = choose|i: int|
                            0 <= i < prefix.len() && upserts_key(#[trigger] prefix[i], k);
                        assert(upserts_key(cs[i], k));
                        assert(false);
                    }
                    lemma_unique_push(st0, d);
                    assert forall|k2: int| #[trigger] has_key(st, k2) implies has_key(visible, k2)
                        || (exists|i: int|
                        0 <= i < cs.len() && upserts_key(#[trigger] cs[i], k2)) by {
                        let w = choose|w: int| 0 <= w < st.len() && st[w].thread_id == k2;
                        if w < st0.len() {
                            assert(st[w] == st0[w]);
                            assert(has_key(st0, k2));
                        } else {
                            assert(upserts_key(cs[cs.len() - 1], k2));
                        }
                    }
                } else {
                    assert(st == st0);
                }
            },
        }
    }
}

/// Law: at most one document per key. Overwriting upserts and deletes
/// always preserve the invariant that no two documents share a
/// `thread_id`; the one way a batch can break it is a skip-policy upsert
/// of a snapshot-absent key whose key an earlier command of the same
/// batch already upserted — the stale-snapshot lookup then misses the
/// buffered document and adds a second one. A batch free of that pattern
/// preserves the invariant, given every key already present was in the
/// snapshot, as holds on a settled index where buffer and snapshot agree.
pub proof fn lemma_batch_preserves_unique(
    visible: Seq<DocView>,
    pending: Seq<DocView>,
    cs: Seq<CommandView>,
)
    requires
        unique_keys(pending),
        forall|k: int| #[trigger] has_key(pending, k) ==> has_key(visible, k),
        no_repeated_fresh_skip(visible, cs),
    ensures
        unique_keys(apply_commands(visible, pending, cs)),
{
    lemma_batch_unique_inner(visible, pending, cs);
}

/// Empties the index in bounded chunks: each pass reloads the reader,
/// fetches up to `chunk` live keys with a match-all scan, deletes them and
/// commits, so the writer is released between passes; the loop stops when
/// a scan of a fresh snapshot comes back empty. Buffered operations from
/// an earlier failed batch are rolled back first, and storage is reclaimed
/// once at the end. A failure leaves every already-committed chunk
/// deletion in place — the surviving committed documents are exactly the
/// old ones minus some deleted keys, each with its stored fields intact —
/// and the reader serves either its old snapshot or such a cleared one;
/// calling again resumes from whatever live documents remain.
pub fn clear_all(s: &mut SearchState, chunk: usize) -> (r: Result<(), SearchEngineError>)
    requires
        chunk >= 1,
    ensures
        r is Ok ==> committed_docs(*final(s)) == Seq::<DocView>::empty() && pending_docs(*final(s))
            == committed_docs(*final(s)) && visible_docs(*final(s)) == committed_docs(*final(s)),
        r is Err ==> exists|ks: Seq<i64>|
            committed_docs(*final(s)) == remove_keys(committed_docs(*old(s)), ks),
        r is Err ==> visible_docs(*final(s)) == visible_docs(*old(s)) || (exists|ks: Seq<i64>|
            visible_docs(*final(s)) == remove_keys(committed_docs(*old(s)), ks)),
{
    match rollback_state(s) {
        Ok(()) => {},
        Err(e) => {
            proof {
                assert(committed_docs(*s) == remove_keys(
                    committed_docs(*old(s)),
                    Seq::<i64>::empty(),
                ));
            }
            return Err(e);
        },
    }
    let ghost mut removed: Seq<i64> = Seq::empty();
    proof {
        assert(committed_docs(*s) == remove_keys(committed_docs(*old(s)), removed));
    }
    let ghost mut vis_removed: Seq<i64> = Seq::empty();
    let mut done = false;
    while !done
        invariant
            chunk >= 1,
            pending_docs(*s) == committed_docs(*s),
            committed_docs(*s) == remove_keys(committed_docs(*old(s)), removed),
            visible_docs(*s) == visible_docs(*old(s)) || visible_docs(*s) == remove_keys(
                committed_docs(*old(s)),
                vis_removed,
            ),
            done ==> committed_docs(*s).len() == 0 && visible_docs(*s) == committed_docs(*s),
        decreases committed_docs(*s).len(), (if done {
            0int
        } else {
            1int
        }),
    {
        match reload_state(s) {
            Ok(()) => {
                proof {
                    vis_removed = removed;
                }
            },
            Err(e) => {
                return Err(e);
            },
        }
        let ids = match fetch_all_ids(s, chunk) {
            Ok(v) => v,
            Err(e) => {
                return Err(e);
            },
        };
        if ids.len() == 0 {
            done = true;
        } else {
            let ghost pen_before = pending_docs(*s);
            let ghost com_before = committed_docs(*s);
            let ghost vis_before = visible_docs(*s);
            let mut j: usize = 0;
            while j < ids.len()
                invariant
                    j <= ids@.len(),
                    committed_docs(*s) == com_before,
                    visible_docs(*s) == vis_before,
                    pending_docs(*s) == remove_keys(pen_before, ids@.take(j as int)),
                decreases ids@.len() - j,
            {
                delete_term_i64(s, ids[j]);
                proof {
                    assert(ids@.take(j + 1).drop_last() =~= ids@.take(j as int));
                }
                j = j + 1;
            }
            proof {
                assert(ids@.take(ids@.len() as int) =~= ids@);
                lemma_remove_keys_len(pen_before, ids@);
            }
            match commit_state(s) {
                Ok(()) => {},
                Err(e) => {
                    return Err(e);
                },
            }
            proof {
                lemma_remove_keys_concat(committed_docs(*old(s)), removed, ids@);
                removed = removed + ids@;
            }
        }
    }
    match garbage_collect(s) {
        Ok(()) => {},
        Err(e) => {
            return Err(e);
        },
    }
    Ok(())
}

/// Empties the index, chunking its work so searches and unrelated batches
/// are never blocked for the whole clearance.
pub fn drop_index(s: &mut SearchState) -> (r: Result<(), SearchEngineError>)
    ensures
        r is Ok ==> committed_docs(*final(s)) == Seq::<DocView>::empty() && pending_docs(*final(s))
            == committed_docs(*final(s)) && visible_docs(*final(s)) == committed_docs(*final(s)),
        r is Err ==> exists|ks: Seq<i64>|
            committed_docs(*final(s)) == remove_keys(committed_docs(*old(s)), ks),
        r is Err ==> visible_docs(*final(s)) == visible_docs(*old(s)) || (exists|ks: Seq<i64>|
            visible_docs(*final(s)) == remove_keys(committed_docs(*old(s)), ks)),
{
    clear_all(s, CLEAR_CHUNK)
}

} // verus!
