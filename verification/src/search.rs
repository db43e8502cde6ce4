use vstd::prelude::*;

use crate::models::SearchEngineError;
use crate::preprocess;
use crate::push_char;
use crate::state::{unique_keys, visible_docs, SearchState};
use tantivy::collector::TopDocs;

verus! {

/// One ranked result: the relevance score the engine printed, and the
/// hit's stored fields.
#[derive(Debug)]
pub struct SearchHit {
    pub score: String,
    pub thread_id: i64,
    pub title: String,
}

/// Mathematical view of a ranked result.
pub struct HitView {
    pub score: Seq<char>,
    pub thread_id: int,
    pub title: Seq<char>,
}

impl View for SearchHit {
    type V = HitView;

    open spec fn view(&self) -> HitView {
        HitView { score: self.score@, thread_id: self.thread_id as int, title: self.title@ }
    }
}

/// The views of a list of hits.
pub open spec fn hit_views(hs: Seq<SearchHit>) -> Seq<HitView> {
    hs.map_values(|h: SearchHit| h@)
}

/// The hit reports a document of the snapshot: its key and stored title.
pub open spec fn hit_in(docs: Seq<crate::models::DocView>, h: HitView) -> bool {
    exists|i: int|
        0 <= i < docs.len() && (#[trigger] docs[i]).thread_id == h.thread_id && docs[i].title
            == h.title
}

/// The keys of the snapshot documents the engine's query matching selects
/// for an analyzed query text. The match set is a function of the
/// documents and the query alone: the analysis that feeds the matching is
/// registered once, from one fixed configuration, at every construction
/// of a state.
pub uninterp spec fn match_keys(docs: Seq<crate::models::DocView>, q: Seq<char>) -> Set<int>;

/// Whether the engine's query parser accepts an analyzed query text; a
/// function of the text alone, the parser configuration being fixed at
/// every construction of a state.
pub uninterp spec fn query_parses(q: Seq<char>) -> bool;

/// The hits answer the query against the snapshot: each reports a
/// matching document, at most `k` are returned, and fewer than `k` come
/// back only when every matching key is among them.
pub open spec fn hits_answer(
    hs: Seq<HitView>,
    docs: Seq<crate::models::DocView>,
    q: Seq<char>,
    k: int,
) -> bool {
    &&& hs.len() <= k
    &&& forall|j: int|
        0 <= j < hs.len() ==> hit_in(docs, #[trigger] hs[j]) && match_keys(docs, q).contains(
            hs[j].thread_id,
        )
    &&& hs.len() < k ==> (forall|key: int|
        match_keys(docs, q).contains(key) ==> exists|j: int|
            0 <= j < hs.len() && (#[trigger] hs[j]).thread_id == key)
    &&& unique_keys(docs) ==> (forall|j1: int, j2: int|
        0 <= j1 < j2 < hs.len() ==> (#[trigger] hs[j1]).thread_id != (
        #[trigger] hs[j2]).thread_id)
}

/// The character standing for one decimal digit.
pub open spec fn digit_char(d: nat) -> char {
    if d == 0 {
        '0'
    } else if d == 1 {
        '1'
    } else if d == 2 {
        '2'
    } else if d == 3 {
        '3'
    } else if d == 4 {
        '4'
    } else if d == 5 {
        '5'
    } else if d == 6 {
        '6'
    } else if d == 7 {
        '7'
    } else if d == 8 {
        '8'
    } else {
        '9'
    }
}

/// The decimal digits of a natural number, most significant first.
pub open spec fn dec_digits(n: nat) -> Seq<char>
    decreases n,
{
    if n < 10 {
        seq![digit_char(n)]
    } else {
        dec_digits(n / 10).push(digit_char(n % 10))
    }
}

/// The decimal writing of an integer: a minus sign for negative values,
/// then the digits of its magnitude.
pub open spec fn int_str(n: int) -> Seq<char> {
    if n < 0 {
        seq!['-'] + dec_digits((-n) as nat)
    } else {
        dec_digits(n as nat)
    }
}

/// What one character becomes inside a rendered string value: quote,
/// backslash and the common control characters are escaped.
pub open spec fn json_escape_char(c: char) -> Seq<char> {
    if c == '"' {
        seq!['\\', '"']
    } else if c == '\\' {
        seq!['\\', '\\']
    } else if c == '\n' {
        seq!['\\', 'n']
    } else if c == '\r' {
        seq!['\\', 'r']
    } else if c == '\t' {
        seq!['\\', 't']
    } else {
        seq![c]
    }
}

/// A whole string escaped character by character.
pub open spec fn json_escape(s: Seq<char>) -> Seq<char>
    decreases s.len(),
{
    if s.len() == 0 {
        Seq::empty()
    } else {
        json_escape(s.drop_last()) + json_escape_char(s.last())
    }
}

/// One rendered hit: its score, then an object carrying the stored fields.
pub open spec fn render_hit(h: HitView) -> Seq<char> {
    seq!['['] + h.score + ",{\"thread_id\":"@ + int_str(h.thread_id) + ",\"title\":\""@
        + json_escape(h.title) + "\"}]"@
}

/// The rendered hits, comma separated.
pub open spec fn render_hits(hs: Seq<HitView>) -> Seq<char>
    decreases hs.len(),
{
    if hs.len() == 0 {
        Seq::empty()
    } else if hs.len() == 1 {
        render_hit(hs[0])
    } else {
        render_hits(hs.drop_last()) + seq![','] + render_hit(hs.last())
    }
}

/// The whole response body: the rendered hits as one array.
pub open spec fn render_response(hs: Seq<HitView>) -> Seq<char> {
    seq!['['] + render_hits(hs) + seq![']']
}

/// The character of one digit value.
fn digit_of(d: u64) -> (c: char)
    requires
        d < 10,
    ensures
        c == digit_char(d as nat),
{
    match d {
        0 => '0',
        1 => '1',
        2 => '2',
        3 => '3',
        4 => '4',
        5 => '5',
        6 => '6',
        7 => '7',
        8 => '8',
        _ => '9',
    }
}

/// Appends the decimal digits of a natural number.
fn push_dec(out: &mut String, n: u64)
    ensures
        final(out)@ == old(out)@ + dec_digits(n as nat),
    decreases n,
{
    if n >= 10 {
        push_dec(out, n / 10);
    }
    push_char(out, digit_of(n % 10));
    proof {
        if n < 10 {
            vstd::arithmetic::div_mod::lemma_small_mod(n as nat, 10);
            assert(final(out)@ =~= old(out)@ + dec_digits(n as nat));
        } else {
            assert(final(out)@ =~= old(out)@ + dec_digits(n as nat));
        }
    }
}

/// Writes an integer in decimal, exactly as `int_str` says.
pub fn i64_to_string(n: i64) -> (r: String)
    ensures
        r@ == int_str(n as int),
{
    let mut out = String::new();
    if n >= 0 {
        push_dec(&mut out, n as u64);
        proof {
            assert(out@ =~= int_str(n as int));
        }
    } else {
        push_char(&mut out, '-');
        let mag: u64 = if n == i64::MIN {
            9223372036854775808
        } else {
            (-n) as u64
        };
        push_dec(&mut out, mag);
        proof {
            assert(out@ =~= int_str(n as int));
        }
    }
    out
}

/// Escapes a string for inclusion in a rendered string value, exactly as
/// `json_escape` says.
pub fn json_escape_str(s: &str) -> (r: String)
    ensures
        r@ == json_escape(s@),
{
    let n = s.unicode_len();
    let mut out = String::new();
    let mut i: usize = 0;
    while i < n
        invariant
            n == s@.len(),
            i <= n,
            out@ == json_escape(s@.take(i as int)),
        decreases n - i,
    {
        let c = s.get_char(i);
        if c == '"' {
            out.append("\\\"");
        } else if c == '\\' {
            out.append("\\\\");
        } else if c == '\n' {
            out.append("\\n");
        } else if c == '\r' {
            out.append("\\r");
        } else if c == '\t' {
            out.append("\\t");
        } else {
            push_char(&mut out, c);
        }
        proof {
            reveal_strlit("\\\"");
            reveal_strlit("\\\\");
            reveal_strlit("\\n");
            reveal_strlit("\\r");
            reveal_strlit("\\t");
            assert(s@.take(i + 1).drop_last() =~= s@.take(i as int));
            assert(s@.take(i + 1).last() == s@[i as int]);
            assert(out@ =~= json_escape(s@.take(i + 1)));
        }
        i = i + 1;
    }
    proof {
        assert(s@.take(n as int) =~= s@);
    }
    out
}

/// Appends one rendered hit.
fn push_hit(out: &mut String, h: &SearchHit)
    ensures
        final(out)@ == old(out)@ + render_hit(h@),
{
    push_char(out, '[');
    out.append(h.score.as_str());
    out.append(",{\"thread_id\":");
    let tid = i64_to_string(h.thread_id);
    out.append(tid.as_str());
    out.append(",\"title\":\"");
    let esc = json_escape_str(h.title.as_str());
    out.append(esc.as_str());
    out.append("\"}]");
    proof {
        assert(final(out)@ =~= old(out)@ + render_hit(h@));
    }
}

/// Renders ranked hits as one response body, exactly as `render_response`
/// says.
pub fn render_results(hits: &Vec<SearchHit>) -> (r: String)
    ensures
        r@ == render_response(hit_views(hits@)),
{
    let mut out = String::new();
    push_char(&mut out, '[');
    let mut i: usize = 0;
    while i < hits.len()
        invariant
            i <= hits@.len(),
            out@ == seq!['['] + render_hits(hit_views(hits@).take(i as int)),
        decreases hits@.len() - i,
    {
        if i > 0 {
            push_char(&mut out, ',');
        }
        push_hit(&mut out, &hits[i]);
        proof {
            assert(hit_views(hits@).take(i + 1).drop_last() =~= hit_views(hits@).take(i as int));
            assert(hit_views(hits@).take(i + 1).last() == hits@[i as int]@);
            assert(out@ =~= seq!['['] + render_hits(hit_views(hits@).take(i + 1)));
        }
        i = i + 1;
    }
    push_char(&mut out, ']');
    proof {
        assert(hit_views(hits@).take(hits@.len() as int) =~= hit_views(hits@));
        assert(out@ =~= render_response(hit_views(hits@)));
    }
    out
}

/// Relies on tantivy's QueryParser::parse_query, Searcher::search with a
/// bounded TopDocs collector, and Searcher::doc: the parsed query runs
/// against the reader's snapshot, and every hit returned is a matching
/// document of that snapshot with its stored fields, at most `limit` of
/// them, in the engine's descending score order. The collector keeps the
/// best `limit` of the matching documents, so when fewer than `limit`
/// come back nothing was truncated and every matching key is reported;
/// hits carry distinct document addresses, so on a snapshot with unique
/// keys no two hits share a key. A query the parser refuses is the
/// caller's error, returned at once and by nothing else, so the
/// query-syntax outcome is exactly parser refusal of the text; everything
/// else that fails is a transient engine failure.
#[verifier::external_body]
pub(crate) fn search_query(s: &SearchState, qtext: &str, limit: usize) -> (r: Result<
    Vec<SearchHit>,
    SearchEngineError,
>)
    requires
        limit >= 1,
    ensures
        r matches Ok(hits) ==> hits@.len() <= limit,
        r matches Ok(hits) ==> (forall|j: int|
            0 <= j < hits@.len() ==> hit_in(visible_docs(*s), #[trigger] hits@[j]@) && match_keys(
                visible_docs(*s),
                qtext@,
            ).contains(hits@[j]@.thread_id)),
        r matches Ok(hits) ==> hits@.len() < limit ==> (forall|key: int|
            match_keys(visible_docs(*s), qtext@).contains(key) ==> exists|j: int|
                0 <= j < hits@.len() && (#[trigger] hits@[j]@).thread_id == key),
        r matches Ok(hits) ==> unique_keys(visible_docs(*s)) ==> (forall|j1: int, j2: int|
            0 <= j1 < j2 < hits@.len() ==> (#[trigger] hits@[j1]@).thread_id != (
            #[trigger] hits@[j2]@).thread_id),
        r is Err ==> (r->Err_0 == SearchEngineError::QuerySyntaxError || r->Err_0
            == SearchEngineError::SearchUnavailable || r->Err_0
            == SearchEngineError::SchemaMismatch),
        r is Err ==> (r->Err_0 == SearchEngineError::QuerySyntaxError <==> !query_parses(qtext@)),
        !query_parses(qtext@) ==> r is Err,
{
    let query = s.parser.parse_query(qtext).map_err(|_e| SearchEngineError::QuerySyntaxError)?;
    let searcher = s.reader.searcher();
    let top = searcher.search(&query, &TopDocs::with_limit(limit).order_by_score()).map_err(|_e| SearchEngineError::SearchUnavailable)?;
    let mut hits: Vec<SearchHit> = Vec::new();
    for (score, addr) in top {
        let (thread_id, title) = crate::state::fetch_stored(s, &searcher, addr)?;
        hits.push(SearchHit { score: score.to_string(), thread_id, title });
    }
    Ok(hits)
}

/// Runs one free-text query: the text is normalized by the same pipeline
/// indexed content went through, parsed against the searchable fields, and
/// executed against the last reloaded snapshot. Every hit reports a
/// matching document of that snapshot, at most `topk` of them ranked by
/// descending score, and fewer than `topk` only when every matching key
/// is among them.
pub fn search_hits(s: &SearchState, query: &str, topk: usize) -> (r: Result<
    Vec<SearchHit>,
    SearchEngineError,
>)
    requires
        topk >= 1,
    ensures
        r matches Ok(hits) ==> hits_answer(
            hit_views(hits@),
            visible_docs(*s),
            crate::normalize_spec(query@),
            topk as int,
        ),
        r is Err ==> (r->Err_0 == SearchEngineError::QuerySyntaxError || r->Err_0
            == SearchEngineError::SearchUnavailable || r->Err_0
            == SearchEngineError::SchemaMismatch),
        r is Err ==> (r->Err_0 == SearchEngineError::QuerySyntaxError <==> !query_parses(
            crate::normalize_spec(query@),
        )),
        !query_parses(crate::normalize_spec(query@)) ==> r is Err,
{
    let qtext = preprocess(query);
    let r = search_query(s, qtext.as_str(), topk);
    proof {
        if r is Ok {
            let hits = r->Ok_0;
            let hs = hit_views(hits@);
            assert(forall|j: int| 0 <= j < hs.len() ==> #[trigger] hs[j] == hits@[j]@);
            assert forall|key: int|
                hs.len() < topk && match_keys(visible_docs(*s), qtext@).contains(key) implies (
            exists|j: int| 0 <= j < hs.len() && (#[trigger] hs[j]).thread_id == key) by {
                let j = choose|j: int|
                    0 <= j < hits@.len() && (#[trigger] hits@[j]@).thread_id == key;
                assert(hs[j] == hits@[j]@);
            }
            if unique_keys(visible_docs(*s)) {
                assert forall|j1: int, j2: int|
                    0 <= j1 < j2 < hs.len() implies (#[trigger] hs[j1]).thread_id != (
                #[trigger] hs[j2]).thread_id by {
                    assert(hs[j1] == hits@[j1]@);
                    assert(hs[j2] == hits@[j2]@);
                }
            }
        }
    }
    r
}

/// Runs one free-text query as `search_hits` does and renders the ranked
/// hits as one response body.
pub fn search_index(s: &SearchState, query: &str, topk: usize) -> (r: Result<
    String,
    SearchEngineError,
>)
    requires
        topk >= 1,
    ensures
        r matches Ok(body) ==> exists|hs: Seq<HitView>|
            #[trigger] hits_answer(hs, visible_docs(*s), crate::normalize_spec(query@), topk as int)
                && body@ == render_response(hs),
        r is Err ==> (r->Err_0 == SearchEngineError::QuerySyntaxError || r->Err_0
            == SearchEngineError::SearchUnavailable || r->Err_0
            == SearchEngineError::SchemaMismatch),
        r is Err ==> (r->Err_0 == SearchEngineError::QuerySyntaxError <==> !query_parses(
            crate::normalize_spec(query@),
        )),
        !query_parses(crate::normalize_spec(query@)) ==> r is Err,
{
    let hits = match search_hits(s, query, topk) {
        Ok(v) => v,
        Err(e) => {
            return Err(e);
        },
    };
    let body = render_results(&hits);
    proof {
        assert(hits_answer(
            hit_views(hits@),
            visible_docs(*s),
            crate::normalize_spec(query@),
            topk as int,
        ));
    }
    Ok(body)
}

} // verus!
