//! The search engine's own rules: which metadata keys may be used as filters,
//! what is asked of the store, and how the scored candidates are ranked.
//! Running the query and computing the similarity of two vectors is left to
//! the caller.

use crate::text::chars_of;
use crate::views::{deep, lemma_deep_insert, lemma_deep_of_vec, lemma_vec_pushed};
use vstd::prelude::*;

verus! {

/// The filters and limits of a search.
#[derive(Clone, Debug)]
pub struct SearchParams<'a> {
    /// Pairs of a dotted key path into the conversation metadata and the
    /// value that the metadata must hold there.
    pub meta_equals: Vec<(&'a str, &'a str)>,
    /// The conversations to search; all where the list is empty.
    pub conversation_ids: Vec<&'a str>,
    /// How many results are wanted.
    pub limit: usize,
    /// How many candidates are fetched for ranking.
    pub prefetch: Option<usize>,
}

/// The mathematical value of a [`SearchParams`].
pub struct SearchParamsModel {
    pub meta_equals: Seq<(Seq<char>, Seq<char>)>,
    pub conversation_ids: Seq<Seq<char>>,
    pub limit: usize,
    pub prefetch: Option<usize>,
}

impl<'a> View for SearchParams<'a> {
    type V = SearchParamsModel;

    open spec fn view(&self) -> SearchParamsModel {
        SearchParamsModel {
            meta_equals: self.meta_equals.deep_view(),
            conversation_ids: self.conversation_ids.deep_view(),
            limit: self.limit,
            prefetch: self.prefetch,
        }
    }
}

impl<'a> SearchParams<'a> {
    /// A search without filters for `limit` results.
    pub fn new(limit: usize) -> (out: Self)
        ensures
            out@ == (SearchParamsModel {
                meta_equals: Seq::empty(),
                conversation_ids: Seq::empty(),
                limit,
                prefetch: None,
            }),
    {
        let out = SearchParams {
            meta_equals: Vec::new(),
            conversation_ids: Vec::new(),
            limit,
            prefetch: None,
        };
        proof {
            assert(out.meta_equals.deep_view() =~= Seq::empty());
            assert(out.conversation_ids.deep_view() =~= Seq::empty());
        }
        out
    }
}

impl<'a> Default for SearchParams<'a> {
    fn default() -> (out: Self)
        ensures
            out@ == (SearchParamsModel {
                meta_equals: Seq::empty(),
                conversation_ids: Seq::empty(),
                limit: 10,
                prefetch: None,
            }),
    {
        SearchParams::new(10)
    }
}

/// Why a search could not be planned.
#[derive(Clone, Debug)]
pub enum SearchError {
    /// A metadata key is not a dotted path of plain segments.
    InvalidMetaKey(String),
}

/// The mathematical value of a [`SearchError`].
pub enum SearchFailure {
    InvalidMetaKey(Seq<char>),
}

impl View for SearchError {
    type V = SearchFailure;

    open spec fn view(&self) -> SearchFailure {
        match self {
            SearchError::InvalidMetaKey(key) => SearchFailure::InvalidMetaKey(key@),
        }
    }
}

/// Whether a character may stand in a segment of a metadata key: an ASCII
/// letter or digit, an underscore or a hyphen.
pub open spec fn key_char(c: char) -> bool {
    ||| ('a' <= c && c <= 'z')
    ||| ('A' <= c && c <= 'Z')
    ||| ('0' <= c && c <= '9')
    ||| c == '_'
    ||| c == '-'
}

/// Whether a segment of a metadata key is valid: not empty, and made of key
/// characters only.
pub open spec fn valid_segment(segment: Seq<char>) -> bool {
    &&& segment.len() > 0
    &&& forall|i: int| 0 <= i < segment.len() ==> key_char(#[trigger] segment[i])
}

/// Length of the first segment of `s`: the index of its first dot, or the
/// length of `s` where it has none.
pub open spec fn segment_len(s: Seq<char>) -> nat
    decreases s.len(),
{
    if s.len() > 0 && s[0] != '.' {
        1 + segment_len(s.drop_first())
    } else {
        0
    }
}

/// Whether every dot-separated segment of `s` is valid.
pub open spec fn segments_valid(s: Seq<char>) -> bool
    decreases s.len(),
{
    let n = segment_len(s);
    if n < s.len() {
        valid_segment(s.take(n as int)) && segments_valid(s.skip(n as int + 1))
    } else {
        valid_segment(s)
    }
}

/// Whether a metadata key may be used as a filter: it is not empty, and each
/// of its dot-separated segments is valid.
pub open spec fn valid_meta_key(key: Seq<char>) -> bool {
    key.len() > 0 && segments_valid(key)
}

/// The first segment of `s` ends at a dot or at the end of `s`, and holds no
/// dot.
proof fn lemma_segment_len(s: Seq<char>)
    ensures
        segment_len(s) <= s.len(),
        segment_len(s) < s.len() ==> s[segment_len(s) as int] == '.',
        forall|i: int| 0 <= i < segment_len(s) ==> #[trigger] s[i] != '.',
    decreases s.len(),
{
    if s.len() > 0 && s[0] != '.' {
        let rest = s.drop_first();
        lemma_segment_len(rest);
        assert forall|i: int| 0 <= i < segment_len(s) implies #[trigger] s[i] != '.' by {
            if i > 0 {
                assert(s[i] == rest[i - 1]);
            }
        }
    }
}

/// A key that holds a character which is neither a key character nor a dot
/// is no valid metadata key.
pub proof fn lemma_foreign_char_rejected(key: Seq<char>, at: int)
    requires
        0 <= at < key.len(),
        !key_char(key[at]),
        key[at] != '.',
    ensures
        !valid_meta_key(key),
    decreases key.len(),
{
    let n = segment_len(key);
    lemma_segment_len(key);
    if n < key.len() {
        if at < n {
            assert(key.take(n as int)[at] == key[at]);
        } else {
            let rest = key.skip(n as int + 1);
            assert(rest[at - n - 1] == key[at]);
            lemma_foreign_char_rejected(rest, at - n - 1);
        }
    }
}

/// A key that holds a quote or a semicolon is no valid metadata key.
pub proof fn lemma_quote_or_semicolon_rejected(key: Seq<char>)
    requires
        key.contains('\'') || key.contains('"') || key.contains(';'),
    ensures
        !valid_meta_key(key),
{
    let c = if key.contains('\'') {
        '\''
    } else if key.contains('"') {
        '"'
    } else {
        ';'
    };
    let at = choose|i: int| 0 <= i < key.len() && key[i] == c;
    lemma_foreign_char_rejected(key, at);
}

/// Whether a character may stand in a segment of a metadata key.
fn is_key_char(c: char) -> (yes: bool)
    ensures
        yes == key_char(c),
{
    ('a' <= c && c <= 'z') || ('A' <= c && c <= 'Z') || ('0' <= c && c <= '9') || c == '_' || c
        == '-'
}

/// Checks the segment of `chars` that starts at `from`. Returns the index of
/// the dot that ends it, or the length of `chars`, where the segment is valid.
fn check_segment(chars: &[char], from: usize) -> (out: Option<usize>)
    requires
        from <= chars@.len(),
    ensures
        match out {
            Some(end) => end == from + segment_len(chars@.skip(from as int)) && valid_segment(
                chars@.subrange(from as int, end as int),
            ),
            None => !valid_segment(
                chars@.subrange(
                    from as int,
                    from + segment_len(chars@.skip(from as int)),
                ),
            ),
        },
{
    let n = chars.len();
    let ghost rest = chars@.skip(from as int);
    let mut at: usize = from;
    proof {
        lemma_segment_len(rest);
        assert(rest.skip(0) =~= rest);
    }
    while at < n && chars[at] != '.'
        invariant
            from <= at <= n,
            n == chars@.len(),
            rest == chars@.skip(from as int),
            segment_len(rest) == (at - from) + segment_len(rest.skip(at - from)),
            forall|j: int| from <= j < at ==> key_char(#[trigger] chars@[j]),
        decreases n - at,
    {
        proof {
            assert(rest.skip(at - from)[0] == chars@[at as int]);
            assert(rest.skip(at - from).drop_first() =~= rest.skip(at - from + 1));
        }
        if !is_key_char(chars[at]) {
            proof {
                let end = from + segment_len(rest);
                lemma_segment_len(rest.skip(at - from + 1));
                let segment = chars@.subrange(from as int, end as int);
                assert(segment[at - from] == chars@[at as int]);
            }
            return None;
        }
        at = at + 1;
    }
    proof {
        if at < n {
            assert(rest.skip(at - from)[0] == chars@[at as int]);
        }
        assert(segment_len(rest) == at - from);
    }
    if at == from {
        None
    } else {
        Some(at)
    }
}

/// Checks that a metadata key may be used as a filter.
pub fn ensure_valid_meta_key(key: &str) -> (out: Result<(), SearchError>)
    ensures
        out is Ok <==> valid_meta_key(key@),
        out is Err ==> out->Err_0@ == SearchFailure::InvalidMetaKey(key@),
{
    let chars = chars_of(key);
    let n = chars.len();
    if n == 0 {
        return Err(SearchError::InvalidMetaKey(key.to_owned()));
    }
    let mut from: usize = 0;
    proof {
        assert(chars@.skip(0) =~= chars@);
    }
    loop
        invariant
            from <= n,
            n == chars@.len(),
            chars@ == key@,
            segments_valid(chars@) == segments_valid(chars@.skip(from as int)),
        decreases n - from,
    {
        let ghost rest = chars@.skip(from as int);
        proof {
            lemma_segment_len(rest);
        }
        match check_segment(chars.as_slice(), from) {
            Some(end) => {
                proof {
                    assert(rest.take(end - from) =~= chars@.subrange(from as int, end as int));
                }
                if end < n {
                    proof {
                        assert(rest.skip(end - from + 1) =~= chars@.skip(end + 1));
                    }
                    from = end + 1;
                } else {
                    proof {
                        assert(rest.take(end - from) =~= rest);
                    }
                    return Ok(());
                }
            },
            None => {
                proof {
                    let end = from + segment_len(rest);
                    assert(rest.take(end - from) =~= chars@.subrange(from as int, end as int));
                    if end == n {
                        assert(rest.take(end - from) =~= rest);
                    }
                }
                return Err(SearchError::InvalidMetaKey(key.to_owned()));
            },
        }
    }
}

/// The query that selects every turn with an embedding.
pub const SELECT_TURNS: &'static str =
    "SELECT t.conversation_id, t.turn_index, t.user_text, t.assistant_text, t.embedding FROM turns t JOIN conversations c ON c.id = t.conversation_id WHERE t.embedding IS NOT NULL";

/// `count` placeholders, separated by commas.
pub open spec fn placeholders(count: nat) -> Seq<char>
    decreases count,
{
    if count == 0 {
        Seq::empty()
    } else if count == 1 {
        "?"@
    } else {
        placeholders((count - 1) as nat) + ", "@ + "?"@
    }
}

/// The clause that restricts a query to `count` conversations; empty where
/// `count` is zero.
pub open spec fn ids_clause(count: nat) -> Seq<char> {
    if count == 0 {
        Seq::empty()
    } else {
        " AND t.conversation_id IN ("@ + placeholders(count) + ")"@
    }
}

/// The clause that compares the metadata at `key` with a bound value.
pub open spec fn meta_clause(key: Seq<char>) -> Seq<char> {
    " AND json_extract(c.meta_json, '$."@ + key + "') = ?"@
}

/// The clauses for the metadata filters, in order.
pub open spec fn meta_clauses(filters: Seq<(Seq<char>, Seq<char>)>) -> Seq<char>
    decreases filters.len(),
{
    if filters.len() == 0 {
        Seq::empty()
    } else {
        meta_clauses(filters.drop_last()) + meta_clause(filters.last().0)
    }
}

/// The values of the metadata filters, in order.
pub open spec fn meta_values(filters: Seq<(Seq<char>, Seq<char>)>) -> Seq<Seq<char>> {
    Seq::new(filters.len(), |i: int| filters[i].1)
}

/// The key of the first metadata filter that is not valid.
pub open spec fn first_invalid_key(filters: Seq<(Seq<char>, Seq<char>)>) -> Option<Seq<char>>
    decreases filters.len(),
{
    if filters.len() == 0 {
        None
    } else {
        match first_invalid_key(filters.drop_last()) {
            Some(key) => Some(key),
            None => if valid_meta_key(filters.last().0) {
                None
            } else {
                Some(filters.last().0)
            },
        }
    }
}

/// How many candidates are fetched where the caller names no number: eight
/// times the limit, at most `usize::MAX`.
pub open spec fn default_prefetch(limit: usize) -> usize {
    if limit * 8 <= usize::MAX {
        (limit * 8) as usize
    } else {
        usize::MAX
    }
}

/// What is asked of the store: a query with placeholders, the texts bound to
/// them in order, and the number bound to the final placeholder, which limits
/// the rows.
#[derive(Clone, Debug)]
pub struct SearchQuery {
    pub sql: String,
    pub values: Vec<String>,
    pub prefetch: usize,
}

/// The mathematical value of a [`SearchQuery`].
pub struct SearchQueryModel {
    pub sql: Seq<char>,
    pub values: Seq<Seq<char>>,
    pub prefetch: usize,
}

impl View for SearchQuery {
    type V = SearchQueryModel;

    open spec fn view(&self) -> SearchQueryModel {
        SearchQueryModel {
            sql: self.sql@,
            values: self.values.deep_view(),
            prefetch: self.prefetch,
        }
    }
}

/// How a search goes on.
#[derive(Clone, Debug)]
pub enum SearchPlan {
    /// Nothing can be found: the result is empty.
    Empty,
    /// The store is asked for candidates.
    Query(SearchQuery),
}

/// The mathematical value of a [`SearchPlan`].
pub enum SearchPlanModel {
    Empty,
    Query(SearchQueryModel),
}

impl View for SearchPlan {
    type V = SearchPlanModel;

    open spec fn view(&self) -> SearchPlanModel {
        match self {
            SearchPlan::Empty => SearchPlanModel::Empty,
            SearchPlan::Query(q) => SearchPlanModel::Query(q@),
        }
    }
}

/// The query for the given filters.
pub open spec fn query_of(params: SearchParamsModel) -> SearchQueryModel {
    SearchQueryModel {
        sql: SELECT_TURNS@ + ids_clause(params.conversation_ids.len()) + meta_clauses(
            params.meta_equals,
        ) + " LIMIT ?"@,
        values: params.conversation_ids + meta_values(params.meta_equals),
        prefetch: match params.prefetch {
            Some(n) => n,
            None => default_prefetch(params.limit),
        },
    }
}

/// How a search for a query vector of `query_len` dimensions goes on. With an
/// empty vector or a limit of zero the result is empty, whatever the filters;
/// otherwise the first metadata key that is not valid fails the search, and
/// with valid keys the store is asked.
pub open spec fn search_plan_of(query_len: usize, params: SearchParamsModel) -> Result<
    SearchPlanModel,
    SearchFailure,
> {
    if query_len == 0 || params.limit == 0 {
        Ok(SearchPlanModel::Empty)
    } else {
        match first_invalid_key(params.meta_equals) {
            Some(key) => Err(SearchFailure::InvalidMetaKey(key)),
            None => Ok(SearchPlanModel::Query(query_of(params))),
        }
    }
}

/// Appends `count` placeholders, separated by commas.
fn push_placeholders(sql: &mut String, count: usize)
    ensures
        final(sql)@ == old(sql)@ + placeholders(count as nat),
{
    let mut i: usize = 0;
    proof {
        assert(sql@ =~= old(sql)@ + placeholders(0));
    }
    while i < count
        invariant
            i <= count,
            sql@ == old(sql)@ + placeholders(i as nat),
        decreases count - i,
    {
        if i > 0 {
            sql.append(", ");
        }
        sql.append("?");
        proof {
            if i == 0 {
                assert(sql@ =~= old(sql)@ + "?"@);
            } else {
                assert(sql@ =~= old(sql)@ + (placeholders(i as nat) + ", "@ + "?"@));
            }
        }
        i = i + 1;
    }
}

/// Plans a search for a query vector of `query_len` dimensions.
pub fn plan_search(query_len: usize, params: &SearchParams<'_>) -> (out: Result<
    SearchPlan,
    SearchError,
>)
    ensures
        match out {
            Ok(plan) => search_plan_of(query_len, params@) == Ok::<SearchPlanModel, SearchFailure>(
                plan@,
            ),
            Err(e) => search_plan_of(query_len, params@) == Err::<SearchPlanModel, SearchFailure>(
                e@,
            ),
        },
{
    if query_len == 0 || params.limit == 0 {
        return Ok(SearchPlan::Empty);
    }
    let mut sql = SELECT_TURNS.to_owned();
    let mut values: Vec<String> = Vec::new();
    let ids = params.conversation_ids.len();
    if ids > 0 {
        sql.append(" AND t.conversation_id IN (");
        push_placeholders(&mut sql, ids);
        sql.append(")");
        proof {
            assert(sql@ =~= SELECT_TURNS@ + ids_clause(ids as nat));
        }
    } else {
        proof {
            assert(sql@ =~= SELECT_TURNS@ + ids_clause(ids as nat));
        }
    }
    let mut i: usize = 0;
    while i < ids
        invariant
            i <= ids,
            ids == params.conversation_ids@.len(),
            values@.len() == i,
            forall|j: int| 0 <= j < i ==> (#[trigger] values@[j])@ == params.conversation_ids@[j]@,
        decreases ids - i,
    {
        values.push(params.conversation_ids[i].to_owned());
        i = i + 1;
    }
    proof {
        assert(values.deep_view() =~= params@.conversation_ids);
    }
    let filters = params.meta_equals.len();
    let ghost with_ids = sql@;
    let mut k: usize = 0;
    proof {
        assert(params@.meta_equals.take(0) =~= Seq::<(Seq<char>, Seq<char>)>::empty());
        assert(sql@ =~= with_ids + meta_clauses(params@.meta_equals.take(0)));
        assert(values.deep_view() =~= params@.conversation_ids + meta_values(
            params@.meta_equals.take(0),
        ));
    }
    while k < filters
        invariant
            k <= filters,
            filters == params.meta_equals@.len(),
            query_len != 0,
            params.limit != 0,
            first_invalid_key(params@.meta_equals.take(k as int)) is None,
            sql@ == with_ids + meta_clauses(params@.meta_equals.take(k as int)),
            values.deep_view() == params@.conversation_ids + meta_values(
                params@.meta_equals.take(k as int),
            ),
        decreases filters - k,
    {
        let (key, value) = params.meta_equals[k];
        proof {
            let next = params@.meta_equals.take(k + 1);
            assert(next.drop_last() =~= params@.meta_equals.take(k as int));
            assert(next.last() == (key@, value@));
        }
        match ensure_valid_meta_key(key) {
            Ok(_) => {},
            Err(e) => {
                proof {
                    assert(first_invalid_key(params@.meta_equals.take(k + 1)) == Some(key@));
                    lemma_first_invalid_stays(params@.meta_equals, k + 1);
                }
                return Err(e);
            },
        }
        sql.append(" AND json_extract(c.meta_json, '$.");
        sql.append(key);
        sql.append("') = ?");
        let ghost before = values@;
        let ghost before_view = values.deep_view();
        let owned = value.to_owned();
        values.push(owned);
        proof {
            lemma_vec_pushed(before, values, owned);
            lemma_deep_of_vec(values);
            assert(deep(before) =~= before_view);
            assert(values.deep_view() =~= params@.conversation_ids + meta_values(
                params@.meta_equals.take(k + 1),
            ));
            assert(sql@ =~= with_ids + meta_clauses(params@.meta_equals.take(k + 1)));
        }
        k = k + 1;
    }
    proof {
        assert(params@.meta_equals.take(filters as int) =~= params@.meta_equals);
    }
    sql.append(" LIMIT ?");
    let prefetch = match params.prefetch {
        Some(n) => n,
        None => match params.limit.checked_mul(8) {
            Some(n) => n,
            None => usize::MAX,
        },
    };
    Ok(SearchPlan::Query(SearchQuery { sql, values, prefetch }))
}

/// Once a prefix of the filters holds a key that is not valid, that key is
/// the first such key of all filters.
pub proof fn lemma_first_invalid_stays(filters: Seq<(Seq<char>, Seq<char>)>, n: int)
    requires
        0 <= n <= filters.len(),
        first_invalid_key(filters.take(n)) is Some,
    ensures
        first_invalid_key(filters) == first_invalid_key(filters.take(n)),
    decreases filters.len() - n,
{
    if n < filters.len() {
        assert(filters.take(n + 1).drop_last() =~= filters.take(n));
        lemma_first_invalid_stays(filters, n + 1);
    } else {
        assert(filters.take(n) =~= filters);
    }
}

/// Whether a row of the store can be ranked against a query vector of
/// `query_len` dimensions: its turn index is not negative, and its embedding
/// is not empty, is made of whole four-byte numbers, and has as many of them
/// as the query vector.
pub open spec fn row_eligible(turn_index: i64, blob_len: usize, query_len: usize) -> bool {
    &&& turn_index >= 0
    &&& blob_len > 0
    &&& blob_len % 4 == 0
    &&& blob_len / 4 == query_len
}

/// Whether a row of the store can be ranked against a query vector of
/// `query_len` dimensions.
pub fn row_is_candidate(turn_index: i64, blob_len: usize, query_len: usize) -> (yes: bool)
    ensures
        yes == row_eligible(turn_index, blob_len, query_len),
{
    turn_index >= 0 && blob_len > 0 && blob_len % 4 == 0 && blob_len / 4 == query_len
}

/// One result of a search. The score is held as the bit pattern of a
/// single-precision number, which is what the ranking reads.
#[derive(Clone, Debug)]
pub struct SearchResult {
    pub conversation_id: String,
    pub turn_index: usize,
    /// The bits of the similarity score.
    pub score_bits: u32,
    pub user_text: Option<String>,
    pub assistant_text: Option<String>,
}

/// The mathematical value of a [`SearchResult`].
pub struct SearchResultModel {
    pub conversation_id: Seq<char>,
    pub turn_index: usize,
    pub score_bits: u32,
    pub user_text: Option<Seq<char>>,
    pub assistant_text: Option<Seq<char>>,
}

impl View for SearchResult {
    type V = SearchResultModel;

    open spec fn view(&self) -> SearchResultModel {
        SearchResultModel {
            conversation_id: self.conversation_id@,
            turn_index: self.turn_index,
            score_bits: self.score_bits,
            user_text: self.user_text.deep_view(),
            assistant_text: self.assistant_text.deep_view(),
        }
    }
}

impl DeepView for SearchResult {
    type V = SearchResultModel;

    open spec fn deep_view(&self) -> SearchResultModel {
        self@
    }
}

/// The bits of a score without its sign bit.
pub open spec fn magnitude(bits: u32) -> int {
    if bits >= 0x8000_0000 {
        bits - 0x8000_0000
    } else {
        bits as int
    }
}

/// Whether the bits stand for a finite number: the exponent is not the one
/// of the infinities and of the values that are no numbers.
pub open spec fn finite_score(bits: u32) -> bool {
    magnitude(bits) < 0x7f80_0000
}

/// The place of a finite score in the order of scores: of two finite scores
/// the greater has the greater key, and the two zeros share one key.
pub open spec fn score_key(bits: u32) -> int {
    if bits >= 0x8000_0000 {
        -magnitude(bits)
    } else {
        magnitude(bits)
    }
}

/// Number of leading results whose score is not below `key`.
pub open spec fn rank_of(sorted: Seq<SearchResultModel>, key: int) -> nat
    decreases sorted.len(),
{
    if sorted.len() > 0 && score_key(sorted[0].score_bits) >= key {
        1 + rank_of(sorted.drop_first(), key)
    } else {
        0
    }
}

/// The candidates with a finite score, best first; candidates with equal
/// scores keep the order in which they came.
pub open spec fn ranked(candidates: Seq<SearchResultModel>) -> Seq<SearchResultModel>
    decreases candidates.len(),
{
    if candidates.len() == 0 {
        Seq::empty()
    } else {
        let rest = ranked(candidates.drop_last());
        let last = candidates.last();
        if finite_score(last.score_bits) {
            rest.insert(rank_of(rest, score_key(last.score_bits)) as int, last)
        } else {
            rest
        }
    }
}

/// The best `limit` of the candidates with a finite score, best first.
pub open spec fn top_ranked(candidates: Seq<SearchResultModel>, limit: usize) -> Seq<
    SearchResultModel,
> {
    if ranked(candidates).len() <= limit {
        ranked(candidates)
    } else {
        ranked(candidates).take(limit as int)
    }
}

/// Whether the results stand best first.
pub open spec fn best_first(results: Seq<SearchResultModel>) -> bool {
    forall|i: int, j: int|
        0 <= i < j < results.len() ==> score_key((#[trigger] results[i]).score_bits) >= score_key(
            (#[trigger] results[j]).score_bits,
        )
}

/// The results before a key's rank are not below the key; the one at the
/// rank is.
pub proof fn lemma_rank_of_splits(sorted: Seq<SearchResultModel>, key: int)
    ensures
        rank_of(sorted, key) <= sorted.len(),
        forall|i: int|
            0 <= i < rank_of(sorted, key) ==> score_key((#[trigger] sorted[i]).score_bits) >= key,
        rank_of(sorted, key) < sorted.len() ==> score_key(
            sorted[rank_of(sorted, key) as int].score_bits,
        ) < key,
    decreases sorted.len(),
{
    if sorted.len() > 0 && score_key(sorted[0].score_bits) >= key {
        let rest = sorted.drop_first();
        lemma_rank_of_splits(rest, key);
        assert forall|i: int| 0 <= i < rank_of(sorted, key) implies score_key(
            (#[trigger] sorted[i]).score_bits,
        ) >= key by {
            if i > 0 {
                assert(sorted[i] == rest[i - 1]);
            }
        }
        if rank_of(sorted, key) < sorted.len() {
            assert(sorted[rank_of(sorted, key) as int] == rest[rank_of(rest, key) as int]);
        }
    }
}

/// The ranked candidates stand best first, every one of them has a finite
/// score and is one of the candidates, and every candidate with a finite
/// score is among them.
pub proof fn lemma_ranked(candidates: Seq<SearchResultModel>)
    ensures
        best_first(ranked(candidates)),
        ranked(candidates).len() <= candidates.len(),
        forall|i: int|
            0 <= i < ranked(candidates).len() ==> finite_score(
                (#[trigger] ranked(candidates)[i]).score_bits,
            ) && candidates.contains(ranked(candidates)[i]),
        forall|i: int|
            0 <= i < candidates.len() && finite_score((#[trigger] candidates[i]).score_bits)
                ==> ranked(candidates).contains(candidates[i]),
    decreases candidates.len(),
{
    if candidates.len() > 0 {
        let front = candidates.drop_last();
        let rest = ranked(front);
        let last = candidates.last();
        lemma_ranked(front);
        let out = ranked(candidates);
        assert forall|i: int| 0 <= i < rest.len() implies candidates.contains(
            #[trigger] rest[i],
        ) by {
            let k = choose|k: int| 0 <= k < front.len() && front[k] == rest[i];
            assert(candidates[k] == rest[i]);
        }
        if finite_score(last.score_bits) {
            let key = score_key(last.score_bits);
            let r = rank_of(rest, key) as int;
            lemma_rank_of_splits(rest, key);
            assert(candidates[candidates.len() - 1] == last);
            assert forall|i: int, j: int| 0 <= i < j < out.len() implies score_key(
                (#[trigger] out[i]).score_bits,
            ) >= score_key((#[trigger] out[j]).score_bits) by {
                if j < r {
                } else if j == r {
                } else if i < r {
                    assert(out[j] == rest[j - 1]);
                    if r < rest.len() && j - 1 > r {
                        assert(score_key(rest[r].score_bits) >= score_key(rest[j - 1].score_bits));
                    }
                } else if i == r {
                    assert(out[j] == rest[j - 1]);
                    if j - 1 > r {
                        assert(score_key(rest[r].score_bits) >= score_key(rest[j - 1].score_bits));
                    }
                } else {
                    assert(out[i] == rest[i - 1]);
                    assert(out[j] == rest[j - 1]);
                }
            }
            assert forall|i: int| 0 <= i < out.len() implies finite_score(
                (#[trigger] out[i]).score_bits,
            ) && candidates.contains(out[i]) by {
                if i < r {
                    assert(out[i] == rest[i]);
                } else if i > r {
                    assert(out[i] == rest[i - 1]);
                }
            }
            assert forall|i: int|
                0 <= i < candidates.len() && finite_score(
                    (#[trigger] candidates[i]).score_bits,
                ) implies out.contains(candidates[i]) by {
                if i < front.len() {
                    assert(front[i] == candidates[i]);
                    let k = choose|k: int| 0 <= k < rest.len() && rest[k] == front[i];
                    if k < r {
                        assert(out[k] == candidates[i]);
                    } else {
                        assert(out[k + 1] == candidates[i]);
                    }
                } else {
                    assert(out[r] == candidates[i]);
                }
            }
        } else {
            assert forall|i: int|
                0 <= i < candidates.len() && finite_score(
                    (#[trigger] candidates[i]).score_bits,
                ) implies out.contains(candidates[i]) by {
                assert(front[i] == candidates[i]);
            }
        }
    }
}

/// The best `limit` candidates stand best first, are at most `limit`, and
/// each is a candidate with a finite score.
pub proof fn lemma_top_ranked(candidates: Seq<SearchResultModel>, limit: usize)
    ensures
        best_first(top_ranked(candidates, limit)),
        top_ranked(candidates, limit).len() <= limit,
        top_ranked(candidates, limit).len() <= candidates.len(),
        forall|i: int|
            0 <= i < top_ranked(candidates, limit).len() ==> finite_score(
                (#[trigger] top_ranked(candidates, limit)[i]).score_bits,
            ) && candidates.contains(top_ranked(candidates, limit)[i]),
{
    lemma_ranked(candidates);
    let all = ranked(candidates);
    let top = top_ranked(candidates, limit);
    assert forall|i: int, j: int| 0 <= i < j < top.len() implies score_key(
        (#[trigger] top[i]).score_bits,
    ) >= score_key((#[trigger] top[j]).score_bits) by {
        assert(top[i] == all[i]);
        assert(top[j] == all[j]);
    }
    assert forall|i: int| 0 <= i < top.len() implies finite_score((#[trigger] top[i]).score_bits)
        && candidates.contains(top[i]) by {
        assert(top[i] == all[i]);
    }
}

/// The place of a finite score in the order of scores.
fn key_of_score(bits: u32) -> (key: i64)
    ensures
        key == score_key(bits),
{
    if bits >= 0x8000_0000 {
        -((bits - 0x8000_0000) as i64)
    } else {
        bits as i64
    }
}

/// Whether the bits stand for a finite number.
pub fn is_finite_score(bits: u32) -> (yes: bool)
    ensures
        yes == finite_score(bits),
{
    if bits >= 0x8000_0000 {
        bits - 0x8000_0000 < 0x7f80_0000
    } else {
        bits < 0x7f80_0000
    }
}

/// Ranks the scored candidates: those with a finite score, best first, cut
/// after the best `limit`. Candidates with equal scores keep the order in
/// which they came.
pub fn rank_results(candidates: Vec<SearchResult>, limit: usize) -> (out: Vec<SearchResult>)
    ensures
        out.deep_view() == top_ranked(candidates.deep_view(), limit),
{
    let ghost all = candidates@;
    let mut out: Vec<SearchResult> = Vec::new();
    proof {
        lemma_deep_of_vec(candidates);
        assert(out.deep_view() =~= Seq::<SearchResultModel>::empty());
        assert(deep(all.take(0)) =~= Seq::<SearchResultModel>::empty());
    }
    for candidate in it: candidates
        invariant
            it.seq() == all,
            out.deep_view() == ranked(deep(all.take(it.index() as int))),
    {
        let ghost done = it.index() as int;
        proof {
            assert(deep(all.take(done + 1)).drop_last() =~= deep(all.take(done)));
            assert(deep(all.take(done + 1)).last() == candidate@);
        }
        if is_finite_score(candidate.score_bits) {
            let key = key_of_score(candidate.score_bits);
            let n = out.len();
            let ghost sorted = out.deep_view();
            let mut at: usize = 0;
            proof {
                assert(sorted.skip(0) =~= sorted);
            }
            while at < n && key_of_score(out[at].score_bits) >= key
                invariant
                    at <= n,
                    n == out@.len(),
                    sorted == out.deep_view(),
                    rank_of(sorted, key as int) == at + rank_of(sorted.skip(at as int), key as int),
                decreases n - at,
            {
                proof {
                    assert(sorted.skip(at as int)[0] == out@[at as int]@);
                    assert(sorted.skip(at as int).drop_first() =~= sorted.skip(at + 1));
                }
                at = at + 1;
            }
            proof {
                if at < n {
                    assert(sorted.skip(at as int)[0] == out@[at as int]@);
                }
            }
            let ghost before = out@;
            out.insert(at, candidate);
            proof {
                lemma_deep_of_vec(out);
                lemma_deep_insert(before, at as int, candidate);
                assert(deep(before) =~= sorted);
            }
        }
    }
    proof {
        assert(all.take(all.len() as int) =~= all);
    }
    if out.len() > limit {
        let ghost before = out.deep_view();
        out.truncate(limit);
        proof {
            assert(out.deep_view() =~= before.take(limit as int));
        }
    }
    out
}

/// A filter whose key is not valid has the search fail before anything is
/// asked of the store, unless the search is empty from the start.
pub proof fn lemma_invalid_key_fails_search(query_len: usize, params: SearchParamsModel, at: int)
    requires
        query_len != 0,
        params.limit != 0,
        0 <= at < params.meta_equals.len(),
        !valid_meta_key(params.meta_equals[at].0),
    ensures
        search_plan_of(query_len, params) is Err,
{
    lemma_first_invalid_exists(params.meta_equals, at);
}

/// Filters that hold a key which is not valid have a first such key.
proof fn lemma_first_invalid_exists(filters: Seq<(Seq<char>, Seq<char>)>, at: int)
    requires
        0 <= at < filters.len(),
        !valid_meta_key(filters[at].0),
    ensures
        first_invalid_key(filters) is Some,
    decreases filters.len(),
{
    if at < filters.len() - 1 {
        assert(filters.drop_last()[at] == filters[at]);
        lemma_first_invalid_exists(filters.drop_last(), at);
    }
}

/// A filter whose key holds a quote or a semicolon has the search fail
/// before anything is asked of the store, unless the search is empty from the
/// start.
pub proof fn lemma_injection_fails_search(query_len: usize, params: SearchParamsModel, at: int)
    requires
        query_len != 0,
        params.limit != 0,
        0 <= at < params.meta_equals.len(),
        params.meta_equals[at].0.contains('\'') || params.meta_equals[at].0.contains('"')
            || params.meta_equals[at].0.contains(';'),
    ensures
        search_plan_of(query_len, params) is Err,
{
    lemma_quote_or_semicolon_rejected(params.meta_equals[at].0);
    lemma_invalid_key_fails_search(query_len, params, at);
}

} // verus!
