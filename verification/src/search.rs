//! Fuzzy filtering of items against a query, ranked by match score.

use vstd::prelude::*;
use crate::item::{Item, opt_view, duplicate_all};
use crate::order::{strictly_sorted, strict_order_on, same_elements, lemma_sorted_unique};
use nucleo_matcher::Matcher;
use nucleo_matcher::pattern::Pattern;

verus! {

#[verifier::external_type_specification]
#[verifier::external_body]
pub struct ExMatcher(nucleo_matcher::Matcher);

#[verifier::external_type_specification]
#[verifier::external_body]
pub struct ExPattern(nucleo_matcher::pattern::Pattern);

/// The score that `nucleo_matcher` gives `haystack` for the pattern parsed
/// from `query` (smart case matching, smart normalization, default matcher
/// configuration); `None` when the haystack does not match.
pub uninterp spec fn fuzzy_score(query: Seq<char>, haystack: Seq<char>) -> Option<u32>;

/// A parsed search pattern together with the query it was parsed from.
/// Only [`parse_pattern`] builds one, so `pattern` is always the parse of `query`.
pub struct QueryPattern {
    query: String,
    pattern: Pattern,
}

impl QueryPattern {
    /// The query this pattern was parsed from.
    pub closed spec fn query(&self) -> Seq<char> {
        self.query@
    }
}

/// Trusted: calls `nucleo_matcher::Matcher::new` with `Config::DEFAULT`.
/// Nothing is claimed of the matcher; it only holds scratch space for scoring.
#[verifier::external_body]
fn new_matcher() -> Matcher {
    Matcher::new(nucleo_matcher::Config::DEFAULT)
}

/// Trusted: calls `Pattern::parse` with smart case matching and smart
/// normalization, and keeps the query beside the pattern. The contract only
/// records which query the pattern came from.
#[verifier::external_body]
fn parse_pattern(query: &str) -> (p: QueryPattern)
    ensures
        p.query() == query@,
{
    QueryPattern {
        query: query.to_string(),
        pattern: Pattern::parse(
            query,
            nucleo_matcher::pattern::CaseMatching::Smart,
            nucleo_matcher::pattern::Normalization::Smart,
        ),
    }
}

/// Whether nucleo can match against a text: its UTF-8 form holds at most
/// `u32::MAX` bytes. nucleo asserts that a haystack holds at most 2^32-1
/// entries of its `Utf32Str`, which has one entry per byte of an ASCII text
/// and per grapheme (or per byte) otherwise, never more than the bytes.
pub open spec fn scorable(text: Seq<char>) -> bool {
    vstd::utf8::encode_utf8(text).len() <= u32::MAX
}

/// Whether nucleo can match against an item's name and description.
pub open spec fn item_scorable(item: Item) -> bool {
    &&& scorable(item.name@)
    &&& item.description matches Some(d) ==> scorable(d@)
}

/// Whether nucleo can match against every item of a list.
pub open spec fn all_scorable(items: Seq<Item>) -> bool {
    forall|i: int| 0 <= i < items.len() ==> #[trigger] item_scorable(items[i])
}

/// The most words a query may hold: nucleo adds the `u16` scores of a
/// query's atoms in a `u32`, and `MAX_QUERY_WORDS * u16::MAX == u32::MAX`.
pub const MAX_QUERY_WORDS: usize = 65537;

/// The number of words (maximal runs of characters other than `' '`) in
/// `q`, where a run at the very start counts only if `after_space`.
pub open spec fn words_from(q: Seq<char>, after_space: bool) -> nat
    decreases q.len(),
{
    if q.len() == 0 {
        0
    } else {
        (if q[0] != ' ' && after_space { 1nat } else { 0nat }) + words_from(q.drop_first(), q[0] == ' ')
    }
}

/// The number of space-separated words in a query. `Pattern::parse` splits
/// the query at unescaped spaces and keeps the non-empty atoms, so it never
/// makes more atoms than this.
pub open spec fn word_count(q: Seq<char>) -> nat {
    words_from(q, true)
}

/// Starting after a space counts at most the one word that the text starts
/// with.
pub proof fn lemma_words_start(q: Seq<char>)
    ensures
        words_from(q, false) <= words_from(q, true) <= words_from(q, false) + 1,
{
}

/// Removing a character never adds a word.
pub proof fn lemma_words_remove(q: Seq<char>, i: int, after_space: bool)
    requires
        0 <= i < q.len(),
    ensures
        words_from(q.remove(i), after_space) <= words_from(q, after_space),
    decreases i,
{
    if i == 0 {
        assert(q.remove(0) =~= q.drop_first());
        lemma_words_start(q.drop_first());
    } else {
        assert(q.remove(i).drop_first() =~= q.drop_first().remove(i - 1));
        assert(q.remove(i)[0] == q[0]);
        lemma_words_remove(q.drop_first(), i - 1, q[0] == ' ');
    }
}

/// The number of words in a text, as [`word_count`] states.
pub fn count_words(q: &[char]) -> (n: usize)
    ensures
        n == word_count(q@),
{
    let mut n: usize = 0;
    let mut after_space = true;
    let mut i: usize = 0;
    assert(q@.skip(0) =~= q@);
    while i < q.len()
        invariant
            i <= q@.len(),
            n <= i,
            n + words_from(q@.skip(i as int), after_space) == word_count(q@),
        decreases q@.len() - i,
    {
        assert(q@.skip(i as int).drop_first() =~= q@.skip(i as int + 1));
        assert(q@.skip(i as int)[0] == q@[i as int]);
        if q[i] != ' ' && after_space {
            n = n + 1;
        }
        after_space = q[i] == ' ';
        i = i + 1;
    }
    assert(q@.skip(i as int) =~= Seq::<char>::empty());
    n
}

/// Whether every name and description of a list is [`scorable`].
pub fn all_items_scorable(items: &[Item]) -> (r: bool)
    ensures
        r == all_scorable(items@),
{
    let mut i: usize = 0;
    while i < items.len()
        invariant
            i <= items@.len(),
            forall|k: int| 0 <= k < i ==> #[trigger] item_scorable(items@[k]),
        decreases items@.len() - i,
    {
        let item = &items[i];
        if item.name.as_str().as_bytes().len() > 4294967295usize {
            assert(!item_scorable(items@[i as int]));
            return false;
        }
        match &item.description {
            Some(d) => {
                if d.as_str().as_bytes().len() > 4294967295usize {
                    assert(!item_scorable(items@[i as int]));
                    return false;
                }
            },
            None => {},
        }
        i = i + 1;
    }
    true
}

/// Trusted: calls `Pattern::score` on `haystack` (as a `Utf32Str`). The
/// contract claims that the result is [`fuzzy_score`] of the pattern's query
/// and the haystack: the score depends on these alone, the matcher being
/// scratch space with a fixed configuration. A longer haystack than
/// [`scorable`] admits may fail nucleo's length assertion, and a query of
/// more than [`MAX_QUERY_WORDS`] words may overflow the sum of the atoms'
/// scores; both are left out.
#[verifier::external_body]
fn score_text(matcher: &mut Matcher, pattern: &QueryPattern, haystack: &str) -> (r: Option<u32>)
    requires
        scorable(haystack@),
        word_count(pattern.query()) <= MAX_QUERY_WORDS,
    ensures
        r == fuzzy_score(pattern.query(), haystack@),
{
    let mut buf = Vec::new();
    pattern.pattern.score(nucleo_matcher::Utf32Str::new(haystack, &mut buf), matcher)
}

/// The score of an item: that of its name, or the better of the name's and
/// the description's when both match; `None` when the name does not match.
pub open spec fn item_score(query: Seq<char>, item: Item) -> Option<u32> {
    match fuzzy_score(query, item.name@) {
        None => None,
        Some(s) => match opt_view(item.description) {
            Some(d) => match fuzzy_score(query, d) {
                Some(ds) => Some(if s >= ds { s } else { ds }),
                None => Some(s),
            },
            None => Some(s),
        },
    }
}

/// An item matches exactly when its name matches, and then scores the better
/// of its name's score and, where the description matches too, the
/// description's score: never below either of them.
pub proof fn lemma_item_score_is_best(query: Seq<char>, item: Item)
    ensures
        item_score(query, item) is Some <==> fuzzy_score(query, item.name@) is Some,
        fuzzy_score(query, item.name@) is Some ==> item_score(query, item)->0 >= fuzzy_score(
            query,
            item.name@,
        )->0,
        fuzzy_score(query, item.name@) is Some && item.description is Some && fuzzy_score(
            query,
            item.description->0@,
        ) is Some ==> {
            let v = item_score(query, item)->0;
            let s = fuzzy_score(query, item.name@)->0;
            let ds = fuzzy_score(query, item.description->0@)->0;
            &&& v >= s
            &&& v >= ds
            &&& (v == s || v == ds)
        },
        fuzzy_score(query, item.name@) is Some && (item.description is None || fuzzy_score(
            query,
            item.description->0@,
        ) is None) ==> item_score(query, item) == fuzzy_score(query, item.name@),
{
}

/// The scores of a list of items.
pub open spec fn item_scores(query: Seq<char>, items: Seq<Item>) -> Seq<Option<u32>> {
    items.map_values(|it: Item| item_score(query, it))
}

/// Position `i` ranks before position `j`: a higher score, or an equal
/// score and an earlier position.
pub open spec fn score_rank_lt(scores: Seq<Option<u32>>) -> spec_fn(int, int) -> bool {
    |i: int, j: int|
        {
            let si = scores[i]->0;
            let sj = scores[j]->0;
            si > sj || (si == sj && i < j)
        }
}

/// `order` lists the positions of exactly the scored (matching) entries, by
/// descending score, ties in the order given (a stable sort).
pub open spec fn is_score_order(scores: Seq<Option<u32>>, order: Seq<int>) -> bool {
    &&& strictly_sorted(order, score_rank_lt(scores))
    &&& forall|x: int| #[trigger] order.contains(x) <==> (0 <= x < scores.len() && scores[x] is Some)
}

/// `order` lists the matching items by descending score, ties in the
/// order given.
pub open spec fn is_filter_order(query: Seq<char>, items: Seq<Item>, order: Seq<int>) -> bool {
    is_score_order(item_scores(query, items), order)
}

/// The items that [`FuzzyMatcher::filter`] returns for `query`: all of them
/// for an empty query, otherwise those that `order` ranks.
pub open spec fn filtered_by(query: Seq<char>, items: Seq<Item>, order: Seq<int>, result: Seq<
    Item,
>) -> bool {
    if query.len() == 0 {
        result == items
    } else {
        is_filter_order(query, items, order) && result == order.map_values(|i: int| items[i])
    }
}

/// There is only one ranking of a list of scores.
pub proof fn lemma_score_order_unique(scores: Seq<Option<u32>>, a: Seq<int>, b: Seq<int>)
    requires
        is_score_order(scores, a),
        is_score_order(scores, b),
    ensures
        a == b,
{
    let lt = score_rank_lt(scores);
    assert(same_elements(a, b));
    assert(strict_order_on(a, lt));
    lemma_sorted_unique(a, b, lt);
}

/// There is only one filter order for a query and a list of items, so the
/// result of filtering is determined by them.
pub proof fn lemma_filter_order_unique(
    query: Seq<char>,
    items: Seq<Item>,
    a: Seq<int>,
    b: Seq<int>,
)
    requires
        is_filter_order(query, items, a),
        is_filter_order(query, items, b),
    ensures
        a == b,
{
    lemma_score_order_unique(item_scores(query, items), a, b);
}

/// Filtering is a function of the query and the items: two results of
/// filtering the same items by the same query are equal.
pub proof fn lemma_filter_result_unique(
    query: Seq<char>,
    items: Seq<Item>,
    o1: Seq<int>,
    r1: Seq<Item>,
    o2: Seq<int>,
    r2: Seq<Item>,
)
    requires
        filtered_by(query, items, o1, r1),
        filtered_by(query, items, o2, r2),
    ensures
        r1 == r2,
{
    if query.len() > 0 {
        lemma_filter_order_unique(query, items, o1, o2);
    }
}

/// Fuzzy matcher for filtering items.
pub struct FuzzyMatcher {
    matcher: Matcher,
}

/// Pair `p` ranks before pair `q` (score, then position).
pub open spec fn pair_lt(p: (u32, usize), q: (u32, usize)) -> bool {
    p.0 > q.0 || (p.0 == q.0 && p.1 < q.1)
}

impl FuzzyMatcher {
    /// A matcher with the default configuration.
    pub fn new() -> (m: FuzzyMatcher) {
        FuzzyMatcher { matcher: new_matcher() }
    }

    /// The score of one item, as [`item_score`] defines it.
    fn score_item(&mut self, pattern: &QueryPattern, item: &Item) -> (r: Option<u32>)
        requires
            item_scorable(*item),
            word_count(pattern.query()) <= MAX_QUERY_WORDS,
        ensures
            r == item_score(pattern.query(), *item),
    {
        match score_text(&mut self.matcher, pattern, item.name.as_str()) {
            None => None,
            Some(s) => match &item.description {
                Some(d) => match score_text(&mut self.matcher, pattern, d.as_str()) {
                    Some(ds) => Some(
                        if s >= ds {
                            s
                        } else {
                            ds
                        },
                    ),
                    None => Some(s),
                },
                None => Some(s),
            },
        }
    }

    /// The scores of a list of items, in order.
    fn score_items(&mut self, pattern: &QueryPattern, items: &[Item]) -> (scores: Vec<Option<u32>>)
        requires
            all_scorable(items@),
            word_count(pattern.query()) <= MAX_QUERY_WORDS,
        ensures
            scores@ == item_scores(pattern.query(), items@),
    {
        let mut scores: Vec<Option<u32>> = Vec::new();
        let mut i: usize = 0;
        while i < items.len()
            invariant
                i <= items@.len(),
                all_scorable(items@),
                word_count(pattern.query()) <= MAX_QUERY_WORDS,
                scores@ == item_scores(pattern.query(), items@.take(i as int)),
            decreases items@.len() - i,
        {
            let s = self.score_item(pattern, &items[i]);
            scores.push(s);
            i = i + 1;
            assert(scores@ =~= item_scores(pattern.query(), items@.take(i as int)));
        }
        assert(items@.take(items@.len() as int) =~= items@);
        scores
    }
}

/// Inserts `p` into a ranked list, after every pair that ranks before it.
fn insert_ranked(ranked: &mut Vec<(u32, usize)>, p: (u32, usize))
    requires
        forall|a: int, b: int|
            0 <= a < b < old(ranked)@.len() ==> pair_lt(#[trigger] old(ranked)@[a], #[trigger] old(ranked)@[b]),
        forall|a: int| 0 <= a < old(ranked)@.len() ==> (#[trigger] old(ranked)@[a]).1 < p.1,
    ensures
        forall|a: int, b: int|
            0 <= a < b < final(ranked)@.len() ==> pair_lt(#[trigger] final(ranked)@[a], #[trigger] final(ranked)@[b]),
        exists|j: int| 0 <= j <= old(ranked)@.len() && final(ranked)@ == old(ranked)@.insert(j, p),
{
    let mut j: usize = ranked.len();
    while j > 0 && ranked[j - 1].0 < p.0
        invariant
            j <= ranked@.len(),
            forall|t: int| j <= t < ranked@.len() ==> (#[trigger] ranked@[t]).0 < p.0,
        decreases j,
    {
        j = j - 1;
    }
    let ghost old_ranked = ranked@;
    ranked.insert(j, p);
    assert forall|a: int, b: int|
        0 <= a < b < ranked@.len() implies pair_lt(#[trigger] ranked@[a], #[trigger] ranked@[b]) by {
        if b < j {
            assert(ranked@[a] == old_ranked[a] && ranked@[b] == old_ranked[b]);
        } else if b == j {
            assert(ranked@[a] == old_ranked[a]);
            if a < j - 1 {
                assert(pair_lt(old_ranked[a], old_ranked[j - 1]));
            }
        } else if a < j {
            assert(ranked@[a] == old_ranked[a] && ranked@[b] == old_ranked[b - 1]);
        } else if a == j {
            assert(ranked@[b] == old_ranked[b - 1]);
        } else {
            assert(ranked@[a] == old_ranked[a - 1] && ranked@[b] == old_ranked[b - 1]);
        }
    }
}

/// Sorts scored positions by [`pair_lt`]; positions must be increasing.
fn rank_scored(scored: &Vec<(u32, usize)>) -> (ranked: Vec<(u32, usize)>)
    requires
        forall|a: int, b: int|
            0 <= a < b < scored@.len() ==> #[trigger] scored@[a].1 < #[trigger] scored@[b].1,
    ensures
        forall|a: int, b: int|
            0 <= a < b < ranked@.len() ==> pair_lt(#[trigger] ranked@[a], #[trigger] ranked@[b]),
        ranked@.to_multiset() == scored@.to_multiset(),
{
    broadcast use vstd::seq_lib::to_multiset_build, vstd::seq_lib::to_multiset_insert;

    let mut ranked: Vec<(u32, usize)> = Vec::new();
    let mut m: usize = 0;
    assert(scored@.take(0) =~= ranked@);
    while m < scored.len()
        invariant
            m <= scored@.len(),
            forall|a: int, b: int|
                0 <= a < b < scored@.len() ==> #[trigger] scored@[a].1 < #[trigger] scored@[b].1,
            forall|a: int, b: int|
                0 <= a < b < ranked@.len() ==> pair_lt(#[trigger] ranked@[a], #[trigger] ranked@[b]),
            ranked@.to_multiset() == scored@.take(m as int).to_multiset(),
        decreases scored@.len() - m,
    {
        let p = scored[m];
        let ghost old_ranked = ranked@;
        assert forall|a: int| 0 <= a < old_ranked.len() implies (#[trigger] old_ranked[a]).1 < p.1 by {
            vstd::seq_lib::to_multiset_contains(old_ranked, old_ranked[a]);
            vstd::seq_lib::to_multiset_contains(scored@.take(m as int), old_ranked[a]);
            assert(old_ranked.contains(old_ranked[a]));
            let k = choose|k: int| 0 <= k < m && scored@.take(m as int)[k] == old_ranked[a];
            assert(scored@[k].1 < scored@[m as int].1);
        }
        insert_ranked(&mut ranked, p);
        proof {
            let j = choose|j: int| 0 <= j <= old_ranked.len() && ranked@ == old_ranked.insert(j, p);
            vstd::seq_lib::to_multiset_insert(old_ranked, j, p);
            vstd::seq_lib::to_multiset_build(scored@.take(m as int), p);
            assert(scored@.take(m + 1) =~= scored@.take(m as int).push(p));
        }
        m = m + 1;
    }
    assert(scored@.take(m as int) =~= scored@);
    ranked
}

/// The positions of the scored entries, best score first, ties in the
/// order given; unscored (non-matching) entries are left out.
pub fn rank_matches(scores: &[Option<u32>]) -> (order: Vec<usize>)
    ensures
        is_score_order(scores@, order@.map_values(|i: usize| i as int)),
{
    let mut scored: Vec<(u32, usize)> = Vec::new();
    let mut i: usize = 0;
    while i < scores.len()
        invariant
            i <= scores@.len(),
            forall|k: int|
                0 <= k < scored@.len() ==> #[trigger] scored@[k].1 < i && scores@[scored@[k].1 as int]
                    == Some(scored@[k].0),
            forall|a: int, b: int|
                0 <= a < b < scored@.len() ==> #[trigger] scored@[a].1 < #[trigger] scored@[b].1,
            forall|x: int|
                0 <= x < i && scores@[x] is Some ==> exists|k: int|
                    0 <= k < scored@.len() && #[trigger] scored@[k].1 == x,
        decreases scores@.len() - i,
    {
        let ghost old_scored = scored@;
        if let Some(s) = scores[i] {
            scored.push((s, i));
            assert forall|x: int|
                0 <= x < i + 1 && scores@[x] is Some implies exists|k: int|
                0 <= k < scored@.len() && #[trigger] scored@[k].1 == x by {
                if x == i {
                    assert(scored@[old_scored.len() as int].1 == x);
                } else {
                    let k = choose|k: int| 0 <= k < old_scored.len() && #[trigger] old_scored[k].1 == x;
                    assert(scored@[k] == old_scored[k]);
                }
            }
        }
        i = i + 1;
    }
    let ranked = rank_scored(&scored);
    proof {
        assert forall|t: int| 0 <= t < ranked@.len() implies #[trigger] scored@.contains(
            ranked@[t],
        ) by {
            vstd::seq_lib::to_multiset_contains(ranked@, ranked@[t]);
            vstd::seq_lib::to_multiset_contains(scored@, ranked@[t]);
            assert(ranked@.contains(ranked@[t]));
        }
        assert forall|k: int| 0 <= k < scored@.len() implies #[trigger] ranked@.contains(
            scored@[k],
        ) by {
            vstd::seq_lib::to_multiset_contains(ranked@, scored@[k]);
            vstd::seq_lib::to_multiset_contains(scored@, scored@[k]);
            assert(scored@.contains(scored@[k]));
        }
    }
    let mut order: Vec<usize> = Vec::new();
    let mut a: usize = 0;
    while a < ranked.len()
        invariant
            a <= ranked@.len(),
            order@ == ranked@.take(a as int).map_values(|p: (u32, usize)| p.1),
        decreases ranked@.len() - a,
    {
        order.push(ranked[a].1);
        a = a + 1;
        assert(order@ =~= ranked@.take(a as int).map_values(|p: (u32, usize)| p.1));
    }
    assert(ranked@.take(ranked@.len() as int) =~= ranked@);
    let ghost ov = order@.map_values(|i: usize| i as int);
    proof {
        let lt = score_rank_lt(scores@);
        assert forall|x: int, y: int| 0 <= x < y < ov.len() implies #[trigger] lt(ov[x], ov[y]) by {
            assert(pair_lt(ranked@[x], ranked@[y]));
            assert(scored@.contains(ranked@[x]));
            assert(scored@.contains(ranked@[y]));
        }
        assert forall|x: int| #[trigger] ov.contains(x) <==> (0 <= x < scores@.len()
            && scores@[x] is Some) by {
            if ov.contains(x) {
                let t = choose|t: int| 0 <= t < ov.len() && ov[t] == x;
                assert(scored@.contains(ranked@[t]));
            }
            if 0 <= x < scores@.len() && scores@[x] is Some {
                let k = choose|k: int| 0 <= k < scored@.len() && #[trigger] scored@[k].1 == x;
                assert(ranked@.contains(scored@[k]));
                let t = choose|t: int| 0 <= t < ranked@.len() && ranked@[t] == scored@[k];
                assert(ov[t] == x);
            }
        }
    }
    order
}

impl FuzzyMatcher {
    /// Filter items based on a query string: an empty query keeps every item
    /// in order; otherwise the matching items come by descending score, ties
    /// in the order given. Scoring needs every name and description to be
    /// [`scorable`] and the query to hold at most [`MAX_QUERY_WORDS`] words.
    pub fn filter(&mut self, items: &[Item], query: &str) -> (r: Vec<Item>)
        requires
            query@.len() > 0 ==> all_scorable(items@) && word_count(query@) <= MAX_QUERY_WORDS,
        ensures
            exists|order: Seq<int>| filtered_by(query@, items@, order, r@),
    {
        if query.is_empty() {
            let r = duplicate_all(items);
            assert(filtered_by(query@, items@, Seq::empty(), r@));
            return r;
        }
        let pattern = parse_pattern(query);
        let scores = self.score_items(&pattern, items);
        let order = rank_matches(scores.as_slice());
        let ghost ov = order@.map_values(|i: usize| i as int);
        proof {
            assert forall|t: int| 0 <= t < order@.len() implies (#[trigger] order@[t]) < items@.len() by {
                assert(ov.contains(ov[t]));
            }
        }
        let r = crate::item::pick(items, order.as_slice());
        assert(r@ =~= ov.map_values(|i: int| items@[i]));
        assert(filtered_by(query@, items@, ov, r@));
        r
    }
}

} // verus!
