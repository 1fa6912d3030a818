//! Scoring and ordering of hits.
use vstd::prelude::*;
use vstd::seq_lib::*;
use std::cmp::Ordering;
use fuzzy_matcher::skim::SkimMatcherV2;
use fuzzy_matcher::FuzzyMatcher;
use itertools::Itertools;
use crate::provider::{Hit, SimpleHit};
use crate::text::{lex_lt, lemma_lex_irreflexive, lemma_lex_transitive, lemma_lex_total, str_lt};

verus! {

broadcast use group_to_multiset_ensures, to_multiset_contains, vstd::multiset::group_multiset_axioms;

/// Pins a hit above every other hit.
pub const MAX_SCORE: u32 = 0xFFFF_FFFF;

/// Pins a hit below every other hit.
pub const MIN_SCORE: u32 = 0;

/// The score that the skim matcher gives `choice` for `pattern`, if any.
pub uninterp spec fn skim_score(choice: Seq<char>, pattern: Seq<char>) -> Option<i64>;

/// Whether `c` is an ASCII upper-case letter.
pub open spec fn is_ascii_upper(c: char) -> bool {
    'A' <= c <= 'Z'
}

/// Whether the pattern asks for a case-sensitive match ("smart case").
pub open spec fn has_ascii_upper(s: Seq<char>) -> bool {
    exists|i: int| 0 <= i < s.len() && is_ascii_upper(#[trigger] s[i])
}

/// A character's code, with ASCII upper-case letters folded to lower case.
pub open spec fn ascii_fold(c: char) -> int {
    if is_ascii_upper(c) {
        c as int + 32
    } else {
        c as int
    }
}

pub open spec fn chars_match(c: char, p: char, case_sensitive: bool) -> bool {
    if case_sensitive {
        c == p
    } else {
        ascii_fold(c) == ascii_fold(p)
    }
}

/// Whether the characters of `pattern` occur in `choice` in order.
pub open spec fn in_order(pattern: Seq<char>, choice: Seq<char>, case_sensitive: bool) -> bool
    decreases choice.len(),
{
    if pattern.len() == 0 {
        true
    } else if choice.len() == 0 {
        false
    } else if chars_match(choice[0], pattern[0], case_sensitive) {
        in_order(pattern.drop_first(), choice.drop_first(), case_sensitive)
    } else {
        in_order(pattern, choice.drop_first(), case_sensitive)
    }
}

/// Whether the title holds the query as an ordered subsequence, ignoring
/// ASCII case unless the query holds an ASCII upper-case letter.
pub open spec fn fuzzy_matches(query: Seq<char>, title: Seq<char>) -> bool {
    in_order(query, title, has_ascii_upper(query))
}

/// Relies on `SkimMatcherV2::fuzzy_match` with the default (smart case)
/// configuration: it gives a score exactly when the pattern's characters
/// occur in the choice in order, and zero for an empty pattern.
#[verifier::external_body]
fn skim_fuzzy_match(choice: &str, pattern: &str) -> (r: Option<i64>)
    ensures
        r == skim_score(choice@, pattern@),
        r is Some <==> fuzzy_matches(pattern@, choice@),
        pattern@.len() == 0 ==> r == Some(0i64),
{
    SkimMatcherV2::default().fuzzy_match(choice, pattern)
}

/// A hit paired with its resolved score.
pub struct ScoredHit {
    pub hit: SimpleHit,
    pub score: u32,
}

/// A matcher score in the unsigned range: negative scores (long gaps)
/// become zero.
pub open spec fn clamp_score(s: i64) -> u32 {
    if s < 0 {
        0
    } else if s > u32::MAX {
        u32::MAX
    } else {
        s as u32
    }
}

/// The fuzzy score of a title for a query, if the title matches.
pub open spec fn fuzzy_score(title: Seq<char>, query: Seq<char>) -> Option<u32> {
    match skim_score(title, query) {
        Some(s) => Some(clamp_score(s)),
        None => None,
    }
}

/// The score of a hit: its pinned score, else its fuzzy score.
pub open spec fn score_of(hit: SimpleHit, query: Seq<char>) -> Option<u32> {
    match hit.spec_score() {
        Some(s) => Some(s),
        None => fuzzy_score(hit.spec_title(), query),
    }
}

/// The hits that have a score, each paired with it, in the order given.
pub open spec fn scored(hits: Seq<SimpleHit>, query: Seq<char>) -> Seq<ScoredHit>
    decreases hits.len(),
{
    if hits.len() == 0 {
        Seq::empty()
    } else {
        let rest = scored(hits.drop_last(), query);
        match score_of(hits.last(), query) {
            Some(s) => rest.push(ScoredHit { hit: hits.last(), score: s }),
            None => rest,
        }
    }
}

/// Every hit with its pinned score, or zero.
pub open spec fn unscored(hits: Seq<SimpleHit>) -> Seq<ScoredHit> {
    hits.map_values(
        |h: SimpleHit|
            ScoredHit {
                hit: h,
                score: match h.spec_score() {
                    Some(s) => s,
                    None => 0,
                },
            },
    )
}

/// `a` goes before `b`: a higher score, or an equal score and a title that
/// comes first.
pub open spec fn ranks_ahead(a: ScoredHit, b: ScoredHit) -> bool {
    a.score > b.score || (a.score == b.score && lex_lt(a.hit.spec_title(), b.hit.spec_title()))
}

/// No hit ranks ahead of one before it.
pub open spec fn in_rank_order(s: Seq<ScoredHit>) -> bool {
    forall|i: int, j: int| 0 <= i < j < s.len() ==> !ranks_ahead(#[trigger] s[j], #[trigger] s[i])
}

pub proof fn lemma_ranks_ahead_transitive(a: ScoredHit, b: ScoredHit, c: ScoredHit)
    requires
        ranks_ahead(a, b),
        ranks_ahead(b, c),
    ensures
        ranks_ahead(a, c),
{
    if a.score == b.score && b.score == c.score {
        lemma_lex_transitive(a.hit.spec_title(), b.hit.spec_title(), c.hit.spec_title());
    }
}

pub proof fn lemma_ranks_ahead_asymmetric(a: ScoredHit, b: ScoredHit)
    ensures
        !(ranks_ahead(a, b) && ranks_ahead(b, a)),
{
    if ranks_ahead(a, b) && ranks_ahead(b, a) {
        lemma_lex_transitive(a.hit.spec_title(), b.hit.spec_title(), a.hit.spec_title());
        lemma_lex_irreflexive(a.hit.spec_title());
    }
}

/// Orders two scored hits: `Less` when `a` goes first, `Greater` when `b` does.
pub fn compare_hits(a: &ScoredHit, b: &ScoredHit) -> (r: Ordering)
    ensures
        r == Ordering::Less <==> ranks_ahead(*a, *b),
        r == Ordering::Greater <==> ranks_ahead(*b, *a),
        r == Ordering::Equal <==> same_rank(*a, *b),
{
    proof {
        lemma_ranks_ahead_asymmetric(*a, *b);
        lemma_lex_total(a.hit.spec_title(), b.hit.spec_title());
        lemma_lex_irreflexive(a.hit.spec_title());
    }
    if a.score > b.score {
        Ordering::Less
    } else if a.score < b.score {
        Ordering::Greater
    } else if str_lt(a.hit.get_title(), b.hit.get_title()) {
        Ordering::Less
    } else if str_lt(b.hit.get_title(), a.hit.get_title()) {
        Ordering::Greater
    } else {
        Ordering::Equal
    }
}

/// Same score and same title: neither goes before the other.
pub open spec fn same_rank(a: ScoredHit, b: ScoredHit) -> bool {
    a.score == b.score && a.hit.spec_title() == b.hit.spec_title()
}

/// The hits of `s` that rank equal to `x`, in their order in `s`.
pub open spec fn rank_peers(s: Seq<ScoredHit>, x: ScoredHit) -> Seq<ScoredHit> {
    s.filter(|y: ScoredHit| same_rank(y, x))
}

/// `r` is `s` sorted stably into rank order: in rank order, the same hits,
/// and hits that rank equal keep their order in `s`.
pub open spec fn is_stable_ranking(r: Seq<ScoredHit>, s: Seq<ScoredHit>) -> bool {
    &&& in_rank_order(r)
    &&& r.to_multiset() == s.to_multiset()
    &&& forall|x: ScoredHit| #[trigger] rank_peers(r, x) == rank_peers(s, x)
}

/// Relies on `Itertools::sorted_by`: a stable sort (`slice::sort_by`) into
/// ascending order of the comparison. `compare_hits` is a total order whose
/// `Less` is `ranks_ahead` and whose `Equal` is `same_rank`.
#[verifier::external_body]
fn sort_ranked(v: Vec<ScoredHit>) -> (r: Vec<ScoredHit>)
    ensures
        is_stable_ranking(r@, v@),
{
    v.into_iter().sorted_by(compare_hits).collect()
}

/// The vector's items in reverse order.
fn reversed<T>(v: Vec<T>) -> (r: Vec<T>)
    ensures
        r@ == v@.reverse(),
{
    let ghost orig = v@;
    let mut v = v;
    let mut r: Vec<T> = Vec::new();
    while v.len() > 0
        invariant
            v@ == orig.take(v@.len() as int),
            r@.len() + v@.len() == orig.len(),
            forall|j: int| 0 <= j < r@.len() ==> #[trigger] r@[j] == orig[orig.len() - 1 - j],
        decreases v.len(),
    {
        let x = v.pop().unwrap();
        r.push(x);
        assert(v@ =~= orig.take(v@.len() as int));
    }
    assert(r@ =~= orig.reverse());
    r
}

/// The fuzzy score of the hit's title for the query, if it matches.
fn get_score(hit: &SimpleHit, query: &str) -> (r: Option<u32>)
    ensures
        r == fuzzy_score(hit.spec_title(), query@),
        r is Some <==> fuzzy_matches(query@, hit.spec_title()),
{
    match skim_fuzzy_match(hit.get_title(), query) {
        Some(s) => Some(
            if s < 0 {
                0
            } else if s > 0xFFFF_FFFF {
                0xFFFF_FFFF
            } else {
                s as u32
            },
        ),
        None => None,
    }
}

/// The hit with its score, or `None` when it has no pinned score and does
/// not match the query.
fn get_scored_hit(hit: SimpleHit, query: &str) -> (r: Option<ScoredHit>)
    ensures
        r == (match score_of(hit, query@) {
            Some(s) => Some(ScoredHit { hit, score: s }),
            None => None,
        }),
        r is Some <==> (hit.spec_score() is Some || fuzzy_matches(query@, hit.spec_title())),
{
    let score = match hit.get_override_score() {
        Some(s) => Some(s),
        None => get_score(&hit, query),
    };
    match score {
        Some(s) => Some(ScoredHit { hit, score: s }),
        None => None,
    }
}

/// Scores each hit against the query, discards those without a score and
/// orders the rest: highest score first, equal scores by title, and hits
/// equal in both in the order given.
pub fn get_scored_hits(hits: Vec<SimpleHit>, query: &str) -> (r: Vec<ScoredHit>)
    ensures
        is_stable_ranking(r@, scored(hits@, query@)),
        forall|i: int|
            0 <= i < r@.len() ==> (#[trigger] r@[i]).hit.spec_score() is Some || fuzzy_matches(
                query@,
                r@[i].hit.spec_title(),
            ),
{
    let ghost orig = hits@;
    let mut rest = reversed(hits);
    let mut kept: Vec<ScoredHit> = Vec::new();
    while rest.len() > 0
        invariant
            rest@ == orig.skip(orig.len() - rest@.len()).reverse(),
            rest@.len() <= orig.len(),
            kept@ == scored(orig.take(orig.len() - rest@.len()), query@),
            forall|i: int|
                0 <= i < kept@.len() ==> (#[trigger] kept@[i]).hit.spec_score() is Some
                    || fuzzy_matches(query@, kept@[i].hit.spec_title()),
        decreases rest.len(),
    {
        let ghost k = orig.len() - rest@.len();
        let h = rest.pop().unwrap();
        assert(h == orig[k]);
        assert(orig.take(k + 1).drop_last() =~= orig.take(k));
        assert(rest@ =~= orig.skip(k + 1).reverse());
        match get_scored_hit(h, query) {
            Some(x) => kept.push(x),
            None => {},
        }
    }
    assert(orig.take(orig.len() as int) =~= orig);
    let r = sort_ranked(kept);
    assert forall|i: int| 0 <= i < r@.len() implies (#[trigger] r@[i]).hit.spec_score() is Some
        || fuzzy_matches(query@, r@[i].hit.spec_title()) by {
        assert(r@.contains(r@[i]));
        assert(r@.to_multiset().count(r@[i]) > 0);
        assert(kept@.to_multiset().count(r@[i]) > 0);
        assert(kept@.contains(r@[i]));
    }
    r
}

/// Like `get_scored_hits`, but without matching: every hit stays, with its
/// pinned score or zero.
pub fn get_unscored_hits(hits: Vec<SimpleHit>) -> (r: Vec<ScoredHit>)
    ensures
        is_stable_ranking(r@, unscored(hits@)),
{
    let ghost orig = hits@;
    let mut rest = reversed(hits);
    let mut kept: Vec<ScoredHit> = Vec::new();
    while rest.len() > 0
        invariant
            rest@ == orig.skip(orig.len() - rest@.len()).reverse(),
            rest@.len() <= orig.len(),
            kept@ == unscored(orig.take(orig.len() - rest@.len())),
        decreases rest.len(),
    {
        let ghost k = orig.len() - rest@.len();
        let h = rest.pop().unwrap();
        assert(h == orig[k]);
        assert(unscored(orig.take(k + 1)) =~= unscored(orig.take(k)).push(unscored(orig)[k]));
        assert(rest@ =~= orig.skip(k + 1).reverse());
        let score = match h.get_override_score() {
            Some(s) => s,
            None => 0,
        };
        kept.push(ScoredHit { hit: h, score });
    }
    assert(orig.take(orig.len() as int) =~= orig);
    sort_ranked(kept)
}

/// A hit that has a score is among the scored hits, with that score.
pub proof fn lemma_scored_contains(hits: Seq<SimpleHit>, query: Seq<char>, i: int)
    requires
        0 <= i < hits.len(),
        score_of(hits[i], query) is Some,
    ensures
        scored(hits, query).contains(
            ScoredHit { hit: hits[i], score: score_of(hits[i], query)->Some_0 },
        ),
    decreases hits.len(),
{
    let x = ScoredHit { hit: hits[i], score: score_of(hits[i], query)->Some_0 };
    if i == hits.len() - 1 {
        let rest = scored(hits.drop_last(), query);
        assert(scored(hits, query) == rest.push(x));
        assert(rest.push(x)[rest.len() as int] == x);
    } else {
        assert(hits.drop_last()[i] == hits[i]);
        lemma_scored_contains(hits.drop_last(), query, i);
        let rest = scored(hits.drop_last(), query);
        let k = choose|k: int| 0 <= k < rest.len() && rest[k] == x;
        match score_of(hits.last(), query) {
            Some(s) => {
                assert(rest.push(ScoredHit { hit: hits.last(), score: s })[k] == x);
            },
            None => {},
        }
    }
}

/// A hit with a pinned score is always listed, with that score, whatever
/// its title and the query, and no hit with a lower score is listed before it.
pub proof fn lemma_pinned_hit_listed(
    hits: Seq<SimpleHit>,
    query: Seq<char>,
    r: Seq<ScoredHit>,
    i: int,
)
    requires
        0 <= i < hits.len(),
        hits[i].spec_score() is Some,
        is_stable_ranking(r, scored(hits, query)),
    ensures
        r.contains(ScoredHit { hit: hits[i], score: hits[i].spec_score()->Some_0 }),
        forall|j: int, k: int|
            0 <= j < r.len() && 0 <= k < r.len() && r[j] == (ScoredHit {
                hit: hits[i],
                score: hits[i].spec_score()->Some_0,
            }) && r[k].score < r[j].score ==> j < k,
{
    let x = ScoredHit { hit: hits[i], score: hits[i].spec_score()->Some_0 };
    lemma_scored_contains(hits, query, i);
    assert(scored(hits, query).to_multiset().count(x) > 0);
    assert(r.to_multiset().count(x) > 0);
    assert forall|j: int, k: int|
        0 <= j < r.len() && 0 <= k < r.len() && r[j] == x && r[k].score < r[j].score implies j < k by {
        if k <= j {
            assert(k != j);
            assert(!ranks_ahead(r[j], r[k]));
        }
    }
}

/// Of two scored hits, the one that ranks ahead (a higher score, or an equal
/// score and a title that comes first) is listed first.
pub proof fn lemma_ranked_hits_in_order(
    hits: Seq<SimpleHit>,
    query: Seq<char>,
    r: Seq<ScoredHit>,
    x: ScoredHit,
    y: ScoredHit,
)
    requires
        is_stable_ranking(r, scored(hits, query)),
        scored(hits, query).contains(x),
        scored(hits, query).contains(y),
        ranks_ahead(x, y),
    ensures
        r.contains(x),
        r.contains(y),
        forall|p: int, q: int| 0 <= p < r.len() && 0 <= q < r.len() && r[p] == x && r[q] == y ==> p < q,
{
    let s = scored(hits, query);
    assert(s.to_multiset().count(x) > 0);
    assert(s.to_multiset().count(y) > 0);
    assert(r.to_multiset().count(x) > 0);
    assert(r.to_multiset().count(y) > 0);
    lemma_ranks_ahead_asymmetric(x, y);
    assert forall|p: int, q: int| 0 <= p < r.len() && 0 <= q < r.len() && r[p] == x && r[q] == y implies p < q by {
        if q <= p {
            assert(q != p);
            assert(!ranks_ahead(r[p], r[q]));
        }
    }
}

/// An element at two places of a sequence counts twice.
pub proof fn lemma_count_two_places<A>(s: Seq<A>, i: int, j: int)
    requires
        0 <= i < j < s.len(),
        s[i] == s[j],
    ensures
        s.to_multiset().count(s[i]) >= 2,
    decreases s.len(),
{
    let t = s.drop_last();
    assert(s =~= t.push(s.last()));
    if j == s.len() - 1 {
        assert(t[i] == s[i]);
        assert(t.contains(s[i]));
        assert(t.to_multiset().count(s[i]) > 0);
    } else {
        assert(t[i] == s[i] && t[j] == s[j]);
        lemma_count_two_places(t, i, j);
    }
}

/// An element that counts twice stands at two places.
pub proof fn lemma_two_places_of_count<A>(s: Seq<A>, x: A)
    requires
        s.to_multiset().count(x) >= 2,
    ensures
        exists|i: int, j: int| 0 <= i < j < s.len() && s[i] == x && s[j] == x,
    decreases s.len(),
{
    if s.len() == 0 {
        assert(s.to_multiset() =~= vstd::multiset::Multiset::empty());
    } else {
        let t = s.drop_last();
        assert(s =~= t.push(s.last()));
        if s.last() == x {
            assert(t.to_multiset().count(x) > 0);
            assert(t.contains(x));
            let i = choose|i: int| 0 <= i < t.len() && t[i] == x;
            assert(s[i] == x && s[s.len() - 1] == x);
        } else {
            lemma_two_places_of_count(t, x);
            let (i, j) = choose|i: int, j: int| 0 <= i < j < t.len() && t[i] == x && t[j] == x;
            assert(s[i] == x && s[j] == x);
        }
    }
}

/// When the scored hits all have different scores, the result goes strictly
/// from the highest score to the lowest.
pub proof fn lemma_distinct_scores_descend(hits: Seq<SimpleHit>, query: Seq<char>, r: Seq<ScoredHit>)
    requires
        is_stable_ranking(r, scored(hits, query)),
        forall|a: int, b: int|
            0 <= a < b < scored(hits, query).len() ==> scored(hits, query)[a].score != scored(
                hits,
                query,
            )[b].score,
    ensures
        forall|i: int, j: int| 0 <= i < j < r.len() ==> #[trigger] r[i].score > #[trigger] r[j].score,
{
    let s = scored(hits, query);
    assert forall|i: int, j: int| 0 <= i < j < r.len() implies #[trigger] r[i].score
        > #[trigger] r[j].score by {
        assert(!ranks_ahead(r[j], r[i]));
        if r[i].score == r[j].score {
            if r[i] == r[j] {
                lemma_count_two_places(r, i, j);
                lemma_two_places_of_count(s, r[i]);
            } else {
                assert(r.contains(r[i]) && r.contains(r[j]));
                assert(s.to_multiset().count(r[i]) > 0 && s.to_multiset().count(r[j]) > 0);
                assert(s.contains(r[i]) && s.contains(r[j]));
                let a = choose|a: int| 0 <= a < s.len() && s[a] == r[i];
                let b = choose|b: int| 0 <= b < s.len() && s[b] == r[j];
                assert(a != b);
            }
        }
    }
}

/// Hits with equal scores are listed in ascending order of their titles.
pub proof fn lemma_equal_scores_by_title(
    hits: Seq<SimpleHit>,
    query: Seq<char>,
    r: Seq<ScoredHit>,
    x: ScoredHit,
    y: ScoredHit,
)
    requires
        is_stable_ranking(r, scored(hits, query)),
        scored(hits, query).contains(x),
        scored(hits, query).contains(y),
        x.score == y.score,
        lex_lt(x.hit.spec_title(), y.hit.spec_title()),
    ensures
        forall|p: int, q: int| 0 <= p < r.len() && 0 <= q < r.len() && r[p] == x && r[q] == y ==> p < q,
{
    lemma_ranked_hits_in_order(hits, query, r, x, y);
}

} // verus!
