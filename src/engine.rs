//! The query engine: routing, fan-out and aggregation.
use vstd::prelude::*;
use crate::provider::{Provider, SimpleHit};
use crate::scoring::{fuzzy_matches, get_scored_hits, is_stable_ranking, scored, ScoredHit};
use crate::text::{
    after_first_token, chars_of, first_token, is_blank, string_of, text_is_blank, token_len, trim,
};

verus! {

/// A provider and the keyword it was registered with.
struct ProviderInfo<P> {
    provider: P,
    keyword: Option<String>,
}

/// The hits of one query, in display order.
pub struct QueryResult {
    pub hits: Vec<ScoredHit>,
}

impl QueryResult {
    pub fn new(hits: Vec<ScoredHit>) -> (r: Self)
        ensures
            r.hits@ == hits@,
    {
        QueryResult { hits }
    }

    pub fn empty() -> (r: Self)
        ensures
            r.hits@.len() == 0,
    {
        QueryResult { hits: Vec::new() }
    }
}

/// Aggregates and scores hits from the registered providers.
pub struct QueryEngine<P> {
    providers: Vec<ProviderInfo<P>>,
    confirmed: Vec<SimpleHit>,
}

/// The keyword of each registered provider, in registration order.
pub type Keywords = Seq<Option<Seq<char>>>;

/// The text of an optional keyword.
pub open spec fn keyword_view(k: Option<String>) -> Option<Seq<char>> {
    match k {
        Some(k) => Some(k@),
        None => None,
    }
}

/// The first provider whose keyword is `token`.
pub open spec fn keyword_match(keywords: Keywords, token: Seq<char>) -> Option<int>
    decreases keywords.len(),
{
    if keywords.len() == 0 {
        None
    } else {
        match keyword_match(keywords.drop_last(), token) {
            Some(i) => Some(i),
            None => if keywords.last() == Some(token) {
                Some(keywords.len() - 1)
            } else {
                None
            },
        }
    }
}

/// The providers without a keyword, in registration order.
pub open spec fn fan_out(keywords: Keywords) -> Seq<int>
    decreases keywords.len(),
{
    if keywords.len() == 0 {
        Seq::empty()
    } else if keywords.last() is None {
        fan_out(keywords.drop_last()).push(keywords.len() - 1)
    } else {
        fan_out(keywords.drop_last())
    }
}

/// The text that a query hands to the providers, and scores hits against.
pub open spec fn routed_text(keywords: Keywords, text: Seq<char>) -> Seq<char> {
    if is_blank(text) {
        text
    } else {
        match keyword_match(keywords, first_token(text)) {
            Some(_) => after_first_token(text),
            None => text,
        }
    }
}

/// The providers that a query invokes, in order.
pub open spec fn routed(keywords: Keywords, text: Seq<char>) -> Seq<int> {
    if is_blank(text) {
        Seq::empty()
    } else {
        match keyword_match(keywords, first_token(text)) {
            Some(i) => seq![i],
            None => fan_out(keywords),
        }
    }
}

/// `r` is what a query of `text` returns for some answers of the providers
/// that it routes to.
pub open spec fn answers_query(r: Seq<ScoredHit>, keywords: Keywords, text: Seq<char>) -> bool {
    exists|answers: Seq<Seq<SimpleHit>>|
        answers.len() == routed(keywords, text).len() && #[trigger] ranked_answer(
            r,
            answers,
            routed_text(keywords, text),
        )
}

/// Hits that the query result may hold: pinned, or matching the text.
pub open spec fn all_pinned_or_matching(r: Seq<ScoredHit>, text: Seq<char>) -> bool {
    forall|i: int|
        0 <= i < r.len() ==> (#[trigger] r[i]).hit.spec_score() is Some || fuzzy_matches(
            text,
            r[i].hit.spec_title(),
        )
}

/// A blank query invokes no provider.
pub proof fn lemma_blank_query_invokes_nothing(keywords: Keywords, text: Seq<char>)
    requires
        is_blank(text),
    ensures
        routed(keywords, text).len() == 0,
{
}

/// When the first token is a keyword, the query goes to the first provider
/// registered with it, with the text after the token and its white space.
pub proof fn lemma_keyword_routes_to_one(keywords: Keywords, text: Seq<char>, i: int)
    requires
        !is_blank(text),
        keyword_match(keywords, first_token(text)) == Some(i),
    ensures
        routed(keywords, text) == seq![i],
        routed_text(keywords, text) == after_first_token(text),
        keywords[i] == Some(first_token(text)),
        forall|j: int| 0 <= j < i ==> keywords[j] != Some(first_token(text)),
{
    lemma_keyword_match_first(keywords, first_token(text));
}

/// The first provider with a keyword is registered with it, and none before.
pub proof fn lemma_keyword_match_first(keywords: Keywords, token: Seq<char>)
    ensures
        keyword_match(keywords, token) matches Some(i) ==> 0 <= i < keywords.len() && keywords[i]
            == Some(token) && forall|j: int| 0 <= j < i ==> keywords[j] != Some(token),
        keyword_match(keywords, token) is None ==> forall|j: int|
            0 <= j < keywords.len() ==> keywords[j] != Some(token),
    decreases keywords.len(),
{
    if keywords.len() > 0 {
        lemma_keyword_match_first(keywords.drop_last(), token);
        assert forall|j: int| 0 <= j < keywords.len() - 1 implies keywords[j]
            == keywords.drop_last()[j] by {}
    }
}

/// Without a keyword match, the query goes to exactly the providers without
/// a keyword, in registration order, with the whole text.
pub proof fn lemma_fan_out_routes_to_keywordless(keywords: Keywords, text: Seq<char>)
    requires
        !is_blank(text),
        keyword_match(keywords, first_token(text)) is None,
    ensures
        routed(keywords, text) == fan_out(keywords),
        routed_text(keywords, text) == text,
        forall|j: int| 0 <= j < keywords.len() ==> (keywords[j] is None <==> fan_out(keywords).contains(j)),
        forall|a: int, b: int| 0 <= a < b < fan_out(keywords).len() ==> fan_out(keywords)[a] < fan_out(keywords)[b],
{
    lemma_fan_out_members(keywords);
}

pub proof fn lemma_fan_out_members(keywords: Keywords)
    ensures
        forall|j: int| 0 <= j < keywords.len() ==> (keywords[j] is None <==> fan_out(keywords).contains(j)),
        forall|a: int| 0 <= a < fan_out(keywords).len() ==> 0 <= #[trigger] fan_out(keywords)[a] < keywords.len(),
        forall|a: int, b: int| 0 <= a < b < fan_out(keywords).len() ==> fan_out(keywords)[a] < fan_out(keywords)[b],
    decreases keywords.len(),
{
    if keywords.len() > 0 {
        let rest = keywords.drop_last();
        lemma_fan_out_members(rest);
        let n = keywords.len() - 1;
        assert forall|j: int| 0 <= j < keywords.len() implies (keywords[j] is None <==> fan_out(keywords).contains(j)) by {
            if j < n {
                assert(keywords[j] == rest[j]);
                if fan_out(keywords).contains(j) && keywords.last() is None {
                    let k = choose|k: int| 0 <= k < fan_out(keywords).len() && fan_out(keywords)[k] == j;
                    if k < fan_out(rest).len() {
                        assert(fan_out(rest)[k] == j);
                    }
                }
                if fan_out(rest).contains(j) && keywords.last() is None {
                    let k = choose|k: int| 0 <= k < fan_out(rest).len() && fan_out(rest)[k] == j;
                    assert(fan_out(keywords)[k] == j);
                }
            } else {
                if keywords.last() is None {
                    assert(fan_out(keywords)[fan_out(rest).len() as int] == n);
                } else if fan_out(keywords).contains(j) {
                    let k = choose|k: int| 0 <= k < fan_out(keywords).len() && fan_out(keywords)[k] == j;
                    assert(fan_out(rest)[k] < rest.len());
                }
            }
        }
    }
}

pub proof fn lemma_keyword_match_prefix(keywords: Keywords, token: Seq<char>, n: int)
    requires
        0 <= n <= keywords.len(),
        keyword_match(keywords.take(n), token) is Some,
    ensures
        keyword_match(keywords, token) == keyword_match(keywords.take(n), token),
    decreases keywords.len(),
{
    if n < keywords.len() {
        assert(keywords.drop_last().take(n) =~= keywords.take(n));
        lemma_keyword_match_prefix(keywords.drop_last(), token, n);
    } else {
        assert(keywords.take(n) =~= keywords);
    }
}

/// Indices as integers.
pub open spec fn as_ints(s: Seq<usize>) -> Seq<int> {
    s.map_values(|k: usize| k as int)
}

/// The hits of several answers, one after another.
pub open spec fn joined(answers: Seq<Seq<SimpleHit>>) -> Seq<SimpleHit>
    decreases answers.len(),
{
    if answers.len() == 0 {
        Seq::empty()
    } else {
        joined(answers.drop_last()) + answers.last()
    }
}

/// What a query returns, given what the invoked providers answered.
pub open spec fn ranked_answer(r: Seq<ScoredHit>, answers: Seq<Seq<SimpleHit>>, text: Seq<char>) -> bool {
    is_stable_ranking(r, scored(joined(answers), text))
}

impl<P: Provider> QueryEngine<P> {
    /// The keyword of each registered provider.
    pub closed spec fn keywords(&self) -> Keywords {
        self.providers@.map_values(|p: ProviderInfo<P>| keyword_view(p.keyword))
    }

    /// The registered providers, in registration order.
    pub closed spec fn providers(&self) -> Seq<P> {
        self.providers@.map_values(|p: ProviderInfo<P>| p.provider)
    }

    /// The hits confirmed by the user and not yet taken.
    pub closed spec fn confirmed(&self) -> Seq<SimpleHit> {
        self.confirmed@
    }

    /// An engine with no providers and no confirmed hits.
    pub fn new() -> (r: Self)
        ensures
            r.keywords().len() == 0,
            r.providers().len() == 0,
            r.confirmed().len() == 0,
    {
        QueryEngine { providers: Vec::new(), confirmed: Vec::new() }
    }

    /// Adds the provider to the engine's collection.
    pub fn register(&mut self, provider: P, keyword: Option<String>)
        ensures
            final(self).keywords() == old(self).keywords().push(keyword_view(keyword)),
            final(self).providers() == old(self).providers().push(provider),
            final(self).confirmed() == old(self).confirmed(),
    {
        let ghost kw = keyword_view(keyword);
        let ghost before = self.providers@;
        let info = ProviderInfo { provider, keyword };
        self.providers.push(info);
        proof {
            assert(self.providers@ == before.push(info));
            assert(before == old(self).providers@);
            assert forall|i: int| 0 <= i < self.providers@.len() implies #[trigger] self.keywords()[i]
                == old(self).keywords().push(kw)[i] by {
                if i < before.len() {
                    assert(self.providers@[i] == before[i]);
                }
            }
            assert(self.keywords() =~= old(self).keywords().push(kw));
            assert(self.providers() =~= old(self).providers().push(provider));
        }
    }

    /// Queries the providers with the given text.
    ///
    /// The providers and the text they get are those of `route`: none for
    /// blank text; when the first token is the keyword of a provider, the
    /// first such provider alone, with the rest of the text; otherwise every
    /// provider without a keyword, in registration order, with the whole
    /// text. Each is called once, and their hits are scored against that
    /// text and ordered.
    pub fn query(&self, query: &str) -> (r: QueryResult)
        ensures
            is_blank(query@) ==> r.hits@.len() == 0,
            answers_query(r.hits@, self.keywords(), query@),
            all_pinned_or_matching(r.hits@, routed_text(self.keywords(), query@)),
    {
        let (indices, text) = self.route(query);
        let r = self.inner_query(&indices, text.as_str());
        proof {
            let answers = choose|answers: Seq<Seq<SimpleHit>>|
                answers.len() == indices@.len() && #[trigger] ranked_answer(r.hits@, answers, text@);
            assert(ranked_answer(r.hits@, answers, routed_text(self.keywords(), query@)));
            assert(answers_query(r.hits@, self.keywords(), query@));
            if is_blank(query@) {
                assert(answers.len() == 0);
                assert(joined(answers) =~= Seq::<SimpleHit>::empty());
                assert(scored(joined(answers), text@) =~= Seq::<ScoredHit>::empty());
                vstd::seq_lib::to_multiset_len(r.hits@);
                vstd::seq_lib::to_multiset_len(Seq::<ScoredHit>::empty());
                assert(r.hits@.to_multiset().len() == 0);
            }
        }
        r
    }

    /// The providers that a query of `text` invokes, in order, and the text
    /// that each of them gets.
    pub fn route(&self, text: &str) -> (r: (Vec<usize>, String))
        ensures
            as_ints(r.0@) == routed(self.keywords(), text@),
            r.1@ == routed_text(self.keywords(), text@),
            forall|j: int| 0 <= j < r.0@.len() ==> #[trigger] r.0@[j] < self.providers().len(),
    {
        if text_is_blank(text) {
            let none: Vec<usize> = Vec::new();
            assert(as_ints(none@) =~= Seq::<int>::empty());
            return (none, text.to_owned());
        }
        match self.try_keyword_query(text) {
            Some((i, rest)) => {
                let mut one: Vec<usize> = Vec::new();
                one.push(i);
                assert(as_ints(one@) =~= seq![i as int]);
                (one, rest)
            },
            None => (self.keywordless_providers(), text.to_owned()),
        }
    }

    /// Records that the user confirmed the hit; its action is carried out by
    /// whoever takes the confirmed hits. No provider is involved.
    pub fn run_hit_action(&mut self, hit: SimpleHit)
        ensures
            final(self).confirmed() == old(self).confirmed().push(hit),
            final(self).keywords() == old(self).keywords(),
            final(self).providers() == old(self).providers(),
    {
        self.confirmed.push(hit);
    }

    /// Hands out the confirmed hits, oldest first, and forgets them.
    pub fn take_confirmed(&mut self) -> (r: Vec<SimpleHit>)
        ensures
            r@ == old(self).confirmed(),
            final(self).confirmed().len() == 0,
            final(self).keywords() == old(self).keywords(),
            final(self).providers() == old(self).providers(),
    {
        let mut taken: Vec<SimpleHit> = Vec::new();
        std::mem::swap(&mut taken, &mut self.confirmed);
        taken
    }

    /// The providers without a keyword, in registration order.
    fn keywordless_providers(&self) -> (r: Vec<usize>)
        ensures
            as_ints(r@) == fan_out(self.keywords()),
            forall|j: int| 0 <= j < r@.len() ==> #[trigger] r@[j] < self.providers().len(),
    {
        let mut indices: Vec<usize> = Vec::new();
        let mut i: usize = 0;
        while i < self.providers.len()
            invariant
                i <= self.providers@.len(),
                self.keywords().len() == self.providers@.len(),
                self.providers().len() == self.providers@.len(),
                as_ints(indices@) == fan_out(self.keywords().take(i as int)),
                forall|j: int| 0 <= j < indices@.len() ==> #[trigger] indices@[j] < self.providers@.len(),
            decreases self.providers.len() - i,
        {
            assert(self.keywords().take(i + 1).drop_last() =~= self.keywords().take(i as int));
            if self.providers[i].keyword.is_none() {
                indices.push(i);
                assert(as_ints(indices@) =~= fan_out(self.keywords().take(i as int)).push(i as int));
            }
            i = i + 1;
        }
        assert(self.keywords().take(i as int) =~= self.keywords());
        indices
    }

    /// Tries to find a provider whose keyword is the query's first token.
    /// If one is found, gives it with the query's rest: the text after the
    /// token, without leading and trailing white space.
    fn try_keyword_query(&self, query: &str) -> (r: Option<(usize, String)>)
        ensures
            r is None <==> keyword_match(self.keywords(), first_token(query@)) is None,
            r matches Some(route) ==> keyword_match(self.keywords(), first_token(query@)) == Some(
                route.0 as int,
            ) && route.0 < self.providers().len() && route.1@ == after_first_token(query@),
    {
        let v = chars_of(query);
        let k = token_len(&v);
        let first_word = sub_text(&v, 0, k);
        assert(first_word@ == first_token(query@));
        match self.check_keywords(&first_word) {
            None => None,
            Some(i) => {
                let after = sub_text(&v, k, v.len());
                assert(after@ =~= query@.skip(k as int));
                let rest = trim(after.as_str());
                Some((i, rest))
            },
        }
    }

    /// The index of the first provider whose keyword is `first_word`.
    fn check_keywords(&self, first_word: &String) -> (r: Option<usize>)
        ensures
            r matches Some(i) ==> keyword_match(self.keywords(), first_word@) == Some(i as int)
                && i < self.providers@.len() && i < self.providers().len(),
            r is None ==> keyword_match(self.keywords(), first_word@) is None,
    {
        let mut i: usize = 0;
        while i < self.providers.len()
            invariant
                i <= self.providers@.len(),
                self.keywords().len() == self.providers@.len(),
                keyword_match(self.keywords().take(i as int), first_word@) is None,
            decreases self.providers.len() - i,
        {
            assert(self.keywords().take(i + 1).drop_last() =~= self.keywords().take(i as int));
            match &self.providers[i].keyword {
                Some(keyword) => {
                    if keyword.eq(first_word) {
                        proof {
                            assert(self.keywords()[i as int] == Some(keyword@));
                            assert(self.keywords().take(i + 1).last() == self.keywords()[i as int]);
                            assert(keyword_match(self.keywords().take(i + 1), first_word@) == Some(
                                i as int,
                            ));
                            lemma_keyword_match_prefix(self.keywords(), first_word@, i + 1);
                        }
                        return Some(i);
                    }
                },
                None => {},
            }
            i = i + 1;
        }
        assert(self.keywords().take(i as int) =~= self.keywords());
        None
    }

    /// Calls each of the given providers once, in order, with `query`;
    /// scores their hits against it and orders them. `answers[j]` stands for
    /// what the provider at `indices[j]` returned.
    fn inner_query(&self, indices: &Vec<usize>, query: &str) -> (r: QueryResult)
        requires
            forall|j: int| 0 <= j < indices@.len() ==> #[trigger] indices@[j] < self.providers().len(),
        ensures
            exists|answers: Seq<Seq<SimpleHit>>|
                answers.len() == indices@.len() && #[trigger] ranked_answer(r.hits@, answers, query@),
            all_pinned_or_matching(r.hits@, query@),
    {
        let mut hits: Vec<SimpleHit> = Vec::new();
        let ghost mut answers: Seq<Seq<SimpleHit>> = Seq::empty();
        let mut j: usize = 0;
        while j < indices.len()
            invariant
                j <= indices@.len(),
                answers.len() == j,
                hits@ == joined(answers),
                forall|t: int| 0 <= t < indices@.len() ==> #[trigger] indices@[t] < self.providers().len(),
                self.providers().len() == self.providers@.len(),
            decreases indices.len() - j,
        {
            let ghost prev = answers;
            let mut answer = self.providers[indices[j]].provider.query(query);
            proof {
                answers = prev.push(answer.hits@);
                assert(answers.drop_last() =~= prev);
            }
            hits.append(&mut answer.hits);
            j = j + 1;
        }
        let scored_hits = get_scored_hits(hits, query);
        let r = QueryResult { hits: scored_hits };
        assert(ranked_answer(r.hits@, answers, query@));
        r
    }
}

/// The text of `v` from `from` up to `to`.
fn sub_text(v: &Vec<char>, from: usize, to: usize) -> (r: String)
    requires
        from <= to <= v@.len(),
    ensures
        r@ == v@.subrange(from as int, to as int),
{
    let mut out: Vec<char> = Vec::new();
    let mut i: usize = from;
    while i < to
        invariant
            from <= i <= to,
            to <= v@.len(),
            out@ == v@.subrange(from as int, i as int),
        decreases to - i,
    {
        out.push(v[i]);
        assert(out@ =~= v@.subrange(from as int, i + 1));
        i = i + 1;
    }
    string_of(out.as_slice())
}

} // verus!
