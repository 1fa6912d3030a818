use std::cell::RefCell;

use gravel::engine::{QueryEngine, QueryResult};
use gravel::frontend::FrontendMessage;
use gravel::provider::{Hit, HitAction, Provider, ProviderResult, SimpleHit};
use gravel::scoring::{MAX_SCORE, MIN_SCORE};

/// Returns fixed hits and records every query it is given.
struct Spy {
    hits: Vec<(&'static str, Option<u32>)>,
    calls: RefCell<Vec<String>>,
}

impl Spy {
    fn new(hits: Vec<(&'static str, Option<u32>)>) -> Self {
        Spy { hits, calls: RefCell::new(Vec::new()) }
    }
}

impl Provider for Spy {
    fn query(&self, query: &str) -> ProviderResult {
        self.calls.borrow_mut().push(query.to_string());
        let hits = self
            .hits
            .iter()
            .map(|(title, score)| {
                let hit = SimpleHit::new(title.to_string(), String::new(), HitAction::RunTitle);
                match score {
                    Some(s) => hit.with_score(*s),
                    None => hit,
                }
            })
            .collect();
        ProviderResult::new(hits)
    }
}

impl<'a> Provider for &'a Spy {
    fn query(&self, query: &str) -> ProviderResult {
        (**self).query(query)
    }
}

fn titles(result: &QueryResult) -> Vec<String> {
    result.hits.iter().map(|h| h.hit.get_title().to_string()).collect()
}

#[test]
fn blank_query_returns_nothing_and_invokes_no_provider() {
    let plain = Spy::new(vec![("Firefox", None), ("pinned", Some(MAX_SCORE))]);
    let keyed = Spy::new(vec![("4", Some(MAX_SCORE))]);
    let mut engine = QueryEngine::new();
    engine.register(&keyed, Some("calc".to_string()));
    engine.register(&plain, None);
    for text in ["", " ", "   ", "\t", " \n\t "] {
        let result = engine.query(text);
        assert!(result.hits.is_empty(), "{text:?}");
    }
    assert!(plain.calls.borrow().is_empty());
    assert!(keyed.calls.borrow().is_empty());
}

#[test]
fn keyword_routes_to_that_provider_alone() {
    let keyed = Spy::new(vec![("4", Some(MAX_SCORE)), ("2+2=4", None), ("xyz", None)]);
    let plain = Spy::new(vec![("Firefox", None)]);
    let mut engine = QueryEngine::new();
    engine.register(&keyed, Some("calc".to_string()));
    engine.register(&plain, None);
    let result = engine.query("calc 2+2");
    assert_eq!(*keyed.calls.borrow(), vec!["2+2".to_string()]);
    assert!(plain.calls.borrow().is_empty());
    // scored against "2+2": the pinned hit first, the match after, "xyz" dropped
    assert_eq!(titles(&result), vec!["4".to_string(), "2+2=4".to_string()]);
}

#[test]
fn unmatched_first_token_fans_out_to_providers_without_keyword() {
    let keyed = Spy::new(vec![("4", Some(MAX_SCORE))]);
    let plain = Spy::new(vec![("unrelated text", None)]);
    let other = Spy::new(vec![]);
    let mut engine = QueryEngine::new();
    engine.register(&keyed, Some("calc".to_string()));
    engine.register(&plain, None);
    engine.register(&other, None);
    let result = engine.query("unrelated text");
    assert!(keyed.calls.borrow().is_empty());
    assert_eq!(*plain.calls.borrow(), vec!["unrelated text".to_string()]);
    assert_eq!(*other.calls.borrow(), vec!["unrelated text".to_string()]);
    assert_eq!(titles(&result), vec!["unrelated text".to_string()]);
}

#[test]
fn first_registered_keyword_wins() {
    let first = Spy::new(vec![("one", Some(1))]);
    let second = Spy::new(vec![("two", Some(2))]);
    let mut engine = QueryEngine::new();
    engine.register(&first, Some("k".to_string()));
    engine.register(&second, Some("k".to_string()));
    let result = engine.query("k  rest of it");
    assert_eq!(*first.calls.borrow(), vec!["rest of it".to_string()]);
    assert!(second.calls.borrow().is_empty());
    assert_eq!(titles(&result), vec!["one".to_string()]);
}

#[test]
fn keyword_match_is_case_sensitive() {
    let keyed = Spy::new(vec![]);
    let plain = Spy::new(vec![]);
    let mut engine = QueryEngine::new();
    engine.register(&keyed, Some("calc".to_string()));
    engine.register(&plain, None);
    engine.query("Calc 1");
    assert!(keyed.calls.borrow().is_empty());
    assert_eq!(*plain.calls.borrow(), vec!["Calc 1".to_string()]);
}

#[test]
fn keyword_alone_gives_empty_remainder() {
    let keyed = Spy::new(vec![("4", Some(MAX_SCORE))]);
    let mut engine = QueryEngine::new();
    engine.register(&keyed, Some("k".to_string()));
    let result = engine.query("k");
    assert_eq!(*keyed.calls.borrow(), vec!["".to_string()]);
    assert_eq!(titles(&result), vec!["4".to_string()]);
}

#[test]
fn end_to_end_keyword_and_fuzzy_scenario() {
    let a = Spy::new(vec![("4", Some(MAX_SCORE))]);
    let b = Spy::new(vec![("Firefox", None), ("Files", None)]);
    let mut engine = QueryEngine::new();
    engine.register(&a, Some("k".to_string()));
    engine.register(&b, None);
    assert_eq!(titles(&engine.query("k anything")), vec!["4".to_string()]);
    let fire = titles(&engine.query("fire"));
    assert!(fire.contains(&"Firefox".to_string()));
    assert!(!fire.contains(&"Files".to_string()));
}

#[test]
fn hits_from_several_providers_are_not_deduplicated() {
    let a = Spy::new(vec![("same", Some(3))]);
    let b = Spy::new(vec![("same", Some(3))]);
    let mut engine = QueryEngine::new();
    engine.register(&a, None);
    engine.register(&b, None);
    assert_eq!(titles(&engine.query("x")), vec!["same".to_string(), "same".to_string()]);
}

#[test]
fn run_hit_action_confirms_exactly_that_hit_once() {
    let plain = Spy::new(vec![("Firefox", None)]);
    let mut engine = QueryEngine::new();
    engine.register(&plain, None);
    let first = SimpleHit::new("a".to_string(), "sa".to_string(), HitAction::Message(FrontendMessage::Exit));
    let second = SimpleHit::new("b".to_string(), "sb".to_string(), HitAction::KillProcess(7));
    engine.run_hit_action(second.clone());
    let confirmed = engine.take_confirmed();
    assert_eq!(confirmed.len(), 1);
    assert_eq!(confirmed[0].get_title(), "b");
    assert_eq!(*confirmed[0].action(), HitAction::KillProcess(7));
    assert_eq!(first.get_title(), "a");
    assert!(engine.take_confirmed().is_empty());
    // the providers are untouched
    assert!(plain.calls.borrow().is_empty());
}

#[test]
fn min_score_hit_stays_listed_last() {
    let p = Spy::new(vec![("run this", Some(MIN_SCORE)), ("fire", None)]);
    let mut engine = QueryEngine::new();
    engine.register(&p, None);
    assert_eq!(titles(&engine.query("fire")), vec!["fire".to_string(), "run this".to_string()]);
}

#[test]
fn query_result_constructors() {
    assert!(QueryResult::empty().hits.is_empty());
    assert!(QueryResult::new(Vec::new()).hits.is_empty());
}

#[test]
fn route_names_providers_and_text() {
    let keyed = Spy::new(vec![]);
    let plain = Spy::new(vec![]);
    let other = Spy::new(vec![]);
    let mut engine = QueryEngine::new();
    engine.register(&plain, None);
    engine.register(&keyed, Some("calc".to_string()));
    engine.register(&other, None);
    assert_eq!(engine.route("calc 2+2"), (vec![1], "2+2".to_string()));
    assert_eq!(engine.route("calc\t 2+2 "), (vec![1], "2+2".to_string()));
    assert_eq!(engine.route("unrelated text"), (vec![0, 2], "unrelated text".to_string()));
    assert_eq!(engine.route("  ").0, Vec::<usize>::new());
    assert!(keyed.calls.borrow().is_empty() && plain.calls.borrow().is_empty());
}

#[test]
fn keyword_token_ends_at_any_white_space() {
    let keyed = Spy::new(vec![]);
    let mut engine = QueryEngine::new();
    engine.register(&keyed, Some("calc".to_string()));
    engine.query("calc\t1+1");
    assert_eq!(*keyed.calls.borrow(), vec!["1+1".to_string()]);
}

#[test]
fn keyword_remainder_is_trimmed_at_both_ends() {
    let keyed = Spy::new(vec![]);
    let mut engine = QueryEngine::new();
    engine.register(&keyed, Some("calc".to_string()));
    engine.query("calc   2+2  ");
    assert_eq!(*keyed.calls.borrow(), vec!["2+2".to_string()]);
}
