use gravel::provider::{Hit, HitAction, SimpleHit};
use gravel::scoring::{compare_hits, get_scored_hits, get_unscored_hits, ScoredHit, MAX_SCORE, MIN_SCORE};
use std::cmp::Ordering;

fn hit(title: &str, score: Option<u32>) -> SimpleHit {
    let h = SimpleHit::new(title.to_string(), String::new(), HitAction::CopyTitle);
    match score {
        Some(s) => h.with_score(s),
        None => h,
    }
}

fn titles(hits: &[ScoredHit]) -> Vec<&str> {
    hits.iter().map(|h| h.hit.get_title()).collect()
}

#[test]
fn pinned_hit_is_listed_whatever_the_query() {
    let hits = vec![hit("abc", None), hit("zzz", Some(MAX_SCORE))];
    let r = get_scored_hits(hits, "abc");
    assert_eq!(titles(&r), vec!["zzz", "abc"]);
    assert_eq!(r[0].score, MAX_SCORE);
}

#[test]
fn distinct_scores_descend() {
    let hits = vec![hit("a", Some(5)), hit("b", Some(9)), hit("c", Some(1))];
    let r = get_scored_hits(hits, "q");
    assert_eq!(r.iter().map(|h| h.score).collect::<Vec<_>>(), vec![9, 5, 1]);
}

#[test]
fn equal_scores_ascend_by_title() {
    let hits = vec![hit("b", Some(7)), hit("a", Some(7)), hit("c", Some(7)), hit("B", Some(7))];
    let r = get_scored_hits(hits, "q");
    assert_eq!(titles(&r), vec!["B", "a", "b", "c"]);
}

#[test]
fn title_without_the_query_as_subsequence_is_absent() {
    let hits = vec![hit("xyz", None), hit("Files", None), hit("Firefox", None)];
    let r = get_scored_hits(hits, "fire");
    assert_eq!(titles(&r), vec!["Firefox"]);
    assert!(r[0].score > 0);
}

#[test]
fn upper_case_query_matches_case_sensitively() {
    let hits = vec![hit("firefox", None), hit("Firefox", None)];
    let r = get_scored_hits(hits, "Fire");
    assert_eq!(titles(&r), vec!["Firefox"]);
}

#[test]
fn empty_query_keeps_every_hit() {
    let hits = vec![hit("b", None), hit("a", None)];
    let r = get_scored_hits(hits, "");
    assert_eq!(titles(&r), vec!["a", "b"]);
    assert_eq!(r[0].score, 0);
}

#[test]
fn no_hits_give_no_result() {
    assert!(get_scored_hits(Vec::new(), "x").is_empty());
}

#[test]
fn unscored_hits_keep_everything() {
    let hits = vec![hit("x", None), hit("y", Some(3)), hit("a", None)];
    let r = get_unscored_hits(hits);
    assert_eq!(titles(&r), vec!["y", "a", "x"]);
    assert_eq!(r.iter().map(|h| h.score).collect::<Vec<_>>(), vec![3, 0, 0]);
}

#[test]
fn compare_hits_orders_by_score_then_title() {
    let a = ScoredHit { hit: hit("a", None), score: 5 };
    let b = ScoredHit { hit: hit("b", None), score: 5 };
    let c = ScoredHit { hit: hit("a", None), score: 6 };
    assert_eq!(compare_hits(&a, &b), Ordering::Less);
    assert_eq!(compare_hits(&b, &a), Ordering::Greater);
    assert_eq!(compare_hits(&c, &a), Ordering::Less);
    assert_eq!(compare_hits(&a, &a), Ordering::Equal);
    assert_eq!(MIN_SCORE, 0);
    assert_eq!(MAX_SCORE, u32::MAX);
}

#[test]
fn negative_matcher_scores_become_zero() {
    let long = format!("a{}b", "x".repeat(60));
    let r = get_scored_hits(vec![hit(&long, None), hit("ab", None)], "ab");
    assert_eq!(r.len(), 2);
    assert_eq!(r[0].hit.get_title(), "ab");
    assert!(r[1].score < 1_000_000);
}

#[test]
fn equal_hits_keep_their_order() {
    let mk = |sub: &str| SimpleHit::new("same".to_string(), sub.to_string(), HitAction::CopyTitle).with_score(4);
    let r = get_scored_hits(vec![mk("first"), hit("other", Some(9)), mk("second"), mk("third")], "q");
    let subs: Vec<&str> = r.iter().map(|h| h.hit.get_subtitle()).collect();
    assert_eq!(subs, vec!["", "first", "second", "third"]);
    let u = get_unscored_hits(vec![mk("first"), mk("second")]);
    assert_eq!(u.iter().map(|h| h.hit.get_subtitle()).collect::<Vec<_>>(), vec!["first", "second"]);
}
