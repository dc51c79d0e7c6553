use std::sync::Arc;

use gateway_plugin::drain::{ContinuationDrain, ContinuationDrainConfig, Found};
use gateway_plugin::fault::{AdminErrorKind, AdminReason};

fn drain(per_instance: usize, generations: usize) -> ContinuationDrain<&'static str> {
    ContinuationDrain::new(ContinuationDrainConfig {
        maximum_per_instance: per_instance,
        maximum_generations: generations,
        retention_nanos: 100,
    })
}

fn names(list: &[&str]) -> Vec<String> {
    list.iter().map(|name| (*name).to_owned()).collect()
}

fn retire(
    drain: &mut ContinuationDrain<&'static str>,
    owner: &'static str,
    instance: &str,
    now: u64,
) -> (bool, bool, Vec<&'static str>) {
    let outcome = drain.retire(owner, Arc::new(owner), instance, true, true, &names(&[]), now);
    let ended = outcome.shutdown.iter().map(|one| **one).collect();
    (outcome.retained, outcome.start_reaper, ended)
}

#[test]
fn a_process_is_noted_once() {
    let mut drain = drain(2, 4);
    let alive = names(&["a"]);
    assert!(drain.register("a".to_owned(), &alive).is_ok());
    let error = drain.register("a".to_owned(), &alive).expect_err("noted already");
    assert_eq!(
        (error.kind, error.reason),
        (AdminErrorKind::Internal, AdminReason::ContinuationOwner)
    );
    assert!(drain.register("a".to_owned(), &names(&[])).is_ok());
}

#[test]
fn a_conversation_finds_its_process() {
    let mut drain = drain(2, 4);
    let alive = names(&["a"]);
    assert!(drain.register("a".to_owned(), &alive).is_ok());
    assert!(matches!(drain.resolve("a", &alive, true, 0).0, Found::Active));
    assert!(matches!(drain.resolve("b", &alive, true, 0).0, Found::Nothing));
    assert_eq!(retire(&mut drain, "a", "i", 0), (true, true, vec![]));
    assert!(matches!(drain.resolve("a", &names(&[]), true, 99).0, Found::Retired(p) if *p == "a"));
    let (found, ended) = drain.resolve("a", &names(&[]), true, 100);
    assert!(matches!(found, Found::Nothing));
    assert_eq!(ended.len(), 1);
}

#[test]
fn a_process_that_does_not_answer_is_not_found() {
    let mut drain = drain(2, 4);
    let alive = names(&["a"]);
    assert!(drain.register("a".to_owned(), &alive).is_ok());
    assert!(drain.retire("b", Arc::new("b"), "i", true, true, &alive, 0).retained);
    assert!(matches!(drain.resolve("a", &alive, true, 0).0, Found::Active));
    assert!(matches!(drain.resolve("b", &alive, true, 0).0, Found::Retired(p) if *p == "b"));
    assert_eq!(drain.kept("b").map(|p| **p), Some("b"));
    assert!(drain.kept("a").is_none());
    let (found, ended) = drain.resolve("b", &alive, false, 0);
    assert!(matches!(found, Found::Nothing));
    assert_eq!(ended.iter().map(|p| **p).collect::<Vec<_>>(), vec!["b"]);
    assert!(matches!(drain.resolve("b", &alive, true, 0).0, Found::Nothing));
    assert!(matches!(drain.resolve("a", &alive, false, 0).0, Found::Nothing));
    assert!(drain.register("a".to_owned(), &alive).is_ok());
}

#[test]
fn only_needed_processes_are_kept() {
    let mut drain = drain(2, 4);
    let alive = names(&["a"]);
    assert!(drain.register("a".to_owned(), &alive).is_ok());
    assert!(drain.supersede("a").is_none());
    assert!(!drain.retire("a", Arc::new("a"), "i", true, true, &alive, 0).retained);
    for (issued, ready) in [(false, true), (true, false)] {
        assert!(!drain.retire("b", Arc::new("b"), "i", issued, ready, &alive, 0).retained);
    }
    assert_eq!(retire(&mut drain, "c", "i", 0), (true, true, vec![]));
    assert_eq!(drain.supersede("c").map(|p| *p), Some("c"));
    assert!(drain.supersede("c").is_none());
    assert_eq!(retire(&mut drain, "d", "i", 0), (true, false, vec![]));
    assert_eq!(drain.supersede("d").map(|p| *p), Some("d"));
}

#[test]
fn the_oldest_processes_go_first() {
    let mut drain = drain(2, 3);
    for owner in ["z", "y"] {
        assert!(retire(&mut drain, owner, "i", 0).0);
    }
    assert_eq!(retire(&mut drain, "x", "i", 0), (true, false, vec!["z"]));
    assert_eq!(retire(&mut drain, "k", "j", 0), (true, false, vec![]));
    assert_eq!(retire(&mut drain, "l", "j", 0), (true, false, vec!["y"]));
    let kept: Vec<&str> = drain.retired().iter().map(|one| **one).collect();
    assert_eq!(kept, vec!["k", "l", "x"]);
    let counts = drain.retained_by_instance(99);
    assert_eq!((counts.get("i"), counts.get("j")), (Some(&1), Some(&2)));
    assert_eq!(drain.retained_by_instance(100).len(), 0);
}

#[test]
fn deadlines_are_watched_while_there_are_any() {
    let mut drain = drain(4, 4);
    assert!(retire(&mut drain, "a", "i", 10).1);
    assert!(!retire(&mut drain, "b", "i", 5).1);
    assert_eq!(drain.next_reap_delay(50), Some(55));
    assert_eq!(drain.next_reap_delay(500), Some(0));
    let ended: Vec<&str> =
        drain.take_expired(&names(&[]), 105).iter().map(|one| **one).collect();
    assert_eq!(ended, vec!["b"]);
    assert_eq!(drain.take_expired(&names(&[]), 110).len(), 1);
    assert!(!retire(&mut drain, "c", "i", 110).1);
    assert_eq!(drain.take_expired(&names(&[]), 210).len(), 1);
    assert_eq!(drain.next_reap_delay(210), None);
    assert!(retire(&mut drain, "d", "i", 300).1);
    drain.reaper_stopped();
    assert!(retire(&mut drain, "e", "i", 300).1);
    assert_eq!(drain.retired().len(), 2);
    drain.finish_shutdown();
    assert_eq!(drain.retired().len(), 0);
    assert!(retire(&mut drain, "f", "i", 300).1);
}

#[test]
fn a_process_that_was_superseded_is_not_kept() {
    let mut drain = drain(1, 1);
    let alive = names(&["a", "b"]);
    assert!(drain.register("a".to_owned(), &alive).is_ok());
    assert!(drain.register("b".to_owned(), &alive).is_ok());
    assert!(drain.supersede("a").is_none());
    assert!(matches!(drain.resolve("b", &alive, true, 0).0, Found::Active));
    assert!(!drain.retire("a", Arc::new("a"), "i", true, true, &alive, 0).retained);
    assert!(matches!(drain.resolve("a", &alive, true, 0).0, Found::Nothing));
    assert!(drain.retire("b", Arc::new("b"), "i", true, true, &alive, 0).retained);
    assert!(matches!(drain.resolve("b", &names(&[]), true, 99).0, Found::Retired(p) if *p == "b"));
}
