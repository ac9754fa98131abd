use rustlab::cache::{CacheContext, CacheStrategy};
use rustlab::failover::{failover_step, FailoverStep};
use rustlab::shades::{paint_step, Shade};
use std::cell::RefCell;
use std::collections::HashMap;

struct MemoryCache {
    map: RefCell<HashMap<String, String>>,
}

impl CacheStrategy for MemoryCache {
    fn get(&self, key: &str) -> Option<String> {
        self.map.borrow().get(key).cloned()
    }

    fn set(&self, key: &str, value: String) {
        self.map.borrow_mut().insert(key.to_string(), value);
    }

    fn delete(&self, key: &str) {
        self.map.borrow_mut().remove(key);
    }
}

#[test]
fn cache_context_delegates_to_strategy() {
    let context = CacheContext::new(MemoryCache { map: RefCell::new(HashMap::new()) });
    assert_eq!(context.get("user_123"), None);
    context.set("user_123", "elizielx".to_string());
    assert_eq!(context.get("user_123"), Some("elizielx".to_string()));
}

#[test]
fn failover_decisions() {
    assert_eq!(failover_step(1, 5, true), FailoverStep::Done(1));
    assert_eq!(failover_step(2, 5, false), FailoverStep::Retry);
    assert_eq!(failover_step(5, 5, false), FailoverStep::GiveUp(5));
    assert_eq!(failover_step(1, 0, false), FailoverStep::GiveUp(0));
    assert_eq!(failover_step(5, 5, true), FailoverStep::Done(5));
}

#[test]
fn search_result_keeps_rows_longer_than_one_byte() {
    let r = rustlab::search::search_result("main.rs".to_string(), "./a/main.rs\n.\n\n./b/main.rs\né\n");
    assert_eq!(r.query, "main.rs");
    assert_eq!(r.results, vec!["./a/main.rs", "./b/main.rs", "é"]);
    let empty = rustlab::search::search_result("x".to_string(), "");
    assert!(empty.results.is_empty());
}

#[test]
fn painters_alternate_shades() {
    let mut shades = Vec::new();
    let mut steps = 0;
    while !paint_step(&mut shades) {
        steps += 1;
    }
    assert_eq!(steps, 5);
    assert_eq!(
        shades,
        vec![Shade::Black, Shade::White, Shade::Black, Shade::White, Shade::Black, Shade::White]
    );
}
