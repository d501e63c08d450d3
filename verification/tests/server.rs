use envcounter::pool::{Counter, Pool, UuidPool};
use envcounter::protocol::{ListedPool, ReplyValue, Request, Response};
use envcounter::server::{handle_request, read_fits_in};
use envcounter::state::AppState;

fn s(x: &str) -> String {
    x.to_string()
}

fn ok() -> Response {
    Response::Success { value: None }
}

fn answer(n: i64) -> Response {
    Response::Success { value: Some(ReplyValue::Int(n)) }
}

fn err(m: &str) -> Response {
    Response::Error { message: s(m) }
}

fn new_counter(st: &mut AppState, name: &str, step: Option<i64>, initial: Option<i64>) -> Response {
    handle_request(st, Request::CounterNew { name: s(name), step, initial })
}

fn seek(st: &mut AppState, name: &str) -> Response {
    handle_request(st, Request::CounterSeek { name: s(name) })
}

fn read(st: &mut AppState, name: &str) -> Response {
    handle_request(st, Request::CounterRead { name: s(name) })
}

fn listing(st: &mut AppState, filter: Option<&str>) -> Vec<ListedPool> {
    match handle_request(st, Request::List { filter_type: filter.map(s) }) {
        Response::Success { value: Some(ReplyValue::List(items)) } => items,
        other => panic!("unexpected {:?}", other),
    }
}

#[test]
fn counter_new_defaults_step_one_initial_zero() {
    let mut st = AppState::new();
    assert_eq!(new_counter(&mut st, "c", None, None), ok());
    assert_eq!(st.get(&s("c")), Some(&Pool::Counter(Counter { value: 0, step: 1, initial: 0 })));
    assert_eq!(read(&mut st, "c"), answer(0));
    assert_eq!(read(&mut st, "c"), answer(1));
    assert_eq!(seek(&mut st, "c"), answer(2));
}

#[test]
fn counter_new_with_options() {
    let mut st = AppState::new();
    assert_eq!(new_counter(&mut st, "c", Some(10), Some(100)), ok());
    assert_eq!(seek(&mut st, "c"), answer(100));
    assert_eq!(read(&mut st, "c"), answer(100));
    assert_eq!(read(&mut st, "c"), answer(110));
}

#[test]
fn counter_new_twice_is_refused() {
    let mut st = AppState::new();
    new_counter(&mut st, "c", Some(3), Some(5));
    assert_eq!(new_counter(&mut st, "c", None, None), err("pool 'c' already exists"));
    assert_eq!(handle_request(&mut st, Request::UuidNew { name: s("c") }),
        err("pool 'c' already exists"));
    assert_eq!(seek(&mut st, "c"), answer(5));
    assert_eq!(st.entries().len(), 1);
}

#[test]
fn counter_requests_on_missing_pool() {
    let mut st = AppState::new();
    assert_eq!(read(&mut st, "x"), err("pool 'x' not found"));
    assert_eq!(seek(&mut st, "x"), err("pool 'x' not found"));
    assert_eq!(handle_request(&mut st, Request::CounterRm { name: s("x") }),
        err("pool 'x' not found"));
    assert_eq!(handle_request(&mut st, Request::CounterReset { name: s("x") }),
        err("pool 'x' not found"));
    assert_eq!(handle_request(&mut st, Request::UuidRead { name: s("x") }),
        err("pool 'x' not found"));
    assert_eq!(handle_request(&mut st, Request::UuidRm { name: s("x") }),
        err("pool 'x' not found"));
    assert_eq!(st.entries().len(), 0);
}

#[test]
fn counter_requests_on_uuid_pool_are_refused() {
    let mut st = AppState::new();
    assert_eq!(handle_request(&mut st, Request::UuidNew { name: s("u") }), ok());
    assert_eq!(read(&mut st, "u"), err("'u' is not a counter"));
    assert_eq!(seek(&mut st, "u"), err("'u' is not a counter"));
    assert_eq!(handle_request(&mut st, Request::CounterReset { name: s("u") }),
        err("'u' is not a counter"));
    assert_eq!(st.get(&s("u")), Some(&Pool::Uuid(UuidPool)));
}

#[test]
fn uuid_requests_on_counter_are_refused() {
    let mut st = AppState::new();
    new_counter(&mut st, "c", None, None);
    assert_eq!(handle_request(&mut st, Request::UuidRead { name: s("c") }),
        err("'c' is not a uuid pool"));
    assert_eq!(handle_request(&mut st, Request::UuidRm { name: s("c") }),
        err("'c' is not a uuid pool"));
    assert!(st.contains_key(&s("c")));
}

#[test]
fn counter_reset_after_reads() {
    let mut st = AppState::new();
    new_counter(&mut st, "c", Some(2), Some(1));
    read(&mut st, "c");
    read(&mut st, "c");
    assert_eq!(seek(&mut st, "c"), answer(5));
    assert_eq!(handle_request(&mut st, Request::CounterReset { name: s("c") }), ok());
    assert_eq!(seek(&mut st, "c"), answer(1));
    assert_eq!(read(&mut st, "c"), answer(1));
    assert_eq!(read(&mut st, "c"), answer(3));
}

#[test]
fn counter_rm_removes_any_pool() {
    let mut st = AppState::new();
    new_counter(&mut st, "c", None, None);
    handle_request(&mut st, Request::UuidNew { name: s("u") });
    assert_eq!(handle_request(&mut st, Request::CounterRm { name: s("c") }), ok());
    assert_eq!(seek(&mut st, "c"), err("pool 'c' not found"));
    assert_eq!(handle_request(&mut st, Request::CounterRm { name: s("u") }), ok());
    assert!(!st.contains_key(&s("u")));
    assert_eq!(st.entries().len(), 0);
}

#[test]
fn uuid_rm_removes_uuid_pool() {
    let mut st = AppState::new();
    handle_request(&mut st, Request::UuidNew { name: s("u") });
    assert_eq!(handle_request(&mut st, Request::UuidRm { name: s("u") }), ok());
    assert!(!st.contains_key(&s("u")));
}

#[test]
fn uuid_read_answers_fresh_text() {
    let mut st = AppState::new();
    handle_request(&mut st, Request::UuidNew { name: s("u") });
    let a = handle_request(&mut st, Request::UuidRead { name: s("u") });
    let b = handle_request(&mut st, Request::UuidRead { name: s("u") });
    match (a, b) {
        (Response::Success { value: Some(ReplyValue::Str(x)) },
         Response::Success { value: Some(ReplyValue::Str(y))}) => {
            assert_eq!(x.len(), 36);
            assert_eq!(&x[14..15], "4");
            assert_ne!(x, y);
        }
        other => panic!("unexpected {:?}", other),
    }
    assert_eq!(st.entries().len(), 1);
}

#[test]
fn rename_moves_counter() {
    let mut st = AppState::new();
    new_counter(&mut st, "a", Some(3), Some(4));
    read(&mut st, "a");
    assert_eq!(handle_request(&mut st,
        Request::CounterRename { name: s("a"), new_name: s("b") }), ok());
    assert_eq!(seek(&mut st, "a"), err("pool 'a' not found"));
    assert_eq!(seek(&mut st, "b"), answer(7));
    assert_eq!(st.get(&s("b")), Some(&Pool::Counter(Counter { value: 7, step: 3, initial: 4 })));
}

#[test]
fn rename_refusals() {
    let mut st = AppState::new();
    new_counter(&mut st, "a", None, None);
    new_counter(&mut st, "b", None, None);
    assert_eq!(handle_request(&mut st,
        Request::CounterRename { name: s("a"), new_name: s("b") }),
        err("pool 'b' already exists"));
    assert_eq!(handle_request(&mut st,
        Request::CounterRename { name: s("a"), new_name: s("a") }),
        err("pool 'a' already exists"));
    assert_eq!(handle_request(&mut st,
        Request::CounterRename { name: s("z"), new_name: s("y") }),
        err("pool 'z' not found"));
    assert_eq!(st.entries().len(), 2);
    assert!(st.contains_key(&s("a")) && st.contains_key(&s("b")) && !st.contains_key(&s("y")));
}

#[test]
fn rename_moves_uuid_pool() {
    let mut st = AppState::new();
    handle_request(&mut st, Request::UuidNew { name: s("u") });
    assert_eq!(handle_request(&mut st,
        Request::CounterRename { name: s("u"), new_name: s("v") }), ok());
    assert_eq!(st.get(&s("v")), Some(&Pool::Uuid(UuidPool)));
}

#[test]
fn list_shows_every_pool_once() {
    let mut st = AppState::new();
    new_counter(&mut st, "a", Some(2), Some(5));
    handle_request(&mut st, Request::UuidNew { name: s("u") });
    new_counter(&mut st, "b", None, None);
    read(&mut st, "a");
    let items = listing(&mut st, None);
    assert_eq!(items, vec![
        ListedPool::Counter { name: s("a"), value: 7, step: 2, initial: 5 },
        ListedPool::Uuid { name: s("u") },
        ListedPool::Counter { name: s("b"), value: 0, step: 1, initial: 0 },
    ]);
}

#[test]
fn list_filters_by_type() {
    let mut st = AppState::new();
    new_counter(&mut st, "a", None, None);
    handle_request(&mut st, Request::UuidNew { name: s("u") });
    assert_eq!(listing(&mut st, Some("uuid")), vec![ListedPool::Uuid { name: s("u") }]);
    assert_eq!(listing(&mut st, Some("counter")),
        vec![ListedPool::Counter { name: s("a"), value: 0, step: 1, initial: 0 }]);
    assert_eq!(listing(&mut st, Some("other")), vec![]);
}

#[test]
fn list_of_empty_state() {
    let mut st = AppState::new();
    assert_eq!(listing(&mut st, None), vec![]);
}

#[test]
fn read_fits_in_detects_overflow() {
    let mut st = AppState::new();
    new_counter(&mut st, "big", Some(1), Some(i64::MAX));
    new_counter(&mut st, "low", Some(-1), Some(i64::MIN));
    new_counter(&mut st, "ok", Some(1), Some(i64::MAX - 1));
    handle_request(&mut st, Request::UuidNew { name: s("u") });
    assert!(!read_fits_in(&st, &Request::CounterRead { name: s("big") }));
    assert!(!read_fits_in(&st, &Request::CounterRead { name: s("low") }));
    assert!(read_fits_in(&st, &Request::CounterRead { name: s("ok") }));
    assert!(read_fits_in(&st, &Request::CounterRead { name: s("u") }));
    assert!(read_fits_in(&st, &Request::CounterRead { name: s("missing") }));
    assert!(read_fits_in(&st, &Request::CounterSeek { name: s("big") }));
    assert_eq!(read(&mut st, "ok"), answer(i64::MAX - 1));
    assert_eq!(seek(&mut st, "ok"), answer(i64::MAX));
}

#[test]
fn refused_request_changes_nothing() {
    let mut st = AppState::new();
    new_counter(&mut st, "a", Some(2), Some(5));
    let before: Vec<(String, Pool)> = st.entries().clone();
    let r = handle_request(&mut st, Request::UuidRm { name: s("a") });
    assert!(matches!(r, Response::Error { .. }));
    assert_eq!(st.entries(), &before);
}
