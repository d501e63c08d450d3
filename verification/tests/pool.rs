use envcounter::pool::{Counter, Pool, UuidPool};

fn is_v4_text(s: &str) -> bool {
    let chars: Vec<char> = s.chars().collect();
    if chars.len() != 36 {
        return false;
    }
    for (i, c) in chars.iter().enumerate() {
        if i == 8 || i == 13 || i == 18 || i == 23 {
            if *c != '-' {
                return false;
            }
        } else if !(c.is_ascii_digit() || ('a'..='f').contains(c)) {
            return false;
        }
    }
    chars[14] == '4' && matches!(chars[19], '8' | '9' | 'a' | 'b')
}

#[test]
fn counter_new_starts_at_initial() {
    let c = Counter::new(3, 10);
    assert_eq!(c, Counter { value: 10, step: 3, initial: 10 });
    assert_eq!(c.seek(), 10);
}

#[test]
fn counter_read_returns_current_then_advances() {
    let mut c = Counter::new(5, 1);
    assert_eq!(c.read(), 1);
    assert_eq!(c.read(), 6);
    assert_eq!(c.read(), 11);
    assert_eq!(c.seek(), 16);
    assert_eq!(c.step, 5);
    assert_eq!(c.initial, 1);
}

#[test]
fn counter_read_with_negative_step_counts_down() {
    let mut c = Counter::new(-2, 0);
    assert_eq!(c.read(), 0);
    assert_eq!(c.read(), -2);
    assert_eq!(c.seek(), -4);
}

#[test]
fn counter_seek_does_not_advance() {
    let c = Counter::new(1, 7);
    assert_eq!(c.seek(), 7);
    assert_eq!(c.seek(), 7);
    assert_eq!(c.value, 7);
}

#[test]
fn counter_reset_restores_initial_value() {
    let mut c = Counter::new(4, 2);
    c.read();
    c.read();
    assert_eq!(c.seek(), 10);
    c.reset();
    assert_eq!(c, Counter { value: 2, step: 4, initial: 2 });
}

#[test]
fn counter_reads_form_arithmetic_sequence() {
    let mut c = Counter::new(7, -3);
    for k in 0..10i64 {
        assert_eq!(c.read(), -3 + k * 7);
    }
}

#[test]
fn uuid_pool_reads_hyphenated_v4_text() {
    let p = UuidPool::new();
    let a = p.read();
    let b = p.read();
    assert!(is_v4_text(&a), "{}", a);
    assert!(is_v4_text(&b), "{}", b);
    assert_ne!(a, b);
}

#[test]
fn pool_as_counter_views() {
    let p = Pool::Counter(Counter::new(1, 0));
    assert_eq!(p.as_counter(), Some(&Counter::new(1, 0)));
    assert!(p.as_uuid().is_none());
    let u = Pool::Uuid(UuidPool::new());
    assert!(u.as_counter().is_none());
    assert_eq!(u.as_uuid(), Some(&UuidPool));
}

#[test]
fn pool_as_counter_mut_changes_pool() {
    let mut p = Pool::Counter(Counter::new(2, 0));
    if let Some(c) = p.as_counter_mut() {
        assert_eq!(c.read(), 0);
    } else {
        panic!("expected a counter");
    }
    assert_eq!(p, Pool::Counter(Counter { value: 2, step: 2, initial: 0 }));
    let mut u = Pool::Uuid(UuidPool);
    assert!(u.as_counter_mut().is_none());
    assert_eq!(u, Pool::Uuid(UuidPool));
}

#[test]
fn pool_kind_names() {
    assert_eq!(Pool::Counter(Counter::new(1, 0)).kind(), "counter");
    assert_eq!(Pool::Uuid(UuidPool).kind(), "uuid");
}
