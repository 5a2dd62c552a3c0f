use std::sync::Arc;

use omango_sync::error::Error;
use omango_sync::single::flight::Group;

#[test]
fn exec_runs_the_operation_once_per_key() {
    let mut runs = 0u32;
    let mut g: Group<i32> = Group::new();

    let (r1, dup1) = g.exec("k".to_string(), || {
        runs += 1;
        Ok(1i32)
    });
    assert_eq!(runs, 1);
    assert!(!dup1);
    assert_eq!(*r1, Ok(1i32));

    let (r2, dup2) = g.exec("k".to_string(), || {
        runs += 1;
        Ok(2i32)
    });
    assert_eq!(runs, 1, "a duplicate caller must not run its operation");
    assert!(dup2);
    assert_eq!(*r2, Ok(1i32));
}

#[test]
fn exec_shares_one_allocation() {
    let mut g: Group<String> = Group::new();
    let (r1, _) = g.exec("big".to_string(), || Ok("payload".to_string()));
    let (r2, dup) = g.exec("big".to_string(), || Ok("other".to_string()));
    assert!(dup);
    assert_eq!(*r2, Ok("payload".to_string()));
    assert!(Arc::ptr_eq(&r1, &r2), "the result is shared, not copied");
}

#[test]
fn exec_with_google_key_succeeds() {
    let mut g: Group<i32> = Group::new();
    let (rs, _) = g.exec("google".to_string(), || Ok(1i32));
    match rs.as_ref() {
        Ok(v) => assert_eq!(v, &1i32),
        Err(_) => panic!("should be success"),
    }
    let (rs, is_dup) = g.exec("google".to_string(), || Ok(1i32));
    match rs.as_ref() {
        Ok(v) => assert_eq!(v, &1i32),
        Err(_) => panic!("should be success"),
    }
    assert!(is_dup);
    assert!(g.forgot("google"));
}

#[test]
fn exec_propagates_the_operation_error_to_all_callers() {
    let mut g: Group<i32> = Group::new();
    let (r1, dup1) = g.exec("k".to_string(), || Err(Error("boom".to_string())));
    let (r2, dup2) = g.exec("k".to_string(), || Ok(5i32));
    assert!(!dup1);
    assert!(dup2);
    assert_eq!(*r1, Err(Error("boom".to_string())));
    assert_eq!(*r2, Err(Error("boom".to_string())));
}

#[test]
fn keys_are_independent() {
    let mut g: Group<i32> = Group::new();
    let (r1, dup1) = g.exec("a".to_string(), || Ok(1i32));
    let (r2, dup2) = g.exec("b".to_string(), || Ok(2i32));
    assert!(!dup1);
    assert!(!dup2);
    assert_eq!(*r1, Ok(1i32));
    assert_eq!(*r2, Ok(2i32));
    assert_eq!(g.size("a"), 0);
    assert_eq!(g.size("b"), 0);
    assert!(g.forgot("a"));
    assert_eq!(g.size("b"), 0);
    let (r3, dup3) = g.exec("b".to_string(), || Ok(9i32));
    assert!(dup3);
    assert_eq!(*r3, Ok(2i32));
}

#[test]
fn forgot_makes_the_next_exec_run_again() {
    let mut runs = 0u32;
    let mut g: Group<i32> = Group::new();

    let (r1, _) = g.exec("k".to_string(), || {
        runs += 1;
        Ok(10i32)
    });
    assert_eq!(runs, 1);
    assert_eq!(*r1, Ok(10i32));

    assert!(g.forgot("k"));
    assert!(!g.forgot("k"), "a forgotten key has no record to remove");

    let (r2, dup2) = g.exec("k".to_string(), || {
        runs += 1;
        Ok(20i32)
    });
    assert_eq!(runs, 2, "after forgot the operation must run again");
    assert!(!dup2);
    assert_eq!(*r2, Ok(20i32));
    assert_eq!(*r1, Ok(10i32), "earlier callers keep the original result");
}

#[test]
fn size_counts_duplicate_observers() {
    let mut g: Group<i32> = Group::new();
    assert_eq!(g.size("k"), 0, "an unknown key has size zero");

    let (_, _) = g.exec("k".to_string(), || Ok(1i32));
    assert_eq!(g.size("k"), 0, "the owner is not a duplicate observer");

    let (_, _) = g.exec("k".to_string(), || Ok(1i32));
    assert_eq!(g.size("k"), 1);

    let (_, _) = g.exec("k".to_string(), || Ok(1i32));
    assert_eq!(g.size("k"), 2);

    g.forgot("k");
    assert_eq!(g.size("k"), 0);
}

#[test]
fn default_group_is_empty() {
    let mut g: Group<i32> = Group::default();
    assert_eq!(g.size("anything"), 0);
    assert!(!g.forgot("anything"));
}
