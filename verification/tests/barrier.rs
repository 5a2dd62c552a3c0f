use std::sync::atomic::{AtomicU32, Ordering};

use omango_sync::error::Error;
use omango_sync::park::{consume_signal, raise_and_wake_all, raise_and_wake_one};

#[test]
fn wait_group_counts_members_down_to_a_wake() {
    let mut wg = omango_sync::wait_group::WaitGroup::new(1);
    assert!(wg.can_done());
    assert!(wg.should_wait());

    wg.add(1);
    assert!(!wg.done(), "one member is still outstanding");
    assert!(wg.should_wait());
    assert!(wg.done(), "the last member must raise the wake");
    assert!(!wg.should_wait());
    assert!(!wg.can_done());
    wg.wait();
    assert!(!wg.should_wait());
}

#[test]
fn wait_group_default_has_no_members() {
    let wg = omango_sync::wait_group::WaitGroup::default();
    assert!(!wg.can_done());
    assert!(!wg.should_wait());
}

#[test]
fn wait_group_is_reusable_after_a_cycle() {
    let mut wg = omango_sync::wait_group::WaitGroup::new(0);
    wg.add(1);
    assert!(wg.done());
    wg.wait();
    wg.add(2);
    assert!(wg.should_wait());
    assert!(!wg.done());
    assert!(wg.done());
    wg.wait();
    assert!(!wg.should_wait());
}

#[test]
fn wg_counts_members_down_to_a_wake() {
    let mut wg = omango_sync::wg::WaitGroup::new(2);
    assert!(wg.can_done());
    assert!(!wg.done());
    assert!(wg.should_wait());
    assert!(wg.done(), "the last member must raise the wake for all waiters");
    assert!(!wg.should_wait());
    wg.wait();
    assert!(!wg.can_done());
}

#[test]
fn wg_default_has_no_members() {
    let wg = omango_sync::wg::WaitGroup::default();
    assert!(!wg.can_done());
    assert!(!wg.should_wait());
}

#[test]
fn wake_protocol_raises_and_clears_the_word() {
    let word = AtomicU32::new(0);
    raise_and_wake_one(&word);
    assert_eq!(word.load(Ordering::Acquire), 1);
    consume_signal(&word);
    assert_eq!(word.load(Ordering::Acquire), 0);
    raise_and_wake_all(&word);
    assert_eq!(word.load(Ordering::Acquire), 1);
}

#[test]
fn error_display_form_has_the_fixed_prefix() {
    let e = Error("boom".to_string());
    assert_eq!(e.to_display_string(), "panic from user function: boom");
}

#[test]
fn panicked_error_carries_the_fixed_message() {
    let e = Error::panicked();
    assert_eq!(e.0, "function of user panic");
    assert_eq!(
        e.to_display_string(),
        "panic from user function: function of user panic"
    );
}

#[test]
fn errors_compare_by_message() {
    assert_eq!(Error("a".to_string()), Error("a".to_string()));
    assert_ne!(Error("a".to_string()), Error("b".to_string()));
    let e = Error("a".to_string());
    assert_eq!(e.clone(), e);
}
