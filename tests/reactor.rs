use gpio_select::lifecycle::{Lifecycle, Teardown};
use gpio_select::reactor::{is_control, Action, Msg, Reactor, CONTROL_TAG};
use std::sync::atomic::{AtomicUsize, Ordering};
use std::sync::Arc;
use std::task::{Wake, Waker};

struct Counter(AtomicUsize);

impl Wake for Counter {
    fn wake(self: Arc<Self>) {
        self.0.fetch_add(1, Ordering::SeqCst);
    }
}

fn counting_waker() -> (Arc<Counter>, Waker) {
    let c = Arc::new(Counter(AtomicUsize::new(0)));
    let w = Waker::from(c.clone());
    (c, w)
}

/// Resumes what the reactor holds for each tag, as the worker loop does.
fn deliver(r: &Reactor<Waker>, tags: &[u64]) {
    for &t in tags {
        if let Some(w) = r.waker(t) {
            w.clone().wake();
        }
    }
}

#[test]
fn control_tag_is_recognised() {
    assert!(is_control(CONTROL_TAG));
    assert!(is_control(u64::MAX));
    assert!(!is_control(0));
    assert!(!is_control(255));
}

#[test]
fn add_registers_descriptor_under_tag() {
    let mut r: Reactor<u32> = Reactor::new();
    assert_eq!(r.apply(Msg::Add { fd: 7, pin: 3, waker: 30 }), Action::Register { fd: 7, tag: 3 });
    assert_eq!(r.waker(3), Some(&30));
    assert_eq!(r.waker(4), None);
    assert_eq!(r.waker(CONTROL_TAG), None);
    assert_eq!(r.waker(3 + 256), None);
}

#[test]
fn add_overwrites_task_of_tag() {
    let mut r: Reactor<u32> = Reactor::new();
    r.apply(Msg::Add { fd: 7, pin: 3, waker: 30 });
    assert_eq!(r.apply(Msg::Add { fd: 8, pin: 3, waker: 31 }), Action::Register { fd: 8, tag: 3 });
    assert_eq!(r.waker(3), Some(&31));
}

#[test]
fn remove_deregisters_and_forgets_task() {
    let mut r: Reactor<u32> = Reactor::new();
    r.apply(Msg::Add { fd: 7, pin: 3, waker: 30 });
    assert_eq!(r.apply(Msg::Remove { fd: 7 }), Action::Deregister { fd: 7 });
    assert_eq!(r.waker(3), None);
    assert_eq!(r.apply(Msg::Remove { fd: 7 }), Action::Nothing);
}

#[test]
fn remove_keeps_tag_claimed_by_other_descriptor() {
    let mut r: Reactor<u32> = Reactor::new();
    r.apply(Msg::Add { fd: 7, pin: 3, waker: 30 });
    r.apply(Msg::Add { fd: 8, pin: 3, waker: 31 });
    assert_eq!(r.apply(Msg::Remove { fd: 7 }), Action::Deregister { fd: 7 });
    assert_eq!(r.waker(3), Some(&31));
}

#[test]
fn remove_of_unknown_descriptor_is_noop() {
    let mut r: Reactor<u32> = Reactor::new();
    assert_eq!(r.apply(Msg::Remove { fd: 42 }), Action::Nothing);
    r.apply(Msg::Add { fd: 7, pin: 3, waker: 30 });
    assert_eq!(r.apply(Msg::Remove { fd: 42 }), Action::Nothing);
    assert!(!r.is_stopped());
    assert_eq!(r.waker(3), Some(&30));
}

#[test]
fn two_tags_resume_their_own_tasks() {
    let (ca, wa) = counting_waker();
    let (cb, wb) = counting_waker();
    let mut r: Reactor<Waker> = Reactor::new();
    r.apply(Msg::Add { fd: 10, pin: 1, waker: wa });
    r.apply(Msg::Add { fd: 11, pin: 2, waker: wb });
    deliver(&r, &[1]);
    assert_eq!(ca.0.load(Ordering::SeqCst), 1);
    assert_eq!(cb.0.load(Ordering::SeqCst), 0);
    deliver(&r, &[2]);
    assert_eq!(ca.0.load(Ordering::SeqCst), 1);
    assert_eq!(cb.0.load(Ordering::SeqCst), 1);
}

#[test]
fn one_event_resumes_task_once() {
    let (c, w) = counting_waker();
    let mut r: Reactor<Waker> = Reactor::new();
    r.apply(Msg::Add { fd: 7, pin: 3, waker: w });
    r.apply(Msg::Add { fd: 9, pin: 5, waker: counting_waker().1 });
    r.apply(Msg::Remove { fd: 9 });
    deliver(&r, &[3]);
    assert_eq!(c.0.load(Ordering::SeqCst), 1);
    // The task stays registered and is resumed again by a later event.
    deliver(&r, &[3]);
    assert_eq!(c.0.load(Ordering::SeqCst), 2);
}

#[test]
fn removed_task_is_not_resumed() {
    let (c, w) = counting_waker();
    let mut r: Reactor<Waker> = Reactor::new();
    r.apply(Msg::Add { fd: 7, pin: 3, waker: w });
    r.apply(Msg::Remove { fd: 7 });
    deliver(&r, &[3]);
    assert_eq!(c.0.load(Ordering::SeqCst), 0);
}

#[test]
fn quit_stops_worker_and_dispatch() {
    let mut r: Reactor<u32> = Reactor::new();
    r.apply(Msg::Add { fd: 7, pin: 3, waker: 30 });
    assert_eq!(r.apply(Msg::Quit), Action::Stop);
    assert!(r.is_stopped());
    assert_eq!(r.waker(3), None);
    assert_eq!(r.apply(Msg::Remove { fd: 7 }), Action::Stop);
    assert_eq!(r.apply(Msg::Quit), Action::Stop);
}

#[test]
fn add_quit_add_applies_first_add_only() {
    let (c, w) = counting_waker();
    let mut r: Reactor<Waker> = Reactor::new();
    let batch = vec![
        Msg::Add { fd: 7, pin: 3, waker: w },
        Msg::Quit,
        Msg::Add { fd: 8, pin: 4, waker: counting_waker().1 },
    ];
    let actions: Vec<Action> = batch.into_iter().map(|m| r.apply(m)).collect();
    assert_eq!(actions, vec![Action::Register { fd: 7, tag: 3 }, Action::Stop, Action::Stop]);
    assert!(r.is_stopped());
    assert!(r.waker(4).is_none());
    assert_eq!(c.0.load(Ordering::SeqCst), 0);
}

#[test]
fn failure_stops_worker_and_dispatch() {
    let mut r: Reactor<u32> = Reactor::new();
    r.apply(Msg::Add { fd: 7, pin: 3, waker: 30 });
    r.fail();
    assert!(r.is_stopped());
    assert_eq!(r.waker(3), None);
    assert_eq!(r.apply(Msg::Add { fd: 8, pin: 4, waker: 40 }), Action::Stop);
}

#[test]
fn task_survives_unrelated_messages() {
    let mut r: Reactor<u32> = Reactor::new();
    r.apply(Msg::Add { fd: 7, pin: 3, waker: 30 });
    r.apply(Msg::Add { fd: 8, pin: 4, waker: 40 });
    r.apply(Msg::Remove { fd: 8 });
    r.apply(Msg::Remove { fd: 99 });
    r.apply(Msg::Add { fd: 9, pin: 5, waker: 50 });
    assert_eq!(r.waker(3), Some(&30));
    assert_eq!(r.waker(4), None);
    assert_eq!(r.waker(5), Some(&50));
}

#[test]
fn new_reactor_is_empty_and_running() {
    let r: Reactor<u32> = Reactor::new();
    assert!(!r.is_stopped());
    for t in 0..=255u64 {
        assert_eq!(r.waker(t), None);
    }
}

#[test]
fn stop_tears_down_once() {
    let mut l = Lifecycle::new();
    assert!(l.is_live());
    assert_eq!(l.stop(false), Teardown::QuitAndJoin { swallow_join_error: false });
    assert!(!l.is_live());
    assert_eq!(l.stop(false), Teardown::Skip);
}

#[test]
fn stop_while_unwinding_still_joins() {
    let mut l = Lifecycle::new();
    assert_eq!(l.stop(true), Teardown::QuitAndJoin { swallow_join_error: true });
    assert!(!l.is_live());
    assert_eq!(l.stop(false), Teardown::Skip);
}
