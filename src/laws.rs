//! Properties of the worker over sequences of control messages.

use crate::reactor::{step, run, task_for, Action, Msg, ReactorState, CONTROL_TAG};
use vstd::prelude::*;

verus! {

/// Whether message `m` leaves alone the registration of `fd` under `pin`:
/// it is no `Quit`, and names neither `fd` nor `pin`.
pub open spec fn leaves_alone<W>(m: Msg<W>, fd: i32, pin: u8) -> bool {
    match m {
        Msg::Quit => false,
        Msg::Add { fd: f, pin: p, .. } => f != fd && p != pin,
        Msg::Remove { fd: f } => f != fd,
    }
}

/// Whether `s` is a running worker in which `fd` is registered under `pin`
/// for `waker`.
pub open spec fn holds_registration<W>(s: ReactorState<W>, fd: i32, pin: u8, waker: W) -> bool {
    &&& !s.stopped
    &&& s.fds.contains_key(fd)
    &&& s.fds[fd] == pin
    &&& s.tasks.contains_key(pin)
    &&& s.tasks[pin] == (fd, waker)
}

/// Whether message `m` keeps the task that `fd` registered under `pin`: it is
/// no `Quit`, no `Add` for `pin`, and no `Remove` of `fd`.
pub open spec fn keeps_task<W>(m: Msg<W>, fd: i32, pin: u8) -> bool {
    match m {
        Msg::Quit => false,
        Msg::Add { pin: p, .. } => p != pin,
        Msg::Remove { fd: f } => f != fd,
    }
}

/// Whether `s` is a running worker in which the task of `pin` is `waker`,
/// registered by `fd`.
pub open spec fn holds_task<W>(s: ReactorState<W>, fd: i32, pin: u8, waker: W) -> bool {
    &&& !s.stopped
    &&& s.tasks.contains_key(pin)
    &&& s.tasks[pin] == (fd, waker)
}

/// Messages that keep a task keep it.
pub proof fn lemma_task_kept<W>(s: ReactorState<W>, fd: i32, pin: u8, waker: W, msgs: Seq<Msg<W>>)
    requires
        holds_task(s, fd, pin, waker),
        forall|i: int| 0 <= i < msgs.len() ==> keeps_task(#[trigger] msgs[i], fd, pin),
    ensures
        holds_task(run(s, msgs), fd, pin, waker),
    decreases msgs.len(),
{
    if msgs.len() > 0 {
        let rest = msgs.drop_first();
        assert forall|i: int| 0 <= i < rest.len() implies keeps_task(#[trigger] rest[i], fd, pin) by {
            assert(rest[i] == msgs[i + 1]);
        }
        assert(keeps_task(msgs[0], fd, pin));
        lemma_task_kept(step(s, msgs[0]).0, fd, pin, waker, rest);
    }
}

/// Applying `a` and then `b` is applying `a + b`.
pub proof fn lemma_run_append<W>(s: ReactorState<W>, a: Seq<Msg<W>>, b: Seq<Msg<W>>)
    ensures
        run(s, a + b) == run(run(s, a), b),
    decreases a.len(),
{
    if a.len() == 0 {
        assert(a + b =~= b);
    } else {
        assert((a + b).drop_first() =~= a.drop_first() + b);
        lemma_run_append(step(s, a[0]).0, a.drop_first(), b);
    }
}

/// Messages that leave a registration alone keep it.
pub proof fn lemma_registration_kept<W>(
    s: ReactorState<W>,
    fd: i32,
    pin: u8,
    waker: W,
    msgs: Seq<Msg<W>>,
)
    requires
        holds_registration(s, fd, pin, waker),
        forall|i: int| 0 <= i < msgs.len() ==> leaves_alone(#[trigger] msgs[i], fd, pin),
    ensures
        holds_registration(run(s, msgs), fd, pin, waker),
    decreases msgs.len(),
{
    if msgs.len() > 0 {
        let rest = msgs.drop_first();
        assert forall|i: int| 0 <= i < rest.len() implies leaves_alone(#[trigger] rest[i], fd, pin) by {
            assert(rest[i] == msgs[i + 1]);
        }
        assert(leaves_alone(msgs[0], fd, pin));
        lemma_registration_kept(step(s, msgs[0]).0, fd, pin, waker, rest);
    }
}

/// A registered task, and no other, is resumed by a readiness event of its
/// tag, whatever messages were applied in between, as long as none of them is
/// a `Quit`, an `Add` for the same tag, or a `Remove` of the same descriptor.
pub proof fn lemma_registered_task_resumed<W>(
    s: ReactorState<W>,
    fd: i32,
    pin: u8,
    waker: W,
    later: Seq<Msg<W>>,
)
    requires
        !s.stopped,
        forall|i: int| 0 <= i < later.len() ==> keeps_task(#[trigger] later[i], fd, pin),
    ensures
        task_for(run(step(s, Msg::Add { fd, pin, waker }).0, later), pin as u64) == Some(waker),
{
    lemma_task_kept(step(s, Msg::Add { fd, pin, waker }).0, fd, pin, waker, later);
}

/// Once the `Remove` of a registered descriptor has been applied, a readiness
/// event of its tag resumes nothing.
pub proof fn lemma_removed_task_not_resumed<W>(
    s: ReactorState<W>,
    fd: i32,
    pin: u8,
    waker: W,
    later: Seq<Msg<W>>,
)
    requires
        !s.stopped,
        forall|i: int| 0 <= i < later.len() ==> leaves_alone(#[trigger] later[i], fd, pin),
    ensures
        task_for(
            run(step(s, Msg::Add { fd, pin, waker }).0, later.push(Msg::Remove { fd })),
            pin as u64,
        ) is None,
{
    let s1 = step(s, Msg::Add { fd, pin, waker }).0;
    lemma_registration_kept(s1, fd, pin, waker, later);
    lemma_run_append(s1, later, seq![Msg::Remove { fd }]);
    assert(later.push(Msg::Remove { fd }) =~= later + seq![Msg::Remove { fd }]);
    let r = seq![Msg::<W>::Remove { fd }];
    let s2 = run(s1, later);
    assert(r.drop_first() =~= Seq::<Msg<W>>::empty());
    assert(run(s2, r) == run(step(s2, r[0]).0, r.drop_first()));
}

/// After `Quit` the worker stays stopped: later messages change nothing and ask
/// only to stop, and no readiness event resumes a task.
pub proof fn lemma_quit_is_final<W>(s: ReactorState<W>, later: Seq<Msg<W>>)
    ensures
        step(s, Msg::Quit).1 == Action::Stop,
        run(step(s, Msg::Quit).0, later) == step(s, Msg::Quit).0,
        forall|tag: u64| task_for(step(s, Msg::Quit).0, tag) is None,
        forall|m: Msg<W>|
            #[trigger] step(step(s, Msg::Quit).0, m) == (step(s, Msg::Quit).0, Action::Stop),
    decreases later.len(),
{
    let s1 = step(s, Msg::Quit).0;
    assert(s1.stopped);
    if later.len() > 0 {
        lemma_quit_is_final(s1, later.drop_first());
        assert(step(s1, Msg::Quit).0 == s1);
    }
}

/// The messages before a `Quit` are applied and those after it are not.
pub proof fn lemma_quit_cuts_batch<W>(s: ReactorState<W>, before: Seq<Msg<W>>, after: Seq<Msg<W>>)
    ensures
        run(s, before.push(Msg::Quit) + after) == (ReactorState { stopped: true, ..run(s, before) }),
{
    let q = seq![Msg::<W>::Quit];
    assert(before.push(Msg::Quit) =~= before + q);
    lemma_run_append(s, before + q, after);
    lemma_run_append(s, before, q);
    assert(q.drop_first() =~= Seq::<Msg<W>>::empty());
    let s1 = run(s, before);
    assert(run(s1, q) == run(step(s1, q[0]).0, q.drop_first()));
    lemma_quit_is_final(s1, after);
}

/// Two tasks registered under two tags are each resumed by their own tag's
/// event, never by the other's, whatever messages come between and after the
/// two registrations, as long as those keep both tasks.
pub proof fn lemma_two_tags_no_cross<W>(
    s: ReactorState<W>,
    fd_a: i32,
    pin_a: u8,
    waker_a: W,
    fd_b: i32,
    pin_b: u8,
    waker_b: W,
    between: Seq<Msg<W>>,
    after: Seq<Msg<W>>,
)
    requires
        !s.stopped,
        pin_a != pin_b,
        forall|i: int| 0 <= i < between.len() ==> keeps_task(#[trigger] between[i], fd_a, pin_a),
        forall|i: int|
            0 <= i < after.len() ==> keeps_task(#[trigger] after[i], fd_a, pin_a) && keeps_task(
                after[i],
                fd_b,
                pin_b,
            ),
    ensures
        ({
            let s2 = run(
                s,
                seq![Msg::Add { fd: fd_a, pin: pin_a, waker: waker_a }] + between + seq![
                    Msg::Add { fd: fd_b, pin: pin_b, waker: waker_b },
                ] + after,
            );
            &&& task_for(s2, pin_a as u64) == Some(waker_a)
            &&& task_for(s2, pin_b as u64) == Some(waker_b)
        }),
{
    let add_a = seq![Msg::Add { fd: fd_a, pin: pin_a, waker: waker_a }];
    let add_b = seq![Msg::Add { fd: fd_b, pin: pin_b, waker: waker_b }];
    let s1 = run(s, add_a);
    assert(add_a.drop_first() =~= Seq::<Msg<W>>::empty());
    assert(s1 == run(step(s, add_a[0]).0, add_a.drop_first()));
    lemma_task_kept(s1, fd_a, pin_a, waker_a, between);
    let s2 = run(s1, between);
    let s3 = run(s2, add_b);
    assert(add_b.drop_first() =~= Seq::<Msg<W>>::empty());
    assert(s3 == run(step(s2, add_b[0]).0, add_b.drop_first()));
    assert(holds_task(s3, fd_a, pin_a, waker_a));
    assert(holds_task(s3, fd_b, pin_b, waker_b));
    assert forall|i: int| 0 <= i < after.len() implies keeps_task(#[trigger] after[i], fd_b, pin_b) by {}
    lemma_task_kept(s3, fd_a, pin_a, waker_a, after);
    lemma_task_kept(s3, fd_b, pin_b, waker_b, after);
    lemma_run_append(s, add_a, between);
    lemma_run_append(s, add_a + between, add_b);
    lemma_run_append(s, add_a + between + add_b, after);
}

/// The `Remove` of a descriptor that is not registered changes nothing and
/// asks nothing of the multiplexer.
pub proof fn lemma_remove_unknown_is_noop<W>(s: ReactorState<W>, fd: i32)
    requires
        !s.fds.contains_key(fd),
    ensures
        step(s, Msg::Remove { fd }) == (s, if s.stopped { Action::Stop } else { Action::Nothing }),
{
}

/// No caller tag is the wakeup descriptor's tag.
pub proof fn lemma_pins_never_control(pin: u8)
    ensures
        pin as u64 != CONTROL_TAG,
{
}

} // verus!
