use std::collections::BTreeMap;
use vstd::prelude::*;

verus! {

broadcast use vstd::laws_cmp::group_laws_cmp;

/// Tag under which the worker's own wakeup descriptor is registered.
/// Every caller tag is a `u8`, so none can be equal to it.
pub const CONTROL_TAG: u64 = 0xffff_ffff_ffff_ffff;

/// A control message sent to the worker. `W` is the handle that resumes a
/// waiting task.
pub enum Msg<W> {
    /// Watch descriptor `fd` under `pin`, and resume `waker` when it is ready.
    Add { fd: i32, pin: u8, waker: W },
    /// Stop watching descriptor `fd`.
    Remove { fd: i32 },
    /// Stop the worker.
    Quit,
}

/// What the worker has to do with its readiness multiplexer after a message.
#[derive(Clone, Copy, Debug, PartialEq, Eq, Structural)]
pub enum Action {
    /// Add `fd` to the multiplexer, reporting its readiness under `tag`.
    Register { fd: i32, tag: u64 },
    /// Take `fd` out of the multiplexer.
    Deregister { fd: i32 },
    /// Leave the loop: the worker is done.
    Stop,
    /// Nothing to do.
    Nothing,
}

/// The worker's state as the contracts see it.
pub struct ReactorState<W> {
    /// For each tag, the descriptor that registered it last and its task.
    pub tasks: Map<u8, (i32, W)>,
    /// For each descriptor in the multiplexer, the tag it reports under.
    pub fds: Map<i32, u8>,
    /// Whether a `Quit` has been applied.
    pub stopped: bool,
}

/// The state of a worker that has applied no message.
pub open spec fn initial_state<W>() -> ReactorState<W> {
    ReactorState { tasks: Map::empty(), fds: Map::empty(), stopped: false }
}

/// The state after one message, and the action it asks for.
/// A stopped worker ignores every message. `Remove` of a descriptor that is not
/// registered changes nothing; of one that is, it also forgets the task of its
/// tag, unless another descriptor has claimed that tag since.
pub open spec fn step<W>(s: ReactorState<W>, m: Msg<W>) -> (ReactorState<W>, Action) {
    if s.stopped {
        (s, Action::Stop)
    } else {
        match m {
            Msg::Quit => (ReactorState { stopped: true, ..s }, Action::Stop),
            Msg::Add { fd, pin, waker } => (
                ReactorState {
                    tasks: s.tasks.insert(pin, (fd, waker)),
                    fds: s.fds.insert(fd, pin),
                    stopped: false,
                },
                Action::Register { fd, tag: pin as u64 },
            ),
            Msg::Remove { fd } => {
                if !s.fds.contains_key(fd) {
                    (s, Action::Nothing)
                } else {
                    let pin = s.fds[fd];
                    let tasks = if s.tasks.contains_key(pin) && s.tasks[pin].0 == fd {
                        s.tasks.remove(pin)
                    } else {
                        s.tasks
                    };
                    (
                        ReactorState { tasks, fds: s.fds.remove(fd), stopped: false },
                        Action::Deregister { fd },
                    )
                }
            },
        }
    }
}

/// The state after applying `msgs` in order.
pub open spec fn run<W>(s: ReactorState<W>, msgs: Seq<Msg<W>>) -> ReactorState<W>
    decreases msgs.len(),
{
    if msgs.len() == 0 {
        s
    } else {
        run(step(s, msgs[0]).0, msgs.drop_first())
    }
}

/// The task that a readiness event with `tag` resumes, if any.
pub open spec fn task_for<W>(s: ReactorState<W>, tag: u64) -> Option<W> {
    if s.stopped || tag == CONTROL_TAG || tag > 255 || !s.tasks.contains_key(tag as u8) {
        None
    } else {
        Some(s.tasks[tag as u8].1)
    }
}

/// Whether a readiness event with this tag comes from the wakeup descriptor,
/// that is, whether the command channel has to be drained.
pub fn is_control(tag: u64) -> (r: bool)
    ensures
        r == (tag == CONTROL_TAG),
{
    tag == CONTROL_TAG
}

/// The state owned by the worker thread: the pending tasks by tag and the
/// descriptors registered in the multiplexer.
pub struct Reactor<W> {
    tasks: BTreeMap<u8, (i32, W)>,
    fds: BTreeMap<i32, u8>,
    stopped: bool,
}

impl<W> View for Reactor<W> {
    type V = ReactorState<W>;

    closed spec fn view(&self) -> ReactorState<W> {
        ReactorState { tasks: self.tasks@, fds: self.fds@, stopped: self.stopped }
    }
}

impl<W> Reactor<W> {
    /// A worker with no registration.
    pub fn new() -> (r: Self)
        ensures
            r@ == initial_state::<W>(),
    {
        Reactor { tasks: BTreeMap::new(), fds: BTreeMap::new(), stopped: false }
    }

    /// Whether a `Quit` has been applied.
    pub fn is_stopped(&self) -> (r: bool)
        ensures
            r == self@.stopped,
    {
        self.stopped
    }

    /// Records that a wait or a change of the multiplexer failed: the worker
    /// stops, as after `Quit`, and resumes nothing more.
    pub fn fail(&mut self)
        ensures
            final(self)@ == (ReactorState { stopped: true, ..old(self)@ }),
    {
        self.stopped = true;
    }

    /// Applies one message drained from the control channel and returns what
    /// the multiplexer has to do for it.
    pub fn apply(&mut self, msg: Msg<W>) -> (r: Action)
        ensures
            (final(self)@, r) == step(old(self)@, msg),
    {
        if self.stopped {
            return Action::Stop;
        }
        match msg {
            Msg::Quit => {
                self.stopped = true;
                Action::Stop
            },
            Msg::Add { fd, pin, waker } => {
                self.tasks.insert(pin, (fd, waker));
                self.fds.insert(fd, pin);
                Action::Register { fd, tag: pin as u64 }
            },
            Msg::Remove { fd } => {
                match self.fds.remove(&fd) {
                    None => {
                        assert(self.fds@ =~= old(self).fds@);
                        Action::Nothing
                    },
                    Some(pin) => {
                        let owned = match self.tasks.get(&pin) {
                            Some(entry) => entry.0 == fd,
                            None => false,
                        };
                        if owned {
                            self.tasks.remove(&pin);
                        }
                        Action::Deregister { fd }
                    },
                }
            },
        }
    }

    /// The task to resume for a readiness event with `tag`, if any. The task
    /// stays registered, so it can be resumed again by a later event.
    pub fn waker(&self, tag: u64) -> (r: Option<&W>)
        ensures
            match r {
                Some(w) => task_for(self@, tag) == Some(*w),
                None => task_for(self@, tag) is None,
            },
    {
        if self.stopped || tag == CONTROL_TAG || tag > 255 {
            return None;
        }
        match self.tasks.get(&(tag as u8)) {
            Some(entry) => Some(&entry.1),
            None => None,
        }
    }
}

} // verus!
