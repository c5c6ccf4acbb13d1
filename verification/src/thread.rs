//! The bookkeeping of the thread that runs the emulator.
//!
//! The emulator thread is the only one that touches the core.  Other threads
//! reach it in two ways: they leave one callback for it to run between two
//! frames, and they pause and unpause it.  This module keeps track of what
//! was asked for; the caller owns the thread itself.

use vstd::prelude::*;

verus! {

/// What the emulator thread is doing.
#[derive(Clone, Copy, Debug, PartialEq, Eq, Structural)]
pub enum RunState {
    /// Not started yet.
    Created,
    Running,
    Paused,
    /// Ended, for good.
    Ended,
}

/// Mathematical state of the emulator thread's bookkeeping.
pub struct ThreadState<F, C> {
    pub run: RunState,
    /// Called after each frame.
    pub frame_callback: Option<F>,
    /// Waits to run on the emulator thread between two frames.
    pub current_callback: Option<C>,
}

/// The emulator thread's bookkeeping: its run state, the callback for each
/// frame, and the one callback that waits to run on the core.
pub struct InnerThread<F, C> {
    run: RunState,
    frame_callback: Option<F>,
    current_callback: Option<C>,
}

impl<F, C> View for InnerThread<F, C> {
    type V = ThreadState<F, C>;

    closed spec fn view(&self) -> ThreadState<F, C> {
        ThreadState {
            run: self.run,
            frame_callback: self.frame_callback,
            current_callback: self.current_callback,
        }
    }
}

impl<F, C> InnerThread<F, C> {
    /// A thread that has not started, with no callback.
    pub fn new() -> (t: Self)
        ensures
            t@ == (ThreadState::<F, C> {
                run: RunState::Created,
                frame_callback: None,
                current_callback: None,
            }),
    {
        InnerThread { run: RunState::Created, frame_callback: None, current_callback: None }
    }

    /// What the thread is doing.
    pub fn run_state(&self) -> (run: RunState)
        ensures
            run == self@.run,
    {
        self.run
    }

    /// Sets the callback for each frame, in place of the one before.
    pub fn set_frame_callback(&mut self, f: F)
        ensures
            final(self)@ == (ThreadState { frame_callback: Some(f), ..old(self)@ }),
    {
        self.frame_callback = Some(f);
    }

    /// The callback to call now that a frame is complete.
    pub fn frame_callback(&self) -> (f: Option<&F>)
        ensures
            match f {
                Some(f) => self@.frame_callback == Some(*f),
                None => self@.frame_callback.is_none(),
            },
    {
        self.frame_callback.as_ref()
    }

    /// Starts the thread.  Only a thread that was never started starts; the
    /// answer says whether it did.
    pub fn start(&mut self) -> (started: bool)
        ensures
            started == (old(self)@.run == RunState::Created),
            final(self)@ == (ThreadState {
                run: if started {
                    RunState::Running
                } else {
                    old(self)@.run
                },
                ..old(self)@
            }),
    {
        if self.run == RunState::Created {
            self.run = RunState::Running;
            true
        } else {
            false
        }
    }

    /// Holds a running thread between two frames.
    pub fn pause(&mut self)
        ensures
            final(self)@ == (ThreadState {
                run: if old(self)@.run == RunState::Running {
                    RunState::Paused
                } else {
                    old(self)@.run
                },
                ..old(self)@
            }),
    {
        if self.run == RunState::Running {
            self.run = RunState::Paused;
        }
    }

    /// Lets a paused thread run again.
    pub fn unpause(&mut self)
        ensures
            final(self)@ == (ThreadState {
                run: if old(self)@.run == RunState::Paused {
                    RunState::Running
                } else {
                    old(self)@.run
                },
                ..old(self)@
            }),
    {
        if self.run == RunState::Paused {
            self.run = RunState::Running;
        }
    }

    /// Ends the thread.  A callback that still waits is dropped.
    pub fn end(&mut self)
        ensures
            final(self)@ == (ThreadState {
                run: RunState::Ended,
                current_callback: None,
                ..old(self)@
            }),
    {
        self.run = RunState::Ended;
        self.current_callback = None;
    }

    /// Leaves `f` to run on the emulator thread between two frames.  Only one
    /// callback waits at a time: the one that waited before comes back, and
    /// so does `f` itself where the thread is not alive to run it.
    pub fn run_on_core(&mut self, f: C) -> (displaced: Option<C>)
        ensures
            old(self)@.run == RunState::Running || old(self)@.run == RunState::Paused ==> {
                &&& displaced == old(self)@.current_callback
                &&& final(self)@ == (ThreadState { current_callback: Some(f), ..old(self)@ })
            },
            old(self)@.run == RunState::Created || old(self)@.run == RunState::Ended ==> {
                &&& displaced == Some(f)
                &&& final(self)@ == old(self)@
            },
    {
        if self.run == RunState::Running || self.run == RunState::Paused {
            let displaced = self.current_callback.take();
            self.current_callback = Some(f);
            displaced
        } else {
            Some(f)
        }
    }

    /// Whether a callback waits.
    pub fn has_callback(&self) -> (b: bool)
        ensures
            b == self@.current_callback.is_some(),
    {
        self.current_callback.is_some()
    }

    /// The emulator thread stands between two frames: hands it the callback
    /// that waits, if any.
    pub fn take_callback(&mut self) -> (f: Option<C>)
        ensures
            f == old(self)@.current_callback,
            final(self)@ == (ThreadState { current_callback: None, ..old(self)@ }),
    {
        self.current_callback.take()
    }
}

} // verus!
