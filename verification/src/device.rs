//! The accelerator side of `analyze`, modeled as data: the kernel launch
//! configuration, the ordered protocol of one device session, and the
//! guarantee that every acquired resource is released on every exit path.

use vstd::arithmetic::div_mod::lemma_fundamental_div_mod;
use vstd::prelude::*;

use crate::aggregate::MAX_SERIES_LEN;

verus! {

/// Number of device threads in one block of the kernel launch.
pub const BLOCK_SIZE: usize = 256;

/// Grid size of a 1-D kernel launch over `n` elements: the ceiling of
/// `n / BLOCK_SIZE`, so that the grid covers every element and, unless the
/// series is empty, no whole block is idle. Threads past `n` are cut off by
/// the kernel's own bounds check.
pub fn launch_config(n: usize) -> (grid: usize)
    requires
        n <= MAX_SERIES_LEN,
    ensures
        grid == (n + BLOCK_SIZE - 1) as int / BLOCK_SIZE as int,
        grid * BLOCK_SIZE >= n,
        n > 0 ==> (grid - 1) * (BLOCK_SIZE as int) < n,
        n == 0 ==> grid == 0,
{
    proof {
        lemma_fundamental_div_mod(n as int + 255, 256);
    }
    (n + BLOCK_SIZE - 1) / BLOCK_SIZE
}

/// One step of the accelerator protocol of an `analyze` call, in the order
/// the steps run; the release steps undo the acquisitions in reverse order.
#[derive(Clone, Copy, Debug, PartialEq, Eq, Structural)]
pub enum DeviceStep {
    Init,
    SelectDevice,
    CreateContext,
    LoadModule,
    CreateStream,
    AllocInput,
    AllocOutput,
    Launch,
    CopyBack,
    ReleaseOutput,
    ReleaseInput,
    ReleaseStream,
    ReleaseModule,
    ReleaseContext,
}

/// The steps that initialize the runtime or acquire a resource; a failure
/// there is a setup failure. `Launch` and `CopyBack` move data and run the
/// kernel, so a failure there is an execution failure.
pub open spec fn is_setup_step(s: DeviceStep) -> bool {
    match s {
        DeviceStep::Init => true,
        DeviceStep::SelectDevice => true,
        DeviceStep::CreateContext => true,
        DeviceStep::LoadModule => true,
        DeviceStep::CreateStream => true,
        DeviceStep::AllocInput => true,
        DeviceStep::AllocOutput => true,
        _ => false,
    }
}

/// The steps that release a held resource.
pub open spec fn is_release_step(s: DeviceStep) -> bool {
    match s {
        DeviceStep::ReleaseOutput => true,
        DeviceStep::ReleaseInput => true,
        DeviceStep::ReleaseStream => true,
        DeviceStep::ReleaseModule => true,
        DeviceStep::ReleaseContext => true,
        _ => false,
    }
}

/// A failed `analyze` call, carrying the protocol step that failed so that
/// the steps' failures stay distinguishable.
#[derive(Clone, Copy, Debug, PartialEq, Eq, Structural)]
pub enum AcceleratorError {
    SetupError(DeviceStep),
    ExecutionError(DeviceStep),
}

/// How the failure of a protocol step is reported.
pub open spec fn classify(s: DeviceStep) -> AcceleratorError {
    if is_setup_step(s) {
        AcceleratorError::SetupError(s)
    } else {
        AcceleratorError::ExecutionError(s)
    }
}

/// The accelerator session of one `analyze` call, as a state machine. The
/// caller performs `pending` against the device and reports the outcome;
/// the machine orders the steps, classifies any failure by the step that
/// failed, and schedules the release of every acquired resource on every
/// exit path, success or failure.
pub struct Executor {
    /// The protocol step the caller owes next; `None` once the session is over.
    pub pending: Option<DeviceStep>,
    /// Whether the execution context is held.
    pub ctx_held: bool,
    /// Whether the compiled kernel module is held.
    pub module_held: bool,
    /// Whether the launch stream is held.
    pub stream_held: bool,
    /// Whether the device-resident price buffer is held.
    pub input_held: bool,
    /// Whether the device-resident signal buffer is held.
    pub output_held: bool,
    /// The first failure, classified by the step that failed.
    pub failure: Option<AcceleratorError>,
}

impl Executor {
    /// No accelerator resource is held.
    pub open spec fn none_held(self) -> bool {
        &&& !self.ctx_held
        &&& !self.module_held
        &&& !self.stream_held
        &&& !self.input_held
        &&& !self.output_held
    }

    /// The session is over: nothing more is owed to the device.
    pub open spec fn finished(self) -> bool {
        self.pending is None
    }

    /// The release step owed next: held resources leave in reverse
    /// acquisition order.
    pub open spec fn next_release(self) -> Option<DeviceStep> {
        if self.output_held {
            Some(DeviceStep::ReleaseOutput)
        } else if self.input_held {
            Some(DeviceStep::ReleaseInput)
        } else if self.stream_held {
            Some(DeviceStep::ReleaseStream)
        } else if self.module_held {
            Some(DeviceStep::ReleaseModule)
        } else if self.ctx_held {
            Some(DeviceStep::ReleaseContext)
        } else {
            None
        }
    }

    /// The session invariant: the held resources match the protocol
    /// position, a recorded failure is classified by a step of its kind,
    /// and a finished session holds nothing.
    pub open spec fn wf(self) -> bool {
        &&& (match self.failure {
            Some(AcceleratorError::SetupError(s)) => is_setup_step(s),
            Some(AcceleratorError::ExecutionError(s)) => !is_setup_step(s) && !is_release_step(
                s,
            ),
            None => true,
        })
        &&& (match self.pending {
            Some(DeviceStep::Init) => self.failure is None && self.none_held(),
            Some(DeviceStep::SelectDevice) => self.failure is None && self.none_held(),
            Some(DeviceStep::CreateContext) => self.failure is None && self.none_held(),
            Some(DeviceStep::LoadModule) => self.failure is None && self.ctx_held
                && !self.module_held && !self.stream_held && !self.input_held
                && !self.output_held,
            Some(DeviceStep::CreateStream) => self.failure is None && self.ctx_held
                && self.module_held && !self.stream_held && !self.input_held
                && !self.output_held,
            Some(DeviceStep::AllocInput) => self.failure is None && self.ctx_held
                && self.module_held && self.stream_held && !self.input_held
                && !self.output_held,
            Some(DeviceStep::AllocOutput) => self.failure is None && self.ctx_held
                && self.module_held && self.stream_held && self.input_held
                && !self.output_held,
            Some(DeviceStep::Launch) => self.failure is None && self.ctx_held
                && self.module_held && self.stream_held && self.input_held && self.output_held,
            Some(DeviceStep::CopyBack) => self.failure is None && self.ctx_held
                && self.module_held && self.stream_held && self.input_held && self.output_held,
            Some(DeviceStep::ReleaseOutput) => self.next_release() == Some(
                DeviceStep::ReleaseOutput,
            ),
            Some(DeviceStep::ReleaseInput) => self.next_release() == Some(
                DeviceStep::ReleaseInput,
            ),
            Some(DeviceStep::ReleaseStream) => self.next_release() == Some(
                DeviceStep::ReleaseStream,
            ),
            Some(DeviceStep::ReleaseModule) => self.next_release() == Some(
                DeviceStep::ReleaseModule,
            ),
            Some(DeviceStep::ReleaseContext) => self.next_release() == Some(
                DeviceStep::ReleaseContext,
            ),
            None => self.none_held(),
        })
    }

    /// Begin a session: the first step owed is runtime initialization, no
    /// resource is held, and no failure is recorded.
    pub fn new() -> (e: Executor)
        ensures
            e.wf(),
            e.pending == Some(DeviceStep::Init),
            e.failure is None,
            e.none_held(),
    {
        Executor {
            pending: Some(DeviceStep::Init),
            ctx_held: false,
            module_held: false,
            stream_held: false,
            input_held: false,
            output_held: false,
            failure: None,
        }
    }

    /// Compute the release step owed next.
    fn release_action(&self) -> (r: Option<DeviceStep>)
        ensures
            r == self.next_release(),
    {
        if self.output_held {
            Some(DeviceStep::ReleaseOutput)
        } else if self.input_held {
            Some(DeviceStep::ReleaseInput)
        } else if self.stream_held {
            Some(DeviceStep::ReleaseStream)
        } else if self.module_held {
            Some(DeviceStep::ReleaseModule)
        } else if self.ctx_held {
            Some(DeviceStep::ReleaseContext)
        } else {
            None
        }
    }

    /// Record the outcome of the pending step and advance the protocol:
    /// exactly the transition `step_of`. On a failed forward step the
    /// failure is recorded, classified by that step, and the held resources
    /// are scheduled for release in reverse acquisition order; a release
    /// step always completes. A finished session holds no resource.
    pub fn report(&mut self, ok: bool)
        requires
            old(self).wf(),
            !old(self).finished(),
        ensures
            *final(self) == step_of(*old(self), ok),
            final(self).wf(),
            final(self).finished() ==> final(self).none_held(),
    {
        let step = match self.pending {
            Some(s) => s,
            None => {
                return ;
            },
        };
        match step {
            DeviceStep::Init => {
                if ok {
                    self.pending = Some(DeviceStep::SelectDevice);
                } else {
                    self.failure = Some(AcceleratorError::SetupError(step));
                    self.pending = self.release_action();
                }
            },
            DeviceStep::SelectDevice => {
                if ok {
                    self.pending = Some(DeviceStep::CreateContext);
                } else {
                    self.failure = Some(AcceleratorError::SetupError(step));
                    self.pending = self.release_action();
                }
            },
            DeviceStep::CreateContext => {
                if ok {
                    self.ctx_held = true;
                    self.pending = Some(DeviceStep::LoadModule);
                } else {
                    self.failure = Some(AcceleratorError::SetupError(step));
                    self.pending = self.release_action();
                }
            },
            DeviceStep::LoadModule => {
                if ok {
                    self.module_held = true;
                    self.pending = Some(DeviceStep::CreateStream);
                } else {
                    self.failure = Some(AcceleratorError::SetupError(step));
                    self.pending = self.release_action();
                }
            },
            DeviceStep::CreateStream => {
                if ok {
                    self.stream_held = true;
                    self.pending = Some(DeviceStep::AllocInput);
                } else {
                    self.failure = Some(AcceleratorError::SetupError(step));
                    self.pending = self.release_action();
                }
            },
            DeviceStep::AllocInput => {
                if ok {
                    self.input_held = true;
                    self.pending = Some(DeviceStep::AllocOutput);
                } else {
                    self.failure = Some(AcceleratorError::SetupError(step));
                    self.pending = self.release_action();
                }
            },
            DeviceStep::AllocOutput => {
                if ok {
                    self.output_held = true;
                    self.pending = Some(DeviceStep::Launch);
                } else {
                    self.failure = Some(AcceleratorError::SetupError(step));
                    self.pending = self.release_action();
                }
            },
            DeviceStep::Launch => {
                if ok {
                    self.pending = Some(DeviceStep::CopyBack);
                } else {
                    self.failure = Some(AcceleratorError::ExecutionError(step));
                    self.pending = self.release_action();
                }
            },
            DeviceStep::CopyBack => {
                if ok {
                    self.pending = self.release_action();
                } else {
                    self.failure = Some(AcceleratorError::ExecutionError(step));
                    self.pending = self.release_action();
                }
            },
            DeviceStep::ReleaseOutput => {
                self.output_held = false;
                self.pending = self.release_action();
            },
            DeviceStep::ReleaseInput => {
                self.input_held = false;
                self.pending = self.release_action();
            },
            DeviceStep::ReleaseStream => {
                self.stream_held = false;
                self.pending = self.release_action();
            },
            DeviceStep::ReleaseModule => {
                self.module_held = false;
                self.pending = self.release_action();
            },
            DeviceStep::ReleaseContext => {
                self.ctx_held = false;
                self.pending = self.release_action();
            },
        }
    }
}

/// The transition of a session on the outcome of its pending step.
pub open spec fn step_of(e: Executor, ok: bool) -> Executor {
    match e.pending {
        None => e,
        Some(s) => if is_release_step(s) {
            let e2 = match s {
                DeviceStep::ReleaseOutput => Executor { output_held: false, ..e },
                DeviceStep::ReleaseInput => Executor { input_held: false, ..e },
                DeviceStep::ReleaseStream => Executor { stream_held: false, ..e },
                DeviceStep::ReleaseModule => Executor { module_held: false, ..e },
                _ => Executor { ctx_held: false, ..e },
            };
            Executor { pending: e2.next_release(), ..e2 }
        } else if !ok {
            let e2 = Executor { failure: Some(classify(s)), ..e };
            Executor { pending: e2.next_release(), ..e2 }
        } else {
            match s {
                DeviceStep::Init => Executor { pending: Some(DeviceStep::SelectDevice), ..e },
                DeviceStep::SelectDevice => Executor {
                    pending: Some(DeviceStep::CreateContext),
                    ..e
                },
                DeviceStep::CreateContext => Executor {
                    pending: Some(DeviceStep::LoadModule),
                    ctx_held: true,
                    ..e
                },
                DeviceStep::LoadModule => Executor {
                    pending: Some(DeviceStep::CreateStream),
                    module_held: true,
                    ..e
                },
                DeviceStep::CreateStream => Executor {
                    pending: Some(DeviceStep::AllocInput),
                    stream_held: true,
                    ..e
                },
                DeviceStep::AllocInput => Executor {
                    pending: Some(DeviceStep::AllocOutput),
                    input_held: true,
                    ..e
                },
                DeviceStep::AllocOutput => Executor {
                    pending: Some(DeviceStep::Launch),
                    output_held: true,
                    ..e
                },
                DeviceStep::Launch => Executor { pending: Some(DeviceStep::CopyBack), ..e },
                _ => Executor { pending: e.next_release(), ..e },
            }
        },
    }
}

/// Forward steps still owed once `s` is pending, counting `s` itself;
/// release steps rank zero.
pub open spec fn forward_rank(s: DeviceStep) -> int {
    match s {
        DeviceStep::Init => 9,
        DeviceStep::SelectDevice => 8,
        DeviceStep::CreateContext => 7,
        DeviceStep::LoadModule => 6,
        DeviceStep::CreateStream => 5,
        DeviceStep::AllocInput => 4,
        DeviceStep::AllocOutput => 3,
        DeviceStep::Launch => 2,
        DeviceStep::CopyBack => 1,
        _ => 0,
    }
}

/// How many resources the session holds.
pub open spec fn held_count(e: Executor) -> int {
    (if e.ctx_held {
        1int
    } else {
        0int
    }) + (if e.module_held {
        1int
    } else {
        0int
    }) + (if e.stream_held {
        1int
    } else {
        0int
    }) + (if e.input_held {
        1int
    } else {
        0int
    }) + (if e.output_held {
        1int
    } else {
        0int
    })
}

/// A measure of the work left in a session: each forward step still owed
/// counts twice (performing it may acquire a resource that must later be
/// released), each held resource counts once.
pub open spec fn steps_remaining(e: Executor) -> int {
    (match e.pending {
        Some(s) => 2 * forward_rank(s),
        None => 0,
    }) + held_count(e)
}

/// Every reported outcome brings the session strictly closer to finishing,
/// whether the step succeeded or failed: the protocol cannot run forever.
pub proof fn lemma_report_progress(e: Executor, ok: bool)
    requires
        e.wf(),
        !e.finished(),
    ensures
        0 <= steps_remaining(step_of(e, ok)) < steps_remaining(e),
{
}

/// Once a well-formed session has finished, every accelerator resource has
/// been released — on the success path and after any failure alike.
pub proof fn lemma_finished_releases_all(e: Executor)
    requires
        e.wf(),
        e.finished(),
    ensures
        e.none_held(),
{
}

} // verus!
