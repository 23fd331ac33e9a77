//! Command buffers: what has been submitted, whether the GPU is done with
//! it, and what may be let go once it is.
//!
//! The driver is not called from here. Each function that depends on the
//! driver takes what the driver answered and decides what follows from it.

use crate::error::DriverError;
use vstd::prelude::*;

verus! {

/// Information used to create a command buffer.
#[derive(Clone, Copy, Debug, Hash, PartialEq, Eq, Structural)]
pub struct CommandBufferInfo {
    pub queue_family_index: u32,
}

impl CommandBufferInfo {
    /// The information for a command buffer of the given queue family.
    pub fn new(queue_family_index: u32) -> (info: CommandBufferInfo)
        ensures
            info.queue_family_index == queue_family_index,
    {
        CommandBufferInfo { queue_family_index }
    }
}

/// Where a command buffer is in its cycle of use.
#[derive(Clone, Copy, Debug, PartialEq, Eq, Structural)]
pub enum Phase {
    /// The fence is signaled and nothing waits to be dropped.
    Idle,
    /// Commands are being recorded.
    Recording,
    /// The recorded work was handed to the GPU and the fence was reset; the
    /// GPU is not known to be done.
    Submitted,
    /// The fence is known to be signaled; what waits to be dropped may go.
    Executed,
}

/// The driver objects of a command buffer, by their raw handles.
#[derive(Clone, Copy, Debug, PartialEq, Eq, Structural)]
pub struct Handles {
    pub cmd_buf: u64,
    pub fence: u64,
    pub query_pool: u64,
    pub pool: u64,
}

/// A command buffer as a mathematical value.
pub struct CommandBufferView<D> {
    pub info: CommandBufferInfo,
    pub handles: Handles,
    pub phase: Phase,
    /// What waits for the GPU to be done, in the order in which it was pushed.
    pub droppables: Seq<D>,
}

/// What can happen to a command buffer.
pub enum Step<D> {
    /// Recording begins.
    Begin,
    /// The recorded work is submitted.
    Submit,
    /// The fence was polled and the driver answered.
    Poll { status: Result<bool, i32> },
    /// The caller waited for the fence and the wait returned.
    Wait { waited: Result<(), DriverError> },
    /// Something is to be dropped once the GPU is done.
    Push { thing: D },
    /// What waits to be dropped is dropped.
    DropFenced,
}

impl<D> CommandBufferView<D> {
    /// What holds of every command buffer: when it is idle nothing waits to
    /// be dropped.
    pub open spec fn inv(self) -> bool {
        self.phase is Idle ==> self.droppables.len() == 0
    }

    /// Whether the fence is known to be signaled: no submitted work is
    /// pending on the GPU.
    pub open spec fn fence_signaled(self) -> bool {
        self.phase is Idle || self.phase is Executed
    }

    /// Whether a step may be taken now.
    pub open spec fn enabled(self, step: Step<D>) -> bool {
        match step {
            Step::Begin => self.phase is Idle,
            Step::Submit => self.phase is Recording,
            Step::Poll { .. } => true,
            Step::Wait { .. } => true,
            Step::Push { .. } => true,
            Step::DropFenced => self.fence_signaled(),
        }
    }

    /// The command buffer after a step.
    pub open spec fn step(self, step: Step<D>) -> CommandBufferView<D> {
        match step {
            Step::Begin => CommandBufferView { phase: Phase::Recording, ..self },
            Step::Submit => CommandBufferView { phase: Phase::Submitted, ..self },
            Step::Poll { status } => if self.phase is Submitted && status == Ok::<bool, i32>(true) {
                CommandBufferView { phase: Phase::Executed, ..self }
            } else {
                self
            },
            Step::Wait { waited } => if self.phase is Submitted && waited is Ok {
                CommandBufferView { phase: Phase::Executed, ..self }
            } else {
                self
            },
            Step::Push { thing } => CommandBufferView {
                phase: if self.phase is Idle {
                    Phase::Executed
                } else {
                    self.phase
                },
                droppables: self.droppables.push(thing),
                ..self
            },
            Step::DropFenced => CommandBufferView {
                phase: Phase::Idle,
                droppables: Seq::empty(),
                ..self
            },
        }
    }
}

/// What a poll of the fence means: the driver's answer where it gave one,
/// and `InvalidData` where it failed, whether the device was lost or
/// something else went wrong.
pub open spec fn poll_result(status: Result<bool, i32>) -> Result<bool, DriverError> {
    match status {
        Ok(signaled) => Ok(signaled),
        Err(_) => Err(DriverError::InvalidData),
    }
}

/// What a read of the timestamps means: the two values where the driver
/// gave them, `InvalidData` where it failed.
pub open spec fn query_result(read: Result<[u64; 2], i32>) -> Result<[u64; 2], DriverError> {
    match read {
        Ok(values) => Ok(values),
        Err(_) => Err(DriverError::InvalidData),
    }
}

/// A command buffer to which work can be submitted, with its fence, its
/// command pool, its pool of two timestamp queries, and the things that
/// have to outlive the work submitted last.
#[derive(Debug)]
pub struct CommandBuffer<D> {
    handles: Handles,
    droppables: Vec<D>,
    phase: Phase,
    info: CommandBufferInfo,
}

impl<D> View for CommandBuffer<D> {
    type V = CommandBufferView<D>;

    closed spec fn view(&self) -> CommandBufferView<D> {
        CommandBufferView {
            info: self.info,
            handles: self.handles,
            phase: self.phase,
            droppables: self.droppables@,
        }
    }
}

/// The request for the command pool of a new command buffer.
#[derive(Clone, Copy, Debug, PartialEq, Eq, Structural)]
pub struct CommandPoolRequest {
    /// Command buffers of the pool are short-lived.
    pub transient: bool,
    /// Command buffers of the pool can be reset one by one.
    pub reset_command_buffer: bool,
    pub queue_family_index: u32,
}

/// The request for the command buffer itself.
#[derive(Clone, Copy, Debug, PartialEq, Eq, Structural)]
pub struct CommandBufferRequest {
    pub pool: u64,
    pub count: u32,
    /// A primary command buffer, as opposed to a secondary one.
    pub primary: bool,
}

/// The request for the fence.
#[derive(Clone, Copy, Debug, PartialEq, Eq, Structural)]
pub struct FenceRequest {
    /// The fence starts signaled: no work is pending.
    pub signaled: bool,
}

/// The request for the query pool.
#[derive(Clone, Copy, Debug, PartialEq, Eq, Structural)]
pub struct QueryPoolRequest {
    /// The queries are timestamps.
    pub timestamp: bool,
    pub count: u32,
}

/// A command buffer in the making: its command pool is asked for next.
#[derive(Clone, Copy, Debug, PartialEq, Eq, Structural)]
pub struct NeedsCommandPool {
    pub info: CommandBufferInfo,
}

/// A command buffer in the making: the buffer is asked for next.
#[derive(Clone, Copy, Debug, PartialEq, Eq, Structural)]
pub struct NeedsCommandBuffer {
    pub info: CommandBufferInfo,
    pub pool: u64,
}

/// A command buffer in the making: its fence is asked for next.
#[derive(Clone, Copy, Debug, PartialEq, Eq, Structural)]
pub struct NeedsFence {
    pub info: CommandBufferInfo,
    pub pool: u64,
    pub cmd_buf: u64,
}

/// A command buffer in the making: its query pool is asked for last.
#[derive(Clone, Copy, Debug, PartialEq, Eq, Structural)]
pub struct NeedsQueryPool {
    pub info: CommandBufferInfo,
    pub pool: u64,
    pub cmd_buf: u64,
    pub fence: u64,
}

impl NeedsCommandPool {
    /// What to ask of the driver: a pool of short-lived, resettable command
    /// buffers for the queue family.
    pub fn request(&self) -> (request: CommandPoolRequest)
        ensures
            request == (CommandPoolRequest {
                transient: true,
                reset_command_buffer: true,
                queue_family_index: self.info.queue_family_index,
            }),
    {
        CommandPoolRequest {
            transient: true,
            reset_command_buffer: true,
            queue_family_index: self.info.queue_family_index,
        }
    }

    /// Takes the driver's answer: the pool's handle, or the code of a
    /// failure, which is reported as `Unsupported`.
    pub fn created(self, answer: Result<u64, i32>) -> (next: Result<NeedsCommandBuffer, DriverError>)
        ensures
            next == match answer {
                Ok(pool) => Ok::<NeedsCommandBuffer, DriverError>(
                    NeedsCommandBuffer { info: self.info, pool },
                ),
                Err(_) => Err(DriverError::Unsupported),
            },
    {
        match answer {
            Ok(pool) => Ok(NeedsCommandBuffer { info: self.info, pool }),
            Err(_) => Err(DriverError::Unsupported),
        }
    }
}

impl NeedsCommandBuffer {
    /// What to ask of the driver: one primary command buffer from the pool.
    pub fn request(&self) -> (request: CommandBufferRequest)
        ensures
            request == (CommandBufferRequest { pool: self.pool, count: 1, primary: true }),
    {
        CommandBufferRequest { pool: self.pool, count: 1, primary: true }
    }

    /// Takes the driver's answer: the handles of the buffers it allocated,
    /// of which the first is kept, or the code of a failure, which is
    /// reported as `Unsupported`. An answer without any handle is of no use
    /// and is reported as `InvalidData`.
    pub fn allocated(self, answer: Result<Vec<u64>, i32>) -> (next: Result<NeedsFence, DriverError>)
        ensures
            next == match answer {
                Ok(buffers) => if buffers@.len() > 0 {
                    Ok::<NeedsFence, DriverError>(
                        NeedsFence { info: self.info, pool: self.pool, cmd_buf: buffers@[0] },
                    )
                } else {
                    Err(DriverError::InvalidData)
                },
                Err(_) => Err(DriverError::Unsupported),
            },
    {
        match answer {
            Ok(buffers) => {
                if buffers.len() > 0 {
                    Ok(NeedsFence { info: self.info, pool: self.pool, cmd_buf: buffers[0] })
                } else {
                    Err(DriverError::InvalidData)
                }
            },
            Err(_) => Err(DriverError::Unsupported),
        }
    }
}

impl NeedsFence {
    /// What to ask of the driver: a fence that starts signaled.
    pub fn request(&self) -> (request: FenceRequest)
        ensures
            request == (FenceRequest { signaled: true }),
    {
        FenceRequest { signaled: true }
    }

    /// Takes the answer: the fence's handle, or the error, which is passed on.
    pub fn created(self, answer: Result<u64, DriverError>) -> (next: Result<NeedsQueryPool, DriverError>)
        ensures
            next == match answer {
                Ok(fence) => Ok::<NeedsQueryPool, DriverError>(
                    NeedsQueryPool { info: self.info, pool: self.pool, cmd_buf: self.cmd_buf, fence },
                ),
                Err(e) => Err(e),
            },
    {
        match answer {
            Ok(fence) => Ok(
                NeedsQueryPool { info: self.info, pool: self.pool, cmd_buf: self.cmd_buf, fence },
            ),
            Err(e) => Err(e),
        }
    }
}

impl NeedsQueryPool {
    /// What to ask of the driver: a pool of two timestamp queries, one for
    /// the start and one for the end of the recorded work.
    pub fn request(&self) -> (request: QueryPoolRequest)
        ensures
            request == (QueryPoolRequest { timestamp: true, count: 2 }),
    {
        QueryPoolRequest { timestamp: true, count: 2 }
    }

    /// Takes the answer: the query pool's handle, with which the command
    /// buffer is complete, or the error, which is passed on. The new command
    /// buffer is idle and nothing waits to be dropped.
    pub fn created<D>(self, answer: Result<u64, DriverError>) -> (next: Result<CommandBuffer<D>, DriverError>)
        ensures
            match answer {
                Ok(query_pool) => next is Ok && next->Ok_0@ == (CommandBufferView::<D> {
                    info: self.info,
                    handles: Handles {
                        cmd_buf: self.cmd_buf,
                        fence: self.fence,
                        query_pool,
                        pool: self.pool,
                    },
                    phase: Phase::Idle,
                    droppables: Seq::empty(),
                }),
                Err(e) => next is Err && next->Err_0 == e,
            },
    {
        match answer {
            Ok(query_pool) => Ok(
                CommandBuffer {
                    handles: Handles {
                        cmd_buf: self.cmd_buf,
                        fence: self.fence,
                        query_pool,
                        pool: self.pool,
                    },
                    droppables: Vec::new(),
                    phase: Phase::Idle,
                    info: self.info,
                },
            ),
            Err(e) => Err(e),
        }
    }
}

/// One call that takes part in freeing a command buffer.
#[derive(Clone, Copy, Debug, PartialEq, Eq, Structural)]
pub enum Destroy {
    FreeCommandBuffer { pool: u64, cmd_buf: u64 },
    DestroyCommandPool { pool: u64 },
    DestroyQueryPool { query_pool: u64 },
    DestroyFence { fence: u64 },
}

/// A command buffer that is being torn down: the caller waits for its fence
/// one last time. It keeps what waited to be dropped until that wait is over.
#[derive(Debug)]
pub struct Teardown<D> {
    handles: Handles,
    droppables: Vec<D>,
}

/// A command buffer that is being torn down, as a mathematical value.
pub struct TeardownView<D> {
    pub handles: Handles,
    /// What still waits to be dropped, in the order in which it was pushed.
    pub droppables: Seq<D>,
}

impl<D> View for Teardown<D> {
    type V = TeardownView<D>;

    closed spec fn view(&self) -> TeardownView<D> {
        TeardownView { handles: self.handles, droppables: self.droppables@ }
    }
}

/// The calls that free the objects of a command buffer, in their order.
pub open spec fn destroy_calls(handles: Handles) -> Seq<Destroy> {
    seq![
        Destroy::FreeCommandBuffer { pool: handles.pool, cmd_buf: handles.cmd_buf },
        Destroy::DestroyCommandPool { pool: handles.pool },
        Destroy::DestroyQueryPool { query_pool: handles.query_pool },
        Destroy::DestroyFence { fence: handles.fence },
    ]
}

impl<D> Teardown<D> {
    /// The raw handles of the objects that are to be freed.
    pub fn handles(&self) -> (handles: Handles)
        ensures
            handles == self@.handles,
    {
        self.handles
    }

    /// The raw handle of the fence to wait for.
    pub fn fence(&self) -> (fence: u64)
        ensures
            fence == self@.handles.fence,
    {
        self.handles.fence
    }

    /// How many things wait to be dropped.
    pub fn pending_drops(&self) -> (count: usize)
        ensures
            count == self@.droppables.len(),
    {
        self.droppables.len()
    }

    /// Takes the outcome of the last wait and says what to free: the
    /// buffer, its pool, the query pool and the fence, each once and in that
    /// order. A wait that failed changes nothing of this: the failure is not
    /// reported and does not stop the reclamation, since nothing else could
    /// be done about it. What waited to be dropped is handed back with the
    /// calls: it is let go only now, after the wait.
    pub fn waited(self, outcome: Result<(), DriverError>) -> (end: (Vec<Destroy>, Vec<D>))
        ensures
            end.0@ == destroy_calls(self@.handles),
            end.1@ == self@.droppables,
    {
        let mut calls: Vec<Destroy> = Vec::new();
        calls.push(Destroy::FreeCommandBuffer { pool: self.handles.pool, cmd_buf: self.handles.cmd_buf });
        calls.push(Destroy::DestroyCommandPool { pool: self.handles.pool });
        calls.push(Destroy::DestroyQueryPool { query_pool: self.handles.query_pool });
        calls.push(Destroy::DestroyFence { fence: self.handles.fence });
        assert(calls@ =~= destroy_calls(self.handles));
        (calls, self.droppables)
    }
}

impl<D> CommandBuffer<D> {
    /// Begins the creation of a command buffer. The driver is asked for its
    /// four objects one after the other; the first failure ends the creation.
    pub fn create(info: CommandBufferInfo) -> (start: NeedsCommandPool)
        ensures
            start.info == info,
    {
        NeedsCommandPool { info }
    }

    /// Information used to create this object.
    pub fn info(&self) -> (info: CommandBufferInfo)
        ensures
            info == self@.info,
    {
        self.info
    }

    /// The raw handle of the command buffer, to record into.
    pub fn handle(&self) -> (cmd_buf: u64)
        ensures
            cmd_buf == self@.handles.cmd_buf,
    {
        self.handles.cmd_buf
    }

    /// The raw handles of the command buffer's objects.
    pub fn handles(&self) -> (handles: Handles)
        ensures
            handles == self@.handles,
    {
        self.handles
    }

    /// Where the command buffer is in its cycle of use.
    pub fn phase(&self) -> (phase: Phase)
        ensures
            phase == self@.phase,
    {
        self.phase
    }

    /// How many things wait to be dropped.
    pub fn pending_drops(&self) -> (count: usize)
        ensures
            count == self@.droppables.len(),
    {
        self.droppables.len()
    }

    /// Whether the fence is known to be signaled, so that `drop_fenced` may
    /// be called.
    pub fn fence_signaled(&self) -> (signaled: bool)
        ensures
            signaled == self@.fence_signaled(),
    {
        match self.phase {
            Phase::Idle => true,
            Phase::Executed => true,
            _ => false,
        }
    }

    /// Begins recording. Returns the raw handle to record into.
    pub fn begin(&mut self) -> (cmd_buf: u64)
        requires
            old(self)@.inv(),
            old(self)@.enabled(Step::Begin),
        ensures
            final(self)@ == old(self)@.step(Step::Begin),
            final(self)@.inv(),
            cmd_buf == old(self)@.handles.cmd_buf,
    {
        self.phase = Phase::Recording;
        self.handles.cmd_buf
    }

    /// Notes that the recorded work was submitted, which resets the fence.
    pub fn submit(&mut self)
        requires
            old(self)@.inv(),
            old(self)@.enabled(Step::Submit),
        ensures
            final(self)@ == old(self)@.step(Step::Submit),
            final(self)@.inv(),
    {
        self.phase = Phase::Submitted;
    }

    /// Signals that execution has completed and drops everything that was
    /// collected for that moment.
    pub fn drop_fenced(this: &mut Self)
        requires
            old(this)@.inv(),
            old(this)@.enabled(Step::DropFenced),
        ensures
            final(this)@ == old(this)@.step(Step::DropFenced),
            final(this)@.inv(),
    {
        this.droppables.clear();
        this.phase = Phase::Idle;
    }

    /// Takes the driver's answer to a poll of the fence and tells whether
    /// the GPU has executed the previous submission. Does not block; see
    /// `wait_until_executed`.
    pub fn has_executed(&mut self, status: Result<bool, i32>) -> (executed: Result<bool, DriverError>)
        requires
            old(self)@.inv(),
        ensures
            executed == poll_result(status),
            final(self)@ == old(self)@.step(Step::Poll { status }),
            final(self)@.inv(),
    {
        match status {
            Ok(signaled) => {
                if signaled {
                    match self.phase {
                        Phase::Submitted => {
                            self.phase = Phase::Executed;
                        },
                        _ => {},
                    }
                }
                Ok(signaled)
            },
            Err(_) => Err(DriverError::InvalidData),
        }
    }

    /// Drops an item after execution has been completed.
    pub fn push_fenced_drop(this: &mut Self, thing_to_drop: D)
        requires
            old(this)@.inv(),
        ensures
            final(this)@ == old(this)@.step(Step::Push { thing: thing_to_drop }),
            final(this)@.inv(),
    {
        this.droppables.push(thing_to_drop);
        match this.phase {
            Phase::Idle => {
                this.phase = Phase::Executed;
            },
            _ => {},
        }
    }

    /// Takes the outcome of a blocking wait for the fence and passes it on.
    /// After a wait that succeeded the GPU has executed the previous
    /// submission.
    pub fn wait_until_executed(&mut self, waited: Result<(), DriverError>) -> (outcome: Result<
        (),
        DriverError,
    >)
        requires
            old(self)@.inv(),
        ensures
            outcome == waited,
            final(self)@ == old(self)@.step(Step::Wait { waited }),
            final(self)@.inv(),
    {
        if waited.is_ok() {
            match self.phase {
                Phase::Submitted => {
                    self.phase = Phase::Executed;
                },
                _ => {},
            }
        }
        waited
    }

    /// Takes the driver's answer to a blocking read of the two timestamps.
    pub fn get_query_results(&self, read: Result<[u64; 2], i32>) -> (results: Result<
        [u64; 2],
        DriverError,
    >)
        ensures
            results == query_result(read),
    {
        match read {
            Ok(values) => Ok(values),
            Err(_) => Err(DriverError::InvalidData),
        }
    }

    /// Ends the command buffer's life. While the thread unwinds from a panic
    /// nothing is done at all: no wait, no call to the driver. Otherwise the
    /// caller waits for the fence one last time and hands the outcome to
    /// `Teardown::waited`, which says what to free and gives back what
    /// waited to be dropped.
    pub fn teardown(self, panicking: bool) -> (end: Option<Teardown<D>>)
        ensures
            match end {
                Some(end) => !panicking && end@ == (TeardownView {
                    handles: self@.handles,
                    droppables: self@.droppables,
                }),
                None => panicking,
            },
    {
        if panicking {
            None
        } else {
            Some(Teardown { handles: self.handles, droppables: self.droppables })
        }
    }
}

/// No step but `DropFenced` lets go of anything that waits to be dropped:
/// after any other step everything that waited still waits, in its order.
pub proof fn law_droppables_kept<D>(buffer: CommandBufferView<D>, step: Step<D>)
    requires
        buffer.inv(),
        buffer.enabled(step),
        !(step is DropFenced),
    ensures
        buffer.step(step).inv(),
        buffer.droppables.is_prefix_of(buffer.step(step).droppables),
{
}

/// `DropFenced` can be taken only when the fence is known to be signaled,
/// and between a submission and that knowledge lies an answer of the
/// driver: a poll that found the fence signaled, or a wait that succeeded.
pub proof fn law_fence_gating<D>(buffer: CommandBufferView<D>, step: Step<D>)
    requires
        buffer.inv(),
        buffer.enabled(step),
    ensures
        buffer.step(step).inv(),
        step is DropFenced ==> buffer.fence_signaled(),
        step is Submit ==> !buffer.step(step).fence_signaled(),
        !buffer.fence_signaled() && buffer.step(step).fence_signaled() ==> {
            &&& buffer.phase is Submitted
            &&& (step == Step::<D>::Poll { status: Ok(true) } || (step matches Step::Wait { waited }
                && waited is Ok))
        },
{
}

/// Whether a step is an answer of the driver that confirms the fence as
/// signaled: a poll that found it so, or a wait that succeeded.
pub open spec fn confirms<D>(step: Step<D>) -> bool {
    step == (Step::<D>::Poll { status: Ok(true) }) || (step matches Step::Wait { waited } && waited is Ok)
}

/// The command buffer after a run of steps.
pub open spec fn run<D>(buffer: CommandBufferView<D>, steps: Seq<Step<D>>) -> CommandBufferView<D>
    decreases steps.len(),
{
    if steps.len() == 0 {
        buffer
    } else {
        run(buffer, steps.drop_last()).step(steps.last())
    }
}

/// Whether each step of a run may be taken when its turn comes.
pub open spec fn runnable<D>(buffer: CommandBufferView<D>, steps: Seq<Step<D>>) -> bool
    decreases steps.len(),
{
    steps.len() == 0 || (runnable(buffer, steps.drop_last()) && run(buffer, steps.drop_last()).enabled(
        steps.last(),
    ))
}

/// After a submission nothing that waits to be dropped is let go until the
/// driver has confirmed the fence: whatever is done with the buffer
/// meanwhile, it stays submitted and keeps everything, in its order.
pub proof fn law_nothing_dropped_before_the_fence<D>(buffer: CommandBufferView<D>, steps: Seq<Step<D>>)
    requires
        buffer.inv(),
        buffer.phase is Submitted,
        runnable(buffer, steps),
        forall|i: int| 0 <= i < steps.len() ==> !confirms(#[trigger] steps[i]),
    ensures
        run(buffer, steps).inv(),
        run(buffer, steps).phase is Submitted,
        buffer.droppables.is_prefix_of(run(buffer, steps).droppables),
    decreases steps.len(),
{
    if steps.len() > 0 {
        let before = steps.drop_last();
        assert forall|i: int| 0 <= i < before.len() implies !confirms(#[trigger] before[i]) by {
            assert(before[i] == steps[i]);
        }
        law_nothing_dropped_before_the_fence(buffer, before);
        let last = steps[steps.len() - 1];
        assert(!confirms(last));
        law_droppables_kept(run(buffer, before), last);
        let mid = run(buffer, before).droppables;
        let end = run(buffer, steps).droppables;
        assert(buffer.droppables.is_prefix_of(end)) by {
            assert(buffer.droppables.len() <= mid.len() <= end.len());
            assert forall|i: int| 0 <= i < buffer.droppables.len() implies buffer.droppables[i]
                == end[i] by {
                assert(buffer.droppables[i] == mid[i]);
                assert(mid[i] == end[i]);
            }
            assert(buffer.droppables =~= end.subrange(0, buffer.droppables.len() as int));
        }
    }
}

} // verus!
