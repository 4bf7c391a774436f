//! Frame scheduling: which buffer each stage opens, how much parallel work
//! each stage launches, and how window events advance the frame counter.

use vstd::prelude::*;
use crate::trail::BufferId;

verus! {

/// Side length, in cells, of the square tile that one decay work-group covers.
pub const TILE_SIZE: u32 = 8;

/// Number of agents that one agent-update work-group covers.
pub const AGENTS_PER_GROUP: u32 = 64;

/// The least number of groups of `size` items that cover `count` items.
pub open spec fn groups_needed(count: int, size: int) -> int {
    (count + size - 1) / size
}

/// A three-dimensional work-group count for one dispatch.
#[derive(Clone, Copy, Debug, PartialEq, Eq, Structural)]
pub struct WorkGroups {
    pub x: u32,
    pub y: u32,
    pub z: u32,
}

/// Computes the least number of groups of `size` items that cover `count` items.
pub fn cover(count: u32, size: u32) -> (groups: u32)
    requires
        size > 0,
    ensures
        groups == groups_needed(count as int, size as int),
        groups * size >= count,
        groups > 0 ==> (groups - 1) * size < count,
        count == 0 <==> groups == 0,
{
    let whole: u32 = count / size;
    let rest: u32 = count % size;
    proof {
        let c = count as int;
        let s = size as int;
        let q = c / s;
        let r = c % s;
        vstd::arithmetic::div_mod::lemma_fundamental_div_mod(c, s);
        assert(s * q == q * s) by (nonlinear_arith);
        assert(q >= 0 && c == q * s + r && 0 <= r < s);
        assert((q + 1) * s == q * s + s && (q - 1) * s == q * s - s) by (nonlinear_arith);
        if r == 0 {
            vstd::arithmetic::div_mod::lemma_fundamental_div_mod_converse(c + s - 1, s, q, s - 1);
            assert(q == 0 <==> c == 0) by (nonlinear_arith)
                requires
                    c == q * s,
                    s > 0,
                    q >= 0,
            ;
        } else {
            vstd::arithmetic::div_mod::lemma_fundamental_div_mod_converse(
                c + s - 1,
                s,
                q + 1,
                r - 1,
            );
            assert(q + 1 <= c) by (nonlinear_arith)
                requires
                    c == q * s + r,
                    1 <= r < s,
                    q >= 0,
            ;
        }
    }
    if rest == 0 {
        whole
    } else {
        whole + 1
    }
}

/// Work-groups of the decay stage: one per tile, covering the whole grid.
pub fn decay_groups(width: u32, height: u32) -> (g: WorkGroups)
    ensures
        g.x == groups_needed(width as int, TILE_SIZE as int),
        g.y == groups_needed(height as int, TILE_SIZE as int),
        g.z == 1,
        g.x * TILE_SIZE >= width,
        g.y * TILE_SIZE >= height,
{
    WorkGroups { x: cover(width, TILE_SIZE), y: cover(height, TILE_SIZE), z: 1 }
}

/// Work-groups of the agent-update stage: one per block of agents, rounded up.
pub fn agent_groups(population: u32) -> (g: WorkGroups)
    ensures
        g.x == groups_needed(population as int, AGENTS_PER_GROUP as int),
        g.y == 1,
        g.z == 1,
        g.x * AGENTS_PER_GROUP >= population,
{
    WorkGroups { x: cover(population, AGENTS_PER_GROUP), y: 1, z: 1 }
}

/// The stages of one frame.
#[derive(Clone, Copy, Debug, PartialEq, Eq, Structural)]
pub enum Stage {
    /// Diffuse and decay the source buffer into the destination buffer.
    Decay,
    /// Sense, steer, move, transition and deposit, once per agent.
    AgentUpdate,
    /// Draw the destination buffer and the agents to the output surface.
    Render,
    /// Hand the finished surface to the display.
    Present,
}

/// The order in which the stages of every frame are issued.
pub open spec fn stage_sequence() -> Seq<Stage> {
    seq![Stage::Decay, Stage::AgentUpdate, Stage::Render, Stage::Present]
}

/// Returns the stages of a frame in the order in which they are issued.
pub fn stage_order() -> (order: [Stage; 4])
    ensures
        order@ == stage_sequence(),
{
    let order: [Stage; 4] = [Stage::Decay, Stage::AgentUpdate, Stage::Render, Stage::Present];
    assert(order@ =~= stage_sequence());
    order
}

/// The buffer that is read during the frame with the given index.
pub open spec fn source_at(frame_index: int) -> BufferId {
    if frame_index % 2 == 0 {
        BufferId::A
    } else {
        BufferId::B
    }
}

/// Everything the stages of one frame need to know.
#[derive(Clone, Copy, Debug, PartialEq, Eq, Structural)]
pub struct FramePlan {
    /// Number of frames completed before this one.
    pub frame_index: u64,
    /// The buffer written by the previous frame, read by the decay stage.
    pub source: BufferId,
    /// The buffer that this frame writes.
    pub destination: BufferId,
    /// Dispatch size of the decay stage.
    pub decay_groups: WorkGroups,
    /// Dispatch size of the agent-update stage.
    pub agent_groups: WorkGroups,
}

impl FramePlan {
    /// The trail buffer that `stage` reads, if it reads one.
    pub open spec fn reads_of(self, stage: Stage) -> Option<BufferId> {
        match stage {
            Stage::Decay => Some(self.source),
            Stage::AgentUpdate => Some(self.destination),
            Stage::Render => Some(self.destination),
            Stage::Present => None,
        }
    }

    /// The trail buffer that `stage` writes, if it writes one.
    pub open spec fn writes_of(self, stage: Stage) -> Option<BufferId> {
        match stage {
            Stage::Decay => Some(self.destination),
            Stage::AgentUpdate => Some(self.destination),
            Stage::Render => None,
            Stage::Present => None,
        }
    }

    /// Returns the trail buffer that `stage` reads, if it reads one.
    pub fn reads(&self, stage: Stage) -> (buffer: Option<BufferId>)
        ensures
            buffer == self.reads_of(stage),
    {
        match stage {
            Stage::Decay => Some(self.source),
            Stage::AgentUpdate => Some(self.destination),
            Stage::Render => Some(self.destination),
            Stage::Present => None,
        }
    }

    /// Returns the trail buffer that `stage` writes, if it writes one.
    pub fn writes(&self, stage: Stage) -> (buffer: Option<BufferId>)
        ensures
            buffer == self.writes_of(stage),
    {
        match stage {
            Stage::Decay => Some(self.destination),
            Stage::AgentUpdate => Some(self.destination),
            Stage::Render => None,
            Stage::Present => None,
        }
    }
}

/// Whether the output surface could be acquired for a frame.
#[derive(Clone, Copy, Debug, PartialEq, Eq, Structural)]
pub enum SurfaceStatus {
    /// The surface is ready to be drawn to.
    Ready,
    /// The surface is temporarily unavailable, for instance in the middle of a resize.
    Unavailable,
    /// The device failed in a way that cannot be recovered from.
    DeviceLost,
}

/// What the window system reports to the scheduler.
#[derive(Clone, Copy, Debug, PartialEq, Eq, Structural)]
pub enum FrameEvent {
    /// A redraw is due; the caller has tried to acquire the surface.
    RedrawRequested(SurfaceStatus),
    /// The user asked to close the window.
    CloseRequested,
    /// The event queue is drained.
    AboutToWait,
    /// Any other event.
    Other,
}

/// Why a run is terminated.
#[derive(Clone, Copy, Debug, PartialEq, Eq, Structural)]
pub enum AbortReason {
    /// The device reported an unrecoverable error.
    DeviceLost,
    /// The frame counter cannot be advanced any further.
    CounterExhausted,
}

/// What the caller does in answer to an event.
#[derive(Clone, Copy, Debug, PartialEq, Eq, Structural)]
pub enum FrameAction {
    /// Issue the stages of the planned frame, in order, as one batch, and present it.
    Submit(FramePlan),
    /// Reconfigure the output surface; the frame is dropped.
    Reconfigure,
    /// Ask the window system for a redraw.
    RequestRedraw,
    /// Leave the event loop.
    Exit,
    /// Terminate the run with an error.
    Abort(AbortReason),
    /// Nothing to do.
    Ignore,
}

/// The state of a scheduler as mathematical values.
pub struct SchedulerModel {
    /// Number of frames submitted so far.
    pub frame_index: nat,
    /// Grid width in cells.
    pub width: nat,
    /// Grid height in cells.
    pub height: nat,
    /// Number of agents.
    pub population: nat,
}

impl SchedulerModel {
    /// The plan of the frame that comes next.
    pub open spec fn plan(self) -> FramePlan {
        FramePlan {
            frame_index: self.frame_index as u64,
            source: source_at(self.frame_index as int),
            destination: source_at(self.frame_index as int).flipped(),
            decay_groups: WorkGroups {
                x: groups_needed(self.width as int, TILE_SIZE as int) as u32,
                y: groups_needed(self.height as int, TILE_SIZE as int) as u32,
                z: 1,
            },
            agent_groups: WorkGroups {
                x: groups_needed(self.population as int, AGENTS_PER_GROUP as int) as u32,
                y: 1,
                z: 1,
            },
        }
    }

    /// The same scheduler one frame later.
    pub open spec fn advanced(self) -> SchedulerModel {
        SchedulerModel { frame_index: self.frame_index + 1, ..self }
    }

    /// The action taken in answer to `event`.
    pub open spec fn action(self, event: FrameEvent) -> FrameAction {
        match event {
            FrameEvent::RedrawRequested(SurfaceStatus::Ready) => if self.frame_index < u64::MAX {
                FrameAction::Submit(self.plan())
            } else {
                FrameAction::Abort(AbortReason::CounterExhausted)
            },
            FrameEvent::RedrawRequested(SurfaceStatus::Unavailable) => FrameAction::Reconfigure,
            FrameEvent::RedrawRequested(SurfaceStatus::DeviceLost) => FrameAction::Abort(
                AbortReason::DeviceLost,
            ),
            FrameEvent::CloseRequested => FrameAction::Exit,
            FrameEvent::AboutToWait => FrameAction::RequestRedraw,
            FrameEvent::Other => FrameAction::Ignore,
        }
    }

    /// The state after `event`: the counter advances exactly when a frame is submitted.
    pub open spec fn after(self, event: FrameEvent) -> SchedulerModel {
        if self.action(event) is Submit {
            self.advanced()
        } else {
            self
        }
    }

    /// The state after a sequence of events, oldest first.
    pub open spec fn after_all(self, events: Seq<FrameEvent>) -> SchedulerModel
        decreases events.len(),
    {
        if events.len() == 0 {
            self
        } else {
            self.after_all(events.drop_last()).after(events.last())
        }
    }

    /// The number of frames submitted while handling `events`, oldest first.
    pub open spec fn submitted(self, events: Seq<FrameEvent>) -> nat
        decreases events.len(),
    {
        if events.len() == 0 {
            0
        } else {
            let before = self.after_all(events.drop_last());
            let earlier = self.submitted(events.drop_last());
            if before.action(events.last()) is Submit {
                earlier + 1
            } else {
                earlier
            }
        }
    }
}

/// Owns the frame counter and derives every per-frame decision from it.
pub struct FrameScheduler {
    frame_index: u64,
    width: u32,
    height: u32,
    population: u32,
}

impl View for FrameScheduler {
    type V = SchedulerModel;

    closed spec fn view(&self) -> SchedulerModel {
        SchedulerModel {
            frame_index: self.frame_index as nat,
            width: self.width as nat,
            height: self.height as nat,
            population: self.population as nat,
        }
    }
}

impl FrameScheduler {
    /// Creates a scheduler at frame zero for a grid of `width` by `height`
    /// cells and `population` agents.
    pub fn new(width: u32, height: u32, population: u32) -> (scheduler: FrameScheduler)
        ensures
            scheduler@ == (SchedulerModel {
                frame_index: 0,
                width: width as nat,
                height: height as nat,
                population: population as nat,
            }),
    {
        FrameScheduler { frame_index: 0, width, height, population }
    }

    /// Creates a scheduler that has already submitted `frame_index` frames.
    pub fn starting_at(frame_index: u64, width: u32, height: u32, population: u32) -> (scheduler:
        FrameScheduler)
        ensures
            scheduler@ == (SchedulerModel {
                frame_index: frame_index as nat,
                width: width as nat,
                height: height as nat,
                population: population as nat,
            }),
    {
        FrameScheduler { frame_index, width, height, population }
    }

    /// Number of frames submitted so far.
    pub fn frame_index(&self) -> (index: u64)
        ensures
            index == self@.frame_index,
    {
        self.frame_index
    }

    /// The buffer that the next frame reads: `A` on even frames, `B` on odd ones.
    pub fn source(&self) -> (buffer: BufferId)
        ensures
            buffer == source_at(self@.frame_index as int),
    {
        if self.frame_index % 2 == 0 {
            BufferId::A
        } else {
            BufferId::B
        }
    }

    /// The buffer that the next frame writes: always the one it does not read.
    pub fn destination(&self) -> (buffer: BufferId)
        ensures
            buffer == source_at(self@.frame_index as int).flipped(),
            buffer != source_at(self@.frame_index as int),
    {
        self.source().other()
    }

    /// The plan of the next frame.
    pub fn plan(&self) -> (plan: FramePlan)
        ensures
            plan == self@.plan(),
            plan.source != plan.destination,
    {
        FramePlan {
            frame_index: self.frame_index,
            source: self.source(),
            destination: self.destination(),
            decay_groups: decay_groups(self.width, self.height),
            agent_groups: agent_groups(self.population),
        }
    }

    /// Handles one event. The frame counter advances exactly when the answer
    /// is `Submit`; every other answer leaves the scheduler as it was.
    pub fn on_event(&mut self, event: FrameEvent) -> (action: FrameAction)
        ensures
            action == old(self)@.action(event),
            final(self)@ == old(self)@.after(event),
    {
        match event {
            FrameEvent::RedrawRequested(SurfaceStatus::Ready) => {
                if self.frame_index < u64::MAX {
                    let plan = self.plan();
                    self.frame_index = self.frame_index + 1;
                    FrameAction::Submit(plan)
                } else {
                    FrameAction::Abort(AbortReason::CounterExhausted)
                }
            },
            FrameEvent::RedrawRequested(SurfaceStatus::Unavailable) => FrameAction::Reconfigure,
            FrameEvent::RedrawRequested(SurfaceStatus::DeviceLost) => FrameAction::Abort(
                AbortReason::DeviceLost,
            ),
            FrameEvent::CloseRequested => FrameAction::Exit,
            FrameEvent::AboutToWait => FrameAction::RequestRedraw,
            FrameEvent::Other => FrameAction::Ignore,
        }
    }
}

/// The read buffer alternates: it is `A` before every even-numbered frame and `B`
/// before every odd-numbered one, and a frame never writes the buffer it reads.
pub proof fn lemma_buffer_parity(model: SchedulerModel)
    ensures
        model.plan().source == (if model.frame_index % 2 == 0 {
            BufferId::A
        } else {
            BufferId::B
        }),
        model.plan().destination != model.plan().source,
        model.advanced().plan().source == model.plan().destination,
        model.advanced().plan().destination == model.plan().source,
        model.plan().reads_of(Stage::Decay) != model.plan().writes_of(Stage::Decay),
{
}

/// Handling any sequence of events advances the frame counter by exactly the
/// number of frames submitted, and changes nothing else. In particular a
/// dropped frame leaves the counter, and with it the buffer roles, untouched.
pub proof fn lemma_counter_follows_submissions(model: SchedulerModel, events: Seq<FrameEvent>)
    ensures
        model.after_all(events) == (SchedulerModel {
            frame_index: model.frame_index + model.submitted(events),
            ..model
        }),
        model.submitted(events) <= events.len(),
    decreases events.len(),
{
    if events.len() > 0 {
        lemma_counter_follows_submissions(model, events.drop_last());
    }
}

/// A scheduler that starts at frame zero reads `A` after an even number of
/// submitted frames and `B` after an odd number.
pub proof fn lemma_parity_after_frames(model: SchedulerModel, events: Seq<FrameEvent>)
    requires
        model.frame_index == 0,
    ensures
        model.after_all(events).plan().source == (if model.submitted(events) % 2 == 0 {
            BufferId::A
        } else {
            BufferId::B
        }),
{
    lemma_counter_follows_submissions(model, events);
}

} // verus!
