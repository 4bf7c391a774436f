//! The whole simulation: field, agents, world and scheduler advancing in
//! lockstep, one frame per submitted redraw.

use vstd::prelude::*;
use crate::agent::{lemma_advanced, Agent, AgentConfig};
use crate::colony::{
    advanced_all,
    all_on,
    lemma_deposits_count,
    agent_update_stage,
    with_deposits,
    AgentTable,
};
use crate::compositor::{compose, picture_of, AgentStyle, Pixel};
use crate::decay::{decayed_grid, lemma_decayed_grid, diffusion_decay_stage, DecayConfig};
use crate::geometry::Turn;
use crate::random::draw_jitter;
use crate::scheduler::{source_at, FrameAction, FrameEvent, FrameScheduler, SchedulerModel};
use crate::trail::{BufferId, GridError, GridModel, TrailField, TrailModel};
use crate::world::{WorldMap, WorldModel};

verus! {

/// Why a simulation cannot be set up.
#[derive(Clone, Copy, Debug, PartialEq, Eq, Structural)]
pub enum SetupError {
    /// The trail field cannot be built.
    Grid(GridError),
    /// The world map does not have the resolution of the trail field.
    ResolutionMismatch,
    /// The decay configuration does not make concentrations shrink.
    DecayNotBelowOne,
    /// There are more agents than a dispatch can count.
    TooManyAgents,
    /// An agent stands outside the grid.
    AgentOffGrid,
}

/// A simulation as mathematical values.
pub struct SimulationModel {
    pub field: TrailModel,
    pub agents: Seq<Agent>,
    pub world: WorldModel,
    pub scheduler: SchedulerModel,
    pub decay: DecayConfig,
    pub conduct: AgentConfig,
}

impl SimulationModel {
    /// Number of columns of the simulated grid.
    pub open spec fn width(self) -> int {
        self.field.a.width as int
    }

    /// Number of rows of the simulated grid.
    pub open spec fn height(self) -> int {
        self.field.a.height as int
    }

    /// The parts fit together: field and world have one resolution, every
    /// agent stands on the grid, the scheduler counts this grid and this
    /// population, and the buffer that the field reads is the one that the
    /// frame counter calls for.
    pub open spec fn wf(self) -> bool {
        &&& self.field.wf()
        &&& self.world.wf()
        &&& self.world.width == self.field.a.width
        &&& self.world.height == self.field.a.height
        &&& self.scheduler.width == self.field.a.width
        &&& self.scheduler.height == self.field.a.height
        &&& self.scheduler.population == self.agents.len()
        &&& self.scheduler.frame_index <= u64::MAX
        &&& all_on(self.agents, self.width(), self.height())
        &&& self.decay.valid()
        &&& self.field.source == source_at(self.scheduler.frame_index as int)
    }

    /// The destination buffer after the decay stage of the next frame.
    pub open spec fn decayed(self) -> GridModel {
        decayed_grid(self.field.source_grid(), self.decay)
    }

    /// The simulation after one frame in which the agents are perturbed by
    /// `jitter`: the destination holds the decayed source plus the deposits
    /// of the advanced agents, the buffers have traded roles and the frame
    /// counter has advanced by one.
    pub open spec fn frame(self, jitter: Seq<Turn>) -> SimulationModel {
        let agents = advanced_all(self.agents, self.decayed(), self.world, self.conduct, jitter);
        let written = with_deposits(self.decayed(), agents, self.conduct.deposit as int);
        SimulationModel {
            field: self.field.with_destination(written).swapped(),
            agents,
            scheduler: self.scheduler.advanced(),
            ..self
        }
    }

    /// The simulation after `event`: one frame later if the event leads to a
    /// submitted frame, unchanged otherwise.
    pub open spec fn after(self, event: FrameEvent, jitter: Seq<Turn>) -> SimulationModel {
        if self.scheduler.action(event) is Submit {
            self.frame(jitter)
        } else {
            self
        }
    }

    /// The simulation after a sequence of events, oldest first, each with the
    /// perturbations of the frame that it may lead to.
    pub open spec fn after_all(
        self,
        events: Seq<FrameEvent>,
        jitters: Seq<Seq<Turn>>,
    ) -> SimulationModel
        decreases events.len(),
    {
        if events.len() == 0 {
            self
        } else {
            self.after_all(events.drop_last(), jitters.drop_last()).after(
                events.last(),
                jitters.last(),
            )
        }
    }

    /// What setting up a simulation fails with, if it fails.
    pub open spec fn setup_error(
        width: usize,
        height: usize,
        world: WorldModel,
        agents: Seq<Agent>,
        decay: DecayConfig,
    ) -> Option<SetupError> {
        if let Some(error) = GridModel::size_error(width, height) {
            Some(SetupError::Grid(error))
        } else if world.width != width || world.height != height {
            Some(SetupError::ResolutionMismatch)
        } else if !decay.valid() {
            Some(SetupError::DecayNotBelowOne)
        } else if agents.len() > u32::MAX {
            Some(SetupError::TooManyAgents)
        } else if !all_on(agents, width as int, height as int) {
            Some(SetupError::AgentOffGrid)
        } else {
            None
        }
    }

    /// The simulation before its first frame: both buffers blank, `A` the source.
    pub open spec fn initial(
        width: usize,
        height: usize,
        max: u32,
        world: WorldModel,
        agents: Seq<Agent>,
        decay: DecayConfig,
        conduct: AgentConfig,
    ) -> SimulationModel {
        SimulationModel {
            field: TrailModel {
                a: GridModel::blank(width as nat, height as nat, max as nat),
                b: GridModel::blank(width as nat, height as nat, max as nat),
                source: BufferId::A,
            },
            agents,
            world,
            scheduler: SchedulerModel {
                frame_index: 0,
                width: width as nat,
                height: height as nat,
                population: agents.len(),
            },
            decay,
            conduct,
        }
    }
}

/// A frame keeps the simulation well formed. In particular every
/// concentration stays within zero and the largest concentration, every
/// agent stays on the grid, the population stays the same, and the buffer
/// written by the frame is the one read by the next.
pub proof fn lemma_frame(model: SimulationModel, jitter: Seq<Turn>)
    requires
        model.wf(),
        model.scheduler.frame_index < u64::MAX,
    ensures
        model.frame(jitter).wf(),
        model.frame(jitter).agents.len() == model.agents.len(),
        model.frame(jitter).field.source == model.field.destination(),
        model.frame(jitter).field.destination_grid() == model.field.source_grid(),
        model.frame(jitter).field.source_grid() == with_deposits(
            model.decayed(),
            model.frame(jitter).agents,
            model.conduct.deposit as int,
        ),
        model.frame(jitter).scheduler.frame_index == model.scheduler.frame_index + 1,
{
    let decayed = model.decayed();
    lemma_decayed_grid(model.field.source_grid(), model.decay);
    let agents = advanced_all(model.agents, decayed, model.world, model.conduct, jitter);
    assert forall|i: int| 0 <= i < agents.len() implies (#[trigger] agents[i]).on(
        model.width(),
        model.height(),
    ) by {
        lemma_advanced(
            model.agents[i],
            decayed,
            model.world,
            model.conduct,
            jitter[i],
        );
    }
    lemma_deposits_count(decayed, agents, model.conduct.deposit as int);
}

/// Whatever events arrive, the simulation stays well formed: concentrations
/// stay within their range, agents stay on the grid and the population stays
/// the same. Its frame counter has advanced by the number of frames that
/// were submitted, and it reads the buffer that the counter calls for: the
/// first source after an even number of frames, the other one after an odd
/// number.
pub proof fn lemma_run(model: SimulationModel, events: Seq<FrameEvent>, jitters: Seq<Seq<Turn>>)
    requires
        model.wf(),
        jitters.len() == events.len(),
    ensures
        model.after_all(events, jitters).wf(),
        model.after_all(events, jitters).agents.len() == model.agents.len(),
        model.after_all(events, jitters).scheduler == model.scheduler.after_all(events),
        model.after_all(events, jitters).scheduler.frame_index == model.scheduler.frame_index
            + model.scheduler.submitted(events),
        model.after_all(events, jitters).field.source == (if model.scheduler.submitted(events) % 2
            == 0 {
            model.field.source
        } else {
            model.field.destination()
        }),
    decreases events.len(),
{
    if events.len() > 0 {
        let before = model.after_all(events.drop_last(), jitters.drop_last());
        lemma_run(model, events.drop_last(), jitters.drop_last());
        if before.scheduler.action(events.last()) is Submit {
            lemma_frame(before, jitters.last());
        }
    }
}

/// The simulation: a trail field, an agent table, a world map and the
/// scheduler that drives them.
pub struct Simulation {
    field: TrailField,
    agents: AgentTable,
    world: WorldMap,
    scheduler: FrameScheduler,
    decay: DecayConfig,
    conduct: AgentConfig,
}

impl View for Simulation {
    type V = SimulationModel;

    closed spec fn view(&self) -> SimulationModel {
        SimulationModel {
            field: self.field@,
            agents: self.agents@,
            world: self.world@,
            scheduler: self.scheduler@,
            decay: self.decay,
            conduct: self.conduct,
        }
    }
}

impl Simulation {
    /// Sets up a simulation on a blank field of `width` by `height` cells
    /// whose concentrations can rise to `max`.
    pub fn new(
        width: usize,
        height: usize,
        max: u32,
        world: WorldMap,
        agents: AgentTable,
        decay: DecayConfig,
        conduct: AgentConfig,
    ) -> (built: Result<Simulation, SetupError>)
        requires
            world@.wf(),
        ensures
            match built {
                Ok(simulation) => {
                    &&& SimulationModel::setup_error(width, height, world@, agents@, decay) is None
                    &&& simulation@ == SimulationModel::initial(
                        width,
                        height,
                        max,
                        world@,
                        agents@,
                        decay,
                        conduct,
                    )
                    &&& simulation@.wf()
                },
                Err(error) => SimulationModel::setup_error(width, height, world@, agents@, decay)
                    == Some(error),
            },
    {
        if width == 0 || height == 0 {
            return Err(SetupError::Grid(GridError::Empty));
        }
        if width.checked_mul(height).is_none() {
            return Err(SetupError::Grid(GridError::TooLarge));
        }
        if world.width() != width || world.height() != height {
            return Err(SetupError::ResolutionMismatch);
        }
        if decay.keep_num >= decay.keep_den {
            return Err(SetupError::DecayNotBelowOne);
        }
        let population: usize = agents.len();
        if population > u32::MAX as usize {
            return Err(SetupError::TooManyAgents);
        }
        let mut i: usize = 0;
        while i < population
            invariant
                GridModel::size_error(width, height) is None,
                world@.wf(),
                world@.width == width && world@.height == height,
                decay.valid(),
                population <= u32::MAX,
                population == agents@.len(),
                i <= population,
                forall|k: int| 0 <= k < i ==> (#[trigger] agents@[k]).on(width as int, height as int),
            decreases population - i,
        {
            let agent = agents.get(i);
            if agent.x >= width || agent.y >= height {
                assert(!agents@[i as int].on(width as int, height as int));
                return Err(SetupError::AgentOffGrid);
            }
            i = i + 1;
        }
        let field = match TrailField::new(width, height, max) {
            Ok(field) => field,
            Err(error) => {
                return Err(SetupError::Grid(error));
            },
        };
        let scheduler = FrameScheduler::new(width as u32, height as u32, population as u32);
        Ok(Simulation { field, agents, world, scheduler, decay, conduct })
    }

    /// The trail field.
    pub fn field(&self) -> (field: &TrailField)
        ensures
            field@ == self@.field,
    {
        &self.field
    }

    /// The agent table.
    pub fn agents(&self) -> (agents: &AgentTable)
        ensures
            agents@ == self@.agents,
    {
        &self.agents
    }

    /// The world map.
    pub fn world(&self) -> (world: &WorldMap)
        ensures
            world@ == self@.world,
    {
        &self.world
    }

    /// The scheduler.
    pub fn scheduler(&self) -> (scheduler: &FrameScheduler)
        ensures
            scheduler@ == self@.scheduler,
    {
        &self.scheduler
    }

    /// Draws the buffer that the last frame wrote, with the agents over it.
    /// Nothing in the simulation changes.
    pub fn picture(&self, style: &AgentStyle) -> (picture: Vec<Pixel>)
        requires
            self@.wf(),
        ensures
            picture@ == picture_of(self@.field.source_grid(), self@.agents, *style),
    {
        compose(self.field.source(), &self.agents, style)
    }

    /// Handles one event with the given perturbations, one for each agent.
    /// A submitted frame runs the decay stage, then the agent-update stage,
    /// then exchanges the buffers; any other answer changes nothing.
    pub fn on_event_with(&mut self, event: FrameEvent, jitter: &[Turn]) -> (action: FrameAction)
        requires
            old(self)@.wf(),
            jitter@.len() == old(self)@.agents.len(),
        ensures
            action == old(self)@.scheduler.action(event),
            final(self)@ == old(self)@.after(event, jitter@),
            final(self)@.wf(),
    {
        let action = self.scheduler.on_event(event);
        match action {
            FrameAction::Submit(_) => {
                proof {
                    lemma_frame(old(self)@, jitter@);
                }
                let pair = self.field.buffers();
                diffusion_decay_stage(pair.0, pair.1, &self.decay);
                agent_update_stage(&mut self.agents, pair.1, &self.world, &self.conduct, jitter);
                self.field.swap();
            },
            _ => {},
        }
        action
    }

    /// Handles one event, drawing the perturbations of the frame from `rng`.
    /// Whatever is drawn, the simulation ends up as `on_event_with` leaves
    /// it for some sequence of one perturbation per agent.
    pub fn on_event(&mut self, event: FrameEvent, rng: &mut rand::rngs::ThreadRng) -> (action:
        FrameAction)
        requires
            old(self)@.wf(),
        ensures
            action == old(self)@.scheduler.action(event),
            exists|jitter: Seq<Turn>|
                jitter.len() == old(self)@.agents.len() && #[trigger] old(self)@.after(event, jitter)
                    == final(self)@,
            final(self)@.wf(),
    {
        let jitter = draw_jitter(rng, self.agents.len());
        self.on_event_with(event, jitter.as_slice())
    }
}

} // verus!
