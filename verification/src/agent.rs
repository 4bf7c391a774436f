//! Agents: their state machine, and the sense, steer, move, transition and
//! deposit steps that the agent-update stage performs for each of them.

use vstd::prelude::*;
use crate::geometry::{clamped, lemma_resolve_on_grid, Boundary, Heading, Turn};
use crate::random::draw_heading;
use crate::trail::{Channel, Grid, GridModel};
use crate::world::{WorldMap, WorldModel, Zone};

verus! {

/// What an agent is currently doing.
#[derive(Clone, Copy, Debug, PartialEq, Eq, Structural)]
pub enum BehavioralState {
    /// Looking for food, away from home.
    Outbound,
    /// Carrying food home.
    Returning,
}

impl BehavioralState {
    /// The number that stands for this state in an agent record.
    pub open spec fn tag_of(self) -> u32 {
        match self {
            BehavioralState::Outbound => 0,
            BehavioralState::Returning => 1,
        }
    }

    /// The state that a number stands for, if any.
    pub open spec fn of_tag(tag: u32) -> Option<BehavioralState> {
        if tag == 0 {
            Some(BehavioralState::Outbound)
        } else if tag == 1 {
            Some(BehavioralState::Returning)
        } else {
            None
        }
    }

    /// The state of an agent that finds itself in `zone`: an outbound agent
    /// turns back in a food zone, a returning agent sets out again in the
    /// home zone, and nothing else changes a state.
    pub open spec fn after(self, zone: Zone) -> BehavioralState {
        match (self, zone) {
            (BehavioralState::Outbound, Zone::Food) => BehavioralState::Returning,
            (BehavioralState::Returning, Zone::Home) => BehavioralState::Outbound,
            _ => self,
        }
    }

    /// The channel that an agent in this state follows: an outbound agent
    /// follows the food trail, a returning agent the home trail.
    pub open spec fn sensed(self) -> Channel {
        match self {
            BehavioralState::Outbound => Channel::FoodTrail,
            BehavioralState::Returning => Channel::HomeTrail,
        }
    }

    /// The channel that an agent in this state lays: an outbound agent marks
    /// the way home, a returning agent the way to food.
    pub open spec fn laid(self) -> Channel {
        match self {
            BehavioralState::Outbound => Channel::HomeTrail,
            BehavioralState::Returning => Channel::FoodTrail,
        }
    }

    /// Returns the number that stands for this state in an agent record.
    pub fn tag(self) -> (tag: u32)
        ensures
            tag == self.tag_of(),
            BehavioralState::of_tag(tag) == Some(self),
    {
        match self {
            BehavioralState::Outbound => 0,
            BehavioralState::Returning => 1,
        }
    }

    /// Returns the state that a number stands for, if any.
    pub fn from_tag(tag: u32) -> (state: Option<BehavioralState>)
        ensures
            state == BehavioralState::of_tag(tag),
            state matches Some(s) ==> s.tag_of() == tag,
    {
        if tag == 0 {
            Some(BehavioralState::Outbound)
        } else if tag == 1 {
            Some(BehavioralState::Returning)
        } else {
            None
        }
    }

    /// Returns the state of an agent that finds itself in `zone`.
    pub fn transition(self, zone: Zone) -> (next: BehavioralState)
        ensures
            next == self.after(zone),
    {
        match (self, zone) {
            (BehavioralState::Outbound, Zone::Food) => BehavioralState::Returning,
            (BehavioralState::Returning, Zone::Home) => BehavioralState::Outbound,
            _ => self,
        }
    }

    /// Returns the channel that an agent in this state follows.
    pub fn sensed_channel(self) -> (channel: Channel)
        ensures
            channel == self.sensed(),
            channel != self.laid(),
    {
        match self {
            BehavioralState::Outbound => Channel::FoodTrail,
            BehavioralState::Returning => Channel::HomeTrail,
        }
    }

    /// Returns the channel that an agent in this state lays.
    pub fn deposit_channel(self) -> (channel: Channel)
        ensures
            channel == self.laid(),
    {
        match self {
            BehavioralState::Outbound => Channel::HomeTrail,
            BehavioralState::Returning => Channel::FoodTrail,
        }
    }
}

/// Size in bytes of one agent record in an upload buffer: two position
/// components, one heading and one state tag, four bytes each.
pub const RECORD_BYTES: u64 = 16;

/// Computes the size in bytes of an upload buffer for `population` tightly
/// packed agent records.
pub fn record_buffer_bytes(population: u32) -> (bytes: u64)
    ensures
        bytes == RECORD_BYTES * population,
{
    RECORD_BYTES * (population as u64)
}

/// Tunable constants of the agent-update stage.
#[derive(Clone, Copy, Debug, PartialEq, Eq, Structural)]
pub struct AgentConfig {
    /// Cells an agent advances per frame along each axis of its heading.
    pub step: u32,
    /// Distance, in cells along each axis, at which the field is sensed.
    pub sensor_distance: u32,
    /// Concentration an agent adds to its cell per frame.
    pub deposit: u32,
    /// What happens to coordinates beyond an edge, for sensing and moving alike.
    pub boundary: Boundary,
}

/// One agent.
#[derive(Clone, Copy, Debug, PartialEq, Eq, Structural)]
pub struct Agent {
    /// Column of the cell the agent stands on.
    pub x: usize,
    /// Row of the cell the agent stands on.
    pub y: usize,
    /// Direction of the next move.
    pub heading: Heading,
    /// What the agent is doing.
    pub state: BehavioralState,
}

/// The turn towards the strongest of three readings. Straight ahead wins
/// ties; left wins a tie with right.
pub open spec fn strongest(left: int, ahead: int, right: int) -> Turn {
    if ahead >= left && ahead >= right {
        Turn::Straight
    } else if left >= right {
        Turn::Left
    } else {
        Turn::Right
    }
}

impl Agent {
    /// Whether the agent stands on a grid of `width` by `height` cells.
    pub open spec fn on(self, width: int, height: int) -> bool {
        self.x < width && self.y < height
    }

    /// The column at which the agent senses in direction `heading`.
    pub open spec fn sensor_x(self, heading: Heading, width: int, config: AgentConfig) -> int {
        config.boundary.resolve(self.x + config.sensor_distance * heading.dx(), width)
    }

    /// The row at which the agent senses in direction `heading`.
    pub open spec fn sensor_y(self, heading: Heading, height: int, config: AgentConfig) -> int {
        config.boundary.resolve(self.y + config.sensor_distance * heading.dy(), height)
    }

    /// What the agent senses in direction `heading`: the concentration of
    /// the channel it follows, at its sensor cell.
    pub open spec fn reading(self, heading: Heading, grid: GridModel, config: AgentConfig) -> u32 {
        grid.at(
            self.state.sensed(),
            self.sensor_x(heading, grid.width as int, config),
            self.sensor_y(heading, grid.height as int, config),
        )
    }

    /// The heading after steering: one turn towards the strongest reading,
    /// then the perturbation `jitter`.
    pub open spec fn steered(self, grid: GridModel, config: AgentConfig, jitter: Turn) -> Heading {
        let pull = strongest(
            self.reading(self.heading.turned(Turn::Left), grid, config) as int,
            self.reading(self.heading, grid, config) as int,
            self.reading(self.heading.turned(Turn::Right), grid, config) as int,
        );
        self.heading.turned(pull).turned(jitter)
    }

    /// The agent after one frame: steered, moved by `config.step` along its
    /// new heading, brought back onto the grid, and in the state that the
    /// zone at its new cell calls for.
    pub open spec fn advanced(
        self,
        grid: GridModel,
        world: WorldModel,
        config: AgentConfig,
        jitter: Turn,
    ) -> Agent {
        let heading = self.steered(grid, config, jitter);
        let target_x = self.x + config.step * heading.dx();
        let target_y = self.y + config.step * heading.dy();
        let x = config.boundary.resolve(target_x, grid.width as int);
        let y = config.boundary.resolve(target_y, grid.height as int);
        Agent {
            x: x as usize,
            y: y as usize,
            heading: heading.mirrored(
                config.boundary.reverses(target_x, grid.width as int),
                config.boundary.reverses(target_y, grid.height as int),
            ),
            state: self.state.after(world.zone_at(x, y)),
        }
    }

    /// The agent that sets out from the home cell with the given heading:
    /// `radius` cells from home along the heading, held on the grid.
    pub open spec fn spawned(
        heading: Heading,
        home_x: int,
        home_y: int,
        radius: int,
        width: int,
        height: int,
    ) -> Agent {
        Agent {
            x: clamped(home_x + radius * heading.dx(), width) as usize,
            y: clamped(home_y + radius * heading.dy(), height) as usize,
            heading,
            state: BehavioralState::Outbound,
        }
    }

    /// Reads the field at the agent's sensor cell in direction `heading`.
    pub fn sense(&self, heading: Heading, grid: &Grid, config: &AgentConfig) -> (value: u32)
        requires
            grid@.wf(),
            self.on(grid@.width as int, grid@.height as int),
        ensures
            value == self.reading(heading, grid@, *config),
    {
        let d = heading.offset();
        assert(-0xffff_ffff <= config.sensor_distance * d.0 <= 0xffff_ffff) by (nonlinear_arith)
            requires
                -1 <= d.0 <= 1,
                0 <= config.sensor_distance <= 0xffff_ffff,
        ;
        assert(-0xffff_ffff <= config.sensor_distance * d.1 <= 0xffff_ffff) by (nonlinear_arith)
            requires
                -1 <= d.1 <= 1,
                0 <= config.sensor_distance <= 0xffff_ffff,
        ;
        let reach: i64 = config.sensor_distance as i64;
        let column = config.boundary.land(self.x, reach * d.0, grid.width());
        let row = config.boundary.land(self.y, reach * d.1, grid.height());
        grid.get(self.state.sensed_channel(), column.0, row.0)
    }

    /// Performs the sense, steer, move and transition steps of one frame and
    /// returns the agent as it stands afterwards. `jitter` is the random
    /// perturbation of the heading.
    pub fn advance(
        &self,
        grid: &Grid,
        world: &WorldMap,
        config: &AgentConfig,
        jitter: Turn,
    ) -> (next: Agent)
        requires
            grid@.wf(),
            world@.wf(),
            world@.width == grid@.width,
            world@.height == grid@.height,
            self.on(grid@.width as int, grid@.height as int),
        ensures
            next == self.advanced(grid@, world@, *config, jitter),
            next.on(grid@.width as int, grid@.height as int),
            next.state == self.state.after(world@.zone_at(next.x as int, next.y as int)),
    {
        let left: u32 = self.sense(self.heading.turn(Turn::Left), grid, config);
        let ahead: u32 = self.sense(self.heading, grid, config);
        let right: u32 = self.sense(self.heading.turn(Turn::Right), grid, config);
        let pull = if ahead >= left && ahead >= right {
            Turn::Straight
        } else if left >= right {
            Turn::Left
        } else {
            Turn::Right
        };
        let heading = self.heading.turn(pull).turn(jitter);
        let d = heading.offset();
        assert(-0xffff_ffff <= config.step * d.0 <= 0xffff_ffff) by (nonlinear_arith)
            requires
                -1 <= d.0 <= 1,
                0 <= config.step <= 0xffff_ffff,
        ;
        assert(-0xffff_ffff <= config.step * d.1 <= 0xffff_ffff) by (nonlinear_arith)
            requires
                -1 <= d.1 <= 1,
                0 <= config.step <= 0xffff_ffff,
        ;
        let stride: i64 = config.step as i64;
        let column = config.boundary.land(self.x, stride * d.0, grid.width());
        let row = config.boundary.land(self.y, stride * d.1, grid.height());
        let state = self.state.transition(world.zone_at(column.0, row.0));
        Agent { x: column.0, y: row.0, heading: heading.mirror(column.1, row.1), state }
    }

    /// Creates an agent that sets out from the home cell in a random
    /// direction. Whatever direction is drawn, the agent is the one that
    /// `spawn` makes for it.
    pub fn new(
        rng: &mut rand::rngs::ThreadRng,
        home_x: usize,
        home_y: usize,
        radius: u32,
        width: usize,
        height: usize,
    ) -> (agent: Agent)
        requires
            home_x < width,
            home_y < height,
        ensures
            agent == Agent::spawned(
                agent.heading,
                home_x as int,
                home_y as int,
                radius as int,
                width as int,
                height as int,
            ),
            agent.on(width as int, height as int),
            agent.state == BehavioralState::Outbound,
    {
        Agent::spawn(draw_heading(rng), home_x, home_y, radius, width, height)
    }

    /// Creates the agent that sets out from the home cell with the given
    /// heading on a grid of `width` by `height` cells.
    pub fn spawn(
        heading: Heading,
        home_x: usize,
        home_y: usize,
        radius: u32,
        width: usize,
        height: usize,
    ) -> (agent: Agent)
        requires
            home_x < width,
            home_y < height,
        ensures
            agent == Agent::spawned(
                heading,
                home_x as int,
                home_y as int,
                radius as int,
                width as int,
                height as int,
            ),
            agent.on(width as int, height as int),
    {
        let d = heading.offset();
        assert(-0xffff_ffff <= radius * d.0 <= 0xffff_ffff) by (nonlinear_arith)
            requires
                -1 <= d.0 <= 1,
                0 <= radius <= 0xffff_ffff,
        ;
        assert(-0xffff_ffff <= radius * d.1 <= 0xffff_ffff) by (nonlinear_arith)
            requires
                -1 <= d.1 <= 1,
                0 <= radius <= 0xffff_ffff,
        ;
        let reach: i64 = radius as i64;
        let column = Boundary::Clamp.land(home_x, reach * d.0, width);
        let row = Boundary::Clamp.land(home_y, reach * d.1, height);
        Agent { x: column.0, y: row.0, heading, state: BehavioralState::Outbound }
    }
}

/// An agent changes state only by entering the zone opposite to its errand:
/// outbound in food it returns, returning at home it sets out, and in open
/// ground or at a wall it keeps its state. Which it is depends on the state
/// and the zone alone.
pub proof fn lemma_transition(state: BehavioralState, zone: Zone)
    ensures
        BehavioralState::Outbound.after(Zone::Food) == BehavioralState::Returning,
        BehavioralState::Returning.after(Zone::Home) == BehavioralState::Outbound,
        zone != Zone::Food && zone != Zone::Home ==> state.after(zone) == state,
        state.after(zone) != state <==> (state == BehavioralState::Outbound && zone == Zone::Food)
            || (state == BehavioralState::Returning && zone == Zone::Home),
{
}

/// After one frame an agent stands on the grid whatever the policy, the
/// field and the perturbation, and its state is the one that its former
/// state and the zone of its new cell call for: the field has no say in it.
pub proof fn lemma_advanced(
    agent: Agent,
    grid: GridModel,
    world: WorldModel,
    config: AgentConfig,
    jitter: Turn,
)
    requires
        grid.wf(),
    ensures
        agent.advanced(grid, world, config, jitter).on(grid.width as int, grid.height as int),
        agent.advanced(grid, world, config, jitter).state == agent.state.after(
            world.zone_at(
                agent.advanced(grid, world, config, jitter).x as int,
                agent.advanced(grid, world, config, jitter).y as int,
            ),
        ),
        config.boundary == Boundary::Clamp ==> agent.advanced(grid, world, config, jitter).x
            == clamped(
            agent.x + config.step * agent.steered(grid, config, jitter).dx(),
            grid.width as int,
        ) && agent.advanced(grid, world, config, jitter).y == clamped(
            agent.y + config.step * agent.steered(grid, config, jitter).dy(),
            grid.height as int,
        ),
{
    let heading = agent.steered(grid, config, jitter);
    assert(grid.width <= grid.width * grid.height && grid.height <= grid.width * grid.height)
        by (nonlinear_arith)
        requires
            grid.width > 0,
            grid.height > 0,
    ;
    lemma_resolve_on_grid(
        config.boundary,
        agent.x + config.step * heading.dx(),
        grid.width as int,
    );
    lemma_resolve_on_grid(
        config.boundary,
        agent.y + config.step * heading.dy(),
        grid.height as int,
    );
}

} // verus!
