//! The agent table and the agent-update stage that advances it.

use vstd::prelude::*;
use crate::agent::{Agent, AgentConfig};
use crate::geometry::Turn;
use crate::random::draw_jitter;
use crate::trail::{
    lemma_cell_index,
    lemma_deposited,
    lemma_grids_agree,
    saturating_sum,
    Channel,
    Grid,
    GridModel,
};
use crate::world::{WorldMap, WorldModel};

verus! {

/// Whether every agent stands on a grid of `width` by `height` cells.
pub open spec fn all_on(agents: Seq<Agent>, width: int, height: int) -> bool {
    forall|i: int| 0 <= i < agents.len() ==> (#[trigger] agents[i]).on(width, height)
}

/// Every agent after one frame, each one with its own perturbation.
pub open spec fn advanced_all(
    agents: Seq<Agent>,
    grid: GridModel,
    world: WorldModel,
    config: AgentConfig,
    jitter: Seq<Turn>,
) -> Seq<Agent> {
    Seq::new(agents.len(), |i: int| agents[i].advanced(grid, world, config, jitter[i]))
}

/// The grid after every agent has deposited `amount` at its cell, into the
/// channel that its state lays.
pub open spec fn with_deposits(grid: GridModel, agents: Seq<Agent>, amount: int) -> GridModel
    decreases agents.len(),
{
    if agents.len() == 0 {
        grid
    } else {
        with_deposits(grid, agents.drop_last(), amount).deposited(
            agents.last().state.laid(),
            agents.last().x as int,
            agents.last().y as int,
            amount,
        )
    }
}

/// Number of agents that stand at column `x` of row `y` and lay `channel`.
pub open spec fn visitors(agents: Seq<Agent>, channel: Channel, x: int, y: int) -> nat
    decreases agents.len(),
{
    if agents.len() == 0 {
        0
    } else {
        let last = agents.last();
        let earlier = visitors(agents.drop_last(), channel, x, y);
        if last.x == x && last.y == y && last.state.laid() == channel {
            earlier + 1
        } else {
            earlier
        }
    }
}

/// The fixed population of agents.
pub struct AgentTable {
    agents: Vec<Agent>,
}

impl View for AgentTable {
    type V = Seq<Agent>;

    closed spec fn view(&self) -> Seq<Agent> {
        self.agents@
    }
}

impl AgentTable {
    /// Makes a table of the given agents, in their order.
    pub fn from_agents(agents: Vec<Agent>) -> (table: AgentTable)
        ensures
            table@ == agents@,
    {
        AgentTable { agents }
    }

    /// Makes a table of `count` agents that set out from the home cell in
    /// random directions, `radius` cells from home, on a grid of `width` by
    /// `height` cells.
    pub fn populate(
        count: usize,
        rng: &mut rand::rngs::ThreadRng,
        home_x: usize,
        home_y: usize,
        radius: u32,
        width: usize,
        height: usize,
    ) -> (table: AgentTable)
        requires
            home_x < width,
            home_y < height,
        ensures
            table@.len() == count,
            all_on(table@, width as int, height as int),
            forall|i: int|
                0 <= i < count ==> #[trigger] table@[i] == Agent::spawned(
                    table@[i].heading,
                    home_x as int,
                    home_y as int,
                    radius as int,
                    width as int,
                    height as int,
                ),
    {
        let mut agents: Vec<Agent> = Vec::with_capacity(count);
        let mut i: usize = 0;
        while i < count
            invariant
                home_x < width,
                home_y < height,
                i <= count,
                agents.len() == i,
                all_on(agents@, width as int, height as int),
                forall|k: int|
                    0 <= k < i ==> #[trigger] agents@[k] == Agent::spawned(
                        agents@[k].heading,
                        home_x as int,
                        home_y as int,
                        radius as int,
                        width as int,
                        height as int,
                    ),
            decreases count - i,
        {
            let agent = Agent::new(rng, home_x, home_y, radius, width, height);
            agents.push(agent);
            i = i + 1;
        }
        AgentTable { agents }
    }

    /// Number of agents.
    pub fn len(&self) -> (n: usize)
        ensures
            n == self@.len(),
    {
        self.agents.len()
    }

    /// The agent at position `i` of the table.
    pub fn get(&self, i: usize) -> (agent: Agent)
        requires
            i < self@.len(),
        ensures
            agent == self@[i as int],
    {
        self.agents[i]
    }

    /// All agents, in the order of the table.
    pub fn as_slice(&self) -> (agents: &[Agent])
        ensures
            agents@ == self@,
    {
        self.agents.as_slice()
    }
}

/// Runs the agent-update stage on the destination buffer of a frame, after
/// the decay stage has filled it. Every agent senses the buffer as the decay
/// stage left it, steers, moves and changes state; then every agent deposits
/// at its new cell. `jitter` holds one perturbation for each agent.
pub fn agent_update_stage(
    table: &mut AgentTable,
    destination: &mut Grid,
    world: &WorldMap,
    config: &AgentConfig,
    jitter: &[Turn],
)
    requires
        old(destination)@.wf(),
        world@.wf(),
        world@.width == old(destination)@.width,
        world@.height == old(destination)@.height,
        all_on(old(table)@, old(destination)@.width as int, old(destination)@.height as int),
        jitter@.len() == old(table)@.len(),
    ensures
        final(table)@ == advanced_all(old(table)@, old(destination)@, world@, *config, jitter@),
        final(destination)@ == with_deposits(
            old(destination)@,
            final(table)@,
            config.deposit as int,
        ),
        final(destination)@.wf(),
        final(destination)@.same_shape(old(destination)@),
        all_on(final(table)@, old(destination)@.width as int, old(destination)@.height as int),
{
    let ghost before = table@;
    let ghost field = destination@;
    let count: usize = table.agents.len();
    let mut i: usize = 0;
    while i < count
        invariant
            destination@ == field,
            field.wf(),
            world@.wf(),
            world@.width == field.width,
            world@.height == field.height,
            all_on(before, field.width as int, field.height as int),
            jitter@.len() == count,
            before.len() == count,
            table@.len() == count,
            i <= count,
            forall|k: int|
                0 <= k < i ==> #[trigger] table@[k] == before[k].advanced(
                    field,
                    world@,
                    *config,
                    jitter@[k],
                ),
            forall|k: int| i <= k < count ==> #[trigger] table@[k] == before[k],
            forall|k: int|
                0 <= k < i ==> (#[trigger] table@[k]).on(field.width as int, field.height as int),
        decreases count - i,
    {
        let agent = table.agents[i];
        assert(agent == before[i as int]);
        let next = agent.advance(destination, world, config, jitter[i]);
        table.agents[i] = next;
        i = i + 1;
    }
    assert(table@ =~= advanced_all(before, field, world@, *config, jitter@));
    let ghost after = table@;
    let mut j: usize = 0;
    while j < count
        invariant
            field.wf(),
            table@ == after,
            after.len() == count,
            all_on(after, field.width as int, field.height as int),
            j <= count,
            destination@.wf(),
            destination@.same_shape(field),
            destination@ == with_deposits(field, after.take(j as int), config.deposit as int),
        decreases count - j,
    {
        let agent = table.agents[j];
        assert(agent.on(field.width as int, field.height as int));
        proof {
            assert(after.take(j + 1).drop_last() =~= after.take(j as int));
            lemma_deposited(
                destination@,
                agent.state.laid(),
                agent.x as int,
                agent.y as int,
                config.deposit as int,
            );
        }
        destination.deposit(agent.state.deposit_channel(), agent.x, agent.y, config.deposit);
        j = j + 1;
    }
    assert(after.take(count as int) =~= after);
}

/// Runs the agent-update stage with perturbations drawn from `rng`.
/// Whatever is drawn, the outcome is that of `agent_update_stage` for some
/// sequence of one perturbation per agent.
pub fn agent_update_stage_at_random(
    table: &mut AgentTable,
    destination: &mut Grid,
    world: &WorldMap,
    config: &AgentConfig,
    rng: &mut rand::rngs::ThreadRng,
)
    requires
        old(destination)@.wf(),
        world@.wf(),
        world@.width == old(destination)@.width,
        world@.height == old(destination)@.height,
        all_on(old(table)@, old(destination)@.width as int, old(destination)@.height as int),
    ensures
        exists|jitter: Seq<Turn>|
            jitter.len() == old(table)@.len() && #[trigger] advanced_all(
                old(table)@,
                old(destination)@,
                world@,
                *config,
                jitter,
            ) == final(table)@,
        final(destination)@ == with_deposits(
            old(destination)@,
            final(table)@,
            config.deposit as int,
        ),
        final(destination)@.wf(),
        final(destination)@.same_shape(old(destination)@),
        all_on(final(table)@, old(destination)@.width as int, old(destination)@.height as int),
{
    let jitter = draw_jitter(rng, table.len());
    agent_update_stage(table, destination, world, config, jitter.as_slice());
}

/// What a frame's deposits come to: the grid keeps its shape, and every
/// concentration rises by the deposit times the number of agents that stand
/// on the cell and lay the channel, stopping at the largest concentration.
pub proof fn lemma_deposits_count(grid: GridModel, agents: Seq<Agent>, amount: int)
    requires
        grid.wf(),
        all_on(agents, grid.width as int, grid.height as int),
        amount >= 0,
    ensures
        with_deposits(grid, agents, amount).wf(),
        with_deposits(grid, agents, amount).same_shape(grid),
        forall|channel: Channel, x: int, y: int|
            grid.on_grid(x, y) ==> #[trigger] with_deposits(grid, agents, amount).at(channel, x, y)
                == saturating_sum(
                grid.at(channel, x, y) as int,
                amount * visitors(agents, channel, x, y),
                grid.max as int,
            ),
    decreases agents.len(),
{
    if agents.len() == 0 {
        assert forall|channel: Channel, x: int, y: int| grid.on_grid(x, y) implies #[trigger] grid.at(
            channel,
            x,
            y,
        ) == saturating_sum(
            grid.at(channel, x, y) as int,
            amount * visitors(agents, channel, x, y),
            grid.max as int,
        ) by {
            assert(amount * 0 == 0) by (nonlinear_arith);
            lemma_cell_index(grid.width as int, grid.height as int, x, y);
        }
    } else {
        let last = agents.last();
        let earlier = agents.drop_last();
        let before = with_deposits(grid, earlier, amount);
        let after = with_deposits(grid, agents, amount);
        assert(last.on(grid.width as int, grid.height as int));
        lemma_deposits_count(grid, earlier, amount);
        lemma_deposited(before, last.state.laid(), last.x as int, last.y as int, amount);
        assert forall|channel: Channel, x: int, y: int| grid.on_grid(x, y) implies #[trigger] after.at(
            channel,
            x,
            y,
        ) == saturating_sum(
            grid.at(channel, x, y) as int,
            amount * visitors(agents, channel, x, y),
            grid.max as int,
        ) by {
            let count = visitors(earlier, channel, x, y) as int;
            assert(amount * (count + 1) == amount * count + amount) by (nonlinear_arith);
            assert(amount * count >= 0) by (nonlinear_arith)
                requires
                    amount >= 0,
                    count >= 0,
            ;
            assert(before.at(channel, x, y) == saturating_sum(
                grid.at(channel, x, y) as int,
                amount * count,
                grid.max as int,
            ));
            if last.x == x && last.y == y && last.state.laid() == channel {
                assert(after.at(channel, x, y) == saturating_sum(
                    before.at(channel, x, y) as int,
                    amount,
                    before.max as int,
                ));
            } else {
                assert(after.at(channel, x, y) == before.at(channel, x, y));
            }
        }
    }
}

/// Taking one agent out of a sequence lowers the number of visitors of its
/// cell and channel by one and no other number.
proof fn lemma_visitors_remove(agents: Seq<Agent>, i: int, channel: Channel, x: int, y: int)
    requires
        0 <= i < agents.len(),
    ensures
        visitors(agents, channel, x, y) == visitors(agents.remove(i), channel, x, y) + (if agents[i].x
            == x && agents[i].y == y && agents[i].state.laid() == channel {
            1nat
        } else {
            0nat
        }),
    decreases agents.len(),
{
    if i == agents.len() - 1 {
        assert(agents.remove(i) =~= agents.drop_last());
    } else {
        lemma_visitors_remove(agents.drop_last(), i, channel, x, y);
        assert(agents.remove(i).drop_last() =~= agents.drop_last().remove(i));
        assert(agents.remove(i).last() == agents.last());
    }
}

/// The number of visitors of a cell does not depend on the order of the agents.
pub proof fn lemma_visitors_unordered(
    agents: Seq<Agent>,
    reordered: Seq<Agent>,
    channel: Channel,
    x: int,
    y: int,
)
    requires
        agents.to_multiset() == reordered.to_multiset(),
    ensures
        visitors(agents, channel, x, y) == visitors(reordered, channel, x, y),
    decreases agents.len(),
{
    broadcast use vstd::seq_lib::group_to_multiset_ensures;
    broadcast use vstd::multiset::group_multiset_axioms;

    if agents.len() == 0 {
        assert(agents.to_multiset().len() == agents.len());
        assert(reordered.to_multiset().len() == reordered.len());
    } else {
        let last = agents.last();
        let earlier = agents.drop_last();
        assert(agents =~= earlier.push(last));
        assert(agents.to_multiset() == earlier.to_multiset().insert(last));
        assert(reordered.to_multiset().count(last) > 0);
        assert(reordered.contains(last));
        let k = choose|k: int| 0 <= k < reordered.len() && reordered[k] == last;
        assert(reordered.remove(k).to_multiset() =~= earlier.to_multiset());
        lemma_visitors_unordered(earlier, reordered.remove(k), channel, x, y);
        lemma_visitors_remove(reordered, k, channel, x, y);
    }
}

/// The order in which the agents of a frame deposit does not matter: any
/// two orderings of the same agents leave the same grid.
pub proof fn lemma_deposit_order_is_irrelevant(
    grid: GridModel,
    agents: Seq<Agent>,
    reordered: Seq<Agent>,
    amount: int,
)
    requires
        grid.wf(),
        all_on(agents, grid.width as int, grid.height as int),
        all_on(reordered, grid.width as int, grid.height as int),
        agents.to_multiset() == reordered.to_multiset(),
        amount >= 0,
    ensures
        with_deposits(grid, agents, amount) == with_deposits(grid, reordered, amount),
{
    let one = with_deposits(grid, agents, amount);
    let other = with_deposits(grid, reordered, amount);
    lemma_deposits_count(grid, agents, amount);
    lemma_deposits_count(grid, reordered, amount);
    assert forall|channel: Channel, x: int, y: int| one.on_grid(x, y) implies #[trigger] one.at(
        channel,
        x,
        y,
    ) == other.at(channel, x, y) by {
        lemma_visitors_unordered(agents, reordered, channel, x, y);
    }
    lemma_grids_agree(one, other);
}

} // verus!
