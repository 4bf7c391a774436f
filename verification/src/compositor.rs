//! The compositor: the picture of a trail buffer with the agents drawn over it.
//! It reads the buffer and the agent table and changes neither.

use vstd::prelude::*;
use crate::agent::Agent;
use crate::colony::{all_on, AgentTable};
use crate::trail::{lemma_cell_index, lemma_index_cell, Channel, Grid, GridModel};

verus! {

/// One pixel of the output.
#[derive(Clone, Copy, Debug, PartialEq, Eq, Structural)]
pub struct Pixel {
    pub red: u8,
    pub green: u8,
    pub blue: u8,
}

/// How agents are drawn.
#[derive(Clone, Copy, Debug, PartialEq, Eq, Structural)]
pub struct AgentStyle {
    /// Colour of an agent.
    pub colour: Pixel,
    /// Opacity of an agent, from 0 for invisible to 255 for opaque.
    pub alpha: u8,
}

/// Brightness of a concentration: its share of the largest concentration,
/// scaled to the range of a colour component and rounded down.
pub open spec fn brightness(value: int, max: int) -> int {
    if max == 0 {
        0
    } else {
        value * 255 / max
    }
}

/// A colour component `over` laid over the component `under` with opacity `alpha`.
pub open spec fn blended(under: int, over: int, alpha: int) -> int {
    (over * alpha + under * (255 - alpha)) / 255
}

/// The background at a cell: the food trail in green, the home trail in blue.
pub open spec fn background(grid: GridModel, x: int, y: int) -> Pixel {
    Pixel {
        red: 0,
        green: brightness(grid.at(Channel::FoodTrail, x, y) as int, grid.max as int) as u8,
        blue: brightness(grid.at(Channel::HomeTrail, x, y) as int, grid.max as int) as u8,
    }
}

/// Whether one of the first `count` agents stands at column `x` of row `y`.
pub open spec fn occupied(agents: Seq<Agent>, count: int, x: int, y: int) -> bool {
    exists|i: int| 0 <= i < count && (#[trigger] agents[i]).x == x && agents[i].y == y
}

/// The pixel of a cell: its background, with the agent colour laid over it if
/// an agent stands there.
pub open spec fn composed(
    grid: GridModel,
    agents: Seq<Agent>,
    style: AgentStyle,
    x: int,
    y: int,
) -> Pixel {
    let under = background(grid, x, y);
    if occupied(agents, agents.len() as int, x, y) {
        Pixel {
            red: blended(under.red as int, style.colour.red as int, style.alpha as int) as u8,
            green: blended(under.green as int, style.colour.green as int, style.alpha as int) as u8,
            blue: blended(under.blue as int, style.colour.blue as int, style.alpha as int) as u8,
        }
    } else {
        under
    }
}

/// Brightness and blending stay within the range of a colour component.
pub proof fn lemma_component_range(value: int, max: int, under: int, over: int, alpha: int)
    requires
        0 <= value <= max,
        0 <= under <= 255,
        0 <= over <= 255,
        0 <= alpha <= 255,
    ensures
        0 <= brightness(value, max) <= 255,
        0 <= blended(under, over, alpha) <= 255,
        blended(under, over, 0) == under,
        blended(under, over, 255) == over,
        brightness(0, max) == 0,
        max > 0 ==> brightness(max, max) == 255,
{
    if max > 0 {
        assert(0 <= value * 255 <= 255 * max) by (nonlinear_arith)
            requires
                0 <= value <= max,
        ;
        vstd::arithmetic::div_mod::lemma_div_pos_is_pos(value * 255, max);
        vstd::arithmetic::div_mod::lemma_div_is_ordered(value * 255, 255 * max, max);
        vstd::arithmetic::div_mod::lemma_div_multiples_vanish(255, max);
        assert(max * 255 == 255 * max) by (nonlinear_arith);
    }
    let sum = over * alpha + under * (255 - alpha);
    assert(0 <= sum <= 255 * 255) by (nonlinear_arith)
        requires
            sum == over * alpha + under * (255 - alpha),
            0 <= under <= 255,
            0 <= over <= 255,
            0 <= alpha <= 255,
    ;
    assert(over * 0 + under * (255 - 0) == under * 255) by (nonlinear_arith);
    assert(over * 255 + under * (255 - 255) == over * 255) by (nonlinear_arith);
}

/// Scales a concentration to the range of a colour component.
fn shade(value: u32, max: u32) -> (level: u8)
    requires
        value <= max,
    ensures
        level == brightness(value as int, max as int),
{
    if max == 0 {
        0
    } else {
        proof {
            lemma_component_range(value as int, max as int, 0, 0, 0);
        }
        ((value as u64) * 255 / (max as u64)) as u8
    }
}

/// Lays one colour component over another.
fn blend(under: u8, over: u8, alpha: u8) -> (level: u8)
    ensures
        level == blended(under as int, over as int, alpha as int),
{
    proof {
        lemma_component_range(0, 0, under as int, over as int, alpha as int);
        assert(0 <= over * alpha <= 255 * 255 && 0 <= under * (255 - alpha) <= 255 * 255)
            by (nonlinear_arith)
            requires
                0 <= under <= 255,
                0 <= over <= 255,
                0 <= alpha <= 255,
        ;
    }
    let sum: u32 = (over as u32) * (alpha as u32) + (under as u32) * (255 - alpha as u32);
    (sum / 255) as u8
}

/// The picture of a trail buffer and the agents: one pixel per cell, row by row.
pub open spec fn picture_of(grid: GridModel, agents: Seq<Agent>, style: AgentStyle) -> Seq<Pixel> {
    Seq::new(
        grid.width * grid.height,
        |i: int| composed(grid, agents, style, i % (grid.width as int), i / (grid.width as int)),
    )
}

/// Draws a trail buffer and the agents: one pixel per cell, row by row.
pub fn compose(grid: &Grid, agents: &AgentTable, style: &AgentStyle) -> (picture: Vec<Pixel>)
    requires
        grid@.wf(),
        all_on(agents@, grid@.width as int, grid@.height as int),
    ensures
        picture@ == picture_of(grid@, agents@, *style),
{
    let width: usize = grid.width();
    let height: usize = grid.height();
    let cells: usize = width * height;
    let population: usize = agents.len();
    let mut marked: Vec<bool> = vec![false; cells];
    let mut k: usize = 0;
    while k < population
        invariant
            grid@.wf(),
            all_on(agents@, width as int, height as int),
            width == grid@.width,
            height == grid@.height,
            cells == width * height,
            population == agents@.len(),
            k <= population,
            marked@.len() == cells,
            forall|i: int|
                0 <= i < cells ==> #[trigger] marked@[i] == occupied(
                    agents@,
                    k as int,
                    i % (width as int),
                    i / (width as int),
                ),
        decreases population - k,
    {
        let agent = agents.get(k);
        assert(agent.on(width as int, height as int));
        proof {
            lemma_cell_index(width as int, height as int, agent.x as int, agent.y as int);
        }
        let ghost before = marked@;
        marked[agent.y * width + agent.x] = true;
        assert forall|i: int| 0 <= i < cells implies #[trigger] marked@[i] == occupied(
            agents@,
            k + 1,
            i % (width as int),
            i / (width as int),
        ) by {
            let x = i % (width as int);
            let y = i / (width as int);
            lemma_index_cell(width as int, height as int, i);
            if i == agent.y * width + agent.x {
                assert(agents@[k as int].x == x && agents@[k as int].y == y);
            } else {
                assert(marked@[i] == before[i]);
                if occupied(agents@, k + 1, x, y) {
                    let j = choose|j: int|
                        0 <= j < k + 1 && (#[trigger] agents@[j]).x == x && agents@[j].y == y;
                    assert(j < k);
                }
            }
        }
        k = k + 1;
    }
    let mut picture: Vec<Pixel> = Vec::with_capacity(cells);
    let mut i: usize = 0;
    while i < cells
        invariant
            grid@.wf(),
            width == grid@.width,
            height == grid@.height,
            cells == width * height,
            population == agents@.len(),
            i <= cells,
            marked@.len() == cells,
            forall|j: int|
                0 <= j < cells ==> #[trigger] marked@[j] == occupied(
                    agents@,
                    population as int,
                    j % (width as int),
                    j / (width as int),
                ),
            picture@.len() == i,
            forall|j: int|
                0 <= j < i ==> #[trigger] picture@[j] == composed(
                    grid@,
                    agents@,
                    *style,
                    j % (width as int),
                    j / (width as int),
                ),
        decreases cells - i,
    {
        proof {
            lemma_index_cell(width as int, height as int, i as int);
        }
        let x: usize = i % width;
        let y: usize = i / width;
        let under = Pixel {
            red: 0,
            green: shade(grid.get(Channel::FoodTrail, x, y), grid.max()),
            blue: shade(grid.get(Channel::HomeTrail, x, y), grid.max()),
        };
        let pixel = if marked[i] {
            Pixel {
                red: blend(under.red, style.colour.red, style.alpha),
                green: blend(under.green, style.colour.green, style.alpha),
                blue: blend(under.blue, style.colour.blue, style.alpha),
            }
        } else {
            under
        };
        assert(under == background(grid@, x as int, y as int));
        assert(pixel == composed(grid@, agents@, *style, x as int, y as int));
        picture.push(pixel);
        i = i + 1;
    }
    assert(picture@ =~= picture_of(grid@, agents@, *style));
    picture
}

} // verus!
