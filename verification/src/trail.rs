//! The double-buffered trail field and its rotation protocol.

use vstd::prelude::*;

verus! {

/// Names one of the two grid instances of a trail field.
#[derive(Clone, Copy, Debug, PartialEq, Eq, Structural)]
pub enum BufferId {
    A,
    B,
}

impl BufferId {
    /// The other instance.
    pub open spec fn flipped(self) -> BufferId {
        match self {
            BufferId::A => BufferId::B,
            BufferId::B => BufferId::A,
        }
    }

    /// Returns the other instance.
    pub fn other(self) -> (r: BufferId)
        ensures
            r == self.flipped(),
            r != self,
    {
        match self {
            BufferId::A => BufferId::B,
            BufferId::B => BufferId::A,
        }
    }
}

/// One of the concentrations that every cell holds.
#[derive(Clone, Copy, Debug, PartialEq, Eq, Structural)]
pub enum Channel {
    /// Laid by outbound agents; leads back to the home zone.
    HomeTrail,
    /// Laid by returning agents; leads to food.
    FoodTrail,
}

/// Why a grid cannot be built.
#[derive(Clone, Copy, Debug, PartialEq, Eq, Structural)]
pub enum GridError {
    /// The width or the height is zero.
    Empty,
    /// The number of cells does not fit the machine's index type.
    TooLarge,
}

/// The sum of a concentration and a deposit, held at `max`.
pub open spec fn saturating_sum(value: int, amount: int, max: int) -> int {
    if value + amount > max {
        max
    } else {
        value + amount
    }
}

/// A grid of concentrations as mathematical values. Each channel is a plane
/// stored row by row.
pub struct GridModel {
    /// Number of columns.
    pub width: nat,
    /// Number of rows.
    pub height: nat,
    /// Largest concentration a cell can hold.
    pub max: nat,
    /// The home-trail plane.
    pub home: Seq<u32>,
    /// The food-trail plane.
    pub food: Seq<u32>,
}

impl GridModel {
    /// The grid has cells, each plane has one value per cell, and no value exceeds `max`.
    pub open spec fn wf(self) -> bool {
        &&& self.width > 0
        &&& self.height > 0
        &&& self.width * self.height <= usize::MAX
        &&& self.max <= u32::MAX
        &&& self.home.len() == self.width * self.height
        &&& self.food.len() == self.width * self.height
        &&& forall|i: int| 0 <= i < self.home.len() ==> #[trigger] self.home[i] <= self.max
        &&& forall|i: int| 0 <= i < self.food.len() ==> #[trigger] self.food[i] <= self.max
    }

    /// Why no grid of `width` by `height` cells can be built, if none can.
    pub open spec fn size_error(width: usize, height: usize) -> Option<GridError> {
        if width == 0 || height == 0 {
            Some(GridError::Empty)
        } else if width * height > usize::MAX {
            Some(GridError::TooLarge)
        } else {
            None
        }
    }

    /// A grid of the given size whose concentrations are all zero.
    pub open spec fn blank(width: nat, height: nat, max: nat) -> GridModel {
        GridModel {
            width,
            height,
            max,
            home: Seq::new(width * height, |i: int| 0u32),
            food: Seq::new(width * height, |i: int| 0u32),
        }
    }

    /// Whether column `x` of row `y` is a cell of the grid.
    pub open spec fn on_grid(self, x: int, y: int) -> bool {
        0 <= x < self.width && 0 <= y < self.height
    }

    /// Position of column `x` of row `y` within a plane.
    pub open spec fn cell_index(self, x: int, y: int) -> int {
        y * self.width + x
    }

    /// The plane of one channel.
    pub open spec fn plane(self, channel: Channel) -> Seq<u32> {
        match channel {
            Channel::HomeTrail => self.home,
            Channel::FoodTrail => self.food,
        }
    }

    /// The concentration of `channel` at column `x` of row `y`.
    pub open spec fn at(self, channel: Channel, x: int, y: int) -> u32 {
        self.plane(channel)[self.cell_index(x, y)]
    }

    /// This grid with the plane of `channel` replaced.
    pub open spec fn with_plane(self, channel: Channel, plane: Seq<u32>) -> GridModel {
        match channel {
            Channel::HomeTrail => GridModel { home: plane, ..self },
            Channel::FoodTrail => GridModel { food: plane, ..self },
        }
    }

    /// This grid with one concentration replaced by `value`, held at `max`.
    pub open spec fn with_value(self, channel: Channel, x: int, y: int, value: int) -> GridModel {
        let stored = if value > self.max {
            self.max as u32
        } else {
            value as u32
        };
        self.with_plane(channel, self.plane(channel).update(self.cell_index(x, y), stored))
    }

    /// This grid after `amount` is added to one concentration, held at `max`.
    pub open spec fn deposited(self, channel: Channel, x: int, y: int, amount: int) -> GridModel {
        self.with_value(channel, x, y, self.at(channel, x, y) + amount)
    }

    /// Whether the two grids have the same size and the same largest concentration.
    pub open spec fn same_shape(self, other: GridModel) -> bool {
        self.width == other.width && self.height == other.height && self.max == other.max
    }
}

/// Every cell of a grid has its own position within a plane.
pub proof fn lemma_cell_index(width: int, height: int, x: int, y: int)
    requires
        0 <= x < width,
        0 <= y < height,
    ensures
        0 <= y * width + x < width * height,
        (y * width + x) % width == x,
        (y * width + x) / width == y,
{
    assert(y * width + x < width * height) by (nonlinear_arith)
        requires
            0 <= x < width,
            0 <= y < height,
    ;
    assert(0 <= y * width) by (nonlinear_arith)
        requires
            0 <= y,
            0 < width,
    ;
    assert(width * y == y * width) by (nonlinear_arith);
    vstd::arithmetic::div_mod::lemma_fundamental_div_mod_converse(y * width + x, width, y, x);
}

/// Every position within a plane is the position of one cell of the grid.
pub proof fn lemma_index_cell(width: int, height: int, i: int)
    requires
        width > 0,
        0 <= i < width * height,
    ensures
        0 <= i % width < width,
        0 <= i / width < height,
        (i / width) * width + i % width == i,
{
    let x = i % width;
    let y = i / width;
    vstd::arithmetic::div_mod::lemma_fundamental_div_mod(i, width);
    vstd::arithmetic::div_mod::lemma_mod_bound(i, width);
    vstd::arithmetic::div_mod::lemma_div_pos_is_pos(i, width);
    assert(width * y == y * width) by (nonlinear_arith);
    assert(y < height) by (nonlinear_arith)
        requires
            y * width + x == i,
            i < width * height,
            0 <= x,
            width > 0,
    ;
}

/// One instance of the trail field: two planes of bounded concentrations.
pub struct Grid {
    width: usize,
    height: usize,
    max: u32,
    home: Vec<u32>,
    food: Vec<u32>,
}

impl View for Grid {
    type V = GridModel;

    closed spec fn view(&self) -> GridModel {
        GridModel {
            width: self.width as nat,
            height: self.height as nat,
            max: self.max as nat,
            home: self.home@,
            food: self.food@,
        }
    }
}

impl Grid {
    /// Builds a grid of `width` by `height` cells whose concentrations are all
    /// zero and can rise to `max`.
    pub fn new(width: usize, height: usize, max: u32) -> (built: Result<Grid, GridError>)
        ensures
            match built {
                Ok(grid) => {
                    &&& GridModel::size_error(width, height) is None
                    &&& grid@ == GridModel::blank(width as nat, height as nat, max as nat)
                    &&& grid@.wf()
                },
                Err(error) => GridModel::size_error(width, height) == Some(error),
            },
    {
        if width == 0 || height == 0 {
            return Err(GridError::Empty);
        }
        match width.checked_mul(height) {
            None => Err(GridError::TooLarge),
            Some(cells) => {
                let home: Vec<u32> = vec![0u32; cells];
                let food: Vec<u32> = vec![0u32; cells];
                let grid = Grid { width, height, max, home, food };
                assert(grid@.home =~= GridModel::blank(
                    width as nat,
                    height as nat,
                    max as nat,
                ).home);
                assert(grid@.food =~= GridModel::blank(
                    width as nat,
                    height as nat,
                    max as nat,
                ).food);
                Ok(grid)
            },
        }
    }

    /// Number of columns.
    pub fn width(&self) -> (w: usize)
        ensures
            w == self@.width,
    {
        self.width
    }

    /// Number of rows.
    pub fn height(&self) -> (h: usize)
        ensures
            h == self@.height,
    {
        self.height
    }

    /// Largest concentration a cell can hold.
    pub fn max(&self) -> (m: u32)
        ensures
            m == self@.max,
    {
        self.max
    }

    /// Reads the concentration of `channel` at column `x` of row `y`.
    pub fn get(&self, channel: Channel, x: usize, y: usize) -> (value: u32)
        requires
            self@.wf(),
            self@.on_grid(x as int, y as int),
        ensures
            value == self@.at(channel, x as int, y as int),
            value <= self@.max,
    {
        proof {
            lemma_cell_index(self.width as int, self.height as int, x as int, y as int);
        }
        let i: usize = y * self.width + x;
        match channel {
            Channel::HomeTrail => self.home[i],
            Channel::FoodTrail => self.food[i],
        }
    }

    /// Replaces the concentration of `channel` at column `x` of row `y` by
    /// `value`, or by the largest concentration if `value` exceeds it.
    pub fn set(&mut self, channel: Channel, x: usize, y: usize, value: u32)
        requires
            old(self)@.wf(),
            old(self)@.on_grid(x as int, y as int),
        ensures
            final(self)@ == old(self)@.with_value(channel, x as int, y as int, value as int),
            final(self)@.wf(),
    {
        proof {
            lemma_cell_index(self.width as int, self.height as int, x as int, y as int);
        }
        let i: usize = y * self.width + x;
        let stored: u32 = if value > self.max {
            self.max
        } else {
            value
        };
        match channel {
            Channel::HomeTrail => {
                self.home[i] = stored;
            },
            Channel::FoodTrail => {
                self.food[i] = stored;
            },
        }
    }

    /// Adds `amount` to the concentration of `channel` at column `x` of row
    /// `y`. The sum stops at the largest concentration.
    pub fn deposit(&mut self, channel: Channel, x: usize, y: usize, amount: u32)
        requires
            old(self)@.wf(),
            old(self)@.on_grid(x as int, y as int),
        ensures
            final(self)@ == old(self)@.deposited(channel, x as int, y as int, amount as int),
            final(self)@.wf(),
    {
        let current: u32 = self.get(channel, x, y);
        let room: u32 = self.max - current;
        let next: u32 = if amount > room {
            self.max
        } else {
            current + amount
        };
        self.set(channel, x, y, next);
    }
}

/// Writing a concentration changes that one value and keeps the grid well formed.
pub proof fn lemma_with_value(grid: GridModel, channel: Channel, x: int, y: int, value: int)
    requires
        grid.wf(),
        grid.on_grid(x, y),
        value >= 0,
    ensures
        grid.with_value(channel, x, y, value).wf(),
        grid.with_value(channel, x, y, value).same_shape(grid),
        grid.with_value(channel, x, y, value).at(channel, x, y) == (if value > grid.max {
            grid.max as int
        } else {
            value
        }),
        forall|c: Channel, u: int, v: int|
            grid.on_grid(u, v) && (c != channel || u != x || v != y) ==> #[trigger] grid.with_value(
                channel,
                x,
                y,
                value,
            ).at(c, u, v) == grid.at(c, u, v),
{
    lemma_cell_index(grid.width as int, grid.height as int, x, y);
    assert forall|c: Channel, u: int, v: int|
        grid.on_grid(u, v) && (c != channel || u != x || v != y) implies #[trigger] grid.with_value(
        channel,
        x,
        y,
        value,
    ).at(c, u, v) == grid.at(c, u, v) by {
        lemma_cell_index(grid.width as int, grid.height as int, u, v);
    }
}

/// Depositing raises one concentration by the amount, stopping at the largest
/// concentration, and leaves every other value as it was.
pub proof fn lemma_deposited(grid: GridModel, channel: Channel, x: int, y: int, amount: int)
    requires
        grid.wf(),
        grid.on_grid(x, y),
        amount >= 0,
    ensures
        grid.deposited(channel, x, y, amount).wf(),
        grid.deposited(channel, x, y, amount).same_shape(grid),
        grid.deposited(channel, x, y, amount).at(channel, x, y) == saturating_sum(
            grid.at(channel, x, y) as int,
            amount,
            grid.max as int,
        ),
        forall|c: Channel, u: int, v: int|
            grid.on_grid(u, v) && (c != channel || u != x || v != y) ==> #[trigger] grid.deposited(
                channel,
                x,
                y,
                amount,
            ).at(c, u, v) == grid.at(c, u, v),
{
    lemma_cell_index(grid.width as int, grid.height as int, x, y);
    lemma_with_value(grid, channel, x, y, grid.at(channel, x, y) + amount);
}

/// Two well-formed grids of one shape that agree at every cell are the same grid.
pub proof fn lemma_grids_agree(one: GridModel, other: GridModel)
    requires
        one.wf(),
        other.wf(),
        one.same_shape(other),
        forall|channel: Channel, x: int, y: int|
            one.on_grid(x, y) ==> #[trigger] one.at(channel, x, y) == other.at(channel, x, y),
    ensures
        one == other,
{
    let width = one.width as int;
    assert forall|i: int| 0 <= i < one.home.len() implies one.home[i] == other.home[i]
        && one.food[i] == other.food[i] by {
        let x = i % width;
        let y = i / width;
        lemma_index_cell(width, one.height as int, i);
        assert(one.at(Channel::HomeTrail, x, y) == other.at(Channel::HomeTrail, x, y));
        assert(one.at(Channel::FoodTrail, x, y) == other.at(Channel::FoodTrail, x, y));
    }
    assert(one.home =~= other.home);
    assert(one.food =~= other.food);
}

/// Deposits commute: two deposits give the same grid in either order,
/// whether or not they fall on the same cell and channel.
pub proof fn lemma_deposits_commute(
    grid: GridModel,
    first_channel: Channel,
    first_x: int,
    first_y: int,
    first_amount: int,
    second_channel: Channel,
    second_x: int,
    second_y: int,
    second_amount: int,
)
    requires
        grid.wf(),
        grid.on_grid(first_x, first_y),
        grid.on_grid(second_x, second_y),
        first_amount >= 0,
        second_amount >= 0,
    ensures
        grid.deposited(first_channel, first_x, first_y, first_amount).deposited(
            second_channel,
            second_x,
            second_y,
            second_amount,
        ) == grid.deposited(second_channel, second_x, second_y, second_amount).deposited(
            first_channel,
            first_x,
            first_y,
            first_amount,
        ),
{
    let one = grid.deposited(first_channel, first_x, first_y, first_amount);
    let two = grid.deposited(second_channel, second_x, second_y, second_amount);
    let one_two = one.deposited(second_channel, second_x, second_y, second_amount);
    let two_one = two.deposited(first_channel, first_x, first_y, first_amount);
    lemma_cell_index(grid.width as int, grid.height as int, first_x, first_y);
    lemma_cell_index(grid.width as int, grid.height as int, second_x, second_y);
    assert(one_two.home =~= two_one.home);
    assert(one_two.food =~= two_one.food);
}

/// Deposits associate: two deposits into one cell and channel equal a single
/// deposit of their sum.
pub proof fn lemma_deposits_merge(
    grid: GridModel,
    channel: Channel,
    x: int,
    y: int,
    first_amount: int,
    second_amount: int,
)
    requires
        grid.wf(),
        grid.on_grid(x, y),
        first_amount >= 0,
        second_amount >= 0,
    ensures
        grid.deposited(channel, x, y, first_amount).deposited(channel, x, y, second_amount)
            == grid.deposited(channel, x, y, first_amount + second_amount),
{
    let one = grid.deposited(channel, x, y, first_amount);
    let both = one.deposited(channel, x, y, second_amount);
    let merged = grid.deposited(channel, x, y, first_amount + second_amount);
    lemma_cell_index(grid.width as int, grid.height as int, x, y);
    assert(both.home =~= merged.home);
    assert(both.food =~= merged.food);
}

/// A trail field as mathematical values: two grids and the name of the one
/// that is read during the current frame.
pub struct TrailModel {
    /// Instance `A`.
    pub a: GridModel,
    /// Instance `B`.
    pub b: GridModel,
    /// The instance that is read; the other one is written.
    pub source: BufferId,
}

impl TrailModel {
    /// Both instances are well formed and have the same shape.
    pub open spec fn wf(self) -> bool {
        self.a.wf() && self.b.wf() && self.a.same_shape(self.b)
    }

    /// The instance with the given name.
    pub open spec fn grid(self, id: BufferId) -> GridModel {
        match id {
            BufferId::A => self.a,
            BufferId::B => self.b,
        }
    }

    /// The name of the instance that is written during the current frame.
    pub open spec fn destination(self) -> BufferId {
        self.source.flipped()
    }

    /// The instance that is read during the current frame.
    pub open spec fn source_grid(self) -> GridModel {
        self.grid(self.source)
    }

    /// The instance that is written during the current frame.
    pub open spec fn destination_grid(self) -> GridModel {
        self.grid(self.destination())
    }

    /// This field with the written instance replaced.
    pub open spec fn with_destination(self, grid: GridModel) -> TrailModel {
        match self.source {
            BufferId::A => TrailModel { b: grid, ..self },
            BufferId::B => TrailModel { a: grid, ..self },
        }
    }

    /// This field with the roles of its two instances exchanged.
    pub open spec fn swapped(self) -> TrailModel {
        TrailModel { source: self.source.flipped(), ..self }
    }
}

/// The double-buffered trail field. At any moment one instance is the source
/// of the frame and the other its destination.
pub struct TrailField {
    a: Grid,
    b: Grid,
    source: BufferId,
}

impl View for TrailField {
    type V = TrailModel;

    closed spec fn view(&self) -> TrailModel {
        TrailModel { a: self.a@, b: self.b@, source: self.source }
    }
}

impl TrailField {
    /// Builds a field of two blank grids of `width` by `height` cells.
    /// Instance `A` is the first source.
    pub fn new(width: usize, height: usize, max: u32) -> (built: Result<TrailField, GridError>)
        ensures
            match built {
                Ok(field) => {
                    &&& GridModel::size_error(width, height) is None
                    &&& field@ == (TrailModel {
                        a: GridModel::blank(width as nat, height as nat, max as nat),
                        b: GridModel::blank(width as nat, height as nat, max as nat),
                        source: BufferId::A,
                    })
                    &&& field@.wf()
                },
                Err(error) => GridModel::size_error(width, height) == Some(error),
            },
    {
        let a = match Grid::new(width, height, max) {
            Ok(grid) => grid,
            Err(e) => {
                return Err(e);
            },
        };
        let b = match Grid::new(width, height, max) {
            Ok(grid) => grid,
            Err(e) => {
                return Err(e);
            },
        };
        Ok(TrailField { a, b, source: BufferId::A })
    }

    /// The name of the instance that is read during the current frame.
    pub fn source_id(&self) -> (id: BufferId)
        ensures
            id == self@.source,
    {
        self.source
    }

    /// The name of the instance that is written during the current frame.
    pub fn destination_id(&self) -> (id: BufferId)
        ensures
            id == self@.destination(),
            id != self@.source,
    {
        self.source.other()
    }

    /// The instance that is read during the current frame.
    pub fn source(&self) -> (grid: &Grid)
        ensures
            grid@ == self@.source_grid(),
    {
        match self.source {
            BufferId::A => &self.a,
            BufferId::B => &self.b,
        }
    }

    /// The instance that is written during the current frame. Whatever the
    /// caller writes through the reference ends up in that instance; the
    /// source instance and the roles stay as they are.
    pub fn destination(&mut self) -> (grid: &mut Grid)
        ensures
            grid@ == old(self)@.destination_grid(),
            final(self)@ == old(self)@.with_destination(final(grid)@),
    {
        match self.source {
            BufferId::A => &mut self.b,
            BufferId::B => &mut self.a,
        }
    }

    /// Both instances at once: the source to read and the destination to write.
    pub fn buffers(&mut self) -> (pair: (&Grid, &mut Grid))
        ensures
            pair.0@ == old(self)@.source_grid(),
            pair.1@ == old(self)@.destination_grid(),
            final(self)@ == old(self)@.with_destination(final(pair.1)@),
    {
        match self.source {
            BufferId::A => (&self.a, &mut self.b),
            BufferId::B => (&self.b, &mut self.a),
        }
    }

    /// Exchanges the roles of the two instances. No concentration is moved.
    pub fn swap(&mut self)
        ensures
            final(self)@ == old(self)@.swapped(),
    {
        self.source = self.source.other();
    }
}

/// Swapping makes the written instance the read one and keeps both grids;
/// swapping twice restores the field.
pub proof fn lemma_swap(field: TrailModel)
    ensures
        field.swapped().source_grid() == field.destination_grid(),
        field.swapped().destination_grid() == field.source_grid(),
        field.swapped().swapped() == field,
        field.wf() ==> field.swapped().wf(),
        field.source != field.destination(),
{
}

} // verus!
