//! The diffusion and decay stage: every destination cell becomes the faded
//! mean of the source cells around it.

use vstd::prelude::*;
use crate::geometry::{clamped, Boundary};
use crate::trail::{lemma_cell_index, lemma_index_cell, Channel, Grid, GridModel};

verus! {

/// Shape of the blur kernel and rate of decay.
///
/// The kernel is a square of `2 * radius + 1` cells on a side, centred on the
/// cell; cells beyond an edge are read from the edge. The mean over the square
/// is multiplied by `keep_num / keep_den` and rounded down.
#[derive(Clone, Copy, Debug, PartialEq, Eq, Structural)]
pub struct DecayConfig {
    /// Half the side of the kernel, without its centre. Zero disables diffusion.
    pub radius: u8,
    /// Numerator of the fraction of a concentration that survives a frame.
    pub keep_num: u32,
    /// Denominator of that fraction.
    pub keep_den: u32,
}

impl DecayConfig {
    /// The surviving fraction is below one, so that every positive
    /// concentration shrinks.
    pub open spec fn valid(self) -> bool {
        self.keep_num < self.keep_den
    }

    /// Number of cells on one side of the kernel.
    pub open spec fn side(self) -> int {
        2 * self.radius + 1
    }

    /// Builds a configuration, or nothing if the fraction is not below one.
    pub fn new(radius: u8, keep_num: u32, keep_den: u32) -> (config: Option<DecayConfig>)
        ensures
            config == (if keep_num < keep_den {
                Some(DecayConfig { radius, keep_num, keep_den })
            } else {
                None
            }),
            config matches Some(c) ==> c.valid(),
    {
        if keep_num < keep_den {
            Some(DecayConfig { radius, keep_num, keep_den })
        } else {
            None
        }
    }
}

/// The value of a plane at column `x` of row `y`, read from the nearest cell
/// when the coordinates lie outside the grid.
pub open spec fn sample(plane: Seq<u32>, width: int, height: int, x: int, y: int) -> int {
    plane[clamped(y, height) * width + clamped(x, width)] as int
}

/// Sum of `count` samples of row `y`, starting at column `x`.
pub open spec fn row_total(
    plane: Seq<u32>,
    width: int,
    height: int,
    x: int,
    y: int,
    count: int,
) -> int
    decreases count,
{
    if count <= 0 {
        0
    } else {
        row_total(plane, width, height, x, y, count - 1) + sample(
            plane,
            width,
            height,
            x + count - 1,
            y,
        )
    }
}

/// Sum of the samples of `rows` rows of `columns` cells each, starting at
/// column `x` of row `y`.
pub open spec fn block_total(
    plane: Seq<u32>,
    width: int,
    height: int,
    x: int,
    y: int,
    columns: int,
    rows: int,
) -> int
    decreases rows,
{
    if rows <= 0 {
        0
    } else {
        block_total(plane, width, height, x, y, columns, rows - 1) + row_total(
            plane,
            width,
            height,
            x,
            y + rows - 1,
            columns,
        )
    }
}

/// Mean, rounded down, of the kernel centred on column `x` of row `y`.
pub open spec fn neighbourhood_mean(
    plane: Seq<u32>,
    width: int,
    height: int,
    x: int,
    y: int,
    radius: int,
) -> int {
    let side = 2 * radius + 1;
    block_total(plane, width, height, x - radius, y - radius, side, side) / (side * side)
}

/// What is left of a concentration after one frame of decay.
pub open spec fn faded(value: int, config: DecayConfig) -> int {
    value * config.keep_num / (config.keep_den as int)
}

/// The concentration of a cell after one frame without deposits.
pub open spec fn next_concentration(
    plane: Seq<u32>,
    width: int,
    height: int,
    x: int,
    y: int,
    config: DecayConfig,
) -> int {
    faded(neighbourhood_mean(plane, width, height, x, y, config.radius as int), config)
}

/// A plane after one frame without deposits.
pub open spec fn decayed_plane(plane: Seq<u32>, width: int, height: int, config: DecayConfig) -> Seq<
    u32,
> {
    Seq::new(
        plane.len(),
        |i: int| next_concentration(plane, width, height, i % width, i / width, config) as u32,
    )
}

/// A grid after one frame without deposits.
pub open spec fn decayed_grid(grid: GridModel, config: DecayConfig) -> GridModel {
    GridModel {
        home: decayed_plane(grid.home, grid.width as int, grid.height as int, config),
        food: decayed_plane(grid.food, grid.width as int, grid.height as int, config),
        ..grid
    }
}

/// A plane after `frames` frames without deposits.
pub open spec fn decayed_plane_after(
    plane: Seq<u32>,
    width: int,
    height: int,
    config: DecayConfig,
    frames: nat,
) -> Seq<u32>
    decreases frames,
{
    if frames == 0 {
        plane
    } else {
        decayed_plane(
            decayed_plane_after(plane, width, height, config, (frames - 1) as nat),
            width,
            height,
            config,
        )
    }
}

/// Whether no value of the plane exceeds `bound`.
pub open spec fn bounded_by(plane: Seq<u32>, bound: int) -> bool {
    forall|i: int| 0 <= i < plane.len() ==> #[trigger] plane[i] <= bound
}

/// A sample is always the value of some cell of the plane.
proof fn lemma_sample_on_plane(plane: Seq<u32>, width: int, height: int, x: int, y: int)
    requires
        width > 0,
        height > 0,
        plane.len() == width * height,
    ensures
        0 <= clamped(y, height) * width + clamped(x, width) < plane.len(),
        sample(plane, width, height, x, y) == sample(
            plane,
            width,
            height,
            clamped(x, width),
            clamped(y, height),
        ),
{
    lemma_cell_index(width, height, clamped(x, width), clamped(y, height));
}

/// Whether no sample of the block of `rows` rows of `columns` cells that
/// starts at column `x` of row `y` exceeds `bound`.
pub open spec fn block_bounded_by(
    plane: Seq<u32>,
    width: int,
    height: int,
    x: int,
    y: int,
    columns: int,
    rows: int,
    bound: int,
) -> bool {
    forall|u: int, v: int|
        x <= u < x + columns && y <= v < y + rows ==> #[trigger] sample(plane, width, height, u, v)
            <= bound
}

/// A bound on the plane is a bound on every block of samples.
proof fn lemma_plane_bound_is_block_bound(
    plane: Seq<u32>,
    width: int,
    height: int,
    x: int,
    y: int,
    columns: int,
    rows: int,
    bound: int,
)
    requires
        width > 0,
        height > 0,
        plane.len() == width * height,
        bounded_by(plane, bound),
    ensures
        block_bounded_by(plane, width, height, x, y, columns, rows, bound),
{
    assert forall|u: int, v: int| x <= u < x + columns && y <= v < y + rows implies #[trigger] sample(
        plane,
        width,
        height,
        u,
        v,
    ) <= bound by {
        lemma_sample_on_plane(plane, width, height, u, v);
    }
}

/// A sum over part of a row lies between zero and the number of samples
/// times any bound on them.
proof fn lemma_row_total_bounds(
    plane: Seq<u32>,
    width: int,
    height: int,
    x: int,
    y: int,
    count: int,
    bound: int,
)
    requires
        block_bounded_by(plane, width, height, x, y, count, 1, bound),
        count >= 0,
    ensures
        0 <= row_total(plane, width, height, x, y, count) <= count * bound,
    decreases count,
{
    if count > 0 {
        lemma_row_total_bounds(plane, width, height, x, y, count - 1, bound);
        assert(sample(plane, width, height, x + count - 1, y) <= bound);
        assert((count - 1) * bound + bound == count * bound) by (nonlinear_arith);
    } else {
        assert(0 * bound == 0) by (nonlinear_arith);
    }
}

/// A sum over a block lies between zero and the number of samples times any
/// bound on them.
proof fn lemma_block_total_bounds(
    plane: Seq<u32>,
    width: int,
    height: int,
    x: int,
    y: int,
    columns: int,
    rows: int,
    bound: int,
)
    requires
        block_bounded_by(plane, width, height, x, y, columns, rows, bound),
        columns >= 0,
        rows >= 0,
    ensures
        0 <= block_total(plane, width, height, x, y, columns, rows) <= rows * columns * bound,
    decreases rows,
{
    if rows > 0 {
        lemma_block_total_bounds(plane, width, height, x, y, columns, rows - 1, bound);
        assert(block_bounded_by(plane, width, height, x, y + rows - 1, columns, 1, bound));
        lemma_row_total_bounds(plane, width, height, x, y + rows - 1, columns, bound);
        assert((rows - 1) * columns * bound + columns * bound == rows * columns * bound)
            by (nonlinear_arith);
    } else {
        assert(0 * columns * bound == 0) by (nonlinear_arith);
    }
}

/// Rows beyond an edge are read from the edge.
proof fn lemma_row_total_clamps_row(
    plane: Seq<u32>,
    width: int,
    height: int,
    x: int,
    y: int,
    count: int,
)
    requires
        height > 0,
    ensures
        row_total(plane, width, height, x, y, count) == row_total(
            plane,
            width,
            height,
            x,
            clamped(y, height),
            count,
        ),
    decreases count,
{
    if count > 0 {
        lemma_row_total_clamps_row(plane, width, height, x, y, count - 1);
    }
}

/// Decay never raises a concentration, lowers every positive one, and keeps
/// the order of concentrations.
pub proof fn lemma_faded(value: int, larger: int, config: DecayConfig)
    requires
        config.valid(),
        0 <= value <= larger,
    ensures
        0 <= faded(value, config) <= value,
        value > 0 ==> faded(value, config) < value,
        faded(value, config) <= faded(larger, config),
        faded(0, config) == 0,
{
    let num = config.keep_num as int;
    let den = config.keep_den as int;
    let q = faded(value, config);
    assert(0 <= value * num) by (nonlinear_arith)
        requires
            0 <= value,
            0 <= num,
    ;
    vstd::arithmetic::div_mod::lemma_fundamental_div_mod(value * num, den);
    vstd::arithmetic::div_mod::lemma_div_pos_is_pos(value * num, den);
    assert(q <= value && (value > 0 ==> q < value)) by (nonlinear_arith)
        requires
            value * num == den * q + (value * num) % den,
            0 <= (value * num) % den,
            0 <= num < den,
            0 <= value,
            0 <= q,
    ;
    assert(value * num <= larger * num) by (nonlinear_arith)
        requires
            value <= larger,
            0 <= num,
    ;
    vstd::arithmetic::div_mod::lemma_div_is_ordered(value * num, larger * num, den);
    assert(0 * num == 0) by (nonlinear_arith);
}

/// The next concentration of a cell lies between zero and the faded bound of
/// the samples under its kernel. In particular a cell whose kernel holds
/// only zeros stays at zero.
pub proof fn lemma_next_concentration_bounds(
    plane: Seq<u32>,
    width: int,
    height: int,
    x: int,
    y: int,
    config: DecayConfig,
    bound: int,
)
    requires
        config.valid(),
        bound >= 0,
        block_bounded_by(
            plane,
            width,
            height,
            x - config.radius,
            y - config.radius,
            config.side(),
            config.side(),
            bound,
        ),
    ensures
        0 <= neighbourhood_mean(plane, width, height, x, y, config.radius as int) <= bound,
        0 <= next_concentration(plane, width, height, x, y, config) <= faded(bound, config),
        faded(bound, config) <= bound,
        bound == 0 ==> next_concentration(plane, width, height, x, y, config) == 0,
{
    let radius = config.radius as int;
    let side = 2 * radius + 1;
    let total = block_total(plane, width, height, x - radius, y - radius, side, side);
    lemma_block_total_bounds(plane, width, height, x - radius, y - radius, side, side, bound);
    assert(side * side > 0) by (nonlinear_arith)
        requires
            side > 0,
    ;
    assert(side * side * bound == bound * (side * side)) by (nonlinear_arith);
    vstd::arithmetic::div_mod::lemma_div_pos_is_pos(total, side * side);
    vstd::arithmetic::div_mod::lemma_div_is_ordered(total, bound * (side * side), side * side);
    vstd::arithmetic::div_mod::lemma_div_multiples_vanish(bound, side * side);
    assert((side * side) * bound == bound * (side * side)) by (nonlinear_arith);
    lemma_faded(total / (side * side), bound, config);
    lemma_faded(bound, bound, config);
}

/// One frame without deposits brings every concentration to at most the
/// faded bound of the plane: nothing turns negative, nothing exceeds what
/// the plane held, and a plane of zeros stays a plane of zeros.
pub proof fn lemma_decay_lowers_bound(
    plane: Seq<u32>,
    width: int,
    height: int,
    config: DecayConfig,
    bound: int,
)
    requires
        width > 0,
        height > 0,
        plane.len() == width * height,
        bounded_by(plane, bound),
        0 <= bound <= u32::MAX,
        config.valid(),
    ensures
        decayed_plane(plane, width, height, config).len() == plane.len(),
        bounded_by(decayed_plane(plane, width, height, config), faded(bound, config)),
        0 <= faded(bound, config) <= bound,
        bound > 0 ==> faded(bound, config) < bound,
        forall|i: int|
            0 <= i < plane.len() ==> #[trigger] decayed_plane(plane, width, height, config)[i]
                == next_concentration(plane, width, height, i % width, i / width, config),
{
    lemma_faded(bound, bound, config);
    assert forall|i: int| 0 <= i < plane.len() implies #[trigger] decayed_plane(
        plane,
        width,
        height,
        config,
    )[i] == next_concentration(plane, width, height, i % width, i / width, config)
        && decayed_plane(plane, width, height, config)[i] <= faded(bound, config) by {
        lemma_plane_bound_is_block_bound(
            plane,
            width,
            height,
            i % width - config.radius,
            i / width - config.radius,
            config.side(),
            config.side(),
            bound,
        );
        lemma_next_concentration_bounds(plane, width, height, i % width, i / width, config, bound);
    }
}

/// Decay keeps a grid well formed and of the same shape.
pub proof fn lemma_decayed_grid(grid: GridModel, config: DecayConfig)
    requires
        grid.wf(),
        config.valid(),
    ensures
        decayed_grid(grid, config).wf(),
        decayed_grid(grid, config).same_shape(grid),
{
    lemma_decay_lowers_bound(
        grid.home,
        grid.width as int,
        grid.height as int,
        config,
        grid.max as int,
    );
    lemma_decay_lowers_bound(
        grid.food,
        grid.width as int,
        grid.height as int,
        config,
        grid.max as int,
    );
}

/// Without diffusion every cell fades on its own: its next concentration is
/// at most its present one, and smaller if the present one is positive.
pub proof fn lemma_decay_without_diffusion(
    plane: Seq<u32>,
    width: int,
    height: int,
    config: DecayConfig,
    i: int,
)
    requires
        width > 0,
        height > 0,
        plane.len() == width * height,
        config.valid(),
        config.radius == 0,
        0 <= i < plane.len(),
    ensures
        decayed_plane(plane, width, height, config)[i] == faded(plane[i] as int, config),
        decayed_plane(plane, width, height, config)[i] <= plane[i],
        plane[i] > 0 ==> decayed_plane(plane, width, height, config)[i] < plane[i],
{
    let x = i % width;
    let y = i / width;
    lemma_index_cell(width, height, i);
    assert(block_total(plane, width, height, x, y, 1, 1) == plane[i] as int) by {
        reveal_with_fuel(block_total, 2);
        reveal_with_fuel(row_total, 2);
    }
    let total = block_total(plane, width, height, x, y, 1, 1);
    assert(total == plane[i] as int);
    assert(neighbourhood_mean(plane, width, height, x, y, config.radius as int) == total / 1) by {
        assert(x - 0 == x && y - 0 == y && 2 * 0 + 1 == 1 && 1 * 1 == 1);
    }
    assert(next_concentration(plane, width, height, x, y, config) == faded(
        plane[i] as int,
        config,
    ));
    lemma_faded(plane[i] as int, plane[i] as int, config);
}

/// Repeated frames without deposits drive every concentration to zero: after
/// `frames` frames no value exceeds the first bound less `frames`, and
/// once `frames` reaches the bound the whole plane is zero.
pub proof fn lemma_decay_converges(
    plane: Seq<u32>,
    width: int,
    height: int,
    config: DecayConfig,
    bound: int,
    frames: nat,
)
    requires
        width > 0,
        height > 0,
        plane.len() == width * height,
        bounded_by(plane, bound),
        0 <= bound <= u32::MAX,
        config.valid(),
    ensures
        decayed_plane_after(plane, width, height, config, frames).len() == plane.len(),
        bounded_by(
            decayed_plane_after(plane, width, height, config, frames),
            if frames >= bound {
                0
            } else {
                bound - frames
            },
        ),
    decreases frames,
{
    if frames > 0 {
        let before = decayed_plane_after(plane, width, height, config, (frames - 1) as nat);
        let earlier: int = if frames - 1 >= bound {
            0
        } else {
            bound - (frames - 1)
        };
        lemma_decay_converges(plane, width, height, config, bound, (frames - 1) as nat);
        lemma_decay_lowers_bound(before, width, height, config, earlier);
    }
}

/// Sums the samples of row `row` under the kernel centred on column `x`.
fn row_sum(source: &Grid, channel: Channel, x: usize, row: usize, radius: u8) -> (sum: u64)
    requires
        source@.wf(),
        source@.on_grid(x as int, row as int),
    ensures
        sum == row_total(
            source@.plane(channel),
            source@.width as int,
            source@.height as int,
            x - radius,
            row as int,
            2 * radius + 1,
        ),
        sum <= (2 * radius + 1) * source@.max,
{
    let side: u32 = 2 * (radius as u32) + 1;
    let mut k: u32 = 0;
    let mut sum: u64 = 0;
    while k < side
        invariant
            source@.wf(),
            source@.on_grid(x as int, row as int),
            side == 2 * radius + 1,
            k <= side,
            sum == row_total(
                source@.plane(channel),
                source@.width as int,
                source@.height as int,
                x - radius,
                row as int,
                k as int,
            ),
            sum <= k * source@.max,
        decreases side - k,
    {
        let delta: i64 = k as i64 - radius as i64;
        let landing = Boundary::Clamp.land(x, delta, source.width());
        let value: u32 = source.get(channel, landing.0, row);
        proof {
            assert(k * source@.max + source@.max == (k + 1) * source@.max) by (nonlinear_arith);
            assert((k + 1) * source@.max <= 511 * source@.max) by (nonlinear_arith)
                requires
                    k + 1 <= 511,
            ;
        }
        sum = sum + value as u64;
        k = k + 1;
    }
    sum
}

/// Sums the samples under the kernel centred on column `x` of row `y`.
fn block_sum(source: &Grid, channel: Channel, x: usize, y: usize, radius: u8) -> (sum: u64)
    requires
        source@.wf(),
        source@.on_grid(x as int, y as int),
    ensures
        sum == block_total(
            source@.plane(channel),
            source@.width as int,
            source@.height as int,
            x - radius,
            y - radius,
            2 * radius + 1,
            2 * radius + 1,
        ),
        sum <= (2 * radius + 1) * (2 * radius + 1) * source@.max,
{
    let side: u32 = 2 * (radius as u32) + 1;
    let mut j: u32 = 0;
    let mut sum: u64 = 0;
    while j < side
        invariant
            source@.wf(),
            source@.on_grid(x as int, y as int),
            side == 2 * radius + 1,
            j <= side,
            sum == block_total(
                source@.plane(channel),
                source@.width as int,
                source@.height as int,
                x - radius,
                y - radius,
                side as int,
                j as int,
            ),
            sum <= j * side * source@.max,
        decreases side - j,
    {
        let delta: i64 = j as i64 - radius as i64;
        let landing = Boundary::Clamp.land(y, delta, source.height());
        let row: u64 = row_sum(source, channel, x, landing.0, radius);
        proof {
            lemma_row_total_clamps_row(
                source@.plane(channel),
                source@.width as int,
                source@.height as int,
                x - radius,
                y - radius + j,
                side as int,
            );
            let m = source@.max as int;
            assert(row <= side * m) by (nonlinear_arith)
                requires
                    row <= (2 * radius + 1) * m,
                    side == 2 * radius + 1,
            ;
            assert(j * side * m + side * m == (j + 1) * side * m) by (nonlinear_arith);
            assert((j + 1) * side * m <= 261121 * m) by (nonlinear_arith)
                requires
                    j + 1 <= 511,
                    side <= 511,
                    0 <= j,
                    0 <= side,
                    0 <= m,
            ;
        }
        sum = sum + row;
        j = j + 1;
    }
    sum
}

/// Computes the concentration that a cell of the destination receives from
/// the source: the faded mean of the kernel centred on the cell.
pub fn next_value(source: &Grid, channel: Channel, x: usize, y: usize, config: &DecayConfig) -> (value:
    u32)
    requires
        source@.wf(),
        source@.on_grid(x as int, y as int),
        config.valid(),
    ensures
        value == next_concentration(
            source@.plane(channel),
            source@.width as int,
            source@.height as int,
            x as int,
            y as int,
            *config,
        ),
        value <= source@.max,
{
    let side: u64 = 2 * (config.radius as u64) + 1;
    let total: u64 = block_sum(source, channel, x, y, config.radius);
    assert(0 < side * side <= 511 * 511) by (nonlinear_arith)
        requires
            1 <= side <= 511,
    ;
    let mean: u64 = total / (side * side);
    proof {
        let plane = source@.plane(channel);
        let w = source@.width as int;
        let h = source@.height as int;
        lemma_plane_bound_is_block_bound(
            plane,
            w,
            h,
            x - config.radius,
            y - config.radius,
            config.side(),
            config.side(),
            source@.max as int,
        );
        lemma_next_concentration_bounds(plane, w, h, x as int, y as int, *config, source@.max as int);
        assert(mean * config.keep_num <= u32::MAX * u32::MAX) by (nonlinear_arith)
            requires
                0 <= mean <= u32::MAX,
                0 <= config.keep_num <= u32::MAX,
        ;
    }
    let kept: u64 = mean * (config.keep_num as u64) / (config.keep_den as u64);
    kept as u32
}

/// Runs the diffusion and decay stage: fills every cell of `destination`
/// from `source`. What `destination` held before is overwritten.
pub fn diffusion_decay_stage(source: &Grid, destination: &mut Grid, config: &DecayConfig)
    requires
        source@.wf(),
        old(destination)@.wf(),
        old(destination)@.same_shape(source@),
        config.valid(),
    ensures
        final(destination)@ == decayed_grid(source@, *config),
        final(destination)@.wf(),
        final(destination)@.same_shape(source@),
{
    let width: usize = source.width();
    let height: usize = source.height();
    let ghost home = decayed_plane(source@.home, width as int, height as int, *config);
    let ghost food = decayed_plane(source@.food, width as int, height as int, *config);
    let mut y: usize = 0;
    while y < height
        invariant
            source@.wf(),
            config.valid(),
            width == source@.width,
            height == source@.height,
            y <= height,
            destination@.wf(),
            destination@.same_shape(source@),
            home == decayed_plane(source@.home, width as int, height as int, *config),
            food == decayed_plane(source@.food, width as int, height as int, *config),
            forall|i: int| 0 <= i < y * width ==> #[trigger] destination@.home[i] == home[i],
            forall|i: int| 0 <= i < y * width ==> #[trigger] destination@.food[i] == food[i],
        decreases height - y,
    {
        let mut x: usize = 0;
        while x < width
            invariant
                source@.wf(),
                config.valid(),
                width == source@.width,
                height == source@.height,
                y < height,
                x <= width,
                destination@.wf(),
                destination@.same_shape(source@),
                home == decayed_plane(source@.home, width as int, height as int, *config),
                food == decayed_plane(source@.food, width as int, height as int, *config),
                forall|i: int|
                    0 <= i < y * width + x ==> #[trigger] destination@.home[i] == home[i],
                forall|i: int|
                    0 <= i < y * width + x ==> #[trigger] destination@.food[i] == food[i],
            decreases width - x,
        {
            proof {
                lemma_cell_index(width as int, height as int, x as int, y as int);
            }
            let home_value: u32 = next_value(source, Channel::HomeTrail, x, y, config);
            let food_value: u32 = next_value(source, Channel::FoodTrail, x, y, config);
            destination.set(Channel::HomeTrail, x, y, home_value);
            destination.set(Channel::FoodTrail, x, y, food_value);
            x = x + 1;
        }
        proof {
            assert(y * width + width == (y + 1) * width) by (nonlinear_arith);
        }
        y = y + 1;
    }
    proof {
        assert(height * width == width * height) by (nonlinear_arith);
        assert(destination@.home =~= home);
        assert(destination@.food =~= food);
    }
}

} // verus!
