use ants::agent::{record_buffer_bytes, Agent, AgentConfig, BehavioralState, RECORD_BYTES};
use ants::geometry::{Boundary, Heading, Turn};
use ants::trail::{Channel, Grid};
use ants::world::{WorldMap, Zone};

const OPEN: [u8; 4] = [0, 0, 0, 255];
const WALL: [u8; 4] = [255, 0, 0, 255];
const FOOD: [u8; 4] = [0, 255, 0, 255];
const HOME: [u8; 4] = [0, 0, 255, 255];

fn world(width: u32, height: u32, marks: &[(u32, u32, [u8; 4])]) -> WorldMap {
    let mut data = Vec::new();
    for _ in 0..width * height {
        data.extend_from_slice(&OPEN);
    }
    for (x, y, colour) in marks {
        let at = ((y * width + x) * 4) as usize;
        data[at..at + 4].copy_from_slice(colour);
    }
    WorldMap::from_rgba(width, height, &data).unwrap()
}

fn config(step: u32, boundary: Boundary) -> AgentConfig {
    AgentConfig { step, sensor_distance: 2, deposit: 1, boundary }
}

fn agent(x: usize, y: usize, heading: Heading, state: BehavioralState) -> Agent {
    Agent { x, y, heading, state }
}

#[test]
fn state_tags() {
    assert_eq!(BehavioralState::Outbound.tag(), 0);
    assert_eq!(BehavioralState::Returning.tag(), 1);
    assert_eq!(BehavioralState::from_tag(0), Some(BehavioralState::Outbound));
    assert_eq!(BehavioralState::from_tag(1), Some(BehavioralState::Returning));
    assert_eq!(BehavioralState::from_tag(2), None);
    assert_eq!(BehavioralState::from_tag(u32::MAX), None);
}

#[test]
fn record_buffer_holds_sixteen_bytes_per_agent() {
    assert_eq!(RECORD_BYTES, 16);
    assert_eq!(record_buffer_bytes(0), 0);
    assert_eq!(record_buffer_bytes(4096), 65_536);
    assert_eq!(record_buffer_bytes(u32::MAX), 68_719_476_720);
}

#[test]
fn transitions_need_the_opposite_zone() {
    let out = BehavioralState::Outbound;
    let back = BehavioralState::Returning;
    assert_eq!(out.transition(Zone::Food), back);
    assert_eq!(out.transition(Zone::Home), out);
    assert_eq!(out.transition(Zone::Open), out);
    assert_eq!(out.transition(Zone::Wall), out);
    assert_eq!(back.transition(Zone::Home), out);
    assert_eq!(back.transition(Zone::Food), back);
    assert_eq!(back.transition(Zone::Open), back);
    assert_eq!(back.transition(Zone::Wall), back);
}

#[test]
fn each_state_follows_one_channel_and_lays_the_other() {
    assert_eq!(BehavioralState::Outbound.sensed_channel(), Channel::FoodTrail);
    assert_eq!(BehavioralState::Outbound.deposit_channel(), Channel::HomeTrail);
    assert_eq!(BehavioralState::Returning.sensed_channel(), Channel::HomeTrail);
    assert_eq!(BehavioralState::Returning.deposit_channel(), Channel::FoodTrail);
}

#[test]
fn spawn_places_the_agent_at_a_distance_from_home() {
    let east = Agent::spawn(Heading::East, 10, 10, 3, 20, 20);
    assert_eq!(east, agent(13, 10, Heading::East, BehavioralState::Outbound));
    let north_west = Agent::spawn(Heading::NorthWest, 10, 10, 3, 20, 20);
    assert_eq!(north_west, agent(7, 7, Heading::NorthWest, BehavioralState::Outbound));
    let at_home = Agent::spawn(Heading::South, 4, 5, 0, 20, 20);
    assert_eq!(at_home, agent(4, 5, Heading::South, BehavioralState::Outbound));
}

#[test]
fn spawn_holds_the_agent_on_the_grid() {
    assert_eq!(
        Agent::spawn(Heading::West, 1, 1, 30, 20, 20),
        agent(0, 1, Heading::West, BehavioralState::Outbound)
    );
    assert_eq!(
        Agent::spawn(Heading::SouthEast, 1, 1, 30, 20, 20),
        agent(19, 19, Heading::SouthEast, BehavioralState::Outbound)
    );
    assert_eq!(
        Agent::spawn(Heading::NorthEast, 0, 0, u32::MAX, 1, 1),
        agent(0, 0, Heading::NorthEast, BehavioralState::Outbound)
    );
}

#[test]
fn sensing_reads_the_followed_channel_ahead() {
    let mut grid = Grid::new(10, 10, 100).unwrap();
    grid.set(Channel::FoodTrail, 7, 5, 11);
    grid.set(Channel::HomeTrail, 7, 5, 22);
    grid.set(Channel::FoodTrail, 7, 7, 33);
    let conduct = config(1, Boundary::Clamp);
    let out = agent(5, 5, Heading::East, BehavioralState::Outbound);
    let back = agent(5, 5, Heading::East, BehavioralState::Returning);
    assert_eq!(out.sense(Heading::East, &grid, &conduct), 11);
    assert_eq!(back.sense(Heading::East, &grid, &conduct), 22);
    assert_eq!(out.sense(Heading::SouthEast, &grid, &conduct), 33);
    assert_eq!(out.sense(Heading::NorthEast, &grid, &conduct), 0);
}

#[test]
fn sensing_beyond_an_edge_follows_the_boundary_policy() {
    let mut grid = Grid::new(4, 4, 100).unwrap();
    grid.set(Channel::FoodTrail, 3, 0, 5);
    grid.set(Channel::FoodTrail, 0, 0, 6);
    grid.set(Channel::FoodTrail, 2, 0, 7);
    let at_edge = agent(3, 0, Heading::East, BehavioralState::Outbound);
    assert_eq!(at_edge.sense(Heading::East, &grid, &config(1, Boundary::Clamp)), 5);
    assert_eq!(at_edge.sense(Heading::East, &grid, &config(1, Boundary::Wrap)), 0);
    let wrap_one = AgentConfig { sensor_distance: 1, ..config(1, Boundary::Wrap) };
    assert_eq!(at_edge.sense(Heading::East, &grid, &wrap_one), 6);
    let reflect_one = AgentConfig { sensor_distance: 1, ..config(1, Boundary::Reflect) };
    assert_eq!(at_edge.sense(Heading::East, &grid, &reflect_one), 7);
}

#[test]
fn without_a_signal_the_agent_goes_where_the_perturbation_sends_it() {
    let grid = Grid::new(10, 10, 100).unwrap();
    let map = world(10, 10, &[]);
    let start = agent(5, 5, Heading::East, BehavioralState::Outbound);
    let conduct = config(1, Boundary::Clamp);
    assert_eq!(
        start.advance(&grid, &map, &conduct, Turn::Straight),
        agent(6, 5, Heading::East, BehavioralState::Outbound)
    );
    assert_eq!(
        start.advance(&grid, &map, &conduct, Turn::Left),
        agent(6, 4, Heading::NorthEast, BehavioralState::Outbound)
    );
    assert_eq!(
        start.advance(&grid, &map, &conduct, Turn::Right),
        agent(6, 6, Heading::SouthEast, BehavioralState::Outbound)
    );
}

#[test]
fn the_agent_steers_towards_the_strongest_reading() {
    let map = world(10, 10, &[]);
    let start = agent(5, 5, Heading::East, BehavioralState::Outbound);
    let conduct = config(1, Boundary::Clamp);

    let mut right = Grid::new(10, 10, 100).unwrap();
    right.set(Channel::FoodTrail, 7, 7, 9);
    assert_eq!(
        start.advance(&right, &map, &conduct, Turn::Straight),
        agent(6, 6, Heading::SouthEast, BehavioralState::Outbound)
    );
    assert_eq!(
        start.advance(&right, &map, &conduct, Turn::Left),
        agent(6, 5, Heading::East, BehavioralState::Outbound)
    );

    let mut left = Grid::new(10, 10, 100).unwrap();
    left.set(Channel::FoodTrail, 7, 3, 9);
    left.set(Channel::FoodTrail, 7, 7, 8);
    left.set(Channel::FoodTrail, 7, 5, 8);
    assert_eq!(
        start.advance(&left, &map, &conduct, Turn::Straight),
        agent(6, 4, Heading::NorthEast, BehavioralState::Outbound)
    );
}

#[test]
fn ties_go_straight_ahead_and_then_left() {
    let map = world(10, 10, &[]);
    let start = agent(5, 5, Heading::East, BehavioralState::Outbound);
    let conduct = config(1, Boundary::Clamp);

    let mut level = Grid::new(10, 10, 100).unwrap();
    level.set(Channel::FoodTrail, 7, 3, 9);
    level.set(Channel::FoodTrail, 7, 5, 9);
    level.set(Channel::FoodTrail, 7, 7, 9);
    assert_eq!(
        start.advance(&level, &map, &conduct, Turn::Straight),
        agent(6, 5, Heading::East, BehavioralState::Outbound)
    );

    let mut sides = Grid::new(10, 10, 100).unwrap();
    sides.set(Channel::FoodTrail, 7, 3, 9);
    sides.set(Channel::FoodTrail, 7, 7, 9);
    assert_eq!(
        start.advance(&sides, &map, &conduct, Turn::Straight),
        agent(6, 4, Heading::NorthEast, BehavioralState::Outbound)
    );
}

#[test]
fn the_laid_channel_does_not_steer() {
    let map = world(10, 10, &[]);
    let conduct = config(1, Boundary::Clamp);
    let mut grid = Grid::new(10, 10, 100).unwrap();
    grid.set(Channel::HomeTrail, 7, 7, 90);
    let out = agent(5, 5, Heading::East, BehavioralState::Outbound);
    assert_eq!(
        out.advance(&grid, &map, &conduct, Turn::Straight),
        agent(6, 5, Heading::East, BehavioralState::Outbound)
    );
    let back = agent(5, 5, Heading::East, BehavioralState::Returning);
    assert_eq!(
        back.advance(&grid, &map, &conduct, Turn::Straight),
        agent(6, 6, Heading::SouthEast, BehavioralState::Returning)
    );
}

#[test]
fn clamping_keeps_the_agent_within_the_grid() {
    let grid = Grid::new(4, 4, 100).unwrap();
    let map = world(4, 4, &[]);
    let corner = agent(3, 3, Heading::SouthEast, BehavioralState::Outbound);
    assert_eq!(
        corner.advance(&grid, &map, &config(5, Boundary::Clamp), Turn::Straight),
        agent(3, 3, Heading::SouthEast, BehavioralState::Outbound)
    );
    let origin = agent(0, 0, Heading::NorthWest, BehavioralState::Outbound);
    assert_eq!(
        origin.advance(&grid, &map, &config(u32::MAX, Boundary::Clamp), Turn::Straight),
        agent(0, 0, Heading::NorthWest, BehavioralState::Outbound)
    );
    let edge = agent(2, 1, Heading::East, BehavioralState::Outbound);
    assert_eq!(
        edge.advance(&grid, &map, &config(7, Boundary::Clamp), Turn::Straight),
        agent(3, 1, Heading::East, BehavioralState::Outbound)
    );
    for heading_index in 0..8 {
        for step in [0u32, 1, 2, 3, 4, 5, 100] {
            for boundary in [Boundary::Clamp, Boundary::Wrap, Boundary::Reflect] {
                for (x, y) in [(0usize, 0usize), (3, 3), (1, 2), (3, 0)] {
                    let start =
                        agent(x, y, Heading::from_index(heading_index), BehavioralState::Outbound);
                    let next = start.advance(&grid, &map, &config(step, boundary), Turn::Right);
                    assert!(next.x <= 3 && next.y <= 3);
                }
            }
        }
    }
}

#[test]
fn wrapping_re_enters_from_the_other_side() {
    let grid = Grid::new(4, 4, 100).unwrap();
    let map = world(4, 4, &[]);
    let corner = agent(3, 3, Heading::SouthEast, BehavioralState::Outbound);
    assert_eq!(
        corner.advance(&grid, &map, &config(1, Boundary::Wrap), Turn::Straight),
        agent(0, 0, Heading::SouthEast, BehavioralState::Outbound)
    );
    let origin = agent(0, 0, Heading::North, BehavioralState::Outbound);
    assert_eq!(
        origin.advance(&grid, &map, &config(6, Boundary::Wrap), Turn::Straight),
        agent(0, 2, Heading::North, BehavioralState::Outbound)
    );
}

#[test]
fn reflecting_reverses_the_heading() {
    let grid = Grid::new(4, 4, 100).unwrap();
    let map = world(4, 4, &[]);
    let edge = agent(3, 1, Heading::East, BehavioralState::Outbound);
    assert_eq!(
        edge.advance(&grid, &map, &config(1, Boundary::Reflect), Turn::Straight),
        agent(2, 1, Heading::West, BehavioralState::Outbound)
    );
    let corner = agent(3, 3, Heading::SouthEast, BehavioralState::Outbound);
    assert_eq!(
        corner.advance(&grid, &map, &config(2, Boundary::Reflect), Turn::Straight),
        agent(1, 1, Heading::NorthWest, BehavioralState::Outbound)
    );
    let top = agent(1, 0, Heading::NorthEast, BehavioralState::Outbound);
    assert_eq!(
        top.advance(&grid, &map, &config(1, Boundary::Reflect), Turn::Straight),
        agent(2, 1, Heading::SouthEast, BehavioralState::Outbound)
    );
}

#[test]
fn the_zone_of_the_new_cell_decides_the_state() {
    let grid = Grid::new(4, 4, 100).unwrap();
    let map = world(4, 4, &[(2, 0, FOOD), (0, 2, HOME), (2, 2, WALL)]);
    let conduct = config(1, Boundary::Clamp);
    let out = agent(1, 0, Heading::East, BehavioralState::Outbound);
    assert_eq!(
        out.advance(&grid, &map, &conduct, Turn::Straight),
        agent(2, 0, Heading::East, BehavioralState::Returning)
    );
    let back = agent(1, 0, Heading::East, BehavioralState::Returning);
    assert_eq!(
        back.advance(&grid, &map, &conduct, Turn::Straight),
        agent(2, 0, Heading::East, BehavioralState::Returning)
    );
    let homing = agent(0, 1, Heading::South, BehavioralState::Returning);
    assert_eq!(
        homing.advance(&grid, &map, &conduct, Turn::Straight),
        agent(0, 2, Heading::South, BehavioralState::Outbound)
    );
    let leaving = agent(0, 1, Heading::South, BehavioralState::Outbound);
    assert_eq!(
        leaving.advance(&grid, &map, &conduct, Turn::Straight),
        agent(0, 2, Heading::South, BehavioralState::Outbound)
    );
    let into_wall = agent(1, 2, Heading::East, BehavioralState::Outbound);
    assert_eq!(
        into_wall.advance(&grid, &map, &conduct, Turn::Straight),
        agent(2, 2, Heading::East, BehavioralState::Outbound)
    );
}

#[test]
fn an_agent_that_stays_in_a_zone_changes_state_at_once() {
    let grid = Grid::new(4, 4, 100).unwrap();
    let map = world(4, 4, &[(3, 3, FOOD), (0, 0, HOME)]);
    let still = config(0, Boundary::Clamp);
    let in_food = agent(3, 3, Heading::West, BehavioralState::Outbound);
    let once = in_food.advance(&grid, &map, &still, Turn::Straight);
    assert_eq!(once, agent(3, 3, Heading::West, BehavioralState::Returning));
    let twice = once.advance(&grid, &map, &still, Turn::Straight);
    assert_eq!(twice.state, BehavioralState::Returning);
    let at_home = agent(0, 0, Heading::East, BehavioralState::Returning);
    assert_eq!(
        at_home.advance(&grid, &map, &still, Turn::Straight),
        agent(0, 0, Heading::East, BehavioralState::Outbound)
    );
}

#[test]
fn outside_both_zones_no_field_changes_the_state() {
    let map = world(5, 5, &[(4, 4, FOOD), (0, 0, HOME), (2, 1, WALL)]);
    let conduct = AgentConfig { sensor_distance: 1, ..config(1, Boundary::Clamp) };
    for fill in [0u32, 1, 50, 100] {
        let mut grid = Grid::new(5, 5, 100).unwrap();
        for y in 0..5 {
            for x in 0..5 {
                grid.set(Channel::HomeTrail, x, y, fill);
                grid.set(Channel::FoodTrail, x, y, (fill + x as u32 * 7 + y as u32) % 101);
            }
        }
        for state in [BehavioralState::Outbound, BehavioralState::Returning] {
            for jitter in [Turn::Left, Turn::Straight, Turn::Right] {
                let start = agent(2, 2, Heading::North, state);
                let next = start.advance(&grid, &map, &conduct, jitter);
                assert!(next.x >= 1 && next.x <= 3 && next.y >= 1 && next.y <= 3);
                assert_eq!(next.state, state);
            }
        }
    }
}
