use ants::agent::{Agent, AgentConfig, BehavioralState};
use ants::colony::AgentTable;
use ants::compositor::{compose, AgentStyle, Pixel};
use ants::decay::DecayConfig;
use ants::geometry::{Boundary, Heading, Turn};
use ants::scheduler::{FrameEvent, SurfaceStatus};
use ants::simulation::Simulation;
use ants::trail::{Channel, Grid};
use ants::world::WorldMap;

const BLACK: Pixel = Pixel { red: 0, green: 0, blue: 0 };
const RED: Pixel = Pixel { red: 255, green: 0, blue: 0 };
const OPAQUE: AgentStyle = AgentStyle { colour: RED, alpha: 255 };
const HALF: AgentStyle = AgentStyle { colour: RED, alpha: 128 };
const INVISIBLE: AgentStyle = AgentStyle { colour: RED, alpha: 0 };

fn agent(x: usize, y: usize) -> Agent {
    Agent { x, y, heading: Heading::East, state: BehavioralState::Outbound }
}

#[test]
fn blank_grid_without_agents_is_black() {
    let grid = Grid::new(3, 2, 100).unwrap();
    let nobody = AgentTable::from_agents(Vec::new());
    assert_eq!(compose(&grid, &nobody, &OPAQUE), vec![BLACK; 6]);
}

#[test]
fn trails_show_as_green_and_blue() {
    let mut grid = Grid::new(2, 2, 100).unwrap();
    grid.set(Channel::HomeTrail, 0, 0, 50);
    grid.set(Channel::FoodTrail, 1, 0, 100);
    grid.set(Channel::HomeTrail, 1, 1, 1);
    grid.set(Channel::FoodTrail, 1, 1, 99);
    let nobody = AgentTable::from_agents(Vec::new());
    assert_eq!(
        compose(&grid, &nobody, &OPAQUE),
        vec![
            Pixel { red: 0, green: 0, blue: 127 },
            Pixel { red: 0, green: 255, blue: 0 },
            BLACK,
            Pixel { red: 0, green: 252, blue: 2 },
        ]
    );
}

#[test]
fn a_grid_that_can_hold_nothing_is_black() {
    let grid = Grid::new(2, 1, 0).unwrap();
    let nobody = AgentTable::from_agents(Vec::new());
    assert_eq!(compose(&grid, &nobody, &OPAQUE), vec![BLACK; 2]);
}

#[test]
fn agents_are_laid_over_the_background() {
    let mut grid = Grid::new(3, 1, 100).unwrap();
    grid.set(Channel::HomeTrail, 1, 0, 50);
    grid.set(Channel::FoodTrail, 1, 0, 100);
    grid.set(Channel::FoodTrail, 2, 0, 100);
    let table = AgentTable::from_agents(vec![agent(1, 0), agent(0, 0), agent(1, 0)]);
    assert_eq!(
        compose(&grid, &table, &OPAQUE),
        vec![RED, RED, Pixel { red: 0, green: 255, blue: 0 }]
    );
    assert_eq!(
        compose(&grid, &table, &HALF),
        vec![
            Pixel { red: 128, green: 0, blue: 0 },
            Pixel { red: 128, green: 127, blue: 63 },
            Pixel { red: 0, green: 255, blue: 0 },
        ]
    );
    assert_eq!(
        compose(&grid, &table, &INVISIBLE),
        vec![
            BLACK,
            Pixel { red: 0, green: 255, blue: 127 },
            Pixel { red: 0, green: 255, blue: 0 },
        ]
    );
}

#[test]
fn the_picture_shows_the_buffer_that_the_last_frame_wrote() {
    let map = WorldMap::from_rgba(3, 1, &[0u8; 12]).unwrap();
    let conduct = AgentConfig { step: 1, sensor_distance: 1, deposit: 40, boundary: Boundary::Clamp };
    let mut sim = Simulation::new(
        3,
        1,
        100,
        map,
        AgentTable::from_agents(vec![agent(0, 0)]),
        DecayConfig::new(0, 1, 2).unwrap(),
        conduct,
    )
    .unwrap();
    assert_eq!(sim.picture(&OPAQUE), vec![RED, BLACK, BLACK]);
    sim.on_event_with(FrameEvent::RedrawRequested(SurfaceStatus::Ready), &[Turn::Straight]);
    assert_eq!(
        sim.picture(&INVISIBLE),
        vec![BLACK, Pixel { red: 0, green: 0, blue: 102 }, BLACK]
    );
    sim.on_event_with(FrameEvent::RedrawRequested(SurfaceStatus::Ready), &[Turn::Straight]);
    assert_eq!(
        sim.picture(&INVISIBLE),
        vec![BLACK, Pixel { red: 0, green: 0, blue: 51 }, Pixel { red: 0, green: 0, blue: 102 }]
    );
    assert_eq!(
        sim.picture(&OPAQUE),
        vec![BLACK, Pixel { red: 0, green: 0, blue: 51 }, RED]
    );
    assert_eq!(sim.agents().as_slice(), &[agent(2, 0)]);
}
