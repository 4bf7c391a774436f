use ants::decay::{next_value, diffusion_decay_stage, DecayConfig};
use ants::trail::{Channel, Grid};

fn plane(grid: &Grid, channel: Channel) -> Vec<u32> {
    let mut values = Vec::new();
    for y in 0..grid.height() {
        for x in 0..grid.width() {
            values.push(grid.get(channel, x, y));
        }
    }
    values
}

fn seeded(width: usize, height: usize, max: u32, home: &[u32]) -> Grid {
    let mut grid = Grid::new(width, height, max).unwrap();
    for y in 0..height {
        for x in 0..width {
            grid.set(Channel::HomeTrail, x, y, home[y * width + x]);
        }
    }
    grid
}

#[test]
fn config_needs_a_fraction_below_one() {
    assert_eq!(
        DecayConfig::new(1, 9, 10),
        Some(DecayConfig { radius: 1, keep_num: 9, keep_den: 10 })
    );
    assert_eq!(
        DecayConfig::new(0, 0, 1),
        Some(DecayConfig { radius: 0, keep_num: 0, keep_den: 1 })
    );
    assert_eq!(DecayConfig::new(1, 10, 10), None);
    assert_eq!(DecayConfig::new(1, 11, 10), None);
    assert_eq!(DecayConfig::new(1, 0, 0), None);
}

#[test]
fn without_diffusion_each_cell_fades_alone() {
    let config = DecayConfig::new(0, 3, 4).unwrap();
    let source = seeded(3, 1, 1000, &[90, 1, 0]);
    assert_eq!(next_value(&source, Channel::HomeTrail, 0, 0, &config), 67);
    assert_eq!(next_value(&source, Channel::HomeTrail, 1, 0, &config), 0);
    assert_eq!(next_value(&source, Channel::HomeTrail, 2, 0, &config), 0);
    assert_eq!(next_value(&source, Channel::FoodTrail, 0, 0, &config), 0);
}

#[test]
fn diffusion_spreads_a_peak_over_its_neighbourhood() {
    let config = DecayConfig::new(1, 1, 2).unwrap();
    let source = seeded(3, 3, 1000, &[0, 0, 0, 0, 90, 0, 0, 0, 0]);
    for y in 0..3 {
        for x in 0..3 {
            assert_eq!(next_value(&source, Channel::HomeTrail, x, y, &config), 5);
        }
    }
}

#[test]
fn cells_beyond_an_edge_are_read_from_the_edge() {
    let config = DecayConfig::new(1, 1, 2).unwrap();
    let source = seeded(3, 3, 1000, &[90, 0, 0, 0, 0, 0, 0, 0, 0]);
    assert_eq!(next_value(&source, Channel::HomeTrail, 0, 0, &config), 20);
    assert_eq!(next_value(&source, Channel::HomeTrail, 1, 0, &config), 10);
    assert_eq!(next_value(&source, Channel::HomeTrail, 0, 1, &config), 10);
    assert_eq!(next_value(&source, Channel::HomeTrail, 1, 1, &config), 5);
    assert_eq!(next_value(&source, Channel::HomeTrail, 2, 0, &config), 0);
    assert_eq!(next_value(&source, Channel::HomeTrail, 2, 2, &config), 0);
}

#[test]
fn wide_kernel_on_a_single_cell_grid() {
    let config = DecayConfig::new(255, 1, 2).unwrap();
    let source = seeded(1, 1, u32::MAX, &[u32::MAX]);
    assert_eq!(next_value(&source, Channel::HomeTrail, 0, 0, &config), u32::MAX / 2);
}

#[test]
fn stage_overwrites_the_destination() {
    let config = DecayConfig::new(1, 1, 2).unwrap();
    let mut source = seeded(3, 3, 1000, &[0, 0, 0, 0, 90, 0, 0, 0, 0]);
    source.set(Channel::FoodTrail, 0, 0, 180);
    let mut destination = seeded(3, 3, 1000, &[7, 7, 7, 7, 7, 7, 7, 7, 7]);
    destination.set(Channel::FoodTrail, 2, 2, 999);
    diffusion_decay_stage(&source, &mut destination, &config);
    assert_eq!(plane(&destination, Channel::HomeTrail), vec![5; 9]);
    assert_eq!(
        plane(&destination, Channel::FoodTrail),
        vec![40, 20, 0, 20, 10, 0, 0, 0, 0]
    );
    assert_eq!(plane(&source, Channel::HomeTrail), vec![0, 0, 0, 0, 90, 0, 0, 0, 0]);
}

#[test]
fn silence_stays_silent() {
    let config = DecayConfig::new(2, 99, 100).unwrap();
    let source = Grid::new(5, 4, 1000).unwrap();
    let mut destination = seeded(5, 4, 1000, &[3; 20]);
    diffusion_decay_stage(&source, &mut destination, &config);
    assert_eq!(plane(&destination, Channel::HomeTrail), vec![0; 20]);
    assert_eq!(plane(&destination, Channel::FoodTrail), vec![0; 20]);
}

#[test]
fn a_cell_with_a_silent_neighbourhood_stays_silent() {
    let config = DecayConfig::new(1, 99, 100).unwrap();
    let mut source = Grid::new(5, 5, 1000).unwrap();
    source.set(Channel::HomeTrail, 4, 4, 1000);
    assert_eq!(next_value(&source, Channel::HomeTrail, 0, 0, &config), 0);
    assert_eq!(next_value(&source, Channel::HomeTrail, 2, 2, &config), 0);
    assert_eq!(next_value(&source, Channel::HomeTrail, 3, 3, &config), 109);
}

#[test]
fn decay_alone_never_leaves_the_range_and_reaches_zero() {
    let max = 40u32;
    let config = DecayConfig::new(1, 9, 10).unwrap();
    let seed: Vec<u32> = (0..30u32).map(|i| (i * 37 + 11) % (max + 1)).collect();
    let mut current = seeded(6, 5, max, &seed);
    current.set(Channel::FoodTrail, 3, 3, max);
    let mut next = Grid::new(6, 5, max).unwrap();
    let mut peak = max;
    for _ in 0..max {
        diffusion_decay_stage(&current, &mut next, &config);
        let mut new_peak = 0;
        for channel in [Channel::HomeTrail, Channel::FoodTrail] {
            for value in plane(&next, channel) {
                assert!(value <= max);
                new_peak = new_peak.max(value);
            }
        }
        assert!(new_peak < peak || (peak == 0 && new_peak == 0));
        peak = new_peak;
        std::mem::swap(&mut current, &mut next);
    }
    assert_eq!(plane(&current, Channel::HomeTrail), vec![0; 30]);
    assert_eq!(plane(&current, Channel::FoodTrail), vec![0; 30]);
}

#[test]
fn without_diffusion_no_cell_ever_rises() {
    let config = DecayConfig::new(0, 7, 8).unwrap();
    let seed: Vec<u32> = (0..12u32).map(|i| i * 9).collect();
    let mut current = seeded(4, 3, 100, &seed);
    let mut next = Grid::new(4, 3, 100).unwrap();
    for _ in 0..100 {
        diffusion_decay_stage(&current, &mut next, &config);
        let before = plane(&current, Channel::HomeTrail);
        let after = plane(&next, Channel::HomeTrail);
        for (old, new) in before.iter().zip(after.iter()) {
            assert!(new <= old);
            assert!(*old == 0 || new < old);
            assert_eq!(*new, old * 7 / 8);
        }
        std::mem::swap(&mut current, &mut next);
    }
    assert_eq!(plane(&current, Channel::HomeTrail), vec![0; 12]);
}
