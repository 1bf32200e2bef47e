//! The obstacle pool: spawning, movement, and recycling.
use flappyboi::pipes::{get_pipe_y, move_pipes, spawn_pipes, Pipe, PIPE_GAP};
use flappyboi::UNIT;

#[test]
fn gap_split_is_symmetric() {
    let (top, bottom) = get_pipe_y(100 * UNIT);
    assert_eq!(top, 160 * UNIT);
    assert_eq!(bottom, 40 * UNIT);
}

#[test]
fn spawn_places_five_uniform_pairs() {
    let draws = vec![100, 150, 200, 250, 300];
    let pipes = spawn_pipes(&draws);
    assert_eq!(pipes.len(), 10);
    for k in 0..5usize {
        let bottom = pipes[2 * k];
        let top = pipes[2 * k + 1];
        assert_eq!(bottom.x, 400 * UNIT + (k as i64) * PIPE_GAP);
        assert_eq!(top.x, bottom.x);
        assert_eq!(bottom.y, draws[k] * UNIT - 60 * UNIT);
        assert_eq!(top.y, draws[k] * UNIT + 60 * UNIT);
        assert!(!bottom.flipped && top.flipped);
        assert!(!bottom.passed && !top.passed);
    }
}

#[test]
fn movement_shifts_all_pipes_left_uniformly() {
    let draws = vec![100, 100, 100, 100, 100];
    let mut pipes = spawn_pipes(&draws);
    move_pipes(&mut pipes, 1000, 200);
    // 150 units per second for one second.
    for k in 0..5usize {
        assert_eq!(pipes[2 * k].x, (400 - 150) * UNIT + (k as i64) * PIPE_GAP);
        assert_eq!(pipes[2 * k].y, 40 * UNIT);
        assert_eq!(pipes[2 * k + 1].y, 160 * UNIT);
        assert!(!pipes[2 * k].passed);
    }
}

fn pair(x: i64, gap_center: i64, passed: bool) -> [Pipe; 2] {
    [
        Pipe { x, y: gap_center - 60 * UNIT, flipped: false, passed },
        Pipe { x, y: gap_center + 60 * UNIT, flipped: true, passed },
    ]
}

#[test]
fn offscreen_pipes_recycle_past_the_frontier() {
    // The first pair crosses the threshold this step and reappears one
    // spacing past the pre-step rightmost obstacle, rebuilt from the
    // step's gap draw with cleared passed flags.
    let mut pipes: Vec<Pipe> = Vec::new();
    pipes.extend(pair(-40 * UNIT, 100 * UNIT, true));
    pipes.extend(pair(800 * UNIT, 150 * UNIT, false));
    move_pipes(&mut pipes, 1000, 200);
    assert_eq!(pipes[0].x, 800 * UNIT + PIPE_GAP);
    assert_eq!(pipes[1].x, 800 * UNIT + PIPE_GAP);
    assert_eq!(pipes[0].y, 140 * UNIT);
    assert_eq!(pipes[1].y, 260 * UNIT);
    assert!(!pipes[0].passed && !pipes[1].passed);
    assert!(!pipes[0].flipped && pipes[1].flipped);
    // The other pair merely moved.
    assert_eq!(pipes[2].x, 650 * UNIT);
    assert_eq!(pipes[2].y, 90 * UNIT);
}

#[test]
fn same_step_recyclings_share_one_draw() {
    // Two pairs cross the threshold in one step: both get the same gap
    // center and the same target x.
    let mut pipes: Vec<Pipe> = Vec::new();
    pipes.extend(pair(-40 * UNIT, 100 * UNIT, true));
    pipes.extend(pair(-45 * UNIT, 120 * UNIT, true));
    pipes.extend(pair(700 * UNIT, 150 * UNIT, false));
    move_pipes(&mut pipes, 1000, 250);
    assert_eq!(pipes[0].x, 700 * UNIT + PIPE_GAP);
    assert_eq!(pipes[2].x, 700 * UNIT + PIPE_GAP);
    assert_eq!(pipes[0].y, 190 * UNIT);
    assert_eq!(pipes[2].y, 190 * UNIT);
    assert_eq!(pipes[1].y, 310 * UNIT);
    assert_eq!(pipes[3].y, 310 * UNIT);
}

#[test]
fn recycle_threshold_is_strict() {
    // A pipe landing exactly on the threshold is not recycled.
    let mut at_edge: Vec<Pipe> = pair(-37 * UNIT, 100 * UNIT, true).to_vec();
    move_pipes(&mut at_edge, 100, 200);
    assert_eq!(at_edge[0].x, -52 * UNIT);
    assert!(at_edge[0].passed);

    let mut over: Vec<Pipe> = pair(-37 * UNIT - 1, 100 * UNIT, true).to_vec();
    move_pipes(&mut over, 100, 200);
    assert_eq!(over[0].x, -37 * UNIT - 1 + PIPE_GAP);
    assert!(!over[0].passed);
}

#[test]
fn zero_dt_moves_nothing() {
    let draws = vec![70, 300, 70, 300, 70];
    let mut pipes = spawn_pipes(&draws);
    let before = pipes.clone();
    move_pipes(&mut pipes, 0, 70);
    for i in 0..10usize {
        assert_eq!(pipes[i].x, before[i].x);
        assert_eq!(pipes[i].y, before[i].y);
        assert_eq!(pipes[i].passed, before[i].passed);
    }
}
