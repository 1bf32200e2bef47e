//! The frame loop and the state machine, driven through whole runs.
use flappyboi::input::EventQueue;
use flappyboi::pipes::{spawn_pipes, PIPE_GAP};
use flappyboi::player::{Bird, BIRD_SPAWN_Y, MAX_FALL_SPEED, PLAYER_JUMP_SPEED};
use flappyboi::sim::{Simulation, SPLASH_DURATION_MS};
use flappyboi::{GameState, Highscore, Score, SCREEN_HEIGHT, UNIT};

#[test]
fn fresh_simulation_starts_in_splash() {
    let sim = Simulation::new(7);
    assert_eq!(sim.state, GameState::Splash);
    assert_eq!(sim.splash_remaining_ms, SPLASH_DURATION_MS);
    assert_eq!(sim.score.0, 0);
    assert_eq!(sim.highscore.0, 7);
    assert_eq!(sim.bird.y, BIRD_SPAWN_Y);
    assert_eq!(sim.pipes.len(), 0);
}

#[test]
fn splash_counts_down_once_then_menu() {
    let mut sim = Simulation::new(0);
    let eff = sim.step(1000, false);
    assert_eq!(sim.state, GameState::Splash);
    assert_eq!(sim.splash_remaining_ms, 500);
    assert!(!eff.play_flop && !eff.play_death && eff.woho_count == 0);
    assert!(eff.save_highscore.is_none());
    sim.step(499, false);
    assert_eq!(sim.state, GameState::Splash);
    assert_eq!(sim.splash_remaining_ms, 1);
    sim.step(1, false);
    assert_eq!(sim.state, GameState::Menu);
}

#[test]
fn splash_ignores_confirm() {
    let mut sim = Simulation::new(0);
    sim.step(10, true);
    assert_eq!(sim.state, GameState::Splash);
    assert_eq!(sim.splash_remaining_ms, 1490);
}

#[test]
fn one_long_step_finishes_the_splash() {
    let mut sim = Simulation::new(0);
    sim.step(5000, false);
    assert_eq!(sim.state, GameState::Menu);
    assert_eq!(sim.splash_remaining_ms, 0);
}

#[test]
fn menu_without_confirm_stays_idle() {
    let mut sim = Simulation::new(0);
    sim.step(1500, false);
    let eff = sim.step(16, false);
    assert_eq!(sim.state, GameState::Menu);
    assert_eq!(sim.score.0, 0);
    assert!(!eff.play_death && eff.save_highscore.is_none());
}

#[test]
fn menu_confirm_enters_playing_with_reset_state() {
    // Menu state, confirm received: the state becomes the playing state,
    // the score resets and the actor respawns at mid-screen.
    let mut sim = Simulation::new(3);
    sim.step(1500, false);
    assert_eq!(sim.state, GameState::Menu);
    sim.score = Score(9);
    let eff = sim.step(16, true);
    assert_eq!(sim.state, GameState::Game);
    assert_eq!(sim.score.0, 0);
    assert_eq!(sim.highscore.0, 3);
    assert_eq!(sim.bird.y, SCREEN_HEIGHT / 2);
    assert_eq!(sim.bird.speed, 0);
    assert_eq!(sim.bird.angle, 0);
    assert!(!eff.play_death && eff.save_highscore.is_none());
    // A full pool spawned: five uniformly spaced pairs with in-range gaps.
    assert_eq!(sim.pipes.len(), 10);
    for k in 0..5usize {
        let bottom = sim.pipes[2 * k];
        let top = sim.pipes[2 * k + 1];
        assert_eq!(bottom.x, 400 * UNIT + (k as i64) * PIPE_GAP);
        assert_eq!(top.x, bottom.x);
        assert!(!bottom.flipped && top.flipped);
        assert!(!bottom.passed && !top.passed);
        assert_eq!(top.y - bottom.y, 120 * UNIT);
        let gap_center = bottom.y + 60 * UNIT;
        assert!(gap_center >= 70 * UNIT && gap_center <= 300 * UNIT);
    }
}

#[test]
fn buffered_impulses_collapse_into_one_jump_then_drain() {
    let mut sim = Simulation::new(0);
    sim.step(1500, false);
    sim.step(16, true);
    sim.push_jump();
    sim.push_jump();
    sim.push_jump();
    let eff = sim.step(16, false);
    assert!(eff.play_flop);
    assert_eq!(sim.bird.speed, PLAYER_JUMP_SPEED);
    // The queue was drained in full: the next step sees no impulse.
    let eff2 = sim.step(16, false);
    assert!(!eff2.play_flop);
    assert!(sim.bird.speed < PLAYER_JUMP_SPEED);
}

#[test]
fn falling_to_the_floor_dies_exactly_once_and_resets() {
    // Actor at 0.4 of the playfield height, already at terminal
    // velocity, floor check with no vertical extent: stepping drives it
    // to the floor, the death fires exactly once, the state moves to the
    // death screen and the actor resets to mid-screen.
    let pool = spawn_pipes(&vec![100, 100, 100, 100, 100]);
    let mut sim = Simulation {
        state: GameState::Game,
        splash_remaining_ms: SPLASH_DURATION_MS,
        bird: Bird { y: 160 * UNIT, speed: MAX_FALL_SPEED, angle: 0 },
        pipes: pool,
        score: Score(0),
        highscore: Highscore(0),
        bird_half_extent: 0,
        events: EventQueue::new(),
    };
    let mut deaths: usize = 0;
    let mut steps: usize = 0;
    while sim.state == GameState::Game && steps < 100 {
        let eff = sim.step_game(16, false, 100);
        if eff.play_death {
            deaths += 1;
            assert_eq!(eff.save_highscore, Some(0));
        } else {
            assert!(eff.save_highscore.is_none());
        }
        steps += 1;
    }
    assert_eq!(deaths, 1);
    assert_eq!(sim.state, GameState::DeathScreen);
    assert_eq!(sim.bird.y, SCREEN_HEIGHT / 2);
    assert_eq!(sim.bird.speed, 0);
    assert_eq!(sim.pipes.len(), 0);
    // The death screen itself raises no further death events.
    let eff = sim.step(16, false);
    assert!(!eff.play_death);
    assert_eq!(sim.state, GameState::DeathScreen);
}

#[test]
fn whole_run_dies_persists_highscore_and_restarts() {
    let mut sim = Simulation::new(0);
    sim.step(1500, false);
    sim.step(16, true);
    assert_eq!(sim.state, GameState::Game);
    let mut death_seen = false;
    for _ in 0..200 {
        let eff = sim.step(100, false);
        if eff.play_death {
            assert_eq!(eff.save_highscore, Some(sim.highscore.0));
            death_seen = true;
            break;
        }
    }
    assert!(death_seen);
    assert_eq!(sim.state, GameState::DeathScreen);
    // Confirm on the death screen starts a fresh run.
    let eff = sim.step(16, true);
    assert_eq!(sim.state, GameState::Game);
    assert_eq!(sim.score.0, 0);
    assert_eq!(sim.bird.y, SCREEN_HEIGHT / 2);
    assert_eq!(sim.pipes.len(), 10);
    assert!(eff.save_highscore.is_none());
}

#[test]
fn scoring_while_playing_raises_score_and_highscore() {
    // A pair standing just ahead of the pass threshold crosses it during
    // one step: one point, one scoring sound, high score follows.
    let mut pool = spawn_pipes(&vec![100, 100, 100, 100, 100]);
    // Move the first pair to just before the pass threshold (the actor
    // stands at 200 units, the margin is 30).
    pool[0].x = 171 * UNIT;
    pool[1].x = 171 * UNIT;
    let mut sim = Simulation {
        state: GameState::Game,
        splash_remaining_ms: SPLASH_DURATION_MS,
        bird: Bird { y: 100 * UNIT, speed: 0, angle: 0 },
        pipes: pool,
        score: Score(4),
        highscore: Highscore(3),
        bird_half_extent: 500_000_000,
        events: EventQueue::new(),
    };
    // 150 units/s for 16 ms moves the pair 2.4 units: past the threshold.
    let eff = sim.step_game(16, false, 100);
    assert_eq!(eff.woho_count, 1);
    assert!(!eff.play_death);
    assert_eq!(sim.score.0, 5);
    assert_eq!(sim.highscore.0, 5);
    assert!(sim.pipes[0].passed && sim.pipes[1].passed);
    // The next step scores nothing for the same pair.
    let eff2 = sim.step_game(16, false, 100);
    assert_eq!(eff2.woho_count, 0);
    assert_eq!(sim.score.0, 5);
}
