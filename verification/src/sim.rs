//! The frame simulation loop: one simulation context owning the actor,
//! the obstacle pool, the score counters and the state machine.  One step
//! advances obstacles, advances the actor, evaluates passage and
//! collisions, and drives state transitions, in that fixed order.
use vstd::prelude::*;

use crate::input::EventQueue;
use crate::pipes::{
    lemma_move_preserves_pool_wf, lemma_pool_collision_bounds, lemma_seq_max_x_attained,
    move_pipes, move_rel, moved_pipe_ok, pair_ok, pool_wf, spawn_pipes, spawn_rel, Pipe, N_PAIRS,
    PIPE_COORD_LIMIT, PIPE_GAP, PIPE_RECYCLE_X, PIPE_SPEED, PIPE_X_LIMIT, PIPE_Y_RANGE_MAX,
    PIPE_Y_RANGE_MIN,
};
use crate::player::{
    any_pipe_hit, bird_step_rel, check_bounds, check_pipe_collision, give_score_for_passing, jump,
    lemma_pass_preserves_pool_wf, passed_pipe, reset_bird, score_gain, Bird,
    BIRD_HALF_EXTENT, BIRD_SPAWN_Y, BIRD_X,
};
use crate::rng::random_in_range;
use crate::{max_i, GameState, Highscore, Score, DT_LIMIT, SCREEN_HEIGHT};

verus! {

/// How long the splash state lasts before it transitions to the menu,
/// in milliseconds.
pub const SPLASH_DURATION_MS: i64 = 1500;

/// Fire-and-forget side-effect requests one step emits for the
/// presentation layer; they never feed back into the simulation.
#[derive(Clone, Copy, Debug)]
pub struct Effects {
    /// Play the jump sound: an impulse was consumed in the playing state.
    pub play_flop: bool,
    /// Play the death sound: a death condition ended the run.
    pub play_death: bool,
    /// Play the scoring sound this many times: one per pair passed.
    pub woho_count: usize,
    /// Persist this high score: emitted on entering the death screen.
    pub save_highscore: Option<usize>,
}

/// The whole simulation state, stepped once per frame.
pub struct Simulation {
    /// The active state of the finite state machine.
    pub state: GameState,
    /// Milliseconds the splash state has left.
    pub splash_remaining_ms: i64,
    /// The actor; meaningful while playing, reset to its spawn pose
    /// otherwise.
    pub bird: Bird,
    /// The obstacle pool; populated exactly while playing.
    pub pipes: Vec<Pipe>,
    /// The running score.
    pub score: Score,
    /// The best score seen so far.
    pub highscore: Highscore,
    /// Half the actor's vertical extent, used by the floor and ceiling
    /// checks.
    pub bird_half_extent: i64,
    /// Jump impulses buffered between steps.
    pub events: EventQueue,
}

impl Simulation {
    /// The simulation invariant: a well-formed actor, a splash timer
    /// within its duration and positive while the splash is showing, and
    /// an obstacle pool that exists — well-formed — exactly in the
    /// playing state.
    pub open spec fn wf(self) -> bool {
        &&& self.bird.wf()
        &&& 0 <= self.splash_remaining_ms <= SPLASH_DURATION_MS
        &&& self.state is Splash ==> self.splash_remaining_ms >= 1
        &&& 0 <= self.bird_half_extent <= SCREEN_HEIGHT
        &&& self.state is Game ==> pool_wf(self.pipes@)
        &&& !(self.state is Game) ==> self.pipes@.len() == 0
    }

    /// Machine bound on the pool a step accepts: obstacle positions far
    /// from the right edge of the representable range, so the recycle
    /// target and the collision boxes stay representable.
    pub open spec fn pipes_within_limit(self) -> bool {
        forall|i: int|
            0 <= i < self.pipes@.len() ==> (#[trigger] self.pipes@[i]).x <= PIPE_X_LIMIT
    }

    /// A fresh simulation: splash showing, score zero, the given
    /// persisted high score, the actor in its spawn pose, no obstacles,
    /// no buffered input.
    pub fn new(initial_highscore: usize) -> (s: Simulation)
        ensures
            s.wf(),
            s.state == GameState::Splash,
            s.splash_remaining_ms == SPLASH_DURATION_MS,
            s.bird.y == BIRD_SPAWN_Y && s.bird.speed == 0 && s.bird.angle == 0,
            s.pipes@.len() == 0,
            s.score.0 == 0,
            s.highscore.0 == initial_highscore,
            s.bird_half_extent == BIRD_HALF_EXTENT,
            s.events.count() == 0,
            s.pipes_within_limit(),
    {
        Simulation {
            state: GameState::Splash,
            splash_remaining_ms: SPLASH_DURATION_MS,
            bird: Bird::spawn(),
            pipes: Vec::new(),
            score: Score(0),
            highscore: Highscore(initial_highscore),
            bird_half_extent: BIRD_HALF_EXTENT,
            events: EventQueue::new(),
        }
    }

    /// Buffers one jump impulse for the next step.
    pub fn push_jump(&mut self)
        ensures
            final(self).events.count() == if old(self).events.count()
                < crate::input::EVENT_QUEUE_CAP {
                old(self).events.count() + 1
            } else {
                old(self).events.count()
            },
            final(self).state == old(self).state,
            final(self).splash_remaining_ms == old(self).splash_remaining_ms,
            final(self).bird == old(self).bird,
            final(self).pipes@ == old(self).pipes@,
            final(self).score == old(self).score,
            final(self).highscore == old(self).highscore,
            final(self).bird_half_extent == old(self).bird_half_extent,
    {
        self.events.push(crate::input::JumpEvent);
    }
}

/// The pool after the scoring sweep: every obstacle marked passed once
/// crossed.
pub open spec fn scored_pool(s: Seq<Pipe>, bird_x: int) -> Seq<Pipe> {
    Seq::new(s.len(), |i: int| passed_pipe(s[i], bird_x))
}

/// A death condition: the actor's extent touches the floor, or any
/// obstacle's box meets its bounding circle.
pub open spec fn bird_dead(b: Bird, half: int, pipes: Seq<Pipe>) -> bool {
    b.y - half <= 0 || any_pipe_hit(pipes, b.y as int)
}

/// No side effect was requested.
pub open spec fn effects_none(eff: Effects) -> bool {
    &&& !eff.play_flop
    &&& !eff.play_death
    &&& eff.woho_count == 0
    &&& eff.save_highscore is None
}

/// Everything but the event queue is unchanged.
pub open spec fn core_unchanged(pre: Simulation, post: Simulation) -> bool {
    &&& post.state == pre.state
    &&& post.splash_remaining_ms == pre.splash_remaining_ms
    &&& post.bird == pre.bird
    &&& post.pipes@ == pre.pipes@
    &&& post.score == pre.score
    &&& post.highscore == pre.highscore
    &&& post.bird_half_extent == pre.bird_half_extent
}

/// How one playing-state step, with gap draw `gap_y`, relates the
/// simulation before it to the simulation after it and to the effects it
/// emits: obstacles advance, the actor advances, passage is scored, and a
/// death condition transitions to the death screen, resets the actor,
/// tears the pool down and asks for the high score to be persisted.
pub open spec fn playing_step_rel(
    pre: Simulation,
    post: Simulation,
    dt: int,
    impulse: bool,
    gap_y: int,
    eff: Effects,
) -> bool {
    exists|mid: Seq<Pipe>, b1: Bird|
        #![trigger move_rel(pre.pipes@, mid, dt, gap_y), bird_step_rel(pre.bird, b1, dt, impulse, pre.bird_half_extent as int)]
        {
            let scored = scored_pool(mid, BIRD_X as int);
            let gain = score_gain(mid, BIRD_X as int);
            let dead = bird_dead(b1, pre.bird_half_extent as int, scored);
            &&& move_rel(pre.pipes@, mid, dt, gap_y)
            &&& bird_step_rel(pre.bird, b1, dt, impulse, pre.bird_half_extent as int)
            &&& post.score.0 == pre.score.0 + gain
            &&& post.highscore.0 == (if gain > 0 {
                max_i(pre.highscore.0 as int, post.score.0 as int)
            } else {
                pre.highscore.0 as int
            })
            &&& eff.woho_count == gain
            &&& eff.play_flop == impulse
            &&& eff.play_death == dead
            &&& eff.save_highscore == (if dead {
                Option::Some(post.highscore.0)
            } else {
                Option::<usize>::None
            })
            &&& post.state == (if dead {
                GameState::DeathScreen
            } else {
                GameState::Game
            })
            &&& (dead ==> post.bird.y == BIRD_SPAWN_Y && post.bird.speed == 0 && post.bird.angle
                == 0 && post.pipes@.len() == 0)
            &&& (!dead ==> post.bird == b1 && post.pipes@ == scored)
            &&& post.splash_remaining_ms == pre.splash_remaining_ms
            &&& post.bird_half_extent == pre.bird_half_extent
        }
}

/// How entering the playing state relates the simulation before to the
/// simulation after: score reset, actor respawned, and a fresh pool
/// spawned from five in-range gap draws.
pub open spec fn enter_game_rel(pre: Simulation, post: Simulation) -> bool {
    &&& post.state == GameState::Game
    &&& post.score.0 == 0
    &&& post.highscore == pre.highscore
    &&& post.bird.y == BIRD_SPAWN_Y && post.bird.speed == 0 && post.bird.angle == 0
    &&& post.splash_remaining_ms == pre.splash_remaining_ms
    &&& post.bird_half_extent == pre.bird_half_extent
    &&& exists|draws: Seq<i64>|
        {
            &&& #[trigger] spawn_rel(draws, post.pipes@)
            &&& draws.len() == N_PAIRS
            &&& forall|k: int|
                0 <= k < N_PAIRS ==> PIPE_Y_RANGE_MIN <= #[trigger] draws[k] <= PIPE_Y_RANGE_MAX
        }
}

/// An idle state's reaction to the confirm input: on confirm the playing
/// state is entered; otherwise nothing changes.
pub open spec fn menu_step_rel(
    pre: Simulation,
    post: Simulation,
    confirm: bool,
    eff: Effects,
) -> bool {
    &&& effects_none(eff)
    &&& if confirm {
        enter_game_rel(pre, post)
    } else {
        core_unchanged(pre, post)
    }
}

/// How one full step relates the simulation before it to the simulation
/// after it: the input queue is drained exactly once, and the active
/// state decides what runs — the splash timer, the menus' confirm
/// handling, or the playing-state systems with some in-range gap draw.
pub open spec fn step_rel(
    pre: Simulation,
    post: Simulation,
    dt: int,
    confirm: bool,
    eff: Effects,
) -> bool {
    let impulse = pre.events.count() > 0;
    &&& post.events.count() == 0
    &&& match pre.state {
        GameState::Splash => {
            let rem = max_i(pre.splash_remaining_ms - dt, 0);
            &&& post.state == (if rem == 0 {
                GameState::Menu
            } else {
                GameState::Splash
            })
            &&& post.splash_remaining_ms == rem
            &&& post.bird == pre.bird
            &&& post.pipes@ == pre.pipes@
            &&& post.score == pre.score
            &&& post.highscore == pre.highscore
            &&& post.bird_half_extent == pre.bird_half_extent
            &&& effects_none(eff)
        },
        GameState::Menu => menu_step_rel(pre, post, confirm, eff),
        GameState::DeathScreen => menu_step_rel(pre, post, confirm, eff),
        GameState::Game => exists|gap_y: int|
            {
                &&& #[trigger] playing_step_rel(pre, post, dt, impulse, gap_y, eff)
                &&& PIPE_Y_RANGE_MIN <= gap_y < PIPE_Y_RANGE_MAX
            },
    }
}

impl Simulation {
    /// One playing-state step with an explicit gap draw: obstacles
    /// advance and recycle, the actor integrates gravity or the impulse,
    /// passage is scored, and any death condition — floor or obstacle —
    /// ends the run.
    pub fn step_game(&mut self, dt: i64, impulse: bool, gap_y: i64) -> (eff: Effects)
        requires
            old(self).wf(),
            old(self).state is Game,
            0 <= dt <= DT_LIMIT,
            PIPE_Y_RANGE_MIN <= gap_y <= PIPE_Y_RANGE_MAX,
            old(self).pipes_within_limit(),
            old(self).score.0 + old(self).pipes@.len() <= usize::MAX,
        ensures
            final(self).wf(),
            playing_step_rel(
                *old(self),
                *final(self),
                dt as int,
                impulse,
                gap_y as int,
                eff,
            ),
            final(self).events == old(self).events,
    {
        let ghost pre = *self;
        proof {
            assert forall|i: int|
                0 <= i < self.pipes@.len() implies PIPE_RECYCLE_X <= (
            #[trigger] self.pipes@[i]).x <= PIPE_X_LIMIT by {
                let k = i / 2;
                assert(i == 2 * k || i == 2 * k + 1);
                assert(pair_ok(self.pipes@, k));
            }
        }
        move_pipes(&mut self.pipes, dt, gap_y);
        let ghost mid = self.pipes@;
        proof {
            lemma_move_preserves_pool_wf(pre.pipes@, mid, dt as int, gap_y as int);
            lemma_seq_max_x_attained(pre.pipes@);
            assert(PIPE_SPEED * dt >= 0) by (nonlinear_arith)
                requires
                    PIPE_SPEED == 150_000_000,
                    dt >= 0,
            ;
            assert forall|i: int|
                0 <= i < mid.len() implies (#[trigger] mid[i]).x <= PIPE_X_LIMIT + PIPE_GAP by {
                assert(moved_pipe_ok(pre.pipes@, pre.pipes@[i], mid[i], dt as int, gap_y as int));
            }
        }
        jump(&mut self.bird, dt, impulse, self.bird_half_extent);
        let ghost b1 = self.bird;
        let woho = give_score_for_passing(
            &mut self.pipes,
            BIRD_X,
            &mut self.score,
            &mut self.highscore,
        );
        let ghost scored = self.pipes@;
        proof {
            lemma_pass_preserves_pool_wf(mid, scored, BIRD_X as int);
            assert(scored =~= scored_pool(mid, BIRD_X as int));
            assert forall|i: int|
                0 <= i < scored.len() implies (#[trigger] scored[i]).x <= PIPE_COORD_LIMIT by {
                assert(scored[i] == passed_pipe(mid[i], BIRD_X as int));
            }
            lemma_pool_collision_bounds(scored);
        }
        let dead_floor = check_bounds(self.bird.y, self.bird_half_extent);
        let dead_pipes = check_pipe_collision(self.bird.y, &self.pipes);
        let dead = dead_floor || dead_pipes;
        let eff: Effects;
        if dead {
            self.state = GameState::DeathScreen;
            reset_bird(&mut self.bird);
            self.pipes = Vec::new();
            eff = Effects {
                play_flop: impulse,
                play_death: true,
                woho_count: woho,
                save_highscore: Some(self.highscore.0),
            };
        } else {
            eff = Effects {
                play_flop: impulse,
                play_death: false,
                woho_count: woho,
                save_highscore: None,
            };
        }
        proof {
            assert(move_rel(pre.pipes@, mid, dt as int, gap_y as int));
            assert(bird_step_rel(pre.bird, b1, dt as int, impulse, pre.bird_half_extent as int));
            assert(bird_dead(b1, pre.bird_half_extent as int, scored_pool(mid, BIRD_X as int))
                == dead);
        }
        eff
    }

    /// Enters the playing state: resets the score, respawns the actor,
    /// and spawns a fresh pool from five random gap draws.
    fn enter_game(&mut self)
        requires
            old(self).wf(),
        ensures
            final(self).wf(),
            enter_game_rel(*old(self), *final(self)),
            final(self).events == old(self).events,
            final(self).state == GameState::Game,
    {
        self.score = Score(0);
        self.bird = Bird::spawn();
        let mut draws: Vec<i64> = Vec::new();
        let mut k: usize = 0;
        while k < N_PAIRS
            invariant
                0 <= k <= N_PAIRS,
                draws@.len() == k,
                forall|j: int|
                    0 <= j < k ==> PIPE_Y_RANGE_MIN <= #[trigger] draws@[j] <= PIPE_Y_RANGE_MAX,
            decreases N_PAIRS - k,
        {
            let g = random_in_range(PIPE_Y_RANGE_MIN, PIPE_Y_RANGE_MAX + 1);
            draws.push(g);
            k += 1;
        }
        self.pipes = spawn_pipes(&draws);
        self.state = GameState::Game;
        proof {
            assert(spawn_rel(draws@, self.pipes@));
        }
    }

    /// One full frame step.  Drains the buffered impulses exactly once,
    /// then runs what the active state permits: the splash timer counts
    /// down once to the menu; the menu and the death screen enter the
    /// playing state on confirm; the playing state advances the whole
    /// simulation with a fresh random gap draw.
    #[verifier::rlimit(60)]
    pub fn step(&mut self, dt: i64, confirm: bool) -> (eff: Effects)
        requires
            old(self).wf(),
            0 <= dt <= DT_LIMIT,
            old(self).pipes_within_limit(),
            old(self).score.0 + old(self).pipes@.len() <= usize::MAX,
        ensures
            final(self).wf(),
            step_rel(*old(self), *final(self), dt as int, confirm, eff),
    {
        let ghost pre = *self;
        let drained = self.events.drain_all();
        let impulse = drained.len() > 0;
        let eff: Effects = match self.state {
            GameState::Splash => {
                let rem = if dt < self.splash_remaining_ms {
                    self.splash_remaining_ms - dt
                } else {
                    0
                };
                self.splash_remaining_ms = rem;
                if rem == 0 {
                    self.state = GameState::Menu;
                }
                Effects { play_flop: false, play_death: false, woho_count: 0, save_highscore: None }
            },
            GameState::Menu => {
                if confirm {
                    self.enter_game();
                }
                Effects { play_flop: false, play_death: false, woho_count: 0, save_highscore: None }
            },
            GameState::DeathScreen => {
                if confirm {
                    self.enter_game();
                }
                Effects { play_flop: false, play_death: false, woho_count: 0, save_highscore: None }
            },
            GameState::Game => {
                let gap_y = random_in_range(PIPE_Y_RANGE_MIN, PIPE_Y_RANGE_MAX);
                let eff = self.step_game(dt, impulse, gap_y);
                proof {
                    assert(impulse == (pre.events.count() > 0));
                    assert(playing_step_rel(
                        pre,
                        *self,
                        dt as int,
                        impulse,
                        gap_y as int,
                        eff,
                    ));
                    assert(playing_step_rel(
                        pre,
                        *self,
                        dt as int,
                        pre.events.count() > 0,
                        gap_y as int,
                        eff,
                    ));
                }
                eff
            },
        };
        proof {
            assert(step_rel(pre, *self, dt as int, confirm, eff));
        }
        eff
    }
}

} // verus!
