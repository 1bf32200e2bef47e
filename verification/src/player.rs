//! The actor (bird): vertical position, velocity and a cosmetic tilt
//! angle, integrated each frame from gravity and discrete jump impulses;
//! plus the bounds check, the obstacle collision check, and scoring.
use vstd::prelude::*;

use crate::geometry::{circle_aabb_intersect, intersects, make_circle, Aabb, Circle};
use crate::pipes::{
    pair_ok, pipe_hit, pipe_to_aabb2d, pool_wf, Pipe, N_PAIRS, PIPE_COORD_LIMIT, PIPE_X_LIMIT,
};
use crate::{clamp_i, max_i, Highscore, Score, DT_LIMIT, SCREEN_HEIGHT};

verus! {

/// Downward acceleration in nano-units per millisecond, per millisecond of
/// step time (-600 world units per second squared).
pub const GRAVITY: i64 = -600_000;

/// Terminal fall velocity in nano-units per millisecond (-800 world units
/// per second).
pub const MAX_FALL_SPEED: i64 = -800_000_000;

/// The velocity an impulse sets, in nano-units per millisecond (300 world
/// units per second).
pub const PLAYER_JUMP_SPEED: i64 = 300_000_000;

/// The actor's fixed horizontal world position (200 world units).
pub const BIRD_X: i64 = 200_000_000_000;

/// The actor's spawn height: the middle of the playfield.
pub const BIRD_SPAWN_Y: i64 = 200_000_000_000;

/// The actor's bounding-circle radius: half its sprite height, shrunk by
/// one world unit to forgive grazing contact.
pub const BIRD_RADIUS: i64 = 11_000_000_000;

/// Half the actor's vertical extent used by the floor and ceiling checks.
pub const BIRD_HALF_EXTENT: i64 = 500_000_000;

/// Falling faster than this banks the sprite downward (-110 world units
/// per second); the dead band below zero prevents rotation flicker.
pub const FAST_FALL_THRESHOLD: i64 = -110_000_000;

/// Upward banking rate in nano-degrees per millisecond (600 degrees per
/// second).
pub const ROTATE_UP_RATE: i64 = 600_000_000;

/// Downward banking rate in nano-degrees per millisecond (480 degrees per
/// second).
pub const ROTATE_DOWN_RATE: i64 = 480_000_000;

/// Lower clamp of the tilt angle (-90 degrees).
pub const ANGLE_MIN: i64 = -90_000_000_000;

/// Upper clamp of the tilt angle (30 degrees).
pub const ANGLE_MAX: i64 = 30_000_000_000;

/// Distance the obstacle's anchor must stand behind the actor before the
/// pass counts (30 world units).
pub const PASS_MARGIN: i64 = 30_000_000_000;

/// The actor.  Its horizontal position is the constant `BIRD_X`.
#[derive(Clone, Copy, Debug, PartialEq, Eq, Structural)]
pub struct Bird {
    /// Height above the floor in nano-units; always within the playfield.
    pub y: i64,
    /// Signed vertical velocity in nano-units per millisecond; negative
    /// is falling.
    pub speed: i64,
    /// Cosmetic tilt in nano-degrees, clamped to `[ANGLE_MIN, ANGLE_MAX]`.
    pub angle: i64,
}

impl Bird {
    /// The actor's invariant, established at spawn and preserved by every
    /// step: position clamped into the playfield, velocity between the
    /// terminal fall velocity and the impulse velocity, tilt clamped.
    pub open spec fn wf(self) -> bool {
        &&& 0 <= self.y <= SCREEN_HEIGHT
        &&& MAX_FALL_SPEED <= self.speed <= PLAYER_JUMP_SPEED
        &&& ANGLE_MIN <= self.angle <= ANGLE_MAX
    }

    /// The spawn pose: mid-screen, at rest, level.
    pub fn spawn() -> (b: Bird)
        ensures
            b.y == BIRD_SPAWN_Y,
            b.speed == 0,
            b.angle == 0,
            b.wf(),
    {
        Bird { y: BIRD_SPAWN_Y, speed: 0, angle: 0 }
    }
}

/// The velocity after consuming the step's input: an impulse overrides any
/// existing velocity outright; otherwise gravity pulls the velocity down
/// to at most the terminal fall velocity.
pub open spec fn speed_after_input(v0: int, dt: int, impulse: bool) -> int {
    if impulse {
        PLAYER_JUMP_SPEED as int
    } else {
        max_i(v0 + GRAVITY * dt, MAX_FALL_SPEED as int)
    }
}

/// The height the step's integration reaches before clamping.
pub open spec fn unclamped_y(y0: int, v1: int, dt: int) -> int {
    y0 + v1 * dt
}

/// The velocity at the end of a step: zeroed when the integration
/// overshoots past the ceiling, which stops runaway height gain from
/// stacked impulses.
pub open spec fn speed_after_ceiling(y0: int, v0: int, dt: int, impulse: bool, half: int) -> int {
    let v1 = speed_after_input(v0, dt, impulse);
    if unclamped_y(y0, v1, dt) - half > SCREEN_HEIGHT {
        0
    } else {
        v1
    }
}

/// The height at the end of a step, clamped into the playfield.
pub open spec fn y_after(y0: int, v0: int, dt: int, impulse: bool) -> int {
    clamp_i(unclamped_y(y0, speed_after_input(v0, dt, impulse), dt), 0, SCREEN_HEIGHT as int)
}

/// The tilt at the end of a step: banking up while rising, banking down
/// while falling fast, held otherwise; always clamped.
pub open spec fn angle_after(y0: int, v0: int, a0: int, dt: int, impulse: bool, half: int) -> int {
    let v2 = speed_after_ceiling(y0, v0, dt, impulse, half);
    let raw = if v2 > 0 {
        a0 + ROTATE_UP_RATE * dt
    } else if v2 < FAST_FALL_THRESHOLD {
        a0 - ROTATE_DOWN_RATE * dt
    } else {
        a0
    };
    clamp_i(raw, ANGLE_MIN as int, ANGLE_MAX as int)
}

/// How the actor before a step relates to the actor after it.
pub open spec fn bird_step_rel(b0: Bird, b1: Bird, dt: int, impulse: bool, half: int) -> bool {
    &&& b1.speed == speed_after_ceiling(b0.y as int, b0.speed as int, dt, impulse, half)
    &&& b1.y == y_after(b0.y as int, b0.speed as int, dt, impulse)
    &&& b1.angle == angle_after(b0.y as int, b0.speed as int, b0.angle as int, dt, impulse, half)
}

/// One integration step of the actor.  For every step length and any
/// impulse the resulting height stays within the playfield, the velocity
/// never drops below the terminal fall velocity, and an impulse sets the
/// velocity to exactly the impulse velocity (unless the very same step
/// overshoots the ceiling, which zeroes it).
pub fn jump(bird: &mut Bird, dt: i64, impulse: bool, half_extent: i64)
    requires
        old(bird).wf(),
        0 <= dt <= DT_LIMIT,
        0 <= half_extent <= SCREEN_HEIGHT,
    ensures
        bird_step_rel(*old(bird), *final(bird), dt as int, impulse, half_extent as int),
        final(bird).wf(),
        0 <= final(bird).y <= SCREEN_HEIGHT,
        final(bird).speed >= MAX_FALL_SPEED,
        impulse ==> final(bird).speed == PLAYER_JUMP_SPEED || final(bird).speed == 0,
        impulse && old(bird).y + PLAYER_JUMP_SPEED * dt - half_extent <= SCREEN_HEIGHT
            ==> final(bird).speed == PLAYER_JUMP_SPEED,
{
    proof {
        assert(GRAVITY == -600_000 && DT_LIMIT == 10_000_000);
        assert((-6_000_000_000_000) <= GRAVITY * dt && GRAVITY * dt <= 0) by (nonlinear_arith)
            requires
                GRAVITY == -600_000,
                0 <= dt <= 10_000_000,
        ;
    }
    if impulse {
        bird.speed = PLAYER_JUMP_SPEED;
    } else {
        let fallen = bird.speed + GRAVITY * dt;
        bird.speed = if fallen > MAX_FALL_SPEED {
            fallen
        } else {
            MAX_FALL_SPEED
        };
    }
    proof {
        assert(MAX_FALL_SPEED <= bird.speed <= PLAYER_JUMP_SPEED);
        assert((-8_000_000_000_000_000) <= bird.speed * dt && bird.speed * dt
            <= 3_000_000_000_000_000) by (nonlinear_arith)
            requires
                -800_000_000 <= bird.speed <= 300_000_000,
                0 <= dt <= 10_000_000,
        ;
    }
    let yu = bird.y + bird.speed * dt;
    if yu - half_extent > SCREEN_HEIGHT {
        bird.speed = 0;
    }
    bird.y = if yu < 0 {
        0
    } else if yu > SCREEN_HEIGHT {
        SCREEN_HEIGHT
    } else {
        yu
    };
    proof {
        assert(ROTATE_UP_RATE == 600_000_000 && ROTATE_DOWN_RATE == 480_000_000);
        assert(0 <= ROTATE_UP_RATE * dt && ROTATE_UP_RATE * dt <= 6_000_000_000_000_000)
            by (nonlinear_arith)
            requires
                ROTATE_UP_RATE == 600_000_000,
                0 <= dt <= 10_000_000,
        ;
        assert(0 <= ROTATE_DOWN_RATE * dt && ROTATE_DOWN_RATE * dt <= 4_800_000_000_000_000)
            by (nonlinear_arith)
            requires
                ROTATE_DOWN_RATE == 480_000_000,
                0 <= dt <= 10_000_000,
        ;
    }
    if bird.speed > 0 {
        let raw = bird.angle + ROTATE_UP_RATE * dt;
        bird.angle = if raw > ANGLE_MAX {
            ANGLE_MAX
        } else if raw < ANGLE_MIN {
            ANGLE_MIN
        } else {
            raw
        };
    } else if bird.speed < FAST_FALL_THRESHOLD {
        let raw = bird.angle - ROTATE_DOWN_RATE * dt;
        bird.angle = if raw > ANGLE_MAX {
            ANGLE_MAX
        } else if raw < ANGLE_MIN {
            ANGLE_MIN
        } else {
            raw
        };
    }
}

/// Puts the actor back into its spawn pose.
pub fn reset_bird(bird: &mut Bird)
    ensures
        final(bird).y == BIRD_SPAWN_Y,
        final(bird).speed == 0,
        final(bird).angle == 0,
        final(bird).wf(),
{
    bird.y = BIRD_SPAWN_Y;
    bird.speed = 0;
    bird.angle = 0;
}

/// The floor check: the actor is dead exactly when the bottom of its
/// vertical extent has touched the floor.  The ceiling is never a death
/// condition.
pub fn check_bounds(y: i64, half_extent: i64) -> (dead: bool)
    requires
        0 <= y <= SCREEN_HEIGHT,
        0 <= half_extent <= SCREEN_HEIGHT,
    ensures
        dead == (y - half_extent <= 0),
{
    y - half_extent <= 0
}

/// Whether the actor's bounding circle meets a bounding box.
pub fn bird_collides(bird_circle: &Circle, bounding_box: &Aabb) -> (hit: bool)
    requires
        bird_circle.wf(),
        bounding_box.wf(),
    ensures
        hit == circle_aabb_intersect(*bird_circle, *bounding_box),
{
    intersects(bird_circle, bounding_box)
}

/// Whether any obstacle of the pool hits the actor's bounding circle at
/// height `cy`.
pub open spec fn any_pipe_hit(s: Seq<Pipe>, cy: int) -> bool {
    exists|i: int|
        0 <= i < s.len() && #[trigger] pipe_hit(s[i], BIRD_X as int, cy, BIRD_RADIUS as int)
}

/// Tests the actor's bounding circle against every obstacle's box; any
/// true intersection is a death, first hit wins.
#[verifier::loop_isolation(false)]
pub fn check_pipe_collision(bird_y: i64, pipes: &Vec<Pipe>) -> (hit: bool)
    requires
        0 <= bird_y <= SCREEN_HEIGHT,
        forall|i: int|
            0 <= i < pipes@.len() ==> -PIPE_COORD_LIMIT <= (#[trigger] pipes@[i]).x
                <= PIPE_COORD_LIMIT && -PIPE_COORD_LIMIT <= pipes@[i].y <= PIPE_COORD_LIMIT,
    ensures
        hit == any_pipe_hit(pipes@, bird_y as int),
{
    let c = make_circle(BIRD_X, bird_y, BIRD_RADIUS);
    let mut i: usize = 0;
    while i < pipes.len()
        invariant
            0 <= i <= pipes@.len(),
            c.x == BIRD_X && c.y == bird_y && c.radius == BIRD_RADIUS,
            forall|k: int|
                0 <= k < i ==> !#[trigger] pipe_hit(pipes@[k], BIRD_X as int, bird_y as int,
                    BIRD_RADIUS as int,
                ),
        decreases pipes@.len() - i,
    {
        let p = pipes[i];
        let b = pipe_to_aabb2d(p.x, p.y, p.flipped);
        if bird_collides(&c, &b) {
            proof {
                assert(pipe_hit(pipes@[i as int], BIRD_X as int, bird_y as int,
                    BIRD_RADIUS as int,
                ));
            }
            return true;
        }
        i += 1;
    }
    false
}

/// Whether an obstacle crosses behind the actor this step: not yet marked
/// passed, and its anchor stands a full margin behind the actor.
pub open spec fn newly_passed(p: Pipe, bird_x: int) -> bool {
    !p.passed && p.x < bird_x - PASS_MARGIN
}

/// The number of score points a scoring sweep yields: one per obstacle
/// that is newly passed and flipped.
pub open spec fn score_gain(s: Seq<Pipe>, bird_x: int) -> nat
    decreases s.len(),
{
    if s.len() == 0 {
        0
    } else {
        score_gain(s.drop_last(), bird_x) + (if newly_passed(s.last(), bird_x)
            && s.last().flipped {
            1nat
        } else {
            0nat
        })
    }
}

/// An obstacle after the scoring sweep: marked passed once crossed,
/// everything else unchanged.
pub open spec fn passed_pipe(p: Pipe, bird_x: int) -> Pipe {
    Pipe { passed: p.passed || p.x < bird_x - PASS_MARGIN, ..p }
}

/// How the pool before the scoring sweep relates to the pool after it.
pub open spec fn pass_rel(s0: Seq<Pipe>, s1: Seq<Pipe>, bird_x: int) -> bool {
    &&& s1.len() == s0.len()
    &&& forall|i: int| 0 <= i < s0.len() ==> #[trigger] s1[i] == passed_pipe(s0[i], bird_x)
}

/// The scoring sweep: marks every crossed obstacle as passed; each newly
/// passed flipped obstacle adds one point, and the high score follows the
/// score whenever the score exceeds it.
#[verifier::loop_isolation(false)]
pub fn give_score_for_passing(
    pipes: &mut Vec<Pipe>,
    bird_x: i64,
    score: &mut Score,
    highscore: &mut Highscore,
) -> (scored: usize)
    requires
        -PIPE_X_LIMIT <= bird_x <= PIPE_X_LIMIT,
        old(score).0 + old(pipes)@.len() <= usize::MAX,
    ensures
        pass_rel(old(pipes)@, final(pipes)@, bird_x as int),
        final(score).0 == old(score).0 + score_gain(old(pipes)@, bird_x as int),
        scored == score_gain(old(pipes)@, bird_x as int),
        final(highscore).0 == (if score_gain(old(pipes)@, bird_x as int) > 0 {
            max_i(old(highscore).0 as int, final(score).0 as int)
        } else {
            old(highscore).0 as int
        }),
{
    let ghost s0 = pipes@;
    let threshold = bird_x - PASS_MARGIN;
    let mut out: Vec<Pipe> = Vec::new();
    let mut gained: usize = 0;
    let mut i: usize = 0;
    while i < pipes.len()
        invariant
            0 <= i <= s0.len(),
            pipes@ == s0,
            out@.len() == i,
            gained == score_gain(s0.take(i as int), bird_x as int),
            gained <= i,
            score.0 == old(score).0 + gained,
            highscore.0 == (if gained > 0 {
                max_i(old(highscore).0 as int, score.0 as int)
            } else {
                old(highscore).0 as int
            }),
            forall|k: int| 0 <= k < i ==> #[trigger] out@[k] == passed_pipe(s0[k], bird_x as int),
        decreases s0.len() - i,
    {
        proof {
            assert(s0.take(i + 1).drop_last() =~= s0.take(i as int));
        }
        let p = pipes[i];
        if !p.passed && p.x < threshold {
            out.push(Pipe { x: p.x, y: p.y, flipped: p.flipped, passed: true });
            if p.flipped {
                score.0 = score.0 + 1;
                gained = gained + 1;
                if score.0 > highscore.0 {
                    highscore.0 = score.0;
                }
            }
        } else {
            out.push(p);
        }
        i += 1;
    }
    proof {
        assert(s0.take(s0.len() as int) =~= s0);
    }
    *pipes = out;
    gained
}

/// The scoring sweep preserves the pool invariant: the members of a pair
/// share one x position, so they cross the pass threshold together.
pub proof fn lemma_pass_preserves_pool_wf(s0: Seq<Pipe>, s1: Seq<Pipe>, bird_x: int)
    requires
        pool_wf(s0),
        pass_rel(s0, s1, bird_x),
    ensures
        pool_wf(s1),
{
    assert forall|k: int| 0 <= k < N_PAIRS implies #[trigger] pair_ok(s1, k) by {
        assert(pair_ok(s0, k));
        assert(s1[2 * k] == passed_pipe(s0[2 * k], bird_x));
        assert(s1[2 * k + 1] == passed_pipe(s0[2 * k + 1], bird_x));
    }
}

/// Terminal velocity law: with no impulse, a falling or resting actor's
/// velocity decreases with every step of positive length, never drops
/// below the terminal fall velocity, and settles at exactly the terminal
/// fall velocity once gravity has had time to take it there.
pub proof fn lemma_terminal_velocity(b: Bird, dt: int, half: int)
    requires
        b.wf(),
        0 <= dt,
        0 <= half,
        b.speed <= 0,
    ensures
        speed_after_ceiling(b.y as int, b.speed as int, dt, false, half) == max_i(
            b.speed + GRAVITY * dt,
            MAX_FALL_SPEED as int,
        ),
        speed_after_ceiling(b.y as int, b.speed as int, dt, false, half) >= MAX_FALL_SPEED,
        speed_after_ceiling(b.y as int, b.speed as int, dt, false, half) <= b.speed,
        b.speed + GRAVITY * dt <= MAX_FALL_SPEED ==> speed_after_ceiling(
            b.y as int,
            b.speed as int,
            dt,
            false,
            half,
        ) == MAX_FALL_SPEED,
{
    let v1 = speed_after_input(b.speed as int, dt, false);
    assert(GRAVITY * dt <= 0) by (nonlinear_arith)
        requires
            GRAVITY == -600_000,
            dt >= 0,
    ;
    assert(v1 <= 0);
    assert(v1 * dt <= 0) by (nonlinear_arith)
        requires
            v1 <= 0,
            dt >= 0,
    ;
    assert(unclamped_y(b.y as int, v1, dt) <= b.y);
}

/// The velocity after `n` impulse-free steps of `g` velocity change each,
/// floored at the terminal fall velocity.
pub open spec fn fall_speed(v0: int, g: int, n: nat) -> int
    decreases n,
{
    if n == 0 {
        v0
    } else {
        max_i(fall_speed(v0, g, (n - 1) as nat) + g, MAX_FALL_SPEED as int)
    }
}

/// Terminal velocity law, iterated form: over any number of impulse-free
/// steps the velocity is exactly the starting velocity plus the
/// accumulated gravity, floored at the terminal fall velocity — so it
/// converges to exactly the terminal fall velocity once the accumulated
/// gravity reaches it, and never goes below.
pub proof fn lemma_terminal_velocity_iterated(v0: int, g: int, n: nat)
    requires
        MAX_FALL_SPEED <= v0,
        g <= 0,
    ensures
        fall_speed(v0, g, n) == if n == 0 {
            v0
        } else {
            max_i(v0 + n * g, MAX_FALL_SPEED as int)
        },
        fall_speed(v0, g, n) >= MAX_FALL_SPEED,
        v0 + n * g <= MAX_FALL_SPEED ==> fall_speed(v0, g, n) == MAX_FALL_SPEED,
    decreases n,
{
    if n > 0 {
        lemma_terminal_velocity_iterated(v0, g, (n - 1) as nat);
        assert((n - 1) * g + g == n * g) by (nonlinear_arith);
        assert(n * g <= (n - 1) * g) by (nonlinear_arith)
            requires
                g <= 0,
        ;
    }
}

/// Scoring idempotence law: a pool whose obstacles are all already marked
/// passed yields no points, however often the sweep runs.
pub proof fn lemma_scoring_idempotent(s: Seq<Pipe>, bird_x: int)
    requires
        forall|i: int| 0 <= i < s.len() ==> (#[trigger] s[i]).passed,
    ensures
        score_gain(s, bird_x) == 0,
    decreases s.len(),
{
    if s.len() > 0 {
        lemma_scoring_idempotent(s.drop_last(), bird_x);
    }
}

/// Whether pair `k`'s flipped member is newly passed; within a well-formed
/// pair both members cross together, and only the flipped one scores.
pub open spec fn pair_newly_passed(s: Seq<Pipe>, k: int, bird_x: int) -> bool {
    newly_passed(s[2 * k + 1], bird_x)
}

/// The number of pairs among the first `k` whose flipped member is newly
/// passed.
pub open spec fn pairs_gain(s: Seq<Pipe>, bird_x: int, k: nat) -> nat
    decreases k,
{
    if k == 0 {
        0
    } else {
        pairs_gain(s, bird_x, (k - 1) as nat) + (if pair_newly_passed(s, k - 1, bird_x) {
            1nat
        } else {
            0nat
        })
    }
}

proof fn lemma_gain_pairs_prefix(s: Seq<Pipe>, bird_x: int, k: nat)
    requires
        pool_wf(s),
        k <= N_PAIRS,
    ensures
        score_gain(s.take(2 * k as int), bird_x) == pairs_gain(s, bird_x, k),
    decreases k,
{
    if k == 0 {
        assert(s.take(0).len() == 0);
        assert(score_gain(s.take(0), bird_x) == 0);
    } else {
        lemma_gain_pairs_prefix(s, bird_x, (k - 1) as nat);
        assert(pair_ok(s, k - 1));
        let a = s.take(2 * k as int);
        let b = s.take(2 * k as int - 1);
        let c = s.take(2 * k as int - 2);
        assert(a.drop_last() =~= b);
        assert(b.drop_last() =~= c);
        assert(a.last() == s[2 * k - 1]);
        assert(b.last() == s[2 * k - 2]);
        assert(!s[2 * (k - 1)].flipped);
        assert(s[2 * (k - 1) + 1].flipped);
        assert(score_gain(a, bird_x) == score_gain(b, bird_x) + (if newly_passed(
            s[2 * k - 1],
            bird_x,
        ) && s[2 * k - 1].flipped {
            1nat
        } else {
            0nat
        }));
        assert(score_gain(b, bird_x) == score_gain(c, bird_x));
        assert(c =~= s.take(2 * ((k - 1) as nat) as int));
        assert(pairs_gain(s, bird_x, k) == pairs_gain(s, bird_x, (k - 1) as nat) + (
        if pair_newly_passed(s, k - 1, bird_x) {
            1nat
        } else {
            0nat
        }));
    }
}

/// Scoring exclusivity law: over a well-formed pool the sweep's total
/// gain is exactly the number of pairs whose flipped member is newly
/// passed — one point per passed pair, attributed only to the flipped
/// member.
pub proof fn lemma_scoring_exclusive(s: Seq<Pipe>, bird_x: int)
    requires
        pool_wf(s),
    ensures
        score_gain(s, bird_x) == pairs_gain(s, bird_x, N_PAIRS as nat),
{
    lemma_gain_pairs_prefix(s, bird_x, N_PAIRS as nat);
    assert(s.take(2 * N_PAIRS as int) =~= s);
}

proof fn lemma_pairs_gain_single(s: Seq<Pipe>, bird_x: int, k0: int, k: nat)
    requires
        0 <= k0 < N_PAIRS,
        pair_newly_passed(s, k0, bird_x),
        forall|k2: int|
            0 <= k2 < N_PAIRS && k2 != k0 ==> !#[trigger] pair_newly_passed(s, k2, bird_x),
        k <= N_PAIRS,
    ensures
        pairs_gain(s, bird_x, k) == if k0 < k {
            1nat
        } else {
            0nat
        },
    decreases k,
{
    if k > 0 {
        lemma_pairs_gain_single(s, bird_x, k0, (k - 1) as nat);
    }
}

/// Scoring exclusivity, single-pair form: when exactly one pair of a
/// well-formed pool is newly passed, the sweep yields exactly one point.
pub proof fn lemma_one_pair_one_point(s: Seq<Pipe>, bird_x: int, k0: int)
    requires
        pool_wf(s),
        0 <= k0 < N_PAIRS,
        pair_newly_passed(s, k0, bird_x),
        forall|k2: int|
            0 <= k2 < N_PAIRS && k2 != k0 ==> !#[trigger] pair_newly_passed(s, k2, bird_x),
    ensures
        score_gain(s, bird_x) == 1,
{
    lemma_scoring_exclusive(s, bird_x);
    lemma_pairs_gain_single(s, bird_x, k0, N_PAIRS as nat);
}

} // verus!
