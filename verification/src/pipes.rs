//! The obstacle (pipe) pool: a fixed set of paired obstacles, each pair
//! sharing one randomized gap center.  Off-screen obstacles are not
//! destroyed but recycled to the right end of the runway.
use vstd::prelude::*;

use crate::geometry::{circle_box_hit, lemma_intersects_mirror, make_aabb, Aabb};
use crate::{max_i, DT_LIMIT, UNIT};

verus! {

/// Half of the vertical opening between the two members of a pair
/// (the full opening is 120 world units).
pub const PIPE_HALF_OPENING: i64 = 60_000_000_000;

/// Horizontal spacing between consecutive pairs, and the distance past the
/// current frontier at which a recycled obstacle reappears (250 world units).
pub const PIPE_GAP: i64 = 250_000_000_000;

/// Leftward obstacle speed in nano-units per millisecond (150 world units
/// per second).
pub const PIPE_SPEED: i64 = 150_000_000;

/// Smallest gap center a random draw may produce, in world units.
pub const PIPE_Y_RANGE_MIN: i64 = 70;

/// Largest gap center a random draw may produce, in world units.
pub const PIPE_Y_RANGE_MAX: i64 = 300;

/// Half the width of an obstacle sprite (52 world units wide).
pub const PIPE_HALF_WIDTH: i64 = 26_000_000_000;

/// Half the height of an obstacle sprite (320 world units tall).
pub const PIPE_HALF_HEIGHT: i64 = 160_000_000_000;

/// An obstacle whose anchor has moved left of this x position is recycled.
pub const PIPE_RECYCLE_X: i64 = -52_000_000_000;

/// The x position of the first pair when the pool is spawned
/// (400 world units).
pub const SPAWN_BASE_X: i64 = 400_000_000_000;

/// Number of obstacle pairs in the pool.
pub const N_PAIRS: usize = 5;

/// Bound on obstacle x positions accepted by a step; keeps the recycle
/// target and the collision test inside the machine's integer range.
pub const PIPE_X_LIMIT: i64 = 2_000_000_000_000_000_000;

/// Bound on the coordinates the obstacle box and the collision sweep
/// accept; one step's movement and recycling stay within it whenever the
/// pool starts within `PIPE_X_LIMIT`.
pub const PIPE_COORD_LIMIT: i64 = 3_000_000_000_000_000_000;

/// One obstacle instance.  Two instances form a pair: the unflipped member
/// extends upward from its anchor, the flipped member downward.
#[derive(Clone, Copy, Debug, PartialEq, Eq, Structural)]
pub struct Pipe {
    /// Anchor x position in nano-units.
    pub x: i64,
    /// Anchor y position in nano-units.
    pub y: i64,
    /// Whether this is the downward-extending (top) member of its pair;
    /// scoring is attributed only to flipped members.
    pub flipped: bool,
    /// Whether the actor has already passed this obstacle.
    pub passed: bool,
}

/// The pair invariant: members `2k` (bottom, unflipped) and `2k + 1`
/// (top, flipped) share one x position and one `passed` flag, and their
/// anchors are a full opening apart.
pub open spec fn pair_ok(s: Seq<Pipe>, k: int) -> bool {
    &&& !s[2 * k].flipped
    &&& s[2 * k + 1].flipped
    &&& s[2 * k].x == s[2 * k + 1].x
    &&& s[2 * k].passed == s[2 * k + 1].passed
    &&& s[2 * k + 1].y == s[2 * k].y + 2 * PIPE_HALF_OPENING
    &&& s[2 * k].x >= PIPE_RECYCLE_X
    &&& PIPE_Y_RANGE_MIN * UNIT - PIPE_HALF_OPENING <= s[2 * k].y <= PIPE_Y_RANGE_MAX * UNIT
        - PIPE_HALF_OPENING
}

/// Well-formedness of the whole pool: a fixed number of pairs, each
/// satisfying the pair invariant.
pub open spec fn pool_wf(s: Seq<Pipe>) -> bool {
    &&& s.len() == 2 * N_PAIRS
    &&& forall|k: int| 0 <= k < N_PAIRS ==> #[trigger] pair_ok(s, k)
}

/// The largest anchor x position in the pool (0 for an empty pool,
/// echoing that no recycling can happen then).
pub open spec fn seq_max_x(s: Seq<Pipe>) -> int
    decreases s.len(),
{
    if s.len() == 0 {
        0
    } else if s.len() == 1 {
        s[0].x as int
    } else {
        max_i(seq_max_x(s.drop_last()), s.last().x as int)
    }
}

/// Every element is at most the pool's maximum x.
pub proof fn lemma_seq_max_x_ge(s: Seq<Pipe>, i: int)
    requires
        0 <= i < s.len(),
    ensures
        s[i].x <= seq_max_x(s),
    decreases s.len(),
{
    if s.len() > 1 && i < s.len() - 1 {
        lemma_seq_max_x_ge(s.drop_last(), i);
    }
}

/// The pool's maximum x is attained by some element.
pub proof fn lemma_seq_max_x_attained(s: Seq<Pipe>)
    requires
        s.len() > 0,
    ensures
        exists|j: int| 0 <= j < s.len() && s[j].x == seq_max_x(s),
    decreases s.len(),
{
    if s.len() == 1 {
        assert(s[0].x == seq_max_x(s));
    } else {
        lemma_seq_max_x_attained(s.drop_last());
        if seq_max_x(s) == s.last().x {
            assert(s[s.len() - 1].x == seq_max_x(s));
        } else {
            let j = choose|j: int|
                0 <= j < s.drop_last().len() && s.drop_last()[j].x == seq_max_x(s.drop_last());
            assert(s[j].x == seq_max_x(s));
        }
    }
}

/// Where an obstacle's anchor stands after moving left for `dt`
/// milliseconds.
pub open spec fn moved_x(x0: int, dt: int) -> int {
    x0 - PIPE_SPEED * dt
}

/// Whether an obstacle crosses the recycle threshold during a step of
/// `dt` milliseconds.
pub open spec fn pipe_recycles(p: Pipe, dt: int) -> bool {
    moved_x(p.x as int, dt) < PIPE_RECYCLE_X
}

/// The x position a recycled obstacle is teleported to: one spacing past
/// the pool's pre-step frontier.
pub open spec fn recycle_target(s: Seq<Pipe>) -> int {
    seq_max_x(s) + PIPE_GAP
}

/// The anchor y given to a recycled obstacle for a gap center drawn in
/// world units.
pub open spec fn recycled_y(flipped: bool, gap_y: int) -> int {
    if flipped {
        gap_y * UNIT + PIPE_HALF_OPENING
    } else {
        gap_y * UNIT - PIPE_HALF_OPENING
    }
}

/// How one obstacle of the pre-step pool `s0` relates to its post-step
/// value: moved left, or recycled to the frontier with a fresh gap and a
/// cleared `passed` flag.
pub open spec fn moved_pipe_ok(s0: Seq<Pipe>, p0: Pipe, p1: Pipe, dt: int, gap_y: int) -> bool {
    if pipe_recycles(p0, dt) {
        &&& p1.x == recycle_target(s0)
        &&& p1.y == recycled_y(p0.flipped, gap_y)
        &&& p1.flipped == p0.flipped
        &&& !p1.passed
    } else {
        &&& p1.x == moved_x(p0.x as int, dt)
        &&& p1.y == p0.y
        &&& p1.flipped == p0.flipped
        &&& p1.passed == p0.passed
    }
}

/// The full movement/recycling relation between the pool before and after
/// one step.
pub open spec fn move_rel(s0: Seq<Pipe>, s1: Seq<Pipe>, dt: int, gap_y: int) -> bool {
    &&& s1.len() == s0.len()
    &&& forall|i: int|
        0 <= i < s0.len() ==> #[trigger] moved_pipe_ok(s0, s0[i], s1[i], dt, gap_y)
}

/// Advances every obstacle left by the step's displacement; any obstacle
/// crossing the recycle threshold is teleported one spacing past the
/// pre-step frontier, with the step's single shared gap draw and a cleared
/// `passed` flag.
#[verifier::loop_isolation(false)]
pub fn move_pipes(pipes: &mut Vec<Pipe>, dt: i64, gap_y: i64)
    requires
        0 <= dt <= DT_LIMIT,
        PIPE_Y_RANGE_MIN <= gap_y <= PIPE_Y_RANGE_MAX,
        forall|i: int|
            0 <= i < old(pipes)@.len() ==> PIPE_RECYCLE_X <= #[trigger] old(pipes)@[i].x
                <= PIPE_X_LIMIT,
    ensures
        move_rel(old(pipes)@, final(pipes)@, dt as int, gap_y as int),
{
    let ghost s0 = pipes@;
    if pipes.len() == 0 {
        return ;
    }
    let mut max_x: i64 = pipes[0].x;
    let mut i: usize = 1;
    while i < pipes.len()
        invariant
            1 <= i <= s0.len(),
            pipes@ == s0,
            max_x == seq_max_x(s0.take(i as int)),
        decreases s0.len() - i,
    {
        proof {
            assert(s0.take(i + 1).drop_last() =~= s0.take(i as int));
        }
        if pipes[i].x > max_x {
            max_x = pipes[i].x;
        }
        i += 1;
    }
    proof {
        assert(s0.take(s0.len() as int) =~= s0);
        lemma_seq_max_x_attained(s0);
    }
    let target: i64 = max_x + PIPE_GAP;
    let d: i64 = PIPE_SPEED * dt;
    let mut out: Vec<Pipe> = Vec::new();
    let mut i: usize = 0;
    while i < pipes.len()
        invariant
            0 <= i <= s0.len(),
            pipes@ == s0,
            out@.len() == i,
            target == recycle_target(s0),
            d == PIPE_SPEED * dt,
            forall|k: int|
                0 <= k < i ==> #[trigger] moved_pipe_ok(s0, s0[k], out@[k], dt as int, gap_y as int),
        decreases s0.len() - i,
    {
        let p = pipes[i];
        let nx = p.x - d;
        if nx < PIPE_RECYCLE_X {
            let ny = if p.flipped {
                gap_y * UNIT + PIPE_HALF_OPENING
            } else {
                gap_y * UNIT - PIPE_HALF_OPENING
            };
            out.push(Pipe { x: target, y: ny, flipped: p.flipped, passed: false });
        } else {
            out.push(Pipe { x: nx, y: p.y, flipped: p.flipped, passed: p.passed });
        }
        i += 1;
    }
    *pipes = out;
}

/// How a freshly spawned pool relates to the five gap draws it was built
/// from: pair `k` stands `k` spacings past the base position, its members
/// one opening apart around the drawn gap center.
pub open spec fn spawned_pair_ok(draws: Seq<i64>, s: Seq<Pipe>, k: int) -> bool {
    &&& s[2 * k].x == SPAWN_BASE_X + k * PIPE_GAP
    &&& s[2 * k + 1].x == SPAWN_BASE_X + k * PIPE_GAP
    &&& s[2 * k].y == draws[k] * UNIT - PIPE_HALF_OPENING
    &&& s[2 * k + 1].y == draws[k] * UNIT + PIPE_HALF_OPENING
    &&& !s[2 * k].flipped
    &&& s[2 * k + 1].flipped
    &&& !s[2 * k].passed
    &&& !s[2 * k + 1].passed
}

/// The relation between the gap draws and the whole spawned pool.
pub open spec fn spawn_rel(draws: Seq<i64>, s: Seq<Pipe>) -> bool {
    &&& s.len() == 2 * N_PAIRS
    &&& forall|k: int| 0 <= k < N_PAIRS ==> #[trigger] spawned_pair_ok(draws, s, k)
}

/// Builds the fixed pool of obstacle pairs, one pair per gap draw, spaced
/// uniformly from the base position.
#[verifier::loop_isolation(false)]
pub fn spawn_pipes(gap_ys: &Vec<i64>) -> (pipes: Vec<Pipe>)
    requires
        gap_ys@.len() == N_PAIRS,
        forall|k: int|
            0 <= k < N_PAIRS ==> PIPE_Y_RANGE_MIN <= #[trigger] gap_ys@[k] <= PIPE_Y_RANGE_MAX,
    ensures
        spawn_rel(gap_ys@, pipes@),
        pool_wf(pipes@),
{
    let mut pipes: Vec<Pipe> = Vec::new();
    let mut k: usize = 0;
    while k < N_PAIRS
        invariant
            0 <= k <= N_PAIRS,
            pipes@.len() == 2 * k,
            forall|j: int| 0 <= j < k ==> #[trigger] spawned_pair_ok(gap_ys@, pipes@, j),
        decreases N_PAIRS - k,
    {
        let x: i64 = SPAWN_BASE_X + (k as i64) * PIPE_GAP;
        let gy: i64 = gap_ys[k];
        let (top_y, bot_y) = get_pipe_y(gy * UNIT);
        let ghost prev = pipes@;
        pipes.push(Pipe { x, y: bot_y, flipped: false, passed: false });
        pipes.push(Pipe { x, y: top_y, flipped: true, passed: false });
        proof {
            assert forall|j: int| 0 <= j < k + 1 implies #[trigger] spawned_pair_ok(
                gap_ys@,
                pipes@,
                j,
            ) by {
                if j < k {
                    assert(spawned_pair_ok(gap_ys@, prev, j));
                }
            }
        }
        k += 1;
    }
    proof {
        assert forall|j: int| 0 <= j < N_PAIRS implies #[trigger] pair_ok(pipes@, j) by {
            assert(spawned_pair_ok(gap_ys@, pipes@, j));
        }
    }
    pipes
}

/// Splits a gap center into the anchor positions of a pair: the flipped
/// (top) member half an opening above it, the unflipped (bottom) member
/// half an opening below.
pub fn get_pipe_y(gap_center_y: i64) -> (res: (i64, i64))
    requires
        -PIPE_X_LIMIT <= gap_center_y <= PIPE_X_LIMIT,
    ensures
        res.0 == gap_center_y + PIPE_HALF_OPENING,
        res.1 == gap_center_y - PIPE_HALF_OPENING,
{
    (gap_center_y + PIPE_HALF_OPENING, gap_center_y - PIPE_HALF_OPENING)
}

/// The vertical center of the box an obstacle occupies: flipped obstacles
/// extend downward from their anchor, unflipped ones upward.
pub open spec fn pipe_box_center_y(y: int, flipped: bool) -> int {
    if flipped {
        y + PIPE_HALF_HEIGHT
    } else {
        y - PIPE_HALF_HEIGHT
    }
}

/// Whether the circle with center `(cx, cy)` and radius `r` meets the box
/// obstacle `p` occupies.
pub open spec fn pipe_hit(p: Pipe, cx: int, cy: int, r: int) -> bool {
    circle_box_hit(
        cx,
        cy,
        r,
        p.x - PIPE_HALF_WIDTH,
        pipe_box_center_y(p.y as int, p.flipped) - PIPE_HALF_HEIGHT,
        p.x + PIPE_HALF_WIDTH,
        pipe_box_center_y(p.y as int, p.flipped) + PIPE_HALF_HEIGHT,
    )
}

/// The box an obstacle occupies, derived from its anchor and orientation.
pub fn pipe_to_aabb2d(x: i64, y: i64, flipped: bool) -> (b: Aabb)
    requires
        -PIPE_COORD_LIMIT <= x <= PIPE_COORD_LIMIT,
        -PIPE_COORD_LIMIT <= y <= PIPE_COORD_LIMIT,
    ensures
        b.min_x == x - PIPE_HALF_WIDTH,
        b.max_x == x + PIPE_HALF_WIDTH,
        b.min_y == pipe_box_center_y(y as int, flipped) - PIPE_HALF_HEIGHT,
        b.max_y == pipe_box_center_y(y as int, flipped) + PIPE_HALF_HEIGHT,
        b.wf(),
{
    let cy = if flipped {
        y + PIPE_HALF_HEIGHT
    } else {
        y - PIPE_HALF_HEIGHT
    };
    make_aabb(x, cy, PIPE_HALF_WIDTH, PIPE_HALF_HEIGHT)
}

/// Recycling spacing law: a recycled obstacle lands exactly one spacing
/// past the pool's pre-step frontier; relative spacing among obstacles
/// that merely move is preserved exactly; an obstacle recycled in a step
/// stands at least one spacing beyond every obstacle that merely moved;
/// and all obstacles recycled in one step share one x position.
pub proof fn lemma_recycle_spacing(s0: Seq<Pipe>, s1: Seq<Pipe>, dt: int, gap_y: int, i: int, j: int)
    requires
        move_rel(s0, s1, dt, gap_y),
        0 <= i < s0.len(),
        0 <= j < s0.len(),
        dt >= 0,
    ensures
        pipe_recycles(s0[i], dt) ==> s1[i].x == seq_max_x(s0) + PIPE_GAP,
        pipe_recycles(s0[i], dt) && !pipe_recycles(s0[j], dt) ==> s1[i].x >= s1[j].x + PIPE_GAP,
        !pipe_recycles(s0[i], dt) && !pipe_recycles(s0[j], dt) ==> s1[i].x - s1[j].x == s0[i].x
            - s0[j].x,
        pipe_recycles(s0[i], dt) && pipe_recycles(s0[j], dt) ==> s1[i].x == s1[j].x,
{
    assert(moved_pipe_ok(s0, s0[i], s1[i], dt, gap_y));
    assert(moved_pipe_ok(s0, s0[j], s1[j], dt, gap_y));
    lemma_seq_max_x_ge(s0, j);
}

/// Uniform spacing at spawn: consecutive pairs of a freshly spawned pool
/// stand exactly one spacing apart.
pub proof fn lemma_spawn_spacing(draws: Seq<i64>, s: Seq<Pipe>, k: int)
    requires
        spawn_rel(draws, s),
        0 <= k < N_PAIRS - 1,
    ensures
        s[2 * (k + 1)].x - s[2 * k].x == PIPE_GAP,
{
    assert(spawned_pair_ok(draws, s, k));
    assert(spawned_pair_ok(draws, s, k + 1));
}

/// One movement/recycling step preserves the pool invariant: the members
/// of a pair share one x position, so they cross the recycle threshold
/// together and are rebuilt from the same gap draw.
pub proof fn lemma_move_preserves_pool_wf(s0: Seq<Pipe>, s1: Seq<Pipe>, dt: int, gap_y: int)
    requires
        pool_wf(s0),
        move_rel(s0, s1, dt, gap_y),
        PIPE_Y_RANGE_MIN <= gap_y <= PIPE_Y_RANGE_MAX,
    ensures
        pool_wf(s1),
{
    assert forall|k: int| 0 <= k < N_PAIRS implies #[trigger] pair_ok(s1, k) by {
        assert(pair_ok(s0, k));
        assert(moved_pipe_ok(s0, s0[2 * k], s1[2 * k], dt, gap_y));
        assert(moved_pipe_ok(s0, s0[2 * k + 1], s1[2 * k + 1], dt, gap_y));
        lemma_seq_max_x_ge(s0, 2 * k);
    }
}

/// Every coordinate of a well-formed pool whose x positions stay within
/// the coordinate bound is acceptable to the collision sweep.
pub proof fn lemma_pool_collision_bounds(s: Seq<Pipe>)
    requires
        pool_wf(s),
        forall|i: int| 0 <= i < s.len() ==> (#[trigger] s[i]).x <= PIPE_COORD_LIMIT,
    ensures
        forall|i: int|
            0 <= i < s.len() ==> -PIPE_COORD_LIMIT <= (#[trigger] s[i]).x <= PIPE_COORD_LIMIT
                && -PIPE_COORD_LIMIT <= s[i].y <= PIPE_COORD_LIMIT,
{
    assert forall|i: int|
        0 <= i < s.len() implies -PIPE_COORD_LIMIT <= (#[trigger] s[i]).x <= PIPE_COORD_LIMIT
        && -PIPE_COORD_LIMIT <= s[i].y <= PIPE_COORD_LIMIT by {
        let k = i / 2;
        assert(i == 2 * k || i == 2 * k + 1);
        assert(pair_ok(s, k));
    }
}

/// Collision symmetry across flip orientation: the box of a flipped
/// obstacle is the mirror image, across the horizontal line through the
/// anchor, of the unflipped box at the same anchor, and the intersection
/// test gives identical results under that mirroring.
pub proof fn lemma_pipe_flip_mirror(p: Pipe, q: Pipe, cx: int, cy: int, r: int)
    requires
        p.flipped,
        !q.flipped,
        q.x == p.x,
        q.y == p.y,
    ensures
        pipe_hit(p, cx, cy, r) == pipe_hit(q, cx, 2 * p.y - cy, r),
{
    lemma_intersects_mirror(
        cx,
        cy,
        r,
        p.x - PIPE_HALF_WIDTH,
        p.y as int,
        p.x + PIPE_HALF_WIDTH,
        p.y + 2 * PIPE_HALF_HEIGHT,
        p.y as int,
    );
}

} // verus!
