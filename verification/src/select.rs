//! Target-pixel selection: given the goal grid and the current state of the
//! shared canvas, pick the index of the pixel to assign next. Positions where
//! the canvas does not yet match the goal are preferred, with a bounded number
//! of random retries and a final unconditional random fallback.

use vstd::prelude::*;

use crate::grid::Grid;

verus! {

/// A parity constraint on which grid indices are eligible for selection.
#[derive(Clone, Copy, Debug)]
pub enum DitherMode {
    Off,
    Even,
    Odd,
}

/// How selection behaves: the dither constraint and the retry budget spent
/// looking for a mismatched pixel before falling back to any eligible pixel.
#[derive(Clone, Copy, Debug)]
pub struct SelectionConfig {
    pub dither: DitherMode,
    pub max_attempts: u32,
}

/// The fatal configuration error: the grid is too small, or dithering leaves
/// no index to choose from.
#[derive(Clone, Copy, PartialEq, Eq, Structural, Debug)]
pub enum SelectError {
    NoEligibleIndex,
}

/// Whether grid index `i` may be selected under `mode` on a grid of `n`
/// cells. Index 0 is reserved and never eligible. Under `Off` every other
/// index is eligible; under `Even`/`Odd` the eligible indices are `2 * k`
/// respectively `2 * k + 1` for `k` in `[1, n / 2)`.
pub open spec fn is_eligible(mode: DitherMode, n: int, i: int) -> bool {
    match mode {
        DitherMode::Off => 1 <= i < n,
        DitherMode::Even => i % 2 == 0 && 2 <= i < 2 * (n / 2),
        DitherMode::Odd => i % 2 == 1 && 3 <= i < 2 * (n / 2) + 1,
    }
}

/// Whether any index at all is eligible under `mode` on `n` cells.
pub open spec fn has_eligible(mode: DitherMode, n: int) -> bool {
    match mode {
        DitherMode::Off => n >= 2,
        DitherMode::Even => n >= 4,
        DitherMode::Odd => n >= 4,
    }
}

/// `has_eligible` says exactly that the eligible set is nonempty.
pub proof fn lemma_has_eligible_iff(mode: DitherMode, n: int)
    ensures
        has_eligible(mode, n) <==> exists|i: int| is_eligible(mode, n, i),
{
    if has_eligible(mode, n) {
        match mode {
            DitherMode::Off => assert(is_eligible(mode, n, 1)),
            DitherMode::Even => assert(is_eligible(mode, n, 2)),
            DitherMode::Odd => assert(is_eligible(mode, n, 3)),
        }
    }
}

/// Every eligible index is a valid, nonzero grid index of the parity its mode
/// demands.
pub proof fn lemma_eligible_bounds(mode: DitherMode, n: int, i: int)
    requires
        is_eligible(mode, n, i),
    ensures
        1 <= i < n,
        mode is Even ==> i % 2 == 0,
        mode is Odd ==> i % 2 == 1,
{
}

/// If exactly one index is eligible, every eligible index is that one: a
/// selection that succeeds can only return it.
pub proof fn lemma_single_eligible(mode: DitherMode, n: int, k: int, i: int)
    requires
        forall|j: int| #[trigger] is_eligible(mode, n, j) <==> j == k,
        is_eligible(mode, n, i),
    ensures
        i == k,
{
}

/// The random-number source handed to selection: a thread-local generator
/// together with a count of the draws made from it.
pub struct Sampler {
    pub rng: rand::rngs::ThreadRng,
    pub draws: u64,
}

#[verifier::external_type_specification]
#[verifier::external_body]
pub struct ExThreadRng(rand::rngs::ThreadRng);

/// Relies on rand's `thread_rng`: a handle to the thread-local generator.
#[verifier::external_body]
fn fresh_thread_rng() -> rand::rngs::ThreadRng {
    rand::thread_rng()
}

/// Relies on rand's `Rng::gen_range` on a `Range<usize>`: it panics only on an
/// empty range, and otherwise returns a uniformly distributed value inside the
/// range. Nothing more can be said of a random draw.
#[verifier::external_body]
fn draw_in_range(rng: &mut rand::rngs::ThreadRng, lo: usize, hi: usize) -> (r: usize)
    requires
        lo < hi,
    ensures
        lo <= r < hi,
{
    rand::Rng::gen_range(rng, lo..hi)
}

impl Sampler {
    pub fn new() -> (s: Sampler)
        ensures
            s.draws == 0,
    {
        Sampler { rng: fresh_thread_rng(), draws: 0 }
    }

    /// One uniform draw from `[lo, hi)`, counted.
    pub fn draw(&mut self, lo: usize, hi: usize) -> (r: usize)
        requires
            lo < hi,
            old(self).draws < u64::MAX,
        ensures
            lo <= r < hi,
            final(self).draws == old(self).draws + 1,
    {
        self.draws = self.draws + 1;
        draw_in_range(&mut self.rng, lo, hi)
    }
}

/// One random eligible index on a grid of `n` cells: one draw, filtered and
/// mapped to the parity the mode demands.
pub fn next_index(n: usize, mode: DitherMode, s: &mut Sampler) -> (r: usize)
    requires
        has_eligible(mode, n as int),
        old(s).draws < u64::MAX,
    ensures
        is_eligible(mode, n as int, r as int),
        final(s).draws == old(s).draws + 1,
{
    match mode {
        DitherMode::Off => s.draw(1, n),
        DitherMode::Even => {
            let k = s.draw(1, n / 2);
            k * 2
        },
        DitherMode::Odd => {
            let k = s.draw(1, n / 2);
            k * 2 + 1
        },
    }
}

/// Pick the grid index of the pixel to assign next.
///
/// Up to `config.max_attempts` times, a random eligible index is drawn and
/// returned immediately if the canvas does not yet show the goal color there;
/// after that budget one more eligible index is drawn and returned
/// unconditionally. Selection makes at most `config.max_attempts + 1` draws,
/// always returns an eligible (hence valid, nonzero) index, and raises the
/// fatal configuration error, before any draw, exactly when no index is
/// eligible. A returned index at which the canvas already matches the goal
/// can only come from the final fallback draw, after the whole budget was
/// spent on mismatch attempts.
pub fn select_target(
    goal: &Grid,
    current: &Grid,
    config: &SelectionConfig,
    s: &mut Sampler,
) -> (r: Result<usize, SelectError>)
    requires
        goal.cells@.len() == current.cells@.len(),
        old(s).draws + config.max_attempts + 1 <= u64::MAX,
    ensures
        final(s).draws <= old(s).draws + config.max_attempts + 1,
        r is Err <==> !has_eligible(config.dither, goal.cells@.len() as int),
        r is Err ==> final(s).draws == old(s).draws,
        r is Ok ==> final(s).draws >= old(s).draws + 1,
        r matches Ok(i) ==> is_eligible(config.dither, goal.cells@.len() as int, i as int) && 1 <= i
            < goal.cells@.len(),
        r matches Ok(i) ==> current.cells@[i as int] != goal.cells@[i as int] || final(s).draws
            == old(s).draws + config.max_attempts + 1,
{
    let n = goal.cells.len();
    let eligible = match config.dither {
        DitherMode::Off => n >= 2,
        DitherMode::Even => n >= 4,
        DitherMode::Odd => n >= 4,
    };
    if !eligible {
        return Err(SelectError::NoEligibleIndex);
    }
    let mut attempt: u32 = 0;
    while attempt < config.max_attempts
        invariant
            has_eligible(config.dither, n as int),
            n == goal.cells@.len(),
            n == current.cells@.len(),
            attempt <= config.max_attempts,
            s.draws == old(s).draws + attempt,
            old(s).draws + config.max_attempts + 1 <= u64::MAX,
        decreases config.max_attempts - attempt,
    {
        let index = next_index(n, config.dither, s);
        proof {
            lemma_eligible_bounds(config.dither, n as int, index as int);
        }
        if current.cells[index] != goal.cells[index] {
            return Ok(index);
        }
        attempt += 1;
    }
    let index = next_index(n, config.dither, s);
    proof {
        lemma_eligible_bounds(config.dither, n as int, index as int);
    }
    Ok(index)
}

} // verus!
