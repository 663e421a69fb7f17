//! Positions in the stream of seeded normal draws.
//!
//! A seeded planner reads its noise from one stream. Each plan reserves the
//! draws that it may use, so that no two plans read the same ones.

use vstd::prelude::*;

use crate::error::{message, Result, SwmError};

verus! {

/// The smallest even number that is not below `n`.
pub open spec fn even_above(n: int) -> int {
    if n % 2 == 0 {
        n
    } else {
        n + 1
    }
}

/// Rounds a number of draws up to an even number, since normal draws come in
/// pairs.
pub fn round_curand_normal_count(count: usize) -> (r: Result<usize>)
    ensures
        r is Ok <==> even_above(count as int) <= usize::MAX,
        r matches Ok(n) ==> n == even_above(count as int),
        r matches Err(e) ==> e.says("planner CUDA RNG shape overflowed"@),
{
    if count % 2 == 0 {
        Ok(count)
    } else {
        match count.checked_add(1) {
            Some(n) => Ok(n),
            None => Err(message("planner CUDA RNG shape overflowed")),
        }
    }
}

/// The draws of one iteration fit a machine integer at every step of their
/// product.
pub open spec fn draws_fit(
    batch: usize,
    samples: usize,
    horizon: usize,
    action_dim: usize,
) -> bool {
    &&& batch * samples <= usize::MAX
    &&& batch * samples * horizon <= usize::MAX
    &&& even_above(batch * samples * horizon * action_dim) <= usize::MAX
}

/// The draws of one iteration.
pub open spec fn draws(batch: usize, samples: usize, horizon: usize, action_dim: usize) -> int {
    even_above(batch * samples * horizon * action_dim)
}

/// The product of four sizes, if every step of it fits.
pub fn shape_product(batch: usize, samples: usize, horizon: usize, action_dim: usize) -> (r: Option<
    usize,
>)
    ensures
        r is Some <==> batch * samples <= usize::MAX && batch * samples * horizon <= usize::MAX
            && batch * samples * horizon * action_dim <= usize::MAX,
        r matches Some(n) ==> n == batch * samples * horizon * action_dim,
{
    match batch.checked_mul(samples) {
        None => None,
        Some(rows) => match rows.checked_mul(horizon) {
            None => None,
            Some(steps) => steps.checked_mul(action_dim),
        },
    }
}

/// The draws that a plan reserves: those of every iteration.
pub fn normal_draw_reservation(
    batch: usize,
    samples: usize,
    horizon: usize,
    action_dim: usize,
    iterations: usize,
) -> (r: Result<u64>)
    ensures
        !draws_fit(batch, samples, horizon, action_dim) ==> r is Err && r->Err_0.says(
            "planner CUDA RNG shape overflowed"@,
        ),
        draws_fit(batch, samples, horizon, action_dim) ==> if draws(
            batch,
            samples,
            horizon,
            action_dim,
        ) * iterations <= u64::MAX {
            r is Ok && r->Ok_0 == draws(batch, samples, horizon, action_dim) * iterations
        } else {
            r is Err && r->Err_0.says("planner CUDA RNG offset overflowed"@)
        },
{
    let per_iteration = match shape_product(batch, samples, horizon, action_dim) {
        Some(n) => n,
        None => {
            return Err(message("planner CUDA RNG shape overflowed"));
        },
    };
    let per_iteration: usize = round_curand_normal_count(per_iteration)?;
    match (per_iteration as u64).checked_mul(iterations as u64) {
        Some(n) => Ok(n),
        None => Err(message("planner CUDA RNG offset overflowed")),
    }
}

/// The next unread position of a planner's stream.
#[derive(Debug, Clone, Copy, PartialEq, Eq, Structural)]
pub struct PlannerRng {
    pub next_offset: u64,
}

/// How far a reservation moves the stream: at least one draw.
pub open spec fn advance(reserved: u64) -> int {
    if reserved == 0 {
        1
    } else {
        reserved as int
    }
}

impl PlannerRng {
    pub fn new() -> (r: Self)
        ensures
            r.next_offset == 0,
    {
        Self { next_offset: 0 }
    }

    /// Starts the stream over.
    pub fn reset(&mut self)
        ensures
            final(self).next_offset == 0,
    {
        self.next_offset = 0;
    }

    pub fn offset(&self) -> (r: u64)
        ensures
            r == self.next_offset,
    {
        self.next_offset
    }

    /// Reserves draws and returns the position of the first. A stream without
    /// room for them stays as it is.
    pub fn reserve_offset(&mut self, reserved: u64) -> (r: Result<u64>)
        ensures
            old(self).next_offset + advance(reserved) <= u64::MAX ==> r is Ok
                && r->Ok_0 == old(self).next_offset
                && final(self).next_offset == old(self).next_offset + advance(reserved),
            old(self).next_offset + advance(reserved) > u64::MAX ==> r is Err && r->Err_0.says(
                "planner CUDA RNG offset overflowed"@,
            ) && final(self).next_offset == old(self).next_offset,
    {
        let step: u64 = if reserved == 0 {
            1
        } else {
            reserved
        };
        match self.next_offset.checked_add(step) {
            Some(next) => {
                let first: u64 = self.next_offset;
                self.next_offset = next;
                Ok(first)
            },
            None => Err(message("planner CUDA RNG offset overflowed")),
        }
    }
}

/// Reserves the draws of a plan from a planner's stream: the seed and the
/// position to start it at, or nothing for a planner without a seed.
pub fn reserve_stream(rng: &mut PlannerRng, seed: Option<u64>, reserved: u64) -> (r: Result<
    Option<(u64, u64)>,
>)
    ensures
        seed is None ==> r == Ok::<Option<(u64, u64)>, SwmError>(None) && *final(rng) == *old(rng),
        seed matches Some(s) ==> if old(rng).next_offset + advance(reserved) <= u64::MAX {
            r == Ok::<Option<(u64, u64)>, SwmError>(Some((s, old(rng).next_offset)))
                && final(rng).next_offset == old(rng).next_offset + advance(reserved)
        } else {
            r is Err && r->Err_0.says("planner CUDA RNG offset overflowed"@)
                && *final(rng) == *old(rng)
        },
{
    match seed {
        None => Ok(None),
        Some(s) => {
            let offset: u64 = rng.reserve_offset(reserved)?;
            Ok(Some((s, offset)))
        },
    }
}

/// Where a planner's stream stands after a plan that reserved draws.
pub open spec fn stream_after(
    before: PlannerRng,
    seed: Option<u64>,
    reserved: int,
    after: PlannerRng,
) -> bool {
    if seed is Some && before.next_offset + advance(reserved as u64) <= u64::MAX {
        after.next_offset == before.next_offset + advance(reserved as u64)
    } else {
        after == before
    }
}

/// Why the draws of a plan cannot be reserved, if they cannot.
pub open spec fn reservation_complaint(
    rng: PlannerRng,
    seed: Option<u64>,
    batch: usize,
    samples: usize,
    horizon: usize,
    action_dim: usize,
    iterations: usize,
) -> Option<Seq<char>> {
    let reserved = draws(batch, samples, horizon, action_dim) * iterations;
    if !draws_fit(batch, samples, horizon, action_dim) {
        Some("planner CUDA RNG shape overflowed"@)
    } else if reserved > u64::MAX || (seed is Some && rng.next_offset + advance(reserved as u64)
        > u64::MAX) {
        Some("planner CUDA RNG offset overflowed"@)
    } else {
        None
    }
}

/// What a plan does to the stream: one whose draws cannot be reserved fails and
/// leaves the stream, and any other moves a seeded stream past its draws.
pub open spec fn reserves<T>(
    before: PlannerRng,
    seed: Option<u64>,
    batch: usize,
    samples: usize,
    horizon: usize,
    action_dim: usize,
    iterations: usize,
    r: Result<T>,
    after: PlannerRng,
) -> bool {
    match reservation_complaint(before, seed, batch, samples, horizon, action_dim, iterations) {
        Some(text) => r is Err && r->Err_0.says(text) && after == before,
        None => stream_after(
            before,
            seed,
            draws(batch, samples, horizon, action_dim) * iterations,
            after,
        ),
    }
}

/// A rounded number of draws is even, and at most one more than asked for.
pub proof fn rounded_draws_are_even(n: int)
    ensures
        even_above(n) % 2 == 0,
        n <= even_above(n) <= n + 1,
{
}

/// The draws of two reservations from one stream, however far apart, do not
/// overlap: the later one starts at or after the end of the earlier one.
/// `offsets[i]` is where the stream stands before reservation `i`.
pub proof fn reservations_are_disjoint(offsets: Seq<u64>, reserved: Seq<u64>, i: int, j: int)
    requires
        offsets.len() == reserved.len() + 1,
        forall|k: int|
            0 <= k < reserved.len() ==> #[trigger] offsets[k + 1] == offsets[k] + advance(
                reserved[k],
            ),
        0 <= i < j < reserved.len(),
    ensures
        offsets[i] + advance(reserved[i]) <= offsets[j],
        offsets[i] < offsets[j],
    decreases j - i,
{
    if i + 1 < j {
        reservations_are_disjoint(offsets, reserved, i, j - 1);
        assert(offsets[(j - 1) + 1] == offsets[j - 1] + advance(reserved[j - 1]));
    } else {
        assert(offsets[i + 1] == offsets[i] + advance(reserved[i]));
    }
}

/// After a reset the same reservations give the same positions again.
pub proof fn reset_replays_positions(first: Seq<u64>, second: Seq<u64>, reserved: Seq<u64>, i: int)
    requires
        first.len() == reserved.len() + 1,
        second.len() == reserved.len() + 1,
        first[0] == 0,
        second[0] == 0,
        forall|k: int|
            0 <= k < reserved.len() ==> #[trigger] first[k + 1] == first[k] + advance(reserved[k]),
        forall|k: int|
            0 <= k < reserved.len() ==> #[trigger] second[k + 1] == second[k] + advance(
                reserved[k],
            ),
        0 <= i <= reserved.len(),
    ensures
        first[i] == second[i],
    decreases i,
{
    if i > 0 {
        reset_replays_positions(first, second, reserved, i - 1);
        assert(first[(i - 1) + 1] == first[i - 1] + advance(reserved[i - 1]));
        assert(second[(i - 1) + 1] == second[i - 1] + advance(reserved[i - 1]));
    }
}

} // verus!
