//! Planner settings and their checks.

use core::time::Duration;
use vstd::prelude::*;

use crate::error::{message, Result, SwmError};
use crate::scalar::F32;
use crate::text::{decimal, join, with_number, with_numbers};

verus! {

/// The bits of 1.0.
pub const ONE: u32 = 0x3f80_0000;

/// The bits of 1e-3.
pub const MILLI: u32 = 0x3a83_126f;

/// The range of each action component.
#[derive(Debug, PartialEq)]
pub struct ActionBounds {
    pub low: Vec<F32>,
    pub high: Vec<F32>,
}

/// A copy of a list of numbers.
pub(crate) fn copy_numbers(a: &[F32]) -> (r: Vec<F32>)
    ensures
        r@ == a@,
{
    let mut out: Vec<F32> = Vec::new();
    let mut i: usize = 0;
    while i < a.len()
        invariant
            i <= a@.len(),
            out@ == a@.take(i as int),
        decreases a@.len() - i,
    {
        out.push(a[i]);
        proof {
            assert(a@.take(i + 1) =~= a@.take(i as int).push(a@[i as int]));
        }
        i = i + 1;
    }
    proof {
        assert(a@.take(a@.len() as int) =~= a@);
    }
    out
}

fn copy_action(a: &Option<Vec<F32>>) -> (r: Option<Vec<F32>>)
    ensures
        same_action(r, *a),
{
    match a {
        Some(v) => Some(copy_numbers(v.as_slice())),
        None => None,
    }
}

/// The same action, or none on both sides.
pub open spec fn same_action(a: Option<Vec<F32>>, b: Option<Vec<F32>>) -> bool {
    match (a, b) {
        (Some(x), Some(y)) => x@ == y@,
        (None, None) => true,
        _ => false,
    }
}

impl Clone for ActionBounds {
    fn clone(&self) -> (r: Self)
        ensures
            r.low@ == self.low@,
            r.high@ == self.high@,
    {
        Self { low: copy_numbers(self.low.as_slice()), high: copy_numbers(self.high.as_slice()) }
    }
}

/// What is wrong with a range from component `i` on, if anything is.
pub open spec fn range_complaint(low: Seq<F32>, high: Seq<F32>, i: int) -> Option<Seq<char>>
    decreases low.len() - i,
{
    if i < 0 || i >= low.len() {
        None
    } else if !low[i].finite() || !high[i].finite() {
        Some("action bound "@ + decimal(i as nat) + " is not finite"@)
    } else if low[i].key() > high[i].key() {
        Some("action bound "@ + decimal(i as nat) + " has low greater than high"@)
    } else {
        range_complaint(low, high, i + 1)
    }
}

/// The outcome of a check: nothing when there is no complaint, and the complaint
/// as the error otherwise.
pub open spec fn answers(complaint: Option<Seq<char>>, r: Result<()>) -> bool {
    match complaint {
        None => r is Ok,
        Some(text) => r is Err && r->Err_0.says(text),
    }
}

fn repeat(x: F32, n: usize) -> (r: Vec<F32>)
    ensures
        r@ == Seq::new(n as nat, |k: int| x),
{
    let mut out: Vec<F32> = Vec::new();
    let mut i: usize = 0;
    while i < n
        invariant
            i <= n,
            out@ == Seq::new(i as nat, |k: int| x),
        decreases n - i,
    {
        out.push(x);
        proof {
            assert(out@ =~= Seq::new((i + 1) as nat, |k: int| x));
        }
        i = i + 1;
    }
    out
}

impl ActionBounds {
    /// What is wrong with the bounds for `action_dim` components.
    pub open spec fn complaint(self, action_dim: usize) -> Option<Seq<char>> {
        if self.low@.len() != action_dim || self.high@.len() != action_dim {
            Some(
                "action bounds must match action_dim "@ + decimal(action_dim as nat) + ", got low="@
                    + decimal(self.low@.len()) + " high="@ + decimal(self.high@.len()),
            )
        } else {
            range_complaint(self.low@, self.high@, 0)
        }
    }

    /// Finite bounds for `action_dim` components, in order.
    pub open spec fn valid(self, action_dim: usize) -> bool {
        &&& self.low@.len() == action_dim
        &&& self.high@.len() == action_dim
        &&& forall|i: int|
            #![trigger self.low@[i]]
            #![trigger self.high@[i]]
            0 <= i < action_dim ==> self.low@[i].finite() && self.high@[i].finite()
                && self.low@[i].key() <= self.high@[i].key()
    }

    /// The same distance from zero on both sides for every component.
    pub fn symmetric(action_dim: usize, limit: F32) -> (r: Self)
        ensures
            r.low@ == Seq::new(action_dim as nat, |k: int| limit.negated()),
            r.high@ == Seq::new(action_dim as nat, |k: int| limit),
            forall|i: int| 0 <= i < action_dim ==> (#[trigger] r.low@[i]).key() == -limit.key(),
    {
        let low = repeat(limit.negate(), action_dim);
        let high = repeat(limit, action_dim);
        Self { low, high }
    }

    /// The same range for every component.
    pub fn scalar(action_dim: usize, low: F32, high: F32) -> (r: Self)
        ensures
            r.low@ == Seq::new(action_dim as nat, |k: int| low),
            r.high@ == Seq::new(action_dim as nat, |k: int| high),
    {
        Self { low: repeat(low, action_dim), high: repeat(high, action_dim) }
    }

    /// Checks the bounds for `action_dim` components.
    pub fn validate(&self, action_dim: usize) -> (r: Result<()>)
        ensures
            answers(self.complaint(action_dim), r),
            r is Ok <==> self.valid(action_dim),
    {
        if self.low.len() != action_dim || self.high.len() != action_dim {
            let head = with_number("action bounds must match action_dim ", action_dim, ", got low=");
            let tail = with_numbers("", self.low.len(), " high=", self.high.len(), "");
            proof {
                reveal_strlit("");
                assert(head@ + tail@ =~= self.complaint(action_dim)->0);
            }
            return Err(SwmError::Message(join(head.as_str(), tail.as_str())));
        }
        let mut i: usize = 0;
        while i < self.low.len()
            invariant
                i <= self.low@.len(),
                self.low@.len() == action_dim,
                self.high@.len() == action_dim,
                self.complaint(action_dim) == range_complaint(self.low@, self.high@, i as int),
                forall|k: int|
                    0 <= k < i ==> (#[trigger] self.low@[k]).finite() && self.high@[k].finite()
                        && self.low@[k].key() <= self.high@[k].key(),
            decreases self.low@.len() - i,
        {
            let low: F32 = self.low[i];
            let high: F32 = self.high[i];
            if !low.is_finite() || !high.is_finite() {
                return Err(
                    SwmError::Message(with_number("action bound ", i, " is not finite")),
                );
            }
            if low.order_key() > high.order_key() {
                return Err(
                    SwmError::Message(with_number("action bound ", i, " has low greater than high")),
                );
            }
            i = i + 1;
        }
        proof {
            assert(i == action_dim);
            assert forall|k: int| 0 <= k < action_dim implies (#[trigger] self.low@[k]).finite()
                && self.high@[k].finite() && self.low@[k].key() <= self.high@[k].key() by {
                assert(0 <= k < i);
            }
            assert(self.valid(action_dim));
        }
        Ok(())
    }
}

/// The bounds have no complaint exactly when they are valid.
pub proof fn valid_bounds_have_no_complaint(bounds: ActionBounds, action_dim: usize)
    ensures
        bounds.complaint(action_dim) is None <==> bounds.valid(action_dim),
{
    if bounds.low@.len() == action_dim && bounds.high@.len() == action_dim {
        lemma_range(bounds.low@, bounds.high@, 0);
    }
}

proof fn lemma_range(low: Seq<F32>, high: Seq<F32>, i: int)
    requires
        0 <= i <= low.len(),
        low.len() == high.len(),
    ensures
        range_complaint(low, high, i) is None <==> (forall|k: int|
            i <= k < low.len() ==> (#[trigger] low[k]).finite() && high[k].finite() && low[k].key()
                <= high[k].key()),
    decreases low.len() - i,
{
    if i < low.len() {
        lemma_range(low, high, i + 1);
        if !(low[i].finite() && high[i].finite() && low[i].key() <= high[i].key()) {
            assert(range_complaint(low, high, i) is Some);
        } else if range_complaint(low, high, i + 1) is None {
            assert forall|k: int| i <= k < low.len() implies (#[trigger] low[k]).finite()
                && high[k].finite() && low[k].key() <= high[k].key() by {
                assert(k == i || i + 1 <= k);
            }
        }
    }
}

/// What is wrong with a fallback action from component `i` on.
pub open spec fn fallback_complaint_from(
    planner: Seq<char>,
    action: Seq<F32>,
    low: Seq<F32>,
    high: Seq<F32>,
    i: int,
) -> Option<Seq<char>>
    decreases action.len() - i,
{
    if i < 0 || i >= action.len() {
        None
    } else if !action[i].finite() {
        Some(planner + " fallback_action["@ + decimal(i as nat) + "] is not finite"@)
    } else if action[i].key() < low[i].key() || action[i].key() > high[i].key() {
        Some(planner + " fallback_action["@ + decimal(i as nat) + "] is outside its bounds"@)
    } else {
        fallback_complaint_from(planner, action, low, high, i + 1)
    }
}

/// What is wrong with a configured fallback action, if there is one.
pub open spec fn fallback_complaint(
    planner: Seq<char>,
    fallback: Option<Seq<F32>>,
    action_dim: usize,
    bounds: ActionBounds,
) -> Option<Seq<char>> {
    match fallback {
        None => None,
        Some(action) => if action.len() != action_dim {
            Some(
                planner + " fallback_action length "@ + decimal(action.len())
                    + " must match action_dim "@ + decimal(action_dim as nat),
            )
        } else {
            fallback_complaint_from(planner, action, bounds.low@, bounds.high@, 0)
        },
    }
}

/// The values of an optional list.
pub open spec fn optional_values(v: Option<Vec<F32>>) -> Option<Seq<F32>> {
    match v {
        None => None,
        Some(x) => Some(x@),
    }
}

/// A finite action of the right length inside the bounds.
pub open spec fn inside(action: Seq<F32>, bounds: ActionBounds) -> bool {
    &&& action.len() == bounds.low@.len()
    &&& forall|i: int|
        0 <= i < action.len() ==> (#[trigger] action[i]).finite() && bounds.low@[i].key()
            <= action[i].key() <= bounds.high@[i].key()
}

/// Checks a configured fallback action against bounds that were checked before.
pub fn validate_fallback_action(
    fallback: &Option<Vec<F32>>,
    action_dim: usize,
    bounds: &ActionBounds,
    planner: &str,
) -> (r: Result<()>)
    requires
        bounds.valid(action_dim),
    ensures
        answers(fallback_complaint(planner@, optional_values(*fallback), action_dim, *bounds), r),
        r is Ok <==> (fallback matches Some(a) ==> inside(a@, *bounds)),
{
    let action = match fallback {
        None => {
            return Ok(());
        },
        Some(action) => action,
    };
    if action.len() != action_dim {
        let tail = with_numbers(
            " fallback_action length ",
            action.len(),
            " must match action_dim ",
            action_dim,
            "",
        );
        proof {
            reveal_strlit("");
            assert(planner@ + tail@ =~= fallback_complaint(
                planner@,
                optional_values(*fallback),
                action_dim,
                *bounds,
            )->0);
        }
        return Err(SwmError::Message(join(planner, tail.as_str())));
    }
    let mut i: usize = 0;
    while i < action.len()
        invariant
            i <= action@.len(),
            action@.len() == action_dim,
            *fallback == Some(*action),
            bounds.valid(action_dim),
            fallback_complaint(planner@, Some(action@), action_dim, *bounds)
                == fallback_complaint_from(
                planner@,
                action@,
                bounds.low@,
                bounds.high@,
                i as int,
            ),
            forall|k: int|
                0 <= k < i ==> (#[trigger] action@[k]).finite() && bounds.low@[k].key()
                    <= action@[k].key() <= bounds.high@[k].key(),
        decreases action@.len() - i,
    {
        let x: F32 = action[i];
        if !x.is_finite() {
            let tail = with_number(" fallback_action[", i, "] is not finite");
            proof {
                assert(planner@ + tail@ =~= planner@ + " fallback_action["@ + decimal(i as nat)
                    + "] is not finite"@);
            }
            return Err(SwmError::Message(join(planner, tail.as_str())));
        }
        if x.order_key() < bounds.low[i].order_key() || x.order_key()
            > bounds.high[i].order_key() {
            let tail = with_number(" fallback_action[", i, "] is outside its bounds");
            proof {
                assert(planner@ + tail@ =~= planner@ + " fallback_action["@ + decimal(i as nat)
                    + "] is outside its bounds"@);
            }
            return Err(SwmError::Message(join(planner, tail.as_str())));
        }
        i = i + 1;
    }
    Ok(())
}

/// Settings of the cross-entropy planner.
#[derive(Debug, PartialEq)]
pub struct CemConfig {
    pub horizon: usize,
    pub samples: usize,
    pub elites: usize,
    pub iterations: usize,
    pub action_dim: usize,
    pub action_bounds: ActionBounds,
    pub init_std: F32,
    pub min_std: F32,
    pub deadline: Option<Duration>,
    pub fallback_action: Option<Vec<F32>>,
    pub seed: Option<u64>,
}

impl CemConfig {
    /// The same settings.
    pub open spec fn same_as(self, other: Self) -> bool {
        &&& self.horizon == other.horizon
        &&& self.samples == other.samples
        &&& self.elites == other.elites
        &&& self.iterations == other.iterations
        &&& self.action_dim == other.action_dim
        &&& self.init_std == other.init_std
        &&& self.min_std == other.min_std
        &&& self.action_bounds.low@ == other.action_bounds.low@
        &&& self.action_bounds.high@ == other.action_bounds.high@
        &&& self.deadline == other.deadline
        &&& same_action(self.fallback_action, other.fallback_action)
        &&& self.seed == other.seed
    }
}

impl Clone for CemConfig {
    fn clone(&self) -> (r: Self)
        ensures
            r.same_as(*self),
    {
        Self {
            horizon: self.horizon,
            samples: self.samples,
            elites: self.elites,
            iterations: self.iterations,
            action_dim: self.action_dim,
            init_std: self.init_std,
            min_std: self.min_std,
            action_bounds: self.action_bounds.clone(),
            deadline: self.deadline,
            fallback_action: copy_action(&self.fallback_action),
            seed: self.seed,
        }
    }
}

impl CemConfig {
    /// What is wrong with the settings: the first check that fails.
    pub open spec fn complaint(self) -> Option<Seq<char>> {
        if self.horizon == 0 {
            Some("CEM horizon must be greater than zero"@)
        } else if self.samples == 0 {
            Some("CEM samples must be greater than zero"@)
        } else if self.elites < 2 {
            Some("CEM elites must be at least two"@)
        } else if self.elites > self.samples {
            Some("CEM elites "@ + decimal(self.elites as nat) + " cannot exceed samples "@
                + decimal(self.samples as nat))
        } else if self.iterations == 0 {
            Some("CEM iterations must be greater than zero"@)
        } else if self.action_dim == 0 {
            Some("CEM action_dim must be greater than zero"@)
        } else if !self.init_std.finite() || self.init_std.key() <= 0 {
            Some("CEM init_std must be finite and greater than zero"@)
        } else if !self.min_std.finite() || self.min_std.key() < 0 {
            Some("CEM min_std must be finite and non-negative"@)
        } else if self.action_bounds.complaint(self.action_dim) is Some {
            self.action_bounds.complaint(self.action_dim)
        } else {
            fallback_complaint(
                "CEM"@,
                optional_values(self.fallback_action),
                self.action_dim,
                self.action_bounds,
            )
        }
    }

    /// Settings that pass every check.
    pub open spec fn valid(self) -> bool {
        &&& !(self.horizon == 0)
        &&& !(self.samples == 0)
        &&& !(self.elites < 2)
        &&& !(self.elites > self.samples)
        &&& !(self.iterations == 0)
        &&& !(self.action_dim == 0)
        &&& !(!self.init_std.finite() || self.init_std.key() <= 0)
        &&& !(!self.min_std.finite() || self.min_std.key() < 0)
        &&& self.action_bounds.valid(self.action_dim)
        &&& self.fallback_action matches Some(a) ==> inside(a@, self.action_bounds)
    }

    pub fn new(horizon: usize, samples: usize, elites: usize, action_dim: usize) -> (r: Self)
        ensures
            r.horizon == horizon && r.samples == samples && r.elites == elites,
            r.iterations == 4 && r.action_dim == action_dim,
            unit_bounds(r.action_bounds, action_dim),
            r.init_std.bits == ONE && r.min_std.bits == MILLI,
            r.deadline is None && r.fallback_action is None && r.seed is None,
    {
        Self {
            horizon,
            samples,
            elites,
            iterations: 4,
            action_dim,
            action_bounds: ActionBounds::symmetric(action_dim, F32::from_bits(ONE)),
            init_std: F32::from_bits(ONE),
            min_std: F32::from_bits(MILLI),
            deadline: None,
            fallback_action: None,
            seed: None,
        }
    }

    /// Checks the settings.
    pub fn validate(&self) -> (r: Result<()>)
        ensures
            answers(self.complaint(), r),
            r is Ok <==> self.valid(),
    {
        proof {
            reveal_strlit("");
            valid_bounds_have_no_complaint(self.action_bounds, self.action_dim);
        }
        if self.horizon == 0 {
            return Err(message("CEM horizon must be greater than zero"));
        }
        if self.samples == 0 {
            return Err(message("CEM samples must be greater than zero"));
        }
        if self.elites < 2 {
            return Err(message("CEM elites must be at least two"));
        }
        if self.elites > self.samples {
            let text = with_numbers(
                "CEM elites ",
                self.elites,
                " cannot exceed samples ",
                self.samples,
                "",
            );
            proof {
                assert(text@ =~= self.complaint()->0);
            }
            return Err(SwmError::Message(text));
        }
        if self.iterations == 0 {
            return Err(message("CEM iterations must be greater than zero"));
        }
        if self.action_dim == 0 {
            return Err(message("CEM action_dim must be greater than zero"));
        }
        if !self.init_std.is_finite() || self.init_std.order_key() <= 0 {
            return Err(message("CEM init_std must be finite and greater than zero"));
        }
        if !self.min_std.is_finite() || self.min_std.order_key() < 0 {
            return Err(message("CEM min_std must be finite and non-negative"));
        }
        self.action_bounds.validate(self.action_dim)?;
        validate_fallback_action(
            &self.fallback_action,
            self.action_dim,
            &self.action_bounds,
            "CEM",
        )
    }
}

/// Settings of the path-integral planner.
#[derive(Debug, PartialEq)]
pub struct MppiConfig {
    pub horizon: usize,
    pub samples: usize,
    pub iterations: usize,
    pub action_dim: usize,
    pub action_bounds: ActionBounds,
    pub noise_std: F32,
    pub temperature: F32,
    pub deadline: Option<Duration>,
    pub fallback_action: Option<Vec<F32>>,
    pub seed: Option<u64>,
}

impl MppiConfig {
    /// The same settings.
    pub open spec fn same_as(self, other: Self) -> bool {
        &&& self.horizon == other.horizon
        &&& self.samples == other.samples
        &&& self.iterations == other.iterations
        &&& self.action_dim == other.action_dim
        &&& self.noise_std == other.noise_std
        &&& self.temperature == other.temperature
        &&& self.action_bounds.low@ == other.action_bounds.low@
        &&& self.action_bounds.high@ == other.action_bounds.high@
        &&& self.deadline == other.deadline
        &&& same_action(self.fallback_action, other.fallback_action)
        &&& self.seed == other.seed
    }
}

impl Clone for MppiConfig {
    fn clone(&self) -> (r: Self)
        ensures
            r.same_as(*self),
    {
        Self {
            horizon: self.horizon,
            samples: self.samples,
            iterations: self.iterations,
            action_dim: self.action_dim,
            noise_std: self.noise_std,
            temperature: self.temperature,
            action_bounds: self.action_bounds.clone(),
            deadline: self.deadline,
            fallback_action: copy_action(&self.fallback_action),
            seed: self.seed,
        }
    }
}

impl MppiConfig {
    /// What is wrong with the settings: the first check that fails.
    pub open spec fn complaint(self) -> Option<Seq<char>> {
        if self.horizon == 0 {
            Some("MPPI horizon must be greater than zero"@)
        } else if self.samples == 0 {
            Some("MPPI samples must be greater than zero"@)
        } else if self.iterations == 0 {
            Some("MPPI iterations must be greater than zero"@)
        } else if self.action_dim == 0 {
            Some("MPPI action_dim must be greater than zero"@)
        } else if !self.noise_std.finite() || self.noise_std.key() <= 0 {
            Some("MPPI noise_std must be finite and greater than zero"@)
        } else if !self.temperature.finite() || self.temperature.key() <= 0 {
            Some("MPPI temperature must be finite and greater than zero"@)
        } else if self.action_bounds.complaint(self.action_dim) is Some {
            self.action_bounds.complaint(self.action_dim)
        } else {
            fallback_complaint(
                "MPPI"@,
                optional_values(self.fallback_action),
                self.action_dim,
                self.action_bounds,
            )
        }
    }

    /// Settings that pass every check.
    pub open spec fn valid(self) -> bool {
        &&& !(self.horizon == 0)
        &&& !(self.samples == 0)
        &&& !(self.iterations == 0)
        &&& !(self.action_dim == 0)
        &&& !(!self.noise_std.finite() || self.noise_std.key() <= 0)
        &&& !(!self.temperature.finite() || self.temperature.key() <= 0)
        &&& self.action_bounds.valid(self.action_dim)
        &&& self.fallback_action matches Some(a) ==> inside(a@, self.action_bounds)
    }

    pub fn new(horizon: usize, samples: usize, action_dim: usize) -> (r: Self)
        ensures
            r.horizon == horizon && r.samples == samples,
            r.iterations == 1 && r.action_dim == action_dim,
            unit_bounds(r.action_bounds, action_dim),
            r.noise_std.bits == ONE && r.temperature.bits == ONE,
            r.deadline is None && r.fallback_action is None && r.seed is None,
    {
        Self {
            horizon,
            samples,
            iterations: 1,
            action_dim,
            action_bounds: ActionBounds::symmetric(action_dim, F32::from_bits(ONE)),
            noise_std: F32::from_bits(ONE),
            temperature: F32::from_bits(ONE),
            deadline: None,
            fallback_action: None,
            seed: None,
        }
    }

    /// Checks the settings.
    pub fn validate(&self) -> (r: Result<()>)
        ensures
            answers(self.complaint(), r),
            r is Ok <==> self.valid(),
    {
        proof {
            reveal_strlit("");
            valid_bounds_have_no_complaint(self.action_bounds, self.action_dim);
        }
        if self.horizon == 0 {
            return Err(message("MPPI horizon must be greater than zero"));
        }
        if self.samples == 0 {
            return Err(message("MPPI samples must be greater than zero"));
        }
        if self.iterations == 0 {
            return Err(message("MPPI iterations must be greater than zero"));
        }
        if self.action_dim == 0 {
            return Err(message("MPPI action_dim must be greater than zero"));
        }
        if !self.noise_std.is_finite() || self.noise_std.order_key() <= 0 {
            return Err(message("MPPI noise_std must be finite and greater than zero"));
        }
        if !self.temperature.is_finite() || self.temperature.order_key() <= 0 {
            return Err(message("MPPI temperature must be finite and greater than zero"));
        }
        self.action_bounds.validate(self.action_dim)?;
        validate_fallback_action(
            &self.fallback_action,
            self.action_dim,
            &self.action_bounds,
            "MPPI",
        )
    }
}

/// Settings of the warm-started cross-entropy planner.
#[derive(Debug, PartialEq)]
pub struct IcemConfig {
    pub horizon: usize,
    pub samples: usize,
    pub elites: usize,
    pub keep_elites: usize,
    pub iterations: usize,
    pub action_dim: usize,
    pub action_bounds: ActionBounds,
    pub init_std: F32,
    pub min_std: F32,
    pub deadline: Option<Duration>,
    pub fallback_action: Option<Vec<F32>>,
    pub seed: Option<u64>,
}

impl IcemConfig {
    /// The same settings.
    pub open spec fn same_as(self, other: Self) -> bool {
        &&& self.horizon == other.horizon
        &&& self.samples == other.samples
        &&& self.elites == other.elites
        &&& self.keep_elites == other.keep_elites
        &&& self.iterations == other.iterations
        &&& self.action_dim == other.action_dim
        &&& self.init_std == other.init_std
        &&& self.min_std == other.min_std
        &&& self.action_bounds.low@ == other.action_bounds.low@
        &&& self.action_bounds.high@ == other.action_bounds.high@
        &&& self.deadline == other.deadline
        &&& same_action(self.fallback_action, other.fallback_action)
        &&& self.seed == other.seed
    }
}

impl Clone for IcemConfig {
    fn clone(&self) -> (r: Self)
        ensures
            r.same_as(*self),
    {
        Self {
            horizon: self.horizon,
            samples: self.samples,
            elites: self.elites,
            keep_elites: self.keep_elites,
            iterations: self.iterations,
            action_dim: self.action_dim,
            init_std: self.init_std,
            min_std: self.min_std,
            action_bounds: self.action_bounds.clone(),
            deadline: self.deadline,
            fallback_action: copy_action(&self.fallback_action),
            seed: self.seed,
        }
    }
}

impl IcemConfig {
    /// What is wrong with the settings: the first check that fails.
    pub open spec fn complaint(self) -> Option<Seq<char>> {
        if self.horizon == 0 {
            Some("iCEM horizon must be greater than zero"@)
        } else if self.samples == 0 {
            Some("iCEM samples must be greater than zero"@)
        } else if self.elites < 2 {
            Some("iCEM elites must be at least two"@)
        } else if self.elites > self.samples {
            Some("iCEM elites "@ + decimal(self.elites as nat) + " cannot exceed samples "@
                + decimal(self.samples as nat) + " on the first iteration"@)
        } else if self.keep_elites > self.elites {
            Some("iCEM keep_elites "@ + decimal(self.keep_elites as nat) + " cannot exceed elites "@
                + decimal(self.elites as nat))
        } else if self.iterations == 0 {
            Some("iCEM iterations must be greater than zero"@)
        } else if self.action_dim == 0 {
            Some("iCEM action_dim must be greater than zero"@)
        } else if !self.init_std.finite() || self.init_std.key() <= 0 {
            Some("iCEM init_std must be finite and greater than zero"@)
        } else if !self.min_std.finite() || self.min_std.key() < 0 {
            Some("iCEM min_std must be finite and non-negative"@)
        } else if self.action_bounds.complaint(self.action_dim) is Some {
            self.action_bounds.complaint(self.action_dim)
        } else {
            fallback_complaint(
                "iCEM"@,
                optional_values(self.fallback_action),
                self.action_dim,
                self.action_bounds,
            )
        }
    }

    /// Settings that pass every check.
    pub open spec fn valid(self) -> bool {
        &&& !(self.horizon == 0)
        &&& !(self.samples == 0)
        &&& !(self.elites < 2)
        &&& !(self.elites > self.samples)
        &&& !(self.keep_elites > self.elites)
        &&& !(self.iterations == 0)
        &&& !(self.action_dim == 0)
        &&& !(!self.init_std.finite() || self.init_std.key() <= 0)
        &&& !(!self.min_std.finite() || self.min_std.key() < 0)
        &&& self.action_bounds.valid(self.action_dim)
        &&& self.fallback_action matches Some(a) ==> inside(a@, self.action_bounds)
    }

    pub fn new(horizon: usize, samples: usize, elites: usize, action_dim: usize) -> (r: Self)
        ensures
            r.horizon == horizon && r.samples == samples && r.elites == elites,
            r.keep_elites == elites && r.iterations == 4 && r.action_dim == action_dim,
            unit_bounds(r.action_bounds, action_dim),
            r.init_std.bits == ONE && r.min_std.bits == MILLI,
            r.deadline is None && r.fallback_action is None && r.seed is None,
    {
        Self {
            horizon,
            samples,
            elites,
            keep_elites: elites,
            iterations: 4,
            action_dim,
            action_bounds: ActionBounds::symmetric(action_dim, F32::from_bits(ONE)),
            init_std: F32::from_bits(ONE),
            min_std: F32::from_bits(MILLI),
            deadline: None,
            fallback_action: None,
            seed: None,
        }
    }

    /// Checks the settings.
    pub fn validate(&self) -> (r: Result<()>)
        ensures
            answers(self.complaint(), r),
            r is Ok <==> self.valid(),
    {
        proof {
            reveal_strlit("");
            valid_bounds_have_no_complaint(self.action_bounds, self.action_dim);
        }
        if self.horizon == 0 {
            return Err(message("iCEM horizon must be greater than zero"));
        }
        if self.samples == 0 {
            return Err(message("iCEM samples must be greater than zero"));
        }
        if self.elites < 2 {
            return Err(message("iCEM elites must be at least two"));
        }
        if self.elites > self.samples {
            let text = with_numbers(
                "iCEM elites ",
                self.elites,
                " cannot exceed samples ",
                self.samples,
                " on the first iteration",
            );
            proof {
                assert(text@ =~= self.complaint()->0);
            }
            return Err(SwmError::Message(text));
        }
        if self.keep_elites > self.elites {
            let text = with_numbers(
                "iCEM keep_elites ",
                self.keep_elites,
                " cannot exceed elites ",
                self.elites,
                "",
            );
            proof {
                assert(text@ =~= self.complaint()->0);
            }
            return Err(SwmError::Message(text));
        }
        if self.iterations == 0 {
            return Err(message("iCEM iterations must be greater than zero"));
        }
        if self.action_dim == 0 {
            return Err(message("iCEM action_dim must be greater than zero"));
        }
        if !self.init_std.is_finite() || self.init_std.order_key() <= 0 {
            return Err(message("iCEM init_std must be finite and greater than zero"));
        }
        if !self.min_std.is_finite() || self.min_std.order_key() < 0 {
            return Err(message("iCEM min_std must be finite and non-negative"));
        }
        self.action_bounds.validate(self.action_dim)?;
        validate_fallback_action(
            &self.fallback_action,
            self.action_dim,
            &self.action_bounds,
            "iCEM",
        )
    }
}

/// Bounds of minus one and one.
pub open spec fn unit_bounds(bounds: ActionBounds, action_dim: usize) -> bool {
    &&& bounds.low@.len() == action_dim
    &&& bounds.high@.len() == action_dim
    &&& forall|i: int|
        0 <= i < action_dim ==> (#[trigger] bounds.low@[i]).key() == -(ONE as int)
            && bounds.high@[i].bits
            == ONE
}

/// The standard settings pass their checks as soon as the sizes do.
pub proof fn standard_settings_are_valid(
    cem: CemConfig,
    mppi: MppiConfig,
    icem: IcemConfig,
)
    requires
        cem.horizon > 0 && 2 <= cem.elites <= cem.samples && cem.iterations == 4
            && cem.action_dim > 0,
        unit_bounds(cem.action_bounds, cem.action_dim),
        cem.init_std.bits == ONE && cem.min_std.bits == MILLI && cem.fallback_action is None,
        mppi.horizon > 0 && mppi.samples > 0 && mppi.iterations == 1 && mppi.action_dim > 0,
        unit_bounds(mppi.action_bounds, mppi.action_dim),
        mppi.noise_std.bits == ONE && mppi.temperature.bits == ONE && mppi.fallback_action is None,
        icem.horizon > 0 && 2 <= icem.elites <= icem.samples && icem.keep_elites == icem.elites
            && icem.iterations == 4 && icem.action_dim > 0,
        unit_bounds(icem.action_bounds, icem.action_dim),
        icem.init_std.bits == ONE && icem.min_std.bits == MILLI && icem.fallback_action is None,
    ensures
        cem.valid(),
        mppi.valid(),
        icem.valid(),
{
    lemma_unit_bounds(cem.action_bounds, cem.action_dim);
    lemma_unit_bounds(mppi.action_bounds, mppi.action_dim);
    lemma_unit_bounds(icem.action_bounds, icem.action_dim);
}

proof fn lemma_unit_bounds(bounds: ActionBounds, action_dim: usize)
    requires
        unit_bounds(bounds, action_dim),
    ensures
        bounds.valid(action_dim),
{
    assert forall|i: int| 0 <= i < action_dim implies (#[trigger] bounds.low@[i]).finite()
        && bounds.high@[i].finite() && bounds.low@[i].key() <= bounds.high@[i].key() by {
        assert(bounds.low@[i].key() == -(ONE as int));
        assert(bounds.high@[i].bits == ONE);
    }
}

} // verus!
