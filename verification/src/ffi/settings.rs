//! The settings of the planners as they come over the C interface.

use vstd::prelude::*;

use crate::planner::config::{ActionBounds, CemConfig, IcemConfig, MppiConfig, MILLI, ONE};
use crate::scalar::F32;

verus! {

/// Settings of a CEM plan.
#[derive(Debug, Clone, Copy)]
pub struct SwmCemPlanConfig {
    pub horizon: usize,
    pub samples: usize,
    pub elites: usize,
    pub iterations: usize,
    pub init_std: F32,
    pub min_std: F32,
}

impl Default for SwmCemPlanConfig {
    fn default() -> (r: Self)
        ensures
            r == (SwmCemPlanConfig {
                horizon: 5,
                samples: 512,
                elites: 64,
                iterations: 4,
                init_std: F32 { bits: ONE },
                min_std: F32 { bits: MILLI },
            }),
    {
        Self {
            horizon: 5,
            samples: 512,
            elites: 64,
            iterations: 4,
            init_std: F32::from_bits(ONE),
            min_std: F32::from_bits(MILLI),
        }
    }
}

/// Settings of an MPPI plan.
#[derive(Debug, Clone, Copy)]
pub struct SwmMppiPlanConfig {
    pub horizon: usize,
    pub samples: usize,
    pub iterations: usize,
    pub noise_std: F32,
    pub temperature: F32,
}

impl Default for SwmMppiPlanConfig {
    fn default() -> (r: Self)
        ensures
            r == (SwmMppiPlanConfig {
                horizon: 5,
                samples: 512,
                iterations: 1,
                noise_std: F32 { bits: ONE },
                temperature: F32 { bits: ONE },
            }),
    {
        Self {
            horizon: 5,
            samples: 512,
            iterations: 1,
            noise_std: F32::from_bits(ONE),
            temperature: F32::from_bits(ONE),
        }
    }
}

/// Settings of an iCEM plan.
#[derive(Debug, Clone, Copy)]
pub struct SwmIcemPlanConfig {
    pub horizon: usize,
    pub samples: usize,
    pub elites: usize,
    pub keep_elites: usize,
    pub iterations: usize,
    pub init_std: F32,
    pub min_std: F32,
}

impl Default for SwmIcemPlanConfig {
    fn default() -> (r: Self)
        ensures
            r == (SwmIcemPlanConfig {
                horizon: 5,
                samples: 512,
                elites: 64,
                keep_elites: 64,
                iterations: 4,
                init_std: F32 { bits: ONE },
                min_std: F32 { bits: MILLI },
            }),
    {
        Self {
            horizon: 5,
            samples: 512,
            elites: 64,
            keep_elites: 64,
            iterations: 4,
            init_std: F32::from_bits(ONE),
            min_std: F32::from_bits(MILLI),
        }
    }
}

/// The same ranges.
pub open spec fn same_bounds(a: ActionBounds, b: ActionBounds) -> bool {
    a.low@ == b.low@ && a.high@ == b.high@
}

/// The settings of a planner without deadline, fallback and seed.
pub open spec fn is_cem(
    c: CemConfig,
    ffi: SwmCemPlanConfig,
    action_dim: usize,
    bounds: ActionBounds,
) -> bool {
    &&& c.horizon == ffi.horizon
    &&& c.samples == ffi.samples
    &&& c.elites == ffi.elites
    &&& c.iterations == ffi.iterations
    &&& c.action_dim == action_dim
    &&& same_bounds(c.action_bounds, bounds)
    &&& c.init_std == ffi.init_std
    &&& c.min_std == ffi.min_std
    &&& c.deadline is None
    &&& c.fallback_action is None
    &&& c.seed is None
}

pub fn cem_config_from_ffi(ffi: SwmCemPlanConfig, action_dim: usize, bounds: &ActionBounds) -> (r:
    CemConfig)
    ensures
        is_cem(r, ffi, action_dim, *bounds),
{
    let mut config = CemConfig::new(ffi.horizon, ffi.samples, ffi.elites, action_dim);
    config.iterations = ffi.iterations;
    config.init_std = ffi.init_std;
    config.min_std = ffi.min_std;
    config.action_bounds = bounds.clone();
    config
}

/// The settings of a planner without deadline, fallback and seed.
pub open spec fn is_mppi(
    c: MppiConfig,
    ffi: SwmMppiPlanConfig,
    action_dim: usize,
    bounds: ActionBounds,
) -> bool {
    &&& c.horizon == ffi.horizon
    &&& c.samples == ffi.samples
    &&& c.iterations == ffi.iterations
    &&& c.action_dim == action_dim
    &&& same_bounds(c.action_bounds, bounds)
    &&& c.noise_std == ffi.noise_std
    &&& c.temperature == ffi.temperature
    &&& c.deadline is None
    &&& c.fallback_action is None
    &&& c.seed is None
}

pub fn mppi_config_from_ffi(
    ffi: SwmMppiPlanConfig,
    action_dim: usize,
    bounds: &ActionBounds,
) -> (r: MppiConfig)
    ensures
        is_mppi(r, ffi, action_dim, *bounds),
{
    let mut config = MppiConfig::new(ffi.horizon, ffi.samples, action_dim);
    config.iterations = ffi.iterations;
    config.noise_std = ffi.noise_std;
    config.temperature = ffi.temperature;
    config.action_bounds = bounds.clone();
    config
}

/// The settings of a planner without deadline, fallback and seed.
pub open spec fn is_icem(
    c: IcemConfig,
    ffi: SwmIcemPlanConfig,
    action_dim: usize,
    bounds: ActionBounds,
) -> bool {
    &&& c.horizon == ffi.horizon
    &&& c.samples == ffi.samples
    &&& c.elites == ffi.elites
    &&& c.keep_elites == ffi.keep_elites
    &&& c.iterations == ffi.iterations
    &&& c.action_dim == action_dim
    &&& same_bounds(c.action_bounds, bounds)
    &&& c.init_std == ffi.init_std
    &&& c.min_std == ffi.min_std
    &&& c.deadline is None
    &&& c.fallback_action is None
    &&& c.seed is None
}

pub fn icem_config_from_ffi(
    ffi: SwmIcemPlanConfig,
    action_dim: usize,
    bounds: &ActionBounds,
) -> (r: IcemConfig)
    ensures
        is_icem(r, ffi, action_dim, *bounds),
{
    let mut config = IcemConfig::new(ffi.horizon, ffi.samples, ffi.elites, action_dim);
    config.keep_elites = ffi.keep_elites;
    config.iterations = ffi.iterations;
    config.init_std = ffi.init_std;
    config.min_std = ffi.min_std;
    config.action_bounds = bounds.clone();
    config
}

/// Two numbers are equal: a NaN equals nothing, and both zeros are equal.
pub open spec fn equal(a: F32, b: F32) -> bool {
    a.key() == b.key() && !crate::scalar::nan_key(a.key())
}

/// Whether two numbers are equal.
pub fn same_number(a: F32, b: F32) -> (r: bool)
    ensures
        r == equal(a, b),
{
    let (x, y) = (a.order_key(), b.order_key());
    let top: i64 = crate::scalar::F32_INFINITY as i64;
    x == y && -top <= x && x <= top
}

/// Number for number equal.
pub open spec fn equal_numbers(a: Seq<F32>, b: Seq<F32>) -> bool {
    &&& a.len() == b.len()
    &&& forall|k: int| 0 <= k < a.len() ==> equal(#[trigger] a[k], b[k])
}

/// Whether two lists are number for number equal.
pub fn same_numbers(a: &[F32], b: &[F32]) -> (r: bool)
    ensures
        r == equal_numbers(a@, b@),
{
    if a.len() != b.len() {
        return false;
    }
    let mut k: usize = 0;
    while k < a.len()
        invariant
            k <= a@.len(),
            a@.len() == b@.len(),
            forall|j: int| 0 <= j < k ==> equal(#[trigger] a@[j], b@[j]),
        decreases a@.len() - k,
    {
        if !same_number(a[k], b[k]) {
            return false;
        }
        k = k + 1;
    }
    true
}

/// Whether a planner with the settings `kept` does what the settings `wanted`
/// ask for.
pub open spec fn serves(kept: IcemConfig, wanted: IcemConfig) -> bool {
    &&& kept.horizon == wanted.horizon
    &&& kept.samples == wanted.samples
    &&& kept.elites == wanted.elites
    &&& kept.keep_elites == wanted.keep_elites
    &&& kept.iterations == wanted.iterations
    &&& kept.action_dim == wanted.action_dim
    &&& equal_numbers(kept.action_bounds.low@, wanted.action_bounds.low@)
    &&& equal_numbers(kept.action_bounds.high@, wanted.action_bounds.high@)
    &&& equal(kept.init_std, wanted.init_std)
    &&& equal(kept.min_std, wanted.min_std)
    &&& kept.deadline is None
    &&& kept.fallback_action is None
    &&& kept.seed is None
}

/// Whether a kept planner can be used again for settings without deadline,
/// fallback and seed.
pub fn can_reuse(kept: &IcemConfig, wanted: &IcemConfig) -> (r: bool)
    requires
        wanted.deadline is None && wanted.fallback_action is None && wanted.seed is None,
    ensures
        r == serves(*kept, *wanted),
{
    kept.horizon == wanted.horizon && kept.samples == wanted.samples && kept.elites
        == wanted.elites && kept.keep_elites == wanted.keep_elites && kept.iterations
        == wanted.iterations && kept.action_dim == wanted.action_dim && same_numbers(
        kept.action_bounds.low.as_slice(),
        wanted.action_bounds.low.as_slice(),
    ) && same_numbers(
        kept.action_bounds.high.as_slice(),
        wanted.action_bounds.high.as_slice(),
    ) && same_number(kept.init_std, wanted.init_std) && same_number(kept.min_std, wanted.min_std)
        && kept.deadline.is_none() && kept.fallback_action.is_none() && kept.seed.is_none()
}

} // verus!
