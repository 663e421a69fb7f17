//! Checks of the arguments of the tools.

use vstd::prelude::*;

use crate::error::{message, Result, SwmError};
use crate::ffi::settings::{SwmCemPlanConfig, SwmIcemPlanConfig, SwmMppiPlanConfig};
use crate::models::lewm::config::LeWmConfig;
use crate::planner::config::{MILLI, ONE};
use crate::runtime::DTypeSpec;
use crate::scalar::{F32, F64};
use crate::text::{decimal, decimal_text, join, with_number, with_numbers};

verus! {

/// How many samples are refitted to: a quarter of them and at least two, unless
/// a number is given.
pub open spec fn elites_for(samples: usize, elites: Option<usize>) -> usize {
    match elites {
        Some(n) => n,
        None => if samples < 2 {
            samples
        } else if samples / 4 < 2 {
            2
        } else {
            samples / 4
        },
    }
}

pub fn elite_count(samples: usize, elites: Option<usize>) -> (r: usize)
    ensures
        r == elites_for(samples, elites),
{
    match elites {
        Some(n) => n,
        None => if samples < 2 {
            samples
        } else if samples / 4 < 2 {
            2
        } else {
            samples / 4
        },
    }
}

/// The elites that are chosen for at least two samples can always be refitted
/// to.
pub proof fn chosen_elites_are_usable(samples: usize)
    requires
        samples >= 2,
    ensures
        2 <= elites_for(samples, None) <= samples,
{
}

/// The first thing wrong with the sizes of the planners of a benchmark.
pub open spec fn bench_complaint(
    label: Seq<char>,
    samples: usize,
    planner_iterations: usize,
    elites: Option<usize>,
) -> Option<Seq<char>> {
    if samples < 2 {
        Some(label + " benchmarks require --samples >= 2"@)
    } else if planner_iterations == 0 {
        Some("--planner-iterations must be greater than zero"@)
    } else if elites_for(samples, elites) < 2 {
        Some(label + " benchmarks require --elites >= 2"@)
    } else if elites_for(samples, elites) > samples {
        Some("--elites cannot exceed --samples"@)
    } else {
        None
    }
}

/// The elites of the planners of a benchmark.
pub fn bench_elites(
    label: &str,
    samples: usize,
    planner_iterations: usize,
    elites: Option<usize>,
) -> (r: Result<usize>)
    ensures
        bench_complaint(label@, samples, planner_iterations, elites) matches Some(text) ==> r is Err
            && r->Err_0.says(text),
        bench_complaint(label@, samples, planner_iterations, elites) is None ==> r is Ok && r->Ok_0
            == elites_for(samples, elites),
{
    if samples < 2 {
        return Err(SwmError::Message(join(label, " benchmarks require --samples >= 2")));
    }
    if planner_iterations == 0 {
        return Err(message("--planner-iterations must be greater than zero"));
    }
    if elite_count(samples, elites) < 2 {
        return Err(SwmError::Message(join(label, " benchmarks require --elites >= 2")));
    }
    search_elites(samples, elites)
}

/// What is wrong with the rounds of a benchmark and with the batch that a JPEG
/// image goes into.
pub open spec fn rounds_complaint(
    iters: usize,
    jpeg: bool,
    batch_size: usize,
) -> Option<Seq<char>> {
    if iters == 0 {
        Some("--iters must be greater than zero"@)
    } else if jpeg && batch_size != 1 {
        Some("--jpeg-input benchmark row currently requires --batch-size 1"@)
    } else {
        None
    }
}

/// Checks the rounds of a benchmark and the batch that a JPEG image goes into.
pub fn validate_rounds(iters: usize, jpeg: bool, batch_size: usize) -> (r: Result<()>)
    ensures
        r is Ok <==> rounds_complaint(iters, jpeg, batch_size) is None,
        r matches Err(e) ==> e.says(rounds_complaint(iters, jpeg, batch_size)->0),
{
    if iters == 0 {
        return Err(message("--iters must be greater than zero"));
    }
    if jpeg && batch_size != 1 {
        return Err(message("--jpeg-input benchmark row currently requires --batch-size 1"));
    }
    Ok(())
}

/// The elites of a search.
pub fn search_elites(samples: usize, elites: Option<usize>) -> (r: Result<usize>)
    ensures
        elites_for(samples, elites) > samples ==> r is Err && r->Err_0.says(
            "--elites cannot exceed --samples"@,
        ),
        elites_for(samples, elites) <= samples ==> r is Ok
            && r->Ok_0 == elites_for(samples, elites),
{
    let n: usize = elite_count(samples, elites);
    if n > samples {
        return Err(message("--elites cannot exceed --samples"));
    }
    Ok(n)
}

/// The settings of the three planners of a benchmark.
#[derive(Debug, Clone, Copy)]
pub struct BenchPlans {
    pub cem: SwmCemPlanConfig,
    pub mppi: SwmMppiPlanConfig,
    pub icem: SwmIcemPlanConfig,
}

/// The settings of the three planners of a benchmark, with unit deviations.
pub open spec fn plans_for(
    horizon: usize,
    samples: usize,
    elites: usize,
    iterations: usize,
) -> BenchPlans {
    BenchPlans {
        cem: SwmCemPlanConfig {
            horizon,
            samples,
            elites,
            iterations,
            init_std: F32 { bits: ONE },
            min_std: F32 { bits: MILLI },
        },
        mppi: SwmMppiPlanConfig {
            horizon,
            samples,
            iterations,
            noise_std: F32 { bits: ONE },
            temperature: F32 { bits: ONE },
        },
        icem: SwmIcemPlanConfig {
            horizon,
            samples,
            elites,
            keep_elites: if elites <= samples {
                elites
            } else {
                samples
            },
            iterations,
            init_std: F32 { bits: ONE },
            min_std: F32 { bits: MILLI },
        },
    }
}

pub fn bench_plans(
    horizon: usize,
    samples: usize,
    elites: usize,
    iterations: usize,
) -> (r: BenchPlans)
    ensures
        r == plans_for(horizon, samples, elites, iterations),
{
    let one = F32::from_bits(ONE);
    let milli = F32::from_bits(MILLI);
    BenchPlans {
        cem: SwmCemPlanConfig {
            horizon,
            samples,
            elites,
            iterations,
            init_std: one,
            min_std: milli,
        },
        mppi: SwmMppiPlanConfig { horizon, samples, iterations, noise_std: one, temperature: one },
        icem: SwmIcemPlanConfig {
            horizon,
            samples,
            elites,
            keep_elites: if elites <= samples {
                elites
            } else {
                samples
            },
            iterations,
            init_std: one,
            min_std: milli,
        },
    }
}

/// The first thing wrong with the arguments of the image planner.
pub open spec fn images_complaint(
    current: usize,
    goal: usize,
    samples: usize,
    iterations: usize,
) -> Option<Seq<char>> {
    if current == 0 {
        Some("provide at least one --current JPEG"@)
    } else if goal == 0 {
        Some("provide at least one --goal JPEG"@)
    } else if samples < 2 {
        Some("--samples must be at least 2"@)
    } else if iterations == 0 {
        Some("--iterations must be greater than zero"@)
    } else {
        None
    }
}

/// Checks the arguments of the image planner.
pub fn validate_args(current: usize, goal: usize, samples: usize, iterations: usize) -> (r: Result<
    (),
>)
    ensures
        r is Ok <==> images_complaint(current, goal, samples, iterations) is None,
        r matches Err(e) ==> e.says(images_complaint(current, goal, samples, iterations)->0),
{
    if current == 0 {
        return Err(message("provide at least one --current JPEG"));
    }
    if goal == 0 {
        return Err(message("provide at least one --goal JPEG"));
    }
    if samples < 2 {
        return Err(message("--samples must be at least 2"));
    }
    if iterations == 0 {
        return Err(message("--iterations must be greater than zero"));
    }
    Ok(())
}

/// The sizes of a search from images.
#[derive(Debug, Clone, Copy, PartialEq, Eq, Structural)]
pub struct SearchSizes {
    pub history: usize,
    pub horizon: usize,
    pub elites: usize,
}

/// The sizes of a search from images before they are checked: the history of the
/// checkpoint and at least five steps, unless numbers are given.
pub open spec fn search_sizes(
    history: Option<usize>,
    checkpoint_history: usize,
    horizon: Option<usize>,
    samples: usize,
    elites: Option<usize>,
) -> SearchSizes {
    let h = match history {
        Some(n) => n,
        None => checkpoint_history,
    };
    SearchSizes {
        history: h,
        horizon: match horizon {
            Some(n) => n,
            None => if h > 5 {
                h
            } else {
                5
            },
        },
        elites: elites_for(samples, elites),
    }
}

/// The first thing wrong with the sizes of a search from images.
pub open spec fn sizes_complaint(s: SearchSizes, samples: usize) -> Option<Seq<char>> {
    if s.history == 0 {
        Some("--history-size must be greater than zero"@)
    } else if s.horizon < s.history {
        Some(
            "--horizon "@ + decimal(s.horizon as nat) + " must be >= input history size "@
                + decimal(s.history as nat),
        )
    } else if s.elites > samples {
        Some("--elites cannot exceed --samples"@)
    } else {
        None
    }
}

/// The sizes of a search from images.
pub fn plan_sizes(
    history: Option<usize>,
    checkpoint_history: usize,
    horizon: Option<usize>,
    samples: usize,
    elites: Option<usize>,
) -> (r: Result<SearchSizes>)
    ensures
        ({
            let s = search_sizes(history, checkpoint_history, horizon, samples, elites);
            &&& sizes_complaint(s, samples) matches Some(text) ==> r is Err && r->Err_0.says(text)
            &&& sizes_complaint(s, samples) is None ==> r is Ok && r->Ok_0 == s
        }),
{
    let h: usize = match history {
        Some(n) => n,
        None => checkpoint_history,
    };
    if h == 0 {
        return Err(message("--history-size must be greater than zero"));
    }
    let steps: usize = match horizon {
        Some(n) => n,
        None => if h > 5 {
            h
        } else {
            5
        },
    };
    if steps < h {
        let text = with_numbers("--horizon ", steps, " must be >= input history size ", h, "");
        proof {
            reveal_strlit("");
            let s = search_sizes(history, checkpoint_history, horizon, samples, elites);
            assert(text@ =~= sizes_complaint(s, samples)->0);
        }
        return Err(SwmError::Message(text));
    }
    let n: usize = search_elites(samples, elites)?;
    Ok(SearchSizes { history: h, horizon: steps, elites: n })
}

/// The picture that fills a slot of a history: one picture fills all of them.
pub fn history_path_index(paths: usize, history: usize, slot: usize, label: &str) -> (r: Result<
    usize,
>)
    ensures
        paths == 1 ==> r is Ok && r->Ok_0 == 0,
        paths != 1 && paths == history ==> r is Ok && r->Ok_0 == slot,
        paths != 1 && paths != history ==> r is Err && r->Err_0.says(
            "--"@ + label@ + " accepts either one JPEG or exactly history_size ("@ + decimal(
                history as nat,
            ) + ") JPEGs, got "@ + decimal(paths as nat),
        ),
{
    if paths == 1 {
        return Ok(0);
    }
    if paths != history {
        let mut text = String::from_str("--");
        text.append(label);
        text.append(" accepts either one JPEG or exactly history_size (");
        text.append(decimal_text(history as u64).as_str());
        text.append(") JPEGs, got ");
        text.append(decimal_text(paths as u64).as_str());
        return Err(SwmError::Message(text));
    }
    Ok(slot)
}

/// Where a tool takes its model from.
#[derive(Debug, Clone, Copy, PartialEq, Eq, Structural)]
pub enum ModelSource {
    /// The files that were named.
    Local,
    /// A repository of the hub.
    Hub,
}

/// Where a planner takes its model from: from named files first.
pub fn planner_source(weights: bool, config: bool, repo: bool) -> (r: Result<ModelSource>)
    ensures
        weights ==> r is Ok && r->Ok_0 is Local,
        !weights && config ==> r is Err && r->Err_0.says(
            "--weights is required when using local checkpoint files"@,
        ),
        !weights && !config && repo ==> r is Ok && r->Ok_0 is Hub,
        !weights && !config && !repo ==> r is Err && r->Err_0.says(
            "provide --hf-repo or --weights/--config"@,
        ),
{
    if weights {
        return Ok(ModelSource::Local);
    }
    if config {
        return Err(message("--weights is required when using local checkpoint files"));
    }
    if repo {
        return Ok(ModelSource::Hub);
    }
    Err(message("provide --hf-repo or --weights/--config"))
}

/// Where a comparison takes its model from: from the hub first.
pub fn comparison_source(weights: bool, repo: bool) -> (r: Result<ModelSource>)
    ensures
        repo ==> r is Ok && r->Ok_0 is Hub,
        !repo && weights ==> r is Ok && r->Ok_0 is Local,
        !repo && !weights ==> r is Err && r->Err_0.says("provide --weights or --hf-repo"@),
{
    if repo {
        return Ok(ModelSource::Hub);
    }
    if weights {
        return Ok(ModelSource::Local);
    }
    Err(message("provide --weights or --hf-repo"))
}

/// The first thing wrong with the arguments of the trainer.
pub open spec fn training_complaint(
    steps: usize,
    log_every: usize,
    lr: F64,
    weight_decay: F64,
) -> Option<
    Seq<char>,
> {
    if steps == 0 {
        Some("--steps must be greater than zero"@)
    } else if log_every == 0 {
        Some("--log-every must be greater than zero"@)
    } else if !lr.finite() || lr.key() <= 0 {
        Some("--lr must be finite and greater than zero"@)
    } else if !weight_decay.finite() || weight_decay.key() < 0 {
        Some("--weight-decay must be finite and non-negative"@)
    } else {
        None
    }
}

/// Checks the arguments of the trainer.
pub fn validate_training(steps: usize, log_every: usize, lr: F64, weight_decay: F64) -> (r: Result<
    (),
>)
    ensures
        r is Ok <==> training_complaint(steps, log_every, lr, weight_decay) is None,
        r matches Err(e) ==> e.says(training_complaint(steps, log_every, lr, weight_decay)->0),
{
    if steps == 0 {
        return Err(message("--steps must be greater than zero"));
    }
    if log_every == 0 {
        return Err(message("--log-every must be greater than zero"));
    }
    if !lr.is_finite() || lr.order_key() <= 0 {
        return Err(message("--lr must be finite and greater than zero"));
    }
    if !weight_decay.is_finite() || weight_decay.order_key() < 0 {
        return Err(message("--weight-decay must be finite and non-negative"));
    }
    Ok(())
}

/// Checks the element type of a training run.
pub fn validate_training_dtype(spec: DTypeSpec) -> (r: Result<()>)
    ensures
        spec is F32 ==> r is Ok,
        !(spec is F32) ==> r is Err && r->Err_0.says(
            "LeWM training currently requires --dtype f32"@,
        ),
{
    match spec {
        DTypeSpec::F32 => Ok(()),
        _ => Err(message("LeWM training currently requires --dtype f32")),
    }
}

/// Whether the losses of a step are printed: those of the first and the last
/// step, and of each multiple in between.
pub fn logs_step(step: usize, steps: usize, log_every: usize) -> (r: bool)
    requires
        log_every > 0,
    ensures
        r == (step == 1 || step == steps || step % log_every == 0),
{
    step == 1 || step == steps || step % log_every == 0
}

/// The first thing wrong with a batch of frames and actions.
pub open spec fn batch_complaint(pixels: (usize, usize), action_time: usize) -> Option<Seq<char>> {
    if pixels.1 != 3 {
        Some("pixels channel dimension must be 3, got "@ + decimal(pixels.1 as nat))
    } else if action_time != pixels.0 {
        Some(
            "pixels/actions time mismatch: "@ + decimal(pixels.0 as nat) + " vs "@ + decimal(
                action_time as nat,
            ),
        )
    } else {
        None
    }
}

/// Checks a batch of frames and actions.
pub fn check_batch(time: usize, channels: usize, action_time: usize) -> (r: Result<()>)
    ensures
        r is Ok <==> batch_complaint((time, channels), action_time) is None,
        r matches Err(e) ==> e.says(batch_complaint((time, channels), action_time)->0),
{
    proof {
        reveal_strlit("");
    }
    if channels != 3 {
        let text = with_number("pixels channel dimension must be 3, got ", channels, "");
        proof {
            assert(text@ =~= batch_complaint((time, channels), action_time)->0);
        }
        return Err(SwmError::Message(text));
    }
    if action_time != time {
        let text = with_numbers("pixels/actions time mismatch: ", time, " vs ", action_time, "");
        proof {
            assert(text@ =~= batch_complaint((time, channels), action_time)->0);
        }
        return Err(SwmError::Message(text));
    }
    Ok(())
}

/// The first thing wrong with the settings of a model for a batch.
pub open spec fn model_complaint(
    cfg: LeWmConfig,
    time: usize,
    height: usize,
    width: usize,
    action_dim: usize,
) -> Option<Seq<char>> {
    if cfg.action_encoder.input_dim != action_dim {
        Some(
            "config action_dim "@ + decimal(cfg.action_encoder.input_dim as nat)
                + " does not match batch action_dim "@ + decimal(action_dim as nat),
        )
    } else if cfg.history_size != time {
        Some(
            "config history_size "@ + decimal(cfg.history_size as nat) + " must match batch time "@
                + decimal(time as nat),
        )
    } else if cfg.encoder.image_size != height || cfg.encoder.image_size != width {
        Some(
            "config image_size "@ + decimal(cfg.encoder.image_size as nat)
                + " must match batch image shape "@ + decimal(height as nat) + "x"@ + decimal(
                width as nat,
            ),
        )
    } else {
        None
    }
}

/// Checks the settings of a model for a batch.
pub fn check_model(
    cfg: &LeWmConfig,
    time: usize,
    height: usize,
    width: usize,
    action_dim: usize,
) -> (r: Result<()>)
    ensures
        r is Ok <==> model_complaint(*cfg, time, height, width, action_dim) is None,
        r matches Err(e) ==> e.says(model_complaint(*cfg, time, height, width, action_dim)->0),
{
    proof {
        reveal_strlit("");
    }
    if cfg.action_encoder.input_dim != action_dim {
        let text = with_numbers(
            "config action_dim ",
            cfg.action_encoder.input_dim,
            " does not match batch action_dim ",
            action_dim,
            "",
        );
        proof {
            assert(text@ =~= model_complaint(*cfg, time, height, width, action_dim)->0);
        }
        return Err(SwmError::Message(text));
    }
    if cfg.history_size != time {
        let text = with_numbers(
            "config history_size ",
            cfg.history_size,
            " must match batch time ",
            time,
            "",
        );
        proof {
            assert(text@ =~= model_complaint(*cfg, time, height, width, action_dim)->0);
        }
        return Err(SwmError::Message(text));
    }
    if cfg.encoder.image_size != height || cfg.encoder.image_size != width {
        let mut text = with_number("config image_size ", cfg.encoder.image_size, "");
        text.append(" must match batch image shape ");
        text.append(decimal_text(height as u64).as_str());
        text.append("x");
        text.append(decimal_text(width as u64).as_str());
        proof {
            assert(text@ =~= model_complaint(*cfg, time, height, width, action_dim)->0);
        }
        return Err(SwmError::Message(text));
    }
    Ok(())
}

/// The first thing wrong with the candidates of a fixture.
pub open spec fn fixture_complaint(
    fixture_action_dim: usize,
    action_dim: usize,
    horizon: usize,
    history: usize,
) -> Option<Seq<char>> {
    if fixture_action_dim != action_dim {
        Some(
            "fixture action_dim "@ + decimal(fixture_action_dim as nat)
                + " does not match checkpoint action_dim "@ + decimal(action_dim as nat),
        )
    } else if horizon < history {
        Some(
            "planner horizon "@ + decimal(horizon as nat) + " must be >= LeWM history size "@
                + decimal(history as nat),
        )
    } else {
        None
    }
}

/// How many steps are planned from a fixture: its own, unless a number is given.
pub fn fixture_horizon(
    fixture_action_dim: usize,
    action_dim: usize,
    given: Option<usize>,
    fixture: usize,
    history: usize,
) -> (r: Result<usize>)
    ensures
        ({
            let h = match given {
                Some(n) => n,
                None => fixture,
            };
            &&& fixture_complaint(fixture_action_dim, action_dim, h, history) matches Some(text)
                ==> r is Err && r->Err_0.says(text)
            &&& fixture_complaint(fixture_action_dim, action_dim, h, history) is None ==> r is Ok
                && r->Ok_0 == h
        }),
{
    let horizon: usize = match given {
        Some(n) => n,
        None => fixture,
    };
    proof {
        reveal_strlit("");
    }
    if fixture_action_dim != action_dim {
        let text = with_numbers(
            "fixture action_dim ",
            fixture_action_dim,
            " does not match checkpoint action_dim ",
            action_dim,
            "",
        );
        proof {
            assert(text@ =~= fixture_complaint(fixture_action_dim, action_dim, horizon, history)->0);
        }
        return Err(SwmError::Message(text));
    }
    if horizon < history {
        let text = with_numbers(
            "planner horizon ",
            horizon,
            " must be >= LeWM history size ",
            history,
            "",
        );
        proof {
            assert(text@ =~= fixture_complaint(fixture_action_dim, action_dim, horizon, history)->0);
        }
        return Err(SwmError::Message(text));
    }
    Ok(horizon)
}

} // verus!
