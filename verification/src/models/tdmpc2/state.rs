//! Models that see a state vector and nothing else.

use candle_core::Tensor;
use vstd::prelude::*;

use crate::models::tdmpc2::config::{total_width, TdMpc2Config};
use crate::models::tdmpc2::encode::{embedding_width, observed, observed_from};
use crate::models::tdmpc2::model::{
    layers_complaint, pixels_from, pixels_place, settings_complaint, vector_encodings, TdMpc2,
};
use crate::tensor::layout::{joinable, total_places};
use crate::tensor::value::{count, tensor_dims, TensorValue};
use crate::text::{decimal, sizes_text};

verus! {

/// What is wrong with the number of actions of a model that sees a state vector.
pub open spec fn state_settings_complaint(action_dim: usize) -> Option<Seq<char>> {
    if 128 + action_dim > usize::MAX || 2 * action_dim > usize::MAX {
        Some("TD-MPC2 layer width overflowed"@)
    } else {
        None
    }
}

/// What is wrong with the shape of a state vector.
pub open spec fn state_complaint(state_dim: usize, dims: Seq<usize>) -> Option<Seq<char>> {
    if dims.len() == 0 || dims.last() != state_dim {
        Some(
            "encoder "@ + "state"@ + " expects last dim "@ + decimal(state_dim as nat) + ", got "@
                + sizes_text(dims),
        )
    } else if count(dims.drop_last()) > usize::MAX {
        Some("observation shape overflowed"@)
    } else {
        None
    }
}

/// The first thing wrong with a model that sees a state vector and with what it is
/// shown.
pub open spec fn state_start_complaint(
    state_dim: usize,
    action_dim: usize,
    dims: Seq<usize>,
) -> Option<Seq<char>> {
    if state_settings_complaint(action_dim) is Some {
        state_settings_complaint(action_dim)
    } else {
        state_complaint(state_dim, dims)
    }
}

/// The only encoding is that of a vector, 128 wide.
pub proof fn lemma_state_widths(cfg: TdMpc2Config, state_dim: usize, action_dim: usize)
    requires
        cfg.sees_state(state_dim, action_dim),
    ensures
        total_width(cfg.encodings@) == 128,
        embedding_width(cfg.encodings@) == 128,
        pixels_place(cfg.encodings@) is None,
        vector_encodings(cfg.encodings@) == cfg.encodings@,
{
    let all = cfg.encodings@;
    reveal_strlit("state");
    reveal_strlit("pixels");
    assert("state"@.len() != "pixels"@.len());
    assert(all.drop_last() =~= Seq::empty());
    assert(all.last() == all[0]);
    reveal_with_fuel(total_width, 2);
    reveal_with_fuel(vector_encodings, 2);
    reveal_with_fuel(pixels_from, 3);
    assert(vector_encodings(all) =~= all);
}

/// What the settings of such a model can be refused for.
pub proof fn lemma_state_settings(cfg: TdMpc2Config, state_dim: usize, action_dim: usize)
    requires
        cfg.sees_state(state_dim, action_dim),
    ensures
        settings_complaint(cfg) == state_settings_complaint(action_dim),
        forall|text: Seq<char>| !#[trigger] layers_complaint(cfg, text),
{
    lemma_state_widths(cfg, state_dim, action_dim);
}

/// What such a model says of an observation of the name `state`.
pub proof fn lemma_state_observed(
    model: TdMpc2,
    state_dim: usize,
    action_dim: usize,
    obs: Seq<(&str, &Tensor)>,
)
    requires
        model.well_formed(),
        model.cfg.sees_state(state_dim, action_dim),
        obs.len() == 1,
        obs[0].0@ == "state"@,
    ensures
        model.encode_complaint(obs) == state_complaint(state_dim, tensor_dims(*obs[0].1)),
        forall|text: Seq<char>| !#[trigger] model.cannot_join(obs, text),
        model.kept_axes(obs) == tensor_dims(*obs[0].1).drop_last(),
        model.latent() == 128,
        model.latent_complaint() is None,
{
    let all = model.cfg.encodings@;
    lemma_state_widths(model.cfg, state_dim, action_dim);
    let e = model.encoders@[0];
    assert(e.cfg.same(all[0]));
    reveal_with_fuel(observed_from, 2);
    assert(observed(obs, "state"@) == Some(*obs[0].1));
    assert(model.vectors_complaint(obs, 1) is None);
    assert(model.vectors_complaint(obs, 0) == e.complaint(tensor_dims(*obs[0].1)));
    assert(seq![128usize].last() == 128);
    assert forall|text: Seq<char>| !#[trigger] model.cannot_join(obs, text) by {
        assert forall|vs: Seq<TensorValue>| #[trigger] model.embeds(obs, vs) implies joinable(
            vs,
            vs[0].dims.len() - 1,
        ) by {
            let axis = vs[0].dims.len() - 1;
            reveal_with_fuel(total_places, 2);
            assert(vs.drop_last() =~= Seq::empty());
            assert(vs.last() == vs[0]);
        }
    }
}

} // verus!
