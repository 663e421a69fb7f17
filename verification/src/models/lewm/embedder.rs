//! The action embedder of the LeWM model.

use candle_core::Tensor;
use candle_nn::Conv1d;
use candle_nn::Linear;
use vstd::prelude::*;

use crate::error::{lift, message, Result};
use crate::models::lewm::config::ActionEmbedderConfig;
use crate::tensor::arithmetic::{is_silu, silu};
use crate::tensor::layers::{
    affine_stored, apply_conv1d, apply_linear, conv1d, conv1d_from, conv1d_home, conv1d_sizes,
    from_file, full, held_as, is_conv1d, is_linear, linear, linear_from, linear_home, linear_sizes,
    linear_stored, store_path, store_source, ParameterStore,
};
use crate::tensor::layout::{cast_of, dtype_of, permute, permuted, to_dtype};
use crate::tensor::ranks::{dims3, rank_complaint};
use crate::tensor::value::{
    count, resident, tensor_dims, tensor_element, tensor_keys, tensor_location, value, ElementType,
    TensorValue,
};

verus! {

/// The last two of three axes change places.
pub open spec fn swapped() -> Seq<usize> {
    seq![0usize, 2, 1]
}

/// Embeds a sequence of actions.
#[derive(Debug, Clone)]
pub struct ActionEmbedder {
    pub patch_embed: Conv1d,
    pub fc1: Linear,
    pub fc2: Linear,
}

impl ActionEmbedder {
    /// The embedder has the widths of its settings.
    pub open spec fn fits(self, cfg: ActionEmbedderConfig) -> bool {
        let hidden = cfg.mlp_scale * cfg.emb_dim;
        &&& hidden <= usize::MAX
        &&& conv1d_sizes(self.patch_embed) == seq![cfg.input_dim, cfg.smoothed_dim, 1usize]
        &&& linear_sizes(self.fc1) == seq![cfg.smoothed_dim, hidden as usize]
        &&& linear_sizes(self.fc2) == seq![hidden as usize, cfg.emb_dim]
    }

    pub open spec fn loaded(self, source: int, path: Seq<Seq<char>>) -> bool {
        &&& conv1d_from(source, path.push("patch_embed"@), self.patch_embed)
        &&& linear_from(source, path.push("embed"@).push("0"@), self.fc1)
        &&& linear_from(source, path.push("embed"@).push("2"@), self.fc2)
    }

    /// The parameters of the embedder are single-precision numbers in the memory of
    /// the processor.
    pub open spec fn home(self) -> bool {
        &&& conv1d_home(self.patch_embed, ElementType::F32)
        &&& linear_home(self.fc1, ElementType::F32)
        &&& linear_home(self.fc2, ElementType::F32)
    }

    /// Whether the embedder takes actions on the processor.
    pub open spec fn takes(self, x: TensorValue) -> bool {
        &&& resident(x)
        &&& full(x.dims)
        &&& self.home()
        &&& x.dims.len() == 3
        &&& x.dims[2] == conv1d_sizes(self.patch_embed)[0]
        &&& linear_sizes(self.fc1)[0] > 0
        &&& linear_sizes(self.fc1)[1] > 0
    }

    /// The smoothed actions.
    pub open spec fn smooths(self, x: TensorValue, r: TensorValue) -> bool {
        exists|single: TensorValue, first: TensorValue, conv: TensorValue|
            #[trigger] cast_of(x, single) && single.element is F32 && #[trigger] permuted(
                single,
                swapped(),
                first,
            ) && #[trigger] is_conv1d(self.patch_embed, first, conv) && permuted(conv, swapped(), r)
    }

    /// What the embedder makes of actions.
    pub open spec fn of(self, x: TensorValue, r: TensorValue) -> bool {
        exists|smooth: TensorValue, a: TensorValue, u: TensorValue|
            #[trigger] self.smooths(x, smooth) && #[trigger] is_linear(self.fc1, smooth, a)
                && #[trigger] is_silu(a, u) && is_linear(self.fc2, u, r)
    }

    /// What is wrong with the shape of actions.
    pub open spec fn complaint(self, dims: Seq<usize>) -> Option<Seq<char>> {
        if dims.len() != 3 {
            Some(rank_complaint(3, dims))
        } else if dims[1] == 0 {
            Some("LeWM actions need at least one step"@)
        } else {
            None
        }
    }

    /// Whether a parameter file has every parameter of the embedder.
    pub open spec fn stored(
        source: int,
        path: Seq<Seq<char>>,
        cfg: ActionEmbedderConfig,
    ) -> bool {
        let hidden = (cfg.mlp_scale * cfg.emb_dim) as usize;
        let embed = path.push("embed"@);
        &&& affine_stored(
            source,
            path.push("patch_embed"@),
            seq![cfg.smoothed_dim, cfg.input_dim, 1usize],
            cfg.smoothed_dim,
        )
        &&& linear_stored(source, embed.push("0"@), cfg.smoothed_dim, hidden)
        &&& linear_stored(source, embed.push("2"@), hidden, cfg.emb_dim)
    }

    pub fn new(cfg: &ActionEmbedderConfig, store: &ParameterStore) -> (r: Result<Self>)
        ensures
            r matches Ok(e) ==> e.fits(*cfg) && e.loaded(store_source(*store), store_path(*store)),
            cfg.mlp_scale * cfg.emb_dim > usize::MAX ==> r is Err && r->Err_0.says(
                "LeWM layer width overflowed"@,
            ),
            cfg.mlp_scale * cfg.emb_dim <= usize::MAX ==> (r matches Err(e) ==> e is Backend),
            r matches Ok(l) ==> held_as(store_source(*store), ElementType::F32) ==> l.home(),
            from_file(store_source(*store)) && cfg.mlp_scale * cfg.emb_dim <= usize::MAX ==> (r is Ok
                <==> Self::stored(
                    store_source(*store),
                    store_path(*store),
                    *cfg,
                )),
    {
        let hidden: usize = match cfg.mlp_scale.checked_mul(cfg.emb_dim) {
            Some(n) => n,
            None => {
                return Err(message("LeWM layer width overflowed"));
            },
        };
        let patch_embed = lift(
            conv1d(&store.pp("patch_embed"), cfg.input_dim, cfg.smoothed_dim, 1),
        )?;
        let embed = store.pp("embed");
        let fc1 = lift(linear(&embed.pp("0"), cfg.smoothed_dim, hidden))?;
        let fc2 = lift(linear(&embed.pp("2"), hidden, cfg.emb_dim))?;
        Ok(Self { patch_embed, fc1, fc2 })
    }

    /// Embeds actions `[batch, time, actions]`.
    pub fn forward(&self, xs: &Tensor) -> (r: Result<Tensor>)
        requires
            exists|cfg: ActionEmbedderConfig| self.fits(cfg),
        ensures
            self.complaint(tensor_dims(*xs)) matches Some(text) ==> r is Err && r->Err_0.says(text),
            self.complaint(tensor_dims(*xs)) is None ==> (r matches Err(e) ==> e is Backend),
            r matches Ok(o) ==> self.of(value(*xs), value(o)) && tensor_dims(o) == seq![
                tensor_dims(*xs)[0],
                tensor_dims(*xs)[1],
                linear_sizes(self.fc2)[1],
            ] && tensor_element(o) is F32 && tensor_location(o) == tensor_location(*xs)
                && tensor_keys(o).len() == count(tensor_dims(o)),
            self.takes(value(*xs)) ==> r is Ok,
    {
        let (b, t, a) = dims3(xs)?;
        if t == 0 {
            return Err(message("LeWM actions need at least one step"));
        }
        let single = lift(to_dtype(xs, dtype_of(ElementType::F32)))?;
        let order = vec![0, 2, 1];
        proof {
            assert(order@ =~= swapped());
        }
        let first = lift(permute(&single, order))?;
        proof {
            let cfg = choose|cfg: ActionEmbedderConfig| self.fits(cfg);
            assert(conv1d_sizes(self.patch_embed)[2] == 1);
            assert(tensor_dims(first) =~= seq![b, a, t]);
            assert(conv1d_sizes(self.patch_embed)[1] == cfg.smoothed_dim);
            assert(linear_sizes(self.fc1)[0] == cfg.smoothed_dim);
            assert(linear_sizes(self.fc2)[0] == linear_sizes(self.fc1)[1]);
            if full(tensor_dims(*xs)) {
                let d = tensor_dims(*xs);
                assert(d[0] == b && d[1] == t && d[2] == a);
            }
        }
        let conv = lift(apply_conv1d(&self.patch_embed, &first))?;
        let back = vec![0, 2, 1];
        proof {
            assert(back@ =~= swapped());
        }
        let smooth = lift(permute(&conv, back))?;
        proof {
            assert(tensor_dims(smooth) =~= seq![b, t, conv1d_sizes(self.patch_embed)[1]]);
        }
        let h = lift(apply_linear(&self.fc1, &smooth))?;
        let u = lift(silu(&h))?;
        let out = lift(apply_linear(&self.fc2, &u))?;
        proof {
            assert(cast_of(value(*xs), value(single)));
            assert(permuted(value(single), swapped(), value(first)));
            assert(is_conv1d(self.patch_embed, value(first), value(conv)));
            assert(self.smooths(value(*xs), value(smooth)));
            assert(is_linear(self.fc1, value(smooth), value(h)));
            assert(is_silu(value(h), value(u)));
            assert(tensor_dims(smooth).drop_last() =~= seq![b, t]);
            assert(tensor_dims(u).drop_last() =~= seq![b, t]);
            assert(tensor_dims(out) =~= seq![b, t, linear_sizes(self.fc2)[1]]);
        }
        Ok(out)
    }
}

} // verus!
