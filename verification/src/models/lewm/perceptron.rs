//! Perceptrons of the LeWM model.

use candle_core::Tensor;
use candle_nn::BatchNorm;
use candle_nn::LayerNorm;
use candle_nn::Linear;
use vstd::prelude::*;

use crate::error::{lift, Result, SwmError};
use crate::models::lewm::config::{MlpConfig, NormKind};
use crate::scalar::f64_key;
use crate::tensor::arithmetic::{gelu, is_gelu, like};
use crate::tensor::layers::{
    apply_batch_norm, apply_linear, apply_norm, batch_norm, batch_norm_from, batch_norm_home,
    batch_norm_stored, from_file, held_as, is_batch_normed, is_linear, is_normed, linear,
    linear_from, linear_home, linear_sizes, linear_stored, norm_from, norm_home, norm_size,
    norm_stored, ready, store_path, store_source, ParameterStore,
};
use crate::tensor::layout::share;
use crate::tensor::norms::{load_norm, EPSILON};
use crate::tensor::value::{
    count, tensor_dims, tensor_element, tensor_keys, value, ElementType, TensorValue,
};

verus! {

/// The normalisation between the layers of a perceptron.
#[derive(Debug, Clone)]
pub enum MlpNorm {
    Batch(BatchNorm),
    Layer(LayerNorm),
    Identity,
}

impl MlpNorm {
    /// The normalisation is of a kind and works on a width.
    pub open spec fn fits(self, kind: NormKind, width: usize) -> bool {
        match kind {
            NormKind::BatchNorm1d => self is Batch,
            NormKind::LayerNorm => self matches MlpNorm::Layer(l) && norm_size(l) == width && width
                > 0,
            NormKind::NoNorm => self is Identity,
        }
    }

    /// The parameters have an element type in the memory of the processor.
    pub open spec fn home(self, width: usize, e: ElementType) -> bool {
        match self {
            MlpNorm::Batch(l) => batch_norm_home(l, width, e),
            MlpNorm::Layer(l) => norm_home(l, e),
            MlpNorm::Identity => true,
        }
    }

    pub open spec fn loaded(self, source: int, path: Seq<Seq<char>>, width: usize) -> bool {
        match self {
            MlpNorm::Batch(l) => batch_norm_from(source, path, width, l),
            MlpNorm::Layer(l) => norm_from(source, path, f64_key(EPSILON), l),
            MlpNorm::Identity => true,
        }
    }

    pub open spec fn of(self, x: TensorValue, r: TensorValue) -> bool {
        match self {
            MlpNorm::Batch(l) => is_batch_normed(l, x, r),
            MlpNorm::Layer(l) => is_normed(l, x, r),
            MlpNorm::Identity => r == x,
        }
    }

    /// Whether a parameter file has every parameter of a normalisation.
    /// A width that is normalised is never zero.
    pub open spec fn stored(
        source: int,
        path: Seq<Seq<char>>,
        kind: NormKind,
        width: usize,
    ) -> bool {
        match kind {
            NormKind::BatchNorm1d => batch_norm_stored(source, path, width),
            NormKind::LayerNorm => width > 0 && norm_stored(source, path, width),
            NormKind::NoNorm => true,
        }
    }

    fn new(kind: NormKind, width: usize, store: &ParameterStore) -> (r: Result<Self>)
        ensures
            r matches Ok(n) ==> n.fits(kind, width) && n.loaded(
                store_source(*store),
                store_path(*store),
                width,
            ),
            r matches Err(SwmError::Message(m)) ==> kind is LayerNorm && width == 0 && m@
                == "normalised width must be greater than zero"@,
            kind is LayerNorm && width == 0 ==> r is Err,
            kind is NoNorm ==> r is Ok,
            r matches Ok(n) ==> forall|e: ElementType| #[trigger]
                held_as(store_source(*store), e) ==> n.home(width, e),
            from_file(store_source(*store)) ==> (r is Ok <==> Self::stored(
                    store_source(*store),
                    store_path(*store),
                    kind,
                    width,
                )),
    {
        match kind {
            NormKind::BatchNorm1d => {
                let l = lift(batch_norm(store, width))?;
                Ok(MlpNorm::Batch(l))
            },
            NormKind::LayerNorm => {
                let l = load_norm(store, width)?;
                Ok(MlpNorm::Layer(l))
            },
            NormKind::NoNorm => Ok(MlpNorm::Identity),
        }
    }

    fn forward(&self, xs: &Tensor) -> (r: Result<Tensor>)
        requires
            *self matches MlpNorm::Layer(l) ==> tensor_dims(*xs).len() > 0
                && tensor_dims(*xs).last()
                == norm_size(l) && norm_size(l) > 0,
        ensures
            r matches Ok(o) ==> self.of(value(*xs), value(o)) && like(value(*xs), value(o)),
            *self is Identity ==> r is Ok,
            r matches Err(e) ==> e is Backend,
            ready(value(*xs)) && tensor_dims(*xs).len() == 2 && self.home(
                tensor_dims(*xs)[1],
                tensor_element(*xs),
            ) ==> r is Ok,
    {
        match self {
            MlpNorm::Batch(l) => lift(apply_batch_norm(l, xs)),
            MlpNorm::Layer(l) => lift(apply_norm(l, xs)),
            MlpNorm::Identity => Ok(share(xs)),
        }
    }
}

/// A perceptron of two layers.
#[derive(Debug, Clone)]
pub struct Mlp {
    pub fc1: Linear,
    pub norm: MlpNorm,
    pub fc2: Linear,
}

impl Mlp {
    /// The perceptron has the widths and the normalisation of its settings.
    pub open spec fn fits(self, cfg: MlpConfig) -> bool {
        &&& linear_sizes(self.fc1) == seq![cfg.input_dim, cfg.hidden_dim]
        &&& self.norm.fits(cfg.norm, cfg.hidden_dim)
        &&& linear_sizes(self.fc2) == seq![cfg.hidden_dim, cfg.output_dim]
    }

    pub open spec fn loaded(self, source: int, path: Seq<Seq<char>>, cfg: MlpConfig) -> bool {
        let net = path.push("net"@);
        &&& linear_from(source, net.push("0"@), self.fc1)
        &&& self.norm.loaded(source, net.push("1"@), cfg.hidden_dim)
        &&& linear_from(source, net.push("3"@), self.fc2)
    }

    /// The parameters of the perceptron have an element type in the memory of the
    /// processor.
    pub open spec fn home(self, e: ElementType) -> bool {
        &&& linear_home(self.fc1, e)
        &&& self.norm.home(linear_sizes(self.fc1)[1], e)
        &&& linear_home(self.fc2, e)
    }

    /// What the perceptron makes of an input.
    pub open spec fn of(self, x: TensorValue, r: TensorValue) -> bool {
        exists|a: TensorValue, n: TensorValue, g: TensorValue|
            #[trigger] is_linear(self.fc1, x, a) && #[trigger] self.norm.of(a, n)
                && #[trigger] is_gelu(n, g) && is_linear(self.fc2, g, r)
    }

    /// Whether a parameter file has every parameter of the perceptron.
    /// A width that is normalised is never zero.
    pub open spec fn stored(
        source: int,
        path: Seq<Seq<char>>,
        cfg: MlpConfig,
    ) -> bool {
        let net = path.push("net"@);
        &&& linear_stored(source, net.push("0"@), cfg.input_dim, cfg.hidden_dim)
        &&& MlpNorm::stored(source, net.push("1"@), cfg.norm, cfg.hidden_dim)
        &&& linear_stored(source, net.push("3"@), cfg.hidden_dim, cfg.output_dim)
    }

    pub fn new(cfg: &MlpConfig, store: &ParameterStore) -> (r: Result<Self>)
        ensures
            r matches Ok(m) ==> m.fits(*cfg) && m.loaded(
                store_source(*store),
                store_path(*store),
                *cfg,
            ),
            r matches Err(SwmError::Message(m)) ==> cfg.norm is LayerNorm && cfg.hidden_dim == 0
                && m@ == "normalised width must be greater than zero"@,
            cfg.norm is LayerNorm && cfg.hidden_dim == 0 ==> r is Err,
            r matches Ok(m) ==> forall|e: ElementType| #[trigger]
                held_as(store_source(*store), e) ==> m.home(e),
            from_file(store_source(*store)) ==> (r is Ok <==> Self::stored(
                    store_source(*store),
                    store_path(*store),
                    *cfg,
                )),
    {
        let net = store.pp("net");
        let fc1 = lift(linear(&net.pp("0"), cfg.input_dim, cfg.hidden_dim))?;
        let norm = MlpNorm::new(cfg.norm, cfg.hidden_dim, &net.pp("1"))?;
        let fc2 = lift(linear(&net.pp("3"), cfg.hidden_dim, cfg.output_dim))?;
        Ok(Self { fc1, norm, fc2 })
    }

    pub fn forward(&self, xs: &Tensor) -> (r: Result<Tensor>)
        requires
            exists|cfg: MlpConfig| self.fits(cfg),
        ensures
            r matches Ok(o) ==> self.of(value(*xs), value(o)) && 2 <= tensor_dims(*xs).len() <= 4
                && tensor_dims(*xs).last() == linear_sizes(self.fc1)[0] && value(o)
                == value(*xs).alongside(
                tensor_dims(*xs).drop_last().push(linear_sizes(self.fc2)[1]),
                tensor_keys(o),
            ) && tensor_keys(o).len() == count(tensor_dims(o)),
            r matches Err(e) ==> e is Backend,
            ready(value(*xs)) && tensor_dims(*xs).len() == 2 && self.home(tensor_element(*xs)) && tensor_dims(
                *xs,
            )[1] == linear_sizes(self.fc1)[0] && linear_sizes(self.fc1)[1] > 0 ==> r is Ok,
    {
        let a = lift(apply_linear(&self.fc1, xs))?;
        proof {
            let cfg = choose|cfg: MlpConfig| self.fits(cfg);
            assert(linear_sizes(self.fc1)[1] == cfg.hidden_dim);
            assert(tensor_dims(a).last() == cfg.hidden_dim);
        }
        proof {
            let cfg = choose|cfg: MlpConfig| self.fits(cfg);
            assert(linear_sizes(self.fc2)[0] == cfg.hidden_dim);
        }
        let n = self.norm.forward(&a)?;
        let g = lift(gelu(&n))?;
        let out = lift(apply_linear(&self.fc2, &g))?;
        proof {
            assert(is_linear(self.fc1, value(*xs), value(a)));
            assert(self.norm.of(value(a), value(n)));
            assert(is_gelu(value(n), value(g)));
            assert(tensor_dims(g).drop_last() =~= tensor_dims(*xs).drop_last());
        }
        Ok(out)
    }
}

} // verus!
