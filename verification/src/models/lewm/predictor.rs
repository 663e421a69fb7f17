//! The predictor of the LeWM model.

use candle_core::Tensor;
use candle_nn::LayerNorm;
use candle_nn::Linear;
use vstd::prelude::*;

use crate::error::{lift, message, Result, SwmError};
use crate::models::lewm::attention::Attention;
use crate::models::lewm::block::{
    is_modulated, is_plain_norm, layer_norm_no_affine, modulate, BLOCK_EPSILON, FeedForward,
};
use crate::models::lewm::config::PredictorConfig;
use crate::scalar::f64_key;
use crate::tensor::arithmetic::{is_silu, multiply, plus, product_of, silu, sum_of};
use crate::tensor::layers::{
    apply_linear, apply_norm, from_file, full, held_as, is_linear, is_normed, is_parameter, linear,
    linear_from, linear_home, linear_sizes, linear_stored, norm_from, norm_home, norm_size,
    norm_stored, parameter, ready, store_path, store_source, stored, ParameterStore,
};
use crate::tensor::layout::{broadcast_as, dims, narrow, narrowed, share};
use crate::tensor::norms::{load_norm, EPSILON};
use crate::tensor::ranks::{dims3, element_count, rank_complaint};
use crate::tensor::value::{
    count, matching, spread, tensor_dims, tensor_element, tensor_keys, tensor_location, value,
    ElementType, TensorValue,
};
use crate::text::{decimal, with_numbers};

verus! {

/// A linear layer, or none where the widths agree.
#[derive(Debug, Clone)]
pub enum MaybeLinear {
    Layer(Linear),
    Identity,
}

impl MaybeLinear {
    pub open spec fn sized(self, in_dim: usize, out_dim: usize) -> bool {
        match self {
            MaybeLinear::Layer(l) => in_dim != out_dim && linear_sizes(l) == seq![in_dim, out_dim],
            MaybeLinear::Identity => in_dim == out_dim,
        }
    }

    pub open spec fn loaded(self, source: int, path: Seq<Seq<char>>) -> bool {
        self matches MaybeLinear::Layer(l) ==> linear_from(source, path, l)
    }

    /// The parameters have an element type in the memory of the processor.
    pub open spec fn home(self, e: ElementType) -> bool {
        self matches MaybeLinear::Layer(l) ==> linear_home(l, e)
    }

    pub open spec fn of(self, x: TensorValue, r: TensorValue) -> bool {
        match self {
            MaybeLinear::Layer(l) => is_linear(l, x, r),
            MaybeLinear::Identity => r == x,
        }
    }

    /// Whether a parameter file has every parameter of the layer.
    pub open spec fn stored(
        source: int,
        path: Seq<Seq<char>>,
        in_dim: usize,
        out_dim: usize,
    ) -> bool {
        in_dim != out_dim ==> linear_stored(source, path, in_dim, out_dim)
    }

    fn new(in_dim: usize, out_dim: usize, store: &ParameterStore) -> (r: Result<Self>)
        ensures
            r matches Ok(m) ==> m.sized(in_dim, out_dim) && m.loaded(
                store_source(*store),
                store_path(*store),
            ),
            in_dim == out_dim ==> r is Ok,
            r matches Err(e) ==> e is Backend,
            r matches Ok(m) ==> forall|e: ElementType| #[trigger]
                held_as(store_source(*store), e) ==> m.home(e),
            from_file(store_source(*store)) ==> (r is Ok <==> Self::stored(
                    store_source(*store),
                    store_path(*store),
                    in_dim,
                    out_dim,
                )),
    {
        if in_dim == out_dim {
            Ok(MaybeLinear::Identity)
        } else {
            let l = lift(linear(store, in_dim, out_dim))?;
            Ok(MaybeLinear::Layer(l))
        }
    }

    fn forward(&self, xs: &Tensor) -> (r: Result<Tensor>)
        ensures
            r matches Ok(o) ==> self.of(value(*xs), value(o)),
            r matches Ok(o) ==> forall|i: usize, d: usize| #[trigger]
                self.sized(i, d) && tensor_dims(*xs).len() > 0 && tensor_dims(*xs).last() == i
                    ==> value(o) == value(*xs).alongside(
                    tensor_dims(*xs).drop_last().push(d),
                    tensor_keys(o),
                ),
            r matches Err(e) ==> e is Backend,
            ready(value(*xs)) && self.home(tensor_element(*xs)) && 2 <= tensor_dims(*xs).len() <= 3 && (
            exists|i: usize, d: usize| #[trigger] self.sized(i, d) && tensor_dims(*xs).last() == i)
                ==> r is Ok,
    {
        match self {
            MaybeLinear::Layer(l) => {
                let out = lift(apply_linear(l, xs))?;
                proof {
                    assert forall|i: usize, d: usize| #[trigger]
                        self.sized(i, d) && tensor_dims(*xs).len() > 0 && tensor_dims(*xs).last()
                            == i implies value(out) == value(*xs).alongside(
                        tensor_dims(*xs).drop_last().push(d),
                        tensor_keys(out),
                    ) by {
                        assert(linear_sizes(*l)[1] == d);
                    }
                }
                Ok(out)
            },
            MaybeLinear::Identity => {
                let out = share(xs);
                proof {
                    assert forall|i: usize, d: usize| #[trigger]
                        self.sized(i, d) && tensor_dims(*xs).len() > 0 && tensor_dims(*xs).last()
                            == i implies value(out) == value(*xs).alongside(
                        tensor_dims(*xs).drop_last().push(d),
                        tensor_keys(out),
                    ) by {
                        assert(tensor_dims(*xs).drop_last().push(d) =~= tensor_dims(*xs));
                    }
                }
                Ok(out)
            },
        }
    }
}

/// One of six parts along the last axis.
pub open spec fn is_sixth(v: TensorValue, dim: usize, i: int, r: TensorValue) -> bool {
    narrowed(v, v.dims.len() - 1, i * dim, dim as int, r)
}

fn take_sixth(v: &Tensor, dim: usize, i: usize) -> (r: Result<Tensor>)
    requires
        tensor_dims(*v).len() > 0,
        tensor_dims(*v).last() == 6 * dim,
        i < 6,
    ensures
        r matches Ok(o) ==> is_sixth(value(*v), dim, i as int, value(o)),
        r matches Err(e) ==> e is Backend,
        r is Ok,
{
    let d = dims(v);
    proof {
        assert(0 <= i * dim && i * dim + dim <= 6 * dim) by (nonlinear_arith)
            requires
                0 <= i < 6,
                dim >= 0,
        ;
    }
    lift(narrow(v, d.len() - 1, i * dim, dim))
}

/// A block whose parts are modulated by a condition.
#[derive(Debug, Clone)]
pub struct ConditionalBlock {
    pub attn: Attention,
    pub mlp: FeedForward,
    pub ada_ln: Linear,
}

impl ConditionalBlock {
    pub open spec fn sized(self, dim: usize, hidden: usize) -> bool {
        &&& 6 * dim <= usize::MAX
        &&& dim <= u32::MAX
        &&& self.attn.sized(dim)
        &&& self.mlp.sized(dim, hidden)
        &&& linear_sizes(self.ada_ln) == seq![dim, (6 * dim) as usize]
    }

    pub open spec fn loaded(self, source: int, path: Seq<Seq<char>>) -> bool {
        &&& self.attn.loaded(source, path.push("attn"@))
        &&& self.mlp.loaded(source, path.push("mlp"@))
        &&& linear_from(source, path.push("adaLN_modulation"@).push("1"@), self.ada_ln)
    }

    /// The parameters of the block have an element type in the memory of the
    /// processor.
    pub open spec fn home(self, e: ElementType) -> bool {
        self.attn.home(e) && self.mlp.home(e) && linear_home(self.ada_ln, e)
    }

    /// No part of the block is without a width.
    pub open spec fn has_widths(self) -> bool {
        self.attn.heads > 0 && self.attn.dim_head > 0 && linear_sizes(self.mlp.fc1)[1] > 0
    }

    /// Whether the parts of the block take frames on the processor.
    pub open spec fn takes(self, x: TensorValue) -> bool {
        ready(x) && self.home(x.element) && self.has_widths()
    }

    /// The part of a block that attends.
    #[verifier::opaque]
    pub open spec fn attends(
        self,
        dim: usize,
        mods: TensorValue,
        x: TensorValue,
        r: TensorValue,
    ) -> bool {
        exists|
            shift: TensorValue,
            scale: TensorValue,
            gate: TensorValue,
            n: TensorValue,
            m: TensorValue,
            a: TensorValue,
            g: TensorValue,
        |
            #[trigger] is_sixth(mods, dim, 0, shift) && #[trigger] is_sixth(mods, dim, 1, scale)
                && #[trigger] is_sixth(mods, dim, 2, gate) && #[trigger] is_plain_norm(
                BLOCK_EPSILON,
                x,
                n,
            ) && #[trigger] is_modulated(n, shift, scale, m) && #[trigger] self.attn.of(m, a)
                && #[trigger] product_of(gate, a, g) && sum_of(x, g, r)
    }

    /// The part of a block that feeds forward.
    #[verifier::opaque]
    pub open spec fn feeds(
        self,
        dim: usize,
        mods: TensorValue,
        x: TensorValue,
        r: TensorValue,
    ) -> bool {
        exists|
            shift: TensorValue,
            scale: TensorValue,
            gate: TensorValue,
            n: TensorValue,
            m: TensorValue,
            a: TensorValue,
            g: TensorValue,
        |
            #[trigger] is_sixth(mods, dim, 3, shift) && #[trigger] is_sixth(mods, dim, 4, scale)
                && #[trigger] is_sixth(mods, dim, 5, gate) && #[trigger] is_plain_norm(
                BLOCK_EPSILON,
                x,
                n,
            ) && #[trigger] is_modulated(n, shift, scale, m) && #[trigger] self.mlp.of(m, a)
                && #[trigger] product_of(gate, a, g) && sum_of(x, g, r)
    }

    /// What the block makes of frames under a condition.
    pub open spec fn of(
        self,
        dim: usize,
        x: TensorValue,
        cond: TensorValue,
        r: TensorValue,
    ) -> bool {
        exists|bent: TensorValue, mods: TensorValue, half: TensorValue|
            #[trigger] is_silu(cond, bent) && #[trigger] is_linear(self.ada_ln, bent, mods)
                && #[trigger] self.attends(dim, mods, x, half) && self.feeds(dim, mods, half, r)
    }

    /// What is wrong with the widths of a block.
    pub open spec fn widths_complaint(
        dim: usize,
        heads: usize,
        dim_head: usize,
    ) -> Option<Seq<char>> {
        if 6 * dim > usize::MAX || dim > u32::MAX {
            Some("LeWM layer width overflowed"@)
        } else {
            Attention::widths_complaint(dim, heads, dim_head)
        }
    }

    /// Whether a parameter file has every parameter of the block.
    /// A width that is normalised is never zero.
    pub open spec fn stored(
        source: int,
        path: Seq<Seq<char>>,
        dim: usize,
        heads: usize,
        dim_head: usize,
        mlp_dim: usize,
    ) -> bool {
        &&& Attention::stored(source, path.push("attn"@), dim, heads, dim_head)
        &&& FeedForward::stored(source, path.push("mlp"@), dim, mlp_dim)
        &&& linear_stored(
            source,
            path.push("adaLN_modulation"@).push("1"@),
            dim,
            (6 * dim) as usize,
        )
    }

    pub(crate) fn new(
        dim: usize,
        heads: usize,
        dim_head: usize,
        mlp_dim: usize,
        store: &ParameterStore,
    ) -> (r: Result<Self>)
        ensures
            r matches Ok(b) ==> b.sized(dim, mlp_dim) && b.attn.heads == heads && b.attn.dim_head
                == dim_head && b.loaded(store_source(*store), store_path(*store)),
            Self::widths_complaint(dim, heads, dim_head) matches Some(text) ==> r is Err
                && r->Err_0.says(text),
            Self::widths_complaint(dim, heads, dim_head) is None ==> (r matches Err(e)
                ==> e is Backend),
            r matches Ok(b) ==> forall|e: ElementType| #[trigger]
                held_as(store_source(*store), e) ==> b.home(e),
            from_file(store_source(*store)) && Self::widths_complaint(dim, heads, dim_head) is None ==> (
            r is Ok <==> Self::stored(
                    store_source(*store),
                    store_path(*store),
                    dim,
                    heads,
                    dim_head,
                    mlp_dim,
                )),
    {
        let six: usize = match dim.checked_mul(6) {
            Some(n) => n,
            None => {
                return Err(message("LeWM layer width overflowed"));
            },
        };
        if dim > u32::MAX as usize {
            return Err(message("LeWM layer width overflowed"));
        }
        let attn = Attention::new(dim, heads, dim_head, &store.pp("attn"))?;
        let mlp = FeedForward::new(dim, mlp_dim, &store.pp("mlp"))?;
        let ada_ln = lift(linear(&store.pp("adaLN_modulation").pp("1"), dim, six))?;
        Ok(Self { attn, mlp, ada_ln })
    }

    fn attend(&self, mods: &Tensor, xs: &Tensor, b: usize, t: usize, dim: usize) -> (r: Result<
        Tensor,
    >)
        requires
            exists|hidden: usize| self.sized(dim, hidden),
            tensor_dims(*mods).len() > 0,
            tensor_dims(*mods).last() == 6 * dim,
            tensor_dims(*xs) == seq![b, t, dim],
            count(tensor_dims(*xs)) <= usize::MAX,
            t > 0,
            self.attn.scores_fit(b, t),
        ensures
            r matches Ok(o) ==> self.attends(dim, value(*mods), value(*xs), value(o)) && value(o)
                == value(*xs).alongside(tensor_dims(*xs), tensor_keys(o)),
            r matches Err(e) ==> e is Backend,
            self.takes(value(*xs)) && ready(value(*mods)) && tensor_element(*mods) == tensor_element(*xs)
                && tensor_dims(*mods) == seq![b, t, (6 * dim) as usize] ==> r is Ok,
    {
        let shape: [usize; 3] = [b, t, dim];
        proof {
            assert(shape@ =~= seq![b, t, dim]);
            assert(self.attn.sized(dim));
        }
        proof {
            if self.takes(value(*xs)) {
                assert(tensor_dims(*xs)[0] > 0);
            }
        }
        let shift = take_sixth(mods, dim, 0)?;
        let scale = take_sixth(mods, dim, 1)?;
        let gate = take_sixth(mods, dim, 2)?;
        let n = layer_norm_no_affine(xs, dim as u32, &shape, BLOCK_EPSILON)?;
        proof {
            let six = seq![b, t, (6 * dim) as usize];
            assert(six.update(2, dim) =~= seq![b, t, dim]);
        }
        let m = modulate(&n, &shift, &scale)?;
        let a = self.attn.forward(&m, b, t)?;
        let g = lift(multiply(&gate, &a))?;
        let out = lift(plus(xs, &g))?;
        proof {
            reveal(ConditionalBlock::attends);
            assert(is_sixth(value(*mods), dim, 0, value(shift)));
            assert(is_sixth(value(*mods), dim, 1, value(scale)));
            assert(is_sixth(value(*mods), dim, 2, value(gate)));
            assert(is_plain_norm(BLOCK_EPSILON, value(*xs), value(n)));
            assert(is_modulated(value(n), value(shift), value(scale), value(m)));
            assert(self.attn.of(value(m), value(a)));
            assert(product_of(value(gate), value(a), value(g)));
        }
        Ok(out)
    }

    fn feed(
        &self,
        mods: &Tensor,
        xs: &Tensor,
        b: usize,
        t: usize,
        dim: usize,
    ) -> (r: Result<Tensor>)
        requires
            exists|hidden: usize| self.sized(dim, hidden),
            tensor_dims(*mods).len() > 0,
            tensor_dims(*mods).last() == 6 * dim,
            tensor_dims(*xs) == seq![b, t, dim],
            count(tensor_dims(*xs)) <= usize::MAX,
        ensures
            r matches Ok(o) ==> self.feeds(dim, value(*mods), value(*xs), value(o)) && value(o)
                == value(*xs).alongside(tensor_dims(*xs), tensor_keys(o)),
            r matches Err(e) ==> e is Backend,
            self.takes(value(*xs)) && ready(value(*mods)) && tensor_element(*mods) == tensor_element(*xs)
                && tensor_dims(*mods) == seq![b, t, (6 * dim) as usize] ==> r is Ok,
    {
        let shape: [usize; 3] = [b, t, dim];
        proof {
            assert(shape@ =~= seq![b, t, dim]);
            let hidden = choose|hidden: usize| self.sized(dim, hidden);
            assert(self.mlp.sized(dim, hidden));
        }
        let shift = take_sixth(mods, dim, 3)?;
        let scale = take_sixth(mods, dim, 4)?;
        let gate = take_sixth(mods, dim, 5)?;
        let n = layer_norm_no_affine(xs, dim as u32, &shape, BLOCK_EPSILON)?;
        proof {
            let six = seq![b, t, (6 * dim) as usize];
            assert(six.update(2, dim) =~= seq![b, t, dim]);
        }
        let m = modulate(&n, &shift, &scale)?;
        let a = self.mlp.forward(&m)?;
        let g = lift(multiply(&gate, &a))?;
        let out = lift(plus(xs, &g))?;
        proof {
            reveal(ConditionalBlock::feeds);
            assert(is_sixth(value(*mods), dim, 3, value(shift)));
            assert(is_sixth(value(*mods), dim, 4, value(scale)));
            assert(is_sixth(value(*mods), dim, 5, value(gate)));
            assert(is_plain_norm(BLOCK_EPSILON, value(*xs), value(n)));
            assert(is_modulated(value(n), value(shift), value(scale), value(m)));
            assert(self.mlp.of(value(m), value(a)));
            assert(product_of(value(gate), value(a), value(g)));
        }
        Ok(out)
    }

    pub(crate) fn forward(&self, xs: &Tensor, cond: &Tensor, b: usize, t: usize, dim: usize) -> (r:
        Result<Tensor>)
        requires
            exists|hidden: usize| self.sized(dim, hidden),
            tensor_dims(*xs) == seq![b, t, dim],
            count(tensor_dims(*xs)) <= usize::MAX,
            t > 0,
            self.attn.scores_fit(b, t),
        ensures
            r matches Ok(o) ==> self.of(dim, value(*xs), value(*cond), value(o)) && value(o)
                == value(*xs).alongside(tensor_dims(*xs), tensor_keys(o)),
            r matches Err(e) ==> e is Backend,
            self.takes(value(*xs)) && matching(value(*xs), value(*cond)) ==> r is Ok,
    {
        let bent = lift(silu(cond))?;
        let mods = lift(apply_linear(&self.ada_ln, &bent))?;
        proof {
            assert(linear_sizes(self.ada_ln)[1] == 6 * dim);
            assert(tensor_dims(mods).last() == 6 * dim);
            if matching(value(*xs), value(*cond)) {
                assert(tensor_dims(*cond).drop_last() =~= seq![b, t]);
                assert(tensor_dims(mods) =~= seq![b, t, (6 * dim) as usize]);
                if full(tensor_dims(*xs)) {
                    assert(tensor_dims(*xs)[0] == b);
                    assert(dim > 0);
                }
            }
        }
        let half = self.attend(&mods, xs, b, t, dim)?;
        let out = self.feed(&mods, &half, b, t, dim)?;
        proof {
            assert(is_silu(value(*cond), value(bent)));
            assert(is_linear(self.ada_ln, value(bent), value(mods)));
            assert(self.attends(dim, value(mods), value(*xs), value(half)));
        }
        Ok(out)
    }
}

/// The blocks of the predictor between its projections.
#[derive(Debug, Clone)]
pub struct Transformer {
    pub input_proj: MaybeLinear,
    pub cond_proj: MaybeLinear,
    pub output_proj: MaybeLinear,
    pub layers: Vec<ConditionalBlock>,
    pub norm: LayerNorm,
}

impl Transformer {
    pub open spec fn fits(self, cfg: PredictorConfig) -> bool {
        &&& cfg.hidden_dim > 0
        &&& self.input_proj.sized(cfg.input_dim, cfg.hidden_dim)
        &&& self.cond_proj.sized(cfg.input_dim, cfg.hidden_dim)
        &&& self.output_proj.sized(cfg.hidden_dim, cfg.output_dim)
        &&& self.layers@.len() == cfg.depth
        &&& norm_size(self.norm) == cfg.hidden_dim
        &&& forall|k: int|
            0 <= k < self.layers@.len() ==> (#[trigger] self.layers@[k]).sized(
                cfg.hidden_dim,
                cfg.mlp_dim,
            ) && self.layers@[k].attn.heads == cfg.heads && self.layers@[k].attn.dim_head
                == cfg.dim_head
    }

    pub open spec fn loaded(self, source: int, path: Seq<Seq<char>>) -> bool {
        &&& self.input_proj.loaded(source, path.push("input_proj"@))
        &&& self.cond_proj.loaded(source, path.push("cond_proj"@))
        &&& self.output_proj.loaded(source, path.push("output_proj"@))
        &&& norm_from(source, path.push("norm"@), f64_key(EPSILON), self.norm)
        &&& forall|k: int|
            0 <= k < self.layers@.len() ==> (#[trigger] self.layers@[k]).loaded(
                source,
                path.push("layers"@).push(decimal(k as nat)),
            )
    }

    /// The parameters have an element type in the memory of the processor.
    pub open spec fn home(self, e: ElementType) -> bool {
        &&& self.input_proj.home(e)
        &&& self.cond_proj.home(e)
        &&& self.output_proj.home(e)
        &&& norm_home(self.norm, e)
        &&& forall|k: int| 0 <= k < self.layers@.len() ==> (#[trigger] self.layers@[k]).home(e)
    }

    /// The frames before, between and after the blocks.
    pub open spec fn passes(self, dim: usize, cond: TensorValue, states: Seq<TensorValue>) -> bool {
        &&& states.len() == self.layers@.len() + 1
        &&& forall|k: int|
            0 <= k < self.layers@.len() ==> (#[trigger] self.layers@[k]).of(
                dim,
                states[k],
                cond,
                states[k + 1],
            )
    }

    /// Whether the blocks take frames and a condition on the processor.
    pub open spec fn takes(
        self,
        cfg: PredictorConfig,
        x: TensorValue,
        cond: TensorValue,
    ) -> bool {
        ready(x) && matching(x, cond) && self.home(x.element) && has_widths(cfg)
    }

    /// What the blocks make of frames under a condition.
    pub open spec fn of(
        self,
        dim: usize,
        x: TensorValue,
        cond: TensorValue,
        r: TensorValue,
    ) -> bool {
        exists|states: Seq<TensorValue>, c: TensorValue, n: TensorValue|
            self.input_proj.of(x, states[0]) && #[trigger] self.cond_proj.of(cond, c)
                && #[trigger] self.passes(dim, c, states) && #[trigger] is_normed(
                self.norm,
                states.last(),
                n,
            ) && self.output_proj.of(n, r)
    }

    /// What is wrong with settings.
    pub open spec fn complaint(cfg: PredictorConfig) -> Option<Seq<char>> {
        if cfg.depth > 0 && ConditionalBlock::widths_complaint(
            cfg.hidden_dim,
            cfg.heads,
            cfg.dim_head,
        ) is Some {
            ConditionalBlock::widths_complaint(cfg.hidden_dim, cfg.heads, cfg.dim_head)
        } else if cfg.hidden_dim == 0 {
            Some("normalised width must be greater than zero"@)
        } else {
            None
        }
    }

    /// Whether a parameter file has the block of a name.
    pub open spec fn block_stored(
        source: int,
        path: Seq<Seq<char>>,
        cfg: PredictorConfig,
        name: Seq<char>,
    ) -> bool {
        ConditionalBlock::stored(
            source,
            path.push("layers"@).push(name),
            cfg.hidden_dim,
            cfg.heads,
            cfg.dim_head,
            cfg.mlp_dim,
        )
    }

    /// Whether a parameter file has every parameter of the transformer.
    pub open spec fn stored(
        source: int,
        path: Seq<Seq<char>>,
        cfg: PredictorConfig,
    ) -> bool {
        let (i, h, o) = (cfg.input_dim, cfg.hidden_dim, cfg.output_dim);
        &&& MaybeLinear::stored(source, path.push("input_proj"@), i, h)
        &&& MaybeLinear::stored(source, path.push("cond_proj"@), i, h)
        &&& MaybeLinear::stored(source, path.push("output_proj"@), h, o)
        &&& forall|k: nat|
            k < cfg.depth ==> Self::block_stored(source, path, cfg, #[trigger] decimal(k))
        &&& norm_stored(source, path.push("norm"@), h)
    }

    pub(crate) fn new(cfg: &PredictorConfig, store: &ParameterStore) -> (r: Result<Self>)
        ensures
            r matches Ok(t) ==> t.fits(*cfg) && t.loaded(store_source(*store), store_path(*store)),
            Self::complaint(*cfg) is Some ==> r is Err,
            r matches Err(SwmError::Message(m)) ==> Self::complaint(*cfg) == Some(m@),
            r matches Ok(t) ==> forall|e: ElementType| #[trigger]
                held_as(store_source(*store), e) ==> t.home(e),
            from_file(store_source(*store)) && Self::complaint(*cfg) is None ==> (r is Ok
                <==> Self::stored(
                    store_source(*store),
                    store_path(*store),
                    *cfg,
                )),
    {
        let input_proj = MaybeLinear::new(cfg.input_dim, cfg.hidden_dim, &store.pp("input_proj"))?;
        let cond_proj = MaybeLinear::new(cfg.input_dim, cfg.hidden_dim, &store.pp("cond_proj"))?;
        let output_proj = MaybeLinear::new(
            cfg.hidden_dim,
            cfg.output_dim,
            &store.pp("output_proj"),
        )?;
        let below = store.pp("layers");
        let mut layers: Vec<ConditionalBlock> = Vec::new();
        let mut k: usize = 0;
        while k < cfg.depth
            invariant
                k <= cfg.depth,
                layers@.len() == k,
                k > 0 ==> ConditionalBlock::widths_complaint(
                    cfg.hidden_dim,
                    cfg.heads,
                    cfg.dim_head,
                ) is None,
                store_source(below) == store_source(*store),
                store_path(below) == store_path(*store).push("layers"@),
                forall|e: ElementType, j: int|
                    #![trigger held_as(store_source(*store), e), layers@[j]]
                    held_as(store_source(*store), e) && 0 <= j < layers@.len()
                        ==> layers@[j].home(e),
                forall|j: int|
                    0 <= j < layers@.len() ==> (#[trigger] layers@[j]).sized(
                        cfg.hidden_dim,
                        cfg.mlp_dim,
                    ) && layers@[j].attn.heads == cfg.heads && layers@[j].attn.dim_head
                        == cfg.dim_head && layers@[j].loaded(
                        store_source(*store),
                        store_path(*store).push("layers"@).push(decimal(j as nat)),
                    ),
                from_file(store_source(*store)) && Self::complaint(*cfg) is None ==> forall|j: nat|
                    j < k ==> Self::block_stored(
                        store_source(*store),
                        store_path(*store),
                        *cfg,
                        #[trigger] decimal(j),
                    ),
            decreases cfg.depth - k,
        {
            let layer = ConditionalBlock::new(
                cfg.hidden_dim,
                cfg.heads,
                cfg.dim_head,
                cfg.mlp_dim,
                &below.at_index(k),
            )?;
            layers.push(layer);
            k = k + 1;
        }
        let norm = load_norm(&store.pp("norm"), cfg.hidden_dim)?;
        Ok(Self { input_proj, cond_proj, output_proj, layers, norm })
    }

    pub(crate) fn forward(&self, cfg: &PredictorConfig, xs: &Tensor, cond: &Tensor, b: usize, t: usize) -> (r:
        Result<Tensor>)
        requires
            self.fits(*cfg),
            tensor_dims(*xs) == seq![b, t, cfg.input_dim],
            count(seq![b, t, cfg.hidden_dim]) <= usize::MAX,
            t > 0,
            frames_fit(*cfg, b, t),
        ensures
            r matches Ok(o) ==> self.of(cfg.hidden_dim, value(*xs), value(*cond), value(o))
                && value(o) == value(*xs).alongside(seq![b, t, cfg.output_dim], tensor_keys(o)),
            r matches Err(e) ==> e is Backend,
            self.takes(*cfg, value(*xs), value(*cond)) ==> r is Ok,
    {
        let mut state = self.input_proj.forward(xs)?;
        let c = self.cond_proj.forward(cond)?;
        let ghost mut states: Seq<TensorValue> = seq![value(state)];
        proof {
            assert(self.input_proj.sized(cfg.input_dim, cfg.hidden_dim));
            assert(self.cond_proj.sized(cfg.input_dim, cfg.hidden_dim));
            assert(tensor_dims(*xs).drop_last().push(cfg.hidden_dim) =~= seq![
                b,
                t,
                cfg.hidden_dim,
            ]);
        }
        let mut k: usize = 0;
        while k < self.layers.len()
            invariant
                self.fits(*cfg),
                k <= self.layers@.len(),
                states.len() == k + 1,
                states.last() == value(state),
                self.input_proj.of(value(*xs), states[0]),
                value(state) == value(*xs).alongside(
                    seq![b, t, cfg.hidden_dim],
                    tensor_keys(state),
                ),
                count(seq![b, t, cfg.hidden_dim]) <= usize::MAX,
                t > 0,
                frames_fit(*cfg, b, t),
                tensor_dims(*xs) == seq![b, t, cfg.input_dim],
                self.takes(*cfg, value(*xs), value(*cond)) ==> matching(value(state), value(c)),
                forall|j: int|
                    0 <= j < k ==> (#[trigger] self.layers@[j]).of(
                        cfg.hidden_dim,
                        states[j],
                        value(c),
                        states[j + 1],
                    ),
            decreases self.layers@.len() - k,
        {
            let layer = &self.layers[k];
            proof {
                assert(layer.sized(cfg.hidden_dim, cfg.mlp_dim));
                assert(linear_sizes(layer.mlp.fc1)[1] == cfg.mlp_dim);
                if full(tensor_dims(*xs)) {
                    assert(tensor_dims(*xs)[0] == b);
                    assert(full(tensor_dims(state)));
                }
            }
            let next = layer.forward(&state, &c, b, t, cfg.hidden_dim)?;
            proof {
                states = states.push(value(next));
            }
            state = next;
            k = k + 1;
        }
        proof {
            if full(tensor_dims(*xs)) {
                assert(tensor_dims(*xs)[0] == b);
                assert(full(tensor_dims(state)));
            }
        }
        let n = lift(apply_norm(&self.norm, &state))?;
        let out = self.output_proj.forward(&n)?;
        proof {
            assert(self.output_proj.sized(cfg.hidden_dim, cfg.output_dim));
            assert(tensor_dims(n).drop_last().push(cfg.output_dim) =~= seq![
                b,
                t,
                cfg.output_dim,
            ]);
            assert(self.cond_proj.of(value(*cond), value(c)));
            assert(self.passes(cfg.hidden_dim, value(c), states));
            assert(is_normed(self.norm, states.last(), value(n)));
        }
        Ok(out)
    }
}

/// Whether the blocks can attend within this many frames.
pub open spec fn frames_fit(cfg: PredictorConfig, b: usize, t: usize) -> bool {
    cfg.depth > 0 ==> {
        &&& count(seq![b, cfg.heads, t, t]) <= usize::MAX
        &&& t <= u32::MAX
        &&& t * t <= usize::MAX
    }
}

/// Whether no part of the blocks is without a width.
pub open spec fn has_widths(cfg: PredictorConfig) -> bool {
    cfg.depth > 0 ==> cfg.heads > 0 && cfg.dim_head > 0 && cfg.mlp_dim > 0
}

/// Predicts the embeddings of the next frames.
#[derive(Debug, Clone)]
pub struct Predictor {
    pub cfg: PredictorConfig,
    pub pos_embedding: Tensor,
    pub transformer: Transformer,
}

impl Predictor {
    pub open spec fn well_formed(self) -> bool {
        &&& tensor_dims(self.pos_embedding) == seq![1usize, self.cfg.num_frames, self.cfg.input_dim]
        &&& tensor_keys(self.pos_embedding).len() == count(tensor_dims(self.pos_embedding))
        &&& self.transformer.fits(self.cfg)
    }

    pub open spec fn loaded(self, source: int, path: Seq<Seq<char>>) -> bool {
        &&& is_parameter(source, path.push("pos_embedding"@), value(self.pos_embedding))
        &&& self.transformer.loaded(source, path.push("transformer"@))
    }

    /// The parameters of the predictor have an element type in the memory of the
    /// processor.
    pub open spec fn home(self, e: ElementType) -> bool {
        &&& tensor_element(self.pos_embedding) == e
        &&& tensor_location(self.pos_embedding) is Cpu
        &&& self.transformer.home(e)
    }

    /// Whether the predictor takes embeddings and embedded actions on the processor.
    pub open spec fn takes(self, x: TensorValue, cond: TensorValue) -> bool {
        ready(x) && matching(x, cond) && self.home(x.element) && has_widths(self.cfg)
    }

    /// What the predictor makes of embeddings `[batch, t, width]` under embedded
    /// actions: the embedding of each place in the history joins first.
    pub open spec fn of(self, x: TensorValue, cond: TensorValue, r: TensorValue) -> bool {
        exists|places: TensorValue, placed: TensorValue|
            #[trigger] narrowed(value(self.pos_embedding), 1, 0, x.dims[1] as int, places)
                && #[trigger] sum_of(x, spread(places, x.dims), placed) && self.transformer.of(
                self.cfg.hidden_dim,
                placed,
                cond,
                r,
            )
    }

    /// What is wrong with the shape of embeddings.
    pub open spec fn complaint(self, dims: Seq<usize>) -> Option<Seq<char>> {
        if dims.len() != 3 {
            Some(rank_complaint(3, dims))
        } else if dims[1] == 0 {
            Some("LeWM predictor needs at least one frame"@)
        } else if dims[1] > self.cfg.num_frames {
            Some(
                "LeWM history of "@ + decimal(dims[1] as nat) + " frames is longer than "@
                    + decimal(self.cfg.num_frames as nat),
            )
        } else if dims[2] != self.cfg.input_dim {
            Some(
                "LeWM embedding width "@ + decimal(dims[2] as nat) + " does not match "@ + decimal(
                    self.cfg.input_dim as nat,
                ),
            )
        } else if count(dims) > usize::MAX || count(seq![dims[0], dims[1], self.cfg.hidden_dim])
            > usize::MAX || !frames_fit(self.cfg, dims[0], dims[1]) {
            Some("LeWM attention shape overflowed"@)
        } else {
            None
        }
    }

    /// Whether a parameter file has every parameter of the predictor.
    pub open spec fn stored(
        source: int,
        path: Seq<Seq<char>>,
        cfg: PredictorConfig,
    ) -> bool {
        &&& stored(
            source,
            path.push("pos_embedding"@),
            seq![1usize, cfg.num_frames, cfg.input_dim],
        )
        &&& Transformer::stored(source, path.push("transformer"@), cfg)
    }

    pub fn new(cfg: &PredictorConfig, store: &ParameterStore) -> (r: Result<Self>)
        ensures
            r matches Ok(p) ==> p.well_formed() && p.cfg == *cfg && p.loaded(
                store_source(*store),
                store_path(*store),
            ),
            Transformer::complaint(*cfg) is Some ==> r is Err,
            r matches Err(SwmError::Message(m)) ==> Transformer::complaint(*cfg) == Some(m@),
            r matches Ok(p) ==> forall|e: ElementType| #[trigger]
                held_as(store_source(*store), e) ==> p.home(e),
            from_file(store_source(*store)) && Transformer::complaint(*cfg) is None ==> (r is Ok
                <==> Self::stored(
                    store_source(*store),
                    store_path(*store),
                    *cfg,
                )),
    {
        let shape: [usize; 3] = [1, cfg.num_frames, cfg.input_dim];
        proof {
            assert(shape@ =~= seq![1usize, cfg.num_frames, cfg.input_dim]);
        }
        let pos_embedding = lift(parameter(store, &shape, "pos_embedding"))?;
        let transformer = Transformer::new(cfg, &store.pp("transformer"))?;
        let own = PredictorConfig {
            num_frames: cfg.num_frames,
            input_dim: cfg.input_dim,
            hidden_dim: cfg.hidden_dim,
            output_dim: cfg.output_dim,
            depth: cfg.depth,
            heads: cfg.heads,
            dim_head: cfg.dim_head,
            mlp_dim: cfg.mlp_dim,
        };
        Ok(Self { cfg: own, pos_embedding, transformer })
    }

    /// Predicts from embeddings `[batch, t, width]` and embedded actions.
    pub fn forward(&self, xs: &Tensor, cond: &Tensor) -> (r: Result<Tensor>)
        requires
            self.well_formed(),
        ensures
            self.complaint(tensor_dims(*xs)) matches Some(text) ==> r is Err && r->Err_0.says(text),
            self.complaint(tensor_dims(*xs)) is None ==> (r matches Err(e) ==> e is Backend),
            r matches Ok(o) ==> self.of(value(*xs), value(*cond), value(o)) && tensor_dims(*xs)[2]
                == self.cfg.input_dim && value(o) == value(*xs).alongside(
                seq![tensor_dims(*xs)[0], tensor_dims(*xs)[1], self.cfg.output_dim],
                tensor_keys(o),
            ),
            self.complaint(tensor_dims(*xs)) is None && self.takes(value(*xs), value(*cond)) ==> r is Ok,
    {
        let (b, t, width) = dims3(xs)?;
        if t == 0 {
            return Err(message("LeWM predictor needs at least one frame"));
        }
        if t > self.cfg.num_frames {
            let text = with_numbers(
                "LeWM history of ",
                t,
                " frames is longer than ",
                self.cfg.num_frames,
                "",
            );
            proof {
                reveal_strlit("");
                assert(text@ =~= self.complaint(tensor_dims(*xs))->0);
            }
            return Err(SwmError::Message(text));
        }
        if width != self.cfg.input_dim {
            let text = with_numbers(
                "LeWM embedding width ",
                width,
                " does not match ",
                self.cfg.input_dim,
                "",
            );
            proof {
                reveal_strlit("");
                assert(text@ =~= self.complaint(tensor_dims(*xs))->0);
            }
            return Err(SwmError::Message(text));
        }
        let shape: [usize; 3] = [b, t, width];
        let inside: [usize; 3] = [b, t, self.cfg.hidden_dim];
        let scores: [usize; 4] = [b, self.cfg.heads, t, t];
        proof {
            assert(shape@ =~= seq![b, t, width]);
            assert(inside@ =~= seq![b, t, self.cfg.hidden_dim]);
            assert(scores@ =~= seq![b, self.cfg.heads, t, t]);
        }
        if element_count(&shape).is_none() || element_count(&inside).is_none() {
            return Err(message("LeWM attention shape overflowed"));
        }
        if self.cfg.depth > 0 && (element_count(&scores).is_none() || t > u32::MAX as usize
            || t.checked_mul(t).is_none()) {
            return Err(message("LeWM attention shape overflowed"));
        }
        let places = lift(narrow(&self.pos_embedding, 1, 0, t))?;
        proof {
            assert(tensor_dims(places) =~= seq![1usize, t, self.cfg.input_dim]);
        }
        let wide = lift(broadcast_as(&places, &shape))?;
        let placed = lift(plus(xs, &wide))?;
        let out = self.transformer.forward(&self.cfg, &placed, cond, b, t)?;
        proof {
            assert(narrowed(value(self.pos_embedding), 1, 0, t as int, value(places)));
            assert(sum_of(value(*xs), spread(value(places), value(*xs).dims), value(placed)));
        }
        Ok(out)
    }
}

} // verus!
