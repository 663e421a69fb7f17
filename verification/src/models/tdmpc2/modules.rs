//! Building blocks of the TD-MPC2 model.

use candle_core::Tensor;
use candle_nn::LayerNorm;
use candle_nn::Linear;
use vstd::prelude::*;

use crate::error::{lift, message, Result, SwmError};
use crate::models::tdmpc2::config::EncodingConfig;
use crate::models::tdmpc2::simnorm::{sim_normed, simnorm_complaint, SimNorm};
use crate::scalar::f64_key;
use crate::tensor::arithmetic::{is_mish, like, mish};
use crate::tensor::facts::{lemma_count_last, lemma_count_push, lemma_counts, lemma_full_count};
use crate::tensor::layers::{
    apply_linear, apply_norm, from_file, full, held_as, is_linear, is_normed, linear, linear_from,
    linear_home, linear_sizes, linear_stored, norm_from, norm_home, norm_size, norm_stored, ready,
    store_path, store_source, ParameterStore,
};
use crate::tensor::norms::{load_norm, EPSILON};
use crate::tensor::layout::{cat, dims, joinable, joined, laid_out, lines_up, reshape, total_places};
use crate::tensor::ranks::element_count;
use crate::tensor::value::{
    count, hosted, tensor_dims, tensor_element, tensor_keys, tensor_location, value, values,
    ElementType, TensorValue,
};
use crate::text::{decimal, dims_text, sizes_text, with_number};

verus! {

/// What follows the normalisation of a layer.
#[derive(Debug, Clone, Copy, PartialEq, Eq, Structural)]
pub enum NormedActivation {
    Mish,
    Simplex(SimNorm),
}

impl NormedActivation {
    pub open spec fn of(self, x: TensorValue, r: TensorValue) -> bool {
        match self {
            NormedActivation::Mish => is_mish(x, r),
            NormedActivation::Simplex(s) => sim_normed(s.simplex_dim, x, r),
        }
    }

    /// What is wrong with a shape for this activation.
    pub open spec fn complaint(self, dims: Seq<usize>) -> Option<Seq<char>> {
        match self {
            NormedActivation::Mish => None,
            NormedActivation::Simplex(s) => simnorm_complaint(dims, s.simplex_dim),
        }
    }

    pub fn forward(&self, xs: &Tensor) -> (r: Result<Tensor>)
        ensures
            r matches Ok(o) ==> self.of(value(*xs), value(o)) && like(value(*xs), value(o)),
            self.complaint(tensor_dims(*xs)) matches Some(text) ==> r is Err && r->Err_0.says(text),
            self.complaint(tensor_dims(*xs)) is None ==> (r matches Err(e) ==> e is Backend),
            self.complaint(tensor_dims(*xs)) is None && hosted(value(*xs)) ==> r is Ok,
    {
        match self {
            NormedActivation::Mish => lift(mish(xs)),
            NormedActivation::Simplex(s) => s.forward(xs),
        }
    }
}

/// A linear layer, its normalisation and its activation.
#[derive(Debug, Clone)]
pub struct NormedLinear {
    pub linear: Linear,
    pub ln: LayerNorm,
    pub act: NormedActivation,
}

impl NormedLinear {
    /// The layer works on these widths.
    pub open spec fn sized(self, in_dim: usize, out_dim: usize) -> bool {
        &&& linear_sizes(self.linear) == seq![in_dim, out_dim]
        &&& norm_size(self.ln) == out_dim
        &&& out_dim > 0
    }

    /// The parameters of the layer are those of a source under a path.
    pub open spec fn loaded(self, source: int, path: Seq<Seq<char>>) -> bool {
        &&& linear_from(source, path, self.linear)
        &&& norm_from(source, path.push("ln"@), f64_key(EPSILON), self.ln)
    }

    /// The parameters of the layer have an element type in the memory of the
    /// processor.
    pub open spec fn home(self, e: ElementType) -> bool {
        linear_home(self.linear, e) && norm_home(self.ln, e)
    }

    /// What the layer makes of an input.
    pub open spec fn of(self, x: TensorValue, r: TensorValue) -> bool {
        exists|h: TensorValue, n: TensorValue|
            #[trigger] is_linear(self.linear, x, h) && #[trigger] is_normed(self.ln, h, n)
                && self.act.of(n, r)
    }

    /// Whether a parameter file has every parameter of the layer. A width that is
    /// normalised is never zero.
    pub open spec fn stored(
        source: int,
        path: Seq<Seq<char>>,
        in_dim: usize,
        out_dim: usize,
    ) -> bool {
        out_dim > 0 && linear_stored(source, path, in_dim, out_dim) && norm_stored(
            source,
            path.push("ln"@),
            out_dim,
        )
    }

    pub fn new(in_dim: usize, out_dim: usize, act: NormedActivation, store: &ParameterStore) -> (r:
        Result<Self>)
        ensures
            r matches Ok(l) ==> l.sized(in_dim, out_dim) && l.act == act && l.loaded(
                store_source(*store),
                store_path(*store),
            ),
            r matches Err(SwmError::Message(m)) ==> out_dim == 0 && m@
                == "normalised width must be greater than zero"@,
            out_dim == 0 ==> r is Err,
            r matches Ok(l) ==> forall|e: ElementType| #[trigger]
                held_as(store_source(*store), e) ==> l.home(e),
            from_file(store_source(*store)) ==> (r is Ok <==> Self::stored(
                    store_source(*store),
                    store_path(*store),
                    in_dim,
                    out_dim,
                )),
    {
        let linear = lift(linear(store, in_dim, out_dim))?;
        let ln = load_norm(&store.pp("ln"), out_dim)?;
        Ok(Self { linear, ln, act })
    }

    /// A layer with the Mish activation.
    pub fn mish(in_dim: usize, out_dim: usize, store: &ParameterStore) -> (r: Result<Self>)
        ensures
            r matches Ok(l) ==> l.sized(in_dim, out_dim) && l.act is Mish && l.loaded(
                store_source(*store),
                store_path(*store),
            ),
            r matches Err(SwmError::Message(m)) ==> out_dim == 0 && m@
                == "normalised width must be greater than zero"@,
            out_dim == 0 ==> r is Err,
            r matches Ok(l) ==> forall|e: ElementType| #[trigger]
                held_as(store_source(*store), e) ==> l.home(e),
            from_file(store_source(*store)) ==> (r is Ok <==> Self::stored(
                    store_source(*store),
                    store_path(*store),
                    in_dim,
                    out_dim,
                )),
    {
        Self::new(in_dim, out_dim, NormedActivation::Mish, store)
    }

    /// A layer with simplicial normalisation.
    pub fn sim_norm(in_dim: usize, out_dim: usize, simplex_dim: usize, store: &ParameterStore) -> (r:
        Result<Self>)
        ensures
            r matches Ok(l) ==> l.sized(in_dim, out_dim) && l.act == NormedActivation::Simplex(
                SimNorm { simplex_dim },
            ) && l.loaded(store_source(*store), store_path(*store)),
            r matches Err(SwmError::Message(m)) ==> out_dim == 0 && m@
                == "normalised width must be greater than zero"@,
            out_dim == 0 ==> r is Err,
            r matches Ok(l) ==> forall|e: ElementType| #[trigger]
                held_as(store_source(*store), e) ==> l.home(e),
            from_file(store_source(*store)) ==> (r is Ok <==> Self::stored(
                    store_source(*store),
                    store_path(*store),
                    in_dim,
                    out_dim,
                )),
    {
        Self::new(
            in_dim,
            out_dim,
            NormedActivation::Simplex(SimNorm::new(simplex_dim)),
            store,
        )
    }

    pub fn forward(&self, xs: &Tensor) -> (r: Result<Tensor>)
        requires
            exists|i: usize, o: usize| self.sized(i, o),
        ensures
            r matches Ok(o) ==> self.of(value(*xs), value(o)) && tensor_dims(*xs).len() >= 2
                && tensor_dims(*xs).last() == linear_sizes(self.linear)[0] && value(o)
                == value(*xs).alongside(
                tensor_dims(*xs).drop_last().push(linear_sizes(self.linear)[1]),
                tensor_keys(o),
            ) && tensor_keys(o).len() == count(tensor_dims(o)),
            r matches Err(SwmError::Message(m)) ==> self.act.complaint(
                tensor_dims(*xs).drop_last().push(linear_sizes(self.linear)[1]),
            ) == Some(m@),
            ready(value(*xs)) && self.home(tensor_element(*xs)) && 2 <= tensor_dims(*xs).len() <= 3
                && tensor_dims(*xs).last() == linear_sizes(self.linear)[0] && self.act.complaint(
                tensor_dims(*xs).drop_last().push(linear_sizes(self.linear)[1]),
            ) is None ==> r is Ok,
    {
        let h = lift(apply_linear(&self.linear, xs))?;
        proof {
            let (i, o) = choose|i: usize, o: usize| self.sized(i, o);
            assert(linear_sizes(self.linear)[1] == o);
            assert(tensor_dims(h).last() == o);
        }
        let n = lift(apply_norm(&self.ln, &h))?;
        let out = self.act.forward(&n)?;
        proof {
            assert(is_linear(self.linear, value(*xs), value(h)));
            assert(is_normed(self.ln, value(h), value(n)));
        }
        Ok(out)
    }
}

/// All axes before the last as one.
pub open spec fn as_rows(x: TensorValue) -> TensorValue {
    x.shaped(seq![count(x.dims.drop_last()) as usize, x.dims.last()])
}

/// Encodes a vector observation.
#[derive(Debug, Clone)]
pub struct VectorEncoder {
    pub cfg: EncodingConfig,
    pub fc1: NormedLinear,
    pub fc2: Linear,
    pub ln: LayerNorm,
}

impl VectorEncoder {
    pub open spec fn well_formed(self) -> bool {
        &&& exists|hidden: usize|
            #[trigger] self.fc1.sized(self.cfg.input_dim, hidden) && linear_sizes(self.fc2) == seq![
                hidden,
                self.cfg.output_dim,
            ]
        &&& self.fc1.act is Mish
        &&& norm_size(self.ln) == self.cfg.output_dim
        &&& self.cfg.output_dim > 0
    }

    pub open spec fn loaded(self, source: int, path: Seq<Seq<char>>) -> bool {
        &&& self.fc1.loaded(source, path.push("0"@))
        &&& linear_from(source, path.push("1"@), self.fc2)
        &&& norm_from(source, path.push("2"@), f64_key(EPSILON), self.ln)
    }

    /// The parameters of the encoder have an element type in the memory of the
    /// processor.
    pub open spec fn home(self, e: ElementType) -> bool {
        self.fc1.home(e) && linear_home(self.fc2, e) && norm_home(self.ln, e)
    }

    /// What the encoder makes of rows of observations.
    pub open spec fn of_rows(self, x: TensorValue, r: TensorValue) -> bool {
        exists|h: TensorValue, y: TensorValue|
            #[trigger] self.fc1.of(x, h) && #[trigger] is_linear(self.fc2, h, y) && is_normed(
                self.ln,
                y,
                r,
            )
    }

    /// What the encoder makes of observations with any axes before the last.
    pub open spec fn of(self, x: TensorValue, r: TensorValue) -> bool {
        let leading = x.dims.drop_last();
        exists|rows: TensorValue|
            #[trigger] self.of_rows(as_rows(x), rows)
                && r == rows.shaped(leading.push(self.cfg.output_dim))
    }

    /// What is said of an observation of the wrong width.
    pub open spec fn complaint(self, dims: Seq<usize>) -> Option<Seq<char>> {
        if dims.len() == 0 || dims.last() != self.cfg.input_dim {
            Some(
                "encoder "@ + self.cfg.name@ + " expects last dim "@ + decimal(
                    self.cfg.input_dim as nat,
                ) + ", got "@ + sizes_text(dims),
            )
        } else if count(dims.drop_last()) > usize::MAX {
            Some("observation shape overflowed"@)
        } else {
            None
        }
    }

    /// Whether a parameter file has every parameter of an encoder. A width that is
    /// normalised is never zero.
    pub open spec fn stored(
        source: int,
        path: Seq<Seq<char>>,
        in_dim: usize,
        hidden: usize,
        out_dim: usize,
    ) -> bool {
        &&& out_dim > 0
        &&& NormedLinear::stored(source, path.push("0"@), in_dim, hidden)
        &&& linear_stored(source, path.push("1"@), hidden, out_dim)
        &&& norm_stored(source, path.push("2"@), out_dim)
    }

    pub fn new(cfg: EncodingConfig, enc_dim: usize, store: &ParameterStore) -> (r: Result<Self>)
        ensures
            r matches Ok(e) ==> e.well_formed() && e.cfg == cfg && linear_sizes(e.fc2)[0] == enc_dim
                && e.loaded(store_source(*store), store_path(*store)),
            r matches Err(SwmError::Message(m)) ==> (enc_dim == 0 || cfg.output_dim == 0) && m@
                == "normalised width must be greater than zero"@,
            enc_dim == 0 || cfg.output_dim == 0 ==> r is Err,
            r matches Ok(l) ==> forall|e: ElementType| #[trigger]
                held_as(store_source(*store), e) ==> l.home(e),
            from_file(store_source(*store)) ==> (r is Ok <==> Self::stored(
                    store_source(*store),
                    store_path(*store),
                    cfg.input_dim,
                    enc_dim,
                    cfg.output_dim,
                )),
    {
        let fc1 = NormedLinear::mish(cfg.input_dim, enc_dim, &store.pp("0"))?;
        let fc2 = lift(linear(&store.pp("1"), enc_dim, cfg.output_dim))?;
        let ln = load_norm(&store.pp("2"), cfg.output_dim)?;
        let out = Self { cfg, fc1, fc2, ln };
        proof {
            assert(out.fc1.sized(out.cfg.input_dim, enc_dim));
            assert(linear_sizes(out.fc2)[0] == enc_dim);
            assert(out.well_formed());
            assert(out.loaded(store_source(*store), store_path(*store)));
        }
        Ok(out)
    }

    pub fn name(&self) -> (r: &str)
        ensures
            r@ == self.cfg.name@,
    {
        self.cfg.name.as_str()
    }

    pub fn forward(&self, xs: &Tensor) -> (r: Result<Tensor>)
        requires
            self.well_formed(),
        ensures
            self.complaint(tensor_dims(*xs)) matches Some(text) ==> r is Err && r->Err_0.says(text),
            self.complaint(tensor_dims(*xs)) is None ==> (r matches Err(e) ==> e is Backend),
            r matches Ok(o) ==> self.of(value(*xs), value(o)) && tensor_dims(o) == tensor_dims(
                *xs,
            ).drop_last().push(self.cfg.output_dim) && tensor_keys(o).len() == count(
                tensor_dims(o),
            ) && tensor_element(o) == tensor_element(*xs) && tensor_location(o) == tensor_location(
                *xs,
            ),
            self.complaint(tensor_dims(*xs)) is None && ready(value(*xs)) && self.home(
                tensor_element(*xs),
            ) ==> r is Ok,
    {
        let shape = dims(xs);
        if shape.len() == 0 || shape[shape.len() - 1] != self.cfg.input_dim {
            let mut text = String::from_str("encoder ");
            text.append(self.cfg.name.as_str());
            let tail = with_number(" expects last dim ", self.cfg.input_dim, ", got ");
            text.append(tail.as_str());
            text.append(dims_text(shape.as_slice()).as_str());
            proof {
                assert(text@ =~= self.complaint(shape@)->0);
            }
            return Err(SwmError::Message(text));
        }
        let mut leading = shape.clone();
        let _ = leading.pop();
        proof {
            assert(leading@ =~= shape@.drop_last());
            lemma_count_last(shape@);
        }
        let batch = match element_count(leading.as_slice()) {
            Some(n) => n,
            None => {
                return Err(message("observation shape overflowed"));
            },
        };
        let rows: [usize; 2] = [batch, self.cfg.input_dim];
        let ghost hidden = choose|hidden: usize|
            #[trigger] self.fc1.sized(self.cfg.input_dim, hidden) && linear_sizes(self.fc2) == seq![
                hidden,
                self.cfg.output_dim,
            ];
        proof {
            assert(rows@ =~= seq![batch, self.cfg.input_dim]);
            lemma_counts(batch, self.cfg.input_dim, 0, 0);
            assert(linear_sizes(self.fc1.linear)[0] == self.cfg.input_dim);
            assert(linear_sizes(self.fc1.linear)[1] == hidden);
            assert(linear_sizes(self.fc2)[0] == hidden);
            if full(shape@) {
                assert(full(leading@));
                lemma_full_count(leading@);
                assert(shape@.last() > 0);
            }
        }
        let x = lift(reshape(xs, &rows))?;
        let h = self.fc1.forward(&x)?;
        let y = lift(apply_linear(&self.fc2, &h))?;
        proof {
            assert(tensor_dims(y).last() == self.cfg.output_dim);
        }
        let n = lift(apply_norm(&self.ln, &y))?;
        leading.push(self.cfg.output_dim);
        proof {
            assert(self.fc1.of(value(x), value(h)));
            assert(is_linear(self.fc2, value(h), value(y)));
            assert(value(x) == as_rows(value(*xs)));
            assert(self.of_rows(value(x), value(n)));
            lemma_count_push(shape@.drop_last(), self.cfg.output_dim);
            assert(tensor_dims(n) =~= seq![batch, self.cfg.output_dim]);
            lemma_counts(batch, self.cfg.output_dim, 0, 0);
        }
        lift(reshape(&n, leading.as_slice()))
    }
}

/// The last layer of a perceptron.
#[derive(Debug, Clone)]
pub enum MlpOutput {
    Plain(Linear),
    Normed(NormedLinear),
}

/// A perceptron of three layers.
#[derive(Debug, Clone)]
pub struct TdMpc2Mlp {
    pub fc1: NormedLinear,
    pub fc2: NormedLinear,
    pub out: MlpOutput,
}

impl TdMpc2Mlp {
    /// The perceptron works on these widths.
    pub open spec fn sized(self, in_dim: usize, hidden: usize, out_dim: usize) -> bool {
        &&& self.fc1.sized(in_dim, hidden)
        &&& self.fc1.act is Mish
        &&& self.fc2.sized(hidden, hidden)
        &&& self.fc2.act is Mish
        &&& match self.out {
            MlpOutput::Plain(l) => linear_sizes(l) == seq![hidden, out_dim],
            MlpOutput::Normed(l) => l.sized(hidden, out_dim),
        }
    }

    pub open spec fn loaded(self, source: int, path: Seq<Seq<char>>) -> bool {
        &&& self.fc1.loaded(source, path.push("0"@))
        &&& self.fc2.loaded(source, path.push("1"@))
        &&& match self.out {
            MlpOutput::Plain(l) => linear_from(source, path.push("2"@), l),
            MlpOutput::Normed(l) => l.loaded(source, path.push("2"@)),
        }
    }

    /// The parameters of the perceptron have an element type in the memory of the
    /// processor.
    pub open spec fn home(self, e: ElementType) -> bool {
        &&& self.fc1.home(e)
        &&& self.fc2.home(e)
        &&& match self.out {
            MlpOutput::Plain(l) => linear_home(l, e),
            MlpOutput::Normed(l) => l.home(e),
        }
    }

    /// Whether the perceptron takes a tensor on the processor.
    pub open spec fn takes(self, x: TensorValue) -> bool {
        &&& ready(x)
        &&& self.home(x.element)
        &&& 2 <= x.dims.len() <= 3
        &&& exists|i: usize, h: usize, o: usize| #[trigger]
            self.sized(i, h, o) && x.dims.last() == i && self.complaint(
                x.dims.drop_last().push(o),
            ) is None
    }

    /// What the last layer makes of an input.
    pub open spec fn out_of(self, x: TensorValue, r: TensorValue) -> bool {
        match self.out {
            MlpOutput::Plain(l) => is_linear(l, x, r),
            MlpOutput::Normed(l) => l.of(x, r),
        }
    }

    /// What the perceptron makes of an input.
    pub open spec fn of(self, x: TensorValue, r: TensorValue) -> bool {
        exists|a: TensorValue, b: TensorValue|
            #[trigger] self.fc1.of(x, a) && #[trigger] self.fc2.of(a, b) && self.out_of(b, r)
    }

    /// What is said of an output width that the last layer cannot group.
    pub open spec fn complaint(self, dims: Seq<usize>) -> Option<Seq<char>> {
        match self.out {
            MlpOutput::Plain(l) => None,
            MlpOutput::Normed(l) => l.act.complaint(dims),
        }
    }

    /// Whether a parameter file has every parameter of a perceptron with a plain last
    /// layer.
    /// A width that is normalised is never zero.
    pub open spec fn stored(
        source: int,
        path: Seq<Seq<char>>,
        in_dim: usize,
        hidden: usize,
        out_dim: usize,
    ) -> bool {
        &&& NormedLinear::stored(source, path.push("0"@), in_dim, hidden)
        &&& NormedLinear::stored(source, path.push("1"@), hidden, hidden)
        &&& linear_stored(source, path.push("2"@), hidden, out_dim)
    }

    /// A perceptron with a plain last layer.
    pub fn linear_output(in_dim: usize, hidden: usize, out_dim: usize, store: &ParameterStore) -> (r:
        Result<Self>)
        ensures
            r matches Ok(m) ==> m.sized(in_dim, hidden, out_dim) && m.out is Plain && m.loaded(
                store_source(*store),
                store_path(*store),
            ),
            r matches Err(SwmError::Message(m)) ==> hidden == 0 && m@
                == "normalised width must be greater than zero"@,
            hidden == 0 ==> r is Err,
            r matches Ok(m) ==> forall|e: ElementType| #[trigger]
                held_as(store_source(*store), e) ==> m.home(e),
            from_file(store_source(*store)) ==> (r is Ok <==> Self::stored(
                    store_source(*store),
                    store_path(*store),
                    in_dim,
                    hidden,
                    out_dim,
                )),
    {
        let fc1 = NormedLinear::mish(in_dim, hidden, &store.pp("0"))?;
        let fc2 = NormedLinear::mish(hidden, hidden, &store.pp("1"))?;
        let out = MlpOutput::Plain(lift(linear(&store.pp("2"), hidden, out_dim))?);
        Ok(Self { fc1, fc2, out })
    }

    /// Whether a parameter file has every parameter of a perceptron whose last layer
    /// is normalised.
    pub open spec fn normed_stored(
        source: int,
        path: Seq<Seq<char>>,
        in_dim: usize,
        hidden: usize,
        out_dim: usize,
    ) -> bool {
        &&& NormedLinear::stored(source, path.push("0"@), in_dim, hidden)
        &&& NormedLinear::stored(source, path.push("1"@), hidden, hidden)
        &&& NormedLinear::stored(source, path.push("2"@), hidden, out_dim)
    }

    /// A perceptron whose last layer is normalised on simplices.
    pub fn simnorm_output(
        in_dim: usize,
        hidden: usize,
        out_dim: usize,
        simplex_dim: usize,
        store: &ParameterStore,
    ) -> (r: Result<Self>)
        ensures
            r matches Ok(m) ==> m.sized(in_dim, hidden, out_dim) && m.loaded(
                store_source(*store),
                store_path(*store),
            ) && (m.out matches MlpOutput::Normed(l) && l.act == NormedActivation::Simplex(
                SimNorm { simplex_dim },
            )),
            r matches Err(SwmError::Message(m)) ==> (hidden == 0 || out_dim == 0) && m@
                == "normalised width must be greater than zero"@,
            hidden == 0 || out_dim == 0 ==> r is Err,
            r matches Ok(m) ==> forall|e: ElementType| #[trigger]
                held_as(store_source(*store), e) ==> m.home(e),
            from_file(store_source(*store)) ==> (r is Ok <==> Self::normed_stored(
                    store_source(*store),
                    store_path(*store),
                    in_dim,
                    hidden,
                    out_dim,
                )),
    {
        let fc1 = NormedLinear::mish(in_dim, hidden, &store.pp("0"))?;
        let fc2 = NormedLinear::mish(hidden, hidden, &store.pp("1"))?;
        let last = NormedLinear::sim_norm(hidden, out_dim, simplex_dim, &store.pp("2"))?;
        Ok(Self { fc1, fc2, out: MlpOutput::Normed(last) })
    }

    pub fn forward(&self, xs: &Tensor) -> (r: Result<Tensor>)
        requires
            exists|i: usize, h: usize, o: usize| self.sized(i, h, o),
        ensures
            r matches Ok(out) ==> self.of(value(*xs), value(out)) && tensor_dims(*xs).len() >= 2
                && tensor_keys(out).len() == count(tensor_dims(out)) && tensor_element(out)
                == tensor_element(*xs) && tensor_location(out) == tensor_location(*xs),
            r matches Ok(out) ==> forall|i: usize, h: usize, o: usize| #[trigger]
                self.sized(i, h, o) ==> tensor_dims(*xs).last() == i && tensor_dims(out)
                    == tensor_dims(*xs).drop_last().push(o),
            r matches Err(SwmError::Message(m)) ==> exists|i: usize, h: usize, o: usize| #[trigger]
                self.sized(i, h, o) && self.complaint(tensor_dims(*xs).drop_last().push(o)) == Some(
                    m@,
                ),
            self.takes(value(*xs)) ==> r is Ok,
            r matches Ok(out) ==> self.out is Plain && full(tensor_dims(out)) ==> laid_out(out),
    {
        let ghost (i, h, o) = choose|i: usize, h: usize, o: usize| self.sized(i, h, o);
        proof {
            assert(self.sized(i, h, o));
            assert(self.fc1.sized(i, h));
            assert(self.fc2.sized(h, h));
        }
        let a = self.fc1.forward(xs)?;
        let b = self.fc2.forward(&a)?;
        proof {
            assert(self.fc1.of(value(*xs), value(a)));
            assert(self.fc2.of(value(a), value(b)));
            assert(tensor_dims(b).drop_last() =~= tensor_dims(*xs).drop_last());
        }
        let out = match &self.out {
            MlpOutput::Plain(l) => lift(apply_linear(l, &b))?,
            MlpOutput::Normed(l) => {
                proof {
                    assert(l.sized(h, o));
                }
                l.forward(&b)?
            },
        };
        proof {
            assert forall|i2: usize, h2: usize, o2: usize| #[trigger]
                self.sized(i2, h2, o2) implies tensor_dims(*xs).last() == i2 && tensor_dims(out)
                == tensor_dims(*xs).drop_last().push(o2) by {
                assert(linear_sizes(self.fc1.linear)[0] == i2);
                match self.out {
                    MlpOutput::Plain(l) => {
                        assert(linear_sizes(l)[1] == o2);
                    },
                    MlpOutput::Normed(l) => {
                        assert(linear_sizes(l.linear)[1] == o2);
                    },
                }
            }
        }
        Ok(out)
    }
}

/// Tensors one after the other along their last axis.
pub open spec fn joined_last(vs: Seq<TensorValue>, r: TensorValue) -> bool {
    joined(vs, vs[0].dims.len() - 1, r)
}

/// What is said of a list that cannot be joined along a last axis.
pub open spec fn cat_complaint(vs: Seq<TensorValue>) -> Option<Seq<char>> {
    if vs.len() == 0 {
        Some("cannot concatenate an empty tensor list"@)
    } else if vs[0].dims.len() == 0 {
        Some("cannot concatenate tensors without axes"@)
    } else if !joinable(vs, vs[0].dims.len() - 1) {
        Some("concatenated shape overflowed"@)
    } else {
        None
    }
}

/// Joins tensors along their last axis.
pub fn cat_last(xs: &[Tensor]) -> (r: Result<Tensor>)
    ensures
        cat_complaint(values(xs@)) matches Some(text) ==> r is Err && r->Err_0.says(text),
        cat_complaint(values(xs@)) is None ==> (r matches Err(e) ==> e is Backend),
        r matches Ok(o) ==> joined_last(values(xs@), value(o)),
        cat_complaint(values(xs@)) is None && lines_up(values(xs@), values(xs@)[0].dims.len() - 1)
            ==> r is Ok,
{
    if xs.len() == 0 {
        return Err(message("cannot concatenate an empty tensor list"));
    }
    let shape = dims(&xs[0]);
    if shape.len() == 0 {
        return Err(message("cannot concatenate tensors without axes"));
    }
    let axis: usize = shape.len() - 1;
    let ghost vs = values(xs@);
    let mut total: usize = 0;
    let mut k: usize = 0;
    while k < xs.len()
        invariant
            k <= xs@.len(),
            vs == values(xs@),
            vs.len() == xs@.len(),
            axis == vs[0].dims.len() - 1,
            cat_complaint(vs) is Some ==> !joinable(vs, axis as int),
            !joinable(vs, axis as int) ==> cat_complaint(vs) == Some(
                "concatenated shape overflowed"@,
            ),
            total == total_places(vs.take(k as int), axis as int),
            forall|j: int| 0 <= j < k ==> axis < (#[trigger] vs[j]).dims.len(),
        decreases xs@.len() - k,
    {
        let d = dims(&xs[k]);
        proof {
            assert(vs[k as int] == value(xs@[k as int]));
            assert(vs.take(k + 1).drop_last() =~= vs.take(k as int));
        }
        if d.len() <= axis {
            proof {
                assert(!(axis < vs[k as int].dims.len()));
            }
            return lift(cat(xs, axis));
        }
        match total.checked_add(d[axis]) {
            Some(n) => {
                total = n;
            },
            None => {
                if all_have_axis(xs, axis) {
                    proof {
                        lemma_more_places(vs, axis as int, k + 1);
                    }
                    return Err(message("concatenated shape overflowed"));
                }
                return lift(cat(xs, axis));
            },
        }
        k = k + 1;
    }
    proof {
        assert(vs.take(k as int) =~= vs);
    }
    lift(cat(xs, axis))
}

fn all_have_axis(xs: &[Tensor], axis: usize) -> (r: bool)
    ensures
        r == forall|k: int| 0 <= k < xs@.len() ==> axis < (#[trigger] values(xs@)[k]).dims.len(),
{
    let ghost vs = values(xs@);
    let mut k: usize = 0;
    while k < xs.len()
        invariant
            k <= xs@.len(),
            vs == values(xs@),
            forall|j: int| 0 <= j < k ==> axis < (#[trigger] vs[j]).dims.len(),
        decreases xs@.len() - k,
    {
        let d = dims(&xs[k]);
        proof {
            assert(vs[k as int] == value(xs@[k as int]));
        }
        if d.len() <= axis {
            return false;
        }
        k = k + 1;
    }
    true
}

proof fn lemma_more_places(vs: Seq<TensorValue>, axis: int, k: int)
    requires
        0 <= k <= vs.len(),
    ensures
        total_places(vs.take(k), axis) <= total_places(vs, axis),
    decreases vs.len(),
{
    if k < vs.len() {
        lemma_more_places(vs.drop_last(), axis, k);
        assert(vs.drop_last().take(k) =~= vs.take(k));
    } else {
        assert(vs.take(k) =~= vs);
    }
}

} // verus!
