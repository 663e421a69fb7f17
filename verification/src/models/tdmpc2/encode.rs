//! How the TD-MPC2 model encodes observations.

use candle_core::Tensor;
use vstd::prelude::*;

use crate::error::{Result, SwmError};
use crate::models::tdmpc2::config::{total_width, EncodingConfig};
use crate::models::tdmpc2::model::{pixels_from, pixels_place, vector_encodings, TdMpc2};
use crate::models::tdmpc2::modules::{cat_complaint, cat_last, joined_last};
use crate::models::tdmpc2::simnorm::{sim_normed, simnorm_complaint, SimNorm};
use crate::tensor::arithmetic::like;
use crate::tensor::join::{lemma_joined_parts, lemma_joined_shape};
use crate::tensor::layout::{joinable, lines_up, total_places};
use crate::tensor::value::{
    count, hosted, resident, tensor_dims, tensor_element, tensor_keys, tensor_location, value,
    values, ElementType, TensorValue,
};
use crate::text::same_text;
use crate::tensor::layers::ready;

verus! {

/// The first observation of a name among those from `i` on.
pub open spec fn observed_from(obs: Seq<(&str, &Tensor)>, name: Seq<char>, i: int) -> Option<Tensor>
    decreases obs.len() - i,
{
    if i < 0 || i >= obs.len() {
        None
    } else if obs[i].0@ == name {
        Some(*obs[i].1)
    } else {
        observed_from(obs, name, i + 1)
    }
}

/// The first observation of a name.
pub open spec fn observed(obs: Seq<(&str, &Tensor)>, name: Seq<char>) -> Option<Tensor> {
    observed_from(obs, name, 0)
}

/// What is said where an observation is missing.
pub open spec fn missing(name: Seq<char>) -> Seq<char> {
    "missing observation '"@ + name + "'"@
}

/// A single observation under its name.
pub open spec fn one_observation<'a>(name: &'a str, t: &'a Tensor) -> Seq<(&'a str, &'a Tensor)> {
    seq![(name, t)]
}

/// The widths of the encodings that the encoders give.
pub open spec fn embedding_width(encodings: Seq<EncodingConfig>) -> nat {
    total_width(vector_encodings(encodings)) + match pixels_place(encodings) {
        Some(i) => encodings[i].output_dim as nat,
        None => 0,
    }
}

fn find_observation<'a>(obs: &[(&'a str, &'a Tensor)], name: &str) -> (r: Option<&'a Tensor>)
    ensures
        match r {
            Some(t) => observed(obs@, name@) == Some(*t),
            None => observed(obs@, name@) is None,
        },
{
    let mut i: usize = 0;
    while i < obs.len()
        invariant
            i <= obs@.len(),
            observed(obs@, name@) == observed_from(obs@, name@, i as int),
        decreases obs@.len() - i,
    {
        let (found, tensor) = obs[i];
        if same_text(found, name) {
            return Some(tensor);
        }
        i = i + 1;
    }
    None
}

fn missing_observation(name: &str) -> (r: SwmError)
    ensures
        r.says(missing(name@)),
{
    let mut text = String::from_str("missing observation '");
    text.append(name);
    text.append("'");
    SwmError::Message(text)
}

proof fn lemma_embedding_width(encodings: Seq<EncodingConfig>)
    ensures
        embedding_width(encodings) <= total_width(encodings),
        total_width(encodings) > 0 ==> pixels_place(encodings) is Some || vector_encodings(
            encodings,
        ).len() > 0,
        pixels_place(encodings) matches Some(i) ==> 0 <= i < encodings.len(),
    decreases encodings.len(),
{
    if encodings.len() > 0 {
        let head = encodings.drop_last();
        lemma_embedding_width(head);
        lemma_last_pixels(encodings, 0);
        if encodings.last().name@ != "pixels"@ {
            let kept = vector_encodings(head).push(encodings.last());
            assert(kept.drop_last() =~= vector_encodings(head));
        }
    }
}

proof fn lemma_last_pixels(encodings: Seq<EncodingConfig>, i: int)
    requires
        encodings.len() > 0,
        0 <= i < encodings.len(),
    ensures
        pixels_from(encodings.drop_last(), i) is Some ==> pixels_from(encodings, i) == pixels_from(
            encodings.drop_last(),
            i,
        ) && i <= pixels_from(encodings, i)->0 < encodings.len() - 1,
        pixels_from(encodings.drop_last(), i) is None ==> pixels_from(encodings, i)
            == if encodings.last().name@ == "pixels"@ {
            Some(encodings.len() - 1)
        } else {
            None
        },
    decreases encodings.len() - i,
{
    let head = encodings.drop_last();
    if i < encodings.len() - 1 {
        assert(head[i] == encodings[i]);
        if encodings[i].name@ != "pixels"@ {
            lemma_last_pixels(encodings, i + 1);
        }
    } else {
        assert(pixels_from(encodings, i + 1) is None);
        assert(pixels_from(head, i) is None);
    }
}

/// The places of embeddings along their last axis, images first.
proof fn lemma_vector_places(
    vs: Seq<TensorValue>,
    axis: int,
    first: int,
    vectors: Seq<EncodingConfig>,
)
    requires
        0 <= first <= 1,
        vs.len() == first + vectors.len(),
        forall|j: int|
            0 <= j < vectors.len() ==> vs[first
                + j].dims[axis] == (#[trigger] vectors[j]).output_dim,
    ensures
        total_places(vs, axis) == total_width(vectors) + if first == 1 {
            vs[0].dims[axis] as nat
        } else {
            0
        },
    decreases vectors.len(),
{
    if vectors.len() > 0 {
        let (shorter, head) = (vs.drop_last(), vectors.drop_last());
        assert forall|j: int| 0 <= j < head.len() implies shorter[first + j].dims[axis] == (
        #[trigger] head[j]).output_dim by {
            assert(head[j] == vectors[j]);
        }
        lemma_vector_places(shorter, axis, first, head);
        assert(vectors.last() == vectors[vectors.len() - 1]);
        assert(vs.last() == vs[first + (vectors.len() - 1)]);
    } else if first == 1 {
        reveal_with_fuel(total_places, 2);
    }
}

impl TdMpc2 {
    /// The encodings that come before those of vectors.
    pub open spec fn pixel_count(self) -> int {
        if self.pixel_encoder is Some {
            1
        } else {
            0
        }
    }

    /// What the encoders make of observations, images first.
    pub open spec fn embeds(self, obs: Seq<(&str, &Tensor)>, vs: Seq<TensorValue>) -> bool {
        &&& vs.len() == self.pixel_count() + self.encoders@.len()
        &&& self.pixel_encoder matches Some(p) ==> observed(obs, "pixels"@) is Some && p.of(
            value(observed(obs, "pixels"@)->0),
            vs[0],
        )
        &&& forall|k: int|
            0 <= k < self.encoders@.len() ==> {
                let seen = observed(obs, (#[trigger] self.encoders@[k]).cfg.name@);
                seen is Some && self.encoders@[k].of(value(seen->0), vs[self.pixel_count() + k])
            }
    }

    /// What observations are encoded as: their embeddings side by side,
    /// normalised on simplices.
    pub open spec fn encoded(self, obs: Seq<(&str, &Tensor)>, r: TensorValue) -> bool {
        exists|vs: Seq<TensorValue>, wide: TensorValue|
            #[trigger] self.embeds(obs, vs) && #[trigger] joined_last(vs, wide) && sim_normed(
                self.cfg.simnorm_dim,
                wide,
                r,
            )
    }

    /// The first thing wrong with the observations of vectors from encoder `k`
    /// on.
    pub open spec fn vectors_complaint(self, obs: Seq<(&str, &Tensor)>, k: int) -> Option<Seq<char>>
        decreases self.encoders@.len() - k,
    {
        if k < 0 || k >= self.encoders@.len() {
            None
        } else {
            match observed(obs, self.encoders@[k].cfg.name@) {
                None => Some(missing(self.encoders@[k].cfg.name@)),
                Some(t) => match self.encoders@[k].complaint(tensor_dims(t)) {
                    Some(text) => Some(text),
                    None => self.vectors_complaint(obs, k + 1),
                },
            }
        }
    }

    /// The first thing wrong with observations.
    pub open spec fn encode_complaint(self, obs: Seq<(&str, &Tensor)>) -> Option<Seq<char>> {
        let pixels = match self.pixel_encoder {
            None => None,
            Some(p) => match observed(obs, "pixels"@) {
                None => Some(missing("pixels"@)),
                Some(t) => p.complaint(tensor_dims(t)),
            },
        };
        if pixels is Some {
            pixels
        } else if self.vectors_complaint(obs, 0) is Some {
            self.vectors_complaint(obs, 0)
        } else {
            simnorm_complaint(
                seq![embedding_width(self.cfg.encodings@) as usize],
                self.cfg.simnorm_dim,
            )
        }
    }

    /// What is said where no machine integer can hold the width of embeddings
    /// of different ranks.
    pub open spec fn cannot_join(self, obs: Seq<(&str, &Tensor)>, text: Seq<char>) -> bool {
        text == "concatenated shape overflowed"@ && exists|vs: Seq<TensorValue>| #[trigger]
            self.embeds(obs, vs) && !joinable(vs, vs[0].dims.len() - 1)
    }

    /// The axes of the first observation that stay.
    pub open spec fn kept_axes(self, obs: Seq<(&str, &Tensor)>) -> Seq<usize> {
        if self.pixel_encoder is Some {
            let d = tensor_dims(observed(obs, "pixels"@)->0);
            d.take(d.len() - 3)
        } else {
            tensor_dims(observed(obs, self.encoders@[0].cfg.name@)->0).drop_last()
        }
    }

    /// Whether observations with one set of axes before the last, of one element
    /// type, are encoded on the processor.
    pub open spec fn sees(
        self,
        obs: Seq<(&str, &Tensor)>,
        e: ElementType,
        lead: Seq<usize>,
    ) -> bool {
        &&& self.encode_complaint(obs) is None
        &&& self.encoders_home(e)
        &&& self.pixel_encoder is Some ==> {
            let t = observed(obs, "pixels"@)->0;
            &&& ready(value(t))
            &&& tensor_element(t) == e
            &&& !(e is BF16)
            &&& tensor_dims(t).take(tensor_dims(t).len() - 3) == lead
        }
        &&& forall|k: int|
            0 <= k < self.encoders@.len() ==> {
                let t = observed(obs, (#[trigger] self.encoders@[k]).cfg.name@)->0;
                &&& ready(value(t))
                &&& tensor_element(t) == e
                &&& tensor_dims(t).drop_last() == lead
            }
    }

    /// Encodes named observations as a latent state.
    pub fn encode(&self, observations: &[(&str, &Tensor)]) -> (r: Result<Tensor>)
        requires
            self.well_formed(),
        ensures
            r matches Err(SwmError::Message(m)) ==> self.encode_complaint(observations@) == Some(m@)
                || self.cannot_join(observations@, m@),
            self.encode_complaint(observations@) is Some ==> r is Err,
            r matches Ok(z) ==> self.encoded(observations@, value(z)) && tensor_dims(z)
                == self.kept_axes(observations@).push(
                embedding_width(self.cfg.encodings@) as usize,
            ) && tensor_keys(z).len() == count(tensor_dims(z)),
            forall|e: ElementType, lead: Seq<usize>| #[trigger]
                self.sees(observations@, e, lead) ==> {
                    &&& r is Ok
                    &&& tensor_element(r->Ok_0) == e
                    &&& tensor_location(r->Ok_0) is Cpu
                    &&& tensor_dims(r->Ok_0) == lead.push(
                        embedding_width(self.cfg.encodings@) as usize,
                    )
                },
    {
        let ghost obs = observations@;
        let mut embeddings: Vec<Tensor> = Vec::new();
        if let Some(pixel_encoder) = &self.pixel_encoder {
            let xs = match find_observation(observations, "pixels") {
                Some(xs) => xs,
                None => {
                    return Err(missing_observation("pixels"));
                },
            };
            let e = pixel_encoder.forward(xs)?;
            embeddings.push(e);
        }
        let ghost first = self.pixel_count();
        let mut k: usize = 0;
        while k < self.encoders.len()
            invariant
                self.well_formed(),
                obs == observations@,
                first == self.pixel_count(),
                k <= self.encoders@.len(),
                embeddings@.len() == first + k,
                self.pixel_encoder matches Some(p) ==> observed(obs, "pixels"@) is Some
                    && p.complaint(tensor_dims(observed(obs, "pixels"@)->0)) is None && p.of(
                    value(observed(obs, "pixels"@)->0),
                    value(embeddings@[0]),
                ) && tensor_dims(embeddings@[0]) == self.kept_axes(obs).push(p.output_dim)
                    && tensor_keys(embeddings@[0]).len() == count(tensor_dims(embeddings@[0]))
                    && tensor_element(embeddings@[0]) == tensor_element(
                    observed(obs, "pixels"@)->0,
                ) && tensor_location(embeddings@[0]) == tensor_location(
                    observed(obs, "pixels"@)->0,
                ),
                self.vectors_complaint(obs, 0) == self.vectors_complaint(obs, k as int),
                forall|j: int|
                    0 <= j < k ==> {
                        let seen = observed(obs, (#[trigger] self.encoders@[j]).cfg.name@);
                        &&& seen is Some
                        &&& self.encoders@[j].of(value(seen->0), value(embeddings@[first + j]))
                        &&& tensor_dims(embeddings@[first + j]) == tensor_dims(
                            seen->0,
                        ).drop_last().push(self.encoders@[j].cfg.output_dim)
                        &&& tensor_keys(embeddings@[first + j]).len() == count(
                            tensor_dims(embeddings@[first + j]),
                        )
                        &&& tensor_element(embeddings@[first + j]) == tensor_element(seen->0)
                        &&& tensor_location(embeddings@[first + j]) == tensor_location(seen->0)
                    },
            decreases self.encoders@.len() - k,
        {
            let encoder = &self.encoders[k];
            let xs = match find_observation(observations, encoder.name()) {
                Some(xs) => xs,
                None => {
                    return Err(missing_observation(encoder.name()));
                },
            };
            let e = encoder.forward(xs)?;
            embeddings.push(e);
            k = k + 1;
        }
        let ghost vs = values(embeddings@);
        proof {
            assert(self.vectors_complaint(obs, k as int) is None);
            lemma_embedding_width(self.cfg.encodings@);
            assert(vs.len() == embeddings@.len());
            assert forall|j: int| 0 <= j < vs.len() implies #[trigger] vs[j] == value(
                embeddings@[j],
            ) by {}
            assert(self.embeds(obs, vs)) by {
                if self.pixel_encoder is Some {
                    assert(vs[0] == value(embeddings@[0]));
                }
                assert forall|j: int| 0 <= j < self.encoders@.len() implies {
                    let seen = observed(obs, (#[trigger] self.encoders@[j]).cfg.name@);
                    seen is Some && self.encoders@[j].of(value(seen->0), vs[first + j])
                } by {
                    assert(vs[first + j] == value(embeddings@[first + j]));
                }
            }
            if self.pixel_encoder is None {
                let e = self.encoders@[0];
                assert(tensor_dims(embeddings@[0 + first]) == self.kept_axes(obs).push(
                    e.cfg.output_dim,
                ));
            }
            assert(vs[0] == value(embeddings@[0]));
        }
        proof {
            assert forall|e: ElementType, lead: Seq<usize>| #[trigger] self.sees(
                obs,
                e,
                lead,
            ) implies cat_complaint(vs) is None && lines_up(vs, vs[0].dims.len() - 1)
                && self.kept_axes(obs) == lead && vs[0].element == e && vs[0].location is Cpu by {
                self.lemma_line_up(obs, e, lead, embeddings@);
            }
        }
        let wide = cat_last(embeddings.as_slice())?;
        proof {
            let axis = vs[0].dims.len() - 1;
            let vectors = vector_encodings(self.cfg.encodings@);
            assert forall|j: int| 0 <= j < vectors.len() implies vs[first + j].dims[axis] == (
            #[trigger] vectors[j]).output_dim by {
                lemma_joined_parts(vs, axis, value(wide), first + j);
                assert(self.encoders@[j].cfg.same(vectors[j]));
                assert(vs[first + j] == value(embeddings@[first + j]));
                assert(vs[first + j].dims.last() == self.encoders@[j].cfg.output_dim);
                assert(vs[first + j].dims.len() == vs[0].dims.len());
            }
            lemma_vector_places(vs, axis, first, vectors);
            lemma_joined_shape(vs, axis, value(wide));
            let w = embedding_width(self.cfg.encodings@) as usize;
            assert(vs[0].dims.update(axis, w) =~= self.kept_axes(obs).push(w));
            assert(seq![w].last() == w);
        }
        self.sim_norm(&wide)
    }

    /// The embeddings of observations that are seen on the processor can be joined.
    proof fn lemma_line_up(
        self,
        obs: Seq<(&str, &Tensor)>,
        e: ElementType,
        lead: Seq<usize>,
        embeddings: Seq<Tensor>,
    )
        requires
            self.well_formed(),
            self.sees(obs, e, lead),
            embeddings.len() == self.pixel_count() + self.encoders@.len(),
            self.pixel_encoder matches Some(p) ==> tensor_dims(embeddings[0]) == self.kept_axes(
                obs,
            ).push(p.output_dim) && tensor_element(embeddings[0]) == tensor_element(
                observed(obs, "pixels"@)->0,
            ) && tensor_location(embeddings[0]) == tensor_location(observed(obs, "pixels"@)->0),
            forall|j: int|
                0 <= j < self.encoders@.len() ==> {
                    let seen = observed(obs, (#[trigger] self.encoders@[j]).cfg.name@);
                    let made = embeddings[self.pixel_count() + j];
                    &&& tensor_dims(made) == tensor_dims(seen->0).drop_last().push(
                        self.encoders@[j].cfg.output_dim,
                    )
                    &&& tensor_element(made) == tensor_element(seen->0)
                    &&& tensor_location(made) == tensor_location(seen->0)
                },
        ensures
            cat_complaint(values(embeddings)) is None,
            lines_up(values(embeddings), values(embeddings)[0].dims.len() - 1),
            self.kept_axes(obs) == lead,
            values(embeddings)[0].element == e,
            values(embeddings)[0].location is Cpu,
    {
        let vs = values(embeddings);
        let first = self.pixel_count();
        let axis = lead.len() as int;
        lemma_embedding_width(self.cfg.encodings@);
        if self.pixel_encoder is None {
            assert(self.encoders@[0].cfg.name@ == self.encoders@[0].cfg.name@);
        }
        assert forall|k: int| 0 <= k < vs.len() implies resident(#[trigger] vs[k]) && vs[k].element
            == e && vs[k].dims.len() == axis + 1 && vs[k].dims.drop_last() == lead by {
            assert(vs[k] == value(embeddings[k]));
            if k >= first {
                let j = k - first;
                assert(self.encoders@[j].cfg.name@ == self.encoders@[j].cfg.name@);
                assert(embeddings[first + j] == embeddings[k]);
                assert(vs[k].dims.drop_last() =~= lead);
            } else {
                assert(vs[k].dims.drop_last() =~= self.kept_axes(obs));
            }
        }
        assert forall|k: int| 0 <= k < vs.len() implies resident(#[trigger] vs[k]) && vs[k].element
            == vs[0].element && vs[k].dims == vs[0].dims.update(axis, vs[k].dims[axis]) by {
            assert(vs[0].dims.drop_last() == lead);
            assert forall|i: int| 0 <= i < axis implies vs[k].dims[i] == vs[0].dims[i] by {
                assert(vs[k].dims.drop_last()[i] == vs[k].dims[i]);
                assert(vs[0].dims.drop_last()[i] == vs[0].dims[i]);
            }
            assert(vs[k].dims =~= vs[0].dims.update(axis, vs[k].dims[axis]));
        }
        let vectors = vector_encodings(self.cfg.encodings@);
        assert forall|j: int| 0 <= j < vectors.len() implies vs[first + j].dims[axis] == (
        #[trigger] vectors[j]).output_dim by {
            assert(self.encoders@[j].cfg.same(vectors[j]));
            assert(vs[first + j] == value(embeddings[first + j]));
            assert(vs[first + j].dims.last() == self.encoders@[j].cfg.output_dim);
        }
        lemma_vector_places(vs, axis, first, vectors);
    }

    /// Encodes an observation of the name `state`.
    pub fn encode_state(&self, state: &Tensor) -> (r: Result<Tensor>)
        requires
            self.well_formed(),
        ensures
            r matches Err(SwmError::Message(m)) ==> self.encode_complaint(seq![("state", state)])
                == Some(m@) || self.cannot_join(seq![("state", state)], m@),
            self.encode_complaint(seq![("state", state)]) is Some ==> r is Err,
            r matches Ok(z) ==> self.encoded(seq![("state", state)], value(z)) && tensor_dims(z)
                == self.kept_axes(seq![("state", state)]).push(
                embedding_width(self.cfg.encodings@) as usize,
            ) && tensor_keys(z).len() == count(tensor_dims(z)),
            forall|e: ElementType, lead: Seq<usize>| #[trigger]
                self.sees(one_observation("state", state), e, lead) ==> r is Ok && tensor_element(r->Ok_0) == e
                    && tensor_location(r->Ok_0) is Cpu && tensor_dims(r->Ok_0) == lead.push(
                    embedding_width(self.cfg.encodings@) as usize,
                ),
    {
        let obs: [(&str, &Tensor); 1] = [("state", state)];
        proof {
            assert(obs@ =~= seq![("state", state)]);
        }
        self.encode(&obs)
    }

    /// Encodes an observation of the name `pixels`.
    pub fn encode_pixels(&self, pixels: &Tensor) -> (r: Result<Tensor>)
        requires
            self.well_formed(),
        ensures
            r matches Err(SwmError::Message(m)) ==> self.encode_complaint(seq![("pixels", pixels)])
                == Some(m@) || self.cannot_join(seq![("pixels", pixels)], m@),
            self.encode_complaint(seq![("pixels", pixels)]) is Some ==> r is Err,
            r matches Ok(z) ==> self.encoded(seq![("pixels", pixels)], value(z)) && tensor_dims(z)
                == self.kept_axes(seq![("pixels", pixels)]).push(
                embedding_width(self.cfg.encodings@) as usize,
            ) && tensor_keys(z).len() == count(tensor_dims(z)),
            forall|e: ElementType, lead: Seq<usize>| #[trigger]
                self.sees(one_observation("pixels", pixels), e, lead) ==> r is Ok && tensor_element(r->Ok_0) == e
                    && tensor_location(r->Ok_0) is Cpu && tensor_dims(r->Ok_0) == lead.push(
                    embedding_width(self.cfg.encodings@) as usize,
                ),
    {
        let obs: [(&str, &Tensor); 1] = [("pixels", pixels)];
        proof {
            assert(obs@ =~= seq![("pixels", pixels)]);
        }
        self.encode(&obs)
    }

    fn sim_norm(&self, xs: &Tensor) -> (r: Result<Tensor>)
        ensures
            r matches Ok(o) ==> sim_normed(self.cfg.simnorm_dim, value(*xs), value(o)) && like(
                value(*xs),
                value(o),
            ),
            simnorm_complaint(tensor_dims(*xs), self.cfg.simnorm_dim) matches Some(text)
                ==> r is Err
                && r->Err_0.says(text),
            simnorm_complaint(tensor_dims(*xs), self.cfg.simnorm_dim) is None ==> (r matches Err(e)
                ==> e is Backend),
            simnorm_complaint(tensor_dims(*xs), self.cfg.simnorm_dim) is None && hosted(value(*xs))
                ==> r is Ok,
    {
        SimNorm::new(self.cfg.simnorm_dim).forward(xs)
    }
}

} // verus!
