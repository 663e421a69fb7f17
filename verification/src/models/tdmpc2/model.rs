//! The TD-MPC2 model: how it is put together and how it encodes observations.

use vstd::prelude::*;

use crate::error::{message, Result, SwmError};
use crate::models::tdmpc2::config::{total_width, EncodingConfig, TdMpc2Config};
use crate::models::tdmpc2::modules::{MlpOutput, NormedActivation, TdMpc2Mlp, VectorEncoder};
use crate::models::tdmpc2::pixels::{cnn_complaint, PixelEncoder};
use crate::models::tdmpc2::simnorm::SimNorm;
use crate::tensor::layers::{from_file, held_as, store_path, store_source, ParameterStore};
use crate::text::{decimal, same_text};
use crate::tensor::value::ElementType;

verus! {

/// A latent dynamics model with reward, value and policy heads.
#[derive(Debug, Clone)]
pub struct TdMpc2 {
    pub cfg: TdMpc2Config,
    pub pixel_encoder: Option<PixelEncoder>,
    pub encoders: Vec<VectorEncoder>,
    pub dynamics: TdMpc2Mlp,
    pub reward: TdMpc2Mlp,
    pub pi: TdMpc2Mlp,
    pub qs: Vec<TdMpc2Mlp>,
}

/// The first encoding of images among the encodings from `i` on.
pub open spec fn pixels_from(encodings: Seq<EncodingConfig>, i: int) -> Option<int>
    decreases encodings.len() - i,
{
    if i < 0 || i >= encodings.len() {
        None
    } else if encodings[i].name@ == "pixels"@ {
        Some(i)
    } else {
        pixels_from(encodings, i + 1)
    }
}

/// The first encoding of images.
pub open spec fn pixels_place(encodings: Seq<EncodingConfig>) -> Option<int> {
    pixels_from(encodings, 0)
}

/// The encodings of vectors, in their order.
pub open spec fn vector_encodings(encodings: Seq<EncodingConfig>) -> Seq<EncodingConfig>
    decreases encodings.len(),
{
    if encodings.len() == 0 {
        Seq::empty()
    } else {
        let rest = vector_encodings(encodings.drop_last());
        if encodings.last().name@ == "pixels"@ {
            rest
        } else {
            rest.push(encodings.last())
        }
    }
}

/// What is wrong with settings before any parameter is read.
pub open spec fn settings_complaint(cfg: TdMpc2Config) -> Option<Seq<char>> {
    if total_width(cfg.encodings@) > usize::MAX {
        Some("TD-MPC2 latent width overflowed"@)
    } else if total_width(cfg.encodings@) == 0 {
        Some("TD-MPC2 requires at least one observation encoding"@)
    } else if total_width(cfg.encodings@) + cfg.action_dim > usize::MAX || 2 * cfg.action_dim
        > usize::MAX {
        Some("TD-MPC2 layer width overflowed"@)
    } else if pixels_place(cfg.encodings@) is Some && cfg.image_size is None {
        Some("TD-MPC2 pixel encoding requires config.image_size"@)
    } else {
        None
    }
}

/// What can be said of settings when layers are made from them.
pub open spec fn layers_complaint(cfg: TdMpc2Config, text: Seq<char>) -> bool {
    ||| cfg.image_size is Some && cnn_complaint(cfg.image_size->0 as int) == Some(text)
    ||| text == "normalised width must be greater than zero"@ && (cfg.enc_dim == 0 || cfg.mlp_dim
        == 0 || exists|i: int|
        0 <= i < cfg.encodings@.len() && (#[trigger] cfg.encodings@[i]).output_dim == 0)
}

impl TdMpc2 {
    /// The width of the latent state.
    pub open spec fn latent(self) -> nat {
        total_width(self.cfg.encodings@)
    }

    /// The encoders are those that the settings call for.
    pub open spec fn encoders_fit(self) -> bool {
        let vectors = vector_encodings(self.cfg.encodings@);
        &&& match pixels_place(self.cfg.encodings@) {
            None => self.pixel_encoder is None,
            Some(i) => {
                &&& self.cfg.image_size is Some
                &&& self.pixel_encoder is Some
                &&& self.pixel_encoder->0.well_formed()
                &&& self.pixel_encoder->0.image_size == self.cfg.image_size->0
                &&& self.pixel_encoder->0.output_dim == self.cfg.encodings@[i].output_dim
            },
        }
        &&& self.encoders@.len() == vectors.len()
        &&& forall|k: int|
            0 <= k < vectors.len() ==> (#[trigger] self.encoders@[k]).well_formed()
                && self.encoders@[k].cfg.same(vectors[k])
    }

    /// The heads have the widths that the settings call for.
    pub open spec fn heads_fit(self) -> bool {
        let latent = self.latent() as usize;
        let joint = (self.latent() + self.cfg.action_dim) as usize;
        &&& 0 < self.latent()
        &&& self.latent() + self.cfg.action_dim <= usize::MAX
        &&& 2 * self.cfg.action_dim <= usize::MAX
        &&& self.dynamics.sized(joint, self.cfg.mlp_dim, latent)
        &&& self.dynamics.out matches MlpOutput::Normed(l) && l.act == NormedActivation::Simplex(
            SimNorm { simplex_dim: self.cfg.simnorm_dim },
        )
        &&& self.reward.sized(joint, self.cfg.mlp_dim, self.cfg.num_bins)
        &&& self.reward.out is Plain
        &&& self.pi.sized(latent, self.cfg.mlp_dim, (2 * self.cfg.action_dim) as usize)
        &&& self.pi.out is Plain
        &&& self.qs@.len() == self.cfg.num_q
        &&& forall|k: int|
            0 <= k < self.qs@.len() ==> (#[trigger] self.qs@[k]).sized(
                joint,
                self.cfg.mlp_dim,
                self.cfg.num_bins,
            ) && self.qs@[k].out is Plain
    }

    pub open spec fn well_formed(self) -> bool {
        self.encoders_fit() && self.heads_fit()
    }

    /// The parameters of the heads have an element type in the memory of the
    /// processor.
    pub open spec fn home(self, e: ElementType) -> bool {
        &&& self.dynamics.home(e)
        &&& self.reward.home(e)
        &&& self.pi.home(e)
        &&& forall|k: int| 0 <= k < self.qs@.len() ==> (#[trigger] self.qs@[k]).home(e)
    }

    /// The parameters of the encoders have an element type in the memory of the
    /// processor.
    pub open spec fn encoders_home(self, e: ElementType) -> bool {
        &&& self.pixel_encoder matches Some(p) ==> p.home(e)
        &&& forall|k: int| 0 <= k < self.encoders@.len() ==> (#[trigger] self.encoders@[k]).home(e)
    }

    /// Every parameter comes from its place in the tree of names.
    pub open spec fn loaded(self, source: int, path: Seq<Seq<char>>) -> bool {
        &&& self.pixel_encoder matches Some(p) ==> p.loaded(source, path)
        &&& forall|k: int|
            0 <= k < self.encoders@.len() ==> (#[trigger] self.encoders@[k]).loaded(
                source,
                path.push("extra_encoders"@).push(self.encoders@[k].cfg.name@),
            )
        &&& self.dynamics.loaded(source, path.push("dynamics"@))
        &&& self.reward.loaded(source, path.push("reward"@))
        &&& self.pi.loaded(source, path.push("pi"@))
        &&& forall|k: int|
            0 <= k < self.qs@.len() ==> (#[trigger] self.qs@[k]).loaded(
                source,
                path.push("qs"@).push(decimal(k as nat)),
            )
    }

    /// Whether a parameter file has every parameter of a model with these settings.
    /// A width that is normalised is never zero.
    pub open spec fn stored(source: int, path: Seq<Seq<char>>, cfg: TdMpc2Config) -> bool {
        let latent = total_width(cfg.encodings@) as usize;
        let joint = (latent + cfg.action_dim) as usize;
        &&& pixels_stored(source, path, cfg)
        &&& forall|i: int|
            0 <= i < cfg.encodings@.len() ==> vectors_stored(
                source,
                path,
                #[trigger] cfg.encodings@[i],
                cfg.enc_dim,
            )
        &&& TdMpc2Mlp::normed_stored(source, path.push("dynamics"@), joint, cfg.mlp_dim, latent)
        &&& TdMpc2Mlp::stored(source, path.push("reward"@), joint, cfg.mlp_dim, cfg.num_bins)
        &&& TdMpc2Mlp::stored(
            source,
            path.push("pi"@),
            latent,
            cfg.mlp_dim,
            (2 * cfg.action_dim) as usize,
        )
        &&& forall|k: nat|
            k < cfg.num_q ==> head_stored(source, path, joint, cfg, #[trigger] decimal(k))
    }

    /// Puts a model together from its settings and parameters.
    pub fn new(cfg: TdMpc2Config, store: &ParameterStore) -> (r: Result<Self>)
        ensures
            settings_complaint(cfg) matches Some(text) ==> r is Err && r->Err_0.says(text),
            settings_complaint(cfg) is None ==> (r matches Err(SwmError::Message(m))
                ==> layers_complaint(cfg, m@)),
            r matches Ok(m) ==> m.well_formed() && m.cfg == cfg && m.loaded(
                store_source(*store),
                store_path(*store),
            ),
            r matches Ok(m) ==> forall|e: ElementType| #[trigger]
                held_as(store_source(*store), e) ==> m.home(e) && m.encoders_home(e),
            from_file(store_source(*store)) && settings_complaint(cfg) is None ==> (r is Ok
                    <==> Self::stored(store_source(*store), store_path(*store), cfg)),
    {
        let latent = match cfg.checked_latent_dim() {
            Some(n) => n,
            None => {
                return Err(message("TD-MPC2 latent width overflowed"));
            },
        };
        if latent == 0 {
            return Err(message("TD-MPC2 requires at least one observation encoding"));
        }
        let joint = match latent.checked_add(cfg.action_dim) {
            Some(n) => n,
            None => {
                return Err(message("TD-MPC2 layer width overflowed"));
            },
        };
        let policy = match cfg.action_dim.checked_mul(2) {
            Some(n) => n,
            None => {
                return Err(message("TD-MPC2 layer width overflowed"));
            },
        };
        let pixel_encoder = load_pixel_encoder(&cfg, store)?;
        let encoders = load_vector_encoders(&cfg, store)?;
        let dynamics = TdMpc2Mlp::simnorm_output(
            joint,
            cfg.mlp_dim,
            latent,
            cfg.simnorm_dim,
            &store.pp("dynamics"),
        )?;
        let reward = TdMpc2Mlp::linear_output(
            joint,
            cfg.mlp_dim,
            cfg.num_bins,
            &store.pp("reward"),
        )?;
        let pi = TdMpc2Mlp::linear_output(latent, cfg.mlp_dim, policy, &store.pp("pi"))?;
        let qs = load_value_heads(&cfg, joint, store)?;
        Ok(Self { cfg, pixel_encoder, encoders, dynamics, reward, pi, qs })
    }

    pub fn config(&self) -> (r: &TdMpc2Config)
        ensures
            *r == self.cfg,
    {
        &self.cfg
    }
}

fn find_pixels(encodings: &[EncodingConfig]) -> (r: Option<usize>)
    ensures
        match r {
            Some(i) => pixels_place(encodings@) == Some(i as int) && i < encodings@.len(),
            None => pixels_place(encodings@) is None,
        },
{
    let mut i: usize = 0;
    while i < encodings.len()
        invariant
            i <= encodings@.len(),
            pixels_place(encodings@) == pixels_from(encodings@, i as int),
        decreases encodings@.len() - i,
    {
        if same_text(encodings[i].name.as_str(), "pixels") {
            return Some(i);
        }
        i = i + 1;
    }
    None
}

/// Whether a parameter file has what the pixels are encoded with, where there are
/// any.
pub open spec fn pixels_stored(source: int, path: Seq<Seq<char>>, cfg: TdMpc2Config) -> bool {
    pixels_place(cfg.encodings@) matches Some(i) ==> cnn_complaint(cfg.image_size->0 as int) is None
        && PixelEncoder::stored(source, path, cfg.image_size->0, cfg.encodings@[i].output_dim)
}

/// Whether a parameter file has what an observation other than pixels is encoded
/// with.
pub open spec fn vectors_stored(
    source: int,
    path: Seq<Seq<char>>,
    encoding: EncodingConfig,
    hidden: usize,
) -> bool {
    encoding.name@ != "pixels"@ ==> VectorEncoder::stored(
        source,
        path.push("extra_encoders"@).push(encoding.name@),
        encoding.input_dim,
        hidden,
        encoding.output_dim,
    )
}

/// Whether a parameter file has the value head of a name.
pub open spec fn head_stored(
    source: int,
    path: Seq<Seq<char>>,
    joint: usize,
    cfg: TdMpc2Config,
    name: Seq<char>,
) -> bool {
    TdMpc2Mlp::stored(source, path.push("qs"@).push(name), joint, cfg.mlp_dim, cfg.num_bins)
}

fn load_pixel_encoder(cfg: &TdMpc2Config, store: &ParameterStore) -> (r: Result<
    Option<PixelEncoder>,
>)
    ensures
        pixels_place(cfg.encodings@) is Some && cfg.image_size is None ==> r is Err
            && r->Err_0.says("TD-MPC2 pixel encoding requires config.image_size"@),
        pixels_place(cfg.encodings@) is None ==> r is Ok && r->Ok_0 is None,
        r matches Ok(p) ==> match pixels_place(cfg.encodings@) {
            None => p is None,
            Some(i) => {
                &&& cfg.image_size is Some
                &&& p is Some
                &&& p->0.well_formed()
                &&& p->0.image_size == cfg.image_size->0
                &&& p->0.output_dim == cfg.encodings@[i].output_dim
                &&& p->0.loaded(store_source(*store), store_path(*store))
            },
        },
        r matches Err(SwmError::Message(m)) ==> cfg.image_size is None || cnn_complaint(
            cfg.image_size->0 as int,
        ) == Some(m@),
        r matches Ok(p) ==> p is Some ==> forall|e: ElementType| #[trigger]
            held_as(store_source(*store), e) ==> p->0.home(e),
        from_file(store_source(*store)) && (pixels_place(cfg.encodings@) is Some ==> cfg.image_size is Some)
            ==> (r is Ok <==> pixels_stored(store_source(*store), store_path(*store), *cfg)),
{
    match find_pixels(cfg.encodings.as_slice()) {
        None => Ok(None),
        Some(i) => match cfg.image_size {
            None => Err(message("TD-MPC2 pixel encoding requires config.image_size")),
            Some(size) => {
                let encoder = PixelEncoder::new(size, cfg.encodings[i].output_dim, store)?;
                Ok(Some(encoder))
            },
        },
    }
}

fn load_vector_encoders(cfg: &TdMpc2Config, store: &ParameterStore) -> (r: Result<
    Vec<VectorEncoder>,
>)
    ensures
        r matches Ok(v) ==> {
            let vectors = vector_encodings(cfg.encodings@);
            &&& v@.len() == vectors.len()
            &&& forall|k: int|
                0 <= k < v@.len() ==> (#[trigger] v@[k]).well_formed() && v@[k].cfg.same(vectors[k])
                    && v@[k].loaded(
                    store_source(*store),
                    store_path(*store).push("extra_encoders"@).push(v@[k].cfg.name@),
                )
        },
        r matches Err(SwmError::Message(m)) ==> m@ == "normalised width must be greater than zero"@
            && (cfg.enc_dim == 0 || exists|i: int|
            0 <= i < cfg.encodings@.len() && (#[trigger] cfg.encodings@[i]).output_dim == 0),
        r matches Ok(v) ==> forall|e: ElementType, k: int|
            #![trigger held_as(store_source(*store), e), v@[k]]
            held_as(store_source(*store), e) && 0 <= k < v@.len() ==> v@[k].home(e),
        from_file(store_source(*store)) ==> (r is Ok <==> forall|i: int|
            0 <= i < cfg.encodings@.len() ==> vectors_stored(
                store_source(*store),
                store_path(*store),
                #[trigger] cfg.encodings@[i],
                cfg.enc_dim,
            )),
{
    let mut out: Vec<VectorEncoder> = Vec::new();
    let extra = store.pp("extra_encoders");
    let mut i: usize = 0;
    while i < cfg.encodings.len()
        invariant
            i <= cfg.encodings@.len(),
            store_source(extra) == store_source(*store),
            store_path(extra) == store_path(*store).push("extra_encoders"@),
            out@.len() == vector_encodings(cfg.encodings@.take(i as int)).len(),
            forall|k: int|
                0 <= k < out@.len() ==> (#[trigger] out@[k]).well_formed() && out@[k].cfg.same(
                    vector_encodings(cfg.encodings@.take(i as int))[k],
                ) && out@[k].loaded(
                    store_source(*store),
                    store_path(*store).push("extra_encoders"@).push(out@[k].cfg.name@),
                ),
            forall|e: ElementType, k: int|
                #![trigger held_as(store_source(*store), e), out@[k]]
                held_as(store_source(*store), e) && 0 <= k < out@.len() ==> out@[k].home(e),
            from_file(store_source(*store)) ==> forall|j: int|
                0 <= j < i ==> vectors_stored(
                    store_source(*store),
                    store_path(*store),
                    #[trigger] cfg.encodings@[j],
                    cfg.enc_dim,
                ),
        decreases cfg.encodings@.len() - i,
    {
        let encoding = cfg.encodings[i].copy();
        proof {
            assert(cfg.encodings@.take(i + 1).drop_last() =~= cfg.encodings@.take(i as int));
            assert(cfg.encodings@.take(i + 1).last() == cfg.encodings@[i as int]);
        }
        if !same_text(encoding.name.as_str(), "pixels") {
            let place = extra.pp(encoding.name.as_str());
            let encoder = VectorEncoder::new(encoding, cfg.enc_dim, &place)?;
            out.push(encoder);
        }
        i = i + 1;
    }
    proof {
        assert(cfg.encodings@.take(i as int) =~= cfg.encodings@);
    }
    Ok(out)
}

fn load_value_heads(cfg: &TdMpc2Config, joint: usize, store: &ParameterStore) -> (r: Result<
    Vec<TdMpc2Mlp>,
>)
    ensures
        r matches Ok(v) ==> v@.len() == cfg.num_q && forall|k: int|
            0 <= k < v@.len() ==> (#[trigger] v@[k]).sized(joint, cfg.mlp_dim, cfg.num_bins)
                && v@[k].out is Plain && v@[k].loaded(
                store_source(*store),
                store_path(*store).push("qs"@).push(decimal(k as nat)),
            ),
        r matches Err(SwmError::Message(m)) ==> cfg.mlp_dim == 0 && m@
            == "normalised width must be greater than zero"@,
        r matches Ok(v) ==> forall|e: ElementType, k: int|
            #![trigger held_as(store_source(*store), e), v@[k]]
            held_as(store_source(*store), e) && 0 <= k < v@.len() ==> v@[k].home(e),
        from_file(store_source(*store)) ==> (r is Ok <==> forall|k: nat|
            k < cfg.num_q ==> head_stored(
                store_source(*store),
                store_path(*store),
                joint,
                *cfg,
                #[trigger] decimal(k),
            )),
{
    let mut out: Vec<TdMpc2Mlp> = Vec::new();
    let heads = store.pp("qs");
    let mut i: usize = 0;
    while i < cfg.num_q
        invariant
            i <= cfg.num_q,
            store_source(heads) == store_source(*store),
            store_path(heads) == store_path(*store).push("qs"@),
            out@.len() == i,
            forall|k: int|
                0 <= k < out@.len() ==> (#[trigger] out@[k]).sized(joint, cfg.mlp_dim, cfg.num_bins)
                    && out@[k].out is Plain && out@[k].loaded(
                    store_source(*store),
                    store_path(*store).push("qs"@).push(decimal(k as nat)),
                ),
            forall|e: ElementType, k: int|
                #![trigger held_as(store_source(*store), e), out@[k]]
                held_as(store_source(*store), e) && 0 <= k < out@.len() ==> out@[k].home(e),
            from_file(store_source(*store)) ==> forall|k: nat|
                k < i ==> head_stored(
                    store_source(*store),
                    store_path(*store),
                    joint,
                    *cfg,
                    #[trigger] decimal(k),
                ),
        decreases cfg.num_q - i,
    {
        let head = TdMpc2Mlp::linear_output(
            joint,
            cfg.mlp_dim,
            cfg.num_bins,
            &heads.at_index(i),
        )?;
        out.push(head);
        i = i + 1;
    }
    Ok(out)
}

} // verus!
