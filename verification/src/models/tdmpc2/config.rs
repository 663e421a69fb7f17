//! Settings of the TD-MPC2 model.

use vstd::prelude::*;

use crate::scalar::F64;

verus! {

/// The bits of -6.0.
pub const MINUS_SIX: u64 = 0xc018_0000_0000_0000;

/// The bits of 2.0.
pub const TWO: u64 = 0x4000_0000_0000_0000;

/// The bits of 0.99.
pub const DISCOUNT: u64 = 0x3fef_ae14_7ae1_47ae;

/// The bits of 0.5.
pub const HALF: u64 = 0x3fe0_0000_0000_0000;

/// One kind of observation and the width that it is encoded to.
#[derive(Debug, Clone, PartialEq, Eq)]
pub struct EncodingConfig {
    pub name: String,
    pub input_dim: usize,
    pub output_dim: usize,
}

impl EncodingConfig {
    pub fn new(name: &str, input_dim: usize, output_dim: usize) -> (r: Self)
        ensures
            r.name@ == name@,
            r.input_dim == input_dim,
            r.output_dim == output_dim,
    {
        Self { name: String::from_str(name), input_dim, output_dim }
    }

    /// The same encoding, name by name.
    pub fn copy(&self) -> (r: Self)
        ensures
            r.same(*self),
    {
        Self {
            name: self.name.clone(),
            input_dim: self.input_dim,
            output_dim: self.output_dim,
        }
    }

    pub open spec fn same(self, other: Self) -> bool {
        self.name@ == other.name@ && self.input_dim == other.input_dim && self.output_dim
            == other.output_dim
    }
}

#[derive(Debug, Clone)]
pub struct TdMpc2Config {
    pub action_dim: usize,
    pub image_size: Option<usize>,
    pub enc_dim: usize,
    pub mlp_dim: usize,
    pub simnorm_dim: usize,
    pub num_q: usize,
    pub num_bins: usize,
    pub vmin: F64,
    pub vmax: F64,
    pub discount: F64,
    pub uncertainty_penalty: F64,
    pub encodings: Vec<EncodingConfig>,
}

/// The widths of encodings added up.
pub open spec fn total_width(encodings: Seq<EncodingConfig>) -> nat
    decreases encodings.len(),
{
    if encodings.len() == 0 {
        0
    } else {
        total_width(encodings.drop_last()) + encodings.last().output_dim as nat
    }
}

/// The part of the settings that both presets share.
pub open spec fn standard(c: TdMpc2Config) -> bool {
    &&& c.enc_dim == 256
    &&& c.mlp_dim == 384
    &&& c.simnorm_dim == 8
    &&& c.num_q == 5
    &&& c.num_bins == 101
    &&& c.vmin.bits == MINUS_SIX
    &&& c.vmax.bits == TWO
    &&& c.discount.bits == DISCOUNT
    &&& c.uncertainty_penalty.bits == HALF
}

impl TdMpc2Config {
    /// The settings for a model that sees a state vector of this size.
    pub open spec fn sees_state(self, state_dim: usize, action_dim: usize) -> bool {
        &&& standard(self)
        &&& self.action_dim == action_dim
        &&& self.image_size is None
        &&& self.encodings@.len() == 1
        &&& self.encodings@[0].name@ == "state"@
        &&& self.encodings@[0].input_dim == state_dim
        &&& self.encodings@[0].output_dim == 128
    }

    /// Settings for a model that sees a state vector.
    pub fn state_only(state_dim: usize, action_dim: usize) -> (r: Self)
        ensures
            r.sees_state(state_dim, action_dim),
    {
        Self {
            action_dim,
            image_size: None,
            enc_dim: 256,
            mlp_dim: 384,
            simnorm_dim: 8,
            num_q: 5,
            num_bins: 101,
            vmin: F64::from_bits(MINUS_SIX),
            vmax: F64::from_bits(TWO),
            discount: F64::from_bits(DISCOUNT),
            uncertainty_penalty: F64::from_bits(HALF),
            encodings: vec![EncodingConfig::new("state", state_dim, 128)],
        }
    }

    /// The settings for a model whose first observation is square images of this
    /// size.
    pub open spec fn sees_pixels(
        self,
        image_size: usize,
        action_dim: usize,
        pixel_dim: usize,
    ) -> bool {
        &&& standard(self)
        &&& self.action_dim == action_dim
        &&& self.image_size == Some(image_size)
        &&& self.encodings@.len() > 0
        &&& self.encodings@[0].name@ == "pixels"@
        &&& self.encodings@[0].input_dim == image_size
        &&& self.encodings@[0].output_dim == pixel_dim
    }

    /// Settings for a model that sees square images.
    pub fn pixel_only(image_size: usize, action_dim: usize, pixel_dim: usize) -> (r: Self)
        ensures
            r.sees_pixels(image_size, action_dim, pixel_dim),
            r.encodings@.len() == 1,
    {
        Self {
            action_dim,
            image_size: Some(image_size),
            enc_dim: 256,
            mlp_dim: 384,
            simnorm_dim: 8,
            num_q: 5,
            num_bins: 101,
            vmin: F64::from_bits(MINUS_SIX),
            vmax: F64::from_bits(TWO),
            discount: F64::from_bits(DISCOUNT),
            uncertainty_penalty: F64::from_bits(HALF),
            encodings: vec![EncodingConfig::new("pixels", image_size, pixel_dim)],
        }
    }

    /// The width of the latent state: that of all encodings together, if a
    /// machine integer can hold it.
    pub fn checked_latent_dim(&self) -> (r: Option<usize>)
        ensures
            r matches Some(n) ==> n == total_width(self.encodings@),
            r is None <==> total_width(self.encodings@) > usize::MAX,
    {
        let mut total: usize = 0;
        let mut i: usize = 0;
        proof {
            assert(self.encodings@.take(0) =~= Seq::<EncodingConfig>::empty());
        }
        while i < self.encodings.len()
            invariant
                i <= self.encodings@.len(),
                total == total_width(self.encodings@.take(i as int)),
            decreases self.encodings@.len() - i,
        {
            proof {
                assert(self.encodings@.take(i + 1).drop_last() =~= self.encodings@.take(i as int));
                lemma_prefix_width(self.encodings@, i + 1);
            }
            match total.checked_add(self.encodings[i].output_dim) {
                Some(next) => {
                    total = next;
                },
                None => {
                    return None;
                },
            }
            i = i + 1;
        }
        proof {
            assert(self.encodings@.take(i as int) =~= self.encodings@);
        }
        Some(total)
    }

    /// The width of the latent state.
    pub fn latent_dim(&self) -> (r: usize)
        requires
            total_width(self.encodings@) <= usize::MAX,
        ensures
            r == total_width(self.encodings@),
    {
        match self.checked_latent_dim() {
            Some(n) => n,
            None => 0,
        }
    }
}

/// Some of the encodings are no wider than all of them.
pub proof fn lemma_prefix_width(encodings: Seq<EncodingConfig>, n: int)
    requires
        0 <= n <= encodings.len(),
    ensures
        total_width(encodings.take(n)) <= total_width(encodings),
    decreases encodings.len(),
{
    if n < encodings.len() {
        lemma_prefix_width(encodings.drop_last(), n);
        assert(encodings.drop_last().take(n) =~= encodings.take(n));
    } else {
        assert(encodings.take(n) =~= encodings);
    }
}

} // verus!
