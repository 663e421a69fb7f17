//! A deployed model: its settings, its parameters and the schema of what goes in
//! and comes out.

use vstd::prelude::*;

use crate::config::ModelConfig;
use crate::error::{message, Result, SwmError};
use crate::reading::{trim, trimmed};
use crate::scalar::F32;
use crate::text::{decimal, with_numbers};

verus! {

/// A deployed model.
#[derive(Debug, Clone)]
pub struct DeploymentArtifact {
    pub root: String,
    pub config: ModelConfig,
    pub weights: String,
    pub preprocess: PreprocessConfig,
    pub schema: RuntimeSchema,
}

/// What is said where a file is missing.
pub open spec fn missing_file(path: Seq<char>) -> Seq<char> {
    "deployment artifact is missing required file "@ + path
}

/// Whether a file that a deployed model needs is there.
pub fn require_file(path: &str, present: bool) -> (r: Result<()>)
    ensures
        r is Ok <==> present,
        r matches Err(e) ==> e.says(missing_file(path@)),
{
    if present {
        return Ok(());
    }
    let mut text = String::from_str("deployment artifact is missing required file ");
    text.append(path);
    Err(SwmError::Message(text))
}

/// The name of the file that holds the parameters: safetensors come first.
pub fn choose_weights(root: &str, safetensors: bool, pt: bool) -> (r: Result<&'static str>)
    ensures
        r is Ok <==> safetensors || pt,
        safetensors ==> r is Ok && r->Ok_0@ == "model.safetensors"@,
        !safetensors && pt ==> r is Ok && r->Ok_0@ == "weights.pt"@,
        r matches Err(e) ==> e.says(
            "deployment artifact must contain model.safetensors or weights.pt in "@ + root@,
        ),
{
    if safetensors {
        return Ok("model.safetensors");
    }
    if pt {
        return Ok("weights.pt");
    }
    let mut text = String::from_str(
        "deployment artifact must contain model.safetensors or weights.pt in ",
    );
    text.append(root);
    Err(SwmError::Message(text))
}

impl DeploymentArtifact {
    /// Puts a deployed model together. Its schema must be valid.
    pub fn assemble(
        root: String,
        config: ModelConfig,
        weights: String,
        preprocess: PreprocessConfig,
        schema: RuntimeSchema,
    ) -> (r: Result<Self>)
        ensures
            schema.complaint() matches Some(text) ==> r is Err && r->Err_0.says(text),
            schema.complaint() is None ==> r is Ok,
            r matches Ok(a) ==> a == (DeploymentArtifact {
                root,
                config,
                weights,
                preprocess,
                schema,
            }),
    {
        schema.validate()?;
        Ok(Self { root, config, weights, preprocess, schema })
    }
}

/// How raw inputs are prepared.
#[derive(Debug, Clone)]
pub struct PreprocessConfig {
    pub image_size: Option<usize>,
    pub image_mean: Option<[F32; 3]>,
    pub image_std: Option<[F32; 3]>,
    pub action_min: Option<Vec<F32>>,
    pub action_max: Option<Vec<F32>>,
}

impl Default for PreprocessConfig {
    /// Nothing is prepared.
    fn default() -> (r: Self)
        ensures
            r.image_size is None,
            r.image_mean is None,
            r.image_std is None,
            r.action_min is None,
            r.action_max is None,
    {
        Self { image_size: None, image_mean: None, image_std: None, action_min: None, action_max: None }
    }
}

/// What goes in and what comes out.
#[derive(Debug, Clone)]
pub struct RuntimeSchema {
    pub observations: Vec<ObservationSpec>,
    pub action: ActionSpec,
}

/// The first thing wrong with observations from position `k` on.
pub open spec fn observations_complaint(specs: Seq<ObservationSpec>, k: int) -> Option<Seq<char>>
    decreases specs.len() - k,
{
    if k < 0 || k >= specs.len() {
        None
    } else if specs[k].complaint() is Some {
        specs[k].complaint()
    } else {
        observations_complaint(specs, k + 1)
    }
}

impl RuntimeSchema {
    /// The first thing wrong with a schema.
    pub open spec fn complaint(self) -> Option<Seq<char>> {
        if self.observations@.len() == 0 {
            Some("schema must define at least one observation"@)
        } else if observations_complaint(self.observations@, 0) is Some {
            observations_complaint(self.observations@, 0)
        } else {
            self.action.complaint()
        }
    }

    /// Whether a schema is valid.
    pub fn validate(&self) -> (r: Result<()>)
        ensures
            r is Ok <==> self.complaint() is None,
            r matches Err(e) ==> e.says(self.complaint()->0),
    {
        if self.observations.len() == 0 {
            return Err(message("schema must define at least one observation"));
        }
        let mut k: usize = 0;
        while k < self.observations.len()
            invariant
                k <= self.observations@.len(),
                self.observations@.len() > 0,
                observations_complaint(self.observations@, 0) == observations_complaint(
                    self.observations@,
                    k as int,
                ),
            decreases self.observations@.len() - k,
        {
            self.observations[k].validate()?;
            k = k + 1;
        }
        self.action.validate()
    }
}

/// One observation.
#[derive(Debug, Clone)]
pub struct ObservationSpec {
    pub name: String,
    pub kind: ObservationKind,
    pub shape: Vec<usize>,
    pub dtype: Option<String>,
}

impl ObservationSpec {
    /// The first thing wrong with an observation.
    pub open spec fn complaint(self) -> Option<Seq<char>> {
        if trimmed(self.name@).len() == 0 {
            Some("observation name cannot be empty"@)
        } else if self.shape@.len() == 0 {
            Some("observation '"@ + self.name@ + "' shape cannot be empty"@)
        } else if self.shape@.contains(0) {
            Some("observation '"@ + self.name@ + "' shape cannot contain zero"@)
        } else {
            None
        }
    }

    fn about(&self, what: &str) -> (r: SwmError)
        ensures
            r.says("observation '"@ + self.name@ + what@),
    {
        let mut text = String::from_str("observation '");
        text.append(self.name.as_str());
        text.append(what);
        SwmError::Message(text)
    }

    /// Whether an observation is valid.
    pub fn validate(&self) -> (r: Result<()>)
        ensures
            r is Ok <==> self.complaint() is None,
            r matches Err(e) ==> e.says(self.complaint()->0),
    {
        let name = trim(self.name.as_str());
        if name.as_str().unicode_len() == 0 {
            return Err(message("observation name cannot be empty"));
        }
        if self.shape.len() == 0 {
            return Err(self.about("' shape cannot be empty"));
        }
        let mut k: usize = 0;
        while k < self.shape.len()
            invariant
                k <= self.shape@.len(),
                self.shape@.len() > 0,
                trimmed(self.name@).len() > 0,
                forall|j: int| 0 <= j < k ==> self.shape@[j] != 0,
            decreases self.shape@.len() - k,
        {
            if self.shape[k] == 0 {
                proof {
                    assert(self.shape@[k as int] == 0);
                }
                return Err(self.about("' shape cannot contain zero"));
            }
            k = k + 1;
        }
        Ok(())
    }
}

/// What an observation is.
#[derive(Debug, Clone, Copy, PartialEq, Eq, Structural)]
pub enum ObservationKind {
    State,
    Image,
    Video,
}

/// The action that comes out.
#[derive(Debug, Clone)]
pub struct ActionSpec {
    pub dim: usize,
    pub min: Option<Vec<F32>>,
    pub max: Option<Vec<F32>>,
}

/// What is said of bounds of the wrong length.
pub open spec fn bound_complaint(name: Seq<char>, len: nat, dim: nat) -> Seq<char> {
    name + decimal(len) + " does not match dim "@ + decimal(dim)
}

impl ActionSpec {
    /// The first thing wrong with an action.
    pub open spec fn complaint(self) -> Option<Seq<char>> {
        if self.dim == 0 {
            Some("action dim must be greater than zero"@)
        } else if self.min is Some && self.min->0@.len() != self.dim {
            Some(bound_complaint("action min length "@, self.min->0@.len(), self.dim as nat))
        } else if self.max is Some && self.max->0@.len() != self.dim {
            Some(bound_complaint("action max length "@, self.max->0@.len(), self.dim as nat))
        } else {
            None
        }
    }

    /// Whether an action is valid.
    pub fn validate(&self) -> (r: Result<()>)
        ensures
            r is Ok <==> self.complaint() is None,
            r matches Err(e) ==> e.says(self.complaint()->0),
    {
        if self.dim == 0 {
            return Err(message("action dim must be greater than zero"));
        }
        if let Some(min) = &self.min {
            if min.len() != self.dim {
                return Err(bound_error("action min length ", min.len(), self.dim));
            }
        }
        if let Some(max) = &self.max {
            if max.len() != self.dim {
                return Err(bound_error("action max length ", max.len(), self.dim));
            }
        }
        Ok(())
    }
}

fn bound_error(name: &str, len: usize, dim: usize) -> (r: SwmError)
    ensures
        r.says(bound_complaint(name@, len as nat, dim as nat)),
{
    let text = with_numbers(name, len, " does not match dim ", dim, "");
    proof {
        reveal_strlit("");
        assert(text@ =~= bound_complaint(name@, len as nat, dim as nat));
    }
    SwmError::Message(text)
}

} // verus!
