use stable_worldmodel::artifact::{
    choose_weights, require_file, ActionSpec, DeploymentArtifact, ObservationKind,
    ObservationSpec, PreprocessConfig, RuntimeSchema,
};
use stable_worldmodel::checkpoint::{checkpoint_format, CheckpointFormat};
use stable_worldmodel::config::{ModelConfig, ModelKind};
use stable_worldmodel::hub::{check_repo_id, StableWorldModelFiles};
use stable_worldmodel::models::lewm::config::{
    StableActionEmbedderConfig, StableLeWmConfig, StableMlpConfig, StablePredictorConfig,
    StableTarget, StableVitEncoderConfig,
};
use stable_worldmodel::models::lewm::{LeWmConfig, NormKind};
use stable_worldmodel::scalar::F32;

fn nums(xs: &[f32]) -> Vec<F32> {
    xs.iter().map(|x| F32::from_bits(x.to_bits())).collect()
}

#[test]
fn tiny_patch14_defaults_match_python_config() {
    let cfg = LeWmConfig::tiny_patch14_224(2);

    assert_eq!(cfg.encoder.image_size, 224);
    assert_eq!(cfg.encoder.patch_size, 14);
    assert_eq!(cfg.encoder.hidden_size, 192);
    assert_eq!(cfg.encoder.num_hidden_layers, 12);
    assert_eq!(cfg.encoder.num_attention_heads, 3);

    assert_eq!(cfg.predictor.num_frames, 3);
    assert_eq!(cfg.predictor.depth, 6);
    assert_eq!(cfg.predictor.heads, 16);
    assert_eq!(cfg.predictor.dim_head, 64);
    assert_eq!(cfg.predictor.mlp_dim, 2048);

    assert_eq!(cfg.action_encoder.input_dim, 2);
    assert_eq!(cfg.projector.norm, NormKind::BatchNorm1d);
    assert_eq!(cfg.pred_proj.norm, NormKind::BatchNorm1d);
}

fn schema(min: &[f32]) -> RuntimeSchema {
    RuntimeSchema {
        observations: vec![ObservationSpec {
            name: "state".to_string(),
            kind: ObservationKind::State,
            shape: vec![12],
            dtype: None,
        }],
        action: ActionSpec {
            dim: 4,
            min: Some(nums(min)),
            max: Some(nums(&[1.0, 1.0, 1.0, 1.0])),
        },
    }
}

fn artifact(weights: &str, schema: RuntimeSchema) -> stable_worldmodel::error::Result<DeploymentArtifact> {
    let preprocess = PreprocessConfig {
        action_min: Some(nums(&[-1.0, -1.0, -1.0, -1.0])),
        action_max: Some(nums(&[1.0, 1.0, 1.0, 1.0])),
        ..PreprocessConfig::default()
    };
    DeploymentArtifact::assemble(
        "artifact".to_string(),
        ModelConfig::tdmpc2_state_only(12, 4),
        weights.to_string(),
        preprocess,
        schema,
    )
}

#[test]
fn loads_deployment_artifact_with_safetensors() {
    let weights = choose_weights("artifact", true, false).unwrap();
    let artifact = artifact(weights, schema(&[-1.0, -1.0, -1.0, -1.0])).unwrap();

    assert_eq!(artifact.config.kind(), ModelKind::TdMpc2);
    assert_eq!(artifact.weights, "model.safetensors");
    assert_eq!(artifact.schema.observations[0].name, "state");
    assert_eq!(artifact.schema.action.dim, 4);
}

#[test]
fn falls_back_to_pt_weights() {
    let weights = choose_weights("artifact", false, true).unwrap();
    let artifact = artifact(weights, schema(&[-1.0, -1.0, -1.0, -1.0])).unwrap();

    assert_eq!(artifact.weights, "weights.pt");
    assert!(choose_weights("artifact", false, false).is_err());
}

#[test]
fn rejects_missing_schema() {
    let err = require_file("artifact/schema.json", false).unwrap_err();

    assert!(err.message().contains("schema.json"));
    assert!(require_file("artifact/schema.json", true).is_ok());
}

#[test]
fn rejects_invalid_action_bounds() {
    let err = artifact("model.safetensors", schema(&[-1.0])).unwrap_err();

    assert!(err.message().contains("action min length"));
}

#[test]
fn schemas_are_held_to_their_rules() {
    let good = schema(&[-1.0, -1.0, -1.0, -1.0]);
    assert!(good.validate().is_ok());
    let mut none = schema(&[-1.0, -1.0, -1.0, -1.0]);
    none.observations.clear();
    assert!(none.validate().is_err());
    let mut still = schema(&[-1.0, -1.0, -1.0, -1.0]);
    still.action.dim = 0;
    assert!(still.validate().is_err());
    let mut nameless = schema(&[-1.0, -1.0, -1.0, -1.0]);
    nameless.observations[0].name = String::new();
    assert!(nameless.validate().is_err());
    let mut flat = schema(&[-1.0, -1.0, -1.0, -1.0]);
    flat.observations[0].shape = vec![];
    assert!(flat.validate().is_err());
}

#[test]
fn checkpoints_are_told_apart_by_extension() {
    assert_eq!(checkpoint_format(Some("safetensors")), CheckpointFormat::Safetensors);
    assert_eq!(checkpoint_format(Some("pt")), CheckpointFormat::Pickle);
    assert_eq!(checkpoint_format(None), CheckpointFormat::Pickle);
}

#[test]
fn repositories_need_a_name() {
    assert!(check_repo_id("owner/model").is_ok());
    assert!(check_repo_id("").is_err());
    let files = StableWorldModelFiles::names();
    assert_eq!(files.config, "config.json");
    assert_eq!(files.weights, "weights.pt");
}

fn stable(size: &str, norm: Option<&str>) -> StableLeWmConfig {
    let mlp = |norm: Option<&str>| StableMlpConfig {
        input_dim: 192,
        hidden_dim: 2048,
        output_dim: None,
        norm_fn: norm.map(|target| StableTarget { target: target.to_string() }),
    };
    StableLeWmConfig {
        encoder: StableVitEncoderConfig { size: size.to_string(), patch_size: 14, image_size: 224 },
        predictor: StablePredictorConfig {
            num_frames: 3,
            input_dim: 192,
            hidden_dim: 192,
            output_dim: None,
            depth: 6,
            heads: 16,
            mlp_dim: 2048,
            dim_head: 64,
        },
        action_encoder: StableActionEmbedderConfig {
            input_dim: 2,
            smoothed_dim: None,
            emb_dim: 192,
            mlp_scale: None,
        },
        projector: mlp(norm),
        pred_proj: mlp(norm),
    }
}

#[test]
fn stable_configurations_fill_in_defaults() {
    let cfg = LeWmConfig::from_stable(stable("tiny", Some("torch.nn.BatchNorm1d"))).unwrap();
    let tiny = LeWmConfig::tiny_patch14_224(2);
    assert_eq!(cfg.encoder.hidden_size, tiny.encoder.hidden_size);
    assert_eq!(cfg.predictor.output_dim, 192);
    assert_eq!(cfg.action_encoder.smoothed_dim, 2);
    assert_eq!(cfg.action_encoder.mlp_scale, tiny.action_encoder.mlp_scale);
    assert_eq!(cfg.projector.output_dim, 192);
    assert_eq!(cfg.projector.norm, NormKind::BatchNorm1d);
    assert_eq!(cfg.history_size, 3);
    assert!(LeWmConfig::from_stable(stable("huge", None)).is_err());
    assert!(LeWmConfig::from_stable(stable("tiny", Some("torch.nn.GroupNorm"))).is_err());
}
