//! What the C interface decides: statuses, checks of the arguments, the handles
//! and what goes out.

pub mod inputs;
pub mod lewm;
pub mod media;
pub mod options;
pub mod outputs;
pub mod planning;
pub mod settings;
pub mod status;
pub mod tdmpc2;

pub use inputs::SwmPixelLayout;
pub use lewm::SwmLeWm;
pub use media::{SwmCudaImage, SwmCudaNv12, SwmNvDecCaps};
pub use outputs::{OutputsWanted, PlanOutputs};
pub use settings::{SwmCemPlanConfig, SwmIcemPlanConfig, SwmMppiPlanConfig};
pub use status::{FfiError, FfiResult, SwmStatus};
pub use tdmpc2::SwmTdMpc2;
