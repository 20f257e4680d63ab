//! Soft bodies, the scene that holds them, and the frame-by-frame driver.
pub mod base;
pub mod scene_model;
pub mod sim_mesh;

pub use base::{
    GlobalParams, IntegrationParams, SimulatedScene, SimulatedSceneGenerator, StepParams,
};
pub use scene_model::{SceneModel, SceneModelParams, SceneModelState};
pub use sim_mesh::{MeshParams, SimMesh};
