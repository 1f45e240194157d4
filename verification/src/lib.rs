//! Reads scene documents written in an external editor's aliased YAML
//! dialect, rebuilds them as a runtime object graph, and keeps that graph
//! synchronized with the editor over a framed text protocol.
//!
//! The layers, leaves first: the dialect normalizer ([`yaml`]), the
//! tokenizer and tagged-record decoder ([`record`], [`fields`],
//! [`objects`], [`scene`]), the scene-graph assembler and prefab
//! instantiator ([`assemble`], [`prefabs`]), and the live sync channel
//! with its change tracker ([`sync`]).

pub mod assemble;
pub mod camera;
pub mod chars;
pub mod color;
pub mod fields;
pub mod gameobject;
pub mod light;
pub mod materials;
pub mod math;
pub mod mesh;
pub mod objects;
pub mod physics;
pub mod prefabs;
pub mod record;
pub mod reference;
pub mod render;
pub mod scalar;
pub mod scene;
pub mod settings;
pub mod sync;
pub mod transform;
pub mod yaml;

pub use assemble::{assemble_scene, expand_prefab, PlannedEntity, PrefabNode, SpawnPlan};
pub use camera::UnityCamera;
pub use color::UnityColor;
pub use gameobject::{default_active, UnityComponent, UnityGameObject};
pub use light::{Shadows, UnityLight};
pub use materials::{SavedProperties, TextureInfo, UnityMaterial, UnityStandardMaterial};
pub use math::{UnityQuaternion, UnityVector2, UnityVector3};
pub use mesh::{UnityMeshFilter, UnityMeshRenderer};
pub use objects::UnitySceneObject;
pub use physics::{
    UnityBoxCollider, UnityCapsuleCollider, UnityMeshCollider, UnityRigidbody,
    UnitySphereCollider,
};
pub use prefabs::{
    ModificationProperty, PrefabModification, PropertyOption, UnityPrefabInstance,
};
pub use record::RawField;
pub use reference::FileReference;
pub use render::UnityRenderSettings;
pub use scene::{
    get_transform, parse_scene, parse_unity_yaml, DecodeError, UnityScene,
};
pub use settings::{parse_project_settings, PlayerSettings, ProjectSettings};
pub use sync::{
    handle_editor_line, parse_editor_line, ChangeObject, InboundAction, UnityChangeMap,
};
pub use transform::UnityTransform;
pub use yaml::cleanup_unity_yaml;
