//! The assembler, the prefab instantiator and the derived-id scheme.

use bevity::scene::parse_scene;
use bevity::{
    assemble_scene, expand_prefab, FileReference, SavedProperties, TextureInfo, UnityColor,
    UnityMaterial, UnitySceneObject, UnityVector2,
};

const SCENE_DOC: &str = "--- !u!1 &100\nGameObject:\n  m_Component:\n  - component: {fileID: 400}\n  m_Name: root\n  m_IsActive: 1\n--- !u!4 &400\nTransform:\n  m_LocalPosition: {x: 0, y: 0, z: 0}\n  m_Children:\n  - {fileID: 401}\n--- !u!1 &101\nGameObject:\n  m_Component:\n  - component: {fileID: 401}\n  m_Name: child\n--- !u!4 &401\nTransform:\n  m_LocalPosition: {x: 1, y: 0, z: 0}\n--- !u!1 &102\nGameObject:\n  m_Name: orphan\n";

const PREFAB_DOC: &str = "--- !u!1 &7000\nGameObject:\n  m_Component:\n  - component: {fileID: 7400}\n  m_Name: crate\n--- !u!4 &7400\nTransform:\n  m_LocalPosition: {x: 0, y: 0, z: 0}\n";

const INSTANCE_DOC: &str = "--- !u!1001 &1234\nPrefabInstance:\n  m_Modification:\n    m_TransformParent: {fileID: 0}\n    m_Modifications:\n    - target: {fileID: 400000, guid: abcdef12, type: 3}\n      propertyPath: m_LocalPosition.x\n      value: 50\n      objectReference: {fileID: 0}\n    - target: {fileID: 100000, guid: abcdef12, type: 3}\n      propertyPath: m_Name\n      value: Crate\n      objectReference: {fileID: 0}\n  m_SourcePrefab: {fileID: 100100000, guid: abcdef12, type: 3}\n";

const MASK: i64 = 0x7fff_ffff_ffff_ffff;

#[test]
fn gameobject_without_transform_yields_diagnostic_not_entity() {
    let scene = parse_scene("sceneguid", SCENE_DOC).unwrap();
    let plan = assemble_scene(&scene, &Vec::new(), &Vec::new());
    assert_eq!(plan.entities.len(), 2);
    assert_eq!(plan.diagnostics.len(), 1);
    assert_eq!(plan.diagnostics[0], "game object without a transform: orphan");
    assert!(plan.entities.iter().all(|e| e.object_id != 102));
}

#[test]
fn assembly_registers_maps_and_children() {
    let scene = parse_scene("sceneguid", SCENE_DOC).unwrap();
    let plan = assemble_scene(&scene, &Vec::new(), &Vec::new());
    assert_eq!(plan.entities[0].object_id, 100);
    assert_eq!(plan.entities[0].origin_id, 400);
    assert_eq!(plan.entities[0].name, "root");
    assert!(plan.entities[0].active);
    assert_eq!(plan.entities[0].components, vec![400]);
    assert_eq!(plan.entities[1].object_id, 101);
    assert_eq!(plan.object_map[0], (100, 0));
    assert_eq!(plan.transform_map[1], (401, 1));
    assert_eq!(plan.guid_map[0].0, "GlobalObjectId_V1-2-sceneguid-100-0");
    // the root's declared child transform 401 resolves to entity 1
    assert_eq!(plan.attachments[0].0, 0);
    assert_eq!(plan.attachments[0].1, vec![1]);
    // the child declares no children
    assert_eq!(plan.attachments[1].1.len(), 0);
}

#[test]
fn prefab_instance_derives_ids_and_transform() {
    let scene = parse_scene("sceneguid", INSTANCE_DOC).unwrap();
    let inst = match scene.get(1234) {
        Some(UnitySceneObject::PrefabInstance(p)) => p,
        _ => panic!("expected a prefab instance"),
    };
    assert_eq!(inst.source.guid.as_deref(), Some("abcdef12"));
    assert_eq!(inst.get_local_id(1234), (1234i64 ^ 100000) & MASK);
    assert_eq!(inst.get_transform_id(1234), (1234i64 ^ 400000) & MASK);
    let t = inst.get_transform_for_prefab();
    assert_eq!(t.position.x, "50");
    assert_eq!(t.position.y, "0");
    assert_eq!(t.scale.x, "1");
    let (lid, name) = inst.get_local_id_and_name(1234);
    assert_eq!(lid, (1234i64 ^ 100000) & MASK);
    assert_eq!(name, "Crate");
}

#[test]
fn two_instances_of_one_prefab_never_collide() {
    let doc = format!(
        "{}--- !u!1001 &5678\nPrefabInstance:\n  m_Modification:\n    m_TransformParent: {{fileID: 0}}\n    m_Modifications:\n    - target: {{fileID: 400000, guid: abcdef12, type: 3}}\n      propertyPath: m_LocalPosition.x\n      value: 9\n      objectReference: {{fileID: 0}}\n    - target: {{fileID: 100000, guid: abcdef12, type: 3}}\n      propertyPath: m_Name\n      value: Crate\n      objectReference: {{fileID: 0}}\n  m_SourcePrefab: {{fileID: 100100000, guid: abcdef12, type: 3}}\n",
        INSTANCE_DOC
    );
    let scene = parse_scene("sceneguid", &doc).unwrap();
    let prefab = parse_scene("abcdef12", PREFAB_DOC).unwrap();
    let prefabs = vec![("abcdef12".to_string(), prefab)];
    let paths = vec![("abcdef12".to_string(), "Assets/Crate.prefab".to_string())];
    let plan = assemble_scene(&scene, &prefabs, &paths);
    assert_eq!(plan.entities.len(), 2);
    let a = &plan.entities[0];
    let b = &plan.entities[1];
    // entity ids, transform ids and every re-keyed nested id are disjoint
    assert_ne!(a.object_id, b.object_id);
    assert_ne!(a.origin_id, b.origin_id);
    let ac = &a.expansion.as_ref().unwrap().components;
    let bc = &b.expansion.as_ref().unwrap().components;
    assert_eq!(ac, &vec![(1234i64 ^ 7400) & MASK]);
    assert_eq!(bc, &vec![(5678i64 ^ 7400) & MASK]);
    for x in ac {
        for y in bc {
            assert_ne!(x, y);
        }
    }
}

#[test]
fn interchange_asset_is_deferred_to_the_host() {
    let paths = vec![("treeguid".to_string(), "Models/tree.glb".to_string())];
    let node = expand_prefab(1, "treeguid", &Vec::new(), &paths, 64);
    assert_eq!(node.pending_asset.as_deref(), Some("Models/tree.glb"));
    assert_eq!(node.components.len(), 0);
    assert_eq!(node.nested.len(), 0);
}

#[test]
fn unknown_prefab_guid_expands_to_nothing() {
    let node = expand_prefab(1, "missing", &Vec::new(), &Vec::new(), 64);
    assert!(node.pending_asset.is_none());
    assert_eq!(node.components.len(), 0);
    assert_eq!(node.nested.len(), 0);
}

#[test]
fn property_option_get_number() {
    let scene = parse_scene("sceneguid", INSTANCE_DOC).unwrap();
    let inst = match scene.get(1234) {
        Some(UnitySceneObject::PrefabInstance(p)) => p,
        _ => panic!("expected a prefab instance"),
    };
    let mods = &inst.modification.modifications;
    assert_eq!(mods[0].path, "m_LocalPosition.x");
    assert_eq!(mods[0].value.get_number().as_deref(), Some("50"));
    assert_eq!(mods[1].value.get_number(), None);
    assert_eq!(mods[0].target.file_id, 400000);
}

#[test]
fn material_getters_read_channels_by_key() {
    let mat = UnityMaterial {
        name: "sky".to_string(),
        shader: FileReference { file_id: 46, guid: None },
        properties: SavedProperties {
            serialized_version: 6,
            tex_envs: vec![(
                "_Tex".to_string(),
                TextureInfo {
                    texture: FileReference { file_id: 2800000, guid: Some("texguid".to_string()) },
                    scale: UnityVector2 { x: "1".to_string(), y: "1".to_string() },
                    offset: UnityVector2 { x: "0".to_string(), y: "0".to_string() },
                },
            )],
            floats: vec![("_Metallic".to_string(), "0.25".to_string())],
            colors: vec![
                (
                    "_Color".to_string(),
                    UnityColor {
                        r: "1".to_string(),
                        g: "0".to_string(),
                        b: "0".to_string(),
                        a: "1".to_string(),
                    },
                ),
                (
                    "_EmissionColor".to_string(),
                    UnityColor {
                        r: "0".to_string(),
                        g: "0".to_string(),
                        b: "0".to_string(),
                        a: "1".to_string(),
                    },
                ),
            ],
        },
    };
    assert_eq!(mat.get_skybox_texture_id().as_deref(), Some("texguid"));
    let sm = mat.get_standard_material().unwrap();
    assert_eq!(sm.base_color.r, "1");
    assert_eq!(sm.metallic, "0.25");
}

#[test]
fn pending_asset_fix_applies_once() {
    // not loaded yet: stays pending, no fix
    assert_eq!(bevity::assemble::pending_asset_step(true, false), (false, true));
    // first success: fix applies, marker clears
    assert_eq!(bevity::assemble::pending_asset_step(true, true), (true, false));
    // cleared: never reapplies
    assert_eq!(bevity::assemble::pending_asset_step(false, true), (false, false));
}

#[test]
fn scene_reload_only_on_selector_change() {
    let a = Some("scene_a".to_string());
    let b = Some("scene_b".to_string());
    assert!(bevity::assemble::scene_selection_changed(&a, &None));
    assert!(bevity::assemble::scene_selection_changed(&a, &b));
    assert!(!bevity::assemble::scene_selection_changed(&a, &a.clone()));
    assert!(!bevity::assemble::scene_selection_changed(&None, &b));
}
