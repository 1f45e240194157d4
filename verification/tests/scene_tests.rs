//! The decoder on normalized documents.

use bevity::scene::parse_scene;
use bevity::UnitySceneObject;

const TRANSFORM_DOC: &str = "%YAML 1.1\n%TAG !u! tag:unity3d.com,2011:\n--- !u!81 &963194226\nAudioListener:\n  m_ObjectHideFlags: 0\n  m_CorrespondingSourceObject: {fileID: 0}\n  m_PrefabInstance: {fileID: 0}\n  m_PrefabAsset: {fileID: 0}\n  m_GameObject: {fileID: 963194225}\n  m_Enabled: 1\n--- !u!4 &963194228\nTransform:\n  m_LocalRotation: {x: 0.35355338, y: 0.35355338, z: -0.1464466, w: 0.8535535}\n  m_LocalPosition: {x: -10, y: 15, z: -10}\n  m_LocalScale: {x: 1, y: 1, z: 1}\n--- !u!33 &1908984289\nMeshFilter:\n  m_ObjectHideFlags: 0\n  m_CorrespondingSourceObject: {fileID: 0}\n  m_PrefabInstance: {fileID: 0}\n  m_PrefabAsset: {fileID: 0}\n  m_GameObject: {fileID: 1908984286}\n  m_Mesh: {fileID: 10202, guid: 0000000000000000e000000000000000, type: 0}\n";

#[test]
fn test_parse_transform() {
    let parsed = parse_scene("", TRANSFORM_DOC).unwrap();

    assert!(parsed.get(963194228i64).is_some());

    if let Some(UnitySceneObject::Transform(transform)) = parsed.get(963194228i64) {
        assert_eq!(transform.rotation.x.parse::<f32>().unwrap(), 0.35355338);
        assert_eq!(transform.rotation.y.parse::<f32>().unwrap(), 0.35355338);
        assert_eq!(transform.rotation.z.parse::<f32>().unwrap(), -0.1464466);
        assert_eq!(transform.rotation.w.parse::<f32>().unwrap(), 0.8535535);
        assert_eq!(transform.position.x.parse::<f32>().unwrap(), -10.0);
        assert_eq!(transform.position.y.parse::<f32>().unwrap(), 15.0);
        assert_eq!(transform.position.z.parse::<f32>().unwrap(), -10.0);
        assert_eq!(transform.scale.x.parse::<f32>().unwrap(), 1.0);
        assert_eq!(transform.scale.y.parse::<f32>().unwrap(), 1.0);
        assert_eq!(transform.scale.z.parse::<f32>().unwrap(), 1.0);
    } else {
        panic!("Expected a Transform object")
    }

    assert!(parsed.get(1908984289).is_some());

    if let Some(UnitySceneObject::MeshFilter(m)) = parsed.get(1908984289) {
        assert_eq!(m.mesh.file_id, 10202);
        assert_eq!(m.mesh.guid, None);
    } else {
        panic!("Expected a Transform object")
    }
}

#[test]
fn test_malformed_transform() {
    let yaml_input = "%YAML 1.1\n%TAG !u! tag:unity3d.com,2011:\n--- !u!4 &963194228\nTransform:\n  m_LocalRotation: {x: 0.35355338, z: -0.1464466, w: 0.8535535}\n  m_LocalPosition: {x: -10, y: 15, z: -10}\n  m_LocalScale: {x: 1, y: 1, z: 1}\n";

    let _ = parse_scene("", yaml_input);
}

#[test]
fn malformed_transform_fails_whole_document() {
    let yaml_input = "--- !u!4 &963194228\nTransform:\n  m_LocalRotation: {x: 0.35355338, z: -0.1464466, w: 0.8535535}\n";
    assert!(parse_scene("", yaml_input).is_err());
}

#[test]
fn unknown_object_type_never_aborts_siblings() {
    let parsed = parse_scene("", TRANSFORM_DOC).unwrap();
    assert!(matches!(
        parsed.get(963194226),
        Some(UnitySceneObject::DontCare)
    ));
    assert!(matches!(
        parsed.get(963194228),
        Some(UnitySceneObject::Transform(_))
    ));
}

#[test]
fn duplicate_ids_fail_the_document() {
    let input = "--- !u!4 &7\nTransform:\n--- !u!4 &7\nTransform:\n";
    assert!(parse_scene("", input).is_err());
}

#[test]
fn empty_document_fails() {
    assert!(parse_scene("", "").is_err());
}

#[test]
fn missing_discriminator_fails() {
    let input = "7:\n  m_Fog: 0\n";
    assert!(parse_scene("", input).is_err());
}

#[test]
fn gameobject_defaults_apply() {
    let input = "--- !u!1 &5\nGameObject:\n  m_Name: thing\n";
    let sc = parse_scene("", input).unwrap();
    if let Some(UnitySceneObject::GameObject(g)) = sc.get(5) {
        assert_eq!(g.active, 1);
        assert!(g.is_active());
        assert_eq!(g.name, "thing");
        assert_eq!(g.components.len(), 0);
    } else {
        panic!("expected a game object");
    }
}

#[test]
fn transform_scale_defaults_to_unit() {
    let input = "--- !u!4 &5\nTransform:\n  m_LocalPosition: {x: 1, y: 2, z: 3}\n";
    let sc = parse_scene("", input).unwrap();
    if let Some(UnitySceneObject::Transform(t)) = sc.get(5) {
        assert_eq!(t.scale.x, "1");
        assert_eq!(t.scale.y, "1");
        assert_eq!(t.scale.z, "1");
        assert_eq!(t.position.x, "1");
        assert_eq!(t.rotation.w, "0");
    } else {
        panic!("expected a transform");
    }
}

#[test]
fn render_settings_found_by_scan() {
    let input = "--- !u!1 &1\nNoise:\n  m_X: 0\n--- !u!104 &2\nRenderSettings:\n  m_Fog: 1\n  m_FogColor: {r: 0.5, g: 0.5, b: 0.5, a: 1}\n  m_AmbientSkyColor: {r: 0.2, g: 0.2, b: 0.2, a: 1}\n  m_AmbientIntensity: 1\n  m_SkyboxMaterial: {fileID: 10304, guid: abc123def, type: 2}\n  m_IndirectSpecularColor: {r: 0, g: 0, b: 0, a: 1}\n";
    let sc = parse_scene("", input).unwrap();
    let rs = sc.get_render_settings().expect("render settings");
    assert_eq!(rs.fog, 1);
    assert_eq!(rs.skybox_material.guid.as_deref(), Some("abc123def"));
    assert_eq!(rs.ambient_intensity, "1");
}

#[test]
fn project_settings_product_name() {
    let input = "--- !u!129 &1\nPlayerSettings:\n  productName: rustgame\n";
    let p = bevity::parse_project_settings(input).unwrap();
    assert_eq!(p.product_name, "rustgame");
}

#[test]
fn project_settings_wrong_first_record_fails() {
    let input = "--- !u!129 &1\nOtherSettings:\n  productName: rustgame\n";
    assert!(bevity::parse_project_settings(input).is_err());
}
