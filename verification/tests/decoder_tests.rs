//! The per-kind decoders: aliases, defaults and wrong-kind failures.

use bevity::scene::parse_scene;
use bevity::UnitySceneObject;

#[test]
fn camera_decodes_all_required_fields() {
    let input = "--- !u!20 &20\nCamera:\n  m_BackGroundColor: {r: 0.19, g: 0.3, b: 0.47, a: 0}\n  near clip plane: 0.3\n  far clip plane: 1000\n  field of view: 60\n  orthographic: 0\n  orthographic size: 5\n";
    let sc = parse_scene("", input).unwrap();
    if let Some(UnitySceneObject::Camera(c)) = sc.get(20) {
        assert_eq!(c.near_clip_plane, "0.3");
        assert_eq!(c.far_clip_plane, "1000");
        assert_eq!(c.fov, "60");
        assert_eq!(c.orthographic, 0);
        assert_eq!(c.orthographic_size, "5");
        assert_eq!(c.background_color.r, "0.19");
    } else {
        panic!("expected a camera");
    }
}

#[test]
fn camera_missing_required_field_fails() {
    let input = "--- !u!20 &20\nCamera:\n  near clip plane: 0.3\n";
    assert!(parse_scene("", input).is_err());
}

#[test]
fn light_reads_nested_shadow_block() {
    let input = "--- !u!108 &30\nLight:\n  m_Enabled: 1\n  m_Type: 1\n  m_Color: {r: 1, g: 0.95, b: 0.84, a: 1}\n  m_Intensity: 1\n  m_Range: 10\n  m_Shadows:\n    serializedVersion: 2\n    m_Type: 2\n";
    let sc = parse_scene("", input).unwrap();
    if let Some(UnitySceneObject::Light(l)) = sc.get(30) {
        assert_eq!(l.enabled, 1);
        assert_eq!(l.light_type, 1);
        assert_eq!(l.shadows.shadow_type, 2);
        assert_eq!(l.intensity, "1");
        assert_eq!(l.range, "10");
    } else {
        panic!("expected a light");
    }
}

#[test]
fn colliders_default_every_field() {
    let input = "--- !u!65 &40\nBoxCollider:\n  m_Size: {x: 2, y: 2, z: 2}\n--- !u!135 &41\nSphereCollider:\n  m_Radius: 0.5\n--- !u!54 &42\nRigidbody:\n  m_Mass: 3\n";
    let sc = parse_scene("", input).unwrap();
    if let Some(UnitySceneObject::BoxCollider(b)) = sc.get(40) {
        assert_eq!(b.is_trigger, 0);
        assert_eq!(b.size.x, "2");
        assert_eq!(b.center.x, "0");
    } else {
        panic!("expected a box collider");
    }
    if let Some(UnitySceneObject::SphereCollider(s)) = sc.get(41) {
        assert_eq!(s.radius, "0.5");
    } else {
        panic!("expected a sphere collider");
    }
    if let Some(UnitySceneObject::Rigidbody(r)) = sc.get(42) {
        assert_eq!(r.mass, "3");
        assert_eq!(r.use_gravity, 0);
        assert_eq!(r.inertia_rotation.w, "0");
    } else {
        panic!("expected a rigidbody");
    }
}

#[test]
fn behavior_record_keeps_raw_body_for_the_host() {
    let input = "--- !u!114 &50\nMonoBehaviour:\n  m_Speed: 4.5\n  m_Enabled: 1\n";
    let sc = parse_scene("", input).unwrap();
    if let Some(UnitySceneObject::MonoBehaviour(lines)) = sc.get(50) {
        assert_eq!(lines.len(), 2);
        assert_eq!(lines[0], "  m_Speed: 4.5");
        assert_eq!(lines[1], "  m_Enabled: 1");
    } else {
        panic!("expected a behavior record");
    }
}

#[test]
fn mesh_renderer_requires_materials_list() {
    let ok = "--- !u!23 &60\nMeshRenderer:\n  m_Materials:\n  - {fileID: 2100000, guid: matguid, type: 2}\n";
    let sc = parse_scene("", ok).unwrap();
    if let Some(UnitySceneObject::MeshRenderer(m)) = sc.get(60) {
        assert_eq!(m.materials.len(), 1);
        assert_eq!(m.materials[0].guid.as_deref(), Some("matguid"));
    } else {
        panic!("expected a mesh renderer");
    }
    let missing = "--- !u!23 &60\nMeshRenderer:\n  m_CastShadows: 1\n";
    assert!(parse_scene("", missing).is_err());
}

#[test]
fn gameobject_wrong_active_kind_fails() {
    let input = "--- !u!1 &5\nGameObject:\n  m_IsActive: hello\n";
    assert!(parse_scene("", input).is_err());
}

#[test]
fn numeric_looking_guid_decodes_to_none() {
    let input = "--- !u!33 &6\nMeshFilter:\n  m_Mesh: {fileID: 10207, guid: 12e4, type: 0}\n";
    let sc = parse_scene("", input).unwrap();
    if let Some(UnitySceneObject::MeshFilter(m)) = sc.get(6) {
        assert_eq!(m.mesh.guid, None);
        assert_eq!(m.mesh.file_id, 10207);
    } else {
        panic!("expected a mesh filter");
    }
}

#[test]
fn crlf_lines_normalize_like_lf() {
    let lf = "--- !u!104 &2\nRenderSettings:\n  m_Fog: 0\n";
    let crlf = "--- !u!104 &2\r\nRenderSettings:\r\n  m_Fog: 0\r\n";
    assert_eq!(
        bevity::cleanup_unity_yaml(lf),
        bevity::cleanup_unity_yaml(crlf)
    );
}
