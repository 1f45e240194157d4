//! The normalizer on raw dialect documents.

use bevity::cleanup_unity_yaml;

#[test]
fn test_skip_headers() {
    let input = "%YAML 1.1\n%TAG !u! tag:unity3d.com,2011:\n--- !u!29 &1\nOcclusionCullingSettings:\n";
    let expected = "1:\n  object_type: OcclusionCullingSettings\n";
    assert_eq!(cleanup_unity_yaml(input), expected);
}

#[test]
fn test_parse_object_id() {
    let input = "--- !u!104 &2\nRenderSettings:\n";
    let expected = "2:\n  object_type: RenderSettings\n";
    assert_eq!(cleanup_unity_yaml(input), expected);
}

#[test]
fn test_preserve_indents() {
    let input = "--- !u!104 &2\nRenderSettings:\n  m_Fog: 0\n  m_FogColor: {r: 0.5, g: 0.5, b: 0.5, a: 1}\n";
    let expected = "2:\n  object_type: RenderSettings\n  m_Fog: 0\n  m_FogColor: {r: 0.5, g: 0.5, b: 0.5, a: 1}\n";
    assert_eq!(cleanup_unity_yaml(input), expected);
}

#[test]
fn test_full_example() {
    let input = "%YAML 1.1\n%TAG !u! tag:unity3d.com,2011:\n--- !u!29 &1\nOcclusionCullingSettings:\n  m_ObjectHideFlags: 0\n--- !u!104 &2\nRenderSettings:\n  m_Fog: 0\n";
    let expected = "1:\n  object_type: OcclusionCullingSettings\n  m_ObjectHideFlags: 0\n2:\n  object_type: RenderSettings\n  m_Fog: 0\n";
    assert_eq!(cleanup_unity_yaml(input), expected);
}

#[test]
fn test_malformed_input() {
    let input = "%YAML 1.1\n%TAG !u! tag:unity3d.com,2011:\nOcclusionCullingSettings:\n  m_ObjectHideFlags: 0\n";
    let expected = "  object_type: OcclusionCullingSettings\n  m_ObjectHideFlags: 0\n";
    assert_eq!(cleanup_unity_yaml(input), expected);
}

#[test]
fn separator_with_type_line_and_field() {
    let input = "--- !u!104 &2\nRenderSettings:\n  m_Fog: 0\n";
    let expected = "2:\n  object_type: RenderSettings\n  m_Fog: 0\n";
    assert_eq!(cleanup_unity_yaml(input), expected);
}

#[test]
fn directives_change_nothing_else() {
    let with = "%YAML 1.1\n--- !u!4 &7\nTransform:\n  m_Fog: 0\n%TAG !u! x\n";
    let without = "--- !u!4 &7\nTransform:\n  m_Fog: 0\n";
    assert_eq!(cleanup_unity_yaml(with), cleanup_unity_yaml(without));
}

#[test]
fn separator_without_id_token_degrades_to_inline_declaration() {
    let input = "--- !u!104\nRenderSettings:\n";
    let expected = "  object_type: --- !u!104\n  object_type: RenderSettings\n";
    assert_eq!(cleanup_unity_yaml(input), expected);
}

#[test]
fn separator_with_unreadable_id_degrades_to_inline_declaration() {
    let input = "--- !u!104 &x9\nRenderSettings:\n";
    let expected = "  object_type: --- !u!104 &x9\n  object_type: RenderSettings\n";
    assert_eq!(cleanup_unity_yaml(input), expected);
}

#[test]
fn empty_input_yields_single_newline() {
    assert_eq!(cleanup_unity_yaml(""), "\n");
}

#[test]
fn colons_are_stripped_from_inline_type_lines() {
    let input = "A:B:C\n";
    assert_eq!(cleanup_unity_yaml(input), "  object_type: ABC\n");
}
