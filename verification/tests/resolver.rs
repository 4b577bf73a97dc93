use shdrr::kind::{shader_kind_of, ShaderKind};

#[test]
fn compute_extension_resolves() {
    assert_eq!(shader_kind_of("kernel.cs"), ShaderKind::Compute);
    assert_eq!(shader_kind_of("/project/shaders/kernel.cs"), ShaderKind::Compute);
}

#[test]
fn fragment_extension_resolves() {
    assert_eq!(shader_kind_of("glow.fs"), ShaderKind::Fragment);
    assert_eq!(shader_kind_of("/project/shaders/fx/glow.fs"), ShaderKind::Fragment);
}

#[test]
fn vertex_extension_resolves() {
    assert_eq!(shader_kind_of("mesh.vs"), ShaderKind::Vertex);
    assert_eq!(shader_kind_of("deep/dir/mesh.vs"), ShaderKind::Vertex);
}

#[test]
fn unrecognized_extension_is_unknown() {
    assert_eq!(shader_kind_of("notes.txt"), ShaderKind::Unknown);
    assert_eq!(shader_kind_of("shader.glsl"), ShaderKind::Unknown);
}

#[test]
fn missing_extension_is_unknown() {
    assert_eq!(shader_kind_of("Makefile"), ShaderKind::Unknown);
    assert_eq!(shader_kind_of("/project/shaders/readme"), ShaderKind::Unknown);
}

#[test]
fn resolution_is_case_sensitive() {
    assert_eq!(shader_kind_of("kernel.CS"), ShaderKind::Unknown);
    assert_eq!(shader_kind_of("glow.Fs"), ShaderKind::Unknown);
}

#[test]
fn hidden_file_has_no_extension() {
    assert_eq!(shader_kind_of(".vs"), ShaderKind::Unknown);
    assert_eq!(shader_kind_of("/project/.fs"), ShaderKind::Unknown);
}

#[test]
fn trailing_dot_is_unknown() {
    assert_eq!(shader_kind_of("shader."), ShaderKind::Unknown);
}

#[test]
fn dot_in_directory_does_not_classify() {
    assert_eq!(shader_kind_of("/project/v1.vs/shader"), ShaderKind::Unknown);
}
