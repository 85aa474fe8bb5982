use medraycast::shader::Shader;
use medraycast::shader::ShaderType;

#[test]
fn test_shader_holds_sources() {
    let vertex = "#version 300 es\nvoid main() {}\n";
    let fragment = "#version 300 es\nout vec4 color;\nvoid main() {}\n";
    let shader = Shader::load_from_file(vertex, fragment);
    assert_eq!(shader.get_vertex(), vertex);
    assert_eq!(shader.get_fragment(), fragment);
}

#[test]
fn test_shader_type_distinct() {
    assert_eq!(ShaderType::DefaultShader, ShaderType::DefaultShader);
    assert_ne!(ShaderType::DefaultShader, ShaderType::MipShader);
    assert_ne!(ShaderType::MipShader, ShaderType::AipShader);
}
