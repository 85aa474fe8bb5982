use vstd::prelude::*;

verus! {

/// A vertex/fragment GLSL source pair. The library only carries the text;
/// compiling and linking happen in the GPU layer outside it.
pub struct Shader {
    vertex: String,
    fragment: String,
}

/// Which ray-marching fragment shader the scene uses.
#[derive(Clone, Copy, Debug, PartialEq, Eq, Structural)]
pub enum ShaderType {
    DefaultShader,
    MipShader,
    AipShader,
}

impl Shader {
    /// The held vertex source.
    pub closed spec fn spec_vertex(&self) -> Seq<char> {
        self.vertex@
    }

    /// The held fragment source.
    pub closed spec fn spec_fragment(&self) -> Seq<char> {
        self.fragment@
    }

    /// Builds the shader pair from the two sources' text; reading the
    /// files themselves is the caller's I/O.
    pub fn load_from_file(vertex_source: &str, fragment_source: &str) -> (shader: Shader)
        ensures
            shader.spec_vertex() == vertex_source@,
            shader.spec_fragment() == fragment_source@,
    {
        Shader { vertex: vertex_source.to_owned(), fragment: fragment_source.to_owned() }
    }

    /// The vertex source, as handed to the GL compiler.
    pub fn get_vertex(&self) -> (r: &str)
        ensures
            r@ == self.spec_vertex(),
    {
        self.vertex.as_str()
    }

    /// The fragment source, as handed to the GL compiler.
    pub fn get_fragment(&self) -> (r: &str)
        ensures
            r@ == self.spec_fragment(),
    {
        self.fragment.as_str()
    }
}

} // verus!
