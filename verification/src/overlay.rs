use vstd::prelude::*;

verus! {

/// The shader dialects the debug overlay's renderer can be built with.
#[derive(Clone, Copy, Debug, PartialEq, Eq, Structural)]
pub enum ShaderDialect {
    GlSl400,
    GlSl130,
    GlSl110,
    GlSlEs300,
    GlSlEs100,
}

/// The dialect that fits a device whose shading language has major version
/// `major`: the newest one the device supports, among those for embedded
/// devices or among the others.
pub open spec fn dialect_for(is_embedded: bool, major: u32) -> ShaderDialect {
    if is_embedded {
        if major < 3 {
            ShaderDialect::GlSlEs100
        } else {
            ShaderDialect::GlSlEs300
        }
    } else if major < 3 {
        ShaderDialect::GlSl110
    } else if major == 3 {
        ShaderDialect::GlSl130
    } else {
        ShaderDialect::GlSl400
    }
}

/// Chooses the overlay's shader dialect from what the device reports of its
/// shading language.
pub fn select_shaders(is_embedded: bool, major: u32) -> (dialect: ShaderDialect)
    ensures
        dialect == dialect_for(is_embedded, major),
{
    if is_embedded {
        if major >= 3 {
            ShaderDialect::GlSlEs300
        } else {
            ShaderDialect::GlSlEs100
        }
    } else if major >= 4 {
        ShaderDialect::GlSl400
    } else if major >= 3 {
        ShaderDialect::GlSl130
    } else {
        ShaderDialect::GlSl110
    }
}

} // verus!
