pub mod renderer;
pub mod shader;
pub mod texture;
