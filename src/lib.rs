pub mod canvas;
pub mod context;
pub mod earclip;
pub mod frame;
pub mod geometry;
pub mod path;
pub mod sqrt;
pub mod style;
pub mod tessellate;
pub mod vertex_buffer;
