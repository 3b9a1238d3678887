pub mod brightness;
pub mod error;
pub mod palette;
pub mod frame_buffer;
pub mod lights;
pub mod sprite;
pub mod font;
pub mod raster;
pub mod renderer;
pub mod rand;
pub mod colliders;
pub mod byte_buffer_reader;
pub mod input;
