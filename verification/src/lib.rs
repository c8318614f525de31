pub mod engine;
pub mod image;
pub mod io;
pub mod material;
pub mod object;
pub mod radiance;
pub mod scene;
pub mod shape;
