pub mod camera;
pub mod errors;
pub mod frame;
pub mod inference;
pub mod model;
pub mod numfmt;
pub mod routes;
pub mod state;
pub mod wire;
mod rng;
