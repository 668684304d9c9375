//! Scene-to-physics synchronisation: turns a loaded scene description into
//! static collision bodies, once per asset, and brings fallen dynamic bodies
//! back to the spawn point.
pub mod filter;
pub mod scene;
pub mod spawn;
pub mod world;
pub mod respawn;
pub mod player;
pub mod synth;
