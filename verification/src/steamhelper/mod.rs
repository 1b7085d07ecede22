//! The first generation of the Steam helpers: Steam located on its own, Proton given
//! by path.
pub mod game;
