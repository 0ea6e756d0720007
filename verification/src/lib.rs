//! Flox: view models, routing and player rules of the Flox media shell.
pub mod text;
pub mod model;
pub mod fixtures;
pub mod focus;
pub mod graphs;
pub mod router;
pub mod player;
pub mod vm;
pub mod launch;
