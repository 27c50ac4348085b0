//! Stargazers: the decision logic of a space-exploration game, verified.
//!
//! Planets, explorers and an orchestrator exchange messages; this library holds
//! the parts that decide: the galaxy graph, routing, explorer bags and recipes,
//! the explorers' strategies, the planet AI, the orchestrator's bookkeeping,
//! and the viewer's side: the snapshots it is fed, the scene it builds from
//! them, its controls and its heads-up display.

pub mod planet;
pub mod text;
pub mod report;

pub mod galaxy;
pub mod route;
pub mod resources;
pub mod bag;
pub mod explorer;
pub mod idmap;
pub mod visualizer;
pub mod command;
pub mod orchestrator;
pub mod amon;
mod chance;
pub mod first;
pub mod eleanor;
pub mod planet_ai;
pub mod viewer;
pub mod layout;
pub mod behaviour;
pub mod hud;
pub mod sync;
