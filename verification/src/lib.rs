//! The logic of an append-only terminal chat UI, verified with Verus: a pure
//! model of the terminal (`hybrid_sim`), what the real terminal draws
//! (`hybrid_render`) and decides (`hybrid_mode`), and their proved
//! properties (`sim_laws`, `mode_laws`).

pub mod hybrid_mode;
pub mod hybrid_render;
pub mod hybrid_sim;
pub mod mode_laws;
pub mod sim_laws;
pub mod text;
