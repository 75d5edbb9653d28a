//! A parametric, replayable modeling kernel for molecular structures.
//!
//! A molecule is never edited directly: it is materialized by replaying an
//! ordered timeline of features against an atom/bond graph. Every atom carries
//! a structural specifier that stays stable across replays.

pub mod element;
pub mod feature;
pub mod graph;
pub mod ids;
pub mod logging;
pub mod menu;
pub mod molecule;
pub mod space;
