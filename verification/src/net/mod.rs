//! Comprobaciones de red de los túneles.

pub mod salud;
pub mod probe;
