//! Gestor de túneles SSH: la lógica verificada del orquestador sobre `ssh`.

pub mod askpass;
pub mod cli;
pub mod error;
pub mod modelo;
pub mod net;
pub mod prefs;
pub mod texto;
pub mod ui;

pub use error::{Error, Resultado};
pub mod config;
pub mod rutas;
pub mod servicio;
pub mod ssh;
pub mod state;
