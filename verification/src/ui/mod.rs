//! Piezas de la interfaz gráfica que no dependen de cómo se pinta.

pub mod widgets;
pub mod editor;
pub mod iconos;
pub mod modales;
pub mod lista;
