//! Diálogo con `ssh` cuando pide una contraseña, una passphrase o que se toque
//! una llave física.

pub mod protocolo;
