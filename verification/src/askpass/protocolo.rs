//! Protocolo entre `yonder-askpass` y la aplicación.
//!
//! Una línea JSON de ida y otra de vuelta sobre un socket Unix. Deliberadamente
//! aburrido: el binario auxiliar tiene que ser trivial de leer y de auditar,
//! porque por él pasan contraseñas.
//!
//! Lo que **no** hace este protocolo, y es a propósito: no cifra nada (el
//! socket es privado del usuario) y no guarda nada (la respuesta viaja de la
//! ventana a `ssh` y se acaba).

use vstd::prelude::*;

use crate::texto::{
    cadena, caracteres, contiene, contiene_str, en_minusculas, minusculas, quitar_finales, recortado,
    recortar, recortar_str, sin_finales,
};

verus! {

broadcast use vstd::string::group_string_axioms;

/// Versión del protocolo. Si algún día cambia, el servidor podrá rechazar
/// clientes viejos en vez de malinterpretarlos.
pub const VERSION: u32 = 1;

/// Tiempo máximo que el binario auxiliar espera una respuesta.
pub const ESPERA_RESPUESTA_SEGUNDOS: u64 = 180;

/// Qué está pidiendo `ssh`, deducido del texto del prompt.
///
/// Sirve para que la ventana enseñe el modal adecuado: no es lo mismo pedir una
/// contraseña que avisar de que hay que tocar una llave física.
#[derive(Debug, Clone, Copy, PartialEq, Eq, Structural)]
pub enum Tipo {
    /// Contraseña de la cuenta en el host remoto.
    Contrasena,
    /// Passphrase de una clave privada. La custodia `ssh-agent`, no nosotros.
    Passphrase,
    /// Hay que tocar la llave FIDO2. No se teclea nada.
    PresenciaFisica,
    /// PIN de la llave FIDO2.
    PinLlave,
    /// Pregunta de sí o no.
    Confirmacion,
    Desconocido,
}

/// Tipo de un prompt según su texto en minúsculas ASCII.
pub open spec fn tipo_de(prompt: Seq<char>) -> Tipo {
    let t = minusculas(prompt);
    if contiene(t, "confirm user presence"@) || contiene(t, "user presence"@) {
        Tipo::PresenciaFisica
    } else if contiene(t, "pin for"@) || contiene(t, "enter pin"@) {
        Tipo::PinLlave
    } else if contiene(t, "passphrase"@) {
        Tipo::Passphrase
    } else if contiene(t, "(yes/no"@) || contiene(t, "[y/n]"@) {
        Tipo::Confirmacion
    } else if contiene(t, "password"@) {
        Tipo::Contrasena
    } else {
        Tipo::Desconocido
    }
}

impl Tipo {
    /// Clasifica el prompt de `ssh` por su texto.
    pub fn deducir(prompt: &str) -> (r: Tipo)
        ensures
            r == tipo_de(prompt@),
    {
        let c = caracteres(prompt);
        let t = en_minusculas(c.as_slice());
        let s = t.as_slice();
        if contiene_str(s, "confirm user presence") || contiene_str(s, "user presence") {
            Tipo::PresenciaFisica
        } else if contiene_str(s, "pin for") || contiene_str(s, "enter pin") {
            Tipo::PinLlave
        } else if contiene_str(s, "passphrase") {
            Tipo::Passphrase
        } else if contiene_str(s, "(yes/no") || contiene_str(s, "[y/n]") {
            Tipo::Confirmacion
        } else if contiene_str(s, "password") {
            Tipo::Contrasena
        } else {
            Tipo::Desconocido
        }
    }

    /// `true` si lo que se escribe debe ocultarse.
    pub fn es_secreto(&self) -> (r: bool)
        ensures
            r == (*self == Tipo::Contrasena || *self == Tipo::Passphrase || *self == Tipo::PinLlave),
    {
        match self {
            Tipo::Contrasena | Tipo::Passphrase | Tipo::PinLlave => true,
            _ => false,
        }
    }

    /// `true` si no hay nada que teclear: solo se espera al usuario.
    pub fn sin_entrada(&self) -> (r: bool)
        ensures
            r == (*self == Tipo::PresenciaFisica),
    {
        match self {
            Tipo::PresenciaFisica => true,
            _ => false,
        }
    }

    /// Título para el modal.
    pub fn titulo(&self) -> (r: &'static str)
        ensures
            r@ == match *self {
                Tipo::Contrasena => "Contraseña del host"@,
                Tipo::Passphrase => "Passphrase de la clave"@,
                Tipo::PresenciaFisica => "Toca la llave física"@,
                Tipo::PinLlave => "PIN de la llave"@,
                Tipo::Confirmacion => "Confirmación"@,
                Tipo::Desconocido => "SSH necesita una respuesta"@,
            },
    {
        match self {
            Tipo::Contrasena => "Contraseña del host",
            Tipo::Passphrase => "Passphrase de la clave",
            Tipo::PresenciaFisica => "Toca la llave física",
            Tipo::PinLlave => "PIN de la llave",
            Tipo::Confirmacion => "Confirmación",
            Tipo::Desconocido => "SSH necesita una respuesta",
        }
    }
}

/// Lo que el binario auxiliar envía a la aplicación.
#[derive(Debug)]
pub struct Peticion {
    pub version: u32,
    /// Texto literal con el que `ssh` llamó al askpass.
    pub prompt: String,
    pub tipo: Tipo,
    /// PID del proceso que pregunta, para poder relacionarlo con un túnel.
    pub pid: u32,
}

impl Peticion {
    /// Petición de la versión actual para ese prompt, hecha por el proceso
    /// `pid` (el del propio binario auxiliar).
    pub fn nueva(prompt: &str, pid: u32) -> (r: Peticion)
        ensures
            r.version == VERSION,
            r.prompt@ == prompt@,
            r.tipo == tipo_de(prompt@),
            r.pid == pid,
    {
        Peticion { version: VERSION, tipo: Tipo::deducir(prompt), prompt: prompt.to_string(), pid }
    }
}

/// Lo que la aplicación devuelve.
#[derive(Debug)]
pub struct Respuesta {
    /// `None` si el usuario canceló.
    pub texto: Option<String>,
}

impl Respuesta {
    /// Respuesta con ese texto; una cadena vacía es una respuesta válida.
    pub fn con(texto: &str) -> (r: Respuesta)
        ensures
            r.texto matches Some(t) && t@ == texto@,
    {
        Respuesta { texto: Some(texto.to_string()) }
    }

    /// El usuario canceló: no hay texto, que no es lo mismo que texto vacío.
    pub fn cancelada() -> (r: Respuesta)
        ensures
            r.texto is None,
    {
        Respuesta { texto: None }
    }
}

/// Texto limpio de un prompt para el diálogo: `ssh` acaba los prompts con
/// «: », y eso sobra en una ventana con su propio campo.
pub open spec fn texto_visible_de(prompt: Seq<char>) -> Seq<char> {
    recortado(sin_finales(recortado(prompt), ':'))
}

/// Texto limpio de un prompt para el diálogo.
pub fn texto_visible(prompt: &str) -> (r: String)
    ensures
        r@ == texto_visible_de(prompt@),
{
    let a = recortar_str(prompt);
    let b = quitar_finales(a.as_slice(), ':');
    let c = recortar(b.as_slice());
    cadena(c.as_slice())
}

} // verus!
