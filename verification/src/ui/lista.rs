//! Lo que la lista de túneles enseña de cada fila: el resumen de la derecha,
//! el interruptor, la acción que el estado pide y los datos del host.
//!
//! Pintarlo queda fuera de la biblioteca.

use vstd::prelude::*;

use crate::modelo::vista_opcional;
use crate::state::machine::{Estado, EstadoTunel};
use crate::texto::{
    anexar, anexar_str, cadena, caracteres, contiene, contiene_str, decimal, en_decimal,
    juntar_cadenas, unidos, vistas,
};
use crate::ui::widgets::{duracion, duracion_legible};

verus! {

broadcast use vstd::string::group_string_axioms;

/// Texto de la derecha de una fila: lo más útil según el estado.
pub open spec fn resumen_de(
    estado: Estado,
    intento: u32,
    ultimo_error: Option<Seq<char>>,
    antiguedad: u64,
    espera: Option<u64>,
) -> Seq<char> {
    match estado {
        Estado::Activo => "activo "@ + duracion(antiguedad),
        Estado::Reintentando => match espera {
            Some(ms) => if ms != 0 {
                "reintento en "@ + duracion(ms / 1000)
            } else {
                "intento "@ + decimal(if intento >= 1 { intento as nat } else { 1 })
            },
            None => "intento "@ + decimal(if intento >= 1 { intento as nat } else { 1 }),
        },
        // El motivo completo va en la caja de debajo; aquí, dos palabras.
        Estado::Degradado => match ultimo_error {
            Some(m) => if contiene(m, "no está en escucha"@) {
                "puerto caído"@
            } else {
                "no responde"@
            },
            None => "degradado"@,
        },
        Estado::Fallido => decimal(intento as nat) + " intentos fallidos"@,
        Estado::Conectando => "conectando…"@,
        Estado::Cerrando => "cerrando…"@,
        Estado::Definido => seq![],
    }
}

/// Texto de la derecha de una fila.
///
/// `antiguedad` son los segundos que lleva en el estado y `espera`, los
/// milisegundos que faltan para el siguiente intento, si hay uno previsto.
pub fn resumen_temporal(estado: &EstadoTunel, antiguedad: u64, espera: Option<u64>) -> (r: String)
    ensures
        r@ == resumen_de(
            estado.estado,
            estado.intento,
            vista_opcional(estado.ultimo_error),
            antiguedad,
            espera,
        ),
{
    match estado.estado {
        Estado::Activo => {
            let mut c = caracteres("activo ");
            let d = duracion_legible(antiguedad);
            anexar_str(&mut c, d.as_str());
            cadena(c.as_slice())
        },
        Estado::Reintentando => {
            match espera {
                Some(ms) => {
                    if ms != 0 {
                        let mut c = caracteres("reintento en ");
                        let d = duracion_legible(ms / 1000);
                        anexar_str(&mut c, d.as_str());
                        return cadena(c.as_slice());
                    }
                },
                None => {},
            }
            let n: u32 = if estado.intento >= 1 {
                estado.intento
            } else {
                1
            };
            let mut c = caracteres("intento ");
            let d = en_decimal(n as u64);
            anexar(&mut c, d.as_slice());
            cadena(c.as_slice())
        },
        Estado::Degradado => match &estado.ultimo_error {
            Some(m) => {
                let t = caracteres(m.as_str());
                if contiene_str(t.as_slice(), "no está en escucha") {
                    "puerto caído".to_string()
                } else {
                    "no responde".to_string()
                }
            },
            None => "degradado".to_string(),
        },
        Estado::Fallido => {
            let mut c = en_decimal(estado.intento as u64);
            anexar_str(&mut c, " intentos fallidos");
            cadena(c.as_slice())
        },
        Estado::Conectando => "conectando…".to_string(),
        Estado::Cerrando => "cerrando…".to_string(),
        Estado::Definido => String::new(),
    }
}

/// El interruptor de la fila: un solo control que alterna entre arrancar y
/// parar según lo que el túnel esté haciendo. Está «encendido» (se ofrece
/// parar) salvo en `Definido` y `Fallido`.
pub fn encendido(estado: Estado) -> (r: bool)
    ensures
        r == !(estado == Estado::Definido || estado == Estado::Fallido),
{
    match estado {
        Estado::Definido | Estado::Fallido => false,
        _ => true,
    }
}

/// La acción secundaria que el estado pide: reintentar ya si está esperando
/// el siguiente intento, o reparar si está degradado.
pub fn accion_secundaria(estado: Estado) -> (r: Option<&'static str>)
    ensures
        estado == Estado::Reintentando ==> (r matches Some(t) && t@ == "Ahora"@),
        estado == Estado::Degradado ==> (r matches Some(t) && t@ == "Reparar"@),
        estado != Estado::Reintentando && estado != Estado::Degradado ==> r is None,
{
    match estado {
        Estado::Reintentando => Some("Ahora"),
        Estado::Degradado => Some("Reparar"),
        _ => None,
    }
}

/// Texto del chip de saltos de un host: la máquina si es una, cuántas si son
/// varias; nada si no hay.
pub fn chip_de_saltos(saltos: &Vec<String>) -> (r: Option<String>)
    ensures
        saltos@.len() == 0 ==> r is None,
        saltos@.len() == 1 ==> (r matches Some(t) && t@ == "vía "@ + saltos@[0]@),
        saltos@.len() > 1 ==> (r matches Some(t) && t@ == decimal(saltos@.len() as nat)
            + " saltos"@),
{
    let n = saltos.len();
    if n == 0 {
        None
    } else if n == 1 {
        let mut c = caracteres("vía ");
        anexar_str(&mut c, saltos[0].as_str());
        Some(cadena(c.as_slice()))
    } else {
        let mut c = en_decimal(n as u64);
        anexar_str(&mut c, " saltos");
        Some(cadena(c.as_slice()))
    }
}

/// Ayuda del chip de saltos: la cadena `ProxyJump` completa.
pub fn ayuda_de_saltos(saltos: &Vec<String>) -> (r: String)
    ensures
        r@ == "ProxyJump: "@ + unidos(vistas(saltos@), " → "@),
{
    let mut c = caracteres("ProxyJump: ");
    let sep = caracteres(" → ");
    let j = juntar_cadenas(saltos.as_slice(), sep.as_slice());
    anexar(&mut c, j.as_slice());
    cadena(c.as_slice())
}

} // verus!
