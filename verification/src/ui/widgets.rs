//! Textos de los elementos de la interfaz.

use vstd::prelude::*;

use crate::texto::{anexar_str, cadena, decimal, en_decimal};

verus! {

broadcast use vstd::string::group_string_axioms;

/// Una duración en lenguaje natural y corto, con la unidad útil.
pub open spec fn duracion(segundos: u64) -> Seq<char> {
    if segundos < 60 {
        decimal(segundos as nat) + " s"@
    } else if segundos < 3600 {
        decimal((segundos / 60) as nat) + " min"@
    } else if segundos < 86_400 {
        decimal((segundos / 3600) as nat) + " h"@
    } else {
        decimal((segundos / 86_400) as nat) + " d"@
    }
}

/// Texto de una duración, en segundos, en lenguaje natural y corto.
pub fn duracion_legible(segundos: u64) -> (r: String)
    ensures
        r@ == duracion(segundos),
{
    let (n, unidad) = if segundos < 60 {
        (segundos, " s")
    } else if segundos < 3600 {
        (segundos / 60, " min")
    } else if segundos < 86_400 {
        (segundos / 3600, " h")
    } else {
        (segundos / 86_400, " d")
    };
    let mut c = en_decimal(n);
    anexar_str(&mut c, unidad);
    cadena(c.as_slice())
}

} // verus!
