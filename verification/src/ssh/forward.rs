//! Comprobación de los reenvíos en caliente.
//!
//! Activar y cancelar reenvíos sobre una conexión ya autenticada es lanzar
//! `ssh -O forward` y `-O cancel` (véase [`crate::ssh::control`]); aquí está la
//! comprobación que separa `Activo` de `Degradado`.

use vstd::prelude::*;

use crate::modelo::{escucha_en_local, Reenvio};
use crate::net::probe::{cubre, vistas_entradas, Escuchas, Ip};

verus! {

/// Comprueba sobre una fotografía de los puertos en escucha que el reenvío
/// está **de verdad** en pie.
///
/// Un maestro que responde a `-O check` no garantiza nada sobre los reenvíos:
/// el puerto local puede haberse caído. Para los reenvíos remotos no hay nada
/// que sondear desde aquí (el puerto escucha en la otra máquina), así que se
/// dan por buenos.
///
/// `objetivo` es la dirección de escucha efectiva del reenvío leída como IP,
/// o `None` si es un nombre.
pub fn confirmado_en(reenvio: &Reenvio, escuchas: &Escuchas, objetivo: Option<&Ip>) -> (r: bool)
    ensures
        r == (!escucha_en_local(reenvio.tipo) || exists|i: int|
            0 <= i < escuchas.entradas@.len() && cubre(
                #[trigger] vistas_entradas(escuchas.entradas@)[i],
                match objetivo {
                    Some(b) => Some(b@),
                    None => None,
                },
                reenvio.escucha.puerto,
            )),
{
    if !reenvio.tipo.escucha_en_local() {
        return true;
    }
    escuchas.contiene(objetivo, reenvio.escucha.puerto)
}

} // verus!
