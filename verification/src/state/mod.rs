//! Estado de los túneles: la máquina de estados, lo que el supervisor
//! intercambia con la interfaz y las decisiones del motor que reconstruye la
//! verdad a partir de lo que se observa.
//!
//! El motor en sí —la base de datos, los procesos `ssh`, el reloj— queda fuera
//! de la biblioteca. Aquí están sus reglas: qué estado corresponde a lo que se
//! ha visto, qué túneles se recuperan juntos y cómo se cuenta un error.

pub mod machine;
pub mod registros;
pub mod supervisor;

use vstd::prelude::*;

use crate::config::{vistas_tuneles, EstadoInclude};
use crate::error::{mensaje_de, sugerencia_de, Error, Resultado};
use crate::modelo::{id_tunel, Host, Tunel, TunelV};
use crate::net::salud::{Veredicto, VeredictoV};
use crate::state::machine::Estado;
use crate::texto::{anexar, anexar_str, cadena, caracteres, iguales, vistas};

verus! {

broadcast use vstd::string::group_string_axioms;

/// Mensaje de error con su sugerencia debajo, si la tiene.
pub open spec fn mensaje_completo_de(e: Error, binario: Seq<char>) -> Seq<char> {
    match sugerencia_de(e, binario) {
        Some(s) => mensaje_de(e) + "\n"@ + s,
        None => mensaje_de(e),
    }
}

/// Mensaje de error con su sugerencia, si la tiene.
///
/// `binario` es la ruta del ejecutable, que aparece en la sugerencia de los
/// puertos privilegiados.
pub fn mensaje_completo(error: &Error, binario: &str) -> (r: String)
    ensures
        r@ == mensaje_completo_de(*error, binario@),
{
    let mensaje = error.mensaje();
    match error.sugerencia(binario) {
        Some(s) => {
            let mut c = caracteres(mensaje.as_str());
            anexar_str(&mut c, "\n");
            anexar_str(&mut c, s.as_str());
            proof {
                reveal_strlit("\n");
                assert(c@ =~= mensaje_completo_de(*error, binario@));
            }
            cadena(c.as_slice())
        },
        None => mensaje,
    }
}

/// El estado que corresponde a lo observado.
///
/// `deseado` es la intención del usuario, `maestro_vivo` si el socket de
/// control responde y `responde` si el reenvío escucha y pasa su sonda de
/// salud. `actual` es lo que el motor cree ahora: los estados de paso que el
/// propio motor ha puesto no los deshace una observación.
pub open spec fn observado(deseado: bool, maestro_vivo: bool, responde: bool, actual: Estado) -> Estado {
    if !deseado {
        // El usuario no lo quiere arriba: lo que se vea es irrelevante.
        if actual == Estado::Cerrando {
            actual
        } else {
            Estado::Definido
        }
    } else if maestro_vivo && responde {
        Estado::Activo
    } else if maestro_vivo {
        // Maestro vivo y túnel que no responde: el estado crítico.
        if actual == Estado::Conectando || actual == Estado::Cerrando {
            actual
        } else {
            Estado::Degradado
        }
    } else {
        // Sin maestro: hay que reconectar.
        if actual == Estado::Conectando || actual == Estado::Reintentando || actual
            == Estado::Fallido || actual == Estado::Cerrando {
            actual
        } else {
            Estado::Reintentando
        }
    }
}

/// Reconstruye el estado de un túnel a partir de lo observado.
pub fn estado_observado(deseado: bool, maestro_vivo: bool, responde: bool, actual: Estado) -> (r:
    Estado)
    ensures
        r == observado(deseado, maestro_vivo, responde, actual),
{
    if !deseado {
        if actual == Estado::Cerrando {
            actual
        } else {
            Estado::Definido
        }
    } else if maestro_vivo && responde {
        Estado::Activo
    } else if maestro_vivo {
        match actual {
            Estado::Conectando | Estado::Cerrando => actual,
            _ => Estado::Degradado,
        }
    } else {
        match actual {
            Estado::Conectando | Estado::Reintentando | Estado::Fallido | Estado::Cerrando => actual,
            _ => Estado::Reintentando,
        }
    }
}

/// Si merece la pena lanzar la sonda profunda de salud.
///
/// Solo tiene sentido si el usuario lo quiere arriba, el maestro vive y el
/// puerto ya escucha: en cualquier otro caso abriría conexiones para nada.
pub fn hay_que_sondear(deseado: bool, maestro_vivo: bool, escuchando: bool) -> (r: bool)
    ensures
        r == (deseado && maestro_vivo && escuchando),
{
    deseado && maestro_vivo && escuchando
}

/// Observar dos veces seguidas lo mismo no cambia nada la segunda vez.
pub proof fn ley_observar_es_idempotente(
    deseado: bool,
    maestro_vivo: bool,
    responde: bool,
    actual: Estado,
)
    ensures
        observado(deseado, maestro_vivo, responde, observado(deseado, maestro_vivo, responde, actual))
            == observado(deseado, maestro_vivo, responde, actual),
{
}

/// Un túnel solo se da por activo si se quiere arriba, su maestro vive y el
/// reenvío responde; y en ese caso siempre.
pub proof fn ley_activo_solo_si_todo_responde(
    deseado: bool,
    maestro_vivo: bool,
    responde: bool,
    actual: Estado,
)
    ensures
        (observado(deseado, maestro_vivo, responde, actual) == Estado::Activo) == (deseado
            && maestro_vivo && responde),
{
}

/// Observar nunca levanta lo que el usuario no quiere arriba: queda definido,
/// o cerrándose si ya lo estaba.
pub proof fn ley_lo_no_deseado_queda_abajo(maestro_vivo: bool, responde: bool, actual: Estado)
    ensures
        observado(false, maestro_vivo, responde, actual) == Estado::Definido || (actual
            == Estado::Cerrando && observado(false, maestro_vivo, responde, actual)
            == Estado::Cerrando),
        !crate::state::machine::deberia_estar_arriba(
            observado(false, maestro_vivo, responde, actual),
        ),
{
}

/// Sin maestro un túnel deseado nunca se enseña como activo ni como degradado:
/// se espera a reconectar.
pub proof fn ley_sin_maestro_se_reconecta(responde: bool, actual: Estado)
    ensures
        observado(true, false, responde, actual) != Estado::Activo,
        observado(true, false, responde, actual) != Estado::Degradado,
        actual != Estado::Conectando && actual != Estado::Fallido && actual != Estado::Cerrando
            ==> observado(true, false, responde, actual) == Estado::Reintentando,
{
}

/// Motivo que se apunta a un túnel degradado.
pub open spec fn motivo_degradado(v: Option<VeredictoV>) -> Seq<char> {
    match v {
        Some(VeredictoV::Zombi(d)) => d,
        _ => "el puerto local no está en escucha"@,
    }
}

/// Motivo del degradado según la última sonda. Sin él, un zombi y un puerto
/// caído se verían igual en la interfaz, y no se arreglan igual.
pub fn motivo_de_degradado(veredicto: Option<&Veredicto>) -> (r: String)
    ensures
        r@ == motivo_degradado(
            match veredicto {
                Some(v) => Some(v@),
                None => None,
            },
        ),
{
    match veredicto {
        Some(v) => match v.motivo() {
            Some(m) => m.to_string(),
            None => "el puerto local no está en escucha".to_string(),
        },
        None => "el puerto local no está en escucha".to_string(),
    }
}

/// Comprobación previa a abrir el maestro de un host.
///
/// Un host del fichero propio solo existe para `ssh` si `~/.ssh/config`
/// incluye ese fichero: sin la línea, `ssh` toma el alias por un nombre de
/// máquina y falla con un mensaje que no nombra la causa. Los hosts ajenos ya
/// están en un fichero que `ssh` lee por su cuenta. `linea` es el estado de
/// la línea, o `None` si no se pudo averiguar: entonces se deja pasar, porque
/// bloquear por una comprobación que ha fallado sería peor.
pub fn comprobar_visible_para_ssh(host: &Host, linea: Option<EstadoInclude>) -> (r: Resultado<()>)
    ensures
        match r {
            Ok(()) => !(host@.origen is Propio) || linea is None || linea matches Some(
                EstadoInclude::Presente,
            ),
            Err(e) => {
                &&& host@.origen is Propio
                &&& linea is Some
                &&& !(linea matches Some(EstadoInclude::Presente))
                &&& e matches Error::AliasInvisible { alias } && alias@ == host@.alias
            },
        },
{
    if !host.origen.editable() {
        return Ok(());
    }
    match linea {
        Some(EstadoInclude::Presente) => Ok(()),
        Some(_) => Err(Error::AliasInvisible { alias: host.alias.clone() }),
        None => Ok(()),
    }
}

/// `true` si `id` está en la lista.
pub open spec fn listado(ids: Seq<Seq<char>>, id: Seq<char>) -> bool {
    exists|i: int| 0 <= i < ids.len() && ids[i] == id
}

fn esta_listado(ids: &Vec<String>, id: &str) -> (r: bool)
    ensures
        r == listado(vistas(ids@), id@),
{
    let buscado = caracteres(id);
    let mut i: usize = 0;
    while i < ids.len()
        invariant
            i <= ids@.len(),
            buscado@ == id@,
            forall|j: int| 0 <= j < i ==> vistas(ids@)[j] != id@,
        decreases ids@.len() - i,
    {
        let propio = caracteres(ids[i].as_str());
        if iguales(propio.as_slice(), buscado.as_slice()) {
            proof {
                assert(vistas(ids@)[i as int] == id@);
            }
            return true;
        }
        i += 1;
    }
    false
}

/// Los túneles de un alias que hay que recuperar al reabrir su maestro: el que
/// dio el aviso y los que el usuario quiere arriba, en el orden del catálogo.
pub open spec fn a_recuperar(ts: Seq<TunelV>, deseados: Seq<Seq<char>>, alias: Seq<char>, id: Seq<
    char>) -> Seq<Seq<char>>
    decreases ts.len(),
{
    if ts.len() == 0 {
        seq![]
    } else {
        let previos = a_recuperar(ts.drop_last(), deseados, alias, id);
        let t = ts.last();
        if t.alias == alias && (id_tunel(t) == id || listado(deseados, id_tunel(t))) {
            previos.push(id_tunel(t))
        } else {
            previos
        }
    }
}

/// Identificadores a levantar de nuevo cuando se reabre el maestro de `alias`
/// por culpa del túnel `id`.
///
/// `deseados` son los túneles que el usuario quiere arriba según el registro.
pub fn recuperar_con_el_maestro(
    tuneles: &Vec<Tunel>,
    deseados: &Vec<String>,
    alias: &str,
    id: &str,
) -> (r: Vec<String>)
    ensures
        vistas(r@) == a_recuperar(vistas_tuneles(tuneles@), vistas(deseados@), alias@, id@),
{
    let ghost ts = vistas_tuneles(tuneles@);
    let a = caracteres(alias);
    let b = caracteres(id);
    let mut r: Vec<String> = Vec::new();
    let mut i: usize = 0;
    proof {
        assert(ts.take(0) =~= seq![]);
    }
    while i < tuneles.len()
        invariant
            i <= tuneles@.len(),
            ts == vistas_tuneles(tuneles@),
            a@ == alias@,
            b@ == id@,
            vistas(r@) == a_recuperar(ts.take(i as int), vistas(deseados@), alias@, id@),
        decreases tuneles@.len() - i,
    {
        proof {
            assert(ts.take(i + 1).drop_last() =~= ts.take(i as int));
            assert(ts.take(i + 1).last() == tuneles@[i as int]@);
        }
        let t = &tuneles[i];
        let propio = caracteres(t.alias.as_str());
        if iguales(propio.as_slice(), a.as_slice()) {
            let ident = t.id();
            let c = caracteres(ident.as_str());
            if iguales(c.as_slice(), b.as_slice()) || esta_listado(deseados, ident.as_str()) {
                let ghost antes = r@;
                r.push(ident);
                proof {
                    assert(vistas(r@) =~= vistas(antes).push(id_tunel(tuneles@[i as int]@)));
                }
            }
        }
        i += 1;
    }
    proof {
        assert(ts.take(ts.len() as int) =~= ts);
    }
    r
}

/// `true` si queda algún otro túnel del alias que el usuario quiera arriba.
pub open spec fn quedan_deseados(ts: Seq<TunelV>, deseados: Seq<Seq<char>>, alias: Seq<char>, excluyendo: Seq<char>) -> bool {
    exists|i: int|
        0 <= i < ts.len() && ts[i].alias == alias && id_tunel(ts[i]) != excluyendo && listado(
            deseados,
            id_tunel(ts[i]),
        )
}

/// Si al bajar `excluyendo` quedan otros túneles del mismo alias que el usuario
/// quiere arriba. Si no queda ninguno, se cierra también el maestro.
pub fn quedan_deseados_en(
    tuneles: &Vec<Tunel>,
    deseados: &Vec<String>,
    alias: &str,
    excluyendo: &str,
) -> (r: bool)
    ensures
        r == quedan_deseados(vistas_tuneles(tuneles@), vistas(deseados@), alias@, excluyendo@),
{
    let ghost ts = vistas_tuneles(tuneles@);
    let a = caracteres(alias);
    let b = caracteres(excluyendo);
    let mut i: usize = 0;
    while i < tuneles.len()
        invariant
            i <= tuneles@.len(),
            ts == vistas_tuneles(tuneles@),
            a@ == alias@,
            b@ == excluyendo@,
            forall|j: int|
                0 <= j < i ==> !(ts[j].alias == alias@ && id_tunel(ts[j]) != excluyendo@
                    && listado(vistas(deseados@), id_tunel(ts[j]))),
        decreases tuneles@.len() - i,
    {
        let t = &tuneles[i];
        proof {
            assert(ts[i as int] == t@);
        }
        let propio = caracteres(t.alias.as_str());
        if iguales(propio.as_slice(), a.as_slice()) {
            let ident = t.id();
            let c = caracteres(ident.as_str());
            if !iguales(c.as_slice(), b.as_slice()) && esta_listado(deseados, ident.as_str()) {
                return true;
            }
        }
        i += 1;
    }
    false
}

/// Ley: con el maestro vivo, un túnel deseado que no responde se da por
/// degradado, salvo que esté abriéndose o cerrándose, que siguen su curso.
pub proof fn ley_sin_respuesta_se_degrada(actual: Estado)
    ensures
        actual != Estado::Conectando && actual != Estado::Cerrando ==> observado(true, true, false, actual)
            == Estado::Degradado,
        actual == Estado::Conectando || actual == Estado::Cerrando ==> observado(true, true, false, actual)
            == actual,
{
}

} // verus!
