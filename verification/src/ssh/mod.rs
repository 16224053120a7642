//! Envoltura del binario `ssh` del sistema.
//!
//! Aquí no hay ni una línea de protocolo SSH: solo se construyen líneas de
//! órdenes y se traducen sus salidas a errores en español. `ProxyJump`
//! multisalto, `known_hosts`, `ssh-agent`, claves FIDO2 y los algoritmos los
//! pone OpenSSH. Lanzar los procesos queda fuera de la biblioteca, que recibe
//! lo que dijeron.

pub mod control;
pub mod copyid;
pub mod forward;
pub mod hostkey;
pub mod master;

use vstd::prelude::*;

use std::collections::BTreeMap;

use crate::config::parser::{en_lineas, lineas};
use crate::error::{Error, Resultado};
use crate::texto::{
    anexar, anexar_str, cadena, caracteres, contiene, contiene_str, empieza_por, empieza_str,
    en_minusculas, en_palabras, iguales, leer_u32, minusculas, palabras, recortado, recortar,
    recortar_str, reemplazado, reemplazar, trocear, trozo, trozos, valor_u32, vistas_vec,
};

pub use crate::ssh::control::Control;
pub use crate::ssh::master::{Maestro, OpcionesMaestro};

verus! {

broadcast use vstd::string::group_string_axioms;

/// Segundos de espera para las órdenes de control (`-O check`, `forward`,
/// `cancel`): hablan con un maestro ya conectado, así que son instantáneas.
pub const ESPERA_CONTROL: u64 = 10;

/// Segundos de espera para abrir un maestro. Generoso a propósito: puede haber
/// varios saltos, una llave que tocar o una contraseña que teclear.
pub const ESPERA_CONEXION: u64 = 120;

/// Segundos de espera para consultas rápidas (`ssh -V`, `ssh-keyscan`).
pub const ESPERA_CONSULTA: u64 = 15;

/// Resultado de ejecutar un proceso externo.
#[derive(Debug)]
pub struct Salida {
    pub codigo: Option<i32>,
    pub estandar: String,
    pub error: String,
}

/// El mensaje más útil de los dos flujos: el de error si dice algo.
pub open spec fn texto_util(estandar: Seq<char>, error: Seq<char>) -> Seq<char> {
    if recortado(error).len() == 0 {
        recortado(estandar)
    } else {
        recortado(error)
    }
}

impl Salida {
    pub fn correcta(&self) -> (r: bool)
        ensures
            r == (self.codigo == Some(0i32)),
    {
        match self.codigo {
            Some(c) => c == 0,
            None => false,
        }
    }

    /// Mensaje más útil de los dos flujos, para mostrar al usuario.
    pub fn diagnostico(&self) -> (r: String)
        ensures
            r@ == traduccion_de(texto_util(self.estandar@, self.error@)),
    {
        let e = recortar_str(self.error.as_str());
        let texto = if e.len() == 0 {
            recortar_str(self.estandar.as_str())
        } else {
            e
        };
        let t = cadena(texto.as_slice());
        traducir_error_de_ssh(t.as_str())
    }
}

/// Entorno con el que se lanzan los procesos hijos.
///
/// Es donde se decide si las contraseñas las pide la terminal o el askpass
/// gráfico: en la consola se deja vacío y `ssh` usa el TTY; en la ventana se
/// apunta al binario auxiliar.
#[derive(Debug)]
pub struct Entorno {
    /// Ruta a `yonder-askpass`. Si está presente se fuerza su uso.
    pub askpass: Option<String>,
    /// Variables adicionales.
    pub variables: BTreeMap<String, String>,
}

impl Entorno {
    /// Entorno de terminal: `ssh` preguntará por el TTY.
    pub fn terminal() -> (r: Entorno)
        ensures
            r.askpass is None,
            r.variables@.len() == 0,
    {
        let variables: BTreeMap<String, String> = BTreeMap::new();
        Entorno { askpass: None, variables }
    }

    /// Entorno gráfico: las contraseñas las pide la aplicación.
    pub fn grafico(askpass: &str) -> (r: Entorno)
        ensures
            r.askpass matches Some(a) && a@ == askpass@,
            r.variables@.len() == 0,
    {
        let variables: BTreeMap<String, String> = BTreeMap::new();
        Entorno { askpass: Some(askpass.to_string()), variables }
    }
}

/// La orden tal como se describe en los mensajes: el programa y sus
/// argumentos separados por espacios.
pub open spec fn descripcion_orden(programa: Seq<char>, argumentos: Seq<Seq<char>>) -> Seq<char> {
    programa + " "@ + crate::texto::unidos(argumentos, " "@)
}

fn describir(programa: &str, argumentos: &Vec<String>) -> (r: String)
    ensures
        r@ == descripcion_orden(programa@, crate::texto::vistas(argumentos@)),
{
    let mut c = caracteres(programa);
    c.push(' ');
    let sep = caracteres(" ");
    let j = crate::texto::juntar_cadenas(argumentos.as_slice(), sep.as_slice());
    anexar(&mut c, j.as_slice());
    proof {
        reveal_strlit(" ");
        assert(c@ =~= programa@ + " "@ + j@);
    }
    cadena(c.as_slice())
}

/// Convierte una salida con código distinto de cero en error.
///
/// Recibe lo que devolvió lanzar `programa` con esos argumentos; un fallo al
/// lanzarlo se devuelve tal cual.
pub fn ejecutar_exigiendo_exito(
    programa: &str,
    argumentos: &Vec<String>,
    salida: Resultado<Salida>,
) -> (r: Resultado<Salida>)
    ensures
        match salida {
            Err(_) => r == salida,
            Ok(s) => if s.codigo == Some(0i32) {
                r == Ok::<Salida, Error>(s)
            } else {
                r matches Err(Error::OrdenFallida { orden, codigo, salida: d }) && orden@
                    == descripcion_orden(programa@, crate::texto::vistas(argumentos@)) && codigo
                    == match s.codigo {
                    Some(c) => c,
                    None => -1i32,
                } && d@ == traduccion_de(texto_util(s.estandar@, s.error@))
            },
        },
{
    match salida {
        Err(e) => Err(e),
        Ok(s) => {
            if s.correcta() {
                Ok(s)
            } else {
                let codigo = match s.codigo {
                    Some(c) => c,
                    None => -1,
                };
                Err(
                    Error::OrdenFallida {
                        orden: describir(programa, argumentos),
                        codigo,
                        salida: s.diagnostico(),
                    },
                )
            }
        },
    }
}

// --- Traducción de errores ---------------------------------------------------------

/// Última línea con algo que no sea el aviso de `known_hosts`.
pub open spec fn ultima_util(ls: Seq<Seq<char>>) -> Option<Seq<char>>
    decreases ls.len(),
{
    if ls.len() == 0 {
        None
    } else if recortado(ls.last()).len() > 0 && !empieza_por(
        ls.last(),
        "Warning: Permanently added"@,
    ) {
        Some(ls.last())
    } else {
        ultima_util(ls.drop_last())
    }
}

/// Traducción de un mensaje de `ssh` (en minúsculas) a algo accionable.
pub open spec fn traduccion(m: Seq<char>) -> Option<Seq<char>> {
    if contiene(m, "permission denied"@) {
        Some("autenticación rechazada: la clave o la contraseña no sirven para este usuario"@)
    } else if contiene(m, "connection refused"@) {
        Some("el host rechazó la conexión: ¿está el servicio SSH escuchando en ese puerto?"@)
    } else if contiene(m, "connection timed out"@) || contiene(m, "operation timed out"@) {
        Some("el host no respondió a tiempo: ¿es alcanzable desde esta red?"@)
    } else if contiene(m, "name or service not known"@) || contiene(
        m,
        "could not resolve hostname"@,
    ) {
        Some("el nombre del host no se pudo resolver"@)
    } else if contiene(m, "no route to host"@) {
        Some("no hay ruta hasta el host"@)
    } else if contiene(m, "host key verification failed"@) {
        Some("la clave del host no está verificada: acéptala antes de conectar"@)
    } else if contiene(m, "remote host identification has changed"@) {
        Some("la clave del host HA CAMBIADO: no se conecta hasta que lo revises a mano"@)
    } else if contiene(m, "address already in use"@) || contiene(m, "cannot listen to port"@) {
        Some("el puerto local ya está ocupado"@)
    } else if contiene(m, "port forwarding failed"@) {
        Some("el reenvío no se pudo establecer"@)
    } else if contiene(m, "control socket connect"@) {
        Some("no hay ninguna conexión maestra escuchando en ese socket"@)
    } else if contiene(m, "too many authentication failures"@) {
        Some("demasiados intentos de autenticación: el agente está ofreciendo claves de más"@)
    } else {
        None
    }
}

/// El mensaje traducido: la explicación y debajo lo que dijo `ssh`, o el
/// mensaje tal cual si no está en la tabla.
pub open spec fn traduccion_de(texto: Seq<char>) -> Seq<char> {
    let ultima = recortado(
        match ultima_util(lineas(texto)) {
            Some(l) => l,
            None => texto,
        },
    );
    match traduccion(minusculas(ultima)) {
        Some(claro) => if claro != ultima {
            claro + "\n    ssh dijo: "@ + ultima
        } else {
            ultima
        },
        None => ultima,
    }
}

fn traduccion_exec(m: &[char]) -> (r: Option<&'static str>)
    ensures
        match r {
            Some(t) => traduccion(m@) == Some(t@),
            None => traduccion(m@) is None,
        },
{
    if contiene_str(m, "permission denied") {
        Some("autenticación rechazada: la clave o la contraseña no sirven para este usuario")
    } else if contiene_str(m, "connection refused") {
        Some("el host rechazó la conexión: ¿está el servicio SSH escuchando en ese puerto?")
    } else if contiene_str(m, "connection timed out") || contiene_str(m, "operation timed out") {
        Some("el host no respondió a tiempo: ¿es alcanzable desde esta red?")
    } else if contiene_str(m, "name or service not known") || contiene_str(
        m,
        "could not resolve hostname",
    ) {
        Some("el nombre del host no se pudo resolver")
    } else if contiene_str(m, "no route to host") {
        Some("no hay ruta hasta el host")
    } else if contiene_str(m, "host key verification failed") {
        Some("la clave del host no está verificada: acéptala antes de conectar")
    } else if contiene_str(m, "remote host identification has changed") {
        Some("la clave del host HA CAMBIADO: no se conecta hasta que lo revises a mano")
    } else if contiene_str(m, "address already in use") || contiene_str(
        m,
        "cannot listen to port",
    ) {
        Some("el puerto local ya está ocupado")
    } else if contiene_str(m, "port forwarding failed") {
        Some("el reenvío no se pudo establecer")
    } else if contiene_str(m, "control socket connect") {
        Some("no hay ninguna conexión maestra escuchando en ese socket")
    } else if contiene_str(m, "too many authentication failures") {
        Some("demasiados intentos de autenticación: el agente está ofreciendo claves de más")
    } else {
        None
    }
}

/// Índice de la última línea útil.
fn ultima_linea_util(ls: &Vec<Vec<char>>) -> (r: Option<usize>)
    ensures
        match r {
            Some(i) => i < ls@.len() && ultima_util(crate::config::parser::vistas_vec_char(ls@))
                == Some(ls@[i as int]@),
            None => ultima_util(crate::config::parser::vistas_vec_char(ls@)) is None,
        },
{
    let ghost v = crate::config::parser::vistas_vec_char(ls@);
    let mut k: usize = ls.len();
    proof {
        assert(v.take(k as int) =~= v);
    }
    while k > 0
        invariant
            k <= ls@.len(),
            v == crate::config::parser::vistas_vec_char(ls@),
            ultima_util(v) == ultima_util(v.take(k as int)),
        decreases k,
    {
        proof {
            assert(v.take(k as int).last() == ls@[k - 1]@);
            assert(v.take(k as int).drop_last() =~= v.take(k - 1));
        }
        let l = &ls[k - 1];
        let r = recortar(l.as_slice());
        if r.len() > 0 && !empieza_str(l.as_slice(), "Warning: Permanently added") {
            return Some(k - 1);
        }
        k -= 1;
    }
    proof {
        assert(v.take(0) =~= seq![]);
    }
    None
}

/// Traduce los mensajes de `ssh` más frecuentes a algo accionable.
///
/// No se inventa nada: si el mensaje no está en la tabla, se devuelve tal cual
/// (su última línea útil, sin blancos alrededor).
pub fn traducir_error_de_ssh(texto: &str) -> (r: String)
    ensures
        r@ == traduccion_de(texto@),
{
    let c = caracteres(texto);
    let ls = en_lineas(c.as_slice());
    let ghost v = crate::config::parser::vistas_vec_char(ls@);
    let elegida = ultima_linea_util(&ls);
    let base = match elegida {
        Some(i) => trozo(ls[i].as_slice(), 0, ls[i].len()),
        None => c,
    };
    proof {
        match elegida {
            Some(i) => {
                assert(ls@[i as int]@.subrange(0, ls@[i as int]@.len() as int) =~= ls@[i as int]@);
            },
            None => {},
        }
    }
    let ultima = recortar(base.as_slice());
    let bajo = en_minusculas(ultima.as_slice());
    match traduccion_exec(bajo.as_slice()) {
        Some(claro) => {
            let cl = caracteres(claro);
            if iguales(cl.as_slice(), ultima.as_slice()) {
                cadena(ultima.as_slice())
            } else {
                let mut r = cl;
                anexar_str(&mut r, "\n    ssh dijo: ");
                anexar(&mut r, ultima.as_slice());
                cadena(r.as_slice())
            }
        },
        None => cadena(ultima.as_slice()),
    }
}

/// Versión de OpenSSH según lo que escribió `ssh -V`: en el flujo de error, no
/// en el estándar.
pub fn version_openssh(salida: Resultado<Salida>) -> (r: Resultado<String>)
    ensures
        match salida {
            Err(e) => r == Err::<String, Error>(e),
            Ok(s) => r matches Ok(v) && v@ == (if recortado(s.error@).len() == 0 {
                recortado(s.estandar@)
            } else {
                recortado(s.error@)
            }),
        },
{
    match salida {
        Err(e) => Err(e),
        Ok(s) => {
            let t = texto_util_exec(&s);
            Ok(cadena(t.as_slice()))
        },
    }
}

fn texto_util_exec(s: &Salida) -> (r: Vec<char>)
    ensures
        r@ == texto_util(s.estandar@, s.error@),
{
    let e = recortar_str(s.error.as_str());
    if e.len() == 0 {
        recortar_str(s.estandar.as_str())
    } else {
        e
    }
}

// --- Versión mínima para el askpass forzado ---------------------------------------

/// Lo que sigue a `OpenSSH_` en la primera palabra que lo lleva.
pub open spec fn numero_de_version(ps: Seq<Seq<char>>) -> Seq<char>
    decreases ps.len(),
{
    if ps.len() == 0 {
        seq![]
    } else if empieza_por(ps[0], "OpenSSH_"@) {
        ps[0].skip(8)
    } else {
        numero_de_version(ps.drop_first())
    }
}

pub open spec fn o_cero(v: Option<u32>) -> u32 {
    match v {
        Some(x) => x,
        None => 0,
    }
}

/// Versión mayor y menor: los dos primeros trozos del número separados por
/// `.` o `p`, o cero si no son números.
pub open spec fn version_de(texto: Seq<char>) -> (u32, u32) {
    let partes = trozos(reemplazado(numero_de_version(palabras(texto)), 'p', '.'), '.');
    (
        o_cero(valor_u32(partes[0])),
        if partes.len() > 1 {
            o_cero(valor_u32(partes[1]))
        } else {
            0
        },
    )
}

/// La versión admite `SSH_ASKPASS_REQUIRE` (OpenSSH 8.4 o posterior).
pub open spec fn admite_forzado(texto: Seq<char>) -> bool {
    let (mayor, menor) = version_de(texto);
    mayor > 8 || (mayor == 8 && menor >= 4)
}

fn numero_tras_prefijo(ps: &Vec<Vec<char>>) -> (r: Vec<char>)
    ensures
        r@ == numero_de_version(vistas_vec(ps@)),
{
    let ghost v = vistas_vec(ps@);
    let mut i: usize = 0;
    proof {
        assert(v.skip(0) =~= v);
    }
    while i < ps.len()
        invariant
            i <= ps@.len(),
            v == vistas_vec(ps@),
            numero_de_version(v) == numero_de_version(v.skip(i as int)),
        decreases ps@.len() - i,
    {
        proof {
            assert(v.skip(i as int)[0] == ps@[i as int]@);
            assert(v.skip(i as int).drop_first() =~= v.skip(i + 1));
        }
        if empieza_str(ps[i].as_slice(), "OpenSSH_") {
            proof {
                reveal_strlit("OpenSSH_");
            }
            let r = trozo(ps[i].as_slice(), 8, ps[i].len());
            proof {
                assert(r@ =~= ps@[i as int]@.skip(8));
            }
            return r;
        }
        i += 1;
    }
    proof {
        assert(v.skip(i as int) =~= seq![]);
    }
    Vec::new()
}

/// `true` si la versión instalada admite `SSH_ASKPASS_REQUIRE` (OpenSSH >= 8.4).
pub fn admite_askpass_forzado(version: &str) -> (r: bool)
    ensures
        r == admite_forzado(version@),
{
    let c = caracteres(version);
    let ps = en_palabras(c.as_slice());
    let ghost v = vistas_vec(ps@);
    let numero = numero_tras_prefijo(&ps);
    let cambiado = reemplazar(numero.as_slice(), 'p', '.');
    let partes = trocear(cambiado.as_slice(), '.');
    proof {
        crate::texto::lema_trozos_no_vacio(cambiado@, '.');
        assert(vistas_vec(partes@)[0] == partes@[0]@);
    }
    let mayor = match leer_u32(partes[0].as_slice()) {
        Some(x) => x,
        None => 0,
    };
    let menor = if partes.len() > 1 {
        proof {
            assert(vistas_vec(partes@)[1] == partes@[1]@);
        }
        match leer_u32(partes[1].as_slice()) {
            Some(x) => x,
            None => 0,
        }
    } else {
        0
    };
    mayor > 8 || (mayor == 8 && menor >= 4)
}

} // verus!
