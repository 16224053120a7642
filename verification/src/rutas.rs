//! Rutas y convenciones XDG.
//!
//! Regla dura: **ninguna ruta absoluta codificada**. Todo sale de las
//! variables XDG o, en su defecto, de los valores por defecto de la
//! especificación. La biblioteca no lee el entorno: quien la llama le pasa el
//! directorio de inicio y las variables que haya, y aquí se decide qué ruta
//! resulta de ellas.

use vstd::prelude::*;

use crate::texto::{
    anexar, anexar_str, cadena, caracteres, empieza, empieza_por, sin_finales, quitar_finales,
    trozo,
};

verus! {

broadcast use vstd::string::group_string_axioms;

/// Nombre de la aplicación, usado como subdirectorio en todas las rutas XDG.
pub const APLICACION: &'static str = "yonder";

/// Fichero de configuración SSH propiedad **exclusiva** de la aplicación.
pub const FICHERO_TUNELES: &'static str = "config.d/yonder.conf";

/// Línea que la aplicación inserta en `~/.ssh/config` la primera vez.
pub const LINEA_INCLUDE: &'static str = "Include ~/.ssh/config.d/yonder.conf";

/// Longitud máxima segura para la ruta de un socket de control.
///
/// `sun_path` de `sockaddr_un` son 108 bytes contando el NUL final, y OpenSSH
/// añade un sufijo aleatorio de 17 caracteres (`.XXXXXXXXXXXXXXXX`) mientras
/// negocia el maestro.
pub const MAXIMO_RUTA_SOCKET: usize = 108 - 1 - 17;

/// Longitud del nombre de fichero de un socket de control: `ctl-` + 16 hex.
pub const LONGITUD_NOMBRE_SOCKET: usize = 4 + 16;

/// Prefijo de los sockets de control, para el descubrimiento al arrancar.
pub const PREFIJO_SOCKET: &'static str = "ctl-";

// --- Unión de rutas ----------------------------------------------------------------

/// `Path::join`: una ruta absoluta sustituye a la base; si no, se añade tras
/// un separador, salvo que la base esté vacía o ya acabe en uno.
pub open spec fn unida(base: Seq<char>, rel: Seq<char>) -> Seq<char> {
    if rel.len() > 0 && rel[0] == '/' {
        rel
    } else if base.len() == 0 {
        rel
    } else if base.last() == '/' {
        base + rel
    } else {
        base + seq!['/'] + rel
    }
}

/// `Path::join`.
pub fn unir(base: &str, rel: &str) -> (r: String)
    ensures
        r@ == unida(base@, rel@),
{
    let b = caracteres(base);
    let r = caracteres(rel);
    if r.len() > 0 && r[0] == '/' {
        return rel.to_string();
    }
    if b.len() == 0 {
        return rel.to_string();
    }
    let mut v = b;
    if v[v.len() - 1] != '/' {
        v.push('/');
    }
    anexar(&mut v, r.as_slice());
    cadena(v.as_slice())
}

/// Directorio de inicio tal como lo resuelve OpenSSH.
///
/// `ssh` expande el `~` de `~/.ssh/config` y de `Include` con la entrada de
/// passwd del usuario efectivo, no con `$HOME`. Si el fichero propio se
/// escribiera según `$HOME` y los dos no coincidieran, `ssh` no lo vería.
/// `del_passwd` es el directorio de passwd, si se pudo leer; vacío cuenta como
/// ausente, y entonces vale `hogar`, el del entorno.
pub fn hogar_segun_ssh(del_passwd: Option<&str>, hogar: &str) -> (r: String)
    ensures
        r@ == (match del_passwd {
            Some(p) => if p@.len() > 0 { p@ } else { hogar@ },
            None => hogar@,
        }),
{
    match del_passwd {
        Some(p) => {
            if p.unicode_len() > 0 {
                p.to_string()
            } else {
                hogar.to_string()
            }
        },
        None => hogar.to_string(),
    }
}

/// `~/.ssh`, a partir del directorio de inicio tal como lo resuelve `ssh`.
pub fn directorio_ssh(hogar: &str) -> (r: String)
    ensures
        r@ == unida(hogar@, ".ssh"@),
{
    unir(hogar, ".ssh")
}

/// `~/.ssh/config` — nunca se reescribe, salvo la línea `Include`.
pub fn config_ssh_usuario(hogar: &str) -> (r: String)
    ensures
        r@ == unida(unida(hogar@, ".ssh"@), "config"@),
{
    let d = directorio_ssh(hogar);
    unir(d.as_str(), "config")
}

/// `~/.ssh/config.d/yonder.conf` — fichero propio.
pub fn config_tuneles(hogar: &str) -> (r: String)
    ensures
        r@ == unida(unida(hogar@, ".ssh"@), FICHERO_TUNELES@),
{
    let d = directorio_ssh(hogar);
    unir(d.as_str(), FICHERO_TUNELES)
}

/// `~/.ssh/known_hosts`.
pub fn known_hosts(hogar: &str) -> (r: String)
    ensures
        r@ == unida(unida(hogar@, ".ssh"@), "known_hosts"@),
{
    let d = directorio_ssh(hogar);
    unir(d.as_str(), "known_hosts")
}

/// Base XDG: la variable si está definida y no vacía; si no, la ruta por
/// defecto bajo el directorio de inicio.
pub open spec fn base_xdg(variable: Option<Seq<char>>, hogar: Seq<char>, defecto: Seq<char>) -> Seq<
    char,
> {
    match variable {
        Some(v) => if v.len() > 0 {
            v
        } else {
            unida(hogar, defecto)
        },
        None => unida(hogar, defecto),
    }
}

pub open spec fn vista_variable(v: Option<&str>) -> Option<Seq<char>> {
    match v {
        Some(x) => Some(x@),
        None => None,
    }
}

fn base(variable: Option<&str>, hogar: &str, defecto: &str) -> (r: String)
    ensures
        r@ == base_xdg(vista_variable(variable), hogar@, defecto@),
{
    match variable {
        Some(v) => {
            let c = caracteres(v);
            if c.len() > 0 {
                v.to_string()
            } else {
                unir(hogar, defecto)
            }
        },
        None => unir(hogar, defecto),
    }
}

/// `$XDG_CONFIG_HOME/yonder` (por defecto `~/.config/yonder`).
pub fn config_aplicacion(xdg_config: Option<&str>, hogar: &str) -> (r: String)
    ensures
        r@ == unida(base_xdg(vista_variable(xdg_config), hogar@, ".config"@), APLICACION@),
{
    let b = base(xdg_config, hogar, ".config");
    unir(b.as_str(), APLICACION)
}

/// `$XDG_CONFIG_HOME/yonder/config.toml`.
pub fn preferencias(xdg_config: Option<&str>, hogar: &str) -> (r: String)
    ensures
        r@ == unida(
            unida(base_xdg(vista_variable(xdg_config), hogar@, ".config"@), APLICACION@),
            "config.toml"@,
        ),
{
    let d = config_aplicacion(xdg_config, hogar);
    unir(d.as_str(), "config.toml")
}

/// `$XDG_DATA_HOME/yonder` (por defecto `~/.local/share/yonder`).
pub fn datos(xdg_data: Option<&str>, hogar: &str) -> (r: String)
    ensures
        r@ == unida(base_xdg(vista_variable(xdg_data), hogar@, ".local/share"@), APLICACION@),
{
    let b = base(xdg_data, hogar, ".local/share");
    unir(b.as_str(), APLICACION)
}

/// `$XDG_DATA_HOME/yonder/estado.db`.
pub fn base_de_datos(xdg_data: Option<&str>, hogar: &str) -> (r: String)
    ensures
        r@ == unida(
            unida(base_xdg(vista_variable(xdg_data), hogar@, ".local/share"@), APLICACION@),
            "estado.db"@,
        ),
{
    let d = datos(xdg_data, hogar);
    unir(d.as_str(), "estado.db")
}

/// `$XDG_STATE_HOME/yonder` (por defecto `~/.local/state/yonder`).
pub fn estado_volatil(xdg_state: Option<&str>, hogar: &str) -> (r: String)
    ensures
        r@ == unida(base_xdg(vista_variable(xdg_state), hogar@, ".local/state"@), APLICACION@),
{
    let b = base(xdg_state, hogar, ".local/state");
    unir(b.as_str(), APLICACION)
}

/// `$XDG_STATE_HOME/yonder/yonder.log`.
pub fn registro(xdg_state: Option<&str>, hogar: &str) -> (r: String)
    ensures
        r@ == unida(
            unida(base_xdg(vista_variable(xdg_state), hogar@, ".local/state"@), APLICACION@),
            "yonder.log"@,
        ),
{
    let d = estado_volatil(xdg_state, hogar);
    unir(d.as_str(), "yonder.log")
}

// --- Sockets ---------------------------------------------------------------------

/// En ese directorio cabe la ruta completa de un socket de control, contada en
/// bytes como la cuenta el núcleo.
pub open spec fn cabe(bytes_directorio: nat) -> bool {
    bytes_directorio + 1 + LONGITUD_NOMBRE_SOCKET <= MAXIMO_RUTA_SOCKET
}

/// `true` si en ese directorio cabe la ruta completa de un socket de control.
pub fn cabe_un_socket(directorio: &str) -> (r: bool)
    ensures
        r == cabe(encoded_len(directorio@)),
{
    let bytes = directorio.as_bytes();
    let n = bytes.len();
    n <= MAXIMO_RUTA_SOCKET - 1 - LONGITUD_NOMBRE_SOCKET
}

/// `$XDG_RUNTIME_DIR/yonder`, el directorio de los sockets de control.
///
/// Si esa ruta no deja sitio para el socket dentro del límite de `sun_path` se
/// usa `corto` (el directorio temporal del usuario), que es corto por
/// construcción; sin `$XDG_RUNTIME_DIR` también.
pub fn ejecucion(runtime: Option<&str>, corto: &str) -> (r: String)
    ensures
        match runtime {
            Some(b) => {
                let preferido = unida(b@, APLICACION@);
                if b@.len() > 0 && cabe(encoded_len(preferido)) {
                    r@ == preferido
                } else {
                    r@ == corto@
                }
            },
            None => r@ == corto@,
        },
{
    match runtime {
        Some(b) => {
            let c = caracteres(b);
            if c.len() == 0 {
                return corto.to_string();
            }
            let preferido = unir(b, APLICACION);
            if cabe_un_socket(preferido.as_str()) {
                preferido
            } else {
                corto.to_string()
            }
        },
        None => corto.to_string(),
    }
}

/// Bytes de una ruta en UTF-8.
pub open spec fn encoded_len(s: Seq<char>) -> nat {
    vstd::utf8::encode_utf8(s).len()
}

/// `$XDG_RUNTIME_DIR/yonder/askpass.sock`.
pub fn socket_askpass(ejecucion: &str) -> (r: String)
    ensures
        r@ == unida(ejecucion@, "askpass.sock"@),
{
    unir(ejecucion, "askpass.sock")
}

/// Resumen SHA-256, tal como lo calcula `sha2`.
pub uninterp spec fn sha256(datos: Seq<u8>) -> Seq<u8>;

/// `sha2::Sha256::digest`: el resumen SHA-256 de los bytes, 32 bytes.
#[verifier::external_body]
fn resumen_sha256(datos: &[u8]) -> (r: Vec<u8>)
    ensures
        r@ == sha256(datos@),
        r@.len() == 32,
{
    <sha2::Sha256 as sha2::Digest>::digest(datos).to_vec()
}

pub open spec fn cifra_hex(n: u8) -> char {
    if n < 10 {
        (('0' as u8) + n) as char
    } else {
        (('a' as u8) + n - 10) as char
    }
}

/// Un byte en dos cifras hexadecimales en minúscula.
pub open spec fn hex_byte(b: u8) -> Seq<char> {
    seq![cifra_hex(b / 16), cifra_hex(b % 16)]
}

pub open spec fn hex(bs: Seq<u8>) -> Seq<char>
    decreases bs.len(),
{
    if bs.len() == 0 {
        seq![]
    } else {
        hex(bs.drop_last()) + hex_byte(bs.last())
    }
}

/// Huella del alias: los 8 primeros bytes de su SHA-256, en hexadecimal.
pub open spec fn huella(alias: Seq<char>) -> Seq<char> {
    hex(sha256(vstd::utf8::encode_utf8(alias)).take(8))
}

fn a_cifra_hex(n: u8) -> (c: char)
    requires
        n < 16,
    ensures
        c == cifra_hex(n),
{
    if n < 10 {
        (48 + n) as char
    } else {
        (97 + n - 10) as char
    }
}

/// Huella corta y estable de un alias: 16 cifras hexadecimales.
///
/// El nombre del socket sale de aquí en lugar del alias literal: los alias
/// pueden tener caracteres inválidos para un nombre de fichero, y la ruta del
/// socket tiene un límite duro de 108 bytes.
pub fn huella_alias(alias: &str) -> (r: String)
    ensures
        r@ == huella(alias@),
        r@.len() == 16,
{
    let resumen = resumen_sha256(alias.as_bytes());
    hex_de_prefijo(&resumen, 8)
}

/// Los `n` primeros bytes de un resumen, en hexadecimal en minúscula.
pub fn hex_de_prefijo(resumen: &Vec<u8>, n: usize) -> (r: String)
    requires
        n <= resumen@.len(),
    ensures
        r@ == hex(resumen@.take(n as int)),
        r@.len() == 2 * n,
{
    let mut v: Vec<char> = Vec::new();
    let mut i: usize = 0;
    proof {
        assert(resumen@.take(0) =~= seq![]);
    }
    while i < n
        invariant
            i <= n,
            n <= resumen@.len(),
            v@ == hex(resumen@.take(i as int)),
            v@.len() == 2 * i,
        decreases n - i,
    {
        let b = resumen[i];
        v.push(a_cifra_hex(b / 16));
        v.push(a_cifra_hex(b % 16));
        proof {
            assert(resumen@.take(i + 1).drop_last() =~= resumen@.take(i as int));
            assert(v@ =~= hex(resumen@.take(i as int)) + hex_byte(b));
        }
        i += 1;
    }
    cadena(v.as_slice())
}

/// Socket de control de un alias: `<ejecucion>/ctl-<huella>`.
pub fn socket_control(ejecucion: &str, alias: &str) -> (r: String)
    ensures
        r@ == unida(ejecucion@, PREFIJO_SOCKET@ + huella(alias@)),
{
    let mut nombre = caracteres(PREFIJO_SOCKET);
    let h = huella_alias(alias);
    anexar_str(&mut nombre, h.as_str());
    let n = cadena(nombre.as_slice());
    unir(ejecucion, n.as_str())
}

// --- Tilde ------------------------------------------------------------------------

/// Expansión del `~` de una ruta de `ssh_config`: solo `~` y `~/…`.
pub open spec fn expandida(hogar: Seq<char>, ruta: Seq<char>) -> Seq<char> {
    if ruta.len() > 0 && ruta[0] == '~' {
        let resto = ruta.drop_first();
        if resto.len() == 0 {
            hogar
        } else if resto[0] == '/' {
            unida(hogar, resto.drop_first())
        } else {
            ruta
        }
    } else {
        ruta
    }
}

/// Expande el `~` de una ruta de `ssh_config` **como lo expande `ssh`**, con
/// el directorio de inicio de `passwd`.
///
/// Solo «~/…» y «~» pelado: «~otrousuario/…» lo resuelve `ssh` con el passwd
/// de ese otro usuario y aquí no se adivina.
pub fn expandir(hogar: &str, ruta: &str) -> (r: String)
    ensures
        r@ == expandida(hogar@, ruta@),
{
    let c = caracteres(ruta);
    if c.len() > 0 && c[0] == '~' {
        if c.len() == 1 {
            hogar.to_string()
        } else if c[1] == '/' {
            let cola = trozo(c.as_slice(), 2, c.len());
            let cola = cadena(cola.as_slice());
            proof {
                assert(c@.subrange(2, c@.len() as int) =~= c@.drop_first().drop_first());
            }
            unir(hogar, cola.as_str())
        } else {
            ruta.to_string()
        }
    } else {
        ruta.to_string()
    }
}

/// Lo que queda de `ruta` tras el prefijo `base`, componente a componente.
pub open spec fn tras_prefijo(ruta: Seq<char>, base: Seq<char>) -> Option<Seq<char>> {
    let b = sin_finales(base, '/');
    if ruta == b {
        Some(seq![])
    } else if empieza_por(ruta, b + seq!['/']) {
        Some(ruta.skip(b.len() + 1int))
    } else {
        None
    }
}

pub open spec fn abreviada(hogares: Seq<Seq<char>>, ruta: Seq<char>) -> Seq<char>
    decreases hogares.len(),
{
    if hogares.len() == 0 {
        ruta
    } else {
        match tras_prefijo(ruta, hogares[0]) {
            Some(resto) => "~/"@ + resto,
            None => abreviada(hogares.drop_first(), ruta),
        }
    }
}

/// Reduce una ruta absoluta a su forma con `~` para mostrarla en la interfaz.
///
/// Se prueban los directorios de inicio en orden (el de `passwd` y `$HOME`),
/// porque las rutas de la aplicación mezclan ambos.
pub fn abreviar(hogares: &Vec<String>, ruta: &str) -> (r: String)
    ensures
        r@ == abreviada(crate::texto::vistas(hogares@), ruta@),
{
    let c = caracteres(ruta);
    let mut i: usize = 0;
    proof {
        assert(crate::texto::vistas(hogares@).skip(0) =~= crate::texto::vistas(hogares@));
    }
    while i < hogares.len()
        invariant
            i <= hogares@.len(),
            c@ == ruta@,
            abreviada(crate::texto::vistas(hogares@), ruta@) == abreviada(
                crate::texto::vistas(hogares@).skip(i as int),
                ruta@,
            ),
        decreases hogares@.len() - i,
    {
        proof {
            let v = crate::texto::vistas(hogares@).skip(i as int);
            assert(v[0] == hogares@[i as int]@);
            assert(v.drop_first() =~= crate::texto::vistas(hogares@).skip(i + 1));
        }
        let h = caracteres(hogares[i].as_str());
        let b = quitar_finales(h.as_slice(), '/');
        if crate::texto::iguales(c.as_slice(), b.as_slice()) {
            proof {
                assert("~/"@ + seq![] =~= "~/"@);
            }
            return "~/".to_string();
        }
        let mut con_barra = b;
        con_barra.push('/');
        proof {
            assert(con_barra@ =~= b@ + seq!['/']);
        }
        if empieza(c.as_slice(), con_barra.as_slice()) {
            let mut v = caracteres("~/");
            let resto = trozo(c.as_slice(), con_barra.len(), c.len());
            anexar(&mut v, resto.as_slice());
            proof {
                assert(resto@ =~= c@.skip(con_barra@.len() as int));
            }
            return cadena(v.as_slice());
        }
        i += 1;
    }
    proof {
        assert(crate::texto::vistas(hogares@).skip(i as int) =~= seq![]);
    }
    ruta.to_string()
}

// --- Igualdad de rutas ----------------------------------------------------------------

/// Componentes que cuentan para comparar: sin vacíos (barras repetidas o
/// finales) ni `.` intermedios.
pub open spec fn partes_utiles(ps: Seq<Seq<char>>) -> Seq<Seq<char>>
    decreases ps.len(),
{
    if ps.len() == 0 {
        seq![]
    } else {
        let previas = partes_utiles(ps.drop_last());
        let x = ps.last();
        if x.len() == 0 || x == "."@ {
            previas
        } else {
            previas.push(x)
        }
    }
}

/// Componentes de una ruta como los ve `Path::components`: si es absoluta, si
/// empieza por `.` y el resto de nombres.
pub open spec fn componentes(p: Seq<char>) -> (bool, bool, Seq<Seq<char>>) {
    let absoluta = p.len() > 0 && p[0] == '/';
    let ps = crate::texto::trozos(p, '/');
    (absoluta, !absoluta && ps.len() > 0 && ps[0] == "."@, partes_utiles(ps))
}

/// Dos rutas son la misma para `Path`: los mismos componentes.
pub open spec fn misma_ruta(a: Seq<char>, b: Seq<char>) -> bool {
    componentes(a) == componentes(b)
}

pub(crate) fn partes_de(p: &str) -> (r: (bool, bool, Vec<Vec<char>>))
    ensures
        r.0 == componentes(p@).0,
        r.1 == componentes(p@).1,
        crate::texto::vistas_vec(r.2@) == componentes(p@).2,
{
    let c = caracteres(p);
    let absoluta = c.len() > 0 && c[0] == '/';
    let ps = crate::texto::trocear(c.as_slice(), '/');
    let punto = !absoluta && ps.len() > 0 && crate::texto::es_str(ps[0].as_slice(), ".");
    proof {
        if ps@.len() > 0 {
            assert(crate::texto::vistas_vec(ps@)[0] == ps@[0]@);
        }
    }
    let mut r: Vec<Vec<char>> = Vec::new();
    let mut i: usize = 0;
    proof {
        assert(crate::texto::vistas_vec(ps@).take(0) =~= seq![]);
        assert(crate::texto::vistas_vec(r@) =~= seq![]);
    }
    while i < ps.len()
        invariant
            i <= ps@.len(),
            crate::texto::vistas_vec(r@) == partes_utiles(crate::texto::vistas_vec(ps@).take(i as int)),
        decreases ps@.len() - i,
    {
        proof {
            let t = crate::texto::vistas_vec(ps@).take(i + 1);
            assert(t.drop_last() =~= crate::texto::vistas_vec(ps@).take(i as int));
            assert(t.last() == ps@[i as int]@);
        }
        let x = &ps[i];
        if !(x.len() == 0 || crate::texto::es_str(x.as_slice(), ".")) {
            let ghost antes = r@;
            let copia = crate::texto::trozo(x.as_slice(), 0, x.len());
            r.push(copia);
            proof {
                assert(x@.subrange(0, x@.len() as int) =~= x@);
                assert(crate::texto::vistas_vec(r@) =~= crate::texto::vistas_vec(antes).push(x@));
            }
        }
        i += 1;
    }
    proof {
        assert(crate::texto::vistas_vec(ps@).take(ps@.len() as int) =~= crate::texto::vistas_vec(
            ps@,
        ));
    }
    (absoluta, punto, r)
}

/// `Path == Path`: compara componente a componente.
pub fn misma(a: &str, b: &str) -> (r: bool)
    ensures
        r == misma_ruta(a@, b@),
{
    let (a0, a1, a2) = partes_de(a);
    let (b0, b1, b2) = partes_de(b);
    if a0 != b0 || a1 != b1 || a2.len() != b2.len() {
        proof {
            if a2@.len() != b2@.len() {
                assert(crate::texto::vistas_vec(a2@).len() != crate::texto::vistas_vec(b2@).len());
            }
        }
        return false;
    }
    let mut i: usize = 0;
    while i < a2.len()
        invariant
            i <= a2@.len() == b2@.len(),
            crate::texto::vistas_vec(a2@) == componentes(a@).2,
            crate::texto::vistas_vec(b2@) == componentes(b@).2,
            forall|j: int| 0 <= j < i ==> a2@[j]@ == b2@[j]@,
        decreases a2@.len() - i,
    {
        if !crate::texto::iguales(a2[i].as_slice(), b2[i].as_slice()) {
            proof {
                assert(crate::texto::vistas_vec(a2@)[i as int] != crate::texto::vistas_vec(
                    b2@,
                )[i as int]);
                assert(componentes(a@).2[i as int] != componentes(b@).2[i as int]);
            }
            return false;
        }
        i += 1;
    }
    proof {
        assert(crate::texto::vistas_vec(a2@) =~= crate::texto::vistas_vec(b2@));
    }
    true
}

} // verus!
