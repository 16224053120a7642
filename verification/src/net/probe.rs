//! Sondeo de puertos locales.
//!
//! Dos usos distintos y ambos imprescindibles:
//!
//! - **Antes de conectar**: comprobar que el puerto local está libre y, si no
//!   lo está, decir *quién* lo ocupa. Sin esto `ssh` falla con un mensaje que
//!   no ayuda a nadie.
//! - **Mientras el túnel está activo**: comprobar que el puerto sigue en
//!   escucha. Es lo que distingue `Activo` de `Degradado`. Se hace leyendo
//!   `/proc/net/tcp`, no conectando: abrir una conexión al puerto atravesaría
//!   el túnel y tendría efectos en el otro extremo.
//!
//! Leer `/proc` y abrir sockets queda fuera de la biblioteca; aquí se
//! interpreta lo leído: las líneas de `/proc/net/tcp` y `tcp6`, la línea
//! `CapEff` de `/proc/self/status` y la fotografía de los puertos en escucha.

use vstd::prelude::*;

use crate::config::parser::{en_lineas, lineas};
use crate::error::Error;
use crate::texto::{
    anexar, anexar_str, cadena, caracteres, decimal, empieza_por, empieza_str, en_decimal,
    en_palabras, es_str, palabras, primera_pos, trozo, vistas_vec,
};

verus! {

broadcast use {vstd::string::group_string_axioms, vstd::array::group_array_axioms};

/// Lo que ocupa un texto en UTF-8, tal como lo da `str::len`.
pub open spec fn bytes_de(s: Seq<char>) -> nat {
    (vstd::utf8::encode_utf8(s).len() as usize) as nat
}

/// Estado TCP «LISTEN» tal como lo escribe el núcleo en `/proc/net/tcp`.
pub const ESTADO_LISTEN: &'static str = "0A";

// --- Números en base 10 y 16 --------------------------------------------------

/// Valor de una cifra hexadecimal o decimal; 16 si no es cifra.
pub open spec fn valor_cifra(c: char) -> nat {
    if '0' <= c && c <= '9' {
        ((c as u32) - ('0' as u32)) as nat
    } else if 'a' <= c && c <= 'f' {
        ((c as u32) - ('a' as u32) + 10) as nat
    } else if 'A' <= c && c <= 'F' {
        ((c as u32) - ('A' as u32) + 10) as nat
    } else {
        16
    }
}

pub open spec fn cifras_en_base(s: Seq<char>, base: nat) -> bool {
    forall|i: int| 0 <= i < s.len() ==> valor_cifra(#[trigger] s[i]) < base
}

pub open spec fn valor_en_base(s: Seq<char>, base: nat) -> nat
    decreases s.len(),
{
    if s.len() == 0 {
        0
    } else {
        valor_en_base(s.drop_last(), base) * base + valor_cifra(s.last())
    }
}

pub open spec fn sin_mas(s: Seq<char>) -> Seq<char> {
    if s.len() > 0 && s[0] == '+' {
        s.drop_first()
    } else {
        s
    }
}

/// Lo que `from_str_radix` devuelve para un entero sin signo de valor máximo
/// `tope`: un `+` inicial opcional y al menos una cifra de la base.
pub open spec fn numero(s: Seq<char>, base: nat, tope: nat) -> Option<nat> {
    let d = sin_mas(s);
    if d.len() > 0 && cifras_en_base(d, base) && valor_en_base(d, base) <= tope {
        Some(valor_en_base(d, base))
    } else {
        None
    }
}

proof fn lema_valor_crece(s: Seq<char>, base: nat, i: int)
    requires
        0 <= i <= s.len(),
        base >= 1,
        cifras_en_base(s, base),
    ensures
        valor_en_base(s.take(i), base) <= valor_en_base(s, base),
    decreases s.len() - i,
{
    if i < s.len() {
        lema_valor_crece(s, base, i + 1);
        assert(s.take(i + 1).drop_last() =~= s.take(i));
        let v = valor_en_base(s.take(i), base);
        assert(v * base >= v) by (nonlinear_arith)
            requires
                base >= 1,
        ;
    } else {
        assert(s.take(i) =~= s);
    }
}

fn cifra(c: char) -> (r: u32)
    ensures
        r == valor_cifra(c),
{
    if '0' <= c && c <= '9' {
        (c as u32) - ('0' as u32)
    } else if 'a' <= c && c <= 'f' {
        (c as u32) - ('a' as u32) + 10
    } else if 'A' <= c && c <= 'F' {
        (c as u32) - ('A' as u32) + 10
    } else {
        16
    }
}

/// `from_str_radix` para enteros sin signo, en base 10 o 16, sin pasar de
/// `tope`.
pub fn leer_numero(s: &[char], base: u32, tope: u64) -> (r: Option<u64>)
    requires
        base == 10 || base == 16,
    ensures
        match r {
            Some(v) => numero(s@, base as nat, tope as nat) == Some(v as nat),
            None => numero(s@, base as nat, tope as nat) is None,
        },
{
    let d = if s.len() > 0 && s[0] == '+' {
        trozo(s, 1, s.len())
    } else {
        trozo(s, 0, s.len())
    };
    proof {
        assert(s@.subrange(0, s@.len() as int) =~= s@);
        if s@.len() > 0 {
            assert(s@.subrange(1, s@.len() as int) =~= s@.drop_first());
        }
        assert(d@ == sin_mas(s@));
    }
    if d.len() == 0 {
        return None;
    }
    let mut valor: u128 = 0;
    let mut i: usize = 0;
    proof {
        assert(d@.take(0) =~= seq![]);
    }
    while i < d.len()
        invariant
            i <= d@.len(),
            base == 10 || base == 16,
            d@ == sin_mas(s@),
            d@.len() > 0,
            cifras_en_base(d@.take(i as int), base as nat),
            valor == valor_en_base(d@.take(i as int), base as nat),
            valor <= tope,
        decreases d@.len() - i,
    {
        let c = d[i];
        let v = cifra(c);
        proof {
            assert(d@.take(i + 1).drop_last() =~= d@.take(i as int));
            assert(d@.take(i + 1).last() == c);
        }
        if v >= base {
            proof {
                assert(!(valor_cifra(d@[i as int]) < base as nat));
            }
            return None;
        }
        proof {
            assert(valor * base + v <= u128::MAX) by (nonlinear_arith)
                requires
                    valor <= u64::MAX,
                    base <= 16,
                    v < 16,
            ;
        }
        let nuevo: u128 = valor * (base as u128) + (v as u128);
        proof {
            assert(cifras_en_base(d@.take(i + 1), base as nat)) by {
                assert forall|j: int| 0 <= j < i + 1 implies valor_cifra(
                    #[trigger] d@.take(i + 1)[j],
                ) < base as nat by {
                    if j < i {
                        assert(d@.take(i + 1)[j] == d@.take(i as int)[j]);
                    }
                }
            }
        }
        if nuevo > tope as u128 {
            proof {
                if cifras_en_base(d@, base as nat) {
                    lema_valor_crece(d@, base as nat, i + 1);
                }
            }
            return None;
        }
        valor = nuevo;
        i += 1;
    }
    proof {
        assert(d@.take(d@.len() as int) =~= d@);
    }
    Some(valor as u64)
}

// --- Direcciones ----------------------------------------------------------------

/// Dirección IP en bytes, en el orden de la red.
#[derive(Debug, Clone, Copy, PartialEq, Eq)]
pub enum Ip {
    V4([u8; 4]),
    V6([u8; 16]),
}

pub enum IpV {
    V4(Seq<u8>),
    V6(Seq<u8>),
}

impl View for Ip {
    type V = IpV;

    open spec fn view(&self) -> IpV {
        match self {
            Ip::V4(o) => IpV::V4(o@),
            Ip::V6(o) => IpV::V6(o@),
        }
    }
}

/// Los cuatro bytes de `n` empezando por el menos significativo: el orden de
/// máquina en que el núcleo escribe las direcciones.
pub open spec fn bytes_le(n: nat) -> Seq<u8> {
    seq![
        (n % 256) as u8,
        ((n / 256) % 256) as u8,
        ((n / 65536) % 256) as u8,
        ((n / 16777216) % 256) as u8,
    ]
}

fn en_bytes_le(n: u32) -> (r: [u8; 4])
    ensures
        r@ == bytes_le(n as nat),
{
    let r = [(n % 256) as u8, ((n / 256) % 256) as u8, ((n / 65536) % 256) as u8, ((n / 16777216)
        % 256) as u8];
    proof {
        assert(r@ =~= bytes_le(n as nat));
    }
    r
}

/// La IPv4 que escribe el núcleo: un `u32` en hexadecimal y en orden de
/// máquina.
pub open spec fn ipv4_de(hex: Seq<char>) -> Option<Seq<u8>> {
    match numero(hex, 16, 0xffff_ffff) {
        Some(n) => Some(bytes_le(n)),
        None => None,
    }
}

/// La palabra `k` de una IPv6 del núcleo: ocho cifras hexadecimales.
pub open spec fn palabra_ipv6(hex: Seq<char>, k: int) -> Option<nat> {
    numero(hex.subrange(8 * k, 8 * k + 8), 16, 0xffff_ffff)
}

/// La IPv6 que escribe el núcleo: 32 bytes de texto, cuatro palabras de 32
/// bits, cada una en orden de máquina. `bytes` es lo que ocupa el texto en
/// UTF-8.
pub open spec fn ipv6_de(hex: Seq<char>, bytes: nat) -> Option<Seq<u8>> {
    if bytes != 32 || hex.len() != 32 {
        None
    } else {
        match (
            palabra_ipv6(hex, 0),
            palabra_ipv6(hex, 1),
            palabra_ipv6(hex, 2),
            palabra_ipv6(hex, 3),
        ) {
            (Some(a), Some(b), Some(c), Some(d)) => Some(
                bytes_le(a) + bytes_le(b) + bytes_le(c) + bytes_le(d),
            ),
            _ => None,
        }
    }
}

/// Las tres marcas entre palabras de una IPv6 caen en frontera de carácter.
pub open spec fn marcas_en_frontera(b: Seq<u8>) -> bool {
    &&& vstd::utf8::is_char_boundary(b, 8)
    &&& vstd::utf8::is_char_boundary(b, 16)
    &&& vstd::utf8::is_char_boundary(b, 24)
}

fn leer_ipv4(hex: &[char]) -> (r: Option<[u8; 4]>)
    ensures
        match r {
            Some(o) => ipv4_de(hex@) == Some(o@),
            None => ipv4_de(hex@) is None,
        },
{
    match leer_numero(hex, 16, 0xffff_ffff) {
        Some(n) => Some(en_bytes_le(n as u32)),
        None => None,
    }
}

fn leer_ipv6(hex: &[char], bytes: usize) -> (r: Option<[u8; 16]>)
    ensures
        match r {
            Some(o) => ipv6_de(hex@, bytes as nat) == Some(o@),
            None => ipv6_de(hex@, bytes as nat) is None,
        },
{
    if bytes != 32 || hex.len() != 32 {
        return None;
    }
    let t0 = trozo(hex, 0, 8);
    let t1 = trozo(hex, 8, 16);
    let t2 = trozo(hex, 16, 24);
    let t3 = trozo(hex, 24, 32);
    let a = leer_numero(t0.as_slice(), 16, 0xffff_ffff);
    let b = leer_numero(t1.as_slice(), 16, 0xffff_ffff);
    let c = leer_numero(t2.as_slice(), 16, 0xffff_ffff);
    let d = leer_numero(t3.as_slice(), 16, 0xffff_ffff);
    match (a, b, c, d) {
        (Some(a), Some(b), Some(c), Some(d)) => {
            let x = en_bytes_le(a as u32);
            let y = en_bytes_le(b as u32);
            let z = en_bytes_le(c as u32);
            let w = en_bytes_le(d as u32);
            let r = [
                x[0],
                x[1],
                x[2],
                x[3],
                y[0],
                y[1],
                y[2],
                y[3],
                z[0],
                z[1],
                z[2],
                z[3],
                w[0],
                w[1],
                w[2],
                w[3],
            ];
            proof {
                assert(r@ =~= x@ + y@ + z@ + w@);
            }
            Some(r)
        },
        _ => None,
    }
}

/// Descodifica una IPv4 de `/proc/net/tcp`.
pub fn analizar_ipv4(hexadecimal: &str) -> (r: Option<Ip>)
    ensures
        match r {
            Some(Ip::V4(o)) => ipv4_de(hexadecimal@) == Some(o@),
            Some(Ip::V6(_)) => false,
            None => ipv4_de(hexadecimal@) is None,
        },
{
    let c = caracteres(hexadecimal);
    match leer_ipv4(c.as_slice()) {
        Some(o) => Some(Ip::V4(o)),
        None => None,
    }
}

/// Descodifica una IPv6 de `/proc/net/tcp6`.
///
/// El texto se trocea por bytes: un texto de 32 bytes cuyas marcas entre
/// palabras partieran un carácter no es una entrada válida.
pub fn analizar_ipv6(hexadecimal: &str) -> (r: Option<Ip>)
    requires
        bytes_de(hexadecimal@) == 32 ==> marcas_en_frontera(vstd::utf8::encode_utf8(hexadecimal@)),
    ensures
        match r {
            Some(Ip::V6(o)) => ipv6_de(hexadecimal@, bytes_de(hexadecimal@)) == Some(o@),
            Some(Ip::V4(_)) => false,
            None => ipv6_de(hexadecimal@, bytes_de(hexadecimal@)) is None,
        },
{
    let c = caracteres(hexadecimal);
    match leer_ipv6(c.as_slice(), hexadecimal.len()) {
        Some(o) => Some(Ip::V6(o)),
        None => None,
    }
}

/// Una dirección comodín (`0.0.0.0` o `::`): cubre cualquier dirección local.
pub open spec fn comodin(ip: IpV) -> bool {
    todo_cero(octetos(ip))
}

/// Los bytes de una dirección.
pub open spec fn octetos(ip: IpV) -> Seq<u8> {
    match ip {
        IpV::V4(o) => o,
        IpV::V6(o) => o,
    }
}

pub open spec fn todo_cero(o: Seq<u8>) -> bool {
    forall|i: int| 0 <= i < o.len() ==> o[i] == 0
}

fn todo_ceros(o: &[u8]) -> (r: bool)
    ensures
        r == todo_cero(o@),
{
    let mut i: usize = 0;
    while i < o.len()
        invariant
            i <= o@.len(),
            forall|j: int| 0 <= j < i ==> o@[j] == 0,
        decreases o@.len() - i,
    {
        if o[i] != 0 {
            return false;
        }
        i += 1;
    }
    true
}

fn mismos_bytes(a: &[u8], b: &[u8]) -> (r: bool)
    ensures
        r == (a@ == b@),
{
    if a.len() != b.len() {
        return false;
    }
    let mut i: usize = 0;
    while i < a.len()
        invariant
            i <= a@.len(),
            a@.len() == b@.len(),
            forall|j: int| 0 <= j < i ==> a@[j] == b@[j],
        decreases a@.len() - i,
    {
        if a[i] != b[i] {
            return false;
        }
        i += 1;
    }
    proof {
        assert(a@ =~= b@);
    }
    true
}

impl Ip {
    /// Si es la dirección comodín.
    pub fn es_comodin(&self) -> (r: bool)
        ensures
            r == comodin(self@),
    {
        match self {
            Ip::V4(o) => todo_ceros(o.as_slice()),
            Ip::V6(o) => todo_ceros(o.as_slice()),
        }
    }

    /// Si es la misma dirección que `otra`.
    pub fn misma(&self, otra: &Ip) -> (r: bool)
        ensures
            r == (self@ == otra@),
    {
        match (self, otra) {
            (Ip::V4(a), Ip::V4(b)) => mismos_bytes(a.as_slice(), b.as_slice()),
            (Ip::V6(a), Ip::V6(b)) => mismos_bytes(a.as_slice(), b.as_slice()),
            _ => false,
        }
    }
}

// --- Líneas de /proc/net/tcp ----------------------------------------------------

/// Una entrada de `/proc/net/tcp` o `/proc/net/tcp6`.
#[derive(Debug)]
pub struct Socket {
    pub direccion: Ip,
    pub puerto: u16,
    pub estado: String,
    pub uid: u32,
    pub inodo: u64,
}

pub struct SocketV {
    pub direccion: IpV,
    pub puerto: u16,
    pub estado: Seq<char>,
    pub uid: u32,
    pub inodo: u64,
}

impl View for Socket {
    type V = SocketV;

    open spec fn view(&self) -> SocketV {
        SocketV {
            direccion: self.direccion@,
            puerto: self.puerto,
            estado: self.estado@,
            uid: self.uid,
            inodo: self.inodo,
        }
    }
}

/// El campo de la dirección local de una línea: lo que hay antes de los dos
/// puntos de la segunda columna.
pub open spec fn direccion_de_linea(l: Seq<char>) -> Option<Seq<char>> {
    let campos = palabras(l);
    if campos.len() < 10 {
        None
    } else {
        match primera_pos(campos[1], ':') {
            Some(k) => Some(campos[1].take(k)),
            None => None,
        }
    }
}

/// Lo que se lee de una línea de `/proc/net/tcp`.
///
/// Columnas: `sl local rem st tx:rx tr:when retrnsmt uid timeout inode …`. Un
/// uid ilegible cuenta como 0; cualquier otro campo ilegible invalida la
/// línea.
pub open spec fn socket_de(l: Seq<char>, ipv6: bool) -> Option<SocketV> {
    let campos = palabras(l);
    if campos.len() < 10 {
        None
    } else {
        match primera_pos(campos[1], ':') {
            None => None,
            Some(k) => {
                let dir = campos[1].take(k);
                let ip = if ipv6 {
                    match ipv6_de(dir, bytes_de(dir)) {
                        Some(o) => Some(IpV::V6(o)),
                        None => None,
                    }
                } else {
                    match ipv4_de(dir) {
                        Some(o) => Some(IpV::V4(o)),
                        None => None,
                    }
                };
                match (
                    ip,
                    numero(campos[1].skip(k + 1), 16, 65535),
                    numero(campos[9], 10, 0xffff_ffff_ffff_ffff),
                ) {
                    (Some(d), Some(p), Some(i)) => Some(
                        SocketV {
                            direccion: d,
                            puerto: p as u16,
                            estado: campos[3],
                            uid: match numero(campos[7], 10, 0xffff_ffff) {
                                Some(u) => u as u32,
                                None => 0,
                            },
                            inodo: i as u64,
                        },
                    ),
                    _ => None,
                }
            },
        }
    }
}

/// Una línea se puede analizar si, en `tcp6`, su dirección de 32 bytes no
/// tiene un carácter partido por las marcas entre palabras.
pub open spec fn admisible(l: Seq<char>, ipv6: bool) -> bool {
    ipv6 ==> match direccion_de_linea(l) {
        Some(d) => bytes_de(d) == 32 ==> marcas_en_frontera(
            vstd::utf8::encode_utf8(d),
        ),
        None => true,
    }
}

/// Si una línea se puede analizar: en `tcp6`, la dirección de 32 bytes no
/// tiene un carácter partido por las marcas entre palabras.
pub fn es_admisible(linea: &str, ipv6: bool) -> (r: bool)
    ensures
        r == admisible(linea@, ipv6),
{
    if !ipv6 {
        return true;
    }
    let texto = caracteres(linea);
    let campos = en_palabras(texto.as_slice());
    if campos.len() < 10 {
        return true;
    }
    let segunda = &campos[1];
    proof {
        assert(segunda@ == palabras(linea@)[1]);
        crate::texto::lema_primera_pos(segunda@, ':');
    }
    match crate::texto::posicion(segunda.as_slice(), ':') {
        None => true,
        Some(k) => {
            let dir = cadena(trozo(segunda.as_slice(), 0, k).as_slice());
            let d = dir.as_str();
            proof {
                assert(d@ =~= segunda@.take(k as int));
            }
            if d.len() != 32 {
                return true;
            }
            d.is_char_boundary(8) && d.is_char_boundary(16) && d.is_char_boundary(24)
        },
    }
}

/// Analiza una línea de `/proc/net/tcp` (o de `tcp6` si `ipv6`).
pub fn analizar_linea(linea: &str, ipv6: bool) -> (r: Option<Socket>)
    requires
        admisible(linea@, ipv6),
    ensures
        match r {
            Some(s) => socket_de(linea@, ipv6) == Some(s@),
            None => socket_de(linea@, ipv6) is None,
        },
{
    let texto = caracteres(linea);
    let campos = en_palabras(texto.as_slice());
    proof {
        assert(vistas_vec(campos@) == palabras(linea@));
    }
    if campos.len() < 10 {
        return None;
    }
    let segunda = &campos[1];
    proof {
        assert(segunda@ == palabras(linea@)[1]);
        crate::texto::lema_primera_pos(segunda@, ':');
    }
    let k = match crate::texto::posicion(segunda.as_slice(), ':') {
        Some(k) => k,
        None => {
            return None;
        },
    };
    proof {
        assert(k < segunda@.len());
    }
    let dir = trozo(segunda.as_slice(), 0, k);
    let pto = trozo(segunda.as_slice(), k + 1, segunda.len());
    proof {
        assert(dir@ =~= segunda@.take(k as int));
        assert(pto@ =~= segunda@.skip(k + 1));
    }
    let direccion = if ipv6 {
        let como_texto = cadena(dir.as_slice());
        let bytes = como_texto.as_str().len();
        match leer_ipv6(dir.as_slice(), bytes) {
            Some(o) => Some(Ip::V6(o)),
            None => None,
        }
    } else {
        match leer_ipv4(dir.as_slice()) {
            Some(o) => Some(Ip::V4(o)),
            None => None,
        }
    };
    let puerto = leer_numero(pto.as_slice(), 16, 65535);
    let inodo = leer_numero(campos[9].as_slice(), 10, 0xffff_ffff_ffff_ffff);
    let uid = match leer_numero(campos[7].as_slice(), 10, 0xffff_ffff) {
        Some(u) => u as u32,
        None => 0,
    };
    proof {
        assert(campos@[9]@ == palabras(linea@)[9]);
        assert(campos@[7]@ == palabras(linea@)[7]);
        assert(campos@[3]@ == palabras(linea@)[3]);
    }
    match (direccion, puerto, inodo) {
        (Some(d), Some(p), Some(i)) => Some(
            Socket {
                direccion: d,
                puerto: p as u16,
                estado: cadena(campos[3].as_slice()),
                uid,
                inodo: i,
            },
        ),
        _ => None,
    }
}

/// Las líneas de un fichero sin la primera, que es la cabecera.
pub open spec fn sin_cabecera(ls: Seq<Seq<char>>) -> Seq<Seq<char>> {
    if ls.len() == 0 {
        seq![]
    } else {
        ls.drop_first()
    }
}

/// Las entradas que se leen de las líneas de un fichero `/proc/net/tcp`: las
/// ilegibles se descartan.
pub open spec fn sockets_de(lineas: Seq<Seq<char>>, ipv6: bool) -> Seq<SocketV>
    decreases lineas.len(),
{
    if lineas.len() == 0 {
        seq![]
    } else {
        match socket_de(lineas.last(), ipv6) {
            Some(s) => sockets_de(lineas.drop_last(), ipv6).push(s),
            None => sockets_de(lineas.drop_last(), ipv6),
        }
    }
}

pub open spec fn vistas_sockets(v: Seq<Socket>) -> Seq<SocketV> {
    v.map_values(|s: Socket| s@)
}

/// Analiza un fichero `/proc/net/tcp` entero (o `tcp6` si `ipv6`) y añade sus
/// entradas a `salida`.
///
/// Todas las líneas salvo la cabecera tienen que ser admisibles.
pub fn analizar_tabla(contenido: &str, ipv6: bool, salida: &mut Vec<Socket>)
    requires
        forall|i: int|
            1 <= i < lineas(contenido@).len() ==> admisible(#[trigger] lineas(contenido@)[i], ipv6),
    ensures
        vistas_sockets(final(salida)@) == vistas_sockets(old(salida)@) + sockets_de(
            sin_cabecera(lineas(contenido@)),
            ipv6,
        ),
{
    let texto = caracteres(contenido);
    let todas = en_lineas(texto.as_slice());
    let ghost ls = sin_cabecera(lineas(contenido@));
    let ghost inicial = vistas_sockets(salida@);
    let mut i: usize = 1;
    proof {
        assert(crate::config::parser::vistas_vec_char(todas@) == lineas(contenido@));
        if todas@.len() > 0 {
            assert(ls.take(0) =~= seq![]);
        }
    }
    if todas.len() == 0 {
        proof {
            assert(ls =~= seq![]);
        }
        return;
    }
    while i < todas.len()
        invariant
            1 <= i <= todas@.len(),
            forall|j: int|
                1 <= j < lineas(contenido@).len() ==> admisible(#[trigger] lineas(contenido@)[j], ipv6),
            crate::config::parser::vistas_vec_char(todas@) == lineas(contenido@),
            ls == sin_cabecera(lineas(contenido@)),
            vistas_sockets(salida@) == inicial + sockets_de(ls.take(i - 1), ipv6),
        decreases todas@.len() - i,
    {
        proof {
            assert(ls.take(i as int).drop_last() =~= ls.take(i - 1));
            assert(ls.take(i as int).last() == lineas(contenido@)[i as int]);
            assert(todas@[i as int]@ == lineas(contenido@)[i as int]);
        }
        let linea = cadena(todas[i].as_slice());
        proof {
            assert(linea@ == lineas(contenido@)[i as int]);
        }
        match analizar_linea(linea.as_str(), ipv6) {
            Some(s) => {
                let ghost antes = salida@;
                salida.push(s);
                proof {
                    assert(vistas_sockets(salida@) =~= vistas_sockets(antes).push(s@));
                }
            },
            None => {},
        }
        i += 1;
    }
    proof {
        assert(ls.take(todas@.len() - 1) =~= ls);
    }
}

// --- Fotografía de los puertos en escucha -----------------------------------

/// Fotografía de todos los puertos en escucha en un instante.
///
/// El supervisor comprueba muchos túneles por cada latido. Leer `/proc/net/tcp`
/// una vez y consultarla N veces cuesta una lectura; hacerlo al revés cuesta N.
#[derive(Debug)]
pub struct Escuchas {
    pub entradas: Vec<(Ip, u16)>,
}

pub open spec fn vistas_entradas(v: Seq<(Ip, u16)>) -> Seq<(IpV, u16)> {
    v.map_values(|e: (Ip, u16)| (e.0@, e.1))
}

/// Las entradas en escucha de una lista de sockets, en orden.
pub open spec fn en_escucha(v: Seq<SocketV>) -> Seq<(IpV, u16)>
    decreases v.len(),
{
    if v.len() == 0 {
        seq![]
    } else if v.last().estado == ESTADO_LISTEN@ {
        en_escucha(v.drop_last()).push((v.last().direccion, v.last().puerto))
    } else {
        en_escucha(v.drop_last())
    }
}

/// Una entrada cubre la dirección buscada en ese puerto: es la misma o es un
/// comodín. Si lo buscado no es una IP sino un nombre, basta el puerto.
pub open spec fn cubre(e: (IpV, u16), objetivo: Option<IpV>, puerto: u16) -> bool {
    e.1 == puerto && match objetivo {
        Some(b) => e.0 == b || comodin(e.0),
        None => true,
    }
}

impl Escuchas {
    /// Los sockets en estado `LISTEN` de los que se han leído.
    pub fn de_sockets(sockets: &Vec<Socket>) -> (r: Escuchas)
        ensures
            vistas_entradas(r.entradas@) == en_escucha(vistas_sockets(sockets@)),
    {
        let ghost v = vistas_sockets(sockets@);
        let mut entradas: Vec<(Ip, u16)> = Vec::new();
        let mut i: usize = 0;
        proof {
            reveal_strlit("0A");
            assert(v.take(0) =~= seq![]);
        }
        while i < sockets.len()
            invariant
                i <= sockets@.len(),
                v == vistas_sockets(sockets@),
                vistas_entradas(entradas@) == en_escucha(v.take(i as int)),
            decreases sockets@.len() - i,
        {
            proof {
                assert(v.take(i + 1).drop_last() =~= v.take(i as int));
                assert(v.take(i + 1).last() == sockets@[i as int]@);
            }
            let s = &sockets[i];
            let estado = caracteres(s.estado.as_str());
            if es_str(estado.as_slice(), ESTADO_LISTEN) {
                let ghost antes = entradas@;
                entradas.push((s.direccion, s.puerto));
                proof {
                    assert(vistas_entradas(entradas@) =~= vistas_entradas(antes).push(
                        (s.direccion@, s.puerto),
                    ));
                }
            }
            i += 1;
        }
        proof {
            assert(v.take(v.len() as int) =~= v);
        }
        Escuchas { entradas }
    }

    /// Si hay un socket en escucha que cubra esa dirección y puerto.
    ///
    /// `objetivo` es la dirección de escucha ya leída como IP, o `None` si es
    /// un nombre.
    pub fn contiene(&self, objetivo: Option<&Ip>, puerto: u16) -> (r: bool)
        ensures
            r == exists|i: int|
                0 <= i < self.entradas@.len() && cubre(
                    #[trigger] vistas_entradas(self.entradas@)[i],
                    match objetivo {
                        Some(b) => Some(b@),
                        None => None,
                    },
                    puerto,
                ),
    {
        let ghost v = vistas_entradas(self.entradas@);
        let ghost o = match objetivo {
            Some(b) => Some(b@),
            None => None,
        };
        let mut i: usize = 0;
        while i < self.entradas.len()
            invariant
                i <= self.entradas@.len(),
                v == vistas_entradas(self.entradas@),
                o == match objetivo {
                    Some(b) => Some(b@),
                    None => None,
                },
                forall|j: int| 0 <= j < i ==> !cubre(#[trigger] v[j], o, puerto),
            decreases self.entradas@.len() - i,
        {
            let (ip, p) = &self.entradas[i];
            proof {
                assert(v[i as int] == (ip@, *p));
            }
            if *p == puerto {
                let vale = match objetivo {
                    Some(b) => ip.misma(b) || ip.es_comodin(),
                    None => true,
                };
                if vale {
                    return true;
                }
            }
            i += 1;
        }
        false
    }
}

/// Si hay algo escuchando en esa dirección y puerto, según los sockets leídos.
pub fn esta_escuchando(sockets: &Vec<Socket>, objetivo: Option<&Ip>, puerto: u16) -> (r: bool)
    ensures
        r == exists|i: int|
            0 <= i < en_escucha(vistas_sockets(sockets@)).len() && cubre(
                #[trigger] en_escucha(vistas_sockets(sockets@))[i],
                match objetivo {
                    Some(b) => Some(b@),
                    None => None,
                },
                puerto,
            ),
{
    let escuchas = Escuchas::de_sockets(sockets);
    escuchas.contiene(objetivo, puerto)
}

// --- Quién ocupa un puerto ------------------------------------------------------

/// Proceso que ocupa un puerto.
#[derive(Debug, PartialEq, Eq)]
pub struct Ocupante {
    pub pid: Option<u32>,
    /// Nombre corto del proceso (`/proc/PID/comm`).
    pub nombre: Option<String>,
    /// Usuario propietario del socket, si se pudo determinar.
    pub uid: Option<u32>,
}

/// El primer socket en escucha en ese puerto.
pub open spec fn primero_en_escucha(v: Seq<SocketV>, puerto: u16) -> Option<int>
    decreases v.len(),
{
    if v.len() == 0 {
        None
    } else if v[0].puerto == puerto && v[0].estado == ESTADO_LISTEN@ {
        Some(0)
    } else {
        match primero_en_escucha(v.drop_first(), puerto) {
            Some(k) => Some(k + 1),
            None => None,
        }
    }
}

/// El socket que escucha en `puerto`, si hay alguno: el primero de la lista.
pub fn socket_en_escucha(sockets: &Vec<Socket>, puerto: u16) -> (r: Option<usize>)
    ensures
        match r {
            Some(k) => primero_en_escucha(vistas_sockets(sockets@), puerto) == Some(k as int) && k
                < sockets@.len(),
            None => primero_en_escucha(vistas_sockets(sockets@), puerto) is None,
        },
{
    let ghost v = vistas_sockets(sockets@);
    let mut i: usize = 0;
    proof {
        reveal_strlit("0A");
        assert(v.skip(0) =~= v);
    }
    while i < sockets.len()
        invariant
            i <= sockets@.len(),
            v == vistas_sockets(sockets@),
            match primero_en_escucha(v, puerto) {
                Some(k) => match primero_en_escucha(v.skip(i as int), puerto) {
                    Some(m) => k == m + i,
                    None => false,
                },
                None => primero_en_escucha(v.skip(i as int), puerto) is None,
            },
        decreases sockets@.len() - i,
    {
        proof {
            assert(v.skip(i as int)[0] == sockets@[i as int]@);
            assert(v.skip(i as int).drop_first() =~= v.skip(i + 1));
        }
        let s = &sockets[i];
        let estado = caracteres(s.estado.as_str());
        if s.puerto == puerto && es_str(estado.as_slice(), ESTADO_LISTEN) {
            return Some(i);
        }
        i += 1;
    }
    None
}

/// Cómo se nombra a un ocupante en los mensajes.
pub open spec fn descripcion(nombre: Option<Seq<char>>, pid: Option<u32>, uid: Option<u32>) -> Seq<char> {
    match (nombre, pid) {
        (Some(n), Some(p)) => "«"@ + n + "» (PID "@ + decimal(p as nat) + ")"@,
        (Some(n), None) => "«"@ + n + "»"@,
        (None, Some(p)) => "el proceso "@ + decimal(p as nat),
        (None, None) => match uid {
            Some(u) => "un proceso del usuario "@ + decimal(u as nat),
            None => "otro proceso"@,
        },
    }
}

impl Ocupante {
    /// El ocupante de un socket en escucha, con el proceso dueño de su inodo
    /// si se ha encontrado: su PID y su nombre corto.
    pub fn de(socket: &Socket, proceso: Option<(u32, Option<String>)>) -> (r: Ocupante)
        ensures
            r.uid == Some(socket.uid),
            match proceso {
                Some((pid, nombre)) => r.pid == Some(pid) && crate::modelo::vista_opcional(r.nombre)
                    == crate::modelo::vista_opcional(nombre),
                None => r.pid is None && r.nombre is None,
            },
    {
        match proceso {
            Some((pid, nombre)) => Ocupante { pid: Some(pid), nombre, uid: Some(socket.uid) },
            None => Ocupante { pid: None, nombre: None, uid: Some(socket.uid) },
        }
    }

    /// Cómo se nombra al ocupante en los mensajes.
    pub fn describir(&self) -> (r: String)
        ensures
            r@ == descripcion(crate::modelo::vista_opcional(self.nombre), self.pid, self.uid),
    {
        match (&self.nombre, self.pid) {
            (Some(n), Some(p)) => {
                let mut c = caracteres("«");
                anexar_str(&mut c, n.as_str());
                anexar_str(&mut c, "» (PID ");
                let d = en_decimal(p as u64);
                anexar(&mut c, d.as_slice());
                anexar_str(&mut c, ")");
                cadena(c.as_slice())
            },
            (Some(n), None) => {
                let mut c = caracteres("«");
                anexar_str(&mut c, n.as_str());
                anexar_str(&mut c, "»");
                cadena(c.as_slice())
            },
            (None, Some(p)) => {
                let mut c = caracteres("el proceso ");
                let d = en_decimal(p as u64);
                anexar(&mut c, d.as_slice());
                cadena(c.as_slice())
            },
            (None, None) => match self.uid {
                Some(u) => {
                    let mut c = caracteres("un proceso del usuario ");
                    let d = en_decimal(u as u64);
                    anexar(&mut c, d.as_slice());
                    cadena(c.as_slice())
                },
                None => "otro proceso".to_string(),
            },
        }
    }
}

/// El ocupante del puerto, según los sockets leídos.
///
/// `proceso` es el dueño del inodo del socket que escucha en ese puerto, si se
/// ha encontrado: su PID y su nombre corto.
pub fn quien_ocupa(sockets: &Vec<Socket>, puerto: u16, proceso: Option<(u32, Option<String>)>) -> (r:
    Option<Ocupante>)
    ensures
        match primero_en_escucha(vistas_sockets(sockets@), puerto) {
            None => r is None,
            Some(k) => r matches Some(o) && o.uid == Some(sockets@[k].uid) && match proceso {
                Some((pid, nombre)) => o.pid == Some(pid) && crate::modelo::vista_opcional(o.nombre)
                    == crate::modelo::vista_opcional(nombre),
                None => o.pid is None && o.nombre is None,
            },
        },
{
    match socket_en_escucha(sockets, puerto) {
        Some(k) => Some(Ocupante::de(&sockets[k], proceso)),
        None => None,
    }
}

// --- Capacidades --------------------------------------------------------------

/// La máscara de capacidades efectivas de `/proc/self/status`: la segunda
/// palabra de la primera línea que empieza por `CapEff:`, en hexadecimal.
pub open spec fn capacidades_de(ls: Seq<Seq<char>>) -> Option<nat>
    decreases ls.len(),
{
    if ls.len() == 0 {
        None
    } else if empieza_por(ls[0], "CapEff:"@) {
        let p = palabras(ls[0]);
        if p.len() > 1 {
            numero(p[1], 16, 0xffff_ffff_ffff_ffff)
        } else {
            None
        }
    } else {
        capacidades_de(ls.drop_first())
    }
}

/// Lee la máscara de capacidades efectivas del contenido de
/// `/proc/self/status`.
pub fn capacidades_efectivas(estado: &str) -> (r: Option<u64>)
    ensures
        match r {
            Some(c) => capacidades_de(lineas(estado@)) == Some(c as nat),
            None => capacidades_de(lineas(estado@)) is None,
        },
{
    let texto = caracteres(estado);
    let todas = en_lineas(texto.as_slice());
    let ghost ls = lineas(estado@);
    let mut i: usize = 0;
    proof {
        reveal_strlit("CapEff:");
        assert(crate::config::parser::vistas_vec_char(todas@) == ls);
        assert(ls.skip(0) =~= ls);
    }
    while i < todas.len()
        invariant
            i <= todas@.len(),
            crate::config::parser::vistas_vec_char(todas@) == ls,
            ls == lineas(estado@),
            capacidades_de(ls) == capacidades_de(ls.skip(i as int)),
        decreases todas@.len() - i,
    {
        proof {
            assert(ls.skip(i as int)[0] == todas@[i as int]@);
            assert(ls.skip(i as int).drop_first() =~= ls.skip(i + 1));
        }
        let linea = &todas[i];
        proof {
            assert(ls.len() == todas@.len());
            assert(linea@ == ls.skip(i as int)[0]);
            assert(ls.skip(i as int).len() > 0);
        }
        if empieza_str(linea.as_slice(), "CapEff:") {
            let p = en_palabras(linea.as_slice());
            proof {
                assert(vistas_vec(p@) == palabras(linea@));
                assert(palabras(linea@).len() == p@.len());
                assert(capacidades_de(ls.skip(i as int)) == if palabras(linea@).len() > 1 {
                    numero(palabras(linea@)[1], 16, 0xffff_ffff_ffff_ffff)
                } else {
                    None
                });
            }
            if p.len() > 1 {
                proof {
                    assert(p@[1]@ == palabras(linea@)[1]);
                }
                return leer_numero(p[1].as_slice(), 16, 0xffff_ffff_ffff_ffff);
            }
            return None;
        }
        i += 1;
    }
    None
}

/// `CAP_NET_BIND_SERVICE`: el bit 10 de la máscara de capacidades.
pub open spec fn permite_enlazar(caps: nat) -> bool {
    (caps / 1024) % 2 == 1
}

/// Si el proceso puede abrir puertos por debajo de 1024: es root o tiene
/// `CAP_NET_BIND_SERVICE` en su conjunto efectivo.
///
/// `euid` es el usuario efectivo y `estado`, el contenido de
/// `/proc/self/status` si se pudo leer.
pub fn puede_abrir_puertos_privilegiados(euid: u32, estado: Option<&str>) -> (r: bool)
    ensures
        r == (euid == 0 || match estado {
            Some(e) => match capacidades_de(lineas(e@)) {
                Some(c) => permite_enlazar(c),
                None => false,
            },
            None => false,
        }),
{
    if euid == 0 {
        return true;
    }
    match estado {
        None => false,
        Some(e) => match capacidades_efectivas(e) {
            Some(c) => {
                let r = (c / 1024) % 2 == 1;
                r
            },
            None => false,
        },
    }
}

/// Orden que hay que ejecutar para conceder la capacidad al binario.
pub fn orden_para_conceder_capacidad(binario: &str) -> (r: String)
    ensures
        r@ == "sudo setcap 'cap_net_bind_service=+ep' "@ + binario@,
{
    let mut c = caracteres("sudo setcap 'cap_net_bind_service=+ep' ");
    anexar_str(&mut c, binario);
    cadena(c.as_slice())
}

// --- Antes de conectar -----------------------------------------------------------

/// Por qué no se pudo abrir un puerto de prueba.
#[derive(Debug)]
pub enum FalloAlEnlazar {
    /// Ya hay alguien escuchando.
    Ocupado,
    /// Falta permiso para ese puerto.
    SinPermiso,
    /// Cualquier otro fallo, con su descripción.
    Otro(String),
}

/// Lo que hay que comprobar antes de intentar abrir el puerto: un puerto
/// privilegiado sin la capacidad necesaria ya se sabe que fallará.
pub fn comprobacion_previa(puerto: u16, puede_privilegiados: bool) -> (r: Result<(), Error>)
    ensures
        puerto < 1024 && !puede_privilegiados ==> (r matches Err(Error::PuertoPrivilegiado { puerto: p })
            && p == puerto),
        !(puerto < 1024 && !puede_privilegiados) ==> r is Ok,
{
    if puerto < 1024 && !puede_privilegiados {
        Err(Error::PuertoPrivilegiado { puerto })
    } else {
        Ok(())
    }
}

/// El error de una dirección de escucha que no se pudo resolver: con el
/// detalle del fallo, o `None` si resolvió a ninguna dirección.
pub fn error_de_resolucion(direccion: &str, detalle: Option<&str>) -> (e: Error)
    ensures
        e matches Error::DefinicionInvalida(m) && m@ == match detalle {
            Some(d) => "«"@ + direccion@ + "» no se pudo resolver: "@ + d@,
            None => "«"@ + direccion@ + "» no resuelve a ninguna dirección"@,
        },
{
    let mut c = caracteres("«");
    anexar_str(&mut c, direccion);
    match detalle {
        Some(d) => {
            anexar_str(&mut c, "» no se pudo resolver: ");
            anexar_str(&mut c, d);
        },
        None => {
            anexar_str(&mut c, "» no resuelve a ninguna dirección");
        },
    }
    Error::DefinicionInvalida(cadena(c.as_slice()))
}

/// El error de un puerto que no se pudo abrir: ocupado, con quién lo ocupa si
/// se sabe; privilegiado si falta permiso; o el fallo tal cual.
pub fn error_al_enlazar(puerto: u16, fallo: FalloAlEnlazar, ocupante: Option<&Ocupante>) -> (e: Error)
    ensures
        match fallo {
            FalloAlEnlazar::Ocupado => e matches Error::PuertoOcupado { puerto: p, ocupante: o }
                && p == puerto && crate::modelo::vista_opcional(o) == match ocupante {
                Some(q) => Some(descripcion(crate::modelo::vista_opcional(q.nombre), q.pid, q.uid)),
                None => None,
            },
            FalloAlEnlazar::SinPermiso => e matches Error::PuertoPrivilegiado { puerto: p } && p
                == puerto,
            FalloAlEnlazar::Otro(m) => e matches Error::Io(x) && x@ == m@,
        },
{
    match fallo {
        FalloAlEnlazar::Ocupado => Error::PuertoOcupado {
            puerto,
            ocupante: match ocupante {
                Some(q) => Some(q.describir()),
                None => None,
            },
        },
        FalloAlEnlazar::SinPermiso => Error::PuertoPrivilegiado { puerto },
        FalloAlEnlazar::Otro(m) => Error::Io(m),
    }
}

/// Ley: una dirección es comodín si y solo si todos sus bytes son cero, en
/// IPv4 (`0.0.0.0`) igual que en IPv6 (`::`).
pub proof fn ley_el_comodin_es_todo_ceros(o: Seq<u8>)
    ensures
        comodin(IpV::V4(o)) <==> (forall|i: int| 0 <= i < o.len() ==> o[i] == 0),
        comodin(IpV::V6(o)) <==> (forall|i: int| 0 <= i < o.len() ==> o[i] == 0),
{
}

/// Ley: un socket en escucha cubre un objetivo en su puerto si es esa misma
/// dirección o si escucha en el comodín (todos los bytes a cero, sea IPv4 o
/// IPv6), que acepta en cualquier dirección local; un objetivo que no se pudo
/// leer como IP lo cubre cualquier socket en ese puerto. En otro puerto no
/// cubre nada.
pub proof fn ley_que_cubre_un_socket(e: (IpV, u16), objetivo: Option<IpV>, puerto: u16)
    ensures
        cubre(e, objetivo, puerto) <==> (e.1 == puerto && match objetivo {
            None => true,
            Some(b) => e.0 == b || match e.0 {
                IpV::V4(o) => forall|i: int| 0 <= i < o.len() ==> o[i] == 0,
                IpV::V6(o) => forall|i: int| 0 <= i < o.len() ==> o[i] == 0,
            },
        }),
{
}

} // verus!
