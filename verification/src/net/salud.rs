//! Sondas de salud: ¿el túnel transporta de verdad?
//!
//! Que el puerto local escuche solo dice que `ssh` abrió el reenvío, no que al
//! otro lado haya alguien. Aquí se decide el veredicto a partir de lo que
//! contestó el servicio; abrir la conexión y leer queda fuera de la
//! biblioteca.

use vstd::prelude::*;

use crate::modelo::{Salud, SaludV};
use crate::texto::{
    anexar, anexar_str, cadena, caracteres, decimal, empieza_por, empieza_str, en_decimal,
    en_palabras, leer_u16, palabras, recortado, recortar_str, trozo, valor_u16, vistas_vec,
};

verus! {

broadcast use vstd::string::group_string_axioms;

/// Segundos de espera de cada sonda.
pub const ESPERA: u64 = 4;

/// Resultado de una sonda.
#[derive(Debug)]
pub enum Veredicto {
    /// El túnel transporta.
    Sano,
    /// El puerto local no escucha: el reenvío ha caído.
    SinEscucha,
    /// El puerto escucha pero al otro lado no hay nada útil.
    Zombi(String),
}

pub enum VeredictoV {
    Sano,
    SinEscucha,
    Zombi(Seq<char>),
}

impl View for Veredicto {
    type V = VeredictoV;

    open spec fn view(&self) -> VeredictoV {
        match self {
            Veredicto::Sano => VeredictoV::Sano,
            Veredicto::SinEscucha => VeredictoV::SinEscucha,
            Veredicto::Zombi(d) => VeredictoV::Zombi(d@),
        }
    }
}

impl PartialEq for Veredicto {
    fn eq(&self, otro: &Veredicto) -> (r: bool) {
        match (self, otro) {
            (Veredicto::Sano, Veredicto::Sano) => true,
            (Veredicto::SinEscucha, Veredicto::SinEscucha) => true,
            (Veredicto::Zombi(a), Veredicto::Zombi(b)) => *a == *b,
            _ => false,
        }
    }
}

impl vstd::std_specs::cmp::PartialEqSpecImpl for Veredicto {
    open spec fn obeys_eq_spec() -> bool {
        true
    }

    open spec fn eq_spec(&self, otro: &Veredicto) -> bool {
        self@ == otro@
    }
}

impl Veredicto {
    pub fn sano(&self) -> (r: bool)
        ensures
            r == (self@ is Sano),
    {
        match self {
            Veredicto::Sano => true,
            _ => false,
        }
    }

    /// Por qué no está sano, para enseñarlo.
    pub fn motivo(&self) -> (r: Option<&str>)
        ensures
            match self@ {
                VeredictoV::Sano => r is None,
                VeredictoV::SinEscucha => r matches Some(m) && m@
                    == "el puerto local no está en escucha"@,
                VeredictoV::Zombi(d) => r matches Some(m) && m@ == d,
            },
    {
        match self {
            Veredicto::Sano => None,
            Veredicto::SinEscucha => Some("el puerto local no está en escucha"),
            Veredicto::Zombi(detalle) => Some(detalle.as_str()),
        }
    }
}

/// Veredicto que no necesita abrir ninguna conexión: sin escucha no hay nada
/// que sondear, y la salud `escucha` se fía de esa comprobación barata.
pub fn veredicto_inmediato(salud: &Salud, escuchando: bool) -> (r: Option<Veredicto>)
    ensures
        !escuchando ==> (r matches Some(v) && v@ is SinEscucha),
        escuchando && salud@ is Escucha ==> (r matches Some(v) && v@ is Sano),
        escuchando && !(salud@ is Escucha) ==> r is None,
{
    if !escuchando {
        return Some(Veredicto::SinEscucha);
    }
    match salud {
        Salud::Escucha => Some(Veredicto::Sano),
        _ => None,
    }
}

/// Código de estado de una línea `HTTP/x.y NNN …`.
pub open spec fn codigo_de(linea: Seq<char>) -> Option<u16> {
    let campos = palabras(linea);
    if campos.len() >= 2 && empieza_por(campos[0], "HTTP/"@) {
        valor_u16(campos[1])
    } else {
        None
    }
}

/// Código de estado de la primera línea de una respuesta HTTP.
pub fn codigo_http(linea: &str) -> (r: Option<u16>)
    ensures
        r == codigo_de(linea@),
{
    let c = caracteres(linea);
    let campos = en_palabras(c.as_slice());
    proof {
        if campos@.len() >= 1 {
            assert(vistas_vec(campos@)[0] == campos@[0]@);
        }
        if campos@.len() >= 2 {
            assert(vistas_vec(campos@)[1] == campos@[1]@);
        }
    }
    if campos.len() < 1 || !empieza_str(campos[0].as_slice(), "HTTP/") {
        return None;
    }
    if campos.len() < 2 {
        return None;
    }
    leer_u16(campos[1].as_slice())
}

/// La petición que se manda para comprobar una salud HTTP.
pub open spec fn peticion(ruta: Seq<char>, puerto: u16) -> Seq<char> {
    "GET "@ + ruta + " HTTP/1.1\r\nHost: localhost:"@ + decimal(puerto as nat)
        + "\r\nUser-Agent: yonder/salud\r\nAccept: */*\r\nConnection: close\r\n\r\n"@
}

pub fn peticion_http(ruta: &str, puerto: u16) -> (r: String)
    ensures
        r@ == peticion(ruta@, puerto),
{
    let mut c = caracteres("GET ");
    anexar_str(&mut c, ruta);
    anexar_str(&mut c, " HTTP/1.1\r\nHost: localhost:");
    let p = en_decimal(puerto as u64);
    anexar(&mut c, p.as_slice());
    anexar_str(&mut c, "\r\nUser-Agent: yonder/salud\r\nAccept: */*\r\nConnection: close\r\n\r\n");
    cadena(c.as_slice())
}

/// Veredicto de una salud HTTP a partir de la primera línea de la respuesta:
/// vale cualquier código que no sea 4xx ni 5xx, igual que `curl -f`.
pub open spec fn veredicto_http(ruta: Seq<char>, linea: Seq<char>) -> VeredictoV {
    match codigo_de(linea) {
        Some(c) => if !(400 <= c < 600) {
            VeredictoV::Sano
        } else {
            VeredictoV::Zombi(
                "el servicio respondió "@ + decimal(c as nat) + " a «"@ + ruta
                    + "»: contesta, pero no como se esperaba"@,
            )
        },
        None => {
            let t = recortado(linea);
            VeredictoV::Zombi(
                "la respuesta no parece HTTP: «"@ + t.take(if t.len() < 60 {
                    t.len() as int
                } else {
                    60
                }) + "»"@,
            )
        },
    }
}

/// Veredicto de la sonda HTTP a partir de la línea de estado recibida.
pub fn juzgar_http(ruta: &str, linea: &str) -> (r: Veredicto)
    ensures
        r@ == veredicto_http(ruta@, linea@),
{
    match codigo_http(linea) {
        Some(c) => {
            if !(400 <= c && c < 600) {
                Veredicto::Sano
            } else {
                let mut t = caracteres("el servicio respondió ");
                let n = en_decimal(c as u64);
                anexar(&mut t, n.as_slice());
                anexar_str(&mut t, " a «");
                anexar_str(&mut t, ruta);
                anexar_str(&mut t, "»: contesta, pero no como se esperaba");
                Veredicto::Zombi(cadena(t.as_slice()))
            }
        },
        None => {
            let r = recortar_str(linea);
            let n = if r.len() < 60 {
                r.len()
            } else {
                60
            };
            let corto = trozo(r.as_slice(), 0, n);
            let mut t = caracteres("la respuesta no parece HTTP: «");
            anexar(&mut t, corto.as_slice());
            anexar_str(&mut t, "»");
            proof {
                assert(corto@ =~= r@.take(n as int));
            }
            Veredicto::Zombi(cadena(t.as_slice()))
        },
    }
}

// --- Lo que se leyó por el túnel -------------------------------------------------------

/// Cómo acabó una lectura de un byte del servicio.
#[derive(Debug)]
pub enum Lectura {
    /// El servicio cerró la conexión.
    Cerrada,
    /// Llegó un byte.
    Byte,
    /// Se agotó la espera sin que llegara nada.
    Agotada,
    /// Otro error de lectura, con su descripción.
    Error(String),
}

pub enum LecturaV {
    Cerrada,
    Byte,
    Agotada,
    Error(Seq<char>),
}

impl View for Lectura {
    type V = LecturaV;

    open spec fn view(&self) -> LecturaV {
        match self {
            Lectura::Cerrada => LecturaV::Cerrada,
            Lectura::Byte => LecturaV::Byte,
            Lectura::Agotada => LecturaV::Agotada,
            Lectura::Error(e) => LecturaV::Error(e@),
        }
    }
}

/// Veredicto cuando el puerto escucha pero la conexión no se pudo abrir.
pub open spec fn sin_conexion(detalle: Seq<char>) -> VeredictoV {
    VeredictoV::Zombi("el puerto escucha pero no se pudo conectar: "@ + detalle)
}

pub fn veredicto_sin_conexion(detalle: &str) -> (r: Veredicto)
    ensures
        r@ == sin_conexion(detalle@),
{
    let mut t = caracteres("el puerto escucha pero no se pudo conectar: ");
    anexar_str(&mut t, detalle);
    Veredicto::Zombi(cadena(t.as_slice()))
}

/// Veredicto cuando la petición HTTP no se pudo enviar.
pub open spec fn sin_envio(detalle: Seq<char>) -> VeredictoV {
    VeredictoV::Zombi("no se pudo enviar la petición: "@ + detalle)
}

pub fn veredicto_sin_envio(detalle: &str) -> (r: Veredicto)
    ensures
        r@ == sin_envio(detalle@),
{
    let mut t = caracteres("no se pudo enviar la petición: ");
    anexar_str(&mut t, detalle);
    Veredicto::Zombi(cadena(t.as_slice()))
}

/// Veredicto de la sonda `banner` según lo que dio la primera lectura: basta
/// con que el servidor diga algo.
pub open spec fn veredicto_de_banner(l: LecturaV) -> VeredictoV {
    match l {
        LecturaV::Byte => VeredictoV::Sano,
        LecturaV::Cerrada => VeredictoV::Zombi(
            "el servidor cerró la conexión sin decir nada: el reenvío no llega al servicio"@,
        ),
        LecturaV::Agotada => VeredictoV::Zombi(
            "el servidor no saludó en "@ + decimal(ESPERA as nat)
                + " s: el túnel está en pie pero no transporta"@,
        ),
        LecturaV::Error(e) => VeredictoV::Zombi("error al leer del servicio: "@ + e),
    }
}

pub fn juzgar_banner(lectura: &Lectura) -> (r: Veredicto)
    ensures
        r@ == veredicto_de_banner(lectura@),
{
    match lectura {
        Lectura::Byte => Veredicto::Sano,
        Lectura::Cerrada => Veredicto::Zombi(
            "el servidor cerró la conexión sin decir nada: el reenvío no llega al servicio".to_string(),
        ),
        Lectura::Agotada => {
            let mut t = caracteres("el servidor no saludó en ");
            let n = en_decimal(ESPERA);
            anexar(&mut t, n.as_slice());
            anexar_str(&mut t, " s: el túnel está en pie pero no transporta");
            Veredicto::Zombi(cadena(t.as_slice()))
        },
        Lectura::Error(e) => {
            let mut t = caracteres("error al leer del servicio: ");
            anexar_str(&mut t, e.as_str());
            Veredicto::Zombi(cadena(t.as_slice()))
        },
    }
}

/// Tope de bytes que se leen de la respuesta HTTP: basta con la línea de estado.
pub const TOPE_HTTP: usize = 128;

/// Si hay que seguir leyendo la respuesta HTTP: hasta el primer fin de línea
/// o el tope de bytes.
pub open spec fn seguir_leyendo_http(leidos: Seq<u8>) -> bool {
    !(leidos.len() >= TOPE_HTTP || (leidos.len() >= 2 && leidos[leidos.len() - 2] == 13u8
        && leidos[leidos.len() - 1] == 10u8))
}

pub fn seguir_leyendo(leidos: &Vec<u8>) -> (r: bool)
    ensures
        r == seguir_leyendo_http(leidos@),
{
    let n = leidos.len();
    if n >= TOPE_HTTP {
        return false;
    }
    !(n >= 2 && leidos[n - 2] == 13u8 && leidos[n - 1] == 10u8)
}

/// Veredicto de la sonda HTTP según cómo acabó la lectura y la línea leída:
/// sin respuesta en plazo o con error es un zombi; una respuesta vacía
/// también; si hay línea, se juzga su código.
pub open spec fn veredicto_de_respuesta(ruta: Seq<char>, ultima: LecturaV, linea: Seq<char>) -> VeredictoV {
    match ultima {
        LecturaV::Agotada => VeredictoV::Zombi(
            "sin respuesta HTTP en "@ + decimal(ESPERA as nat)
                + " s: el túnel está en pie pero no transporta"@,
        ),
        LecturaV::Error(e) => VeredictoV::Zombi("error al leer la respuesta: "@ + e),
        _ => if linea.len() == 0 {
            VeredictoV::Zombi("el servicio cerró sin responder: el reenvío no llega a ningún sitio"@)
        } else {
            veredicto_http(ruta, linea)
        },
    }
}

/// `ultima` es la última lectura (la que paró el bucle: cierre, byte que
/// completó la línea o el tope, plazo agotado o error); `linea` lo leído hasta
/// entonces, como texto.
pub fn juzgar_respuesta_http(ruta: &str, ultima: &Lectura, linea: &str) -> (r: Veredicto)
    ensures
        r@ == veredicto_de_respuesta(ruta@, ultima@, linea@),
{
    match ultima {
        Lectura::Agotada => {
            let mut t = caracteres("sin respuesta HTTP en ");
            let n = en_decimal(ESPERA);
            anexar(&mut t, n.as_slice());
            anexar_str(&mut t, " s: el túnel está en pie pero no transporta");
            Veredicto::Zombi(cadena(t.as_slice()))
        },
        Lectura::Error(e) => {
            let mut t = caracteres("error al leer la respuesta: ");
            anexar_str(&mut t, e.as_str());
            Veredicto::Zombi(cadena(t.as_slice()))
        },
        _ => {
            if linea.unicode_len() == 0 {
                Veredicto::Zombi(
                    "el servicio cerró sin responder: el reenvío no llega a ningún sitio".to_string(),
                )
            } else {
                juzgar_http(ruta, linea)
            }
        },
    }
}

} // verus!
