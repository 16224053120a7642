//! Modelo de dominio: hosts, reenvíos y túneles.
//!
//! El modelo contempla los tres tipos de reenvío de OpenSSH aunque la interfaz
//! solo exponga el local: el coste de modelarlos bien ahora es nulo y el de
//! añadirlos después no lo es.
//!
//! Cada tipo tiene una vista matemática (`…V`) sobre secuencias de caracteres;
//! los contratos hablan de esas vistas.

use vstd::prelude::*;

use crate::error::{coincide, es_invalida, invalida, Error, Resultado};
use crate::texto::{
    alfanumerico_ascii, contiene, contiene_str, es_alfanumerico_ascii, hay_blanco, hay_control, iguales, juntar, juntar_cadenas, termina, termina_en, tiene_blanco, tiene_control, unidos, vista_mensaje, vistas,
    en_palabras, palabras, reemplazado, reemplazar, recortar_str, trocear, trozos, vistas_vec,
    lema_recortado_fijo_ultimo, lema_recortado_sin_bordes, lema_u16_decimal, lema_palabras_una,
    lema_palabras_dos, lema_primera_pos_unica, lema_ultima_pos_unica, lema_sin_ultima_pos, es_blanco,
    es_digito,
    empieza, empieza_por, empieza_str, en_minusculas, minusculas,
    anexar, anexar_str, cadena, caracteres, copia_opcional, decimal, en_decimal, es_str,
    lema_primera_pos, lema_ultima_pos, leer_u16, posicion, posicion_ultima, primera_pos,
    quitar_iniciales, recortado, recortar, rodeado, sin_iniciales, tiene_char, trozo, ultima_pos,
    valor_u16,
};

verus! {

broadcast use vstd::string::group_string_axioms;

// --- Vistas -------------------------------------------------------------------

pub open spec fn vista_opcional(o: Option<String>) -> Option<Seq<char>> {
    match o {
        Some(s) => Some(s@),
        None => None,
    }
}

/// Vista de un extremo.
pub struct ExtremoV {
    pub direccion: Option<Seq<char>>,
    pub puerto: u16,
}

/// Un extremo de un reenvío: dirección opcional más puerto.
#[derive(Debug)]
pub struct Extremo {
    /// `None` significa el valor por defecto de OpenSSH (`localhost` para el
    /// lado de escucha, obligatorio para el lado de destino).
    pub direccion: Option<String>,
    pub puerto: u16,
}

impl View for Extremo {
    type V = ExtremoV;

    open spec fn view(&self) -> ExtremoV {
        ExtremoV { direccion: vista_opcional(self.direccion), puerto: self.puerto }
    }
}

/// Texto de un extremo tal como se escribe en `ssh_config`: las direcciones
/// con `:` (IPv6) van entre corchetes.
pub open spec fn texto_extremo(e: ExtremoV) -> Seq<char> {
    match e.direccion {
        Some(d) => if d.contains(':') {
            seq!['['] + d + seq![']', ':'] + decimal(e.puerto as nat)
        } else {
            d + seq![':'] + decimal(e.puerto as nat)
        },
        None => decimal(e.puerto as nat),
    }
}

/// Lo que devuelve el análisis de un puerto.
pub open spec fn puerto_de(texto: Seq<char>) -> Result<u16, Seq<char>> {
    match valor_u16(recortado(texto)) {
        None => Err("«"@ + texto + "» no es un puerto válido"@),
        Some(p) => if p == 0 {
            Err("el puerto 0 no es válido"@)
        } else {
            Ok(p)
        },
    }
}

/// Lo que devuelve el análisis de `puerto`, `host:puerto` o `[::1]:puerto`.
pub open spec fn extremo_de(texto0: Seq<char>) -> Result<ExtremoV, Seq<char>> {
    let texto = recortado(texto0);
    if texto.len() == 0 {
        Err("extremo vacío"@)
    } else if texto[0] == '[' {
        let resto = texto.drop_first();
        match primera_pos(resto, ']') {
            None => Err("falta «]» en «"@ + texto + "»"@),
            Some(k) => match puerto_de(sin_iniciales(resto.skip(k + 1), ':')) {
                Ok(p) => Ok(ExtremoV { direccion: Some(resto.take(k)), puerto: p }),
                Err(m) => Err(m),
            },
        }
    } else {
        match ultima_pos(texto, ':') {
            Some(k) if k > 0 => match puerto_de(texto.skip(k + 1)) {
                Ok(p) => Ok(ExtremoV { direccion: Some(texto.take(k)), puerto: p }),
                Err(m) => Err(m),
            },
            _ => match puerto_de(texto) {
                Ok(p) => Ok(ExtremoV { direccion: None, puerto: p }),
                Err(m) => Err(m),
            },
        }
    }
}

/// Analiza un puerto: un número entre 1 y 65535, con blancos alrededor.
pub fn analizar_puerto(texto: &[char]) -> (r: Resultado<u16>)
    ensures
        coincide(r, puerto_de(texto@)),
{
    let t = recortar(texto);
    match leer_u16(t.as_slice()) {
        None => Err(invalida(rodeado("«", texto, "» no es un puerto válido"))),
        Some(p) => {
            if p == 0 {
                Err(invalida(caracteres("el puerto 0 no es válido")))
            } else {
                Ok(p)
            }
        },
    }
}

impl Extremo {
    pub fn nuevo(direccion: &str, puerto: u16) -> (e: Extremo)
        ensures
            e@ == (ExtremoV { direccion: Some(direccion@), puerto }),
    {
        Extremo { direccion: Some(direccion.to_owned()), puerto }
    }

    pub fn solo_puerto(puerto: u16) -> (e: Extremo)
        ensures
            e@ == (ExtremoV { direccion: None, puerto }),
    {
        Extremo { direccion: None, puerto }
    }

    /// Copia exacta.
    pub fn duplicar(&self) -> (e: Extremo)
        ensures
            e@ == self@,
    {
        Extremo { direccion: copia_opcional(&self.direccion), puerto: self.puerto }
    }

    /// Dirección efectiva para sondear el puerto localmente.
    pub fn direccion_efectiva(&self) -> (r: &str)
        ensures
            r@ == direccion_efectiva(self@),
    {
        match &self.direccion {
            Some(d) => d.as_str(),
            None => "127.0.0.1",
        }
    }

    /// `true` si la escucha se abre a toda la red y no solo al bucle local.
    pub fn expuesto(&self) -> (r: bool)
        ensures
            r == expuesto(self@),
    {
        match &self.direccion {
            Some(d) => {
                let c = caracteres(d.as_str());
                es_str(c.as_slice(), "0.0.0.0") || es_str(c.as_slice(), "*") || es_str(
                    c.as_slice(),
                    "::",
                )
            },
            None => false,
        }
    }

    /// Texto del extremo tal como se escribe en `ssh_config`.
    pub fn caracteres(&self) -> (r: Vec<char>)
        ensures
            r@ == texto_extremo(self@),
    {
        let numero = en_decimal(self.puerto as u64);
        match &self.direccion {
            Some(d) => {
                let dc = caracteres(d.as_str());
                if tiene_char(dc.as_slice(), ':') {
                    let mut r: Vec<char> = Vec::new();
                    r.push('[');
                    anexar(&mut r, dc.as_slice());
                    r.push(']');
                    r.push(':');
                    anexar(&mut r, numero.as_slice());
                    proof {
                        assert(r@ =~= seq!['['] + dc@ + seq![']', ':'] + decimal(
                            self.puerto as nat,
                        ));
                    }
                    r
                } else {
                    let mut r = dc;
                    r.push(':');
                    anexar(&mut r, numero.as_slice());
                    proof {
                        assert(r@ =~= d@ + seq![':'] + decimal(self.puerto as nat));
                    }
                    r
                }
            },
            None => numero,
        }
    }

    /// Texto del extremo como cadena.
    pub fn texto(&self) -> (r: String)
        ensures
            r@ == texto_extremo(self@),
    {
        let c = self.caracteres();
        cadena(c.as_slice())
    }

    /// Analiza `puerto`, `host:puerto` o `[::1]:puerto`.
    pub fn analizar(texto: &[char]) -> (r: Resultado<Extremo>)
        ensures
            coincide(r, extremo_de(texto@)),
    {
        let t = recortar(texto);
        if t.len() == 0 {
            return Err(invalida(caracteres("extremo vacío")));
        }
        if t[0] == '[' {
            let resto = trozo(t.as_slice(), 1, t.len());
            proof {
                assert(resto@ == t@.drop_first());
            }
            match posicion(resto.as_slice(), ']') {
                None => Err(invalida(rodeado("falta «]» en «", t.as_slice(), "»"))),
                Some(k) => {
                    proof {
                        lema_primera_pos(resto@, ']');
                    }
                    let direccion = trozo(resto.as_slice(), 0, k);
                    let cola = trozo(resto.as_slice(), k + 1, resto.len());
                    let puerto = quitar_iniciales(cola.as_slice(), ':');
                    match analizar_puerto(puerto.as_slice()) {
                        Ok(p) => Ok(
                            Extremo { direccion: Some(cadena(direccion.as_slice())), puerto: p },
                        ),
                        Err(e) => Err(e),
                    }
                },
            }
        } else {
            match posicion_ultima(t.as_slice(), ':') {
                Some(k) => {
                    proof {
                        lema_ultima_pos(t@, ':');
                    }
                    if k > 0 {
                        let direccion = trozo(t.as_slice(), 0, k);
                        let cola = trozo(t.as_slice(), k + 1, t.len());
                        match analizar_puerto(cola.as_slice()) {
                            Ok(p) => Ok(
                                Extremo {
                                    direccion: Some(cadena(direccion.as_slice())),
                                    puerto: p,
                                },
                            ),
                            Err(e) => Err(e),
                        }
                    } else {
                        match analizar_puerto(t.as_slice()) {
                            Ok(p) => Ok(Extremo { direccion: None, puerto: p }),
                            Err(e) => Err(e),
                        }
                    }
                },
                None => match analizar_puerto(t.as_slice()) {
                    Ok(p) => Ok(Extremo { direccion: None, puerto: p }),
                    Err(e) => Err(e),
                },
            }
        }
    }
}

pub open spec fn direccion_efectiva(e: ExtremoV) -> Seq<char> {
    match e.direccion {
        Some(d) => d,
        None => "127.0.0.1"@,
    }
}

pub open spec fn expuesto(e: ExtremoV) -> bool {
    match e.direccion {
        Some(d) => d == "0.0.0.0"@ || d == "*"@ || d == "::"@,
        None => false,
    }
}

impl PartialEq for Extremo {
    fn eq(&self, otro: &Extremo) -> (r: bool) {
        let misma = match (&self.direccion, &otro.direccion) {
            (Some(a), Some(b)) => *a == *b,
            (None, None) => true,
            _ => false,
        };
        misma && self.puerto == otro.puerto
    }
}

impl vstd::std_specs::cmp::PartialEqSpecImpl for Extremo {
    open spec fn obeys_eq_spec() -> bool {
        true
    }

    open spec fn eq_spec(&self, otro: &Extremo) -> bool {
        self@ == otro@
    }
}

// --- Tipo de reenvío ------------------------------------------------------------

/// Tipo de reenvío. Se corresponde uno a uno con las directivas de OpenSSH.
#[derive(Debug, Clone, Copy, PartialEq, Eq, Hash, Structural)]
pub enum TipoReenvio {
    /// `LocalForward` / `-L`: un puerto local se reenvía al lado remoto.
    Local,
    /// `RemoteForward` / `-R`: un puerto remoto se reenvía al lado local.
    Remoto,
    /// `DynamicForward` / `-D`: proxy SOCKS local.
    Dinamico,
}

impl Default for TipoReenvio {
    /// Es el caso por defecto: el 90 % de los túneles son esto.
    fn default() -> (t: TipoReenvio)
        ensures
            t == TipoReenvio::Local,
    {
        TipoReenvio::Local
    }
}

pub open spec fn directiva(t: TipoReenvio) -> Seq<char> {
    match t {
        TipoReenvio::Local => "LocalForward"@,
        TipoReenvio::Remoto => "RemoteForward"@,
        TipoReenvio::Dinamico => "DynamicForward"@,
    }
}

pub open spec fn bandera(t: TipoReenvio) -> Seq<char> {
    match t {
        TipoReenvio::Local => "-L"@,
        TipoReenvio::Remoto => "-R"@,
        TipoReenvio::Dinamico => "-D"@,
    }
}

pub open spec fn escucha_en_local(t: TipoReenvio) -> bool {
    t == TipoReenvio::Local || t == TipoReenvio::Dinamico
}

impl TipoReenvio {
    pub fn directiva(&self) -> (r: &'static str)
        ensures
            r@ == directiva(*self),
    {
        match self {
            TipoReenvio::Local => "LocalForward",
            TipoReenvio::Remoto => "RemoteForward",
            TipoReenvio::Dinamico => "DynamicForward",
        }
    }

    pub fn bandera(&self) -> (r: &'static str)
        ensures
            r@ == bandera(*self),
    {
        match self {
            TipoReenvio::Local => "-L",
            TipoReenvio::Remoto => "-R",
            TipoReenvio::Dinamico => "-D",
        }
    }

    pub fn etiqueta(&self) -> (r: &'static str)
        ensures
            r@ == match *self {
                TipoReenvio::Local => "local"@,
                TipoReenvio::Remoto => "remoto"@,
                TipoReenvio::Dinamico => "SOCKS"@,
            },
    {
        match self {
            TipoReenvio::Local => "local",
            TipoReenvio::Remoto => "remoto",
            TipoReenvio::Dinamico => "SOCKS",
        }
    }

    /// `true` si el puerto de escucha se abre en esta máquina.
    ///
    /// Determina si tiene sentido sondear el puerto localmente para detectar
    /// el estado `Degradado`.
    pub fn escucha_en_local(&self) -> (r: bool)
        ensures
            r == escucha_en_local(*self),
    {
        match self {
            TipoReenvio::Local | TipoReenvio::Dinamico => true,
            TipoReenvio::Remoto => false,
        }
    }
}

// --- Salud ------------------------------------------------------------------------

/// Vista de una comprobación de salud.
pub enum SaludV {
    Escucha,
    Conecta,
    Banner,
    Http { ruta: Seq<char> },
}

/// Cómo se comprueba que un túnel está **de verdad** en pie.
///
/// Se declara en el propio `ssh_config` con un comentario `# salud: …` delante
/// del reenvío; `ssh` lo ignora por ser un comentario.
#[derive(Debug)]
pub enum Salud {
    /// Basta con que el puerto local esté en escucha.
    Escucha,
    /// Abrir una conexión TCP y cerrarla.
    Conecta,
    /// Abrir la conexión y esperar a que el servidor hable primero.
    Banner,
    /// Petición HTTP a `http://localhost:<puerto><ruta>`.
    Http { ruta: String },
}

impl View for Salud {
    type V = SaludV;

    open spec fn view(&self) -> SaludV {
        match self {
            Salud::Escucha => SaludV::Escucha,
            Salud::Conecta => SaludV::Conecta,
            Salud::Banner => SaludV::Banner,
            Salud::Http { ruta } => SaludV::Http { ruta: ruta@ },
        }
    }
}

impl PartialEq for Salud {
    fn eq(&self, otra: &Salud) -> (r: bool) {
        match (self, otra) {
            (Salud::Escucha, Salud::Escucha) => true,
            (Salud::Conecta, Salud::Conecta) => true,
            (Salud::Banner, Salud::Banner) => true,
            (Salud::Http { ruta: a }, Salud::Http { ruta: b }) => *a == *b,
            _ => false,
        }
    }
}

impl vstd::std_specs::cmp::PartialEqSpecImpl for Salud {
    open spec fn obeys_eq_spec() -> bool {
        true
    }

    open spec fn eq_spec(&self, otra: &Salud) -> bool {
        self@ == otra@
    }
}

impl Default for Salud {
    fn default() -> (s: Salud)
        ensures
            s@ == SaludV::Escucha,
    {
        Salud::Escucha
    }
}

/// Marca con la que se declara la salud en `ssh_config`.
pub const MARCA_SALUD: &'static str = "salud:";

/// Lo que devuelve el análisis de una especificación de salud.
pub open spec fn salud_de(texto0: Seq<char>) -> Result<SaludV, Seq<char>> {
    let texto = recortado(texto0);
    if empieza_por(texto, "http:"@) {
        let ruta = recortado(texto.skip("http:"@.len() as int));
        if !empieza_por(ruta, "/"@) {
            Err("la ruta de «http:» debe empezar por «/»; se recibió «"@ + ruta + "»"@)
        } else {
            Ok(SaludV::Http { ruta })
        }
    } else {
        let l = minusculas(texto);
        if l.len() == 0 || l == "escucha"@ || l == "listen"@ {
            Ok(SaludV::Escucha)
        } else if l == "tcp"@ || l == "conecta"@ {
            Ok(SaludV::Conecta)
        } else if l == "banner"@ {
            Ok(SaludV::Banner)
        } else {
            Err(
                "«"@ + l
                    + "» no es una comprobación de salud conocida; usa escucha, tcp, banner o http:/ruta"@,
            )
        }
    }
}

/// Especificación tal como se escribe en el fichero.
pub open spec fn especificacion(s: SaludV) -> Seq<char> {
    match s {
        SaludV::Escucha => "escucha"@,
        SaludV::Conecta => "tcp"@,
        SaludV::Banner => "banner"@,
        SaludV::Http { ruta } => "http:"@ + ruta,
    }
}

/// Una salud que se puede escribir y volver a leer igual: la ruta HTTP empieza
/// por `/` y no lleva blancos al final.
pub open spec fn salud_escribible(s: SaludV) -> bool {
    match s {
        SaludV::Http { ruta } => empieza_por(ruta, "/"@) && recortado(ruta) == ruta,
        _ => true,
    }
}

impl Salud {
    /// Copia exacta.
    pub fn duplicar(&self) -> (r: Salud)
        ensures
            r@ == self@,
    {
        match self {
            Salud::Escucha => Salud::Escucha,
            Salud::Conecta => Salud::Conecta,
            Salud::Banner => Salud::Banner,
            Salud::Http { ruta } => Salud::Http { ruta: ruta.clone() },
        }
    }

    /// Analiza la especificación tal como se escribe tras `# salud:`.
    pub fn analizar(texto: &str) -> (r: Resultado<Salud>)
        ensures
            coincide(r, salud_de(texto@)),
    {
        let c = caracteres(texto);
        Salud::analizar_caracteres(c.as_slice())
    }

    /// Como [`Salud::analizar`], sobre caracteres.
    pub fn analizar_caracteres(texto0: &[char]) -> (r: Resultado<Salud>)
        ensures
            coincide(r, salud_de(texto0@)),
    {
        let texto = recortar(texto0);
        let http = caracteres("http:");
        if empieza(texto.as_slice(), http.as_slice()) {
            let cola = trozo(texto.as_slice(), http.len(), texto.len());
            let ruta = recortar(cola.as_slice());
            if !empieza_str(ruta.as_slice(), "/") {
                return Err(
                    invalida(
                        rodeado(
                            "la ruta de «http:» debe empezar por «/»; se recibió «",
                            ruta.as_slice(),
                            "»",
                        ),
                    ),
                );
            }
            return Ok(Salud::Http { ruta: cadena(ruta.as_slice()) });
        }
        let l = en_minusculas(texto.as_slice());
        if l.len() == 0 || es_str(l.as_slice(), "escucha") || es_str(l.as_slice(), "listen") {
            Ok(Salud::Escucha)
        } else if es_str(l.as_slice(), "tcp") || es_str(l.as_slice(), "conecta") {
            Ok(Salud::Conecta)
        } else if es_str(l.as_slice(), "banner") {
            Ok(Salud::Banner)
        } else {
            Err(
                invalida(
                    rodeado(
                        "«",
                        l.as_slice(),
                        "» no es una comprobación de salud conocida; usa escucha, tcp, banner o http:/ruta",
                    ),
                ),
            )
        }
    }

    /// Especificación tal como se escribe en el fichero.
    pub fn especificacion(&self) -> (r: String)
        ensures
            r@ == especificacion(self@),
    {
        match self {
            Salud::Escucha => "escucha".to_owned(),
            Salud::Conecta => "tcp".to_owned(),
            Salud::Banner => "banner".to_owned(),
            Salud::Http { ruta } => {
                let mut c = caracteres("http:");
                let rc = caracteres(ruta.as_str());
                anexar(&mut c, rc.as_slice());
                cadena(c.as_slice())
            },
        }
    }

    /// Texto corto para la interfaz.
    pub fn etiqueta(&self) -> (r: String)
        ensures
            r@ == match self@ {
                SaludV::Escucha => "escucha"@,
                SaludV::Conecta => "TCP"@,
                SaludV::Banner => "banner"@,
                SaludV::Http { ruta } => "HTTP "@ + ruta,
            },
    {
        match self {
            Salud::Escucha => "escucha".to_owned(),
            Salud::Conecta => "TCP".to_owned(),
            Salud::Banner => "banner".to_owned(),
            Salud::Http { ruta } => {
                let mut c = caracteres("HTTP ");
                let rc = caracteres(ruta.as_str());
                anexar(&mut c, rc.as_slice());
                cadena(c.as_slice())
            },
        }
    }

    /// Explicación de qué comprueba, para la ayuda contextual.
    pub fn explicacion(&self) -> (r: &'static str)
        ensures
            r@ == match self@ {
                SaludV::Escucha => "Solo comprueba que el puerto local esté abierto"@,
                SaludV::Conecta => "Abre una conexión TCP a través del túnel y la cierra"@,
                SaludV::Banner => "Espera a que el servidor salude, como hacen SSH y Oracle"@,
                SaludV::Http { .. } => "Hace una petición HTTP y comprueba la respuesta"@,
            },
    {
        match self {
            Salud::Escucha => "Solo comprueba que el puerto local esté abierto",
            Salud::Conecta => "Abre una conexión TCP a través del túnel y la cierra",
            Salud::Banner => "Espera a que el servidor salude, como hacen SSH y Oracle",
            Salud::Http { .. } => "Hace una petición HTTP y comprueba la respuesta",
        }
    }

    /// `true` si la comprobación atraviesa el túnel de verdad.
    ///
    /// Las que lo atraviesan tienen efecto al otro lado: son una conexión real.
    pub fn atraviesa_el_tunel(&self) -> (r: bool)
        ensures
            r == !(self@ is Escucha),
    {
        match self {
            Salud::Escucha => false,
            _ => true,
        }
    }

    /// Comprobaciones que la interfaz ofrece para elegir.
    pub fn opciones() -> (r: Vec<Salud>)
        ensures
            r@.len() == 4,
            r@[0]@ == SaludV::Escucha,
            r@[1]@ == SaludV::Conecta,
            r@[2]@ == SaludV::Banner,
            r@[3]@ == (SaludV::Http { ruta: "/"@ }),
    {
        let mut r: Vec<Salud> = Vec::new();
        r.push(Salud::Escucha);
        r.push(Salud::Conecta);
        r.push(Salud::Banner);
        r.push(Salud::Http { ruta: "/".to_owned() });
        r
    }

    /// Igualdad por variante, ignorando la ruta. Lo usa el selector.
    pub fn misma_clase(&self, otra: &Salud) -> (r: bool)
        ensures
            r == match (self@, otra@) {
                (SaludV::Escucha, SaludV::Escucha) => true,
                (SaludV::Conecta, SaludV::Conecta) => true,
                (SaludV::Banner, SaludV::Banner) => true,
                (SaludV::Http { .. }, SaludV::Http { .. }) => true,
                _ => false,
            },
    {
        match (self, otra) {
            (Salud::Escucha, Salud::Escucha) => true,
            (Salud::Conecta, Salud::Conecta) => true,
            (Salud::Banner, Salud::Banner) => true,
            (Salud::Http { .. }, Salud::Http { .. }) => true,
            _ => false,
        }
    }
}

/// Nombre corto del servicio que suele escuchar en un puerto.
pub open spec fn servicio_conocido(puerto: u16) -> Option<Seq<char>> {
    if puerto == 22 {
        Some("ssh"@)
    } else if puerto == 80 {
        Some("http"@)
    } else if puerto == 443 {
        Some("https"@)
    } else if puerto == 1521 {
        Some("oracle"@)
    } else if puerto == 3000 || puerto == 3001 {
        Some("grafana"@)
    } else if puerto == 3306 {
        Some("mysql"@)
    } else if puerto == 5432 {
        Some("postgres"@)
    } else if puerto == 6379 {
        Some("redis"@)
    } else if puerto == 8080 || puerto == 8081 {
        Some("web"@)
    } else if puerto == 9090 {
        Some("prometheus"@)
    } else if puerto == 9093 {
        Some("alertmanager"@)
    } else if puerto == 27017 {
        Some("mongo"@)
    } else {
        None
    }
}

/// Nombre corto del servicio que suele escuchar en un puerto.
///
/// Solo los que aparecen de verdad en los túneles de trabajo: un nombre
/// inventado para un puerto poco común confunde más que un «puerto-9418».
pub fn servicio_de(puerto: u16) -> (r: Option<&'static str>)
    ensures
        match r {
            Some(s) => servicio_conocido(puerto) == Some(s@),
            None => servicio_conocido(puerto) is None,
        },
{
    match puerto {
        22 => Some("ssh"),
        80 => Some("http"),
        443 => Some("https"),
        1521 => Some("oracle"),
        3000 | 3001 => Some("grafana"),
        3306 => Some("mysql"),
        5432 => Some("postgres"),
        6379 => Some("redis"),
        8080 | 8081 => Some("web"),
        9090 => Some("prometheus"),
        9093 => Some("alertmanager"),
        27017 => Some("mongo"),
        _ => None,
    }
}

/// Ley: toda salud escribible se lee de vuelta igual que se escribió.
///
/// Lo que la aplicación escribe tras `# salud:` es exactamente lo que vuelve a
/// salir al leer el fichero; una ruta HTTP sin barra inicial no es escribible.
pub proof fn ley_especificacion_ida_y_vuelta(s: SaludV)
    requires
        salud_escribible(s),
    ensures
        salud_de(especificacion(s)) matches Ok(x) && x == s,
{
    reveal_strlit("http:");
    reveal_strlit("/");
    reveal_strlit("escucha");
    reveal_strlit("listen");
    reveal_strlit("conecta");
    reveal_strlit("tcp");
    reveal_strlit("banner");
    match s {
        SaludV::Escucha => {
            let t = "escucha"@;
            lema_recortado_sin_bordes(t);
            assert(t.subrange(0, 5)[0] != "http:"@[0]);
            assert(minusculas(t) =~= t);
        },
        SaludV::Conecta => {
            let t = "tcp"@;
            lema_recortado_sin_bordes(t);
            assert(minusculas(t) =~= t);
            assert(t != "escucha"@);
            assert(t != "listen"@);
        },
        SaludV::Banner => {
            let t = "banner"@;
            lema_recortado_sin_bordes(t);
            assert(t.subrange(0, 5)[0] != "http:"@[0]);
            assert(minusculas(t) =~= t);
            assert(t != "escucha"@);
            assert(t != "listen"@);
            assert(t != "conecta"@);
            assert(t != "tcp"@);
        },
        SaludV::Http { ruta } => {
            let t = "http:"@ + ruta;
            lema_recortado_fijo_ultimo(ruta);
            assert(t.last() == ruta.last());
            lema_recortado_sin_bordes(t);
            assert(t.subrange(0, 5) =~= "http:"@);
            assert(t.skip(5) =~= ruta);
        },
    }
}

// --- Reenvío ------------------------------------------------------------------------

pub open spec fn vista_destino(o: Option<Extremo>) -> Option<ExtremoV> {
    match o {
        Some(e) => Some(e@),
        None => None,
    }
}

/// Vista de un reenvío.
pub struct ReenvioV {
    pub tipo: TipoReenvio,
    pub escucha: ExtremoV,
    pub destino: Option<ExtremoV>,
    pub salud: SaludV,
    pub nombre: Option<Seq<char>>,
}

/// Un reenvío concreto.
#[derive(Debug)]
pub struct Reenvio {
    pub tipo: TipoReenvio,
    pub escucha: Extremo,
    /// `None` solo para `DynamicForward`.
    pub destino: Option<Extremo>,
    /// Cómo comprobar que está vivo de verdad.
    pub salud: Salud,
    /// Nombre corto elegido por el usuario. Es lo que manda en la lista.
    ///
    /// Se persiste como comentario `# nombre:` delante de su directiva, igual
    /// que `# salud:`, para no salirse de la gramática de `ssh_config`.
    pub nombre: Option<String>,
}

impl View for Reenvio {
    type V = ReenvioV;

    open spec fn view(&self) -> ReenvioV {
        ReenvioV {
            tipo: self.tipo,
            escucha: self.escucha@,
            destino: vista_destino(self.destino),
            salud: self.salud@,
            nombre: vista_opcional(self.nombre),
        }
    }
}

impl PartialEq for Reenvio {
    fn eq(&self, otro: &Reenvio) -> (r: bool) {
        let destinos = match (&self.destino, &otro.destino) {
            (Some(a), Some(b)) => a.eq(b),
            (None, None) => true,
            _ => false,
        };
        let nombres = match (&self.nombre, &otro.nombre) {
            (Some(a), Some(b)) => *a == *b,
            (None, None) => true,
            _ => false,
        };
        self.tipo == otro.tipo && self.escucha.eq(&otro.escucha) && destinos && self.salud.eq(
            &otro.salud,
        ) && nombres
    }
}

impl vstd::std_specs::cmp::PartialEqSpecImpl for Reenvio {
    open spec fn obeys_eq_spec() -> bool {
        true
    }

    open spec fn eq_spec(&self, otro: &Reenvio) -> bool {
        self@ == otro@
    }
}

/// Marca con la que el nombre se persiste en `ssh_config`.
pub const MARCA_NOMBRE: &'static str = "nombre:";

/// Reenvío recién leído: sin salud especial ni nombre.
pub open spec fn reenvio_simple(
    tipo: TipoReenvio,
    escucha: ExtremoV,
    destino: Option<ExtremoV>,
) -> ReenvioV {
    ReenvioV { tipo, escucha, destino, salud: SaludV::Escucha, nombre: None }
}

/// Lo que devuelve el análisis del valor de una directiva `*Forward`.
pub open spec fn reenvio_de(tipo: TipoReenvio, valor0: Seq<char>) -> Result<ReenvioV, Seq<char>> {
    let valor = reemplazado(valor0, '/', ':');
    let campos = palabras(valor);
    let error = "«"@ + valor + "» no es un valor válido para "@ + directiva(tipo);
    if tipo == TipoReenvio::Dinamico {
        if campos.len() == 1 {
            match extremo_de(campos[0]) {
                Ok(e) => Ok(reenvio_simple(tipo, e, None)),
                Err(m) => Err(m),
            }
        } else {
            Err(error)
        }
    } else if campos.len() == 2 {
        match extremo_de(campos[0]) {
            Err(m) => Err(m),
            Ok(e) => match extremo_de(campos[1]) {
                Err(m) => Err(m),
                Ok(d) => Ok(reenvio_simple(tipo, e, Some(d))),
            },
        }
    } else if campos.len() == 1 {
        let partes = trozos(campos[0], ':');
        if partes.len() == 3 {
            match extremo_de(partes[0]) {
                Err(m) => Err(m),
                Ok(e) => match puerto_de(partes[2]) {
                    Err(m) => Err(m),
                    Ok(p) => Ok(
                        reenvio_simple(
                            tipo,
                            e,
                            Some(ExtremoV { direccion: Some(partes[1]), puerto: p }),
                        ),
                    ),
                },
            }
        } else if partes.len() == 4 {
            match puerto_de(partes[1]) {
                Err(m) => Err(m),
                Ok(pe) => match puerto_de(partes[3]) {
                    Err(m) => Err(m),
                    Ok(pd) => Ok(
                        reenvio_simple(
                            tipo,
                            ExtremoV { direccion: Some(partes[0]), puerto: pe },
                            Some(ExtremoV { direccion: Some(partes[2]), puerto: pd }),
                        ),
                    ),
                },
            }
        } else {
            Err(error)
        }
    } else {
        Err(error)
    }
}

/// Dirección que se lee de vuelta igual que se escribió: no vacía, sin
/// blancos (partirían el valor en palabras), sin `/` (se lee como `:`), sin
/// `[` inicial (abriría unos corchetes) y, si lleva `:` y va entre corchetes,
/// sin `]` dentro.
pub open spec fn direccion_legible(d: Seq<char>) -> bool {
    &&& d.len() > 0
    &&& !tiene_blanco(d)
    &&& !d.contains('/')
    &&& d[0] != '['
    &&& (d.contains(':') ==> !d.contains(']'))
}

/// Extremo que se lee de vuelta igual: puerto distinto de cero y dirección legible.
pub open spec fn extremo_legible(e: ExtremoV) -> bool {
    &&& e.puerto != 0
    &&& match e.direccion {
        Some(d) => direccion_legible(d),
        None => true,
    }
}

/// Reenvío cuyo valor de directiva se lee de vuelta igual: extremos legibles,
/// y destino justo cuando no es dinámico.
pub open spec fn reenvio_legible(r: ReenvioV) -> bool {
    &&& extremo_legible(r.escucha)
    &&& (r.tipo == TipoReenvio::Dinamico) == (r.destino is None)
    &&& match r.destino {
        Some(d) => extremo_legible(d),
        None => true,
    }
}

pub(crate) proof fn lema_extremo_ida_y_vuelta(e: ExtremoV)
    requires
        extremo_legible(e),
    ensures
        extremo_de(texto_extremo(e)) == Ok::<ExtremoV, Seq<char>>(e),
        texto_extremo(e).len() > 0,
        !tiene_blanco(texto_extremo(e)),
        !texto_extremo(e).contains('/'),
        es_digito(texto_extremo(e).last()),
        e.direccion is None ==> es_digito(texto_extremo(e)[0]),
        e.direccion matches Some(d) ==> (texto_extremo(e)[0] == d[0] || texto_extremo(e)[0] == '['),
{
    let t = texto_extremo(e);
    let p = decimal(e.puerto as nat);
    lema_u16_decimal(e.puerto);
    assert(es_digito(p[0]) && es_digito(p.last()));
    assert(!es_blanco(p.last()));
    assert(puerto_de(p) == Ok::<u16, Seq<char>>(e.puerto)) by {
        lema_recortado_sin_bordes(p);
    }
    match e.direccion {
        None => {
            assert(t == p);
            assert forall|i: int| 0 <= i < t.len() implies !es_blanco(#[trigger] t[i]) && t[i] != ':'
                && t[i] != '/' by {
                assert(es_digito(p[i]));
            }
            assert(!t.contains('/'));
            lema_recortado_sin_bordes(t);
            lema_sin_ultima_pos(t, ':');
        },
        Some(d) => {
            assert(!es_blanco(d[0]));
            if d.contains(':') {
                assert(t =~= seq!['['] + d + seq![']', ':'] + p);
                assert forall|i: int| 0 <= i < t.len() implies !es_blanco(#[trigger] t[i]) && t[i]
                    != '/' by {
                    if 1 <= i < 1 + d.len() {
                        assert(t[i] == d[i - 1]);
                    } else if i >= d.len() + 3 {
                        assert(t[i] == p[i - d.len() - 3]);
                        assert(es_digito(p[i - d.len() - 3]));
                    }
                }
                assert(!t.contains('/'));
                assert(t.last() == p.last());
                lema_recortado_sin_bordes(t);
                let resto = t.drop_first();
                assert(resto =~= d + seq![']', ':'] + p);
                assert forall|j: int| 0 <= j < d.len() implies resto[j] != ']' by {
                    assert(resto[j] == d[j]);
                }
                lema_primera_pos_unica(resto, ']', d.len() as int);
                let cola = resto.skip(d.len() as int + 1);
                assert(cola =~= seq![':'] + p);
                assert(cola.drop_first() =~= p);
                assert(p[0] != ':');
                assert(sin_iniciales(p, ':') == p);
                assert(sin_iniciales(cola, ':') == p);
                assert(resto.take(d.len() as int) =~= d);
            } else {
                assert(t =~= d + seq![':'] + p);
                assert forall|i: int| 0 <= i < t.len() implies !es_blanco(#[trigger] t[i]) && t[i]
                    != '/' by {
                    if i < d.len() {
                        assert(t[i] == d[i]);
                    } else if i > d.len() {
                        assert(t[i] == p[i - d.len() - 1]);
                        assert(es_digito(p[i - d.len() - 1]));
                    }
                }
                assert(!t.contains('/'));
                assert(t.last() == p.last());
                assert(t[0] == d[0]);
                lema_recortado_sin_bordes(t);
                assert forall|j: int| d.len() < j < t.len() implies t[j] != ':' by {
                    assert(t[j] == p[j - d.len() - 1]);
                    assert(es_digito(p[j - d.len() - 1]));
                }
                lema_ultima_pos_unica(t, ':', d.len() as int);
                assert(t.skip(d.len() as int + 1) =~= p);
                assert(t.take(d.len() as int) =~= d);
            }
        },
    }
}

/// Ley: el valor de directiva de un reenvío legible se lee de vuelta como el
/// mismo reenvío, con la salud por defecto y sin nombre (esos dos viajan en
/// sus propias marcas).
pub proof fn ley_reenvio_ida_y_vuelta(r: ReenvioV)
    requires
        reenvio_legible(r),
    ensures
        reenvio_de(r.tipo, valor_directiva(r)) == Ok::<ReenvioV, Seq<char>>(
            reenvio_simple(r.tipo, r.escucha, r.destino),
        ),
{
    let v = valor_directiva(r);
    lema_extremo_ida_y_vuelta(r.escucha);
    let a = texto_extremo(r.escucha);
    match r.destino {
        Some(d) => {
            lema_extremo_ida_y_vuelta(d);
            let b = texto_extremo(d);
            assert(v =~= a + seq![' '] + b);
            assert forall|i: int| 0 <= i < v.len() implies v[i] != '/' by {
                if i < a.len() {
                    assert(v[i] == a[i]);
                } else if i > a.len() {
                    assert(v[i] == b[i - a.len() - 1]);
                }
            }
            assert(reemplazado(v, '/', ':') =~= v);
            lema_palabras_dos(a, b);
        },
        None => {
            assert(v == a);
            assert(reemplazado(v, '/', ':') =~= v);
            lema_palabras_una(a);
        },
    }
}

/// Valor tal como se escribe en `ssh_config`.
pub open spec fn valor_directiva(r: ReenvioV) -> Seq<char> {
    match r.destino {
        Some(d) => texto_extremo(r.escucha) + seq![' '] + texto_extremo(d),
        None => texto_extremo(r.escucha),
    }
}

/// `direccion:puerto` o solo el puerto.
pub open spec fn escucha_argumento(e: ExtremoV) -> Seq<char> {
    match e.direccion {
        Some(d) => d + seq![':'] + decimal(e.puerto as nat),
        None => decimal(e.puerto as nat),
    }
}

/// Argumento para `-L` / `-R` / `-D` en la línea de órdenes de `ssh`.
pub open spec fn argumento(r: ReenvioV) -> Seq<char> {
    match r.destino {
        Some(d) => escucha_argumento(r.escucha) + seq![':'] + match d.direccion {
            Some(x) => x,
            None => "localhost"@,
        } + seq![':'] + decimal(d.puerto as nat),
        None => escucha_argumento(r.escucha),
    }
}

/// `dirección-efectiva:puerto`.
pub open spec fn escucha_efectiva(e: ExtremoV) -> Seq<char> {
    direccion_efectiva(e) + seq![':'] + decimal(e.puerto as nat)
}

/// Descripción legible para la interfaz: `localhost:3000 → host:3000`.
pub open spec fn descripcion(r: ReenvioV) -> Seq<char> {
    match (r.tipo, r.destino) {
        (TipoReenvio::Local, Some(d)) => escucha_efectiva(r.escucha) + " → "@ + texto_extremo(d),
        (TipoReenvio::Remoto, Some(d)) => "remoto:"@ + decimal(r.escucha.puerto as nat) + " → "@
            + texto_extremo(d),
        (TipoReenvio::Dinamico, _) => "SOCKS en "@ + escucha_efectiva(r.escucha),
        (_, None) => texto_extremo(r.escucha),
    }
}

/// Como `descripcion`, nombrando en qué máquina se resuelve cada punta.
pub open spec fn descripcion_orientada(r: ReenvioV) -> Seq<char> {
    match (r.tipo, r.destino) {
        (TipoReenvio::Local, Some(d)) => "aquí "@ + escucha_efectiva(r.escucha) + " → remoto "@
            + texto_extremo(d),
        (TipoReenvio::Remoto, Some(d)) => "remoto :"@ + decimal(r.escucha.puerto as nat)
            + " → aquí "@ + texto_extremo(d),
        (TipoReenvio::Dinamico, _) => "SOCKS aquí en "@ + escucha_efectiva(r.escucha),
        (_, None) => texto_extremo(r.escucha),
    }
}

/// Lado de escucha en su forma más corta: sin la dirección si es el bucle local.
pub open spec fn escucha_breve(e: ExtremoV) -> Seq<char> {
    match e.direccion {
        Some(d) => if d != "127.0.0.1"@ && d != "localhost"@ {
            d + seq![':'] + decimal(e.puerto as nat)
        } else {
            seq![':'] + decimal(e.puerto as nat)
        },
        None => seq![':'] + decimal(e.puerto as nat),
    }
}

/// Extremos en su forma más corta discriminante, para la lista.
pub open spec fn extremos_breves(r: ReenvioV) -> Seq<char> {
    match (r.tipo, r.destino) {
        (TipoReenvio::Dinamico, _) => escucha_breve(r.escucha) + " → SOCKS"@,
        (TipoReenvio::Remoto, Some(d)) => "remoto "@ + escucha_breve(r.escucha) + " → "@
            + texto_extremo(d),
        (_, Some(d)) => escucha_breve(r.escucha) + " → "@ + texto_extremo(d),
        (_, None) => escucha_breve(r.escucha),
    }
}

/// Nombre que se muestra en la lista: el elegido, o uno derivado del destino.
pub open spec fn nombre_visible(r: ReenvioV) -> Seq<char> {
    match r.nombre {
        Some(n) => n,
        None => match (r.tipo, r.destino) {
            (TipoReenvio::Dinamico, _) => "socks-"@ + decimal(r.escucha.puerto as nat),
            (_, Some(d)) => match servicio_conocido(d.puerto) {
                Some(s) => s + seq!['-'] + decimal(d.puerto as nat),
                None => "puerto-"@ + decimal(d.puerto as nat),
            },
            (_, None) => "puerto-"@ + decimal(r.escucha.puerto as nat),
        },
    }
}

/// Nombre elegido ya limpio: recortado, y ninguno si queda vacío.
pub open spec fn nombre_limpio(n: Option<Seq<char>>) -> Option<Seq<char>> {
    match n {
        Some(x) => if recortado(x).len() > 0 {
            Some(recortado(x))
        } else {
            None
        },
        None => None,
    }
}

/// `dirección-efectiva:puerto`, ejecutable.
fn escucha_efectiva_de(e: &Extremo) -> (r: Vec<char>)
    ensures
        r@ == escucha_efectiva(e@),
{
    let mut r = caracteres(e.direccion_efectiva());
    r.push(':');
    let n = en_decimal(e.puerto as u64);
    anexar(&mut r, n.as_slice());
    r
}

fn escucha_argumento_de(e: &Extremo) -> (r: Vec<char>)
    ensures
        r@ == escucha_argumento(e@),
{
    let n = en_decimal(e.puerto as u64);
    match &e.direccion {
        Some(d) => {
            let mut r = caracteres(d.as_str());
            r.push(':');
            anexar(&mut r, n.as_slice());
            r
        },
        None => n,
    }
}

fn escucha_breve_de(e: &Extremo) -> (r: Vec<char>)
    ensures
        r@ == escucha_breve(e@),
{
    let n = en_decimal(e.puerto as u64);
    let mut corto: Vec<char> = Vec::new();
    corto.push(':');
    anexar(&mut corto, n.as_slice());
    match &e.direccion {
        Some(d) => {
            let dc = caracteres(d.as_str());
            if !es_str(dc.as_slice(), "127.0.0.1") && !es_str(dc.as_slice(), "localhost") {
                let mut r = dc;
                r.push(':');
                anexar(&mut r, n.as_slice());
                r
            } else {
                proof {
                    assert(corto@ =~= seq![':'] + decimal(e.puerto as nat));
                }
                corto
            }
        },
        None => {
            proof {
                assert(corto@ =~= seq![':'] + decimal(e.puerto as nat));
            }
            corto
        },
    }
}

fn duplicar_destino(d: &Option<Extremo>) -> (r: Option<Extremo>)
    ensures
        vista_destino(r) == vista_destino(*d),
{
    match d {
        Some(e) => Some(e.duplicar()),
        None => None,
    }
}

impl Reenvio {
    pub fn local(escucha: Extremo, destino: Extremo) -> (r: Reenvio)
        ensures
            r@ == reenvio_simple(TipoReenvio::Local, escucha@, Some(destino@)),
    {
        Reenvio {
            tipo: TipoReenvio::Local,
            escucha,
            destino: Some(destino),
            salud: Salud::Escucha,
            nombre: None,
        }
    }

    pub fn dinamico(escucha: Extremo) -> (r: Reenvio)
        ensures
            r@ == reenvio_simple(TipoReenvio::Dinamico, escucha@, None),
    {
        Reenvio {
            tipo: TipoReenvio::Dinamico,
            escucha,
            destino: None,
            salud: Salud::Escucha,
            nombre: None,
        }
    }

    /// Copia exacta.
    pub fn duplicar(&self) -> (r: Reenvio)
        ensures
            r@ == self@,
    {
        Reenvio {
            tipo: self.tipo,
            escucha: self.escucha.duplicar(),
            destino: duplicar_destino(&self.destino),
            salud: self.salud.duplicar(),
            nombre: copia_opcional(&self.nombre),
        }
    }

    /// El mismo reenvío con otra comprobación de salud.
    pub fn con_salud(self, salud: Salud) -> (r: Reenvio)
        ensures
            r@ == (ReenvioV { salud: salud@, ..self@ }),
    {
        let mut r = self;
        r.salud = salud;
        r
    }

    /// El mismo reenvío con nombre propio: recortado, y ninguno si queda vacío.
    pub fn con_nombre(self, nombre: Option<String>) -> (r: Reenvio)
        ensures
            r@ == (ReenvioV { nombre: nombre_limpio(vista_opcional(nombre)), ..self@ }),
    {
        let mut r = self;
        r.nombre = match nombre {
            Some(n) => {
                let limpio = recortar_str(n.as_str());
                if limpio.len() > 0 {
                    Some(cadena(limpio.as_slice()))
                } else {
                    None
                }
            },
            None => None,
        };
        r
    }

    /// Extremos en su forma más corta discriminante, para la lista.
    ///
    /// `127.0.0.1` es el valor por defecto del lado de escucha y es idéntico en
    /// todas las filas: se omite y el `:` inicial basta para decir que es el
    /// puerto local.
    pub fn extremos_breves(&self) -> (r: String)
        ensures
            r@ == extremos_breves(self@),
    {
        let escucha = escucha_breve_de(&self.escucha);
        let r = match (&self.tipo, &self.destino) {
            (TipoReenvio::Dinamico, _) => {
                let mut r = escucha;
                anexar_str(&mut r, " → SOCKS");
                r
            },
            (TipoReenvio::Remoto, Some(d)) => {
                let mut r = caracteres("remoto ");
                anexar(&mut r, escucha.as_slice());
                anexar_str(&mut r, " → ");
                let dt = d.caracteres();
                anexar(&mut r, dt.as_slice());
                r
            },
            (_, Some(d)) => {
                let mut r = escucha;
                anexar_str(&mut r, " → ");
                let dt = d.caracteres();
                anexar(&mut r, dt.as_slice());
                r
            },
            (_, None) => escucha,
        };
        cadena(r.as_slice())
    }

    /// Nombre que se muestra en la lista.
    ///
    /// El elegido por el usuario si lo hay; si no, uno derivado del **destino**,
    /// nunca del alias del host.
    pub fn nombre_visible(&self) -> (r: String)
        ensures
            r@ == nombre_visible(self@),
    {
        if let Some(nombre) = &self.nombre {
            return nombre.clone();
        }
        let r = match (&self.tipo, &self.destino) {
            (TipoReenvio::Dinamico, _) => {
                let mut r = caracteres("socks-");
                let n = en_decimal(self.escucha.puerto as u64);
                anexar(&mut r, n.as_slice());
                r
            },
            (_, Some(destino)) => {
                let n = en_decimal(destino.puerto as u64);
                match servicio_de(destino.puerto) {
                    Some(servicio) => {
                        let mut r = caracteres(servicio);
                        r.push('-');
                        anexar(&mut r, n.as_slice());
                        r
                    },
                    None => {
                        let mut r = caracteres("puerto-");
                        anexar(&mut r, n.as_slice());
                        r
                    },
                }
            },
            (_, None) => {
                let mut r = caracteres("puerto-");
                let n = en_decimal(self.escucha.puerto as u64);
                anexar(&mut r, n.as_slice());
                r
            },
        };
        cadena(r.as_slice())
    }

    /// Analiza el valor de una directiva `*Forward` de `ssh_config`.
    ///
    /// OpenSSH admite `:` y `/` como separador; se aceptan ambos.
    pub fn analizar(tipo: TipoReenvio, valor: &str) -> (r: Resultado<Reenvio>)
        ensures
            coincide(r, reenvio_de(tipo, valor@)),
    {
        let c = caracteres(valor);
        Reenvio::analizar_caracteres(tipo, c.as_slice())
    }

    /// Como [`Reenvio::analizar`], sobre caracteres.
    pub fn analizar_caracteres(tipo: TipoReenvio, valor0: &[char]) -> (r: Resultado<Reenvio>)
        ensures
            coincide(r, reenvio_de(tipo, valor0@)),
    {
        let valor = reemplazar(valor0, '/', ':');
        let campos = en_palabras(valor.as_slice());
        proof {
            assert(campos@.len() == palabras(valor@).len());
            assert forall|i: int| 0 <= i < campos@.len() implies campos@[i]@ == palabras(
                valor@,
            )[i] by {
                assert(vistas_vec(campos@)[i] == campos@[i]@);
            }
        }
        let mut error = rodeado("«", valor.as_slice(), "» no es un valor válido para ");
        anexar_str(&mut error, tipo.directiva());
        if tipo == TipoReenvio::Dinamico {
            if campos.len() == 1 {
                match Extremo::analizar(campos[0].as_slice()) {
                    Ok(e) => Ok(
                        Reenvio { tipo, escucha: e, destino: None, salud: Salud::Escucha, nombre: None },
                    ),
                    Err(m) => Err(m),
                }
            } else {
                Err(invalida(error))
            }
        } else if campos.len() == 2 {
            match Extremo::analizar(campos[0].as_slice()) {
                Err(m) => Err(m),
                Ok(e) => match Extremo::analizar(campos[1].as_slice()) {
                    Err(m) => Err(m),
                    Ok(d) => Ok(
                        Reenvio {
                            tipo,
                            escucha: e,
                            destino: Some(d),
                            salud: Salud::Escucha,
                            nombre: None,
                        },
                    ),
                },
            }
        } else if campos.len() == 1 {
            let partes = trocear(campos[0].as_slice(), ':');
            proof {
                assert(partes@.len() == trozos(campos@[0]@, ':').len());
                assert forall|i: int| 0 <= i < partes@.len() implies partes@[i]@ == trozos(
                    campos@[0]@,
                    ':',
                )[i] by {
                    assert(vistas_vec(partes@)[i] == partes@[i]@);
                }
            }
            if partes.len() == 3 {
                match Extremo::analizar(partes[0].as_slice()) {
                    Err(m) => Err(m),
                    Ok(e) => match analizar_puerto(partes[2].as_slice()) {
                        Err(m) => Err(m),
                        Ok(p) => Ok(
                            Reenvio {
                                tipo,
                                escucha: e,
                                destino: Some(
                                    Extremo {
                                        direccion: Some(cadena(partes[1].as_slice())),
                                        puerto: p,
                                    },
                                ),
                                salud: Salud::Escucha,
                                nombre: None,
                            },
                        ),
                    },
                }
            } else if partes.len() == 4 {
                match analizar_puerto(partes[1].as_slice()) {
                    Err(m) => Err(m),
                    Ok(pe) => match analizar_puerto(partes[3].as_slice()) {
                        Err(m) => Err(m),
                        Ok(pd) => Ok(
                            Reenvio {
                                tipo,
                                escucha: Extremo {
                                    direccion: Some(cadena(partes[0].as_slice())),
                                    puerto: pe,
                                },
                                destino: Some(
                                    Extremo {
                                        direccion: Some(cadena(partes[2].as_slice())),
                                        puerto: pd,
                                    },
                                ),
                                salud: Salud::Escucha,
                                nombre: None,
                            },
                        ),
                    },
                }
            } else {
                Err(invalida(error))
            }
        } else {
            Err(invalida(error))
        }
    }

    /// Valor tal como se escribe en `ssh_config`.
    pub fn valor_directiva(&self) -> (r: String)
        ensures
            r@ == valor_directiva(self@),
    {
        let mut r = self.escucha.caracteres();
        if let Some(destino) = &self.destino {
            r.push(' ');
            let d = destino.caracteres();
            anexar(&mut r, d.as_slice());
        }
        cadena(r.as_slice())
    }

    /// Argumento para `-L` / `-R` / `-D` en la línea de órdenes de `ssh`.
    ///
    /// Aquí el separador debe ser `:` sin espacios, que es lo que espera
    /// `-O forward`.
    pub fn argumento(&self) -> (r: String)
        ensures
            r@ == argumento(self@),
    {
        let c = self.argumento_caracteres();
        cadena(c.as_slice())
    }

    fn argumento_caracteres(&self) -> (r: Vec<char>)
        ensures
            r@ == argumento(self@),
    {
        let mut r = escucha_argumento_de(&self.escucha);
        if let Some(destino) = &self.destino {
            r.push(':');
            match &destino.direccion {
                Some(x) => anexar_str(&mut r, x.as_str()),
                None => anexar_str(&mut r, "localhost"),
            }
            r.push(':');
            let n = en_decimal(destino.puerto as u64);
            anexar(&mut r, n.as_slice());
        }
        r
    }

    /// Descripción legible para la interfaz: `localhost:3000 → host:3000`.
    pub fn descripcion(&self) -> (r: String)
        ensures
            r@ == descripcion(self@),
    {
        let r = match (&self.tipo, &self.destino) {
            (TipoReenvio::Local, Some(destino)) => {
                let mut r = escucha_efectiva_de(&self.escucha);
                anexar_str(&mut r, " → ");
                let d = destino.caracteres();
                anexar(&mut r, d.as_slice());
                r
            },
            (TipoReenvio::Remoto, Some(destino)) => {
                let mut r = caracteres("remoto:");
                let n = en_decimal(self.escucha.puerto as u64);
                anexar(&mut r, n.as_slice());
                anexar_str(&mut r, " → ");
                let d = destino.caracteres();
                anexar(&mut r, d.as_slice());
                r
            },
            (TipoReenvio::Dinamico, _) => {
                let mut r = caracteres("SOCKS en ");
                let e = escucha_efectiva_de(&self.escucha);
                anexar(&mut r, e.as_slice());
                r
            },
            (_, None) => self.escucha.caracteres(),
        };
        cadena(r.as_slice())
    }

    /// Como `descripcion`, pero nombrando en qué máquina se resuelve cada punta.
    ///
    /// No se sustituye `localhost` por el nombre del host: diría que ese puerto
    /// es alcanzable en esa dirección, y muchas veces no lo es.
    pub fn descripcion_orientada(&self) -> (r: String)
        ensures
            r@ == descripcion_orientada(self@),
    {
        let r = match (&self.tipo, &self.destino) {
            (TipoReenvio::Local, Some(destino)) => {
                let mut r = caracteres("aquí ");
                let e = escucha_efectiva_de(&self.escucha);
                anexar(&mut r, e.as_slice());
                anexar_str(&mut r, " → remoto ");
                let d = destino.caracteres();
                anexar(&mut r, d.as_slice());
                r
            },
            (TipoReenvio::Remoto, Some(destino)) => {
                let mut r = caracteres("remoto :");
                let n = en_decimal(self.escucha.puerto as u64);
                anexar(&mut r, n.as_slice());
                anexar_str(&mut r, " → aquí ");
                let d = destino.caracteres();
                anexar(&mut r, d.as_slice());
                r
            },
            (TipoReenvio::Dinamico, _) => {
                let mut r = caracteres("SOCKS aquí en ");
                let e = escucha_efectiva_de(&self.escucha);
                anexar(&mut r, e.as_slice());
                r
            },
            (_, None) => self.escucha.caracteres(),
        };
        cadena(r.as_slice())
    }
}

// --- Origen, host y túnel ------------------------------------------------------------

/// Vista del origen de un host.
pub enum OrigenV {
    Propio,
    Ajeno(Seq<char>),
}

/// De dónde sale la definición de un host.
#[derive(Debug)]
pub enum Origen {
    /// `~/.ssh/config.d/yonder.conf`: la aplicación es dueña y puede escribir.
    Propio,
    /// Otro fichero del usuario: se muestra y se puede activar, pero no editar.
    Ajeno(String),
}

impl View for Origen {
    type V = OrigenV;

    open spec fn view(&self) -> OrigenV {
        match self {
            Origen::Propio => OrigenV::Propio,
            Origen::Ajeno(r) => OrigenV::Ajeno(r@),
        }
    }
}

impl Origen {
    pub fn editable(&self) -> (r: bool)
        ensures
            r == (self@ is Propio),
    {
        match self {
            Origen::Propio => true,
            Origen::Ajeno(_) => false,
        }
    }

    /// Copia exacta.
    pub fn duplicar(&self) -> (r: Origen)
        ensures
            r@ == self@,
    {
        match self {
            Origen::Propio => Origen::Propio,
            Origen::Ajeno(ruta) => Origen::Ajeno(ruta.clone()),
        }
    }
}

pub open spec fn vistas_reenvios(v: Seq<Reenvio>) -> Seq<ReenvioV> {
    v.map_values(|r: Reenvio| r@)
}

/// Vista de un host.
pub struct HostV {
    pub alias: Seq<char>,
    pub hostname: Option<Seq<char>>,
    pub usuario: Option<Seq<char>>,
    pub puerto: Option<u16>,
    pub saltos: Seq<Seq<char>>,
    pub identidades: Seq<Seq<char>>,
    pub reenvios: Seq<ReenvioV>,
    pub origen: OrigenV,
    pub nota: Option<Seq<char>>,
}

/// Un bloque `Host` con las directivas que la aplicación entiende.
///
/// Las directivas que no reconoce se conservan íntegras en el cuerpo del
/// bloque (véase `config::parser`), de modo que reescribir el fichero nunca
/// pierde información.
#[derive(Debug)]
pub struct Host {
    pub alias: String,
    pub hostname: Option<String>,
    pub usuario: Option<String>,
    pub puerto: Option<u16>,
    /// `ProxyJump`: uno o varios saltos separados por comas.
    pub saltos: Vec<String>,
    pub identidades: Vec<String>,
    pub reenvios: Vec<Reenvio>,
    pub origen: Origen,
    /// Comentario libre asociado al bloque. Se guarda como `# nota: …`.
    pub nota: Option<String>,
}

impl View for Host {
    type V = HostV;

    open spec fn view(&self) -> HostV {
        HostV {
            alias: self.alias@,
            hostname: vista_opcional(self.hostname),
            usuario: vista_opcional(self.usuario),
            puerto: self.puerto,
            saltos: vistas(self.saltos@),
            identidades: vistas(self.identidades@),
            reenvios: vistas_reenvios(self.reenvios@),
            origen: self.origen@,
            nota: vista_opcional(self.nota),
        }
    }
}

/// Destino efectivo: `HostName` si existe, si no el propio alias.
pub open spec fn destino(h: HostV) -> Seq<char> {
    match h.hostname {
        Some(n) => n,
        None => h.alias,
    }
}

/// Destino con usuario y puerto, para mostrar: `usuario@host.interno:22`.
/// El usuario y el puerto aparecen si están fijados.
pub open spec fn destino_completo(h: HostV) -> Seq<char> {
    let con_usuario = match h.usuario {
        Some(u) => u + seq!['@'] + destino(h),
        None => destino(h),
    };
    match h.puerto {
        Some(p) => con_usuario + seq![':'] + decimal(p as nat),
        None => con_usuario,
    }
}

/// Último componente de una ruta.
pub open spec fn nombre_de_fichero(ruta: Seq<char>) -> Seq<char> {
    match ultima_pos(ruta, '/') {
        Some(k) => ruta.skip(k + 1),
        None => ruta,
    }
}

/// La ruta parece una clave respaldada por hardware (FIDO2).
pub open spec fn es_ruta_de_clave_hardware(ruta: Seq<char>) -> bool {
    let nombre = nombre_de_fichero(ruta);
    contiene(nombre, "_sk"@) || contiene(nombre, "-sk"@) || termina_en(nombre, "sk"@)
}

/// Carácter que una shell no parte ni interpreta.
pub open spec fn es_seguro_en_shell(c: char) -> bool {
    es_alfanumerico_ascii(c) || "-_.,:/@=+[]"@.contains(c)
}

/// `'` escapada para ir dentro de comillas simples: `'\''`.
pub open spec fn escapado(a: Seq<char>) -> Seq<char>
    decreases a.len(),
{
    if a.len() == 0 {
        seq![]
    } else {
        escapado(a.drop_last()) + if a.last() == '\'' {
            seq!['\'', '\\', '\'', '\'']
        } else {
            seq![a.last()]
        }
    }
}

/// Un argumento tal como se pega en una shell: entre comillas solo si hace falta.
pub open spec fn entrecomillado(a: Seq<char>) -> Seq<char> {
    if a.len() > 0 && forall|i: int| 0 <= i < a.len() ==> es_seguro_en_shell(#[trigger] a[i]) {
        a
    } else {
        seq!['\''] + escapado(a) + seq!['\'']
    }
}

/// `-i clave` por cada identidad.
pub open spec fn argumentos_identidad(ids: Seq<Seq<char>>) -> Seq<Seq<char>>
    decreases ids.len(),
{
    if ids.len() == 0 {
        seq![]
    } else {
        argumentos_identidad(ids.drop_last()) + seq!["-i"@, entrecomillado(ids.last())]
    }
}

/// Las palabras de la orden `ssh` manual para un reenvío.
pub open spec fn partes_orden_manual(h: HostV, r: ReenvioV) -> Seq<Seq<char>> {
    let inicio = seq!["ssh"@, "-N"@, bandera(r.tipo), entrecomillado(argumento(r))];
    let puerto = match h.puerto {
        Some(p) => if p != 22 {
            seq!["-p"@, decimal(p as nat)]
        } else {
            seq![]
        },
        None => seq![],
    };
    let saltos = if h.saltos.len() > 0 {
        seq!["-J"@, entrecomillado(unidos(h.saltos, ","@))]
    } else {
        seq![]
    };
    let objetivo = match h.usuario {
        Some(u) => u + seq!['@'] + destino(h),
        None => destino(h),
    };
    inicio + puerto + saltos + argumentos_identidad(h.identidades) + seq![
        entrecomillado(objetivo),
    ]
}

/// La orden `ssh` equivalente a un reenvío, para ejecutarla a mano.
pub open spec fn orden_ssh_manual(h: HostV, r: ReenvioV) -> Seq<char> {
    unidos(partes_orden_manual(h, r), " "@)
}

fn seguro_en_shell(c: char) -> (r: bool)
    ensures
        r == es_seguro_en_shell(c),
{
    let permitidos = caracteres("-_.,:/@=+[]");
    alfanumerico_ascii(c) || tiene_char(permitidos.as_slice(), c)
}

/// Entrecomilla un argumento si al pegarlo en una shell no sobreviviría entero.
///
/// El caso real es una ruta de clave con un espacio dentro. Se entrecomilla
/// solo cuando hace falta: esta orden está para copiarla y entenderla de un
/// vistazo.
fn entrecomillar(a: &[char]) -> (r: Vec<char>)
    ensures
        r@ == entrecomillado(a@),
{
    let mut seguro = a.len() > 0;
    let mut i: usize = 0;
    while i < a.len()
        invariant
            i <= a@.len(),
            seguro == (a@.len() > 0 && forall|j: int| 0 <= j < i ==> es_seguro_en_shell(
                #[trigger] a@[j],
            )),
        decreases a@.len() - i,
    {
        if !seguro_en_shell(a[i]) {
            seguro = false;
        }
        i += 1;
    }
    if seguro {
        return trozo(a, 0, a.len());
    }
    let mut r: Vec<char> = Vec::new();
    r.push('\'');
    let mut k: usize = 0;
    while k < a.len()
        invariant
            k <= a@.len(),
            r@ == seq!['\''] + escapado(a@.take(k as int)),
        decreases a@.len() - k,
    {
        proof {
            assert(a@.take(k + 1).drop_last() == a@.take(k as int));
        }
        if a[k] == '\'' {
            r.push('\'');
            r.push('\\');
            r.push('\'');
            r.push('\'');
        } else {
            r.push(a[k]);
        }
        proof {
            assert(r@ =~= seq!['\''] + escapado(a@.take(k + 1)));
        }
        k += 1;
    }
    proof {
        assert(a@.take(a@.len() as int) == a@);
    }
    r.push('\'');
    r
}

// --- Validación ----------------------------------------------------------------------

/// El primero de dos fallos posibles.
pub open spec fn primero(a: Option<Seq<char>>, b: Option<Seq<char>>) -> Option<Seq<char>> {
    match a {
        Some(m) => Some(m),
        None => b,
    }
}

/// Rechaza saltos de línea y caracteres de control: un valor con `\n` dentro
/// se convertiría en directivas nuevas al escribirse en `yonder.conf`.
pub open spec fn fallo_control(campo: Seq<char>, v: Seq<char>) -> Option<Seq<char>> {
    if tiene_control(v) {
        Some(campo + " no puede contener saltos de línea ni caracteres de control"@)
    } else {
        None
    }
}

/// Rechaza espacios donde `ssh_config` tomaría solo la primera palabra.
pub open spec fn fallo_espacios(campo: Seq<char>, v: Seq<char>) -> Option<Seq<char>> {
    if tiene_blanco(v) {
        Some(campo + " no puede contener espacios"@)
    } else {
        None
    }
}

/// Rechaza valores que `ssh` consumiría como opción: no admite `--`.
pub open spec fn fallo_guion(campo: Seq<char>, v: Seq<char>) -> Option<Seq<char>> {
    if v.len() > 0 && v[0] == '-' {
        Some(campo + " no puede empezar por «-»: ssh lo tomaría por una opción"@)
    } else {
        None
    }
}

/// Las tres comprobaciones de un valor que viaja a `ssh` como palabra suelta.
pub open spec fn fallo_palabra(campo: Seq<char>, v: Seq<char>) -> Option<Seq<char>> {
    primero(fallo_control(campo, v), primero(fallo_espacios(campo, v), fallo_guion(campo, v)))
}

pub open spec fn fallo_palabra_opcional(campo: Seq<char>, v: Option<Seq<char>>) -> Option<
    Seq<char>,
> {
    match v {
        Some(x) => fallo_palabra(campo, x),
        None => None,
    }
}

/// Primer salto que no vale.
pub open spec fn fallo_saltos(s: Seq<Seq<char>>) -> Option<Seq<char>>
    decreases s.len(),
{
    if s.len() == 0 {
        None
    } else {
        primero(fallo_saltos(s.drop_last()), fallo_palabra("un salto"@, s.last()))
    }
}

/// Primera identidad con caracteres de control. Las rutas pueden llevar espacios.
pub open spec fn fallo_identidades(s: Seq<Seq<char>>) -> Option<Seq<char>>
    decreases s.len(),
{
    if s.len() == 0 {
        None
    } else {
        primero(fallo_identidades(s.drop_last()), fallo_control("una IdentityFile"@, s.last()))
    }
}

pub open spec fn fallo_direccion(e: ExtremoV) -> Option<Seq<char>> {
    match e.direccion {
        Some(d) => primero(
            fallo_control("una dirección"@, d),
            fallo_espacios("una dirección"@, d),
        ),
        None => None,
    }
}

/// Lo que hay que comprobar en cada reenvío.
pub open spec fn fallo_reenvio(r: ReenvioV) -> Option<Seq<char>> {
    let nombre = match r.nombre {
        Some(n) => fallo_control("el nombre del reenvío"@, n),
        None => None,
    };
    let salud = match r.salud {
        SaludV::Http { ruta } => primero(
            fallo_control("la ruta de salud"@, ruta),
            fallo_espacios("la ruta de salud"@, ruta),
        ),
        _ => None,
    };
    let destino = match r.destino {
        Some(d) => fallo_direccion(d),
        None => None,
    };
    primero(nombre, primero(salud, primero(fallo_direccion(r.escucha), destino)))
}

pub open spec fn fallo_reenvios(s: Seq<ReenvioV>) -> Option<Seq<char>>
    decreases s.len(),
{
    if s.len() == 0 {
        None
    } else {
        primero(fallo_reenvios(s.drop_last()), fallo_reenvio(s.last()))
    }
}

/// Un reenvío local o remoto sin destino.
pub open spec fn fallo_sin_destino(s: Seq<ReenvioV>) -> Option<Seq<char>>
    decreases s.len(),
{
    if s.len() == 0 {
        None
    } else {
        primero(
            fallo_sin_destino(s.drop_last()),
            if s.last().tipo != TipoReenvio::Dinamico && s.last().destino is None {
                Some("el reenvío "@ + directiva(s.last().tipo) + " necesita un destino"@)
            } else {
                None
            },
        )
    }
}

/// Dos reenvíos que escuchan en esta máquina sobre el mismo extremo.
pub open spec fn escuchas_repetidas(s: Seq<ReenvioV>) -> bool {
    exists|i: int, j: int|
        0 <= i < j < s.len() && escucha_en_local(s[i].tipo) && escucha_en_local(s[j].tipo)
            && texto_extremo(#[trigger] s[i].escucha) == texto_extremo(#[trigger] s[j].escucha)
}

/// Lo que devuelve la validación de un host.
pub open spec fn validacion(h: HostV) -> Result<(), Seq<char>> {
    if recortado(h.alias).len() == 0 {
        Err("el alias no puede estar vacío"@)
    } else if tiene_blanco(h.alias) {
        Err("el alias no puede contener espacios"@)
    } else if h.alias.contains('*') || h.alias.contains('?') || h.alias.contains('!') {
        Err("el alias no puede contener comodines: sería un patrón, no un host concreto"@)
    } else if recortado(destino(h)).len() == 0 {
        Err("hay que indicar un HostName o un alias que resuelva"@)
    } else {
        let primer_fallo = primero(
            fallo_control("el alias"@, h.alias),
            primero(
                fallo_guion("el alias"@, h.alias),
                primero(
                    fallo_palabra_opcional("el HostName"@, h.hostname),
                    primero(
                        fallo_palabra_opcional("el usuario"@, h.usuario),
                        primero(
                            fallo_saltos(h.saltos),
                            primero(
                                fallo_identidades(h.identidades),
                                primero(
                                    match h.nota {
                                        Some(n) => fallo_control("la nota"@, n),
                                        None => None,
                                    },
                                    primero(
                                        fallo_reenvios(h.reenvios),
                                        fallo_sin_destino(h.reenvios),
                                    ),
                                ),
                            ),
                        ),
                    ),
                ),
            ),
        );
        match primer_fallo {
            Some(m) => Err(m),
            None => if escuchas_repetidas(h.reenvios) {
                Err("hay dos reenvíos escuchando en el mismo puerto local"@)
            } else {
                Ok(())
            },
        }
    }
}

fn control_de(campo: &str, v: &[char]) -> (r: Option<Vec<char>>)
    ensures
        vista_mensaje(r) == fallo_control(campo@, v@),
{
    if hay_control(v) {
        let mut m = caracteres(campo);
        anexar_str(&mut m, " no puede contener saltos de línea ni caracteres de control");
        Some(m)
    } else {
        None
    }
}

fn espacios_de(campo: &str, v: &[char]) -> (r: Option<Vec<char>>)
    ensures
        vista_mensaje(r) == fallo_espacios(campo@, v@),
{
    if hay_blanco(v) {
        let mut m = caracteres(campo);
        anexar_str(&mut m, " no puede contener espacios");
        Some(m)
    } else {
        None
    }
}

fn guion_de(campo: &str, v: &[char]) -> (r: Option<Vec<char>>)
    ensures
        vista_mensaje(r) == fallo_guion(campo@, v@),
{
    if v.len() > 0 && v[0] == '-' {
        let mut m = caracteres(campo);
        anexar_str(&mut m, " no puede empezar por «-»: ssh lo tomaría por una opción");
        Some(m)
    } else {
        None
    }
}

fn palabra_de(campo: &str, v: &[char]) -> (r: Option<Vec<char>>)
    ensures
        vista_mensaje(r) == fallo_palabra(campo@, v@),
{
    if let Some(m) = control_de(campo, v) {
        return Some(m);
    }
    if let Some(m) = espacios_de(campo, v) {
        return Some(m);
    }
    guion_de(campo, v)
}

fn palabra_opcional_de(campo: &str, v: &Option<String>) -> (r: Option<Vec<char>>)
    ensures
        vista_mensaje(r) == fallo_palabra_opcional(campo@, vista_opcional(*v)),
{
    match v {
        Some(x) => {
            let c = caracteres(x.as_str());
            palabra_de(campo, c.as_slice())
        },
        None => None,
    }
}

fn direccion_de(e: &Extremo) -> (r: Option<Vec<char>>)
    ensures
        vista_mensaje(r) == fallo_direccion(e@),
{
    match &e.direccion {
        Some(d) => {
            let c = caracteres(d.as_str());
            if let Some(m) = control_de("una dirección", c.as_slice()) {
                return Some(m);
            }
            espacios_de("una dirección", c.as_slice())
        },
        None => None,
    }
}

fn reenvio_fallo_de(r: &Reenvio) -> (m: Option<Vec<char>>)
    ensures
        vista_mensaje(m) == fallo_reenvio(r@),
{
    if let Some(n) = &r.nombre {
        let c = caracteres(n.as_str());
        if let Some(m) = control_de("el nombre del reenvío", c.as_slice()) {
            return Some(m);
        }
    }
    if let Salud::Http { ruta } = &r.salud {
        let c = caracteres(ruta.as_str());
        if let Some(m) = control_de("la ruta de salud", c.as_slice()) {
            return Some(m);
        }
        if let Some(m) = espacios_de("la ruta de salud", c.as_slice()) {
            return Some(m);
        }
    }
    if let Some(m) = direccion_de(&r.escucha) {
        return Some(m);
    }
    match &r.destino {
        Some(d) => direccion_de(d),
        None => None,
    }
}

proof fn lema_vistas_take(v: Seq<String>, i: int)
    requires
        0 <= i < v.len(),
    ensures
        vistas(v.take(i + 1)).drop_last() == vistas(v.take(i)),
        vistas(v.take(i + 1)).last() == v[i]@,
        vistas(v.take(i + 1)).len() == i + 1,
{
    assert(vistas(v.take(i + 1)).drop_last() =~= vistas(v.take(i)));
}

proof fn lema_reenvios_take(v: Seq<Reenvio>, i: int)
    requires
        0 <= i < v.len(),
    ensures
        vistas_reenvios(v.take(i + 1)).drop_last() == vistas_reenvios(v.take(i)),
        vistas_reenvios(v.take(i + 1)).last() == v[i]@,
        vistas_reenvios(v.take(i + 1)).len() == i + 1,
{
    assert(vistas_reenvios(v.take(i + 1)).drop_last() =~= vistas_reenvios(v.take(i)));
}

/// Un fallo en un prefijo es el primer fallo de toda la lista.
proof fn lema_fallo_saltos_prefijo(s: Seq<Seq<char>>, k: int)
    requires
        0 <= k <= s.len(),
        fallo_saltos(s.take(k)) is Some,
    ensures
        fallo_saltos(s) == fallo_saltos(s.take(k)),
    decreases s.len() - k,
{
    if k < s.len() {
        assert(s.take(k + 1).drop_last() =~= s.take(k));
        lema_fallo_saltos_prefijo(s, k + 1);
    } else {
        assert(s.take(k) =~= s);
    }
}

proof fn lema_fallo_identidades_prefijo(s: Seq<Seq<char>>, k: int)
    requires
        0 <= k <= s.len(),
        fallo_identidades(s.take(k)) is Some,
    ensures
        fallo_identidades(s) == fallo_identidades(s.take(k)),
    decreases s.len() - k,
{
    if k < s.len() {
        assert(s.take(k + 1).drop_last() =~= s.take(k));
        lema_fallo_identidades_prefijo(s, k + 1);
    } else {
        assert(s.take(k) =~= s);
    }
}

proof fn lema_fallo_reenvios_prefijo(s: Seq<ReenvioV>, k: int)
    requires
        0 <= k <= s.len(),
        fallo_reenvios(s.take(k)) is Some,
    ensures
        fallo_reenvios(s) == fallo_reenvios(s.take(k)),
    decreases s.len() - k,
{
    if k < s.len() {
        assert(s.take(k + 1).drop_last() =~= s.take(k));
        lema_fallo_reenvios_prefijo(s, k + 1);
    } else {
        assert(s.take(k) =~= s);
    }
}

proof fn lema_fallo_sin_destino_prefijo(s: Seq<ReenvioV>, k: int)
    requires
        0 <= k <= s.len(),
        fallo_sin_destino(s.take(k)) is Some,
    ensures
        fallo_sin_destino(s) == fallo_sin_destino(s.take(k)),
    decreases s.len() - k,
{
    if k < s.len() {
        assert(s.take(k + 1).drop_last() =~= s.take(k));
        lema_fallo_sin_destino_prefijo(s, k + 1);
    } else {
        assert(s.take(k) =~= s);
    }
}

fn saltos_fallo_de(v: &Vec<String>) -> (r: Option<Vec<char>>)
    ensures
        vista_mensaje(r) == fallo_saltos(vistas(v@)),
{
    let mut i: usize = 0;
    proof {
        assert(vistas(v@.take(0)) =~= seq![]);
    }
    while i < v.len()
        invariant
            i <= v@.len(),
            fallo_saltos(vistas(v@.take(i as int))) is None,
        decreases v@.len() - i,
    {
        proof {
            lema_vistas_take(v@, i as int);
        }
        let c = caracteres(v[i].as_str());
        if let Some(m) = palabra_de("un salto", c.as_slice()) {
            proof {
                assert(vistas(v@.take(i + 1)) =~= vistas(v@).take(i + 1));
                lema_fallo_saltos_prefijo(vistas(v@), i + 1);
            }
            return Some(m);
        }
        i += 1;
    }
    proof {
        assert(v@.take(v@.len() as int) == v@);
    }
    None
}

fn identidades_fallo_de(v: &Vec<String>) -> (r: Option<Vec<char>>)
    ensures
        vista_mensaje(r) == fallo_identidades(vistas(v@)),
{
    let mut i: usize = 0;
    proof {
        assert(vistas(v@.take(0)) =~= seq![]);
    }
    while i < v.len()
        invariant
            i <= v@.len(),
            fallo_identidades(vistas(v@.take(i as int))) is None,
        decreases v@.len() - i,
    {
        proof {
            lema_vistas_take(v@, i as int);
        }
        let c = caracteres(v[i].as_str());
        if let Some(m) = control_de("una IdentityFile", c.as_slice()) {
            proof {
                assert(vistas(v@.take(i + 1)) =~= vistas(v@).take(i + 1));
                lema_fallo_identidades_prefijo(vistas(v@), i + 1);
            }
            return Some(m);
        }
        i += 1;
    }
    proof {
        assert(v@.take(v@.len() as int) == v@);
    }
    None
}

fn reenvios_fallo_de(v: &Vec<Reenvio>) -> (r: Option<Vec<char>>)
    ensures
        vista_mensaje(r) == fallo_reenvios(vistas_reenvios(v@)),
{
    let mut i: usize = 0;
    proof {
        assert(vistas_reenvios(v@.take(0)) =~= seq![]);
    }
    while i < v.len()
        invariant
            i <= v@.len(),
            fallo_reenvios(vistas_reenvios(v@.take(i as int))) is None,
        decreases v@.len() - i,
    {
        proof {
            lema_reenvios_take(v@, i as int);
        }
        if let Some(m) = reenvio_fallo_de(&v[i]) {
            proof {
                assert(vistas_reenvios(v@.take(i + 1)) =~= vistas_reenvios(v@).take(i + 1));
                lema_fallo_reenvios_prefijo(vistas_reenvios(v@), i + 1);
            }
            return Some(m);
        }
        i += 1;
    }
    proof {
        assert(v@.take(v@.len() as int) == v@);
    }
    None
}

fn sin_destino_fallo_de(v: &Vec<Reenvio>) -> (r: Option<Vec<char>>)
    ensures
        vista_mensaje(r) == fallo_sin_destino(vistas_reenvios(v@)),
{
    let mut i: usize = 0;
    proof {
        assert(vistas_reenvios(v@.take(0)) =~= seq![]);
    }
    while i < v.len()
        invariant
            i <= v@.len(),
            fallo_sin_destino(vistas_reenvios(v@.take(i as int))) is None,
        decreases v@.len() - i,
    {
        proof {
            lema_reenvios_take(v@, i as int);
        }
        let r = &v[i];
        if r.tipo != TipoReenvio::Dinamico && r.destino.is_none() {
            let mut m = caracteres("el reenvío ");
            anexar_str(&mut m, r.tipo.directiva());
            anexar_str(&mut m, " necesita un destino");
            proof {
                assert(vistas_reenvios(v@.take(i + 1)) =~= vistas_reenvios(v@).take(i + 1));
                lema_fallo_sin_destino_prefijo(vistas_reenvios(v@), i + 1);
            }
            return Some(m);
        }
        i += 1;
    }
    proof {
        assert(v@.take(v@.len() as int) == v@);
    }
    None
}

fn hay_escuchas_repetidas(v: &Vec<Reenvio>) -> (r: bool)
    ensures
        r == escuchas_repetidas(vistas_reenvios(v@)),
{
    let ghost s = vistas_reenvios(v@);
    let mut j: usize = 0;
    while j < v.len()
        invariant
            j <= v@.len(),
            s == vistas_reenvios(v@),
            forall|a: int, b: int|
                0 <= a < b < j ==> !(escucha_en_local(s[a].tipo) && escucha_en_local(s[b].tipo)
                    && texto_extremo(#[trigger] s[a].escucha) == texto_extremo(
                    #[trigger] s[b].escucha,
                )),
        decreases v@.len() - j,
    {
        if v[j].tipo.escucha_en_local() {
            let tj = v[j].escucha.caracteres();
            let mut i: usize = 0;
            while i < j
                invariant
                    i <= j < v@.len(),
                    s == vistas_reenvios(v@),
                    escucha_en_local(s[j as int].tipo),
                    tj@ == texto_extremo(s[j as int].escucha),
                    forall|a: int|
                        0 <= a < i ==> !(escucha_en_local(s[a].tipo) && texto_extremo(
                            #[trigger] s[a].escucha,
                        ) == tj@),
                decreases j - i,
            {
                if v[i].tipo.escucha_en_local() {
                    let ti = v[i].escucha.caracteres();
                    if iguales(ti.as_slice(), tj.as_slice()) {
                        proof {
                            assert(escucha_en_local(s[i as int].tipo) && escucha_en_local(
                                s[j as int].tipo,
                            ) && texto_extremo(s[i as int].escucha) == texto_extremo(
                                s[j as int].escucha,
                            ));
                        }
                        return true;
                    }
                }
                i += 1;
            }
        }
        j += 1;
    }
    false
}

impl Host {
    pub fn nuevo(alias: &str) -> (h: Host)
        ensures
            h@ == (HostV {
                alias: alias@,
                hostname: None,
                usuario: None,
                puerto: None,
                saltos: seq![],
                identidades: seq![],
                reenvios: seq![],
                origen: OrigenV::Propio,
                nota: None,
            }),
    {
        let h = Host {
            alias: alias.to_owned(),
            hostname: None,
            usuario: None,
            puerto: None,
            saltos: Vec::new(),
            identidades: Vec::new(),
            reenvios: Vec::new(),
            origen: Origen::Propio,
            nota: None,
        };
        proof {
            assert(vistas(h.saltos@) =~= seq![]);
            assert(vistas(h.identidades@) =~= seq![]);
            assert(vistas_reenvios(h.reenvios@) =~= seq![]);
        }
        h
    }

    /// Destino efectivo: `HostName` si existe, si no el propio alias.
    pub fn destino(&self) -> (r: &str)
        ensures
            r@ == destino(self@),
    {
        match &self.hostname {
            Some(n) => n.as_str(),
            None => self.alias.as_str(),
        }
    }

    /// Destino con usuario y puerto, para mostrar: `usuario@host.interno:22`.
    pub fn destino_completo(&self) -> (r: String)
        ensures
            r@ == destino_completo(self@),
    {
        let mut texto: Vec<char> = Vec::new();
        if let Some(usuario) = &self.usuario {
            anexar_str(&mut texto, usuario.as_str());
            texto.push('@');
        }
        anexar_str(&mut texto, self.destino());
        if let Some(puerto) = self.puerto {
            texto.push(':');
            let n = en_decimal(puerto as u64);
            anexar(&mut texto, n.as_slice());
        }
        proof {
            assert(texto@ =~= destino_completo(self@));
        }
        cadena(texto.as_slice())
    }

    /// `true` si alguna `IdentityFile` apunta a una clave respaldada por
    /// hardware. Solo hay que **detectarlo** y avisar; el trabajo real lo hace
    /// el binario `ssh`.
    pub fn usa_clave_hardware(&self) -> (r: bool)
        ensures
            r == exists|i: int|
                0 <= i < self@.identidades.len() && es_ruta_de_clave_hardware(
                    #[trigger] self@.identidades[i],
                ),
    {
        let mut i: usize = 0;
        while i < self.identidades.len()
            invariant
                i <= self.identidades@.len(),
                forall|j: int|
                    0 <= j < i ==> !es_ruta_de_clave_hardware(
                        #[trigger] vistas(self.identidades@)[j],
                    ),
            decreases self.identidades@.len() - i,
        {
            let ruta = caracteres(self.identidades[i].as_str());
            let n = ruta.len();
            proof {
                assert(ruta@ == vistas(self.identidades@)[i as int]);
                lema_ultima_pos(ruta@, '/');
            }
            let nombre = match posicion_ultima(ruta.as_slice(), '/') {
                Some(k) => trozo(ruta.as_slice(), k + 1, n),
                None => ruta,
            };
            proof {
                assert(nombre@ == nombre_de_fichero(vistas(self.identidades@)[i as int]));
            }
            let a = contiene_str(nombre.as_slice(), "_sk");
            let b = contiene_str(nombre.as_slice(), "-sk");
            let sk = caracteres("sk");
            let c = termina(nombre.as_slice(), sk.as_slice());
            proof {
                assert(self@.identidades[i as int] == vistas(self.identidades@)[i as int]);
                assert((a || b || c) == es_ruta_de_clave_hardware(self@.identidades[i as int]));
            }
            if a || b || c {
                return true;
            }
            i += 1;
        }
        false
    }

    /// Túneles derivados de este host, uno por reenvío.
    pub fn tuneles(&self) -> (r: Vec<Tunel>)
        ensures
            r@.len() == self.reenvios@.len(),
            forall|i: int|
                0 <= i < r@.len() ==> #[trigger] r@[i]@ == (TunelV {
                    alias: self.alias@,
                    reenvio: self.reenvios@[i]@,
                }),
    {
        let mut r: Vec<Tunel> = Vec::new();
        let mut i: usize = 0;
        while i < self.reenvios.len()
            invariant
                i <= self.reenvios@.len(),
                r@.len() == i,
                forall|j: int|
                    0 <= j < i ==> #[trigger] r@[j]@ == (TunelV {
                        alias: self.alias@,
                        reenvio: self.reenvios@[j]@,
                    }),
            decreases self.reenvios@.len() - i,
        {
            r.push(Tunel { alias: self.alias.clone(), reenvio: self.reenvios[i].duplicar() });
            i += 1;
        }
        r
    }

    /// La orden `ssh` equivalente a un reenvío, para ejecutarla a mano.
    ///
    /// **No** es la orden que ejecuta la aplicación, que abre un maestro con
    /// socket de control. Esta es una conexión puntual y autocontenida: puerto,
    /// saltos, clave y usuario van en la propia línea, sin multiplexado ni
    /// sondas, y sin `-f` para que se vea si ha funcionado.
    pub fn orden_ssh_manual(&self, reenvio: &Reenvio) -> (r: String)
        ensures
            r@ == orden_ssh_manual(self@, reenvio@),
    {
        let mut partes: Vec<Vec<char>> = Vec::new();
        partes.push(caracteres("ssh"));
        partes.push(caracteres("-N"));
        partes.push(caracteres(reenvio.tipo.bandera()));
        let arg = reenvio.argumento_caracteres();
        partes.push(entrecomillar(arg.as_slice()));
        let ghost inicio = vistas_vec(partes@);
        proof {
            assert(inicio =~= seq!["ssh"@, "-N"@, bandera(reenvio.tipo), entrecomillado(
                argumento(reenvio@),
            )]);
        }
        if let Some(puerto) = self.puerto {
            if puerto != 22 {
                partes.push(caracteres("-p"));
                partes.push(en_decimal(puerto as u64));
            }
        }
        let ghost con_puerto = vistas_vec(partes@);
        proof {
            assert(con_puerto =~= inicio + match self@.puerto {
                Some(p) => if p != 22 {
                    seq!["-p"@, decimal(p as nat)]
                } else {
                    seq![]
                },
                None => seq![],
            });
        }
        if self.saltos.len() > 0 {
            partes.push(caracteres("-J"));
            let coma = caracteres(",");
            let unidos_saltos = juntar_cadenas(self.saltos.as_slice(), coma.as_slice());
            partes.push(entrecomillar(unidos_saltos.as_slice()));
        }
        let ghost con_saltos = vistas_vec(partes@);
        proof {
            assert(con_saltos =~= con_puerto + if self@.saltos.len() > 0 {
                seq!["-J"@, entrecomillado(unidos(self@.saltos, ","@))]
            } else {
                seq![]
            });
        }
        let mut k: usize = 0;
        proof {
            assert(vistas(self.identidades@.take(0)) =~= seq![]);
            assert(vistas_vec(partes@) =~= con_saltos + argumentos_identidad(
                vistas(self.identidades@.take(0)),
            ));
        }
        while k < self.identidades.len()
            invariant
                k <= self.identidades@.len(),
                vistas_vec(partes@) == con_saltos + argumentos_identidad(
                    vistas(self.identidades@.take(k as int)),
                ),
            decreases self.identidades@.len() - k,
        {
            proof {
                lema_vistas_take(self.identidades@, k as int);
            }
            let ghost antes = vistas_vec(partes@);
            partes.push(caracteres("-i"));
            let id = caracteres(self.identidades[k].as_str());
            let q = entrecomillar(id.as_slice());
            partes.push(q);
            proof {
                assert(id@ == vistas(self.identidades@.take(k + 1)).last());
                assert(vistas_vec(partes@) =~= antes.push("-i"@).push(q@));
                assert(argumentos_identidad(vistas(self.identidades@.take(k + 1)))
                    == argumentos_identidad(vistas(self.identidades@.take(k as int))) + seq![
                    "-i"@,
                    q@,
                ]);
                assert(vistas_vec(partes@) =~= con_saltos + argumentos_identidad(
                    vistas(self.identidades@.take(k + 1)),
                ));
            }
            k += 1;
        }
        proof {
            assert(self.identidades@.take(self.identidades@.len() as int) == self.identidades@);
        }
        let mut objetivo: Vec<char> = Vec::new();
        if let Some(usuario) = &self.usuario {
            anexar_str(&mut objetivo, usuario.as_str());
            objetivo.push('@');
        }
        anexar_str(&mut objetivo, self.destino());
        proof {
            assert(objetivo@ =~= match self@.usuario {
                Some(u) => u + seq!['@'] + destino(self@),
                None => destino(self@),
            });
        }
        partes.push(entrecomillar(objetivo.as_slice()));
        proof {
            assert(vistas_vec(partes@) =~= partes_orden_manual(self@, reenvio@));
        }
        let espacio = caracteres(" ");
        let r = juntar(partes.as_slice(), espacio.as_slice());
        cadena(r.as_slice())
    }

    /// Comprueba que la definición es coherente antes de guardarla.
    ///
    /// Además de la coherencia, cierra la puerta a dos abusos: un valor con
    /// salto de línea se convertiría en **directivas nuevas** al escribirse
    /// (incluida una `ProxyCommand`), y un valor que empieza por «-» lo
    /// consumiría `ssh` como opción.
    pub fn validar(&self) -> (r: Resultado<()>)
        ensures
            coincide(r, validacion(self@)),
    {
        let alias = caracteres(self.alias.as_str());
        let recortado_alias = recortar(alias.as_slice());
        if recortado_alias.len() == 0 {
            return Err(invalida(caracteres("el alias no puede estar vacío")));
        }
        if hay_blanco(alias.as_slice()) {
            return Err(invalida(caracteres("el alias no puede contener espacios")));
        }
        if tiene_char(alias.as_slice(), '*') || tiene_char(alias.as_slice(), '?') || tiene_char(
            alias.as_slice(),
            '!',
        ) {
            return Err(
                invalida(
                    caracteres(
                        "el alias no puede contener comodines: sería un patrón, no un host concreto",
                    ),
                ),
            );
        }
        let destino = recortar_str(self.destino());
        if destino.len() == 0 {
            return Err(
                invalida(caracteres("hay que indicar un HostName o un alias que resuelva")),
            );
        }
        if let Some(m) = control_de("el alias", alias.as_slice()) {
            return Err(invalida(m));
        }
        if let Some(m) = guion_de("el alias", alias.as_slice()) {
            return Err(invalida(m));
        }
        if let Some(m) = palabra_opcional_de("el HostName", &self.hostname) {
            return Err(invalida(m));
        }
        if let Some(m) = palabra_opcional_de("el usuario", &self.usuario) {
            return Err(invalida(m));
        }
        if let Some(m) = saltos_fallo_de(&self.saltos) {
            return Err(invalida(m));
        }
        if let Some(m) = identidades_fallo_de(&self.identidades) {
            return Err(invalida(m));
        }
        if let Some(nota) = &self.nota {
            let c = caracteres(nota.as_str());
            if let Some(m) = control_de("la nota", c.as_slice()) {
                return Err(invalida(m));
            }
        }
        if let Some(m) = reenvios_fallo_de(&self.reenvios) {
            return Err(invalida(m));
        }
        if let Some(m) = sin_destino_fallo_de(&self.reenvios) {
            return Err(invalida(m));
        }
        if hay_escuchas_repetidas(&self.reenvios) {
            return Err(
                invalida(caracteres("hay dos reenvíos escuchando en el mismo puerto local")),
            );
        }
        Ok(())
    }
}

/// Vista de un túnel.
pub struct TunelV {
    pub alias: Seq<char>,
    pub reenvio: ReenvioV,
}

/// Unidad de gestión de la interfaz: un reenvío concreto sobre un alias.
///
/// El estado se lleva **por túnel**, no por host: un host puede tener varios
/// reenvíos y cada uno se activa y se cae por separado.
#[derive(Debug)]
pub struct Tunel {
    pub alias: String,
    pub reenvio: Reenvio,
}

impl View for Tunel {
    type V = TunelV;

    open spec fn view(&self) -> TunelV {
        TunelV { alias: self.alias@, reenvio: self.reenvio@ }
    }
}

impl PartialEq for Tunel {
    fn eq(&self, otro: &Tunel) -> (r: bool) {
        self.alias == otro.alias && self.reenvio.eq(&otro.reenvio)
    }
}

impl vstd::std_specs::cmp::PartialEqSpecImpl for Tunel {
    open spec fn obeys_eq_spec() -> bool {
        true
    }

    open spec fn eq_spec(&self, otro: &Tunel) -> bool {
        self@ == otro@
    }
}

/// Identificador estable de un túnel: alias, bandera y extremo de escucha.
pub open spec fn id_tunel(t: TunelV) -> Seq<char> {
    t.alias + seq!['|'] + bandera(t.reenvio.tipo) + seq!['|'] + texto_extremo(t.reenvio.escucha)
}

impl Tunel {
    /// Identificador estable. El lado de escucha es único por definición: dos
    /// túneles no pueden escuchar en el mismo sitio.
    pub fn id(&self) -> (r: String)
        ensures
            r@ == id_tunel(self@),
    {
        let mut r = caracteres(self.alias.as_str());
        r.push('|');
        anexar_str(&mut r, self.reenvio.tipo.bandera());
        r.push('|');
        let e = self.reenvio.escucha.caracteres();
        anexar(&mut r, e.as_slice());
        cadena(r.as_slice())
    }

    pub fn nombre(&self) -> (r: String)
        ensures
            r@ == self@.alias + " · "@ + descripcion(self@.reenvio),
    {
        let mut r = caracteres(self.alias.as_str());
        anexar_str(&mut r, " · ");
        let d = self.reenvio.descripcion();
        anexar_str(&mut r, d.as_str());
        cadena(r.as_slice())
    }

    /// Copia exacta.
    pub fn duplicar(&self) -> (r: Tunel)
        ensures
            r@ == self@,
    {
        Tunel { alias: self.alias.clone(), reenvio: self.reenvio.duplicar() }
    }
}

/// Ley: el argumento de `-L`/`-R`/`-D` empieza por el extremo de escucha tal
/// como se declaró: la dirección, `:` y el puerto si hay dirección (así `ssh`
/// escucha donde se pidió, no solo en local), o el puerto solo si no la hay.
/// Sin destino no hay nada más; con destino siguen `:`, su dirección (o
/// `localhost`), `:` y su puerto.
pub proof fn ley_el_argumento_empieza_por_la_escucha(r: ReenvioV)
    ensures
        ({
            let e = match r.escucha.direccion {
                Some(d) => d + seq![':'] + decimal(r.escucha.puerto as nat),
                None => decimal(r.escucha.puerto as nat),
            };
            &&& argumento(r).len() >= e.len()
            &&& argumento(r).take(e.len() as int) == e
            &&& match r.destino {
                None => argumento(r) == e,
                Some(d) => argumento(r).skip(e.len() as int) == seq![':'] + match d.direccion {
                    Some(x) => x,
                    None => "localhost"@,
                } + seq![':'] + decimal(d.puerto as nat),
            }
        }),
{
    let e = match r.escucha.direccion {
        Some(d) => d + seq![':'] + decimal(r.escucha.puerto as nat),
        None => decimal(r.escucha.puerto as nat),
    };
    assert(escucha_argumento(r.escucha) == e);
    match r.destino {
        None => {
            assert(argumento(r).take(e.len() as int) =~= e);
        },
        Some(d) => {
            let cola = seq![':'] + match d.direccion {
                Some(x) => x,
                None => "localhost"@,
            } + seq![':'] + decimal(d.puerto as nat);
            assert(argumento(r) =~= e + cola);
            assert(argumento(r).take(e.len() as int) =~= e);
            assert(argumento(r).skip(e.len() as int) =~= cola);
        },
    }
}

/// Ley: cada tipo de reenvío con su directiva de `ssh_config` y su bandera de
/// la línea de órdenes: local `LocalForward`/`-L`, remoto `RemoteForward`/`-R`,
/// dinámico `DynamicForward`/`-D`. Escuchan en esta máquina el local y el
/// dinámico; el remoto escucha en la otra punta.
pub proof fn ley_los_tipos_de_reenvio(t: TipoReenvio)
    ensures
        t == TipoReenvio::Local ==> directiva(t) == "LocalForward"@ && bandera(t) == "-L"@
            && escucha_en_local(t),
        t == TipoReenvio::Remoto ==> directiva(t) == "RemoteForward"@ && bandera(t) == "-R"@
            && !escucha_en_local(t),
        t == TipoReenvio::Dinamico ==> directiva(t) == "DynamicForward"@ && bandera(t) == "-D"@
            && escucha_en_local(t),
{
}

} // verus!
