//! Lectura de ficheros `ssh_config`.
//!
//! El parser es **conservador**: convierte el fichero en una lista de líneas
//! clasificadas y bloques, sin descartar nada. Las directivas que la aplicación
//! no entiende se conservan íntegras, igual que los comentarios y las líneas en
//! blanco. Es lo que permite preservar comentarios y orden al reescribir el
//! fichero propio: volver a componer el texto da el original byte a byte.

use vstd::prelude::*;

use crate::modelo::{
    nombre_limpio, reenvio_de, salud_de, vista_opcional, vistas_reenvios, Host, HostV, Origen,
    OrigenV, Reenvio, ReenvioV, Salud, SaludV, TipoReenvio,
};
use crate::rutas::{expandida, expandir, unida, unir};
use crate::texto::{
    alfanumerico_ascii, en_palabras, palabras, es_str, leer_u16, tiene_char, trocear, trozos, valor_u16, vistas_vec, anexar, anexar_str, blanco, blanco_ascii, cadena, caracteres,
    es_alfanumerico_ascii, es_blanco, es_blanco_ascii, iguales, lema_primera_pos, minusculas,
    posicion, quitar_blancos_al_inicio, recortado, recortar, sin_blancos_al_inicio, trozo,
    en_minusculas, primera_pos, vistas,
};

verus! {

broadcast use vstd::string::group_string_axioms;

// --- Líneas del fichero --------------------------------------------------------

/// Quita el `\r` de un final de línea `\r\n`.
pub open spec fn sin_retorno(x: Seq<char>) -> Seq<char> {
    if x.len() > 0 && x.last() == '\r' {
        x.drop_last()
    } else {
        x
    }
}

/// `str::lines`: trozos entre `\n`, sin el `\r` de un `\r\n`, y sin línea
/// vacía tras el último salto.
pub open spec fn lineas(s: Seq<char>) -> Seq<Seq<char>>
    decreases s.len(),
{
    if s.len() == 0 {
        seq![]
    } else {
        match primera_pos(s, '\n') {
            None => seq![s],
            Some(k) => if 0 <= k < s.len() {
                seq![sin_retorno(s.take(k))] + lineas(s.skip(k + 1))
            } else {
                seq![s]
            },
        }
    }
}

/// El texto no tiene ningún `\r\n`: `str::lines` no le quita nada.
pub open spec fn sin_crlf(s: Seq<char>) -> bool {
    forall|i: int| 0 <= i < s.len() - 1 ==> !(#[trigger] s[i] == '\r' && s[i + 1] == '\n')
}

pub open spec fn vistas_vec_char(v: Seq<Vec<char>>) -> Seq<Seq<char>> {
    v.map_values(|x: Vec<char>| x@)
}

/// `str::lines`.
pub fn en_lineas(s: &[char]) -> (r: Vec<Vec<char>>)
    ensures
        vistas_vec_char(r@) == lineas(s@),
{
    let n = s.len();
    let mut r: Vec<Vec<char>> = Vec::new();
    let mut inicio: usize = 0;
    proof {
        assert(s@.skip(0) == s@);
        assert(vistas_vec_char(r@) =~= seq![]);
    }
    while inicio < n
        invariant
            n == s@.len(),
            inicio <= n,
            lineas(s@) == vistas_vec_char(r@) + lineas(s@.skip(inicio as int)),
        decreases n - inicio,
    {
        let resto = trozo(s, inicio, n);
        match posicion(resto.as_slice(), '\n') {
            None => {
                proof {
                    assert(vistas_vec_char(r@.push(resto)) =~= vistas_vec_char(r@).push(resto@));
                    assert(lineas(s@.skip(n as int)) =~= seq![]) by {
                        assert(s@.skip(n as int).len() == 0);
                    }
                    assert(vistas_vec_char(r@).push(resto@) + seq![] =~= vistas_vec_char(r@) + seq![resto@]);
                }
                r.push(resto);
                inicio = n;
            },
            Some(k) => {
                proof {
                    lema_primera_pos(resto@, '\n');
                    assert(resto@.skip(k + 1) =~= s@.skip(inicio + k + 1));
                }
                let mut linea = trozo(resto.as_slice(), 0, k);
                if k > 0 && linea[k - 1] == '\r' {
                    linea.pop();
                }
                proof {
                    assert(linea@ =~= sin_retorno(resto@.take(k as int)));
                    assert(vistas_vec_char(r@.push(linea)) =~= vistas_vec_char(r@).push(linea@));
                    assert(vistas_vec_char(r@).push(linea@) + lineas(s@.skip(inicio + k + 1))
                        =~= vistas_vec_char(r@) + (seq![linea@] + lineas(s@.skip(inicio + k + 1))));
                }
                r.push(linea);
                inicio = inicio + k + 1;
            },
        }
    }
    proof {
        assert(lineas(s@.skip(n as int)) =~= seq![]) by {
            assert(s@.skip(n as int).len() == 0);
        }
        assert(vistas_vec_char(r@) + seq![] =~= vistas_vec_char(r@));
    }
    r
}

// --- Clasificación de una línea --------------------------------------------------

/// Vista de la clase de una línea.
pub enum ClaseV {
    Vacia,
    Comentario,
    Directiva { clave: Seq<char>, valor: Seq<char> },
}

/// Clasificación de una línea del fichero.
#[derive(Debug)]
pub enum Clase {
    Vacia,
    Comentario,
    /// Clave tal como aparece en el fichero y valor ya sin comillas externas.
    Directiva { clave: String, valor: String },
}

impl View for Clase {
    type V = ClaseV;

    open spec fn view(&self) -> ClaseV {
        match self {
            Clase::Vacia => ClaseV::Vacia,
            Clase::Comentario => ClaseV::Comentario,
            Clase::Directiva { clave, valor } => ClaseV::Directiva { clave: clave@, valor: valor@ },
        }
    }
}

impl PartialEq for Clase {
    fn eq(&self, otra: &Clase) -> (r: bool) {
        match (self, otra) {
            (Clase::Vacia, Clase::Vacia) => true,
            (Clase::Comentario, Clase::Comentario) => true,
            (Clase::Directiva { clave: a, valor: b }, Clase::Directiva { clave: c, valor: d }) => *a
                == *c && *b == *d,
            _ => false,
        }
    }
}

impl vstd::std_specs::cmp::PartialEqSpecImpl for Clase {
    open spec fn obeys_eq_spec() -> bool {
        true
    }

    open spec fn eq_spec(&self, otra: &Clase) -> bool {
        self@ == otra@
    }
}

impl Clase {
    /// Copia exacta.
    pub fn duplicar(&self) -> (r: Clase)
        ensures
            r@ == self@,
    {
        match self {
            Clase::Vacia => Clase::Vacia,
            Clase::Comentario => Clase::Comentario,
            Clase::Directiva { clave, valor } => Clase::Directiva {
                clave: clave.clone(),
                valor: valor.clone(),
            },
        }
    }

    pub fn es_comentario(&self) -> (r: bool)
        ensures
            r == (self@ is Comentario),
    {
        match self {
            Clase::Comentario => true,
            _ => false,
        }
    }
}

/// Longitud de la clave: hasta el primer blanco ASCII o `=`.
pub open spec fn fin_de_clave(s: Seq<char>) -> int
    decreases s.len(),
{
    if s.len() == 0 || es_blanco_ascii(s[0]) || s[0] == '=' {
        0
    } else {
        1 + fin_de_clave(s.drop_first())
    }
}

pub open spec fn es_caracter_de_clave(c: char) -> bool {
    es_alfanumerico_ascii(c) || c == '-' || c == '_'
}

/// Quita un par de comillas dobles externas, si lo hay.
pub open spec fn sin_comillas(t: Seq<char>) -> Seq<char> {
    let r = recortado(t);
    if r.len() >= 2 && r[0] == '"' && r.last() == '"' {
        r.subrange(1, r.len() - 1)
    } else {
        r
    }
}

/// Separa `Clave valor`, `Clave=valor` o `Clave = valor`.
pub open spec fn directiva_de(texto: Seq<char>) -> Option<(Seq<char>, Seq<char>)> {
    let fin = fin_de_clave(texto);
    let clave = texto.take(fin);
    if fin == 0 {
        None
    } else if !(forall|i: int| 0 <= i < clave.len() ==> es_caracter_de_clave(#[trigger] clave[i])) {
        None
    } else {
        let resto = sin_blancos_al_inicio(texto.skip(fin));
        let resto = if resto.len() > 0 && resto[0] == '=' {
            resto.drop_first()
        } else {
            resto
        };
        Some((clave, sin_comillas(resto)))
    }
}

/// Clase de una línea según su texto.
pub open spec fn clase_de(cruda: Seq<char>) -> ClaseV {
    let recortada = recortado(cruda);
    if recortada.len() == 0 {
        ClaseV::Vacia
    } else if recortada[0] == '#' {
        ClaseV::Comentario
    } else {
        match directiva_de(recortada) {
            Some((clave, valor)) => ClaseV::Directiva { clave, valor },
            None => ClaseV::Comentario,
        }
    }
}

proof fn lema_fin_de_clave(s: Seq<char>)
    ensures
        0 <= fin_de_clave(s) <= s.len(),
        forall|j: int|
            0 <= j < fin_de_clave(s) ==> !es_blanco_ascii(#[trigger] s[j]) && s[j] != '=',
        fin_de_clave(s) < s.len() ==> (es_blanco_ascii(s[fin_de_clave(s)]) || s[fin_de_clave(s)]
            == '='),
    decreases s.len(),
{
    if s.len() > 0 && !es_blanco_ascii(s[0]) && s[0] != '=' {
        lema_fin_de_clave(s.drop_first());
        assert forall|j: int| 0 <= j < fin_de_clave(s) implies !es_blanco_ascii(
            #[trigger] s[j],
        ) && s[j] != '=' by {
            if j > 0 {
                assert(s[j] == s.drop_first()[j - 1]);
            }
        }
    }
}

pub proof fn lema_fin_de_clave_en(s: Seq<char>, k: int)
    requires
        0 <= k <= s.len(),
        forall|j: int| 0 <= j < k ==> !es_blanco_ascii(#[trigger] s[j]) && s[j] != '=',
        k == s.len() || es_blanco_ascii(s[k]) || s[k] == '=',
    ensures
        fin_de_clave(s) == k,
    decreases k,
{
    if k > 0 {
        assert forall|j: int| 0 <= j < k - 1 implies !es_blanco_ascii(
            #[trigger] s.drop_first()[j],
        ) && s.drop_first()[j] != '=' by {
            assert(s.drop_first()[j] == s[j + 1]);
        }
        lema_fin_de_clave_en(s.drop_first(), k - 1);
    }
}

fn quitar_comillas(texto: &[char]) -> (r: Vec<char>)
    ensures
        r@ == sin_comillas(texto@),
{
    let r = recortar(texto);
    if r.len() >= 2 && r[0] == '"' && r[r.len() - 1] == '"' {
        trozo(r.as_slice(), 1, r.len() - 1)
    } else {
        r
    }
}

fn dividir_directiva(texto: &[char]) -> (r: Option<(Vec<char>, Vec<char>)>)
    ensures
        match r {
            Some((c, v)) => directiva_de(texto@) == Some((c@, v@)),
            None => directiva_de(texto@) is None,
        },
{
    let n = texto.len();
    let mut fin: usize = 0;
    while fin < n && !blanco_ascii(texto[fin]) && texto[fin] != '='
        invariant
            fin <= n == texto@.len(),
            forall|j: int|
                0 <= j < fin ==> !es_blanco_ascii(#[trigger] texto@[j]) && texto@[j] != '=',
        decreases n - fin,
    {
        fin += 1;
    }
    proof {
        lema_fin_de_clave_en(texto@, fin as int);
    }
    if fin == 0 {
        return None;
    }
    let clave = trozo(texto, 0, fin);
    let mut i: usize = 0;
    while i < clave.len()
        invariant
            i <= clave@.len(),
            clave@ == texto@.take(fin as int),
            fin as int == fin_de_clave(texto@),
            forall|j: int| 0 <= j < i ==> es_caracter_de_clave(#[trigger] clave@[j]),
        decreases clave@.len() - i,
    {
        let c = clave[i];
        if !(alfanumerico_ascii(c) || c == '-' || c == '_') {
            proof {
                assert(clave@ == texto@.take(fin_de_clave(texto@)));
                assert(!es_caracter_de_clave(texto@.take(fin_de_clave(texto@))[i as int]));
                assert(!(forall|j: int|
                    0 <= j < clave@.len() ==> es_caracter_de_clave(#[trigger] clave@[j])));
            }
            return None;
        }
        i += 1;
    }
    let cola = trozo(texto, fin, n);
    let resto = quitar_blancos_al_inicio(cola.as_slice());
    let resto = if resto.len() > 0 && resto[0] == '=' {
        trozo(resto.as_slice(), 1, resto.len())
    } else {
        resto
    };
    proof {
        if resto@.len() > 0 {
        }
    }
    let valor = quitar_comillas(resto.as_slice());
    Some((clave, valor))
}

/// Vista de una línea.
pub struct LineaV {
    pub cruda: Seq<char>,
    pub clase: ClaseV,
}

/// Una línea del fichero, con su texto original intacto.
#[derive(Debug)]
pub struct Linea {
    /// Texto exacto de la línea, sin el salto final.
    pub cruda: String,
    pub clase: Clase,
}

impl View for Linea {
    type V = LineaV;

    open spec fn view(&self) -> LineaV {
        LineaV { cruda: self.cruda@, clase: self.clase@ }
    }
}

impl PartialEq for Linea {
    fn eq(&self, otra: &Linea) -> (r: bool) {
        self.cruda == otra.cruda && self.clase.eq(&otra.clase)
    }
}

impl vstd::std_specs::cmp::PartialEqSpecImpl for Linea {
    open spec fn obeys_eq_spec() -> bool {
        true
    }

    open spec fn eq_spec(&self, otra: &Linea) -> bool {
        self@ == otra@
    }
}

/// Línea leída de ese texto.
pub open spec fn linea_de(cruda: Seq<char>) -> LineaV {
    LineaV { cruda, clase: clase_de(cruda) }
}

/// Nombre de la directiva en minúsculas; ninguno si la línea no es directiva.
pub open spec fn clave_normalizada(l: LineaV) -> Option<Seq<char>> {
    match l.clase {
        ClaseV::Directiva { clave, .. } => Some(minusculas(clave)),
        _ => None,
    }
}

pub open spec fn valor_de(l: LineaV) -> Option<Seq<char>> {
    match l.clase {
        ClaseV::Directiva { valor, .. } => Some(valor),
        _ => None,
    }
}

/// La línea es la directiva `clave`, sin distinguir mayúsculas como OpenSSH.
pub open spec fn es_directiva(l: LineaV, clave: Seq<char>) -> bool {
    clave_normalizada(l) == Some(minusculas(clave))
}

/// Texto de un comentario, sin la almohadilla ni los espacios.
pub open spec fn texto_comentario(l: LineaV) -> Option<Seq<char>> {
    if l.clase is Comentario {
        Some(recortado(crate::texto::sin_iniciales(recortado(l.cruda), '#')))
    } else {
        None
    }
}

/// Lo que sigue a una marca `# marca …` en un comentario, recortado.
pub open spec fn tras_marca(l: LineaV, marca: Seq<char>) -> Option<Seq<char>> {
    match texto_comentario(l) {
        Some(t) => if crate::texto::empieza_por(t, marca) {
            Some(recortado(t.skip(marca.len() as int)))
        } else {
            None
        },
        None => None,
    }
}

impl Linea {
    pub fn analizar(cruda: &str) -> (l: Linea)
        ensures
            l@ == linea_de(cruda@),
    {
        let c = caracteres(cruda);
        Linea::analizar_caracteres(c.as_slice())
    }

    /// Como [`Linea::analizar`], sobre caracteres.
    pub fn analizar_caracteres(cruda: &[char]) -> (l: Linea)
        ensures
            l@ == linea_de(cruda@),
    {
        let recortada = recortar(cruda);
        let clase = if recortada.len() == 0 {
            Clase::Vacia
        } else if recortada[0] == '#' {
            Clase::Comentario
        } else {
            match dividir_directiva(recortada.as_slice()) {
                Some((clave, valor)) => Clase::Directiva {
                    clave: cadena(clave.as_slice()),
                    valor: cadena(valor.as_slice()),
                },
                // Una línea que no es ni comentario ni directiva reconocible se
                // trata como comentario: se conserva, pero no se interpreta.
                None => Clase::Comentario,
            }
        };
        Linea { cruda: cadena(cruda), clase }
    }

    pub fn comentario(texto: &str) -> (l: Linea)
        ensures
            l@ == linea_de("# "@ + texto@),
    {
        let mut c = caracteres("# ");
        anexar_str(&mut c, texto);
        Linea::analizar_caracteres(c.as_slice())
    }

    pub fn vacia() -> (l: Linea)
        ensures
            l@ == (LineaV { cruda: seq![], clase: ClaseV::Vacia }),
    {
        Linea { cruda: String::new(), clase: Clase::Vacia }
    }

    /// Construye una directiva con la sangría estándar de cuatro espacios.
    pub fn directiva(clave: &str, valor: &str) -> (l: Linea)
        ensures
            l@ == linea_de("    "@ + clave@ + " "@ + valor@),
    {
        let mut c = caracteres("    ");
        anexar_str(&mut c, clave);
        anexar_str(&mut c, " ");
        anexar_str(&mut c, valor);
        Linea::analizar_caracteres(c.as_slice())
    }

    /// Copia exacta.
    pub fn duplicar(&self) -> (r: Linea)
        ensures
            r@ == self@,
    {
        Linea { cruda: self.cruda.clone(), clase: self.clase.duplicar() }
    }

    /// Nombre de la directiva en minúsculas, para comparar sin distinguir
    /// mayúsculas como hace OpenSSH.
    pub fn clave_normalizada(&self) -> (r: Option<String>)
        ensures
            match r {
                Some(c) => clave_normalizada(self@) == Some(c@),
                None => clave_normalizada(self@) is None,
            },
    {
        match &self.clase {
            Clase::Directiva { clave, .. } => {
                let c = caracteres(clave.as_str());
                let m = en_minusculas(c.as_slice());
                Some(cadena(m.as_slice()))
            },
            _ => None,
        }
    }

    pub fn valor(&self) -> (r: Option<&str>)
        ensures
            match r {
                Some(v) => valor_de(self@) == Some(v@),
                None => valor_de(self@) is None,
            },
    {
        match &self.clase {
            Clase::Directiva { valor, .. } => Some(valor.as_str()),
            _ => None,
        }
    }

    pub fn es(&self, clave: &str) -> (r: bool)
        ensures
            r == es_directiva(self@, clave@),
    {
        match &self.clase {
            Clase::Directiva { clave: propia, .. } => {
                let a = caracteres(propia.as_str());
                let a = en_minusculas(a.as_slice());
                let b = caracteres(clave);
                let b = en_minusculas(b.as_slice());
                iguales(a.as_slice(), b.as_slice())
            },
            _ => false,
        }
    }

    /// Texto de un comentario, sin la almohadilla ni los espacios.
    pub fn texto_comentario(&self) -> (r: Option<String>)
        ensures
            match r {
                Some(t) => texto_comentario(self@) == Some(t@),
                None => texto_comentario(self@) is None,
            },
    {
        match self.texto_comentario_caracteres() {
            Some(t) => Some(cadena(t.as_slice())),
            None => None,
        }
    }

    fn texto_comentario_caracteres(&self) -> (r: Option<Vec<char>>)
        ensures
            match r {
                Some(t) => texto_comentario(self@) == Some(t@),
                None => texto_comentario(self@) is None,
            },
    {
        if !self.clase.es_comentario() {
            return None;
        }
        let a = crate::texto::recortar_str(self.cruda.as_str());
        let b = crate::texto::quitar_iniciales(a.as_slice(), '#');
        Some(recortar(b.as_slice()))
    }

    /// Lo que sigue a la marca en un comentario `# marca …`.
    pub(crate) fn tras_marca(&self, marca: &str) -> (r: Option<Vec<char>>)
        ensures
            match r {
                Some(t) => tras_marca(self@, marca@) == Some(t@),
                None => tras_marca(self@, marca@) is None,
            },
    {
        match self.texto_comentario_caracteres() {
            Some(t) => {
                let m = caracteres(marca);
                if crate::texto::empieza(t.as_slice(), m.as_slice()) {
                    let cola = trozo(t.as_slice(), m.len(), t.len());
                    Some(recortar(cola.as_slice()))
                } else {
                    None
                }
            },
            None => None,
        }
    }

    /// Especificación de salud si la línea es un marcador `# salud: …`.
    ///
    /// Va en un comentario a propósito: `ssh` lo ignora, así que la definición
    /// del túnel sigue estando en un solo sitio.
    pub fn marca_de_salud(&self) -> (r: Option<String>)
        ensures
            match r {
                Some(t) => tras_marca(self@, "salud:"@) == Some(t@),
                None => tras_marca(self@, "salud:"@) is None,
            },
    {
        match self.tras_marca("salud:") {
            Some(t) => Some(cadena(t.as_slice())),
            None => None,
        }
    }

    /// Nombre del reenvío si la línea es un marcador `# nombre: …`.
    pub fn marca_de_nombre(&self) -> (r: Option<String>)
        ensures
            match r {
                Some(t) => tras_marca(self@, "nombre:"@) == Some(t@),
                None => tras_marca(self@, "nombre:"@) is None,
            },
    {
        match self.tras_marca("nombre:") {
            Some(t) => Some(cadena(t.as_slice())),
            None => None,
        }
    }
}

// --- Patrones de `Host` ------------------------------------------------------------

/// Patrones de un `Host …`, separados por blancos y respetando comillas.
pub open spec fn patrones_desde(s: Seq<char>, actual: Seq<char>, dentro: bool) -> Seq<Seq<char>>
    decreases s.len(),
{
    if s.len() == 0 {
        if actual.len() > 0 {
            seq![actual]
        } else {
            seq![]
        }
    } else if s[0] == '"' {
        patrones_desde(s.drop_first(), actual, !dentro)
    } else if es_blanco(s[0]) && !dentro {
        (if actual.len() > 0 {
            seq![actual]
        } else {
            seq![]
        }) + patrones_desde(s.drop_first(), seq![], dentro)
    } else {
        patrones_desde(s.drop_first(), actual.push(s[0]), dentro)
    }
}

pub open spec fn patrones(valor: Seq<char>) -> Seq<Seq<char>> {
    patrones_desde(valor, seq![], false)
}

/// Separa el valor de `Host` en patrones, respetando comillas.
pub fn dividir_patrones(valor: &[char]) -> (r: Vec<String>)
    ensures
        vistas(r@) == patrones(valor@),
{
    let n = valor.len();
    let mut r: Vec<String> = Vec::new();
    let mut actual: Vec<char> = Vec::new();
    let mut dentro = false;
    let mut i: usize = 0;
    proof {
        assert(valor@.skip(0) == valor@);
        assert(vistas(r@) =~= seq![]);
    }
    while i < n
        invariant
            n == valor@.len(),
            i <= n,
            patrones(valor@) == vistas(r@) + patrones_desde(valor@.skip(i as int), actual@, dentro),
        decreases n - i,
    {
        let c = valor[i];
        proof {
            assert(valor@.skip(i as int)[0] == c);
            assert(valor@.skip(i as int).drop_first() =~= valor@.skip(i + 1));
        }
        if c == '"' {
            dentro = !dentro;
        } else if blanco(c) && !dentro {
            if actual.len() > 0 {
                let p = cadena(actual.as_slice());
                proof {
                    assert(vistas(r@.push(p)) =~= vistas(r@).push(p@));
                    assert(vistas(r@).push(p@) + patrones_desde(valor@.skip(i + 1), seq![], dentro)
                        =~= vistas(r@) + (seq![actual@] + patrones_desde(
                        valor@.skip(i + 1),
                        seq![],
                        dentro,
                    )));
                }
                r.push(p);
            } else {
                proof {
                    assert(seq![] + patrones_desde(valor@.skip(i + 1), seq![], dentro)
                        =~= patrones_desde(valor@.skip(i + 1), seq![], dentro));
                }
            }
            actual = Vec::new();
        } else {
            actual.push(c);
        }
        i += 1;
    }
    proof {
        assert(valor@.skip(n as int).len() == 0);
    }
    if actual.len() > 0 {
        let p = cadena(actual.as_slice());
        proof {
            assert(vistas(r@.push(p)) =~= vistas(r@) + seq![p@]);
        }
        r.push(p);
    } else {
        proof {
            assert(vistas(r@) + seq![] =~= vistas(r@));
        }
    }
    r
}

// --- Bloques y documento ----------------------------------------------------------

/// Vista del encabezado de un bloque.
pub enum EncabezadoV {
    Host { patrones: Seq<Seq<char>> },
    Match { condicion: Seq<char> },
}

/// Encabezado de un bloque: `Host …` o `Match …`.
#[derive(Debug)]
pub enum Encabezado {
    Host { patrones: Vec<String> },
    /// `Match` no se interpreta; solo se conserva para no romper el fichero.
    Match { condicion: String },
}

impl View for Encabezado {
    type V = EncabezadoV;

    open spec fn view(&self) -> EncabezadoV {
        match self {
            Encabezado::Host { patrones } => EncabezadoV::Host { patrones: vistas(patrones@) },
            Encabezado::Match { condicion } => EncabezadoV::Match { condicion: condicion@ },
        }
    }
}

/// El encabezado que abre una línea, si abre alguno.
pub open spec fn encabezado_de(l: LineaV) -> Option<EncabezadoV> {
    match l.clase {
        ClaseV::Directiva { clave, valor } => if minusculas(clave) == "host"@ {
            Some(EncabezadoV::Host { patrones: patrones(valor) })
        } else if minusculas(clave) == "match"@ {
            Some(EncabezadoV::Match { condicion: valor })
        } else {
            None
        },
        _ => None,
    }
}

fn encabezado_de_linea(l: &Linea) -> (r: Option<Encabezado>)
    ensures
        match r {
            Some(e) => encabezado_de(l@) == Some(e@),
            None => encabezado_de(l@) is None,
        },
{
    match &l.clase {
        Clase::Directiva { clave, valor } => {
            let c = caracteres(clave.as_str());
            let m = en_minusculas(c.as_slice());
            if crate::texto::es_str(m.as_slice(), "host") {
                let v = caracteres(valor.as_str());
                Some(Encabezado::Host { patrones: dividir_patrones(v.as_slice()) })
            } else if crate::texto::es_str(m.as_slice(), "match") {
                Some(Encabezado::Match { condicion: valor.clone() })
            } else {
                None
            }
        },
        _ => None,
    }
}

pub open spec fn vistas_lineas(v: Seq<Linea>) -> Seq<LineaV> {
    v.map_values(|l: Linea| l@)
}

/// Vista de un bloque.
pub struct BloqueV {
    pub comentarios: Seq<LineaV>,
    pub encabezado: EncabezadoV,
    pub linea_encabezado: LineaV,
    pub cuerpo: Seq<LineaV>,
}

/// Un bloque del fichero, con los comentarios que lo preceden.
#[derive(Debug)]
pub struct Bloque {
    /// Comentarios pegados justo encima del encabezado, sin línea en blanco de
    /// por medio. Se mueven y se borran con el bloque.
    pub comentarios: Vec<Linea>,
    pub encabezado: Encabezado,
    /// Línea del encabezado tal como está escrita.
    pub linea_encabezado: Linea,
    /// Todo lo que hay hasta el siguiente bloque, incluidos comentarios y
    /// líneas en blanco internas.
    pub cuerpo: Vec<Linea>,
}

impl View for Bloque {
    type V = BloqueV;

    open spec fn view(&self) -> BloqueV {
        BloqueV {
            comentarios: vistas_lineas(self.comentarios@),
            encabezado: self.encabezado@,
            linea_encabezado: self.linea_encabezado@,
            cuerpo: vistas_lineas(self.cuerpo@),
        }
    }
}

pub open spec fn vistas_bloques(v: Seq<Bloque>) -> Seq<BloqueV> {
    v.map_values(|b: Bloque| b@)
}

/// Vista de un documento.
pub struct DocumentoV {
    pub ruta: Seq<char>,
    pub preambulo: Seq<LineaV>,
    pub bloques: Seq<BloqueV>,
    pub salto_final: bool,
}

/// Un fichero `ssh_config` analizado.
#[derive(Debug)]
pub struct Documento {
    pub ruta: String,
    /// Líneas anteriores al primer bloque (cabecera del fichero, `Include`…).
    pub preambulo: Vec<Linea>,
    pub bloques: Vec<Bloque>,
    /// `true` si el fichero terminaba con salto de línea. Se respeta al escribir.
    pub salto_final: bool,
}

impl View for Documento {
    type V = DocumentoV;

    open spec fn view(&self) -> DocumentoV {
        DocumentoV {
            ruta: self.ruta@,
            preambulo: vistas_lineas(self.preambulo@),
            bloques: vistas_bloques(self.bloques@),
            salto_final: self.salto_final,
        }
    }
}

/// Cada línea está clasificada según su propio texto.
pub open spec fn lineas_validas(v: Seq<LineaV>) -> bool {
    forall|i: int| 0 <= i < v.len() ==> #[trigger] v[i] == linea_de(v[i].cruda)
}

pub open spec fn sin_encabezados(v: Seq<LineaV>) -> bool {
    forall|i: int| 0 <= i < v.len() ==> encabezado_de(#[trigger] v[i]) is None
}

pub open spec fn todas_comentario(v: Seq<LineaV>) -> bool {
    forall|i: int| 0 <= i < v.len() ==> (#[trigger] v[i]).clase is Comentario
}

/// La zona está vacía o no acaba en comentario: los comentarios que hubiera
/// justo encima del encabezado siguiente son de ese bloque.
pub open spec fn cierra(v: Seq<LineaV>) -> bool {
    v.len() == 0 || !(v.last().clase is Comentario)
}

pub open spec fn bloque_valido(b: BloqueV) -> bool {
    &&& lineas_validas(b.comentarios)
    &&& todas_comentario(b.comentarios)
    &&& b.linea_encabezado == linea_de(b.linea_encabezado.cruda)
    &&& encabezado_de(b.linea_encabezado) == Some(b.encabezado)
    &&& lineas_validas(b.cuerpo)
    &&& sin_encabezados(b.cuerpo)
}

/// Un documento tal como lo deja el análisis: cada bloque empieza en un
/// encabezado, lleva consigo los comentarios pegados encima y todo lo que le
/// sigue hasta el siguiente encabezado.
pub open spec fn documento_valido(d: DocumentoV) -> bool {
    &&& lineas_validas(d.preambulo)
    &&& sin_encabezados(d.preambulo)
    &&& forall|i: int| 0 <= i < d.bloques.len() ==> bloque_valido(#[trigger] d.bloques[i])
    &&& d.bloques.len() > 0 ==> cierra(d.preambulo)
    &&& forall|i: int| 0 <= i < d.bloques.len() - 1 ==> cierra(#[trigger] d.bloques[i].cuerpo)
}

pub open spec fn crudas(v: Seq<LineaV>) -> Seq<Seq<char>> {
    v.map_values(|l: LineaV| l.cruda)
}

pub open spec fn lineas_bloque(b: BloqueV) -> Seq<Seq<char>> {
    crudas(b.comentarios) + seq![b.linea_encabezado.cruda] + crudas(b.cuerpo)
}

pub open spec fn lineas_bloques(v: Seq<BloqueV>) -> Seq<Seq<char>>
    decreases v.len(),
{
    if v.len() == 0 {
        seq![]
    } else {
        lineas_bloques(v.drop_last()) + lineas_bloque(v.last())
    }
}

/// Todas las líneas del documento, en orden de fichero.
pub open spec fn lineas_doc(d: DocumentoV) -> Seq<Seq<char>> {
    crudas(d.preambulo) + lineas_bloques(d.bloques)
}

/// El texto que se escribe: las líneas unidas por `\n`, con el salto final si
/// el original lo tenía.
pub open spec fn texto_doc(d: DocumentoV) -> Seq<char> {
    let j = crate::texto::unidos(lineas_doc(d), seq!['\n']);
    if d.salto_final && j.len() > 0 {
        j.push('\n')
    } else {
        j
    }
}

/// El documento es el análisis de `contenido` leído de `ruta`.
pub open spec fn analisis_de(d: DocumentoV, ruta: Seq<char>, contenido: Seq<char>) -> bool {
    &&& d.ruta == ruta
    &&& documento_valido(d)
    &&& lineas_doc(d) == lineas(contenido)
    &&& d.salto_final == (contenido.len() == 0 || contenido.last() == '\n')
}

proof fn lema_crudas_suma(a: Seq<LineaV>, b: Seq<LineaV>)
    ensures
        crudas(a + b) == crudas(a) + crudas(b),
{
    assert(crudas(a + b) =~= crudas(a) + crudas(b));
}

proof fn lema_vistas_lineas_suma(a: Seq<Linea>, b: Seq<Linea>)
    ensures
        vistas_lineas(a + b) == vistas_lineas(a) + vistas_lineas(b),
{
    assert(vistas_lineas(a + b) =~= vistas_lineas(a) + vistas_lineas(b));
}

/// Índice tras la última línea que no es comentario: lo que queda detrás son
/// los comentarios pegados al encabezado que viene.
fn corte(pendientes: &Vec<Linea>) -> (k: usize)
    ensures
        k <= pendientes@.len(),
        todas_comentario(vistas_lineas(pendientes@).skip(k as int)),
        cierra(vistas_lineas(pendientes@).take(k as int)),
{
    let mut k: usize = pendientes.len();
    while k > 0 && pendientes[k - 1].clase.es_comentario()
        invariant
            k <= pendientes@.len(),
            forall|j: int| k <= j < pendientes@.len() ==> (#[trigger] pendientes@[j])@.clase is Comentario,
        decreases k,
    {
        k -= 1;
    }
    proof {
        let v = vistas_lineas(pendientes@);
        assert forall|j: int| 0 <= j < v.skip(k as int).len() implies (
        #[trigger] v.skip(k as int)[j]).clase is Comentario by {
            assert(v.skip(k as int)[j] == pendientes@[k + j]@);
        }
        if k > 0 {
            assert(v.take(k as int).last() == pendientes@[k - 1]@);
        }
    }
    k
}

/// Vuelca las líneas pendientes al último bloque, o al preámbulo si aún no hay
/// ninguno.
fn volcar(documento: &mut Documento, pendientes: Vec<Linea>)
    ensures
        final(documento)@.ruta == old(documento)@.ruta,
        final(documento)@.salto_final == old(documento)@.salto_final,
        final(documento)@.bloques.len() == old(documento)@.bloques.len(),
        old(documento)@.bloques.len() == 0 ==> final(documento)@.preambulo == old(
            documento,
        )@.preambulo + vistas_lineas(pendientes@),
        old(documento)@.bloques.len() > 0 ==> {
            &&& final(documento)@.preambulo == old(documento)@.preambulo
            &&& final(documento)@.bloques.drop_last() == old(documento)@.bloques.drop_last()
            &&& final(documento)@.bloques.last() == (BloqueV {
                cuerpo: old(documento)@.bloques.last().cuerpo + vistas_lineas(pendientes@),
                ..old(documento)@.bloques.last()
            })
        },
{
    let mut pendientes = pendientes;
    let ghost p = pendientes@;
    match documento.bloques.pop() {
        Some(mut bloque) => {
            let ghost antes = bloque.cuerpo@;
            bloque.cuerpo.append(&mut pendientes);
            proof {
                lema_vistas_lineas_suma(antes, p);
                assert(vistas_bloques(documento.bloques@.push(bloque)) =~= vistas_bloques(
                    documento.bloques@,
                ).push(bloque@));
                assert(vistas_bloques(documento.bloques@) =~= vistas_bloques(
                    old(documento).bloques@,
                ).drop_last());
            }
            documento.bloques.push(bloque);
        },
        None => {
            let ghost antes = documento.preambulo@;
            documento.preambulo.append(&mut pendientes);
            proof {
                lema_vistas_lineas_suma(antes, p);
            }
        },
    }
}

proof fn lema_lineas_bloques_push(v: Seq<BloqueV>, b: BloqueV)
    ensures
        lineas_bloques(v.push(b)) == lineas_bloques(v) + lineas_bloque(b),
{
    assert(v.push(b).drop_last() =~= v);
}

proof fn lema_lineas_bloques_ultimo(v: Seq<BloqueV>, b: BloqueV, p: Seq<LineaV>)
    requires
        v.len() > 0,
        b == (BloqueV { cuerpo: v.last().cuerpo + p, ..v.last() }),
    ensures
        lineas_bloques(v.drop_last().push(b)) == lineas_bloques(v) + crudas(p),
{
    lema_lineas_bloques_push(v.drop_last(), b);
    lema_crudas_suma(v.last().cuerpo, p);
    assert(lineas_bloque(b) =~= lineas_bloque(v.last()) + crudas(p));
}

proof fn lema_vistas_bloques_push(v: Seq<Bloque>, b: Bloque)
    ensures
        vistas_bloques(v.push(b)) == vistas_bloques(v).push(b@),
{
    assert(vistas_bloques(v.push(b)) =~= vistas_bloques(v).push(b@));
}

/// Añade a `destino` el texto de cada línea.
fn empujar_crudas(lineas: &Vec<Linea>, destino: &mut Vec<String>)
    ensures
        vistas(final(destino)@) == vistas(old(destino)@) + crudas(vistas_lineas(lineas@)),
{
    let ghost inicial = vistas(destino@);
    let mut i: usize = 0;
    while i < lineas.len()
        invariant
            i <= lineas@.len(),
            vistas(destino@) == inicial + crudas(vistas_lineas(lineas@.take(i as int))),
        decreases lineas@.len() - i,
    {
        let ghost antes = destino@;
        destino.push(crate::texto::copia(&lineas[i].cruda));
        proof {
            assert(vistas(antes.push(destino@.last())) =~= vistas(antes).push(lineas@[i as int].cruda@));
            assert(crudas(vistas_lineas(lineas@.take(i + 1))) =~= crudas(
                vistas_lineas(lineas@.take(i as int)),
            ).push(lineas@[i as int].cruda@));
        }
        i += 1;
    }
    proof {
        assert(lineas@.take(lineas@.len() as int) == lineas@);
    }
}

/// Añade a `destino` las líneas de un bloque, en orden de fichero.
fn empujar_bloque(bloque: &Bloque, destino: &mut Vec<String>)
    ensures
        vistas(final(destino)@) == vistas(old(destino)@) + lineas_bloque(bloque@),
{
    let ghost inicial = vistas(destino@);
    empujar_crudas(&bloque.comentarios, destino);
    let ghost medio = destino@;
    destino.push(crate::texto::copia(&bloque.linea_encabezado.cruda));
    proof {
        assert(vistas(destino@) =~= vistas(medio).push(bloque.linea_encabezado.cruda@));
    }
    empujar_crudas(&bloque.cuerpo, destino);
    proof {
        assert(vistas(destino@) =~= inicial + lineas_bloque(bloque@));
    }
}

/// `unidos` visto desde el principio.
proof fn lema_unidos_primero(a: Seq<char>, resto: Seq<Seq<char>>, sep: Seq<char>)
    ensures
        crate::texto::unidos(seq![a] + resto, sep) == if resto.len() == 0 {
            a
        } else {
            a + sep + crate::texto::unidos(resto, sep)
        },
    decreases resto.len(),
{
    let v = seq![a] + resto;
    if resto.len() == 0 {
        assert(v =~= seq![a]);
    } else if resto.len() == 1 {
        assert(v.len() == 2);
        assert(v.drop_last() =~= seq![a]);
        assert(seq![a][0] == a);
        assert(crate::texto::unidos(v.drop_last(), sep) == a);
        assert(v.last() == resto[0]);
        assert(crate::texto::unidos(resto, sep) == resto[0]);
    } else {
        lema_unidos_primero(a, resto.drop_last(), sep);
        assert(v.drop_last() =~= seq![a] + resto.drop_last());
        assert(v.last() == resto.last());
        assert((a + sep + crate::texto::unidos(resto.drop_last(), sep)) + sep + resto.last()
            =~= a + sep + (crate::texto::unidos(resto.drop_last(), sep) + sep + resto.last()));
    }
}

/// Unir las líneas de un texto sin `\r\n` con `\n` da el texto, sin el salto
/// final si lo tenía.
proof fn lema_unir_lineas(s: Seq<char>)
    requires
        sin_crlf(s),
    ensures
        s.len() > 0 && s.last() == '\n' ==> crate::texto::unidos(lineas(s), seq!['\n'])
            == s.drop_last(),
        !(s.len() > 0 && s.last() == '\n') ==> crate::texto::unidos(lineas(s), seq!['\n']) == s,
    decreases s.len(),
{
    if s.len() == 0 {
        assert(lineas(s) =~= seq![]);
    } else {
        crate::texto::lema_primera_pos(s, '\n');
        match primera_pos(s, '\n') {
            None => {
                assert(lineas(s) == seq![s]);
                if s.last() == '\n' {
                    assert(s[s.len() - 1] == '\n');
                }
            },
            Some(k) => {
                let r = s.skip(k + 1);
                let cabeza = s.take(k);
                assert(sin_retorno(cabeza) == cabeza) by {
                    if cabeza.len() > 0 && cabeza.last() == '\r' {
                        assert(s[k - 1] == '\r' && s[k - 1 + 1] == '\n');
                    }
                }
                assert(sin_crlf(r)) by {
                    assert forall|i: int| 0 <= i < r.len() - 1 implies !(#[trigger] r[i] == '\r'
                        && r[i + 1] == '\n') by {
                        assert(r[i] == s[k + 1 + i] && r[i + 1] == s[k + 1 + i + 1]);
                    }
                }
                lema_unir_lineas(r);
                lema_unidos_primero(cabeza, lineas(r), seq!['\n']);
                if r.len() == 0 {
                    assert(lineas(r) =~= seq![]);
                    assert(s.drop_last() =~= cabeza);
                } else {
                    assert(lineas(r).len() > 0);
                    assert(s.last() == r.last());
                    if r.last() == '\n' {
                        assert(cabeza + seq!['\n'] + r.drop_last() =~= s.drop_last());
                    } else {
                        assert(cabeza + seq!['\n'] + r =~= s);
                    }
                }
            },
        }
    }
}

/// Lo que el análisis de un texto vuelve a componer es ese mismo texto, byte a
/// byte, siempre que sus saltos de línea sean `\n` y no sea un `\n` solo.
pub proof fn ley_texto_ida_y_vuelta(d: DocumentoV, ruta: Seq<char>, contenido: Seq<char>)
    requires
        analisis_de(d, ruta, contenido),
        sin_crlf(contenido),
        contenido != seq!['\n'],
    ensures
        texto_doc(d) == contenido,
{
    lema_unir_lineas(contenido);
    if contenido.len() > 0 && contenido.last() == '\n' {
        let j = crate::texto::unidos(lineas(contenido), seq!['\n']);
        if j.len() == 0 {
            assert(contenido =~= seq!['\n']);
        }
        assert(j.push('\n') =~= contenido);
    }
}

impl Documento {
    /// Documento sin líneas, que se escribirá con salto final.
    pub fn vacio(ruta: &str) -> (d: Documento)
        ensures
            d@ == (DocumentoV { ruta: ruta@, preambulo: seq![], bloques: seq![], salto_final: true }),
    {
        let d = Documento {
            ruta: ruta.to_string(),
            preambulo: Vec::new(),
            bloques: Vec::new(),
            salto_final: true,
        };
        proof {
            assert(vistas_lineas(d.preambulo@) =~= seq![]);
            assert(vistas_bloques(d.bloques@) =~= seq![]);
        }
        d
    }

    /// Analiza el contenido de un fichero: cada línea se clasifica y se reparte
    /// entre el preámbulo y los bloques sin perder ninguna.
    pub fn analizar(ruta: &str, contenido: &str) -> (d: Documento)
        ensures
            analisis_de(d@, ruta@, contenido@),
    {
        let texto = caracteres(contenido);
        let crudas_v = en_lineas(texto.as_slice());
        let ghost total = lineas(contenido@);
        let salto_final = texto.len() == 0 || texto[texto.len() - 1] == '\n';
        let mut documento = Documento::vacio(ruta);
        // Bandeja de líneas todavía sin asignar a ningún bloque.
        let mut pendientes: Vec<Linea> = Vec::new();
        let mut i: usize = 0;
        proof {
            assert(total.take(0) =~= seq![]);
            assert(lineas_bloques(seq![]) == Seq::<Seq<char>>::empty());
            assert(crudas(seq![]) =~= Seq::<Seq<char>>::empty());
            assert(vistas_lineas(pendientes@) =~= seq![]);
        }
        while i < crudas_v.len()
            invariant
                vistas_vec_char(crudas_v@) == total,
                i <= crudas_v@.len(),
                documento@.ruta == ruta@,
                documento@.salto_final,
                lineas_validas(documento@.preambulo),
                sin_encabezados(documento@.preambulo),
                forall|j: int|
                    0 <= j < documento@.bloques.len() ==> bloque_valido(
                        #[trigger] documento@.bloques[j],
                    ),
                documento@.bloques.len() > 0 ==> cierra(documento@.preambulo),
                forall|j: int|
                    0 <= j < documento@.bloques.len() - 1 ==> cierra(
                        #[trigger] documento@.bloques[j].cuerpo,
                    ),
                documento@.bloques.len() == 0 ==> documento@.preambulo.len() == 0,
                documento@.bloques.len() > 0 ==> documento@.bloques.last().cuerpo.len() == 0,
                lineas_validas(vistas_lineas(pendientes@)),
                sin_encabezados(vistas_lineas(pendientes@)),
                lineas_doc(documento@) + crudas(vistas_lineas(pendientes@)) == total.take(
                    i as int,
                ),
            decreases crudas_v@.len() - i,
        {
            let linea = Linea::analizar_caracteres(crudas_v[i].as_slice());
            proof {
                assert(linea@.cruda == total[i as int]);
                assert(total.take(i + 1) == total.take(i as int).push(total[i as int]));
            }
            match encabezado_de_linea(&linea) {
                Some(encabezado) => {
                    // Los comentarios pegados al encabezado (sin línea en
                    // blanco entre medias) pertenecen al bloque nuevo.
                    let k = corte(&pendientes);
                    let ghost p = vistas_lineas(pendientes@);
                    let comentarios = pendientes.split_off(k);
                    proof {
                        assert(vistas_lineas(pendientes@) =~= p.take(k as int));
                        assert(vistas_lineas(comentarios@) =~= p.skip(k as int));
                        assert(p =~= p.take(k as int) + p.skip(k as int));
                        lema_crudas_suma(p.take(k as int), p.skip(k as int));
                    }
                    let ghost antes = documento@;
                    let resto = pendientes;
                    pendientes = Vec::new();
                    volcar(&mut documento, resto);
                    proof {
                        if antes.bloques.len() > 0 {
                            let b = documento@.bloques.last();
                            lema_lineas_bloques_ultimo(antes.bloques, b, p.take(k as int));
                            assert(documento@.bloques == antes.bloques.drop_last().push(b));
                            assert(cierra(b.cuerpo));
                        } else {
                            assert(documento@.preambulo =~= p.take(k as int));
                            assert(documento@.bloques =~= antes.bloques);
                        }
                        assert(lineas_doc(documento@) == lineas_doc(antes) + crudas(
                            p.take(k as int),
                        ));
                    }
                    let bloque = Bloque {
                        comentarios,
                        encabezado,
                        linea_encabezado: linea,
                        cuerpo: Vec::new(),
                    };
                    let ghost medio = documento@;
                    proof {
                        assert(vistas_lineas(bloque.cuerpo@) =~= seq![]);
                        assert(crudas(seq![]) =~= Seq::<Seq<char>>::empty());
                        assert(bloque_valido(bloque@));
                        lema_vistas_bloques_push(documento.bloques@, bloque);
                        lema_lineas_bloques_push(medio.bloques, bloque@);
                    }
                    documento.bloques.push(bloque);
                    proof {
                        assert(documento@.bloques.drop_last() =~= medio.bloques);
                        assert forall|j: int| 0 <= j < documento@.bloques.len() implies bloque_valido(
                            #[trigger] documento@.bloques[j],
                        ) by {
                            if j < medio.bloques.len() {
                                assert(documento@.bloques[j] == medio.bloques[j]);
                            }
                        }
                        assert forall|j: int| 0 <= j < documento@.bloques.len() - 1 implies cierra(
                            #[trigger] documento@.bloques[j].cuerpo,
                        ) by {
                            assert(documento@.bloques[j] == medio.bloques[j]);
                            if antes.bloques.len() > 0 && j == medio.bloques.len() - 1 {
                            }
                        }
                        assert(vistas_lineas(pendientes@) =~= seq![]);
                        assert(lineas_doc(documento@) + crudas(vistas_lineas(pendientes@))
                            =~= total.take(i + 1));
                    }
                },
                None => {
                    let ghost antes = vistas_lineas(pendientes@);
                    pendientes.push(linea);
                    proof {
                        assert(vistas_lineas(pendientes@) =~= antes.push(linea@));
                        assert(crudas(antes.push(linea@)) =~= crudas(antes).push(linea@.cruda));
                        assert(lineas_doc(documento@) + crudas(vistas_lineas(pendientes@))
                            =~= total.take(i + 1));
                    }
                },
            }
            i += 1;
        }
        let ghost antes = documento@;
        let ghost p = vistas_lineas(pendientes@);
        volcar(&mut documento, pendientes);
        proof {
            if antes.bloques.len() > 0 {
                let b = documento@.bloques.last();
                lema_lineas_bloques_ultimo(antes.bloques, b, p);
                assert(documento@.bloques == antes.bloques.drop_last().push(b));
                assert forall|j: int| 0 <= j < documento@.bloques.len() implies bloque_valido(
                    #[trigger] documento@.bloques[j],
                ) by {
                    if j < antes.bloques.len() - 1 {
                        assert(documento@.bloques[j] == antes.bloques[j]);
                    } else {
                        assert(b.cuerpo =~= p);
                    }
                }
                assert forall|j: int| 0 <= j < documento@.bloques.len() - 1 implies cierra(
                    #[trigger] documento@.bloques[j].cuerpo,
                ) by {
                    assert(documento@.bloques[j] == antes.bloques[j]);
                }
            } else {
                assert(documento@.preambulo =~= p);
            }
            assert(total.take(crudas_v@.len() as int) =~= total);
        }
        documento.salto_final = salto_final;
        proof {
            if contenido@.len() > 0 {
                assert(contenido@.last() == texto@[texto@.len() - 1]);
            }
            assert(documento@.ruta == ruta@);
            assert(documento_valido(documento@));
            assert(lineas_doc(documento@) == lineas(contenido@));
        }
        documento
    }

    /// Vuelve a componer el texto exacto del fichero.
    pub fn a_texto(&self) -> (r: String)
        ensures
            r@ == texto_doc(self@),
    {
        let mut lineas_v: Vec<String> = Vec::new();
        proof {
            assert(vistas(lineas_v@) =~= seq![]);
        }
        empujar_crudas(&self.preambulo, &mut lineas_v);
        let mut j: usize = 0;
        proof {
            assert(self@.bloques.take(0) =~= seq![]);
            assert(vistas(lineas_v@) =~= crudas(self@.preambulo) + lineas_bloques(
                self@.bloques.take(0),
            ));
        }
        while j < self.bloques.len()
            invariant
                j <= self.bloques@.len(),
                vistas(lineas_v@) == crudas(self@.preambulo) + lineas_bloques(
                    self@.bloques.take(j as int),
                ),
            decreases self.bloques@.len() - j,
        {
            empujar_bloque(&self.bloques[j], &mut lineas_v);
            proof {
                assert(self@.bloques.take(j + 1) =~= self@.bloques.take(j as int).push(
                    self.bloques@[j as int]@,
                ));
                lema_lineas_bloques_push(self@.bloques.take(j as int), self.bloques@[j as int]@);
            }
            j += 1;
        }
        proof {
            assert(self@.bloques.take(self@.bloques.len() as int) =~= self@.bloques);
        }
        let separador = vec!['\n'];
        proof {
            assert(separador@ =~= seq!['\n']);
        }
        let mut texto = crate::texto::juntar_cadenas(lineas_v.as_slice(), separador.as_slice());
        if self.salto_final && texto.len() > 0 {
            texto.push('\n');
        }
        cadena(texto.as_slice())
    }
}

// --- Modelo tipado de un bloque -----------------------------------------------------

pub open spec fn tiene_comodin(p: Seq<char>) -> bool {
    p.contains('*') || p.contains('?') || p.contains('!')
}

/// Alias gestionable: solo `Host` con un único patrón sin comodines.
pub open spec fn alias_de(b: BloqueV) -> Option<Seq<char>> {
    match b.encabezado {
        EncabezadoV::Host { patrones } => if patrones.len() == 1 && !tiene_comodin(patrones[0]) {
            Some(patrones[0])
        } else {
            None
        },
        _ => None,
    }
}

/// Primera línea que es la directiva `clave`.
pub open spec fn primera_directiva(ls: Seq<LineaV>, clave: Seq<char>) -> Option<LineaV>
    decreases ls.len(),
{
    if ls.len() == 0 {
        None
    } else if es_directiva(ls[0], clave) {
        Some(ls[0])
    } else {
        primera_directiva(ls.drop_first(), clave)
    }
}

/// Valores de todas las apariciones de la directiva `clave`, en orden.
pub open spec fn valores_de(ls: Seq<LineaV>, clave: Seq<char>) -> Seq<Seq<char>>
    decreases ls.len(),
{
    if ls.len() == 0 {
        seq![]
    } else {
        let previos = valores_de(ls.drop_last(), clave);
        if es_directiva(ls.last(), clave) {
            match valor_de(ls.last()) {
                Some(v) => previos.push(v),
                None => previos,
            }
        } else {
            previos
        }
    }
}

/// Valor de la primera aparición de `clave`, si no está vacío.
pub open spec fn valor_unico(ls: Seq<LineaV>, clave: Seq<char>) -> Option<Seq<char>> {
    match primera_directiva(ls, clave) {
        Some(l) => match valor_de(l) {
            Some(v) => if v.len() > 0 {
                Some(v)
            } else {
                None
            },
            None => None,
        },
        None => None,
    }
}

/// Lo que sigue a la primera marca `# marca …` de esas líneas.
pub open spec fn primera_marca(ls: Seq<LineaV>, marca: Seq<char>) -> Option<Seq<char>>
    decreases ls.len(),
{
    if ls.len() == 0 {
        None
    } else {
        match tras_marca(ls[0], marca) {
            Some(t) => Some(t),
            None => primera_marca(ls.drop_first(), marca),
        }
    }
}

/// Nota del bloque: la primera `# nota: …` del cuerpo o de los comentarios de
/// encima, si no está vacía.
pub open spec fn nota_de(b: BloqueV) -> Option<Seq<char>> {
    match primera_marca(b.cuerpo + b.comentarios, "nota:"@) {
        Some(t) => if t.len() > 0 {
            Some(t)
        } else {
            None
        },
        None => None,
    }
}

/// Tipo de reenvío de una directiva `*Forward`.
pub open spec fn tipo_de_directiva(l: LineaV) -> Option<TipoReenvio> {
    match clave_normalizada(l) {
        Some(k) => if k == "localforward"@ {
            Some(TipoReenvio::Local)
        } else if k == "remoteforward"@ {
            Some(TipoReenvio::Remoto)
        } else if k == "dynamicforward"@ {
            Some(TipoReenvio::Dinamico)
        } else {
            None
        },
        None => None,
    }
}

pub open spec fn salud_o_escucha(s: Option<SaludV>) -> SaludV {
    match s {
        Some(x) => x,
        None => SaludV::Escucha,
    }
}

pub open spec fn vista_salud(s: Option<Salud>) -> Option<SaludV> {
    match s {
        Some(x) => Some(x@),
        None => None,
    }
}

/// Reenvíos de unas líneas, en orden de fichero. Una marca `# salud:` o
/// `# nombre:` se refiere al reenvío que tiene debajo; un reenvío no válido se
/// salta y se lleva consigo las marcas que lo precedían.
pub open spec fn reenvios_desde(
    ls: Seq<LineaV>,
    salud: Option<SaludV>,
    nombre: Option<Seq<char>>,
) -> Seq<ReenvioV>
    decreases ls.len(),
{
    if ls.len() == 0 {
        seq![]
    } else {
        let l = ls[0];
        let resto = ls.drop_first();
        match tras_marca(l, "salud:"@) {
            Some(e) => match salud_de(e) {
                Ok(s) => reenvios_desde(resto, Some(s), nombre),
                Err(_) => reenvios_desde(resto, salud, nombre),
            },
            None => match tras_marca(l, "nombre:"@) {
                Some(n) => reenvios_desde(resto, salud, Some(n)),
                None => match tipo_de_directiva(l) {
                    Some(t) => match valor_de(l) {
                        Some(v) => match reenvio_de(t, v) {
                            Ok(r) => seq![
                                ReenvioV {
                                    salud: salud_o_escucha(salud),
                                    nombre: nombre_limpio(nombre),
                                    ..r
                                },
                            ] + reenvios_desde(resto, None, None),
                            Err(_) => reenvios_desde(resto, None, None),
                        },
                        None => reenvios_desde(resto, salud, nombre),
                    },
                    None => reenvios_desde(resto, salud, nombre),
                },
            },
        }
    }
}

/// Saltos de un `ProxyJump`: los trozos entre comas, recortados y sin vacíos.
pub open spec fn saltos_de(t: Seq<Seq<char>>) -> Seq<Seq<char>>
    decreases t.len(),
{
    if t.len() == 0 {
        seq![]
    } else {
        let previos = saltos_de(t.drop_last());
        let x = recortado(t.last());
        if x.len() > 0 {
            previos.push(x)
        } else {
            previos
        }
    }
}

/// Modelo tipado de un bloque; ninguno si no es un host gestionable.
pub open spec fn host_de(b: BloqueV, origen: OrigenV) -> Option<HostV> {
    match alias_de(b) {
        None => None,
        Some(alias) => Some(
            HostV {
                alias,
                hostname: valor_unico(b.cuerpo, "hostname"@),
                usuario: valor_unico(b.cuerpo, "user"@),
                puerto: match valor_unico(b.cuerpo, "port"@) {
                    Some(v) => valor_u16(v),
                    None => None,
                },
                saltos: match valor_unico(b.cuerpo, "proxyjump"@) {
                    Some(v) => saltos_de(trozos(v, ',')),
                    None => seq![],
                },
                identidades: valores_de(b.cuerpo, "identityfile"@),
                reenvios: reenvios_desde(b.cuerpo, None, None),
                origen,
                nota: nota_de(b),
            },
        ),
    }
}

pub(crate) proof fn lema_primera_marca_suma(a: Seq<LineaV>, b: Seq<LineaV>, marca: Seq<char>)
    ensures
        primera_marca(a + b, marca) == match primera_marca(a, marca) {
            Some(t) => Some(t),
            None => primera_marca(b, marca),
        },
    decreases a.len(),
{
    if a.len() == 0 {
        assert(a + b =~= b);
    } else {
        assert((a + b).drop_first() =~= a.drop_first() + b);
        assert((a + b)[0] == a[0]);
        lema_primera_marca_suma(a.drop_first(), b, marca);
    }
}

/// Primera marca `# marca …` de unas líneas.
fn primera_marca_en(ls: &Vec<Linea>, marca: &str) -> (r: Option<Vec<char>>)
    ensures
        match r {
            Some(t) => primera_marca(vistas_lineas(ls@), marca@) == Some(t@),
            None => primera_marca(vistas_lineas(ls@), marca@) is None,
        },
{
    let mut i: usize = 0;
    proof {
        assert(vistas_lineas(ls@).skip(0) =~= vistas_lineas(ls@));
    }
    while i < ls.len()
        invariant
            i <= ls@.len(),
            primera_marca(vistas_lineas(ls@), marca@) == primera_marca(
                vistas_lineas(ls@).skip(i as int),
                marca@,
            ),
        decreases ls@.len() - i,
    {
        proof {
            let v = vistas_lineas(ls@).skip(i as int);
            assert(v[0] == ls@[i as int]@);
            assert(v.drop_first() =~= vistas_lineas(ls@).skip(i + 1));
        }
        match ls[i].tras_marca(marca) {
            Some(t) => {
                return Some(t);
            },
            None => {},
        }
        i += 1;
    }
    None
}

fn tipo_de_linea(l: &Linea) -> (r: Option<TipoReenvio>)
    ensures
        r == tipo_de_directiva(l@),
{
    match l.clave_normalizada() {
        Some(k) => {
            let c = caracteres(k.as_str());
            if es_str(c.as_slice(), "localforward") {
                Some(TipoReenvio::Local)
            } else if es_str(c.as_slice(), "remoteforward") {
                Some(TipoReenvio::Remoto)
            } else if es_str(c.as_slice(), "dynamicforward") {
                Some(TipoReenvio::Dinamico)
            } else {
                None
            }
        },
        None => None,
    }
}

impl Bloque {
    /// Alias gestionable: solo para `Host` con un único patrón sin comodines.
    ///
    /// Un `Host *` o un `Host a b c` se muestran pero no se gestionan: no
    /// identifican una máquina concreta a la que abrir un maestro.
    pub fn alias(&self) -> (r: Option<&str>)
        ensures
            match r {
                Some(a) => alias_de(self@) == Some(a@),
                None => alias_de(self@) is None,
            },
    {
        match &self.encabezado {
            Encabezado::Host { patrones } => {
                if patrones.len() == 1 {
                    let patron = patrones[0].as_str();
                    let c = caracteres(patron);
                    if tiene_char(c.as_slice(), '*') || tiene_char(c.as_slice(), '?') || tiene_char(
                        c.as_slice(),
                        '!',
                    ) {
                        None
                    } else {
                        Some(patron)
                    }
                } else {
                    None
                }
            },
            _ => None,
        }
    }

    /// Primera aparición de una directiva.
    pub fn buscar(&self, clave: &str) -> (r: Option<&Linea>)
        ensures
            match r {
                Some(l) => primera_directiva(self@.cuerpo, clave@) == Some(l@),
                None => primera_directiva(self@.cuerpo, clave@) is None,
            },
    {
        let mut i: usize = 0;
        proof {
            assert(self@.cuerpo.skip(0) =~= self@.cuerpo);
        }
        while i < self.cuerpo.len()
            invariant
                i <= self.cuerpo@.len(),
                primera_directiva(self@.cuerpo, clave@) == primera_directiva(
                    self@.cuerpo.skip(i as int),
                    clave@,
                ),
            decreases self.cuerpo@.len() - i,
        {
            proof {
                let v = self@.cuerpo.skip(i as int);
                assert(v[0] == self.cuerpo@[i as int]@);
                assert(v.drop_first() =~= self@.cuerpo.skip(i + 1));
            }
            if self.cuerpo[i].es(clave) {
                return Some(&self.cuerpo[i]);
            }
            i += 1;
        }
        None
    }

    /// Todos los valores de una directiva, en orden.
    pub fn valores(&self, clave: &str) -> (r: Vec<String>)
        ensures
            vistas(r@) == valores_de(self@.cuerpo, clave@),
    {
        let mut r: Vec<String> = Vec::new();
        let mut i: usize = 0;
        proof {
            assert(self@.cuerpo.take(0) =~= seq![]);
            assert(vistas(r@) =~= seq![]);
        }
        while i < self.cuerpo.len()
            invariant
                i <= self.cuerpo@.len(),
                vistas(r@) == valores_de(self@.cuerpo.take(i as int), clave@),
            decreases self.cuerpo@.len() - i,
        {
            proof {
                let t = self@.cuerpo.take(i + 1);
                assert(t.drop_last() =~= self@.cuerpo.take(i as int));
                assert(t.last() == self.cuerpo@[i as int]@);
            }
            let linea = &self.cuerpo[i];
            if linea.es(clave) {
                match linea.valor() {
                    Some(v) => {
                        let ghost antes = r@;
                        r.push(v.to_string());
                        proof {
                            assert(vistas(r@) =~= vistas(antes).push(v@));
                        }
                    },
                    None => {},
                }
            }
            i += 1;
        }
        proof {
            assert(self@.cuerpo.take(self@.cuerpo.len() as int) =~= self@.cuerpo);
        }
        r
    }

    fn valor_unico(&self, clave: &str) -> (r: Option<String>)
        ensures
            vista_opcional(r) == valor_unico(self@.cuerpo, clave@),
    {
        match self.buscar(clave) {
            Some(l) => match l.valor() {
                Some(v) => {
                    let c = caracteres(v);
                    if c.len() > 0 {
                        Some(v.to_string())
                    } else {
                        None
                    }
                },
                None => None,
            },
            None => None,
        }
    }

    /// Nota de la aplicación: comentario `# nota: …` dentro del bloque.
    pub fn nota(&self) -> (r: Option<String>)
        ensures
            vista_opcional(r) == nota_de(self@),
    {
        proof {
            lema_primera_marca_suma(self@.cuerpo, self@.comentarios, "nota:"@);
        }
        let encontrada = match primera_marca_en(&self.cuerpo, "nota:") {
            Some(t) => Some(t),
            None => primera_marca_en(&self.comentarios, "nota:"),
        };
        match encontrada {
            Some(t) => if t.len() > 0 {
                Some(cadena(t.as_slice()))
            } else {
                None
            },
            None => None,
        }
    }

    /// Reenvíos del bloque, en orden de fichero y con su salud y su nombre.
    ///
    /// Se recorre el cuerpo de una pasada: las marcas `# salud:` y `# nombre:`
    /// se refieren al reenvío que tienen debajo, así que hay que respetar el
    /// orden para saber a cuál pertenecen.
    fn reenvios(&self) -> (r: Vec<Reenvio>)
        ensures
            vistas_reenvios(r@) == reenvios_desde(self@.cuerpo, None, None),
    {
        let mut r: Vec<Reenvio> = Vec::new();
        let mut salud_pendiente: Option<Salud> = None;
        let mut nombre_pendiente: Option<String> = None;
        let mut i: usize = 0;
        proof {
            assert(self@.cuerpo.skip(0) =~= self@.cuerpo);
            assert(vistas_reenvios(r@) =~= seq![]);
        }
        while i < self.cuerpo.len()
            invariant
                i <= self.cuerpo@.len(),
                reenvios_desde(self@.cuerpo, None, None) == vistas_reenvios(r@) + reenvios_desde(
                    self@.cuerpo.skip(i as int),
                    vista_salud(salud_pendiente),
                    vista_opcional(nombre_pendiente),
                ),
            decreases self.cuerpo@.len() - i,
        {
            let linea = &self.cuerpo[i];
            let ghost resto = self@.cuerpo.skip(i + 1);
            proof {
                let v = self@.cuerpo.skip(i as int);
                assert(v[0] == linea@);
                assert(v.drop_first() =~= resto);
            }
            match linea.marca_de_salud() {
                Some(especificacion) => {
                    // Una marca que no se entiende se ignora: el reenvío usará
                    // la comprobación de por defecto.
                    match Salud::analizar(especificacion.as_str()) {
                        Ok(salud) => {
                            salud_pendiente = Some(salud);
                        },
                        Err(_) => {},
                    }
                },
                None => match linea.marca_de_nombre() {
                    Some(nombre) => {
                        nombre_pendiente = Some(nombre);
                    },
                    None => match tipo_de_linea(linea) {
                        Some(tipo) => match linea.valor() {
                            Some(valor) => match Reenvio::analizar(tipo, valor) {
                                Ok(reenvio) => {
                                    let salud = match salud_pendiente {
                                        Some(s) => s,
                                        None => Salud::Escucha,
                                    };
                                    let nombre = nombre_pendiente;
                                    salud_pendiente = None;
                                    nombre_pendiente = None;
                                    let nuevo = reenvio.con_salud(salud).con_nombre(nombre);
                                    let ghost antes = r@;
                                    r.push(nuevo);
                                    proof {
                                        assert(vistas_reenvios(r@) =~= vistas_reenvios(antes).push(
                                            nuevo@,
                                        ));
                                        assert(vistas_reenvios(antes).push(nuevo@)
                                            + reenvios_desde(resto, None, None) =~= vistas_reenvios(
                                            antes,
                                        ) + (seq![nuevo@] + reenvios_desde(resto, None, None)));
                                    }
                                },
                                Err(_) => {
                                    // Las marcas huérfanas no debe heredarlas el
                                    // reenvío siguiente, que no tiene nada que
                                    // ver con ellas.
                                    salud_pendiente = None;
                                    nombre_pendiente = None;
                                },
                            },
                            None => {},
                        },
                        None => {},
                    },
                },
            }
            i += 1;
        }
        proof {
            assert(self@.cuerpo.skip(self@.cuerpo.len() as int) =~= seq![]);
            assert(vistas_reenvios(r@) + seq![] =~= vistas_reenvios(r@));
        }
        r
    }

    /// Extrae el modelo tipado del bloque. `None` si no es un host gestionable.
    pub fn a_host(&self, origen: Origen) -> (r: Option<Host>)
        ensures
            match r {
                Some(h) => host_de(self@, origen@) == Some(h@),
                None => host_de(self@, origen@) is None,
            },
    {
        let alias = match self.alias() {
            Some(a) => a.to_string(),
            None => {
                return None;
            },
        };
        let reenvios = self.reenvios();
        let saltos = match self.valor_unico("proxyjump") {
            Some(v) => saltos_de_texto(v.as_str()),
            None => {
                let s: Vec<String> = Vec::new();
                proof {
                    assert(vistas(s@) =~= seq![]);
                }
                s
            },
        };
        let puerto = match self.valor_unico("port") {
            Some(v) => {
                let c = caracteres(v.as_str());
                leer_u16(c.as_slice())
            },
            None => None,
        };
        Some(
            Host {
                alias,
                hostname: self.valor_unico("hostname"),
                usuario: self.valor_unico("user"),
                puerto,
                saltos,
                identidades: self.valores("identityfile"),
                reenvios,
                origen,
                nota: self.nota(),
            },
        )
    }
}

/// Saltos de un valor de `ProxyJump`.
fn saltos_de_texto(v: &str) -> (r: Vec<String>)
    ensures
        vistas(r@) == saltos_de(trozos(v@, ',')),
{
    let c = caracteres(v);
    let t = trocear(c.as_slice(), ',');
    let mut r: Vec<String> = Vec::new();
    let mut i: usize = 0;
    proof {
        assert(vistas(r@) =~= seq![]);
        assert(vistas_vec(t@).take(0) =~= seq![]);
    }
    while i < t.len()
        invariant
            i <= t@.len(),
            vistas(r@) == saltos_de(vistas_vec(t@).take(i as int)),
        decreases t@.len() - i,
    {
        proof {
            let x = vistas_vec(t@).take(i + 1);
            assert(x.drop_last() =~= vistas_vec(t@).take(i as int));
            assert(x.last() == t@[i as int]@);
        }
        let limpio = recortar(t[i].as_slice());
        if limpio.len() > 0 {
            let ghost antes = r@;
            r.push(cadena(limpio.as_slice()));
            proof {
                assert(vistas(r@) =~= vistas(antes).push(limpio@));
            }
        }
        i += 1;
    }
    proof {
        assert(vistas_vec(t@).take(t@.len() as int) =~= vistas_vec(t@));
    }
    r
}

// --- Búsqueda de bloques --------------------------------------------------------------

/// Índice del primer bloque con ese alias.
pub open spec fn posicion_de(bs: Seq<BloqueV>, alias: Seq<char>) -> Option<int>
    decreases bs.len(),
{
    if bs.len() == 0 {
        None
    } else if alias_de(bs[0]) == Some(alias) {
        Some(0)
    } else {
        match posicion_de(bs.drop_first(), alias) {
            Some(k) => Some(k + 1),
            None => None,
        }
    }
}

/// Lo que dice `posicion_de`, elemento a elemento.
pub proof fn lema_posicion_de(bs: Seq<BloqueV>, alias: Seq<char>)
    ensures
        match posicion_de(bs, alias) {
            Some(k) => 0 <= k < bs.len() && alias_de(bs[k]) == Some(alias) && forall|j: int|
                0 <= j < k ==> alias_de(#[trigger] bs[j]) != Some(alias),
            None => forall|j: int| 0 <= j < bs.len() ==> alias_de(#[trigger] bs[j]) != Some(alias),
        },
    decreases bs.len(),
{
    if bs.len() > 0 {
        lema_posicion_de(bs.drop_first(), alias);
        assert forall|j: int| 1 <= j < bs.len() implies bs[j] == bs.drop_first()[j - 1] by {}
    }
}

pub(crate) proof fn lema_posicion_de_en(bs: Seq<BloqueV>, alias: Seq<char>, k: int)
    requires
        0 <= k <= bs.len(),
        forall|j: int| 0 <= j < k ==> alias_de(#[trigger] bs[j]) != Some(alias),
        k < bs.len() ==> alias_de(bs[k]) == Some(alias),
    ensures
        posicion_de(bs, alias) == if k < bs.len() {
            Some(k)
        } else {
            None::<int>
        },
    decreases k,
{
    if k > 0 {
        assert forall|j: int| 0 <= j < k - 1 implies alias_de(#[trigger] bs.drop_first()[j])
            != Some(alias) by {
            assert(bs.drop_first()[j] == bs[j + 1]);
        }
        if k < bs.len() {
            assert(bs.drop_first()[k - 1] == bs[k]);
        }
        lema_posicion_de_en(bs.drop_first(), alias, k - 1);
    } else if bs.len() == 0 {
    }
}

/// Modelos tipados de los bloques gestionables, en orden.
pub open spec fn hosts_de(bs: Seq<BloqueV>, origen: OrigenV) -> Seq<HostV>
    decreases bs.len(),
{
    if bs.len() == 0 {
        seq![]
    } else {
        let previos = hosts_de(bs.drop_last(), origen);
        match host_de(bs.last(), origen) {
            Some(h) => previos.push(h),
            None => previos,
        }
    }
}

pub open spec fn vistas_hosts(v: Seq<Host>) -> Seq<HostV> {
    v.map_values(|h: Host| h@)
}

impl Documento {
    pub fn posicion(&self, alias: &str) -> (r: Option<usize>)
        ensures
            match r {
                Some(i) => posicion_de(self@.bloques, alias@) == Some(i as int),
                None => posicion_de(self@.bloques, alias@) is None,
            },
    {
        let mut i: usize = 0;
        while i < self.bloques.len()
            invariant
                i <= self.bloques@.len(),
                forall|j: int|
                    0 <= j < i ==> alias_de(#[trigger] self@.bloques[j]) != Some(alias@),
            decreases self.bloques@.len() - i,
        {
            let coincide = match self.bloques[i].alias() {
                Some(a) => {
                    let x = caracteres(a);
                    es_str(x.as_slice(), alias)
                },
                None => false,
            };
            if coincide {
                proof {
                    lema_posicion_de_en(self@.bloques, alias@, i as int);
                }
                return Some(i);
            }
            i += 1;
        }
        proof {
            lema_posicion_de_en(self@.bloques, alias@, i as int);
        }
        None
    }

    pub fn bloque(&self, alias: &str) -> (r: Option<&Bloque>)
        ensures
            match r {
                Some(b) => exists|i: int|
                    posicion_de(self@.bloques, alias@) == Some(i) && self@.bloques[i] == b@,
                None => posicion_de(self@.bloques, alias@) is None,
            },
    {
        proof {
            lema_posicion_de(self@.bloques, alias@);
        }
        match self.posicion(alias) {
            Some(i) => Some(&self.bloques[i]),
            None => None,
        }
    }

    /// El bloque con ese alias, para modificarlo en su sitio.
    pub fn bloque_mut(&mut self, alias: &str) -> (r: Option<&mut Bloque>)
        ensures
            match r {
                Some(b) => exists|i: int|
                    posicion_de(old(self)@.bloques, alias@) == Some(i) && *b == old(self).bloques@[i]
                        && final(self).bloques@ == old(self).bloques@.update(i, *final(b))
                        && final(self).preambulo == old(self).preambulo
                        && final(self).ruta == old(self).ruta
                        && final(self).salto_final == old(self).salto_final,
                None => posicion_de(old(self)@.bloques, alias@) is None && *final(self) == *old(self),
            },
    {
        proof {
            lema_posicion_de(self@.bloques, alias@);
        }
        match self.posicion(alias) {
            Some(i) => Some(&mut self.bloques[i]),
            None => None,
        }
    }

    /// Todos los hosts gestionables del documento.
    pub fn hosts(&self, origen: Origen) -> (r: Vec<Host>)
        ensures
            vistas_hosts(r@) == hosts_de(self@.bloques, origen@),
    {
        let mut r: Vec<Host> = Vec::new();
        let mut i: usize = 0;
        proof {
            assert(vistas_hosts(r@) =~= seq![]);
            assert(self@.bloques.take(0) =~= seq![]);
        }
        while i < self.bloques.len()
            invariant
                i <= self.bloques@.len(),
                vistas_hosts(r@) == hosts_de(self@.bloques.take(i as int), origen@),
            decreases self.bloques@.len() - i,
        {
            proof {
                let t = self@.bloques.take(i + 1);
                assert(t.drop_last() =~= self@.bloques.take(i as int));
                assert(t.last() == self.bloques@[i as int]@);
            }
            match self.bloques[i].a_host(origen.duplicar()) {
                Some(h) => {
                    let ghost antes = r@;
                    r.push(h);
                    proof {
                        assert(vistas_hosts(r@) =~= vistas_hosts(antes).push(h@));
                    }
                },
                None => {},
            }
            i += 1;
        }
        proof {
            assert(self@.bloques.take(self@.bloques.len() as int) =~= self@.bloques);
        }
        r
    }
}

// --- Includes ---------------------------------------------------------------------

/// Las líneas de los cuerpos de los bloques, en orden.
pub open spec fn lineas_de_cuerpos(bs: Seq<BloqueV>) -> Seq<LineaV>
    decreases bs.len(),
{
    if bs.len() == 0 {
        seq![]
    } else {
        lineas_de_cuerpos(bs.drop_last()) + bs.last().cuerpo
    }
}

/// Ruta de un fichero incluido: con el `~` expandido y, si es relativa,
/// respecto a `~/.ssh` como hace OpenSSH.
pub open spec fn include_resuelto(base: Seq<char>, hogar: Seq<char>, token: Seq<char>) -> Seq<
    char,
> {
    let e = expandida(hogar, token);
    if e.len() > 0 && e[0] == '/' {
        e
    } else {
        unida(base, e)
    }
}

pub open spec fn includes_de(ls: Seq<LineaV>, base: Seq<char>, hogar: Seq<char>) -> Seq<Seq<char>>
    decreases ls.len(),
{
    if ls.len() == 0 {
        seq![]
    } else {
        let previos = includes_de(ls.drop_last(), base, hogar);
        if es_directiva(ls.last(), "include"@) {
            match valor_de(ls.last()) {
                Some(v) => previos + palabras(v).map_values(
                    |t: Seq<char>| include_resuelto(base, hogar, t),
                ),
                None => previos,
            }
        } else {
            previos
        }
    }
}

proof fn lema_includes_suma(a: Seq<LineaV>, b: Seq<LineaV>, base: Seq<char>, hogar: Seq<char>)
    ensures
        includes_de(a + b, base, hogar) == includes_de(a, base, hogar) + includes_de(b, base, hogar),
    decreases b.len(),
{
    if b.len() == 0 {
        assert(a + b =~= a);
        assert(includes_de(a, base, hogar) + seq![] =~= includes_de(a, base, hogar));
    } else {
        assert((a + b).drop_last() =~= a + b.drop_last());
        assert((a + b).last() == b.last());
        lema_includes_suma(a, b.drop_last(), base, hogar);
        let x = includes_de(a, base, hogar);
        let y = includes_de(b.drop_last(), base, hogar);
        if es_directiva(b.last(), "include"@) {
            match valor_de(b.last()) {
                Some(v) => {
                    let z = palabras(v).map_values(|t: Seq<char>| include_resuelto(base, hogar, t));
                    assert(x + y + z =~= x + (y + z));
                },
                None => {},
            }
        }
    }
}

fn resolver_include(base: &str, hogar: &str, token: &str) -> (r: String)
    ensures
        r@ == include_resuelto(base@, hogar@, token@),
{
    let e = expandir(hogar, token);
    let c = caracteres(e.as_str());
    if c.len() > 0 && c[0] == '/' {
        e
    } else {
        unir(base, e.as_str())
    }
}

/// Añade las rutas incluidas por esas líneas.
fn includes_en(ls: &Vec<Linea>, base: &str, hogar: &str, destino: &mut Vec<String>)
    ensures
        vistas(final(destino)@) == vistas(old(destino)@) + includes_de(
            vistas_lineas(ls@),
            base@,
            hogar@,
        ),
{
    let ghost inicial = vistas(destino@);
    let mut i: usize = 0;
    proof {
        assert(vistas_lineas(ls@).take(0) =~= seq![]);
        assert(inicial + seq![] =~= inicial);
    }
    while i < ls.len()
        invariant
            i <= ls@.len(),
            vistas(destino@) == inicial + includes_de(
                vistas_lineas(ls@).take(i as int),
                base@,
                hogar@,
            ),
        decreases ls@.len() - i,
    {
        let ghost previos = includes_de(vistas_lineas(ls@).take(i as int), base@, hogar@);
        proof {
            let t = vistas_lineas(ls@).take(i + 1);
            assert(t.drop_last() =~= vistas_lineas(ls@).take(i as int));
            assert(t.last() == ls@[i as int]@);
        }
        let linea = &ls[i];
        if linea.es("include") {
            match linea.valor() {
                Some(v) => {
                    let cv = caracteres(v);
                    let tokens = en_palabras(cv.as_slice());
                    let ghost z = palabras(v@).map_values(
                        |t: Seq<char>| include_resuelto(base@, hogar@, t),
                    );
                    let ghost d0 = vistas(destino@);
                    let mut j: usize = 0;
                    proof {
                        assert(z.take(0) =~= seq![]);
                        assert(d0 + seq![] =~= d0);
                    }
                    while j < tokens.len()
                        invariant
                            j <= tokens@.len(),
                            vistas_vec(tokens@) == palabras(v@),
                            z == palabras(v@).map_values(
                                |t: Seq<char>| include_resuelto(base@, hogar@, t),
                            ),
                            vistas(destino@) == d0 + z.take(j as int),
                        decreases tokens@.len() - j,
                    {
                        let token = cadena(tokens[j].as_slice());
                        let ruta = resolver_include(base, hogar, token.as_str());
                        let ghost antes = destino@;
                        destino.push(ruta);
                        proof {
                            assert(z[j as int] == include_resuelto(base@, hogar@, tokens@[j as int]@));
                            assert(vistas(destino@) =~= vistas(antes).push(ruta@));
                            assert(z.take(j + 1) =~= z.take(j as int).push(z[j as int]));
                        }
                        j += 1;
                    }
                    proof {
                        assert(z.take(z.len() as int) =~= z);
                        assert(inicial + previos + z =~= inicial + (previos + z));
                    }
                },
                None => {},
            }
        }
        i += 1;
    }
    proof {
        assert(vistas_lineas(ls@).take(ls@.len() as int) =~= vistas_lineas(ls@));
    }
}

impl Documento {
    /// Rutas de los ficheros incluidos con `Include`, ya expandidas.
    ///
    /// OpenSSH resuelve las rutas relativas respecto a `~/.ssh` (`base`) y el
    /// `~` con el directorio de inicio de `passwd` (`hogar`).
    pub fn includes(&self, base: &str, hogar: &str) -> (r: Vec<String>)
        ensures
            vistas(r@) == includes_de(
                self@.preambulo + lineas_de_cuerpos(self@.bloques),
                base@,
                hogar@,
            ),
    {
        let mut r: Vec<String> = Vec::new();
        proof {
            assert(vistas(r@) =~= seq![]);
        }
        includes_en(&self.preambulo, base, hogar, &mut r);
        proof {
            assert(seq![] + includes_de(self@.preambulo, base@, hogar@) =~= includes_de(
                self@.preambulo,
                base@,
                hogar@,
            ));
            assert(self@.bloques.take(0) =~= seq![]);
            assert(lineas_de_cuerpos(seq![]) =~= Seq::<LineaV>::empty());
            assert(self@.preambulo + lineas_de_cuerpos(self@.bloques.take(0)) =~= self@.preambulo);
        }
        let mut j: usize = 0;
        while j < self.bloques.len()
            invariant
                j <= self.bloques@.len(),
                vistas(r@) == includes_de(
                    self@.preambulo + lineas_de_cuerpos(self@.bloques.take(j as int)),
                    base@,
                    hogar@,
                ),
            decreases self.bloques@.len() - j,
        {
            let ghost antes = self@.preambulo + lineas_de_cuerpos(self@.bloques.take(j as int));
            includes_en(&self.bloques[j].cuerpo, base, hogar, &mut r);
            proof {
                let t = self@.bloques.take(j + 1);
                assert(t.drop_last() =~= self@.bloques.take(j as int));
                assert(t.last() == self.bloques@[j as int]@);
                lema_includes_suma(antes, self@.bloques[j as int].cuerpo, base@, hogar@);
                assert(self@.preambulo + lineas_de_cuerpos(t) =~= antes + self@.bloques[j as int].cuerpo);
            }
            j += 1;
        }
        proof {
            assert(self@.bloques.take(self@.bloques.len() as int) =~= self@.bloques);
        }
        r
    }
}

// --- La estructura del análisis ----------------------------------------------------------

/// La línea abre un bloque: su directiva es `Host` o `Match`, en cualquier caja.
pub open spec fn abre_bloque(l: Seq<char>) -> bool {
    encabezado_de(linea_de(l)) is Some
}

/// Cuántas líneas abren un bloque.
pub open spec fn aperturas(ls: Seq<Seq<char>>) -> nat
    decreases ls.len(),
{
    if ls.len() == 0 {
        0
    } else {
        aperturas(ls.drop_last()) + if abre_bloque(ls.last()) {
            1nat
        } else {
            0nat
        }
    }
}

proof fn lema_aperturas_suma(a: Seq<Seq<char>>, b: Seq<Seq<char>>)
    ensures
        aperturas(a + b) == aperturas(a) + aperturas(b),
    decreases b.len(),
{
    if b.len() == 0 {
        assert(a + b =~= a);
    } else {
        lema_aperturas_suma(a, b.drop_last());
        assert((a + b).drop_last() =~= a + b.drop_last());
        assert((a + b).last() == b.last());
    }
}

/// Líneas bien clasificadas sin ningún encabezado no abren ningún bloque.
proof fn lema_aperturas_cero(v: Seq<LineaV>)
    requires
        lineas_validas(v),
        forall|i: int| 0 <= i < v.len() ==> encabezado_de(#[trigger] v[i]) is None,
    ensures
        aperturas(crudas(v)) == 0,
    decreases v.len(),
{
    if v.len() > 0 {
        let w = v.drop_last();
        assert forall|i: int| 0 <= i < w.len() implies #[trigger] w[i] == linea_de(w[i].cruda) by {
            assert(w[i] == v[i]);
        }
        assert forall|i: int| 0 <= i < w.len() implies encabezado_de(#[trigger] w[i]) is None by {
            assert(w[i] == v[i]);
        }
        lema_aperturas_cero(w);
        assert(crudas(v).drop_last() =~= crudas(w));
        assert(crudas(v).last() == v[v.len() - 1].cruda);
        assert(v[v.len() - 1] == linea_de(v[v.len() - 1].cruda));
    }
}

/// Cada bloque bien formado aporta exactamente una línea que abre bloque: su
/// encabezado.
proof fn lema_aperturas_bloques(bs: Seq<BloqueV>)
    requires
        forall|i: int| 0 <= i < bs.len() ==> bloque_valido(#[trigger] bs[i]),
    ensures
        aperturas(lineas_bloques(bs)) == bs.len(),
    decreases bs.len(),
{
    if bs.len() > 0 {
        let w = bs.drop_last();
        assert forall|i: int| 0 <= i < w.len() implies bloque_valido(#[trigger] w[i]) by {
            assert(w[i] == bs[i]);
        }
        lema_aperturas_bloques(w);
        let b = bs.last();
        assert(bloque_valido(bs[bs.len() - 1]));
        assert forall|i: int| 0 <= i < b.comentarios.len() implies encabezado_de(
            #[trigger] b.comentarios[i],
        ) is None by {
            assert(b.comentarios[i].clase is Comentario);
        }
        lema_aperturas_cero(b.comentarios);
        lema_aperturas_cero(b.cuerpo);
        let c = crudas(b.comentarios);
        let e = seq![b.linea_encabezado.cruda];
        let u = crudas(b.cuerpo);
        assert(aperturas(e) == 1) by {
            assert(b.linea_encabezado == linea_de(b.linea_encabezado.cruda));
            assert(abre_bloque(b.linea_encabezado.cruda));
            assert(e.drop_last() =~= Seq::<Seq<char>>::empty());
            assert(aperturas(Seq::<Seq<char>>::empty()) == 0);
            assert(e.last() == b.linea_encabezado.cruda);
        }
        lema_aperturas_suma(c, e);
        lema_aperturas_suma(c + e, u);
        lema_aperturas_suma(lineas_bloques(w), lineas_bloque(b));
    }
}

/// Ley: lo que deja el análisis de un fichero. Sus líneas, en orden, son las
/// del fichero: las del preámbulo y, por cada bloque, sus comentarios, su
/// encabezado y su cuerpo. Hay un bloque por cada línea `Host` o `Match`; ni el
/// preámbulo ni los cuerpos abren ninguno. Los comentarios de un bloque son la
/// tanda entera de comentarios justo encima de su encabezado: lo que queda
/// delante (el preámbulo o el cuerpo del bloque anterior) no acaba en
/// comentario.
pub proof fn ley_estructura_del_analisis(d: DocumentoV, ruta: Seq<char>, contenido: Seq<char>)
    requires
        analisis_de(d, ruta, contenido),
    ensures
        d.ruta == ruta,
        d.salto_final == (contenido.len() == 0 || contenido.last() == '\n'),
        crudas(d.preambulo) + lineas_bloques(d.bloques) == lineas(contenido),
        d.bloques.len() == aperturas(lineas(contenido)),
        aperturas(crudas(d.preambulo)) == 0,
        forall|i: int|
            0 <= i < d.bloques.len() ==> {
                &&& abre_bloque(#[trigger] d.bloques[i].linea_encabezado.cruda)
                &&& aperturas(crudas(d.bloques[i].cuerpo)) == 0
                &&& todas_comentario(d.bloques[i].comentarios)
                &&& (i == 0 ==> cierra(d.preambulo))
                &&& (i > 0 ==> cierra(d.bloques[i - 1].cuerpo))
            },
{
    lema_aperturas_cero(d.preambulo);
    lema_aperturas_bloques(d.bloques);
    lema_aperturas_suma(crudas(d.preambulo), lineas_bloques(d.bloques));
    assert forall|i: int| 0 <= i < d.bloques.len() implies {
        &&& abre_bloque(#[trigger] d.bloques[i].linea_encabezado.cruda)
        &&& aperturas(crudas(d.bloques[i].cuerpo)) == 0
        &&& todas_comentario(d.bloques[i].comentarios)
        &&& (i == 0 ==> cierra(d.preambulo))
        &&& (i > 0 ==> cierra(d.bloques[i - 1].cuerpo))
    } by {
        assert(bloque_valido(d.bloques[i]));
        lema_aperturas_cero(d.bloques[i].cuerpo);
        if i > 0 {
            assert(cierra(d.bloques[i - 1].cuerpo));
        }
    }
}

} // verus!
