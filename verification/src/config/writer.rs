//! Escritura de `~/.ssh/config.d/yonder.conf` y gestión del `Include`.
//!
//! Reglas que este módulo hace cumplir:
//!
//! - La aplicación es dueña **exclusiva** del fichero propio.
//! - `~/.ssh/config` nunca se reescribe, salvo para añadir la línea `Include`
//!   la primera vez, y solo si no existe ya.
//! - Al reescribir el fichero propio se preservan comentarios y orden: solo
//!   cambian las directivas que la aplicación gestiona.
//!
//! Aquí se decide el texto; escribirlo en disco, con su copia de seguridad,
//! queda fuera de la biblioteca.

use vstd::prelude::*;

use crate::rutas::{misma, misma_ruta, LINEA_INCLUDE};
use crate::config::parser::{
    includes_de, lineas_de_cuerpos,
    alias_de, es_directiva, linea_de, posicion_de, tras_marca, valor_de, clave_normalizada,
    lema_posicion_de, vistas_lineas, vistas_bloques, Bloque, BloqueV, Clase, ClaseV, Documento,
    DocumentoV, Encabezado, EncabezadoV, Linea, LineaV,
};
use crate::error::{es_invalida, Error, Resultado};
use crate::modelo::{
    vistas_reenvios, especificacion, valor_directiva, validacion, Host, HostV, Reenvio, ReenvioV, Salud, SaludV,
    TipoReenvio,
};
use crate::texto::{
    es_alfanumerico_ascii, es_blanco, sin_blancos_al_final, sin_blancos_al_inicio, anexar, anexar_str, cadena, caracteres, decimal, decimal_cadena, es_str, iguales,
    juntar_cadenas, minusculas, recortado, recortar_str, unidos, vistas,
};

verus! {

broadcast use vstd::string::group_string_axioms;

// --- Directivas gestionadas --------------------------------------------------------

/// Directivas cuyo contenido gestiona la aplicación. El resto no se toca.
pub open spec fn es_gestionada(clave: Seq<char>) -> bool {
    ||| clave == "hostname"@
    ||| clave == "user"@
    ||| clave == "port"@
    ||| clave == "proxyjump"@
    ||| clave == "identityfile"@
    ||| clave == "localforward"@
    ||| clave == "remoteforward"@
    ||| clave == "dynamicforward"@
    ||| clave == "exitonforwardfailure"@
    ||| clave == "serveraliveinterval"@
    ||| clave == "serveralivecountmax"@
    ||| clave == "tcpkeepalive"@
}

fn es_gestionada_exec(clave: &[char]) -> (r: bool)
    ensures
        r == es_gestionada(clave@),
{
    es_str(clave, "hostname") || es_str(clave, "user") || es_str(clave, "port") || es_str(
        clave,
        "proxyjump",
    ) || es_str(clave, "identityfile") || es_str(clave, "localforward") || es_str(
        clave,
        "remoteforward",
    ) || es_str(clave, "dynamicforward") || es_str(clave, "exitonforwardfailure") || es_str(
        clave,
        "serveraliveinterval",
    ) || es_str(clave, "serveralivecountmax") || es_str(clave, "tcpkeepalive")
}

pub open spec fn linea_gestionada(l: LineaV) -> bool {
    match clave_normalizada(l) {
        Some(c) => es_gestionada(c),
        None => false,
    }
}

/// Directiva con la sangría estándar de cuatro espacios.
pub open spec fn directiva_nueva(clave: Seq<char>, valor: Seq<char>) -> LineaV {
    linea_de("    "@ + clave + " "@ + valor)
}

// --- Punto de inserción --------------------------------------------------------------

pub open spec fn ultima_gestionada(ls: Seq<LineaV>) -> Option<int>
    decreases ls.len(),
{
    if ls.len() == 0 {
        None
    } else if linea_gestionada(ls.last()) {
        Some(ls.len() - 1)
    } else {
        ultima_gestionada(ls.drop_last())
    }
}

pub open spec fn ultima_directiva(ls: Seq<LineaV>) -> Option<int>
    decreases ls.len(),
{
    if ls.len() == 0 {
        None
    } else if valor_de(ls.last()) is Some {
        Some(ls.len() - 1)
    } else {
        ultima_directiva(ls.drop_last())
    }
}

/// Índice donde insertar una directiva nueva: tras la última directiva
/// gestionada, o tras la última directiva cualquiera si no hay ninguna; en un
/// bloque sin directivas, tras la nota inicial si la hay.
pub open spec fn punto_de_insercion(ls: Seq<LineaV>) -> int {
    match ultima_gestionada(ls) {
        Some(p) => p + 1,
        None => match ultima_directiva(ls) {
            Some(p) => p + 1,
            None => if ls.len() > 0 && ls[0].clase is Comentario {
                1
            } else {
                0
            },
        },
    }
}

pub(crate) proof fn lema_ultima_gestionada(ls: Seq<LineaV>)
    ensures
        match ultima_gestionada(ls) {
            Some(p) => 0 <= p < ls.len(),
            None => true,
        },
    decreases ls.len(),
{
    if ls.len() > 0 {
        lema_ultima_gestionada(ls.drop_last());
    }
}

pub(crate) proof fn lema_ultima_directiva(ls: Seq<LineaV>)
    ensures
        match ultima_directiva(ls) {
            Some(p) => 0 <= p < ls.len(),
            None => true,
        },
    decreases ls.len(),
{
    if ls.len() > 0 {
        lema_ultima_directiva(ls.drop_last());
    }
}

pub(crate) proof fn lema_punto_de_insercion(ls: Seq<LineaV>)
    ensures
        0 <= punto_de_insercion(ls) <= ls.len(),
{
    lema_ultima_gestionada(ls);
    lema_ultima_directiva(ls);
}

fn punto_de_insercion_en(cuerpo: &Vec<Linea>) -> (r: usize)
    ensures
        r == punto_de_insercion(vistas_lineas(cuerpo@)),
{
    let ghost v = vistas_lineas(cuerpo@);
    let mut i: usize = cuerpo.len();
    proof {
        assert(v.take(i as int) =~= v);
    }
    while i > 0
        invariant
            i <= cuerpo@.len(),
            v == vistas_lineas(cuerpo@),
            ultima_gestionada(v) == ultima_gestionada(v.take(i as int)),
        decreases i,
    {
        proof {
            assert(v.take(i as int).last() == cuerpo@[i - 1]@);
            assert(v.take(i as int).drop_last() =~= v.take(i - 1));
        }
        let gestionada = match cuerpo[i - 1].clave_normalizada() {
            Some(c) => {
                let x = caracteres(c.as_str());
                es_gestionada_exec(x.as_slice())
            },
            None => false,
        };
        if gestionada {
            return i;
        }
        i -= 1;
    }
    let mut j: usize = cuerpo.len();
    proof {
        assert(v.take(j as int) =~= v);
    }
    while j > 0
        invariant
            j <= cuerpo@.len(),
            v == vistas_lineas(cuerpo@),
            ultima_gestionada(v) is None,
            ultima_directiva(v) == ultima_directiva(v.take(j as int)),
        decreases j,
    {
        proof {
            assert(v.take(j as int).last() == cuerpo@[j - 1]@);
            assert(v.take(j as int).drop_last() =~= v.take(j - 1));
        }
        if cuerpo[j - 1].valor().is_some() {
            return j;
        }
        j -= 1;
    }
    // Bloque sin directivas: tras la nota inicial, si la hay.
    if cuerpo.len() > 0 && cuerpo[0].clase.es_comentario() {
        1
    } else {
        0
    }
}

// --- Directivas de un solo valor --------------------------------------------------

/// Posición de la primera aparición de la directiva.
pub open spec fn primera_pos_directiva(ls: Seq<LineaV>, clave: Seq<char>) -> Option<int>
    decreases ls.len(),
{
    if ls.len() == 0 {
        None
    } else if es_directiva(ls[0], clave) {
        Some(0)
    } else {
        match primera_pos_directiva(ls.drop_first(), clave) {
            Some(k) => Some(k + 1),
            None => None,
        }
    }
}

pub(crate) proof fn lema_primera_pos_directiva(ls: Seq<LineaV>, clave: Seq<char>)
    ensures
        match primera_pos_directiva(ls, clave) {
            Some(k) => 0 <= k < ls.len() && es_directiva(ls[k], clave) && forall|j: int|
                0 <= j < k ==> !es_directiva(#[trigger] ls[j], clave),
            None => forall|j: int| 0 <= j < ls.len() ==> !es_directiva(#[trigger] ls[j], clave),
        },
    decreases ls.len(),
{
    if ls.len() > 0 {
        lema_primera_pos_directiva(ls.drop_first(), clave);
        assert forall|j: int| 1 <= j < ls.len() implies ls[j] == ls.drop_first()[j - 1] by {}
    }
}

pub(crate) proof fn lema_primera_pos_directiva_en(ls: Seq<LineaV>, clave: Seq<char>, k: int)
    requires
        0 <= k <= ls.len(),
        forall|j: int| 0 <= j < k ==> !es_directiva(#[trigger] ls[j], clave),
        k < ls.len() ==> es_directiva(ls[k], clave),
    ensures
        primera_pos_directiva(ls, clave) == if k < ls.len() {
            Some(k)
        } else {
            None::<int>
        },
    decreases k,
{
    if k > 0 {
        assert forall|j: int| 0 <= j < k - 1 implies !es_directiva(
            #[trigger] ls.drop_first()[j],
            clave,
        ) by {
            assert(ls.drop_first()[j] == ls[j + 1]);
        }
        if k < ls.len() {
            assert(ls.drop_first()[k - 1] == ls[k]);
        }
        lema_primera_pos_directiva_en(ls.drop_first(), clave, k - 1);
    }
}

fn primera_pos_en(cuerpo: &Vec<Linea>, clave: &str) -> (r: Option<usize>)
    ensures
        match r {
            Some(i) => primera_pos_directiva(vistas_lineas(cuerpo@), clave@) == Some(i as int),
            None => primera_pos_directiva(vistas_lineas(cuerpo@), clave@) is None,
        },
{
    let mut i: usize = 0;
    while i < cuerpo.len()
        invariant
            i <= cuerpo@.len(),
            forall|j: int|
                0 <= j < i ==> !es_directiva(#[trigger] vistas_lineas(cuerpo@)[j], clave@),
        decreases cuerpo@.len() - i,
    {
        if cuerpo[i].es(clave) {
            proof {
                lema_primera_pos_directiva_en(vistas_lineas(cuerpo@), clave@, i as int);
            }
            return Some(i);
        }
        i += 1;
    }
    proof {
        lema_primera_pos_directiva_en(vistas_lineas(cuerpo@), clave@, i as int);
    }
    None
}

/// Las líneas sin ninguna aparición de la directiva.
pub open spec fn sin_directiva(ls: Seq<LineaV>, clave: Seq<char>) -> Seq<LineaV>
    decreases ls.len(),
{
    if ls.len() == 0 {
        seq![]
    } else if es_directiva(ls[0], clave) {
        sin_directiva(ls.drop_first(), clave)
    } else {
        seq![ls[0]] + sin_directiva(ls.drop_first(), clave)
    }
}

/// La primera aparición de la directiva se sustituye por `nueva` y las demás
/// se borran: OpenSSH ignora todas menos la primera, así que los duplicados
/// solo sirven para confundir.
pub open spec fn reemplazar_desde(
    ls: Seq<LineaV>,
    clave: Seq<char>,
    nueva: LineaV,
    hallada: bool,
) -> Seq<LineaV>
    decreases ls.len(),
{
    if ls.len() == 0 {
        seq![]
    } else if es_directiva(ls[0], clave) {
        if hallada {
            reemplazar_desde(ls.drop_first(), clave, nueva, true)
        } else {
            seq![nueva] + reemplazar_desde(ls.drop_first(), clave, nueva, true)
        }
    } else {
        seq![ls[0]] + reemplazar_desde(ls.drop_first(), clave, nueva, hallada)
    }
}

/// Valor que de verdad se escribe: uno que no esté en blanco.
pub open spec fn valor_no_vacio(v: Option<Seq<char>>) -> Option<Seq<char>> {
    match v {
        Some(x) => if recortado(x).len() > 0 {
            Some(x)
        } else {
            None
        },
        None => None,
    }
}

/// El cuerpo con la directiva de un solo valor fijada: en su sitio si ya
/// estaba, en el punto de inserción si no; borrada si no hay valor.
pub open spec fn con_unica(ls: Seq<LineaV>, clave: Seq<char>, valor: Option<Seq<char>>) -> Seq<
    LineaV,
> {
    match valor_no_vacio(valor) {
        Some(v) => {
            let nueva = directiva_nueva(clave, v);
            match primera_pos_directiva(ls, clave) {
                Some(_) => reemplazar_desde(ls, clave, nueva, false),
                None => ls.insert(punto_de_insercion(ls), nueva),
            }
        },
        None => sin_directiva(ls, clave),
    }
}

pub open spec fn vista_texto(v: Option<&str>) -> Option<Seq<char>> {
    match v {
        Some(x) => Some(x@),
        None => None,
    }
}

fn sin_directiva_en(cuerpo: &Vec<Linea>, clave: &str) -> (r: Vec<Linea>)
    ensures
        vistas_lineas(r@) == sin_directiva(vistas_lineas(cuerpo@), clave@),
{
    let ghost v = vistas_lineas(cuerpo@);
    let mut r: Vec<Linea> = Vec::new();
    let mut i: usize = 0;
    proof {
        assert(v.skip(0) =~= v);
        assert(vistas_lineas(r@) =~= seq![]);
    }
    while i < cuerpo.len()
        invariant
            i <= cuerpo@.len(),
            v == vistas_lineas(cuerpo@),
            sin_directiva(v, clave@) == vistas_lineas(r@) + sin_directiva(v.skip(i as int), clave@),
        decreases cuerpo@.len() - i,
    {
        proof {
            assert(v.skip(i as int)[0] == cuerpo@[i as int]@);
            assert(v.skip(i as int).drop_first() =~= v.skip(i + 1));
        }
        if !cuerpo[i].es(clave) {
            let ghost antes = r@;
            r.push(cuerpo[i].duplicar());
            proof {
                assert(vistas_lineas(r@) =~= vistas_lineas(antes).push(cuerpo@[i as int]@));
                assert(vistas_lineas(antes).push(cuerpo@[i as int]@) + sin_directiva(
                    v.skip(i + 1),
                    clave@,
                ) =~= vistas_lineas(antes) + (seq![cuerpo@[i as int]@] + sin_directiva(
                    v.skip(i + 1),
                    clave@,
                )));
            }
        }
        i += 1;
    }
    proof {
        assert(v.skip(i as int) =~= seq![]);
        assert(vistas_lineas(r@) + seq![] =~= vistas_lineas(r@));
    }
    r
}

fn reemplazar_en(cuerpo: &Vec<Linea>, clave: &str, nueva: &Linea) -> (r: Vec<Linea>)
    ensures
        vistas_lineas(r@) == reemplazar_desde(vistas_lineas(cuerpo@), clave@, nueva@, false),
{
    let ghost v = vistas_lineas(cuerpo@);
    let mut r: Vec<Linea> = Vec::new();
    let mut hallada = false;
    let mut i: usize = 0;
    proof {
        assert(v.skip(0) =~= v);
        assert(vistas_lineas(r@) =~= seq![]);
    }
    while i < cuerpo.len()
        invariant
            i <= cuerpo@.len(),
            v == vistas_lineas(cuerpo@),
            reemplazar_desde(v, clave@, nueva@, false) == vistas_lineas(r@) + reemplazar_desde(
                v.skip(i as int),
                clave@,
                nueva@,
                hallada,
            ),
        decreases cuerpo@.len() - i,
    {
        let ghost resto = v.skip(i + 1);
        proof {
            assert(v.skip(i as int)[0] == cuerpo@[i as int]@);
            assert(v.skip(i as int).drop_first() =~= resto);
        }
        if cuerpo[i].es(clave) {
            if !hallada {
                let ghost antes = r@;
                r.push(nueva.duplicar());
                proof {
                    assert(vistas_lineas(r@) =~= vistas_lineas(antes).push(nueva@));
                    assert(vistas_lineas(antes).push(nueva@) + reemplazar_desde(
                        resto,
                        clave@,
                        nueva@,
                        true,
                    ) =~= vistas_lineas(antes) + (seq![nueva@] + reemplazar_desde(
                        resto,
                        clave@,
                        nueva@,
                        true,
                    )));
                }
                hallada = true;
            }
        } else {
            let ghost antes = r@;
            r.push(cuerpo[i].duplicar());
            proof {
                assert(vistas_lineas(r@) =~= vistas_lineas(antes).push(cuerpo@[i as int]@));
                assert(vistas_lineas(antes).push(cuerpo@[i as int]@) + reemplazar_desde(
                    resto,
                    clave@,
                    nueva@,
                    hallada,
                ) =~= vistas_lineas(antes) + (seq![cuerpo@[i as int]@] + reemplazar_desde(
                    resto,
                    clave@,
                    nueva@,
                    hallada,
                )));
            }
        }
        i += 1;
    }
    proof {
        assert(v.skip(i as int) =~= seq![]);
        assert(vistas_lineas(r@) + seq![] =~= vistas_lineas(r@));
    }
    r
}

/// Saca el cuerpo del bloque, dejándolo vacío.
fn tomar_cuerpo(bloque: &mut Bloque) -> (r: Vec<Linea>)
    ensures
        r@ == old(bloque).cuerpo@,
        final(bloque).cuerpo@ == Seq::<Linea>::empty(),
        final(bloque).comentarios == old(bloque).comentarios,
        final(bloque).encabezado == old(bloque).encabezado,
        final(bloque).linea_encabezado == old(bloque).linea_encabezado,
{
    let mut r: Vec<Linea> = Vec::new();
    std::mem::swap(&mut r, &mut bloque.cuerpo);
    r
}

/// Fija una directiva de un solo valor.
fn fijar_unica(bloque: &mut Bloque, clave: &str, valor: Option<&str>)
    ensures
        final(bloque)@ == (BloqueV {
            cuerpo: con_unica(old(bloque)@.cuerpo, clave@, vista_texto(valor)),
            ..old(bloque)@
        }),
{
    let cuerpo = tomar_cuerpo(bloque);
    let con_valor = match valor {
        Some(v) => {
            let c = crate::texto::recortar_str(v);
            if c.len() > 0 {
                Some(v)
            } else {
                None
            }
        },
        None => None,
    };
    let nuevo = match con_valor {
        Some(v) => {
            let nueva = Linea::directiva(clave, v);
            match primera_pos_en(&cuerpo, clave) {
                Some(_) => reemplazar_en(&cuerpo, clave, &nueva),
                None => {
                    let indice = punto_de_insercion_en(&cuerpo);
                    proof {
                        lema_punto_de_insercion(vistas_lineas(cuerpo@));
                    }
                    let mut c = cuerpo;
                    let ghost antes = c@;
                    c.insert(indice, nueva);
                    proof {
                        assert(vistas_lineas(c@) =~= vistas_lineas(antes).insert(
                            indice as int,
                            nueva@,
                        ));
                    }
                    c
                },
            }
        },
        None => sin_directiva_en(&cuerpo, clave),
    };
    bloque.cuerpo = nuevo;
}

// --- Directivas de varios valores ------------------------------------------------------

pub open spec fn directivas_nuevas(clave: Seq<char>, valores: Seq<Seq<char>>) -> Seq<LineaV> {
    valores.map_values(|v: Seq<char>| directiva_nueva(clave, v))
}

pub open spec fn minimo(a: int, b: int) -> int {
    if a <= b {
        a
    } else {
        b
    }
}

/// El cuerpo con todos los valores de una directiva reescritos en el sitio de
/// la primera aparición, o en el punto de inserción si no había ninguna.
pub open spec fn con_multiple(ls: Seq<LineaV>, clave: Seq<char>, valores: Seq<Seq<char>>) -> Seq<
    LineaV,
> {
    let destino = match primera_pos_directiva(ls, clave) {
        Some(p) => p,
        None => punto_de_insercion(ls),
    };
    let s = sin_directiva(ls, clave);
    let d = minimo(destino, s.len() as int);
    s.take(d) + directivas_nuevas(clave, valores) + s.skip(d)
}

/// Inserta `nuevas` en la posición `d`.
fn insertar_en(base: Vec<Linea>, d: usize, nuevas: Vec<Linea>) -> (r: Vec<Linea>)
    requires
        d <= base@.len(),
    ensures
        vistas_lineas(r@) == vistas_lineas(base@).take(d as int) + vistas_lineas(nuevas@)
            + vistas_lineas(base@).skip(d as int),
{
    let mut r: Vec<Linea> = Vec::new();
    let mut i: usize = 0;
    proof {
        assert(vistas_lineas(r@) =~= vistas_lineas(base@).take(0));
    }
    while i < d
        invariant
            i <= d <= base@.len(),
            vistas_lineas(r@) == vistas_lineas(base@).take(i as int),
        decreases d - i,
    {
        let ghost antes = r@;
        let l = base[i].duplicar();
        r.push(l);
        proof {
            assert(vistas_lineas(r@) =~= vistas_lineas(antes).push(l@));
            assert(vistas_lineas(base@).take(i + 1) =~= vistas_lineas(base@).take(i as int).push(
                base@[i as int]@,
            ));
        }
        i += 1;
    }
    let mut j: usize = 0;
    let ghost r0 = vistas_lineas(r@);
    proof {
        assert(vistas_lineas(nuevas@).take(0) =~= seq![]);
        assert(vistas_lineas(r@) =~= r0 + vistas_lineas(nuevas@).take(0));
    }
    while j < nuevas.len()
        invariant
            j <= nuevas@.len(),
            vistas_lineas(r@) == r0 + vistas_lineas(nuevas@).take(j as int),
        decreases nuevas@.len() - j,
    {
        let ghost antes = r@;
        let l = nuevas[j].duplicar();
        r.push(l);
        proof {
            assert(vistas_lineas(r@) =~= vistas_lineas(antes).push(l@));
            assert(vistas_lineas(nuevas@).take(j + 1) =~= vistas_lineas(nuevas@).take(
                j as int,
            ).push(nuevas@[j as int]@));
            assert(vistas_lineas(r@) =~= r0 + vistas_lineas(nuevas@).take(j + 1));
        }
        j += 1;
    }
    let ghost r1 = vistas_lineas(r@);
    let mut k: usize = d;
    proof {
        assert(vistas_lineas(nuevas@).take(nuevas@.len() as int) =~= vistas_lineas(nuevas@));
        assert(vistas_lineas(r@) =~= r1 + vistas_lineas(base@).subrange(d as int, k as int));
    }
    while k < base.len()
        invariant
            d <= k <= base@.len(),
            vistas_lineas(r@) == r1 + vistas_lineas(base@).subrange(d as int, k as int),
        decreases base@.len() - k,
    {
        let ghost antes = r@;
        let l = base[k].duplicar();
        r.push(l);
        proof {
            assert(vistas_lineas(r@) =~= vistas_lineas(antes).push(l@));
            assert(vistas_lineas(base@).subrange(d as int, k + 1) =~= vistas_lineas(
                base@,
            ).subrange(d as int, k as int).push(base@[k as int]@));
            assert(vistas_lineas(r@) =~= r1 + vistas_lineas(base@).subrange(d as int, k + 1));
        }
        k += 1;
    }
    proof {
        assert(vistas_lineas(base@).subrange(d as int, base@.len() as int) =~= vistas_lineas(
            base@,
        ).skip(d as int));
    }
    r
}

/// Reescribe todos los valores de una directiva que admite varios.
fn fijar_multiple(bloque: &mut Bloque, clave: &str, valores: &Vec<String>)
    ensures
        final(bloque)@ == (BloqueV {
            cuerpo: con_multiple(old(bloque)@.cuerpo, clave@, vistas(valores@)),
            ..old(bloque)@
        }),
{
    let cuerpo = tomar_cuerpo(bloque);
    let destino = match primera_pos_en(&cuerpo, clave) {
        Some(p) => p,
        None => punto_de_insercion_en(&cuerpo),
    };
    let s = sin_directiva_en(&cuerpo, clave);
    // El punto de inserción puede haberse desplazado al borrar.
    let d = if destino <= s.len() {
        destino
    } else {
        s.len()
    };
    let mut nuevas: Vec<Linea> = Vec::new();
    let mut i: usize = 0;
    proof {
        assert(vistas_lineas(nuevas@) =~= directivas_nuevas(clave@, vistas(valores@).take(0)));
    }
    while i < valores.len()
        invariant
            i <= valores@.len(),
            vistas_lineas(nuevas@) == directivas_nuevas(clave@, vistas(valores@).take(i as int)),
        decreases valores@.len() - i,
    {
        let ghost antes = nuevas@;
        let linea = Linea::directiva(clave, valores[i].as_str());
        nuevas.push(linea);
        proof {
            assert(vistas(valores@).take(i + 1) =~= vistas(valores@).take(i as int).push(
                valores@[i as int]@,
            ));
            assert(vistas_lineas(nuevas@) =~= vistas_lineas(antes).push(linea@));
            assert(vistas_lineas(nuevas@) =~= directivas_nuevas(
                clave@,
                vistas(valores@).take(i + 1),
            ));
        }
        i += 1;
    }
    proof {
        assert(vistas(valores@).take(valores@.len() as int) =~= vistas(valores@));
    }
    bloque.cuerpo = insertar_en(s, d, nuevas);
}

// --- Reenvíos con sus marcas ------------------------------------------------------------

/// Marcador `# salud: …` o `# nombre: …`.
pub open spec fn es_marca(l: LineaV) -> bool {
    tras_marca(l, "salud:"@) is Some || tras_marca(l, "nombre:"@) is Some
}

/// La línea `i` se borra al reescribir la directiva: es una aparición de ella,
/// o una marca de una serie de marcas pegada encima de una aparición.
pub open spec fn a_borrar(ls: Seq<LineaV>, clave: Seq<char>, i: int) -> bool
    decreases ls.len() - i,
{
    if i < 0 || i >= ls.len() {
        false
    } else if es_directiva(ls[i], clave) {
        true
    } else if es_marca(ls[i]) {
        a_borrar(ls, clave, i + 1)
    } else {
        false
    }
}

/// Las líneas de `[0, n)` que sobreviven al borrado.
pub open spec fn conservadas_hasta(ls: Seq<LineaV>, clave: Seq<char>, n: int) -> Seq<LineaV>
    decreases n,
{
    if n <= 0 {
        seq![]
    } else {
        conservadas_hasta(ls, clave, n - 1) + if a_borrar(ls, clave, n - 1) {
            seq![]
        } else {
            seq![ls[n - 1]]
        }
    }
}

/// Líneas con que se escribe un reenvío: el nombre primero (es lo que lo
/// identifica), luego la salud si no es la de por defecto, y la directiva.
pub open spec fn lineas_reenvio(clave: Seq<char>, r: ReenvioV) -> Seq<LineaV> {
    (match r.nombre {
        Some(n) => seq![linea_de("    # "@ + "nombre:"@ + " "@ + n)],
        None => seq![],
    }) + (if r.salud != SaludV::Escucha {
        seq![linea_de("    # "@ + "salud:"@ + " "@ + especificacion(r.salud))]
    } else {
        seq![]
    }) + seq![directiva_nueva(clave, valor_directiva(r))]
}

pub open spec fn lineas_reenvios(clave: Seq<char>, rs: Seq<ReenvioV>) -> Seq<LineaV>
    decreases rs.len(),
{
    if rs.len() == 0 {
        seq![]
    } else {
        lineas_reenvios(clave, rs.drop_last()) + lineas_reenvio(clave, rs.last())
    }
}

/// El cuerpo con los reenvíos de una directiva reescritos: se borran las
/// apariciones y las marcas pegadas a ellas, y los reenvíos nuevos se escriben
/// donde estaba la primera aparición (o en el punto de inserción).
pub open spec fn con_reenvios(ls: Seq<LineaV>, clave: Seq<char>, rs: Seq<ReenvioV>) -> Seq<LineaV> {
    let destino = match primera_pos_directiva(ls, clave) {
        Some(p) => p,
        None => punto_de_insercion(ls),
    };
    let k = conservadas_hasta(ls, clave, ls.len() as int);
    let d = minimo(conservadas_hasta(ls, clave, destino).len() as int, k.len() as int);
    k.take(d) + lineas_reenvios(clave, rs) + k.skip(d)
}


fn es_marca_exec(l: &Linea) -> (r: bool)
    ensures
        r == es_marca(l@),
{
    l.marca_de_salud().is_some() || l.marca_de_nombre().is_some()
}

pub(crate) proof fn lema_conservadas_crecen(ls: Seq<LineaV>, clave: Seq<char>, a: int, b: int)
    requires
        0 <= a <= b,
    ensures
        conservadas_hasta(ls, clave, a).len() <= conservadas_hasta(ls, clave, b).len(),
    decreases b - a,
{
    if a < b {
        lema_conservadas_crecen(ls, clave, a, b - 1);
    }
}

fn linea_marca(marca: &str, texto: &str) -> (l: Linea)
    ensures
        l@ == linea_de("    # "@ + marca@ + " "@ + texto@),
{
    let mut c = caracteres("    # ");
    anexar_str(&mut c, marca);
    anexar_str(&mut c, " ");
    anexar_str(&mut c, texto);
    proof {
        assert(c@ =~= "    # "@ + marca@ + " "@ + texto@);
    }
    Linea::analizar_caracteres(c.as_slice())
}

fn lineas_de_reenvios(clave: &str, rs: &Vec<Reenvio>) -> (r: Vec<Linea>)
    ensures
        vistas_lineas(r@) == lineas_reenvios(clave@, vistas_reenvios(rs@)),
{
    let mut r: Vec<Linea> = Vec::new();
    let mut i: usize = 0;
    proof {
        assert(vistas_reenvios(rs@).take(0) =~= seq![]);
        assert(vistas_lineas(r@) =~= seq![]);
    }
    while i < rs.len()
        invariant
            i <= rs@.len(),
            vistas_lineas(r@) == lineas_reenvios(clave@, vistas_reenvios(rs@).take(i as int)),
        decreases rs@.len() - i,
    {
        let reenvio = &rs[i];
        let ghost r0 = vistas_lineas(r@);
        let ghost parte_nombre: Seq<LineaV> = seq![];
        match &reenvio.nombre {
            Some(nombre) => {
                let l = linea_marca(crate::modelo::MARCA_NOMBRE, nombre.as_str());
                r.push(l);
                proof {
                    parte_nombre = seq![l@];
                }
            },
            None => {},
        }
        proof {
            assert(vistas_lineas(r@) =~= r0 + parte_nombre);
        }
        let ghost r1 = vistas_lineas(r@);
        let ghost parte_salud: Seq<LineaV> = seq![];
        if !reenvio.salud.eq(&Salud::Escucha) {
            let e = reenvio.salud.especificacion();
            let l = linea_marca(crate::modelo::MARCA_SALUD, e.as_str());
            r.push(l);
            proof {
                parte_salud = seq![l@];
            }
        }
        proof {
            assert(vistas_lineas(r@) =~= r1 + parte_salud);
        }
        let ghost r2 = vistas_lineas(r@);
        let v = reenvio.valor_directiva();
        let l = Linea::directiva(clave, v.as_str());
        r.push(l);
        proof {
            assert(vistas_lineas(r@) =~= r2 + seq![l@]);
            let t = vistas_reenvios(rs@).take(i + 1);
            assert(t.drop_last() =~= vistas_reenvios(rs@).take(i as int));
            assert(t.last() == reenvio@);
            assert(lineas_reenvio(clave@, reenvio@) =~= parte_nombre + parte_salud + seq![l@]);
            assert(vistas_lineas(r@) =~= r0 + (parte_nombre + parte_salud + seq![l@]));
        }
        i += 1;
    }
    proof {
        assert(vistas_reenvios(rs@).take(rs@.len() as int) =~= vistas_reenvios(rs@));
    }
    r
}

/// Reescribe los reenvíos de un tipo junto con sus marcas.
///
/// Un reenvío no es una línea sino, potencialmente, tres: el nombre, la salud
/// y la directiva. Tratarlas por separado dejaría marcas huérfanas apuntando
/// al reenvío equivocado, que es peor que no tener marca.
fn fijar_reenvios(bloque: &mut Bloque, clave: &str, reenvios: &Vec<Reenvio>)
    ensures
        final(bloque)@ == (BloqueV {
            cuerpo: con_reenvios(old(bloque)@.cuerpo, clave@, vistas_reenvios(reenvios@)),
            ..old(bloque)@
        }),
{
    let cuerpo = tomar_cuerpo(bloque);
    let ghost ls = vistas_lineas(cuerpo@);
    let n = cuerpo.len();
    let destino = match primera_pos_en(&cuerpo, clave) {
        Some(p) => p,
        None => punto_de_insercion_en(&cuerpo),
    };
    proof {
        lema_primera_pos_directiva(ls, clave@);
        lema_punto_de_insercion(ls);
    }
    // Qué se borra, de abajo arriba: cada aparición y las marcas que la
    // preceden, que pueden ser dos (el nombre y la salud).
    let mut al_reves: Vec<bool> = Vec::new();
    let mut k: usize = n;
    while k > 0
        invariant
            k <= n == cuerpo@.len(),
            ls == vistas_lineas(cuerpo@),
            al_reves@.len() == n - k,
            forall|j: int|
                0 <= j < al_reves@.len() ==> al_reves@[j] == a_borrar(ls, clave@, n - 1 - j),
        decreases k,
    {
        let i = k - 1;
        proof {
            assert(ls[i as int] == cuerpo@[i as int]@);
            assert(ls.len() == n);
        }
        let borrar = if cuerpo[i].es(clave) {
            true
        } else if es_marca_exec(&cuerpo[i]) {
            if i + 1 < n {
                proof {
                    assert(al_reves@[n - 2 - i] == a_borrar(ls, clave@, n - 1 - (n - 2 - i)));
                }
                al_reves[n - 2 - i]
            } else {
                proof {
                    assert(!a_borrar(ls, clave@, n as int));
                }
                false
            }
        } else {
            false
        };
        proof {
            assert(borrar == a_borrar(ls, clave@, i as int));
        }
        al_reves.push(borrar);
        k = i;
    }
    let mut conservadas: Vec<Linea> = Vec::new();
    let mut antes: usize = 0;
    let mut i: usize = 0;
    proof {
        assert(vistas_lineas(conservadas@) =~= seq![]);
    }
    while i < n
        invariant
            i <= n == cuerpo@.len(),
            destino <= n,
            ls == vistas_lineas(cuerpo@),
            al_reves@.len() == n,
            forall|j: int| 0 <= j < n ==> al_reves@[j] == a_borrar(ls, clave@, n - 1 - j),
            vistas_lineas(conservadas@) == conservadas_hasta(ls, clave@, i as int),
            antes == conservadas_hasta(ls, clave@, minimo(i as int, destino as int)).len(),
            antes <= i,
        decreases n - i,
    {
        proof {
            assert(al_reves@[n - 1 - i] == a_borrar(ls, clave@, i as int));
        }
        if !al_reves[n - 1 - i] {
            let ghost previas = conservadas@;
            let l = cuerpo[i].duplicar();
            conservadas.push(l);
            proof {
                assert(vistas_lineas(conservadas@) =~= vistas_lineas(previas).push(l@));
                assert(ls[i as int] == l@);
            }
            if i < destino {
                antes = antes + 1;
            }
        }
        proof {
            assert(vistas_lineas(conservadas@) =~= conservadas_hasta(ls, clave@, i + 1));
            lema_conservadas_crecen(ls, clave@, i as int, n as int);
        }
        i += 1;
    }
    proof {
        assert(minimo(n as int, destino as int) == destino);
        lema_conservadas_crecen(ls, clave@, destino as int, n as int);
    }
    let d = if antes <= conservadas.len() {
        antes
    } else {
        conservadas.len()
    };
    let nuevas = lineas_de_reenvios(clave, reenvios);
    bloque.cuerpo = insertar_en(conservadas, d, nuevas);
}

// --- Sincronización de un bloque ----------------------------------------------------

/// El cuerpo sin las notas de la aplicación.
pub open spec fn sin_notas(ls: Seq<LineaV>) -> Seq<LineaV>
    decreases ls.len(),
{
    if ls.len() == 0 {
        seq![]
    } else if tras_marca(ls[0], "nota:"@) is Some {
        sin_notas(ls.drop_first())
    } else {
        seq![ls[0]] + sin_notas(ls.drop_first())
    }
}

/// Reenvíos de un tipo, en orden.
pub open spec fn del_tipo(rs: Seq<ReenvioV>, t: TipoReenvio) -> Seq<ReenvioV>
    decreases rs.len(),
{
    if rs.len() == 0 {
        seq![]
    } else if rs.last().tipo == t {
        del_tipo(rs.drop_last(), t).push(rs.last())
    } else {
        del_tipo(rs.drop_last(), t)
    }
}

pub open spec fn con_nota(ls: Seq<LineaV>, nota: Option<Seq<char>>) -> Seq<LineaV> {
    match nota {
        Some(n) => if recortado(n).len() > 0 {
            seq![linea_de("    # nota: "@ + recortado(n))] + ls
        } else {
            ls
        },
        None => ls,
    }
}

pub open spec fn texto_puerto(p: Option<u16>) -> Option<Seq<char>> {
    match p {
        Some(x) => Some(decimal(x as nat)),
        None => None,
    }
}

pub open spec fn texto_saltos(s: Seq<Seq<char>>) -> Option<Seq<char>> {
    if s.len() == 0 {
        None
    } else {
        Some(unidos(s, seq![',']))
    }
}

/// El cuerpo de un bloque tras sincronizarlo con el host: las directivas
/// gestionadas se escriben en su sitio y el resto queda intacto.
pub open spec fn cuerpo_sincronizado(c: Seq<LineaV>, h: HostV) -> Seq<LineaV> {
    let c = con_nota(sin_notas(c), h.nota);
    let c = con_unica(c, "HostName"@, h.hostname);
    let c = con_unica(c, "User"@, h.usuario);
    let c = con_unica(c, "Port"@, texto_puerto(h.puerto));
    let c = con_unica(c, "ProxyJump"@, texto_saltos(h.saltos));
    let c = con_multiple(c, "IdentityFile"@, h.identidades);
    let c = con_reenvios(c, "LocalForward"@, del_tipo(h.reenvios, TipoReenvio::Local));
    let c = con_reenvios(c, "RemoteForward"@, del_tipo(h.reenvios, TipoReenvio::Remoto));
    let c = con_reenvios(c, "DynamicForward"@, del_tipo(h.reenvios, TipoReenvio::Dinamico));
    let c = con_unica(c, "ExitOnForwardFailure"@, Some("yes"@));
    let c = con_unica(c, "ServerAliveInterval"@, Some("15"@));
    let c = con_unica(c, "ServerAliveCountMax"@, Some("3"@));
    con_unica(c, "TCPKeepAlive"@, Some("yes"@))
}

fn quitar_notas(bloque: &mut Bloque)
    ensures
        final(bloque)@ == (BloqueV { cuerpo: sin_notas(old(bloque)@.cuerpo), ..old(bloque)@ }),
{
    let cuerpo = tomar_cuerpo(bloque);
    let ghost v = vistas_lineas(cuerpo@);
    let mut r: Vec<Linea> = Vec::new();
    let mut i: usize = 0;
    proof {
        assert(v.skip(0) =~= v);
        assert(vistas_lineas(r@) =~= seq![]);
    }
    while i < cuerpo.len()
        invariant
            i <= cuerpo@.len(),
            v == vistas_lineas(cuerpo@),
            sin_notas(v) == vistas_lineas(r@) + sin_notas(v.skip(i as int)),
        decreases cuerpo@.len() - i,
    {
        proof {
            assert(v.skip(i as int)[0] == cuerpo@[i as int]@);
            assert(v.skip(i as int).drop_first() =~= v.skip(i + 1));
        }
        if cuerpo[i].tras_marca("nota:").is_none() {
            let ghost antes = r@;
            let l = cuerpo[i].duplicar();
            r.push(l);
            proof {
                assert(vistas_lineas(r@) =~= vistas_lineas(antes).push(l@));
                assert(vistas_lineas(antes).push(l@) + sin_notas(v.skip(i + 1)) =~= vistas_lineas(
                    antes,
                ) + (seq![l@] + sin_notas(v.skip(i + 1))));
            }
        }
        i += 1;
    }
    proof {
        assert(v.skip(i as int) =~= seq![]);
        assert(vistas_lineas(r@) + seq![] =~= vistas_lineas(r@));
    }
    bloque.cuerpo = r;
}

fn del_tipo_en(rs: &Vec<Reenvio>, t: TipoReenvio) -> (r: Vec<Reenvio>)
    ensures
        vistas_reenvios(r@) == del_tipo(vistas_reenvios(rs@), t),
{
    let mut r: Vec<Reenvio> = Vec::new();
    let mut i: usize = 0;
    proof {
        assert(vistas_reenvios(rs@).take(0) =~= seq![]);
        assert(vistas_reenvios(r@) =~= seq![]);
    }
    while i < rs.len()
        invariant
            i <= rs@.len(),
            vistas_reenvios(r@) == del_tipo(vistas_reenvios(rs@).take(i as int), t),
        decreases rs@.len() - i,
    {
        proof {
            let x = vistas_reenvios(rs@).take(i + 1);
            assert(x.drop_last() =~= vistas_reenvios(rs@).take(i as int));
            assert(x.last() == rs@[i as int]@);
        }
        if rs[i].tipo == t {
            let ghost antes = r@;
            let x = rs[i].duplicar();
            r.push(x);
            proof {
                assert(vistas_reenvios(r@) =~= vistas_reenvios(antes).push(x@));
            }
        }
        i += 1;
    }
    proof {
        assert(vistas_reenvios(rs@).take(rs@.len() as int) =~= vistas_reenvios(rs@));
    }
    r
}

/// Actualiza las directivas gestionadas de un bloque dejando intacto el resto.
///
/// Si una directiva ya existía, el valor nuevo se escribe en su sitio; si
/// desaparece, se borran sus líneas; si es nueva, se añade tras las demás
/// directivas gestionadas.
fn sincronizar_bloque(bloque: &mut Bloque, host: &Host)
    ensures
        final(bloque)@ == (BloqueV {
            cuerpo: cuerpo_sincronizado(old(bloque)@.cuerpo, host@),
            ..old(bloque)@
        }),
{
    // Nota del usuario: comentario `# nota: …` justo bajo el encabezado.
    quitar_notas(bloque);
    match &host.nota {
        Some(nota) => {
            let limpia = recortar_str(nota.as_str());
            if limpia.len() > 0 {
                let mut c = caracteres("    # nota: ");
                anexar(&mut c, limpia.as_slice());
                let l = Linea::analizar_caracteres(c.as_slice());
                let ghost antes = bloque.cuerpo@;
                bloque.cuerpo.insert(0, l);
                proof {
                    assert(c@ =~= "    # nota: "@ + limpia@);
                    assert(vistas_lineas(bloque.cuerpo@) =~= seq![l@] + vistas_lineas(antes));
                }
            }
        },
        None => {},
    }
    fijar_unica(bloque, "HostName", opcion_str(&host.hostname));
    fijar_unica(bloque, "User", opcion_str(&host.usuario));
    let puerto = match host.puerto {
        Some(p) => Some(decimal_cadena(p as u64)),
        None => None,
    };
    fijar_unica(bloque, "Port", opcion_str(&puerto));
    let saltos = if host.saltos.len() == 0 {
        None
    } else {
        let coma = vec![','];
        proof {
            assert(coma@ =~= seq![',']);
        }
        let j = juntar_cadenas(host.saltos.as_slice(), coma.as_slice());
        Some(cadena(j.as_slice()))
    };
    fijar_unica(bloque, "ProxyJump", opcion_str(&saltos));
    fijar_multiple(bloque, "IdentityFile", &host.identidades);
    let locales = del_tipo_en(&host.reenvios, TipoReenvio::Local);
    fijar_reenvios(bloque, "LocalForward", &locales);
    let remotos = del_tipo_en(&host.reenvios, TipoReenvio::Remoto);
    fijar_reenvios(bloque, "RemoteForward", &remotos);
    let dinamicos = del_tipo_en(&host.reenvios, TipoReenvio::Dinamico);
    fijar_reenvios(bloque, "DynamicForward", &dinamicos);
    // Directivas de robustez que la aplicación mantiene en cada host.
    fijar_unica(bloque, "ExitOnForwardFailure", Some("yes"));
    fijar_unica(bloque, "ServerAliveInterval", Some("15"));
    fijar_unica(bloque, "ServerAliveCountMax", Some("3"));
    // Detecta la caída a nivel de TCP además de a nivel de SSH: cubre el
    // cortafuegos que descarta la conexión sin avisar a nadie.
    fijar_unica(bloque, "TCPKeepAlive", Some("yes"));
}

fn opcion_str(o: &Option<String>) -> (r: Option<&str>)
    ensures
        vista_texto(r) == crate::modelo::vista_opcional(*o),
{
    match o {
        Some(s) => Some(s.as_str()),
        None => None,
    }
}

// --- Documento -------------------------------------------------------------------------

pub open spec fn linea_vacia() -> LineaV {
    LineaV { cruda: seq![], clase: ClaseV::Vacia }
}

/// Las líneas terminan en una en blanco (se añade si no).
pub open spec fn con_blanco_final(ls: Seq<LineaV>) -> Seq<LineaV> {
    if ls.len() > 0 && ls.last().clase is Vacia {
        ls
    } else {
        ls.push(linea_vacia())
    }
}

/// El documento con una línea en blanco al final del último bloque (o del
/// preámbulo), para separar el bloque que viene.
pub open spec fn con_linea_en_blanco_final(d: DocumentoV) -> DocumentoV {
    if d.bloques.len() > 0 {
        DocumentoV {
            bloques: d.bloques.update(
                d.bloques.len() - 1,
                BloqueV { cuerpo: con_blanco_final(d.bloques.last().cuerpo), ..d.bloques.last() },
            ),
            ..d
        }
    } else {
        DocumentoV { preambulo: con_blanco_final(d.preambulo), ..d }
    }
}

/// Bloque nuevo para un host.
pub open spec fn bloque_nuevo_de(h: HostV) -> BloqueV {
    BloqueV {
        comentarios: seq![],
        encabezado: EncabezadoV::Host { patrones: seq![h.alias] },
        linea_encabezado: linea_de("Host "@ + h.alias),
        cuerpo: cuerpo_sincronizado(seq![], h),
    }
}

/// El documento tras insertar o actualizar el host.
pub open spec fn documento_sincronizado(d: DocumentoV, h: HostV) -> DocumentoV {
    match posicion_de(d.bloques, h.alias) {
        Some(i) => DocumentoV {
            bloques: d.bloques.update(
                i,
                BloqueV { cuerpo: cuerpo_sincronizado(d.bloques[i].cuerpo, h), ..d.bloques[i] },
            ),
            ..d
        },
        None => {
            let d2 = if d.bloques.len() > 0 || d.preambulo.len() > 0 {
                con_linea_en_blanco_final(d)
            } else {
                d
            };
            DocumentoV { bloques: d2.bloques.push(bloque_nuevo_de(h)), ..d2 }
        },
    }
}

fn blanco_al_final(lineas: &mut Vec<Linea>)
    ensures
        vistas_lineas(final(lineas)@) == con_blanco_final(vistas_lineas(old(lineas)@)),
{
    let n = lineas.len();
    let falta = if n > 0 {
        match lineas[n - 1].clase {
            Clase::Vacia => false,
            _ => true,
        }
    } else {
        true
    };
    if falta {
        let ghost antes = lineas@;
        let l = Linea::vacia();
        lineas.push(l);
        proof {
            assert(vistas_lineas(lineas@) =~= vistas_lineas(antes).push(l@));
        }
    }
}

fn asegurar_linea_en_blanco_final(documento: &mut Documento)
    ensures
        final(documento)@ == con_linea_en_blanco_final(old(documento)@),
{
    match documento.bloques.pop() {
        Some(mut bloque) => {
            let ghost antes = bloque@;
            blanco_al_final(&mut bloque.cuerpo);
            let ghost b = bloque@;
            documento.bloques.push(bloque);
            proof {
                assert(b == (BloqueV { cuerpo: con_blanco_final(antes.cuerpo), ..antes }));
                assert(vistas_bloques(documento.bloques@) =~= vistas_bloques(
                    old(documento).bloques@,
                ).update(old(documento).bloques@.len() - 1, b));
            }
        },
        None => {
            blanco_al_final(&mut documento.preambulo);
        },
    }
}

fn bloque_nuevo(host: &Host) -> (b: Bloque)
    ensures
        b@ == bloque_nuevo_de(host@),
{
    let mut c = caracteres("Host ");
    anexar_str(&mut c, host.alias.as_str());
    let mut patrones: Vec<String> = Vec::new();
    patrones.push(host.alias.clone());
    let mut bloque = Bloque {
        comentarios: Vec::new(),
        encabezado: Encabezado::Host { patrones },
        linea_encabezado: Linea::analizar_caracteres(c.as_slice()),
        cuerpo: Vec::new(),
    };
    proof {
        assert(vistas(patrones@) =~= seq![host.alias@]);
        assert(vistas_lineas(bloque.comentarios@) =~= seq![]);
        assert(vistas_lineas(bloque.cuerpo@) =~= seq![]);
        assert(c@ =~= "Host "@ + host.alias@);
    }
    sincronizar_bloque(&mut bloque, host);
    bloque
}

/// Inserta o actualiza un host en el documento, preservando todo lo demás.
///
/// Un host que no pasa la validación no se escribe: lo que no es válido se
/// convertiría en directivas nuevas al escribirse.
pub fn sincronizar_host(documento: &mut Documento, host: &Host) -> (r: Resultado<()>)
    ensures
        match validacion(host@) {
            Err(m) => r matches Err(e) && es_invalida(e, m) && *final(documento) == *old(documento),
            Ok(_) => r is Ok && final(documento)@ == documento_sincronizado(old(documento)@, host@),
        },
{
    match host.validar() {
        Err(e) => {
            return Err(e);
        },
        Ok(_) => {},
    }
    proof {
        lema_posicion_de(documento@.bloques, host@.alias);
    }
    match documento.posicion(host.alias.as_str()) {
        Some(indice) => {
            let mut bloque = documento.bloques.remove(indice);
            let ghost antes = bloque@;
            sincronizar_bloque(&mut bloque, host);
            let ghost b = bloque@;
            documento.bloques.insert(indice, bloque);
            proof {
                assert(vistas_bloques(documento.bloques@) =~= vistas_bloques(
                    old(documento).bloques@,
                ).update(indice as int, b));
            }
        },
        None => {
            if documento.bloques.len() > 0 || documento.preambulo.len() > 0 {
                asegurar_linea_en_blanco_final(documento);
            }
            let ghost d2 = documento@;
            let b = bloque_nuevo(host);
            documento.bloques.push(b);
            proof {
                assert(vistas_bloques(documento.bloques@) =~= d2.bloques.push(b@));
            }
        },
    }
    Ok(())
}

/// El documento con el bloque `i` renombrado.
pub open spec fn renombrado(d: DocumentoV, i: int, nuevo: Seq<char>) -> DocumentoV {
    DocumentoV {
        bloques: d.bloques.update(
            i,
            BloqueV {
                encabezado: EncabezadoV::Host { patrones: seq![nuevo] },
                linea_encabezado: linea_de("Host "@ + nuevo),
                ..d.bloques[i]
            },
        ),
        ..d
    }
}

/// Renombra un host conservando el resto de su bloque.
pub fn renombrar_host(documento: &mut Documento, antiguo: &str, nuevo: &str) -> (r: Resultado<()>)
    ensures
        if antiguo@ == nuevo@ {
            r is Ok && *final(documento) == *old(documento)
        } else if posicion_de(old(documento)@.bloques, nuevo@) is Some {
            (r matches Err(Error::HostDuplicado(n)) && n@ == nuevo@)
                && *final(documento) == *old(documento)
        } else {
            match posicion_de(old(documento)@.bloques, antiguo@) {
                None => (r matches Err(Error::HostDesconocido(n)) && n@ == antiguo@)
                    && *final(documento) == *old(documento),
                Some(i) => r is Ok && final(documento)@ == renombrado(old(documento)@, i, nuevo@),
            }
        },
{
    let a = caracteres(antiguo);
    if es_str(a.as_slice(), nuevo) {
        return Ok(());
    }
    if documento.posicion(nuevo).is_some() {
        return Err(Error::HostDuplicado(nuevo.to_string()));
    }
    proof {
        lema_posicion_de(documento@.bloques, antiguo@);
    }
    match documento.posicion(antiguo) {
        None => Err(Error::HostDesconocido(antiguo.to_string())),
        Some(i) => {
            let mut bloque = documento.bloques.remove(i);
            let mut patrones: Vec<String> = Vec::new();
            patrones.push(nuevo.to_string());
            bloque.encabezado = Encabezado::Host { patrones };
            let mut c = caracteres("Host ");
            anexar_str(&mut c, nuevo);
            bloque.linea_encabezado = Linea::analizar_caracteres(c.as_slice());
            let ghost b = bloque@;
            documento.bloques.insert(i, bloque);
            proof {
                assert(vistas(patrones@) =~= seq![nuevo@]);
                assert(c@ =~= "Host "@ + nuevo@);
                assert(vistas_bloques(documento.bloques@) =~= vistas_bloques(
                    old(documento).bloques@,
                ).update(i as int, b));
            }
            Ok(())
        },
    }
}

/// Elimina un host y los comentarios que le pertenecen.
pub fn eliminar_host(documento: &mut Documento, alias: &str) -> (r: Resultado<()>)
    ensures
        match posicion_de(old(documento)@.bloques, alias@) {
            Some(i) => r is Ok && final(documento)@ == (DocumentoV {
                bloques: old(documento)@.bloques.remove(i),
                ..old(documento)@
            }),
            None => r matches Err(Error::HostDesconocido(n)) && n@ == alias@ && *final(documento)
                == *old(documento),
        },
{
    proof {
        lema_posicion_de(documento@.bloques, alias@);
    }
    match documento.posicion(alias) {
        None => Err(Error::HostDesconocido(alias.to_string())),
        Some(i) => {
            documento.bloques.remove(i);
            proof {
                assert(vistas_bloques(documento.bloques@) =~= vistas_bloques(
                    old(documento).bloques@,
                ).remove(i as int));
            }
            Ok(())
        },
    }
}

// --- Fichero propio e `Include` ----------------------------------------------------------

/// Cabecera que la aplicación escribe al crear su fichero.
pub open spec fn cabecera() -> Seq<Seq<char>> {
    seq![
        "# Fichero gestionado por «yonder»."@,
        "#"@,
        "# Se puede editar a mano: la aplicación conserva los comentarios, el orden"@,
        "# y cualquier directiva que no entienda. Lo que no se debe hacer es mover"@,
        "# aquí hosts de otros ficheros esperando que sigan estando allí."@,
        "#"@,
        "# Cada Host definido aquí funciona también con ssh, scp, rsync y VS Code"@,
        "# Remote sin que la aplicación esté corriendo. Ese es justamente el punto."@,
        "#"@,
        "# Ejemplos comentados, del túnel simple al Oracle a dos saltos:"@,
        "#     /usr/share/doc/yonder/ejemplo.conf   (example.conf, in English)"@,
    ]
}

fn lineas_cabecera() -> (r: Vec<&'static str>)
    ensures
        r@.map_values(|x: &str| x@) == cabecera(),
{
    let r = vec![
        "# Fichero gestionado por «yonder».",
        "#",
        "# Se puede editar a mano: la aplicación conserva los comentarios, el orden",
        "# y cualquier directiva que no entienda. Lo que no se debe hacer es mover",
        "# aquí hosts de otros ficheros esperando que sigan estando allí.",
        "#",
        "# Cada Host definido aquí funciona también con ssh, scp, rsync y VS Code",
        "# Remote sin que la aplicación esté corriendo. Ese es justamente el punto.",
        "#",
        "# Ejemplos comentados, del túnel simple al Oracle a dos saltos:",
        "#     /usr/share/doc/yonder/ejemplo.conf   (example.conf, in English)",
    ];
    proof {
        assert(r@.map_values(|x: &str| x@) =~= cabecera());
    }
    r
}

/// El preámbulo de un fichero propio recién creado: la cabecera y una línea
/// en blanco.
pub open spec fn preambulo_propio() -> Seq<LineaV> {
    cabecera().map_values(|t: Seq<char>| linea_de(t)).push(linea_vacia())
}

/// Pone la cabecera a un fichero propio que todavía no tiene nada.
///
/// Devuelve si ha cambiado algo y, por tanto, hay que guardarlo.
pub fn asegurar_fichero_propio(documento: &mut Documento) -> (r: bool)
    ensures
        r == (old(documento)@.preambulo.len() == 0 && old(documento)@.bloques.len() == 0),
        r ==> final(documento)@ == (DocumentoV { preambulo: preambulo_propio(), ..old(documento)@ }),
        !r ==> *final(documento) == *old(documento),
{
    if documento.preambulo.len() == 0 && documento.bloques.len() == 0 {
        let textos = lineas_cabecera();
        let ghost t = textos@.map_values(|x: &str| x@);
        let mut i: usize = 0;
        proof {
            assert(vistas_lineas(documento.preambulo@) =~= seq![]);
        }
        while i < textos.len()
            invariant
                i <= textos@.len(),
                t == textos@.map_values(|x: &str| x@),
                t == cabecera(),
                vistas_lineas(documento.preambulo@) == t.take(i as int).map_values(
                    |x: Seq<char>| linea_de(x),
                ),
                documento.bloques@.len() == 0,
                documento@.ruta == old(documento)@.ruta,
                documento@.salto_final == old(documento)@.salto_final,
            decreases textos@.len() - i,
        {
            let ghost antes = documento.preambulo@;
            let l = Linea::analizar(textos[i]);
            documento.preambulo.push(l);
            proof {
                assert(t[i as int] == textos@[i as int]@);
                assert(vistas_lineas(documento.preambulo@) =~= vistas_lineas(antes).push(l@));
                assert(t.take(i + 1).map_values(|x: Seq<char>| linea_de(x)) =~= t.take(
                    i as int,
                ).map_values(|x: Seq<char>| linea_de(x)).push(linea_de(t[i as int])));
            }
            i += 1;
        }
        let ghost antes = documento.preambulo@;
        let v = Linea::vacia();
        documento.preambulo.push(v);
        proof {
            assert(vistas_lineas(documento.preambulo@) =~= vistas_lineas(antes).push(v@));
            assert(t.take(t.len() as int) =~= t);
            assert(vistas_bloques(documento.bloques@) =~= vistas_bloques(old(documento).bloques@));
        }
        true
    } else {
        false
    }
}

/// Resultado de comprobar el `Include` en `~/.ssh/config`.
#[derive(Debug, Clone, Copy, PartialEq, Eq, Structural)]
pub enum EstadoInclude {
    /// La línea ya está y apunta a nuestro fichero.
    Presente,
    /// Falta y hay que añadirla.
    Ausente,
    /// No existe `~/.ssh/config`; se creará entero.
    SinFichero,
}

/// Estado del `Include` según el `~/.ssh/config` leído (ninguno si no existe).
pub open spec fn estado_include_de(
    usuario: Option<DocumentoV>,
    objetivo: Seq<char>,
    base: Seq<char>,
    hogar: Seq<char>,
) -> EstadoInclude {
    match usuario {
        None => EstadoInclude::SinFichero,
        Some(d) => if incluye(d, objetivo, base, hogar) {
            EstadoInclude::Presente
        } else {
            EstadoInclude::Ausente
        },
    }
}

/// Alguno de los ficheros incluidos es `objetivo`.
pub open spec fn incluye(d: DocumentoV, objetivo: Seq<char>, base: Seq<char>, hogar: Seq<char>) -> bool {
    exists|i: int|
        0 <= i < incluidos(d, base, hogar).len() && #[trigger] misma_ruta(
            incluidos(d, base, hogar)[i],
            objetivo,
        )
}

pub open spec fn incluidos(d: DocumentoV, base: Seq<char>, hogar: Seq<char>) -> Seq<Seq<char>> {
    includes_de(d.preambulo + lineas_de_cuerpos(d.bloques), base, hogar)
}

pub open spec fn vista_documento(d: Option<&Documento>) -> Option<DocumentoV> {
    match d {
        Some(x) => Some(x@),
        None => None,
    }
}

/// Comprueba si `~/.ssh/config` ya incluye el fichero propio (`objetivo`).
///
/// `base` es `~/.ssh`, contra la que se resuelven las rutas relativas, y
/// `hogar` el directorio con que se expande `~`.
pub fn estado_include(usuario: Option<&Documento>, objetivo: &str, base: &str, hogar: &str) -> (r:
    EstadoInclude)
    ensures
        r == estado_include_de(vista_documento(usuario), objetivo@, base@, hogar@),
{
    match usuario {
        None => EstadoInclude::SinFichero,
        Some(documento) => {
            let incluidos_v = documento.includes(base, hogar);
            let ghost inc = incluidos(documento@, base@, hogar@);
            let mut i: usize = 0;
            while i < incluidos_v.len()
                invariant
                    i <= incluidos_v@.len(),
                    vistas(incluidos_v@) == inc,
                    inc == incluidos(documento@, base@, hogar@),
                    vista_documento(usuario) == Some(documento@),
                    forall|j: int| 0 <= j < i ==> !misma_ruta(#[trigger] inc[j], objetivo@),
                decreases incluidos_v@.len() - i,
            {
                if misma(incluidos_v[i].as_str(), objetivo) {
                    proof {
                        assert(inc[i as int] == incluidos_v@[i as int]@);
                        assert(misma_ruta(inc[i as int], objetivo@));
                        assert(0 <= i < incluidos(documento@, base@, hogar@).len());
                        assert(misma_ruta(incluidos(documento@, base@, hogar@)[i as int], objetivo@));
                        assert(incluye(documento@, objetivo@, base@, hogar@));
                    }
                    return EstadoInclude::Presente;
                }
                proof {
                    assert(inc[i as int] == incluidos_v@[i as int]@);
                }
                i += 1;
            }
            EstadoInclude::Ausente
        },
    }
}

/// Líneas que se ponen al principio de `~/.ssh/config` según el estado del
/// `Include`.
pub open spec fn lineas_include(estado: EstadoInclude) -> Seq<LineaV> {
    match estado {
        EstadoInclude::Presente => seq![],
        EstadoInclude::SinFichero => seq![linea_de(LINEA_INCLUDE@), linea_vacia()],
        EstadoInclude::Ausente => seq![
            linea_de(LINEA_INCLUDE@),
            linea_de(
                "# "@ + "línea añadida por «yonder»; el resto del fichero no se ha tocado"@,
            ),
            linea_vacia(),
        ],
    }
}

/// Añade `Include ~/.ssh/config.d/yonder.conf` como **primera línea**.
///
/// Tiene que ir la primera: en `ssh_config` gana el primer valor que se
/// encuentra para cada directiva, así que un `Include` al final quedaría
/// eclipsado por cualquier `Host *` anterior. Si el fichero no existía, se
/// parte de un documento vacío. Devuelve si hay que guardar algo.
pub fn asegurar_include(estado: EstadoInclude, documento: &mut Documento) -> (r: bool)
    ensures
        r == (estado != EstadoInclude::Presente),
        final(documento)@ == (DocumentoV {
            preambulo: lineas_include(estado) + old(documento)@.preambulo,
            ..old(documento)@
        }),
{
    let mut nuevo: Vec<Linea> = Vec::new();
    match estado {
        EstadoInclude::Presente => {
            proof {
                assert(lineas_include(estado) + old(documento)@.preambulo =~= old(
                    documento,
                )@.preambulo);
            }
            return false;
        },
        EstadoInclude::SinFichero => {
            nuevo.push(Linea::analizar(LINEA_INCLUDE));
            nuevo.push(Linea::vacia());
        },
        EstadoInclude::Ausente => {
            nuevo.push(Linea::analizar(LINEA_INCLUDE));
            nuevo.push(
                Linea::comentario(
                    "línea añadida por «yonder»; el resto del fichero no se ha tocado",
                ),
            );
            nuevo.push(Linea::vacia());
        },
    }
    let ghost n = vistas_lineas(nuevo@);
    proof {
        assert(n =~= lineas_include(estado));
    }
    let mut viejo: Vec<Linea> = Vec::new();
    std::mem::swap(&mut viejo, &mut documento.preambulo);
    let ghost v = vistas_lineas(viejo@);
    nuevo.append(&mut viejo);
    proof {
        assert(vistas_lineas(nuevo@) =~= n + v);
    }
    documento.preambulo = nuevo;
    true
}


// --- Lo que la aplicación no toca ----------------------------------------------------

/// Una línea ajena: ni directiva gestionada, ni marca de salud o nombre, ni
/// nota. Comentarios, líneas en blanco y directivas que la aplicación no
/// entiende.
pub open spec fn ajena(l: LineaV) -> bool {
    !linea_gestionada(l) && !es_marca(l) && tras_marca(l, "nota:"@) is None
}

/// Las líneas ajenas, en orden.
pub open spec fn ajenas(ls: Seq<LineaV>) -> Seq<LineaV>
    decreases ls.len(),
{
    if ls.len() == 0 {
        seq![]
    } else if ajena(ls.last()) {
        ajenas(ls.drop_last()).push(ls.last())
    } else {
        ajenas(ls.drop_last())
    }
}

/// Nombre de directiva que la aplicación escribe: no vacío, alfanumérico y
/// de las gestionadas.
pub open spec fn clave_gestionada(k: Seq<char>) -> bool {
    &&& k.len() > 0
    &&& forall|j: int| 0 <= j < k.len() ==> es_alfanumerico_ascii(#[trigger] k[j])
    &&& es_gestionada(minusculas(k))
}

pub(crate) proof fn lema_claves_gestionadas()
    ensures
        clave_gestionada("HostName"@),
        clave_gestionada("User"@),
        clave_gestionada("Port"@),
        clave_gestionada("ProxyJump"@),
        clave_gestionada("IdentityFile"@),
        clave_gestionada("LocalForward"@),
        clave_gestionada("RemoteForward"@),
        clave_gestionada("DynamicForward"@),
        clave_gestionada("ExitOnForwardFailure"@),
        clave_gestionada("ServerAliveInterval"@),
        clave_gestionada("ServerAliveCountMax"@),
        clave_gestionada("TCPKeepAlive"@),
        minusculas("HostName"@) == "hostname"@,
        minusculas("User"@) == "user"@,
        minusculas("Port"@) == "port"@,
        minusculas("ProxyJump"@) == "proxyjump"@,
        minusculas("IdentityFile"@) == "identityfile"@,
        minusculas("LocalForward"@) == "localforward"@,
        minusculas("RemoteForward"@) == "remoteforward"@,
        minusculas("DynamicForward"@) == "dynamicforward"@,
        minusculas("ExitOnForwardFailure"@) == "exitonforwardfailure"@,
        minusculas("ServerAliveInterval"@) == "serveraliveinterval"@,
        minusculas("ServerAliveCountMax"@) == "serveralivecountmax"@,
        minusculas("TCPKeepAlive"@) == "tcpkeepalive"@,
{
    reveal_strlit("HostName");
    reveal_strlit("hostname");
    assert(minusculas("HostName"@) =~= "hostname"@);
    reveal_strlit("User");
    reveal_strlit("user");
    assert(minusculas("User"@) =~= "user"@);
    reveal_strlit("Port");
    reveal_strlit("port");
    assert(minusculas("Port"@) =~= "port"@);
    reveal_strlit("ProxyJump");
    reveal_strlit("proxyjump");
    assert(minusculas("ProxyJump"@) =~= "proxyjump"@);
    reveal_strlit("IdentityFile");
    reveal_strlit("identityfile");
    assert(minusculas("IdentityFile"@) =~= "identityfile"@);
    reveal_strlit("LocalForward");
    reveal_strlit("localforward");
    assert(minusculas("LocalForward"@) =~= "localforward"@);
    reveal_strlit("RemoteForward");
    reveal_strlit("remoteforward");
    assert(minusculas("RemoteForward"@) =~= "remoteforward"@);
    reveal_strlit("DynamicForward");
    reveal_strlit("dynamicforward");
    assert(minusculas("DynamicForward"@) =~= "dynamicforward"@);
    reveal_strlit("ExitOnForwardFailure");
    reveal_strlit("exitonforwardfailure");
    assert(minusculas("ExitOnForwardFailure"@) =~= "exitonforwardfailure"@);
    reveal_strlit("ServerAliveInterval");
    reveal_strlit("serveraliveinterval");
    assert(minusculas("ServerAliveInterval"@) =~= "serveraliveinterval"@);
    reveal_strlit("ServerAliveCountMax");
    reveal_strlit("serveralivecountmax");
    assert(minusculas("ServerAliveCountMax"@) =~= "serveralivecountmax"@);
    reveal_strlit("TCPKeepAlive");
    reveal_strlit("tcpkeepalive");
    assert(minusculas("TCPKeepAlive"@) =~= "tcpkeepalive"@);
}

pub(crate) proof fn lema_inicio_blancos(a: Seq<char>, b: Seq<char>)
    requires
        forall|j: int| 0 <= j < a.len() ==> es_blanco(#[trigger] a[j]),
    ensures
        sin_blancos_al_inicio(a + b) == sin_blancos_al_inicio(b),
    decreases a.len(),
{
    if a.len() == 0 {
        assert(a + b =~= b);
    } else {
        assert((a + b).drop_first() =~= a.drop_first() + b);
        assert((a + b)[0] == a[0]);
        assert forall|j: int| 0 <= j < a.drop_first().len() implies es_blanco(
            #[trigger] a.drop_first()[j],
        ) by {
            assert(a.drop_first()[j] == a[j + 1]);
        }
        lema_inicio_blancos(a.drop_first(), b);
    }
}

pub(crate) proof fn lema_final_concat(a: Seq<char>, b: Seq<char>)
    requires
        a.len() > 0,
        !es_blanco(a.last()),
    ensures
        sin_blancos_al_final(a + b) == a + sin_blancos_al_final(b),
    decreases b.len(),
{
    if b.len() == 0 {
        assert(a + b =~= a);
        assert(a + seq![] =~= a);
    } else {
        assert((a + b).last() == b.last());
        if es_blanco(b.last()) {
            assert((a + b).drop_last() =~= a + b.drop_last());
            lema_final_concat(a, b.drop_last());
        }
    }
}

pub(crate) proof fn lema_final_prefijo(x: Seq<char>)
    ensures
        sin_blancos_al_final(x).len() <= x.len(),
        forall|i: int|
            0 <= i < sin_blancos_al_final(x).len() ==> #[trigger] sin_blancos_al_final(x)[i] == x[i],
    decreases x.len(),
{
    if x.len() > 0 && es_blanco(x.last()) {
        lema_final_prefijo(x.drop_last());
    }
}

/// Una directiva que escribe la aplicación se lee como esa directiva.
pub(crate) proof fn lema_directiva_nueva(k: Seq<char>, v: Seq<char>)
    requires
        k.len() > 0,
        forall|j: int| 0 <= j < k.len() ==> es_alfanumerico_ascii(#[trigger] k[j]),
    ensures
        clave_normalizada(directiva_nueva(k, v)) == Some(minusculas(k)),
{
    reveal_strlit("    ");
    reveal_strlit(" ");
    let s = "    "@ + k + " "@ + v;
    let cola = seq![' '] + v;
    assert(s =~= "    "@ + (k + cola));
    lema_inicio_blancos("    "@, k + cola);
    assert(es_alfanumerico_ascii(k[0]));
    assert((k + cola)[0] == k[0]);
    assert(sin_blancos_al_inicio(k + cola) == k + cola);
    assert(es_alfanumerico_ascii(k[k.len() - 1]));
    lema_final_concat(k, cola);
    let w = sin_blancos_al_final(cola);
    let r = k + w;
    assert(crate::texto::recortado(s) == r);
    lema_final_prefijo(cola);
    assert forall|j: int| 0 <= j < k.len() implies !crate::texto::es_blanco_ascii(#[trigger] r[j])
        && r[j] != '=' by {
        assert(r[j] == k[j]);
        assert(es_alfanumerico_ascii(k[j]));
    }
    if w.len() > 0 {
        assert(r[k.len() as int] == w[0]);
        assert(w[0] == cola[0]);
    }
    crate::config::parser::lema_fin_de_clave_en(r, k.len() as int);
    assert(r.take(k.len() as int) =~= k);
    assert forall|j: int| 0 <= j < r.take(k.len() as int).len() implies crate::config::parser::es_caracter_de_clave(
        #[trigger] r.take(k.len() as int)[j],
    ) by {
        assert(r.take(k.len() as int)[j] == k[j]);
    }
    assert(r[0] == k[0]);
}

/// Una marca que escribe la aplicación se lee como esa marca.
pub(crate) proof fn lema_marca_nueva(m: Seq<char>, t: Seq<char>)
    requires
        m.len() > 0,
        !es_blanco(m[0]),
        m[0] != '#',
        !es_blanco(m.last()),
    ensures
        tras_marca(linea_de("    # "@ + m + " "@ + t), m) is Some,
{
    reveal_strlit("    # ");
    reveal_strlit(" ");
    let s = "    # "@ + m + " "@ + t;
    let cola = seq![' '] + t;
    let a = seq!['#', ' '] + m;
    assert(s =~= seq![' ', ' ', ' ', ' '] + (a + cola));
    lema_inicio_blancos(seq![' ', ' ', ' ', ' '], a + cola);
    assert(sin_blancos_al_inicio(a + cola) == a + cola);
    assert(a.last() == m.last());
    lema_final_concat(a, cola);
    let w = sin_blancos_al_final(cola);
    let r = a + w;
    assert(crate::texto::recortado(s) == r);
    assert(r[0] == '#');
    // Sin la almohadilla: un blanco, la marca y el resto.
    let sin_almohadilla = seq![' '] + m + w;
    assert(r.drop_first() =~= sin_almohadilla);
    assert(crate::texto::sin_iniciales(r, '#') == crate::texto::sin_iniciales(sin_almohadilla, '#'));
    assert(crate::texto::sin_iniciales(sin_almohadilla, '#') == sin_almohadilla);
    assert(sin_almohadilla =~= seq![' '] + (m + w));
    lema_inicio_blancos(seq![' '], m + w);
    assert((m + w)[0] == m[0]);
    assert(sin_blancos_al_inicio(m + w) == m + w);
    lema_final_concat(m, w);
    let texto = m + sin_blancos_al_final(w);
    assert(crate::texto::recortado(sin_almohadilla) == texto);
    assert(texto.subrange(0, m.len() as int) =~= m);
}

proof fn lema_ajenas_suma(a: Seq<LineaV>, b: Seq<LineaV>)
    ensures
        ajenas(a + b) == ajenas(a) + ajenas(b),
    decreases b.len(),
{
    if b.len() == 0 {
        assert(a + b =~= a);
        assert(ajenas(a) + seq![] =~= ajenas(a));
    } else {
        assert((a + b).drop_last() =~= a + b.drop_last());
        assert((a + b).last() == b.last());
        lema_ajenas_suma(a, b.drop_last());
        if ajena(b.last()) {
            assert(ajenas(a) + ajenas(b.drop_last()).push(b.last()) =~= (ajenas(a) + ajenas(
                b.drop_last(),
            )).push(b.last()));
        }
    }
}

proof fn lema_ajenas_uno(x: LineaV)
    ensures
        ajenas(seq![x]) == if ajena(x) {
            seq![x]
        } else {
            seq![]
        },
{
    assert(seq![x].drop_last() =~= Seq::<LineaV>::empty());
    assert(seq![x].last() == x);
    assert(ajenas(Seq::<LineaV>::empty()) == Seq::<LineaV>::empty());
    if ajena(x) {
        assert(ajenas(seq![x]) == ajenas(seq![x].drop_last()).push(x));
        assert(Seq::<LineaV>::empty().push(x) =~= seq![x]);
    }
}

proof fn lema_ajenas_delante(x: LineaV, r: Seq<LineaV>)
    ensures
        ajenas(seq![x] + r) == (if ajena(x) {
            seq![x]
        } else {
            seq![]
        }) + ajenas(r),
{
    lema_ajenas_suma(seq![x], r);
    lema_ajenas_uno(x);
}

proof fn lema_ajenas_sin_notas(c: Seq<LineaV>)
    ensures
        ajenas(sin_notas(c)) == ajenas(c),
    decreases c.len(),
{
    if c.len() > 0 {
        assert(c =~= seq![c[0]] + c.drop_first());
        lema_ajenas_delante(c[0], c.drop_first());
        lema_ajenas_sin_notas(c.drop_first());
        if tras_marca(c[0], "nota:"@) is None {
            lema_ajenas_delante(c[0], sin_notas(c.drop_first()));
        } else {
            assert(seq![] + ajenas(c.drop_first()) =~= ajenas(c.drop_first()));
        }
    }
}

proof fn lema_ajenas_con_nota(c: Seq<LineaV>, nota: Option<Seq<char>>)
    ensures
        ajenas(con_nota(c, nota)) == ajenas(c),
{
    match nota {
        Some(n) => if recortado(n).len() > 0 {
            let l = linea_de("    # nota: "@ + recortado(n));
            reveal_strlit("    # nota: ");
            reveal_strlit("    # ");
            reveal_strlit("nota:");
            reveal_strlit(" ");
            assert("    # nota: "@ + recortado(n) =~= "    # "@ + "nota:"@ + " "@ + recortado(n));
            lema_marca_nueva("nota:"@, recortado(n));
            lema_ajenas_delante(l, c);
            assert(seq![] + ajenas(c) =~= ajenas(c));
        },
        None => {},
    }
}

proof fn lema_ajenas_sin_directiva(ls: Seq<LineaV>, clave: Seq<char>)
    requires
        es_gestionada(minusculas(clave)),
    ensures
        ajenas(sin_directiva(ls, clave)) == ajenas(ls),
    decreases ls.len(),
{
    if ls.len() > 0 {
        assert(ls =~= seq![ls[0]] + ls.drop_first());
        lema_ajenas_delante(ls[0], ls.drop_first());
        lema_ajenas_sin_directiva(ls.drop_first(), clave);
        if es_directiva(ls[0], clave) {
            assert(!ajena(ls[0]));
            assert(seq![] + ajenas(ls.drop_first()) =~= ajenas(ls.drop_first()));
        } else {
            lema_ajenas_delante(ls[0], sin_directiva(ls.drop_first(), clave));
        }
    }
}

proof fn lema_ajenas_reemplazar(ls: Seq<LineaV>, clave: Seq<char>, nueva: LineaV, hallada: bool)
    requires
        es_gestionada(minusculas(clave)),
        !ajena(nueva),
    ensures
        ajenas(reemplazar_desde(ls, clave, nueva, hallada)) == ajenas(ls),
    decreases ls.len(),
{
    if ls.len() > 0 {
        assert(ls =~= seq![ls[0]] + ls.drop_first());
        lema_ajenas_delante(ls[0], ls.drop_first());
        if es_directiva(ls[0], clave) {
            assert(!ajena(ls[0]));
            lema_ajenas_reemplazar(ls.drop_first(), clave, nueva, true);
            if !hallada {
                lema_ajenas_delante(nueva, reemplazar_desde(ls.drop_first(), clave, nueva, true));
            }
            assert(seq![] + ajenas(ls.drop_first()) =~= ajenas(ls.drop_first()));
        } else {
            lema_ajenas_reemplazar(ls.drop_first(), clave, nueva, hallada);
            lema_ajenas_delante(ls[0], reemplazar_desde(ls.drop_first(), clave, nueva, hallada));
        }
    }
}

proof fn lema_ajenas_insertar(ls: Seq<LineaV>, i: int, x: LineaV)
    requires
        0 <= i <= ls.len(),
        !ajena(x),
    ensures
        ajenas(ls.insert(i, x)) == ajenas(ls),
{
    assert(ls.insert(i, x) =~= ls.take(i) + (seq![x] + ls.skip(i)));
    assert(ls =~= ls.take(i) + ls.skip(i));
    lema_ajenas_suma(ls.take(i), seq![x] + ls.skip(i));
    lema_ajenas_delante(x, ls.skip(i));
    lema_ajenas_suma(ls.take(i), ls.skip(i));
    assert(seq![] + ajenas(ls.skip(i)) =~= ajenas(ls.skip(i)));
}

proof fn lema_ajenas_con_unica(ls: Seq<LineaV>, clave: Seq<char>, valor: Option<Seq<char>>)
    requires
        clave_gestionada(clave),
    ensures
        ajenas(con_unica(ls, clave, valor)) == ajenas(ls),
{
    match valor_no_vacio(valor) {
        Some(v) => {
            let nueva = directiva_nueva(clave, v);
            lema_directiva_nueva(clave, v);
            assert(!ajena(nueva));
            match primera_pos_directiva(ls, clave) {
                Some(_) => lema_ajenas_reemplazar(ls, clave, nueva, false),
                None => {
                    lema_punto_de_insercion(ls);
                    lema_ajenas_insertar(ls, punto_de_insercion(ls), nueva);
                },
            }
        },
        None => lema_ajenas_sin_directiva(ls, clave),
    }
}

proof fn lema_ajenas_directivas_nuevas(clave: Seq<char>, vs: Seq<Seq<char>>)
    requires
        clave_gestionada(clave),
    ensures
        ajenas(directivas_nuevas(clave, vs)) == Seq::<LineaV>::empty(),
    decreases vs.len(),
{
    if vs.len() > 0 {
        let d = directivas_nuevas(clave, vs);
        assert(d.drop_last() =~= directivas_nuevas(clave, vs.drop_last()));
        lema_directiva_nueva(clave, vs.last());
        lema_ajenas_directivas_nuevas(clave, vs.drop_last());
    }
}

proof fn lema_ajenas_trozos(s: Seq<LineaV>, d: int, medio: Seq<LineaV>)
    requires
        0 <= d <= s.len(),
        ajenas(medio) == Seq::<LineaV>::empty(),
    ensures
        ajenas(s.take(d) + medio + s.skip(d)) == ajenas(s),
{
    lema_ajenas_suma(s.take(d) + medio, s.skip(d));
    lema_ajenas_suma(s.take(d), medio);
    lema_ajenas_suma(s.take(d), s.skip(d));
    assert(s =~= s.take(d) + s.skip(d));
    assert(ajenas(s.take(d)) + Seq::<LineaV>::empty() =~= ajenas(s.take(d)));
}

proof fn lema_ajenas_con_multiple(ls: Seq<LineaV>, clave: Seq<char>, vs: Seq<Seq<char>>)
    requires
        clave_gestionada(clave),
    ensures
        ajenas(con_multiple(ls, clave, vs)) == ajenas(ls),
{
    let s = sin_directiva(ls, clave);
    let destino = match primera_pos_directiva(ls, clave) {
        Some(p) => p,
        None => punto_de_insercion(ls),
    };
    lema_primera_pos_directiva(ls, clave);
    lema_punto_de_insercion(ls);
    let d = minimo(destino, s.len() as int);
    lema_ajenas_directivas_nuevas(clave, vs);
    lema_ajenas_trozos(s, d, directivas_nuevas(clave, vs));
    lema_ajenas_sin_directiva(ls, clave);
}

proof fn lema_ajenas_conservadas(ls: Seq<LineaV>, clave: Seq<char>, n: int)
    requires
        0 <= n <= ls.len(),
        es_gestionada(minusculas(clave)),
    ensures
        ajenas(conservadas_hasta(ls, clave, n)) == ajenas(ls.take(n)),
    decreases n,
{
    if n == 0 {
        assert(ls.take(0) =~= Seq::<LineaV>::empty());
    } else {
        lema_ajenas_conservadas(ls, clave, n - 1);
        let x = ls[n - 1];
        assert(ls.take(n) =~= ls.take(n - 1) + seq![x]);
        lema_ajenas_suma(ls.take(n - 1), seq![x]);
        lema_ajenas_uno(x);
        if a_borrar(ls, clave, n - 1) {
            assert(!ajena(x));
            assert(conservadas_hasta(ls, clave, n) =~= conservadas_hasta(ls, clave, n - 1));
            assert(ajenas(ls.take(n - 1)) + seq![] =~= ajenas(ls.take(n - 1)));
        } else {
            lema_ajenas_suma(conservadas_hasta(ls, clave, n - 1), seq![x]);
        }
    }
}

proof fn lema_ajenas_lineas_reenvios(clave: Seq<char>, rs: Seq<ReenvioV>)
    requires
        clave_gestionada(clave),
    ensures
        ajenas(lineas_reenvios(clave, rs)) == Seq::<LineaV>::empty(),
    decreases rs.len(),
{
    if rs.len() > 0 {
        lema_ajenas_lineas_reenvios(clave, rs.drop_last());
        let r = rs.last();
        reveal_strlit("nombre:");
        reveal_strlit("salud:");
        let p1: Seq<LineaV> = match r.nombre {
            Some(n) => seq![linea_de("    # "@ + "nombre:"@ + " "@ + n)],
            None => seq![],
        };
        let p2: Seq<LineaV> = if r.salud != SaludV::Escucha {
            seq![linea_de("    # "@ + "salud:"@ + " "@ + especificacion(r.salud))]
        } else {
            seq![]
        };
        let p3 = seq![directiva_nueva(clave, valor_directiva(r))];
        match r.nombre {
            Some(n) => {
                lema_marca_nueva("nombre:"@, n);
                lema_ajenas_uno(p1[0]);
                assert(p1 =~= seq![p1[0]]);
            },
            None => {
                assert(ajenas(p1) =~= Seq::<LineaV>::empty());
            },
        }
        if r.salud != SaludV::Escucha {
            lema_marca_nueva("salud:"@, especificacion(r.salud));
            lema_ajenas_uno(p2[0]);
            assert(p2 =~= seq![p2[0]]);
        } else {
            assert(ajenas(p2) =~= Seq::<LineaV>::empty());
        }
        lema_directiva_nueva(clave, valor_directiva(r));
        lema_ajenas_uno(p3[0]);
        assert(lineas_reenvio(clave, r) =~= p1 + p2 + p3);
        lema_ajenas_suma(p1 + p2, p3);
        lema_ajenas_suma(p1, p2);
        lema_ajenas_suma(lineas_reenvios(clave, rs.drop_last()), lineas_reenvio(clave, r));
        assert(Seq::<LineaV>::empty() + Seq::<LineaV>::empty() =~= Seq::<LineaV>::empty());
    }
}

proof fn lema_ajenas_con_reenvios(ls: Seq<LineaV>, clave: Seq<char>, rs: Seq<ReenvioV>)
    requires
        clave_gestionada(clave),
    ensures
        ajenas(con_reenvios(ls, clave, rs)) == ajenas(ls),
{
    let k = conservadas_hasta(ls, clave, ls.len() as int);
    let destino = match primera_pos_directiva(ls, clave) {
        Some(p) => p,
        None => punto_de_insercion(ls),
    };
    lema_primera_pos_directiva(ls, clave);
    lema_punto_de_insercion(ls);
    lema_conservadas_crecen(ls, clave, destino, ls.len() as int);
    let d = minimo(conservadas_hasta(ls, clave, destino).len() as int, k.len() as int);
    lema_ajenas_lineas_reenvios(clave, rs);
    lema_ajenas_trozos(k, d, lineas_reenvios(clave, rs));
    lema_ajenas_conservadas(ls, clave, ls.len() as int);
    assert(ls.take(ls.len() as int) =~= ls);
}

/// Al sincronizar un bloque con un host, todo lo que la aplicación no
/// gestiona —comentarios, líneas en blanco, directivas que no entiende— sigue
/// ahí y en el mismo orden: solo cambian las directivas gestionadas, las
/// marcas de salud y nombre, y la nota.
pub proof fn ley_se_conserva_lo_ajeno(c: Seq<LineaV>, h: HostV)
    ensures
        ajenas(cuerpo_sincronizado(c, h)) == ajenas(c),
{
    lema_claves_gestionadas();
    let c0 = sin_notas(c);
    lema_ajenas_sin_notas(c);
    let c1 = con_nota(c0, h.nota);
    lema_ajenas_con_nota(c0, h.nota);
    let c2 = con_unica(c1, "HostName"@, h.hostname);
    lema_ajenas_con_unica(c1, "HostName"@, h.hostname);
    let c3 = con_unica(c2, "User"@, h.usuario);
    lema_ajenas_con_unica(c2, "User"@, h.usuario);
    let c4 = con_unica(c3, "Port"@, texto_puerto(h.puerto));
    lema_ajenas_con_unica(c3, "Port"@, texto_puerto(h.puerto));
    let c5 = con_unica(c4, "ProxyJump"@, texto_saltos(h.saltos));
    lema_ajenas_con_unica(c4, "ProxyJump"@, texto_saltos(h.saltos));
    let c6 = con_multiple(c5, "IdentityFile"@, h.identidades);
    lema_ajenas_con_multiple(c5, "IdentityFile"@, h.identidades);
    let c7 = con_reenvios(c6, "LocalForward"@, del_tipo(h.reenvios, TipoReenvio::Local));
    lema_ajenas_con_reenvios(c6, "LocalForward"@, del_tipo(h.reenvios, TipoReenvio::Local));
    let c8 = con_reenvios(c7, "RemoteForward"@, del_tipo(h.reenvios, TipoReenvio::Remoto));
    lema_ajenas_con_reenvios(c7, "RemoteForward"@, del_tipo(h.reenvios, TipoReenvio::Remoto));
    let c9 = con_reenvios(c8, "DynamicForward"@, del_tipo(h.reenvios, TipoReenvio::Dinamico));
    lema_ajenas_con_reenvios(c8, "DynamicForward"@, del_tipo(h.reenvios, TipoReenvio::Dinamico));
    let c10 = con_unica(c9, "ExitOnForwardFailure"@, Some("yes"@));
    lema_ajenas_con_unica(c9, "ExitOnForwardFailure"@, Some("yes"@));
    let c11 = con_unica(c10, "ServerAliveInterval"@, Some("15"@));
    lema_ajenas_con_unica(c10, "ServerAliveInterval"@, Some("15"@));
    let c12 = con_unica(c11, "ServerAliveCountMax"@, Some("3"@));
    lema_ajenas_con_unica(c11, "ServerAliveCountMax"@, Some("3"@));
    lema_ajenas_con_unica(c12, "TCPKeepAlive"@, Some("yes"@));
}

/// Sincronizar un host que ya estaba deja intacto el resto del documento: el
/// preámbulo, los demás bloques, y del suyo los comentarios de encima, el
/// encabezado y todo lo que no es de la aplicación.
pub proof fn ley_sincronizar_no_toca_lo_demas(d: DocumentoV, h: HostV, i: int)
    requires
        posicion_de(d.bloques, h.alias) == Some(i),
    ensures
        documento_sincronizado(d, h).preambulo == d.preambulo,
        documento_sincronizado(d, h).bloques.len() == d.bloques.len(),
        forall|j: int|
            0 <= j < d.bloques.len() && j != i ==> #[trigger] documento_sincronizado(d, h).bloques[j]
                == d.bloques[j],
        documento_sincronizado(d, h).bloques[i].comentarios == d.bloques[i].comentarios,
        documento_sincronizado(d, h).bloques[i].encabezado == d.bloques[i].encabezado,
        documento_sincronizado(d, h).bloques[i].linea_encabezado == d.bloques[i].linea_encabezado,
        ajenas(documento_sincronizado(d, h).bloques[i].cuerpo) == ajenas(d.bloques[i].cuerpo),
{
    lema_posicion_de(d.bloques, h.alias);
    ley_se_conserva_lo_ajeno(d.bloques[i].cuerpo, h);
}

} // verus!
