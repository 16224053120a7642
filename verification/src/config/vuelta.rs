//! Lo que se escribe se lee igual.
//!
//! Leyes que unen la escritura de un bloque con su lectura: tras sincronizar
//! un bloque con un host, leer el bloque devuelve ese host. Se razona sobre
//! las líneas que cada campo mira: cada paso de la escritura solo toca las
//! líneas de su directiva y deja igual lo que ven los demás campos.

use vstd::prelude::*;

use crate::config::parser::{
    clave_normalizada, es_directiva, linea_de, tras_marca, texto_comentario, valor_de, LineaV,
    ClaseV,
};
use crate::config::writer::{
    a_borrar, con_multiple, con_nota, con_reenvios, con_unica, conservadas_hasta, directiva_nueva,
    directivas_nuevas, es_marca, lineas_reenvio, lineas_reenvios, minimo, punto_de_insercion,
    primera_pos_directiva, reemplazar_desde, sin_directiva, sin_notas, valor_no_vacio,
    lema_directiva_nueva, lema_marca_nueva, lema_punto_de_insercion, lema_primera_pos_directiva,
    lema_inicio_blancos, lema_final_concat, lema_claves_gestionadas, cuerpo_sincronizado,
    texto_puerto, texto_saltos, del_tipo,
};
use crate::config::parser::{
    directiva_de, fin_de_clave, sin_comillas, primera_directiva, valores_de, valor_unico,
    primera_marca, lema_primera_marca_suma, alias_de, host_de, nota_de, saltos_de, BloqueV,
};
use crate::modelo::{HostV, OrigenV, ReenvioV, TipoReenvio};
use crate::config::grupos::{lema_reenvios_se_leen, limpio, reenvio_escribible};
use crate::texto::{
    es_alfanumerico_ascii, es_blanco, minusculas, recortado, sin_blancos_al_final,
    sin_blancos_al_inicio, lema_recortado_fijo_ultimo, lema_recortado_sin_bordes, decimal,
    lema_u16_decimal, lema_trozos_unidos, trozos, unidos, valor_u16, es_digito,
};

verus! {

/// Las líneas que son la directiva `k` (ya en minúsculas).
pub open spec fn de_clave(k: Seq<char>) -> spec_fn(LineaV) -> bool {
    |l: LineaV| clave_normalizada(l) == Some(k)
}

/// Clave que la aplicación escribe: letras y cifras ASCII.
pub open spec fn clave_escrita(k: Seq<char>) -> bool {
    k.len() > 0 && forall|j: int| 0 <= j < k.len() ==> es_alfanumerico_ascii(#[trigger] k[j])
}

// --- Filtrar conmuta con cada paso ---------------------------------------------------

pub(crate) proof fn lema_filtro_delante(x: LineaV, r: Seq<LineaV>, p: spec_fn(LineaV) -> bool)
    ensures
        (seq![x] + r).filter(p) == (if p(x) {
            seq![x]
        } else {
            Seq::<LineaV>::empty()
        }) + r.filter(p),
{
    r.lemma_filter_prepend(x, p);
}

proof fn lema_filtro_sin_directiva(ls: Seq<LineaV>, k: Seq<char>, p: spec_fn(LineaV) -> bool)
    requires
        forall|l: LineaV| #[trigger] p(l) ==> !es_directiva(l, k),
    ensures
        sin_directiva(ls, k).filter(p) == ls.filter(p),
    decreases ls.len(),
{
    if ls.len() > 0 {
        let x = ls[0];
        let r = ls.drop_first();
        lema_filtro_sin_directiva(r, k, p);
        assert(ls =~= seq![x] + r);
        lema_filtro_delante(x, r, p);
        if es_directiva(x, k) {
            assert(!p(x));
            assert(Seq::<LineaV>::empty() + r.filter(p) =~= r.filter(p));
        } else {
            lema_filtro_delante(x, sin_directiva(r, k), p);
        }
    }
}

proof fn lema_filtro_reemplazar(
    ls: Seq<LineaV>,
    k: Seq<char>,
    nueva: LineaV,
    hallada: bool,
    p: spec_fn(LineaV) -> bool,
)
    requires
        forall|l: LineaV| #[trigger] p(l) ==> !es_directiva(l, k),
        !p(nueva),
    ensures
        reemplazar_desde(ls, k, nueva, hallada).filter(p) == ls.filter(p),
    decreases ls.len(),
{
    if ls.len() > 0 {
        let x = ls[0];
        let r = ls.drop_first();
        assert(ls =~= seq![x] + r);
        lema_filtro_delante(x, r, p);
        if es_directiva(x, k) {
            lema_filtro_reemplazar(r, k, nueva, true, p);
            assert(Seq::<LineaV>::empty() + r.filter(p) =~= r.filter(p));
            if !hallada {
                lema_filtro_delante(nueva, reemplazar_desde(r, k, nueva, true), p);
            }
        } else {
            lema_filtro_reemplazar(r, k, nueva, hallada, p);
            lema_filtro_delante(x, reemplazar_desde(r, k, nueva, hallada), p);
        }
    }
}

proof fn lema_filtro_trozos(s: Seq<LineaV>, d: int, medio: Seq<LineaV>, p: spec_fn(LineaV) -> bool)
    requires
        0 <= d <= s.len(),
    ensures
        (s.take(d) + medio + s.skip(d)).filter(p) == s.take(d).filter(p) + medio.filter(p)
            + s.skip(d).filter(p),
        s.filter(p) == s.take(d).filter(p) + s.skip(d).filter(p),
{
    Seq::filter_distributes_over_add(s.take(d) + medio, s.skip(d), p);
    Seq::filter_distributes_over_add(s.take(d), medio, p);
    assert(s =~= s.take(d) + s.skip(d));
    Seq::filter_distributes_over_add(s.take(d), s.skip(d), p);
}

proof fn lema_filtro_insertar(ls: Seq<LineaV>, i: int, x: LineaV, p: spec_fn(LineaV) -> bool)
    requires
        0 <= i <= ls.len(),
    ensures
        ls.insert(i, x).filter(p) == ls.take(i).filter(p) + seq![x].filter(p) + ls.skip(i).filter(p),
        ls.filter(p) == ls.take(i).filter(p) + ls.skip(i).filter(p),
{
    assert(ls.insert(i, x) =~= ls.take(i) + seq![x] + ls.skip(i));
    lema_filtro_trozos(ls, i, seq![x], p);
}

proof fn lema_filtro_uno(x: LineaV, p: spec_fn(LineaV) -> bool)
    ensures
        seq![x].filter(p) == if p(x) {
            seq![x]
        } else {
            Seq::<LineaV>::empty()
        },
{
    lema_filtro_delante(x, Seq::<LineaV>::empty(), p);
    assert(Seq::<LineaV>::empty().filter(p) == Seq::<LineaV>::empty()) by {
        reveal(Seq::filter);
    }
    assert(seq![x] + Seq::<LineaV>::empty() =~= seq![x]);
    assert(Seq::<LineaV>::empty() + Seq::<LineaV>::empty() =~= Seq::<LineaV>::empty());
}

/// Fijar una directiva de un valor no cambia lo que ve un filtro ajeno a ella.
pub proof fn lema_filtro_con_unica(
    ls: Seq<LineaV>,
    k: Seq<char>,
    v: Option<Seq<char>>,
    p: spec_fn(LineaV) -> bool,
)
    requires
        clave_escrita(k),
        forall|l: LineaV| #[trigger] p(l) ==> !es_directiva(l, k),
    ensures
        con_unica(ls, k, v).filter(p) == ls.filter(p),
{
    match valor_no_vacio(v) {
        Some(x) => {
            let nueva = directiva_nueva(k, x);
            lema_directiva_nueva(k, x);
            assert(es_directiva(nueva, k));
            match primera_pos_directiva(ls, k) {
                Some(_) => {
                    lema_filtro_reemplazar(ls, k, nueva, false, p);
                },
                None => {
                    lema_punto_de_insercion(ls);
                    let i = punto_de_insercion(ls);
                    lema_filtro_insertar(ls, i, nueva, p);
                    lema_filtro_uno(nueva, p);
                    assert(ls.take(i).filter(p) + Seq::<LineaV>::empty() =~= ls.take(i).filter(p));
                },
            }
        },
        None => {
            lema_filtro_sin_directiva(ls, k, p);
        },
    }
}


proof fn lema_filtro_nuevas(k: Seq<char>, vs: Seq<Seq<char>>, p: spec_fn(LineaV) -> bool)
    requires
        clave_escrita(k),
        forall|l: LineaV| #[trigger] p(l) ==> !es_directiva(l, k),
    ensures
        directivas_nuevas(k, vs).filter(p) == Seq::<LineaV>::empty(),
    decreases vs.len(),
{
    reveal(Seq::filter);
    if vs.len() > 0 {
        lema_filtro_nuevas(k, vs.drop_last(), p);
        assert(directivas_nuevas(k, vs).drop_last() =~= directivas_nuevas(k, vs.drop_last()));
        lema_directiva_nueva(k, vs.last());
        assert(directivas_nuevas(k, vs).last() == directiva_nueva(k, vs.last()));
    }
}

/// Reescribir una directiva de varios valores no cambia lo que ve un filtro
/// ajeno a ella.
pub proof fn lema_filtro_con_multiple(
    ls: Seq<LineaV>,
    k: Seq<char>,
    vs: Seq<Seq<char>>,
    p: spec_fn(LineaV) -> bool,
)
    requires
        clave_escrita(k),
        forall|l: LineaV| #[trigger] p(l) ==> !es_directiva(l, k),
    ensures
        con_multiple(ls, k, vs).filter(p) == ls.filter(p),
{
    let destino = match primera_pos_directiva(ls, k) {
        Some(q) => q,
        None => punto_de_insercion(ls),
    };
    lema_primera_pos_directiva(ls, k);
    lema_punto_de_insercion(ls);
    let s = sin_directiva(ls, k);
    let d = minimo(destino, s.len() as int);
    lema_filtro_trozos(s, d, directivas_nuevas(k, vs), p);
    lema_filtro_nuevas(k, vs, p);
    lema_filtro_sin_directiva(ls, k, p);
    assert(s.take(d).filter(p) + Seq::<LineaV>::empty() =~= s.take(d).filter(p));
}

/// Lo que queda tras borrar una directiva con sus marcas, visto por un filtro
/// que no mira ni la directiva ni las marcas.
proof fn lema_filtro_conservadas(
    ls: Seq<LineaV>,
    k: Seq<char>,
    n: int,
    p: spec_fn(LineaV) -> bool,
)
    requires
        0 <= n <= ls.len(),
        forall|l: LineaV| #[trigger] p(l) ==> !es_directiva(l, k) && !es_marca(l),
    ensures
        conservadas_hasta(ls, k, n).filter(p) == ls.take(n).filter(p),
    decreases n,
{
    if n == 0 {
        assert(ls.take(0) =~= Seq::<LineaV>::empty());
    } else {
        lema_filtro_conservadas(ls, k, n - 1, p);
        let x = ls[n - 1];
        assert(ls.take(n) =~= ls.take(n - 1).push(x));
        ls.take(n - 1).lemma_filter_push(x, p);
        let previas = conservadas_hasta(ls, k, n - 1);
        Seq::filter_distributes_over_add(
            previas,
            if a_borrar(ls, k, n - 1) {
                Seq::<LineaV>::empty()
            } else {
                seq![x]
            },
            p,
        );
        lema_filtro_uno(x, p);
        reveal(Seq::filter);
        if a_borrar(ls, k, n - 1) {
            assert(es_directiva(x, k) || es_marca(x));
            assert(previas.filter(p) + Seq::<LineaV>::empty() =~= previas.filter(p));
        } else if p(x) {
            assert(previas.filter(p) + seq![x] =~= previas.filter(p).push(x));
        } else {
            assert(previas.filter(p) + Seq::<LineaV>::empty() =~= previas.filter(p));
        }
    }
}

/// Las líneas con que se escriben los reenvíos son marcas o la directiva.
pub(crate) proof fn lema_lineas_reenvio(k: Seq<char>, r: ReenvioV)
    requires
        clave_escrita(k),
    ensures
        forall|i: int|
            0 <= i < lineas_reenvio(k, r).len() ==> es_marca(#[trigger] lineas_reenvio(k, r)[i])
                || es_directiva(lineas_reenvio(k, r)[i], k),
{
    reveal_strlit("nombre:");
    reveal_strlit("salud:");
    match r.nombre {
        Some(n) => {
            lema_marca_nueva("nombre:"@, n);
        },
        None => {},
    }
    lema_marca_nueva("salud:"@, crate::modelo::especificacion(r.salud));
    lema_directiva_nueva(k, crate::modelo::valor_directiva(r));
}


pub(crate) proof fn lema_filtro_vacio(s: Seq<LineaV>, p: spec_fn(LineaV) -> bool)
    requires
        forall|i: int| 0 <= i < s.len() ==> !p(#[trigger] s[i]),
    ensures
        s.filter(p) == Seq::<LineaV>::empty(),
    decreases s.len(),
{
    reveal(Seq::filter);
    if s.len() > 0 {
        assert forall|i: int| 0 <= i < s.drop_last().len() implies !p(#[trigger] s.drop_last()[i]) by {
            assert(s.drop_last()[i] == s[i]);
        }
        lema_filtro_vacio(s.drop_last(), p);
        assert(!p(s[s.len() - 1]));
    }
}

proof fn lema_filtro_lineas_reenvios(k: Seq<char>, rs: Seq<ReenvioV>, p: spec_fn(LineaV) -> bool)
    requires
        clave_escrita(k),
        forall|l: LineaV| #[trigger] p(l) ==> !es_directiva(l, k) && !es_marca(l),
    ensures
        lineas_reenvios(k, rs).filter(p) == Seq::<LineaV>::empty(),
    decreases rs.len(),
{
    if rs.len() > 0 {
        lema_filtro_lineas_reenvios(k, rs.drop_last(), p);
        let u = lineas_reenvio(k, rs.last());
        lema_lineas_reenvio(k, rs.last());
        Seq::filter_distributes_over_add(lineas_reenvios(k, rs.drop_last()), u, p);
        lema_filtro_vacio(u, p);
        assert(Seq::<LineaV>::empty() + Seq::<LineaV>::empty() =~= Seq::<LineaV>::empty());
    }
}


/// Reescribir los reenvíos de una directiva no cambia lo que ve un filtro que
/// no mira ni esa directiva ni las marcas.
pub proof fn lema_filtro_con_reenvios(
    ls: Seq<LineaV>,
    k: Seq<char>,
    rs: Seq<ReenvioV>,
    p: spec_fn(LineaV) -> bool,
)
    requires
        clave_escrita(k),
        forall|l: LineaV| #[trigger] p(l) ==> !es_directiva(l, k) && !es_marca(l),
    ensures
        con_reenvios(ls, k, rs).filter(p) == ls.filter(p),
{
    let destino = match primera_pos_directiva(ls, k) {
        Some(q) => q,
        None => punto_de_insercion(ls),
    };
    let kk = conservadas_hasta(ls, k, ls.len() as int);
    let d = minimo(conservadas_hasta(ls, k, destino).len() as int, kk.len() as int);
    lema_filtro_trozos(kk, d, lineas_reenvios(k, rs), p);
    lema_filtro_lineas_reenvios(k, rs, p);
    lema_filtro_conservadas(ls, k, ls.len() as int, p);
    assert(ls.take(ls.len() as int) =~= ls);
    assert(kk.take(d).filter(p) + Seq::<LineaV>::empty() =~= kk.take(d).filter(p));
}

/// Una nota de la aplicación.
pub open spec fn es_nota(l: LineaV) -> bool {
    tras_marca(l, "nota:"@) is Some
}

pub proof fn lema_filtro_sin_notas(ls: Seq<LineaV>, p: spec_fn(LineaV) -> bool)
    requires
        forall|l: LineaV| #[trigger] p(l) ==> !es_nota(l),
    ensures
        sin_notas(ls).filter(p) == ls.filter(p),
    decreases ls.len(),
{
    if ls.len() > 0 {
        let x = ls[0];
        let r = ls.drop_first();
        lema_filtro_sin_notas(r, p);
        assert(ls =~= seq![x] + r);
        lema_filtro_delante(x, r, p);
        if es_nota(x) {
            assert(Seq::<LineaV>::empty() + r.filter(p) =~= r.filter(p));
        } else {
            lema_filtro_delante(x, sin_notas(r), p);
        }
    }
}

/// La línea de nota que escribe la aplicación.
pub open spec fn linea_nota(n: Seq<char>) -> LineaV {
    linea_de("    # nota: "@ + recortado(n))
}

pub proof fn lema_linea_nota(n: Seq<char>)
    ensures
        linea_nota(n) == linea_de("    # "@ + "nota:"@ + " "@ + recortado(n)),
        tras_marca(linea_nota(n), "nota:"@) is Some,
        linea_nota(n).clase is Comentario,
{
    reveal_strlit("    # nota: ");
    reveal_strlit("    # ");
    reveal_strlit("nota:");
    reveal_strlit(" ");
    assert("    # nota: "@ + recortado(n) =~= "    # "@ + "nota:"@ + " "@ + recortado(n));
    lema_marca_nueva("nota:"@, recortado(n));
}


// --- Lo que se lee de una directiva escrita ---------------------------------------------

/// Valor que se lee igual que se escribe: sin blancos en los bordes, sin `=`
/// delante (se tomaría por el separador) y sin comillas que lo envuelvan (se
/// quitarían al leer).
pub open spec fn valor_limpio(v: Seq<char>) -> bool {
    &&& recortado(v) == v
    &&& (v.len() > 0 ==> v[0] != '=')
    &&& !(v.len() >= 2 && v[0] == '"' && v.last() == '"')
}

/// Una directiva escrita con un valor limpio se lee con ese valor.
pub proof fn lema_valor_directiva_nueva(k: Seq<char>, v: Seq<char>)
    requires
        clave_escrita(k),
        valor_limpio(v),
    ensures
        valor_de(directiva_nueva(k, v)) == Some(v),
        clave_normalizada(directiva_nueva(k, v)) == Some(minusculas(k)),
        es_directiva(directiva_nueva(k, v), k),
{
    reveal_strlit("    ");
    reveal_strlit(" ");
    lema_directiva_nueva(k, v);
    let s = "    "@ + k + " "@ + v;
    let cola = seq![' '] + v;
    assert(s =~= "    "@ + (k + cola));
    lema_inicio_blancos("    "@, k + cola);
    assert(es_alfanumerico_ascii(k[0]));
    assert((k + cola)[0] == k[0]);
    assert(sin_blancos_al_inicio(k + cola) == k + cola);
    assert(es_alfanumerico_ascii(k[k.len() - 1]));
    lema_final_concat(k, cola);
    let w = sin_blancos_al_final(cola);
    if v.len() > 0 {
        lema_recortado_fijo_ultimo(v);
        assert(cola.last() == v.last());
        assert(w == cola);
    } else {
        assert(cola =~= seq![' ']);
        assert(cola.drop_last() =~= Seq::<char>::empty());
        assert(es_blanco(cola.last()));
        assert(sin_blancos_al_final(Seq::<char>::empty()) == Seq::<char>::empty());
        assert(w == sin_blancos_al_final(cola.drop_last()));
        assert(w =~= Seq::<char>::empty());
    }
    let r = k + w;
    assert(recortado(s) == r);
    assert(r[0] == k[0]);
    assert forall|j: int| 0 <= j < k.len() implies !crate::texto::es_blanco_ascii(#[trigger] r[j])
        && r[j] != '=' by {
        assert(r[j] == k[j]);
        assert(es_alfanumerico_ascii(k[j]));
    }
    if w.len() > 0 {
        assert(r[k.len() as int] == ' ');
    }
    crate::config::parser::lema_fin_de_clave_en(r, k.len() as int);
    assert(r.take(k.len() as int) =~= k);
    assert(r.skip(k.len() as int) =~= w);
    if v.len() > 0 {
        assert(w.drop_first() =~= v);
        lema_recortado_fijo_ultimo(v);
        assert(sin_blancos_al_inicio(v) == v);
        assert(sin_blancos_al_inicio(w) == v);
    } else {
        assert(sin_blancos_al_inicio(w) =~= Seq::<char>::empty());
        assert(v =~= Seq::<char>::empty());
    }
    assert(sin_comillas(v) == v);
    assert forall|j: int| 0 <= j < r.take(k.len() as int).len() implies crate::config::parser::es_caracter_de_clave(
        #[trigger] r.take(k.len() as int)[j],
    ) by {
        assert(r.take(k.len() as int)[j] == k[j]);
    }
    assert(directiva_de(r) == Some((k, v)));
}

// --- Lo que ve cada campo es la secuencia de sus directivas ---------------------------

pub proof fn lema_primera_directiva_filtro(ls: Seq<LineaV>, k: Seq<char>)
    ensures
        primera_directiva(ls, k) == primera_directiva(ls.filter(de_clave(minusculas(k))), k),
    decreases ls.len(),
{
    let p = de_clave(minusculas(k));
    if ls.len() == 0 {
        reveal(Seq::filter);
    } else {
        let x = ls[0];
        let r = ls.drop_first();
        lema_primera_directiva_filtro(r, k);
        assert(ls =~= seq![x] + r);
        lema_filtro_delante(x, r, p);
        if p(x) {
            assert((seq![x] + r.filter(p))[0] == x);
        } else {
            assert(Seq::<LineaV>::empty() + r.filter(p) =~= r.filter(p));
        }
    }
}

pub proof fn lema_valores_filtro(ls: Seq<LineaV>, k: Seq<char>)
    ensures
        valores_de(ls, k) == valores_de(ls.filter(de_clave(minusculas(k))), k),
    decreases ls.len(),
{
    let p = de_clave(minusculas(k));
    reveal(Seq::filter);
    if ls.len() > 0 {
        lema_valores_filtro(ls.drop_last(), k);
        let f = ls.drop_last().filter(p);
        if p(ls.last()) {
            assert(ls.filter(p) == f.push(ls.last()));
            assert(f.push(ls.last()).drop_last() =~= f);
        }
    }
}

/// Las directivas escritas con valores limpios se leen con esos valores.
pub proof fn lema_valores_nuevas(k: Seq<char>, vs: Seq<Seq<char>>)
    requires
        clave_escrita(k),
        forall|i: int| 0 <= i < vs.len() ==> valor_limpio(#[trigger] vs[i]),
    ensures
        valores_de(directivas_nuevas(k, vs), k) == vs,
        directivas_nuevas(k, vs).filter(de_clave(minusculas(k))) == directivas_nuevas(k, vs),
    decreases vs.len(),
{
    reveal(Seq::filter);
    let ds = directivas_nuevas(k, vs);
    if vs.len() > 0 {
        lema_valores_nuevas(k, vs.drop_last());
        assert(ds.drop_last() =~= directivas_nuevas(k, vs.drop_last()));
        assert(valor_limpio(vs[vs.len() - 1]));
        lema_valor_directiva_nueva(k, vs.last());
        assert(ds.last() == directiva_nueva(k, vs.last()));
        assert(vs.drop_last().push(vs.last()) =~= vs);
        assert(ds.drop_last().push(ds.last()) =~= ds);
    } else {
        assert(ds =~= Seq::<LineaV>::empty());
        assert(vs =~= Seq::<Seq<char>>::empty());
    }
}


// --- El paso propio de cada campo ------------------------------------------------------

proof fn lema_propia_sin_directiva(ls: Seq<LineaV>, k: Seq<char>)
    ensures
        sin_directiva(ls, k).filter(de_clave(minusculas(k))) == Seq::<LineaV>::empty(),
    decreases ls.len(),
{
    let p = de_clave(minusculas(k));
    if ls.len() == 0 {
        reveal(Seq::filter);
    } else {
        let x = ls[0];
        let r = ls.drop_first();
        lema_propia_sin_directiva(r, k);
        if !es_directiva(x, k) {
            lema_filtro_delante(x, sin_directiva(r, k), p);
            assert(Seq::<LineaV>::empty() + Seq::<LineaV>::empty() =~= Seq::<LineaV>::empty());
        }
    }
}

proof fn lema_propia_reemplazar(ls: Seq<LineaV>, k: Seq<char>, nueva: LineaV, hallada: bool)
    requires
        es_directiva(nueva, k),
    ensures
        reemplazar_desde(ls, k, nueva, hallada).filter(de_clave(minusculas(k))) == if !hallada
            && primera_pos_directiva(ls, k) is Some {
            seq![nueva]
        } else {
            Seq::<LineaV>::empty()
        },
    decreases ls.len(),
{
    let p = de_clave(minusculas(k));
    if ls.len() == 0 {
        reveal(Seq::filter);
    } else {
        let x = ls[0];
        let r = ls.drop_first();
        if es_directiva(x, k) {
            lema_propia_reemplazar(r, k, nueva, true);
            if !hallada {
                lema_filtro_delante(nueva, reemplazar_desde(r, k, nueva, true), p);
                assert(seq![nueva] + Seq::<LineaV>::empty() =~= seq![nueva]);
            }
        } else {
            lema_propia_reemplazar(r, k, nueva, hallada);
            lema_filtro_delante(x, reemplazar_desde(r, k, nueva, hallada), p);
            let resto = reemplazar_desde(r, k, nueva, hallada).filter(p);
            assert(Seq::<LineaV>::empty() + resto =~= resto);
        }
    }
}

/// Tras fijar una directiva de un valor, sus apariciones son justo la escrita.
pub proof fn lema_propia_con_unica(ls: Seq<LineaV>, k: Seq<char>, v: Option<Seq<char>>)
    requires
        clave_escrita(k),
    ensures
        con_unica(ls, k, v).filter(de_clave(minusculas(k))) == match valor_no_vacio(v) {
            Some(x) => seq![directiva_nueva(k, x)],
            None => Seq::<LineaV>::empty(),
        },
{
    let p = de_clave(minusculas(k));
    match valor_no_vacio(v) {
        Some(x) => {
            let nueva = directiva_nueva(k, x);
            lema_directiva_nueva(k, x);
            match primera_pos_directiva(ls, k) {
                Some(_) => {
                    lema_propia_reemplazar(ls, k, nueva, false);
                },
                None => {
                    lema_primera_pos_directiva(ls, k);
                    lema_punto_de_insercion(ls);
                    let i = punto_de_insercion(ls);
                    lema_filtro_insertar(ls, i, nueva, p);
                    lema_filtro_uno(nueva, p);
                    assert forall|j: int| 0 <= j < ls.take(i).len() implies !p(#[trigger] ls.take(i)[j]) by {
                        assert(ls.take(i)[j] == ls[j]);
                    }
                    assert forall|j: int| 0 <= j < ls.skip(i).len() implies !p(#[trigger] ls.skip(i)[j]) by {
                        assert(ls.skip(i)[j] == ls[j + i]);
                    }
                    lema_filtro_vacio(ls.take(i), p);
                    lema_filtro_vacio(ls.skip(i), p);
                    assert(Seq::<LineaV>::empty() + seq![nueva] + Seq::<LineaV>::empty() =~= seq![nueva]);
                },
            }
        },
        None => {
            lema_propia_sin_directiva(ls, k);
        },
    }
}

/// Tras reescribir una directiva de varios valores, sus apariciones son justo
/// las escritas.

/// Las directivas escritas son todas de su clave.
pub proof fn lema_nuevas_filtro(k: Seq<char>, vs: Seq<Seq<char>>)
    requires
        clave_escrita(k),
    ensures
        directivas_nuevas(k, vs).filter(de_clave(minusculas(k))) == directivas_nuevas(k, vs),
    decreases vs.len(),
{
    reveal(Seq::filter);
    let ds = directivas_nuevas(k, vs);
    if vs.len() > 0 {
        lema_nuevas_filtro(k, vs.drop_last());
        assert(ds.drop_last() =~= directivas_nuevas(k, vs.drop_last()));
        lema_directiva_nueva(k, vs.last());
        assert(ds.last() == directiva_nueva(k, vs.last()));
        assert(ds.drop_last().push(ds.last()) =~= ds);
    } else {
        assert(ds =~= Seq::<LineaV>::empty());
    }
}

pub proof fn lema_propia_con_multiple(ls: Seq<LineaV>, k: Seq<char>, vs: Seq<Seq<char>>)
    requires
        clave_escrita(k),
    ensures
        con_multiple(ls, k, vs).filter(de_clave(minusculas(k))) == directivas_nuevas(k, vs),
{
    let p = de_clave(minusculas(k));
    let destino = match primera_pos_directiva(ls, k) {
        Some(q) => q,
        None => punto_de_insercion(ls),
    };
    lema_primera_pos_directiva(ls, k);
    lema_punto_de_insercion(ls);
    let s = sin_directiva(ls, k);
    let d = minimo(destino, s.len() as int);
    lema_filtro_trozos(s, d, directivas_nuevas(k, vs), p);
    lema_propia_sin_directiva(ls, k);
    lema_nuevas_filtro(k, vs);
    let a = s.take(d).filter(p);
    let b = s.skip(d).filter(p);
    assert(a + b == Seq::<LineaV>::empty());
    assert(a.len() == 0 && b.len() == 0);
    assert(a =~= Seq::<LineaV>::empty());
    assert(b =~= Seq::<LineaV>::empty());
    assert(Seq::<LineaV>::empty() + directivas_nuevas(k, vs) + Seq::<LineaV>::empty()
        =~= directivas_nuevas(k, vs));
}


// --- Las etapas de la sincronización ---------------------------------------------------

pub open spec fn etapa_nota(c: Seq<LineaV>, h: HostV) -> Seq<LineaV> {
    con_nota(sin_notas(c), h.nota)
}

pub open spec fn etapa_hostname(c: Seq<LineaV>, h: HostV) -> Seq<LineaV> {
    con_unica(etapa_nota(c, h), "HostName"@, h.hostname)
}

pub open spec fn etapa_usuario(c: Seq<LineaV>, h: HostV) -> Seq<LineaV> {
    con_unica(etapa_hostname(c, h), "User"@, h.usuario)
}

pub open spec fn etapa_puerto(c: Seq<LineaV>, h: HostV) -> Seq<LineaV> {
    con_unica(etapa_usuario(c, h), "Port"@, texto_puerto(h.puerto))
}

pub open spec fn etapa_saltos(c: Seq<LineaV>, h: HostV) -> Seq<LineaV> {
    con_unica(etapa_puerto(c, h), "ProxyJump"@, texto_saltos(h.saltos))
}

pub open spec fn etapa_identidades(c: Seq<LineaV>, h: HostV) -> Seq<LineaV> {
    con_multiple(etapa_saltos(c, h), "IdentityFile"@, h.identidades)
}

pub open spec fn etapa_locales(c: Seq<LineaV>, h: HostV) -> Seq<LineaV> {
    con_reenvios(etapa_identidades(c, h), "LocalForward"@, del_tipo(h.reenvios, TipoReenvio::Local))
}

pub open spec fn etapa_remotos(c: Seq<LineaV>, h: HostV) -> Seq<LineaV> {
    con_reenvios(etapa_locales(c, h), "RemoteForward"@, del_tipo(h.reenvios, TipoReenvio::Remoto))
}

pub open spec fn etapa_dinamicos(c: Seq<LineaV>, h: HostV) -> Seq<LineaV> {
    con_reenvios(etapa_remotos(c, h), "DynamicForward"@, del_tipo(h.reenvios, TipoReenvio::Dinamico))
}

pub(crate) proof fn lema_etapas(c: Seq<LineaV>, h: HostV)
    ensures
        cuerpo_sincronizado(c, h) == con_unica(
            con_unica(
                con_unica(
                    con_unica(etapa_dinamicos(c, h), "ExitOnForwardFailure"@, Some("yes"@)),
                    "ServerAliveInterval"@,
                    Some("15"@),
                ),
                "ServerAliveCountMax"@,
                Some("3"@),
            ),
            "TCPKeepAlive"@,
            Some("yes"@),
        ),
{
}

/// Un filtro de directivas de otra clave no ve las de `k`.
proof fn lema_otra_clave(k0: Seq<char>, k: Seq<char>)
    requires
        minusculas(k) != k0,
    ensures
        forall|l: LineaV| #[trigger] de_clave(k0)(l) ==> !es_directiva(l, k),
{
}

/// Un filtro de directivas no ve comentarios: ni marcas ni notas.
proof fn lema_sin_comentarios(k0: Seq<char>)
    ensures
        forall|l: LineaV| #[trigger] de_clave(k0)(l) ==> !es_marca(l) && !es_nota(l),
{
    assert forall|l: LineaV| #[trigger] de_clave(k0)(l) implies !es_marca(l) && !es_nota(l) by {
        assert(texto_comentario(l) is None);
    }
}

/// Tras las etapas de los campos de un valor, las de reenvíos y las fijas no
/// cambian lo que ve el filtro de una de esas claves.
pub(crate) proof fn lema_cola(c: Seq<LineaV>, h: HostV, k0: Seq<char>)
    requires
        k0 == "hostname"@ || k0 == "user"@ || k0 == "port"@ || k0 == "proxyjump"@ || k0
            == "identityfile"@,
    ensures
        cuerpo_sincronizado(c, h).filter(de_clave(k0)) == etapa_identidades(c, h).filter(
            de_clave(k0),
        ),
{
    let p = de_clave(k0);
    lema_claves_gestionadas();
    reveal_strlit("hostname");
    reveal_strlit("user");
    reveal_strlit("port");
    reveal_strlit("proxyjump");
    reveal_strlit("identityfile");
    reveal_strlit("localforward");
    reveal_strlit("remoteforward");
    reveal_strlit("dynamicforward");
    reveal_strlit("exitonforwardfailure");
    reveal_strlit("serveraliveinterval");
    reveal_strlit("serveralivecountmax");
    reveal_strlit("tcpkeepalive");
    lema_sin_comentarios(k0);
    assert(k0[0] == 'h' || k0[0] == 'u' || k0[0] == 'p' || k0[0] == 'i');
    assert("localforward"@[0] != k0[0]);
    assert("remoteforward"@[0] != k0[0]);
    assert("dynamicforward"@[0] != k0[0]);
    assert("exitonforwardfailure"@[0] != k0[0]);
    assert("serveraliveinterval"@[0] != k0[0]);
    assert("serveralivecountmax"@[0] != k0[0]);
    assert("tcpkeepalive"@[0] != k0[0]);
    lema_otra_clave(k0, "LocalForward"@);
    lema_otra_clave(k0, "RemoteForward"@);
    lema_otra_clave(k0, "DynamicForward"@);
    lema_otra_clave(k0, "ExitOnForwardFailure"@);
    lema_otra_clave(k0, "ServerAliveInterval"@);
    lema_otra_clave(k0, "ServerAliveCountMax"@);
    lema_otra_clave(k0, "TCPKeepAlive"@);
    lema_filtro_con_reenvios(etapa_identidades(c, h), "LocalForward"@, del_tipo(h.reenvios, TipoReenvio::Local), p);
    lema_filtro_con_reenvios(etapa_locales(c, h), "RemoteForward"@, del_tipo(h.reenvios, TipoReenvio::Remoto), p);
    lema_filtro_con_reenvios(etapa_remotos(c, h), "DynamicForward"@, del_tipo(h.reenvios, TipoReenvio::Dinamico), p);
    let e1 = con_unica(etapa_dinamicos(c, h), "ExitOnForwardFailure"@, Some("yes"@));
    let e2 = con_unica(e1, "ServerAliveInterval"@, Some("15"@));
    let e3 = con_unica(e2, "ServerAliveCountMax"@, Some("3"@));
    lema_filtro_con_unica(etapa_dinamicos(c, h), "ExitOnForwardFailure"@, Some("yes"@), p);
    lema_filtro_con_unica(e1, "ServerAliveInterval"@, Some("15"@), p);
    lema_filtro_con_unica(e2, "ServerAliveCountMax"@, Some("3"@), p);
    lema_filtro_con_unica(e3, "TCPKeepAlive"@, Some("yes"@), p);
    lema_etapas(c, h);
}


/// Lo que ven los filtros de los campos de un valor tras sus etapas.
pub(crate) proof fn lema_campos(c: Seq<LineaV>, h: HostV)
    ensures
        etapa_identidades(c, h).filter(de_clave("hostname"@)) == match valor_no_vacio(h.hostname) {
            Some(x) => seq![directiva_nueva("HostName"@, x)],
            None => Seq::<LineaV>::empty(),
        },
        etapa_identidades(c, h).filter(de_clave("user"@)) == match valor_no_vacio(h.usuario) {
            Some(x) => seq![directiva_nueva("User"@, x)],
            None => Seq::<LineaV>::empty(),
        },
        etapa_identidades(c, h).filter(de_clave("port"@)) == match valor_no_vacio(
            texto_puerto(h.puerto),
        ) {
            Some(x) => seq![directiva_nueva("Port"@, x)],
            None => Seq::<LineaV>::empty(),
        },
        etapa_identidades(c, h).filter(de_clave("proxyjump"@)) == match valor_no_vacio(
            texto_saltos(h.saltos),
        ) {
            Some(x) => seq![directiva_nueva("ProxyJump"@, x)],
            None => Seq::<LineaV>::empty(),
        },
        etapa_identidades(c, h).filter(de_clave("identityfile"@)) == directivas_nuevas(
            "IdentityFile"@,
            h.identidades,
        ),
{
    lema_claves_gestionadas();
    reveal_strlit("hostname");
    reveal_strlit("user");
    reveal_strlit("port");
    reveal_strlit("proxyjump");
    reveal_strlit("identityfile");
    let ph = de_clave("hostname"@);
    let pu = de_clave("user"@);
    let pp = de_clave("port"@);
    let pj = de_clave("proxyjump"@);
    assert("user"@[0] != "hostname"@[0]);
    assert("port"@[0] != "hostname"@[0]);
    assert("port"@[0] != "user"@[0]);
    assert("proxyjump"@[0] != "hostname"@[0]);
    assert("proxyjump"@[0] != "user"@[0]);
    assert("proxyjump"@.len() != "port"@.len());
    assert("identityfile"@[0] != "hostname"@[0]);
    assert("identityfile"@[0] != "user"@[0]);
    assert("identityfile"@[0] != "port"@[0]);
    assert("identityfile"@[0] != "proxyjump"@[0]);
    let e0 = etapa_nota(c, h);
    let e1 = etapa_hostname(c, h);
    let e2 = etapa_usuario(c, h);
    let e3 = etapa_puerto(c, h);
    let e4 = etapa_saltos(c, h);
    // HostName
    lema_propia_con_unica(e0, "HostName"@, h.hostname);
    lema_otra_clave("hostname"@, "User"@);
    lema_otra_clave("hostname"@, "Port"@);
    lema_otra_clave("hostname"@, "ProxyJump"@);
    lema_otra_clave("hostname"@, "IdentityFile"@);
    lema_filtro_con_unica(e1, "User"@, h.usuario, ph);
    lema_filtro_con_unica(e2, "Port"@, texto_puerto(h.puerto), ph);
    lema_filtro_con_unica(e3, "ProxyJump"@, texto_saltos(h.saltos), ph);
    lema_filtro_con_multiple(e4, "IdentityFile"@, h.identidades, ph);
    // User
    lema_propia_con_unica(e1, "User"@, h.usuario);
    lema_otra_clave("user"@, "Port"@);
    lema_otra_clave("user"@, "ProxyJump"@);
    lema_otra_clave("user"@, "IdentityFile"@);
    lema_filtro_con_unica(e2, "Port"@, texto_puerto(h.puerto), pu);
    lema_filtro_con_unica(e3, "ProxyJump"@, texto_saltos(h.saltos), pu);
    lema_filtro_con_multiple(e4, "IdentityFile"@, h.identidades, pu);
    // Port
    lema_propia_con_unica(e2, "Port"@, texto_puerto(h.puerto));
    lema_otra_clave("port"@, "ProxyJump"@);
    lema_otra_clave("port"@, "IdentityFile"@);
    lema_filtro_con_unica(e3, "ProxyJump"@, texto_saltos(h.saltos), pp);
    lema_filtro_con_multiple(e4, "IdentityFile"@, h.identidades, pp);
    // ProxyJump
    lema_propia_con_unica(e3, "ProxyJump"@, texto_saltos(h.saltos));
    lema_otra_clave("proxyjump"@, "IdentityFile"@);
    lema_filtro_con_multiple(e4, "IdentityFile"@, h.identidades, pj);
    // IdentityFile
    lema_propia_con_multiple(e4, "IdentityFile"@, h.identidades);
}


// --- Marcas y notas escritas ------------------------------------------------------------

/// Una marca escrita con un texto ya recortado se lee con ese texto.
pub proof fn lema_marca_valor(m: Seq<char>, t: Seq<char>)
    requires
        m.len() > 0,
        !es_blanco(m[0]),
        m[0] != '#',
        !es_blanco(m.last()),
        t.len() > 0,
        recortado(t) == t,
    ensures
        tras_marca(linea_de("    # "@ + m + " "@ + t), m) == Some(t),
        linea_de("    # "@ + m + " "@ + t).clase is Comentario,
{
    reveal_strlit("    # ");
    reveal_strlit(" ");
    lema_recortado_fijo_ultimo(t);
    let s = "    # "@ + m + " "@ + t;
    let cola = seq![' '] + t;
    let a = seq!['#', ' '] + m;
    assert(s =~= seq![' ', ' ', ' ', ' '] + (a + cola));
    lema_inicio_blancos(seq![' ', ' ', ' ', ' '], a + cola);
    assert(sin_blancos_al_inicio(a + cola) == a + cola);
    assert(a.last() == m.last());
    lema_final_concat(a, cola);
    assert(cola.last() == t.last());
    assert(sin_blancos_al_final(cola) == cola);
    let r = a + cola;
    assert(recortado(s) == r);
    assert(r[0] == '#');
    let sin_almohadilla = seq![' '] + m + cola;
    assert(r.drop_first() =~= sin_almohadilla);
    assert(crate::texto::sin_iniciales(r, '#') == crate::texto::sin_iniciales(sin_almohadilla, '#'));
    assert(crate::texto::sin_iniciales(sin_almohadilla, '#') == sin_almohadilla);
    assert(sin_almohadilla =~= seq![' '] + (m + cola));
    lema_inicio_blancos(seq![' '], m + cola);
    assert((m + cola)[0] == m[0]);
    assert(sin_blancos_al_inicio(m + cola) == m + cola);
    assert((m + cola).last() == t.last());
    assert(sin_blancos_al_final(m + cola) == m + cola);
    let texto = m + cola;
    assert(recortado(sin_almohadilla) == texto);
    assert(texto.subrange(0, m.len() as int) =~= m);
    assert(texto.skip(m.len() as int) =~= cola);
    assert(cola.drop_first() =~= t);
    assert(sin_blancos_al_inicio(t) == t);
    assert(sin_blancos_al_inicio(cola) == t);
    assert(recortado(cola) == t);
}

pub open spec fn notas() -> spec_fn(LineaV) -> bool {
    |l: LineaV| es_nota(l)
}

pub(crate) proof fn lema_nota_no_es_marca()
    ensures
        forall|l: LineaV| #[trigger] notas()(l) ==> !es_marca(l),
{
    reveal_strlit("nota:");
    reveal_strlit("salud:");
    reveal_strlit("nombre:");
    assert forall|l: LineaV| #[trigger] notas()(l) implies !es_marca(l) by {
        let t = texto_comentario(l)->Some_0;
        assert(t.subrange(0, 5) == "nota:"@);
        assert(t[0] == t.subrange(0, 5)[0]);
        assert(t[2] == t.subrange(0, 5)[2]);
        assert(t[0] == 'n' && t[2] == 't');
        if tras_marca(l, "salud:"@) is Some {
            assert(t.subrange(0, 6) == "salud:"@);
            assert(t[0] == t.subrange(0, 6)[0]);
        }
        if tras_marca(l, "nombre:"@) is Some {
            assert(t.subrange(0, 7) == "nombre:"@);
            assert(t[2] == t.subrange(0, 7)[2]);
        }
    }
}

pub(crate) proof fn lema_propia_sin_notas(ls: Seq<LineaV>)
    ensures
        sin_notas(ls).filter(notas()) == Seq::<LineaV>::empty(),
    decreases ls.len(),
{
    if ls.len() == 0 {
        reveal(Seq::filter);
    } else {
        let x = ls[0];
        let r = ls.drop_first();
        lema_propia_sin_notas(r);
        if !es_nota(x) {
            lema_filtro_delante(x, sin_notas(r), notas());
            assert(Seq::<LineaV>::empty() + Seq::<LineaV>::empty() =~= Seq::<LineaV>::empty());
        }
    }
}

/// La nota escrita, si la hay.
pub open spec fn nota_escrita(n: Option<Seq<char>>) -> Seq<LineaV> {
    match n {
        Some(x) => if recortado(x).len() > 0 {
            seq![linea_nota(x)]
        } else {
            Seq::<LineaV>::empty()
        },
        None => Seq::<LineaV>::empty(),
    }
}

/// Tras sincronizar, la única nota del cuerpo es la escrita.
pub(crate) proof fn lema_notas_final(c: Seq<LineaV>, h: HostV)
    ensures
        cuerpo_sincronizado(c, h).filter(notas()) == nota_escrita(h.nota),
{
    let p = notas();
    lema_claves_gestionadas();
    lema_nota_no_es_marca();
    lema_propia_sin_notas(c);
    match h.nota {
        Some(x) => {
            if recortado(x).len() > 0 {
                reveal_strlit("    # nota: ");
                lema_linea_nota(x);
                lema_filtro_delante(linea_nota(x), sin_notas(c), p);
                assert(seq![linea_nota(x)] + Seq::<LineaV>::empty() =~= seq![linea_nota(x)]);
            }
        },
        None => {},
    }
    assert forall|l: LineaV| #[trigger] p(l) implies l.clase is Comentario by {
        assert(texto_comentario(l) is Some);
    }
    let e0 = etapa_nota(c, h);
    let e1 = etapa_hostname(c, h);
    let e2 = etapa_usuario(c, h);
    let e3 = etapa_puerto(c, h);
    let e4 = etapa_saltos(c, h);
    let e5 = etapa_identidades(c, h);
    lema_excluye_directivas(p, "HostName"@);
    lema_excluye_directivas(p, "User"@);
    lema_excluye_directivas(p, "Port"@);
    lema_excluye_directivas(p, "ProxyJump"@);
    lema_excluye_directivas(p, "IdentityFile"@);
    lema_excluye_directivas(p, "LocalForward"@);
    lema_excluye_directivas(p, "RemoteForward"@);
    lema_excluye_directivas(p, "DynamicForward"@);
    lema_excluye_directivas(p, "ExitOnForwardFailure"@);
    lema_excluye_directivas(p, "ServerAliveInterval"@);
    lema_excluye_directivas(p, "ServerAliveCountMax"@);
    lema_excluye_directivas(p, "TCPKeepAlive"@);
    lema_filtro_con_unica(e0, "HostName"@, h.hostname, p);
    lema_filtro_con_unica(e1, "User"@, h.usuario, p);
    lema_filtro_con_unica(e2, "Port"@, texto_puerto(h.puerto), p);
    lema_filtro_con_unica(e3, "ProxyJump"@, texto_saltos(h.saltos), p);
    lema_filtro_con_multiple(e4, "IdentityFile"@, h.identidades, p);
    lema_filtro_con_reenvios(e5, "LocalForward"@, del_tipo(h.reenvios, TipoReenvio::Local), p);
    lema_filtro_con_reenvios(etapa_locales(c, h), "RemoteForward"@, del_tipo(h.reenvios, TipoReenvio::Remoto), p);
    lema_filtro_con_reenvios(etapa_remotos(c, h), "DynamicForward"@, del_tipo(h.reenvios, TipoReenvio::Dinamico), p);
    let f1 = con_unica(etapa_dinamicos(c, h), "ExitOnForwardFailure"@, Some("yes"@));
    let f2 = con_unica(f1, "ServerAliveInterval"@, Some("15"@));
    let f3 = con_unica(f2, "ServerAliveCountMax"@, Some("3"@));
    lema_filtro_con_unica(etapa_dinamicos(c, h), "ExitOnForwardFailure"@, Some("yes"@), p);
    lema_filtro_con_unica(f1, "ServerAliveInterval"@, Some("15"@), p);
    lema_filtro_con_unica(f2, "ServerAliveCountMax"@, Some("3"@), p);
    lema_filtro_con_unica(f3, "TCPKeepAlive"@, Some("yes"@), p);
    lema_etapas(c, h);
}

proof fn lema_excluye_directivas(p: spec_fn(LineaV) -> bool, k: Seq<char>)
    requires
        forall|l: LineaV| #[trigger] p(l) ==> l.clase is Comentario,
    ensures
        forall|l: LineaV| #[trigger] p(l) ==> !es_directiva(l, k),
{
}

proof fn lema_primera_marca_filtro(ls: Seq<LineaV>)
    ensures
        primera_marca(ls, "nota:"@) == primera_marca(ls.filter(notas()), "nota:"@),
    decreases ls.len(),
{
    let p = notas();
    if ls.len() == 0 {
        reveal(Seq::filter);
    } else {
        let x = ls[0];
        let r = ls.drop_first();
        lema_primera_marca_filtro(r);
        assert(ls =~= seq![x] + r);
        lema_filtro_delante(x, r, p);
        if p(x) {
            assert((seq![x] + r.filter(p))[0] == x);
        } else {
            assert(Seq::<LineaV>::empty() + r.filter(p) =~= r.filter(p));
        }
    }
}


// --- Lectura de los campos --------------------------------------------------------------

pub(crate) proof fn lema_minusculas_fijas()
    ensures
        minusculas("hostname"@) == "hostname"@,
        minusculas("user"@) == "user"@,
        minusculas("port"@) == "port"@,
        minusculas("proxyjump"@) == "proxyjump"@,
        minusculas("identityfile"@) == "identityfile"@,
{
    reveal_strlit("hostname");
    reveal_strlit("user");
    reveal_strlit("port");
    reveal_strlit("proxyjump");
    reveal_strlit("identityfile");
    assert(minusculas("hostname"@) =~= "hostname"@);
    assert(minusculas("user"@) =~= "user"@);
    assert(minusculas("port"@) =~= "port"@);
    assert(minusculas("proxyjump"@) =~= "proxyjump"@);
    assert(minusculas("identityfile"@) =~= "identityfile"@);
}

/// Valor opcional que se escribe y se lee igual: ninguno, o uno no vacío y limpio.
pub open spec fn opcional_legible(v: Option<Seq<char>>) -> bool {
    match v {
        Some(x) => x.len() > 0 && valor_limpio(x),
        None => true,
    }
}

proof fn lema_lee_unica(ls: Seq<LineaV>, k: Seq<char>, k0: Seq<char>, v: Option<Seq<char>>)
    requires
        clave_escrita(k),
        minusculas(k) == k0,
        minusculas(k0) == k0,
        opcional_legible(v),
        ls.filter(de_clave(k0)) == match valor_no_vacio(v) {
            Some(x) => seq![directiva_nueva(k, x)],
            None => Seq::<LineaV>::empty(),
        },
    ensures
        valor_unico(ls, k0) == v,
{
    lema_primera_directiva_filtro(ls, k0);
    match v {
        Some(x) => {
            assert(valor_no_vacio(v) == Some(x));
            let nueva = directiva_nueva(k, x);
            lema_valor_directiva_nueva(k, x);
            assert(es_directiva(nueva, k0));
            assert(seq![nueva][0] == nueva);
        },
        None => {},
    }
}

proof fn lema_valores_misma_clave(ls: Seq<LineaV>, k1: Seq<char>, k2: Seq<char>)
    requires
        minusculas(k1) == minusculas(k2),
    ensures
        valores_de(ls, k1) == valores_de(ls, k2),
    decreases ls.len(),
{
    if ls.len() > 0 {
        lema_valores_misma_clave(ls.drop_last(), k1, k2);
    }
}

/// Saltos que se escriben y se leen igual: no vacíos, recortados, sin comas,
/// y unidos por comas forman un valor limpio.
pub open spec fn saltos_legibles(s: Seq<Seq<char>>) -> bool {
    &&& forall|i: int|
        0 <= i < s.len() ==> (#[trigger] s[i]).len() > 0 && recortado(s[i]) == s[i] && !s[i].contains(',')
    &&& (s.len() > 0 ==> valor_limpio(unidos(s, seq![','])))
}

proof fn lema_saltos_de_limpios(s: Seq<Seq<char>>)
    requires
        forall|i: int| 0 <= i < s.len() ==> (#[trigger] s[i]).len() > 0 && recortado(s[i]) == s[i],
    ensures
        saltos_de(s) == s,
    decreases s.len(),
{
    if s.len() > 0 {
        assert forall|i: int| 0 <= i < s.drop_last().len() implies (#[trigger] s.drop_last()[i]).len()
            > 0 && recortado(s.drop_last()[i]) == s.drop_last()[i] by {
            assert(s.drop_last()[i] == s[i]);
        }
        lema_saltos_de_limpios(s.drop_last());
        assert(recortado(s[s.len() - 1]) == s[s.len() - 1]);
        assert(s.drop_last().push(s.last()) =~= s);
    }
}

proof fn lema_unidos_no_vacio(s: Seq<Seq<char>>)
    requires
        s.len() > 0,
        s[0].len() > 0,
    ensures
        unidos(s, seq![',']).len() > 0,
    decreases s.len(),
{
    if s.len() > 1 {
        lema_unidos_no_vacio(s.drop_last());
    }
}

/// Un puerto escrito en decimal es un valor legible y se lee igual.
proof fn lema_puerto_legible(p: u16)
    ensures
        opcional_legible(Some(decimal(p as nat))),
        valor_u16(decimal(p as nat)) == Some(p),
{
    lema_u16_decimal(p);
    let d = decimal(p as nat);
    assert(es_digito(d[0]));
    assert(es_digito(d[d.len() - 1]));
    lema_recortado_sin_bordes(d);
}

/// Requisitos para que la nota se lea igual: ninguna, o no vacía y recortada.
pub open spec fn nota_legible(n: Option<Seq<char>>) -> bool {
    match n {
        Some(x) => x.len() > 0 && recortado(x) == x,
        None => true,
    }
}

/// Sin nota de la aplicación en los comentarios de encima (solo importa
/// cuando el host no lleva nota: la del cuerpo va primero).
pub open spec fn sin_nota_encima(b: BloqueV) -> bool {
    match primera_marca(b.comentarios, "nota:"@) {
        Some(t) => t.len() == 0,
        None => true,
    }
}

proof fn lema_lee_nota(b: BloqueV, c: Seq<LineaV>, h: HostV)
    requires
        nota_legible(h.nota),
        h.nota is None ==> sin_nota_encima(b),
        c.filter(notas()) == nota_escrita(h.nota),
    ensures
        nota_de(BloqueV { cuerpo: c, ..b }) == h.nota,
{
    lema_primera_marca_suma(c, b.comentarios, "nota:"@);
    lema_primera_marca_filtro(c);
    match h.nota {
        Some(n) => {
            reveal_strlit("nota:");
            lema_linea_nota(n);
            lema_marca_valor("nota:"@, n);
            assert(seq![linea_nota(n)][0] == linea_nota(n));
        },
        None => {
            reveal(Seq::filter);
        },
    }
}


proof fn lema_lee_hostname_usuario(c: Seq<LineaV>, h: HostV)
    requires
        opcional_legible(h.hostname),
        opcional_legible(h.usuario),
        forall|i: int| 0 <= i < h.identidades.len() ==> valor_limpio(#[trigger] h.identidades[i]),
    ensures
        valor_unico(cuerpo_sincronizado(c, h), "hostname"@) == h.hostname,
        valor_unico(cuerpo_sincronizado(c, h), "user"@) == h.usuario,
{
    let f = cuerpo_sincronizado(c, h);
    lema_claves_gestionadas();
    lema_minusculas_fijas();
    lema_campos(c, h);
    lema_cola(c, h, "hostname"@);
    lema_cola(c, h, "user"@);
    lema_lee_unica(f, "HostName"@, "hostname"@, h.hostname);
    lema_lee_unica(f, "User"@, "user"@, h.usuario);
}

proof fn lema_final_puerto(c: Seq<LineaV>, h: HostV)
    requires
        forall|i: int| 0 <= i < h.identidades.len() ==> valor_limpio(#[trigger] h.identidades[i]),
    ensures
        cuerpo_sincronizado(c, h).filter(de_clave("port"@)) == match valor_no_vacio(
            texto_puerto(h.puerto),
        ) {
            Some(x) => seq![directiva_nueva("Port"@, x)],
            None => Seq::<LineaV>::empty(),
        },
{
    lema_campos(c, h);
    lema_cola(c, h, "port"@);
}

proof fn lema_lee_puerto(c: Seq<LineaV>, h: HostV)
    requires
        forall|i: int| 0 <= i < h.identidades.len() ==> valor_limpio(#[trigger] h.identidades[i]),
    ensures
        valor_unico(cuerpo_sincronizado(c, h), "port"@) == texto_puerto(h.puerto),
        match h.puerto {
            Some(p) => valor_u16(decimal(p as nat)) == Some(p),
            None => true,
        },
{
    let f = cuerpo_sincronizado(c, h);
    lema_claves_gestionadas();
    lema_minusculas_fijas();
    lema_final_puerto(c, h);
    match h.puerto {
        Some(p) => {
            lema_puerto_legible(p);
        },
        None => {},
    }
    lema_lee_unica(f, "Port"@, "port"@, texto_puerto(h.puerto));
}

proof fn lema_final_saltos(c: Seq<LineaV>, h: HostV)
    requires
        forall|i: int| 0 <= i < h.identidades.len() ==> valor_limpio(#[trigger] h.identidades[i]),
    ensures
        cuerpo_sincronizado(c, h).filter(de_clave("proxyjump"@)) == match valor_no_vacio(
            texto_saltos(h.saltos),
        ) {
            Some(x) => seq![directiva_nueva("ProxyJump"@, x)],
            None => Seq::<LineaV>::empty(),
        },
{
    lema_campos(c, h);
    lema_cola(c, h, "proxyjump"@);
}

proof fn lema_lee_saltos(c: Seq<LineaV>, h: HostV)
    requires
        saltos_legibles(h.saltos),
        forall|i: int| 0 <= i < h.identidades.len() ==> valor_limpio(#[trigger] h.identidades[i]),
    ensures
        match valor_unico(cuerpo_sincronizado(c, h), "proxyjump"@) {
            Some(v) => saltos_de(trozos(v, ',')),
            None => Seq::<Seq<char>>::empty(),
        } == h.saltos,
{
    let f = cuerpo_sincronizado(c, h);
    lema_claves_gestionadas();
    lema_minusculas_fijas();
    lema_final_saltos(c, h);
    if h.saltos.len() > 0 {
        lema_unidos_no_vacio(h.saltos);
        lema_trozos_unidos(h.saltos, ',');
        lema_saltos_de_limpios(h.saltos);
        assert(opcional_legible(texto_saltos(h.saltos)));
    } else {
        assert(h.saltos =~= Seq::<Seq<char>>::empty());
    }
    lema_lee_unica(f, "ProxyJump"@, "proxyjump"@, texto_saltos(h.saltos));
}

proof fn lema_final_identidades(c: Seq<LineaV>, h: HostV)
    requires
        forall|i: int| 0 <= i < h.identidades.len() ==> valor_limpio(#[trigger] h.identidades[i]),
    ensures
        cuerpo_sincronizado(c, h).filter(de_clave("identityfile"@)) == directivas_nuevas(
            "IdentityFile"@,
            h.identidades,
        ),
{
    lema_campos(c, h);
    lema_cola(c, h, "identityfile"@);
}

proof fn lema_lee_identidades(c: Seq<LineaV>, h: HostV)
    requires
        forall|i: int| 0 <= i < h.identidades.len() ==> valor_limpio(#[trigger] h.identidades[i]),
    ensures
        valores_de(cuerpo_sincronizado(c, h), "identityfile"@) == h.identidades,
{
    let f = cuerpo_sincronizado(c, h);
    let ds = directivas_nuevas("IdentityFile"@, h.identidades);
    lema_minusculas_fijas();
    lema_claves_gestionadas();
    lema_final_identidades(c, h);
    lema_valores_filtro(f, "identityfile"@);
    assert(valores_de(f, "identityfile"@) == valores_de(ds, "identityfile"@));
    lema_valores_nuevas("IdentityFile"@, h.identidades);
    lema_valores_misma_clave(ds, "identityfile"@, "IdentityFile"@);
}

/// Lo que la lectura de un bloque da de sus campos de un valor, sus
/// identidades y su nota, tras sincronizarlo con `h`.
proof fn lema_campos_se_leen(b: BloqueV, h: HostV, origen: OrigenV)
    requires
        alias_de(b) == Some(h.alias),
        opcional_legible(h.hostname),
        opcional_legible(h.usuario),
        saltos_legibles(h.saltos),
        forall|i: int| 0 <= i < h.identidades.len() ==> valor_limpio(#[trigger] h.identidades[i]),
        nota_legible(h.nota),
        h.nota is None ==> sin_nota_encima(b),
    ensures
        host_de(BloqueV { cuerpo: cuerpo_sincronizado(b.cuerpo, h), ..b }, origen) matches Some(l)
            && l.alias == h.alias && l.hostname == h.hostname && l.usuario == h.usuario && l.puerto
            == h.puerto && l.saltos == h.saltos && l.identidades == h.identidades && l.nota == h.nota
            && l.origen == origen,
{
    let c = b.cuerpo;
    let f = cuerpo_sincronizado(c, h);
    lema_lee_hostname_usuario(c, h);
    lema_lee_puerto(c, h);
    lema_lee_saltos(c, h);
    lema_lee_identidades(c, h);
    lema_notas_final(c, h);
    lema_lee_nota(b, f, h);
}


// --- La ley -------------------------------------------------------------------------------

/// Host que se escribe y se vuelve a leer igual: cada valor es legible (sin
/// blancos en los bordes, sin `=` delante, sin comillas que lo envuelvan), los
/// saltos no llevan comas, la nota está recortada y cada reenvío es escribible.
pub open spec fn host_escribible(h: HostV) -> bool {
    &&& opcional_legible(h.hostname)
    &&& opcional_legible(h.usuario)
    &&& saltos_legibles(h.saltos)
    &&& forall|i: int| 0 <= i < h.identidades.len() ==> valor_limpio(#[trigger] h.identidades[i])
    &&& nota_legible(h.nota)
    &&& forall|i: int|
        0 <= i < h.reenvios.len() ==> reenvio_escribible(#[trigger] h.reenvios[i], h.reenvios[i].tipo)
}

/// Ley: lo que se escribe se lee.
///
/// Tras sincronizar un bloque con un host escribible, leer el bloque da ese
/// host: los mismos campos, la misma nota y, tipo a tipo, los mismos reenvíos
/// con su salud y su nombre. Hace falta que el cuerpo no tenga marcas sueltas
/// (una marca que no va pegada a un reenvío se pegaría a uno escrito) y, si el
/// host no lleva nota, que no haya una encima del bloque.
pub proof fn ley_lo_escrito_se_lee(b: BloqueV, h: HostV, origen: OrigenV)
    requires
        alias_de(b) == Some(h.alias),
        host_escribible(h),
        limpio(b.cuerpo),
        h.nota is None ==> sin_nota_encima(b),
    ensures
        host_de(BloqueV { cuerpo: cuerpo_sincronizado(b.cuerpo, h), ..b }, origen) matches Some(l)
            && l.alias == h.alias && l.hostname == h.hostname && l.usuario == h.usuario && l.puerto
            == h.puerto && l.saltos == h.saltos && l.identidades == h.identidades && l.nota == h.nota
            && l.origen == origen && forall|t: TipoReenvio|
            #[trigger] del_tipo(l.reenvios, t) == del_tipo(h.reenvios, t),
{
    lema_campos_se_leen(b, h, origen);
    lema_reenvios_se_leen(b.cuerpo, h);
    let b2 = BloqueV { cuerpo: cuerpo_sincronizado(b.cuerpo, h), ..b };
    let l = host_de(b2, origen)->Some_0;
    assert(l.reenvios == crate::config::grupos::leidos(cuerpo_sincronizado(b.cuerpo, h)));
}

} // verus!
