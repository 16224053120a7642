//! Sincronizar dos veces con el mismo host deja el cuerpo como la primera.
//!
//! Cada paso de la escritura, aplicado a un cuerpo ya sincronizado, no cambia
//! nada: las directivas de un valor ya están escritas una sola vez, las de
//! varios valores y los grupos de reenvíos forman bloques seguidos, y la nota
//! va la primera.

use vstd::prelude::*;

use crate::config::grupos::{
    borrado, limpio, lema_a_borrar_desplazado, lema_conservadas_borrado,
    lema_conservadas_prefijo,
};
use crate::config::parser::{
    es_directiva, clave_normalizada, LineaV, BloqueV, DocumentoV, EncabezadoV, alias_de,
    posicion_de, tiene_comodin, lema_posicion_de, lema_posicion_de_en,
};
use crate::config::writer::{documento_sincronizado, bloque_nuevo_de, con_linea_en_blanco_final};
use crate::config::writer::{
    a_borrar, conservadas_hasta, es_marca, con_reenvios, lineas_reenvio, lineas_reenvios, minimo,
    primera_pos_directiva, punto_de_insercion, ultima_gestionada, linea_gestionada,
    lema_primera_pos_directiva, lema_directiva_nueva, directiva_nueva, sin_directiva,
    reemplazar_desde, con_unica, valor_no_vacio, con_multiple, directivas_nuevas,
    lema_primera_pos_directiva_en,
};
use crate::config::vuelta::{
    clave_escrita, lema_lineas_reenvio, de_clave, lema_filtro_delante, lema_propia_con_unica,
    lema_filtro_con_unica, etapa_dinamicos, es_nota, linea_nota, lema_linea_nota,
    lema_nota_no_es_marca, notas, etapa_nota, etapa_hostname, etapa_usuario, etapa_puerto,
    etapa_saltos, etapa_identidades, etapa_locales, etapa_remotos, lema_etapas, lema_campos,
    lema_cola, lema_notas_final, nota_escrita, lema_filtro_con_reenvios, lema_filtro_vacio,
    lema_minusculas_fijas,
};
use crate::config::writer::{
    cuerpo_sincronizado, lema_claves_gestionadas, sin_notas, con_nota, ultima_directiva,
    texto_puerto, texto_saltos, del_tipo, clave_gestionada,
};
use crate::config::grupos::{
    lema_limpio_con_nota, lema_limpio_con_unica, lema_limpio_con_multiple, lema_limpio_con_reenvios,
    lema_claves_neutras, lema_claves_de_tipo, lema_limpio_sin_marca_final,
};
use crate::modelo::{directiva, HostV, TipoReenvio};
use crate::config::grupos::{
    lema_ultima_gestionada_es, lema_borrado_sin_clave, clave_neutra, relevante, lema_limpio_partes,
    lema_punto_sin_marca, lema_sin_directiva_prefijo, lema_limpio_en,
    lema_conservadas_sin_marca_final, lema_nada_que_borrar, lema_conservadas_todas,
};
use crate::modelo::ReenvioV;
use crate::texto::{minusculas, recortado};

verus! {

/// Ninguna línea es la directiva `k`.
pub open spec fn sin_clave(ls: Seq<LineaV>, k: Seq<char>) -> bool {
    forall|i: int| 0 <= i < ls.len() ==> !es_directiva(#[trigger] ls[i], k)
}

/// No acaba en marca.
pub open spec fn sin_marca_final(ls: Seq<LineaV>) -> bool {
    ls.len() == 0 || !es_marca(ls.last())
}

/// Lo que se borra en una posición solo depende de lo que viene detrás.
pub proof fn lema_a_borrar_tras(p: Seq<LineaV>, y: Seq<LineaV>, k: Seq<char>, j: int)
    requires
        0 <= j,
    ensures
        a_borrar(p + y, k, p.len() + j) == a_borrar(y, k, j),
    decreases y.len() - j,
{
    let x = p + y;
    if j < y.len() {
        assert(x[p.len() + j] == y[j]);
        lema_a_borrar_tras(p, y, k, j + 1);
    }
}

/// Si `a` no acaba en marca, lo que se borra dentro de `a` no depende de lo
/// que venga después.
pub proof fn lema_a_borrar_antes(a: Seq<LineaV>, r: Seq<LineaV>, k: Seq<char>, i: int)
    requires
        0 <= i < a.len(),
        sin_marca_final(a),
    ensures
        a_borrar(a + r, k, i) == a_borrar(a, k, i),
    decreases a.len() - i,
{
    let x = a + r;
    assert(x[i] == a[i]);
    if !es_directiva(a[i], k) && es_marca(a[i]) {
        assert(i + 1 < a.len());
        lema_a_borrar_antes(a, r, k, i + 1);
    }
}

/// Borrar en una suma es borrar en cada parte, si la primera no acaba en marca.
pub proof fn lema_borrado_suma(a: Seq<LineaV>, b: Seq<LineaV>, k: Seq<char>)
    requires
        sin_marca_final(a),
    ensures
        borrado(a + b, k) == borrado(a, k) + borrado(b, k),
    decreases a.len(),
{
    if a.len() == 0 {
        assert(a + b =~= b);
        assert(Seq::<LineaV>::empty() + borrado(b, k) =~= borrado(b, k));
    } else {
        let x = a + b;
        assert(x[0] == a[0]);
        assert(x.drop_first() =~= a.drop_first() + b);
        lema_a_borrar_antes(a, b, k, 0);
        if a.len() > 1 {
            assert(a.drop_first().last() == a.last());
        }
        lema_borrado_suma(a.drop_first(), b, k);
        if !a_borrar(a, k, 0) {
            assert(seq![a[0]] + (borrado(a.drop_first(), k) + borrado(b, k)) =~= (seq![a[0]]
                + borrado(a.drop_first(), k)) + borrado(b, k));
        }
    }
}

/// Borrar no deja una marca al final si no la había.
pub proof fn lema_borrado_sin_marca_final(a: Seq<LineaV>, k: Seq<char>)
    requires
        sin_marca_final(a),
    ensures
        sin_marca_final(borrado(a, k)),
    decreases a.len(),
{
    if a.len() > 0 {
        let r = a.drop_first();
        if r.len() > 0 {
            assert(r.last() == a.last());
        }
        lema_borrado_sin_marca_final(r, k);
        if !a_borrar(a, k, 0) && borrado(r, k).len() == 0 && es_marca(a[0]) {
            assert(r.len() > 0);
            assert(!es_directiva(a[0], k));
            lema_a_borrar_desplazado(a, k, 0);
            assert(!a_borrar(r, k, 0));
            assert(borrado(r, k).len() > 0);
        }
        if !a_borrar(a, k, 0) {
            let f = seq![a[0]] + borrado(r, k);
            if borrado(r, k).len() > 0 {
                assert(f.last() == borrado(r, k).last());
            }
        }
    }
}

/// Lo conservado dentro de un prefijo que no acaba en marca no depende de lo
/// que venga después.
pub proof fn lema_conservadas_antes(a: Seq<LineaV>, r: Seq<LineaV>, k: Seq<char>, n: int)
    requires
        0 <= n <= a.len(),
        sin_marca_final(a),
    ensures
        conservadas_hasta(a + r, k, n) == conservadas_hasta(a, k, n),
    decreases n,
{
    if n > 0 {
        lema_conservadas_antes(a, r, k, n - 1);
        lema_a_borrar_antes(a, r, k, n - 1);
        assert((a + r)[n - 1] == a[n - 1]);
    }
}

/// Tras un prefijo, lo conservado sigue lo que se conserva del resto.
pub proof fn lema_conservadas_tras(p: Seq<LineaV>, y: Seq<LineaV>, k: Seq<char>, j: int)
    requires
        0 <= j <= y.len(),
        sin_marca_final(p),
    ensures
        conservadas_hasta(p + y, k, p.len() + j) == borrado(p, k) + conservadas_hasta(y, k, j),
    decreases j,
{
    if j == 0 {
        lema_conservadas_antes(p, y, k, p.len() as int);
        lema_conservadas_borrado(p, k);
        assert(borrado(p, k) + Seq::<LineaV>::empty() =~= borrado(p, k));
    } else {
        lema_conservadas_tras(p, y, k, j - 1);
        lema_a_borrar_tras(p, y, k, j - 1);
        assert((p + y)[p.len() + j - 1] == y[j - 1]);
        let cola = if a_borrar(y, k, j - 1) {
            Seq::<LineaV>::empty()
        } else {
            seq![y[j - 1]]
        };
        assert(borrado(p, k) + conservadas_hasta(y, k, j - 1) + cola =~= borrado(p, k) + (
        conservadas_hasta(y, k, j - 1) + cola));
    }
}


// --- Herramientas ---------------------------------------------------------------------

pub proof fn lema_borrado_conserva_sin_clave(ls: Seq<LineaV>, k2: Seq<char>, k: Seq<char>)
    requires
        sin_clave(ls, k),
    ensures
        sin_clave(borrado(ls, k2), k),
    decreases ls.len(),
{
    if ls.len() > 0 {
        let r = ls.drop_first();
        assert forall|i: int| 0 <= i < r.len() implies !es_directiva(#[trigger] r[i], k) by {
            assert(r[i] == ls[i + 1]);
        }
        lema_borrado_conserva_sin_clave(r, k2, k);
        if !a_borrar(ls, k2, 0) {
            let f = seq![ls[0]] + borrado(r, k2);
            assert forall|i: int| 0 <= i < f.len() implies !es_directiva(#[trigger] f[i], k) by {
                if i > 0 {
                    assert(f[i] == borrado(r, k2)[i - 1]);
                }
            }
        }
    }
}

/// En unas líneas sin la directiva `k2` y que no acaban en marca no se borra nada.
pub proof fn lema_nada_se_borra(ls: Seq<LineaV>, k2: Seq<char>, i: int)
    requires
        sin_clave(ls, k2),
        sin_marca_final(ls),
        0 <= i,
    ensures
        !a_borrar(ls, k2, i),
    decreases ls.len() - i,
{
    if i < ls.len() && es_marca(ls[i]) {
        assert(i + 1 < ls.len());
        lema_nada_se_borra(ls, k2, i + 1);
    }
}

pub proof fn lema_borrado_nada(ls: Seq<LineaV>, k2: Seq<char>)
    requires
        sin_clave(ls, k2),
        sin_marca_final(ls),
    ensures
        borrado(ls, k2) == ls,
    decreases ls.len(),
{
    if ls.len() > 0 {
        let r = ls.drop_first();
        lema_nada_se_borra(ls, k2, 0);
        assert forall|i: int| 0 <= i < r.len() implies !es_directiva(#[trigger] r[i], k2) by {
            assert(r[i] == ls[i + 1]);
        }
        if r.len() > 0 {
            assert(r.last() == ls.last());
        }
        lema_borrado_nada(r, k2);
        assert(seq![ls[0]] + r =~= ls);
    }
}

/// El punto de inserción queda detrás de cualquier directiva gestionada.
pub proof fn lema_punto_tras(ls: Seq<LineaV>, j: int)
    requires
        0 <= j < ls.len(),
        linea_gestionada(ls[j]),
    ensures
        punto_de_insercion(ls) >= j + 1,
        ultima_gestionada(ls) matches Some(q) && q >= j,
    decreases ls.len(),
{
    if j < ls.len() - 1 && !linea_gestionada(ls.last()) {
        assert(ls.drop_last()[j] == ls[j]);
        lema_punto_tras(ls.drop_last(), j);
    }
}

/// Las líneas con que se escriben los reenvíos de `k2`.
pub proof fn lema_lineas_reenvios(k2: Seq<char>, rs: Seq<ReenvioV>)
    requires
        clave_escrita(k2),
    ensures
        forall|i: int|
            0 <= i < lineas_reenvios(k2, rs).len() ==> es_marca(#[trigger] lineas_reenvios(k2, rs)[i])
                || es_directiva(lineas_reenvios(k2, rs)[i], k2),
        sin_marca_final(lineas_reenvios(k2, rs)),
    decreases rs.len(),
{
    if rs.len() > 0 {
        lema_lineas_reenvios(k2, rs.drop_last());
        lema_lineas_reenvio(k2, rs.last());
        let a = lineas_reenvios(k2, rs.drop_last());
        let u = lineas_reenvio(k2, rs.last());
        assert forall|i: int| 0 <= i < (a + u).len() implies es_marca(#[trigger] (a + u)[i])
            || es_directiva((a + u)[i], k2) by {
            if i < a.len() {
                assert((a + u)[i] == a[i]);
            } else {
                assert((a + u)[i] == u[i - a.len()]);
            }
        }
        lema_directiva_nueva(k2, crate::modelo::valor_directiva(rs.last()));
        assert(u.last() == directiva_nueva(k2, crate::modelo::valor_directiva(rs.last())));
        assert(crate::config::parser::texto_comentario(u.last()) is None);
        assert((a + u).last() == u.last());
    }
}

/// Dos claves distintas: una directiva de una no es de la otra.
pub open spec fn claves_distintas(k: Seq<char>, k2: Seq<char>) -> bool {
    minusculas(k) != minusculas(k2)
}

// --- Un bloque aislado sobrevive a los pasos de otras directivas ----------------------------

/// Reescribir los reenvíos de `k2` deja intacto un bloque de otra clave que no
/// tiene directivas `k2` ni acaba en marca.
pub proof fn lema_aislado_reenvios(
    a: Seq<LineaV>,
    bl: Seq<LineaV>,
    b: Seq<LineaV>,
    k: Seq<char>,
    k2: Seq<char>,
    rs: Seq<ReenvioV>,
) -> (r: (Seq<LineaV>, Seq<LineaV>))
    requires
        sin_clave(a, k),
        sin_clave(b, k),
        sin_marca_final(a),
        bl.len() > 0,
        sin_clave(bl, k2),
        sin_marca_final(bl),
        linea_gestionada(bl.last()),
        clave_escrita(k2),
        claves_distintas(k, k2),
    ensures
        con_reenvios(a + bl + b, k2, rs) == r.0 + bl + r.1,
        sin_clave(r.0, k),
        sin_clave(r.1, k),
        sin_marca_final(r.0),
{
    let x = a + bl + b;
    let destino = match primera_pos_directiva(x, k2) {
        Some(q) => q,
        None => punto_de_insercion(x),
    };
    lema_primera_pos_directiva(x, k2);
    crate::config::writer::lema_punto_de_insercion(x);
    let ba = borrado(a, k2);
    let bb = borrado(b, k2);
    let w = lineas_reenvios(k2, rs);
    lema_lineas_reenvios(k2, rs);
    assert forall|i: int| 0 <= i < w.len() implies !es_directiva(#[trigger] w[i], k) by {
        if es_directiva(w[i], k) {
            assert(crate::config::parser::texto_comentario(w[i]) is None);
            assert(es_directiva(w[i], k2));
        }
    }
    // Lo que se conserva.
    assert(x == a + (bl + b));
    assert(bl + b == bl + b);
    lema_borrado_suma(a, bl + b, k2);
    lema_borrado_suma(bl, b, k2);
    lema_borrado_nada(bl, k2);
    lema_conservadas_borrado(x, k2);
    let kk = conservadas_hasta(x, k2, x.len() as int);
    assert(kk == ba + bl + bb);
    lema_borrado_sin_marca_final(a, k2);
    lema_borrado_conserva_sin_clave(a, k2, k);
    lema_borrado_conserva_sin_clave(b, k2, k);
    // Dónde se inserta.
    let a2 = conservadas_hasta(x, k2, destino);
    lema_conservadas_prefijo(x, k2, destino, x.len() as int);
    let e = a2.len() as int;
    assert(kk.take(e) == a2);
    let fin_bloque = (a.len() + bl.len()) as int;
    assert(x[fin_bloque - 1] == bl.last());
    lema_punto_tras(x, fin_bloque - 1);
    if destino <= a.len() {
        lema_conservadas_antes(a, bl + b, k2, destino);
        lema_conservadas_prefijo(a, k2, destino, a.len() as int);
        lema_conservadas_borrado(a, k2);
        assert(e <= ba.len());
    } else {
        match primera_pos_directiva(x, k2) {
            Some(q) => {
                if q < fin_bloque {
                    assert(x[q] == bl[q - a.len()]);
                }
            },
            None => {},
        }
        assert(destino >= fin_bloque);
        lema_conservadas_tras(a, bl + b, k2, bl.len() as int);
        lema_conservadas_antes(bl, b, k2, bl.len() as int);
        lema_conservadas_borrado(bl, k2);
        lema_conservadas_prefijo(x, k2, fin_bloque, destino);
        assert(conservadas_hasta(x, k2, fin_bloque) == ba + bl);
        assert(e >= ba.len() + bl.len());
    }
    assert(minimo(e, kk.len() as int) == e);
    assert(con_reenvios(x, k2, rs) == kk.take(e) + w + kk.skip(e));
    if e <= ba.len() {
        let r0 = ba.take(e) + w + ba.skip(e);
        assert(kk.take(e) =~= ba.take(e));
        assert(kk.skip(e) =~= ba.skip(e) + bl + bb);
        assert(kk.take(e) + w + kk.skip(e) =~= r0 + bl + bb);
        assert forall|i: int| 0 <= i < r0.len() implies !es_directiva(#[trigger] r0[i], k) by {
            if i < e {
                assert(r0[i] == ba[i]);
            } else if i < e + w.len() {
                assert(r0[i] == w[i - e]);
            } else {
                assert(r0[i] == ba[i - w.len()]);
            }
        }
        if ba.skip(e).len() > 0 {
            assert(r0.last() == ba.last());
        } else if w.len() > 0 {
            assert(r0.last() == w.last());
        } else {
            assert(r0 =~= ba);
        }
        (r0, bb)
    } else {
        let e2 = e - ba.len() - bl.len();
        let r1 = bb.take(e2) + w + bb.skip(e2);
        assert(kk.take(e) =~= ba + bl + bb.take(e2));
        assert(kk.skip(e) =~= bb.skip(e2));
        assert(kk.take(e) + w + kk.skip(e) =~= ba + bl + r1);
        assert forall|i: int| 0 <= i < r1.len() implies !es_directiva(#[trigger] r1[i], k) by {
            if i < e2 {
                assert(r1[i] == bb[i]);
            } else if i < e2 + w.len() {
                assert(r1[i] == w[i - e2]);
            } else {
                assert(r1[i] == bb[i - w.len()]);
            }
        }
        (ba, r1)
    }
}


// --- Los pasos de un valor ---------------------------------------------------------------

pub proof fn lema_sin_directiva_suma(p: Seq<LineaV>, q: Seq<LineaV>, k2: Seq<char>)
    ensures
        sin_directiva(p + q, k2) == sin_directiva(p, k2) + sin_directiva(q, k2),
    decreases p.len(),
{
    if p.len() == 0 {
        assert(p + q =~= q);
        assert(Seq::<LineaV>::empty() + sin_directiva(q, k2) =~= sin_directiva(q, k2));
    } else {
        assert((p + q)[0] == p[0]);
        assert((p + q).drop_first() =~= p.drop_first() + q);
        lema_sin_directiva_suma(p.drop_first(), q, k2);
        if !es_directiva(p[0], k2) {
            assert(seq![p[0]] + (sin_directiva(p.drop_first(), k2) + sin_directiva(q, k2)) =~= (seq![
                p[0],
            ] + sin_directiva(p.drop_first(), k2)) + sin_directiva(q, k2));
        }
    }
}

pub proof fn lema_sin_directiva_nada(ls: Seq<LineaV>, k2: Seq<char>)
    requires
        sin_clave(ls, k2),
    ensures
        sin_directiva(ls, k2) == ls,
    decreases ls.len(),
{
    if ls.len() > 0 {
        let r = ls.drop_first();
        assert forall|i: int| 0 <= i < r.len() implies !es_directiva(#[trigger] r[i], k2) by {
            assert(r[i] == ls[i + 1]);
        }
        lema_sin_directiva_nada(r, k2);
        assert(seq![ls[0]] + r =~= ls);
    }
}

pub proof fn lema_reemplazar_suma(
    p: Seq<LineaV>,
    q: Seq<LineaV>,
    k2: Seq<char>,
    nueva: LineaV,
    hallada: bool,
)
    ensures
        reemplazar_desde(p + q, k2, nueva, hallada) == reemplazar_desde(p, k2, nueva, hallada)
            + reemplazar_desde(q, k2, nueva, hallada || primera_pos_directiva(p, k2) is Some),
    decreases p.len(),
{
    if p.len() == 0 {
        assert(p + q =~= q);
        assert(Seq::<LineaV>::empty() + reemplazar_desde(q, k2, nueva, hallada) =~= reemplazar_desde(
            q,
            k2,
            nueva,
            hallada,
        ));
    } else {
        assert((p + q)[0] == p[0]);
        assert((p + q).drop_first() =~= p.drop_first() + q);
        if es_directiva(p[0], k2) {
            lema_reemplazar_suma(p.drop_first(), q, k2, nueva, true);
            if !hallada {
                let a = reemplazar_desde(p.drop_first(), k2, nueva, true);
                let c = reemplazar_desde(q, k2, nueva, true);
                assert(seq![nueva] + (a + c) =~= (seq![nueva] + a) + c);
            }
        } else {
            lema_reemplazar_suma(p.drop_first(), q, k2, nueva, hallada);
            let a = reemplazar_desde(p.drop_first(), k2, nueva, hallada);
            let c = reemplazar_desde(
                q,
                k2,
                nueva,
                hallada || primera_pos_directiva(p.drop_first(), k2) is Some,
            );
            assert(seq![p[0]] + (a + c) =~= (seq![p[0]] + a) + c);
        }
    }
}

pub proof fn lema_reemplazar_nada(ls: Seq<LineaV>, k2: Seq<char>, nueva: LineaV, hallada: bool)
    requires
        sin_clave(ls, k2),
    ensures
        reemplazar_desde(ls, k2, nueva, hallada) == ls,
        primera_pos_directiva(ls, k2) is None,
    decreases ls.len(),
{
    if ls.len() > 0 {
        let r = ls.drop_first();
        assert forall|i: int| 0 <= i < r.len() implies !es_directiva(#[trigger] r[i], k2) by {
            assert(r[i] == ls[i + 1]);
        }
        lema_reemplazar_nada(r, k2, nueva, hallada);
        assert(seq![ls[0]] + r =~= ls);
    }
}

/// Quitar o cambiar directivas neutras de un cuerpo limpio que no acaba en
/// marca no deja una marca al final.
pub proof fn lema_quitar_sin_marca_final(ls: Seq<LineaV>, k2: Seq<char>, nueva: LineaV, hallada: bool)
    requires
        limpio(ls),
        sin_marca_final(ls),
        clave_neutra(k2),
        !es_marca(nueva),
    ensures
        sin_marca_final(sin_directiva(ls, k2)),
        sin_marca_final(reemplazar_desde(ls, k2, nueva, hallada)),
    decreases ls.len(),
{
    if ls.len() > 0 {
        let x = ls[0];
        let r = ls.drop_first();
        if r.len() > 0 {
            assert(r.last() == ls.last());
        }
        let h2 = hallada || es_directiva(x, k2);
        lema_quitar_sin_marca_final(r, k2, nueva, h2);
        lema_quitar_sin_marca_final(r, k2, nueva, hallada);
        if es_marca(x) {
            assert(r.len() > 0 && relevante(r[0]));
            assert(!es_directiva(r[0], k2));
            assert(sin_directiva(r, k2).len() > 0);
            assert(reemplazar_desde(r, k2, nueva, hallada).len() > 0);
        }
        if !es_directiva(x, k2) {
            let f = seq![x] + sin_directiva(r, k2);
            if sin_directiva(r, k2).len() > 0 {
                assert(f.last() == sin_directiva(r, k2).last());
            }
            let g = seq![x] + reemplazar_desde(r, k2, nueva, hallada);
            if reemplazar_desde(r, k2, nueva, hallada).len() > 0 {
                assert(g.last() == reemplazar_desde(r, k2, nueva, hallada).last());
            }
        } else if !hallada {
            let g = seq![nueva] + reemplazar_desde(r, k2, nueva, true);
            if reemplazar_desde(r, k2, nueva, true).len() > 0 {
                assert(g.last() == reemplazar_desde(r, k2, nueva, true).last());
            }
        }
    }
}

pub proof fn lema_quitar_sin_clave(ls: Seq<LineaV>, k2: Seq<char>, k: Seq<char>, nueva: LineaV, hallada: bool)
    requires
        sin_clave(ls, k),
        !es_directiva(nueva, k),
    ensures
        sin_clave(sin_directiva(ls, k2), k),
        sin_clave(reemplazar_desde(ls, k2, nueva, hallada), k),
    decreases ls.len(),
{
    if ls.len() > 0 {
        let x = ls[0];
        let r = ls.drop_first();
        assert forall|i: int| 0 <= i < r.len() implies !es_directiva(#[trigger] r[i], k) by {
            assert(r[i] == ls[i + 1]);
        }
        lema_quitar_sin_clave(r, k2, k, nueva, true);
        lema_quitar_sin_clave(r, k2, k, nueva, hallada);
        let f = seq![x] + sin_directiva(r, k2);
        assert forall|i: int| 0 <= i < f.len() implies !es_directiva(#[trigger] f[i], k) by {
            if i > 0 {
                assert(f[i] == sin_directiva(r, k2)[i - 1]);
            }
        }
        let g = seq![x] + reemplazar_desde(r, k2, nueva, hallada);
        assert forall|i: int| 0 <= i < g.len() implies !es_directiva(#[trigger] g[i], k) by {
            if i > 0 {
                assert(g[i] == reemplazar_desde(r, k2, nueva, hallada)[i - 1]);
            }
        }
        let g2 = seq![nueva] + reemplazar_desde(r, k2, nueva, true);
        assert forall|i: int| 0 <= i < g2.len() implies !es_directiva(#[trigger] g2[i], k) by {
            if i > 0 {
                assert(g2[i] == reemplazar_desde(r, k2, nueva, true)[i - 1]);
            }
        }
    }
}

/// Fijar una directiva neutra deja intacto un bloque de otra clave.
pub proof fn lema_aislado_unica(
    a: Seq<LineaV>,
    bl: Seq<LineaV>,
    b: Seq<LineaV>,
    k: Seq<char>,
    k2: Seq<char>,
    v: Option<Seq<char>>,
) -> (r: (Seq<LineaV>, Seq<LineaV>))
    requires
        sin_clave(a, k),
        sin_clave(b, k),
        sin_marca_final(a),
        bl.len() > 0,
        sin_clave(bl, k2),
        linea_gestionada(bl.last()),
        limpio(a + bl + b),
        clave_neutra(k2),
        claves_distintas(k, k2),
    ensures
        con_unica(a + bl + b, k2, v) == r.0 + bl + r.1,
        sin_clave(r.0, k),
        sin_clave(r.1, k),
        sin_marca_final(r.0),
{
    let x = a + bl + b;
    assert(x == a + (bl + b));
    lema_limpio_partes(a, bl + b);
    match valor_no_vacio(v) {
        None => {
            lema_sin_directiva_suma(a, bl + b, k2);
            lema_sin_directiva_suma(bl, b, k2);
            lema_sin_directiva_nada(bl, k2);
            let nula = directiva_nueva(k2, seq![]);
            lema_directiva_nueva(k2, seq![]);
            assert(!es_marca(nula)) by {
                assert(crate::config::parser::texto_comentario(nula) is None);
            }
            lema_quitar_sin_marca_final(a, k2, nula, false);
            assert(!es_directiva(nula, k)) by {
                assert(clave_normalizada(nula) == Some(minusculas(k2)));
            }
            lema_quitar_sin_clave(a, k2, k, nula, false);
            lema_quitar_sin_clave(b, k2, k, nula, false);
            let r0 = sin_directiva(a, k2);
            let r1 = sin_directiva(b, k2);
            assert(sin_directiva(x, k2) == r0 + (bl + r1));
            assert(r0 + (bl + r1) =~= r0 + bl + r1);
            (r0, r1)
        },
        Some(y) => {
            let nueva = directiva_nueva(k2, y);
            lema_directiva_nueva(k2, y);
            assert(!es_marca(nueva)) by {
                assert(crate::config::parser::texto_comentario(nueva) is None);
            }
            assert(!es_directiva(nueva, k));
            lema_quitar_sin_clave(a, k2, k, nueva, false);
            match primera_pos_directiva(x, k2) {
                Some(_) => {
                    lema_reemplazar_suma(a, bl + b, k2, nueva, false);
                    let ha = primera_pos_directiva(a, k2) is Some;
                    lema_reemplazar_suma(bl, b, k2, nueva, ha);
                    lema_reemplazar_nada(bl, k2, nueva, ha);
                    lema_quitar_sin_marca_final(a, k2, nueva, false);
                    lema_quitar_sin_clave(b, k2, k, nueva, ha);
                    let r0 = reemplazar_desde(a, k2, nueva, false);
                    let r1 = reemplazar_desde(b, k2, nueva, ha);
                    assert(con_unica(x, k2, v) == r0 + (bl + r1));
                    assert(r0 + (bl + r1) =~= r0 + bl + r1);
                    (r0, r1)
                },
                None => {
                    let fin_bloque = (a.len() + bl.len()) as int;
                    assert(x[fin_bloque - 1] == bl.last());
                    lema_punto_tras(x, fin_bloque - 1);
                    crate::config::writer::lema_punto_de_insercion(x);
                    let i = punto_de_insercion(x);
                    let j = i - fin_bloque;
                    let r1 = b.insert(j, nueva);
                    assert(x.insert(i, nueva) =~= a + bl + r1);
                    assert forall|t: int| 0 <= t < r1.len() implies !es_directiva(#[trigger] r1[t], k) by {
                        if t < j {
                            assert(r1[t] == b[t]);
                        } else if t > j {
                            assert(r1[t] == b[t - 1]);
                        }
                    }
                    (a, r1)
                },
            }
        },
    }
}


// --- Tras el paso propio, el bloque queda aislado ------------------------------------------

pub proof fn lema_sin_directiva_sin_clave(ls: Seq<LineaV>, k: Seq<char>)
    ensures
        sin_clave(sin_directiva(ls, k), k),
        sin_directiva(ls, k).len() <= ls.len(),
    decreases ls.len(),
{
    if ls.len() > 0 {
        lema_sin_directiva_sin_clave(ls.drop_first(), k);
        if !es_directiva(ls[0], k) {
            let f = seq![ls[0]] + sin_directiva(ls.drop_first(), k);
            assert forall|i: int| 0 <= i < f.len() implies !es_directiva(#[trigger] f[i], k) by {
                if i > 0 {
                    assert(f[i] == sin_directiva(ls.drop_first(), k)[i - 1]);
                }
            }
        }
    }
}

/// Tras reescribir una directiva de varios valores, sus líneas forman un
/// bloque seguido que no va detrás de una marca.
pub proof fn lema_propia_multiple(ls: Seq<LineaV>, k: Seq<char>, vs: Seq<Seq<char>>) -> (r: (
    Seq<LineaV>,
    Seq<LineaV>,
))
    requires
        limpio(ls),
        clave_neutra(k),
    ensures
        con_multiple(ls, k, vs) == r.0 + directivas_nuevas(k, vs) + r.1,
        sin_clave(r.0, k),
        sin_clave(r.1, k),
        sin_marca_final(r.0),
{
    let destino = match primera_pos_directiva(ls, k) {
        Some(q) => q,
        None => punto_de_insercion(ls),
    };
    lema_primera_pos_directiva(ls, k);
    lema_punto_sin_marca(ls);
    let s = sin_directiva(ls, k);
    lema_sin_directiva_sin_clave(ls, k);
    let d = minimo(destino, s.len() as int);
    match primera_pos_directiva(ls, k) {
        Some(q) => {
            lema_sin_directiva_prefijo(ls, k, q);
            assert(d == q);
            if q > 0 {
                assert(s[q - 1] == s.take(q)[q - 1]);
                assert(s[q - 1] == ls[q - 1]);
                if es_marca(ls[q - 1]) {
                    lema_limpio_en(ls, q - 1);
                    assert(relevante(ls[q]));
                }
            }
        },
        None => {
            lema_sin_directiva_prefijo(ls, k, ls.len() as int);
            assert(ls.take(ls.len() as int) =~= ls);
            assert(s.take(ls.len() as int) =~= s);
            assert(s == ls);
        },
    }
    let a = s.take(d);
    let b = s.skip(d);
    assert forall|i: int| 0 <= i < a.len() implies !es_directiva(#[trigger] a[i], k) by {
        assert(a[i] == s[i]);
    }
    assert forall|i: int| 0 <= i < b.len() implies !es_directiva(#[trigger] b[i], k) by {
        assert(b[i] == s[i + d]);
    }
    if d > 0 {
        assert(a.last() == s[d - 1]);
    }
    (a, b)
}

/// Tras reescribir los reenvíos de una directiva, sus líneas forman un bloque
/// seguido que no va detrás de una marca.
pub proof fn lema_propia_reenvios(ls: Seq<LineaV>, k: Seq<char>, rs: Seq<ReenvioV>) -> (r: (
    Seq<LineaV>,
    Seq<LineaV>,
))
    requires
        limpio(ls),
    ensures
        con_reenvios(ls, k, rs) == r.0 + lineas_reenvios(k, rs) + r.1,
        sin_clave(r.0, k),
        sin_clave(r.1, k),
        sin_marca_final(r.0),
{
    let destino = match primera_pos_directiva(ls, k) {
        Some(q) => q,
        None => punto_de_insercion(ls),
    };
    lema_primera_pos_directiva(ls, k);
    lema_punto_sin_marca(ls);
    let kk = conservadas_hasta(ls, k, ls.len() as int);
    lema_conservadas_borrado(ls, k);
    lema_conservadas_prefijo(ls, k, destino, ls.len() as int);
    let a = conservadas_hasta(ls, k, destino);
    let d = minimo(a.len() as int, kk.len() as int);
    assert(kk.take(d) == a);
    let b = kk.skip(d);
    match primera_pos_directiva(ls, k) {
        Some(q) => {
            lema_conservadas_sin_marca_final(ls, k, q);
        },
        None => {
            lema_conservadas_todas(ls, k, destino);
            if destino > 0 {
                assert(a.last() == ls[destino - 1]);
            }
        },
    }
    lema_borrado_sin_clave(ls, k);
    assert forall|i: int| 0 <= i < a.len() implies !es_directiva(#[trigger] a[i], k) by {
        assert(a[i] == kk[i]);
    }
    assert forall|i: int| 0 <= i < b.len() implies !es_directiva(#[trigger] b[i], k) by {
        assert(b[i] == kk[i + d]);
    }
    (a, b)
}

// --- Sobre un bloque aislado, el paso propio no cambia nada --------------------------------

pub proof fn lema_multiple_fija(
    a: Seq<LineaV>,
    b: Seq<LineaV>,
    k: Seq<char>,
    vs: Seq<Seq<char>>,
)
    requires
        sin_clave(a, k),
        sin_clave(b, k),
        clave_escrita(k),
    ensures
        con_multiple(a + directivas_nuevas(k, vs) + b, k, vs) == a + directivas_nuevas(k, vs) + b,
{
    let n = directivas_nuevas(k, vs);
    let x = a + n + b;
    assert forall|i: int| 0 <= i < n.len() implies es_directiva(#[trigger] n[i], k) by {
        lema_directiva_nueva(k, vs[i]);
    }
    lema_sin_directiva_suma(a + n, b, k);
    lema_sin_directiva_suma(a, n, k);
    lema_sin_directiva_nada(a, k);
    lema_sin_directiva_nada(b, k);
    assert(sin_directiva(n, k) =~= Seq::<LineaV>::empty()) by {
        lema_sin_directiva_sin_clave(n, k);
        if sin_directiva(n, k).len() > 0 {
            lema_sin_directiva_quita(n, k);
        }
    }
    let s = sin_directiva(x, k);
    assert(s == a + b);
    if n.len() > 0 {
        assert forall|j: int| 0 <= j < a.len() implies !es_directiva(#[trigger] x[j], k) by {
            assert(x[j] == a[j]);
        }
        assert(x[a.len() as int] == n[0]);
        lema_primera_pos_directiva_en(x, k, a.len() as int);
        assert(minimo(a.len() as int, s.len() as int) == a.len());
        assert(s.take(a.len() as int) =~= a);
        assert(s.skip(a.len() as int) =~= b);
    } else {
        assert(x =~= a + b);
        assert forall|j: int| 0 <= j < x.len() implies !es_directiva(#[trigger] x[j], k) by {
            if j < a.len() {
                assert(x[j] == a[j]);
            } else {
                assert(x[j] == b[j - a.len()]);
            }
        }
        lema_primera_pos_directiva(x, k);
        crate::config::writer::lema_punto_de_insercion(x);
        let d = punto_de_insercion(x);
        assert(x.take(d) + n + x.skip(d) =~= x);
    }
}

/// Una directiva que se lee de unas líneas sin esa directiva no queda.
proof fn lema_sin_directiva_quita(n: Seq<LineaV>, k: Seq<char>)
    requires
        forall|i: int| 0 <= i < n.len() ==> es_directiva(#[trigger] n[i], k),
    ensures
        sin_directiva(n, k).len() == 0,
    decreases n.len(),
{
    if n.len() > 0 {
        assert forall|i: int| 0 <= i < n.drop_first().len() implies es_directiva(#[trigger] n.drop_first()[i], k) by {
            assert(n.drop_first()[i] == n[i + 1]);
        }
        lema_sin_directiva_quita(n.drop_first(), k);
    }
}


/// En unas líneas hechas de marcas y directivas `k` que no acaban en marca se
/// borra todo.
proof fn lema_todo_se_borra(ls: Seq<LineaV>, k: Seq<char>, i: int)
    requires
        forall|j: int| 0 <= j < ls.len() ==> es_marca(#[trigger] ls[j]) || es_directiva(ls[j], k),
        sin_marca_final(ls),
        0 <= i < ls.len(),
    ensures
        a_borrar(ls, k, i),
    decreases ls.len() - i,
{
    if !es_directiva(ls[i], k) {
        assert(es_marca(ls[i]));
        assert(i + 1 < ls.len());
        lema_todo_se_borra(ls, k, i + 1);
    }
}

proof fn lema_conservadas_nada(ls: Seq<LineaV>, k: Seq<char>, n: int)
    requires
        forall|j: int| 0 <= j < ls.len() ==> es_marca(#[trigger] ls[j]) || es_directiva(ls[j], k),
        sin_marca_final(ls),
        0 <= n <= ls.len(),
    ensures
        conservadas_hasta(ls, k, n) == Seq::<LineaV>::empty(),
    decreases n,
{
    if n > 0 {
        lema_conservadas_nada(ls, k, n - 1);
        lema_todo_se_borra(ls, k, n - 1);
        assert(Seq::<LineaV>::empty() + Seq::<LineaV>::empty() =~= Seq::<LineaV>::empty());
    }
}

pub proof fn lema_reenvios_fijos(
    a: Seq<LineaV>,
    b: Seq<LineaV>,
    k: Seq<char>,
    rs: Seq<ReenvioV>,
)
    requires
        sin_clave(a, k),
        sin_clave(b, k),
        sin_marca_final(a),
        sin_marca_final(b),
        clave_escrita(k),
    ensures
        con_reenvios(a + lineas_reenvios(k, rs) + b, k, rs) == a + lineas_reenvios(k, rs) + b,
{
    let w = lineas_reenvios(k, rs);
    let x = a + w + b;
    lema_lineas_reenvios(k, rs);
    if w.len() > 0 {
        // Lo conservado es todo menos los grupos escritos.
        assert(x == a + (w + b));
        lema_borrado_suma(a, w + b, k);
        lema_borrado_suma(w, b, k);
        lema_borrado_nada(a, k);
        lema_borrado_nada(b, k);
        lema_conservadas_nada(w, k, w.len() as int);
        lema_conservadas_borrado(w, k);
        lema_conservadas_borrado(x, k);
        let kk = conservadas_hasta(x, k, x.len() as int);
        assert(kk == a + b);
        // La primera directiva está en los grupos escritos.
        lema_primera_pos_directiva(x, k);
        let p = primera_pos_directiva(x, k)->Some_0;
        assert(x[w.len() - 1 + a.len()] == w.last());
        assert(es_directiva(w.last(), k)) by {
            assert(w[w.len() - 1] == w.last());
        }
        assert(primera_pos_directiva(x, k) is Some) by {
            if primera_pos_directiva(x, k) is None {
                assert(!es_directiva(x[w.len() - 1 + a.len()], k));
            }
        }
        if p < a.len() {
            assert(x[p] == a[p]);
        }
        if p >= a.len() + w.len() {
            assert(x[p] == b[p - a.len() - w.len()]);
        }
        assert(a.len() <= p < a.len() + w.len());
        let j = p - a.len();
        lema_conservadas_tras(a, w + b, k, j);
        lema_conservadas_antes(w, b, k, j);
        lema_conservadas_nada(w, k, j);
        assert(conservadas_hasta(x, k, p) == borrado(a, k) + Seq::<LineaV>::empty());
        assert(conservadas_hasta(x, k, p) =~= a);
        assert(minimo(a.len() as int, kk.len() as int) == a.len());
        assert(kk.take(a.len() as int) =~= a);
        assert(kk.skip(a.len() as int) =~= b);
    } else {
        assert(x =~= a + b);
        assert forall|t: int| 0 <= t < x.len() implies !es_directiva(#[trigger] x[t], k) by {
            if t < a.len() {
                assert(x[t] == a[t]);
            } else {
                assert(x[t] == b[t - a.len()]);
            }
        }
        lema_primera_pos_directiva(x, k);
        crate::config::writer::lema_punto_de_insercion(x);
        lema_conservadas_todas(x, k, x.len() as int);
        let d = punto_de_insercion(x);
        lema_conservadas_todas(x, k, d);
        assert(x.take(x.len() as int) =~= x);
        assert(x.take(d).len() == d);
        assert(x.take(d) + w + x.skip(d) =~= x);
    }
}


// --- Directivas de un valor ya escritas --------------------------------------------------

/// Sin directivas `k` a la vista del filtro, no hay ninguna.
pub proof fn lema_filtro_vacio_sin_clave(x: Seq<LineaV>, k: Seq<char>)
    requires
        x.filter(de_clave(minusculas(k))) == Seq::<LineaV>::empty(),
    ensures
        sin_clave(x, k),
{
    let p = de_clave(minusculas(k));
    assert forall|i: int| 0 <= i < x.len() implies !es_directiva(#[trigger] x[i], k) by {
        if es_directiva(x[i], k) {
            assert(p(x[i]));
            x.lemma_filter_contains(p, i);
            assert(x.filter(p).contains(x[i]));
        }
    }
}

proof fn lema_reemplazar_fija(x: Seq<LineaV>, k: Seq<char>, nueva: LineaV)
    requires
        x.filter(de_clave(minusculas(k))) == seq![nueva],
    ensures
        reemplazar_desde(x, k, nueva, false) == x,
        primera_pos_directiva(x, k) is Some,
    decreases x.len(),
{
    let p = de_clave(minusculas(k));
    if x.len() == 0 {
        reveal(Seq::filter);
    } else {
        let y = x[0];
        let r = x.drop_first();
        assert(x =~= seq![y] + r);
        lema_filtro_delante(y, r, p);
        if es_directiva(y, k) {
            assert(seq![y] + r.filter(p) == seq![nueva]);
            assert((seq![y] + r.filter(p))[0] == y);
            assert(y == nueva);
            assert(r.filter(p).len() == 0);
            assert(r.filter(p) =~= Seq::<LineaV>::empty());
            lema_filtro_vacio_sin_clave(r, k);
            lema_reemplazar_nada(r, k, nueva, true);
        } else {
            assert(Seq::<LineaV>::empty() + r.filter(p) =~= r.filter(p));
            lema_reemplazar_fija(r, k, nueva);
        }
    }
}

/// Con la directiva ya escrita una sola vez, fijarla otra vez no cambia nada.
pub proof fn lema_unica_fija(x: Seq<LineaV>, k: Seq<char>, v: Option<Seq<char>>)
    requires
        x.filter(de_clave(minusculas(k))) == match valor_no_vacio(v) {
            Some(y) => seq![directiva_nueva(k, y)],
            None => Seq::<LineaV>::empty(),
        },
    ensures
        con_unica(x, k, v) == x,
{
    match valor_no_vacio(v) {
        Some(y) => {
            lema_reemplazar_fija(x, k, directiva_nueva(k, y));
        },
        None => {
            lema_filtro_vacio_sin_clave(x, k);
            lema_sin_directiva_nada(x, k);
        },
    }
}

/// Las directivas fijas del final quedan escritas una sola vez.
proof fn lema_fijas_escritas(c: Seq<LineaV>, h: crate::modelo::HostV)
    ensures
        cuerpo_sincronizado(c, h).filter(de_clave(minusculas("ExitOnForwardFailure"@))) == seq![
            directiva_nueva("ExitOnForwardFailure"@, "yes"@),
        ],
        cuerpo_sincronizado(c, h).filter(de_clave(minusculas("ServerAliveInterval"@))) == seq![
            directiva_nueva("ServerAliveInterval"@, "15"@),
        ],
        cuerpo_sincronizado(c, h).filter(de_clave(minusculas("ServerAliveCountMax"@))) == seq![
            directiva_nueva("ServerAliveCountMax"@, "3"@),
        ],
        cuerpo_sincronizado(c, h).filter(de_clave(minusculas("TCPKeepAlive"@))) == seq![
            directiva_nueva("TCPKeepAlive"@, "yes"@),
        ],
{
    lema_claves_gestionadas();
    reveal_strlit("yes");
    reveal_strlit("15");
    reveal_strlit("3");
    reveal_strlit("exitonforwardfailure");
    reveal_strlit("serveraliveinterval");
    reveal_strlit("serveralivecountmax");
    reveal_strlit("tcpkeepalive");
    assert(crate::texto::recortado("yes"@) == "yes"@) by {
        crate::texto::lema_recortado_sin_bordes("yes"@);
    }
    assert(crate::texto::recortado("15"@) == "15"@) by {
        crate::texto::lema_recortado_sin_bordes("15"@);
    }
    assert(crate::texto::recortado("3"@) == "3"@) by {
        crate::texto::lema_recortado_sin_bordes("3"@);
    }
    let e8 = etapa_dinamicos(c, h);
    let f1 = con_unica(e8, "ExitOnForwardFailure"@, Some("yes"@));
    let f2 = con_unica(f1, "ServerAliveInterval"@, Some("15"@));
    let f3 = con_unica(f2, "ServerAliveCountMax"@, Some("3"@));
    let f4 = con_unica(f3, "TCPKeepAlive"@, Some("yes"@));
    crate::config::vuelta::lema_etapas(c, h);
    assert(cuerpo_sincronizado(c, h) == f4);
    let pe = de_clave("exitonforwardfailure"@);
    let pi = de_clave("serveraliveinterval"@);
    let pc = de_clave("serveralivecountmax"@);
    let pt = de_clave("tcpkeepalive"@);
    assert("serveraliveinterval"@[0] != "exitonforwardfailure"@[0]);
    assert("serveralivecountmax"@[0] != "exitonforwardfailure"@[0]);
    assert("tcpkeepalive"@[0] != "exitonforwardfailure"@[0]);
    assert("serveralivecountmax"@[11] != "serveraliveinterval"@[11]);
    assert("tcpkeepalive"@[0] != "serveraliveinterval"@[0]);
    assert("tcpkeepalive"@[0] != "serveralivecountmax"@[0]);
    lema_propia_con_unica(e8, "ExitOnForwardFailure"@, Some("yes"@));
    lema_filtro_con_unica(f1, "ServerAliveInterval"@, Some("15"@), pe);
    lema_filtro_con_unica(f2, "ServerAliveCountMax"@, Some("3"@), pe);
    lema_filtro_con_unica(f3, "TCPKeepAlive"@, Some("yes"@), pe);
    lema_propia_con_unica(f1, "ServerAliveInterval"@, Some("15"@));
    lema_filtro_con_unica(f2, "ServerAliveCountMax"@, Some("3"@), pi);
    lema_filtro_con_unica(f3, "TCPKeepAlive"@, Some("yes"@), pi);
    lema_propia_con_unica(f2, "ServerAliveCountMax"@, Some("3"@));
    lema_filtro_con_unica(f3, "TCPKeepAlive"@, Some("yes"@), pc);
    lema_propia_con_unica(f3, "TCPKeepAlive"@, Some("yes"@));
}


// --- La nota va la primera ---------------------------------------------------------------

/// Ninguna línea es una nota.
pub open spec fn sin_notas_en(ls: Seq<LineaV>) -> bool {
    forall|i: int| 0 <= i < ls.len() ==> !es_nota(#[trigger] ls[i])
}

/// El cuerpo empieza por la nota y no tiene otra.
pub open spec fn nota_primero(x: Seq<LineaV>, n: Seq<char>) -> bool {
    &&& x.len() > 0
    &&& x[0] == linea_nota(n)
    &&& sin_notas_en(x.drop_first())
}

proof fn lema_quitar_sin_notas(ls: Seq<LineaV>, k2: Seq<char>, nueva: LineaV, hallada: bool)
    requires
        sin_notas_en(ls),
        !es_nota(nueva),
    ensures
        sin_notas_en(sin_directiva(ls, k2)),
        sin_notas_en(reemplazar_desde(ls, k2, nueva, hallada)),
        sin_notas_en(borrado(ls, k2)),
    decreases ls.len(),
{
    if ls.len() > 0 {
        let x = ls[0];
        let r = ls.drop_first();
        assert forall|i: int| 0 <= i < r.len() implies !es_nota(#[trigger] r[i]) by {
            assert(r[i] == ls[i + 1]);
        }
        assert(!es_nota(x));
        lema_quitar_sin_notas(r, k2, nueva, true);
        lema_quitar_sin_notas(r, k2, nueva, hallada);
        let f = seq![x] + sin_directiva(r, k2);
        assert forall|i: int| 0 <= i < f.len() implies !es_nota(#[trigger] f[i]) by {
            if i > 0 {
                assert(f[i] == sin_directiva(r, k2)[i - 1]);
            }
        }
        let g = seq![x] + reemplazar_desde(r, k2, nueva, hallada);
        assert forall|i: int| 0 <= i < g.len() implies !es_nota(#[trigger] g[i]) by {
            if i > 0 {
                assert(g[i] == reemplazar_desde(r, k2, nueva, hallada)[i - 1]);
            }
        }
        let g2 = seq![nueva] + reemplazar_desde(r, k2, nueva, true);
        assert forall|i: int| 0 <= i < g2.len() implies !es_nota(#[trigger] g2[i]) by {
            if i > 0 {
                assert(g2[i] == reemplazar_desde(r, k2, nueva, true)[i - 1]);
            }
        }
        let h = seq![x] + borrado(r, k2);
        assert forall|i: int| 0 <= i < h.len() implies !es_nota(#[trigger] h[i]) by {
            if i > 0 {
                assert(h[i] == borrado(r, k2)[i - 1]);
            }
        }
    }
}

/// Tras un comentario al principio, el punto de inserción no es el cero.
proof fn lema_punto_tras_comentario(x: Seq<LineaV>)
    requires
        x.len() > 0,
        x[0].clase is Comentario,
    ensures
        punto_de_insercion(x) >= 1,
{
    lema_ultima_gestionada_es(x);
    crate::config::grupos::lema_ultima_directiva_es(x);
    match ultima_gestionada(x) {
        Some(q) => {
            if q == 0 {
                assert(clave_normalizada(x[0]) is None);
            }
        },
        None => match ultima_directiva(x) {
            Some(q) => {
                if q == 0 {
                    assert(crate::config::parser::valor_de(x[0]) is None);
                }
            },
            None => {},
        },
    }
}

proof fn lema_nota_es_comentario(n: Seq<char>)
    ensures
        linea_nota(n).clase is Comentario,
        es_nota(linea_nota(n)),
        !es_marca(linea_nota(n)),
        forall|k: Seq<char>| !es_directiva(#[trigger] linea_nota(n), k),
{
    lema_linea_nota(n);
    lema_nota_no_es_marca();
    assert(notas()(linea_nota(n)));
}

/// Una directiva escrita no es una nota ni una marca.
proof fn lema_directiva_no_es_nota(k2: Seq<char>, y: Seq<char>)
    requires
        clave_escrita(k2),
    ensures
        !es_nota(directiva_nueva(k2, y)),
        !es_marca(directiva_nueva(k2, y)),
{
    lema_directiva_nueva(k2, y);
    assert(crate::config::parser::texto_comentario(directiva_nueva(k2, y)) is None);
}

pub proof fn lema_nota_unica(x: Seq<LineaV>, k2: Seq<char>, v: Option<Seq<char>>, n: Seq<char>)
    requires
        nota_primero(x, n),
        clave_escrita(k2),
    ensures
        nota_primero(con_unica(x, k2, v), n),
{
    let nt = linea_nota(n);
    let r = x.drop_first();
    lema_nota_es_comentario(n);
    assert(x =~= seq![nt] + r);
    let nula = directiva_nueva(k2, seq![]);
    lema_directiva_no_es_nota(k2, seq![]);
    lema_sin_directiva_suma(seq![nt], r, k2);
    assert(!es_directiva(nt, k2));
    assert(sin_directiva(seq![nt], k2) =~= seq![nt]) by {
        reveal_with_fuel(sin_directiva, 2);
        assert(seq![nt][0] == nt);
        assert(seq![nt].drop_first() =~= Seq::<LineaV>::empty());
    }
    match valor_no_vacio(v) {
        None => {
            lema_quitar_sin_notas(r, k2, nula, false);
            let y = sin_directiva(r, k2);
            assert((seq![nt] + y).drop_first() =~= y);
        },
        Some(w) => {
            let nueva = directiva_nueva(k2, w);
            lema_directiva_no_es_nota(k2, w);
            match primera_pos_directiva(x, k2) {
                Some(_) => {
                    lema_reemplazar_suma(seq![nt], r, k2, nueva, false);
                    assert(reemplazar_desde(seq![nt], k2, nueva, false) =~= seq![nt]) by {
                        reveal_with_fuel(reemplazar_desde, 2);
                        assert(seq![nt][0] == nt);
                        assert(seq![nt].drop_first() =~= Seq::<LineaV>::empty());
                    }
                    assert(primera_pos_directiva(seq![nt], k2) is None) by {
                        reveal_with_fuel(primera_pos_directiva, 2);
                        assert(seq![nt][0] == nt);
                        assert(seq![nt].drop_first() =~= Seq::<LineaV>::empty());
                    }
                    lema_quitar_sin_notas(r, k2, nueva, false);
                    let y = reemplazar_desde(r, k2, nueva, false);
                    assert((seq![nt] + y).drop_first() =~= y);
                },
                None => {
                    lema_punto_tras_comentario(x);
                    crate::config::writer::lema_punto_de_insercion(x);
                    let i = punto_de_insercion(x);
                    let y = r.insert(i - 1, nueva);
                    assert(x.insert(i, nueva) =~= seq![nt] + y);
                    assert((seq![nt] + y).drop_first() =~= y);
                    assert forall|t: int| 0 <= t < y.len() implies !es_nota(#[trigger] y[t]) by {
                        if t < i - 1 {
                            assert(y[t] == r[t]);
                        } else if t > i - 1 {
                            assert(y[t] == r[t - 1]);
                        }
                    }
                },
            }
        },
    }
}

pub proof fn lema_nota_multiple(x: Seq<LineaV>, k2: Seq<char>, vs: Seq<Seq<char>>, n: Seq<char>)
    requires
        nota_primero(x, n),
        clave_escrita(k2),
    ensures
        nota_primero(con_multiple(x, k2, vs), n),
{
    let nt = linea_nota(n);
    let r = x.drop_first();
    lema_nota_es_comentario(n);
    assert(x =~= seq![nt] + r);
    let destino = match primera_pos_directiva(x, k2) {
        Some(q) => q,
        None => punto_de_insercion(x),
    };
    lema_primera_pos_directiva(x, k2);
    lema_punto_tras_comentario(x);
    lema_sin_directiva_suma(seq![nt], r, k2);
    assert(!es_directiva(nt, k2));
    assert(sin_directiva(seq![nt], k2) =~= seq![nt]) by {
        reveal_with_fuel(sin_directiva, 2);
        assert(seq![nt][0] == nt);
        assert(seq![nt].drop_first() =~= Seq::<LineaV>::empty());
    }
    let sr = sin_directiva(r, k2);
    let s = sin_directiva(x, k2);
    assert(s == seq![nt] + sr);
    match primera_pos_directiva(x, k2) {
        Some(q) => {
            assert(q != 0);
        },
        None => {},
    }
    let d = minimo(destino, s.len() as int);
    assert(d >= 1);
    let nuevas = directivas_nuevas(k2, vs);
    let y = sr.take(d - 1) + nuevas + sr.skip(d - 1);
    assert(s.take(d) + nuevas + s.skip(d) =~= seq![nt] + y);
    assert((seq![nt] + y).drop_first() =~= y);
    let nula = directiva_nueva(k2, seq![]);
    lema_directiva_no_es_nota(k2, seq![]);
    lema_quitar_sin_notas(r, k2, nula, false);
    assert forall|t: int| 0 <= t < y.len() implies !es_nota(#[trigger] y[t]) by {
        if t < d - 1 {
            assert(y[t] == sr[t]);
        } else if t < d - 1 + nuevas.len() {
            assert(y[t] == nuevas[t - (d - 1)]);
            lema_directiva_no_es_nota(k2, vs[t - (d - 1)]);
        } else {
            assert(y[t] == sr[t - nuevas.len()]);
        }
    }
}

pub proof fn lema_nota_reenvios(x: Seq<LineaV>, k2: Seq<char>, rs: Seq<ReenvioV>, n: Seq<char>)
    requires
        nota_primero(x, n),
        clave_escrita(k2),
    ensures
        nota_primero(con_reenvios(x, k2, rs), n),
{
    let nt = linea_nota(n);
    let r = x.drop_first();
    lema_nota_es_comentario(n);
    assert(x =~= seq![nt] + r);
    let destino = match primera_pos_directiva(x, k2) {
        Some(q) => q,
        None => punto_de_insercion(x),
    };
    lema_primera_pos_directiva(x, k2);
    lema_punto_tras_comentario(x);
    match primera_pos_directiva(x, k2) {
        Some(q) => {
            assert(q != 0);
        },
        None => {},
    }
    assert(destino >= 1);
    let uno = seq![nt];
    assert(sin_marca_final(uno));
    lema_borrado_suma(uno, r, k2);
    assert(uno.drop_first() =~= Seq::<LineaV>::empty());
    assert(uno[0] == nt);
    assert(!es_directiva(nt, k2));
    assert(!a_borrar(uno, k2, 0));
    assert(borrado(uno, k2) =~= uno) by {
        reveal_with_fuel(borrado, 2);
    }
    lema_conservadas_borrado(x, k2);
    let kk = conservadas_hasta(x, k2, x.len() as int);
    let br = borrado(r, k2);
    assert(kk == uno + br);
    lema_conservadas_antes(uno, r, k2, 1);
    lema_conservadas_borrado(uno, k2);
    assert(conservadas_hasta(uno, k2, 1) == uno);
    crate::config::writer::lema_punto_de_insercion(x);
    lema_conservadas_prefijo(x, k2, 1, destino);
    lema_conservadas_prefijo(x, k2, destino, x.len() as int);
    let a2 = conservadas_hasta(x, k2, destino);
    let e = a2.len() as int;
    assert(e >= 1);
    assert(minimo(e, kk.len() as int) == e);
    let w = lineas_reenvios(k2, rs);
    let y = br.take(e - 1) + w + br.skip(e - 1);
    assert(kk.take(e) + w + kk.skip(e) =~= uno + y);
    assert((uno + y).drop_first() =~= y);
    lema_lineas_reenvios(k2, rs);
    lema_nota_no_es_marca();
    let nula = directiva_nueva(k2, seq![]);
    lema_directiva_no_es_nota(k2, seq![]);
    lema_quitar_sin_notas(r, k2, nula, false);
    assert forall|t: int| 0 <= t < y.len() implies !es_nota(#[trigger] y[t]) by {
        if t < e - 1 {
            assert(y[t] == br[t]);
        } else if t < e - 1 + w.len() {
            let l = w[t - (e - 1)];
            assert(y[t] == l);
            if es_nota(l) {
                assert(notas()(l));
                if es_directiva(l, k2) {
                    assert(crate::config::parser::texto_comentario(l) is Some);
                }
            }
        } else {
            assert(y[t] == br[t - w.len()]);
        }
    }
}

/// Con la nota ya la primera, volver a ponerla no cambia nada.
pub proof fn lema_nota_fija(x: Seq<LineaV>, n: Seq<char>)
    requires
        nota_primero(x, n),
        recortado(n).len() > 0,
    ensures
        con_nota(sin_notas(x), Some(n)) == x,
{
    let nt = linea_nota(n);
    let r = x.drop_first();
    lema_nota_es_comentario(n);
    reveal_strlit("    # nota: ");
    assert(sin_notas(x) == sin_notas(r));
    lema_sin_notas_nada(r);
    assert(seq![linea_de_nota(n)] + r =~= x);
}

spec fn linea_de_nota(n: Seq<char>) -> LineaV {
    crate::config::parser::linea_de("    # nota: "@ + recortado(n))
}

proof fn lema_sin_notas_nada(ls: Seq<LineaV>)
    requires
        sin_notas_en(ls),
    ensures
        sin_notas(ls) == ls,
    decreases ls.len(),
{
    if ls.len() > 0 {
        let r = ls.drop_first();
        assert forall|i: int| 0 <= i < r.len() implies !es_nota(#[trigger] r[i]) by {
            assert(r[i] == ls[i + 1]);
        }
        assert(!es_nota(ls[0]));
        lema_sin_notas_nada(r);
        assert(seq![ls[0]] + r =~= ls);
    }
}


// --- La ley ---------------------------------------------------------------------------------

/// Las etapas finales de la sincronización, tras los reenvíos.
pub open spec fn fija_1(c: Seq<LineaV>, h: HostV) -> Seq<LineaV> {
    con_unica(etapa_dinamicos(c, h), "ExitOnForwardFailure"@, Some("yes"@))
}

pub open spec fn fija_2(c: Seq<LineaV>, h: HostV) -> Seq<LineaV> {
    con_unica(fija_1(c, h), "ServerAliveInterval"@, Some("15"@))
}

pub open spec fn fija_3(c: Seq<LineaV>, h: HostV) -> Seq<LineaV> {
    con_unica(fija_2(c, h), "ServerAliveCountMax"@, Some("3"@))
}

proof fn lema_escrita(k: Seq<char>)
    requires
        clave_gestionada(k),
    ensures
        clave_escrita(k),
{
}

/// Todas las etapas de sincronizar un cuerpo limpio están limpias.
proof fn lema_limpias(c: Seq<LineaV>, h: HostV)
    requires
        limpio(c),
    ensures
        limpio(etapa_nota(c, h)),
        limpio(etapa_hostname(c, h)),
        limpio(etapa_usuario(c, h)),
        limpio(etapa_puerto(c, h)),
        limpio(etapa_saltos(c, h)),
        limpio(etapa_identidades(c, h)),
        limpio(etapa_locales(c, h)),
        limpio(etapa_remotos(c, h)),
        limpio(etapa_dinamicos(c, h)),
        limpio(fija_1(c, h)),
        limpio(fija_2(c, h)),
        limpio(fija_3(c, h)),
        limpio(cuerpo_sincronizado(c, h)),
{
    lema_claves_neutras();
    lema_claves_gestionadas();
    lema_claves_de_tipo();
    lema_escrita("LocalForward"@);
    lema_escrita("RemoteForward"@);
    lema_escrita("DynamicForward"@);
    lema_limpio_con_nota(c, h.nota);
    lema_limpio_con_unica(etapa_nota(c, h), "HostName"@, h.hostname);
    lema_limpio_con_unica(etapa_hostname(c, h), "User"@, h.usuario);
    lema_limpio_con_unica(etapa_usuario(c, h), "Port"@, texto_puerto(h.puerto));
    lema_limpio_con_unica(etapa_puerto(c, h), "ProxyJump"@, texto_saltos(h.saltos));
    lema_limpio_con_multiple(etapa_saltos(c, h), "IdentityFile"@, h.identidades);
    lema_limpio_con_reenvios(
        etapa_identidades(c, h),
        "LocalForward"@,
        del_tipo(h.reenvios, TipoReenvio::Local),
        TipoReenvio::Local,
    );
    lema_limpio_con_reenvios(
        etapa_locales(c, h),
        "RemoteForward"@,
        del_tipo(h.reenvios, TipoReenvio::Remoto),
        TipoReenvio::Remoto,
    );
    lema_limpio_con_reenvios(
        etapa_remotos(c, h),
        "DynamicForward"@,
        del_tipo(h.reenvios, TipoReenvio::Dinamico),
        TipoReenvio::Dinamico,
    );
    lema_limpio_con_unica(etapa_dinamicos(c, h), "ExitOnForwardFailure"@, Some("yes"@));
    lema_limpio_con_unica(fija_1(c, h), "ServerAliveInterval"@, Some("15"@));
    lema_limpio_con_unica(fija_2(c, h), "ServerAliveCountMax"@, Some("3"@));
    lema_limpio_con_unica(fija_3(c, h), "TCPKeepAlive"@, Some("yes"@));
    lema_etapas(c, h);
}

/// Las cuatro directivas fijas del final, sobre un bloque aislado.
proof fn lema_aislado_fijas(
    c: Seq<LineaV>,
    h: HostV,
    a: Seq<LineaV>,
    bl: Seq<LineaV>,
    b: Seq<LineaV>,
    k: Seq<char>,
) -> (r: (Seq<LineaV>, Seq<LineaV>))
    requires
        limpio(c),
        etapa_dinamicos(c, h) == a + bl + b,
        sin_clave(a, k),
        sin_clave(b, k),
        sin_marca_final(a),
        bl.len() > 0,
        linea_gestionada(bl.last()),
        sin_clave(bl, "ExitOnForwardFailure"@),
        sin_clave(bl, "ServerAliveInterval"@),
        sin_clave(bl, "ServerAliveCountMax"@),
        sin_clave(bl, "TCPKeepAlive"@),
        claves_distintas(k, "ExitOnForwardFailure"@),
        claves_distintas(k, "ServerAliveInterval"@),
        claves_distintas(k, "ServerAliveCountMax"@),
        claves_distintas(k, "TCPKeepAlive"@),
    ensures
        cuerpo_sincronizado(c, h) == r.0 + bl + r.1,
        sin_clave(r.0, k),
        sin_clave(r.1, k),
        sin_marca_final(r.0),
{
    lema_limpias(c, h);
    lema_claves_neutras();
    let r1 = lema_aislado_unica(a, bl, b, k, "ExitOnForwardFailure"@, Some("yes"@));
    let r2 = lema_aislado_unica(r1.0, bl, r1.1, k, "ServerAliveInterval"@, Some("15"@));
    let r3 = lema_aislado_unica(r2.0, bl, r2.1, k, "ServerAliveCountMax"@, Some("3"@));
    let r4 = lema_aislado_unica(r3.0, bl, r3.1, k, "TCPKeepAlive"@, Some("yes"@));
    lema_etapas(c, h);
    r4
}


/// Las directivas de una clave escritas por la aplicación no son de otra.
proof fn lema_bloque_de(bl: Seq<LineaV>, k: Seq<char>, k2: Seq<char>)
    requires
        forall|i: int| 0 <= i < bl.len() ==> es_marca(#[trigger] bl[i]) || es_directiva(bl[i], k),
        claves_distintas(k, k2),
    ensures
        sin_clave(bl, k2),
{
    assert forall|i: int| 0 <= i < bl.len() implies !es_directiva(#[trigger] bl[i], k2) by {
        if es_directiva(bl[i], k2) {
            assert(crate::config::parser::texto_comentario(bl[i]) is None);
            assert(es_directiva(bl[i], k));
        }
    }
}

proof fn lema_distintas()
    ensures
        claves_distintas("IdentityFile"@, "LocalForward"@),
        claves_distintas("IdentityFile"@, "RemoteForward"@),
        claves_distintas("IdentityFile"@, "DynamicForward"@),
        claves_distintas("LocalForward"@, "RemoteForward"@),
        claves_distintas("LocalForward"@, "DynamicForward"@),
        claves_distintas("RemoteForward"@, "DynamicForward"@),
        forall|k: Seq<char>|
            (k == "IdentityFile"@ || k == "LocalForward"@ || k == "RemoteForward"@ || k
                == "DynamicForward"@) ==> {
                &&& claves_distintas(k, "ExitOnForwardFailure"@)
                &&& claves_distintas(k, "ServerAliveInterval"@)
                &&& claves_distintas(k, "ServerAliveCountMax"@)
                &&& claves_distintas(k, "TCPKeepAlive"@)
            },
{
    lema_claves_gestionadas();
    reveal_strlit("identityfile");
    reveal_strlit("localforward");
    reveal_strlit("remoteforward");
    reveal_strlit("dynamicforward");
    reveal_strlit("exitonforwardfailure");
    reveal_strlit("serveraliveinterval");
    reveal_strlit("serveralivecountmax");
    reveal_strlit("tcpkeepalive");
    let i = "identityfile"@;
    let l = "localforward"@;
    let r = "remoteforward"@;
    let d = "dynamicforward"@;
    let e = "exitonforwardfailure"@;
    let si = "serveraliveinterval"@;
    let sc = "serveralivecountmax"@;
    let t = "tcpkeepalive"@;
    assert(i[0] != l[0] && i[0] != r[0] && i[0] != d[0]);
    assert(l[0] != r[0] && l[0] != d[0] && r[0] != d[0]);
    assert(i[0] != e[0] && i[0] != si[0] && i[0] != sc[0] && i[0] != t[0]);
    assert(l[0] != e[0] && l[0] != si[0] && l[0] != sc[0] && l[0] != t[0]);
    assert(r[0] != e[0] && r[0] != si[0] && r[0] != sc[0] && r[0] != t[0]);
    assert(d[0] != e[0] && d[0] != si[0] && d[0] != sc[0] && d[0] != t[0]);
}

proof fn lema_directivas_de(k: Seq<char>, vs: Seq<Seq<char>>)
    requires
        clave_escrita(k),
    ensures
        forall|i: int|
            0 <= i < directivas_nuevas(k, vs).len() ==> es_directiva(
                #[trigger] directivas_nuevas(k, vs)[i],
                k,
            ) && !es_marca(directivas_nuevas(k, vs)[i]),
{
    assert forall|i: int| 0 <= i < directivas_nuevas(k, vs).len() implies es_directiva(
        #[trigger] directivas_nuevas(k, vs)[i],
        k,
    ) && !es_marca(directivas_nuevas(k, vs)[i]) by {
        lema_directiva_nueva(k, vs[i]);
        assert(crate::config::parser::texto_comentario(directivas_nuevas(k, vs)[i]) is None);
    }
}

/// Con identidades, su bloque queda aislado hasta el final.
proof fn lema_identidades_aisladas(c: Seq<LineaV>, h: HostV) -> (r: (Seq<LineaV>, Seq<LineaV>))
    requires
        limpio(c),
        directivas_nuevas("IdentityFile"@, h.identidades).len() > 0,
    ensures
        cuerpo_sincronizado(c, h) == r.0 + directivas_nuevas("IdentityFile"@, h.identidades) + r.1,
        sin_clave(r.0, "IdentityFile"@),
        sin_clave(r.1, "IdentityFile"@),
{
    let k = "IdentityFile"@;
    let n = directivas_nuevas(k, h.identidades);
    lema_claves_gestionadas();
    lema_claves_neutras();
    lema_limpias(c, h);
    lema_distintas();
    lema_escrita(k);
    lema_escrita("LocalForward"@);
    lema_escrita("RemoteForward"@);
    lema_escrita("DynamicForward"@);
    lema_directivas_de(k, h.identidades);
    let r0 = lema_propia_multiple(etapa_saltos(c, h), k, h.identidades);
    assert(linea_gestionada(n.last())) by {
        assert(n[n.len() - 1] == n.last());
    }
    lema_bloque_de(n, k, "LocalForward"@);
    lema_bloque_de(n, k, "RemoteForward"@);
    lema_bloque_de(n, k, "DynamicForward"@);
    lema_bloque_de(n, k, "ExitOnForwardFailure"@);
    lema_bloque_de(n, k, "ServerAliveInterval"@);
    lema_bloque_de(n, k, "ServerAliveCountMax"@);
    lema_bloque_de(n, k, "TCPKeepAlive"@);
    assert(sin_marca_final(n)) by {
        assert(n[n.len() - 1] == n.last());
    }
    let r1 = lema_aislado_reenvios(
        r0.0,
        n,
        r0.1,
        k,
        "LocalForward"@,
        del_tipo(h.reenvios, TipoReenvio::Local),
    );
    let r2 = lema_aislado_reenvios(
        r1.0,
        n,
        r1.1,
        k,
        "RemoteForward"@,
        del_tipo(h.reenvios, TipoReenvio::Remoto),
    );
    let r3 = lema_aislado_reenvios(
        r2.0,
        n,
        r2.1,
        k,
        "DynamicForward"@,
        del_tipo(h.reenvios, TipoReenvio::Dinamico),
    );
    lema_aislado_fijas(c, h, r3.0, n, r3.1, k)
}

/// Sin identidades, no queda ninguna.
proof fn lema_identidades_vacias(c: Seq<LineaV>, h: HostV)
    requires
        directivas_nuevas("IdentityFile"@, h.identidades).len() == 0,
    ensures
        sin_clave(cuerpo_sincronizado(c, h), "IdentityFile"@),
{
    let x = cuerpo_sincronizado(c, h);
    let n = directivas_nuevas("IdentityFile"@, h.identidades);
    lema_claves_gestionadas();
    lema_campos(c, h);
    lema_cola(c, h, "identityfile"@);
    assert(n =~= Seq::<LineaV>::empty());
    assert(x.filter(de_clave("identityfile"@)) == n);
    lema_filtro_vacio_sin_clave(x, "IdentityFile"@);
}

/// Sincronizar otra vez no mueve las identidades.
proof fn lema_estable_identidades(c: Seq<LineaV>, h: HostV)
    requires
        limpio(c),
    ensures
        con_multiple(cuerpo_sincronizado(c, h), "IdentityFile"@, h.identidades) == cuerpo_sincronizado(
            c,
            h,
        ),
{
    let x = cuerpo_sincronizado(c, h);
    let k = "IdentityFile"@;
    let n = directivas_nuevas(k, h.identidades);
    lema_claves_gestionadas();
    lema_escrita(k);
    if n.len() == 0 {
        lema_identidades_vacias(c, h);
        assert(x + n + Seq::<LineaV>::empty() =~= x);
        assert(sin_clave(Seq::<LineaV>::empty(), k));
        lema_multiple_fija(x, Seq::<LineaV>::empty(), k, h.identidades);
    } else {
        let r = lema_identidades_aisladas(c, h);
        lema_multiple_fija(r.0, r.1, k, h.identidades);
    }
}


/// Las directivas fijas del final no cambian lo que ve un filtro de otras claves.
proof fn lema_filtro_fijas(c: Seq<LineaV>, h: HostV, p: spec_fn(LineaV) -> bool)
    requires
        forall|l: LineaV| #[trigger] p(l) ==> !es_directiva(l, "ExitOnForwardFailure"@),
        forall|l: LineaV| #[trigger] p(l) ==> !es_directiva(l, "ServerAliveInterval"@),
        forall|l: LineaV| #[trigger] p(l) ==> !es_directiva(l, "ServerAliveCountMax"@),
        forall|l: LineaV| #[trigger] p(l) ==> !es_directiva(l, "TCPKeepAlive"@),
    ensures
        cuerpo_sincronizado(c, h).filter(p) == etapa_dinamicos(c, h).filter(p),
{
    lema_claves_gestionadas();
    lema_filtro_con_unica(etapa_dinamicos(c, h), "ExitOnForwardFailure"@, Some("yes"@), p);
    lema_filtro_con_unica(fija_1(c, h), "ServerAliveInterval"@, Some("15"@), p);
    lema_filtro_con_unica(fija_2(c, h), "ServerAliveCountMax"@, Some("3"@), p);
    lema_filtro_con_unica(fija_3(c, h), "TCPKeepAlive"@, Some("yes"@), p);
    lema_etapas(c, h);
}

/// Un filtro de directivas de reenvío de una clave no ve marcas ni otras claves.
proof fn lema_filtro_reenvio_excluye(k: Seq<char>, k2: Seq<char>)
    requires
        claves_distintas(k, k2),
    ensures
        forall|l: LineaV| #[trigger] de_clave(minusculas(k))(l) ==> !es_directiva(l, k2) && !es_marca(l),
{
    assert forall|l: LineaV| #[trigger] de_clave(minusculas(k))(l) implies !es_directiva(l, k2) && !es_marca(l) by {
        assert(crate::config::parser::texto_comentario(l) is None);
    }
}

proof fn lema_sin_clave_filtro_vacio(x: Seq<LineaV>, k: Seq<char>)
    requires
        sin_clave(x, k),
    ensures
        x.filter(de_clave(minusculas(k))) == Seq::<LineaV>::empty(),
{
    let p = de_clave(minusculas(k));
    assert forall|i: int| 0 <= i < x.len() implies !p(#[trigger] x[i]) by {
        assert(!es_directiva(x[i], k));
    }
    lema_filtro_vacio(x, p);
}

/// Los grupos escritos de una clave forman un bloque que no acaba en marca.
proof fn lema_bloque_grupos(k: Seq<char>, rs: Seq<ReenvioV>)
    requires
        clave_escrita(k),
        lineas_reenvios(k, rs).len() > 0,
        es_gestionada_clave(k),
    ensures
        sin_marca_final(lineas_reenvios(k, rs)),
        linea_gestionada(lineas_reenvios(k, rs).last()),
        forall|i: int|
            0 <= i < lineas_reenvios(k, rs).len() ==> es_marca(#[trigger] lineas_reenvios(k, rs)[i])
                || es_directiva(lineas_reenvios(k, rs)[i], k),
{
    let w = lineas_reenvios(k, rs);
    lema_lineas_reenvios(k, rs);
    assert(w[w.len() - 1] == w.last());
    assert(!es_marca(w.last()));
    assert(es_directiva(w.last(), k));
}

pub open spec fn es_gestionada_clave(k: Seq<char>) -> bool {
    crate::config::writer::es_gestionada(minusculas(k))
}

proof fn lema_locales_aisladas(c: Seq<LineaV>, h: HostV) -> (r: (Seq<LineaV>, Seq<LineaV>))
    requires
        limpio(c),
        lineas_reenvios("LocalForward"@, del_tipo(h.reenvios, TipoReenvio::Local)).len() > 0,
    ensures
        cuerpo_sincronizado(c, h) == r.0 + lineas_reenvios(
            "LocalForward"@,
            del_tipo(h.reenvios, TipoReenvio::Local),
        ) + r.1,
        sin_clave(r.0, "LocalForward"@),
        sin_clave(r.1, "LocalForward"@),
        sin_marca_final(r.0),
{
    let k = "LocalForward"@;
    let rs = del_tipo(h.reenvios, TipoReenvio::Local);
    let w = lineas_reenvios(k, rs);
    lema_claves_gestionadas();
    lema_claves_neutras();
    lema_limpias(c, h);
    lema_distintas();
    lema_escrita(k);
    lema_escrita("RemoteForward"@);
    lema_escrita("DynamicForward"@);
    lema_bloque_grupos(k, rs);
    let r0 = lema_propia_reenvios(etapa_identidades(c, h), k, rs);
    lema_bloque_de(w, k, "RemoteForward"@);
    lema_bloque_de(w, k, "DynamicForward"@);
    lema_bloque_de(w, k, "ExitOnForwardFailure"@);
    lema_bloque_de(w, k, "ServerAliveInterval"@);
    lema_bloque_de(w, k, "ServerAliveCountMax"@);
    lema_bloque_de(w, k, "TCPKeepAlive"@);
    let r1 = lema_aislado_reenvios(
        r0.0,
        w,
        r0.1,
        k,
        "RemoteForward"@,
        del_tipo(h.reenvios, TipoReenvio::Remoto),
    );
    let r2 = lema_aislado_reenvios(
        r1.0,
        w,
        r1.1,
        k,
        "DynamicForward"@,
        del_tipo(h.reenvios, TipoReenvio::Dinamico),
    );
    lema_aislado_fijas(c, h, r2.0, w, r2.1, k)
}

proof fn lema_locales_vacias(c: Seq<LineaV>, h: HostV)
    requires
        limpio(c),
        lineas_reenvios("LocalForward"@, del_tipo(h.reenvios, TipoReenvio::Local)).len() == 0,
    ensures
        sin_clave(cuerpo_sincronizado(c, h), "LocalForward"@),
{
    let k = "LocalForward"@;
    let rs = del_tipo(h.reenvios, TipoReenvio::Local);
    lema_claves_gestionadas();
    lema_limpias(c, h);
    lema_distintas();
    lema_escrita(k);
    lema_escrita("RemoteForward"@);
    lema_escrita("DynamicForward"@);
    let r0 = lema_propia_reenvios(etapa_identidades(c, h), k, rs);
    let e6 = etapa_locales(c, h);
    assert(e6 =~= r0.0 + r0.1);
    assert forall|i: int| 0 <= i < e6.len() implies !es_directiva(#[trigger] e6[i], k) by {
        if i < r0.0.len() {
            assert(e6[i] == r0.0[i]);
        } else {
            assert(e6[i] == r0.1[i - r0.0.len()]);
        }
    }
    lema_sin_clave_filtro_vacio(e6, k);
    let p = de_clave(minusculas(k));
    lema_filtro_reenvio_excluye(k, "RemoteForward"@);
    lema_filtro_reenvio_excluye(k, "DynamicForward"@);
    lema_filtro_reenvio_excluye(k, "ExitOnForwardFailure"@);
    lema_filtro_reenvio_excluye(k, "ServerAliveInterval"@);
    lema_filtro_reenvio_excluye(k, "ServerAliveCountMax"@);
    lema_filtro_reenvio_excluye(k, "TCPKeepAlive"@);
    lema_filtro_con_reenvios(e6, "RemoteForward"@, del_tipo(h.reenvios, TipoReenvio::Remoto), p);
    lema_filtro_con_reenvios(
        etapa_remotos(c, h),
        "DynamicForward"@,
        del_tipo(h.reenvios, TipoReenvio::Dinamico),
        p,
    );
    lema_filtro_fijas(c, h, p);
    lema_filtro_vacio_sin_clave(cuerpo_sincronizado(c, h), k);
}

/// Sincronizar otra vez no mueve los reenvíos locales.
proof fn lema_estable_locales(c: Seq<LineaV>, h: HostV)
    requires
        limpio(c),
    ensures
        con_reenvios(cuerpo_sincronizado(c, h), "LocalForward"@, del_tipo(h.reenvios, TipoReenvio::Local))
            == cuerpo_sincronizado(c, h),
{
    let x = cuerpo_sincronizado(c, h);
    let k = "LocalForward"@;
    let rs = del_tipo(h.reenvios, TipoReenvio::Local);
    let w = lineas_reenvios(k, rs);
    lema_claves_gestionadas();
    lema_escrita(k);
    lema_limpias(c, h);
    lema_limpio_sin_marca_final(x);
    if w.len() == 0 {
        lema_locales_vacias(c, h);
        assert(x + w + Seq::<LineaV>::empty() =~= x);
        lema_reenvios_fijos(x, Seq::<LineaV>::empty(), k, rs);
    } else {
        let r = lema_locales_aisladas(c, h);
        lema_bloque_grupos(k, rs);
        if r.1.len() > 0 {
            assert(x.last() == r.1.last());
        }
        lema_reenvios_fijos(r.0, r.1, k, rs);
    }
}


proof fn lema_remotos_aislados(c: Seq<LineaV>, h: HostV) -> (r: (Seq<LineaV>, Seq<LineaV>))
    requires
        limpio(c),
        lineas_reenvios("RemoteForward"@, del_tipo(h.reenvios, TipoReenvio::Remoto)).len() > 0,
    ensures
        cuerpo_sincronizado(c, h) == r.0 + lineas_reenvios(
            "RemoteForward"@,
            del_tipo(h.reenvios, TipoReenvio::Remoto),
        ) + r.1,
        sin_clave(r.0, "RemoteForward"@),
        sin_clave(r.1, "RemoteForward"@),
        sin_marca_final(r.0),
{
    let k = "RemoteForward"@;
    let rs = del_tipo(h.reenvios, TipoReenvio::Remoto);
    let w = lineas_reenvios(k, rs);
    lema_claves_gestionadas();
    lema_claves_neutras();
    lema_limpias(c, h);
    lema_distintas();
    lema_escrita(k);
    lema_escrita("DynamicForward"@);
    lema_bloque_grupos(k, rs);
    let r0 = lema_propia_reenvios(etapa_locales(c, h), k, rs);
    lema_bloque_de(w, k, "DynamicForward"@);
    lema_bloque_de(w, k, "ExitOnForwardFailure"@);
    lema_bloque_de(w, k, "ServerAliveInterval"@);
    lema_bloque_de(w, k, "ServerAliveCountMax"@);
    lema_bloque_de(w, k, "TCPKeepAlive"@);
    let r1 = lema_aislado_reenvios(
        r0.0,
        w,
        r0.1,
        k,
        "DynamicForward"@,
        del_tipo(h.reenvios, TipoReenvio::Dinamico),
    );
    lema_aislado_fijas(c, h, r1.0, w, r1.1, k)
}

proof fn lema_remotos_vacios(c: Seq<LineaV>, h: HostV)
    requires
        limpio(c),
        lineas_reenvios("RemoteForward"@, del_tipo(h.reenvios, TipoReenvio::Remoto)).len() == 0,
    ensures
        sin_clave(cuerpo_sincronizado(c, h), "RemoteForward"@),
{
    let k = "RemoteForward"@;
    let rs = del_tipo(h.reenvios, TipoReenvio::Remoto);
    lema_claves_gestionadas();
    lema_limpias(c, h);
    lema_distintas();
    lema_escrita(k);
    lema_escrita("DynamicForward"@);
    let r0 = lema_propia_reenvios(etapa_locales(c, h), k, rs);
    let e7 = etapa_remotos(c, h);
    assert(e7 =~= r0.0 + r0.1);
    assert forall|i: int| 0 <= i < e7.len() implies !es_directiva(#[trigger] e7[i], k) by {
        if i < r0.0.len() {
            assert(e7[i] == r0.0[i]);
        } else {
            assert(e7[i] == r0.1[i - r0.0.len()]);
        }
    }
    lema_sin_clave_filtro_vacio(e7, k);
    let p = de_clave(minusculas(k));
    lema_filtro_reenvio_excluye(k, "DynamicForward"@);
    lema_filtro_reenvio_excluye(k, "ExitOnForwardFailure"@);
    lema_filtro_reenvio_excluye(k, "ServerAliveInterval"@);
    lema_filtro_reenvio_excluye(k, "ServerAliveCountMax"@);
    lema_filtro_reenvio_excluye(k, "TCPKeepAlive"@);
    lema_filtro_con_reenvios(e7, "DynamicForward"@, del_tipo(h.reenvios, TipoReenvio::Dinamico), p);
    lema_filtro_fijas(c, h, p);
    lema_filtro_vacio_sin_clave(cuerpo_sincronizado(c, h), k);
}

/// Sincronizar otra vez no mueve los reenvíos remotos.
proof fn lema_estable_remotos(c: Seq<LineaV>, h: HostV)
    requires
        limpio(c),
    ensures
        con_reenvios(cuerpo_sincronizado(c, h), "RemoteForward"@, del_tipo(h.reenvios, TipoReenvio::Remoto))
            == cuerpo_sincronizado(c, h),
{
    let x = cuerpo_sincronizado(c, h);
    let k = "RemoteForward"@;
    let rs = del_tipo(h.reenvios, TipoReenvio::Remoto);
    let w = lineas_reenvios(k, rs);
    lema_claves_gestionadas();
    lema_escrita(k);
    lema_limpias(c, h);
    lema_limpio_sin_marca_final(x);
    if w.len() == 0 {
        lema_remotos_vacios(c, h);
        assert(x + w + Seq::<LineaV>::empty() =~= x);
        lema_reenvios_fijos(x, Seq::<LineaV>::empty(), k, rs);
    } else {
        let r = lema_remotos_aislados(c, h);
        if r.1.len() > 0 {
            assert(x.last() == r.1.last());
        }
        lema_reenvios_fijos(r.0, r.1, k, rs);
    }
}

proof fn lema_dinamicos_aislados(c: Seq<LineaV>, h: HostV) -> (r: (Seq<LineaV>, Seq<LineaV>))
    requires
        limpio(c),
        lineas_reenvios("DynamicForward"@, del_tipo(h.reenvios, TipoReenvio::Dinamico)).len() > 0,
    ensures
        cuerpo_sincronizado(c, h) == r.0 + lineas_reenvios(
            "DynamicForward"@,
            del_tipo(h.reenvios, TipoReenvio::Dinamico),
        ) + r.1,
        sin_clave(r.0, "DynamicForward"@),
        sin_clave(r.1, "DynamicForward"@),
        sin_marca_final(r.0),
{
    let k = "DynamicForward"@;
    let rs = del_tipo(h.reenvios, TipoReenvio::Dinamico);
    let w = lineas_reenvios(k, rs);
    lema_claves_gestionadas();
    lema_claves_neutras();
    lema_limpias(c, h);
    lema_distintas();
    lema_escrita(k);
    lema_bloque_grupos(k, rs);
    let r0 = lema_propia_reenvios(etapa_remotos(c, h), k, rs);
    lema_bloque_de(w, k, "ExitOnForwardFailure"@);
    lema_bloque_de(w, k, "ServerAliveInterval"@);
    lema_bloque_de(w, k, "ServerAliveCountMax"@);
    lema_bloque_de(w, k, "TCPKeepAlive"@);
    lema_aislado_fijas(c, h, r0.0, w, r0.1, k)
}

proof fn lema_dinamicos_vacios(c: Seq<LineaV>, h: HostV)
    requires
        limpio(c),
        lineas_reenvios("DynamicForward"@, del_tipo(h.reenvios, TipoReenvio::Dinamico)).len() == 0,
    ensures
        sin_clave(cuerpo_sincronizado(c, h), "DynamicForward"@),
{
    let k = "DynamicForward"@;
    let rs = del_tipo(h.reenvios, TipoReenvio::Dinamico);
    lema_claves_gestionadas();
    lema_limpias(c, h);
    lema_distintas();
    lema_escrita(k);
    let r0 = lema_propia_reenvios(etapa_remotos(c, h), k, rs);
    let e8 = etapa_dinamicos(c, h);
    assert(e8 =~= r0.0 + r0.1);
    assert forall|i: int| 0 <= i < e8.len() implies !es_directiva(#[trigger] e8[i], k) by {
        if i < r0.0.len() {
            assert(e8[i] == r0.0[i]);
        } else {
            assert(e8[i] == r0.1[i - r0.0.len()]);
        }
    }
    lema_sin_clave_filtro_vacio(e8, k);
    let p = de_clave(minusculas(k));
    lema_filtro_reenvio_excluye(k, "ExitOnForwardFailure"@);
    lema_filtro_reenvio_excluye(k, "ServerAliveInterval"@);
    lema_filtro_reenvio_excluye(k, "ServerAliveCountMax"@);
    lema_filtro_reenvio_excluye(k, "TCPKeepAlive"@);
    lema_filtro_fijas(c, h, p);
    lema_filtro_vacio_sin_clave(cuerpo_sincronizado(c, h), k);
}

/// Sincronizar otra vez no mueve los reenvíos dinámicos.
proof fn lema_estable_dinamicos(c: Seq<LineaV>, h: HostV)
    requires
        limpio(c),
    ensures
        con_reenvios(
            cuerpo_sincronizado(c, h),
            "DynamicForward"@,
            del_tipo(h.reenvios, TipoReenvio::Dinamico),
        ) == cuerpo_sincronizado(c, h),
{
    let x = cuerpo_sincronizado(c, h);
    let k = "DynamicForward"@;
    let rs = del_tipo(h.reenvios, TipoReenvio::Dinamico);
    let w = lineas_reenvios(k, rs);
    lema_claves_gestionadas();
    lema_escrita(k);
    lema_limpias(c, h);
    lema_limpio_sin_marca_final(x);
    if w.len() == 0 {
        lema_dinamicos_vacios(c, h);
        assert(x + w + Seq::<LineaV>::empty() =~= x);
        lema_reenvios_fijos(x, Seq::<LineaV>::empty(), k, rs);
    } else {
        let r = lema_dinamicos_aislados(c, h);
        if r.1.len() > 0 {
            assert(x.last() == r.1.last());
        }
        lema_reenvios_fijos(r.0, r.1, k, rs);
    }
}


// --- La nota, los campos de un valor y las fijas -------------------------------------------

proof fn lema_filtro_notas_vacio(x: Seq<LineaV>)
    requires
        x.filter(notas()) == Seq::<LineaV>::empty(),
    ensures
        sin_notas_en(x),
{
    assert forall|i: int| 0 <= i < x.len() implies !es_nota(#[trigger] x[i]) by {
        if es_nota(x[i]) {
            assert(notas()(x[i]));
            x.lemma_filter_contains(notas(), i);
            assert(x.filter(notas()).contains(x[i]));
        }
    }
}

/// La nota primero, a lo largo de todas las etapas.
proof fn lema_nota_primero_final(c: Seq<LineaV>, h: HostV, n: Seq<char>)
    requires
        h.nota == Some(n),
        recortado(n).len() > 0,
    ensures
        nota_primero(cuerpo_sincronizado(c, h), n),
{
    lema_claves_gestionadas();
    lema_escrita("HostName"@);
    lema_escrita("User"@);
    lema_escrita("Port"@);
    lema_escrita("ProxyJump"@);
    lema_escrita("IdentityFile"@);
    lema_escrita("LocalForward"@);
    lema_escrita("RemoteForward"@);
    lema_escrita("DynamicForward"@);
    lema_escrita("ExitOnForwardFailure"@);
    lema_escrita("ServerAliveInterval"@);
    lema_escrita("ServerAliveCountMax"@);
    lema_escrita("TCPKeepAlive"@);
    reveal_strlit("    # nota: ");
    crate::config::vuelta::lema_propia_sin_notas(c);
    lema_filtro_notas_vacio(sin_notas(c));
    let e0 = etapa_nota(c, h);
    assert(e0 == seq![linea_nota(n)] + sin_notas(c));
    assert(e0.drop_first() =~= sin_notas(c));
    lema_nota_unica(e0, "HostName"@, h.hostname, n);
    lema_nota_unica(etapa_hostname(c, h), "User"@, h.usuario, n);
    lema_nota_unica(etapa_usuario(c, h), "Port"@, texto_puerto(h.puerto), n);
    lema_nota_unica(etapa_puerto(c, h), "ProxyJump"@, texto_saltos(h.saltos), n);
    lema_nota_multiple(etapa_saltos(c, h), "IdentityFile"@, h.identidades, n);
    lema_nota_reenvios(
        etapa_identidades(c, h),
        "LocalForward"@,
        del_tipo(h.reenvios, TipoReenvio::Local),
        n,
    );
    lema_nota_reenvios(
        etapa_locales(c, h),
        "RemoteForward"@,
        del_tipo(h.reenvios, TipoReenvio::Remoto),
        n,
    );
    lema_nota_reenvios(
        etapa_remotos(c, h),
        "DynamicForward"@,
        del_tipo(h.reenvios, TipoReenvio::Dinamico),
        n,
    );
    lema_nota_unica(etapa_dinamicos(c, h), "ExitOnForwardFailure"@, Some("yes"@), n);
    lema_nota_unica(fija_1(c, h), "ServerAliveInterval"@, Some("15"@), n);
    lema_nota_unica(fija_2(c, h), "ServerAliveCountMax"@, Some("3"@), n);
    lema_nota_unica(fija_3(c, h), "TCPKeepAlive"@, Some("yes"@), n);
    lema_etapas(c, h);
}

proof fn lema_estable_nota(c: Seq<LineaV>, h: HostV)
    ensures
        con_nota(sin_notas(cuerpo_sincronizado(c, h)), h.nota) == cuerpo_sincronizado(c, h),
{
    let x = cuerpo_sincronizado(c, h);
    match h.nota {
        Some(n) => {
            if recortado(n).len() > 0 {
                lema_nota_primero_final(c, h, n);
                lema_nota_fija(x, n);
                return;
            }
        },
        None => {},
    }
    lema_notas_final(c, h);
    assert(nota_escrita(h.nota) == Seq::<LineaV>::empty());
    lema_filtro_notas_vacio(x);
    lema_sin_notas_nada(x);
}

proof fn lema_estable_escalares(c: Seq<LineaV>, h: HostV)
    ensures
        con_unica(cuerpo_sincronizado(c, h), "HostName"@, h.hostname) == cuerpo_sincronizado(c, h),
        con_unica(cuerpo_sincronizado(c, h), "User"@, h.usuario) == cuerpo_sincronizado(c, h),
        con_unica(cuerpo_sincronizado(c, h), "Port"@, texto_puerto(h.puerto)) == cuerpo_sincronizado(
            c,
            h,
        ),
        con_unica(cuerpo_sincronizado(c, h), "ProxyJump"@, texto_saltos(h.saltos))
            == cuerpo_sincronizado(c, h),
{
    let x = cuerpo_sincronizado(c, h);
    lema_claves_gestionadas();
    lema_campos(c, h);
    lema_cola(c, h, "hostname"@);
    lema_cola(c, h, "user"@);
    lema_cola(c, h, "port"@);
    lema_cola(c, h, "proxyjump"@);
    lema_unica_fija(x, "HostName"@, h.hostname);
    lema_unica_fija(x, "User"@, h.usuario);
    lema_unica_fija(x, "Port"@, texto_puerto(h.puerto));
    lema_unica_fija(x, "ProxyJump"@, texto_saltos(h.saltos));
}

proof fn lema_estable_fijas(c: Seq<LineaV>, h: HostV)
    ensures
        con_unica(cuerpo_sincronizado(c, h), "ExitOnForwardFailure"@, Some("yes"@))
            == cuerpo_sincronizado(c, h),
        con_unica(cuerpo_sincronizado(c, h), "ServerAliveInterval"@, Some("15"@))
            == cuerpo_sincronizado(c, h),
        con_unica(cuerpo_sincronizado(c, h), "ServerAliveCountMax"@, Some("3"@))
            == cuerpo_sincronizado(c, h),
        con_unica(cuerpo_sincronizado(c, h), "TCPKeepAlive"@, Some("yes"@)) == cuerpo_sincronizado(
            c,
            h,
        ),
{
    let x = cuerpo_sincronizado(c, h);
    reveal_strlit("yes");
    reveal_strlit("15");
    reveal_strlit("3");
    crate::texto::lema_recortado_sin_bordes("yes"@);
    crate::texto::lema_recortado_sin_bordes("15"@);
    crate::texto::lema_recortado_sin_bordes("3"@);
    lema_fijas_escritas(c, h);
    lema_unica_fija(x, "ExitOnForwardFailure"@, Some("yes"@));
    lema_unica_fija(x, "ServerAliveInterval"@, Some("15"@));
    lema_unica_fija(x, "ServerAliveCountMax"@, Some("3"@));
    lema_unica_fija(x, "TCPKeepAlive"@, Some("yes"@));
}

/// Ley: sincronizar un cuerpo sin marcas sueltas dos veces con el mismo host
/// lo deja como la primera vez.
pub proof fn ley_sincronizar_dos_veces(c: Seq<LineaV>, h: HostV)
    requires
        limpio(c),
    ensures
        cuerpo_sincronizado(cuerpo_sincronizado(c, h), h) == cuerpo_sincronizado(c, h),
{
    let x = cuerpo_sincronizado(c, h);
    lema_estable_nota(c, h);
    lema_estable_escalares(c, h);
    lema_estable_identidades(c, h);
    lema_estable_locales(c, h);
    lema_estable_remotos(c, h);
    lema_estable_dinamicos(c, h);
    lema_estable_fijas(c, h);
    assert(etapa_nota(x, h) == x);
    assert(etapa_hostname(x, h) == x);
    assert(etapa_usuario(x, h) == x);
    assert(etapa_puerto(x, h) == x);
    assert(etapa_saltos(x, h) == x);
    assert(etapa_identidades(x, h) == x);
    assert(etapa_locales(x, h) == x);
    assert(etapa_remotos(x, h) == x);
    assert(etapa_dinamicos(x, h) == x);
    lema_etapas(x, h);
}


/// Ley: sincronizar dos veces un documento con el mismo host lo deja como la
/// primera vez, si el cuerpo del bloque no tiene marcas sueltas y el alias no
/// tiene comodines (un alias con comodines no se reconoce como el bloque
/// escrito y se añadiría otro).
pub proof fn ley_sincronizar_es_idempotente(d: DocumentoV, h: HostV)
    requires
        !tiene_comodin(h.alias),
        match posicion_de(d.bloques, h.alias) {
            Some(i) => limpio(d.bloques[i].cuerpo),
            None => true,
        },
    ensures
        documento_sincronizado(documento_sincronizado(d, h), h) == documento_sincronizado(d, h),
{
    let d2 = documento_sincronizado(d, h);
    lema_posicion_de(d.bloques, h.alias);
    match posicion_de(d.bloques, h.alias) {
        Some(i) => {
            let b = d.bloques[i];
            let b2 = BloqueV { cuerpo: cuerpo_sincronizado(b.cuerpo, h), ..b };
            assert(d2.bloques == d.bloques.update(i, b2));
            assert(alias_de(b2) == alias_de(b));
            assert forall|j: int| 0 <= j < i implies alias_de(#[trigger] d2.bloques[j]) != Some(h.alias) by {
                assert(d2.bloques[j] == d.bloques[j]);
            }
            lema_posicion_de_en(d2.bloques, h.alias, i);
            ley_sincronizar_dos_veces(b.cuerpo, h);
            let b3 = BloqueV { cuerpo: cuerpo_sincronizado(b2.cuerpo, h), ..b2 };
            assert(b3 == b2);
            assert(d2.bloques.update(i, b3) =~= d2.bloques);
        },
        None => {
            let d1 = if d.bloques.len() > 0 || d.preambulo.len() > 0 {
                con_linea_en_blanco_final(d)
            } else {
                d
            };
            let bn = bloque_nuevo_de(h);
            assert(d2.bloques == d1.bloques.push(bn));
            assert(d1.bloques.len() == d.bloques.len());
            assert forall|j: int| 0 <= j < d1.bloques.len() implies alias_de(#[trigger] d1.bloques[j])
                == alias_de(d.bloques[j]) by {
                if d.bloques.len() > 0 && j == d.bloques.len() - 1 {
                    assert(d1.bloques[j].encabezado == d.bloques[j].encabezado);
                }
            }
            let n = d1.bloques.len() as int;
            assert forall|j: int| 0 <= j < n implies alias_de(#[trigger] d2.bloques[j]) != Some(h.alias) by {
                assert(d2.bloques[j] == d1.bloques[j]);
                assert(alias_de(d1.bloques[j]) == alias_de(d.bloques[j]));
            }
            assert(d2.bloques[n] == bn);
            assert(alias_de(bn) == Some(h.alias)) by {
                assert(seq![h.alias][0] == h.alias);
            }
            lema_posicion_de_en(d2.bloques, h.alias, n);
            assert(limpio(Seq::<LineaV>::empty()));
            ley_sincronizar_dos_veces(Seq::<LineaV>::empty(), h);
            let b3 = BloqueV { cuerpo: cuerpo_sincronizado(bn.cuerpo, h), ..bn };
            assert(b3 == bn);
            assert(d2.bloques.update(n, b3) =~= d2.bloques);
        },
    }
}

/// Las cuatro directivas fijas aparecen exactamente una vez cada una, con su
/// valor.
pub open spec fn fijas_una_vez(x: Seq<LineaV>) -> bool {
    &&& x.filter(de_clave(minusculas("ExitOnForwardFailure"@))) == seq![
        directiva_nueva("ExitOnForwardFailure"@, "yes"@),
    ]
    &&& x.filter(de_clave(minusculas("ServerAliveInterval"@))) == seq![
        directiva_nueva("ServerAliveInterval"@, "15"@),
    ]
    &&& x.filter(de_clave(minusculas("ServerAliveCountMax"@))) == seq![
        directiva_nueva("ServerAliveCountMax"@, "3"@),
    ]
    &&& x.filter(de_clave(minusculas("TCPKeepAlive"@))) == seq![
        directiva_nueva("TCPKeepAlive"@, "yes"@),
    ]
}

/// Ley: tras sincronizar un host, su bloque lleva exactamente una vez cada
/// una de `ExitOnForwardFailure yes`, `ServerAliveInterval 15`,
/// `ServerAliveCountMax 3` y `TCPKeepAlive yes`, tuviera lo que tuviera antes
/// (repetidas, con otro valor o ninguna). El alias no puede tener comodines:
/// un alias así no se reconoce como el bloque escrito.
pub proof fn ley_las_fijas_quedan_una_vez(d: DocumentoV, h: HostV)
    requires
        !tiene_comodin(h.alias),
    ensures
        match posicion_de(documento_sincronizado(d, h).bloques, h.alias) {
            Some(i) => fijas_una_vez(documento_sincronizado(d, h).bloques[i].cuerpo),
            None => false,
        },
{
    let d2 = documento_sincronizado(d, h);
    lema_posicion_de(d.bloques, h.alias);
    match posicion_de(d.bloques, h.alias) {
        Some(i) => {
            let b = d.bloques[i];
            let b2 = BloqueV { cuerpo: cuerpo_sincronizado(b.cuerpo, h), ..b };
            assert(d2.bloques == d.bloques.update(i, b2));
            assert(alias_de(b2) == alias_de(b));
            assert forall|j: int| 0 <= j < i implies alias_de(#[trigger] d2.bloques[j]) != Some(h.alias) by {
                assert(d2.bloques[j] == d.bloques[j]);
            }
            lema_posicion_de_en(d2.bloques, h.alias, i);
            lema_fijas_escritas(b.cuerpo, h);
        },
        None => {
            let d1 = if d.bloques.len() > 0 || d.preambulo.len() > 0 {
                con_linea_en_blanco_final(d)
            } else {
                d
            };
            let bn = bloque_nuevo_de(h);
            assert(d2.bloques == d1.bloques.push(bn));
            assert(d1.bloques.len() == d.bloques.len());
            assert forall|j: int| 0 <= j < d1.bloques.len() implies alias_de(#[trigger] d1.bloques[j])
                == alias_de(d.bloques[j]) by {
                if d.bloques.len() > 0 && j == d.bloques.len() - 1 {
                    assert(d1.bloques[j].encabezado == d.bloques[j].encabezado);
                }
            }
            let n = d1.bloques.len() as int;
            assert forall|j: int| 0 <= j < n implies alias_de(#[trigger] d2.bloques[j]) != Some(h.alias) by {
                assert(d2.bloques[j] == d1.bloques[j]);
                assert(alias_de(d1.bloques[j]) == alias_de(d.bloques[j]));
            }
            assert(d2.bloques[n] == bn);
            assert(alias_de(bn) == Some(h.alias)) by {
                assert(seq![h.alias][0] == h.alias);
            }
            lema_posicion_de_en(d2.bloques, h.alias, n);
            lema_fijas_escritas(Seq::<LineaV>::empty(), h);
        },
    }
}

} // verus!
