//! Reenvíos con sus marcas, escritos y leídos.
//!
//! Un reenvío ocupa en el fichero un grupo de líneas: sus marcas (`# nombre:`,
//! `# salud:`) seguidas de su directiva. Aquí se prueba que, en un cuerpo sin
//! marcas sueltas, reescribir los reenvíos de una directiva y volver a leer
//! da justo los reenvíos escritos, sin tocar los de las otras directivas.

use vstd::prelude::*;

use crate::config::parser::{
    reenvios_desde, tipo_de_directiva, tras_marca, salud_o_escucha, es_directiva, LineaV,
};
use crate::config::writer::{a_borrar, conservadas_hasta, es_marca, del_tipo};
use crate::config::parser::valor_de;
use crate::config::writer::lema_claves_gestionadas;
use crate::config::writer::{
    directiva_nueva, lineas_reenvio, lineas_reenvios, con_reenvios, minimo, primera_pos_directiva,
    punto_de_insercion, ultima_gestionada, ultima_directiva, linea_gestionada,
    lema_primera_pos_directiva, sin_directiva, reemplazar_desde, con_unica, con_multiple,
    directivas_nuevas, valor_no_vacio, sin_notas, con_nota, lema_directiva_nueva,
    cuerpo_sincronizado, texto_puerto, texto_saltos, clave_gestionada,
};
use crate::config::parser::linea_de;
use crate::config::vuelta::{
    etapa_nota, etapa_hostname, etapa_usuario, etapa_puerto, etapa_saltos, etapa_identidades,
    etapa_locales, etapa_remotos, etapa_dinamicos, lema_filtro_con_unica,
    lema_marca_valor, lema_valor_directiva_nueva, valor_limpio, clave_escrita, es_nota, linea_nota,
    lema_linea_nota,
};
use crate::modelo::{
    HostV, directiva, reenvio_de, salud_de, nombre_limpio, ReenvioV, SaludV, TipoReenvio, especificacion,
    salud_escribible, reenvio_legible, valor_directiva, texto_extremo, reenvio_simple,
    ley_reenvio_ida_y_vuelta, ley_especificacion_ida_y_vuelta, lema_extremo_ida_y_vuelta,
};
use crate::texto::{minusculas, recortado, es_blanco, es_digito, tiene_blanco, lema_recortado_sin_bordes, empieza_por};

verus! {

/// Una directiva de reenvío.
pub open spec fn es_reenvio(l: LineaV) -> bool {
    tipo_de_directiva(l) is Some
}

/// Una línea que la lectura de reenvíos mira: marca o directiva de reenvío.
pub open spec fn relevante(l: LineaV) -> bool {
    es_marca(l) || es_reenvio(l)
}

pub open spec fn relevantes() -> spec_fn(LineaV) -> bool {
    |l: LineaV| relevante(l)
}

/// Cuerpo sin marcas sueltas: cada marca va seguida de otra marca o de una
/// directiva de reenvío, y ninguna cierra el cuerpo.
pub open spec fn limpio(ls: Seq<LineaV>) -> bool
    decreases ls.len(),
{
    if ls.len() == 0 {
        true
    } else {
        &&& (es_marca(ls[0]) ==> ls.len() > 1 && relevante(ls[1]))
        &&& limpio(ls.drop_first())
    }
}

/// Contiene alguna directiva de reenvío.
pub open spec fn con_reenvio(ls: Seq<LineaV>) -> bool {
    exists|i: int| 0 <= i < ls.len() && es_reenvio(#[trigger] ls[i])
}

pub open spec fn leidos(ls: Seq<LineaV>) -> Seq<ReenvioV> {
    reenvios_desde(ls, None, None)
}

proof fn lema_marca_lleva_a_reenvio(ls: Seq<LineaV>)
    requires
        limpio(ls),
        ls.len() > 0,
        es_marca(ls[0]),
    ensures
        con_reenvio(ls.drop_first()),
    decreases ls.len(),
{
    let r = ls.drop_first();
    if es_reenvio(r[0]) {
        assert(es_reenvio(r[0]));
    } else {
        assert(es_marca(r[0]));
        lema_marca_lleva_a_reenvio(r);
        let j = choose|j: int| 0 <= j < r.drop_first().len() && es_reenvio(#[trigger] r.drop_first()[j]);
        assert(r[j + 1] == r.drop_first()[j]);
    }
}

/// Leer `a + b` es leer `a` y luego `b`, si `a` no deja marcas pendientes.
proof fn lema_leer_suma_estado(
    a: Seq<LineaV>,
    b: Seq<LineaV>,
    s: Option<SaludV>,
    n: Option<Seq<char>>,
)
    requires
        limpio(a),
    ensures
        reenvios_desde(a + b, s, n) == reenvios_desde(a, s, n) + if con_reenvio(a) {
            leidos(b)
        } else {
            reenvios_desde(b, s, n)
        },
    decreases a.len(),
{
    if a.len() == 0 {
        assert(a + b =~= b);
        assert(Seq::<ReenvioV>::empty() + reenvios_desde(b, s, n) =~= reenvios_desde(b, s, n));
    } else {
        let x = a[0];
        let r = a.drop_first();
        assert((a + b).drop_first() =~= r + b);
        assert((a + b)[0] == x);
        assert(con_reenvio(a) == (es_reenvio(x) || con_reenvio(r))) by {
            if con_reenvio(r) {
                let j = choose|j: int| 0 <= j < r.len() && es_reenvio(#[trigger] r[j]);
                assert(a[j + 1] == r[j]);
            }
            if con_reenvio(a) && !es_reenvio(x) {
                let j = choose|j: int| 0 <= j < a.len() && es_reenvio(#[trigger] a[j]);
                assert(j > 0);
                assert(r[j - 1] == a[j]);
            }
        }
        match tras_marca(x, "salud:"@) {
            Some(e) => {
                lema_marca_lleva_a_reenvio(a);
                match salud_de(e) {
                    Ok(t) => {
                        lema_leer_suma_estado(r, b, Some(t), n);
                    },
                    Err(_) => {
                        lema_leer_suma_estado(r, b, s, n);
                    },
                }
            },
            None => match tras_marca(x, "nombre:"@) {
                Some(m) => {
                    lema_marca_lleva_a_reenvio(a);
                    lema_leer_suma_estado(r, b, s, Some(m));
                },
                None => match tipo_de_directiva(x) {
                    Some(t) => {
                        lema_leer_suma_estado(r, b, None, None);
                        let cola = if con_reenvio(r) {
                            leidos(b)
                        } else {
                            reenvios_desde(b, None, None)
                        };
                        assert(cola == leidos(b));
                        match crate::config::parser::valor_de(x) {
                            Some(v) => match reenvio_de(t, v) {
                                Ok(rr) => {
                                    let e = ReenvioV {
                                        salud: salud_o_escucha(s),
                                        nombre: nombre_limpio(n),
                                        ..rr
                                    };
                                    assert(seq![e] + (reenvios_desde(r, None, None) + leidos(b))
                                        =~= (seq![e] + reenvios_desde(r, None, None)) + leidos(b));
                                },
                                Err(_) => {},
                            },
                            None => {
                                lema_leer_suma_estado(r, b, s, n);
                            },
                        }
                    },
                    None => {
                        lema_leer_suma_estado(r, b, s, n);
                    },
                },
            },
        }
    }
}

/// Leer `a + b` es leer `a` y luego `b`, si `a` no deja marcas pendientes.
pub proof fn lema_leer_suma(a: Seq<LineaV>, b: Seq<LineaV>)
    requires
        limpio(a),
    ensures
        leidos(a + b) == leidos(a) + leidos(b),
{
    lema_leer_suma_estado(a, b, None, None);
}


// --- Cuerpos limpios ------------------------------------------------------------------

pub proof fn lema_limpio_suma(a: Seq<LineaV>, b: Seq<LineaV>)
    requires
        limpio(a),
        limpio(b),
    ensures
        limpio(a + b),
    decreases a.len(),
{
    if a.len() == 0 {
        assert(a + b =~= b);
    } else {
        assert((a + b).drop_first() =~= a.drop_first() + b);
        assert((a + b)[0] == a[0]);
        if a.len() > 1 {
            assert((a + b)[1] == a[1]);
        }
        lema_limpio_suma(a.drop_first(), b);
    }
}

pub proof fn lema_limpio_partes(a: Seq<LineaV>, b: Seq<LineaV>)
    requires
        limpio(a + b),
        a.len() == 0 || !es_marca(a.last()),
    ensures
        limpio(a),
        limpio(b),
    decreases a.len(),
{
    if a.len() == 0 {
        assert(a + b =~= b);
    } else {
        assert((a + b).drop_first() =~= a.drop_first() + b);
        assert((a + b)[0] == a[0]);
        if a.len() > 1 {
            assert((a + b)[1] == a[1]);
            assert(a.drop_first().last() == a.last());
        } else {
            assert(a.drop_first() =~= Seq::<LineaV>::empty());
        }
        lema_limpio_partes(a.drop_first(), b);
    }
}

// --- Borrar los reenvíos de una directiva con sus marcas ------------------------------------

/// Las líneas que sobreviven al borrado, recorridas desde delante.
pub open spec fn borrado(ls: Seq<LineaV>, k: Seq<char>) -> Seq<LineaV>
    decreases ls.len(),
{
    if ls.len() == 0 {
        seq![]
    } else if a_borrar(ls, k, 0) {
        borrado(ls.drop_first(), k)
    } else {
        seq![ls[0]] + borrado(ls.drop_first(), k)
    }
}

pub(crate) proof fn lema_a_borrar_desplazado(ls: Seq<LineaV>, k: Seq<char>, i: int)
    requires
        0 <= i,
        ls.len() > 0,
    ensures
        a_borrar(ls, k, i + 1) == a_borrar(ls.drop_first(), k, i),
    decreases ls.len() - i,
{
    if i + 1 < ls.len() {
        assert(ls[i + 1] == ls.drop_first()[i]);
        lema_a_borrar_desplazado(ls, k, i + 1);
    }
}

proof fn lema_conservadas_delante(ls: Seq<LineaV>, k: Seq<char>, n: int)
    requires
        1 <= n <= ls.len(),
    ensures
        conservadas_hasta(ls, k, n) == (if a_borrar(ls, k, 0) {
            Seq::<LineaV>::empty()
        } else {
            seq![ls[0]]
        }) + conservadas_hasta(ls.drop_first(), k, n - 1),
    decreases n,
{
    let cabeza = if a_borrar(ls, k, 0) {
        Seq::<LineaV>::empty()
    } else {
        seq![ls[0]]
    };
    if n == 1 {
        assert(conservadas_hasta(ls, k, 0) == Seq::<LineaV>::empty());
        assert(conservadas_hasta(ls.drop_first(), k, 0) == Seq::<LineaV>::empty());
        assert(Seq::<LineaV>::empty() + cabeza =~= cabeza + Seq::<LineaV>::empty());
    } else {
        lema_conservadas_delante(ls, k, n - 1);
        lema_a_borrar_desplazado(ls, k, n - 2);
        assert(ls[n - 1] == ls.drop_first()[n - 2]);
        let cola = if a_borrar(ls, k, n - 1) {
            Seq::<LineaV>::empty()
        } else {
            seq![ls[n - 1]]
        };
        assert(cabeza + conservadas_hasta(ls.drop_first(), k, n - 2) + cola =~= cabeza + (
        conservadas_hasta(ls.drop_first(), k, n - 2) + cola));
    }
}

pub proof fn lema_conservadas_borrado(ls: Seq<LineaV>, k: Seq<char>)
    ensures
        conservadas_hasta(ls, k, ls.len() as int) == borrado(ls, k),
    decreases ls.len(),
{
    if ls.len() > 0 {
        lema_conservadas_delante(ls, k, ls.len() as int);
        lema_conservadas_borrado(ls.drop_first(), k);
        if a_borrar(ls, k, 0) {
            assert(Seq::<LineaV>::empty() + borrado(ls.drop_first(), k) =~= borrado(
                ls.drop_first(),
                k,
            ));
        }
    }
}

pub proof fn lema_conservadas_prefijo(ls: Seq<LineaV>, k: Seq<char>, m: int, n: int)
    requires
        0 <= m <= n,
    ensures
        conservadas_hasta(ls, k, m).len() <= conservadas_hasta(ls, k, n).len(),
        conservadas_hasta(ls, k, n).take(conservadas_hasta(ls, k, m).len() as int)
            == conservadas_hasta(ls, k, m),
    decreases n - m,
{
    if m == n {
        assert(conservadas_hasta(ls, k, n).take(conservadas_hasta(ls, k, n).len() as int)
            =~= conservadas_hasta(ls, k, n));
    } else {
        lema_conservadas_prefijo(ls, k, m, n - 1);
        let a = conservadas_hasta(ls, k, n - 1);
        let cola = if a_borrar(ls, k, n - 1) {
            Seq::<LineaV>::empty()
        } else {
            seq![ls[n - 1]]
        };
        let l = conservadas_hasta(ls, k, m).len() as int;
        assert((a + cola).take(l) =~= a.take(l));
    }
}

/// Borrar los reenvíos de una directiva deja el cuerpo limpio.
pub proof fn lema_borrado_limpio(ls: Seq<LineaV>, k: Seq<char>)
    requires
        limpio(ls),
    ensures
        limpio(borrado(ls, k)),
    decreases ls.len(),
{
    if ls.len() > 0 {
        let x = ls[0];
        let r = ls.drop_first();
        lema_borrado_limpio(r, k);
        if !a_borrar(ls, k, 0) {
            if es_marca(x) {
                assert(!es_directiva(x, k));
                lema_a_borrar_desplazado(ls, k, 0);
                assert(!a_borrar(r, k, 0));
                assert(borrado(r, k)[0] == r[0]);
                assert((seq![x] + borrado(r, k))[1] == r[0]);
            }
            assert((seq![x] + borrado(r, k)).drop_first() =~= borrado(r, k));
        }
    }
}


// --- Un paso de la lectura --------------------------------------------------------------

/// Estado de la lectura tras una marca.
pub open spec fn tras_una_marca(
    x: LineaV,
    s: Option<SaludV>,
    n: Option<Seq<char>>,
) -> (Option<SaludV>, Option<Seq<char>>) {
    match tras_marca(x, "salud:"@) {
        Some(e) => match salud_de(e) {
            Ok(t) => (Some(t), n),
            Err(_) => (s, n),
        },
        None => match tras_marca(x, "nombre:"@) {
            Some(m) => (s, Some(m)),
            None => (s, n),
        },
    }
}

/// Lo que produce una directiva de reenvío con el estado de sus marcas.
pub open spec fn entrada(x: LineaV, s: Option<SaludV>, n: Option<Seq<char>>) -> Seq<ReenvioV> {
    match tipo_de_directiva(x) {
        Some(t) => match valor_de(x) {
            Some(v) => match reenvio_de(t, v) {
                Ok(r) => seq![ReenvioV { salud: salud_o_escucha(s), nombre: nombre_limpio(n), ..r }],
                Err(_) => Seq::<ReenvioV>::empty(),
            },
            None => Seq::<ReenvioV>::empty(),
        },
        None => Seq::<ReenvioV>::empty(),
    }
}

proof fn lema_paso(ls: Seq<LineaV>, s: Option<SaludV>, n: Option<Seq<char>>)
    requires
        ls.len() > 0,
    ensures
        es_marca(ls[0]) ==> reenvios_desde(ls, s, n) == reenvios_desde(
            ls.drop_first(),
            tras_una_marca(ls[0], s, n).0,
            tras_una_marca(ls[0], s, n).1,
        ),
        !relevante(ls[0]) ==> reenvios_desde(ls, s, n) == reenvios_desde(ls.drop_first(), s, n),
        es_reenvio(ls[0]) ==> reenvios_desde(ls, s, n) == entrada(ls[0], s, n) + leidos(
            ls.drop_first(),
        ),
{
    let x = ls[0];
    if es_reenvio(x) {
        assert(tras_marca(x, "salud:"@) is None);
        assert(tras_marca(x, "nombre:"@) is None);
        assert(valor_de(x) is Some);
        match reenvio_de(tipo_de_directiva(x)->Some_0, valor_de(x)->Some_0) {
            Ok(_) => {},
            Err(_) => {
                assert(Seq::<ReenvioV>::empty() + leidos(ls.drop_first()) =~= leidos(ls.drop_first()));
            },
        }
    }
}

/// Lo que produce una directiva de reenvío es de su tipo.
proof fn lema_tipo_entrada(x: LineaV, s: Option<SaludV>, n: Option<Seq<char>>, t: TipoReenvio)
    requires
        tipo_de_directiva(x) != Some(t),
    ensures
        del_tipo(entrada(x, s, n), t) == Seq::<ReenvioV>::empty(),
{
    match tipo_de_directiva(x) {
        Some(tt) => match valor_de(x) {
            Some(v) => match reenvio_de(tt, v) {
                Ok(r) => {
                    assert(r.tipo == tt);
                    let e = seq![ReenvioV { salud: salud_o_escucha(s), nombre: nombre_limpio(n), ..r }];
                    assert(e.drop_last() =~= Seq::<ReenvioV>::empty());
                    assert(e.last().tipo != t);
                    assert(del_tipo(Seq::<ReenvioV>::empty(), t) == Seq::<ReenvioV>::empty());
                    assert(del_tipo(e, t) == del_tipo(e.drop_last(), t));
                },
                Err(_) => {
                    assert(del_tipo(Seq::<ReenvioV>::empty(), t) == Seq::<ReenvioV>::empty());
                },
            },
            None => {
                assert(del_tipo(Seq::<ReenvioV>::empty(), t) == Seq::<ReenvioV>::empty());
            },
        },
        None => {
            assert(del_tipo(Seq::<ReenvioV>::empty(), t) == Seq::<ReenvioV>::empty());
        },
    }
}

pub proof fn lema_del_tipo_suma(a: Seq<ReenvioV>, b: Seq<ReenvioV>, t: TipoReenvio)
    ensures
        del_tipo(a + b, t) == del_tipo(a, t) + del_tipo(b, t),
    decreases b.len(),
{
    if b.len() == 0 {
        assert(a + b =~= a);
        assert(del_tipo(a, t) + Seq::<ReenvioV>::empty() =~= del_tipo(a, t));
    } else {
        assert((a + b).drop_last() =~= a + b.drop_last());
        assert((a + b).last() == b.last());
        lema_del_tipo_suma(a, b.drop_last(), t);
        if b.last().tipo == t {
            assert(del_tipo(a, t) + del_tipo(b.drop_last(), t).push(b.last()) =~= (del_tipo(a, t)
                + del_tipo(b.drop_last(), t)).push(b.last()));
        }
    }
}

/// `k` es la directiva de los reenvíos de tipo `t`.
pub open spec fn clave_de_tipo(k: Seq<char>, t: TipoReenvio) -> bool {
    forall|l: LineaV|
        #![trigger es_directiva(l, k)]
        #![trigger tipo_de_directiva(l)]
        es_directiva(l, k) <==> tipo_de_directiva(l) == Some(t)
}

pub proof fn lema_claves_de_tipo()
    ensures
        clave_de_tipo(directiva(TipoReenvio::Local), TipoReenvio::Local),
        clave_de_tipo(directiva(TipoReenvio::Remoto), TipoReenvio::Remoto),
        clave_de_tipo(directiva(TipoReenvio::Dinamico), TipoReenvio::Dinamico),
{
    lema_claves_gestionadas();
    reveal_strlit("localforward");
    reveal_strlit("remoteforward");
    reveal_strlit("dynamicforward");
    assert("localforward"@ != "remoteforward"@) by {
        assert("localforward"@[0] != "remoteforward"@[0]);
    }
    assert("localforward"@ != "dynamicforward"@) by {
        assert("localforward"@[0] != "dynamicforward"@[0]);
    }
    assert("remoteforward"@ != "dynamicforward"@) by {
        assert("remoteforward"@[0] != "dynamicforward"@[0]);
    }
}

// --- Qué se lee tras el borrado -----------------------------------------------------------

/// Lo que queda tras la serie de marcas y la directiva con que empieza `ls`.
pub open spec fn tras_serie(ls: Seq<LineaV>) -> Seq<LineaV>
    decreases ls.len(),
{
    if ls.len() == 0 {
        ls
    } else if es_reenvio(ls[0]) {
        ls.drop_first()
    } else {
        tras_serie(ls.drop_first())
    }
}

/// Una serie que se borra solo aportaba reenvíos de su tipo.
proof fn lema_serie_borrada(
    ls: Seq<LineaV>,
    k: Seq<char>,
    t: TipoReenvio,
    t2: TipoReenvio,
    s: Option<SaludV>,
    n: Option<Seq<char>>,
)
    requires
        limpio(ls),
        ls.len() > 0,
        a_borrar(ls, k, 0),
        clave_de_tipo(k, t),
        t2 != t,
    ensures
        del_tipo(reenvios_desde(ls, s, n), t2) == del_tipo(leidos(tras_serie(ls)), t2),
        borrado(ls, k) == borrado(tras_serie(ls), k),
        tras_serie(ls).len() < ls.len(),
        limpio(tras_serie(ls)),
    decreases ls.len(),
{
    let x = ls[0];
    let r = ls.drop_first();
    lema_paso(ls, s, n);
    if es_directiva(x, k) {
        assert(tipo_de_directiva(x) == Some(t));
        lema_tipo_entrada(x, s, n, t2);
        lema_del_tipo_suma(entrada(x, s, n), leidos(r), t2);
        assert(Seq::<ReenvioV>::empty() + del_tipo(leidos(r), t2) =~= del_tipo(leidos(r), t2));
    } else {
        assert(es_marca(x));
        assert(!es_reenvio(x));
        lema_a_borrar_desplazado(ls, k, 0);
        let e = tras_una_marca(x, s, n);
        lema_serie_borrada(r, k, t, t2, e.0, e.1);
    }
}

/// Borrar los reenvíos de tipo `t` no cambia los de los demás tipos.
proof fn lema_borrado_lee(
    ls: Seq<LineaV>,
    k: Seq<char>,
    t: TipoReenvio,
    t2: TipoReenvio,
    s: Option<SaludV>,
    n: Option<Seq<char>>,
)
    requires
        limpio(ls),
        clave_de_tipo(k, t),
        t2 != t,
        (s is None && n is None) || (ls.len() > 0 && relevante(ls[0]) && !a_borrar(ls, k, 0)),
    ensures
        del_tipo(reenvios_desde(ls, s, n), t2) == del_tipo(reenvios_desde(borrado(ls, k), s, n), t2),
    decreases ls.len(),
{
    if ls.len() > 0 {
        let x = ls[0];
        let r = ls.drop_first();
        lema_paso(ls, s, n);
        if a_borrar(ls, k, 0) {
            lema_serie_borrada(ls, k, t, t2, s, n);
            lema_borrado_lee(tras_serie(ls), k, t, t2, None, None);
        } else {
            let b = seq![x] + borrado(r, k);
            assert(b[0] == x);
            assert(b.drop_first() =~= borrado(r, k));
            lema_paso(b, s, n);
            if es_marca(x) {
                lema_a_borrar_desplazado(ls, k, 0);
                let e = tras_una_marca(x, s, n);
                lema_borrado_lee(r, k, t, t2, e.0, e.1);
            } else if es_reenvio(x) {
                lema_borrado_lee(r, k, t, t2, None, None);
                lema_del_tipo_suma(entrada(x, s, n), leidos(r), t2);
                lema_del_tipo_suma(entrada(x, s, n), leidos(borrado(r, k)), t2);
            } else {
                lema_borrado_lee(r, k, t, t2, s, n);
            }
        }
    }
}

/// Lo que queda tras el borrado no tiene directivas de esa clave.
pub proof fn lema_borrado_sin_clave(ls: Seq<LineaV>, k: Seq<char>)
    ensures
        forall|i: int| 0 <= i < borrado(ls, k).len() ==> !es_directiva(#[trigger] borrado(ls, k)[i], k),
    decreases ls.len(),
{
    if ls.len() > 0 {
        lema_borrado_sin_clave(ls.drop_first(), k);
        if !a_borrar(ls, k, 0) {
            let b = seq![ls[0]] + borrado(ls.drop_first(), k);
            assert forall|i: int| 0 <= i < b.len() implies !es_directiva(#[trigger] b[i], k) by {
                if i > 0 {
                    assert(b[i] == borrado(ls.drop_first(), k)[i - 1]);
                }
            }
        }
    }
}

/// Unas líneas sin directivas de tipo `t` no dan reenvíos de ese tipo.
pub proof fn lema_sin_tipo(
    ls: Seq<LineaV>,
    k: Seq<char>,
    t: TipoReenvio,
    s: Option<SaludV>,
    n: Option<Seq<char>>,
)
    requires
        clave_de_tipo(k, t),
        forall|i: int| 0 <= i < ls.len() ==> !es_directiva(#[trigger] ls[i], k),
    ensures
        del_tipo(reenvios_desde(ls, s, n), t) == Seq::<ReenvioV>::empty(),
    decreases ls.len(),
{
    if ls.len() > 0 {
        let x = ls[0];
        let r = ls.drop_first();
        assert forall|i: int| 0 <= i < r.len() implies !es_directiva(#[trigger] r[i], k) by {
            assert(r[i] == ls[i + 1]);
        }
        assert(!es_directiva(ls[0], k));
        lema_paso(ls, s, n);
        if es_marca(x) {
            let e = tras_una_marca(x, s, n);
            lema_sin_tipo(r, k, t, e.0, e.1);
        } else if es_reenvio(x) {
            lema_sin_tipo(r, k, t, None, None);
            lema_tipo_entrada(x, s, n, t);
            lema_del_tipo_suma(entrada(x, s, n), leidos(r), t);
            assert(Seq::<ReenvioV>::empty() + Seq::<ReenvioV>::empty() =~= Seq::<ReenvioV>::empty());
        } else {
            lema_sin_tipo(r, k, t, s, n);
        }
    } else {
        reveal_with_fuel(del_tipo, 1);
    }
}


// --- Los grupos que se escriben ---------------------------------------------------------

/// Reenvío de tipo `t` que se escribe y se vuelve a leer igual: su valor es
/// legible y no empieza por `=`, su salud es escribible y su nombre, si lo
/// tiene, no está vacío y ya está recortado.
pub open spec fn reenvio_escribible(r: ReenvioV, t: TipoReenvio) -> bool {
    &&& r.tipo == t
    &&& reenvio_legible(r)
    &&& salud_escribible(r.salud)
    &&& match r.nombre {
        Some(n) => n.len() > 0 && recortado(n) == n,
        None => true,
    }
    &&& match r.escucha.direccion {
        Some(d) => d[0] != '=',
        None => true,
    }
}

proof fn lema_valor_reenvio_limpio(r: ReenvioV, t: TipoReenvio)
    requires
        reenvio_escribible(r, t),
    ensures
        valor_limpio(valor_directiva(r)),
{
    let v = valor_directiva(r);
    lema_extremo_ida_y_vuelta(r.escucha);
    let a = texto_extremo(r.escucha);
    assert(!es_blanco(a[0]));
    match r.destino {
        Some(d) => {
            lema_extremo_ida_y_vuelta(d);
            let b = texto_extremo(d);
            assert(v =~= a + seq![' '] + b);
            assert(v[0] == a[0]);
            assert(v.last() == b.last());
            assert(es_digito(b.last()));
        },
        None => {
            assert(v == a);
        },
    }
    assert(es_digito(v.last()));
    assert(!es_blanco(v.last()));
    lema_recortado_sin_bordes(v);
    assert(v[0] != '=');
}

proof fn lema_especificacion_legible(s: SaludV)
    requires
        salud_escribible(s),
    ensures
        especificacion(s).len() > 0,
        recortado(especificacion(s)) == especificacion(s),
{
    reveal_strlit("escucha");
    reveal_strlit("tcp");
    reveal_strlit("banner");
    reveal_strlit("http:");
    reveal_strlit("/");
    let e = especificacion(s);
    match s {
        SaludV::Http { ruta } => {
            assert(ruta.subrange(0, 1) == "/"@);
            assert(ruta.subrange(0, 1)[0] == ruta[0]);
            assert(ruta[0] == '/');
            crate::texto::lema_recortado_fijo_ultimo(ruta);
            assert(e.last() == ruta.last());
        },
        _ => {},
    }
    assert(!es_blanco(e[0]));
    assert(!es_blanco(e.last()));
    lema_recortado_sin_bordes(e);
}

/// La directiva de un grupo: se lee como el reenvío con el estado de sus marcas.
proof fn lema_directiva_de_grupo(k: Seq<char>, r: ReenvioV, t: TipoReenvio)
    requires
        clave_escrita(k),
        clave_de_tipo(k, t),
        reenvio_escribible(r, t),
    ensures
        !es_marca(directiva_nueva(k, valor_directiva(r))),
        es_reenvio(directiva_nueva(k, valor_directiva(r))),
        limpio(seq![directiva_nueva(k, valor_directiva(r))]),
        forall|s: Option<SaludV>, n: Option<Seq<char>>|
            #[trigger] reenvios_desde(seq![directiva_nueva(k, valor_directiva(r))], s, n) == seq![
                ReenvioV {
                    salud: salud_o_escucha(s),
                    nombre: nombre_limpio(n),
                    ..reenvio_simple(t, r.escucha, r.destino)
                },
            ],
{
    let v = valor_directiva(r);
    lema_valor_reenvio_limpio(r, t);
    lema_valor_directiva_nueva(k, v);
    let d = directiva_nueva(k, v);
    assert(tipo_de_directiva(d) == Some(t));
    assert(crate::config::parser::texto_comentario(d) is None);
    ley_reenvio_ida_y_vuelta(r);
    let sd = seq![d];
    assert(sd.drop_first() =~= Seq::<LineaV>::empty());
    assert(limpio(sd.drop_first()));
    assert forall|s: Option<SaludV>, n: Option<Seq<char>>|
        #[trigger] reenvios_desde(sd, s, n) == seq![
            ReenvioV {
                salud: salud_o_escucha(s),
                nombre: nombre_limpio(n),
                ..reenvio_simple(t, r.escucha, r.destino)
            },
        ] by {
        lema_paso(sd, s, n);
        assert(leidos(sd.drop_first()) == Seq::<ReenvioV>::empty());
        let e = entrada(d, s, n);
        assert(e + Seq::<ReenvioV>::empty() =~= e);
    }
}

proof fn lema_marca_de_salud(s: SaludV)
    requires
        salud_escribible(s),
    ensures
        es_marca(linea_de("    # "@ + "salud:"@ + " "@ + especificacion(s))),
        forall|s0: Option<SaludV>, n0: Option<Seq<char>>|
            #[trigger] tras_una_marca(linea_de("    # "@ + "salud:"@ + " "@ + especificacion(s)), s0, n0)
                == (Some(s), n0),
{
    reveal_strlit("salud:");
    let e = especificacion(s);
    lema_especificacion_legible(s);
    lema_marca_valor("salud:"@, e);
    ley_especificacion_ida_y_vuelta(s);
}

proof fn lema_marca_de_nombre(n: Seq<char>)
    requires
        n.len() > 0,
        recortado(n) == n,
    ensures
        es_marca(linea_de("    # "@ + "nombre:"@ + " "@ + n)),
        forall|s0: Option<SaludV>, n0: Option<Seq<char>>|
            #[trigger] tras_una_marca(linea_de("    # "@ + "nombre:"@ + " "@ + n), s0, n0) == (s0, Some(n)),
{
    reveal_strlit("nombre:");
    reveal_strlit("salud:");
    lema_marca_valor("nombre:"@, n);
    let x = linea_de("    # "@ + "nombre:"@ + " "@ + n);
    assert(tras_marca(x, "salud:"@) is None) by {
        let tx = crate::config::parser::texto_comentario(x)->Some_0;
        assert(empieza_por(tx, "nombre:"@));
        assert(tx[0] == tx.subrange(0, 7)[0]);
        if tras_marca(x, "salud:"@) is Some {
            assert(tx[0] == tx.subrange(0, 6)[0]);
        }
    }
}

/// Un grupo escrito está limpio y se lee como su reenvío.
pub proof fn lema_grupo(k: Seq<char>, r: ReenvioV, t: TipoReenvio)
    requires
        clave_escrita(k),
        clave_de_tipo(k, t),
        reenvio_escribible(r, t),
    ensures
        limpio(lineas_reenvio(k, r)),
        leidos(lineas_reenvio(k, r)) == seq![r],
{
    let v = valor_directiva(r);
    let d = directiva_nueva(k, v);
    lema_directiva_de_grupo(k, r, t);
    let simple = reenvio_simple(t, r.escucha, r.destino);
    let mn = match r.nombre {
        Some(n) => seq![linea_de("    # "@ + "nombre:"@ + " "@ + n)],
        None => Seq::<LineaV>::empty(),
    };
    let ms = if r.salud != SaludV::Escucha {
        seq![linea_de("    # "@ + "salud:"@ + " "@ + especificacion(r.salud))]
    } else {
        Seq::<LineaV>::empty()
    };
    let g = lineas_reenvio(k, r);
    let sd = seq![d];
    assert(g == mn + ms + sd);
    let gs = ms + sd;
    let salud_leida: Option<SaludV> = if r.salud != SaludV::Escucha {
        Some(r.salud)
    } else {
        None
    };
    assert(salud_o_escucha(salud_leida) == r.salud);
    assert(nombre_limpio(r.nombre) == r.nombre);
    let leido = ReenvioV { salud: salud_o_escucha(salud_leida), nombre: nombre_limpio(r.nombre), ..simple };
    assert(leido == r);
    assert(reenvios_desde(sd, salud_leida, r.nombre) == seq![r]);
    if r.salud != SaludV::Escucha {
        lema_marca_de_salud(r.salud);
        assert(gs =~= seq![ms[0]] + sd);
        assert(gs[0] == ms[0]);
        assert(gs.drop_first() =~= sd);
        lema_paso(gs, None, r.nombre);
        assert(tras_una_marca(ms[0], None, r.nombre) == (salud_leida, r.nombre));
        assert(gs[1] == d);
        assert(limpio(gs));
    } else {
        assert(gs =~= sd);
    }
    assert(reenvios_desde(gs, None, r.nombre) == seq![r]);
    assert(relevante(gs[0]));
    match r.nombre {
        Some(n) => {
            lema_marca_de_nombre(n);
            assert(g =~= seq![mn[0]] + gs);
            assert(g[0] == mn[0]);
            assert(g.drop_first() =~= gs);
            lema_paso(g, None, None);
            assert(tras_una_marca(g[0], None, None) == (None::<SaludV>, Some(n)));
            assert(limpio(g));
        },
        None => {
            assert(g =~= gs);
        },
    }
}


/// Los grupos escritos están limpios y se leen como los reenvíos escritos.
pub proof fn lema_grupos(k: Seq<char>, rs: Seq<ReenvioV>, t: TipoReenvio)
    requires
        clave_escrita(k),
        clave_de_tipo(k, t),
        forall|i: int| 0 <= i < rs.len() ==> reenvio_escribible(#[trigger] rs[i], t),
    ensures
        limpio(lineas_reenvios(k, rs)),
        leidos(lineas_reenvios(k, rs)) == rs,
    decreases rs.len(),
{
    if rs.len() == 0 {
        assert(leidos(Seq::<LineaV>::empty()) == Seq::<ReenvioV>::empty());
        assert(rs =~= Seq::<ReenvioV>::empty());
    } else {
        let previos = rs.drop_last();
        assert forall|i: int| 0 <= i < previos.len() implies reenvio_escribible(#[trigger] previos[i], t) by {
            assert(previos[i] == rs[i]);
        }
        lema_grupos(k, previos, t);
        assert(reenvio_escribible(rs[rs.len() - 1], t));
        lema_grupo(k, rs.last(), t);
        lema_limpio_suma(lineas_reenvios(k, previos), lineas_reenvio(k, rs.last()));
        lema_leer_suma(lineas_reenvios(k, previos), lineas_reenvio(k, rs.last()));
        assert(previos + seq![rs.last()] =~= rs);
    }
}


// --- Reescribir los reenvíos de un tipo ---------------------------------------------------

proof fn lema_del_tipo_todos(rs: Seq<ReenvioV>, t: TipoReenvio, t2: TipoReenvio)
    requires
        forall|i: int| 0 <= i < rs.len() ==> (#[trigger] rs[i]).tipo == t,
    ensures
        del_tipo(rs, t2) == if t2 == t {
            rs
        } else {
            Seq::<ReenvioV>::empty()
        },
    decreases rs.len(),
{
    if rs.len() == 0 {
        assert(rs =~= Seq::<ReenvioV>::empty());
    } else {
        assert forall|i: int| 0 <= i < rs.drop_last().len() implies (#[trigger] rs.drop_last()[i]).tipo
            == t by {
            assert(rs.drop_last()[i] == rs[i]);
        }
        lema_del_tipo_todos(rs.drop_last(), t, t2);
        assert(rs[rs.len() - 1].tipo == t);
        assert(rs.drop_last().push(rs.last()) =~= rs);
    }
}

/// Antes de una línea que se borra, lo conservado no acaba en marca.
pub(crate) proof fn lema_conservadas_sin_marca_final(ls: Seq<LineaV>, k: Seq<char>, n: int)
    requires
        0 <= n < ls.len(),
        a_borrar(ls, k, n),
    ensures
        conservadas_hasta(ls, k, n).len() == 0 || !es_marca(conservadas_hasta(ls, k, n).last()),
    decreases n,
{
    if n > 0 {
        let x = ls[n - 1];
        if es_marca(x) {
            assert(crate::config::parser::texto_comentario(x) is Some);
            assert(!es_directiva(x, k));
            assert(a_borrar(ls, k, n - 1));
            lema_conservadas_sin_marca_final(ls, k, n - 1);
            assert(conservadas_hasta(ls, k, n) =~= conservadas_hasta(ls, k, n - 1));
        } else if a_borrar(ls, k, n - 1) {
            lema_conservadas_sin_marca_final(ls, k, n - 1);
            assert(conservadas_hasta(ls, k, n) =~= conservadas_hasta(ls, k, n - 1));
        } else {
            assert(conservadas_hasta(ls, k, n).last() == x);
        }
    }
}

/// Sin ninguna aparición de la directiva no se borra nada.
pub(crate) proof fn lema_nada_que_borrar(ls: Seq<LineaV>, k: Seq<char>, i: int)
    requires
        forall|j: int| 0 <= j < ls.len() ==> !es_directiva(#[trigger] ls[j], k),
    ensures
        !a_borrar(ls, k, i),
    decreases ls.len() - i,
{
    if 0 <= i < ls.len() && !es_directiva(ls[i], k) && es_marca(ls[i]) {
        lema_nada_que_borrar(ls, k, i + 1);
    }
}

pub(crate) proof fn lema_conservadas_todas(ls: Seq<LineaV>, k: Seq<char>, n: int)
    requires
        0 <= n <= ls.len(),
        forall|j: int| 0 <= j < ls.len() ==> !es_directiva(#[trigger] ls[j], k),
    ensures
        conservadas_hasta(ls, k, n) == ls.take(n),
    decreases n,
{
    if n == 0 {
        assert(ls.take(0) =~= Seq::<LineaV>::empty());
    } else {
        lema_conservadas_todas(ls, k, n - 1);
        lema_nada_que_borrar(ls, k, n - 1);
        assert(ls.take(n - 1) + seq![ls[n - 1]] =~= ls.take(n));
    }
}

pub(crate) proof fn lema_ultima_gestionada_es(ls: Seq<LineaV>)
    ensures
        match ultima_gestionada(ls) {
            Some(p) => 0 <= p < ls.len() && linea_gestionada(ls[p]),
            None => true,
        },
    decreases ls.len(),
{
    if ls.len() > 0 && !linea_gestionada(ls.last()) {
        lema_ultima_gestionada_es(ls.drop_last());
        match ultima_gestionada(ls.drop_last()) {
            Some(p) => {
                assert(ls[p] == ls.drop_last()[p]);
            },
            None => {},
        }
    }
}

pub(crate) proof fn lema_ultima_directiva_es(ls: Seq<LineaV>)
    ensures
        match ultima_directiva(ls) {
            Some(p) => 0 <= p < ls.len() && valor_de(ls[p]) is Some,
            None => forall|j: int| 0 <= j < ls.len() ==> valor_de(#[trigger] ls[j]) is None,
        },
    decreases ls.len(),
{
    if ls.len() > 0 && valor_de(ls.last()) is None {
        lema_ultima_directiva_es(ls.drop_last());
        match ultima_directiva(ls.drop_last()) {
            Some(p) => {
                assert(ls[p] == ls.drop_last()[p]);
            },
            None => {
                assert forall|j: int| 0 <= j < ls.len() implies valor_de(#[trigger] ls[j]) is None by {
                    if j < ls.len() - 1 {
                        assert(ls[j] == ls.drop_last()[j]);
                    }
                }
            },
        }
    }
}

/// En un cuerpo limpio, la línea anterior al punto de inserción no es una marca.
pub(crate) proof fn lema_punto_sin_marca(ls: Seq<LineaV>)
    requires
        limpio(ls),
    ensures
        0 <= punto_de_insercion(ls) <= ls.len(),
        punto_de_insercion(ls) == 0 || !es_marca(ls[punto_de_insercion(ls) - 1]),
{
    crate::config::writer::lema_punto_de_insercion(ls);
    lema_ultima_gestionada_es(ls);
    lema_ultima_directiva_es(ls);
    let q = punto_de_insercion(ls);
    if q > 0 {
        let x = ls[q - 1];
        match ultima_gestionada(ls) {
            Some(p) => {
                assert(crate::config::parser::texto_comentario(x) is None);
            },
            None => match ultima_directiva(ls) {
                Some(p) => {
                    assert(crate::config::parser::texto_comentario(x) is None);
                },
                None => {
                    assert(q == 1);
                    if es_marca(ls[0]) {
                        lema_marca_lleva_a_reenvio(ls);
                        let j = choose|j: int|
                            0 <= j < ls.drop_first().len() && es_reenvio(#[trigger] ls.drop_first()[j]);
                        assert(ls.drop_first()[j] == ls[j + 1]);
                        assert(valor_de(ls[j + 1]) is None);
                    }
                },
            },
        }
    }
}

/// Reescribir los reenvíos de tipo `t` con `rs`: el cuerpo sigue limpio, se leen
/// justo `rs` de ese tipo y los de los demás tipos no cambian.
pub proof fn lema_con_reenvios(ls: Seq<LineaV>, k: Seq<char>, rs: Seq<ReenvioV>, t: TipoReenvio)
    requires
        limpio(ls),
        clave_escrita(k),
        clave_de_tipo(k, t),
        forall|i: int| 0 <= i < rs.len() ==> reenvio_escribible(#[trigger] rs[i], t),
    ensures
        limpio(con_reenvios(ls, k, rs)),
        forall|t2: TipoReenvio|
            #[trigger] del_tipo(leidos(con_reenvios(ls, k, rs)), t2) == if t2 == t {
                rs
            } else {
                del_tipo(leidos(ls), t2)
            },
{
    let destino = match primera_pos_directiva(ls, k) {
        Some(q) => q,
        None => punto_de_insercion(ls),
    };
    lema_primera_pos_directiva(ls, k);
    lema_punto_sin_marca(ls);
    let kk = conservadas_hasta(ls, k, ls.len() as int);
    lema_conservadas_borrado(ls, k);
    lema_conservadas_prefijo(ls, k, destino, ls.len() as int);
    let a = conservadas_hasta(ls, k, destino);
    let d = minimo(a.len() as int, kk.len() as int);
    assert(d == a.len());
    assert(kk.take(d) == a);
    let b = kk.skip(d);
    let w = lineas_reenvios(k, rs);
    assert(con_reenvios(ls, k, rs) == a + w + b);
    // Lo conservado antes del destino no acaba en marca.
    match primera_pos_directiva(ls, k) {
        Some(q) => {
            lema_conservadas_sin_marca_final(ls, k, q);
        },
        None => {
            lema_conservadas_todas(ls, k, destino);
            if destino > 0 {
                assert(a.last() == ls[destino - 1]);
            }
        },
    }
    lema_borrado_limpio(ls, k);
    assert(kk =~= a + b);
    lema_limpio_partes(a, b);
    lema_grupos(k, rs, t);
    lema_limpio_suma(w, b);
    lema_limpio_suma(a, w + b);
    assert(a + w + b =~= a + (w + b));
    // Lectura.
    lema_leer_suma(a, w + b);
    lema_leer_suma(w, b);
    lema_leer_suma(a, b);
    lema_borrado_sin_clave(ls, k);
    assert forall|i: int| 0 <= i < a.len() implies !es_directiva(#[trigger] a[i], k) by {
        assert(a[i] == kk[i]);
    }
    assert forall|i: int| 0 <= i < b.len() implies !es_directiva(#[trigger] b[i], k) by {
        assert(b[i] == kk[i + d]);
    }
    assert forall|i: int| 0 <= i < rs.len() implies (#[trigger] rs[i]).tipo == t by {
        assert(reenvio_escribible(rs[i], t));
    }
    assert forall|t2: TipoReenvio|
        #[trigger] del_tipo(leidos(con_reenvios(ls, k, rs)), t2) == if t2 == t {
            rs
        } else {
            del_tipo(leidos(ls), t2)
        } by {
        lema_del_tipo_suma(leidos(a), leidos(w) + leidos(b), t2);
        lema_del_tipo_suma(leidos(w), leidos(b), t2);
        lema_del_tipo_todos(rs, t, t2);
        assert(leidos(a + w + b) == leidos(a) + (leidos(w) + leidos(b)));
        if t2 == t {
            lema_sin_tipo(a, k, t, None, None);
            lema_sin_tipo(b, k, t, None, None);
            assert(Seq::<ReenvioV>::empty() + (rs + Seq::<ReenvioV>::empty()) =~= rs);
        } else {
            lema_borrado_lee(ls, k, t, t2, None, None);
            lema_del_tipo_suma(leidos(a), leidos(b), t2);
            assert(del_tipo(leidos(a), t2) + (Seq::<ReenvioV>::empty() + del_tipo(leidos(b), t2))
                =~= del_tipo(leidos(a), t2) + del_tipo(leidos(b), t2));
        }
    }
}


// --- Los pasos que no tocan reenvíos -------------------------------------------------------

/// La lectura de reenvíos solo mira marcas y directivas de reenvío.
pub proof fn lema_leer_relevantes(ls: Seq<LineaV>, s: Option<SaludV>, n: Option<Seq<char>>)
    ensures
        reenvios_desde(ls, s, n) == reenvios_desde(ls.filter(relevantes()), s, n),
    decreases ls.len(),
{
    let p = relevantes();
    if ls.len() == 0 {
        reveal(Seq::filter);
    } else {
        let x = ls[0];
        let r = ls.drop_first();
        assert(ls =~= seq![x] + r);
        r.lemma_filter_prepend(x, p);
        lema_paso(ls, s, n);
        if relevante(x) {
            let f = seq![x] + r.filter(p);
            assert(f[0] == x);
            assert(f.drop_first() =~= r.filter(p));
            lema_paso(f, s, n);
            if es_marca(x) {
                let e = tras_una_marca(x, s, n);
                lema_leer_relevantes(r, e.0, e.1);
            } else {
                lema_leer_relevantes(r, None, None);
            }
        } else {
            assert(Seq::<LineaV>::empty() + r.filter(p) =~= r.filter(p));
            lema_leer_relevantes(r, s, n);
        }
    }
}

/// Directiva que no es de reenvío.
pub open spec fn clave_neutra(k: Seq<char>) -> bool {
    &&& clave_escrita(k)
    &&& forall|l: LineaV| #[trigger] relevante(l) ==> !es_directiva(l, k)
}

proof fn lema_relevante_no_es_nota()
    ensures
        forall|l: LineaV| #[trigger] relevante(l) ==> !es_nota(l),
{
    reveal_strlit("nota:");
    reveal_strlit("salud:");
    reveal_strlit("nombre:");
    assert forall|l: LineaV| #[trigger] relevante(l) implies !es_nota(l) by {
        if es_nota(l) {
            let t = crate::config::parser::texto_comentario(l)->Some_0;
            assert(t.subrange(0, 5) == "nota:"@);
            assert(t[0] == t.subrange(0, 5)[0]);
            assert(t[2] == t.subrange(0, 5)[2]);
            if tras_marca(l, "salud:"@) is Some {
                assert(t.subrange(0, 6) == "salud:"@);
                assert(t[0] == t.subrange(0, 6)[0]);
            }
            if tras_marca(l, "nombre:"@) is Some {
                assert(t.subrange(0, 7) == "nombre:"@);
                assert(t[2] == t.subrange(0, 7)[2]);
            }
        }
    }
}

proof fn lema_limpio_sin_directiva(ls: Seq<LineaV>, k: Seq<char>)
    requires
        limpio(ls),
        clave_neutra(k),
    ensures
        limpio(sin_directiva(ls, k)),
    decreases ls.len(),
{
    if ls.len() > 0 {
        let x = ls[0];
        let r = ls.drop_first();
        lema_limpio_sin_directiva(r, k);
        if !es_directiva(x, k) {
            let f = seq![x] + sin_directiva(r, k);
            assert(f.drop_first() =~= sin_directiva(r, k));
            if es_marca(x) {
                assert(relevante(r[0]));
                assert(!es_directiva(r[0], k));
                assert(sin_directiva(r, k)[0] == r[0]);
                assert(f[1] == r[0]);
            }
        }
    }
}

proof fn lema_limpio_sin_notas(ls: Seq<LineaV>)
    requires
        limpio(ls),
    ensures
        limpio(sin_notas(ls)),
    decreases ls.len(),
{
    lema_relevante_no_es_nota();
    if ls.len() > 0 {
        let x = ls[0];
        let r = ls.drop_first();
        lema_limpio_sin_notas(r);
        if tras_marca(x, "nota:"@) is None {
            let f = seq![x] + sin_notas(r);
            assert(f.drop_first() =~= sin_notas(r));
            if es_marca(x) {
                assert(relevante(r[0]));
                assert(!es_nota(r[0]));
                assert(sin_notas(r)[0] == r[0]);
                assert(f[1] == r[0]);
            }
        }
    }
}

proof fn lema_limpio_reemplazar(ls: Seq<LineaV>, k: Seq<char>, nueva: LineaV, hallada: bool)
    requires
        limpio(ls),
        clave_neutra(k),
        !es_marca(nueva),
    ensures
        limpio(reemplazar_desde(ls, k, nueva, hallada)),
    decreases ls.len(),
{
    if ls.len() > 0 {
        let x = ls[0];
        let r = ls.drop_first();
        if es_directiva(x, k) {
            lema_limpio_reemplazar(r, k, nueva, true);
            if !hallada {
                let f = seq![nueva] + reemplazar_desde(r, k, nueva, true);
                assert(f.drop_first() =~= reemplazar_desde(r, k, nueva, true));
            }
        } else {
            lema_limpio_reemplazar(r, k, nueva, hallada);
            let f = seq![x] + reemplazar_desde(r, k, nueva, hallada);
            assert(f.drop_first() =~= reemplazar_desde(r, k, nueva, hallada));
            if es_marca(x) {
                assert(relevante(r[0]));
                assert(!es_directiva(r[0], k));
                assert(reemplazar_desde(r, k, nueva, hallada)[0] == r[0]);
                assert(f[1] == r[0]);
            }
        }
    }
}

/// Unas líneas sin marcas están limpias.
proof fn lema_limpio_sin_marcas(ls: Seq<LineaV>)
    requires
        forall|i: int| 0 <= i < ls.len() ==> !es_marca(#[trigger] ls[i]),
    ensures
        limpio(ls),
    decreases ls.len(),
{
    if ls.len() > 0 {
        assert forall|i: int| 0 <= i < ls.drop_first().len() implies !es_marca(#[trigger] ls.drop_first()[i]) by {
            assert(ls.drop_first()[i] == ls[i + 1]);
        }
        lema_limpio_sin_marcas(ls.drop_first());
    }
}

/// Insertar en un cuerpo limpio unas líneas limpias, no detrás de una marca.
proof fn lema_limpio_insertar(ls: Seq<LineaV>, i: int, medio: Seq<LineaV>)
    requires
        limpio(ls),
        limpio(medio),
        0 <= i <= ls.len(),
        i == 0 || !es_marca(ls[i - 1]),
    ensures
        limpio(ls.take(i) + medio + ls.skip(i)),
{
    assert(ls =~= ls.take(i) + ls.skip(i));
    if i > 0 {
        assert(ls.take(i).last() == ls[i - 1]);
    }
    lema_limpio_partes(ls.take(i), ls.skip(i));
    lema_limpio_suma(medio, ls.skip(i));
    lema_limpio_suma(ls.take(i), medio + ls.skip(i));
    assert(ls.take(i) + medio + ls.skip(i) =~= ls.take(i) + (medio + ls.skip(i)));
}

pub proof fn lema_limpio_con_unica(ls: Seq<LineaV>, k: Seq<char>, v: Option<Seq<char>>)
    requires
        limpio(ls),
        clave_neutra(k),
    ensures
        limpio(con_unica(ls, k, v)),
{
    match valor_no_vacio(v) {
        Some(x) => {
            let nueva = crate::config::writer::directiva_nueva(k, x);
            lema_directiva_nueva(k, x);
            assert(crate::config::parser::texto_comentario(nueva) is None);
            match primera_pos_directiva(ls, k) {
                Some(_) => {
                    lema_limpio_reemplazar(ls, k, nueva, false);
                },
                None => {
                    lema_punto_sin_marca(ls);
                    let i = punto_de_insercion(ls);
                    lema_limpio_sin_marcas(seq![nueva]);
                    lema_limpio_insertar(ls, i, seq![nueva]);
                    assert(ls.insert(i, nueva) =~= ls.take(i) + seq![nueva] + ls.skip(i));
                },
            }
        },
        None => {
            lema_limpio_sin_directiva(ls, k);
        },
    }
}

pub(crate) proof fn lema_sin_directiva_prefijo(ls: Seq<LineaV>, k: Seq<char>, p: int)
    requires
        0 <= p <= ls.len(),
        forall|j: int| 0 <= j < p ==> !es_directiva(#[trigger] ls[j], k),
    ensures
        sin_directiva(ls, k).len() >= p,
        sin_directiva(ls, k).take(p) == ls.take(p),
    decreases p,
{
    if p > 0 {
        let r = ls.drop_first();
        assert forall|j: int| 0 <= j < p - 1 implies !es_directiva(#[trigger] r[j], k) by {
            assert(r[j] == ls[j + 1]);
        }
        assert(!es_directiva(ls[0], k));
        lema_sin_directiva_prefijo(r, k, p - 1);
        let f = seq![ls[0]] + sin_directiva(r, k);
        assert(f.take(p) =~= seq![ls[0]] + sin_directiva(r, k).take(p - 1));
        assert(ls.take(p) =~= seq![ls[0]] + r.take(p - 1));
    } else {
        assert(sin_directiva(ls, k).take(0) =~= ls.take(0));
    }
}

pub proof fn lema_limpio_con_multiple(ls: Seq<LineaV>, k: Seq<char>, vs: Seq<Seq<char>>)
    requires
        limpio(ls),
        clave_neutra(k),
    ensures
        limpio(con_multiple(ls, k, vs)),
{
    let destino = match primera_pos_directiva(ls, k) {
        Some(q) => q,
        None => punto_de_insercion(ls),
    };
    lema_primera_pos_directiva(ls, k);
    lema_punto_sin_marca(ls);
    let s = sin_directiva(ls, k);
    lema_limpio_sin_directiva(ls, k);
    let nuevas = directivas_nuevas(k, vs);
    assert forall|i: int| 0 <= i < nuevas.len() implies !es_marca(#[trigger] nuevas[i]) by {
        lema_directiva_nueva(k, vs[i]);
        assert(crate::config::parser::texto_comentario(nuevas[i]) is None);
    }
    lema_limpio_sin_marcas(nuevas);
    match primera_pos_directiva(ls, k) {
        Some(q) => {
            lema_sin_directiva_prefijo(ls, k, q);
            assert(minimo(destino, s.len() as int) == q);
            if q > 0 {
                assert(s[q - 1] == s.take(q)[q - 1]);
                assert(s[q - 1] == ls[q - 1]);
                if es_marca(ls[q - 1]) {
                    assert(ls.skip(q - 1).drop_first() =~= ls.skip(q));
                    lema_limpio_en(ls, q - 1);
                    assert(relevante(ls[q]));
                }
            }
            lema_limpio_insertar(s, q, nuevas);
        },
        None => {
            lema_sin_directiva_prefijo(ls, k, ls.len() as int);
            assert(s.len() >= ls.len());
            assert(ls.take(ls.len() as int) =~= ls);
            lema_sin_directiva_corta(ls, k);
            assert(s.take(ls.len() as int) =~= s);
            assert(s == ls);
            lema_limpio_insertar(s, destino, nuevas);
        },
    }
}

proof fn lema_sin_directiva_corta(ls: Seq<LineaV>, k: Seq<char>)
    ensures
        sin_directiva(ls, k).len() <= ls.len(),
    decreases ls.len(),
{
    if ls.len() > 0 {
        lema_sin_directiva_corta(ls.drop_first(), k);
    }
}

/// En un cuerpo limpio, cada marca va seguida de una línea relevante.
pub(crate) proof fn lema_limpio_en(ls: Seq<LineaV>, i: int)
    requires
        limpio(ls),
        0 <= i < ls.len(),
        es_marca(ls[i]),
    ensures
        i + 1 < ls.len(),
        relevante(ls[i + 1]),
    decreases i,
{
    if i > 0 {
        assert(ls.drop_first()[i - 1] == ls[i]);
        lema_limpio_en(ls.drop_first(), i - 1);
        assert(ls.drop_first()[i] == ls[i + 1]);
    }
}

pub proof fn lema_limpio_con_nota(ls: Seq<LineaV>, n: Option<Seq<char>>)
    requires
        limpio(ls),
    ensures
        limpio(con_nota(sin_notas(ls), n)),
{
    lema_limpio_sin_notas(ls);
    let c = sin_notas(ls);
    match n {
        Some(x) => {
            if recortado(x).len() > 0 {
                reveal_strlit("    # nota: ");
                lema_linea_nota(x);
                lema_relevante_no_es_nota();
                let f = seq![linea_nota(x)] + c;
                assert(f.drop_first() =~= c);
                assert(!es_marca(linea_nota(x))) by {
                    if es_marca(linea_nota(x)) {
                        assert(relevante(linea_nota(x)));
                    }
                }
            }
        },
        None => {},
    }
}


// --- Sincronizar un cuerpo limpio -------------------------------------------------------

proof fn lema_clave_neutra(k: Seq<char>, k0: Seq<char>)
    requires
        clave_gestionada(k),
        minusculas(k) == k0,
        k0 != "localforward"@,
        k0 != "remoteforward"@,
        k0 != "dynamicforward"@,
    ensures
        clave_neutra(k),
{
    assert forall|l: LineaV| #[trigger] relevante(l) implies !es_directiva(l, k) by {
        if es_directiva(l, k) {
            assert(crate::config::parser::texto_comentario(l) is None);
            assert(tipo_de_directiva(l) is None);
        }
    }
}

pub proof fn lema_claves_neutras()
    ensures
        clave_neutra("HostName"@),
        clave_neutra("User"@),
        clave_neutra("Port"@),
        clave_neutra("ProxyJump"@),
        clave_neutra("IdentityFile"@),
        clave_neutra("ExitOnForwardFailure"@),
        clave_neutra("ServerAliveInterval"@),
        clave_neutra("ServerAliveCountMax"@),
        clave_neutra("TCPKeepAlive"@),
{
    lema_claves_gestionadas();
    reveal_strlit("hostname");
    reveal_strlit("user");
    reveal_strlit("port");
    reveal_strlit("proxyjump");
    reveal_strlit("identityfile");
    reveal_strlit("exitonforwardfailure");
    reveal_strlit("serveraliveinterval");
    reveal_strlit("serveralivecountmax");
    reveal_strlit("tcpkeepalive");
    reveal_strlit("localforward");
    reveal_strlit("remoteforward");
    reveal_strlit("dynamicforward");
    let l = "localforward"@;
    let r = "remoteforward"@;
    let d = "dynamicforward"@;
    assert("hostname"@[0] != l[0] && "hostname"@[0] != r[0] && "hostname"@[0] != d[0]);
    lema_clave_neutra("HostName"@, "hostname"@);
    assert("user"@[0] != l[0] && "user"@[0] != r[0] && "user"@[0] != d[0]);
    lema_clave_neutra("User"@, "user"@);
    assert("port"@[0] != l[0] && "port"@[0] != r[0] && "port"@[0] != d[0]);
    lema_clave_neutra("Port"@, "port"@);
    assert("proxyjump"@[0] != l[0] && "proxyjump"@[0] != r[0] && "proxyjump"@[0] != d[0]);
    lema_clave_neutra("ProxyJump"@, "proxyjump"@);
    assert("identityfile"@[0] != l[0] && "identityfile"@[0] != r[0] && "identityfile"@[0] != d[0]);
    lema_clave_neutra("IdentityFile"@, "identityfile"@);
    assert("exitonforwardfailure"@[0] != l[0] && "exitonforwardfailure"@[0] != r[0]
        && "exitonforwardfailure"@[0] != d[0]);
    lema_clave_neutra("ExitOnForwardFailure"@, "exitonforwardfailure"@);
    assert("serveraliveinterval"@[0] != l[0] && "serveraliveinterval"@[0] != r[0]
        && "serveraliveinterval"@[0] != d[0]);
    lema_clave_neutra("ServerAliveInterval"@, "serveraliveinterval"@);
    assert("serveralivecountmax"@[0] != l[0] && "serveralivecountmax"@[0] != r[0]
        && "serveralivecountmax"@[0] != d[0]);
    lema_clave_neutra("ServerAliveCountMax"@, "serveralivecountmax"@);
    assert("tcpkeepalive"@[0] != l[0] && "tcpkeepalive"@[0] != r[0] && "tcpkeepalive"@[0] != d[0]);
    lema_clave_neutra("TCPKeepAlive"@, "tcpkeepalive"@);
}

proof fn lema_del_tipo_escribibles(rs: Seq<ReenvioV>, t: TipoReenvio)
    requires
        forall|i: int| 0 <= i < rs.len() ==> reenvio_escribible(#[trigger] rs[i], rs[i].tipo),
    ensures
        forall|i: int|
            0 <= i < del_tipo(rs, t).len() ==> reenvio_escribible(#[trigger] del_tipo(rs, t)[i], t),
    decreases rs.len(),
{
    if rs.len() > 0 {
        assert forall|i: int| 0 <= i < rs.drop_last().len() implies reenvio_escribible(
            #[trigger] rs.drop_last()[i],
            rs.drop_last()[i].tipo,
        ) by {
            assert(rs.drop_last()[i] == rs[i]);
        }
        lema_del_tipo_escribibles(rs.drop_last(), t);
        assert(reenvio_escribible(rs[rs.len() - 1], rs[rs.len() - 1].tipo));
        let previos = del_tipo(rs.drop_last(), t);
        if rs.last().tipo == t {
            assert forall|i: int| 0 <= i < del_tipo(rs, t).len() implies reenvio_escribible(
                #[trigger] del_tipo(rs, t)[i],
                t,
            ) by {
                if i < previos.len() {
                    assert(del_tipo(rs, t)[i] == previos[i]);
                } else {
                    assert(del_tipo(rs, t)[i] == rs.last());
                }
            }
        }
    }
}

proof fn lema_escrita_gestionada(k: Seq<char>)
    requires
        clave_gestionada(k),
    ensures
        clave_escrita(k),
{
}

/// Tras sincronizar un cuerpo limpio con un host de reenvíos escribibles, se
/// leen, tipo a tipo, los reenvíos del host.
pub proof fn lema_reenvios_se_leen(c: Seq<LineaV>, h: HostV)
    requires
        limpio(c),
        forall|i: int| 0 <= i < h.reenvios.len() ==> reenvio_escribible(#[trigger] h.reenvios[i], h.reenvios[i].tipo),
    ensures
        forall|t: TipoReenvio| #[trigger] del_tipo(leidos(cuerpo_sincronizado(c, h)), t) == del_tipo(h.reenvios, t),
{
    lema_claves_neutras();
    lema_claves_gestionadas();
    lema_claves_de_tipo();
    let e0 = etapa_nota(c, h);
    let e1 = etapa_hostname(c, h);
    let e2 = etapa_usuario(c, h);
    let e3 = etapa_puerto(c, h);
    let e4 = etapa_saltos(c, h);
    let e5 = etapa_identidades(c, h);
    let e6 = etapa_locales(c, h);
    let e7 = etapa_remotos(c, h);
    let e8 = etapa_dinamicos(c, h);
    lema_limpio_con_nota(c, h.nota);
    lema_limpio_con_unica(e0, "HostName"@, h.hostname);
    lema_limpio_con_unica(e1, "User"@, h.usuario);
    lema_limpio_con_unica(e2, "Port"@, texto_puerto(h.puerto));
    lema_limpio_con_unica(e3, "ProxyJump"@, texto_saltos(h.saltos));
    lema_limpio_con_multiple(e4, "IdentityFile"@, h.identidades);
    let rl = del_tipo(h.reenvios, TipoReenvio::Local);
    let rr = del_tipo(h.reenvios, TipoReenvio::Remoto);
    let rd = del_tipo(h.reenvios, TipoReenvio::Dinamico);
    lema_del_tipo_escribibles(h.reenvios, TipoReenvio::Local);
    lema_del_tipo_escribibles(h.reenvios, TipoReenvio::Remoto);
    lema_del_tipo_escribibles(h.reenvios, TipoReenvio::Dinamico);
    lema_escrita_gestionada("LocalForward"@);
    lema_escrita_gestionada("RemoteForward"@);
    lema_escrita_gestionada("DynamicForward"@);
    lema_con_reenvios(e5, "LocalForward"@, rl, TipoReenvio::Local);
    lema_con_reenvios(e6, "RemoteForward"@, rr, TipoReenvio::Remoto);
    lema_con_reenvios(e7, "DynamicForward"@, rd, TipoReenvio::Dinamico);
    // Las directivas fijas del final no cambian lo que se lee.
    let p = relevantes();
    assert forall|k: Seq<char>| clave_neutra(k) implies (forall|l: LineaV| #[trigger] p(l) ==> !es_directiva(l, k)) by {
        assert forall|l: LineaV| #[trigger] p(l) implies !es_directiva(l, k) by {
            assert(relevante(l));
        }
    }
    let f1 = con_unica(e8, "ExitOnForwardFailure"@, Some("yes"@));
    let f2 = con_unica(f1, "ServerAliveInterval"@, Some("15"@));
    let f3 = con_unica(f2, "ServerAliveCountMax"@, Some("3"@));
    let f4 = con_unica(f3, "TCPKeepAlive"@, Some("yes"@));
    lema_filtro_con_unica(e8, "ExitOnForwardFailure"@, Some("yes"@), p);
    lema_filtro_con_unica(f1, "ServerAliveInterval"@, Some("15"@), p);
    lema_filtro_con_unica(f2, "ServerAliveCountMax"@, Some("3"@), p);
    lema_filtro_con_unica(f3, "TCPKeepAlive"@, Some("yes"@), p);
    assert(cuerpo_sincronizado(c, h) == f4);
    lema_leer_relevantes(f4, None, None);
    lema_leer_relevantes(e8, None, None);
    assert(leidos(f4) == leidos(e8));
    assert forall|t: TipoReenvio| #[trigger] del_tipo(leidos(cuerpo_sincronizado(c, h)), t) == del_tipo(h.reenvios, t) by {
        assert(del_tipo(leidos(e8), t) == del_tipo(leidos(e8), t));
        assert(del_tipo(leidos(e7), t) == del_tipo(leidos(e7), t));
        assert(del_tipo(leidos(e6), t) == del_tipo(leidos(e6), t));
    }
}


// --- Cualquier grupo escrito está limpio -------------------------------------------------

/// Un grupo escrito está limpio, sea cual sea el reenvío.
pub proof fn lema_grupo_limpio(k: Seq<char>, r: ReenvioV, t: TipoReenvio)
    requires
        clave_escrita(k),
        clave_de_tipo(k, t),
    ensures
        limpio(lineas_reenvio(k, r)),
{
    reveal_strlit("nombre:");
    reveal_strlit("salud:");
    let v = valor_directiva(r);
    lema_directiva_nueva(k, v);
    let d = directiva_nueva(k, v);
    assert(es_directiva(d, k));
    assert(tipo_de_directiva(d) == Some(t));
    assert(crate::config::parser::texto_comentario(d) is None);
    let sd = seq![d];
    assert(sd.drop_first() =~= Seq::<LineaV>::empty());
    assert(!es_marca(d));
    assert(sd[0] == d);
    assert(limpio(sd.drop_first()));
    assert(limpio(sd));
    let ms = if r.salud != SaludV::Escucha {
        seq![linea_de("    # "@ + "salud:"@ + " "@ + especificacion(r.salud))]
    } else {
        Seq::<LineaV>::empty()
    };
    let gs = ms + sd;
    if r.salud != SaludV::Escucha {
        crate::config::writer::lema_marca_nueva("salud:"@, especificacion(r.salud));
        assert(gs =~= seq![ms[0], d]);
        assert(gs.drop_first() =~= sd);
        assert(limpio(gs));
    } else {
        assert(gs =~= sd);
    }
    assert(relevante(gs[0]));
    let g = lineas_reenvio(k, r);
    match r.nombre {
        Some(n) => {
            let mn = seq![linea_de("    # "@ + "nombre:"@ + " "@ + n)];
            crate::config::writer::lema_marca_nueva("nombre:"@, n);
            assert(g =~= mn + gs);
            assert(g.drop_first() =~= gs);
        },
        None => {
            assert(g =~= gs);
        },
    }
}

pub proof fn lema_grupos_limpios(k: Seq<char>, rs: Seq<ReenvioV>, t: TipoReenvio)
    requires
        clave_escrita(k),
        clave_de_tipo(k, t),
    ensures
        limpio(lineas_reenvios(k, rs)),
    decreases rs.len(),
{
    if rs.len() > 0 {
        lema_grupos_limpios(k, rs.drop_last(), t);
        lema_grupo_limpio(k, rs.last(), t);
        lema_limpio_suma(lineas_reenvios(k, rs.drop_last()), lineas_reenvio(k, rs.last()));
    } else {
        assert(lineas_reenvios(k, rs) =~= Seq::<LineaV>::empty());
    }
}

/// Reescribir los reenvíos de una directiva deja limpio un cuerpo limpio.
pub proof fn lema_limpio_con_reenvios(ls: Seq<LineaV>, k: Seq<char>, rs: Seq<ReenvioV>, t: TipoReenvio)
    requires
        limpio(ls),
        clave_escrita(k),
        clave_de_tipo(k, t),
    ensures
        limpio(con_reenvios(ls, k, rs)),
{
    let destino = match primera_pos_directiva(ls, k) {
        Some(q) => q,
        None => punto_de_insercion(ls),
    };
    lema_primera_pos_directiva(ls, k);
    lema_punto_sin_marca(ls);
    let kk = conservadas_hasta(ls, k, ls.len() as int);
    lema_conservadas_borrado(ls, k);
    lema_conservadas_prefijo(ls, k, destino, ls.len() as int);
    let a = conservadas_hasta(ls, k, destino);
    let d = minimo(a.len() as int, kk.len() as int);
    assert(kk.take(d) == a);
    let b = kk.skip(d);
    let w = lineas_reenvios(k, rs);
    match primera_pos_directiva(ls, k) {
        Some(q) => {
            lema_conservadas_sin_marca_final(ls, k, q);
        },
        None => {
            lema_conservadas_todas(ls, k, destino);
            if destino > 0 {
                assert(a.last() == ls[destino - 1]);
            }
        },
    }
    lema_borrado_limpio(ls, k);
    assert(kk =~= a + b);
    lema_limpio_partes(a, b);
    lema_grupos_limpios(k, rs, t);
    lema_limpio_suma(w, b);
    lema_limpio_suma(a, w + b);
    assert(a + w + b =~= a + (w + b));
}

/// Un cuerpo limpio no acaba en marca.
pub proof fn lema_limpio_sin_marca_final(ls: Seq<LineaV>)
    requires
        limpio(ls),
    ensures
        ls.len() == 0 || !es_marca(ls.last()),
    decreases ls.len(),
{
    if ls.len() > 1 {
        assert(ls.drop_first().last() == ls.last());
        lema_limpio_sin_marca_final(ls.drop_first());
    }
}

} // verus!
