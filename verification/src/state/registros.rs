//! Lo que se guarda de cada túnel entre arranques y lo que se decide con ello:
//! qué túneles enseña la lista, en qué orden y cuáles se levantan solos.
//!
//! Importar un host ajeno es solo pedir verlo: sigue en su fichero y no se
//! toca. La lista enseña siempre los túneles del fichero propio y, de los
//! ajenos, los de los hosts importados; el orden es el que dejó el usuario, y
//! los túneles que aún no tienen puesto van al final, en orden de fichero.

use vstd::prelude::*;

use crate::config::{tuneles_de, vistas_refs, vistas_tuneles, Catalogo, CatalogoV};
use crate::modelo::{id_tunel, Host, HostV, Tunel, TunelV};
use crate::texto::{caracteres, iguales, vistas};

verus! {

broadcast use vstd::string::group_string_axioms;

/// Fila de estado de un túnel.
#[derive(Debug, Clone)]
pub struct RegistroTunel {
    pub id: String,
    /// Posición en la lista de la interfaz.
    pub orden: i64,
    /// El usuario quiere este túnel arriba.
    pub deseado: bool,
    /// Levantar al arrancar la aplicación.
    pub autoarranque: bool,
    /// Marca de tiempo Unix de la última conexión correcta.
    pub ultima_conexion: Option<i64>,
    pub fallos: i64,
    pub activaciones: i64,
    pub segundos_activo: i64,
}

impl RegistroTunel {
    /// Registro de un túnel recién dado de alta: sin puesto, sin intención y sin historia.
    pub fn nuevo(id: &str) -> (r: RegistroTunel)
        ensures
            r.id@ == id@,
            r.orden == 0,
            !r.deseado,
            !r.autoarranque,
            r.ultima_conexion is None,
            r.fallos == 0,
            r.activaciones == 0,
            r.segundos_activo == 0,
    {
        RegistroTunel {
            id: id.to_string(),
            orden: 0,
            deseado: false,
            autoarranque: false,
            ultima_conexion: None,
            fallos: 0,
            activaciones: 0,
            segundos_activo: 0,
        }
    }
}

/// El registro que vale para un identificador: el último que lo nombra.
pub open spec fn registro_de(regs: Seq<RegistroTunel>, id: Seq<char>) -> Option<RegistroTunel>
    decreases regs.len(),
{
    if regs.len() == 0 {
        None
    } else if regs.last().id@ == id {
        Some(regs.last())
    } else {
        registro_de(regs.drop_last(), id)
    }
}

/// Puesto de un túnel en la lista: el guardado; sin registro, el último posible.
pub open spec fn puesto(regs: Seq<RegistroTunel>, t: TunelV) -> int {
    match registro_de(regs, id_tunel(t)) {
        Some(r) => r.orden as int,
        None => i64::MAX as int,
    }
}

/// `ordenados` con `t` colocado detrás del último que no va después de él.
pub open spec fn colocar(ordenados: Seq<TunelV>, t: TunelV, regs: Seq<RegistroTunel>) -> Seq<TunelV>
    decreases ordenados.len(),
{
    if ordenados.len() == 0 {
        seq![t]
    } else if puesto(regs, ordenados.last()) <= puesto(regs, t) {
        ordenados.push(t)
    } else {
        colocar(ordenados.drop_last(), t, regs).push(ordenados.last())
    }
}

/// Los túneles ordenados por puesto; los de igual puesto conservan su orden.
pub open spec fn por_puesto(ts: Seq<TunelV>, regs: Seq<RegistroTunel>) -> Seq<TunelV>
    decreases ts.len(),
{
    if ts.len() == 0 {
        seq![]
    } else {
        colocar(por_puesto(ts.drop_last(), regs), ts.last(), regs)
    }
}

/// El host ajeno ha sido importado.
pub open spec fn importado(importados: Seq<Seq<char>>) -> spec_fn(HostV) -> bool {
    |h: HostV| importados.contains(h.alias)
}

/// El host ajeno aún no ha sido importado.
pub open spec fn sin_importar(importados: Seq<Seq<char>>) -> spec_fn(HostV) -> bool {
    |h: HostV| !importados.contains(h.alias)
}

/// Túneles que enseña la lista: los propios y los de los ajenos importados,
/// ordenados por puesto.
pub open spec fn visibles(c: CatalogoV, importados: Seq<Seq<char>>, regs: Seq<RegistroTunel>) -> Seq<TunelV> {
    por_puesto(tuneles_de(c.propios) + tuneles_de(c.externos.filter(importado(importados))), regs)
}

/// El túnel tiene registro y pide levantarse al arrancar.
pub open spec fn autoarranca(regs: Seq<RegistroTunel>) -> spec_fn(TunelV) -> bool {
    |t: TunelV|
        match registro_de(regs, id_tunel(t)) {
            Some(r) => r.autoarranque,
            None => false,
        }
}

/// Identificadores de una lista de túneles.
pub open spec fn ids_de(ts: Seq<TunelV>) -> Seq<Seq<char>> {
    ts.map_values(|t: TunelV| id_tunel(t))
}

/// La lista va por puesto: ningún túnel va delante de otro con menos puesto.
pub open spec fn ordenado_por_puesto(s: Seq<TunelV>, regs: Seq<RegistroTunel>) -> bool {
    forall|i: int, j: int|
        0 <= i < j < s.len() ==> puesto(regs, #[trigger] s[i]) <= puesto(regs, #[trigger] s[j])
}

/// Ningún túnel de la lista tiene un puesto mayor que `b`.
pub open spec fn acotado(s: Seq<TunelV>, regs: Seq<RegistroTunel>, b: int) -> bool {
    forall|i: int| 0 <= i < s.len() ==> puesto(regs, #[trigger] s[i]) <= b
}

/// Colocar un túnel en una lista ordenada la deja ordenada, con un elemento más.
proof fn lema_colocar(x: Seq<TunelV>, t: TunelV, regs: Seq<RegistroTunel>)
    requires
        ordenado_por_puesto(x, regs),
    ensures
        ordenado_por_puesto(colocar(x, t, regs), regs),
        colocar(x, t, regs).to_multiset() == x.to_multiset().insert(t),
        forall|b: int|
            acotado(x, regs, b) && puesto(regs, t) <= b ==> acotado(colocar(x, t, regs), regs, b),
    decreases x.len(),
{
    broadcast use vstd::seq_lib::group_to_multiset_ensures, vstd::multiset::group_multiset_axioms;

    if x.len() == 0 {
        assert(seq![t] =~= Seq::<TunelV>::empty().push(t));
        assert(x =~= Seq::<TunelV>::empty());
    } else {
        let u = x.last();
        let y = x.drop_last();
        assert(x =~= y.push(u));
        if puesto(regs, u) <= puesto(regs, t) {
            let c = x.push(t);
            assert forall|i: int, j: int| 0 <= i < j < c.len() implies puesto(regs, #[trigger] c[i])
                <= puesto(regs, #[trigger] c[j]) by {
                if j == x.len() {
                    if i < x.len() - 1 {
                        assert(puesto(regs, x[i]) <= puesto(regs, x[x.len() - 1]));
                    }
                }
            }
            assert forall|b: int| acotado(x, regs, b) && puesto(regs, t) <= b implies acotado(
                c,
                regs,
                b,
            ) by {
                assert forall|i: int| 0 <= i < c.len() implies puesto(regs, #[trigger] c[i]) <= b by {
                    if i < x.len() {
                        assert(c[i] == x[i]);
                    }
                }
            }
        } else {
            assert forall|i: int, j: int| 0 <= i < j < y.len() implies puesto(regs, #[trigger] y[i])
                <= puesto(regs, #[trigger] y[j]) by {
                assert(y[i] == x[i] && y[j] == x[j]);
            }
            lema_colocar(y, t, regs);
            let c = colocar(y, t, regs);
            assert(acotado(y, regs, puesto(regs, u))) by {
                assert forall|i: int| 0 <= i < y.len() implies puesto(regs, #[trigger] y[i]) <= puesto(
                    regs,
                    u,
                ) by {
                    assert(y[i] == x[i]);
                }
            }
            assert(acotado(c, regs, puesto(regs, u)));
            let d = c.push(u);
            assert(colocar(x, t, regs) == d);
            assert forall|i: int, j: int| 0 <= i < j < d.len() implies puesto(regs, #[trigger] d[i])
                <= puesto(regs, #[trigger] d[j]) by {
                if j == c.len() {
                    assert(d[i] == c[i]);
                } else {
                    assert(d[i] == c[i] && d[j] == c[j]);
                }
            }
            assert forall|b: int| acotado(x, regs, b) && puesto(regs, t) <= b implies acotado(
                d,
                regs,
                b,
            ) by {
                assert(acotado(y, regs, b)) by {
                    assert forall|i: int| 0 <= i < y.len() implies puesto(regs, #[trigger] y[i]) <= b by {
                        assert(y[i] == x[i]);
                    }
                }
                assert(acotado(c, regs, b));
                assert forall|i: int| 0 <= i < d.len() implies puesto(regs, #[trigger] d[i]) <= b by {
                    if i < c.len() {
                        assert(d[i] == c[i]);
                    } else {
                        assert(d[i] == x[x.len() - 1]);
                    }
                }
            }
            assert(d.to_multiset() =~= x.to_multiset().insert(t));
        }
    }
}

/// La ordenación por puesto deja la lista ordenada y con los mismos túneles.
proof fn lema_por_puesto(ts: Seq<TunelV>, regs: Seq<RegistroTunel>)
    ensures
        ordenado_por_puesto(por_puesto(ts, regs), regs),
        por_puesto(ts, regs).to_multiset() == ts.to_multiset(),
    decreases ts.len(),
{
    broadcast use vstd::seq_lib::group_to_multiset_ensures, vstd::multiset::group_multiset_axioms;

    if ts.len() == 0 {
        assert(por_puesto(ts, regs) =~= ts);
    } else {
        lema_por_puesto(ts.drop_last(), regs);
        lema_colocar(por_puesto(ts.drop_last(), regs), ts.last(), regs);
        assert(ts =~= ts.drop_last().push(ts.last()));
    }
}

/// Sin ningún puesto guardado, colocar es poner al final.
proof fn lema_sin_puestos(ts: Seq<TunelV>, regs: Seq<RegistroTunel>)
    requires
        regs.len() == 0,
    ensures
        por_puesto(ts, regs) == ts,
    decreases ts.len(),
{
    if ts.len() > 0 {
        lema_sin_puestos(ts.drop_last(), regs);
        let y = ts.drop_last();
        if y.len() > 0 {
            assert(puesto(regs, y.last()) == puesto(regs, ts.last()));
        }
        assert(y.push(ts.last()) =~= ts);
    }
}

/// La lista va en el orden guardado por el usuario, con los túneles sin puesto
/// al final, y enseña exactamente los túneles propios y los de los hosts ajenos
/// importados: ni se pierde ninguno ni aparece otro.
pub proof fn ley_la_lista_sigue_el_puesto(c: CatalogoV, importados: Seq<Seq<char>>, regs: Seq<RegistroTunel>)
    ensures
        ordenado_por_puesto(visibles(c, importados, regs), regs),
        visibles(c, importados, regs).to_multiset() == (tuneles_de(c.propios) + tuneles_de(
            c.externos.filter(importado(importados)),
        )).to_multiset(),
{
    lema_por_puesto(
        tuneles_de(c.propios) + tuneles_de(c.externos.filter(importado(importados))),
        regs,
    );
}

/// Sin nada guardado, la lista sale en orden de fichero: primero los túneles
/// propios y después los de los hosts ajenos importados.
pub proof fn ley_sin_registros_orden_de_fichero(c: CatalogoV, importados: Seq<Seq<char>>)
    ensures
        visibles(c, importados, seq![]) == tuneles_de(c.propios) + tuneles_de(
            c.externos.filter(importado(importados)),
        ),
{
    lema_sin_puestos(
        tuneles_de(c.propios) + tuneles_de(c.externos.filter(importado(importados))),
        seq![],
    );
}

/// El registro que vale para un identificador.
pub fn buscar_registro<'a>(regs: &'a Vec<RegistroTunel>, id: &str) -> (r: Option<&'a RegistroTunel>)
    ensures
        match r {
            Some(x) => registro_de(regs@, id@) == Some(*x),
            None => registro_de(regs@, id@) is None,
        },
{
    let buscado = caracteres(id);
    let mut i: usize = regs.len();
    proof {
        assert(regs@.take(regs@.len() as int) =~= regs@);
    }
    while i > 0
        invariant
            i <= regs@.len(),
            buscado@ == id@,
            registro_de(regs@, id@) == registro_de(regs@.take(i as int), id@),
        decreases i,
    {
        proof {
            let t = regs@.take(i as int);
            assert(t.last() == regs@[i - 1]);
            assert(t.drop_last() =~= regs@.take(i - 1));
        }
        let propio = caracteres(regs[i - 1].id.as_str());
        if iguales(propio.as_slice(), buscado.as_slice()) {
            return Some(&regs[i - 1]);
        }
        i -= 1;
    }
    None
}

/// Puesto de un túnel en la lista.
fn puesto_de(regs: &Vec<RegistroTunel>, t: &Tunel) -> (r: i64)
    ensures
        r == puesto(regs@, t@),
{
    let id = t.id();
    match buscar_registro(regs, id.as_str()) {
        Some(x) => x.orden,
        None => i64::MAX,
    }
}

/// Colocar detrás de un tramo final de túneles que van después equivale a
/// colocar en lo que queda delante y volver a poner el tramo.
proof fn lema_colocar_tramo(rs: Seq<TunelV>, t: TunelV, regs: Seq<RegistroTunel>, j: int)
    requires
        0 < j <= rs.len(),
        puesto(regs, rs[j - 1]) > puesto(regs, t),
        colocar(rs, t, regs) == colocar(rs.take(j), t, regs) + rs.skip(j),
    ensures
        colocar(rs, t, regs) == colocar(rs.take(j - 1), t, regs) + rs.skip(j - 1),
{
    let a = rs.take(j);
    assert(a.last() == rs[j - 1]);
    assert(a.drop_last() =~= rs.take(j - 1));
    assert(colocar(a, t, regs) == colocar(rs.take(j - 1), t, regs).push(rs[j - 1]));
    assert(colocar(rs.take(j - 1), t, regs).push(rs[j - 1]) + rs.skip(j) =~= colocar(
        rs.take(j - 1),
        t,
        regs,
    ) + rs.skip(j - 1));
}

/// Ordena por puesto, de forma estable.
fn ordenar_por_puesto(ts: &Vec<Tunel>, regs: &Vec<RegistroTunel>) -> (r: Vec<Tunel>)
    ensures
        vistas_tuneles(r@) == por_puesto(vistas_tuneles(ts@), regs@),
{
    let mut r: Vec<Tunel> = Vec::new();
    let mut claves: Vec<i64> = Vec::new();
    let ghost s = vistas_tuneles(ts@);
    let mut i: usize = 0;
    proof {
        assert(s.take(0) =~= seq![]);
        assert(vistas_tuneles(r@) =~= seq![]);
    }
    while i < ts.len()
        invariant
            i <= ts@.len(),
            s == vistas_tuneles(ts@),
            vistas_tuneles(r@) == por_puesto(s.take(i as int), regs@),
            claves@.len() == r@.len(),
            forall|k: int| 0 <= k < r@.len() ==> #[trigger] claves@[k] == puesto(regs@, r@[k]@),
        decreases ts@.len() - i,
    {
        let t = ts[i].duplicar();
        let clave = puesto_de(regs, &t);
        let ghost rs = vistas_tuneles(r@);
        let ghost tv = t@;
        let mut j: usize = r.len();
        proof {
            assert(rs.take(rs.len() as int) =~= rs);
            assert(rs.skip(rs.len() as int) =~= seq![]);
            assert(colocar(rs, tv, regs@) =~= colocar(rs.take(j as int), tv, regs@) + rs.skip(
                j as int,
            ));
        }
        while j > 0 && claves[j - 1] > clave
            invariant
                j <= r@.len(),
                rs == vistas_tuneles(r@),
                tv == t@,
                clave == puesto(regs@, tv),
                claves@.len() == r@.len(),
                forall|k: int| 0 <= k < r@.len() ==> #[trigger] claves@[k] == puesto(regs@, r@[k]@),
                colocar(rs, tv, regs@) == colocar(rs.take(j as int), tv, regs@) + rs.skip(j as int),
            decreases j,
        {
            proof {
                assert(claves@[j - 1] == puesto(regs@, r@[j - 1]@));
                assert(rs[j - 1] == r@[j - 1]@);
                lema_colocar_tramo(rs, tv, regs@, j as int);
            }
            j -= 1;
        }
        proof {
            let a = rs.take(j as int);
            if j > 0 {
                assert(claves@[j - 1] == puesto(regs@, r@[j - 1]@));
                assert(a.last() == rs[j - 1]);
                assert(colocar(a, tv, regs@) == a.push(tv));
            } else {
                assert(a =~= seq![]);
                assert(colocar(a, tv, regs@) == seq![tv]);
            }
            assert(colocar(rs, tv, regs@) =~= rs.insert(j as int, tv));
            let u = s.take(i + 1);
            assert(u.drop_last() =~= s.take(i as int));
            assert(u.last() == tv);
        }
        let ghost antes = r@;
        r.insert(j, t);
        claves.insert(j, clave);
        proof {
            assert(vistas_tuneles(r@) =~= rs.insert(j as int, tv));
            assert forall|k: int| 0 <= k < r@.len() implies #[trigger] claves@[k] == puesto(
                regs@,
                r@[k]@,
            ) by {
                if k < j {
                    assert(r@[k] == antes[k]);
                } else if k > j {
                    assert(r@[k] == antes[k - 1]);
                }
            }
        }
        i += 1;
    }
    proof {
        assert(s.take(ts@.len() as int) =~= s);
    }
    r
}

/// El texto figura en la lista.
fn figura(v: &Vec<String>, s: &str) -> (r: bool)
    ensures
        r == vistas(v@).contains(s@),
{
    let buscado = caracteres(s);
    let mut i: usize = 0;
    while i < v.len()
        invariant
            i <= v@.len(),
            buscado@ == s@,
            forall|k: int| 0 <= k < i ==> v@[k]@ != s@,
        decreases v@.len() - i,
    {
        let otro = caracteres(v[i].as_str());
        if iguales(otro.as_slice(), buscado.as_slice()) {
            proof {
                assert(vistas(v@)[i as int] == s@);
            }
            return true;
        }
        i += 1;
    }
    proof {
        if vistas(v@).contains(s@) {
            let k = choose|k: int| 0 <= k < vistas(v@).len() && vistas(v@)[k] == s@;
            assert(v@[k]@ == s@);
        }
    }
    false
}

/// Túneles que la interfaz debe mostrar.
///
/// Los del fichero propio siempre; los ajenos solo si su host se ha
/// importado. Van en el orden guardado por el usuario; los que no tienen
/// puesto, al final y en orden de fichero.
pub fn tuneles_visibles(catalogo: &Catalogo, importados: &Vec<String>, registros: &Vec<RegistroTunel>) -> (r: Vec<Tunel>)
    ensures
        vistas_tuneles(r@) == visibles(catalogo@, vistas(importados@), registros@),
{
    let ghost p = importado(vistas(importados@));
    let ghost propios = catalogo@.propios;
    let ghost ajenos = catalogo@.externos;
    let mut todos: Vec<Tunel> = Vec::new();
    let mut i: usize = 0;
    proof {
        assert(propios.take(0) =~= seq![]);
        assert(vistas_tuneles(todos@) =~= seq![]);
    }
    while i < catalogo.propios.len()
        invariant
            i <= catalogo.propios@.len(),
            propios == catalogo@.propios,
            vistas_tuneles(todos@) == tuneles_de(propios.take(i as int)),
        decreases catalogo.propios@.len() - i,
    {
        let mut ts = catalogo.propios[i].tuneles();
        let ghost antes = vistas_tuneles(todos@);
        todos.append(&mut ts);
        proof {
            let t = propios.take(i + 1);
            assert(t.drop_last() =~= propios.take(i as int));
            assert(t.last() == catalogo.propios@[i as int]@);
            assert(vistas_tuneles(todos@) =~= antes + crate::config::tuneles_de_host(t.last()));
        }
        i += 1;
    }
    proof {
        assert(propios.take(propios.len() as int) =~= propios);
        reveal(Seq::filter);
        assert(ajenos.take(0) =~= seq![]);
        assert(vistas_tuneles(todos@) =~= tuneles_de(propios) + tuneles_de(
            ajenos.take(0).filter(p),
        ));
    }
    let mut j: usize = 0;
    while j < catalogo.externos.len()
        invariant
            j <= catalogo.externos@.len(),
            propios == catalogo@.propios,
            ajenos == catalogo@.externos,
            p == importado(vistas(importados@)),
            vistas_tuneles(todos@) == tuneles_de(propios) + tuneles_de(
                ajenos.take(j as int).filter(p),
            ),
        decreases catalogo.externos@.len() - j,
    {
        let h: &Host = &catalogo.externos[j];
        let ghost u = ajenos.take(j + 1);
        proof {
            reveal(Seq::filter);
            assert(u.drop_last() =~= ajenos.take(j as int));
            assert(u.last() == h@);
        }
        if figura(importados, h.alias.as_str()) {
            let mut ts = h.tuneles();
            let ghost antes = vistas_tuneles(todos@);
            todos.append(&mut ts);
            proof {
                assert(u.filter(p) == ajenos.take(j as int).filter(p).push(h@));
                let f = ajenos.take(j as int).filter(p);
                assert(f.push(h@).drop_last() =~= f);
                assert(tuneles_de(f.push(h@)) == tuneles_de(f) + crate::config::tuneles_de_host(h@));
                assert(vistas_tuneles(todos@) =~= antes + crate::config::tuneles_de_host(h@));
            }
        } else {
            proof {
                assert(u.filter(p) == ajenos.take(j as int).filter(p));
            }
        }
        j += 1;
    }
    proof {
        assert(ajenos.take(ajenos.len() as int) =~= ajenos);
    }
    ordenar_por_puesto(&todos, registros)
}

/// Hosts ajenos aún no importados: los candidatos de la importación.
pub fn importables<'a>(catalogo: &'a Catalogo, importados: &Vec<String>) -> (r: Vec<&'a Host>)
    ensures
        vistas_refs(r@) == catalogo@.externos.filter(sin_importar(vistas(importados@))),
{
    let ghost p = sin_importar(vistas(importados@));
    let ghost ajenos = catalogo@.externos;
    let mut r: Vec<&Host> = Vec::new();
    let mut j: usize = 0;
    proof {
        reveal(Seq::filter);
        assert(ajenos.take(0) =~= seq![]);
        assert(vistas_refs(r@) =~= ajenos.take(0).filter(p));
    }
    while j < catalogo.externos.len()
        invariant
            j <= catalogo.externos@.len(),
            ajenos == catalogo@.externos,
            p == sin_importar(vistas(importados@)),
            vistas_refs(r@) == ajenos.take(j as int).filter(p),
        decreases catalogo.externos@.len() - j,
    {
        let h: &Host = &catalogo.externos[j];
        let ghost u = ajenos.take(j + 1);
        let ghost antes = r@;
        proof {
            reveal(Seq::filter);
            assert(u.drop_last() =~= ajenos.take(j as int));
            assert(u.last() == h@);
        }
        if !figura(importados, h.alias.as_str()) {
            r.push(h);
            proof {
                assert(vistas_refs(r@) =~= vistas_refs(antes).push(h@));
            }
        }
        j += 1;
    }
    proof {
        assert(ajenos.take(ajenos.len() as int) =~= ajenos);
    }
    r
}

/// Túneles marcados para levantarse al arrancar, en el orden de la lista.
pub fn de_autoarranque(catalogo: &Catalogo, importados: &Vec<String>, registros: &Vec<RegistroTunel>) -> (r: Vec<String>)
    ensures
        vistas(r@) == ids_de(
            visibles(catalogo@, vistas(importados@), registros@).filter(autoarranca(registros@)),
        ),
{
    let ts = tuneles_visibles(catalogo, importados, registros);
    let ghost s = vistas_tuneles(ts@);
    let ghost p = autoarranca(registros@);
    let mut r: Vec<String> = Vec::new();
    let mut i: usize = 0;
    proof {
        reveal(Seq::filter);
        assert(s.take(0) =~= seq![]);
        assert(vistas(r@) =~= ids_de(s.take(0).filter(p)));
    }
    while i < ts.len()
        invariant
            i <= ts@.len(),
            s == vistas_tuneles(ts@),
            p == autoarranca(registros@),
            vistas(r@) == ids_de(s.take(i as int).filter(p)),
        decreases ts@.len() - i,
    {
        let id = ts[i].id();
        let ghost u = s.take(i + 1);
        let ghost antes = r@;
        proof {
            reveal(Seq::filter);
            assert(u.drop_last() =~= s.take(i as int));
            assert(u.last() == ts@[i as int]@);
        }
        let arranca = match buscar_registro(registros, id.as_str()) {
            Some(x) => x.autoarranque,
            None => false,
        };
        if arranca {
            r.push(id);
            proof {
                let f = s.take(i as int).filter(p);
                assert(u.filter(p) == f.push(ts@[i as int]@));
                assert(vistas(r@) =~= vistas(antes).push(id_tunel(ts@[i as int]@)));
                assert(ids_de(f.push(ts@[i as int]@)) =~= ids_de(f).push(id_tunel(ts@[i as int]@)));
            }
        } else {
            proof {
                assert(u.filter(p) == s.take(i as int).filter(p));
            }
        }
        i += 1;
    }
    proof {
        assert(s.take(ts@.len() as int) =~= s);
    }
    r
}

} // verus!
