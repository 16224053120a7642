//! Interfaz de línea de órdenes: las órdenes que entiende y todo lo que decide
//! sin tocar la terminal.
//!
//! Salida sin colores. Las tablas van sin prefijo: una etiqueta por fila las
//! haría ilegibles. Leer de la terminal, escribir en ella y lanzar los
//! procesos queda fuera de la biblioteca.

use vstd::prelude::*;

use crate::config::vistas_tuneles;
use crate::error::{Error, Resultado};
use crate::modelo::{destino, id_tunel, Host, HostV, Tunel, TunelV};
use crate::rutas::{expandida, expandir};
use crate::state::machine::{Estado, EstadoTunel};
use crate::texto::{
    anexar, anexar_str, cadena, caracteres, contiene, contiene_sub, decimal, en_decimal, iguales,
    es_blanco, juntar, juntar_cadenas, minuscula, recortado, recortar_str, sin_blancos_al_final, unidos,
    vistas, vistas_vec,
};

verus! {

broadcast use vstd::string::group_string_axioms;

/// Vista de una tabla.
pub struct TablaV {
    pub cabeceras: Seq<Seq<char>>,
    pub filas: Seq<Seq<Seq<char>>>,
}

/// Tabla de texto alineada, sin colores ni caracteres de dibujo.
#[derive(Debug)]
pub struct Tabla {
    pub cabeceras: Vec<String>,
    pub filas: Vec<Vec<String>>,
}

pub open spec fn vistas_filas(f: Seq<Vec<String>>) -> Seq<Seq<Seq<char>>> {
    f.map_values(|x: Vec<String>| vistas(x@))
}

impl View for Tabla {
    type V = TablaV;

    open spec fn view(&self) -> TablaV {
        TablaV { cabeceras: vistas(self.cabeceras@), filas: vistas_filas(self.filas@) }
    }
}

pub open spec fn maximo(a: nat, b: nat) -> nat {
    if a >= b {
        a
    } else {
        b
    }
}

/// Ancho de la columna `c` en las filas: la celda más larga que tenga.
pub open spec fn ancho_en_filas(filas: Seq<Seq<Seq<char>>>, c: int) -> nat
    decreases filas.len(),
{
    if filas.len() == 0 {
        0
    } else {
        maximo(
            ancho_en_filas(filas.drop_last(), c),
            if 0 <= c < filas.last().len() {
                filas.last()[c].len()
            } else {
                0
            },
        )
    }
}

/// Ancho de cada columna: lo que ocupe su cabecera o su celda más larga.
pub open spec fn anchos_de(t: TablaV) -> Seq<nat> {
    Seq::new(t.cabeceras.len(), |c: int| maximo(t.cabeceras[c].len(), ancho_en_filas(t.filas, c)))
}

pub open spec fn espacios(n: nat) -> Seq<char> {
    Seq::new(n, |i: int| ' ')
}

/// Una celda con su relleno: la última columna va sin relleno; las demás
/// hasta su ancho y dos espacios de separación.
pub open spec fn pieza(celda: Seq<char>, ancho: nat, ultima: bool) -> Seq<char> {
    if ultima {
        celda
    } else {
        celda + espacios(if ancho >= celda.len() {
            (ancho - celda.len()) as nat
        } else {
            0
        } + 2)
    }
}

pub open spec fn componer_hasta(celdas: Seq<Seq<char>>, anchos: Seq<nat>, n: int) -> Seq<char>
    decreases n,
{
    if n <= 0 {
        seq![]
    } else {
        componer_hasta(celdas, anchos, n - 1) + pieza(
            celdas[n - 1],
            anchos[n - 1],
            n == anchos.len(),
        )
    }
}

/// Una fila compuesta: como mucho tantas celdas como columnas, y sin blancos
/// al final.
pub open spec fn componer(celdas: Seq<Seq<char>>, anchos: Seq<nat>) -> Seq<char> {
    let n = if celdas.len() < anchos.len() {
        celdas.len() as int
    } else {
        anchos.len() as int
    };
    sin_blancos_al_final(componer_hasta(celdas, anchos, n))
}

pub open spec fn guiones(n: nat) -> Seq<char> {
    Seq::new(n, |i: int| '-')
}

/// El texto de la tabla: cabecera, subrayado y filas, una por línea.
pub open spec fn tabla_texto(t: TablaV) -> Seq<char> {
    let a = anchos_de(t);
    unidos(
        seq![componer(t.cabeceras, a), unidos(a.map_values(|x: nat| guiones(x)), "  "@)]
            + t.filas.map_values(|f: Seq<Seq<char>>| componer(f, a)),
        "\n"@,
    )
}

proof fn lema_ancho_en_filas_push(filas: Seq<Seq<Seq<char>>>, f: Seq<Seq<char>>, c: int)
    ensures
        ancho_en_filas(filas.push(f), c) == maximo(
            ancho_en_filas(filas, c),
            if 0 <= c < f.len() {
                f[c].len()
            } else {
                0
            },
        ),
{
    assert(filas.push(f).drop_last() =~= filas);
}

// --- La alineación de la tabla --------------------------------------------------------

/// Ninguna celda de la columna `c` es más ancha que `ancho_en_filas`, y ese
/// ancho es el de alguna celda (o cero si no hay ninguna).
proof fn lema_ancho_en_filas(filas: Seq<Seq<Seq<char>>>, c: int)
    ensures
        forall|r: int|
            0 <= r < filas.len() && 0 <= c < filas[r].len() ==> (#[trigger] filas[r])[c].len()
                <= ancho_en_filas(filas, c),
        ancho_en_filas(filas, c) == 0 || exists|r: int|
            0 <= r < filas.len() && 0 <= c < filas[r].len() && ancho_en_filas(filas, c) == (
            #[trigger] filas[r])[c].len(),
    decreases filas.len(),
{
    if filas.len() > 0 {
        let w = filas.drop_last();
        lema_ancho_en_filas(w, c);
        assert forall|r: int|
            0 <= r < filas.len() && 0 <= c < filas[r].len() implies (#[trigger] filas[r])[c].len()
                <= ancho_en_filas(filas, c) by {
            if r < w.len() {
                assert(filas[r] == w[r]);
            }
        }
        if ancho_en_filas(filas, c) != 0 {
            if ancho_en_filas(filas, c) == ancho_en_filas(w, c) {
                let r = choose|r: int|
                    0 <= r < w.len() && 0 <= c < w[r].len() && ancho_en_filas(w, c) == (
                    #[trigger] w[r])[c].len();
                assert(filas[r] == w[r]);
            } else {
                assert(filas[filas.len() - 1] == filas.last());
            }
        }
    }
}

/// Dónde empieza la columna `j` de una fila: los anchos de las anteriores,
/// cada uno con sus dos espacios de separación.
pub open spec fn desplazamiento(anchos: Seq<nat>, j: int) -> nat
    decreases j,
{
    if j <= 0 {
        0
    } else {
        desplazamiento(anchos, j - 1) + anchos[j - 1] + 2
    }
}

proof fn lema_desplazamiento_crece(anchos: Seq<nat>, i: int, j: int)
    requires
        0 <= i <= j,
    ensures
        desplazamiento(anchos, i) <= desplazamiento(anchos, j),
    decreases j - i,
{
    if i < j {
        lema_desplazamiento_crece(anchos, i, j - 1);
    }
}

/// Con cada celda dentro de su ancho, la celda `j` empieza en
/// `desplazamiento(anchos, j)`.
proof fn lema_componer_hasta(celdas: Seq<Seq<char>>, anchos: Seq<nat>, n: int)
    requires
        0 <= n <= celdas.len(),
        n <= anchos.len(),
        forall|j: int| 0 <= j < n ==> (#[trigger] celdas[j]).len() <= anchos[j],
    ensures
        n < anchos.len() ==> componer_hasta(celdas, anchos, n).len() == desplazamiento(anchos, n),
        n == anchos.len() && n > 0 ==> componer_hasta(celdas, anchos, n).len() == desplazamiento(
            anchos,
            n - 1,
        ) + celdas[n - 1].len(),
        forall|j: int|
            0 <= j < n ==> componer_hasta(celdas, anchos, n).subrange(
                desplazamiento(anchos, j) as int,
                (desplazamiento(anchos, j) + (#[trigger] celdas[j]).len()) as int,
            ) == celdas[j],
    decreases n,
{
    if n > 0 {
        lema_componer_hasta(celdas, anchos, n - 1);
        let s = componer_hasta(celdas, anchos, n - 1);
        let p = pieza(celdas[n - 1], anchos[n - 1], n == anchos.len());
        let x = componer_hasta(celdas, anchos, n);
        assert(x == s + p);
        assert(s.len() == desplazamiento(anchos, n - 1));
        if n < anchos.len() {
            assert(p.len() == anchos[n - 1] + 2);
        }
        assert forall|j: int|
            0 <= j < n implies x.subrange(
                desplazamiento(anchos, j) as int,
                (desplazamiento(anchos, j) + (#[trigger] celdas[j]).len()) as int,
            ) == celdas[j] by {
            if j < n - 1 {
                lema_desplazamiento_crece(anchos, j + 1, n - 1);
                assert(desplazamiento(anchos, j) + celdas[j].len() <= s.len());
                assert(x.subrange(
                    desplazamiento(anchos, j) as int,
                    (desplazamiento(anchos, j) + celdas[j].len()) as int,
                ) =~= s.subrange(
                    desplazamiento(anchos, j) as int,
                    (desplazamiento(anchos, j) + celdas[j].len()) as int,
                ));
            } else {
                assert(x.subrange(s.len() as int, (s.len() + celdas[j].len()) as int) =~= celdas[j]);
            }
        }
    }
}

/// Una fila completa cuya última celda no acaba en blanco: cada celda empieza
/// donde dice `desplazamiento`, la fila termina en su última celda y no acaba
/// en blanco.
pub open spec fn fila_alineada(f: Seq<Seq<char>>, anchos: Seq<nat>) -> bool {
    let x = componer(f, anchos);
    &&& x.len() == desplazamiento(anchos, anchos.len() - 1) + f.last().len()
    &&& !es_blanco(x.last())
    &&& forall|j: int|
        0 <= j < f.len() ==> x.subrange(
            desplazamiento(anchos, j) as int,
            (desplazamiento(anchos, j) + (#[trigger] f[j]).len()) as int,
        ) == f[j]
}

/// Una fila con todas sus celdas, ninguna vacía ni acabada en blanco.
pub open spec fn fila_completa(f: Seq<Seq<char>>, columnas: nat) -> bool {
    &&& f.len() == columnas
    &&& columnas > 0
    &&& forall|j: int| 0 <= j < f.len() ==> (#[trigger] f[j]).len() > 0 && !es_blanco(f[j].last())
}

proof fn lema_fila_alineada(f: Seq<Seq<char>>, anchos: Seq<nat>)
    requires
        fila_completa(f, anchos.len()),
        forall|j: int| 0 <= j < f.len() ==> (#[trigger] f[j]).len() <= anchos[j],
    ensures
        fila_alineada(f, anchos),
{
    let n = anchos.len() as int;
    lema_componer_hasta(f, anchos, n);
    let x = componer_hasta(f, anchos, n);
    let s = componer_hasta(f, anchos, n - 1);
    assert(x == s + f[n - 1]);
    assert(f[n - 1].len() > 0 && !es_blanco(f[n - 1].last()));
    assert(x.last() == f[n - 1].last());
    assert(componer(f, anchos) == sin_blancos_al_final(x));
    assert(f.last() == f[n - 1]);
}

/// Ley: la tabla alinea sus columnas. Cada columna mide lo que su cabecera o
/// su celda más larga, y ninguna celda la desborda. En la cabecera y en cada
/// fila completa (una celda por columna, ninguna vacía ni acabada en blanco)
/// la celda `j` empieza en la suma de los anchos anteriores más dos espacios
/// por columna, y la línea acaba en su última celda, sin blancos detrás.
pub proof fn ley_la_tabla_alinea_las_columnas(t: TablaV)
    ensures
        anchos_de(t).len() == t.cabeceras.len(),
        forall|c: int|
            0 <= c < t.cabeceras.len() ==> {
                &&& t.cabeceras[c].len() <= #[trigger] anchos_de(t)[c]
                &&& forall|r: int|
                    0 <= r < t.filas.len() && c < t.filas[r].len() ==> (#[trigger] t.filas[r])[c].len()
                        <= anchos_de(t)[c]
                &&& (anchos_de(t)[c] == t.cabeceras[c].len() || exists|r: int|
                    0 <= r < t.filas.len() && c < t.filas[r].len() && anchos_de(t)[c] == (
                    #[trigger] t.filas[r])[c].len())
            },
        fila_completa(t.cabeceras, t.cabeceras.len()) ==> fila_alineada(t.cabeceras, anchos_de(t)),
        forall|r: int|
            0 <= r < t.filas.len() && fila_completa(#[trigger] t.filas[r], t.cabeceras.len())
                ==> fila_alineada(t.filas[r], anchos_de(t)),
{
    let a = anchos_de(t);
    assert forall|c: int|
        0 <= c < t.cabeceras.len() implies {
            &&& t.cabeceras[c].len() <= #[trigger] anchos_de(t)[c]
            &&& forall|r: int|
                0 <= r < t.filas.len() && c < t.filas[r].len() ==> (#[trigger] t.filas[r])[c].len()
                    <= anchos_de(t)[c]
            &&& (anchos_de(t)[c] == t.cabeceras[c].len() || exists|r: int|
                0 <= r < t.filas.len() && c < t.filas[r].len() && anchos_de(t)[c] == (
                #[trigger] t.filas[r])[c].len())
        } by {
        lema_ancho_en_filas(t.filas, c);
    }
    if fila_completa(t.cabeceras, t.cabeceras.len()) {
        assert forall|j: int| 0 <= j < t.cabeceras.len() implies (#[trigger] t.cabeceras[j]).len()
            <= a[j] by {
            assert(t.cabeceras[j].len() <= anchos_de(t)[j]);
        }
        lema_fila_alineada(t.cabeceras, a);
    }
    assert forall|r: int|
        0 <= r < t.filas.len() && fila_completa(#[trigger] t.filas[r], t.cabeceras.len())
            implies fila_alineada(t.filas[r], anchos_de(t)) by {
        let f = t.filas[r];
        assert forall|j: int| 0 <= j < f.len() implies (#[trigger] f[j]).len() <= a[j] by {
            lema_ancho_en_filas(t.filas, j);
            assert(t.filas[r][j].len() <= ancho_en_filas(t.filas, j));
        }
        lema_fila_alineada(f, a);
    }
}

fn repetir(c: char, n: usize) -> (r: Vec<char>)
    ensures
        r@ == Seq::new(n as nat, |i: int| c),
{
    let mut r: Vec<char> = Vec::new();
    let mut i: usize = 0;
    while i < n
        invariant
            i <= n,
            r@ == Seq::new(i as nat, |k: int| c),
        decreases n - i,
    {
        r.push(c);
        proof {
            assert(r@ =~= Seq::new((i + 1) as nat, |k: int| c));
        }
        i += 1;
    }
    r
}

impl Tabla {
    pub fn nueva(cabeceras: &[&str]) -> (r: Tabla)
        ensures
            r@.cabeceras == cabeceras@.map_values(|c: &str| c@),
            r@.filas.len() == 0,
    {
        let mut v: Vec<String> = Vec::new();
        let mut i: usize = 0;
        while i < cabeceras.len()
            invariant
                i <= cabeceras@.len(),
                vistas(v@) == cabeceras@.take(i as int).map_values(|c: &str| c@),
            decreases cabeceras@.len() - i,
        {
            let ghost antes = v@;
            v.push(cabeceras[i].to_string());
            proof {
                assert(vistas(v@) =~= vistas(antes).push(cabeceras@[i as int]@));
                assert(cabeceras@.take(i + 1).map_values(|c: &str| c@) =~= cabeceras@.take(
                    i as int,
                ).map_values(|c: &str| c@).push(cabeceras@[i as int]@));
            }
            i += 1;
        }
        proof {
            assert(cabeceras@.take(cabeceras@.len() as int) =~= cabeceras@);
        }
        let filas: Vec<Vec<String>> = Vec::new();
        proof {
            assert(vistas_filas(filas@) =~= seq![]);
        }
        Tabla { cabeceras: v, filas }
    }

    pub fn fila(&mut self, celdas: &[String])
        ensures
            final(self)@ == (TablaV {
                filas: old(self)@.filas.push(celdas@.map_values(|c: String| c@)),
                ..old(self)@
            }),
    {
        let mut v: Vec<String> = Vec::new();
        let mut i: usize = 0;
        while i < celdas.len()
            invariant
                i <= celdas@.len(),
                vistas(v@) == celdas@.take(i as int).map_values(|c: String| c@),
            decreases celdas@.len() - i,
        {
            let ghost antes = v@;
            v.push(celdas[i].clone());
            proof {
                assert(vistas(v@) =~= vistas(antes).push(celdas@[i as int]@));
                assert(celdas@.take(i + 1).map_values(|c: String| c@) =~= celdas@.take(
                    i as int,
                ).map_values(|c: String| c@).push(celdas@[i as int]@));
            }
            i += 1;
        }
        proof {
            assert(celdas@.take(celdas@.len() as int) =~= celdas@);
        }
        let ghost antes = self.filas@;
        self.filas.push(v);
        proof {
            assert(vistas_filas(self.filas@) =~= vistas_filas(antes).push(vistas(v@)));
        }
    }

    fn anchos(&self) -> (r: Vec<usize>)
        ensures
            r@.len() == self@.cabeceras.len(),
            forall|c: int| 0 <= c < r@.len() ==> r@[c] as nat == #[trigger] anchos_de(self@)[c],
    {
        let columnas = self.cabeceras.len();
        let mut r: Vec<usize> = Vec::new();
        let mut c: usize = 0;
        while c < columnas
            invariant
                c <= columnas == self.cabeceras@.len(),
                r@.len() == c,
                forall|k: int| 0 <= k < c ==> r@[k] as nat == #[trigger] anchos_de(self@)[k],
            decreases columnas - c,
        {
            let cab = caracteres(self.cabeceras[c].as_str());
            let mut ancho = cab.len();
            let mut f: usize = 0;
            proof {
                assert(self@.filas.take(0) =~= seq![]);
            }
            while f < self.filas.len()
                invariant
                    c < columnas == self.cabeceras@.len(),
                    f <= self.filas@.len(),
                    ancho as nat == maximo(
                        self@.cabeceras[c as int].len(),
                        ancho_en_filas(self@.filas.take(f as int), c as int),
                    ),
                decreases self.filas@.len() - f,
            {
                let fila = &self.filas[f];
                let celda = if c < fila.len() {
                    caracteres(fila[c].as_str()).len()
                } else {
                    0
                };
                proof {
                    lema_ancho_en_filas_push(self@.filas.take(f as int), self@.filas[f as int], c as int);
                    assert(self@.filas.take(f + 1) =~= self@.filas.take(f as int).push(
                        self@.filas[f as int],
                    ));
                    assert(self@.filas[f as int] == vistas(fila@));
                    if c < fila@.len() {
                        assert(vistas(fila@)[c as int] == fila@[c as int]@);
                    }
                }
                if celda > ancho {
                    ancho = celda;
                }
                f += 1;
            }
            proof {
                assert(self@.filas.take(self@.filas.len() as int) =~= self@.filas);
            }
            r.push(ancho);
            c += 1;
        }
        r
    }

    fn componer(celdas: &Vec<String>, anchos: &Vec<usize>) -> (r: Vec<char>)
        ensures
            r@ == componer(vistas(celdas@), anchos@.map_values(|x: usize| x as nat)),
    {
        let ghost a = anchos@.map_values(|x: usize| x as nat);
        let columnas = anchos.len();
        let n = if celdas.len() < columnas {
            celdas.len()
        } else {
            columnas
        };
        let mut linea: Vec<char> = Vec::new();
        let mut i: usize = 0;
        while i < n
            invariant
                i <= n <= celdas@.len(),
                n <= columnas == anchos@.len(),
                a == anchos@.map_values(|x: usize| x as nat),
                linea@ == componer_hasta(vistas(celdas@), a, i as int),
            decreases n - i,
        {
            let celda = caracteres(celdas[i].as_str());
            let ghost antes = linea@;
            anexar(&mut linea, celda.as_slice());
            if i + 1 != columnas {
                let relleno = if anchos[i] >= celda.len() {
                    anchos[i] - celda.len()
                } else {
                    0
                };
                let hueco = repetir(' ', relleno);
                anexar(&mut linea, hueco.as_slice());
                linea.push(' ');
                linea.push(' ');
                proof {
                    assert(espacios((relleno + 2) as nat) =~= hueco@ + seq![' ', ' ']);
                    assert(linea@ =~= antes + (celda@ + espacios((relleno + 2) as nat)));
                }
            }
            proof {
                assert(vistas(celdas@)[i as int] == celdas@[i as int]@);
                assert(a[i as int] == anchos@[i as int] as nat);
                assert(linea@ =~= antes + pieza(
                    vistas(celdas@)[i as int],
                    a[i as int],
                    i + 1 == a.len(),
                ));
            }
            i += 1;
        }
        crate::texto::quitar_blancos_al_final(linea.as_slice())
    }

    /// El texto de la tabla, con las columnas alineadas y sin relleno al final
    /// de ninguna línea.
    pub fn render(&self) -> (r: String)
        ensures
            r@ == tabla_texto(self@),
    {
        let anchos = self.anchos();
        let ghost a = anchos@.map_values(|x: usize| x as nat);
        proof {
            assert(a =~= anchos_de(self@));
        }
        let mut lineas: Vec<Vec<char>> = Vec::new();
        lineas.push(Tabla::componer(&self.cabeceras, &anchos));
        let mut trazos: Vec<Vec<char>> = Vec::new();
        let mut k: usize = 0;
        while k < anchos.len()
            invariant
                k <= anchos@.len(),
                a == anchos@.map_values(|x: usize| x as nat),
                vistas_vec(trazos@) == a.take(k as int).map_values(|x: nat| guiones(x)),
            decreases anchos@.len() - k,
        {
            let ghost antes = trazos@;
            let g = repetir('-', anchos[k]);
            trazos.push(g);
            proof {
                assert(vistas_vec(trazos@) =~= vistas_vec(antes).push(g@));
                assert(a.take(k + 1).map_values(|x: nat| guiones(x)) =~= a.take(k as int).map_values(
                    |x: nat| guiones(x),
                ).push(guiones(a[k as int])));
            }
            k += 1;
        }
        proof {
            assert(a.take(a.len() as int) =~= a);
        }
        let dos = caracteres("  ");
        lineas.push(juntar(trazos.as_slice(), dos.as_slice()));
        let ghost cabeza = vistas_vec(lineas@);
        proof {
            assert(cabeza =~= seq![
                componer(self@.cabeceras, a),
                unidos(a.map_values(|x: nat| guiones(x)), "  "@),
            ]);
        }
        let mut f: usize = 0;
        proof {
            assert(vistas_vec(lineas@) =~= cabeza + self@.filas.take(0).map_values(
                |x: Seq<Seq<char>>| componer(x, a),
            ));
        }
        while f < self.filas.len()
            invariant
                f <= self.filas@.len(),
                a == anchos@.map_values(|x: usize| x as nat),
                vistas_vec(lineas@) == cabeza + self@.filas.take(f as int).map_values(
                    |x: Seq<Seq<char>>| componer(x, a),
                ),
            decreases self.filas@.len() - f,
        {
            let ghost antes = lineas@;
            let l = Tabla::componer(&self.filas[f], &anchos);
            lineas.push(l);
            proof {
                assert(self@.filas[f as int] == vistas(self.filas@[f as int]@));
                assert(vistas_vec(lineas@) =~= vistas_vec(antes).push(l@));
                assert(self@.filas.take(f + 1).map_values(|x: Seq<Seq<char>>| componer(x, a))
                    =~= self@.filas.take(f as int).map_values(
                    |x: Seq<Seq<char>>| componer(x, a),
                ).push(componer(self@.filas[f as int], a)));
            }
            f += 1;
        }
        proof {
            assert(self@.filas.take(self@.filas.len() as int) =~= self@.filas);
        }
        let salto = caracteres("\n");
        let texto = juntar(lineas.as_slice(), salto.as_slice());
        cadena(texto.as_slice())
    }
}


/// Argumentos de la línea de órdenes.
#[derive(Debug)]
pub struct Argumentos {
    /// Registro detallado.
    pub verboso: bool,
    pub orden: Option<Orden>,
}

/// Las órdenes de la CLI.
#[derive(Debug)]
pub enum Orden {
    /// Lista los túneles definidos y su estado.
    List,
    /// Levanta un túnel o todos los de un alias.
    Up { objetivo: String },
    /// Baja un túnel o todos los de un alias.
    Down { objetivo: String },
    /// Resumen del estado, incluidos los maestros vivos.
    Status,
    /// Muestra los túneles que ya había definidos fuera del fichero propio.
    Import { todos: bool },
    /// Una pasada de reconciliación: levanta y repara lo que haga falta.
    Supervise { simular: bool },
    /// Gestiona el temporizador de systemd que supervisa sin ventana abierta.
    Service { que: OrdenServicio },
    /// Retira los sockets de control huérfanos.
    Clean,
    /// Muestra las rutas que usa la aplicación.
    Paths,
    /// Verifica la clave de un host y la añade a known_hosts tras confirmarla.
    Hostkey { objetivo: String, puerto: Option<u16>, aceptar: bool },
    /// Copia la clave pública al host con ssh-copy-id.
    Copyid { objetivo: String, clave: Option<String> },
    /// Abre la interfaz gráfica.
    Gui,
}

/// Las órdenes del temporizador de systemd.
#[derive(Debug)]
pub enum OrdenServicio {
    /// Escribe las unidades de usuario y activa el temporizador.
    Install { intervalo: Option<String> },
    /// Para el temporizador y borra las unidades.
    Uninstall,
    /// Arranca el temporizador y hace una pasada ya.
    Start,
    /// Para el temporizador. Los túneles vivos siguen vivos.
    Stop,
    /// Dice si está instalado y activo.
    Status,
}

/// Hay un túnel con ese identificador exacto.
pub open spec fn hay_id(ts: Seq<TunelV>, id: Seq<char>) -> bool {
    exists|i: int| 0 <= i < ts.len() && id_tunel(ts[i]) == id
}

/// Identificadores de los túneles de un alias, en orden.
pub open spec fn ids_del_alias(ts: Seq<TunelV>, alias: Seq<char>) -> Seq<Seq<char>>
    decreases ts.len(),
{
    if ts.len() == 0 {
        seq![]
    } else if ts.last().alias == alias {
        ids_del_alias(ts.drop_last(), alias).push(id_tunel(ts.last()))
    } else {
        ids_del_alias(ts.drop_last(), alias)
    }
}

/// Alias que se parecen a lo escrito: uno contiene al otro. Uno por túnel.
pub open spec fn parecidos(ts: Seq<TunelV>, objetivo: Seq<char>) -> Seq<Seq<char>>
    decreases ts.len(),
{
    if ts.len() == 0 {
        seq![]
    } else if contiene(ts.last().alias, objetivo) || contiene(objetivo, ts.last().alias) {
        parecidos(ts.drop_last(), objetivo).push(ts.last().alias)
    } else {
        parecidos(ts.drop_last(), objetivo)
    }
}

pub open spec fn sugerencia_de_parecidos(objetivo: Seq<char>, p: Seq<Seq<char>>) -> Seq<char> {
    "«"@ + objetivo + "» no existe. ¿Querías decir: "@ + unidos(p, ", "@) + "?"@
}

/// Traduce lo que escribe el usuario a identificadores de túnel.
///
/// Acepta un identificador exacto o un alias, que equivale a todos sus
/// túneles. Si no es ninguna de las dos cosas, propone los alias parecidos.
pub fn resolver(tuneles: &Vec<Tunel>, objetivo: &str) -> (r: Resultado<Vec<String>>)
    ensures
        ({
            let ts = vistas_tuneles(tuneles@);
            if hay_id(ts, objetivo@) {
                r matches Ok(v) && vistas(v@) == seq![objetivo@]
            } else if ids_del_alias(ts, objetivo@).len() > 0 {
                r matches Ok(v) && vistas(v@) == ids_del_alias(ts, objetivo@)
            } else if parecidos(ts, objetivo@).len() == 0 {
                r matches Err(Error::TunelDesconocido(t)) && t@ == objetivo@
            } else {
                r matches Err(Error::DefinicionInvalida(m)) && m@ == sugerencia_de_parecidos(
                    objetivo@,
                    parecidos(ts, objetivo@),
                )
            }
        }),
{
    let ghost ts = vistas_tuneles(tuneles@);
    let buscado = caracteres(objetivo);
    let mut i: usize = 0;
    while i < tuneles.len()
        invariant
            i <= tuneles@.len(),
            ts == vistas_tuneles(tuneles@),
            buscado@ == objetivo@,
            forall|j: int| 0 <= j < i ==> id_tunel(ts[j]) != objetivo@,
        decreases tuneles@.len() - i,
    {
        let ident = tuneles[i].id();
        proof {
            assert(ts[i as int] == tuneles@[i as int]@);
        }
        let c = caracteres(ident.as_str());
        if iguales(c.as_slice(), buscado.as_slice()) {
            let mut v: Vec<String> = Vec::new();
            v.push(ident);
            proof {
                assert(vistas(v@) =~= seq![objetivo@]);
            }
            return Ok(v);
        }
        i += 1;
    }
    let mut del_alias: Vec<String> = Vec::new();
    let mut semejantes: Vec<String> = Vec::new();
    let mut k: usize = 0;
    proof {
        assert(ts.take(0) =~= seq![]);
    }
    while k < tuneles.len()
        invariant
            k <= tuneles@.len(),
            ts == vistas_tuneles(tuneles@),
            buscado@ == objetivo@,
            vistas(del_alias@) == ids_del_alias(ts.take(k as int), objetivo@),
            vistas(semejantes@) == parecidos(ts.take(k as int), objetivo@),
        decreases tuneles@.len() - k,
    {
        proof {
            assert(ts.take(k + 1).drop_last() =~= ts.take(k as int));
            assert(ts.take(k + 1).last() == tuneles@[k as int]@);
        }
        let t = &tuneles[k];
        let alias = caracteres(t.alias.as_str());
        if iguales(alias.as_slice(), buscado.as_slice()) {
            let ghost antes = del_alias@;
            del_alias.push(t.id());
            proof {
                assert(vistas(del_alias@) =~= vistas(antes).push(id_tunel(tuneles@[k as int]@)));
            }
        }
        if contiene_sub(alias.as_slice(), buscado.as_slice()) || contiene_sub(
            buscado.as_slice(),
            alias.as_slice(),
        ) {
            let ghost antes = semejantes@;
            semejantes.push(t.alias.clone());
            proof {
                assert(vistas(semejantes@) =~= vistas(antes).push(tuneles@[k as int]@.alias));
            }
        }
        k += 1;
    }
    proof {
        assert(ts.take(ts.len() as int) =~= ts);
    }
    if del_alias.len() > 0 {
        return Ok(del_alias);
    }
    if semejantes.len() == 0 {
        return Err(Error::TunelDesconocido(objetivo.to_string()));
    }
    let mut m = caracteres("«");
    anexar_str(&mut m, objetivo);
    anexar_str(&mut m, "» no existe. ¿Querías decir: ");
    let separador = caracteres(", ");
    let lista = juntar_cadenas(semejantes.as_slice(), separador.as_slice());
    anexar(&mut m, lista.as_slice());
    anexar_str(&mut m, "?");
    Err(Error::DefinicionInvalida(cadena(m.as_slice())))
}

/// Respuestas que cuentan como un sí, ya en minúsculas ASCII y sin blancos.
pub open spec fn afirmativa(r: Seq<char>) -> bool {
    r == "s"@ || r == "si"@ || r == "sí"@ || r == "y"@ || r == "yes"@
}

pub open spec fn minusculas_ascii(s: Seq<char>) -> Seq<char> {
    s.map_values(|c: char| minuscula(c))
}

/// Si lo que el usuario ha contestado a una pregunta de sí o no es un sí.
///
/// Se quitan los blancos de los bordes y se pasa a minúsculas ASCII; cuentan
/// «s», «si», «sí», «y» y «yes». Cualquier otra cosa es un no.
pub fn es_afirmativa(respuesta: &str) -> (r: bool)
    ensures
        r == afirmativa(minusculas_ascii(recortado(respuesta@))),
{
    let recortada = recortar_str(respuesta);
    let mut bajo: Vec<char> = Vec::new();
    let mut i: usize = 0;
    while i < recortada.len()
        invariant
            i <= recortada@.len(),
            bajo@ == minusculas_ascii(recortada@.take(i as int)),
        decreases recortada@.len() - i,
    {
        let c = recortada[i];
        let b = if 'A' <= c && c <= 'Z' {
            crate::texto::a_minuscula(c)
        } else {
            c
        };
        bajo.push(b);
        proof {
            assert(minusculas_ascii(recortada@.take(i + 1)) =~= minusculas_ascii(
                recortada@.take(i as int),
            ).push(minuscula(c)));
        }
        i += 1;
    }
    proof {
        assert(recortada@.take(recortada@.len() as int) =~= recortada@);
    }
    let s = caracteres("s");
    let si = caracteres("si");
    let si_acento = caracteres("sí");
    let y = caracteres("y");
    let yes = caracteres("yes");
    iguales(bajo.as_slice(), s.as_slice()) || iguales(bajo.as_slice(), si.as_slice()) || iguales(
        bajo.as_slice(),
        si_acento.as_slice(),
    ) || iguales(bajo.as_slice(), y.as_slice()) || iguales(bajo.as_slice(), yes.as_slice())
}

/// Host y puerto que se escanean al verificar una clave de host.
///
/// Si el objetivo es un alias conocido se usan su HostName y su Port reales;
/// un puerto dado a mano manda sobre todo lo demás. Sin nada más, el 22.
pub open spec fn objetivo_de_escaneo(definicion: Option<HostV>, objetivo: Seq<char>, puerto: Option<u16>) -> (Seq<char>, u16) {
    match definicion {
        Some(h) => (
            destino(h),
            match puerto {
                Some(p) => p,
                None => match h.puerto {
                    Some(p) => p,
                    None => 22,
                },
            },
        ),
        None => (
            objetivo,
            match puerto {
                Some(p) => p,
                None => 22,
            },
        ),
    }
}

/// Host y puerto que hay que escanear para verificar la clave de `objetivo`,
/// dada su definición en el catálogo si la tiene.
pub fn objetivo_de_clave_host(definicion: Option<&Host>, objetivo: &str, puerto: Option<u16>) -> (r: (
    String,
    u16,
))
    ensures
        (r.0@, r.1) == objetivo_de_escaneo(
            match definicion {
                Some(h) => Some(h@),
                None => None,
            },
            objetivo@,
            puerto,
        ),
{
    match definicion {
        Some(h) => {
            let p = match puerto {
                Some(p) => p,
                None => match h.puerto {
                    Some(p) => p,
                    None => 22,
                },
            };
            (h.destino().to_string(), p)
        },
        None => (
            objetivo.to_string(),
            match puerto {
                Some(p) => p,
                None => 22,
            },
        ),
    }
}

/// Clave pública que se instala al copiar la clave a un host.
///
/// La indicada, con la `~` expandida; si no se indica ninguna, la primera de
/// las disponibles, que vienen en orden de preferencia.
pub fn elegir_clave(hogar: &str, clave: Option<&str>, disponibles: &Vec<String>) -> (r: Resultado<
    String,
>)
    ensures
        match clave {
            Some(c) => r matches Ok(v) && v@ == expandida(hogar@, c@),
            None => if disponibles@.len() > 0 {
                r matches Ok(v) && v@ == disponibles@[0]@
            } else {
                r matches Err(Error::DefinicionInvalida(m)) && m@
                    == "no hay ninguna clave pública en ~/.ssh; genera una con «ssh-keygen -t ed25519»"@
            },
        },
{
    match clave {
        Some(c) => Ok(expandir(hogar, c)),
        None => {
            if disponibles.len() > 0 {
                Ok(disponibles[0].clone())
            } else {
                Err(
                    Error::DefinicionInvalida(
                        "no hay ninguna clave pública en ~/.ssh; genera una con «ssh-keygen -t ed25519»".to_string(),
                    ),
                )
            }
        },
    }
}

/// Qué hace una pasada de reconciliación con un túnel.
#[derive(Debug, Clone, Copy, PartialEq, Eq, Structural)]
pub enum Reconciliacion {
    /// Está bien: se cuenta como correcto.
    Correcto,
    /// Maestro vivo pero el túnel no responde: rehacer el reenvío y, si no
    /// basta, reabrir el maestro.
    Reparar,
    /// Se quería arriba y no hay maestro: levantarlo.
    Levantar,
    /// El usuario no lo quiere arriba, o ya hay algo en marcha.
    Nada,
}

pub open spec fn reconciliacion(e: Estado) -> Reconciliacion {
    if e == Estado::Activo {
        Reconciliacion::Correcto
    } else if e == Estado::Degradado {
        Reconciliacion::Reparar
    } else if e == Estado::Reintentando || e == Estado::Fallido {
        Reconciliacion::Levantar
    } else {
        Reconciliacion::Nada
    }
}

/// Lo que hace la pasada periódica con un túnel según su estado.
///
/// `Definido` significa que el usuario no lo quiere arriba: una supervisión
/// que levantara lo que alguien acaba de bajar sería insufrible.
pub fn que_hacer_en_la_pasada(estado: Estado) -> (r: Reconciliacion)
    ensures
        r == reconciliacion(estado),
        r == Reconciliacion::Levantar || r == Reconciliacion::Reparar ==> crate::state::machine::deberia_estar_arriba(estado) || estado == Estado::Fallido,
{
    match estado {
        Estado::Activo => Reconciliacion::Correcto,
        Estado::Degradado => Reconciliacion::Reparar,
        Estado::Reintentando | Estado::Fallido => Reconciliacion::Levantar,
        Estado::Definido | Estado::Conectando | Estado::Cerrando => Reconciliacion::Nada,
    }
}

/// La primera línea de un texto, sin el retorno de carro final; `None` si el
/// texto está vacío.
pub open spec fn primera_linea_de(s: Seq<char>) -> Option<Seq<char>> {
    if s.len() == 0 {
        None
    } else {
        let l = match crate::texto::primera_pos(s, '\n') {
            Some(i) => s.take(i),
            None => s,
        };
        Some(
            if l.len() > 0 && l.last() == '\r' {
                l.drop_last()
            } else {
                l
            },
        )
    }
}

/// Motivo de un túnel degradado en una sola línea: la primera del último
/// error, o «no responde» si no hay error o está vacío.
pub fn motivo_en_una_linea(ultimo_error: Option<&str>) -> (r: String)
    ensures
        r@ == match ultimo_error {
            Some(e) => match primera_linea_de(e@) {
                Some(l) => l,
                None => "no responde"@,
            },
            None => "no responde"@,
        },
{
    match ultimo_error {
        None => "no responde".to_string(),
        Some(e) => {
            let c = caracteres(e);
            if c.len() == 0 {
                return "no responde".to_string();
            }
            proof {
                crate::texto::lema_primera_pos(c@, '\n');
            }
            let mut l = match crate::texto::posicion(c.as_slice(), '\n') {
                Some(i) => crate::texto::trozo(c.as_slice(), 0, i),
                None => c,
            };
            let n = l.len();
            if n > 0 && l[n - 1] == '\r' {
                l.pop();
            }
            cadena(l.as_slice())
        },
    }
}

/// Cuántos estados hay de cada clase.
pub open spec fn cuenta_de(es: Seq<Estado>, e: Estado) -> nat
    decreases es.len(),
{
    if es.len() == 0 {
        0
    } else {
        cuenta_de(es.drop_last(), e) + if es.last() == e {
            1nat
        } else {
            0nat
        }
    }
}

pub open spec fn estados_de(v: Seq<EstadoTunel>) -> Seq<Estado> {
    v.map_values(|e: EstadoTunel| e.estado)
}

fn contar(estados: &Vec<EstadoTunel>, e: Estado) -> (r: usize)
    ensures
        r as nat == cuenta_de(estados_de(estados@), e),
{
    let ghost es = estados_de(estados@);
    let mut n: usize = 0;
    let mut i: usize = 0;
    proof {
        assert(es.take(0) =~= seq![]);
    }
    while i < estados.len()
        invariant
            i <= estados@.len(),
            es == estados_de(estados@),
            n as nat == cuenta_de(es.take(i as int), e),
            n <= i,
        decreases estados@.len() - i,
    {
        proof {
            assert(es.take(i + 1).drop_last() =~= es.take(i as int));
        }
        if estados[i].estado == e {
            n += 1;
        }
        i += 1;
    }
    proof {
        assert(es.take(es.len() as int) =~= es);
    }
    n
}

pub open spec fn linea_de_resumen(es: Seq<Estado>) -> Seq<char> {
    decimal(es.len()) + " definidos · "@ + decimal(cuenta_de(es, Estado::Activo)) + " activos · "@
        + decimal(cuenta_de(es, Estado::Degradado)) + " degradados · "@ + decimal(
        cuenta_de(es, Estado::Reintentando),
    ) + " reintentando · "@ + decimal(cuenta_de(es, Estado::Fallido)) + " fallidos"@
}

/// Línea de resumen de la lista: cuántos túneles hay y cuántos en cada estado
/// que importa.
pub fn resumen(estados: &Vec<EstadoTunel>) -> (r: String)
    ensures
        r@ == linea_de_resumen(estados_de(estados@)),
{
    let mut c = en_decimal(estados.len() as u64);
    anexar_str(&mut c, " definidos · ");
    let d = en_decimal(contar(estados, Estado::Activo) as u64);
    anexar(&mut c, d.as_slice());
    anexar_str(&mut c, " activos · ");
    let d = en_decimal(contar(estados, Estado::Degradado) as u64);
    anexar(&mut c, d.as_slice());
    anexar_str(&mut c, " degradados · ");
    let d = en_decimal(contar(estados, Estado::Reintentando) as u64);
    anexar(&mut c, d.as_slice());
    anexar_str(&mut c, " reintentando · ");
    let d = en_decimal(contar(estados, Estado::Fallido) as u64);
    anexar(&mut c, d.as_slice());
    anexar_str(&mut c, " fallidos");
    proof {
        assert(estados_de(estados@).len() == estados@.len());
        assert(c@ =~= linea_de_resumen(estados_de(estados@)));
    }
    cadena(c.as_slice())
}

/// El error con que termina `yonder up` cuando algún túnel no se levantó.
pub fn fallo_al_levantar(objetivo: &str, fallos: usize, total: usize) -> (e: Error)
    ensures
        e matches Error::OrdenFallida { orden, codigo, salida } && orden@ == "yonder up "@
            + objetivo@ && codigo == 1 && salida@ == decimal(fallos as nat) + " de "@ + decimal(
            total as nat,
        ) + " túneles no se pudieron levantar"@,
{
    let mut o = caracteres("yonder up ");
    anexar_str(&mut o, objetivo);
    let mut s = en_decimal(fallos as u64);
    anexar_str(&mut s, " de ");
    let t = en_decimal(total as u64);
    anexar(&mut s, t.as_slice());
    anexar_str(&mut s, " túneles no se pudieron levantar");
    Error::OrdenFallida { orden: cadena(o.as_slice()), codigo: 1, salida: cadena(s.as_slice()) }
}

/// El error con que termina la pasada de reconciliación si algo no se pudo
/// recuperar.
pub fn fallo_al_supervisar(fallidos: usize) -> (e: Error)
    ensures
        e matches Error::OrdenFallida { orden, codigo, salida } && orden@ == "yonder supervise"@
            && codigo == 1 && salida@ == decimal(fallidos as nat)
            + " túneles no se pudieron recuperar"@,
{
    let mut s = en_decimal(fallidos as u64);
    anexar_str(&mut s, " túneles no se pudieron recuperar");
    Error::OrdenFallida {
        orden: "yonder supervise".to_string(),
        codigo: 1,
        salida: cadena(s.as_slice()),
    }
}

/// De dónde sale un host, para la tabla de importación.
pub fn origen_legible(host: &Host, hogares: &Vec<String>) -> (r: String)
    ensures
        r@ == match host@.origen {
            crate::modelo::OrigenV::Propio => "fichero propio"@,
            crate::modelo::OrigenV::Ajeno(ruta) => crate::rutas::abreviada(vistas(hogares@), ruta),
        },
{
    match &host.origen {
        crate::modelo::Origen::Propio => "fichero propio".to_string(),
        crate::modelo::Origen::Ajeno(ruta) => crate::rutas::abreviar(hogares, ruta.as_str()),
    }
}

} // verus!
