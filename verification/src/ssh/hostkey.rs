//! Verificación de la clave del host antes de la primera conexión.
//!
//! Nunca se acepta una clave a ciegas: se escanea con `ssh-keyscan`, se
//! enseña el fingerprint y solo si el usuario lo confirma se añade a
//! `known_hosts`. Aquí se construyen las órdenes y se interpreta lo que
//! contestan.

use vstd::prelude::*;

use crate::config::parser::{en_lineas, lineas};
use crate::error::{Error, Resultado};
use crate::ssh::{texto_util, traduccion_de, Salida};
use crate::texto::{
    en_palabras, leer_u32, palabras, valor_u32,
    anexar, anexar_str, cadena, caracteres, decimal, empieza_por, en_decimal, en_mayusculas,
    empieza, mayusculas, recortado, recortar, recortar_str, trozo, vistas, vistas_vec,
};

verus! {

broadcast use vstd::string::group_string_axioms;

/// Tipos de clave que se piden a `ssh-keyscan`, en orden de preferencia.
pub const TIPOS: &'static str = "ed25519,ecdsa,rsa";

/// Una clave de host tal como la devuelve `ssh-keyscan`.
#[derive(Debug)]
pub struct ClaveHost {
    /// Línea completa para `known_hosts`.
    pub linea: String,
    pub tipo: String,
    pub fingerprint: String,
    pub bits: u32,
}

/// `str::trim_start_matches` con un patrón de texto: quita el prefijo
/// mientras aparezca.
pub open spec fn sin_prefijo_repetido(s: Seq<char>, p: Seq<char>) -> Seq<char>
    decreases s.len(),
{
    if p.len() > 0 && empieza_por(s, p) {
        sin_prefijo_repetido(s.skip(p.len() as int), p)
    } else {
        s
    }
}

fn quitar_prefijo_repetido(s: &[char], p: &str) -> (r: Vec<char>)
    ensures
        r@ == sin_prefijo_repetido(s@, p@),
{
    let pc = caracteres(p);
    let mut actual = trozo(s, 0, s.len());
    proof {
        assert(s@.subrange(0, s@.len() as int) =~= s@);
    }
    if pc.len() == 0 {
        return actual;
    }
    while empieza(actual.as_slice(), pc.as_slice())
        invariant
            pc@ == p@,
            pc@.len() > 0,
            sin_prefijo_repetido(s@, p@) == sin_prefijo_repetido(actual@, p@),
        decreases actual@.len(),
    {
        let n = actual.len();
        actual = trozo(actual.as_slice(), pc.len(), n);
    }
    actual
}

/// Nombre legible del algoritmo: sin `ssh-` ni `ecdsa-sha2-`, en mayúsculas.
pub open spec fn algoritmo_de(tipo: Seq<char>) -> Seq<char> {
    mayusculas(sin_prefijo_repetido(sin_prefijo_repetido(tipo, "ssh-"@), "ecdsa-sha2-"@))
}

impl ClaveHost {
    /// Nombre del algoritmo para enseñarlo: `ssh-ed25519` → `ED25519`.
    pub fn algoritmo(&self) -> (r: String)
        ensures
            r@ == algoritmo_de(self.tipo@),
    {
        let c = caracteres(self.tipo.as_str());
        let a = quitar_prefijo_repetido(c.as_slice(), "ssh-");
        let b = quitar_prefijo_repetido(a.as_slice(), "ecdsa-sha2-");
        let m = en_mayusculas(b.as_slice());
        cadena(m.as_slice())
    }
}

/// Destino tal como aparece en `known_hosts`: con corchetes y puerto solo si
/// el puerto no es el estándar.
pub open spec fn destino_de(host: Seq<char>, puerto: u16) -> Seq<char> {
    if puerto == 22 {
        host
    } else {
        "["@ + host + "]:"@ + decimal(puerto as nat)
    }
}

pub fn destino_known_hosts(host: &str, puerto: u16) -> (r: String)
    ensures
        r@ == destino_de(host@, puerto),
{
    if puerto == 22 {
        host.to_string()
    } else {
        let mut c = caracteres("[");
        anexar_str(&mut c, host);
        anexar_str(&mut c, "]:");
        let d = en_decimal(puerto as u64);
        anexar(&mut c, d.as_slice());
        cadena(c.as_slice())
    }
}

/// Argumentos de `ssh-keygen -F` para saber si el host ya es conocido.
pub fn argumentos_de_busqueda(host: &str, puerto: u16) -> (r: Vec<String>)
    ensures
        vistas(r@) == seq!["-F"@, destino_de(host@, puerto)],
{
    let mut r: Vec<String> = Vec::new();
    r.push("-F".to_string());
    r.push(destino_known_hosts(host, puerto));
    proof {
        assert(vistas(r@) =~= seq!["-F"@, destino_de(host@, puerto)]);
    }
    r
}

/// Lo que dijo `ssh-keygen -F`: el host es conocido si la orden acabó bien y
/// encontró alguna línea.
pub fn ya_conocido(salida: &Salida) -> (r: bool)
    ensures
        r == (salida.codigo == Some(0i32) && recortado(salida.estandar@).len() > 0),
{
    let t = recortar_str(salida.estandar.as_str());
    salida.correcta() && t.len() > 0
}

/// Argumentos de `ssh-keyscan` para ese host y puerto.
pub fn argumentos_de_escaneo(host: &str, puerto: u16) -> (r: Vec<String>)
    ensures
        vistas(r@) == seq!["-T"@, "10"@, "-p"@, decimal(puerto as nat), "-t"@, TIPOS@, host@],
{
    let mut r: Vec<String> = Vec::new();
    r.push("-T".to_string());
    r.push("10".to_string());
    r.push("-p".to_string());
    r.push(crate::texto::decimal_cadena(puerto as u64));
    r.push("-t".to_string());
    r.push(TIPOS.to_string());
    r.push(host.to_string());
    proof {
        assert(vistas(r@) =~= seq![
            "-T"@,
            "10"@,
            "-p"@,
            decimal(puerto as nat),
            "-t"@,
            TIPOS@,
            host@,
        ]);
    }
    r
}

pub struct ClaveHostV {
    pub linea: Seq<char>,
    pub tipo: Seq<char>,
    pub fingerprint: Seq<char>,
    pub bits: u32,
}

impl View for ClaveHost {
    type V = ClaveHostV;

    open spec fn view(&self) -> ClaveHostV {
        ClaveHostV {
            linea: self.linea@,
            tipo: self.tipo@,
            fingerprint: self.fingerprint@,
            bits: self.bits,
        }
    }
}

pub open spec fn vistas_claves(v: Seq<ClaveHost>) -> Seq<ClaveHostV> {
    v.map_values(|c: ClaveHost| c@)
}

/// Las líneas útiles de lo que escribe `ssh-keyscan`: recortadas, sin las
/// vacías ni los comentarios.
pub open spec fn lineas_utiles(ls: Seq<Seq<char>>) -> Seq<Seq<char>>
    decreases ls.len(),
{
    if ls.len() == 0 {
        seq![]
    } else {
        let l = recortado(ls.last());
        if l.len() == 0 || l[0] == '#' {
            lineas_utiles(ls.drop_last())
        } else {
            lineas_utiles(ls.drop_last()).push(l)
        }
    }
}

fn utiles(estandar: &str) -> (r: Vec<String>)
    ensures
        vistas(r@) == lineas_utiles(lineas(estandar@)),
{
    let texto = caracteres(estandar);
    let todas = en_lineas(texto.as_slice());
    let ghost ls = lineas(estandar@);
    let mut r: Vec<String> = Vec::new();
    let mut i: usize = 0;
    proof {
        assert(crate::config::parser::vistas_vec_char(todas@) == ls);
        assert(ls.take(0) =~= seq![]);
    }
    while i < todas.len()
        invariant
            i <= todas@.len(),
            crate::config::parser::vistas_vec_char(todas@) == ls,
            vistas(r@) == lineas_utiles(ls.take(i as int)),
        decreases todas@.len() - i,
    {
        proof {
            assert(ls.take(i + 1).drop_last() =~= ls.take(i as int));
            assert(ls.take(i + 1).last() == todas@[i as int]@);
        }
        let l = recortar(todas[i].as_slice());
        if l.len() > 0 && l[0] != '#' {
            let ghost antes = r@;
            r.push(cadena(l.as_slice()));
            proof {
                assert(vistas(r@) =~= vistas(antes).push(l@));
            }
        }
        i += 1;
    }
    proof {
        assert(ls.take(ls.len() as int) =~= ls);
    }
    r
}

/// Lo que dijo `ssh-keyscan`: sus líneas útiles, o un error si no trajo
/// ninguna clave.
///
/// Escanear **no** verifica nada por sí solo: solo trae lo que el host dice
/// ser. La verificación la hace el humano comparando el fingerprint con el
/// que le consta por otro canal.
pub fn resultado_de_escaneo(host: &str, salida: &Salida) -> (r: Resultado<Vec<String>>)
    ensures
        lineas_utiles(lineas(salida.estandar@)).len() > 0 ==> (r matches Ok(v) && vistas(v@)
            == lineas_utiles(lineas(salida.estandar@))),
        lineas_utiles(lineas(salida.estandar@)).len() == 0 ==> (r matches Err(
            Error::OrdenFallida { orden, codigo, salida: d },
        ) && orden@ == "ssh-keyscan "@ + host@ && codigo == match salida.codigo {
            Some(c) => c,
            None => -1i32,
        } && d@ == if recortado(salida.error@).len() == 0 {
            "«"@ + host@ + "» no devolvió ninguna clave de host"@
        } else {
            traduccion_de(texto_util(salida.estandar@, salida.error@))
        }),
{
    let v = utiles(salida.estandar.as_str());
    if v.len() > 0 {
        return Ok(v);
    }
    let mut o = caracteres("ssh-keyscan ");
    anexar_str(&mut o, host);
    let e = recortar_str(salida.error.as_str());
    let d = if e.len() == 0 {
        let mut c = caracteres("«");
        anexar_str(&mut c, host);
        anexar_str(&mut c, "» no devolvió ninguna clave de host");
        cadena(c.as_slice())
    } else {
        salida.diagnostico()
    };
    Err(
        Error::OrdenFallida {
            orden: cadena(o.as_slice()),
            codigo: match salida.codigo {
                Some(c) => c,
                None => -1,
            },
            salida: d,
        },
    )
}

/// Texto con una línea por elemento, cada una terminada en salto de línea.
pub open spec fn una_por_linea(v: Seq<Seq<char>>) -> Seq<char>
    decreases v.len(),
{
    if v.len() == 0 {
        seq![]
    } else {
        una_por_linea(v.drop_last()) + v.last() + "\n"@
    }
}

/// El fichero temporal que se pasa a `ssh-keygen -l`: las líneas escaneadas,
/// una por línea.
pub fn contenido_para_huellas(lineas: &Vec<String>) -> (r: String)
    ensures
        r@ == una_por_linea(vistas(lineas@)),
{
    let mut c: Vec<char> = Vec::new();
    let mut i: usize = 0;
    proof {
        reveal_strlit("\n");
        assert(vistas(lineas@).take(0) =~= seq![]);
    }
    while i < lineas.len()
        invariant
            i <= lineas@.len(),
            c@ == una_por_linea(vistas(lineas@).take(i as int)),
        decreases lineas@.len() - i,
    {
        proof {
            reveal_strlit("\n");
            assert(vistas(lineas@).take(i + 1).drop_last() =~= vistas(lineas@).take(i as int));
        }
        anexar_str(&mut c, lineas[i].as_str());
        anexar_str(&mut c, "\n");
        i += 1;
    }
    proof {
        assert(vistas(lineas@).take(lineas@.len() as int) =~= vistas(lineas@));
    }
    cadena(c.as_slice())
}

/// Lo que se añade a `known_hosts` al aceptar unas claves: sus líneas, una
/// por línea.
pub fn texto_para_known_hosts(claves: &Vec<ClaveHost>) -> (r: String)
    ensures
        r@ == una_por_linea(vistas_claves(claves@).map_values(|c: ClaveHostV| c.linea)),
{
    let ghost v = vistas_claves(claves@).map_values(|c: ClaveHostV| c.linea);
    let mut c: Vec<char> = Vec::new();
    let mut i: usize = 0;
    proof {
        assert(v.take(0) =~= seq![]);
    }
    while i < claves.len()
        invariant
            i <= claves@.len(),
            v == vistas_claves(claves@).map_values(|c: ClaveHostV| c.linea),
            c@ == una_por_linea(v.take(i as int)),
        decreases claves@.len() - i,
    {
        proof {
            reveal_strlit("\n");
            assert(v.take(i + 1).drop_last() =~= v.take(i as int));
            assert(v.take(i + 1).last() == claves@[i as int].linea@);
        }
        anexar_str(&mut c, claves[i].linea.as_str());
        anexar_str(&mut c, "\n");
        i += 1;
    }
    proof {
        assert(v.take(v.len() as int) =~= v);
    }
    cadena(c.as_slice())
}

/// Argumentos de `ssh-keygen -l` sobre el fichero temporal.
pub fn argumentos_de_huellas(ruta: &str) -> (r: Vec<String>)
    ensures
        vistas(r@) == seq!["-l"@, "-f"@, ruta@],
{
    let mut r: Vec<String> = Vec::new();
    r.push("-l".to_string());
    r.push("-f".to_string());
    r.push(ruta.to_string());
    proof {
        assert(vistas(r@) =~= seq!["-l"@, "-f"@, ruta@]);
    }
    r
}

/// Las líneas no vacías de lo que escribe `ssh-keygen -l`.
pub open spec fn no_vacias(ls: Seq<Seq<char>>) -> Seq<Seq<char>>
    decreases ls.len(),
{
    if ls.len() == 0 {
        seq![]
    } else if recortado(ls.last()).len() == 0 {
        no_vacias(ls.drop_last())
    } else {
        no_vacias(ls.drop_last()).push(ls.last())
    }
}

/// Las claves que salen de emparejar cada resumen `«bits SHA256:… host (TIPO)»`
/// con la línea escaneada del mismo orden. Un resumen con menos de dos campos
/// o sin línea que le corresponda no da clave.
pub open spec fn claves_de(resumenes: Seq<Seq<char>>, escaneadas: Seq<Seq<char>>) -> Seq<ClaveHostV>
    decreases resumenes.len(),
{
    if resumenes.len() == 0 {
        seq![]
    } else {
        let k = resumenes.len() - 1;
        let previas = claves_de(resumenes.drop_last(), escaneadas);
        let campos = palabras(resumenes[k]);
        if campos.len() < 2 || k >= escaneadas.len() {
            previas
        } else {
            let linea = escaneadas[k];
            let partes = palabras(linea);
            previas.push(
                ClaveHostV {
                    linea,
                    tipo: if partes.len() > 1 {
                        partes[1]
                    } else {
                        "desconocido"@
                    },
                    fingerprint: campos[1],
                    bits: match valor_u32(campos[0]) {
                        Some(b) => b,
                        None => 0,
                    },
                },
            )
        }
    }
}

/// Lo que dijo `ssh-keygen -l` sobre las líneas escaneadas: una clave por
/// línea, con su fingerprint y sus bits, o el error si la orden falló.
pub fn claves_de_huellas(escaneadas: &Vec<String>, salida: &Salida) -> (r: Resultado<Vec<ClaveHost>>)
    ensures
        salida.codigo != Some(0i32) ==> (r matches Err(Error::OrdenFallida { orden, codigo, salida: d })
            && orden@ == "ssh-keygen -l"@ && codigo == match salida.codigo {
            Some(c) => c,
            None => -1i32,
        } && d@ == traduccion_de(texto_util(salida.estandar@, salida.error@))),
        salida.codigo == Some(0i32) ==> (r matches Ok(v) && vistas_claves(v@) == claves_de(
            no_vacias(lineas(salida.estandar@)),
            vistas(escaneadas@),
        )),
{
    if !salida.correcta() {
        return Err(
            Error::OrdenFallida {
                orden: "ssh-keygen -l".to_string(),
                codigo: match salida.codigo {
                    Some(c) => c,
                    None => -1,
                },
                salida: salida.diagnostico(),
            },
        );
    }
    let texto = caracteres(salida.estandar.as_str());
    let todas = en_lineas(texto.as_slice());
    let mut resumenes: Vec<Vec<char>> = Vec::new();
    let ghost ls = lineas(salida.estandar@);
    let mut i: usize = 0;
    proof {
        assert(crate::config::parser::vistas_vec_char(todas@) == ls);
        assert(ls.take(0) =~= seq![]);
    }
    while i < todas.len()
        invariant
            i <= todas@.len(),
            crate::config::parser::vistas_vec_char(todas@) == ls,
            vistas_vec(resumenes@) == no_vacias(ls.take(i as int)),
        decreases todas@.len() - i,
    {
        proof {
            assert(ls.take(i + 1).drop_last() =~= ls.take(i as int));
            assert(ls.take(i + 1).last() == todas@[i as int]@);
        }
        let l = recortar(todas[i].as_slice());
        if l.len() > 0 {
            let ghost antes = resumenes@;
            let copia = trozo(todas[i].as_slice(), 0, todas[i].len());
            proof {
                assert(copia@ =~= todas@[i as int]@);
            }
            resumenes.push(copia);
            proof {
                assert(vistas_vec(resumenes@) =~= vistas_vec(antes).push(todas@[i as int]@));
            }
        }
        i += 1;
    }
    proof {
        assert(ls.take(ls.len() as int) =~= ls);
    }
    let ghost rs = vistas_vec(resumenes@);
    let mut claves: Vec<ClaveHost> = Vec::new();
    let mut k: usize = 0;
    proof {
        assert(rs.take(0) =~= seq![]);
    }
    while k < resumenes.len()
        invariant
            k <= resumenes@.len(),
            rs == vistas_vec(resumenes@),
            vistas_claves(claves@) == claves_de(rs.take(k as int), vistas(escaneadas@)),
        decreases resumenes@.len() - k,
    {
        proof {
            assert(rs.take(k + 1).drop_last() =~= rs.take(k as int));
            assert(rs.take(k + 1)[k as int] == resumenes@[k as int]@);
        }
        let campos = en_palabras(resumenes[k].as_slice());
        if campos.len() >= 2 && k < escaneadas.len() {
            let linea = escaneadas[k].clone();
            let c = caracteres(linea.as_str());
            let partes = en_palabras(c.as_slice());
            let tipo = if partes.len() > 1 {
                cadena(partes[1].as_slice())
            } else {
                "desconocido".to_string()
            };
            let bits = match leer_u32(campos[0].as_slice()) {
                Some(b) => b,
                None => 0,
            };
            let clave = ClaveHost {
                linea,
                tipo,
                fingerprint: cadena(campos[1].as_slice()),
                bits,
            };
            proof {
                assert(vistas_vec(campos@) == palabras(resumenes@[k as int]@));
                assert(vistas_vec(partes@) == palabras(escaneadas@[k as int]@));
                if partes@.len() > 1 {
                    assert(partes@[1]@ == palabras(escaneadas@[k as int]@)[1]);
                }
                assert(campos@[0]@ == palabras(resumenes@[k as int]@)[0]);
                assert(campos@[1]@ == palabras(resumenes@[k as int]@)[1]);
            }
            let ghost antes = claves@;
            claves.push(clave);
            proof {
                assert(vistas_claves(claves@) =~= vistas_claves(antes).push(clave@));
            }
        } else {
            proof {
                assert(vistas_vec(campos@) == palabras(resumenes@[k as int]@));
            }
        }
        k += 1;
    }
    proof {
        assert(rs.take(rs.len() as int) =~= rs);
    }
    Ok(claves)
}

} // verus!
