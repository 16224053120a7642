//! Intercambio de claves con `ssh-copy-id`.
//!
//! Se lanza como proceso hijo; la contraseña de esa primera —y con suerte
//! última— conexión la pide el askpass cuando se ejecuta desde la ventana, o
//! el TTY desde la consola. La aplicación no ve la clave privada en ningún
//! momento: solo pasa la ruta de la **pública**. Listar el directorio y lanzar
//! los procesos queda fuera de la biblioteca; aquí se decide qué claves hay,
//! en qué orden, si la indicada vale y qué significó la respuesta.

use vstd::prelude::*;

use crate::error::{Error, Resultado};
use crate::rutas::{abreviada, abreviar, componentes, partes_de, unida, unir};
use crate::ssh::{traduccion_de, texto_util, Salida};
use crate::texto::{
    anexar_str, cadena, caracteres, contiene, contiene_str, empieza_por, empieza_str, es_str,
    lex_menor, ordenada, ordenar, posicion_ultima, trozo, ultima_pos, vistas, vistas_vec,
};

verus! {

broadcast use vstd::string::group_string_axioms;

/// `ssh-copy-id` puede tardar: hay que autenticarse una vez por el método
/// viejo. Segundos.
pub const ESPERA_COPIA: u64 = 120;

/// Segundos de espera de la comprobación de entrada solo con clave.
pub const ESPERA_VERIFICACION: u64 = 30;

/// Nombres habituales de claves públicas, en orden de preferencia. Las
/// respaldadas por hardware van primero: si el usuario tiene una, es la que
/// quiere usar.
pub open spec fn candidatas() -> Seq<Seq<char>> {
    seq![
        "id_ed25519_sk.pub"@,
        "id_ecdsa_sk.pub"@,
        "id_ed25519.pub"@,
        "id_ecdsa.pub"@,
        "id_rsa.pub"@,
    ]
}

/// Los nombres habituales de claves públicas, en orden de preferencia.
pub fn nombres_candidatos() -> (r: Vec<String>)
    ensures
        vistas(r@) == candidatas(),
{
    let mut r: Vec<String> = Vec::new();
    r.push("id_ed25519_sk.pub".to_string());
    r.push("id_ecdsa_sk.pub".to_string());
    r.push("id_ed25519.pub".to_string());
    r.push("id_ecdsa.pub".to_string());
    r.push("id_rsa.pub".to_string());
    proof {
        assert(vistas(r@) =~= candidatas());
    }
    r
}

/// La extensión de un nombre de fichero, como `Path::extension`: lo que va
/// tras el último punto, salvo que ese punto sea el primer carácter.
pub open spec fn extension_de(nombre: Seq<char>) -> Option<Seq<char>> {
    match ultima_pos(nombre, '.') {
        Some(k) => if k > 0 {
            Some(nombre.skip(k + 1))
        } else {
            None
        },
        None => None,
    }
}

/// El nombre de fichero de una ruta, como `Path::file_name`: su último
/// componente, salvo que sea `..` o no haya ninguno.
pub open spec fn nombre_de_fichero(ruta: Seq<char>) -> Option<Seq<char>> {
    let ps = componentes(ruta).2;
    if ps.len() > 0 && ps.last() != ".."@ {
        Some(ps.last())
    } else {
        None
    }
}

/// La ruta tiene extensión `.pub`.
pub open spec fn acaba_en_pub(ruta: Seq<char>) -> bool {
    match nombre_de_fichero(ruta) {
        Some(n) => extension_de(n) == Some("pub"@),
        None => false,
    }
}

fn extension_pub(nombre: &[char]) -> (r: bool)
    ensures
        r == (extension_de(nombre@) == Some("pub"@)),
{
    proof {
        crate::texto::lema_ultima_pos(nombre@, '.');
        reveal_strlit("pub");
    }
    match posicion_ultima(nombre, '.') {
        Some(k) => {
            if k == 0 {
                return false;
            }
            let n = nombre.len();
            proof {
                assert(k < n);
            }
            let cola = trozo(nombre, k + 1, n);
            proof {
                assert(cola@ =~= nombre@.skip(k + 1));
            }
            es_str(cola.as_slice(), "pub")
        },
        None => false,
    }
}

/// Si la ruta es de una clave pública: su nombre de fichero acaba en `.pub`.
pub fn es_publica(ruta: &str) -> (r: bool)
    ensures
        r == acaba_en_pub(ruta@),
{
    let (_, _, ps) = partes_de(ruta);
    let n = ps.len();
    if n == 0 {
        return false;
    }
    proof {
        assert(vistas_vec(ps@)[n - 1] == ps@[n - 1]@);
        reveal_strlit("..");
    }
    if es_str(ps[n - 1].as_slice(), "..") {
        return false;
    }
    extension_pub(ps[n - 1].as_slice())
}

/// Las candidatas presentes en el directorio, como rutas, en orden de
/// preferencia.
pub open spec fn encontradas(directorio: Seq<char>, presentes: Seq<bool>, n: nat) -> Seq<Seq<char>>
    decreases n,
{
    if n == 0 {
        seq![]
    } else if presentes[n - 1] {
        encontradas(directorio, presentes, (n - 1) as nat).push(
            unida(directorio, candidatas()[n - 1]),
        )
    } else {
        encontradas(directorio, presentes, (n - 1) as nat)
    }
}

/// Las otras claves públicas del directorio: cualquier `.pub` que no sea una
/// de las candidatas ya encontradas, como rutas.
pub open spec fn otras(directorio: Seq<char>, nombres: Seq<Seq<char>>, ya: Seq<Seq<char>>) -> Seq<Seq<char>>
    decreases nombres.len(),
{
    if nombres.len() == 0 {
        seq![]
    } else {
        let previas = otras(directorio, nombres.drop_last(), ya);
        let ruta = unida(directorio, nombres.last());
        if extension_de(nombres.last()) == Some("pub"@) && !ya.contains(ruta) {
            previas.push(ruta)
        } else {
            previas
        }
    }
}

fn ya_esta(v: &Vec<String>, x: &str) -> (r: bool)
    ensures
        r == vistas(v@).contains(x@),
{
    let cx = caracteres(x);
    let mut i: usize = 0;
    while i < v.len()
        invariant
            i <= v@.len(),
            cx@ == x@,
            forall|j: int| 0 <= j < i ==> vistas(v@)[j] != x@,
        decreases v@.len() - i,
    {
        let c = caracteres(v[i].as_str());
        if crate::texto::iguales(c.as_slice(), cx.as_slice()) {
            proof {
                assert(vistas(v@)[i as int] == x@);
            }
            return true;
        }
        i += 1;
    }
    false
}

/// Las claves públicas disponibles en `directorio`, en orden de preferencia:
/// primero las candidatas habituales que estén (`presentes`, una marca por
/// candidata), y tras ellas cualquier otra `.pub` de las entradas `nombres`
/// del directorio, en orden alfabético.
pub fn claves_en_orden(directorio: &str, presentes: &Vec<bool>, nombres: &Vec<String>) -> (r: Vec<
    String,
>)
    requires
        presentes@.len() == 5,
    ensures
        ({
            let e = encontradas(directorio@, presentes@, 5);
            &&& vistas(r@).take(e.len() as int) == e
            &&& e.len() <= r@.len()
            &&& ordenada(vistas(r@).skip(e.len() as int))
            &&& vistas(r@).skip(e.len() as int).to_multiset() == otras(
                directorio@,
                vistas(nombres@),
                e,
            ).to_multiset()
        }),
{
    let candidatos = nombres_candidatos();
    proof {
        assert(vistas(candidatos@).len() == 5);
    }
    let mut r: Vec<String> = Vec::new();
    let mut i: usize = 0;
    while i < 5
        invariant
            i <= 5,
            presentes@.len() == 5,
            vistas(candidatos@) == candidatas(),
            candidatos@.len() == 5,
            vistas(r@) == encontradas(directorio@, presentes@, i as nat),
        decreases 5 - i,
    {
        if presentes[i] {
            proof {
                assert(candidatos@[i as int]@ == candidatas()[i as int]);
            }
            let ruta = unir(directorio, candidatos[i].as_str());
            let ghost antes = r@;
            r.push(ruta);
            proof {
                assert(vistas(r@) =~= vistas(antes).push(unida(directorio@, candidatas()[i as int])));
            }
        }
        i += 1;
    }
    let ghost e = vistas(r@);
    let mut resto: Vec<String> = Vec::new();
    let mut k: usize = 0;
    proof {
        assert(vistas(nombres@).take(0) =~= seq![]);
    }
    while k < nombres.len()
        invariant
            k <= nombres@.len(),
            e == vistas(r@),
            vistas(resto@) == otras(directorio@, vistas(nombres@).take(k as int), e),
        decreases nombres@.len() - k,
    {
        proof {
            assert(vistas(nombres@).take(k + 1).drop_last() =~= vistas(nombres@).take(k as int));
            assert(vistas(nombres@).take(k + 1).last() == nombres@[k as int]@);
        }
        let nombre = caracteres(nombres[k].as_str());
        if extension_pub(nombre.as_slice()) {
            let ruta = unir(directorio, nombres[k].as_str());
            if !ya_esta(&r, ruta.as_str()) {
                let ghost antes = resto@;
                resto.push(ruta);
                proof {
                    assert(vistas(resto@) =~= vistas(antes).push(
                        unida(directorio@, nombres@[k as int]@),
                    ));
                }
            }
        }
        k += 1;
    }
    proof {
        assert(vistas(nombres@).take(nombres@.len() as int) =~= vistas(nombres@));
    }
    let ordenadas = ordenar(&resto);
    let ghost n = r@.len();
    let mut j: usize = 0;
    while j < ordenadas.len()
        invariant
            j <= ordenadas@.len(),
            n == e.len(),
            r@.len() == n + j,
            vistas(r@) == e + vistas(ordenadas@).take(j as int),
        decreases ordenadas@.len() - j,
    {
        let ghost antes = r@;
        r.push(ordenadas[j].clone());
        proof {
            assert(vistas(r@) =~= vistas(antes).push(ordenadas@[j as int]@));
            assert(vistas(ordenadas@).take(j + 1) =~= vistas(ordenadas@).take(j as int).push(
                ordenadas@[j as int]@,
            ));
            assert(e + vistas(ordenadas@).take(j + 1) =~= (e + vistas(ordenadas@).take(
                j as int,
            )).push(ordenadas@[j as int]@));
        }
        j += 1;
    }
    proof {
        assert(vistas(ordenadas@).take(ordenadas@.len() as int) =~= vistas(ordenadas@));
        assert(vistas(r@).take(e.len() as int) =~= e);
        assert(vistas(r@).skip(e.len() as int) =~= vistas(ordenadas@));
    }
    r
}

/// Si la clave está respaldada por hardware (FIDO2), por su tipo.
///
/// `contenido` es el de la clave pública, si se pudo leer: empieza por `sk-`.
/// Si no se pudo leer, se mira el nombre del fichero: lleva `_sk`.
pub fn es_clave_hardware(contenido: Option<&str>, nombre: &str) -> (r: bool)
    ensures
        r == match contenido {
            Some(c) => empieza_por(c@, "sk-"@),
            None => contiene(nombre@, "_sk"@),
        },
{
    match contenido {
        Some(c) => {
            let t = caracteres(c);
            empieza_str(t.as_slice(), "sk-")
        },
        None => {
            let t = caracteres(nombre);
            contiene_str(t.as_slice(), "_sk")
        },
    }
}

/// Comprueba la clave antes de lanzar `ssh-copy-id`: tiene que existir como
/// fichero (`es_fichero`) y ser la **pública**.
pub fn validar_clave(clave: &str, es_fichero: bool, hogares: &Vec<String>) -> (r: Resultado<()>)
    ensures
        !es_fichero ==> (r matches Err(Error::DefinicionInvalida(m)) && m@ == "«"@ + abreviada(
            vistas(hogares@),
            clave@,
        ) + "» no existe o no es un fichero"@),
        es_fichero && !acaba_en_pub(clave@) ==> (r matches Err(Error::DefinicionInvalida(m)) && m@
            == "hay que indicar la clave **pública** (.pub); la privada no sale de aquí"@),
        es_fichero && acaba_en_pub(clave@) ==> r is Ok,
{
    if !es_fichero {
        let mut c = caracteres("«");
        let a = abreviar(hogares, clave);
        anexar_str(&mut c, a.as_str());
        anexar_str(&mut c, "» no existe o no es un fichero");
        return Err(Error::DefinicionInvalida(cadena(c.as_slice())));
    }
    if !es_publica(clave) {
        return Err(
            Error::DefinicionInvalida(
                "hay que indicar la clave **pública** (.pub); la privada no sale de aquí".to_string(),
            ),
        );
    }
    Ok(())
}

/// Argumentos de `ssh-copy-id`.
pub fn argumentos_de_copia(alias: &str, clave: &str) -> (r: Vec<String>)
    ensures
        vistas(r@) == seq!["-i"@, clave@, alias@],
{
    let mut r: Vec<String> = Vec::new();
    r.push("-i".to_string());
    r.push(clave.to_string());
    r.push(alias.to_string());
    proof {
        assert(vistas(r@) =~= seq!["-i"@, clave@, alias@]);
    }
    r
}

/// Lo que significó la salida de `ssh-copy-id`.
///
/// `ssh-copy-id` sale con 0 y avisa por el flujo de error cuando la clave ya
/// estaba. Cualquier otro caso es un fallo real, con la orden tal como la
/// vería el usuario.
pub fn resultado_de_copia(alias: &str, clave: &str, hogares: &Vec<String>, salida: &Salida) -> (r:
    Resultado<()>)
    ensures
        salida.codigo == Some(0i32) ==> r is Ok,
        salida.codigo != Some(0i32) ==> (r matches Err(Error::OrdenFallida { orden, codigo, salida: d })
            && orden@ == "ssh-copy-id -i "@ + abreviada(vistas(hogares@), clave@) + " "@ + alias@
            && codigo == match salida.codigo {
            Some(c) => c,
            None => -1i32,
        } && d@ == traduccion_de(texto_util(salida.estandar@, salida.error@))),
{
    if salida.correcta() {
        return Ok(());
    }
    let mut o = caracteres("ssh-copy-id -i ");
    let a = abreviar(hogares, clave);
    anexar_str(&mut o, a.as_str());
    anexar_str(&mut o, " ");
    anexar_str(&mut o, alias);
    let codigo = match salida.codigo {
        Some(c) => c,
        None => -1,
    };
    Err(Error::OrdenFallida { orden: cadena(o.as_slice()), codigo, salida: salida.diagnostico() })
}

/// Argumentos de la comprobación de entrada **solo con clave pública**.
///
/// `BatchMode` impide cualquier prompt: si hiciera falta contraseña, falla en
/// vez de colgarse esperando.
pub fn argumentos_de_verificacion(alias: &str) -> (r: Vec<String>)
    ensures
        vistas(r@) == seq![
            "-o"@,
            "BatchMode=yes"@,
            "-o"@,
            "PreferredAuthentications=publickey"@,
            "-o"@,
            "ConnectTimeout=10"@,
            alias@,
            "true"@,
        ],
{
    let mut r: Vec<String> = Vec::new();
    r.push("-o".to_string());
    r.push("BatchMode=yes".to_string());
    r.push("-o".to_string());
    r.push("PreferredAuthentications=publickey".to_string());
    r.push("-o".to_string());
    r.push("ConnectTimeout=10".to_string());
    r.push(alias.to_string());
    r.push("true".to_string());
    proof {
        assert(vistas(r@) =~= seq![
            "-o"@,
            "BatchMode=yes"@,
            "-o"@,
            "PreferredAuthentications=publickey"@,
            "-o"@,
            "ConnectTimeout=10"@,
            alias@,
            "true"@,
        ]);
    }
    r
}

} // verus!
