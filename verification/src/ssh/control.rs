//! Socket de control de OpenSSH: la única fuente de verdad del estado.
//!
//! No hay una tabla de «túneles activos» en ninguna base de datos. Si se quiere
//! saber si un maestro está vivo, se le pregunta con `-O check`. Aquí se
//! construyen esas órdenes y se interpreta lo que contestan.

use vstd::prelude::*;

use crate::error::{Error, Resultado};
use crate::modelo::{argumento, bandera, Reenvio};
use crate::rutas::{huella, socket_control, unida, PREFIJO_SOCKET};
use crate::ssh::{traduccion_de, texto_util, Salida};
use crate::texto::{
    aparece_en, cadena, caracteres, contiene, contiene_str, digito, es_digito, leer_u32,
    primera_pos, trozo, valor_u32, vistas,
};

verus! {

broadcast use vstd::string::group_string_axioms;

/// Extensión del fichero que guarda a qué alias pertenece un socket.
///
/// El nombre del socket es un hash y no se puede invertir, pero `-O check`
/// necesita el destino: guardar el alias al lado permite que la limpieza de
/// huérfanos sea exacta en vez de heurística.
pub const EXTENSION_ALIAS: &'static str = "alias";

/// Un socket de control asociado a un alias.
#[derive(Debug)]
pub struct Control {
    pub alias: String,
    pub socket: String,
}

/// Argumentos comunes a todas las órdenes de control: el socket, la orden, lo
/// que haga falta y el destino al final.
pub open spec fn argumentos_de_control(
    socket: Seq<char>,
    alias: Seq<char>,
    orden: Seq<char>,
    extra: Seq<Seq<char>>,
) -> Seq<Seq<char>> {
    seq!["-S"@, socket, "-O"@, orden] + extra + seq![alias]
}

impl Control {
    /// El control de un alias, con el socket en el directorio de ejecución.
    pub fn de(ejecucion: &str, alias: &str) -> (r: Control)
        ensures
            r.alias@ == alias@,
            r.socket@ == unida(ejecucion@, PREFIJO_SOCKET@ + huella(alias@)),
    {
        Control { alias: alias.to_string(), socket: socket_control(ejecucion, alias) }
    }

    /// Argumentos comunes a todas las órdenes de control.
    pub fn argumentos(&self, orden: &str, extra: &Vec<String>) -> (r: Vec<String>)
        ensures
            vistas(r@) == argumentos_de_control(self.socket@, self.alias@, orden@, vistas(extra@)),
    {
        let mut r: Vec<String> = Vec::new();
        r.push("-S".to_string());
        r.push(self.socket.clone());
        r.push("-O".to_string());
        r.push(orden.to_string());
        let ghost base = r@;
        let mut i: usize = 0;
        proof {
            assert(vistas(r@) =~= seq!["-S"@, self.socket@, "-O"@, orden@] + vistas(extra@).take(0));
        }
        while i < extra.len()
            invariant
                i <= extra@.len(),
                vistas(r@) == seq!["-S"@, self.socket@, "-O"@, orden@] + vistas(extra@).take(i as int),
            decreases extra@.len() - i,
        {
            let ghost antes = r@;
            r.push(extra[i].clone());
            proof {
                assert(vistas(r@) =~= vistas(antes).push(extra@[i as int]@));
                assert(vistas(extra@).take(i + 1) =~= vistas(extra@).take(i as int).push(
                    extra@[i as int]@,
                ));
            }
            i += 1;
        }
        let ghost antes = r@;
        r.push(self.alias.clone());
        proof {
            assert(vistas(extra@).take(extra@.len() as int) =~= vistas(extra@));
            assert(vistas(r@) =~= vistas(antes).push(self.alias@));
        }
        r
    }

    /// Lo que dice `ssh -O check` sobre un socket que existe: el PID del
    /// maestro si está vivo, ninguno si no.
    ///
    /// Un fallo aquí no es un error de la aplicación: significa «no hay
    /// maestro», que es una respuesta perfectamente válida.
    pub fn comprobar(&self, salida: &Salida) -> (r: Option<u32>)
        ensures
            r == if salida.codigo == Some(0i32) {
                match pid_en(salida.error@) {
                    Some(p) => Some(p),
                    None => pid_en(salida.estandar@),
                }
            } else {
                None
            },
    {
        if !salida.correcta() {
            return None;
        }
        // El mensaje es «Master running (pid=12345)».
        match extraer_pid(salida.error.as_str()) {
            Some(p) => Some(p),
            None => extraer_pid(salida.estandar.as_str()),
        }
    }

    /// Argumentos de `ssh -O forward|cancel` para un reenvío.
    pub fn argumentos_de_reenvio(&self, orden: &str, reenvio: &Reenvio) -> (r: Vec<String>)
        ensures
            vistas(r@) == argumentos_de_control(
                self.socket@,
                self.alias@,
                orden@,
                seq![bandera(reenvio@.tipo), argumento(reenvio@)],
            ),
    {
        let mut extra: Vec<String> = Vec::new();
        extra.push(reenvio.tipo.bandera().to_string());
        extra.push(reenvio.argumento());
        proof {
            assert(vistas(extra@) =~= seq![bandera(reenvio@.tipo), argumento(reenvio@)]);
        }
        self.argumentos(orden, &extra)
    }

    /// Lo que significa la salida de `ssh -O forward|cancel`: éxito, maestro
    /// inactivo, o fallo con su diagnóstico.
    pub fn resultado_de_reenvio(&self, orden: &str, reenvio: &Reenvio, salida: &Salida) -> (r:
        Resultado<()>)
        ensures
            salida.codigo == Some(0i32) ==> r is Ok,
            salida.codigo != Some(0i32) && contiene(
                traduccion_de(texto_util(salida.estandar@, salida.error@)),
                "no hay ninguna conexión maestra"@,
            ) ==> (r matches Err(Error::MaestroInactivo(a)) && a@ == self.alias@),
            salida.codigo != Some(0i32) && !contiene(
                traduccion_de(texto_util(salida.estandar@, salida.error@)),
                "no hay ninguna conexión maestra"@,
            ) ==> (r matches Err(Error::OrdenFallida { orden: o, codigo, salida: d }) && o@
                == "ssh -O "@ + orden@ + " "@ + argumento(reenvio@) && codigo == match salida.codigo {
                Some(c) => c,
                None => -1i32,
            } && d@ == traduccion_de(texto_util(salida.estandar@, salida.error@))),
    {
        if salida.correcta() {
            return Ok(());
        }
        let diagnostico = salida.diagnostico();
        let d = caracteres(diagnostico.as_str());
        if contiene_str(d.as_slice(), "no hay ninguna conexión maestra") {
            return Err(Error::MaestroInactivo(self.alias.clone()));
        }
        let mut o = caracteres("ssh -O ");
        crate::texto::anexar_str(&mut o, orden);
        crate::texto::anexar_str(&mut o, " ");
        let a = reenvio.argumento();
        crate::texto::anexar_str(&mut o, a.as_str());
        let codigo = match salida.codigo {
            Some(c) => c,
            None => -1,
        };
        Err(Error::OrdenFallida { orden: cadena(o.as_slice()), codigo, salida: diagnostico })
    }

    /// Ruta del fichero que guarda el alias junto al socket.
    pub fn ruta_alias(&self) -> (r: String)
        ensures
            r@ == con_extension(self.socket@, EXTENSION_ALIAS@),
    {
        let c = caracteres(self.socket.as_str());
        let r = poner_extension(c.as_slice(), EXTENSION_ALIAS);
        cadena(r.as_slice())
    }
}

/// `Path::with_extension` para los nombres de socket, que no llevan punto:
/// se añade `.` y la extensión.
pub open spec fn con_extension(ruta: Seq<char>, ext: Seq<char>) -> Seq<char> {
    ruta + seq!['.'] + ext
}

fn poner_extension(ruta: &[char], ext: &str) -> (r: Vec<char>)
    ensures
        r@ == con_extension(ruta@, ext@),
{
    let mut r = trozo(ruta, 0, ruta.len());
    r.push('.');
    crate::texto::anexar_str(&mut r, ext);
    proof {
        assert(ruta@.subrange(0, ruta@.len() as int) =~= ruta@);
    }
    r
}

/// Longitud de la tira de cifras con que empieza `s`.
pub open spec fn cifras_iniciales(s: Seq<char>) -> int
    decreases s.len(),
{
    if s.len() == 0 || !es_digito(s[0]) {
        0
    } else {
        1 + cifras_iniciales(s.drop_first())
    }
}

/// Primera aparición de `t` en `s`.
pub open spec fn primera_aparicion(s: Seq<char>, t: Seq<char>) -> Option<int> {
    if exists|i: int| #[trigger] aparece_en(s, t, i) {
        Some(choose|i: int| #[trigger] aparece_en(s, t, i) && forall|j: int| 0 <= j < i ==> !aparece_en(s, t, j))
    } else {
        None
    }
}

/// El PID de un mensaje «… (pid=12345)»: las cifras que siguen al primer
/// `pid=`, si forman un número.
pub open spec fn pid_en(texto: Seq<char>) -> Option<u32> {
    match primera_aparicion(texto, "pid="@) {
        Some(i) => {
            let resto = texto.skip(i + 4);
            valor_u32(resto.take(cifras_iniciales(resto)))
        },
        None => None,
    }
}

proof fn lema_primera_aparicion(s: Seq<char>, t: Seq<char>, k: int)
    requires
        aparece_en(s, t, k),
        forall|j: int| 0 <= j < k ==> !aparece_en(s, t, j),
    ensures
        primera_aparicion(s, t) == Some(k),
{
    assert(aparece_en(s, t, k) && forall|j: int| 0 <= j < k ==> !aparece_en(s, t, j));
    let x = choose|i: int|
        #[trigger] aparece_en(s, t, i) && forall|j: int| 0 <= j < i ==> !aparece_en(s, t, j);
    assert(aparece_en(s, t, x) && forall|j: int| 0 <= j < x ==> !aparece_en(s, t, j));
    assert(0 <= x);
    if x < k {
        assert(!aparece_en(s, t, x));
    } else if k < x {
        assert(!aparece_en(s, t, k));
    }
}

proof fn lema_cifras_iniciales(s: Seq<char>, k: int)
    requires
        0 <= k <= s.len(),
        forall|j: int| 0 <= j < k ==> es_digito(#[trigger] s[j]),
        k == s.len() || !es_digito(s[k]),
    ensures
        cifras_iniciales(s) == k,
    decreases k,
{
    if k > 0 {
        assert forall|j: int| 0 <= j < k - 1 implies es_digito(#[trigger] s.drop_first()[j]) by {
            assert(s.drop_first()[j] == s[j + 1]);
        }
        if k < s.len() {
            assert(s.drop_first()[k - 1] == s[k]);
        }
        lema_cifras_iniciales(s.drop_first(), k - 1);
    }
}

/// El PID del mensaje de `ssh -O check`.
pub fn extraer_pid(texto: &str) -> (r: Option<u32>)
    ensures
        r == pid_en(texto@),
{
    let c = caracteres(texto);
    let m = caracteres("pid=");
    let inicio = match crate::texto::buscar(c.as_slice(), m.as_slice()) {
        Some(i) => i,
        None => {
            return None;
        },
    };
    proof {
        lema_primera_aparicion(c@, "pid="@, inicio as int);
        reveal_strlit("pid=");
        assert(m@.len() == 4);
        assert(inicio + 4 <= c@.len());
    }
    let n = c.len();
    let resto = trozo(c.as_slice(), inicio + 4, n);
    let mut fin: usize = 0;
    while fin < resto.len() && digito(resto[fin])
        invariant
            fin <= resto@.len(),
            forall|j: int| 0 <= j < fin ==> es_digito(#[trigger] resto@[j]),
        decreases resto@.len() - fin,
    {
        fin += 1;
    }
    proof {
        lema_cifras_iniciales(resto@, fin as int);
        assert(resto@ =~= c@.skip(inicio + 4));
    }
    let cifras = trozo(resto.as_slice(), 0, fin);
    leer_u32(cifras.as_slice())
}

/// Un nombre del directorio de ejecución es un socket de control: empieza
/// por el prefijo y no lleva punto (los `.alias` que lo acompañan sí).
pub open spec fn nombre_de_socket(nombre: Seq<char>) -> bool {
    crate::texto::empieza_por(nombre, PREFIJO_SOCKET@) && !nombre.contains('.')
}

/// Los sockets de control de un directorio, dados los nombres de sus
/// entradas: las rutas de los que lo son, en orden.
pub open spec fn sockets_en(directorio: Seq<char>, nombres: Seq<Seq<char>>) -> Seq<Seq<char>>
    decreases nombres.len(),
{
    if nombres.len() == 0 {
        seq![]
    } else if nombre_de_socket(nombres.last()) {
        sockets_en(directorio, nombres.drop_last()).push(unida(directorio, nombres.last()))
    } else {
        sockets_en(directorio, nombres.drop_last())
    }
}

/// Los sockets de control que hay en `directorio`, dados los nombres de sus
/// entradas, ordenados por ruta.
pub fn sockets_de_control(directorio: &str, nombres: &Vec<String>) -> (r: Vec<String>)
    ensures
        crate::texto::ordenada(vistas(r@)),
        vistas(r@).to_multiset() == sockets_en(directorio@, vistas(nombres@)).to_multiset(),
{
    let mut encontrados: Vec<String> = Vec::new();
    let mut i: usize = 0;
    proof {
        reveal_strlit("ctl-");
        assert(vistas(nombres@).take(0) =~= seq![]);
    }
    while i < nombres.len()
        invariant
            i <= nombres@.len(),
            vistas(encontrados@) == sockets_en(directorio@, vistas(nombres@).take(i as int)),
        decreases nombres@.len() - i,
    {
        proof {
            assert(vistas(nombres@).take(i + 1).drop_last() =~= vistas(nombres@).take(i as int));
            assert(vistas(nombres@).take(i + 1).last() == nombres@[i as int]@);
        }
        let c = caracteres(nombres[i].as_str());
        if crate::texto::empieza_str(c.as_slice(), PREFIJO_SOCKET) && !crate::texto::tiene_char(
            c.as_slice(),
            '.',
        ) {
            let ruta = crate::rutas::unir(directorio, nombres[i].as_str());
            let ghost antes = encontrados@;
            encontrados.push(ruta);
            proof {
                assert(vistas(encontrados@) =~= vistas(antes).push(
                    unida(directorio@, nombres@[i as int]@),
                ));
            }
        }
        i += 1;
    }
    proof {
        assert(vistas(nombres@).take(nombres@.len() as int) =~= vistas(nombres@));
    }
    crate::texto::ordenar(&encontrados)
}

/// Informe de la limpieza de sockets huérfanos.
#[derive(Debug)]
pub struct Limpieza {
    /// Maestros vivos: su alias, o el socket si no se sabe de quién es.
    pub vivos: Vec<String>,
    /// Sockets retirados por huérfanos.
    pub retirados: Vec<String>,
}

impl Limpieza {
    /// Informe vacío.
    pub fn nueva() -> (r: Limpieza)
        ensures
            r.vivos@.len() == 0,
            r.retirados@.len() == 0,
    {
        Limpieza { vivos: Vec::new(), retirados: Vec::new() }
    }

    /// Anota lo que se ha visto de un socket: vivo, se cuenta por su alias (o
    /// por la ruta si no se sabe de quién es); muerto, se retira.
    pub fn anotar(&mut self, control: &Control, vivo: bool)
        ensures
            vivo ==> vistas(final(self).vivos@) == vistas(old(self).vivos@).push(
                if control.alias@.len() == 0 {
                    control.socket@
                } else {
                    control.alias@
                },
            ) && final(self).retirados@ == old(self).retirados@,
            !vivo ==> vistas(final(self).retirados@) == vistas(old(self).retirados@).push(
                control.socket@,
            ) && final(self).vivos@ == old(self).vivos@,
    {
        if vivo {
            let ghost antes = self.vivos@;
            let nombre = if control.alias.as_str().is_empty() {
                control.socket.clone()
            } else {
                control.alias.clone()
            };
            self.vivos.push(nombre);
            proof {
                assert(vistas(self.vivos@) =~= vistas(antes).push(nombre@));
            }
        } else {
            let ghost antes = self.retirados@;
            self.retirados.push(control.socket.clone());
            proof {
                assert(vistas(self.retirados@) =~= vistas(antes).push(control.socket@));
            }
        }
    }
}

/// Ley: toda orden de control va al socket con `-S`, nombra la operación con
/// `-O`, lleva detrás sus argumentos extra en orden y termina con el alias.
/// Para activar o cancelar un reenvío, los extra son su bandera y su argumento.
pub proof fn ley_argumentos_de_control(socket: Seq<char>, alias: Seq<char>, orden: Seq<char>, extra: Seq<Seq<char>>)
    ensures
        ({
            let a = argumentos_de_control(socket, alias, orden, extra);
            &&& a.len() == extra.len() + 5
            &&& a[0] == "-S"@ && a[1] == socket && a[2] == "-O"@ && a[3] == orden
            &&& forall|i: int| 0 <= i < extra.len() ==> a[4 + i] == #[trigger] extra[i]
            &&& a[a.len() - 1] == alias
        }),
{
    let a = argumentos_de_control(socket, alias, orden, extra);
    assert forall|i: int| 0 <= i < extra.len() implies a[4 + i] == #[trigger] extra[i] by {
    }
}

} // verus!
