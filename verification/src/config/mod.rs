//! Fuente de verdad de la aplicación: `~/.ssh/config.d/yonder.conf`.
//!
//! El catálogo reúne los hosts del fichero propio (editables) y los que ya
//! tenía el usuario en `~/.ssh/config` o en sus `Include` (solo lectura). Nunca
//! se mueven hosts de un fichero a otro: importar significa mostrarlos y poder
//! gestionarlos, no adoptarlos.

pub mod parser;
pub mod writer;
pub mod vuelta;
pub mod grupos;
pub mod estable;

use vstd::prelude::*;

use crate::config::parser::{hosts_de, texto_doc, vistas_hosts, Documento, DocumentoV};
use crate::config::writer::documento_sincronizado;
use crate::error::{es_invalida, Error, Resultado};
use crate::modelo::{id_tunel, validacion, Host, HostV, Origen, OrigenV, Tunel, TunelV};
use crate::texto::{caracteres, iguales};

pub use crate::config::parser::{Bloque, Encabezado, Linea};
pub use crate::config::writer::{asegurar_include, estado_include, EstadoInclude};

verus! {

broadcast use vstd::string::group_string_axioms;

/// Profundidad máxima al seguir directivas `Include`. OpenSSH permite 16.
pub const PROFUNDIDAD_MAXIMA: usize = 16;

/// Vista del catálogo.
pub struct CatalogoV {
    pub propio: DocumentoV,
    pub propios: Seq<HostV>,
    pub externos: Seq<HostV>,
}

/// Vista completa de la configuración SSH relevante para la aplicación.
#[derive(Debug)]
pub struct Catalogo {
    /// Fichero propio, con su texto original para poder reescribirlo sin pérdidas.
    pub propio: Documento,
    /// Hosts definidos en el fichero propio. Editables.
    pub propios: Vec<Host>,
    /// Hosts con reenvíos definidos fuera del fichero propio. Solo lectura.
    pub externos: Vec<Host>,
}

impl View for Catalogo {
    type V = CatalogoV;

    open spec fn view(&self) -> CatalogoV {
        CatalogoV {
            propio: self.propio@,
            propios: vistas_hosts(self.propios@),
            externos: vistas_hosts(self.externos@),
        }
    }
}

/// Algún host de la lista tiene ese alias.
pub open spec fn hay_alias(hs: Seq<HostV>, alias: Seq<char>) -> bool {
    exists|i: int| 0 <= i < hs.len() && (#[trigger] hs[i]).alias == alias
}

/// Los hosts ajenos que interesan: los que tienen algún reenvío (el resto son
/// entradas de conexión normales) y no están ya en el fichero propio.
pub open spec fn externos_de(leidos: Seq<HostV>, propios: Seq<HostV>) -> Seq<HostV>
    decreases leidos.len(),
{
    if leidos.len() == 0 {
        seq![]
    } else {
        let previos = externos_de(leidos.drop_last(), propios);
        let h = leidos.last();
        if h.reenvios.len() > 0 && !hay_alias(propios, h.alias) {
            previos.push(h)
        } else {
            previos
        }
    }
}

/// Los túneles de un host, uno por reenvío.
pub open spec fn tuneles_de_host(h: HostV) -> Seq<TunelV> {
    h.reenvios.map_values(|r: crate::modelo::ReenvioV| TunelV { alias: h.alias, reenvio: r })
}

/// Los túneles de una lista de hosts, en orden.
pub open spec fn tuneles_de(hs: Seq<HostV>) -> Seq<TunelV>
    decreases hs.len(),
{
    if hs.len() == 0 {
        seq![]
    } else {
        tuneles_de(hs.drop_last()) + tuneles_de_host(hs.last())
    }
}

/// El primer host con ese alias.
pub open spec fn host_por_alias(hs: Seq<HostV>, alias: Seq<char>) -> Option<HostV>
    decreases hs.len(),
{
    if hs.len() == 0 {
        None
    } else if hs[0].alias == alias {
        Some(hs[0])
    } else {
        host_por_alias(hs.drop_first(), alias)
    }
}

/// El primer túnel con ese identificador.
pub open spec fn tunel_por_id(ts: Seq<TunelV>, id: Seq<char>) -> Option<TunelV>
    decreases ts.len(),
{
    if ts.len() == 0 {
        None
    } else if id_tunel(ts[0]) == id {
        Some(ts[0])
    } else {
        tunel_por_id(ts.drop_first(), id)
    }
}

pub open spec fn vistas_tuneles(v: Seq<Tunel>) -> Seq<TunelV> {
    v.map_values(|t: Tunel| t@)
}

pub open spec fn vistas_refs(v: Seq<&Host>) -> Seq<HostV> {
    v.map_values(|h: &Host| h@)
}

fn tiene_alias(hs: &Vec<Host>, alias: &str) -> (r: Option<usize>)
    ensures
        match r {
            Some(i) => i < hs@.len() && hs@[i as int]@.alias == alias@,
            None => !hay_alias(vistas_hosts(hs@), alias@),
        },
{
    let a = caracteres(alias);
    let mut i: usize = 0;
    while i < hs.len()
        invariant
            i <= hs@.len(),
            a@ == alias@,
            forall|j: int| 0 <= j < i ==> (#[trigger] hs@[j])@.alias != alias@,
        decreases hs@.len() - i,
    {
        let b = caracteres(hs[i].alias.as_str());
        if iguales(b.as_slice(), a.as_slice()) {
            return Some(i);
        }
        i += 1;
    }
    proof {
        assert forall|j: int| 0 <= j < vistas_hosts(hs@).len() implies (#[trigger] vistas_hosts(
            hs@,
        )[j]).alias != alias@ by {
            assert(vistas_hosts(hs@)[j] == hs@[j]@);
        }
    }
    None
}

proof fn lema_host_por_alias_suma(a: Seq<HostV>, b: Seq<HostV>, alias: Seq<char>)
    ensures
        host_por_alias(a + b, alias) == match host_por_alias(a, alias) {
            Some(h) => Some(h),
            None => host_por_alias(b, alias),
        },
    decreases a.len(),
{
    if a.len() == 0 {
        assert(a + b =~= b);
    } else {
        assert((a + b).drop_first() =~= a.drop_first() + b);
        assert((a + b)[0] == a[0]);
        lema_host_por_alias_suma(a.drop_first(), b, alias);
    }
}

fn buscar_host<'a>(hs: &'a Vec<Host>, alias: &str) -> (r: Option<&'a Host>)
    ensures
        match r {
            Some(h) => host_por_alias(vistas_hosts(hs@), alias@) == Some(h@),
            None => host_por_alias(vistas_hosts(hs@), alias@) is None,
        },
{
    let a = caracteres(alias);
    let mut i: usize = 0;
    proof {
        assert(vistas_hosts(hs@).skip(0) =~= vistas_hosts(hs@));
    }
    while i < hs.len()
        invariant
            i <= hs@.len(),
            a@ == alias@,
            host_por_alias(vistas_hosts(hs@), alias@) == host_por_alias(
                vistas_hosts(hs@).skip(i as int),
                alias@,
            ),
        decreases hs@.len() - i,
    {
        proof {
            let v = vistas_hosts(hs@).skip(i as int);
            assert(v[0] == hs@[i as int]@);
            assert(v.drop_first() =~= vistas_hosts(hs@).skip(i + 1));
        }
        let b = caracteres(hs[i].alias.as_str());
        if iguales(b.as_slice(), a.as_slice()) {
            return Some(&hs[i]);
        }
        i += 1;
    }
    None
}

impl Catalogo {
    /// Reúne el catálogo a partir del fichero propio ya leído (y con su
    /// cabecera) y de los hosts leídos de `~/.ssh/config` y sus `Include`.
    ///
    /// De los ajenos solo interesan los que ya tengan algún reenvío y no estén
    /// definidos en el fichero propio.
    pub fn cargar(propio: Documento, leidos: Vec<Host>) -> (r: Catalogo)
        ensures
            r@.propio == propio@,
            r@.propios == hosts_de(propio@.bloques, OrigenV::Propio),
            r@.externos == externos_de(vistas_hosts(leidos@), hosts_de(propio@.bloques, OrigenV::Propio)),
    {
        let propios = propio.hosts(Origen::Propio);
        let mut externos: Vec<Host> = Vec::new();
        let mut leidos = leidos;
        let ghost todos = vistas_hosts(leidos@);
        let mut i: usize = 0;
        proof {
            assert(todos.take(0) =~= seq![]);
            assert(vistas_hosts(externos@) =~= seq![]);
        }
        let n = leidos.len();
        let mut restantes: Vec<Host> = Vec::new();
        // Se recorren de atrás adelante para poder sacar cada host sin copiarlo.
        let mut pila = leidos;
        let mut k: usize = n;
        while k > 0
            invariant
                k <= n,
                pila@.len() == k,
                vistas_hosts(pila@) == todos.take(k as int),
                restantes@.len() == n - k,
                forall|j: int|
                    0 <= j < restantes@.len() ==> (#[trigger] restantes@[j])@ == todos[n - 1 - j],
                todos.len() == n,
            decreases k,
        {
            let ghost antes = pila@;
            proof {
                assert(vistas_hosts(antes)[k - 1] == antes[k - 1]@);
            }
            let h = pila.pop().unwrap();
            proof {
                assert(h@ == todos[k - 1]);
                assert(vistas_hosts(pila@) =~= todos.take(k - 1));
            }
            restantes.push(h);
            k -= 1;
        }
        while i < n
            invariant
                i <= n,
                todos.len() == n,
                restantes@.len() == n - i,
                forall|j: int|
                    0 <= j < restantes@.len() ==> (#[trigger] restantes@[j])@ == todos[n - 1 - j],
                vistas_hosts(externos@) == externos_de(todos.take(i as int), vistas_hosts(propios@)),
            decreases n - i,
        {
            let h = restantes.pop().unwrap();
            proof {
                assert(h@ == todos[i as int]);
                let t = todos.take(i + 1);
                assert(t.drop_last() =~= todos.take(i as int));
                assert(t.last() == todos[i as int]);
            }
            let conocido = tiene_alias(&propios, h.alias.as_str());
            if h.reenvios.len() > 0 && conocido.is_none() {
                let ghost antes = externos@;
                externos.push(h);
                proof {
                    assert(vistas_hosts(externos@) =~= vistas_hosts(antes).push(h@));
                }
            } else {
                proof {
                    if h.reenvios@.len() > 0 {
                        let j = conocido.unwrap() as int;
                        assert(vistas_hosts(propios@)[j].alias == h@.alias);
                    }
                }
            }
            i += 1;
        }
        proof {
            assert(todos.take(n as int) =~= todos);
        }
        Catalogo { propio, propios, externos }
    }

    /// Todos los hosts, propios primero.
    pub fn todos(&self) -> (r: Vec<&Host>)
        ensures
            vistas_refs(r@) == self@.propios + self@.externos,
    {
        let mut r: Vec<&Host> = Vec::new();
        let mut i: usize = 0;
        proof {
            assert(vistas_refs(r@) =~= self@.propios.take(0));
        }
        while i < self.propios.len()
            invariant
                i <= self.propios@.len(),
                vistas_refs(r@) == self@.propios.take(i as int),
            decreases self.propios@.len() - i,
        {
            let ghost antes = r@;
            r.push(&self.propios[i]);
            proof {
                assert(vistas_refs(r@) =~= vistas_refs(antes).push(self.propios@[i as int]@));
                assert(vistas_refs(r@) =~= self@.propios.take(i + 1));
            }
            i += 1;
        }
        let mut j: usize = 0;
        proof {
            assert(self@.propios.take(self@.propios.len() as int) =~= self@.propios);
            assert(vistas_refs(r@) =~= self@.propios + self@.externos.take(0));
        }
        while j < self.externos.len()
            invariant
                j <= self.externos@.len(),
                vistas_refs(r@) == self@.propios + self@.externos.take(j as int),
            decreases self.externos@.len() - j,
        {
            let ghost antes = r@;
            r.push(&self.externos[j]);
            proof {
                assert(vistas_refs(r@) =~= vistas_refs(antes).push(self.externos@[j as int]@));
                assert(vistas_refs(r@) =~= self@.propios + self@.externos.take(j + 1));
            }
            j += 1;
        }
        proof {
            assert(self@.externos.take(self@.externos.len() as int) =~= self@.externos);
        }
        r
    }

    /// El host con ese alias, buscando primero entre los propios.
    pub fn host(&self, alias: &str) -> (r: Option<&Host>)
        ensures
            match r {
                Some(h) => host_por_alias(self@.propios + self@.externos, alias@) == Some(h@),
                None => host_por_alias(self@.propios + self@.externos, alias@) is None,
            },
    {
        proof {
            lema_host_por_alias_suma(self@.propios, self@.externos, alias@);
        }
        match buscar_host(&self.propios, alias) {
            Some(h) => Some(h),
            None => buscar_host(&self.externos, alias),
        }
    }

    /// Todos los túneles definidos, en orden de fichero.
    pub fn tuneles(&self) -> (r: Vec<Tunel>)
        ensures
            vistas_tuneles(r@) == tuneles_de(self@.propios + self@.externos),
    {
        let todos = self.todos();
        let ghost hs = self@.propios + self@.externos;
        let mut r: Vec<Tunel> = Vec::new();
        let mut i: usize = 0;
        proof {
            assert(hs.take(0) =~= seq![]);
            assert(vistas_tuneles(r@) =~= seq![]);
        }
        while i < todos.len()
            invariant
                i <= todos@.len(),
                vistas_refs(todos@) == hs,
                vistas_tuneles(r@) == tuneles_de(hs.take(i as int)),
            decreases todos@.len() - i,
        {
            let h: &Host = todos[i];
            let mut ts = h.tuneles();
            let ghost antes = vistas_tuneles(r@);
            r.append(&mut ts);
            proof {
                let t = hs.take(i + 1);
                assert(t.drop_last() =~= hs.take(i as int));
                assert(t.last() == h@);
                assert(vistas_tuneles(r@) =~= antes + tuneles_de_host(h@));
            }
            i += 1;
        }
        proof {
            assert(hs.take(hs.len() as int) =~= hs);
        }
        r
    }

    /// El túnel con ese identificador.
    pub fn tunel(&self, id: &str) -> (r: Option<Tunel>)
        ensures
            match r {
                Some(t) => tunel_por_id(tuneles_de(self@.propios + self@.externos), id@) == Some(
                    t@,
                ),
                None => tunel_por_id(tuneles_de(self@.propios + self@.externos), id@) is None,
            },
    {
        let ts = self.tuneles();
        let ghost v = vistas_tuneles(ts@);
        let buscado = caracteres(id);
        let mut i: usize = 0;
        proof {
            assert(v.skip(0) =~= v);
        }
        while i < ts.len()
            invariant
                i <= ts@.len(),
                v == vistas_tuneles(ts@),
                v == tuneles_de(self@.propios + self@.externos),
                buscado@ == id@,
                tunel_por_id(v, id@) == tunel_por_id(v.skip(i as int), id@),
            decreases ts@.len() - i,
        {
            proof {
                assert(v.skip(i as int)[0] == ts@[i as int]@);
                assert(v.skip(i as int).drop_first() =~= v.skip(i + 1));
            }
            let propio = ts[i].id();
            let c = caracteres(propio.as_str());
            if iguales(c.as_slice(), buscado.as_slice()) {
                return Some(ts[i].duplicar());
            }
            i += 1;
        }
        None
    }

    /// Recalcula los hosts propios tras un cambio del documento y devuelve el
    /// texto que hay que volcar al fichero propio.
    pub fn guardar(&mut self) -> (texto: String)
        ensures
            texto@ == texto_doc(old(self)@.propio),
            final(self)@ == (CatalogoV {
                propios: hosts_de(old(self)@.propio.bloques, OrigenV::Propio),
                ..old(self)@
            }),
    {
        let texto = self.propio.a_texto();
        self.propios = self.propio.hosts(Origen::Propio);
        texto
    }

    /// Crea o actualiza un host en el fichero propio y devuelve el texto que
    /// hay que guardar. Un host ajeno no se puede redefinir aquí.
    pub fn guardar_host(&mut self, host: &Host) -> (r: Resultado<String>)
        ensures
            hay_alias(old(self)@.externos, host@.alias) ==> (r matches Err(Error::HostAjeno(a))
                && a@ == host@.alias) && *final(self) == *old(self),
            !hay_alias(old(self)@.externos, host@.alias) ==> match validacion(host@) {
                Err(m) => (r matches Err(e) && es_invalida(e, m)) && *final(self) == *old(self),
                Ok(_) => {
                    let d = documento_sincronizado(old(self)@.propio, host@);
                    &&& r matches Ok(t) && t@ == texto_doc(d)
                    &&& final(self)@ == (CatalogoV {
                        propio: d,
                        propios: hosts_de(d.bloques, OrigenV::Propio),
                        ..old(self)@
                    })
                },
            },
    {
        match tiene_alias(&self.externos, host.alias.as_str()) {
            Some(i) => {
                proof {
                    assert(vistas_hosts(self.externos@)[i as int] == self.externos@[i as int]@);
                }
                return Err(Error::HostAjeno(self.externos[i].alias.clone()));
            },
            None => {},
        }
        match crate::config::writer::sincronizar_host(&mut self.propio, host) {
            Err(e) => Err(e),
            Ok(_) => Ok(self.guardar()),
        }
    }

    /// Renombra un host del fichero propio y devuelve el texto que hay que
    /// guardar. El nombre nuevo no puede ser el de un host ajeno.
    pub fn renombrar_host(&mut self, antiguo: &str, nuevo: &str) -> (r: Resultado<String>)
        ensures
            hay_alias(old(self)@.externos, nuevo@) ==> (r matches Err(Error::HostDuplicado(n))
                && n@ == nuevo@) && *final(self) == *old(self),
            !hay_alias(old(self)@.externos, nuevo@) ==> if antiguo@ == nuevo@ {
                &&& r matches Ok(t) && t@ == texto_doc(old(self)@.propio)
                &&& final(self)@ == (CatalogoV {
                    propios: hosts_de(old(self)@.propio.bloques, OrigenV::Propio),
                    ..old(self)@
                })
            } else if crate::config::parser::posicion_de(old(self)@.propio.bloques, nuevo@) is Some {
                (r matches Err(Error::HostDuplicado(n)) && n@ == nuevo@) && *final(self) == *old(self)
            } else {
                match crate::config::parser::posicion_de(old(self)@.propio.bloques, antiguo@) {
                    None => (r matches Err(Error::HostDesconocido(n)) && n@ == antiguo@)
                        && *final(self) == *old(self),
                    Some(i) => {
                        let d = crate::config::writer::renombrado(old(self)@.propio, i, nuevo@);
                        &&& r matches Ok(t) && t@ == texto_doc(d)
                        &&& final(self)@ == (CatalogoV {
                            propio: d,
                            propios: hosts_de(d.bloques, OrigenV::Propio),
                            ..old(self)@
                        })
                    },
                }
            },
    {
        match tiene_alias(&self.externos, nuevo) {
            Some(i) => {
                proof {
                    assert(vistas_hosts(self.externos@)[i as int] == self.externos@[i as int]@);
                }
                return Err(Error::HostDuplicado(nuevo.to_string()));
            },
            None => {},
        }
        match crate::config::writer::renombrar_host(&mut self.propio, antiguo, nuevo) {
            Err(e) => Err(e),
            Ok(_) => Ok(self.guardar()),
        }
    }

    /// Elimina un host del fichero propio y devuelve el texto que hay que
    /// guardar.
    pub fn eliminar_host(&mut self, alias: &str) -> (r: Resultado<String>)
        ensures
            match crate::config::parser::posicion_de(old(self)@.propio.bloques, alias@) {
                Some(i) => {
                    let d = DocumentoV {
                        bloques: old(self)@.propio.bloques.remove(i),
                        ..old(self)@.propio
                    };
                    &&& r matches Ok(t) && t@ == texto_doc(d)
                    &&& final(self)@ == (CatalogoV {
                        propio: d,
                        propios: hosts_de(d.bloques, OrigenV::Propio),
                        ..old(self)@
                    })
                },
                None => (r matches Err(Error::HostDesconocido(n)) && n@ == alias@) && *final(self)
                    == *old(self),
            },
    {
        match crate::config::writer::eliminar_host(&mut self.propio, alias) {
            Err(e) => Err(e),
            Ok(_) => Ok(self.guardar()),
        }
    }
}

// --- Comodines de `Include` -----------------------------------------------------------

/// Coincidencia de comodines al estilo de la consola: `*` es cualquier tira
/// (vacía incluida) y `?` un carácter cualquiera.
pub open spec fn encaja(p: Seq<char>, t: Seq<char>) -> bool
    decreases p.len() + t.len(),
{
    if p.len() == 0 {
        t.len() == 0
    } else if p.last() == '*' {
        encaja(p.drop_last(), t) || (t.len() > 0 && encaja(p, t.drop_last()))
    } else if t.len() == 0 {
        false
    } else if p.last() == '?' {
        encaja(p.drop_last(), t.drop_last())
    } else {
        p.last() == t.last() && encaja(p.drop_last(), t.drop_last())
    }
}

/// Coincidencia de comodines al estilo de la consola: `*` y `?`.
///
/// Programación dinámica clásica, fila a fila: la fila `p` dice con qué
/// prefijos del texto encaja el prefijo de longitud `p` del patrón.
pub fn coincide(patron: &str, texto: &str) -> (r: bool)
    ensures
        r == encaja(patron@, texto@),
{
    let p = caracteres(patron);
    let t = caracteres(texto);
    let m = t.len();
    // Fila 0: el patrón vacío solo encaja con el texto vacío.
    let mut fila: Vec<bool> = Vec::new();
    fila.push(true);
    let mut k: usize = 0;
    proof {
        assert(t@.take(0) =~= seq![]);
    }
    while k < m
        invariant
            k <= m,
            m == t@.len(),
            fila@.len() == k + 1,
            forall|j: int| 0 <= j <= k ==> fila@[j] == encaja(seq![], #[trigger] t@.take(j)),
        decreases m - k,
    {
        fila.push(false);
        proof {
            assert(t@.take(k + 1).len() == k + 1);
        }
        k += 1;
    }
    let mut i: usize = 0;
    proof {
        assert(p@.take(0) =~= seq![]);
    }
    while i < p.len()
        invariant
            i <= p@.len(),
            m == t@.len(),
            fila@.len() == m + 1,
            forall|j: int|
                0 <= j <= m ==> fila@[j] == encaja(p@.take(i as int), #[trigger] t@.take(j)),
        decreases p@.len() - i,
    {
        let c = p[i];
        let ghost pp = p@.take(i + 1);
        proof {
            assert(pp.drop_last() =~= p@.take(i as int));
            assert(pp.last() == c);
            assert(t@.take(0) =~= seq![]);
        }
        let mut nueva: Vec<bool> = Vec::new();
        // Columna 0: solo un patrón hecho de asteriscos encaja con el vacío.
        let v0 = if c == '*' {
            fila[0]
        } else {
            false
        };
        proof {
            assert(fila@[0] == encaja(p@.take(i as int), t@.take(0)));
            assert(v0 == encaja(pp, t@.take(0)));
        }
        nueva.push(v0);
        let mut j: usize = 0;
        while j < m
            invariant
                j <= m,
                m == t@.len(),
                fila@.len() == m + 1,
                nueva@.len() == j + 1,
                pp == p@.take(i + 1),
                pp.drop_last() == p@.take(i as int),
                pp.last() == c,
                pp.len() > 0,
                forall|x: int|
                    0 <= x <= m ==> fila@[x] == encaja(p@.take(i as int), #[trigger] t@.take(x)),
                forall|x: int| 0 <= x <= j ==> nueva@[x] == encaja(pp, #[trigger] t@.take(x)),
            decreases m - j,
        {
            let ghost tt = t@.take(j + 1);
            proof {
                assert(tt.drop_last() =~= t@.take(j as int));
                assert(tt.last() == t@[j as int]);
            }
            let v = if c == '*' {
                fila[j + 1] || nueva[j]
            } else if c == '?' {
                fila[j]
            } else {
                fila[j] && c == t[j]
            };
            proof {
                assert(fila@[j + 1] == encaja(p@.take(i as int), t@.take(j + 1)));
                assert(fila@[j as int] == encaja(p@.take(i as int), t@.take(j as int)));
                assert(nueva@[j as int] == encaja(pp, t@.take(j as int)));
                assert(v == encaja(pp, tt));
            }
            nueva.push(v);
            j += 1;
        }
        fila = nueva;
        i += 1;
    }
    proof {
        assert(p@.take(p@.len() as int) =~= p@);
        assert(t@.take(m as int) =~= t@);
    }
    fila[m]
}

} // verus!
