//! Alta y edición de un host con sus reenvíos.
//!
//! El formulario valida **antes** de escribir nada: puerto ocupado, puerto
//! privilegiado sin capacidad, alias con comodines, dos reenvíos en el mismo
//! puerto. Descubrir eso al pulsar «levantar» y no al guardar convierte un aviso
//! claro en un fallo confuso tres pantallas más tarde.
//!
//! Aquí está el estado del formulario y cómo se convierte en un host; pintarlo
//! y sondear los puertos queda fuera de la biblioteca.

use vstd::prelude::*;

use crate::modelo::{
    escucha_en_local, expuesto, validacion, vista_opcional, vistas_reenvios, Extremo, ExtremoV,
    Host, HostV, OrigenV, Reenvio, ReenvioV, Salud, SaludV, TipoReenvio,
};
use crate::texto::{
    anexar, anexar_str, cadena, caracteres, decimal, en_decimal, juntar_cadenas, leer_u16,
    recortado, recortar, recortar_str, trocear, trozos, unidos, valor_u16, vistas, vistas_vec,
};

verus! {

broadcast use vstd::string::group_string_axioms;

/// Una fila de reenvío en el formulario, con los campos como texto.
///
/// Se guardan como texto y no como números para que el usuario pueda borrar el
/// contenido de un campo sin que salte a cero mientras escribe.
#[derive(Debug)]
pub struct FilaReenvio {
    pub tipo: TipoReenvio,
    pub direccion_escucha: String,
    pub puerto_escucha: String,
    pub host_destino: String,
    pub puerto_destino: String,
    /// Cómo comprobar que el túnel transporta de verdad.
    pub salud: Salud,
    /// Ruta de la comprobación HTTP. Se guarda aparte para que no se pierda al
    /// cambiar de tipo de sonda y volver.
    pub ruta_http: String,
}

pub struct FilaReenvioV {
    pub tipo: TipoReenvio,
    pub direccion_escucha: Seq<char>,
    pub puerto_escucha: Seq<char>,
    pub host_destino: Seq<char>,
    pub puerto_destino: Seq<char>,
    pub salud: SaludV,
    pub ruta_http: Seq<char>,
}

impl View for FilaReenvio {
    type V = FilaReenvioV;

    open spec fn view(&self) -> FilaReenvioV {
        FilaReenvioV {
            tipo: self.tipo,
            direccion_escucha: self.direccion_escucha@,
            puerto_escucha: self.puerto_escucha@,
            host_destino: self.host_destino@,
            puerto_destino: self.puerto_destino@,
            salud: self.salud@,
            ruta_http: self.ruta_http@,
        }
    }
}

/// `None` si el texto está vacío.
pub open spec fn no_vacio(s: Seq<char>) -> Option<Seq<char>> {
    if s.len() == 0 {
        None
    } else {
        Some(s)
    }
}

/// La fila que muestra un reenvío ya definido.
pub open spec fn fila_de(r: ReenvioV) -> FilaReenvioV {
    FilaReenvioV {
        tipo: r.tipo,
        direccion_escucha: match r.escucha.direccion {
            Some(d) => d,
            None => seq![],
        },
        puerto_escucha: decimal(r.escucha.puerto as nat),
        host_destino: match r.destino {
            Some(d) => match d.direccion {
                Some(x) => x,
                None => seq![],
            },
            None => seq![],
        },
        puerto_destino: match r.destino {
            Some(d) => decimal(d.puerto as nat),
            None => seq![],
        },
        salud: r.salud,
        ruta_http: match r.salud {
            SaludV::Http { ruta } => ruta,
            _ => "/"@,
        },
    }
}

/// Salud efectiva de una fila: si es una sonda HTTP, con la ruta del campo
/// aparte, recortada, o `/` si está vacía.
pub open spec fn salud_efectiva_de(f: FilaReenvioV) -> SaludV {
    match f.salud {
        SaludV::Http { .. } => SaludV::Http {
            ruta: if recortado(f.ruta_http).len() == 0 {
                "/"@
            } else {
                recortado(f.ruta_http)
            },
        },
        otra => otra,
    }
}

/// El reenvío que describe una fila, o por qué no se puede construir.
pub open spec fn reenvio_de_fila(f: FilaReenvioV) -> Result<ReenvioV, Seq<char>> {
    let pe = recortado(f.puerto_escucha);
    match valor_u16(pe) {
        None => Err("«"@ + pe + "» no es un puerto válido"@),
        Some(p) => if p == 0 {
            Err("el puerto 0 no es válido"@)
        } else {
            let escucha = ExtremoV { direccion: no_vacio(recortado(f.direccion_escucha)), puerto: p };
            if f.tipo == TipoReenvio::Dinamico {
                // Un proxy SOCKS no habla HTTP ni saluda: sondearlo con esas
                // comprobaciones daría un falso zombi permanente.
                Ok(
                    ReenvioV {
                        tipo: f.tipo,
                        escucha,
                        destino: None,
                        salud: SaludV::Escucha,
                        nombre: None,
                    },
                )
            } else {
                let host = recortado(f.host_destino);
                let pd = recortado(f.puerto_destino);
                if host.len() == 0 {
                    Err("falta el host de destino"@)
                } else {
                    match valor_u16(pd) {
                        None => Err("«"@ + pd + "» no es un puerto válido"@),
                        Some(q) => if q == 0 {
                            Err("el puerto de destino no puede ser 0"@)
                        } else {
                            Ok(
                                ReenvioV {
                                    tipo: f.tipo,
                                    escucha,
                                    destino: Some(ExtremoV { direccion: Some(host), puerto: q }),
                                    // Un reenvío remoto escucha en la otra punta:
                                    // desde aquí no hay nada que sondear.
                                    salud: if f.tipo == TipoReenvio::Local {
                                        salud_efectiva_de(f)
                                    } else {
                                        SaludV::Escucha
                                    },
                                    nombre: None,
                                },
                            )
                        },
                    }
                }
            }
        },
    }
}

fn opcional_recortado(s: &str) -> (r: Option<String>)
    ensures
        vista_opcional(r) == no_vacio(recortado(s@)),
{
    let t = recortar_str(s);
    if t.len() == 0 {
        None
    } else {
        Some(cadena(t.as_slice()))
    }
}

fn puerto_invalido(texto: &[char]) -> (r: String)
    ensures
        r@ == "«"@ + texto@ + "» no es un puerto válido"@,
{
    let mut c = caracteres("«");
    anexar(&mut c, texto);
    anexar_str(&mut c, "» no es un puerto válido");
    cadena(c.as_slice())
}

impl FilaReenvio {
    /// Vista de la fila vacía.
    pub open spec fn nueva_v() -> FilaReenvioV {
        FilaReenvioV {
            tipo: TipoReenvio::Local,
            direccion_escucha: seq![],
            puerto_escucha: seq![],
            host_destino: "localhost"@,
            puerto_destino: seq![],
            salud: SaludV::Escucha,
            ruta_http: "/"@,
        }
    }

    /// La fila que muestra un reenvío ya definido.
    pub fn de(reenvio: &Reenvio) -> (r: FilaReenvio)
        ensures
            r@ == fila_de(reenvio@),
    {
        FilaReenvio {
            tipo: reenvio.tipo,
            direccion_escucha: match &reenvio.escucha.direccion {
                Some(d) => d.clone(),
                None => String::new(),
            },
            puerto_escucha: crate::texto::decimal_cadena(reenvio.escucha.puerto as u64),
            host_destino: match &reenvio.destino {
                Some(d) => match &d.direccion {
                    Some(x) => x.clone(),
                    None => String::new(),
                },
                None => String::new(),
            },
            puerto_destino: match &reenvio.destino {
                Some(d) => crate::texto::decimal_cadena(d.puerto as u64),
                None => String::new(),
            },
            ruta_http: match &reenvio.salud {
                Salud::Http { ruta } => ruta.clone(),
                _ => "/".to_string(),
            },
            salud: reenvio.salud.duplicar(),
        }
    }

    /// Una fila vacía: reenvío local hacia `localhost`, comprobación básica.
    pub fn nueva() -> (r: FilaReenvio)
        ensures
            r@ == FilaReenvio::nueva_v(),
    {
        FilaReenvio {
            tipo: TipoReenvio::Local,
            direccion_escucha: String::new(),
            puerto_escucha: String::new(),
            host_destino: "localhost".to_string(),
            puerto_destino: String::new(),
            salud: Salud::Escucha,
            ruta_http: "/".to_string(),
        }
    }

    /// Salud efectiva, con la ruta del campo aparte si es una sonda HTTP.
    pub fn salud_efectiva(&self) -> (r: Salud)
        ensures
            r@ == salud_efectiva_de(self@),
    {
        match &self.salud {
            Salud::Http { .. } => {
                let t = recortar_str(self.ruta_http.as_str());
                Salud::Http {
                    ruta: if t.len() == 0 {
                        "/".to_string()
                    } else {
                        cadena(t.as_slice())
                    },
                }
            },
            otra => otra.duplicar(),
        }
    }

    /// Convierte la fila en un reenvío, o explica por qué no se puede.
    pub fn a_reenvio(&self) -> (r: Result<Reenvio, String>)
        ensures
            match (r, reenvio_de_fila(self@)) {
                (Ok(a), Ok(b)) => a@ == b,
                (Err(e), Err(m)) => e@ == m,
                _ => false,
            },
    {
        let pe = recortar_str(self.puerto_escucha.as_str());
        let puerto_escucha = match leer_u16(pe.as_slice()) {
            Some(p) => p,
            None => {
                return Err(puerto_invalido(pe.as_slice()));
            },
        };
        if puerto_escucha == 0 {
            return Err("el puerto 0 no es válido".to_string());
        }
        let escucha = Extremo {
            direccion: opcional_recortado(self.direccion_escucha.as_str()),
            puerto: puerto_escucha,
        };
        if self.tipo == TipoReenvio::Dinamico {
            return Ok(
                Reenvio {
                    tipo: self.tipo,
                    escucha,
                    destino: None,
                    salud: Salud::Escucha,
                    nombre: None,
                },
            );
        }
        let host = recortar_str(self.host_destino.as_str());
        if host.len() == 0 {
            return Err("falta el host de destino".to_string());
        }
        let pd = recortar_str(self.puerto_destino.as_str());
        let puerto_destino = match leer_u16(pd.as_slice()) {
            Some(p) => p,
            None => {
                return Err(puerto_invalido(pd.as_slice()));
            },
        };
        if puerto_destino == 0 {
            return Err("el puerto de destino no puede ser 0".to_string());
        }
        let nombre_host = cadena(host.as_slice());
        let salud = if self.tipo == TipoReenvio::Local {
            self.salud_efectiva()
        } else {
            Salud::Escucha
        };
        Ok(
            Reenvio {
                tipo: self.tipo,
                escucha,
                destino: Some(Extremo::nuevo(nombre_host.as_str(), puerto_destino)),
                salud,
                nombre: None,
            },
        )
    }
}

/// Estado del formulario.
#[derive(Debug)]
pub struct EstadoEditor {
    /// Alias original; `None` si es un host nuevo.
    pub original: Option<String>,
    pub alias: String,
    pub hostname: String,
    pub usuario: String,
    pub puerto: String,
    pub saltos: String,
    pub identidad: String,
    pub nota: String,
    pub reenvios: Vec<FilaReenvio>,
    /// Errores de validación, uno por línea.
    pub errores: Vec<String>,
    /// Avisos que no impiden guardar.
    pub avisos: Vec<String>,
}

pub struct EstadoEditorV {
    pub original: Option<Seq<char>>,
    pub alias: Seq<char>,
    pub hostname: Seq<char>,
    pub usuario: Seq<char>,
    pub puerto: Seq<char>,
    pub saltos: Seq<char>,
    pub identidad: Seq<char>,
    pub nota: Seq<char>,
    pub reenvios: Seq<FilaReenvioV>,
    pub errores: Seq<Seq<char>>,
    pub avisos: Seq<Seq<char>>,
}

pub open spec fn vistas_filas(v: Seq<FilaReenvio>) -> Seq<FilaReenvioV> {
    v.map_values(|f: FilaReenvio| f@)
}

impl View for EstadoEditor {
    type V = EstadoEditorV;

    open spec fn view(&self) -> EstadoEditorV {
        EstadoEditorV {
            original: vista_opcional(self.original),
            alias: self.alias@,
            hostname: self.hostname@,
            usuario: self.usuario@,
            puerto: self.puerto@,
            saltos: self.saltos@,
            identidad: self.identidad@,
            nota: self.nota@,
            reenvios: vistas_filas(self.reenvios@),
            errores: vistas(self.errores@),
            avisos: vistas(self.avisos@),
        }
    }
}

/// El puerto SSH del formulario: vacío es «el de por defecto»; si no, un
/// número entre 1 y 65535.
pub open spec fn puerto_de_formulario(p: Seq<char>) -> Option<u16> {
    let t = recortado(p);
    if t.len() == 0 {
        None
    } else {
        match valor_u16(t) {
            Some(x) => if x > 0 {
                Some(x)
            } else {
                None
            },
            None => None,
        }
    }
}

/// El error del puerto SSH, si lo tiene.
pub open spec fn errores_de_puerto(p: Seq<char>) -> Seq<Seq<char>> {
    let t = recortado(p);
    if t.len() > 0 && puerto_de_formulario(p) is None {
        seq!["«"@ + t + "» no es un puerto SSH válido"@]
    } else {
        seq![]
    }
}

/// Las máquinas de salto: los trozos separados por comas, recortados y sin
/// los vacíos.
pub open spec fn saltos_de(ts: Seq<Seq<char>>) -> Seq<Seq<char>>
    decreases ts.len(),
{
    if ts.len() == 0 {
        seq![]
    } else if recortado(ts.last()).len() == 0 {
        saltos_de(ts.drop_last())
    } else {
        saltos_de(ts.drop_last()).push(recortado(ts.last()))
    }
}

/// Los reenvíos que salen bien de las filas, en orden.
pub open spec fn reenvios_de_filas(fs: Seq<FilaReenvioV>) -> Seq<ReenvioV>
    decreases fs.len(),
{
    if fs.len() == 0 {
        seq![]
    } else {
        match reenvio_de_fila(fs.last()) {
            Ok(r) => reenvios_de_filas(fs.drop_last()).push(r),
            Err(_) => reenvios_de_filas(fs.drop_last()),
        }
    }
}

/// Los errores de las filas, numerados desde 1.
pub open spec fn errores_de_filas(fs: Seq<FilaReenvioV>) -> Seq<Seq<char>>
    decreases fs.len(),
{
    if fs.len() == 0 {
        seq![]
    } else {
        match reenvio_de_fila(fs.last()) {
            Ok(_) => errores_de_filas(fs.drop_last()),
            Err(m) => errores_de_filas(fs.drop_last()).push(
                "Reenvío "@ + decimal(fs.len()) + ": "@ + m,
            ),
        }
    }
}

/// El host que describe el formulario.
pub open spec fn host_de_formulario(e: EstadoEditorV) -> HostV {
    HostV {
        alias: recortado(e.alias),
        hostname: no_vacio(recortado(e.hostname)),
        usuario: no_vacio(recortado(e.usuario)),
        puerto: puerto_de_formulario(e.puerto),
        saltos: saltos_de(trozos(e.saltos, ',')),
        identidades: if recortado(e.identidad).len() == 0 {
            seq![]
        } else {
            seq![recortado(e.identidad)]
        },
        reenvios: reenvios_de_filas(e.reenvios),
        origen: OrigenV::Propio,
        nota: no_vacio(recortado(e.nota)),
    }
}

/// Los errores del formulario, en el orden en que se descubren.
pub open spec fn errores_de_formulario(e: EstadoEditorV) -> Seq<Seq<char>> {
    let campos = errores_de_puerto(e.puerto) + errores_de_filas(e.reenvios);
    let con_reenvios = if reenvios_de_filas(e.reenvios).len() == 0 && campos.len() == 0 {
        campos.push("Hay que definir al menos un reenvío"@)
    } else {
        campos
    };
    match validacion(host_de_formulario(e)) {
        Err(m) => con_reenvios.push("definición de túnel no válida: "@ + m),
        Ok(()) => con_reenvios,
    }
}

pub open spec fn aviso_privilegiado(puerto: u16, orden: Seq<char>) -> Seq<char> {
    "El puerto "@ + decimal(puerto as nat)
        + " es privilegiado y este proceso no tiene CAP_NET_BIND_SERVICE. Concédela con:\n    "@
        + orden
}

pub open spec fn aviso_expuesto(puerto: u16) -> Seq<char> {
    "El reenvío del puerto "@ + decimal(puerto as nat)
        + " escucha en todas las interfaces: cualquiera de tu red podrá usarlo."@
}

/// Avisos de los `n` primeros reenvíos: un puerto privilegiado sin la
/// capacidad, o si no, lo que se sabe de que esté ocupado (`ocupacion`, uno
/// por reenvío); y una escucha abierta a toda la red. Los reenvíos que no
/// escuchan aquí no dan avisos.
pub open spec fn avisos_hasta(
    rs: Seq<ReenvioV>,
    puede: bool,
    orden: Seq<char>,
    ocupacion: Seq<Option<Seq<char>>>,
    n: nat,
) -> Seq<Seq<char>>
    decreases n,
{
    if n == 0 {
        seq![]
    } else {
        let previos = avisos_hasta(rs, puede, orden, ocupacion, (n - 1) as nat);
        let r = rs[n - 1];
        let p = r.escucha.puerto;
        if !escucha_en_local(r.tipo) {
            previos
        } else {
            let con_puerto = if p < 1024 && !puede {
                previos.push(aviso_privilegiado(p, orden))
            } else if n - 1 < ocupacion.len() && ocupacion[n - 1] is Some {
                previos.push(ocupacion[n - 1]->0)
            } else {
                previos
            };
            if expuesto(r.escucha) {
                con_puerto.push(aviso_expuesto(p))
            } else {
                con_puerto
            }
        }
    }
}

pub open spec fn vistas_ocupacion(v: Seq<Option<String>>) -> Seq<Option<Seq<char>>> {
    v.map_values(|o: Option<String>| vista_opcional(o))
}

fn saltos_de_texto(texto: &str) -> (r: Vec<String>)
    ensures
        vistas(r@) == saltos_de(trozos(texto@, ',')),
{
    let c = caracteres(texto);
    let partes = trocear(c.as_slice(), ',');
    let ghost ts = trozos(texto@, ',');
    let mut r: Vec<String> = Vec::new();
    let mut i: usize = 0;
    proof {
        assert(ts.take(0) =~= seq![]);
    }
    while i < partes.len()
        invariant
            i <= partes@.len(),
            vistas_vec(partes@) == ts,
            ts == trozos(texto@, ','),
            vistas(r@) == saltos_de(ts.take(i as int)),
        decreases partes@.len() - i,
    {
        proof {
            assert(ts.take(i + 1).drop_last() =~= ts.take(i as int));
            assert(ts.take(i + 1).last() == partes@[i as int]@);
        }
        let t = recortar(partes[i].as_slice());
        if t.len() > 0 {
            let ghost antes = r@;
            r.push(cadena(t.as_slice()));
            proof {
                assert(vistas(r@) =~= vistas(antes).push(recortado(partes@[i as int]@)));
            }
        }
        i += 1;
    }
    proof {
        assert(ts.take(partes@.len() as int) =~= ts);
    }
    r
}

impl EstadoEditor {
    /// Formulario vacío para un host nuevo, con una fila de reenvío.
    pub fn nuevo() -> (r: EstadoEditor)
        ensures
            r@.original is None,
            r@.alias.len() == 0,
            r@.hostname.len() == 0,
            r@.usuario.len() == 0,
            r@.puerto.len() == 0,
            r@.saltos.len() == 0,
            r@.identidad.len() == 0,
            r@.nota.len() == 0,
            r@.reenvios == seq![FilaReenvio::nueva_v()],
            r@.errores.len() == 0,
            r@.avisos.len() == 0,
    {
        let mut reenvios: Vec<FilaReenvio> = Vec::new();
        reenvios.push(FilaReenvio::nueva());
        let r = EstadoEditor {
            original: None,
            alias: String::new(),
            hostname: String::new(),
            usuario: String::new(),
            puerto: String::new(),
            saltos: String::new(),
            identidad: String::new(),
            nota: String::new(),
            reenvios,
            errores: Vec::new(),
            avisos: Vec::new(),
        };
        proof {
            assert(r@.reenvios =~= seq![FilaReenvio::nueva_v()]);
            assert(r@.errores =~= seq![]);
            assert(r@.avisos =~= seq![]);
        }
        r
    }

    /// El formulario con los datos de un host existente.
    pub fn de(host: &Host) -> (r: EstadoEditor)
        ensures
            r@.original == Some(host@.alias),
            r@.alias == host@.alias,
            r@.hostname == match host@.hostname {
                Some(h) => h,
                None => seq![],
            },
            r@.usuario == match host@.usuario {
                Some(u) => u,
                None => seq![],
            },
            r@.puerto == match host@.puerto {
                Some(p) => decimal(p as nat),
                None => seq![],
            },
            r@.saltos == unidos(host@.saltos, ", "@),
            r@.identidad == if host@.identidades.len() > 0 {
                host@.identidades[0]
            } else {
                seq![]
            },
            r@.nota == match host@.nota {
                Some(n) => n,
                None => seq![],
            },
            r@.reenvios == if host@.reenvios.len() == 0 {
                seq![FilaReenvio::nueva_v()]
            } else {
                host@.reenvios.map_values(|x: ReenvioV| fila_de(x))
            },
            r@.errores.len() == 0,
            r@.avisos.len() == 0,
    {
        let mut reenvios: Vec<FilaReenvio> = Vec::new();
        if host.reenvios.len() == 0 {
            reenvios.push(FilaReenvio::nueva());
            proof {
                assert(vistas_filas(reenvios@) =~= seq![FilaReenvio::nueva_v()]);
            }
        } else {
            let mut i: usize = 0;
            while i < host.reenvios.len()
                invariant
                    i <= host.reenvios@.len(),
                    vistas_filas(reenvios@) == vistas_reenvios(host.reenvios@).take(
                        i as int,
                    ).map_values(|x: ReenvioV| fila_de(x)),
                decreases host.reenvios@.len() - i,
            {
                let ghost antes = reenvios@;
                let fila = FilaReenvio::de(&host.reenvios[i]);
                reenvios.push(fila);
                proof {
                    let t = vistas_reenvios(host.reenvios@);
                    assert(t.take(i + 1) =~= t.take(i as int).push(host.reenvios@[i as int]@));
                    assert(t.take(i + 1).map_values(|x: ReenvioV| fila_de(x)) =~= t.take(
                        i as int,
                    ).map_values(|x: ReenvioV| fila_de(x)).push(fila_de(host.reenvios@[i as int]@)));
                    assert(vistas_filas(reenvios@) =~= vistas_filas(antes).push(fila@));
                }
                i += 1;
            }
            proof {
                assert(vistas_reenvios(host.reenvios@).take(host.reenvios@.len() as int)
                    =~= vistas_reenvios(host.reenvios@));
            }
        }
        let separador = caracteres(", ");
        let saltos = juntar_cadenas(host.saltos.as_slice(), separador.as_slice());
        let r = EstadoEditor {
            original: Some(host.alias.clone()),
            alias: host.alias.clone(),
            hostname: match &host.hostname {
                Some(h) => h.clone(),
                None => String::new(),
            },
            usuario: match &host.usuario {
                Some(u) => u.clone(),
                None => String::new(),
            },
            puerto: match host.puerto {
                Some(p) => crate::texto::decimal_cadena(p as u64),
                None => String::new(),
            },
            saltos: cadena(saltos.as_slice()),
            identidad: if host.identidades.len() > 0 {
                host.identidades[0].clone()
            } else {
                String::new()
            },
            nota: match &host.nota {
                Some(n) => n.clone(),
                None => String::new(),
            },
            reenvios,
            errores: Vec::new(),
            avisos: Vec::new(),
        };
        proof {
            assert(r@.errores =~= seq![]);
            assert(r@.avisos =~= seq![]);
        }
        r
    }

    /// Título del formulario.
    pub fn titulo(&self) -> (r: String)
        ensures
            r@ == match self@.original {
                Some(a) => "Editar «"@ + a + "»"@,
                None => "Nuevo túnel"@,
            },
    {
        match &self.original {
            Some(alias) => {
                let mut c = caracteres("Editar «");
                anexar_str(&mut c, alias.as_str());
                anexar_str(&mut c, "»");
                cadena(c.as_slice())
            },
            None => "Nuevo túnel".to_string(),
        }
    }

    /// El host que describe el formulario y sus errores, sin avisos.
    pub fn borrador(&self) -> (r: (Host, Vec<String>))
        ensures
            r.0@ == host_de_formulario(self@),
            vistas(r.1@) == errores_de_formulario(self@),
    {
        let mut errores: Vec<String> = Vec::new();
        let alias = recortar_str(self.alias.as_str());
        let nombre = cadena(alias.as_slice());
        let mut host = Host::nuevo(nombre.as_str());
        host.hostname = opcional_recortado(self.hostname.as_str());
        host.usuario = opcional_recortado(self.usuario.as_str());
        host.nota = opcional_recortado(self.nota.as_str());

        let p = recortar_str(self.puerto.as_str());
        if p.len() > 0 {
            match leer_u16(p.as_slice()) {
                Some(x) => {
                    if x > 0 {
                        host.puerto = Some(x);
                    } else {
                        errores.push(puerto_ssh_invalido(p.as_slice()));
                    }
                },
                None => {
                    errores.push(puerto_ssh_invalido(p.as_slice()));
                },
            }
        }
        proof {
            assert(vistas(errores@) =~= errores_de_puerto(self@.puerto));
        }

        host.saltos = saltos_de_texto(self.saltos.as_str());

        let identidad = recortar_str(self.identidad.as_str());
        if identidad.len() > 0 {
            host.identidades.push(cadena(identidad.as_slice()));
        }
        proof {
            assert(vistas(host.identidades@) =~= host_de_formulario(self@).identidades);
        }

        let ghost fs = vistas_filas(self.reenvios@);
        let ghost errores_previos = vistas(errores@);
        let mut i: usize = 0;
        proof {
            assert(fs.take(0) =~= seq![]);
            assert(vistas_reenvios(host.reenvios@) =~= seq![]);
        }
        while i < self.reenvios.len()
            invariant
                i <= self.reenvios@.len(),
                fs == vistas_filas(self.reenvios@),
                vistas_reenvios(host.reenvios@) == reenvios_de_filas(fs.take(i as int)),
                vistas(errores@) == errores_previos + errores_de_filas(fs.take(i as int)),
                host@.alias == host_de_formulario(self@).alias,
                host@.hostname == host_de_formulario(self@).hostname,
                host@.usuario == host_de_formulario(self@).usuario,
                host@.puerto == host_de_formulario(self@).puerto,
                host@.saltos == host_de_formulario(self@).saltos,
                host@.identidades == host_de_formulario(self@).identidades,
                host@.origen == OrigenV::Propio,
                host@.nota == host_de_formulario(self@).nota,
            decreases self.reenvios@.len() - i,
        {
            proof {
                assert(fs.take(i + 1).drop_last() =~= fs.take(i as int));
                assert(fs.take(i + 1).last() == self.reenvios@[i as int]@);
                assert(fs.take(i + 1).len() == i + 1);
            }
            match self.reenvios[i].a_reenvio() {
                Ok(reenvio) => {
                    let ghost antes = host.reenvios@;
                    host.reenvios.push(reenvio);
                    proof {
                        assert(vistas_reenvios(host.reenvios@) =~= vistas_reenvios(antes).push(
                            reenvio@,
                        ));
                        assert(vistas(errores@) =~= errores_previos + errores_de_filas(
                            fs.take(i + 1),
                        ));
                    }
                },
                Err(motivo) => {
                    let mut c = caracteres("Reenvío ");
                    let d = en_decimal((i + 1) as u64);
                    anexar(&mut c, d.as_slice());
                    anexar_str(&mut c, ": ");
                    anexar_str(&mut c, motivo.as_str());
                    let ghost antes = errores@;
                    errores.push(cadena(c.as_slice()));
                    proof {
                        assert(vistas(errores@) =~= vistas(antes).push(c@));
                        assert(vistas(errores@) =~= errores_previos + errores_de_filas(
                            fs.take(i + 1),
                        ));
                    }
                },
            }
            i += 1;
        }
        proof {
            assert(fs.take(fs.len() as int) =~= fs);
            assert(host@ =~= host_de_formulario(self@));
        }
        if host.reenvios.len() == 0 && errores.len() == 0 {
            errores.push("Hay que definir al menos un reenvío".to_string());
        }
        match host.validar() {
            Err(e) => {
                errores.push(e.mensaje());
            },
            Ok(()) => {},
        }
        proof {
            assert(vistas(errores@) =~= errores_de_formulario(self@));
        }
        (host, errores)
    }

    /// Construye el host a partir del formulario, dejando en `errores` lo que
    /// impide guardarlo y en `avisos` lo que conviene ver ahora y no cuando
    /// falle la conexión.
    ///
    /// `puede_privilegiados` dice si el proceso puede abrir puertos por debajo
    /// de 1024, `orden_capacidad` es la orden que concede la capacidad y
    /// `ocupacion` lleva, por cada reenvío del borrador, por qué su puerto no
    /// está libre, si no lo está.
    pub fn construir(
        &mut self,
        puede_privilegiados: bool,
        orden_capacidad: &str,
        ocupacion: &Vec<Option<String>>,
    ) -> (r: Option<Host>)
        ensures
            final(self)@ == (EstadoEditorV {
                errores: errores_de_formulario(old(self)@),
                avisos: avisos_hasta(
                    host_de_formulario(old(self)@).reenvios,
                    puede_privilegiados,
                    orden_capacidad@,
                    vistas_ocupacion(ocupacion@),
                    host_de_formulario(old(self)@).reenvios.len(),
                ),
                ..old(self)@
            }),
            match r {
                Some(h) => h@ == host_de_formulario(old(self)@) && errores_de_formulario(
                    old(self)@,
                ).len() == 0,
                None => errores_de_formulario(old(self)@).len() > 0,
            },
    {
        let (host, errores) = self.borrador();
        let ghost rs = vistas_reenvios(host.reenvios@);
        let ghost oc = vistas_ocupacion(ocupacion@);
        let mut avisos: Vec<String> = Vec::new();
        let mut i: usize = 0;
        while i < host.reenvios.len()
            invariant
                i <= host.reenvios@.len(),
                rs == vistas_reenvios(host.reenvios@),
                oc == vistas_ocupacion(ocupacion@),
                vistas(avisos@) == avisos_hasta(rs, puede_privilegiados, orden_capacidad@, oc, i as nat),
            decreases host.reenvios@.len() - i,
        {
            let reenvio = &host.reenvios[i];
            proof {
                assert(rs[i as int] == reenvio@);
            }
            let ghost antes = avisos@;
            if reenvio.tipo.escucha_en_local() {
                let puerto = reenvio.escucha.puerto;
                if puerto < 1024 && !puede_privilegiados {
                    let mut c = caracteres("El puerto ");
                    let d = en_decimal(puerto as u64);
                    anexar(&mut c, d.as_slice());
                    anexar_str(
                        &mut c,
                        " es privilegiado y este proceso no tiene CAP_NET_BIND_SERVICE. Concédela con:\n    ",
                    );
                    anexar_str(&mut c, orden_capacidad);
                    avisos.push(cadena(c.as_slice()));
                } else if i < ocupacion.len() {
                    match &ocupacion[i] {
                        Some(m) => {
                            proof {
                                assert(oc[i as int] == Some(m@));
                            }
                            avisos.push(m.clone());
                        },
                        None => {
                            proof {
                                assert(oc[i as int] is None);
                            }
                        },
                    }
                }
                let ghost medio = avisos@;
                if reenvio.escucha.expuesto() {
                    let mut c = caracteres("El reenvío del puerto ");
                    let d = en_decimal(puerto as u64);
                    anexar(&mut c, d.as_slice());
                    anexar_str(
                        &mut c,
                        " escucha en todas las interfaces: cualquiera de tu red podrá usarlo.",
                    );
                    avisos.push(cadena(c.as_slice()));
                }
                proof {
                    assert(vistas(avisos@) =~= avisos_hasta(
                        rs,
                        puede_privilegiados,
                        orden_capacidad@,
                        oc,
                        (i + 1) as nat,
                    ));
                }
            } else {
                proof {
                    assert(vistas(avisos@) =~= avisos_hasta(
                        rs,
                        puede_privilegiados,
                        orden_capacidad@,
                        oc,
                        (i + 1) as nat,
                    ));
                }
            }
            i += 1;
        }
        let valido = errores.len() == 0;
        self.errores = errores;
        self.avisos = avisos;
        if valido {
            Some(host)
        } else {
            None
        }
    }
}

fn puerto_ssh_invalido(texto: &[char]) -> (r: String)
    ensures
        r@ == "«"@ + texto@ + "» no es un puerto SSH válido"@,
{
    let mut c = caracteres("«");
    anexar(&mut c, texto);
    anexar_str(&mut c, "» no es un puerto SSH válido");
    cadena(c.as_slice())
}

} // verus!
