//! Errores de la biblioteca.
//!
//! Todos los mensajes en español y orientados a que la interfaz los pueda
//! mostrar tal cual. Las rutas y los errores del sistema llegan ya como texto:
//! la biblioteca no toca el disco.

use vstd::prelude::*;

verus! {

pub type Resultado<T> = Result<T, Error>;

#[derive(Debug)]
pub enum Error {
    Lectura { ruta: String, origen: String },
    Escritura { ruta: String, origen: String },
    Io(String),
    Sintaxis { ruta: String, linea: usize, motivo: String },
    TunelDesconocido(String),
    HostDesconocido(String),
    HostDuplicado(String),
    HostAjeno(String),
    EjecutableAusente(String),
    TiempoAgotado { orden: String, segundos: u64 },
    OrdenFallida { orden: String, codigo: i32, salida: String },
    PuertoOcupado { puerto: u16, ocupante: Option<String> },
    PuertoPrivilegiado { puerto: u16 },
    DefinicionInvalida(String),
    MaestroInactivo(String),
    BaseDeDatos(String),
    Secretos(String),
    Cancelada,
    RutaIndeterminada(String),
    AliasInvisible { alias: String },
}

/// `e` es una definición no válida con ese mensaje.
pub open spec fn es_invalida(e: Error, m: Seq<char>) -> bool {
    e matches Error::DefinicionInvalida(x) && x@ == m
}

/// El resultado ejecutable coincide con el del modelo: el mismo valor en caso
/// de éxito, o una definición no válida con el mismo mensaje.
pub open spec fn coincide<T: View>(r: Result<T, Error>, m: Result<T::V, Seq<char>>) -> bool {
    match (r, m) {
        (Ok(a), Ok(b)) => a@ == b,
        (Err(e), Err(msg)) => es_invalida(e, msg),
        _ => false,
    }
}

impl Error {
    /// Error de lectura con la ruta anotada, para no perder el contexto.
    pub fn leyendo(ruta: &str, origen: &str) -> (e: Error)
        ensures
            e matches Error::Lectura { ruta: r, origen: o } && r@ == ruta@ && o@ == origen@,
    {
        Error::Lectura { ruta: ruta.to_owned(), origen: origen.to_owned() }
    }

    /// Error de escritura con la ruta anotada.
    pub fn escribiendo(ruta: &str, origen: &str) -> (e: Error)
        ensures
            e matches Error::Escritura { ruta: r, origen: o } && r@ == ruta@ && o@ == origen@,
    {
        Error::Escritura { ruta: ruta.to_owned(), origen: origen.to_owned() }
    }
}

/// Una definición no válida con ese texto.
pub fn invalida(m: Vec<char>) -> (e: Error)
    ensures
        es_invalida(e, m@),
{
    Error::DefinicionInvalida(crate::texto::cadena(m.as_slice()))
}

pub open spec fn entero(i: int) -> Seq<char> {
    if i < 0 {
        seq!['-'] + crate::texto::decimal((-i) as nat)
    } else {
        crate::texto::decimal(i as nat)
    }
}

fn en_entero(i: i32) -> (r: Vec<char>)
    ensures
        r@ == entero(i as int),
{
    if i < 0 {
        let mut r: Vec<char> = Vec::new();
        r.push('-');
        let n: i64 = -(i as i64);
        let d = crate::texto::en_decimal(n as u64);
        crate::texto::anexar(&mut r, d.as_slice());
        r
    } else {
        crate::texto::en_decimal(i as u64)
    }
}

/// Texto con que se muestra cada error.
pub open spec fn mensaje_de(e: Error) -> Seq<char> {
    match e {
        Error::Lectura { ruta, origen } => "no se pudo leer «"@ + ruta@ + "»: "@ + origen@,
        Error::Escritura { ruta, origen } => "no se pudo escribir «"@ + ruta@ + "»: "@ + origen@,
        Error::Io(m) => "error de entrada/salida: "@ + m@,
        Error::Sintaxis { ruta, linea, motivo } => "«"@ + ruta@ + "»:"@ + crate::texto::decimal(
            linea as nat,
        ) + ": "@ + motivo@,
        Error::TunelDesconocido(t) => "no existe el túnel «"@ + t@ + "»"@,
        Error::HostDesconocido(h) => "no existe el host «"@ + h@ + "» en la configuración"@,
        Error::HostDuplicado(h) => "ya existe un host llamado «"@ + h@ + "»"@,
        Error::HostAjeno(h) => "«"@ + h@
            + "» no lo gestiona esta aplicación: está definido en otro fichero y es de solo lectura"@,
        Error::EjecutableAusente(p) => "no se encontró el ejecutable «"@ + p@ + "» en el PATH"@,
        Error::TiempoAgotado { orden, segundos } => "«"@ + orden@
            + "» agotó el tiempo de espera ("@ + crate::texto::decimal(segundos as nat) + " s)"@,
        Error::OrdenFallida { orden, codigo, salida } => "«"@ + orden@ + "» terminó con código "@
            + entero(codigo as int) + ": "@ + salida@,
        Error::PuertoOcupado { puerto, ocupante } => "el puerto local "@ + crate::texto::decimal(
            puerto as nat,
        ) + " ya está ocupado"@ + match ocupante {
            Some(q) => " por "@ + q@,
            None => seq![],
        },
        Error::PuertoPrivilegiado { puerto } => "el puerto "@ + crate::texto::decimal(
            puerto as nat,
        ) + " es privilegiado (<1024) y el proceso no tiene CAP_NET_BIND_SERVICE"@,
        Error::DefinicionInvalida(m) => "definición de túnel no válida: "@ + m@,
        Error::MaestroInactivo(a) => "el maestro SSH de «"@ + a@ + "» no está activo"@,
        Error::BaseDeDatos(m) => "error de base de datos: "@ + m@,
        Error::Secretos(m) => "error del almacén de secretos: "@ + m@,
        Error::Cancelada => "la operación fue cancelada por el usuario"@,
        Error::RutaIndeterminada(v) => "no se pudo determinar la ruta «"@ + v@
            + "»; revisa las variables XDG del entorno"@,
        Error::AliasInvisible { alias } => "«"@ + alias@
            + "» está definido en el fichero de túneles, pero «ssh» no lo ve: falta la línea Include en ~/.ssh/config"@,
    }
}

/// Sugerencia accionable para cada error, si hay una obvia. `binario` es la
/// ruta del ejecutable, para la orden que concede la capacidad.
pub open spec fn sugerencia_de(e: Error, binario: Seq<char>) -> Option<Seq<char>> {
    match e {
        Error::PuertoOcupado { puerto, ocupante } => Some(
            match ocupante {
                Some(q) => "Cierra "@ + q@ + " o elige otro puerto local distinto de "@
                    + crate::texto::decimal(puerto as nat) + "."@,
                None => "Elige otro puerto local distinto de "@ + crate::texto::decimal(
                    puerto as nat,
                ) + "."@,
            },
        ),
        Error::PuertoPrivilegiado { .. } => Some(
            "Concede la capacidad al binario:\n    sudo setcap 'cap_net_bind_service=+ep' "@
                + binario + "\n…o usa un puerto local por encima de 1023."@,
        ),
        Error::EjecutableAusente(n) => Some(
            "Instala el paquete de OpenSSH que proporciona «"@ + n@ + "»."@,
        ),
        Error::MaestroInactivo(a) => Some(
            "Levanta primero la conexión maestra de «"@ + a@ + "»."@,
        ),
        Error::HostAjeno(_) => Some(
            "Impórtalo desde la pantalla de importación para poder gestionarlo."@,
        ),
        Error::AliasInvisible { .. } => Some(
            "Añade esta línea al principio de ~/.ssh/config:\n    "@ + "Include ~/.ssh/config.d/yonder.conf"@
                + "\n…o ejecuta «yonder import», que la pone con copia de seguridad previa."@,
        ),
        _ => None,
    }
}

impl Error {
    /// El texto del error, tal como se le enseña al usuario.
    pub fn mensaje(&self) -> (r: String)
        ensures
            r@ == mensaje_de(*self),
    {
        let mut c: Vec<char> = Vec::new();
        match self {
            Error::Lectura { ruta, origen } => {
                crate::texto::anexar_str(&mut c, "no se pudo leer «");
                crate::texto::anexar_str(&mut c, ruta.as_str());
                crate::texto::anexar_str(&mut c, "»: ");
                crate::texto::anexar_str(&mut c, origen.as_str());
            },
            Error::Escritura { ruta, origen } => {
                crate::texto::anexar_str(&mut c, "no se pudo escribir «");
                crate::texto::anexar_str(&mut c, ruta.as_str());
                crate::texto::anexar_str(&mut c, "»: ");
                crate::texto::anexar_str(&mut c, origen.as_str());
            },
            Error::Io(m) => {
                crate::texto::anexar_str(&mut c, "error de entrada/salida: ");
                crate::texto::anexar_str(&mut c, m.as_str());
            },
            Error::Sintaxis { ruta, linea, motivo } => {
                crate::texto::anexar_str(&mut c, "«");
                crate::texto::anexar_str(&mut c, ruta.as_str());
                crate::texto::anexar_str(&mut c, "»:");
                let d = crate::texto::en_decimal(*linea as u64);
                crate::texto::anexar(&mut c, d.as_slice());
                crate::texto::anexar_str(&mut c, ": ");
                crate::texto::anexar_str(&mut c, motivo.as_str());
            },
            Error::TunelDesconocido(t) => {
                crate::texto::anexar_str(&mut c, "no existe el túnel «");
                crate::texto::anexar_str(&mut c, t.as_str());
                crate::texto::anexar_str(&mut c, "»");
            },
            Error::HostDesconocido(h) => {
                crate::texto::anexar_str(&mut c, "no existe el host «");
                crate::texto::anexar_str(&mut c, h.as_str());
                crate::texto::anexar_str(&mut c, "» en la configuración");
            },
            Error::HostDuplicado(h) => {
                crate::texto::anexar_str(&mut c, "ya existe un host llamado «");
                crate::texto::anexar_str(&mut c, h.as_str());
                crate::texto::anexar_str(&mut c, "»");
            },
            Error::HostAjeno(h) => {
                crate::texto::anexar_str(&mut c, "«");
                crate::texto::anexar_str(&mut c, h.as_str());
                crate::texto::anexar_str(
                    &mut c,
                    "» no lo gestiona esta aplicación: está definido en otro fichero y es de solo lectura",
                );
            },
            Error::EjecutableAusente(p) => {
                crate::texto::anexar_str(&mut c, "no se encontró el ejecutable «");
                crate::texto::anexar_str(&mut c, p.as_str());
                crate::texto::anexar_str(&mut c, "» en el PATH");
            },
            Error::TiempoAgotado { orden, segundos } => {
                crate::texto::anexar_str(&mut c, "«");
                crate::texto::anexar_str(&mut c, orden.as_str());
                crate::texto::anexar_str(&mut c, "» agotó el tiempo de espera (");
                let d = crate::texto::en_decimal(*segundos);
                crate::texto::anexar(&mut c, d.as_slice());
                crate::texto::anexar_str(&mut c, " s)");
            },
            Error::OrdenFallida { orden, codigo, salida } => {
                crate::texto::anexar_str(&mut c, "«");
                crate::texto::anexar_str(&mut c, orden.as_str());
                crate::texto::anexar_str(&mut c, "» terminó con código ");
                let d = en_entero(*codigo);
                crate::texto::anexar(&mut c, d.as_slice());
                crate::texto::anexar_str(&mut c, ": ");
                crate::texto::anexar_str(&mut c, salida.as_str());
            },
            Error::PuertoOcupado { puerto, ocupante } => {
                crate::texto::anexar_str(&mut c, "el puerto local ");
                let d = crate::texto::en_decimal(*puerto as u64);
                crate::texto::anexar(&mut c, d.as_slice());
                crate::texto::anexar_str(&mut c, " ya está ocupado");
                match ocupante {
                    Some(q) => {
                        crate::texto::anexar_str(&mut c, " por ");
                        crate::texto::anexar_str(&mut c, q.as_str());
                    },
                    None => {},
                }
            },
            Error::PuertoPrivilegiado { puerto } => {
                crate::texto::anexar_str(&mut c, "el puerto ");
                let d = crate::texto::en_decimal(*puerto as u64);
                crate::texto::anexar(&mut c, d.as_slice());
                crate::texto::anexar_str(
                    &mut c,
                    " es privilegiado (<1024) y el proceso no tiene CAP_NET_BIND_SERVICE",
                );
            },
            Error::DefinicionInvalida(m) => {
                crate::texto::anexar_str(&mut c, "definición de túnel no válida: ");
                crate::texto::anexar_str(&mut c, m.as_str());
            },
            Error::MaestroInactivo(a) => {
                crate::texto::anexar_str(&mut c, "el maestro SSH de «");
                crate::texto::anexar_str(&mut c, a.as_str());
                crate::texto::anexar_str(&mut c, "» no está activo");
            },
            Error::BaseDeDatos(m) => {
                crate::texto::anexar_str(&mut c, "error de base de datos: ");
                crate::texto::anexar_str(&mut c, m.as_str());
            },
            Error::Secretos(m) => {
                crate::texto::anexar_str(&mut c, "error del almacén de secretos: ");
                crate::texto::anexar_str(&mut c, m.as_str());
            },
            Error::Cancelada => {
                crate::texto::anexar_str(&mut c, "la operación fue cancelada por el usuario");
            },
            Error::RutaIndeterminada(v) => {
                crate::texto::anexar_str(&mut c, "no se pudo determinar la ruta «");
                crate::texto::anexar_str(&mut c, v.as_str());
                crate::texto::anexar_str(&mut c, "»; revisa las variables XDG del entorno");
            },
            Error::AliasInvisible { alias } => {
                crate::texto::anexar_str(&mut c, "«");
                crate::texto::anexar_str(&mut c, alias.as_str());
                crate::texto::anexar_str(
                    &mut c,
                    "» está definido en el fichero de túneles, pero «ssh» no lo ve: falta la línea Include en ~/.ssh/config",
                );
            },
        }
        proof {
            assert(c@ =~= mensaje_de(*self));
        }
        crate::texto::cadena(c.as_slice())
    }

    /// Sugerencia accionable para la interfaz. `None` si no hay una obvia.
    ///
    /// Es lo que separa «falló» de «falló y esto es lo que puedes hacer».
    /// `binario` es la ruta del ejecutable, para la orden que concede la
    /// capacidad de abrir puertos privilegiados.
    pub fn sugerencia(&self, binario: &str) -> (r: Option<String>)
        ensures
            crate::modelo::vista_opcional(r) == sugerencia_de(*self, binario@),
    {
        let mut c: Vec<char> = Vec::new();
        match self {
            Error::PuertoOcupado { puerto, ocupante } => {
                let d = crate::texto::en_decimal(*puerto as u64);
                match ocupante {
                    Some(q) => {
                        crate::texto::anexar_str(&mut c, "Cierra ");
                        crate::texto::anexar_str(&mut c, q.as_str());
                        crate::texto::anexar_str(&mut c, " o elige otro puerto local distinto de ");
                    },
                    None => {
                        crate::texto::anexar_str(&mut c, "Elige otro puerto local distinto de ");
                    },
                }
                crate::texto::anexar(&mut c, d.as_slice());
                crate::texto::anexar_str(&mut c, ".");
            },
            Error::PuertoPrivilegiado { .. } => {
                crate::texto::anexar_str(
                    &mut c,
                    "Concede la capacidad al binario:\n    sudo setcap 'cap_net_bind_service=+ep' ",
                );
                crate::texto::anexar_str(&mut c, binario);
                crate::texto::anexar_str(&mut c, "\n…o usa un puerto local por encima de 1023.");
            },
            Error::EjecutableAusente(n) => {
                crate::texto::anexar_str(&mut c, "Instala el paquete de OpenSSH que proporciona «");
                crate::texto::anexar_str(&mut c, n.as_str());
                crate::texto::anexar_str(&mut c, "».");
            },
            Error::MaestroInactivo(a) => {
                crate::texto::anexar_str(&mut c, "Levanta primero la conexión maestra de «");
                crate::texto::anexar_str(&mut c, a.as_str());
                crate::texto::anexar_str(&mut c, "».");
            },
            Error::HostAjeno(_) => {
                crate::texto::anexar_str(
                    &mut c,
                    "Impórtalo desde la pantalla de importación para poder gestionarlo.",
                );
            },
            Error::AliasInvisible { .. } => {
                crate::texto::anexar_str(&mut c, "Añade esta línea al principio de ~/.ssh/config:\n    ");
                crate::texto::anexar_str(&mut c, "Include ~/.ssh/config.d/yonder.conf");
                crate::texto::anexar_str(
                    &mut c,
                    "\n…o ejecuta «yonder import», que la pone con copia de seguridad previa.",
                );
            },
            _ => {
                return None;
            },
        }
        proof {
            assert(Some(c@) =~= sugerencia_de(*self, binario@));
        }
        Some(crate::texto::cadena(c.as_slice()))
    }
}

} // verus!
