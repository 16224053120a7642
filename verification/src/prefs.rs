//! Preferencias de la aplicación: cómo se ve y cómo se comporta la ventana.
//!
//! Aquí no hay definiciones de túneles: esas viven en `ssh_config` y solo ahí.
//! Leer y escribir el fichero de preferencias queda fuera de la biblioteca.

use vstd::prelude::*;

use crate::ssh::OpcionesMaestro;
use crate::state::supervisor::PoliticaReintento;

verus! {

/// Densidad de la interfaz: cuánto aire hay entre los elementos.
#[derive(Debug, Clone, Copy, PartialEq, Eq, Structural)]
pub enum Densidad {
    Compacta,
    Comoda,
}

impl Default for Densidad {
    fn default() -> (r: Densidad)
        ensures
            r == Densidad::Comoda,
    {
        Densidad::Comoda
    }
}

impl Densidad {
    pub fn etiqueta(&self) -> (r: &'static str)
        ensures
            r@ == match *self {
                Densidad::Compacta => "Compacta"@,
                Densidad::Comoda => "Cómoda"@,
            },
    {
        match self {
            Densidad::Compacta => "Compacta",
            Densidad::Comoda => "Cómoda",
        }
    }

    /// La otra densidad: el botón alterna entre las dos.
    pub fn siguiente(&self) -> (r: Densidad)
        ensures
            r != *self,
    {
        match self {
            Densidad::Compacta => Densidad::Comoda,
            Densidad::Comoda => Densidad::Compacta,
        }
    }
}

/// Preferencia de tema.
#[derive(Debug, Clone, Copy, PartialEq, Eq, Structural)]
pub enum Tema {
    /// Sigue lo que diga el escritorio.
    Auto,
    Claro,
    Oscuro,
}

impl Default for Tema {
    fn default() -> (r: Tema)
        ensures
            r == Tema::Auto,
    {
        Tema::Auto
    }
}

/// El tema que sigue al pulsar el botón: automático, claro, oscuro y vuelta a
/// empezar.
pub open spec fn tema_siguiente(t: Tema) -> Tema {
    match t {
        Tema::Auto => Tema::Claro,
        Tema::Claro => Tema::Oscuro,
        Tema::Oscuro => Tema::Auto,
    }
}

impl Tema {
    pub fn etiqueta(&self) -> (r: &'static str)
        ensures
            r@ == match *self {
                Tema::Auto => "Automático"@,
                Tema::Claro => "Claro"@,
                Tema::Oscuro => "Oscuro"@,
            },
    {
        match self {
            Tema::Auto => "Automático",
            Tema::Claro => "Claro",
            Tema::Oscuro => "Oscuro",
        }
    }

    pub fn siguiente(&self) -> (r: Tema)
        ensures
            r == tema_siguiente(*self),
    {
        match self {
            Tema::Auto => Tema::Claro,
            Tema::Claro => Tema::Oscuro,
            Tema::Oscuro => Tema::Auto,
        }
    }
}

/// El tema rota: tres pulsaciones lo dejan como estaba, y ninguna de las dos
/// primeras lo deja igual.
pub proof fn ley_el_tema_rota(t: Tema)
    ensures
        tema_siguiente(tema_siguiente(tema_siguiente(t))) == t,
        tema_siguiente(t) != t,
        tema_siguiente(tema_siguiente(t)) != t,
{
}

/// Preferencias de la aplicación.
#[derive(Debug, Clone, Copy)]
pub struct Preferencias {
    pub tema: Tema,
    pub densidad: Densidad,
    /// Levantar los túneles marcados al abrir la ventana.
    pub autoarranque_al_abrir: bool,
    /// Segundos de `ServerAliveInterval`.
    pub intervalo_latido: u32,
    /// `ServerAliveCountMax`.
    pub latidos_perdidos: u32,
    /// Segundos de `ConnectTimeout`.
    pub espera_conexion: u32,
    /// Reintentos antes de dar un túnel por fallido. 0 = sin límite.
    pub maximo_reintentos: u32,
    /// Segundos entre sondas de salud profundas.
    ///
    /// Las comprobaciones `banner` y `http` abren conexiones reales a través
    /// del túnel: tienen efecto en el servicio del otro lado. Subir este valor
    /// molesta menos; bajarlo detecta antes el túnel zombi.
    pub intervalo_salud: u32,
    /// Confirmar antes de bajar un túnel activo.
    pub confirmar_al_bajar: bool,
    /// Mostrar la columna de estadísticas en la lista.
    pub mostrar_estadisticas: bool,
    /// Escala de la interfaz en milésimas: 1000 es el tamaño base.
    pub escala_interfaz: u32,
}

impl Default for Preferencias {
    fn default() -> (r: Preferencias)
        ensures
            r.tema == Tema::Auto,
            r.densidad == Densidad::Comoda,
            r.autoarranque_al_abrir,
            r.intervalo_latido == 15,
            r.latidos_perdidos == 3,
            r.espera_conexion == 15,
            r.maximo_reintentos == 10,
            r.intervalo_salud == 30,
            !r.confirmar_al_bajar,
            r.mostrar_estadisticas,
            r.escala_interfaz == 1000,
    {
        Preferencias {
            tema: Tema::Auto,
            densidad: Densidad::Comoda,
            autoarranque_al_abrir: true,
            intervalo_latido: 15,
            latidos_perdidos: 3,
            espera_conexion: 15,
            maximo_reintentos: 10,
            intervalo_salud: 30,
            confirmar_al_bajar: false,
            mostrar_estadisticas: true,
            escala_interfaz: 1000,
        }
    }
}

/// `v.clamp(minimo, maximo)`.
pub open spec fn acotado_entre(v: u32, minimo: u32, maximo: u32) -> u32 {
    if v < minimo {
        minimo
    } else if v > maximo {
        maximo
    } else {
        v
    }
}

fn acotar(v: u32, minimo: u32, maximo: u32) -> (r: u32)
    requires
        minimo <= maximo,
    ensures
        r == acotado_entre(v, minimo, maximo),
{
    if v < minimo {
        minimo
    } else if v > maximo {
        maximo
    } else {
        v
    }
}

impl Preferencias {
    /// Opciones del maestro derivadas de las preferencias, con los valores
    /// absurdos acotados.
    pub fn opciones_maestro(&self) -> (r: OpcionesMaestro)
        ensures
            r.espera_conexion == acotado_entre(self.espera_conexion, 3, 300),
            r.intervalo_latido == acotado_entre(self.intervalo_latido, 5, 300),
            r.latidos_perdidos == acotado_entre(self.latidos_perdidos, 1, 20),
            !r.sin_interaccion,
    {
        OpcionesMaestro {
            espera_conexion: acotar(self.espera_conexion, 3, 300),
            intervalo_latido: acotar(self.intervalo_latido, 5, 300),
            latidos_perdidos: acotar(self.latidos_perdidos, 1, 20),
            sin_interaccion: false,
        }
    }

    /// Segundos entre sondas de salud profundas, entre 5 s y una hora:
    /// sondear cada cero segundos sería martillear el servicio remoto.
    pub fn intervalo_salud(&self) -> (r: u64)
        ensures
            r == acotado_entre(self.intervalo_salud, 5, 3600),
    {
        acotar(self.intervalo_salud, 5, 3600) as u64
    }

    /// Política de reintento: la de por defecto con el máximo de intentos de
    /// las preferencias.
    pub fn politica_reintento(&self) -> (r: PoliticaReintento)
        ensures
            r.maximo_intentos == self.maximo_reintentos,
            r.base == 2000,
            r.techo == 60000,
            r.jitter == 200,
    {
        PoliticaReintento { maximo_intentos: self.maximo_reintentos, ..Default::default() }
    }
}

/// Lo que se escribe en el fichero de preferencias: un aviso de que los
/// túneles no están ahí, y después las preferencias en TOML.
pub fn con_cabecera(toml: &str) -> (r: String)
    ensures
        r@ == "# Preferencias de «yonder».\n# Las definiciones de túneles NO están aquí: viven en\n# ~/.ssh/config.d/yonder.conf.\n\n"@
            + toml@,
{
    let mut c = crate::texto::caracteres(
        "# Preferencias de «yonder».\n# Las definiciones de túneles NO están aquí: viven en\n# ~/.ssh/config.d/yonder.conf.\n\n",
    );
    crate::texto::anexar_str(&mut c, toml);
    crate::texto::cadena(c.as_slice())
}

} // verus!
