//! Estado de los diálogos de verificación de clave de host y de instalación
//! de la clave pública.
//!
//! Escanear y copiar tardan segundos y se lanzan en segundo plano; el diálogo
//! consulta en cada fotograma. Aquí está lo que el diálogo sabe y cómo cambia
//! con cada resultado; lanzar las tareas y pintar queda fuera de la biblioteca.

use vstd::prelude::*;

use crate::error::{mensaje_de, Error, Resultado};
use crate::modelo::{destino, vista_opcional, Host};
use crate::ssh::hostkey::ClaveHost;
use crate::texto::vistas;

verus! {

/// Estado del diálogo de verificación de clave de host.
#[derive(Debug)]
pub struct EstadoClaveHost {
    pub alias: String,
    /// Host y puerto que se escanean.
    pub host: String,
    pub puerto: u16,
    /// Hay un escaneo en marcha.
    pub escaneando: bool,
    pub claves: Vec<ClaveHost>,
    pub error: Option<String>,
    /// El host ya está en known_hosts.
    pub ya_conocido: bool,
}

impl EstadoClaveHost {
    /// El diálogo para `alias`, con su definición en el catálogo si la tiene:
    /// se escanean su HostName y su Port reales; si no, el alias en el 22.
    pub fn nuevo(definicion: Option<&Host>, alias: &str) -> (r: EstadoClaveHost)
        ensures
            r.alias@ == alias@,
            r.host@ == match definicion {
                Some(h) => destino(h@),
                None => alias@,
            },
            r.puerto == match definicion {
                Some(h) => match h@.puerto {
                    Some(p) => p,
                    None => 22,
                },
                None => 22,
            },
            !r.escaneando,
            r.claves@.len() == 0,
            r.error is None,
            !r.ya_conocido,
    {
        let (host, puerto) = crate::cli::objetivo_de_clave_host(definicion, alias, None);
        EstadoClaveHost {
            alias: alias.to_string(),
            host,
            puerto,
            escaneando: false,
            claves: Vec::new(),
            error: None,
            ya_conocido: false,
        }
    }

    /// En el primer fotograma se lanza el escaneo: no hay uno en marcha, ni
    /// claves, ni error.
    pub fn hay_que_escanear(&self) -> (r: bool)
        ensures
            r == (!self.escaneando && self.claves@.len() == 0 && self.error is None),
    {
        !self.escaneando && self.claves.len() == 0 && self.error.is_none()
    }

    /// Anota que el escaneo se ha lanzado y si el host ya estaba en
    /// known_hosts.
    pub fn empezar_escaneo(&mut self, ya_conocido: bool)
        ensures
            final(self).escaneando,
            final(self).ya_conocido == ya_conocido,
            final(self).alias == old(self).alias,
            final(self).host == old(self).host,
            final(self).puerto == old(self).puerto,
            final(self).claves@ == old(self).claves@,
            final(self).error == old(self).error,
    {
        self.escaneando = true;
        self.ya_conocido = ya_conocido;
    }

    /// Recoge el resultado del escaneo: las claves, o el error tal como se
    /// le enseña al usuario.
    pub fn al_terminar(&mut self, resultado: Resultado<Vec<ClaveHost>>)
        ensures
            !final(self).escaneando,
            final(self).alias == old(self).alias,
            final(self).host == old(self).host,
            final(self).puerto == old(self).puerto,
            final(self).ya_conocido == old(self).ya_conocido,
            match resultado {
                Ok(c) => final(self).claves@ == c@ && final(self).error == old(self).error,
                Err(e) => final(self).claves@ == old(self).claves@ && vista_opcional(
                    final(self).error,
                ) == Some(mensaje_de(e)),
            },
    {
        self.escaneando = false;
        match resultado {
            Ok(claves) => {
                self.claves = claves;
            },
            Err(e) => {
                self.error = Some(e.mensaje());
            },
        }
    }
}

/// Estado del diálogo de instalación de la clave pública.
#[derive(Debug)]
pub struct EstadoCopiarClave {
    pub alias: String,
    /// Claves públicas disponibles, en orden de preferencia.
    pub claves: Vec<String>,
    /// Índice de la clave elegida.
    pub elegida: usize,
    /// Hay una instalación en marcha.
    pub instalando: bool,
    /// Lo que salió: el texto de éxito o el del error.
    pub resultado: Option<Result<String, String>>,
}

pub open spec fn texto_instalada(solo_clave: bool) -> Seq<char> {
    if solo_clave {
        "Clave instalada. Comprobado: ya se entra solo con clave pública, así que puedes borrar del llavero cualquier contraseña de este host."@
    } else {
        "Clave instalada, pero la entrada sin contraseña todavía no funciona. Revisa la configuración del servidor."@
    }
}

impl EstadoCopiarClave {
    /// El diálogo para `alias`, con las claves públicas disponibles; se
    /// propone la primera.
    pub fn nuevo(alias: &str, claves: Vec<String>) -> (r: EstadoCopiarClave)
        ensures
            r.alias@ == alias@,
            r.claves@ == claves@,
            r.elegida == 0,
            !r.instalando,
            r.resultado is None,
    {
        EstadoCopiarClave {
            alias: alias.to_string(),
            claves,
            elegida: 0,
            instalando: false,
            resultado: None,
        }
    }

    /// La clave elegida, si el índice apunta a una.
    pub fn clave_elegida(&self) -> (r: Option<&String>)
        ensures
            self.elegida < self.claves@.len() ==> r == Some(&self.claves@[self.elegida as int]),
            self.elegida >= self.claves@.len() ==> r is None,
    {
        if self.elegida < self.claves.len() {
            Some(&self.claves[self.elegida])
        } else {
            None
        }
    }

    /// Recoge el resultado de la instalación. Si salió bien, `solo_clave` dice
    /// si ya se entra sin contraseña.
    pub fn al_terminar(&mut self, resultado: Resultado<()>, solo_clave: bool)
        ensures
            !final(self).instalando,
            final(self).alias == old(self).alias,
            final(self).claves@ == old(self).claves@,
            final(self).elegida == old(self).elegida,
            match resultado {
                Ok(()) => final(self).resultado matches Some(Ok(t)) && t@ == texto_instalada(
                    solo_clave,
                ),
                Err(e) => final(self).resultado matches Some(Err(t)) && t@ == mensaje_de(e),
            },
    {
        self.instalando = false;
        match resultado {
            Ok(()) => {
                let texto = if solo_clave {
                    "Clave instalada. Comprobado: ya se entra solo con clave pública, así que puedes borrar del llavero cualquier contraseña de este host.".to_string()
                } else {
                    "Clave instalada, pero la entrada sin contraseña todavía no funciona. Revisa la configuración del servidor.".to_string()
                };
                self.resultado = Some(Ok(texto));
            },
            Err(e) => {
                self.resultado = Some(Err(e.mensaje()));
            },
        }
    }
}

} // verus!
