//! Catálogo de iconos de la interfaz.
//!
//! Cada icono se identifica por el nombre de su fichero SVG. Pintarlos queda
//! fuera de la biblioteca; aquí está el catálogo.

use vstd::prelude::*;

verus! {

/// Un icono del catálogo.
#[allow(non_camel_case_types)]
#[derive(Debug, Clone, Copy, PartialEq, Eq, Structural)]
pub enum Icono {
    TUNEL,
    SERVIDOR,
    RED,
    CABLE,
    GLOBO,
    TERMINAL,
    PANEL,
    LISTA,
    ARRANCAR,
    PARAR,
    ANADIR,
    EDITAR,
    BORRAR,
    COPIAR,
    GUARDAR,
    BUSCAR,
    CERRAR,
    ACEPTAR,
    REINTENTAR,
    ENCENDIDO,
    IMPORTAR,
    AJUSTES,
    CONTROLES,
    DESPLEGAR,
    ABIERTO,
    PLEGAR,
    MAS,
    DEFINIDO,
    CONECTANDO,
    ACTIVO,
    DEGRADADO,
    FALLIDO,
    ALERTA,
    VERIFICADO,
    SIN_VERIFICAR,
    CLAVE,
    BLOQUEADO,
    DESBLOQUEADO,
    LLAVE_FISICA,
    FICHERO_CLAVE,
    INFO,
    RELOJ,
    HISTORIAL,
    ACTIVIDAD,
    MEDIDOR,
    GRAFICA,
    RAYO,
    ENLACE,
    INTERCAMBIO,
    CLARO,
    OSCURO,
    AUTOMATICO,
    PORTATIL,
    BASE_DATOS,
}

/// El nombre del fichero de cada icono, sin extensión.
pub open spec fn nombre_de(i: Icono) -> Seq<char> {
    match i {
        Icono::TUNEL => "waypoints"@,
        Icono::SERVIDOR => "server"@,
        Icono::RED => "network"@,
        Icono::CABLE => "cable"@,
        Icono::GLOBO => "globe"@,
        Icono::TERMINAL => "terminal"@,
        Icono::PANEL => "panel-left"@,
        Icono::LISTA => "list"@,
        Icono::ARRANCAR => "play"@,
        Icono::PARAR => "square"@,
        Icono::ANADIR => "plus"@,
        Icono::EDITAR => "pencil"@,
        Icono::BORRAR => "trash-2"@,
        Icono::COPIAR => "copy"@,
        Icono::GUARDAR => "save"@,
        Icono::BUSCAR => "search"@,
        Icono::CERRAR => "x"@,
        Icono::ACEPTAR => "check"@,
        Icono::REINTENTAR => "refresh-cw"@,
        Icono::ENCENDIDO => "power"@,
        Icono::IMPORTAR => "download"@,
        Icono::AJUSTES => "settings"@,
        Icono::CONTROLES => "sliders-horizontal"@,
        Icono::DESPLEGAR => "chevron-right"@,
        Icono::ABIERTO => "chevron-down"@,
        Icono::PLEGAR => "chevron-up"@,
        Icono::MAS => "ellipsis"@,
        Icono::DEFINIDO => "circle-dot"@,
        Icono::CONECTANDO => "loader-circle"@,
        Icono::ACTIVO => "circle-check"@,
        Icono::DEGRADADO => "triangle-alert"@,
        Icono::FALLIDO => "circle-x"@,
        Icono::ALERTA => "circle-alert"@,
        Icono::VERIFICADO => "shield-check"@,
        Icono::SIN_VERIFICAR => "shield-alert"@,
        Icono::CLAVE => "key-round"@,
        Icono::BLOQUEADO => "lock"@,
        Icono::DESBLOQUEADO => "lock-open"@,
        Icono::LLAVE_FISICA => "usb"@,
        Icono::FICHERO_CLAVE => "file-key"@,
        Icono::INFO => "info"@,
        Icono::RELOJ => "clock"@,
        Icono::HISTORIAL => "history"@,
        Icono::ACTIVIDAD => "activity"@,
        Icono::MEDIDOR => "gauge"@,
        Icono::GRAFICA => "chart-line"@,
        Icono::RAYO => "zap"@,
        Icono::ENLACE => "link-2"@,
        Icono::INTERCAMBIO => "arrow-right-left"@,
        Icono::CLARO => "sun"@,
        Icono::OSCURO => "moon"@,
        Icono::AUTOMATICO => "monitor-cog"@,
        Icono::PORTATIL => "laptop"@,
        Icono::BASE_DATOS => "database"@,
    }
}

/// El catálogo, en el orden en que se declara.
pub open spec fn catalogo() -> Seq<Icono> {
    seq![
        Icono::TUNEL,
        Icono::SERVIDOR,
        Icono::RED,
        Icono::CABLE,
        Icono::GLOBO,
        Icono::TERMINAL,
        Icono::PANEL,
        Icono::LISTA,
        Icono::ARRANCAR,
        Icono::PARAR,
        Icono::ANADIR,
        Icono::EDITAR,
        Icono::BORRAR,
        Icono::COPIAR,
        Icono::GUARDAR,
        Icono::BUSCAR,
        Icono::CERRAR,
        Icono::ACEPTAR,
        Icono::REINTENTAR,
        Icono::ENCENDIDO,
        Icono::IMPORTAR,
        Icono::AJUSTES,
        Icono::CONTROLES,
        Icono::DESPLEGAR,
        Icono::ABIERTO,
        Icono::PLEGAR,
        Icono::MAS,
        Icono::DEFINIDO,
        Icono::CONECTANDO,
        Icono::ACTIVO,
        Icono::DEGRADADO,
        Icono::FALLIDO,
        Icono::ALERTA,
        Icono::VERIFICADO,
        Icono::SIN_VERIFICAR,
        Icono::CLAVE,
        Icono::BLOQUEADO,
        Icono::DESBLOQUEADO,
        Icono::LLAVE_FISICA,
        Icono::FICHERO_CLAVE,
        Icono::INFO,
        Icono::RELOJ,
        Icono::HISTORIAL,
        Icono::ACTIVIDAD,
        Icono::MEDIDOR,
        Icono::GRAFICA,
        Icono::RAYO,
        Icono::ENLACE,
        Icono::INTERCAMBIO,
        Icono::CLARO,
        Icono::OSCURO,
        Icono::AUTOMATICO,
        Icono::PORTATIL,
        Icono::BASE_DATOS,
    ]
}

impl Icono {
    /// El nombre del fichero del icono, sin extensión.
    pub fn nombre(&self) -> (r: &'static str)
        ensures
            r@ == nombre_de(*self),
    {
        proof {
            reveal_strlit("waypoints");
        }
        match self {
            Icono::TUNEL => "waypoints",
            Icono::SERVIDOR => "server",
            Icono::RED => "network",
            Icono::CABLE => "cable",
            Icono::GLOBO => "globe",
            Icono::TERMINAL => "terminal",
            Icono::PANEL => "panel-left",
            Icono::LISTA => "list",
            Icono::ARRANCAR => "play",
            Icono::PARAR => "square",
            Icono::ANADIR => "plus",
            Icono::EDITAR => "pencil",
            Icono::BORRAR => "trash-2",
            Icono::COPIAR => "copy",
            Icono::GUARDAR => "save",
            Icono::BUSCAR => "search",
            Icono::CERRAR => "x",
            Icono::ACEPTAR => "check",
            Icono::REINTENTAR => "refresh-cw",
            Icono::ENCENDIDO => "power",
            Icono::IMPORTAR => "download",
            Icono::AJUSTES => "settings",
            Icono::CONTROLES => "sliders-horizontal",
            Icono::DESPLEGAR => "chevron-right",
            Icono::ABIERTO => "chevron-down",
            Icono::PLEGAR => "chevron-up",
            Icono::MAS => "ellipsis",
            Icono::DEFINIDO => "circle-dot",
            Icono::CONECTANDO => "loader-circle",
            Icono::ACTIVO => "circle-check",
            Icono::DEGRADADO => "triangle-alert",
            Icono::FALLIDO => "circle-x",
            Icono::ALERTA => "circle-alert",
            Icono::VERIFICADO => "shield-check",
            Icono::SIN_VERIFICAR => "shield-alert",
            Icono::CLAVE => "key-round",
            Icono::BLOQUEADO => "lock",
            Icono::DESBLOQUEADO => "lock-open",
            Icono::LLAVE_FISICA => "usb",
            Icono::FICHERO_CLAVE => "file-key",
            Icono::INFO => "info",
            Icono::RELOJ => "clock",
            Icono::HISTORIAL => "history",
            Icono::ACTIVIDAD => "activity",
            Icono::MEDIDOR => "gauge",
            Icono::GRAFICA => "chart-line",
            Icono::RAYO => "zap",
            Icono::ENLACE => "link-2",
            Icono::INTERCAMBIO => "arrow-right-left",
            Icono::CLARO => "sun",
            Icono::OSCURO => "moon",
            Icono::AUTOMATICO => "monitor-cog",
            Icono::PORTATIL => "laptop",
            Icono::BASE_DATOS => "database",
        }
    }
}

/// Todos los iconos del catálogo, en el orden en que se declaran.
pub fn todos() -> (v: Vec<Icono>)
    ensures
        v@ == catalogo(),
{
    let v: Vec<Icono> = vec![
        Icono::TUNEL,
        Icono::SERVIDOR,
        Icono::RED,
        Icono::CABLE,
        Icono::GLOBO,
        Icono::TERMINAL,
        Icono::PANEL,
        Icono::LISTA,
        Icono::ARRANCAR,
        Icono::PARAR,
        Icono::ANADIR,
        Icono::EDITAR,
        Icono::BORRAR,
        Icono::COPIAR,
        Icono::GUARDAR,
        Icono::BUSCAR,
        Icono::CERRAR,
        Icono::ACEPTAR,
        Icono::REINTENTAR,
        Icono::ENCENDIDO,
        Icono::IMPORTAR,
        Icono::AJUSTES,
        Icono::CONTROLES,
        Icono::DESPLEGAR,
        Icono::ABIERTO,
        Icono::PLEGAR,
        Icono::MAS,
        Icono::DEFINIDO,
        Icono::CONECTANDO,
        Icono::ACTIVO,
        Icono::DEGRADADO,
        Icono::FALLIDO,
        Icono::ALERTA,
        Icono::VERIFICADO,
        Icono::SIN_VERIFICAR,
        Icono::CLAVE,
        Icono::BLOQUEADO,
        Icono::DESBLOQUEADO,
        Icono::LLAVE_FISICA,
        Icono::FICHERO_CLAVE,
        Icono::INFO,
        Icono::RELOJ,
        Icono::HISTORIAL,
        Icono::ACTIVIDAD,
        Icono::MEDIDOR,
        Icono::GRAFICA,
        Icono::RAYO,
        Icono::ENLACE,
        Icono::INTERCAMBIO,
        Icono::CLARO,
        Icono::OSCURO,
        Icono::AUTOMATICO,
        Icono::PORTATIL,
        Icono::BASE_DATOS,
    ];
    proof {
        assert(v@ =~= catalogo());
    }
    v
}

} // verus!
