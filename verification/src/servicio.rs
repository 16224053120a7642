//! Temporizador de supervisión con `systemd --user`.
//!
//! La aplicación no es un demonio: una pasada de `yonder supervise` cada poco
//! reconcilia lo que el usuario quiere arriba con lo que hay. Aquí se escriben
//! las unidades y se interpreta su estado; instalarlas y preguntar a
//! `systemctl` queda fuera de la biblioteca.

use vstd::prelude::*;

use crate::rutas::{base_xdg, unida, vista_variable};
use crate::error::Error;
use crate::texto::{anexar_str, cadena, caracteres, vistas};

verus! {

broadcast use vstd::string::group_string_axioms;

/// Nombre de las unidades.
pub const UNIDAD: &'static str = "yonder";

/// Intervalo por defecto entre pasadas.
pub const INTERVALO_POR_DEFECTO: &'static str = "2min";

/// `$XDG_CONFIG_HOME/systemd/user` (por defecto `~/.config/systemd/user`).
pub open spec fn directorio_unidades(xdg_config: Option<Seq<char>>, hogar: Seq<char>) -> Seq<char> {
    unida(base_xdg(xdg_config, hogar, ".config"@), "systemd/user"@)
}

fn directorio(xdg_config: Option<&str>, hogar: &str) -> (r: String)
    ensures
        r@ == directorio_unidades(vista_variable(xdg_config), hogar@),
{
    let b = match xdg_config {
        Some(v) => {
            let c = caracteres(v);
            if c.len() > 0 {
                v.to_string()
            } else {
                crate::rutas::unir(hogar, ".config")
            }
        },
        None => crate::rutas::unir(hogar, ".config"),
    };
    crate::rutas::unir(b.as_str(), "systemd/user")
}

/// Ruta de la unidad de servicio.
pub fn ruta_servicio(xdg_config: Option<&str>, hogar: &str) -> (r: String)
    ensures
        r@ == unida(directorio_unidades(vista_variable(xdg_config), hogar@), "yonder.service"@),
{
    let d = directorio(xdg_config, hogar);
    crate::rutas::unir(d.as_str(), "yonder.service")
}

/// Ruta de la unidad del temporizador.
pub fn ruta_temporizador(xdg_config: Option<&str>, hogar: &str) -> (r: String)
    ensures
        r@ == unida(directorio_unidades(vista_variable(xdg_config), hogar@), "yonder.timer"@),
{
    let d = directorio(xdg_config, hogar);
    crate::rutas::unir(d.as_str(), "yonder.timer")
}

pub open spec fn servicio_para(binario: Seq<char>) -> Seq<char> {
    "[Unit]\nDescription=Reconcilia los túneles SSH de «yonder»\nDocumentation=man:ssh_config(5)\n\n[Service]\nType=oneshot\n# Los maestros son hijos «ssh -f» que TIENEN que sobrevivir al final\n# de la pasada. Con el KillMode por defecto (control-group) systemd\n# mata todo el grupo al acabar y los túneles caen a los segundos de\n# nacer.\nKillMode=process\n# Entrecomillado: una ruta con espacios partiría la orden en dos.\nExecStart=\""@
        + binario
        + "\" supervise\n\n[Install]\nWantedBy=default.target\n"@
}

/// Unidad de servicio: una pasada de supervisión que no mata a sus hijos.
///
/// Los maestros son hijos `ssh -f` que tienen que sobrevivir al final de la
/// pasada: con el `KillMode` por defecto systemd mataría todo el grupo.
pub fn texto_servicio(binario: &str) -> (r: String)
    ensures
        r@ == servicio_para(binario@),
{
    let mut c = caracteres(
        "[Unit]\nDescription=Reconcilia los túneles SSH de «yonder»\nDocumentation=man:ssh_config(5)\n\n[Service]\nType=oneshot\n# Los maestros son hijos «ssh -f» que TIENEN que sobrevivir al final\n# de la pasada. Con el KillMode por defecto (control-group) systemd\n# mata todo el grupo al acabar y los túneles caen a los segundos de\n# nacer.\nKillMode=process\n# Entrecomillado: una ruta con espacios partiría la orden en dos.\nExecStart=\"",
    );
    anexar_str(&mut c, binario);
    anexar_str(&mut c, "\" supervise\n\n[Install]\nWantedBy=default.target\n");
    cadena(c.as_slice())
}

pub open spec fn temporizador_para(intervalo: Seq<char>) -> Seq<char> {
    "[Unit]\nDescription=Supervisa los túneles SSH cada "@ + intervalo
        + "\n\n[Timer]\nOnBootSec=30\nOnUnitActiveSec="@ + intervalo
        + "\n# Recupera la pasada perdida si el equipo estaba suspendido.\nPersistent=true\n\n[Install]\nWantedBy=timers.target\n"@
}

/// Unidad del temporizador: una pasada cada `intervalo`, recuperando la
/// perdida si el equipo estaba suspendido.
pub fn texto_temporizador(intervalo: &str) -> (r: String)
    ensures
        r@ == temporizador_para(intervalo@),
{
    let mut c = caracteres("[Unit]\nDescription=Supervisa los túneles SSH cada ");
    anexar_str(&mut c, intervalo);
    anexar_str(&mut c, "\n\n[Timer]\nOnBootSec=30\nOnUnitActiveSec=");
    anexar_str(&mut c, intervalo);
    anexar_str(
        &mut c,
        "\n# Recupera la pasada perdida si el equipo estaba suspendido.\nPersistent=true\n\n[Install]\nWantedBy=timers.target\n",
    );
    cadena(c.as_slice())
}

/// Estado del temporizador de supervisión.
#[derive(Debug, Clone, Copy, PartialEq, Eq, Structural)]
pub enum EstadoServicio {
    NoInstalado,
    Parado,
    Activo,
    SinSystemd,
}

impl EstadoServicio {
    pub fn etiqueta(&self) -> (r: &'static str)
        ensures
            r@ == match *self {
                EstadoServicio::NoInstalado => "no instalado"@,
                EstadoServicio::Parado => "instalado pero parado"@,
                EstadoServicio::Activo => "activo"@,
                EstadoServicio::SinSystemd => "no hay systemd de usuario"@,
            },
    {
        match self {
            EstadoServicio::NoInstalado => "no instalado",
            EstadoServicio::Parado => "instalado pero parado",
            EstadoServicio::Activo => "activo",
            EstadoServicio::SinSystemd => "no hay systemd de usuario",
        }
    }
}

/// Estado a partir de lo observado: si hay systemd de usuario, si el
/// temporizador está instalado y lo que contestó `systemctl is-active` (si se
/// le pudo preguntar).
pub fn estado(hay_systemd: bool, instalado: bool, respuesta: Option<&str>) -> (r: EstadoServicio)
    ensures
        r == if !hay_systemd {
            EstadoServicio::SinSystemd
        } else if !instalado {
            EstadoServicio::NoInstalado
        } else if (match respuesta {
            Some(t) => crate::texto::recortado(t@) == "active"@,
            None => false,
        }) {
            EstadoServicio::Activo
        } else {
            EstadoServicio::Parado
        },
{
    if !hay_systemd {
        return EstadoServicio::SinSystemd;
    }
    if !instalado {
        return EstadoServicio::NoInstalado;
    }
    let activo = match respuesta {
        Some(t) => {
            let r = crate::texto::recortar_str(t);
            crate::texto::es_str(r.as_slice(), "active")
        },
        None => false,
    };
    if activo {
        EstadoServicio::Activo
    } else {
        EstadoServicio::Parado
    }
}

/// Aviso para que la supervisión siga con la sesión cerrada.
pub fn aviso_linger(usuario: &str) -> (r: String)
    ensures
        r@ == "Para que siga supervisando con la sesión cerrada:\n    loginctl enable-linger "@
            + usuario@,
{
    let mut c = caracteres(
        "Para que siga supervisando con la sesión cerrada:\n    loginctl enable-linger ",
    );
    anexar_str(&mut c, usuario);
    cadena(c.as_slice())
}

/// Argumentos de `systemctl` en la sesión del usuario.
pub open spec fn de_usuario(argumentos: Seq<Seq<char>>) -> Seq<Seq<char>> {
    seq!["--user"@] + argumentos
}

fn unidad_con(sufijo: &str) -> (r: String)
    ensures
        r@ == UNIDAD@ + sufijo@,
{
    let mut c = caracteres(UNIDAD);
    anexar_str(&mut c, sufijo);
    cadena(c.as_slice())
}

fn orden_de_usuario(a: &str, b: String) -> (r: Vec<String>)
    ensures
        vistas(r@) == de_usuario(seq![a@, b@]),
{
    let mut r: Vec<String> = Vec::new();
    r.push("--user".to_string());
    r.push(a.to_string());
    r.push(b);
    proof {
        assert(vistas(r@) =~= de_usuario(seq![a@, b@]));
    }
    r
}

/// Las órdenes de `systemctl` que arrancan la supervisión: el temporizador y
/// una pasada ya.
pub fn ordenes_para_arrancar() -> (r: Vec<Vec<String>>)
    ensures
        r@.len() == 2,
        vistas(r@[0]@) == de_usuario(seq!["start"@, UNIDAD@ + ".timer"@]),
        vistas(r@[1]@) == de_usuario(seq!["start"@, UNIDAD@ + ".service"@]),
{
    let mut r: Vec<Vec<String>> = Vec::new();
    r.push(orden_de_usuario("start", unidad_con(".timer")));
    r.push(orden_de_usuario("start", unidad_con(".service")));
    r
}

/// La orden de `systemctl` que para la supervisión. Los túneles vivos siguen
/// vivos.
pub fn orden_para_parar() -> (r: Vec<String>)
    ensures
        vistas(r@) == de_usuario(seq!["stop"@, UNIDAD@ + ".timer"@]),
{
    orden_de_usuario("stop", unidad_con(".timer"))
}

/// Las órdenes de `systemctl` que activan el temporizador recién escrito.
pub fn ordenes_para_instalar() -> (r: Vec<Vec<String>>)
    ensures
        r@.len() == 2,
        vistas(r@[0]@) == de_usuario(seq!["daemon-reload"@]),
        vistas(r@[1]@) == de_usuario(seq!["enable"@, "--now"@, UNIDAD@ + ".timer"@]),
{
    let mut recarga: Vec<String> = Vec::new();
    recarga.push("--user".to_string());
    recarga.push("daemon-reload".to_string());
    let mut activa: Vec<String> = Vec::new();
    activa.push("--user".to_string());
    activa.push("enable".to_string());
    activa.push("--now".to_string());
    activa.push(unidad_con(".timer"));
    proof {
        assert(vistas(recarga@) =~= de_usuario(seq!["daemon-reload"@]));
        assert(vistas(activa@) =~= de_usuario(seq!["enable"@, "--now"@, UNIDAD@ + ".timer"@]));
    }
    let mut r: Vec<Vec<String>> = Vec::new();
    r.push(recarga);
    r.push(activa);
    r
}

/// Las órdenes de `systemctl` que retiran el temporizador: se desactiva y,
/// una vez borradas las unidades, se recarga.
pub fn ordenes_para_desinstalar() -> (r: Vec<Vec<String>>)
    ensures
        r@.len() == 2,
        vistas(r@[0]@) == de_usuario(seq!["disable"@, "--now"@, UNIDAD@ + ".timer"@]),
        vistas(r@[1]@) == de_usuario(seq!["daemon-reload"@]),
{
    let mut desactiva: Vec<String> = Vec::new();
    desactiva.push("--user".to_string());
    desactiva.push("disable".to_string());
    desactiva.push("--now".to_string());
    desactiva.push(unidad_con(".timer"));
    let mut recarga: Vec<String> = Vec::new();
    recarga.push("--user".to_string());
    recarga.push("daemon-reload".to_string());
    proof {
        assert(vistas(recarga@) =~= de_usuario(seq!["daemon-reload"@]));
        assert(vistas(desactiva@) =~= de_usuario(
            seq!["disable"@, "--now"@, UNIDAD@ + ".timer"@],
        ));
    }
    let mut r: Vec<Vec<String>> = Vec::new();
    r.push(desactiva);
    r.push(recarga);
    r
}

/// La orden que pregunta si el temporizador está activo.
pub fn orden_de_consulta() -> (r: Vec<String>)
    ensures
        vistas(r@) == de_usuario(seq!["is-active"@, UNIDAD@ + ".timer"@]),
{
    orden_de_usuario("is-active", unidad_con(".timer"))
}

/// El error de una sesión sin systemd de usuario.
pub fn sin_systemd() -> (e: Error)
    ensures
        e matches Error::DefinicionInvalida(m) && m@
            == "esta sesión no tiene systemd de usuario; instala el temporizador a mano"@,
{
    Error::DefinicionInvalida(
        "esta sesión no tiene systemd de usuario; instala el temporizador a mano".to_string(),
    )
}

} // verus!
