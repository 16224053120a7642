//! Ciclo de vida de la conexión maestra.
//!
//! Se abre **una** conexión maestra por alias, desprendida con `-fN`, y sobre
//! ella se activan y cancelan reenvíos en caliente. El maestro sobrevive al
//! cierre de la ventana: la aplicación es un panel, no un demonio.
//!
//! Detalle que decide todo el diseño: el maestro se abre con
//! `ClearAllForwardings=yes`. Así arranca **sin ningún reenvío**, aunque el
//! bloque `Host` del fichero declare varios, y cada túnel se activa por
//! separado con `-O forward`.

use vstd::prelude::*;

use crate::error::Error;
use crate::modelo::Host;
use crate::ssh::control::Control;
use crate::ssh::{traduccion_de, texto_util, Salida};
use crate::texto::{
    anexar_str, cadena, caracteres, contiene, contiene_str, decimal, decimal_cadena,
    en_minusculas, minusculas, vistas,
};

verus! {

broadcast use vstd::string::group_string_axioms;

/// Ajustes de apertura del maestro.
#[derive(Debug, Clone, Copy)]
pub struct OpcionesMaestro {
    /// Segundos que `ssh` espera a establecer la conexión TCP.
    pub espera_conexion: u32,
    /// `ServerAliveInterval`.
    pub intervalo_latido: u32,
    /// `ServerAliveCountMax`.
    pub latidos_perdidos: u32,
    /// `BatchMode=yes` impide cualquier prompt. Útil para comprobaciones
    /// automáticas donde colgarse esperando una contraseña sería peor que fallar.
    pub sin_interaccion: bool,
}

impl Default for OpcionesMaestro {
    fn default() -> (r: OpcionesMaestro)
        ensures
            r.espera_conexion == 15,
            r.intervalo_latido == 15,
            r.latidos_perdidos == 3,
            !r.sin_interaccion,
    {
        OpcionesMaestro {
            espera_conexion: 15,
            intervalo_latido: 15,
            latidos_perdidos: 3,
            sin_interaccion: false,
        }
    }
}

/// La conexión maestra de un alias.
#[derive(Debug)]
pub struct Maestro {
    pub control: Control,
}

pub open spec fn opcion(clave: Seq<char>, valor: Seq<char>) -> Seq<Seq<char>> {
    seq!["-o"@, clave + "="@ + valor]
}

/// Argumentos con que se abre el maestro.
pub open spec fn argumentos_apertura(socket: Seq<char>, alias: Seq<char>, o: OpcionesMaestro) -> Seq<
    Seq<char>,
> {
    seq!["-M"@, "-f"@, "-N"@, "-S"@, socket]
        + opcion("ClearAllForwardings"@, "yes"@)
        + opcion("ExitOnForwardFailure"@, "yes"@)
        + opcion("ControlPersist"@, "yes"@)
        + opcion("ConnectTimeout"@, decimal(o.espera_conexion as nat))
        + opcion("ServerAliveInterval"@, decimal(o.intervalo_latido as nat))
        + opcion("ServerAliveCountMax"@, decimal(o.latidos_perdidos as nat))
        + opcion("StrictHostKeyChecking"@, "yes"@)
        + (if o.sin_interaccion {
        opcion("BatchMode"@, "yes"@)
    } else {
        seq![]
    }) + seq![alias]
}

fn empujar_opcion(argumentos: &mut Vec<String>, clave: &str, valor: &str)
    ensures
        vistas(final(argumentos)@) == vistas(old(argumentos)@) + opcion(clave@, valor@),
{
    argumentos.push("-o".to_string());
    let mut c = caracteres(clave);
    anexar_str(&mut c, "=");
    anexar_str(&mut c, valor);
    argumentos.push(cadena(c.as_slice()));
    proof {
        assert(vistas(final(argumentos)@) =~= vistas(old(argumentos)@) + opcion(clave@, valor@));
    }
}

impl Maestro {
    /// El maestro de un alias, con su socket en el directorio de ejecución.
    pub fn de(ejecucion: &str, alias: &str) -> (r: Maestro)
        ensures
            r.control.alias@ == alias@,
            r.control.socket@ == crate::rutas::unida(
                ejecucion@,
                crate::rutas::PREFIJO_SOCKET@ + crate::rutas::huella(alias@),
            ),
    {
        Maestro { control: Control::de(ejecucion, alias) }
    }

    /// Argumentos de `ssh` para abrir el maestro.
    ///
    /// Nace sin reenvíos (`ClearAllForwardings`), persiste tras el cliente
    /// inicial, y **nunca** acepta claves de host a ciegas: la verificación
    /// la hace la aplicación mostrando el fingerprint.
    pub fn argumentos_de_apertura(&self, host: &Host, opciones: &OpcionesMaestro) -> (r: Vec<
        String,
    >)
        ensures
            vistas(r@) == argumentos_apertura(self.control.socket@, host@.alias, *opciones),
    {
        let mut a: Vec<String> = Vec::new();
        a.push("-M".to_string());
        a.push("-f".to_string());
        a.push("-N".to_string());
        a.push("-S".to_string());
        a.push(self.control.socket.clone());
        proof {
            assert(vistas(a@) =~= seq!["-M"@, "-f"@, "-N"@, "-S"@, self.control.socket@]);
        }
        empujar_opcion(&mut a, "ClearAllForwardings", "yes");
        empujar_opcion(&mut a, "ExitOnForwardFailure", "yes");
        empujar_opcion(&mut a, "ControlPersist", "yes");
        let v = decimal_cadena(opciones.espera_conexion as u64);
        empujar_opcion(&mut a, "ConnectTimeout", v.as_str());
        let v = decimal_cadena(opciones.intervalo_latido as u64);
        empujar_opcion(&mut a, "ServerAliveInterval", v.as_str());
        let v = decimal_cadena(opciones.latidos_perdidos as u64);
        empujar_opcion(&mut a, "ServerAliveCountMax", v.as_str());
        empujar_opcion(&mut a, "StrictHostKeyChecking", "yes");
        let ghost antes = vistas(a@);
        if opciones.sin_interaccion {
            empujar_opcion(&mut a, "BatchMode", "yes");
        } else {
            proof {
                assert(antes + seq![] =~= antes);
            }
        }
        let ghost medio = a@;
        a.push(host.alias.clone());
        proof {
            assert(vistas(a@) =~= vistas(medio).push(host.alias@));
            assert(vistas(a@) =~= argumentos_apertura(self.control.socket@, host@.alias, *opciones));
        }
        a
    }
}

/// La causa del fallo de apertura: si tiene que ver con la clave del host se
/// añade qué hacer.
pub open spec fn salida_de_apertura(diagnostico: Seq<char>) -> Seq<char> {
    let m = minusculas(diagnostico);
    if contiene(m, "clave del host"@) || contiene(m, "host key"@) {
        diagnostico + "\n    Verifica la clave del host desde la aplicación antes de conectar."@
    } else {
        diagnostico
    }
}

/// Convierte el fallo de apertura en un error con la causa concreta.
pub fn error_de_apertura(alias: &str, salida: &Salida) -> (e: Error)
    ensures
        e matches Error::OrdenFallida { orden, codigo, salida: s } && orden@ == "ssh -M "@ + alias@
            && codigo == match salida.codigo {
            Some(c) => c,
            None => -1i32,
        } && s@ == salida_de_apertura(traduccion_de(texto_util(salida.estandar@, salida.error@))),
{
    let diagnostico = salida.diagnostico();
    let d = caracteres(diagnostico.as_str());
    let m = en_minusculas(d.as_slice());
    let mut orden = caracteres("ssh -M ");
    anexar_str(&mut orden, alias);
    let codigo = match salida.codigo {
        Some(c) => c,
        None => -1,
    };
    let texto = if contiene_str(m.as_slice(), "clave del host") || contiene_str(
        m.as_slice(),
        "host key",
    ) {
        let mut t = d;
        anexar_str(
            &mut t,
            "\n    Verifica la clave del host desde la aplicación antes de conectar.",
        );
        cadena(t.as_slice())
    } else {
        diagnostico
    };
    Error::OrdenFallida { orden: cadena(orden.as_slice()), codigo, salida: texto }
}

/// El error de un maestro que terminó bien pero no dejó socket de control.
pub fn error_sin_socket(alias: &str) -> (e: Error)
    ensures
        e matches Error::OrdenFallida { orden, codigo, salida } && orden@ == "ssh -M "@ + alias@
            && codigo == 0 && salida@ == "el maestro terminó sin dejar socket de control"@,
{
    let mut o = crate::texto::caracteres("ssh -M ");
    crate::texto::anexar_str(&mut o, alias);
    Error::OrdenFallida {
        orden: crate::texto::cadena(o.as_slice()),
        codigo: 0,
        salida: "el maestro terminó sin dejar socket de control".to_string(),
    }
}

/// Ley: cómo se abre el maestro. Primero `-M -f -N -S <socket>`; después las
/// opciones, cada una como `-o Clave=valor`: sin reenvíos de partida, fallar
/// si un reenvío no se puede abrir, persistir, el plazo de conexión, el
/// intervalo del latido, **cuántos latidos perdidos** se toleran y nunca
/// aceptar una clave de host a ciegas; `BatchMode=yes` solo si se pide no
/// interactuar; y al final el alias.
pub proof fn ley_argumentos_del_maestro(socket: Seq<char>, alias: Seq<char>, o: OpcionesMaestro)
    ensures
        ({
            let a = argumentos_apertura(socket, alias, o);
            &&& a.len() == if o.sin_interaccion { 22int } else { 20int }
            &&& a[0] == "-M"@ && a[1] == "-f"@ && a[2] == "-N"@ && a[3] == "-S"@ && a[4] == socket
            &&& a[5] == "-o"@ && a[6] == "ClearAllForwardings=yes"@
            &&& a[7] == "-o"@ && a[8] == "ExitOnForwardFailure=yes"@
            &&& a[9] == "-o"@ && a[10] == "ControlPersist=yes"@
            &&& a[11] == "-o"@ && a[12] == "ConnectTimeout="@ + decimal(o.espera_conexion as nat)
            &&& a[13] == "-o"@ && a[14] == "ServerAliveInterval="@ + decimal(
                o.intervalo_latido as nat,
            )
            &&& a[15] == "-o"@ && a[16] == "ServerAliveCountMax="@ + decimal(
                o.latidos_perdidos as nat,
            )
            &&& a[17] == "-o"@ && a[18] == "StrictHostKeyChecking=yes"@
            &&& o.sin_interaccion ==> a[19] == "-o"@ && a[20] == "BatchMode=yes"@
            &&& a[a.len() - 1] == alias
        }),
{
    reveal_strlit("ClearAllForwardings");
    reveal_strlit("ExitOnForwardFailure");
    reveal_strlit("ControlPersist");
    reveal_strlit("StrictHostKeyChecking");
    reveal_strlit("BatchMode");
    reveal_strlit("yes");
    reveal_strlit("=");
    reveal_strlit("ClearAllForwardings=yes");
    reveal_strlit("ExitOnForwardFailure=yes");
    reveal_strlit("ControlPersist=yes");
    reveal_strlit("StrictHostKeyChecking=yes");
    reveal_strlit("BatchMode=yes");
    reveal_strlit("ConnectTimeout");
    reveal_strlit("ConnectTimeout=");
    reveal_strlit("ServerAliveInterval");
    reveal_strlit("ServerAliveInterval=");
    reveal_strlit("ServerAliveCountMax");
    reveal_strlit("ServerAliveCountMax=");
    let a = argumentos_apertura(socket, alias, o);
    let fijas = seq!["-M"@, "-f"@, "-N"@, "-S"@, socket, "-o"@, "ClearAllForwardings"@ + "="@ + "yes"@,
        "-o"@, "ExitOnForwardFailure"@ + "="@ + "yes"@, "-o"@, "ControlPersist"@ + "="@ + "yes"@,
        "-o"@, "ConnectTimeout"@ + "="@ + decimal(o.espera_conexion as nat),
        "-o"@, "ServerAliveInterval"@ + "="@ + decimal(o.intervalo_latido as nat),
        "-o"@, "ServerAliveCountMax"@ + "="@ + decimal(o.latidos_perdidos as nat),
        "-o"@, "StrictHostKeyChecking"@ + "="@ + "yes"@];
    assert("ClearAllForwardings"@ + "="@ + "yes"@ =~= "ClearAllForwardings=yes"@);
    assert("ExitOnForwardFailure"@ + "="@ + "yes"@ =~= "ExitOnForwardFailure=yes"@);
    assert("ControlPersist"@ + "="@ + "yes"@ =~= "ControlPersist=yes"@);
    assert("StrictHostKeyChecking"@ + "="@ + "yes"@ =~= "StrictHostKeyChecking=yes"@);
    assert("BatchMode"@ + "="@ + "yes"@ =~= "BatchMode=yes"@);
    assert("ConnectTimeout"@ + "="@ =~= "ConnectTimeout="@);
    assert("ServerAliveInterval"@ + "="@ =~= "ServerAliveInterval="@);
    assert("ServerAliveCountMax"@ + "="@ =~= "ServerAliveCountMax="@);
    if o.sin_interaccion {
        assert(a =~= fijas + seq!["-o"@, "BatchMode"@ + "="@ + "yes"@, alias]);
    } else {
        assert(a =~= fijas + seq![alias]);
    }
}

} // verus!
