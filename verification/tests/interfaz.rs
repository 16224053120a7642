use yonder::error::Error;
use yonder::modelo::Host;
use yonder::state::machine::{Estado, EstadoTunel};
use yonder::ui::iconos::{todos, Icono};
use yonder::ui::lista::{
    accion_secundaria, ayuda_de_saltos, chip_de_saltos, encendido, resumen_temporal,
};
use yonder::ui::modales::{EstadoClaveHost, EstadoCopiarClave};

#[test]
fn el_catalogo_no_tiene_duplicados() {
    let mut nombres: Vec<&str> = todos().iter().map(|i| i.nombre()).collect();
    let total = nombres.len();
    nombres.sort_unstable();
    nombres.dedup();
    assert_eq!(nombres.len(), total, "hay iconos repetidos en el catálogo");
}

#[test]
fn cada_icono_tiene_su_fichero() {
    assert_eq!(Icono::TUNEL.nombre(), "waypoints");
    assert_eq!(Icono::LLAVE_FISICA.nombre(), "usb");
    assert_eq!(Icono::BASE_DATOS.nombre(), "database");
    assert_eq!(todos().len(), 54);
}

fn estado(e: Estado) -> EstadoTunel {
    let mut t = EstadoTunel::nuevo("t");
    t.estado = e;
    t
}

#[test]
fn el_resumen_dice_lo_mas_util() {
    assert_eq!(resumen_temporal(&estado(Estado::Activo), 125, None), "activo 2 min");
    let mut r = estado(Estado::Reintentando);
    assert_eq!(resumen_temporal(&r, 0, Some(4500)), "reintento en 4 s");
    assert_eq!(resumen_temporal(&r, 0, Some(0)), "intento 1");
    r.intento = 3;
    assert_eq!(resumen_temporal(&r, 0, None), "intento 3");
    let mut d = estado(Estado::Degradado);
    assert_eq!(resumen_temporal(&d, 0, None), "degradado");
    d.ultimo_error = Some("el puerto local no está en escucha".into());
    assert_eq!(resumen_temporal(&d, 0, None), "puerto caído");
    d.ultimo_error = Some("no saluda".into());
    assert_eq!(resumen_temporal(&d, 0, None), "no responde");
    let mut f = estado(Estado::Fallido);
    f.intento = 10;
    assert_eq!(resumen_temporal(&f, 0, None), "10 intentos fallidos");
    assert_eq!(resumen_temporal(&estado(Estado::Definido), 0, None), "");
}

#[test]
fn el_interruptor_y_la_accion_del_estado() {
    assert!(!encendido(Estado::Definido));
    assert!(!encendido(Estado::Fallido));
    assert!(encendido(Estado::Degradado));
    assert!(encendido(Estado::Conectando));
    assert_eq!(accion_secundaria(Estado::Reintentando), Some("Ahora"));
    assert_eq!(accion_secundaria(Estado::Degradado), Some("Reparar"));
    assert_eq!(accion_secundaria(Estado::Activo), None);
}

#[test]
fn el_chip_de_saltos() {
    assert_eq!(chip_de_saltos(&vec![]), None);
    assert_eq!(chip_de_saltos(&vec!["bastion".into()]), Some("vía bastion".into()));
    let dos = vec!["a".to_string(), "b".to_string()];
    assert_eq!(chip_de_saltos(&dos), Some("2 saltos".into()));
    assert_eq!(ayuda_de_saltos(&dos), "ProxyJump: a → b");
}

#[test]
fn el_dialogo_de_clave_de_host() {
    let mut host = Host::nuevo("bastion");
    host.hostname = Some("bastion.example.org".into());
    let mut e = EstadoClaveHost::nuevo(Some(&host), "bastion");
    assert_eq!(e.host, "bastion.example.org");
    assert_eq!(e.puerto, 22);
    assert!(e.hay_que_escanear());
    e.empezar_escaneo(true);
    assert!(!e.hay_que_escanear());
    assert!(e.ya_conocido);
    e.al_terminar(Err(Error::Cancelada));
    assert_eq!(e.error.as_deref(), Some("la operación fue cancelada por el usuario"));
    assert!(!e.hay_que_escanear());

    let sin = EstadoClaveHost::nuevo(None, "otro");
    assert_eq!(sin.host, "otro");
}

#[test]
fn el_dialogo_de_copia_de_clave() {
    let mut e = EstadoCopiarClave::nuevo("b", vec!["/k.pub".into()]);
    assert_eq!(e.clave_elegida().map(|s| s.as_str()), Some("/k.pub"));
    e.elegida = 3;
    assert!(e.clave_elegida().is_none());
    e.al_terminar(Ok(()), true);
    assert!(matches!(&e.resultado, Some(Ok(t)) if t.starts_with("Clave instalada. Comprobado")));
    e.al_terminar(Ok(()), false);
    assert!(matches!(&e.resultado, Some(Ok(t)) if t.contains("todavía no funciona")));
    e.al_terminar(Err(Error::Cancelada), false);
    assert!(matches!(&e.resultado, Some(Err(_))));
}
