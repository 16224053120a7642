use yonder::modelo::{Extremo, Host, Reenvio, Salud, TipoReenvio};
use yonder::ui::editor::{EstadoEditor, FilaReenvio};

fn fila(puerto: &str, host: &str, destino: &str) -> FilaReenvio {
    let mut f = FilaReenvio::nueva();
    f.puerto_escucha = puerto.into();
    f.host_destino = host.into();
    f.puerto_destino = destino.into();
    f
}

#[test]
fn una_fila_nueva_apunta_a_localhost() {
    let f = FilaReenvio::nueva();
    assert_eq!(f.tipo, TipoReenvio::Local);
    assert_eq!(f.host_destino, "localhost");
    assert_eq!(f.ruta_http, "/");
    assert_eq!(f.salud, Salud::Escucha);
}

#[test]
fn la_fila_explica_por_que_no_vale() {
    assert_eq!(
        fila(" 80x ", "h", "80").a_reenvio().unwrap_err(),
        "«80x» no es un puerto válido"
    );
    assert_eq!(fila("0", "h", "80").a_reenvio().unwrap_err(), "el puerto 0 no es válido");
    assert_eq!(fila("80", "  ", "80").a_reenvio().unwrap_err(), "falta el host de destino");
    assert_eq!(
        fila("80", "h", "").a_reenvio().unwrap_err(),
        "«» no es un puerto válido"
    );
    assert_eq!(
        fila("80", "h", "0").a_reenvio().unwrap_err(),
        "el puerto de destino no puede ser 0"
    );
}

#[test]
fn la_fila_se_convierte_en_reenvio() {
    let mut f = fila(" 3000 ", " db.interno ", "5432");
    f.direccion_escucha = "  ".into();
    f.salud = Salud::Http { ruta: "lo-de-antes".into() };
    f.ruta_http = "  /salud ".into();
    let r = f.a_reenvio().unwrap();
    assert_eq!(r.escucha, Extremo::solo_puerto(3000));
    assert_eq!(r.destino, Some(Extremo::nuevo("db.interno", 5432)));
    assert_eq!(r.salud, Salud::Http { ruta: "/salud".into() });

    // Un reenvío remoto no se sondea desde aquí.
    f.tipo = TipoReenvio::Remoto;
    assert_eq!(f.a_reenvio().unwrap().salud, Salud::Escucha);

    // Un SOCKS no tiene destino ni sonda.
    f.tipo = TipoReenvio::Dinamico;
    f.host_destino = String::new();
    let d = f.a_reenvio().unwrap();
    assert_eq!(d.destino, None);
    assert_eq!(d.salud, Salud::Escucha);
}

#[test]
fn la_ruta_http_vacia_es_la_raiz() {
    let mut f = FilaReenvio::nueva();
    f.salud = Salud::Http { ruta: "/x".into() };
    f.ruta_http = "   ".into();
    assert_eq!(f.salud_efectiva(), Salud::Http { ruta: "/".into() });
    f.salud = Salud::Banner;
    assert_eq!(f.salud_efectiva(), Salud::Banner);
}

#[test]
fn el_editor_de_un_host_trae_sus_datos() {
    let mut host = Host::nuevo("preprod");
    host.hostname = Some("10.0.0.5".into());
    host.puerto = Some(2222);
    host.saltos = vec!["bastion".into(), "interno".into()];
    host.identidades = vec!["~/.ssh/id_ed25519_sk".into(), "~/.ssh/otra".into()];
    host.reenvios.push(
        Reenvio::local(Extremo::solo_puerto(3000), Extremo::nuevo("localhost", 3000))
            .con_salud(Salud::Http { ruta: "/api".into() }),
    );
    let e = EstadoEditor::de(&host);
    assert_eq!(e.titulo(), "Editar «preprod»");
    assert_eq!(e.hostname, "10.0.0.5");
    assert_eq!(e.puerto, "2222");
    assert_eq!(e.saltos, "bastion, interno");
    assert_eq!(e.identidad, "~/.ssh/id_ed25519_sk");
    assert_eq!(e.reenvios.len(), 1);
    assert_eq!(e.reenvios[0].puerto_escucha, "3000");
    assert_eq!(e.reenvios[0].puerto_destino, "3000");
    assert_eq!(e.reenvios[0].ruta_http, "/api");

    let nuevo = EstadoEditor::nuevo();
    assert_eq!(nuevo.titulo(), "Nuevo túnel");
    assert_eq!(nuevo.reenvios.len(), 1);
}

#[test]
fn construir_acumula_los_errores() {
    let mut e = EstadoEditor::nuevo();
    e.alias = "pre*".into();
    e.puerto = "99999".into();
    e.reenvios = vec![fila("abc", "h", "1")];
    assert!(e.construir(true, "orden", &vec![]).is_none());
    assert_eq!(
        e.errores,
        vec![
            "«99999» no es un puerto SSH válido".to_string(),
            "Reenvío 1: «abc» no es un puerto válido".to_string(),
            "definición de túnel no válida: el alias no puede contener comodines: sería un patrón, no un host concreto".to_string(),
        ]
    );
}

#[test]
fn sin_reenvios_no_se_guarda() {
    let mut e = EstadoEditor::nuevo();
    e.alias = "preprod".into();
    e.reenvios = vec![];
    assert!(e.construir(true, "orden", &vec![]).is_none());
    assert_eq!(e.errores[0], "Hay que definir al menos un reenvío");
}

#[test]
fn construir_da_el_host_y_los_avisos() {
    let mut e = EstadoEditor::nuevo();
    e.alias = " preprod ".into();
    e.hostname = "10.0.0.5".into();
    e.saltos = " bastion , ,interno".into();
    e.identidad = " ~/.ssh/id ".into();
    let mut abierta = fila("80", "localhost", "8080");
    abierta.direccion_escucha = "0.0.0.0".into();
    e.reenvios = vec![abierta, fila("5432", "db", "5432")];
    let ocupacion = vec![None, Some("el puerto local 5432 ya está ocupado".to_string())];
    let host = e.construir(false, "sudo setcap x", &ocupacion).unwrap();
    assert!(e.errores.is_empty());
    assert_eq!(host.alias, "preprod");
    assert_eq!(host.saltos, vec!["bastion".to_string(), "interno".to_string()]);
    assert_eq!(host.identidades, vec!["~/.ssh/id".to_string()]);
    assert_eq!(host.reenvios.len(), 2);
    assert_eq!(
        e.avisos,
        vec![
            "El puerto 80 es privilegiado y este proceso no tiene CAP_NET_BIND_SERVICE. Concédela con:\n    sudo setcap x".to_string(),
            "El reenvío del puerto 80 escucha en todas las interfaces: cualquiera de tu red podrá usarlo.".to_string(),
            "el puerto local 5432 ya está ocupado".to_string(),
        ]
    );

    // El borrador da el mismo host sin tocar el formulario.
    let (borrador, errores) = e.borrador();
    assert!(errores.is_empty());
    assert_eq!(borrador.reenvios.len(), 2);
}
