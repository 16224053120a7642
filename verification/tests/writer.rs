use yonder::config::parser::Documento;
use yonder::config::writer::{
    asegurar_fichero_propio, asegurar_include, eliminar_host, estado_include, renombrar_host,
    sincronizar_host, EstadoInclude,
};
use yonder::modelo::{Extremo, Host, Origen, Reenvio, Salud};
use yonder::Error;

fn documento(texto: &str) -> Documento {
    Documento::analizar("/dev/null", texto)
}

#[test]
fn anadir_un_host_nuevo() {
    let mut doc = documento("# cabecera\n");
    let mut host = Host::nuevo("preprod");
    host.hostname = Some("host.interno".into());
    host.usuario = Some("usuario".into());
    host.reenvios.push(Reenvio::local(
        Extremo::solo_puerto(3000),
        Extremo::nuevo("localhost", 3000),
    ));
    sincronizar_host(&mut doc, &host).unwrap();

    let texto = doc.a_texto();
    assert!(texto.contains("Host preprod"));
    assert!(texto.contains("    HostName host.interno"));
    assert!(texto.contains("    LocalForward 3000 localhost:3000"));
    assert!(texto.contains("    ExitOnForwardFailure yes"));
    assert!(texto.starts_with("# cabecera"));
}

#[test]
fn editar_preserva_comentarios_y_directivas_ajenas() {
    let original = "\
# nota: mi entorno
Host preprod
    HostName viejo.example
    # comentario en medio
    Compression yes
    LocalForward 3000 localhost:3000
    RequestTTY no
";
    let mut doc = documento(original);
    let mut host = doc
        .bloque("preprod")
        .unwrap()
        .a_host(Origen::Propio)
        .unwrap();
    host.hostname = Some("nuevo.example".into());
    host.reenvios.push(Reenvio::local(
        Extremo::solo_puerto(5432),
        Extremo::nuevo("db.interno", 5432),
    ));
    sincronizar_host(&mut doc, &host).unwrap();

    let texto = doc.a_texto();
    assert!(texto.contains("HostName nuevo.example"));
    assert!(!texto.contains("viejo.example"));
    assert!(texto.contains("# comentario en medio"));
    assert!(texto.contains("Compression yes"));
    assert!(texto.contains("RequestTTY no"));
    assert!(texto.contains("LocalForward 3000 localhost:3000"));
    assert!(texto.contains("LocalForward 5432 db.interno:5432"));
    assert!(texto.contains("# nota: mi entorno"));
}

#[test]
fn quitar_un_reenvio_borra_solo_su_linea() {
    let mut doc = documento(
        "Host preprod\n    LocalForward 3000 localhost:3000\n    LocalForward 5432 db:5432\n    Compression yes\n",
    );
    let mut host = doc
        .bloque("preprod")
        .unwrap()
        .a_host(Origen::Propio)
        .unwrap();
    assert_eq!(host.reenvios.len(), 2);
    host.hostname = Some("h".into());
    host.reenvios.retain(|r| r.escucha.puerto != 3000);
    sincronizar_host(&mut doc, &host).unwrap();

    let texto = doc.a_texto();
    assert!(!texto.contains("LocalForward 3000"));
    assert!(texto.contains("LocalForward 5432 db:5432"));
    assert!(texto.contains("Compression yes"));
}

#[test]
fn quitar_el_proxyjump_borra_la_directiva() {
    let mut doc = documento("Host p\n    HostName h\n    ProxyJump salto\n");
    let mut host = doc.bloque("p").unwrap().a_host(Origen::Propio).unwrap();
    host.saltos.clear();
    sincronizar_host(&mut doc, &host).unwrap();
    assert!(!doc.a_texto().contains("ProxyJump"));
}

#[test]
fn renombrar_conserva_el_cuerpo() {
    let mut doc = documento("Host viejo\n    HostName h\n    Compression yes\n");
    renombrar_host(&mut doc, "viejo", "nuevo").unwrap();
    let texto = doc.a_texto();
    assert!(texto.contains("Host nuevo"));
    assert!(texto.contains("Compression yes"));
    assert!(!texto.contains("Host viejo"));
}

#[test]
fn renombrar_a_uno_existente_falla() {
    let mut doc = documento("Host a\n    HostName h\n\nHost b\n    HostName h\n");
    assert!(matches!(
        renombrar_host(&mut doc, "a", "b"),
        Err(Error::HostDuplicado(_))
    ));
}

#[test]
fn eliminar_borra_el_bloque_y_sus_comentarios() {
    let mut doc = documento("# nota: una\nHost a\n    HostName h\n\nHost b\n    HostName h\n");
    eliminar_host(&mut doc, "a").unwrap();
    let texto = doc.a_texto();
    assert!(!texto.contains("Host a"));
    assert!(!texto.contains("# nota: una"));
    assert!(texto.contains("Host b"));
}

#[test]
fn los_duplicados_de_una_directiva_unica_se_colapsan() {
    let mut doc = documento("Host a\n    HostName uno\n    HostName dos\n");
    let mut host = doc.bloque("a").unwrap().a_host(Origen::Propio).unwrap();
    host.hostname = Some("tres".into());
    sincronizar_host(&mut doc, &host).unwrap();
    let texto = doc.a_texto();
    assert_eq!(texto.matches("HostName").count(), 1);
    assert!(texto.contains("HostName tres"));
}

#[test]
fn el_nombre_va_y_vuelve_pegado_a_su_reenvio() {
    let mut doc = documento("");
    let mut host = Host::nuevo("salto");
    host.hostname = Some("192.0.2.10".into());
    host.reenvios.push(
        Reenvio::local(
            Extremo::solo_puerto(1522),
            Extremo::nuevo("192.0.2.30", 1521),
        )
        .con_nombre(Some("oracle-preprod".into())),
    );
    host.reenvios.push(
        Reenvio::local(
            Extremo::solo_puerto(3000),
            Extremo::nuevo("192.0.2.50", 3000),
        )
        .con_salud(Salud::Http {
            ruta: "/api/health".into(),
        })
        .con_nombre(Some("api-health".into())),
    );
    host.reenvios.push(Reenvio::local(
        Extremo::solo_puerto(2222),
        Extremo::nuevo("192.0.2.40", 22),
    ));
    sincronizar_host(&mut doc, &host).unwrap();

    let texto = doc.a_texto();
    assert!(texto.contains("    # nombre: oracle-preprod\n    LocalForward 1522"));
    assert!(texto.contains(
        "    # nombre: api-health\n    # salud: http:/api/health\n    LocalForward 3000"
    ));
    assert!(!texto.contains("nombre: puerto"));

    let vuelta = doc.bloque("salto").unwrap().a_host(Origen::Propio).unwrap();
    assert_eq!(vuelta.reenvios[0].nombre.as_deref(), Some("oracle-preprod"));
    assert_eq!(vuelta.reenvios[1].nombre.as_deref(), Some("api-health"));
    assert_eq!(vuelta.reenvios[2].nombre, None);
}

#[test]
fn sin_nombre_propio_se_deriva_del_destino_y_nunca_del_alias() {
    let oracle = Reenvio::local(Extremo::solo_puerto(1522), Extremo::nuevo("interno", 1521));
    assert_eq!(oracle.nombre_visible(), "oracle-1521");
    let raro = Reenvio::local(Extremo::solo_puerto(9418), Extremo::nuevo("interno", 9418));
    assert_eq!(raro.nombre_visible(), "puerto-9418");
    assert_eq!(
        oracle
            .con_nombre(Some("  base-preprod  ".into()))
            .nombre_visible(),
        "base-preprod"
    );
}

#[test]
fn la_marca_de_salud_va_y_vuelve_pegada_a_su_reenvio() {
    let mut doc = documento("");
    let mut host = Host::nuevo("salto");
    host.hostname = Some("192.0.2.10".into());
    host.reenvios.push(Reenvio::local(
        Extremo::solo_puerto(5001),
        Extremo::nuevo("192.0.2.20", 5001),
    ));
    host.reenvios.push(
        Reenvio::local(
            Extremo::solo_puerto(3000),
            Extremo::nuevo("192.0.2.50", 3000),
        )
        .con_salud(Salud::Http {
            ruta: "/api/health".into(),
        }),
    );
    host.reenvios.push(
        Reenvio::local(Extremo::solo_puerto(2222), Extremo::nuevo("192.0.2.40", 22))
            .con_salud(Salud::Banner),
    );
    sincronizar_host(&mut doc, &host).unwrap();

    let texto = doc.a_texto();
    assert!(texto.contains("    # salud: http:/api/health\n    LocalForward 3000"));
    assert!(texto.contains("    # salud: banner\n    LocalForward 2222"));
    assert!(!texto.contains("# salud: escucha"));

    let vuelta = doc.bloque("salto").unwrap().a_host(Origen::Propio).unwrap();
    assert_eq!(vuelta.reenvios.len(), 3);
    assert_eq!(vuelta.reenvios[0].salud, Salud::Escucha);
    assert_eq!(
        vuelta.reenvios[1].salud,
        Salud::Http {
            ruta: "/api/health".into()
        }
    );
    assert_eq!(vuelta.reenvios[2].salud, Salud::Banner);
}

#[test]
fn quitar_la_salud_borra_su_marca_y_no_deja_huerfanas() {
    let original = "Host a\n    HostName h\n    # salud: banner\n    LocalForward 22 x:22\n";
    let mut doc = documento(original);
    let mut host = doc.bloque("a").unwrap().a_host(Origen::Propio).unwrap();
    assert_eq!(host.reenvios[0].salud, Salud::Banner);

    host.reenvios[0].salud = Salud::Escucha;
    sincronizar_host(&mut doc, &host).unwrap();

    let texto = doc.a_texto();
    assert!(
        !texto.contains("salud:"),
        "quedó una marca huérfana:\n{texto}"
    );
    assert!(texto.contains("LocalForward 22 x:22"));
}

#[test]
fn la_marca_no_se_pega_al_reenvio_equivocado_al_borrar_uno() {
    let original = "Host a\n    HostName h\n\
                    \x20   # salud: banner\n    LocalForward 22 x:22\n\
                    \x20   # salud: http:/ok\n    LocalForward 80 y:80\n";
    let mut doc = documento(original);
    let mut host = doc.bloque("a").unwrap().a_host(Origen::Propio).unwrap();
    host.reenvios.retain(|r| r.escucha.puerto != 22);
    sincronizar_host(&mut doc, &host).unwrap();

    let vuelta = doc.bloque("a").unwrap().a_host(Origen::Propio).unwrap();
    assert_eq!(vuelta.reenvios.len(), 1);
    assert_eq!(vuelta.reenvios[0].escucha.puerto, 80);
    assert_eq!(
        vuelta.reenvios[0].salud,
        Salud::Http { ruta: "/ok".into() },
        "el 80 se quedó con la salud del 22"
    );
    assert!(!doc.a_texto().contains("banner"));
}

#[test]
fn se_escribe_tcpkeepalive_entre_las_directivas_de_robustez() {
    let mut doc = documento("");
    let mut host = Host::nuevo("a");
    host.hostname = Some("h".into());
    host.reenvios.push(Reenvio::local(
        Extremo::solo_puerto(80),
        Extremo::nuevo("x", 80),
    ));
    sincronizar_host(&mut doc, &host).unwrap();
    assert!(doc.a_texto().contains("TCPKeepAlive yes"));
}

#[test]
fn la_ida_y_vuelta_es_estable() {
    let mut doc = documento("Host a\n    HostName h\n    LocalForward 80 web:80\n");
    let host = doc.bloque("a").unwrap().a_host(Origen::Propio).unwrap();
    sincronizar_host(&mut doc, &host).unwrap();
    let primera = doc.a_texto();
    let host = doc.bloque("a").unwrap().a_host(Origen::Propio).unwrap();
    sincronizar_host(&mut doc, &host).unwrap();
    assert_eq!(
        primera,
        doc.a_texto(),
        "sincronizar dos veces debe ser idempotente"
    );
}

// --- Comprobaciones propias ------------------------------------------------------

#[test]
fn un_host_no_valido_no_toca_el_documento() {
    let mut doc = documento("Host a\n    HostName h\n");
    let antes = doc.a_texto();
    let host = Host::nuevo("tunel-*");
    assert!(matches!(
        sincronizar_host(&mut doc, &host),
        Err(Error::DefinicionInvalida(_))
    ));
    assert_eq!(doc.a_texto(), antes);
}

#[test]
fn eliminar_un_desconocido_falla() {
    let mut doc = documento("Host a\n");
    assert!(matches!(
        eliminar_host(&mut doc, "b"),
        Err(Error::HostDesconocido(_))
    ));
}

#[test]
fn renombrar_un_desconocido_falla() {
    let mut doc = documento("Host a\n");
    assert!(matches!(
        renombrar_host(&mut doc, "b", "c"),
        Err(Error::HostDesconocido(_))
    ));
}

#[test]
fn el_host_nuevo_se_separa_con_una_linea_en_blanco() {
    let mut doc = documento("Host a\n    HostName h\n");
    let mut host = Host::nuevo("b");
    host.hostname = Some("otro".into());
    sincronizar_host(&mut doc, &host).unwrap();
    assert!(doc.a_texto().contains("HostName h\n\nHost b\n"));
}

#[test]
fn la_nota_se_escribe_bajo_el_encabezado() {
    let mut doc = documento("");
    let mut host = Host::nuevo("a");
    host.hostname = Some("h".into());
    host.nota = Some("  pruebas  ".into());
    sincronizar_host(&mut doc, &host).unwrap();
    assert!(doc.a_texto().starts_with("Host a\n    # nota: pruebas\n"));
}

#[test]
fn el_fichero_propio_vacio_recibe_su_cabecera() {
    let mut doc = documento("");
    assert!(asegurar_fichero_propio(&mut doc));
    assert!(doc.a_texto().starts_with("# Fichero gestionado por «yonder»."));
    assert!(!asegurar_fichero_propio(&mut doc));
}

#[test]
fn el_include_se_detecta_y_se_antepone() {
    let objetivo = "/home/u/.ssh/config.d/yonder.conf";
    let con = documento("Include ~/.ssh/config.d/yonder.conf\nHost *\n");
    assert_eq!(
        estado_include(Some(&con), objetivo, "/home/u/.ssh", "/home/u"),
        EstadoInclude::Presente
    );
    let mut sin = documento("Host *\n    User u\n");
    let estado = estado_include(Some(&sin), objetivo, "/home/u/.ssh", "/home/u");
    assert_eq!(estado, EstadoInclude::Ausente);
    assert!(asegurar_include(estado, &mut sin));
    assert!(sin
        .a_texto()
        .starts_with("Include ~/.ssh/config.d/yonder.conf\n# línea añadida"));
    assert_eq!(
        estado_include(None, objetivo, "/home/u/.ssh", "/home/u"),
        EstadoInclude::SinFichero
    );
}
