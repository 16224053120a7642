use yonder::modelo::{Extremo, Host, Reenvio, Salud, TipoReenvio, Tunel};

#[test]
fn analiza_reenvio_local_en_dos_campos() {
    let r = Reenvio::analizar(TipoReenvio::Local, "3000 localhost:3000").unwrap();
    assert_eq!(r.escucha, Extremo::solo_puerto(3000));
    assert_eq!(r.destino, Some(Extremo::nuevo("localhost", 3000)));
    assert_eq!(r.argumento(), "3000:localhost:3000");
}

#[test]
fn analiza_reenvio_local_con_direccion_de_escucha() {
    let r = Reenvio::analizar(TipoReenvio::Local, "127.0.0.1:8080 interno:80").unwrap();
    assert_eq!(r.escucha, Extremo::nuevo("127.0.0.1", 8080));
    assert_eq!(r.argumento(), "127.0.0.1:8080:interno:80");
}

fn host_de_ejemplo() -> Host {
    let mut host = Host::nuevo("salto");
    host.hostname = Some("192.0.2.10".into());
    host.usuario = Some("usuario".into());
    host
}

#[test]
fn la_orden_manual_se_sostiene_sin_el_fichero_de_configuracion() {
    let host = host_de_ejemplo();
    let reenvio = Reenvio::analizar(TipoReenvio::Local, "3001 localhost:3001").unwrap();
    assert_eq!(
        host.orden_ssh_manual(&reenvio),
        "ssh -N -L 3001:localhost:3001 usuario@192.0.2.10"
    );
}

#[test]
fn la_orden_manual_no_arrastra_el_andamiaje_de_la_aplicacion() {
    let host = host_de_ejemplo();
    let reenvio = Reenvio::analizar(TipoReenvio::Local, "3001 localhost:3001").unwrap();
    let orden = host.orden_ssh_manual(&reenvio);
    for sobra in [
        "-M",
        "-S",
        "ControlPersist",
        "ClearAllForwardings",
        "ServerAlive",
        "salud",
    ] {
        assert!(
            !orden.contains(sobra),
            "«{sobra}» no pinta nada en «{orden}»"
        );
    }
}

#[test]
fn la_orden_manual_lleva_puerto_saltos_y_clave() {
    let mut host = host_de_ejemplo();
    host.puerto = Some(2222);
    host.saltos = vec!["primero".into(), "segundo".into()];
    host.identidades = vec!["/home/u/.ssh/id_ed25519".into()];
    let reenvio = Reenvio::analizar(TipoReenvio::Local, "8080 interno:80").unwrap();
    assert_eq!(
        host.orden_ssh_manual(&reenvio),
        "ssh -N -L 8080:interno:80 -p 2222 -J primero,segundo \
         -i /home/u/.ssh/id_ed25519 usuario@192.0.2.10"
    );
}

#[test]
fn el_puerto_22_no_se_escribe_por_ser_el_de_por_defecto() {
    let mut host = host_de_ejemplo();
    host.puerto = Some(22);
    let reenvio = Reenvio::analizar(TipoReenvio::Local, "3001 localhost:3001").unwrap();
    assert!(!host.orden_ssh_manual(&reenvio).contains("-p"));
}

#[test]
fn la_orden_manual_entrecomilla_lo_que_la_shell_partiria() {
    let mut host = host_de_ejemplo();
    host.identidades = vec!["/home/u/mis claves/id_ed25519".into()];
    let reenvio = Reenvio::analizar(TipoReenvio::Local, "3001 localhost:3001").unwrap();
    assert!(host
        .orden_ssh_manual(&reenvio)
        .contains("-i '/home/u/mis claves/id_ed25519'"));
}

#[test]
fn la_orden_manual_usa_la_bandera_de_cada_tipo() {
    let host = host_de_ejemplo();
    let remoto = Reenvio::analizar(TipoReenvio::Remoto, "8080 localhost:3000").unwrap();
    assert!(host
        .orden_ssh_manual(&remoto)
        .contains("-R 8080:localhost:3000"));
    let socks = Reenvio::analizar(TipoReenvio::Dinamico, "1080").unwrap();
    assert!(host.orden_ssh_manual(&socks).contains("-D 1080"));
}

#[test]
fn sin_usuario_la_orden_lleva_solo_el_host() {
    let mut host = host_de_ejemplo();
    host.usuario = None;
    let reenvio = Reenvio::analizar(TipoReenvio::Local, "3001 localhost:3001").unwrap();
    assert!(host.orden_ssh_manual(&reenvio).ends_with(" 192.0.2.10"));
}

#[test]
fn la_descripcion_orientada_dice_de_quien_es_cada_localhost() {
    let r = Reenvio::analizar(TipoReenvio::Local, "3001 localhost:3001").unwrap();
    assert_eq!(r.descripcion(), "127.0.0.1:3001 → localhost:3001");
    assert_eq!(
        r.descripcion_orientada(),
        "aquí 127.0.0.1:3001 → remoto localhost:3001"
    );
}

#[test]
fn la_descripcion_orientada_conserva_el_destino_literal() {
    let r = Reenvio::analizar(TipoReenvio::Local, "3000 192.0.2.50:3000").unwrap();
    assert_eq!(
        r.descripcion_orientada(),
        "aquí 127.0.0.1:3000 → remoto 192.0.2.50:3000"
    );
}

#[test]
fn un_reenvio_remoto_tiene_las_puntas_cambiadas() {
    let r = Reenvio::analizar(TipoReenvio::Remoto, "8080 localhost:3000").unwrap();
    assert_eq!(
        r.descripcion_orientada(),
        "remoto :8080 → aquí localhost:3000"
    );
}

#[test]
fn analiza_forma_compacta() {
    let r = Reenvio::analizar(TipoReenvio::Local, "3000:localhost:3000").unwrap();
    assert_eq!(r.escucha.puerto, 3000);
    assert_eq!(r.destino.as_ref().unwrap().puerto, 3000);
}

#[test]
fn analiza_ipv6_entre_corchetes() {
    let r = Reenvio::analizar(TipoReenvio::Local, "[::1]:5432 [fd00::1]:5432").unwrap();
    assert_eq!(r.escucha.direccion.as_deref(), Some("::1"));
    assert_eq!(
        r.destino.as_ref().unwrap().direccion.as_deref(),
        Some("fd00::1")
    );
    assert_eq!(r.valor_directiva(), "[::1]:5432 [fd00::1]:5432");
}

#[test]
fn analiza_dinamico() {
    let r = Reenvio::analizar(TipoReenvio::Dinamico, "1080").unwrap();
    assert_eq!(r.tipo, TipoReenvio::Dinamico);
    assert!(r.destino.is_none());
    assert_eq!(r.argumento(), "1080");
}

#[test]
fn acepta_barra_como_separador() {
    let r = Reenvio::analizar(TipoReenvio::Local, "3000/localhost/3000").unwrap();
    assert_eq!(r.escucha.puerto, 3000);
}

#[test]
fn rechaza_puerto_cero_y_basura() {
    assert!(Reenvio::analizar(TipoReenvio::Local, "0 localhost:22").is_err());
    assert!(Reenvio::analizar(TipoReenvio::Local, "hola adios").is_err());
}

#[test]
fn analiza_las_comprobaciones_de_salud() {
    assert_eq!(Salud::analizar("").unwrap(), Salud::Escucha);
    assert_eq!(Salud::analizar("escucha").unwrap(), Salud::Escucha);
    assert_eq!(Salud::analizar("banner").unwrap(), Salud::Banner);
    assert_eq!(Salud::analizar("tcp").unwrap(), Salud::Conecta);
    assert_eq!(
        Salud::analizar("http:/api/health").unwrap(),
        Salud::Http {
            ruta: "/api/health".into()
        }
    );
    assert_eq!(
        Salud::analizar("http:/-/healthy").unwrap(),
        Salud::Http {
            ruta: "/-/healthy".into()
        }
    );
}

#[test]
fn rechaza_saludes_mal_escritas() {
    assert!(Salud::analizar("http:api/health").is_err());
    assert!(Salud::analizar("ping").is_err());
}

#[test]
fn la_especificacion_va_y_vuelve() {
    for salud in [
        Salud::Escucha,
        Salud::Conecta,
        Salud::Banner,
        Salud::Http {
            ruta: "/-/healthy".into(),
        },
    ] {
        let texto = salud.especificacion();
        assert_eq!(
            Salud::analizar(&texto).unwrap(),
            salud,
            "falló con «{texto}»"
        );
    }
}

#[test]
fn solo_las_saludes_profundas_atraviesan_el_tunel() {
    assert!(!Salud::Escucha.atraviesa_el_tunel());
    assert!(Salud::Conecta.atraviesa_el_tunel());
    assert!(Salud::Banner.atraviesa_el_tunel());
    assert!(Salud::Http { ruta: "/".into() }.atraviesa_el_tunel());
}

#[test]
fn el_id_del_tunel_es_estable() {
    let t = Tunel {
        alias: "preprod".into(),
        reenvio: Reenvio::local(
            Extremo::solo_puerto(3000),
            Extremo::nuevo("localhost", 3000),
        ),
    };
    assert_eq!(t.id(), "preprod|-L|3000");
}

#[test]
fn detecta_claves_de_hardware() {
    let mut host = Host::nuevo("bastion");
    host.identidades.push("~/.ssh/id_ed25519_sk".into());
    assert!(host.usa_clave_hardware());

    let mut normal = Host::nuevo("bastion");
    normal.identidades.push("~/.ssh/id_ed25519".into());
    assert!(!normal.usa_clave_hardware());
}

#[test]
fn rechaza_alias_con_comodin() {
    let host = Host::nuevo("tunel-*");
    assert!(host.validar().is_err());
}

#[test]
fn rechaza_dos_reenvios_en_el_mismo_puerto() {
    let mut host = Host::nuevo("preprod");
    host.hostname = Some("interno".into());
    host.reenvios.push(Reenvio::local(
        Extremo::solo_puerto(3000),
        Extremo::nuevo("localhost", 3000),
    ));
    host.reenvios.push(Reenvio::local(
        Extremo::solo_puerto(3000),
        Extremo::nuevo("otro", 3000),
    ));
    assert!(host.validar().is_err());
}

#[test]
fn rechaza_saltos_de_linea_en_cualquier_campo() {
    let mut host = Host::nuevo("preprod");
    host.hostname = Some("interno".into());
    host.nota = Some("línea\n    ProxyCommand touch /tmp/pwned".into());
    assert!(host.validar().is_err());

    let mut host = Host::nuevo("preprod");
    host.hostname = Some("interno\nProxyCommand true".into());
    assert!(host.validar().is_err());

    let mut host = Host::nuevo("preprod");
    host.hostname = Some("interno".into());
    host.reenvios.push(
        Reenvio::local(
            Extremo::solo_puerto(3000),
            Extremo::nuevo("localhost", 3000),
        )
        .con_salud(Salud::Http {
            ruta: "/salud\nProxyCommand true".into(),
        }),
    );
    assert!(host.validar().is_err());
}

#[test]
fn rechaza_valores_que_ssh_tomaria_por_opciones() {
    let host = Host::nuevo("-oProxyCommand=true");
    assert!(host.validar().is_err());

    let mut host = Host::nuevo("preprod");
    host.hostname = Some("-oProxyCommand=true".into());
    assert!(host.validar().is_err());

    let mut host = Host::nuevo("preprod");
    host.hostname = Some("interno".into());
    host.saltos.push("-J-abusivo".into());
    assert!(host.validar().is_err());
}

#[test]
fn una_nota_con_acentos_y_espacios_sigue_siendo_valida() {
    let mut host = Host::nuevo("preprod");
    host.hostname = Some("interno".into());
    host.nota = Some("túnel de la base de datos — pedirlo a sistemas".into());
    host.identidades
        .push("/ruta/con espacios/id_ed25519".into());
    assert!(host.validar().is_ok());
}

// --- Comprobaciones propias ------------------------------------------------------

#[test]
fn el_mensaje_de_una_definicion_no_valida_lleva_el_motivo() {
    let host = Host::nuevo("tunel-*");
    let error = host.validar().unwrap_err();
    assert!(error.mensaje().starts_with("definición de túnel no válida: "));
}

#[test]
fn el_nombre_visible_se_deriva_del_servicio_conocido() {
    let oracle = Reenvio::local(Extremo::solo_puerto(1522), Extremo::nuevo("interno", 1521));
    assert_eq!(oracle.nombre_visible(), "oracle-1521");
    let socks = Reenvio::dinamico(Extremo::solo_puerto(1080));
    assert_eq!(socks.nombre_visible(), "socks-1080");
}

#[test]
fn un_puerto_fuera_de_rango_se_rechaza() {
    assert!(Reenvio::analizar(TipoReenvio::Local, "70000 localhost:22").is_err());
}

#[test]
fn el_destino_completo_muestra_usuario_y_puerto_si_estan() {
    let mut h = Host::nuevo("x");
    h.usuario = Some("usuario".to_string());
    h.hostname = Some("host.interno".to_string());
    h.puerto = Some(22);
    assert_eq!(h.destino_completo(), "usuario@host.interno:22");
    h.puerto = Some(2222);
    assert_eq!(h.destino_completo(), "usuario@host.interno:2222");
    h.puerto = None;
    assert_eq!(h.destino_completo(), "usuario@host.interno");
    h.usuario = None;
    h.hostname = None;
    assert_eq!(h.destino_completo(), "x");
}
