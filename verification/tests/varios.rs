use yonder::askpass::protocolo::{Peticion, Respuesta, Tipo, VERSION};
use yonder::cli::Tabla;
use yonder::config::coincide;
use yonder::net::salud::{codigo_http, juzgar_http, veredicto_inmediato, Veredicto};
use yonder::rutas::{
    abreviar, cabe_un_socket, config_tuneles, expandir, huella_alias, socket_control,
    MAXIMO_RUTA_SOCKET,
};
use yonder::servicio::{texto_servicio, texto_temporizador};
use yonder::ssh::control::{extraer_pid, Control};
use yonder::ssh::hostkey::{destino_known_hosts, ClaveHost};
use yonder::ssh::{admite_askpass_forzado, traducir_error_de_ssh};
use yonder::modelo::Salud;
use yonder::ui::widgets::duracion_legible;

#[test]
fn clasifica_los_prompts_reales_de_openssh() {
    assert_eq!(
        Tipo::deducir("usuario@host.example's password: "),
        Tipo::Contrasena
    );
    assert_eq!(
        Tipo::deducir("Enter passphrase for key '/home/usuario/.ssh/id_ed25519': "),
        Tipo::Passphrase
    );
    assert_eq!(
        Tipo::deducir("Confirm user presence for key ED25519-SK SHA256:abc"),
        Tipo::PresenciaFisica
    );
    assert_eq!(
        Tipo::deducir("Enter PIN for ED25519-SK key /home/usuario/.ssh/id_ed25519_sk: "),
        Tipo::PinLlave
    );
    assert_eq!(
        Tipo::deducir("Are you sure you want to continue connecting (yes/no/[fingerprint])?"),
        Tipo::Confirmacion
    );
}

#[test]
fn la_presencia_fisica_no_pide_texto() {
    assert!(Tipo::PresenciaFisica.sin_entrada());
    assert!(!Tipo::PresenciaFisica.es_secreto());
    assert!(Tipo::Contrasena.es_secreto());
    assert!(!Tipo::Confirmacion.es_secreto());
}

#[test]
fn la_peticion_lleva_la_version_y_el_tipo() {
    let peticion = Peticion::nueva("usuario@host's password: ", 42);
    assert_eq!(peticion.tipo, Tipo::Contrasena);
    assert_eq!(peticion.version, VERSION);
    assert_eq!(peticion.pid, 42);
    assert_eq!(Respuesta::con("").texto.as_deref(), Some(""));
    assert!(Respuesta::cancelada().texto.is_none());
}

#[test]
fn el_comodin_se_comporta_como_en_la_consola() {
    assert!(coincide("*.conf", "yonder.conf"));
    assert!(coincide("*", "cualquiera"));
    assert!(coincide("config?", "config1"));
    assert!(!coincide("*.conf", "yonder.txt"));
    assert!(!coincide("config?", "config"));
}

#[test]
fn el_comodin_admite_vacios_y_varios_asteriscos() {
    assert!(coincide("", ""));
    assert!(!coincide("", "a"));
    assert!(coincide("**", ""));
    assert!(coincide("a*b*c", "aXXbYc"));
    assert!(!coincide("a*b*c", "aXXbY"));
}

#[test]
fn detecta_la_version_minima_para_el_askpass_forzado() {
    assert!(admite_askpass_forzado(
        "OpenSSH_10.2p1 Ubuntu-2ubuntu3.5, OpenSSL 3.5.5"
    ));
    assert!(admite_askpass_forzado("OpenSSH_8.4p1"));
    assert!(admite_askpass_forzado("OpenSSH_9.0p1, OpenSSL 3.0"));
    assert!(!admite_askpass_forzado("OpenSSH_8.2p1 Ubuntu-4ubuntu0.5"));
    assert!(!admite_askpass_forzado("cualquier cosa"));
}

#[test]
fn traduce_los_fallos_habituales() {
    let texto = traducir_error_de_ssh("usuario@host: Permission denied (publickey,password).");
    assert!(texto.contains("autenticación rechazada"));
    assert!(texto.contains("ssh dijo:"));
}

#[test]
fn deja_intacto_lo_que_no_conoce() {
    let texto = traducir_error_de_ssh("algo raro pasó");
    assert_eq!(texto, "algo raro pasó");
}

#[test]
fn se_queda_con_la_ultima_linea_util() {
    let texto = traducir_error_de_ssh(
        "Warning: Permanently added 'host' to the list of known hosts.\nConnection refused",
    );
    assert!(texto.contains("rechazó la conexión"));
}

#[test]
fn extrae_el_pid_del_mensaje_de_openssh() {
    assert_eq!(extraer_pid("Master running (pid=12345)\n"), Some(12345));
    assert_eq!(extraer_pid("pid=7"), Some(7));
    assert_eq!(extraer_pid("Control socket connect: No such file"), None);
}

#[test]
fn los_argumentos_llevan_el_destino_al_final() {
    let control = Control {
        alias: "preprod".into(),
        socket: "/run/user/1000/yonder/ctl-abc".into(),
    };
    let argumentos =
        control.argumentos("forward", &vec!["-L".into(), "3000:localhost:3000".into()]);
    assert_eq!(
        argumentos,
        vec![
            "-S",
            "/run/user/1000/yonder/ctl-abc",
            "-O",
            "forward",
            "-L",
            "3000:localhost:3000",
            "preprod"
        ]
    );
}

#[test]
fn el_destino_lleva_corchetes_solo_con_puerto_no_estandar() {
    assert_eq!(destino_known_hosts("host.example", 22), "host.example");
    assert_eq!(
        destino_known_hosts("host.example", 2222),
        "[host.example]:2222"
    );
}

#[test]
fn el_algoritmo_se_muestra_legible() {
    let clave = ClaveHost {
        linea: String::new(),
        tipo: "ecdsa-sha2-nistp256".into(),
        fingerprint: "SHA256:x".into(),
        bits: 256,
    };
    assert_eq!(clave.algoritmo(), "NISTP256");
}

#[test]
fn el_servicio_no_mata_a_sus_hijos_al_terminar() {
    let texto = texto_servicio("/usr/local/bin/yonder");
    assert!(texto.contains("KillMode=process"));
    assert!(texto.contains("Type=oneshot"));
    assert!(texto.contains("ExecStart=\"/usr/local/bin/yonder\" supervise"));
}

#[test]
fn el_temporizador_recupera_la_pasada_perdida() {
    let texto = texto_temporizador("2min");
    assert!(texto.contains("OnUnitActiveSec=2min"));
    assert!(texto.contains("Persistent=true"));
    assert!(texto.contains("WantedBy=timers.target"));
}

#[test]
fn el_intervalo_se_refleja_en_la_descripcion() {
    assert!(texto_temporizador("30s").contains("cada 30s"));
}

#[test]
fn sin_escucha_no_se_sondea_nada() {
    let veredicto = veredicto_inmediato(&Salud::Banner, false);
    assert_eq!(veredicto, Some(Veredicto::SinEscucha));
}

#[test]
fn la_salud_de_escucha_se_fia_de_la_comprobacion_barata() {
    assert_eq!(veredicto_inmediato(&Salud::Escucha, true), Some(Veredicto::Sano));
    assert_eq!(veredicto_inmediato(&Salud::Banner, true), None);
}

#[test]
fn extrae_el_codigo_de_la_linea_de_estado() {
    assert_eq!(codigo_http("HTTP/1.1 200 OK\r\n"), Some(200));
    assert_eq!(codigo_http("HTTP/1.0 404 Not Found"), Some(404));
    assert_eq!(codigo_http("SSH-2.0-OpenSSH"), None);
    assert_eq!(codigo_http(""), None);
}

#[test]
fn la_sonda_http_acepta_redirecciones_y_rechaza_errores() {
    assert_eq!(juzgar_http("/", "HTTP/1.1 302 Found\r\n"), Veredicto::Sano);
    assert_eq!(
        juzgar_http("/salud", "HTTP/1.1 500 Internal Server Error\r\n"),
        Veredicto::Zombi(
            "el servicio respondió 500 a «/salud»: contesta, pero no como se esperaba".into()
        )
    );
    assert_eq!(
        juzgar_http("/", "SSH-2.0-OpenSSH\r\n"),
        Veredicto::Zombi("la respuesta no parece HTTP: «SSH-2.0-OpenSSH»".into())
    );
}

#[test]
fn la_sonda_http_solo_rechaza_los_4xx_y_5xx() {
    assert_eq!(juzgar_http("/", "HTTP/1.1 101 Switching Protocols\r\n"), Veredicto::Sano);
    assert_eq!(juzgar_http("/", "HTTP/1.1 600 Raro\r\n"), Veredicto::Sano);
    assert_eq!(
        juzgar_http("/x", "HTTP/1.1 404 Not Found\r\n"),
        Veredicto::Zombi("el servicio respondió 404 a «/x»: contesta, pero no como se esperaba".into())
    );
    assert!(matches!(juzgar_http("/", "HTTP/1.0 599 ?\r\n"), Veredicto::Zombi(_)));
}

#[test]
fn la_tabla_alinea_las_columnas() {
    let mut tabla = Tabla::nueva(&["A", "BB"]);
    tabla.fila(&["larguísimo".into(), "x".into()]);
    tabla.fila(&["c".into(), "y".into()]);
    let texto = tabla.render();
    let lineas: Vec<&str> = texto.lines().collect();
    assert_eq!(lineas.len(), 4);
    assert!(lineas[2].starts_with("larguísimo"));
    assert!(lineas[3].starts_with("c "));
}

#[test]
fn la_tabla_no_deja_espacios_al_final() {
    let mut tabla = Tabla::nueva(&["A", "B"]);
    tabla.fila(&["uno".into(), "dos".into()]);
    for linea in tabla.render().lines() {
        assert_eq!(linea, linea.trim_end(), "hay relleno sobrante al final");
    }
}

#[test]
fn la_tabla_completa_se_ve_asi() {
    let mut tabla = Tabla::nueva(&["A", "BB"]);
    tabla.fila(&["larguísimo".into(), "x".into()]);
    assert_eq!(tabla.render(), "A           BB\n----------  --\nlarguísimo  x");
}

#[test]
fn expandir_respeta_lo_que_no_lleva_tilde() {
    assert_eq!(
        expandir("/home/u", "/ruta/absoluta/config"),
        "/ruta/absoluta/config"
    );
    assert_eq!(expandir("/home/u", "relativa.conf"), "relativa.conf");
    assert_eq!(expandir("/home/u", "~otro/cosa"), "~otro/cosa");
}

#[test]
fn expandir_usa_el_hogar_dado() {
    assert_eq!(expandir("/home/u", "~"), "/home/u");
    assert_eq!(expandir("/home/u", "~/.ssh/config"), "/home/u/.ssh/config");
    assert_eq!(
        expandir("/home/u", "~/.ssh/config.d/yonder.conf"),
        config_tuneles("/home/u")
    );
}

#[test]
fn el_limite_deja_sitio_al_sufijo_de_openssh() {
    assert_eq!(MAXIMO_RUTA_SOCKET, 90);
    assert!(cabe_un_socket("/run/user/1000/yonder"));
    assert!(!cabe_un_socket(&"/x".repeat(60)));
}

#[test]
fn la_huella_es_estable_y_corta() {
    let a = huella_alias("tunel-preprod");
    let b = huella_alias("tunel-preprod");
    assert_eq!(a, b);
    assert_eq!(a.len(), 16);
    assert_ne!(a, huella_alias("tunel-produccion"));
}

#[test]
fn la_ruta_del_socket_cabe_en_sun_path() {
    let ruta = socket_control("/run/user/1000/yonder", "un-alias-razonablemente-largo");
    assert!(ruta.len() <= MAXIMO_RUTA_SOCKET);
    assert!(ruta.starts_with("/run/user/1000/yonder/ctl-"));
}

#[test]
fn abreviar_usa_la_tilde() {
    let hogares = vec!["/home/u".to_string()];
    assert_eq!(abreviar(&hogares, "/home/u/.ssh/config"), "~/.ssh/config");
    assert_eq!(abreviar(&hogares, "/home/uu/x"), "/home/uu/x");
}

#[test]
fn la_duracion_se_escribe_con_la_unidad_util() {
    assert_eq!(duracion_legible(0), "0 s");
    assert_eq!(duracion_legible(59), "59 s");
    assert_eq!(duracion_legible(60), "1 min");
    assert_eq!(duracion_legible(3599), "59 min");
    assert_eq!(duracion_legible(3600), "1 h");
    assert_eq!(duracion_legible(86_400), "1 d");
}
