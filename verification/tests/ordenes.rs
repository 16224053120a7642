use yonder::askpass::protocolo::texto_visible;
use yonder::error::Error;
use yonder::servicio::{
    orden_de_consulta, orden_para_parar, ordenes_para_arrancar, ordenes_para_desinstalar,
    ordenes_para_instalar, sin_systemd,
};
use yonder::ssh::control::{sockets_de_control, Control, Limpieza};
use yonder::ssh::hostkey::{
    argumentos_de_huellas, claves_de_huellas, contenido_para_huellas, resultado_de_escaneo,
    texto_para_known_hosts,
};
use yonder::ssh::master::error_sin_socket;
use yonder::ssh::Salida;

fn salida(codigo: i32, estandar: &str, error: &str) -> Salida {
    Salida { codigo: Some(codigo), estandar: estandar.into(), error: error.into() }
}

#[test]
fn el_escaneo_se_queda_con_las_lineas_utiles() {
    let s = salida(
        0,
        "# host:22 SSH-2.0-OpenSSH_9.6\nhost ssh-ed25519 AAAAC3\n\n  host ssh-rsa AAAAB3  \n",
        "",
    );
    assert_eq!(
        resultado_de_escaneo("host", &s).unwrap(),
        vec!["host ssh-ed25519 AAAAC3".to_string(), "host ssh-rsa AAAAB3".to_string()]
    );
    match resultado_de_escaneo("host", &salida(1, "# solo comentarios\n", "")) {
        Err(Error::OrdenFallida { orden, codigo, salida }) => {
            assert_eq!(orden, "ssh-keyscan host");
            assert_eq!(codigo, 1);
            assert_eq!(salida, "«host» no devolvió ninguna clave de host");
        }
        otro => panic!("{otro:?}"),
    }
}

#[test]
fn las_huellas_se_emparejan_con_sus_lineas() {
    let lineas = vec![
        "host ssh-ed25519 AAAAC3".to_string(),
        "host ssh-rsa AAAAB3".to_string(),
    ];
    assert_eq!(
        contenido_para_huellas(&lineas),
        "host ssh-ed25519 AAAAC3\nhost ssh-rsa AAAAB3\n"
    );
    assert_eq!(
        argumentos_de_huellas("/tmp/x"),
        vec!["-l".to_string(), "-f".to_string(), "/tmp/x".to_string()]
    );
    let s = salida(
        0,
        "256 SHA256:abc host (ED25519)\n\n3072 SHA256:def host (RSA)\n",
        "",
    );
    let claves = claves_de_huellas(&lineas, &s).unwrap();
    assert_eq!(claves.len(), 2);
    assert_eq!(claves[0].tipo, "ssh-ed25519");
    assert_eq!(claves[0].fingerprint, "SHA256:abc");
    assert_eq!(claves[0].bits, 256);
    assert_eq!(claves[0].algoritmo(), "ED25519");
    assert_eq!(claves[1].bits, 3072);
    assert_eq!(texto_para_known_hosts(&claves), "host ssh-ed25519 AAAAC3\nhost ssh-rsa AAAAB3\n");

    assert!(matches!(
        claves_de_huellas(&lineas, &salida(255, "", "roto")),
        Err(Error::OrdenFallida { .. })
    ));
}

#[test]
fn los_sockets_de_control_se_reconocen_y_ordenan() {
    let nombres = vec![
        "ctl-b".to_string(),
        "ctl-a".to_string(),
        "ctl-a.alias".to_string(),
        "askpass.sock".to_string(),
    ];
    assert_eq!(
        sockets_de_control("/run/user/1000/yonder", &nombres),
        vec![
            "/run/user/1000/yonder/ctl-a".to_string(),
            "/run/user/1000/yonder/ctl-b".to_string(),
        ]
    );
}

#[test]
fn la_limpieza_cuenta_vivos_y_retirados() {
    let mut informe = Limpieza::nueva();
    informe.anotar(&Control { alias: "preprod".into(), socket: "/s/ctl-1".into() }, true);
    informe.anotar(&Control { alias: String::new(), socket: "/s/ctl-2".into() }, true);
    informe.anotar(&Control { alias: "viejo".into(), socket: "/s/ctl-3".into() }, false);
    assert_eq!(informe.vivos, vec!["preprod".to_string(), "/s/ctl-2".to_string()]);
    assert_eq!(informe.retirados, vec!["/s/ctl-3".to_string()]);
}

#[test]
fn las_ordenes_de_systemctl() {
    let arrancar = ordenes_para_arrancar();
    assert_eq!(arrancar[0], vec!["--user", "start", "yonder.timer"]);
    assert_eq!(arrancar[1], vec!["--user", "start", "yonder.service"]);
    assert_eq!(orden_para_parar(), vec!["--user", "stop", "yonder.timer"]);
    assert_eq!(ordenes_para_instalar()[1], vec!["--user", "enable", "--now", "yonder.timer"]);
    assert_eq!(ordenes_para_desinstalar()[0], vec!["--user", "disable", "--now", "yonder.timer"]);
    assert_eq!(orden_de_consulta(), vec!["--user", "is-active", "yonder.timer"]);
    assert!(matches!(sin_systemd(), Error::DefinicionInvalida(_)));
}

#[test]
fn el_maestro_sin_socket_es_un_fallo() {
    match error_sin_socket("preprod") {
        Error::OrdenFallida { orden, codigo, salida } => {
            assert_eq!(orden, "ssh -M preprod");
            assert_eq!(codigo, 0);
            assert_eq!(salida, "el maestro terminó sin dejar socket de control");
        }
        otro => panic!("{otro:?}"),
    }
}

#[test]
fn el_prompt_se_limpia_para_el_dialogo() {
    assert_eq!(texto_visible("usuario@host's password: "), "usuario@host's password");
    assert_eq!(texto_visible("  Enter PIN for key ::  "), "Enter PIN for key");
    assert_eq!(texto_visible("sin dos puntos"), "sin dos puntos");
}
