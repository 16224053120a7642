use std::path::Path;

use yonder::error::Error;
use yonder::modelo::{Extremo, Reenvio, Salud, TipoReenvio};
use yonder::net::probe::{
    analizar_ipv4, analizar_ipv6, analizar_linea, analizar_tabla, capacidades_efectivas,
    error_al_enlazar, error_de_resolucion, es_admisible, esta_escuchando,
    orden_para_conceder_capacidad, puede_abrir_puertos_privilegiados, quien_ocupa,
    comprobacion_previa, Escuchas, FalloAlEnlazar, Ip, Ocupante, Socket, ESTADO_LISTEN,
};
use yonder::ssh::copyid::{
    argumentos_de_copia, argumentos_de_verificacion, claves_en_orden, es_clave_hardware,
    es_publica, resultado_de_copia, validar_clave,
};
use yonder::ssh::forward::confirmado_en;
use yonder::ssh::Salida;

#[test]
fn descodifica_ipv4_del_kernel() {
    // 0100007F es 127.0.0.1 escrito en orden de máquina.
    assert_eq!(analizar_ipv4("0100007F"), Some(Ip::V4([127, 0, 0, 1])));
    assert_eq!(analizar_ipv4("00000000"), Some(Ip::V4([0, 0, 0, 0])));
}

#[test]
fn descodifica_ipv6_del_kernel() {
    let loopback = "00000000000000000000000001000000";
    let mut esperado = [0u8; 16];
    esperado[15] = 1;
    assert_eq!(analizar_ipv6(loopback), Some(Ip::V6(esperado)));
    assert_eq!(
        analizar_ipv6("00000000000000000000000000000000"),
        Some(Ip::V6([0u8; 16]))
    );
    assert_eq!(analizar_ipv6("corto"), None);
}

#[test]
fn analiza_una_linea_real() {
    let linea = "   0: 0100007F:1F90 00000000:0000 0A 00000000:00000000 00:00000000 00000000  1000        0 45678 1 0000000000000000 100 0 0 10 0";
    let socket = analizar_linea(linea, false).unwrap();
    assert_eq!(socket.puerto, 8080);
    assert_eq!(socket.estado, ESTADO_LISTEN);
    assert_eq!(socket.uid, 1000);
    assert_eq!(socket.inodo, 45678);
    assert_eq!(socket.direccion, Ip::V4([127, 0, 0, 1]));
}

#[test]
fn una_linea_corta_o_ilegible_no_cuenta() {
    assert!(analizar_linea("sl local rem st", false).is_none());
    let sin_inodo = "0: 0100007F:1F90 00000000:0000 0A 0:0 00:0 0 1000 0 inodo";
    assert!(analizar_linea(sin_inodo, false).is_none());
    // Un uid ilegible cuenta como 0.
    let uid_raro = "0: 0100007F:0050 00000000:0000 0A 0:0 00:0 0 nadie 0 7";
    assert_eq!(analizar_linea(uid_raro, false).unwrap().uid, 0);
    assert!(es_admisible(uid_raro, true));
}

fn tabla() -> &'static str {
    "  sl  local_address rem_address   st tx_queue rx_queue tr tm->when retrnsmt   uid  timeout inode\n\
     0: 0100007F:1F90 00000000:0000 0A 00000000:00000000 00:00000000 00000000  1000 0 111 1\n\
     1: 00000000:0016 00000000:0000 0A 00000000:00000000 00:00000000 00000000     0 0 222 1\n\
     2: 0100007F:9C40 0100007F:1F90 01 00000000:00000000 00:00000000 00000000  1000 0 333 1\n"
}

#[test]
fn la_tabla_entera_se_lee_sin_la_cabecera() {
    let mut sockets: Vec<Socket> = Vec::new();
    analizar_tabla(tabla(), false, &mut sockets);
    assert_eq!(sockets.len(), 3);
    assert_eq!(sockets[1].puerto, 22);
    assert_eq!(sockets[2].estado, "01");
}

#[test]
fn la_fotografia_solo_recoge_lo_que_escucha() {
    let mut sockets: Vec<Socket> = Vec::new();
    analizar_tabla(tabla(), false, &mut sockets);
    let escuchas = Escuchas::de_sockets(&sockets);
    assert_eq!(escuchas.entradas.len(), 2);
    let local = Ip::V4([127, 0, 0, 1]);
    let otra = Ip::V4([10, 0, 0, 1]);
    assert!(escuchas.contiene(Some(&local), 8080));
    // 8080 escucha solo en 127.0.0.1.
    assert!(!escuchas.contiene(Some(&otra), 8080));
    // 22 escucha en el comodín: cubre cualquier dirección.
    assert!(escuchas.contiene(Some(&otra), 22));
    // El 40000 está en la tabla pero conectado, no escuchando.
    assert!(!escuchas.contiene(None, 40000));
    // Un nombre en lugar de una IP: basta el puerto.
    assert!(escuchas.contiene(None, 8080));
    assert!(esta_escuchando(&sockets, Some(&local), 8080));
}

#[test]
fn el_ocupante_se_nombra_con_lo_que_se_sabe() {
    let mut sockets: Vec<Socket> = Vec::new();
    analizar_tabla(tabla(), false, &mut sockets);
    let ocupante = quien_ocupa(&sockets, 8080, Some((4242, Some("python3".into())))).unwrap();
    assert_eq!(ocupante.pid, Some(4242));
    assert_eq!(ocupante.uid, Some(1000));
    assert_eq!(ocupante.describir(), "«python3» (PID 4242)");
    assert!(quien_ocupa(&sockets, 40000, None).is_none());

    let anonimo = quien_ocupa(&sockets, 22, None).unwrap();
    assert_eq!(anonimo.describir(), "un proceso del usuario 0");
    let solo_pid = Ocupante { pid: Some(7), nombre: None, uid: None };
    assert_eq!(solo_pid.describir(), "el proceso 7");
    let nadie = Ocupante { pid: None, nombre: None, uid: None };
    assert_eq!(nadie.describir(), "otro proceso");
}

#[test]
fn las_capacidades_salen_de_capeff() {
    let estado = "Name:\tyonder\nCapInh:\t0000000000000000\nCapEff:\t0000000000000400\n";
    assert_eq!(capacidades_efectivas(estado), Some(0x400));
    assert!(puede_abrir_puertos_privilegiados(1000, Some(estado)));
    let sin = "CapEff:\t0000000000000000\n";
    assert!(!puede_abrir_puertos_privilegiados(1000, Some(sin)));
    assert!(puede_abrir_puertos_privilegiados(0, None));
    assert!(!puede_abrir_puertos_privilegiados(1000, None));
    assert_eq!(capacidades_efectivas("Name: x\n"), None);
    assert_eq!(
        orden_para_conceder_capacidad("/usr/bin/yonder"),
        "sudo setcap 'cap_net_bind_service=+ep' /usr/bin/yonder"
    );
}

#[test]
fn los_fallos_al_abrir_un_puerto() {
    assert!(matches!(
        comprobacion_previa(80, false),
        Err(Error::PuertoPrivilegiado { puerto: 80 })
    ));
    assert!(comprobacion_previa(80, true).is_ok());
    assert!(comprobacion_previa(8080, false).is_ok());

    let ocupante = Ocupante { pid: Some(9), nombre: Some("nginx".into()), uid: Some(0) };
    match error_al_enlazar(80, FalloAlEnlazar::Ocupado, Some(&ocupante)) {
        Error::PuertoOcupado { puerto, ocupante } => {
            assert_eq!(puerto, 80);
            assert_eq!(ocupante.as_deref(), Some("«nginx» (PID 9)"));
        }
        otro => panic!("{otro:?}"),
    }
    assert!(matches!(
        error_al_enlazar(80, FalloAlEnlazar::SinPermiso, None),
        Error::PuertoPrivilegiado { puerto: 80 }
    ));
    match error_de_resolucion("nohay", None) {
        Error::DefinicionInvalida(m) => assert_eq!(m, "«nohay» no resuelve a ninguna dirección"),
        otro => panic!("{otro:?}"),
    }
}

#[test]
fn un_reenvio_remoto_no_se_sondea_en_local() {
    let reenvio = Reenvio {
        tipo: TipoReenvio::Remoto,
        escucha: Extremo::solo_puerto(9000),
        destino: Some(Extremo::nuevo("localhost", 22)),
        salud: Salud::Escucha,
        nombre: None,
    };
    // El puerto 9000 no escucha aquí y aun así debe darse por bueno: escucha
    // en la otra punta.
    assert!(confirmado_en(&reenvio, &Escuchas { entradas: vec![] }, None));
}

#[test]
fn un_reenvio_local_necesita_su_puerto_en_escucha() {
    let reenvio = Reenvio::local(Extremo::nuevo("127.0.0.1", 8080), Extremo::nuevo("x", 80));
    let local = Ip::V4([127, 0, 0, 1]);
    let escuchas = Escuchas { entradas: vec![(local, 8080)] };
    assert!(confirmado_en(&reenvio, &escuchas, Some(&local)));
    assert!(!confirmado_en(&reenvio, &Escuchas { entradas: vec![] }, Some(&local)));
}

#[test]
fn rechaza_una_clave_privada() {
    let fichero = tempfile::Builder::new()
        .prefix("id_ed25519")
        .tempfile()
        .unwrap();
    let privada = fichero.path();
    let ruta = privada.display().to_string();
    let error = validar_clave(&ruta, privada.is_file(), &vec![]).unwrap_err();
    match error {
        Error::DefinicionInvalida(m) => assert!(m.contains("pública")),
        otro => panic!("{otro:?}"),
    }
}

#[test]
fn rechaza_una_ruta_inexistente() {
    let ruta = Path::new("/no/existe/clave.pub");
    let error = validar_clave("/no/existe/clave.pub", ruta.is_file(), &vec![]).unwrap_err();
    match error {
        Error::DefinicionInvalida(m) => assert!(m.contains("no existe")),
        otro => panic!("{otro:?}"),
    }
}

#[test]
fn detecta_una_clave_de_hardware_por_su_contenido() {
    assert!(es_clave_hardware(
        Some("sk-ssh-ed25519@openssh.com AAAA... usuario@equipo\n"),
        "id_ed25519_sk.pub"
    ));
    assert!(!es_clave_hardware(
        Some("ssh-ed25519 AAAA... usuario@equipo\n"),
        "id_ed25519.pub"
    ));
    // Sin poder leerla, decide el nombre.
    assert!(es_clave_hardware(None, "id_ecdsa_sk.pub"));
}

#[test]
fn la_extension_es_la_del_nombre_de_fichero() {
    assert!(es_publica("/home/ana/.ssh/id_rsa.pub"));
    assert!(es_publica("clave.tar.pub"));
    assert!(!es_publica("/home/ana/.ssh/.pub"));
    assert!(!es_publica("/home/ana/.ssh/id_rsa"));
    assert!(!es_publica("/home/ana/.ssh/pub"));
    assert!(es_publica("/home/ana/.ssh/id_rsa.pub/"));
}

#[test]
fn las_claves_van_en_orden_de_preferencia() {
    let presentes = vec![false, false, true, false, true];
    let nombres = vec![
        "zeta.pub".to_string(),
        "id_rsa.pub".to_string(),
        "known_hosts".to_string(),
        "alfa.pub".to_string(),
        "id_ed25519.pub".to_string(),
    ];
    assert_eq!(
        claves_en_orden("/home/ana/.ssh", &presentes, &nombres),
        vec![
            "/home/ana/.ssh/id_ed25519.pub".to_string(),
            "/home/ana/.ssh/id_rsa.pub".to_string(),
            "/home/ana/.ssh/alfa.pub".to_string(),
            "/home/ana/.ssh/zeta.pub".to_string(),
        ]
    );
}

#[test]
fn la_copia_y_la_verificacion() {
    assert_eq!(
        argumentos_de_copia("bastion", "/k.pub"),
        vec!["-i".to_string(), "/k.pub".to_string(), "bastion".to_string()]
    );
    assert_eq!(argumentos_de_verificacion("b").len(), 8);
    assert_eq!(argumentos_de_verificacion("b")[6], "b");

    let bien = Salida { codigo: Some(0), estandar: String::new(), error: "ya estaba".into() };
    assert!(resultado_de_copia("b", "/home/ana/.ssh/k.pub", &vec![], &bien).is_ok());
    let mal = Salida { codigo: Some(1), estandar: String::new(), error: "falló".into() };
    match resultado_de_copia("b", "/home/ana/.ssh/k.pub", &vec!["/home/ana".to_string()], &mal) {
        Err(Error::OrdenFallida { orden, codigo, .. }) => {
            assert_eq!(orden, "ssh-copy-id -i ~/.ssh/k.pub b");
            assert_eq!(codigo, 1);
        }
        otro => panic!("{otro:?}"),
    }
}
