use yonder::cli::{
    elegir_clave, es_afirmativa, fallo_al_levantar, fallo_al_supervisar, motivo_en_una_linea,
    objetivo_de_clave_host, origen_legible, que_hacer_en_la_pasada, resolver, resumen,
    Reconciliacion,
};
use yonder::error::Error;
use yonder::modelo::{Extremo, Host, Origen, Reenvio, Tunel};
use yonder::state::machine::{Estado, EstadoTunel};

fn tunel(alias: &str, puerto: u16) -> Tunel {
    Tunel {
        alias: alias.into(),
        reenvio: Reenvio::local(
            Extremo::solo_puerto(puerto),
            Extremo::nuevo("localhost", puerto),
        ),
    }
}

#[test]
fn resolver_acepta_el_identificador_exacto() {
    let tuneles = vec![tunel("preprod", 3000), tunel("preprod", 5432)];
    assert_eq!(
        resolver(&tuneles, "preprod|-L|5432").unwrap(),
        vec!["preprod|-L|5432".to_string()]
    );
}

#[test]
fn resolver_expande_un_alias_a_todos_sus_tuneles() {
    let tuneles = vec![tunel("preprod", 3000), tunel("bastion", 22), tunel("preprod", 5432)];
    assert_eq!(
        resolver(&tuneles, "preprod").unwrap(),
        vec!["preprod|-L|3000".to_string(), "preprod|-L|5432".to_string()]
    );
}

#[test]
fn resolver_propone_los_parecidos() {
    let tuneles = vec![tunel("preprod", 3000), tunel("produccion", 80)];
    match resolver(&tuneles, "prod") {
        Err(Error::DefinicionInvalida(m)) => {
            assert_eq!(m, "«prod» no existe. ¿Querías decir: preprod, produccion?")
        }
        otro => panic!("se esperaba una sugerencia: {otro:?}"),
    }
    match resolver(&tuneles, "nada") {
        Err(Error::TunelDesconocido(t)) => assert_eq!(t, "nada"),
        otro => panic!("se esperaba un túnel desconocido: {otro:?}"),
    }
}

#[test]
fn las_respuestas_afirmativas() {
    for si in ["s", "S", "si", " Sí ", "y", "YES\n"] {
        assert!(es_afirmativa(si), "«{si}» debería ser un sí");
    }
    for no in ["", "n", "no", "sip", "SÍ"] {
        assert!(!es_afirmativa(no), "«{no}» no debería ser un sí");
    }
}

#[test]
fn el_escaneo_usa_la_definicion_del_alias() {
    let mut host = Host::nuevo("bastion");
    host.hostname = Some("bastion.example.org".into());
    host.puerto = Some(2222);
    assert_eq!(
        objetivo_de_clave_host(Some(&host), "bastion", None),
        ("bastion.example.org".to_string(), 2222)
    );
    // El puerto dado a mano manda.
    assert_eq!(
        objetivo_de_clave_host(Some(&host), "bastion", Some(22)),
        ("bastion.example.org".to_string(), 22)
    );
    assert_eq!(
        objetivo_de_clave_host(None, "otro.example.org", None),
        ("otro.example.org".to_string(), 22)
    );
}

#[test]
fn se_elige_la_clave_indicada_o_la_primera_disponible() {
    let disponibles = vec![
        "/home/ana/.ssh/id_ed25519_sk.pub".to_string(),
        "/home/ana/.ssh/id_rsa.pub".to_string(),
    ];
    assert_eq!(
        elegir_clave("/home/ana", Some("~/.ssh/otra.pub"), &disponibles).unwrap(),
        "/home/ana/.ssh/otra.pub"
    );
    assert_eq!(
        elegir_clave("/home/ana", None, &disponibles).unwrap(),
        "/home/ana/.ssh/id_ed25519_sk.pub"
    );
    assert!(matches!(
        elegir_clave("/home/ana", None, &vec![]),
        Err(Error::DefinicionInvalida(_))
    ));
}

#[test]
fn la_pasada_no_levanta_lo_que_el_usuario_bajo() {
    assert_eq!(que_hacer_en_la_pasada(Estado::Definido), Reconciliacion::Nada);
    assert_eq!(que_hacer_en_la_pasada(Estado::Activo), Reconciliacion::Correcto);
    assert_eq!(que_hacer_en_la_pasada(Estado::Degradado), Reconciliacion::Reparar);
    assert_eq!(que_hacer_en_la_pasada(Estado::Reintentando), Reconciliacion::Levantar);
    assert_eq!(que_hacer_en_la_pasada(Estado::Fallido), Reconciliacion::Levantar);
    assert_eq!(que_hacer_en_la_pasada(Estado::Conectando), Reconciliacion::Nada);
}

#[test]
fn el_motivo_cabe_en_una_linea() {
    assert_eq!(motivo_en_una_linea(None), "no responde");
    assert_eq!(motivo_en_una_linea(Some("")), "no responde");
    assert_eq!(motivo_en_una_linea(Some("uno\r\ndos")), "uno");
    assert_eq!(motivo_en_una_linea(Some("solo")), "solo");
}

#[test]
fn el_resumen_cuenta_cada_estado() {
    let mut a = EstadoTunel::nuevo("a");
    a.estado = Estado::Activo;
    let mut b = EstadoTunel::nuevo("b");
    b.estado = Estado::Degradado;
    let c = EstadoTunel::nuevo("c");
    assert_eq!(
        resumen(&vec![a, b, c]),
        "3 definidos · 1 activos · 1 degradados · 0 reintentando · 0 fallidos"
    );
}

#[test]
fn los_errores_de_la_consola() {
    match fallo_al_levantar("preprod", 1, 2) {
        Error::OrdenFallida { orden, codigo, salida } => {
            assert_eq!(orden, "yonder up preprod");
            assert_eq!(codigo, 1);
            assert_eq!(salida, "1 de 2 túneles no se pudieron levantar");
        }
        otro => panic!("{otro:?}"),
    }
    match fallo_al_supervisar(3) {
        Error::OrdenFallida { orden, salida, .. } => {
            assert_eq!(orden, "yonder supervise");
            assert_eq!(salida, "3 túneles no se pudieron recuperar");
        }
        otro => panic!("{otro:?}"),
    }
}

#[test]
fn el_origen_se_abrevia() {
    let hogares = vec!["/home/ana".to_string()];
    let mut host = Host::nuevo("x");
    assert_eq!(origen_legible(&host, &hogares), "fichero propio");
    host.origen = Origen::Ajeno("/home/ana/.ssh/config".into());
    assert_eq!(origen_legible(&host, &hogares), "~/.ssh/config");
}
