use std::collections::HashSet;
use std::time::Duration;

use yonder::error::Error;
use yonder::modelo::{Extremo, Host, Reenvio, Tunel};
use yonder::net::salud::Veredicto;
use yonder::state::machine::{Estado, EstadoTunel};
use yonder::state::supervisor::{
    paso_de_supervision, programar_reintento, reiniciar_contador, toca_actuar, aviso_tras, Aviso,
    Orden, Paso, PoliticaReintento,
};
use yonder::state::{
    estado_observado, hay_que_sondear, mensaje_completo, motivo_de_degradado,
    quedan_deseados_en, recuperar_con_el_maestro,
};

fn segundos(ms: u64) -> Duration {
    Duration::from_millis(ms)
}

#[test]
fn el_retardo_crece_de_forma_exponencial() {
    let politica = PoliticaReintento {
        jitter: 0,
        ..Default::default()
    };
    assert_eq!(segundos(politica.retardo(1)), Duration::from_secs(2));
    assert_eq!(segundos(politica.retardo(2)), Duration::from_secs(4));
    assert_eq!(segundos(politica.retardo(3)), Duration::from_secs(8));
    assert_eq!(segundos(politica.retardo(4)), Duration::from_secs(16));
    assert_eq!(segundos(politica.retardo(5)), Duration::from_secs(32));
}

#[test]
fn el_retardo_se_detiene_en_el_techo() {
    let politica = PoliticaReintento {
        jitter: 0,
        ..Default::default()
    };
    assert_eq!(segundos(politica.retardo(6)), Duration::from_secs(60));
    assert_eq!(segundos(politica.retardo(30)), Duration::from_secs(60));
    // Sin acotar el exponente esto desbordaría.
    assert_eq!(segundos(politica.retardo(u32::MAX)), Duration::from_secs(60));
}

#[test]
fn el_jitter_se_queda_dentro_del_margen() {
    let politica = PoliticaReintento::default();
    for _ in 0..200 {
        let retardo = segundos(politica.retardo(6)).as_secs_f64();
        assert!(
            (48.0..=72.0).contains(&retardo),
            "el jitter del ±20 % sobre 60 s se salió: {retardo}"
        );
    }
}

#[test]
fn el_jitter_reparte_de_verdad() {
    // Si todos los reintentos cayeran en el mismo instante, veinte túneles
    // que se caen con la VPN volverían a la vez y tumbarían el bastión.
    let politica = PoliticaReintento::default();
    let muestras: Vec<u128> = (0..50)
        .map(|_| segundos(politica.retardo(4)).as_millis())
        .collect();
    let distintos: HashSet<_> = muestras.iter().collect();
    assert!(distintos.len() > 40, "el jitter apenas dispersa");
}

#[test]
fn los_intentos_se_agotan() {
    let politica = PoliticaReintento {
        maximo_intentos: 3,
        ..Default::default()
    };
    assert!(!politica.agotado(2));
    assert!(politica.agotado(3));
    assert!(politica.agotado(4));
}

#[test]
fn sin_limite_nunca_se_agota() {
    let politica = PoliticaReintento {
        maximo_intentos: 0,
        ..Default::default()
    };
    assert!(!politica.agotado(1_000_000));
}

#[test]
fn la_variacion_respeta_el_minimo_y_el_signo() {
    assert_eq!(PoliticaReintento::variar(60_000, 200_000), 72_000);
    assert_eq!(PoliticaReintento::variar(60_000, -200_000), 48_000);
    assert_eq!(PoliticaReintento::variar(60_000, 0), 60_000);
    // Nunca por debajo de una décima de segundo.
    assert_eq!(PoliticaReintento::variar(50, 0), 100);
    assert_eq!(PoliticaReintento::variar(60_000, -2_000_000), 100);
}

#[test]
fn un_fallo_programa_el_siguiente_intento() {
    let politica = PoliticaReintento {
        jitter: 0,
        ..Default::default()
    };
    let mut estado = EstadoTunel::nuevo("preprod|-L|3000");
    estado.ultimo_error = Some("se cayó".into());
    assert_eq!(programar_reintento(&mut estado, &politica), Some(2000));
    assert_eq!(estado.intento, 1);
    assert_eq!(estado.estado, Estado::Reintentando);
    assert!(estado.proximo_intento.is_some());
    assert_eq!(estado.ultimo_error.as_deref(), Some("se cayó"));

    assert_eq!(programar_reintento(&mut estado, &politica), Some(4000));
    assert_eq!(estado.intento, 2);
}

#[test]
fn agotar_los_intentos_deja_el_tunel_fallido() {
    let politica = PoliticaReintento {
        jitter: 0,
        maximo_intentos: 2,
        ..Default::default()
    };
    let mut estado = EstadoTunel::nuevo("t");
    assert!(programar_reintento(&mut estado, &politica).is_some());
    assert_eq!(programar_reintento(&mut estado, &politica), None);
    assert_eq!(estado.estado, Estado::Fallido);
    assert!(estado.proximo_intento.is_none());

    reiniciar_contador(&mut estado);
    assert_eq!(estado.intento, 0);
    assert!(estado.proximo_intento.is_none());
    assert_eq!(estado.estado, Estado::Fallido);
}

#[test]
fn solo_actua_sobre_lo_que_reintenta_o_esta_degradado() {
    let ahora = std::time::Instant::now();
    let mut estado = EstadoTunel::nuevo("t");
    assert!(!toca_actuar(&estado, &ahora));
    estado.estado = Estado::Degradado;
    assert!(toca_actuar(&estado, &ahora));
    estado.estado = Estado::Reintentando;
    estado.proximo_intento = Some(ahora + Duration::from_secs(3600));
    assert!(!toca_actuar(&estado, &ahora));
    estado.proximo_intento = Some(ahora);
    assert!(toca_actuar(&estado, &ahora));
}

#[test]
fn la_reparacion_se_escala_en_dos_escalones() {
    assert_eq!(paso_de_supervision(Estado::Degradado, 0), Paso::Reparar);
    assert_eq!(paso_de_supervision(Estado::Degradado, 1), Paso::Reparar);
    assert_eq!(paso_de_supervision(Estado::Degradado, 2), Paso::RepararAFondo);
    assert_eq!(paso_de_supervision(Estado::Reintentando, 5), Paso::Levantar);
    assert_eq!(paso_de_supervision(Estado::Activo, 0), Paso::Nada);
    assert_eq!(paso_de_supervision(Estado::Fallido, 0), Paso::Nada);
}

#[test]
fn el_aviso_de_varios_cuenta_o_enumera_los_fallos() {
    let bien = Aviso::de_varios(3, &vec![]);
    assert_eq!(bien.texto, "3 túneles levantados");
    assert!(!bien.grave);

    let mal = Aviso::de_varios(3, &vec!["a: falló".to_string(), "b: también".to_string()]);
    assert_eq!(mal.texto, "a: falló\nb: también");
    assert!(mal.grave);

    let bajados = Aviso::bajados(2);
    assert_eq!(bajados.texto, "2 túneles bajados");
    assert!(!bajados.grave);
}

#[test]
fn cada_orden_anuncia_su_exito() {
    let ok: Result<(), Error> = Ok(());
    let aviso = aviso_tras(&Orden::Recargar, &ok, "/usr/bin/yonder").unwrap();
    assert_eq!(aviso.texto, "configuración recargada");
    assert!(!aviso.grave);

    let aviso = aviso_tras(&Orden::Importar("bastion".into()), &ok, "y").unwrap();
    assert_eq!(aviso.texto, "«bastion» añadido a la lista");

    let aviso = aviso_tras(&Orden::GuardarHost(Box::new(Host::nuevo("preprod"))), &ok, "y").unwrap();
    assert_eq!(aviso.texto, "«preprod» guardado");

    let aviso = aviso_tras(
        &Orden::RenombrarHost {
            antiguo: "viejo".into(),
            nuevo: Box::new(Host::nuevo("nuevo")),
        },
        &ok,
        "y",
    )
    .unwrap();
    assert_eq!(aviso.texto, "«nuevo» guardado");

    let aviso = aviso_tras(&Orden::EliminarHost("preprod".into()), &ok, "y").unwrap();
    assert_eq!(aviso.texto, "«preprod» eliminado");

    assert!(aviso_tras(&Orden::Reordenar(vec![]), &ok, "y").is_none());
    assert!(aviso_tras(&Orden::FijarAutoarranque("t".into(), true), &ok, "y").is_none());

    let mal: Result<(), Error> = Err(Error::MaestroInactivo("preprod".into()));
    let aviso = aviso_tras(&Orden::Recargar, &mal, "y").unwrap();
    assert!(aviso.grave);
    assert_eq!(
        aviso.texto,
        "el maestro SSH de «preprod» no está activo\nLevanta primero la conexión maestra de «preprod»."
    );
}

#[test]
fn el_fallo_de_un_tunel_lleva_su_identificador() {
    let aviso = Aviso::de_fallo("t1", &Error::Cancelada, "y");
    assert_eq!(aviso.texto, "t1: la operación fue cancelada por el usuario");
    assert!(aviso.grave);
}

#[test]
fn el_mensaje_completo_lleva_la_sugerencia_debajo() {
    assert_eq!(
        mensaje_completo(&Error::PuertoPrivilegiado { puerto: 80 }, "/opt/yonder"),
        "el puerto 80 es privilegiado (<1024) y el proceso no tiene CAP_NET_BIND_SERVICE\n\
         Concede la capacidad al binario:\n    sudo setcap 'cap_net_bind_service=+ep' /opt/yonder\n\
         …o usa un puerto local por encima de 1023."
    );
    assert_eq!(
        mensaje_completo(&Error::TunelDesconocido("x".into()), "y"),
        "no existe el túnel «x»"
    );
}

#[test]
fn observar_reconstruye_el_estado() {
    // El usuario no lo quiere arriba: lo que se vea es irrelevante.
    assert_eq!(estado_observado(false, true, true, Estado::Activo), Estado::Definido);
    assert_eq!(estado_observado(false, true, true, Estado::Cerrando), Estado::Cerrando);
    // Todo en su sitio.
    assert_eq!(estado_observado(true, true, true, Estado::Definido), Estado::Activo);
    // Maestro vivo y túnel que no responde.
    assert_eq!(estado_observado(true, true, false, Estado::Activo), Estado::Degradado);
    assert_eq!(estado_observado(true, true, false, Estado::Conectando), Estado::Conectando);
    // Sin maestro.
    assert_eq!(estado_observado(true, false, false, Estado::Activo), Estado::Reintentando);
    assert_eq!(estado_observado(true, false, true, Estado::Fallido), Estado::Fallido);
    // Observar dos veces no cambia nada la segunda.
    let una = estado_observado(true, true, false, Estado::Activo);
    assert_eq!(estado_observado(true, true, false, una), una);

    assert!(hay_que_sondear(true, true, true));
    assert!(!hay_que_sondear(true, false, true));
}

#[test]
fn el_motivo_del_degradado_sale_de_la_sonda() {
    assert_eq!(motivo_de_degradado(None), "el puerto local no está en escucha");
    assert_eq!(
        motivo_de_degradado(Some(&Veredicto::Zombi("no saluda".into()))),
        "no saluda"
    );
    assert_eq!(
        motivo_de_degradado(Some(&Veredicto::SinEscucha)),
        "el puerto local no está en escucha"
    );
}

fn tunel(alias: &str, puerto: u16) -> Tunel {
    Tunel {
        alias: alias.into(),
        reenvio: Reenvio::local(
            Extremo::solo_puerto(puerto),
            Extremo::nuevo("localhost", puerto),
        ),
    }
}

#[test]
fn al_reabrir_el_maestro_se_recuperan_los_deseados_del_alias() {
    let tuneles = vec![tunel("a", 1), tunel("b", 2), tunel("a", 3), tunel("a", 4)];
    let deseados = vec!["a|-L|4".to_string(), "b|-L|2".to_string()];
    assert_eq!(
        recuperar_con_el_maestro(&tuneles, &deseados, "a", "a|-L|1"),
        vec!["a|-L|1".to_string(), "a|-L|4".to_string()]
    );
    assert!(quedan_deseados_en(&tuneles, &deseados, "a", "a|-L|1"));
    assert!(!quedan_deseados_en(&tuneles, &deseados, "a", "a|-L|4"));
    assert!(!quedan_deseados_en(&tuneles, &deseados, "c", "x"));
}
