use yonder::state::machine::{Estado, EstadoMaestro, EstadoTunel};

fn con_error(texto: &str) -> EstadoTunel {
    let mut e = EstadoTunel::nuevo("x");
    e.ultimo_error = Some(texto.to_string());
    e
}

#[test]
fn el_motivo_breve_distingue_lo_que_se_arregla_distinto() {
    assert_eq!(
        con_error("el puerto local no está en escucha").motivo_breve(),
        Some("puerto caído")
    );
    assert_eq!(
        con_error("el puerto 3000 está ocupado por «grafana» (PID 42)").motivo_breve(),
        Some("puerto ocupado")
    );
    assert_eq!(
        con_error("el puerto escucha pero no se pudo conectar: connection refused")
            .motivo_breve(),
        Some("no transporta")
    );
}

#[test]
fn sin_error_no_hay_motivo_que_ensenar() {
    assert_eq!(EstadoTunel::nuevo("x").motivo_breve(), None);
}

#[test]
fn un_error_desconocido_no_se_queda_sin_etiqueta() {
    assert_eq!(
        con_error("algo raro pasó").motivo_breve(),
        Some("no responde")
    );
}

#[test]
fn el_maestro_sale_de_lo_que_dicen_sus_reenvios() {
    let mut vivo = EstadoTunel::nuevo("a");
    vivo.pid_maestro = Some(123);
    assert_eq!(EstadoMaestro::de_los_tuneles(&[&vivo]), EstadoMaestro::Vivo);

    let mut reintentando = EstadoTunel::nuevo("b");
    reintentando.estado = Estado::Reintentando;
    assert_eq!(
        EstadoMaestro::de_los_tuneles(&[&reintentando]),
        EstadoMaestro::Caido
    );

    assert_eq!(
        EstadoMaestro::de_los_tuneles(&[&vivo, &reintentando]),
        EstadoMaestro::Vivo
    );

    assert_eq!(
        EstadoMaestro::de_los_tuneles(&[&EstadoTunel::nuevo("c")]),
        EstadoMaestro::Ausente
    );
}

#[test]
fn el_camino_feliz_esta_permitido() {
    assert!(Estado::Definido.admite(Estado::Conectando));
    assert!(Estado::Conectando.admite(Estado::Activo));
    assert!(Estado::Activo.admite(Estado::Cerrando));
    assert!(Estado::Cerrando.admite(Estado::Definido));
}

#[test]
fn el_camino_de_la_caida_esta_permitido() {
    assert!(Estado::Activo.admite(Estado::Degradado));
    assert!(Estado::Degradado.admite(Estado::Reintentando));
    assert!(Estado::Reintentando.admite(Estado::Conectando));
    assert!(Estado::Reintentando.admite(Estado::Fallido));
    assert!(Estado::Degradado.admite(Estado::Activo));
}

#[test]
fn los_atajos_imposibles_no_estan_permitidos() {
    assert!(!Estado::Definido.admite(Estado::Activo));
    assert!(!Estado::Definido.admite(Estado::Degradado));
    assert!(!Estado::Activo.admite(Estado::Fallido));
    assert!(!Estado::Fallido.admite(Estado::Activo));
}

#[test]
fn activar_limpia_el_contador_y_el_error() {
    let mut estado = EstadoTunel::nuevo("t");
    estado.intento = 4;
    estado.ultimo_error = Some("algo".into());
    estado.transitar(Estado::Conectando);
    estado.transitar(Estado::Activo);
    assert_eq!(estado.intento, 0);
    assert!(estado.ultimo_error.is_none());
}

#[test]
fn degradado_y_fallido_son_los_problematicos() {
    assert!(Estado::Degradado.problematico());
    assert!(Estado::Fallido.problematico());
    assert!(!Estado::Activo.problematico());
    assert!(!Estado::Definido.problematico());
}

#[test]
fn reconstruir_admite_los_saltos_que_transitar_rechaza() {
    for observado in [Estado::Activo, Estado::Degradado, Estado::Reintentando] {
        let mut estado = EstadoTunel::nuevo("t");
        assert!(
            !Estado::Definido.admite(observado),
            "este salto no debería estar en el diagrama"
        );
        estado.reconstruir(observado);
        assert_eq!(estado.estado, observado);
    }
}

#[test]
fn reconstruir_a_activo_limpia_el_error_anterior() {
    let mut estado = EstadoTunel::nuevo("t");
    estado.intento = 3;
    estado.ultimo_error = Some("algo".into());
    estado.reconstruir(Estado::Activo);
    assert_eq!(estado.intento, 0);
    assert!(estado.ultimo_error.is_none());
}

#[test]
fn degradado_cuenta_como_que_deberia_estar_arriba() {
    assert!(Estado::Degradado.deberia_estar_arriba());
    assert!(!Estado::Definido.deberia_estar_arriba());
    assert!(!Estado::Fallido.deberia_estar_arriba());
}

// --- Comprobaciones propias ------------------------------------------------------

#[test]
fn una_transicion_no_prevista_se_aplica_igual() {
    let mut estado = EstadoTunel::nuevo("t");
    assert!(!estado.transitar(Estado::Activo));
    assert_eq!(estado.estado, Estado::Activo);
}

#[test]
fn fuera_de_reintentando_no_hay_proximo_intento() {
    let mut estado = EstadoTunel::nuevo("t");
    estado.transitar(Estado::Conectando);
    assert!(estado.espera_restante().is_none());
    assert!(estado.transitar(Estado::Fallido));
    assert_eq!(estado.estado.etiqueta(), "Fallido");
}

#[test]
fn el_motivo_breve_ve_las_mayusculas() {
    assert_eq!(
        con_error("ssh: Connection Refused").motivo_breve(),
        Some("sin ruta")
    );
    assert_eq!(
        con_error("Permission denied (publickey)").motivo_breve(),
        Some("sin permiso")
    );
}

#[test]
fn el_maestro_se_levanta_si_alguno_conecta() {
    let mut a = EstadoTunel::nuevo("a");
    a.estado = Estado::Conectando;
    let mut b = EstadoTunel::nuevo("b");
    b.estado = Estado::Fallido;
    assert_eq!(
        EstadoMaestro::de_los_tuneles(&[&b, &a]),
        EstadoMaestro::Levantando
    );
    assert_eq!(EstadoMaestro::Levantando.etiqueta(), "conectando");
}
