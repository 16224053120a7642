use yonder::prefs::{con_cabecera, Densidad, Preferencias, Tema};

#[test]
fn los_valores_por_defecto_son_los_de_la_documentacion() {
    let preferencias = Preferencias::default();
    assert_eq!(preferencias.intervalo_latido, 15);
    assert_eq!(preferencias.latidos_perdidos, 3);
}

#[test]
fn los_valores_absurdos_se_acotan_al_construir_las_opciones() {
    let preferencias = Preferencias {
        espera_conexion: 0,
        intervalo_latido: 100_000,
        latidos_perdidos: 0,
        ..Default::default()
    };
    let opciones = preferencias.opciones_maestro();
    assert_eq!(opciones.espera_conexion, 3);
    assert_eq!(opciones.intervalo_latido, 300);
    assert_eq!(opciones.latidos_perdidos, 1);
}

#[test]
fn la_cadencia_de_salud_se_acota() {
    let bajo = Preferencias {
        intervalo_salud: 0,
        ..Default::default()
    };
    // Sondear cada cero segundos sería martillear el servicio remoto.
    assert_eq!(bajo.intervalo_salud(), 5);

    let alto = Preferencias {
        intervalo_salud: 999_999,
        ..Default::default()
    };
    assert_eq!(alto.intervalo_salud(), 3600);
}

#[test]
fn el_tema_rota_y_vuelve_al_principio() {
    assert_eq!(Tema::Auto.siguiente().siguiente().siguiente(), Tema::Auto);
}

#[test]
fn las_etiquetas_y_la_politica() {
    assert_eq!(Tema::Oscuro.etiqueta(), "Oscuro");
    assert_eq!(Densidad::Comoda.siguiente(), Densidad::Compacta);
    let p = Preferencias {
        maximo_reintentos: 0,
        ..Default::default()
    };
    let politica = p.politica_reintento();
    assert_eq!(politica.maximo_intentos, 0);
    assert_eq!(politica.base, 2000);
    assert!(con_cabecera("tema = \"auto\"\n").starts_with("# Preferencias de «yonder».\n"));
    assert!(con_cabecera("tema = \"auto\"\n").ends_with("\n\ntema = \"auto\"\n"));
}
