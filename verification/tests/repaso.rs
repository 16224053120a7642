use yonder::config::parser::Documento;
use yonder::config::writer::sincronizar_host;
use yonder::modelo::{Extremo, Host, Reenvio};
use yonder::net::salud::{
    juzgar_banner, juzgar_respuesta_http, seguir_leyendo, veredicto_sin_conexion,
    veredicto_sin_envio, Lectura, Veredicto,
};
use yonder::rutas::{hex_de_prefijo, huella_alias};

#[test]
fn el_prefijo_del_resumen_en_hexadecimal() {
    let resumen = vec![0x00u8, 0xab, 0x10, 0xff, 0x7f];
    assert_eq!(hex_de_prefijo(&resumen, 0), "");
    assert_eq!(hex_de_prefijo(&resumen, 3), "00ab10");
    assert_eq!(hex_de_prefijo(&resumen, 5), "00ab10ff7f");
}

#[test]
fn la_huella_del_alias_son_los_ocho_primeros_bytes_del_sha256() {
    // SHA-256("abc") = ba7816bf8f01cfea414140de5dae2223…
    assert_eq!(huella_alias("abc"), "ba7816bf8f01cfea");
}

#[test]
fn el_banner_basta_con_que_el_servidor_hable() {
    assert_eq!(juzgar_banner(&Lectura::Byte), Veredicto::Sano);
    assert_eq!(
        juzgar_banner(&Lectura::Cerrada),
        Veredicto::Zombi(
            "el servidor cerró la conexión sin decir nada: el reenvío no llega al servicio".into()
        )
    );
    assert_eq!(
        juzgar_banner(&Lectura::Agotada),
        Veredicto::Zombi("el servidor no saludó en 4 s: el túnel está en pie pero no transporta".into())
    );
    assert_eq!(
        juzgar_banner(&Lectura::Error("roto".into())),
        Veredicto::Zombi("error al leer del servicio: roto".into())
    );
}

#[test]
fn la_respuesta_http_se_lee_hasta_el_fin_de_linea_o_el_tope() {
    assert!(seguir_leyendo(&b"HTTP/1.1 200".to_vec()));
    assert!(seguir_leyendo(&b"HTTP/1.1 200 OK\r".to_vec()));
    assert!(!seguir_leyendo(&b"HTTP/1.1 200 OK\r\n".to_vec()));
    assert!(!seguir_leyendo(&vec![b'x'; 128]));
    assert!(seguir_leyendo(&vec![b'x'; 127]));
}

#[test]
fn el_veredicto_http_segun_como_acabo_la_lectura() {
    assert_eq!(
        juzgar_respuesta_http("/", &Lectura::Byte, "HTTP/1.1 204 No Content\r\n"),
        Veredicto::Sano
    );
    assert_eq!(
        juzgar_respuesta_http("/", &Lectura::Cerrada, ""),
        Veredicto::Zombi("el servicio cerró sin responder: el reenvío no llega a ningún sitio".into())
    );
    assert_eq!(
        juzgar_respuesta_http("/", &Lectura::Agotada, "HTTP/1.1 2"),
        Veredicto::Zombi("sin respuesta HTTP en 4 s: el túnel está en pie pero no transporta".into())
    );
    assert_eq!(
        juzgar_respuesta_http("/", &Lectura::Error("reset".into()), ""),
        Veredicto::Zombi("error al leer la respuesta: reset".into())
    );
    assert_eq!(
        juzgar_respuesta_http("/x", &Lectura::Cerrada, "HTTP/1.1 503 Busy"),
        Veredicto::Zombi("el servicio respondió 503 a «/x»: contesta, pero no como se esperaba".into())
    );
}

#[test]
fn los_fallos_al_conectar_y_al_enviar_se_explican() {
    assert_eq!(
        veredicto_sin_conexion("rechazada"),
        Veredicto::Zombi("el puerto escucha pero no se pudo conectar: rechazada".into())
    );
    assert_eq!(
        veredicto_sin_envio("tubería rota"),
        Veredicto::Zombi("no se pudo enviar la petición: tubería rota".into())
    );
}

/// Una marca suelta justo donde se escriben los reenvíos se pega al primero
/// en la primera pasada y la segunda la trata como suya: aquí sincronizar dos
/// veces no es idempotente, y por eso la ley exige cuerpos sin marcas sueltas.
#[test]
fn una_marca_suelta_en_el_punto_de_insercion_rompe_la_idempotencia() {
    let mut doc = Documento::analizar("/dev/null", "Host a\n    # salud: tcp\n");
    let mut host = Host::nuevo("a");
    host.reenvios.push(Reenvio::local(Extremo::solo_puerto(8080), Extremo::nuevo("web", 80)));
    sincronizar_host(&mut doc, &host).unwrap();
    let primera = doc.a_texto();
    sincronizar_host(&mut doc, &host).unwrap();
    assert_ne!(primera, doc.a_texto());
}

#[test]
fn tras_sincronizar_cada_directiva_fija_queda_una_vez() {
    let mut doc = Documento::analizar(
        "/dev/null",
        "Host a\n    ServerAliveInterval 30\n    TCPKeepAlive no\n    ServerAliveInterval 40\n",
    );
    let host = Host::nuevo("a");
    sincronizar_host(&mut doc, &host).unwrap();
    let texto = doc.a_texto();
    for linea in [
        "ExitOnForwardFailure yes",
        "ServerAliveInterval 15",
        "ServerAliveCountMax 3",
        "TCPKeepAlive yes",
    ] {
        assert_eq!(texto.lines().filter(|l| l.trim() == linea).count(), 1, "{linea}");
    }
    assert!(!texto.contains("ServerAliveInterval 30"));
    assert!(!texto.contains("ServerAliveInterval 40"));
    assert!(!texto.contains("TCPKeepAlive no"));
}

#[test]
fn hay_un_bloque_por_cada_host_o_match_con_sus_comentarios_encima() {
    let texto = "# cabecera\n\n# del primero\nHost a\n    User u\n# del segundo\n# también\nmatch all\n    Port 2\n";
    let doc = Documento::analizar("/dev/null", texto);
    assert_eq!(doc.bloques.len(), 2);
    assert_eq!(doc.preambulo.len(), 2);
    assert_eq!(doc.bloques[0].comentarios.len(), 1);
    assert_eq!(doc.bloques[0].cuerpo.len(), 1);
    assert_eq!(doc.bloques[1].comentarios.len(), 2);
    assert_eq!(doc.a_texto(), texto);
}
