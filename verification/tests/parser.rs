use yonder::config::parser::{Clase, Documento, Encabezado, Linea};
use yonder::modelo::Origen;

const EJEMPLO: &str = "\
# Configuración de Alex
Include ~/.ssh/config.d/yonder.conf

# nota: entorno de preproducción
Host tunel-preprod
    HostName host.interno.example
    User usuario
    ProxyJump salto.example
    LocalForward 3000 localhost:3000
    # este comentario debe sobrevivir
    ExitOnForwardFailure yes

Host *
    ServerAliveInterval 15
";

#[test]
fn el_texto_se_reconstruye_byte_a_byte() {
    let doc = Documento::analizar("/dev/null", EJEMPLO);
    assert_eq!(doc.a_texto(), EJEMPLO);
}

#[test]
fn separa_preambulo_y_bloques() {
    let doc = Documento::analizar("/dev/null", EJEMPLO);
    assert_eq!(doc.bloques.len(), 2);
    assert!(doc.preambulo.iter().any(|l| l.es("include")));
}

#[test]
fn el_comentario_pegado_va_con_el_bloque() {
    let doc = Documento::analizar("/dev/null", EJEMPLO);
    let bloque = doc.bloque("tunel-preprod").unwrap();
    assert_eq!(bloque.comentarios.len(), 1);
    assert!(bloque.comentarios[0].cruda.contains("preproducción"));
    assert!(doc.bloques[0]
        .comentarios
        .iter()
        .all(|l| l.clase == Clase::Comentario));
}

#[test]
fn extrae_el_modelo_tipado() {
    let doc = Documento::analizar("/dev/null", EJEMPLO);
    let host = doc
        .bloque("tunel-preprod")
        .unwrap()
        .a_host(Origen::Propio)
        .unwrap();
    assert_eq!(host.hostname.as_deref(), Some("host.interno.example"));
    assert_eq!(host.usuario.as_deref(), Some("usuario"));
    assert_eq!(host.saltos, vec!["salto.example"]);
    assert_eq!(host.reenvios.len(), 1);
    assert_eq!(host.nota.as_deref(), Some("entorno de preproducción"));
}

#[test]
fn el_comodin_no_es_gestionable() {
    let doc = Documento::analizar("/dev/null", EJEMPLO);
    assert!(doc.bloques[1].alias().is_none());
    assert!(doc.bloques[1].a_host(Origen::Propio).is_none());
}

#[test]
fn acepta_el_igual_como_separador() {
    let linea = Linea::analizar("  HostName=host.example");
    assert!(linea.es("hostname"));
    assert_eq!(linea.valor(), Some("host.example"));
}

#[test]
fn quita_las_comillas_del_valor() {
    let linea = Linea::analizar(r#"IdentityFile "~/.ssh/mi clave""#);
    assert_eq!(linea.valor(), Some("~/.ssh/mi clave"));
}

#[test]
fn varios_patrones_no_son_gestionables() {
    let doc = Documento::analizar("/dev/null", "Host uno dos\n    User usuario\n");
    assert!(doc.bloques[0].alias().is_none());
}

#[test]
fn conserva_el_bloque_match() {
    let texto = "Host uno\n    User usuario\n\nMatch host *.interno\n    User root\n";
    let doc = Documento::analizar("/dev/null", texto);
    assert_eq!(doc.a_texto(), texto);
    assert!(matches!(
        doc.bloques[1].encabezado,
        Encabezado::Match { .. }
    ));
}

#[test]
fn fichero_vacio() {
    let doc = Documento::analizar("/dev/null", "");
    assert_eq!(doc.a_texto(), "");
    assert!(doc.bloques.is_empty());
}

// --- Comprobaciones propias ------------------------------------------------------

#[test]
fn sin_salto_final_no_se_inventa_uno() {
    let texto = "Host a\n    HostName h";
    let doc = Documento::analizar("/dev/null", texto);
    assert!(!doc.salto_final);
    assert_eq!(doc.a_texto(), texto);
}

#[test]
fn un_salto_solo_es_el_unico_texto_que_no_vuelve_igual() {
    let doc = Documento::analizar("/dev/null", "\n");
    assert_eq!(doc.a_texto(), "");
}

#[test]
fn los_includes_se_expanden_respecto_a_ssh() {
    let doc = Documento::analizar(
        "/dev/null",
        "Include ~/.ssh/config.d/yonder.conf otros.conf /etc/ssh/comun.conf\n",
    );
    let rutas = doc.includes("/home/u/.ssh", "/home/u");
    assert_eq!(
        rutas,
        vec![
            "/home/u/.ssh/config.d/yonder.conf".to_string(),
            "/home/u/.ssh/otros.conf".to_string(),
            "/etc/ssh/comun.conf".to_string(),
        ]
    );
}

#[test]
fn la_marca_de_salud_invalida_se_ignora() {
    let doc = Documento::analizar(
        "/dev/null",
        "Host a\n    # salud: ping\n    LocalForward 22 x:22\n",
    );
    let host = doc.bloque("a").unwrap().a_host(Origen::Propio).unwrap();
    assert_eq!(host.reenvios[0].salud, yonder::modelo::Salud::Escucha);
}

#[test]
fn el_puerto_y_las_identidades_se_leen() {
    let doc = Documento::analizar(
        "/dev/null",
        "Host a\n    Port 2222\n    IdentityFile ~/.ssh/uno\n    IdentityFile ~/.ssh/dos\n",
    );
    let host = doc.bloque("a").unwrap().a_host(Origen::Propio).unwrap();
    assert_eq!(host.puerto, Some(2222));
    assert_eq!(host.identidades, vec!["~/.ssh/uno", "~/.ssh/dos"]);
}

#[test]
fn la_posicion_y_el_bloque_mutable_encuentran_el_alias() {
    let mut doc = Documento::analizar("/dev/null", "Host a\n\nHost b\n");
    assert_eq!(doc.posicion("b"), Some(1));
    assert_eq!(doc.posicion("c"), None);
    assert!(doc.bloque_mut("a").is_some());
    assert_eq!(doc.hosts(Origen::Propio).len(), 2);
}
