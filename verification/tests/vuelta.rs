use yonder::config::parser::Documento;
use yonder::config::writer::sincronizar_host;
use yonder::modelo::{Extremo, Host, Origen, Reenvio, Salud, TipoReenvio};

fn documento(texto: &str) -> Documento {
    Documento::analizar("/dev/null", texto)
}

fn del_tipo(rs: &[Reenvio], t: TipoReenvio) -> Vec<&Reenvio> {
    rs.iter().filter(|r| r.tipo == t).collect()
}

fn host_completo() -> Host {
    let mut host = Host::nuevo("web");
    host.hostname = Some("web.interno".into());
    host.usuario = Some("despliegue".into());
    host.puerto = Some(2222);
    host.saltos = vec!["bastion".into(), "usuario@salto:2200".into()];
    host.identidades = vec!["~/.ssh/id_ed25519".into(), "~/.ssh/otra clave".into()];
    host.nota = Some("entorno de pruebas".into());
    host.reenvios.push(
        Reenvio::local(Extremo::solo_puerto(8080), Extremo::nuevo("localhost", 80))
            .con_nombre(Some("web".into())),
    );
    host.reenvios.push(Reenvio {
        tipo: TipoReenvio::Remoto,
        escucha: Extremo::solo_puerto(9000),
        destino: Some(Extremo::nuevo("::1", 9000)),
        salud: Salud::Escucha,
        nombre: None,
    });
    host.reenvios.push(
        Reenvio::local(Extremo::nuevo("127.0.0.1", 5433), Extremo::nuevo("db", 5432))
            .con_salud(Salud::Http {
                ruta: "/salud".into(),
            }),
    );
    host.reenvios
        .push(Reenvio::dinamico(Extremo::solo_puerto(1080)).con_salud(Salud::Banner));
    host
}

#[test]
fn lo_escrito_se_lee_igual() {
    let mut doc = documento(
        "Host web\n    Compression yes\n    # salud: tcp\n    LocalForward 1 a:1\n    # comentario\n",
    );
    let host = host_completo();
    sincronizar_host(&mut doc, &host).unwrap();
    let leido = doc.bloque("web").unwrap().a_host(Origen::Propio).unwrap();
    assert_eq!(leido.alias, host.alias);
    assert_eq!(leido.hostname, host.hostname);
    assert_eq!(leido.usuario, host.usuario);
    assert_eq!(leido.puerto, host.puerto);
    assert_eq!(leido.saltos, host.saltos);
    assert_eq!(leido.identidades, host.identidades);
    assert_eq!(leido.nota, host.nota);
    for t in [TipoReenvio::Local, TipoReenvio::Remoto, TipoReenvio::Dinamico] {
        assert!(del_tipo(&leido.reenvios, t) == del_tipo(&host.reenvios, t));
    }
    let texto = doc.a_texto();
    assert!(texto.contains("Compression yes"));
    assert!(texto.contains("# comentario"));
    assert!(!texto.contains("LocalForward 1 a:1"));
}

#[test]
fn sin_campos_se_lee_sin_campos() {
    let mut doc = documento("");
    let host = Host::nuevo("vacio");
    sincronizar_host(&mut doc, &host).unwrap();
    let leido = doc.bloque("vacio").unwrap().a_host(Origen::Propio).unwrap();
    assert_eq!(leido.hostname, None);
    assert_eq!(leido.usuario, None);
    assert_eq!(leido.puerto, None);
    assert!(leido.saltos.is_empty());
    assert!(leido.identidades.is_empty());
    assert!(leido.reenvios.is_empty());
    assert_eq!(leido.nota, None);
}

#[test]
fn una_marca_suelta_se_pega_al_reenvio_escrito() {
    // Una marca que no va pegada a ningún reenvío sobrevive a la escritura
    // y la lectura se la atribuye al primero que venga debajo.
    let mut doc = documento("Host web\n    # salud: banner\n    Compression yes\n");
    let mut host = Host::nuevo("web");
    host.reenvios.push(Reenvio::local(
        Extremo::solo_puerto(8080),
        Extremo::nuevo("localhost", 80),
    ));
    sincronizar_host(&mut doc, &host).unwrap();
    let leido = doc.bloque("web").unwrap().a_host(Origen::Propio).unwrap();
    assert_eq!(leido.reenvios.len(), 1);
    assert!(leido.reenvios[0].salud == Salud::Banner);
}

#[test]
fn el_valor_de_un_reenvio_se_lee_igual() {
    let r = Reenvio {
        tipo: TipoReenvio::Remoto,
        escucha: Extremo::nuevo("0.0.0.0", 9000),
        destino: Some(Extremo::nuevo("fe80::1", 22)),
        salud: Salud::Escucha,
        nombre: None,
    };
    let valor = r.valor_directiva();
    assert_eq!(valor, "0.0.0.0:9000 [fe80::1]:22");
    let leido = Reenvio::analizar(TipoReenvio::Remoto, &valor).unwrap();
    assert!(leido == r);
}

#[test]
fn una_direccion_con_barra_no_se_lee_igual() {
    let r = Reenvio::local(Extremo::solo_puerto(8080), Extremo::nuevo("a/b", 80));
    let leido = Reenvio::analizar(TipoReenvio::Local, &r.valor_directiva()).unwrap();
    assert!(leido != r);
}

#[test]
fn sincronizar_dos_veces_no_cambia_nada() {
    let mut doc = documento(
        "Host web\n    # nota: vieja\n    IdentityFile ~/.ssh/a\n    Compression yes\n    # nombre: viejo\n    LocalForward 1 a:1\n    IdentityFile ~/.ssh/b\n",
    );
    let host = host_completo();
    sincronizar_host(&mut doc, &host).unwrap();
    let primera = doc.a_texto();
    sincronizar_host(&mut doc, &host).unwrap();
    assert_eq!(primera, doc.a_texto());
    let mut nuevo = documento("");
    sincronizar_host(&mut nuevo, &host).unwrap();
    let una = nuevo.a_texto();
    sincronizar_host(&mut nuevo, &host).unwrap();
    assert_eq!(una, nuevo.a_texto());
}
