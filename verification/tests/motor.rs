use yonder::state::machine::{Estado, EstadoTunel};
use yonder::state::supervisor::{plan_de_orden, Accion, Orden};
use yonder::config::parser::Documento;
use yonder::config::{Catalogo, EstadoInclude};
use yonder::modelo::{Extremo, Host, Origen, Reenvio};
use yonder::rutas::hogar_segun_ssh;
use yonder::state::comprobar_visible_para_ssh;
use yonder::Error;
use yonder::state::registros::{de_autoarranque, importables, tuneles_visibles, RegistroTunel};

fn host(alias: &str, puertos: &[u16]) -> Host {
    let mut h = Host::nuevo(alias);
    for p in puertos {
        h.reenvios.push(Reenvio::local(Extremo::solo_puerto(*p), Extremo::nuevo("localhost", *p)));
    }
    h
}

fn catalogo() -> Catalogo {
    Catalogo {
        propio: Documento::analizar("/dev/null", ""),
        propios: vec![host("a", &[8080, 9090])],
        externos: vec![host("b", &[7000]), host("c", &[6000])],
    }
}

fn ids(c: &Catalogo, importados: &Vec<String>, registros: &Vec<RegistroTunel>) -> Vec<String> {
    tuneles_visibles(c, importados, registros).iter().map(|t| t.id()).collect()
}

fn registro(id: &str, orden: i64) -> RegistroTunel {
    let mut r = RegistroTunel::nuevo(id);
    r.orden = orden;
    r
}

#[test]
fn un_registro_nuevo_no_tiene_puesto_ni_historia() {
    let r = RegistroTunel::nuevo("a|-L|8080");
    assert_eq!(r.id, "a|-L|8080");
    assert_eq!(r.orden, 0);
    assert!(!r.deseado);
    assert!(!r.autoarranque);
    assert_eq!(r.ultima_conexion, None);
    assert_eq!((r.fallos, r.activaciones, r.segundos_activo), (0, 0, 0));
}

#[test]
fn sin_importar_solo_se_ven_los_propios() {
    let c = catalogo();
    assert_eq!(ids(&c, &vec![], &vec![]), vec!["a|-L|8080", "a|-L|9090"]);
}

#[test]
fn sin_registros_la_lista_va_en_orden_de_fichero() {
    let c = catalogo();
    let importados = vec!["c".to_string(), "b".to_string()];
    assert_eq!(
        ids(&c, &importados, &vec![]),
        vec!["a|-L|8080", "a|-L|9090", "b|-L|7000", "c|-L|6000"]
    );
}

#[test]
fn la_lista_sigue_el_orden_guardado_y_los_nuevos_van_al_final() {
    let c = catalogo();
    let importados = vec!["c".to_string()];
    let registros = vec![registro("a|-L|9090", 1), registro("c|-L|6000", 0)];
    assert_eq!(
        ids(&c, &importados, &registros),
        vec!["c|-L|6000", "a|-L|9090", "a|-L|8080"]
    );
}

#[test]
fn con_puestos_iguales_se_conserva_el_orden_de_fichero() {
    let c = catalogo();
    let importados = vec!["b".to_string()];
    let registros = vec![
        registro("b|-L|7000", 3),
        registro("a|-L|9090", 3),
        registro("a|-L|8080", 5),
    ];
    assert_eq!(
        ids(&c, &importados, &registros),
        vec!["a|-L|9090", "b|-L|7000", "a|-L|8080"]
    );
}

#[test]
fn si_un_identificador_se_repite_vale_el_ultimo_registro() {
    let c = catalogo();
    let registros = vec![registro("a|-L|8080", 0), registro("a|-L|8080", 9), registro("a|-L|9090", 4)];
    assert_eq!(ids(&c, &vec![], &registros), vec!["a|-L|9090", "a|-L|8080"]);
}

#[test]
fn importables_son_los_ajenos_aun_no_importados() {
    let c = catalogo();
    let importados = vec!["c".to_string()];
    let candidatos: Vec<String> = importables(&c, &importados).iter().map(|h| h.alias.clone()).collect();
    assert_eq!(candidatos, vec!["b"]);
    let todos: Vec<String> = importables(&c, &vec![]).iter().map(|h| h.alias.clone()).collect();
    assert_eq!(todos, vec!["b", "c"]);
}

#[test]
fn de_autoarranque_son_los_visibles_marcados_en_orden_de_lista() {
    let c = catalogo();
    let mut uno = registro("a|-L|8080", 2);
    uno.autoarranque = true;
    let mut otro = registro("c|-L|6000", 1);
    otro.autoarranque = true;
    let mut oculto = registro("b|-L|7000", 0);
    oculto.autoarranque = true;
    let registros = vec![uno, otro, oculto];
    let importados = vec!["c".to_string()];
    assert_eq!(
        de_autoarranque(&c, &importados, &registros),
        vec!["c|-L|6000", "a|-L|8080"]
    );
}

#[test]
fn un_host_propio_sin_la_linea_es_invisible_para_ssh() {
    let propio = Host::nuevo("preprod");
    match comprobar_visible_para_ssh(&propio, Some(EstadoInclude::Ausente)) {
        Err(Error::AliasInvisible { alias }) => assert_eq!(alias, "preprod"),
        otro => panic!("se esperaba AliasInvisible, llegó {otro:?}"),
    }
    assert!(matches!(
        comprobar_visible_para_ssh(&propio, Some(EstadoInclude::SinFichero)),
        Err(Error::AliasInvisible { .. })
    ));
    assert!(comprobar_visible_para_ssh(&propio, Some(EstadoInclude::Presente)).is_ok());
    // Si no se pudo averiguar, se deja pasar.
    assert!(comprobar_visible_para_ssh(&propio, None).is_ok());
}

#[test]
fn un_host_ajeno_no_depende_de_la_linea() {
    let mut ajeno = Host::nuevo("viejo");
    ajeno.origen = Origen::Ajeno("/home/u/.ssh/config".to_string());
    assert!(comprobar_visible_para_ssh(&ajeno, Some(EstadoInclude::Ausente)).is_ok());
}

#[test]
fn para_ssh_manda_el_directorio_de_passwd() {
    assert_eq!(hogar_segun_ssh(Some("/home/real"), "/tmp/otro"), "/home/real");
    assert_eq!(hogar_segun_ssh(Some(""), "/tmp/otro"), "/tmp/otro");
    assert_eq!(hogar_segun_ssh(None, "/tmp/otro"), "/tmp/otro");
}

#[test]
fn renombrar_en_el_catalogo_devuelve_el_texto_y_rehace_los_propios() {
    let mut c = Catalogo {
        propio: Documento::analizar("/dev/null", "Host viejo\n    HostName h\n"),
        propios: vec![],
        externos: vec![host("ajeno", &[7000])],
    };
    let texto = c.renombrar_host("viejo", "nuevo").unwrap();
    assert_eq!(texto, "Host nuevo\n    HostName h\n");
    assert_eq!(c.propios.len(), 1);
    assert_eq!(c.propios[0].alias, "nuevo");
    assert!(matches!(c.renombrar_host("nuevo", "ajeno"), Err(Error::HostDuplicado(n)) if n == "ajeno"));
    assert!(matches!(c.renombrar_host("otro", "x"), Err(Error::HostDesconocido(n)) if n == "otro"));
    assert_eq!(c.renombrar_host("nuevo", "nuevo").unwrap(), "Host nuevo\n    HostName h\n");
}

#[test]
fn reintentar_un_fallido_reinicia_antes_el_contador() {
    let mut fallido = EstadoTunel::nuevo("a|-L|1");
    fallido.estado = Estado::Fallido;
    let mut reintentando = EstadoTunel::nuevo("b|-L|2");
    reintentando.estado = Estado::Reintentando;
    let estados = vec![fallido, reintentando];
    let plan = plan_de_orden(&Orden::ReintentarYa("a|-L|1".into()), &estados);
    assert!(matches!(plan.as_slice(),
        [Accion::ReiniciarContador(x), Accion::Levantar(y)] if x == "a|-L|1" && y == "a|-L|1"));
    let plan = plan_de_orden(&Orden::ReintentarYa("b|-L|2".into()), &estados);
    assert!(matches!(plan.as_slice(), [Accion::Levantar(y)] if y == "b|-L|2"));
    let plan = plan_de_orden(&Orden::ReintentarYa("c".into()), &estados);
    assert!(matches!(plan.as_slice(), [Accion::Levantar(y)] if y == "c"));
}

#[test]
fn renombrar_o_borrar_baja_antes_los_tuneles_del_host() {
    let plan = plan_de_orden(
        &Orden::RenombrarHost { antiguo: "viejo".into(), nuevo: Box::new(Host::nuevo("nuevo")) },
        &vec![],
    );
    assert!(matches!(plan.as_slice(),
        [Accion::BajarLosDe(a), Accion::RenombrarHost, Accion::GuardarHost] if a == "viejo"));
    let plan = plan_de_orden(&Orden::EliminarHost("x".into()), &vec![]);
    assert!(matches!(plan.as_slice(),
        [Accion::BajarLosDe(a), Accion::EliminarHost, Accion::Recargar] if a == "x"));
    let plan = plan_de_orden(&Orden::LevantarVarios(vec!["p".into(), "q".into()]), &vec![]);
    assert!(matches!(plan.as_slice(),
        [Accion::Levantar(p), Accion::Levantar(q)] if p == "p" && q == "q"));
    assert!(plan_de_orden(&Orden::Terminar, &vec![]).is_empty());
}
