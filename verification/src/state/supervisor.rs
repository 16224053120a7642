//! Supervisión con reintento y retardo exponencial, y lo que el supervisor
//! intercambia con la interfaz: órdenes, la foto del estado y los avisos.
//!
//! Nada de `autossh`. `ServerAliveInterval` + `ServerAliveCountMax` detectan la
//! caída y el supervisor decide cuándo volver a intentarlo: base 2 s, techo
//! 60 s y una variación aleatoria del ±20 % para que veinte túneles que se caen
//! a la vez —una VPN que se corta— no vuelvan todos en el mismo milisegundo.
//!
//! El hilo que atiende las órdenes queda fuera de la biblioteca; aquí están sus
//! decisiones: cuánto esperar, cuándo rendirse, cómo escalar una reparación y
//! qué aviso dar de cada orden.

use vstd::prelude::*;

use rand::Rng;

use crate::config::vistas_tuneles;
use crate::modelo::{Host, Tunel};
use crate::error::Error;
use crate::state::machine::{ahora, despues_de, no_es_posterior, Estado, EstadoTunel, EstadoTunelV};
use crate::state::{mensaje_completo, mensaje_completo_de};
use crate::texto::{anexar, anexar_str, cadena, caracteres, copia_lista, decimal, en_decimal, iguales, juntar_cadenas, unidos, vistas};

verus! {

broadcast use vstd::string::group_string_axioms;

/// Órdenes que la interfaz manda al supervisor.
#[derive(Debug)]
pub enum Orden {
    Levantar(String),
    Bajar(String),
    /// Levanta varios de golpe: el botón «iniciar seleccionados».
    LevantarVarios(Vec<String>),
    BajarVarios(Vec<String>),
    /// Reintenta ya, sin esperar el retardo. Es el botón de reintentar.
    ReintentarYa(String),
    /// Vuelve a leer el fichero de túneles.
    Recargar,
    /// Marca de autoarranque.
    FijarAutoarranque(String, bool),
    /// Muestra un host externo en la lista.
    Importar(String),
    /// Nuevo orden de la lista.
    Reordenar(Vec<String>),
    /// Crea o actualiza un host del fichero propio.
    GuardarHost(Box<Host>),
    /// Renombra un host y guarda el resto de sus cambios.
    RenombrarHost { antiguo: String, nuevo: Box<Host> },
    /// Borra un host del fichero propio, bajando antes sus túneles.
    EliminarHost(String),
    Terminar,
}

/// Mensaje puntual para la interfaz.
#[derive(Debug)]
pub struct Aviso {
    pub texto: String,
    pub grave: bool,
}

impl Aviso {
    pub fn informativo(texto: &str) -> (r: Aviso)
        ensures
            r.texto@ == texto@,
            !r.grave,
    {
        Aviso { texto: texto.to_string(), grave: false }
    }

    pub fn error(texto: &str) -> (r: Aviso)
        ensures
            r.texto@ == texto@,
            r.grave,
    {
        Aviso { texto: texto.to_string(), grave: true }
    }
}

pub open spec fn vistas_estados_tunel(v: Seq<EstadoTunel>) -> Seq<EstadoTunelV> {
    v.map_values(|e: EstadoTunel| e@)
}

/// El primer estado con ese identificador.
pub open spec fn estado_por_id(es: Seq<EstadoTunelV>, id: Seq<char>) -> Option<EstadoTunelV>
    decreases es.len(),
{
    if es.len() == 0 {
        None
    } else if es[0].id == id {
        Some(es[0])
    } else {
        estado_por_id(es.drop_first(), id)
    }
}

/// Cuántos túneles están en ese estado.
pub open spec fn cuantos(es: Seq<EstadoTunelV>, e: Estado) -> nat
    decreases es.len(),
{
    if es.len() == 0 {
        0
    } else {
        cuantos(es.drop_last(), e) + if es.last().estado == e {
            1nat
        } else {
            0nat
        }
    }
}

/// El primer estado de la lista con ese identificador.
fn buscar_estado<'a>(estados: &'a Vec<EstadoTunel>, id: &str) -> (r: Option<&'a EstadoTunel>)
    ensures
        match r {
            Some(e) => estado_por_id(vistas_estados_tunel(estados@), id@) == Some(e@),
            None => estado_por_id(vistas_estados_tunel(estados@), id@) is None,
        },
{
        let ghost v = vistas_estados_tunel(estados@);
        let buscado = caracteres(id);
        let mut i: usize = 0;
        proof {
            assert(v.skip(0) =~= v);
        }
        while i < estados.len()
            invariant
                i <= estados@.len(),
                v == vistas_estados_tunel(estados@),
                buscado@ == id@,
                estado_por_id(v, id@) == estado_por_id(v.skip(i as int), id@),
            decreases estados@.len() - i,
        {
            proof {
                assert(v.skip(i as int)[0] == estados@[i as int]@);
                assert(v.skip(i as int).drop_first() =~= v.skip(i + 1));
            }
            let propio = caracteres(estados[i].id.as_str());
            if iguales(propio.as_slice(), buscado.as_slice()) {
                return Some(&estados[i]);
            }
            i += 1;
        }
        None
}

/// Foto del estado que la interfaz pinta.
#[derive(Debug)]
pub struct Instantanea {
    pub tuneles: Vec<Tunel>,
    pub hosts: Vec<Host>,
    pub estados: Vec<EstadoTunel>,
    pub importables: Vec<Host>,
    /// Identificadores marcados para levantarse al abrir la ventana.
    pub autoarranque: Vec<String>,
    /// Aviso puntual para mostrar en la interfaz (resultado de una orden).
    pub aviso: Option<Aviso>,
    /// Sube en cada cambio; sirve para saber si hay que repintar.
    pub generacion: u64,
}

impl Instantanea {
    /// El estado del túnel con ese identificador.
    pub fn estado(&self, id: &str) -> (r: Option<&EstadoTunel>)
        ensures
            match r {
                Some(e) => estado_por_id(vistas_estados_tunel(self.estados@), id@) == Some(e@),
                None => estado_por_id(vistas_estados_tunel(self.estados@), id@) is None,
            },
    {
        buscar_estado(&self.estados, id)
    }

    /// Cuántos túneles hay en ese estado.
    pub fn cuenta(&self, estado: Estado) -> (r: usize)
        ensures
            r as nat == cuantos(vistas_estados_tunel(self.estados@), estado),
    {
        let ghost v = vistas_estados_tunel(self.estados@);
        let mut n: usize = 0;
        let mut i: usize = 0;
        proof {
            assert(v.take(0) =~= seq![]);
        }
        while i < self.estados.len()
            invariant
                i <= self.estados@.len(),
                v == vistas_estados_tunel(self.estados@),
                n as nat == cuantos(v.take(i as int), estado),
                n <= i,
            decreases self.estados@.len() - i,
        {
            proof {
                assert(v.take(i + 1).drop_last() =~= v.take(i as int));
                assert(v.take(i + 1).last() == self.estados@[i as int]@);
            }
            if self.estados[i].estado == estado {
                n += 1;
            }
            i += 1;
        }
        proof {
            assert(v.take(v.len() as int) =~= v);
        }
        n
    }
}


/// Reparaciones suaves antes de reabrir la conexión maestra entera.
///
/// Rehacer el `-O forward` arregla el caso normal sin reautenticar. Si dos
/// intentos seguidos no bastan, el problema no es el reenvío sino el
/// multiplexor del maestro, y hay que cerrarlo y volver a abrirlo.
pub const REPARACIONES_ANTES_DE_REABRIR: u32 = 2;

/// Cadencia del latido del supervisor, en milisegundos.
pub const LATIDO: u64 = 1000;

/// `Rng::gen_range` de `rand` sobre el generador del hilo: un entero al azar
/// entre `minimo` y `maximo`, ambos incluidos. Depende del azar: solo se
/// promete que cae dentro del intervalo.
#[verifier::external_body]
fn al_azar_entre(minimo: i64, maximo: i64) -> (r: i64)
    requires
        minimo <= maximo,
    ensures
        minimo <= r <= maximo,
{
    rand::thread_rng().gen_range(minimo..=maximo)
}

/// Política de reintento. Los tiempos van en milisegundos.
#[derive(Debug, Clone, Copy)]
pub struct PoliticaReintento {
    /// Retardo del primer reintento.
    pub base: u64,
    /// Retardo máximo.
    pub techo: u64,
    /// Variación aleatoria, en milésimas del retardo: 200 es ±20 %.
    pub jitter: u32,
    /// Intentos antes de darse por vencido. 0 = sin límite.
    pub maximo_intentos: u32,
}

impl Default for PoliticaReintento {
    fn default() -> (r: PoliticaReintento)
        ensures
            r.base == 2000,
            r.techo == 60000,
            r.jitter == 200,
            r.maximo_intentos == 10,
    {
        PoliticaReintento { base: 2000, techo: 60000, jitter: 200, maximo_intentos: 10 }
    }
}

pub open spec fn dos_a_la(e: nat) -> nat
    decreases e,
{
    if e == 0 {
        1
    } else {
        2 * dos_a_la((e - 1) as nat)
    }
}

/// Exponente del intento `n`: 0 para el primero, y nunca más de 16.
pub open spec fn exponente(intento: u32) -> nat {
    if intento == 0 {
        0
    } else if intento - 1 > 16 {
        16
    } else {
        (intento - 1) as nat
    }
}

/// Retardo del intento `n` sin variación: la base duplicada en cada intento,
/// hasta el techo.
pub open spec fn acotado(p: PoliticaReintento, intento: u32) -> nat {
    let crudo: nat = (p.base * dos_a_la(exponente(intento))) as nat;
    if crudo <= p.techo {
        crudo
    } else {
        p.techo as nat
    }
}

/// El retardo `ms` variado en `f` millonésimas, nunca por debajo de 100 ms.
pub open spec fn variado(ms: nat, f: int) -> nat {
    let v: int = if 1000000 + f <= 0 {
        0
    } else {
        (ms * (1000000 + f)) / 1000000
    };
    let s: int = if v > u64::MAX {
        u64::MAX as int
    } else {
        v
    };
    if s < 100 {
        100
    } else {
        s as nat
    }
}

pub open spec fn agotado_en(p: PoliticaReintento, intento: u32) -> bool {
    p.maximo_intentos > 0 && intento >= p.maximo_intentos
}

proof fn lema_dos_a_la_crece(a: nat, b: nat)
    requires
        a <= b,
    ensures
        1 <= dos_a_la(a) <= dos_a_la(b),
    decreases b,
{
    if b > a {
        lema_dos_a_la_crece(a, (b - 1) as nat);
    } else if a > 0 {
        lema_dos_a_la_crece((a - 1) as nat, (a - 1) as nat);
    }
}

impl PoliticaReintento {
    /// Retardo del intento `n` sin variación aleatoria (1 es el primer
    /// reintento).
    pub fn retardo_sin_variacion(&self, intento: u32) -> (r: u64)
        ensures
            r == acotado(*self, intento),
    {
        let e: u32 = if intento == 0 {
            0
        } else if intento - 1 > 16 {
            16
        } else {
            intento - 1
        };
        let mut potencia: u64 = 1;
        let mut i: u32 = 0;
        while i < e
            invariant
                i <= e,
                e as nat == exponente(intento),
                e <= 16,
                potencia as nat == dos_a_la(i as nat),
            decreases e - i,
        {
            proof {
                lema_dos_a_la_crece(i as nat, 16);
                reveal_with_fuel(dos_a_la, 17);
                assert(dos_a_la(16) == 65536);
            }
            potencia = potencia * 2;
            i += 1;
        }
        match self.base.checked_mul(potencia) {
            Some(crudo) => {
                if crudo <= self.techo {
                    crudo
                } else {
                    self.techo
                }
            },
            None => self.techo,
        }
    }

    /// Aplica a `ms` una variación de `factor` millonésimas.
    pub fn variar(ms: u64, factor: i64) -> (r: u64)
        requires
            -(u32::MAX as int) * 1000 <= factor <= u32::MAX as int * 1000,
        ensures
            r == variado(ms as nat, factor as int),
    {
        let proporcion: i64 = 1000000 + factor;
        let v: u128 = if proporcion <= 0 {
            0
        } else {
            let m = proporcion as u128;
            proof {
                assert(ms as int * m as int <= u64::MAX as int * (u32::MAX as int * 1000
                    + 1000000)) by (nonlinear_arith)
                    requires
                        ms <= u64::MAX,
                        m <= u32::MAX as int * 1000 + 1000000,
                ;
            }
            (ms as u128 * m) / 1000000
        };
        let s: u64 = if v > u64::MAX as u128 {
            u64::MAX
        } else {
            v as u64
        };
        if s < 100 {
            100
        } else {
            s
        }
    }

    /// Retardo del intento `n` (1 es el primer reintento), en milisegundos.
    ///
    /// Con `jitter` a cero es el retardo exacto. Si no, se varía al azar entre
    /// `-jitter` y `+jitter` milésimas (el azar se toma en millonésimas), sin
    /// bajar de 100 ms.
    pub fn retardo(&self, intento: u32) -> (r: u64)
        ensures
            self.jitter == 0 ==> r == acotado(*self, intento),
            self.jitter > 0 ==> exists|f: int|
                -self.jitter * 1000 <= f <= self.jitter * 1000 && r == #[trigger] variado(
                    acotado(*self, intento),
                    f,
                ),
    {
        let crudo = self.retardo_sin_variacion(intento);
        if self.jitter == 0 {
            return crudo;
        }
        let margen: i64 = self.jitter as i64 * 1000;
        let factor = al_azar_entre(-margen, margen);
        Self::variar(crudo, factor)
    }

    /// Si se han agotado los intentos.
    pub fn agotado(&self, intento: u32) -> (r: bool)
        ensures
            r == agotado_en(*self, intento),
    {
        self.maximo_intentos > 0 && intento >= self.maximo_intentos
    }
}

/// El retardo sin variación nunca decrece de un intento al siguiente.
pub proof fn ley_el_retardo_no_decrece(p: PoliticaReintento, a: u32, b: u32)
    requires
        a <= b,
    ensures
        acotado(p, a) <= acotado(p, b),
{
    lema_dos_a_la_crece(exponente(a), exponente(b));
    vstd::arithmetic::mul::lemma_mul_inequality(
        dos_a_la(exponente(a)) as int,
        dos_a_la(exponente(b)) as int,
        p.base as int,
    );
    assert(p.base * dos_a_la(exponente(a)) <= p.base * dos_a_la(exponente(b))) by {
        vstd::arithmetic::mul::lemma_mul_is_commutative(p.base as int, dos_a_la(exponente(a)) as int);
        vstd::arithmetic::mul::lemma_mul_is_commutative(p.base as int, dos_a_la(exponente(b)) as int);
    }
}

/// El retardo sin variación nunca pasa del techo, y el primero es la base si
/// cabe bajo el techo.
pub proof fn ley_el_retardo_se_detiene_en_el_techo(p: PoliticaReintento, intento: u32)
    ensures
        acotado(p, intento) <= p.techo,
        p.base <= p.techo ==> acotado(p, 1) == p.base,
{
    assert(exponente(1) == 0);
    assert(dos_a_la(0) == 1);
    assert(p.base * dos_a_la(0) == p.base);
}

/// La variación se queda dentro del margen: con un factor de hasta `j`
/// milésimas en cualquier sentido, el retardo variado queda entre el retardo
/// reducido en `j` milésimas y el aumentado en `j`, sin bajar de 100 ms.
pub proof fn ley_la_variacion_se_queda_en_el_margen(ms: u64, j: u32, f: int)
    requires
        -j * 1000 <= f <= j * 1000,
        j < 1000,
    ensures
        variado(ms as nat, f) >= (ms * (1000 - j)) / 1000,
        variado(ms as nat, f) <= if (ms * (1000 + j)) / 1000 < 100 {
            100
        } else {
            (ms * (1000 + j)) / 1000
        },
{
    let m = 1000000int;
    let bajo = m - 1000 * j;
    let alto = m + 1000 * j;
    vstd::arithmetic::mul::lemma_mul_inequality(bajo, m + f, ms as int);
    vstd::arithmetic::mul::lemma_mul_inequality(m + f, alto, ms as int);
    vstd::arithmetic::mul::lemma_mul_is_commutative(ms as int, bajo);
    vstd::arithmetic::mul::lemma_mul_is_commutative(ms as int, m + f);
    vstd::arithmetic::mul::lemma_mul_is_commutative(ms as int, alto);
    vstd::arithmetic::div_mod::lemma_div_is_ordered(ms * bajo, ms * (m + f), m);
    vstd::arithmetic::div_mod::lemma_div_is_ordered(ms * (m + f), ms * alto, m);
    vstd::arithmetic::mul::lemma_mul_inequality(bajo, m, ms as int);
    vstd::arithmetic::mul::lemma_mul_is_commutative(ms as int, m);
    vstd::arithmetic::div_mod::lemma_div_is_ordered(ms * bajo, ms * m, m);
    vstd::arithmetic::div_mod::lemma_div_multiples_vanish(ms as int, m);
    // Las milésimas y las millonésimas dan el mismo cociente.
    assert(ms * bajo == (ms * (1000 - j)) * 1000) by (nonlinear_arith)
        requires
            bajo == 1000000 - 1000 * j,
    ;
    assert(ms * alto == (ms * (1000 + j)) * 1000) by (nonlinear_arith)
        requires
            alto == 1000000 + 1000 * j,
    ;
    vstd::arithmetic::div_mod::lemma_div_denominator(ms * (1000 - j), 1000, 1000);
    vstd::arithmetic::div_mod::lemma_div_denominator(ms * (1000 + j), 1000, 1000);
    vstd::arithmetic::div_mod::lemma_div_multiples_vanish(ms * (1000 - j), 1000);
    vstd::arithmetic::div_mod::lemma_div_multiples_vanish(ms * (1000 + j), 1000);
}

/// Agotar los intentos es definitivo; sin límite no se agotan nunca.
pub proof fn ley_los_intentos_se_agotan(p: PoliticaReintento, a: u32, b: u32)
    requires
        a <= b,
    ensures
        agotado_en(p, a) ==> agotado_en(p, b),
        p.maximo_intentos == 0 ==> !agotado_en(p, b),
{
}

/// Anota un fallo en el estado del túnel y programa el siguiente intento.
///
/// Si se han agotado los intentos, el túnel pasa a `Fallido` sin próximo
/// intento y devuelve `None`. Si no, pasa a `Reintentando` y devuelve el
/// retardo elegido, en milisegundos; el próximo intento queda ese retardo
/// después de ahora.
pub fn programar_reintento(estado: &mut EstadoTunel, politica: &PoliticaReintento) -> (r: Option<
    u64>)
    requires
        old(estado).intento < u32::MAX,
    ensures
        final(estado)@.intento == old(estado)@.intento + 1,
        final(estado)@.id == old(estado)@.id,
        final(estado)@.ultimo_error == old(estado)@.ultimo_error,
        final(estado)@.pid_maestro == old(estado)@.pid_maestro,
        final(estado)@.residual == old(estado)@.residual,
        agotado_en(*politica, final(estado)@.intento) ==> {
            &&& r is None
            &&& final(estado)@.estado == Estado::Fallido
            &&& final(estado)@.proximo_intento is None
        },
        !agotado_en(*politica, final(estado)@.intento) ==> {
            &&& final(estado)@.estado == Estado::Reintentando
            &&& r matches Some(ms) && (politica.jitter == 0 ==> ms == acotado(
                *politica,
                final(estado)@.intento,
            )) && (politica.jitter > 0 ==> exists|f: int|
                -politica.jitter * 1000 <= f <= politica.jitter * 1000 && ms == #[trigger] variado(
                    acotado(*politica, final(estado)@.intento),
                    f,
                ))
        },
{
    estado.intento = estado.intento + 1;
    if politica.agotado(estado.intento) {
        estado.proximo_intento = None;
        estado.estado = Estado::Fallido;
        estado.desde = ahora();
        return None;
    }
    let retardo = politica.retardo(estado.intento);
    let momento = ahora();
    estado.proximo_intento = despues_de(&momento, retardo);
    estado.estado = Estado::Reintentando;
    estado.desde = momento;
    Some(retardo)
}

/// Salir de `Fallido` a mano reinicia el contador de intentos.
pub fn reiniciar_contador(estado: &mut EstadoTunel)
    ensures
        final(estado)@ == (EstadoTunelV { intento: 0, proximo_intento: None, ..old(estado)@ }),
{
    estado.intento = 0;
    estado.proximo_intento = None;
}

/// Si a un túnel le toca ya que el supervisor haga algo: está reintentando o
/// degradado y su próximo intento no queda en el futuro.
pub fn toca_actuar(estado: &EstadoTunel, ahora: &std::time::Instant) -> (r: bool)
    ensures
        !(estado.estado == Estado::Reintentando || estado.estado == Estado::Degradado) ==> !r,
        (estado.estado == Estado::Reintentando || estado.estado == Estado::Degradado)
            && estado.proximo_intento is None ==> r,
{
    match estado.estado {
        Estado::Reintentando | Estado::Degradado => match &estado.proximo_intento {
            Some(momento) => no_es_posterior(momento, ahora),
            None => true,
        },
        _ => false,
    }
}

/// Lo que el supervisor hace con un túnel en cada latido.
#[derive(Debug, Clone, Copy, PartialEq, Eq, Structural)]
pub enum Paso {
    /// Rehacer el reenvío sobre el maestro vivo.
    Reparar,
    /// Cerrar el maestro y reabrirlo con todos sus túneles.
    RepararAFondo,
    /// Reconexión completa.
    Levantar,
    /// Nada que hacer.
    Nada,
}

pub open spec fn paso(estado: Estado, reparaciones: u32) -> Paso {
    if estado == Estado::Degradado {
        if reparaciones < REPARACIONES_ANTES_DE_REABRIR {
            Paso::Reparar
        } else {
            Paso::RepararAFondo
        }
    } else if estado == Estado::Reintentando {
        Paso::Levantar
    } else {
        Paso::Nada
    }
}

/// Qué hacer con un túnel al que le toca actuar.
///
/// Un túnel degradado se escala en dos escalones: primero rehacer el reenvío,
/// que es barato y no reautentica; si `reparaciones` intentos seguidos no lo
/// arreglan, reabrir el maestro entero. Sin maestro, reconexión completa.
pub fn paso_de_supervision(estado: Estado, reparaciones: u32) -> (r: Paso)
    ensures
        r == paso(estado, reparaciones),
{
    match estado {
        Estado::Degradado => {
            if reparaciones < REPARACIONES_ANTES_DE_REABRIR {
                Paso::Reparar
            } else {
                Paso::RepararAFondo
            }
        },
        Estado::Reintentando => Paso::Levantar,
        _ => Paso::Nada,
    }
}

/// Un paso del motor al atender una orden de la interfaz.
#[derive(Debug)]
pub enum Accion {
    Levantar(String),
    Bajar(String),
    /// Poner a cero el contador de reintentos del túnel.
    ReiniciarContador(String),
    /// Bajar todos los túneles de un alias.
    BajarLosDe(String),
    Recargar,
    FijarAutoarranque(String, bool),
    Importar(String),
    FijarOrden(Vec<String>),
    /// Guardar en el fichero propio el host de la orden.
    GuardarHost,
    /// Renombrar en el fichero propio el host de la orden.
    RenombrarHost,
    /// Borrar del fichero propio el host de la orden.
    EliminarHost,
}

pub enum AccionV {
    Levantar(Seq<char>),
    Bajar(Seq<char>),
    ReiniciarContador(Seq<char>),
    BajarLosDe(Seq<char>),
    Recargar,
    FijarAutoarranque(Seq<char>, bool),
    Importar(Seq<char>),
    FijarOrden(Seq<Seq<char>>),
    GuardarHost,
    RenombrarHost,
    EliminarHost,
}

impl View for Accion {
    type V = AccionV;

    open spec fn view(&self) -> AccionV {
        match self {
            Accion::Levantar(id) => AccionV::Levantar(id@),
            Accion::Bajar(id) => AccionV::Bajar(id@),
            Accion::ReiniciarContador(id) => AccionV::ReiniciarContador(id@),
            Accion::BajarLosDe(alias) => AccionV::BajarLosDe(alias@),
            Accion::Recargar => AccionV::Recargar,
            Accion::FijarAutoarranque(id, v) => AccionV::FijarAutoarranque(id@, *v),
            Accion::Importar(alias) => AccionV::Importar(alias@),
            Accion::FijarOrden(ids) => AccionV::FijarOrden(vistas(ids@)),
            Accion::GuardarHost => AccionV::GuardarHost,
            Accion::RenombrarHost => AccionV::RenombrarHost,
            Accion::EliminarHost => AccionV::EliminarHost,
        }
    }
}

pub open spec fn vistas_acciones(v: Seq<Accion>) -> Seq<AccionV> {
    v.map_values(|a: Accion| a@)
}

/// Levantar cada uno de los túneles, en orden.
pub open spec fn levantar_cada(ids: Seq<Seq<char>>) -> Seq<AccionV> {
    ids.map_values(|id: Seq<char>| AccionV::Levantar(id))
}

/// Bajar cada uno de los túneles, en orden.
pub open spec fn bajar_cada(ids: Seq<Seq<char>>) -> Seq<AccionV> {
    ids.map_values(|id: Seq<char>| AccionV::Bajar(id))
}

/// Los pasos con que el supervisor atiende una orden, en orden.
///
/// Reintentar a mano un túnel que había fallado del todo reinicia antes su
/// contador de reintentos; en cualquier otro estado el contador sigue. Antes de
/// renombrar o de borrar un host se bajan sus túneles, para no dejar maestros
/// sin dueño; tras renombrarlo se guardan sus demás cambios y tras borrarlo se
/// recarga el catálogo. En las órdenes sobre un host, un paso que falla
/// detiene los que le siguen; en las de varios túneles, cada uno va por su
/// cuenta.
pub open spec fn plan(orden: Orden, estados: Seq<EstadoTunelV>) -> Seq<AccionV> {
    match orden {
        Orden::Levantar(id) => seq![AccionV::Levantar(id@)],
        Orden::Bajar(id) => seq![AccionV::Bajar(id@)],
        Orden::LevantarVarios(ids) => levantar_cada(vistas(ids@)),
        Orden::BajarVarios(ids) => bajar_cada(vistas(ids@)),
        Orden::ReintentarYa(id) => match estado_por_id(estados, id@) {
            Some(e) => if e.estado == Estado::Fallido {
                seq![AccionV::ReiniciarContador(id@), AccionV::Levantar(id@)]
            } else {
                seq![AccionV::Levantar(id@)]
            },
            None => seq![AccionV::Levantar(id@)],
        },
        Orden::Recargar => seq![AccionV::Recargar],
        Orden::FijarAutoarranque(id, v) => seq![AccionV::FijarAutoarranque(id@, v)],
        Orden::Importar(alias) => seq![AccionV::Importar(alias@)],
        Orden::Reordenar(ids) => seq![AccionV::FijarOrden(vistas(ids@))],
        Orden::GuardarHost(_) => seq![AccionV::GuardarHost],
        Orden::RenombrarHost { antiguo, .. } => seq![
            AccionV::BajarLosDe(antiguo@),
            AccionV::RenombrarHost,
            AccionV::GuardarHost,
        ],
        Orden::EliminarHost(alias) => seq![
            AccionV::BajarLosDe(alias@),
            AccionV::EliminarHost,
            AccionV::Recargar,
        ],
        Orden::Terminar => seq![],
    }
}

/// Una acción por identificador, en orden.
fn cada_uno(ids: &Vec<String>, levantar: bool) -> (r: Vec<Accion>)
    ensures
        vistas_acciones(r@) == if levantar {
            levantar_cada(vistas(ids@))
        } else {
            bajar_cada(vistas(ids@))
        },
{
    let mut r: Vec<Accion> = Vec::new();
    let mut i: usize = 0;
    while i < ids.len()
        invariant
            i <= ids@.len(),
            vistas_acciones(r@) == if levantar {
                levantar_cada(vistas(ids@).take(i as int))
            } else {
                bajar_cada(vistas(ids@).take(i as int))
            },
        decreases ids@.len() - i,
    {
        let ghost antes = r@;
        let id = ids[i].clone();
        if levantar {
            r.push(Accion::Levantar(id));
        } else {
            r.push(Accion::Bajar(id));
        }
        proof {
            assert(vistas(ids@).take(i + 1) =~= vistas(ids@).take(i as int).push(ids@[i as int]@));
            assert(vistas_acciones(r@) =~= vistas_acciones(antes).push(r@[i as int]@));
        }
        i += 1;
    }
    proof {
        assert(vistas(ids@).take(ids@.len() as int) =~= vistas(ids@));
    }
    r
}

/// Los pasos con que el supervisor atiende una orden, según el estado de los
/// túneles.
pub fn plan_de_orden(orden: &Orden, estados: &Vec<EstadoTunel>) -> (r: Vec<Accion>)
    ensures
        vistas_acciones(r@) == plan(*orden, vistas_estados_tunel(estados@)),
{
    let r: Vec<Accion> = match orden {
        Orden::Levantar(id) => vec![Accion::Levantar(id.clone())],
        Orden::Bajar(id) => vec![Accion::Bajar(id.clone())],
        Orden::LevantarVarios(ids) => cada_uno(ids, true),
        Orden::BajarVarios(ids) => cada_uno(ids, false),
        Orden::ReintentarYa(id) => {
            let fallido = match buscar_estado(estados, id.as_str()) {
                Some(e) => e.estado == Estado::Fallido,
                None => false,
            };
            if fallido {
                vec![Accion::ReiniciarContador(id.clone()), Accion::Levantar(id.clone())]
            } else {
                vec![Accion::Levantar(id.clone())]
            }
        },
        Orden::Recargar => vec![Accion::Recargar],
        Orden::FijarAutoarranque(id, v) => vec![Accion::FijarAutoarranque(id.clone(), *v)],
        Orden::Importar(alias) => vec![Accion::Importar(alias.clone())],
        Orden::Reordenar(ids) => vec![Accion::FijarOrden(copia_lista(ids))],
        Orden::GuardarHost(_) => vec![Accion::GuardarHost],
        Orden::RenombrarHost { antiguo, .. } => vec![
            Accion::BajarLosDe(antiguo.clone()),
            Accion::RenombrarHost,
            Accion::GuardarHost,
        ],
        Orden::EliminarHost(alias) => vec![
            Accion::BajarLosDe(alias.clone()),
            Accion::EliminarHost,
            Accion::Recargar,
        ],
        Orden::Terminar => Vec::new(),
    };
    proof {
        assert(vistas_acciones(r@) =~= plan(*orden, vistas_estados_tunel(estados@)));
    }
    r
}

/// Texto del aviso tras levantar varios túneles de golpe.
pub open spec fn texto_de_varios(total: nat, fallos: Seq<Seq<char>>) -> Seq<char> {
    if fallos.len() == 0 {
        decimal(total) + " túneles levantados"@
    } else {
        unidos(fallos, "\n"@)
    }
}

impl Aviso {
    /// Aviso tras levantar varios túneles: cuántos si todos fueron bien, o los
    /// fallos, uno por línea, como error.
    pub fn de_varios(total: usize, fallos: &Vec<String>) -> (r: Aviso)
        ensures
            r.texto@ == texto_de_varios(total as nat, vistas(fallos@)),
            r.grave == (fallos@.len() > 0),
    {
        if fallos.len() == 0 {
            let mut c = en_decimal(total as u64);
            anexar_str(&mut c, " túneles levantados");
            proof {
                reveal_strlit(" túneles levantados");
            }
            Aviso { texto: cadena(c.as_slice()), grave: false }
        } else {
            let s = caracteres("\n");
            proof {
                reveal_strlit("\n");
            }
            let c = juntar_cadenas(fallos.as_slice(), s.as_slice());
            Aviso { texto: cadena(c.as_slice()), grave: true }
        }
    }

    /// Aviso tras bajar varios túneles de golpe.
    pub fn bajados(total: usize) -> (r: Aviso)
        ensures
            r.texto@ == decimal(total as nat) + " túneles bajados"@,
            !r.grave,
    {
        let mut c = en_decimal(total as u64);
        anexar_str(&mut c, " túneles bajados");
        proof {
            reveal_strlit(" túneles bajados");
        }
        Aviso { texto: cadena(c.as_slice()), grave: false }
    }

    /// Aviso de un túnel que no se pudo levantar o bajar: su identificador y
    /// el mensaje completo del error.
    pub fn de_fallo(id: &str, error: &Error, binario: &str) -> (r: Aviso)
        ensures
            r.texto@ == id@ + ": "@ + mensaje_completo_de(*error, binario@),
            r.grave,
    {
        let mut c = caracteres(id);
        anexar_str(&mut c, ": ");
        let m = mensaje_completo(error, binario);
        anexar_str(&mut c, m.as_str());
        proof {
            reveal_strlit(": ");
        }
        Aviso { texto: cadena(c.as_slice()), grave: true }
    }
}

/// Lo que se anuncia cuando una orden sale bien; `None` si no hay nada que
/// decir.
pub open spec fn exito_de(orden: Orden) -> Option<Seq<char>> {
    match orden {
        Orden::Recargar => Some("configuración recargada"@),
        Orden::Importar(alias) => Some("«"@ + alias@ + "» añadido a la lista"@),
        Orden::GuardarHost(host) => Some("«"@ + host.alias@ + "» guardado"@),
        Orden::RenombrarHost { nuevo, .. } => Some("«"@ + nuevo.alias@ + "» guardado"@),
        Orden::EliminarHost(alias) => Some("«"@ + alias@ + "» eliminado"@),
        _ => None,
    }
}

fn entre_comillas(nombre: &str, cola: &str) -> (r: String)
    ensures
        r@ == "«"@ + nombre@ + cola@,
{
    let mut c = caracteres("«");
    anexar_str(&mut c, nombre);
    anexar_str(&mut c, cola);
    cadena(c.as_slice())
}

/// El aviso que da el supervisor tras atender una orden que se resuelve con
/// una sola operación del motor.
///
/// Si salió bien, el anuncio de la orden como aviso informativo, o nada si la
/// orden no anuncia nada. Si falló, el mensaje completo del error.
pub fn aviso_tras(orden: &Orden, resultado: &Result<(), Error>, binario: &str) -> (r: Option<Aviso>)
    ensures
        match resultado {
            Ok(()) => match exito_de(*orden) {
                Some(t) => r matches Some(a) && a.texto@ == t && !a.grave,
                None => r is None,
            },
            Err(e) => r matches Some(a) && a.texto@ == mensaje_completo_de(*e, binario@) && a.grave,
        },
{
    match resultado {
        Err(e) => Some(Aviso { texto: mensaje_completo(e, binario), grave: true }),
        Ok(()) => {
            let texto: Option<String> = match orden {
                Orden::Recargar => Some("configuración recargada".to_string()),
                Orden::Importar(alias) => Some(
                    entre_comillas(alias.as_str(), "» añadido a la lista"),
                ),
                Orden::GuardarHost(host) => Some(entre_comillas(host.alias.as_str(), "» guardado")),
                Orden::RenombrarHost { nuevo, .. } => Some(
                    entre_comillas(nuevo.alias.as_str(), "» guardado"),
                ),
                Orden::EliminarHost(alias) => Some(entre_comillas(alias.as_str(), "» eliminado")),
                _ => None,
            };
            match texto {
                Some(t) => Some(Aviso { texto: t, grave: false }),
                None => None,
            }
        },
    }
}

/// Ley: «levantar seleccionados» da un paso `Levantar` por túnel y «bajar
/// seleccionados» uno `Bajar` por túnel, en el orden de la selección y sin
/// ningún otro paso.
pub proof fn ley_ordenes_de_varios(ids: Vec<String>, es: Seq<EstadoTunelV>)
    ensures
        plan(Orden::LevantarVarios(ids), es).len() == ids@.len(),
        forall|i: int|
            0 <= i < ids@.len() ==> #[trigger] plan(Orden::LevantarVarios(ids), es)[i]
                == AccionV::Levantar(ids@[i]@),
        plan(Orden::BajarVarios(ids), es).len() == ids@.len(),
        forall|i: int|
            0 <= i < ids@.len() ==> #[trigger] plan(Orden::BajarVarios(ids), es)[i]
                == AccionV::Bajar(ids@[i]@),
{
}

/// Ley: una orden sobre un túnel solo da pasos sobre ese túnel. Levantar
/// acaba levantándolo; reintentar a mano también, y antes pone a cero el
/// contador si y solo si el túnel estaba en `Fallido`; bajar lo baja.
pub proof fn ley_ordenes_de_un_tunel(id: String, es: Seq<EstadoTunelV>)
    ensures
        plan(Orden::Levantar(id), es) == seq![AccionV::Levantar(id@)],
        plan(Orden::Bajar(id), es) == seq![AccionV::Bajar(id@)],
        ({
            let p = plan(Orden::ReintentarYa(id), es);
            let fallido = estado_por_id(es, id@) matches Some(e) && e.estado == Estado::Fallido;
            &&& p.len() > 0 && p.last() == AccionV::Levantar(id@)
            &&& fallido ==> p == seq![AccionV::ReiniciarContador(id@), AccionV::Levantar(id@)]
            &&& !fallido ==> p == seq![AccionV::Levantar(id@)]
        }),
{
}

/// Ley: antes de renombrar o de borrar un host se bajan los túneles de ese
/// host (el nombre viejo al renombrar); al renombrar se guardan después sus
/// demás cambios y al borrar se recarga el catálogo. Terminar no hace nada.
pub proof fn ley_ordenes_sobre_un_host(antiguo: String, nuevo: Box<Host>, alias: String, h: Box<Host>, es: Seq<EstadoTunelV>)
    ensures
        plan(Orden::RenombrarHost { antiguo, nuevo }, es) == seq![
            AccionV::BajarLosDe(antiguo@),
            AccionV::RenombrarHost,
            AccionV::GuardarHost,
        ],
        plan(Orden::EliminarHost(alias), es) == seq![
            AccionV::BajarLosDe(alias@),
            AccionV::EliminarHost,
            AccionV::Recargar,
        ],
        plan(Orden::GuardarHost(h), es) == seq![AccionV::GuardarHost],
        plan(Orden::Terminar, es).len() == 0,
{
}

/// Ley: las órdenes de ajuste dan un único paso con sus mismos datos.
pub proof fn ley_ordenes_de_ajuste(id: String, valor: bool, alias: String, ids: Vec<String>, es: Seq<EstadoTunelV>)
    ensures
        plan(Orden::Recargar, es) == seq![AccionV::Recargar],
        plan(Orden::FijarAutoarranque(id, valor), es) == seq![AccionV::FijarAutoarranque(id@, valor)],
        plan(Orden::Importar(alias), es) == seq![AccionV::Importar(alias@)],
        plan(Orden::Reordenar(ids), es) == seq![AccionV::FijarOrden(vistas(ids@))],
{
}

/// Ley: lo que hace el supervisor con un túnel al que le toca actuar. Un
/// degradado se repara rehaciendo el reenvío mientras lleve menos de
/// `REPARACIONES_ANTES_DE_REABRIR` intentos, y después se reabre el maestro;
/// uno que reintenta se levanta entero; en cualquier otro estado no se hace
/// nada.
pub proof fn ley_el_paso_de_supervision(estado: Estado, reparaciones: u32)
    ensures
        estado == Estado::Degradado && reparaciones < 2 ==> paso(estado, reparaciones) == Paso::Reparar,
        estado == Estado::Degradado && reparaciones >= 2 ==> paso(estado, reparaciones)
            == Paso::RepararAFondo,
        estado == Estado::Reintentando ==> paso(estado, reparaciones) == Paso::Levantar,
        estado != Estado::Degradado && estado != Estado::Reintentando ==> paso(estado, reparaciones)
            == Paso::Nada,
{
}

} // verus!
