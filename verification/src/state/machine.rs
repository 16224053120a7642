//! Máquina de estados por túnel.
//!
//! ```text
//! Definido ──▶ Conectando ──▶ Activo ──▶ Cerrando ──▶ Definido
//!                   │            │
//!                   │            ▼
//!                   │        Degradado
//!                   │            │
//!                   ▼            ▼
//!               Reintentando ◀───┘
//!                   │
//!                   ▼
//!                Fallido
//! ```
//!
//! `Degradado` es el estado crítico: maestro vivo pero reenvío caído. Es la
//! diferencia entre una herramienta fiable y una que enseña un punto verde
//! mientras el túnel está muerto.

use vstd::prelude::*;

use std::time::{Duration, Instant};

use crate::texto::{caracteres, contiene, contiene_str};

verus! {

broadcast use vstd::string::group_string_axioms;

#[verifier::external_type_specification]
#[verifier::external_body]
pub struct ExInstant(std::time::Instant);

/// `Instant::now`: el instante actual. Depende del reloj, así que no se
/// promete nada de su valor.
#[verifier::external_body]
pub(crate) fn ahora() -> (r: Instant) {
    Instant::now()
}

/// `Instant::elapsed`: lo transcurrido desde ese instante. Depende del reloj.
#[verifier::external_body]
fn transcurrido(desde: &Instant) -> (r: Duration) {
    desde.elapsed()
}

/// `Instant::saturating_duration_since`: lo que falta de `desde` a
/// `momento`, o cero si ya pasó. Sin modelo del tiempo, no se promete nada.
#[verifier::external_body]
fn diferencia(momento: &Instant, desde: &Instant) -> (r: Duration) {
    momento.saturating_duration_since(*desde)
}

/// `Instant::checked_add` con un plazo en milisegundos: el instante que queda
/// ese plazo después, o `None` si no se puede representar. Sin modelo del
/// tiempo, no se promete nada del instante.
#[verifier::external_body]
pub(crate) fn despues_de(instante: &Instant, milisegundos: u64) -> (r: Option<Instant>) {
    instante.checked_add(Duration::from_millis(milisegundos))
}

/// `Instant <= Instant`: si `momento` no es posterior a `referencia`. Sin
/// modelo del tiempo solo se promete lo que da el orden total de `Instant`:
/// un instante no es posterior a sí mismo.
#[verifier::external_body]
pub(crate) fn no_es_posterior(momento: &Instant, referencia: &Instant) -> (r: bool)
    ensures
        *momento == *referencia ==> r,
{
    *momento <= *referencia
}

/// Estado de un túnel.
#[derive(Debug, Clone, Copy, PartialEq, Eq, Hash, Structural)]
pub enum Estado {
    /// Existe en configuración, sin conexión activa.
    Definido,
    /// Maestro lanzándose o autenticando.
    Conectando,
    /// Maestro vivo y reenvío confirmado.
    Activo,
    /// Maestro vivo pero el reenvío ha caído.
    Degradado,
    /// Bajando el reenvío a petición del usuario.
    Cerrando,
    /// Esperando el siguiente intento con retardo exponencial.
    Reintentando,
    /// Agotados los reintentos o error no recuperable.
    Fallido,
}

/// Transiciones del diagrama. Quedarse en el mismo estado siempre se admite.
pub open spec fn admite(a: Estado, b: Estado) -> bool {
    a == b || match (a, b) {
        (Estado::Definido, Estado::Conectando) => true,
        // `Conectando → Degradado` es un túnel que nace zombi: `ssh` acepta el
        // reenvío, el puerto abre y la sonda de salud dice que no transporta.
        (Estado::Conectando, Estado::Activo) => true,
        (Estado::Conectando, Estado::Degradado) => true,
        (Estado::Conectando, Estado::Reintentando) => true,
        (Estado::Conectando, Estado::Fallido) => true,
        (Estado::Activo, Estado::Degradado) => true,
        (Estado::Activo, Estado::Cerrando) => true,
        (Estado::Activo, Estado::Reintentando) => true,
        (Estado::Degradado, Estado::Activo) => true,
        (Estado::Degradado, Estado::Reintentando) => true,
        (Estado::Degradado, Estado::Cerrando) => true,
        (Estado::Cerrando, Estado::Definido) => true,
        (Estado::Reintentando, Estado::Conectando) => true,
        (Estado::Reintentando, Estado::Fallido) => true,
        (Estado::Reintentando, Estado::Cerrando) => true,
        // Desde Fallido solo se sale reintentando a mano o desactivando.
        (Estado::Fallido, Estado::Conectando) => true,
        (Estado::Fallido, Estado::Definido) => true,
        _ => false,
    }
}

pub open spec fn en_transito(e: Estado) -> bool {
    e == Estado::Conectando || e == Estado::Cerrando || e == Estado::Reintentando
}

pub open spec fn deberia_estar_arriba(e: Estado) -> bool {
    e == Estado::Conectando || e == Estado::Activo || e == Estado::Degradado || e
        == Estado::Reintentando
}

pub open spec fn problematico(e: Estado) -> bool {
    e == Estado::Degradado || e == Estado::Fallido
}

impl Estado {
    /// Texto para la interfaz.
    pub fn etiqueta(&self) -> (r: &'static str)
        ensures
            r@ == match *self {
                Estado::Definido => "Definido"@,
                Estado::Conectando => "Conectando"@,
                Estado::Activo => "Activo"@,
                Estado::Degradado => "Degradado"@,
                Estado::Cerrando => "Cerrando"@,
                Estado::Reintentando => "Reintentando"@,
                Estado::Fallido => "Fallido"@,
            },
    {
        match self {
            Estado::Definido => "Definido",
            Estado::Conectando => "Conectando",
            Estado::Activo => "Activo",
            Estado::Degradado => "Degradado",
            Estado::Cerrando => "Cerrando",
            Estado::Reintentando => "Reintentando",
            Estado::Fallido => "Fallido",
        }
    }

    /// Explicación de una línea, para la ayuda contextual.
    pub fn explicacion(&self) -> (r: &'static str)
        ensures
            r@ == match *self {
                Estado::Definido => "Existe en configuración, sin conexión activa"@,
                Estado::Conectando => "Maestro lanzándose o autenticando"@,
                Estado::Activo => "Maestro vivo y reenvío confirmado"@,
                Estado::Degradado => "El maestro sigue vivo pero el reenvío ha caído"@,
                Estado::Cerrando => "Bajando el reenvío"@,
                Estado::Reintentando => "Esperando el siguiente intento"@,
                Estado::Fallido => "Agotados los reintentos o error no recuperable"@,
            },
    {
        match self {
            Estado::Definido => "Existe en configuración, sin conexión activa",
            Estado::Conectando => "Maestro lanzándose o autenticando",
            Estado::Activo => "Maestro vivo y reenvío confirmado",
            Estado::Degradado => "El maestro sigue vivo pero el reenvío ha caído",
            Estado::Cerrando => "Bajando el reenvío",
            Estado::Reintentando => "Esperando el siguiente intento",
            Estado::Fallido => "Agotados los reintentos o error no recuperable",
        }
    }

    /// `true` si el estado está en movimiento y merece animación.
    pub fn en_transito(&self) -> (r: bool)
        ensures
            r == en_transito(*self),
    {
        match self {
            Estado::Conectando | Estado::Cerrando | Estado::Reintentando => true,
            _ => false,
        }
    }

    /// `true` si el usuario espera que el túnel esté en pie.
    pub fn deberia_estar_arriba(&self) -> (r: bool)
        ensures
            r == deberia_estar_arriba(*self),
    {
        match self {
            Estado::Conectando | Estado::Activo | Estado::Degradado | Estado::Reintentando => true,
            _ => false,
        }
    }

    /// `true` si algo va mal y hay que mirarlo.
    pub fn problematico(&self) -> (r: bool)
        ensures
            r == problematico(*self),
    {
        match self {
            Estado::Degradado | Estado::Fallido => true,
            _ => false,
        }
    }

    /// Transiciones admitidas por el diagrama.
    ///
    /// Tener la tabla explícita impide que un camino nuevo se cuele sin
    /// pensarlo, que es como una máquina de estados acaba convirtiéndose en un
    /// montón de banderas.
    pub fn admite(self, siguiente: Estado) -> (r: bool)
        ensures
            r == admite(self, siguiente),
    {
        if self == siguiente {
            return true;
        }
        match (self, siguiente) {
            (Estado::Definido, Estado::Conectando) => true,
            (Estado::Conectando, Estado::Activo) => true,
            (Estado::Conectando, Estado::Degradado) => true,
            (Estado::Conectando, Estado::Reintentando) => true,
            (Estado::Conectando, Estado::Fallido) => true,
            (Estado::Activo, Estado::Degradado) => true,
            (Estado::Activo, Estado::Cerrando) => true,
            (Estado::Activo, Estado::Reintentando) => true,
            (Estado::Degradado, Estado::Activo) => true,
            (Estado::Degradado, Estado::Reintentando) => true,
            (Estado::Degradado, Estado::Cerrando) => true,
            (Estado::Cerrando, Estado::Definido) => true,
            (Estado::Reintentando, Estado::Conectando) => true,
            (Estado::Reintentando, Estado::Fallido) => true,
            (Estado::Reintentando, Estado::Cerrando) => true,
            (Estado::Fallido, Estado::Conectando) => true,
            (Estado::Fallido, Estado::Definido) => true,
            _ => false,
        }
    }
}

/// Vista del estado de un túnel.
pub struct EstadoTunelV {
    pub id: Seq<char>,
    pub estado: Estado,
    pub desde: Instant,
    pub intento: u32,
    pub proximo_intento: Option<Instant>,
    pub ultimo_error: Option<Seq<char>>,
    pub pid_maestro: Option<u32>,
    pub residual: bool,
}

/// Estado completo de un túnel, con lo que la interfaz necesita para pintarlo.
#[derive(Debug)]
pub struct EstadoTunel {
    pub id: String,
    pub estado: Estado,
    /// Momento del último cambio de estado.
    pub desde: Instant,
    /// Número de reintento en curso; 0 si no se está reintentando.
    pub intento: u32,
    /// Cuándo toca el siguiente intento.
    pub proximo_intento: Option<Instant>,
    /// Último error, tal como se le muestra al usuario.
    pub ultimo_error: Option<String>,
    /// PID del maestro, si está vivo.
    pub pid_maestro: Option<u32>,
    /// El túnel está en pie sin que nadie lo haya pedido en esta instalación.
    ///
    /// Los maestros se lanzan con `ssh -f` y no son hijos de la aplicación:
    /// sobreviven a cerrar la ventana. Cuando la intención guardada dice «no lo
    /// quiero arriba» y hay un maestro vivo con el puerto escuchando, la
    /// realidad manda pero la aplicación no lo adopta: solo lo enseña, para que
    /// se pueda cerrar.
    pub residual: bool,
}

impl View for EstadoTunel {
    type V = EstadoTunelV;

    open spec fn view(&self) -> EstadoTunelV {
        EstadoTunelV {
            id: self.id@,
            estado: self.estado,
            desde: self.desde,
            intento: self.intento,
            proximo_intento: self.proximo_intento,
            ultimo_error: crate::modelo::vista_opcional(self.ultimo_error),
            pid_maestro: self.pid_maestro,
            residual: self.residual,
        }
    }
}

/// Lo que queda de un estado al pasar a `siguiente`, salvo el instante del
/// cambio: fuera de `Reintentando` no hay próximo intento, y llegar a `Activo`
/// pone a cero el contador y olvida el error.
pub open spec fn cambiado(e: EstadoTunelV, siguiente: Estado, desde: Instant) -> EstadoTunelV {
    EstadoTunelV {
        estado: siguiente,
        desde,
        proximo_intento: if siguiente == Estado::Reintentando {
            e.proximo_intento
        } else {
            None
        },
        intento: if siguiente == Estado::Activo {
            0
        } else {
            e.intento
        },
        ultimo_error: if siguiente == Estado::Activo {
            None
        } else {
            e.ultimo_error
        },
        ..e
    }
}

/// Motivo breve a partir del error ya en minúsculas.
pub open spec fn motivo(bajo: Seq<char>) -> Seq<char> {
    if contiene(bajo, "no está en escucha"@) {
        "puerto caído"@
    } else if contiene(bajo, "ocupado"@) || contiene(bajo, "address already in use"@) {
        "puerto ocupado"@
    } else if contiene(bajo, "no resuelve"@) || contiene(bajo, "no se pudo resolver"@) {
        "sin resolver"@
    } else if contiene(bajo, "escucha pero"@) || contiene(bajo, "http"@) {
        "no transporta"@
    } else if contiene(bajo, "connection refused"@) || contiene(bajo, "rechaz"@) {
        "sin ruta"@
    } else if contiene(bajo, "timed out"@) || contiene(bajo, "agotado"@) {
        "sin respuesta"@
    } else if contiene(bajo, "permission denied"@) || contiene(bajo, "permiso"@) {
        "sin permiso"@
    } else {
        "no responde"@
    }
}

/// `str::to_lowercase`: minúsculas según Unicode.
pub uninterp spec fn minusculas_unicode(s: Seq<char>) -> Seq<char>;

/// `str::to_lowercase`: la cadena en minúsculas según las tablas de Unicode de
/// la biblioteca estándar; solo depende del texto.
#[verifier::external_body]
fn en_minusculas_unicode(s: &str) -> (r: String)
    ensures
        r@ == minusculas_unicode(s@),
{
    s.to_lowercase()
}

/// Dos palabras que quepan en la fila, a partir del error ya en minúsculas.
///
/// El zombi va antes que los errores de red, y no es un detalle de orden: su
/// mensaje los contiene. «el puerto escucha pero no se pudo conectar:
/// connection refused» es un zombi, no una ruta rota.
pub fn motivo_de(bajo: &str) -> (r: &'static str)
    ensures
        r@ == motivo(bajo@),
{
    let b = caracteres(bajo);
    let s = b.as_slice();
    if contiene_str(s, "no está en escucha") {
        "puerto caído"
    } else if contiene_str(s, "ocupado") || contiene_str(s, "address already in use") {
        "puerto ocupado"
    } else if contiene_str(s, "no resuelve") || contiene_str(s, "no se pudo resolver") {
        "sin resolver"
    } else if contiene_str(s, "escucha pero") || contiene_str(s, "http") {
        "no transporta"
    } else if contiene_str(s, "connection refused") || contiene_str(s, "rechaz") {
        "sin ruta"
    } else if contiene_str(s, "timed out") || contiene_str(s, "agotado") {
        "sin respuesta"
    } else if contiene_str(s, "permission denied") || contiene_str(s, "permiso") {
        "sin permiso"
    } else {
        "no responde"
    }
}

impl EstadoTunel {
    /// Dos palabras que quepan en la fila, extraídas del error completo.
    ///
    /// El error entero es una frase que en una lista de quince túneles ni cabe
    /// ni se lee; aquí se destila a lo que hay que hacer distinto en cada caso.
    pub fn motivo_breve(&self) -> (r: Option<&'static str>)
        ensures
            match self@.ultimo_error {
                Some(e) => r matches Some(m) && m@ == motivo(minusculas_unicode(e)),
                None => r is None,
            },
    {
        match &self.ultimo_error {
            Some(e) => {
                let bajo = en_minusculas_unicode(e.as_str());
                Some(motivo_de(bajo.as_str()))
            },
            None => None,
        }
    }

    pub fn nuevo(id: &str) -> (r: EstadoTunel)
        ensures
            r@.id == id@,
            r@.estado == Estado::Definido,
            r@.intento == 0,
            r@.proximo_intento is None,
            r@.ultimo_error is None,
            r@.pid_maestro is None,
            !r@.residual,
    {
        EstadoTunel {
            id: id.to_string(),
            estado: Estado::Definido,
            desde: ahora(),
            intento: 0,
            proximo_intento: None,
            ultimo_error: None,
            pid_maestro: None,
            residual: false,
        }
    }

    /// Copia exacta.
    pub fn duplicar(&self) -> (r: EstadoTunel)
        ensures
            r@ == self@,
    {
        EstadoTunel {
            id: self.id.clone(),
            estado: self.estado,
            desde: self.desde,
            intento: self.intento,
            proximo_intento: self.proximo_intento,
            ultimo_error: crate::texto::copia_opcional(&self.ultimo_error),
            pid_maestro: self.pid_maestro,
            residual: self.residual,
        }
    }

    fn aplicar(&mut self, siguiente: Estado)
        ensures
            final(self)@ == cambiado(old(self)@, siguiente, final(self)@.desde),
    {
        self.estado = siguiente;
        self.desde = ahora();
        match siguiente {
            Estado::Reintentando => {},
            _ => {
                self.proximo_intento = None;
            },
        }
        match siguiente {
            Estado::Activo => {
                self.intento = 0;
                self.ultimo_error = None;
            },
            _ => {},
        }
    }

    /// Cambia de estado registrando el instante.
    ///
    /// Una transición no prevista en el diagrama **se aplica igual**: negarse
    /// dejaría la interfaz mostrando algo que ya no es cierto, que es justo lo
    /// que hay que evitar. Devuelve si el diagrama la admitía, para que quien
    /// llama pueda dejar constancia.
    pub fn transitar(&mut self, siguiente: Estado) -> (prevista: bool)
        ensures
            prevista == admite(old(self)@.estado, siguiente),
            old(self)@.estado == siguiente ==> final(self)@ == old(self)@,
            old(self)@.estado != siguiente ==> final(self)@ == cambiado(
                old(self)@,
                siguiente,
                final(self)@.desde,
            ),
    {
        if self.estado == siguiente {
            return true;
        }
        let prevista = self.estado.admite(siguiente);
        self.aplicar(siguiente);
        prevista
    }

    /// Fija el estado a partir de lo observado, sin comprobar el diagrama.
    ///
    /// Observar no es transitar: al abrir la ventana todos los túneles parten
    /// de `Definido` y lo que se encuentre puede ser cualquier cosa. El
    /// diagrama describe lo que hacen las acciones, no lo que se encuentra al
    /// llegar.
    pub fn reconstruir(&mut self, observado: Estado)
        ensures
            old(self)@.estado == observado ==> final(self)@ == old(self)@,
            old(self)@.estado != observado ==> final(self)@ == cambiado(
                old(self)@,
                observado,
                final(self)@.desde,
            ),
    {
        if self.estado == observado {
            return;
        }
        self.aplicar(observado);
    }

    /// Tiempo transcurrido en el estado actual.
    pub fn antiguedad(&self) -> (r: Duration) {
        transcurrido(&self.desde)
    }

    /// Lo que falta para el siguiente intento, si hay alguno previsto.
    pub fn espera_restante(&self) -> (r: Option<Duration>)
        ensures
            r is Some <==> self@.proximo_intento is Some,
    {
        match &self.proximo_intento {
            Some(momento) => {
                let ya = ahora();
                Some(diferencia(momento, &ya))
            },
            None => None,
        }
    }
}

/// Transitar y reconstruir dejan el túnel igual salvo el instante del cambio
/// (solo difieren en si el salto estaba previsto en el diagrama): el
/// resultado no depende de cuándo se cambie más que en ese instante.
pub proof fn ley_el_cambio_solo_depende_del_destino(
    e: EstadoTunelV,
    s: Estado,
    t1: Instant,
    t2: Instant,
)
    ensures
        cambiado(e, s, t1) == (EstadoTunelV { desde: t1, ..cambiado(e, s, t2) }),
{
}

/// Estado de la **conexión maestra** de un host.
///
/// Deliberadamente distinto de `Estado`, que describe un reenvío: el maestro es
/// por host y los reenvíos cuelgan de él. Un maestro no se degrada ni se
/// reintenta: eso les pasa a los reenvíos.
#[derive(Debug, Clone, Copy, PartialEq, Eq, Hash, Structural)]
pub enum EstadoMaestro {
    /// No hay conexión abierta, ni se ha pedido.
    Ausente,
    /// Se está abriendo o autenticando.
    Levantando,
    /// Abierto y respondiendo.
    Vivo,
    /// Se le pidió estar arriba y no lo está.
    Caido,
}

impl Default for EstadoMaestro {
    fn default() -> (r: EstadoMaestro)
        ensures
            r == EstadoMaestro::Ausente,
    {
        EstadoMaestro::Ausente
    }
}

pub open spec fn vistas_estados(v: Seq<&EstadoTunel>) -> Seq<EstadoTunelV> {
    v.map_values(|e: &EstadoTunel| e@)
}

/// Estado del maestro según los reenvíos que cuelgan de él: con algún PID está
/// vivo; si no, se está levantando si alguno conecta, ha caído si alguno espera
/// o ha fallado, y si no, no hay nada.
pub open spec fn maestro_de(es: Seq<EstadoTunelV>) -> EstadoMaestro {
    if exists|i: int| 0 <= i < es.len() && (#[trigger] es[i]).pid_maestro is Some {
        EstadoMaestro::Vivo
    } else if exists|i: int| 0 <= i < es.len() && (#[trigger] es[i]).estado == Estado::Conectando {
        EstadoMaestro::Levantando
    } else if exists|i: int|
        0 <= i < es.len() && ((#[trigger] es[i]).estado == Estado::Reintentando || es[i].estado
            == Estado::Fallido || es[i].estado == Estado::Degradado) {
        EstadoMaestro::Caido
    } else {
        EstadoMaestro::Ausente
    }
}

impl EstadoMaestro {
    /// Deduce el estado del maestro a partir de los reenvíos que cuelgan de él.
    ///
    /// No se consulta el socket aparte: los reenvíos ya llevan el PID del
    /// maestro que los sostiene. Preguntar dos veces lo mismo abriría la puerta
    /// a que las dos respuestas discrepasen.
    pub fn de_los_tuneles(estados: &[&EstadoTunel]) -> (r: EstadoMaestro)
        ensures
            r == maestro_de(vistas_estados(estados@)),
    {
        let ghost es = vistas_estados(estados@);
        let mut hay_pid = false;
        let mut hay_transito = false;
        let mut hay_esperando = false;
        let mut i: usize = 0;
        while i < estados.len()
            invariant
                i <= estados@.len(),
                es == vistas_estados(estados@),
                hay_pid <==> exists|j: int| 0 <= j < i && (#[trigger] es[j]).pid_maestro is Some,
                hay_transito <==> exists|j: int|
                    0 <= j < i && (#[trigger] es[j]).estado == Estado::Conectando,
                hay_esperando <==> exists|j: int|
                    0 <= j < i && ((#[trigger] es[j]).estado == Estado::Reintentando
                        || es[j].estado == Estado::Fallido || es[j].estado == Estado::Degradado),
            decreases estados@.len() - i,
        {
            let e: &EstadoTunel = estados[i];
            proof {
                assert(es[i as int] == e@);
            }
            if e.pid_maestro.is_some() {
                hay_pid = true;
            }
            match e.estado {
                Estado::Conectando => {
                    hay_transito = true;
                },
                Estado::Reintentando | Estado::Fallido | Estado::Degradado => {
                    hay_esperando = true;
                },
                _ => {},
            }
            i += 1;
        }
        if hay_pid {
            EstadoMaestro::Vivo
        } else if hay_transito {
            EstadoMaestro::Levantando
        } else if hay_esperando {
            EstadoMaestro::Caido
        } else {
            EstadoMaestro::Ausente
        }
    }

    pub fn etiqueta(&self) -> (r: &'static str)
        ensures
            r@ == match *self {
                EstadoMaestro::Ausente => "sin conexión"@,
                EstadoMaestro::Levantando => "conectando"@,
                EstadoMaestro::Vivo => "conectado"@,
                EstadoMaestro::Caido => "conexión caída"@,
            },
    {
        match self {
            EstadoMaestro::Ausente => "sin conexión",
            EstadoMaestro::Levantando => "conectando",
            EstadoMaestro::Vivo => "conectado",
            EstadoMaestro::Caido => "conexión caída",
        }
    }
}

/// Ley: el diagrama de estados, estado por estado. Quedarse siempre se admite;
/// además, de cada estado solo se puede ir a:
/// - `Definido`: `Conectando`.
/// - `Conectando`: `Activo`, `Degradado` (nace zombi), `Reintentando`, `Fallido`.
/// - `Activo`: `Degradado`, `Cerrando`, `Reintentando`.
/// - `Degradado`: `Activo`, `Reintentando`, `Cerrando`.
/// - `Cerrando`: `Definido`.
/// - `Reintentando`: `Conectando`, `Fallido`, `Cerrando`.
/// - `Fallido`: `Conectando` (reintento a mano) y `Definido` (desactivar).
pub proof fn ley_el_diagrama_de_estados(b: Estado)
    ensures
        admite(Estado::Definido, b) <==> (b == Estado::Definido || b == Estado::Conectando),
        admite(Estado::Conectando, b) <==> (b == Estado::Conectando || b == Estado::Activo || b
            == Estado::Degradado || b == Estado::Reintentando || b == Estado::Fallido),
        admite(Estado::Activo, b) <==> (b == Estado::Activo || b == Estado::Degradado || b
            == Estado::Cerrando || b == Estado::Reintentando),
        admite(Estado::Degradado, b) <==> (b == Estado::Degradado || b == Estado::Activo || b
            == Estado::Reintentando || b == Estado::Cerrando),
        admite(Estado::Cerrando, b) <==> (b == Estado::Cerrando || b == Estado::Definido),
        admite(Estado::Reintentando, b) <==> (b == Estado::Reintentando || b == Estado::Conectando
            || b == Estado::Fallido || b == Estado::Cerrando),
        admite(Estado::Fallido, b) <==> (b == Estado::Fallido || b == Estado::Conectando || b
            == Estado::Definido),
{
}

/// Ley: a `Activo` solo se llega conectando o recuperando un degradado, y de
/// `Fallido` solo se sale a mano (reintentar o desactivar), nunca por sí solo
/// a `Activo` ni a `Reintentando`.
pub proof fn ley_como_se_llega_y_se_sale(a: Estado)
    ensures
        a != Estado::Activo && admite(a, Estado::Activo) ==> a == Estado::Conectando || a
            == Estado::Degradado,
        admite(Estado::Fallido, Estado::Conectando),
        !admite(Estado::Fallido, Estado::Activo),
        !admite(Estado::Fallido, Estado::Reintentando),
{
}

} // verus!
