//! Texto como secuencia de caracteres.
//!
//! Toda la lógica de la biblioteca razona sobre `Seq<char>`: aquí están las
//! funciones de especificación (qué es un blanco, qué es recortar, qué es
//! contener) y sus versiones ejecutables, probadas contra ellas.

use vstd::prelude::*;

verus! {

broadcast use vstd::string::group_string_axioms;

// --- Clases de caracteres ----------------------------------------------------

/// Espacio en blanco Unicode (`char::is_whitespace`): la propiedad White_Space.
pub open spec fn es_blanco(c: char) -> bool {
    ||| ('\u{9}' <= c && c <= '\u{d}')
    ||| c == ' '
    ||| c == '\u{85}'
    ||| c == '\u{a0}'
    ||| c == '\u{1680}'
    ||| ('\u{2000}' <= c && c <= '\u{200a}')
    ||| c == '\u{2028}'
    ||| c == '\u{2029}'
    ||| c == '\u{202f}'
    ||| c == '\u{205f}'
    ||| c == '\u{3000}'
}

/// Blanco ASCII (`u8::is_ascii_whitespace`): espacio, tabulador, saltos y avance de página.
pub open spec fn es_blanco_ascii(c: char) -> bool {
    c == ' ' || c == '\t' || c == '\n' || c == '\u{c}' || c == '\r'
}

/// Carácter de control (`char::is_control`): la categoría Cc.
pub open spec fn es_control(c: char) -> bool {
    c <= '\u{1f}' || ('\u{7f}' <= c && c <= '\u{9f}')
}

pub open spec fn es_digito(c: char) -> bool {
    '0' <= c && c <= '9'
}

pub open spec fn es_alfanumerico_ascii(c: char) -> bool {
    ||| es_digito(c)
    ||| ('a' <= c && c <= 'z')
    ||| ('A' <= c && c <= 'Z')
}

/// `char::to_ascii_lowercase`.
pub open spec fn minuscula(c: char) -> char {
    if 'A' <= c && c <= 'Z' {
        ((c as u32) + 32) as char
    } else {
        c
    }
}

/// `char::to_ascii_uppercase`.
pub open spec fn mayuscula(c: char) -> char {
    if 'a' <= c && c <= 'z' {
        ((c as u32) - 32) as char
    } else {
        c
    }
}

pub fn blanco(c: char) -> (r: bool)
    ensures
        r == es_blanco(c),
{
    ('\u{9}' <= c && c <= '\u{d}') || c == ' ' || c == '\u{85}' || c == '\u{a0}' || c
        == '\u{1680}' || ('\u{2000}' <= c && c <= '\u{200a}') || c == '\u{2028}' || c
        == '\u{2029}' || c == '\u{202f}' || c == '\u{205f}' || c == '\u{3000}'
}

pub fn blanco_ascii(c: char) -> (r: bool)
    ensures
        r == es_blanco_ascii(c),
{
    c == ' ' || c == '\t' || c == '\n' || c == '\u{c}' || c == '\r'
}

pub fn control(c: char) -> (r: bool)
    ensures
        r == es_control(c),
{
    c <= '\u{1f}' || ('\u{7f}' <= c && c <= '\u{9f}')
}

pub fn digito(c: char) -> (r: bool)
    ensures
        r == es_digito(c),
{
    '0' <= c && c <= '9'
}

pub fn alfanumerico_ascii(c: char) -> (r: bool)
    ensures
        r == es_alfanumerico_ascii(c),
{
    ('0' <= c && c <= '9') || ('a' <= c && c <= 'z') || ('A' <= c && c <= 'Z')
}

pub fn a_minuscula(c: char) -> (r: char)
    ensures
        r == minuscula(c),
{
    if 'A' <= c && c <= 'Z' {
        let n: u32 = (c as u32) + 32;
        proof {
            assert(0x61 <= n <= 0x7a);
        }
        char_de_ascii(n)
    } else {
        c
    }
}

pub fn a_mayuscula(c: char) -> (r: char)
    ensures
        r == mayuscula(c),
{
    if 'a' <= c && c <= 'z' {
        let n: u32 = (c as u32) - 32;
        char_de_ascii(n)
    } else {
        c
    }
}

/// Carácter de un código ASCII.
fn char_de_ascii(n: u32) -> (c: char)
    requires
        n < 128,
    ensures
        c == n as char,
{
    let b: u8 = n as u8;
    b as char
}

// --- Operaciones sobre secuencias --------------------------------------------

/// `str::trim_start`.
pub open spec fn sin_blancos_al_inicio(s: Seq<char>) -> Seq<char>
    decreases s.len(),
{
    if s.len() > 0 && es_blanco(s[0]) {
        sin_blancos_al_inicio(s.drop_first())
    } else {
        s
    }
}

/// `str::trim_end`.
pub open spec fn sin_blancos_al_final(s: Seq<char>) -> Seq<char>
    decreases s.len(),
{
    if s.len() > 0 && es_blanco(s.last()) {
        sin_blancos_al_final(s.drop_last())
    } else {
        s
    }
}

/// `str::trim`.
pub open spec fn recortado(s: Seq<char>) -> Seq<char> {
    sin_blancos_al_final(sin_blancos_al_inicio(s))
}

/// `str::to_ascii_lowercase`.
pub open spec fn minusculas(s: Seq<char>) -> Seq<char> {
    s.map_values(|c: char| minuscula(c))
}

/// `str::to_ascii_uppercase`.
pub open spec fn mayusculas(s: Seq<char>) -> Seq<char> {
    s.map_values(|c: char| mayuscula(c))
}

/// `s` empieza por `p`.
pub open spec fn empieza_por(s: Seq<char>, p: Seq<char>) -> bool {
    p.len() <= s.len() && s.subrange(0, p.len() as int) == p
}

/// `s` termina en `p`.
pub open spec fn termina_en(s: Seq<char>, p: Seq<char>) -> bool {
    p.len() <= s.len() && s.subrange(s.len() - p.len(), s.len() as int) == p
}

/// `t` aparece en `s` a partir de la posición `i`.
pub open spec fn aparece_en(s: Seq<char>, t: Seq<char>, i: int) -> bool {
    0 <= i && i + t.len() <= s.len() && s.subrange(i, i + t.len()) == t
}

/// `str::contains` con un patrón de texto.
pub open spec fn contiene(s: Seq<char>, t: Seq<char>) -> bool {
    exists|i: int| aparece_en(s, t, i)
}

/// `s` contiene algún carácter que cumple `p`.
pub open spec fn alguno(s: Seq<char>, p: spec_fn(char) -> bool) -> bool {
    exists|i: int| 0 <= i < s.len() && p(s[i])
}

/// Cifras decimales de un número, sin ceros a la izquierda.
pub open spec fn decimal(n: nat) -> Seq<char>
    decreases n,
{
    if n < 10 {
        seq![cifra(n)]
    } else {
        decimal(n / 10).push(cifra(n % 10))
    }
}

pub open spec fn cifra(n: nat) -> char {
    (('0' as u32) + n) as char
}

/// Valor de una cadena de cifras decimales.
pub open spec fn valor_de_cifras(s: Seq<char>) -> nat
    decreases s.len(),
{
    if s.len() == 0 {
        0
    } else {
        valor_de_cifras(s.drop_last()) * 10 + ((s.last() as u32) - ('0' as u32)) as nat
    }
}

pub open spec fn solo_cifras(s: Seq<char>) -> bool {
    forall|i: int| 0 <= i < s.len() ==> es_digito(#[trigger] s[i])
}

/// Lo que `str::parse::<u16>` devuelve: un `+` inicial opcional y al menos
/// una cifra, sin pasarse de 65535.
pub open spec fn valor_u16(s: Seq<char>) -> Option<u16> {
    let cifras = if s.len() > 0 && s[0] == '+' {
        s.drop_first()
    } else {
        s
    };
    if cifras.len() > 0 && solo_cifras(cifras) && valor_de_cifras(cifras) <= 65535 {
        Some(valor_de_cifras(cifras) as u16)
    } else {
        None
    }
}

/// Lo que `str::parse::<u32>` devuelve.
pub open spec fn valor_u32(s: Seq<char>) -> Option<u32> {
    let cifras = if s.len() > 0 && s[0] == '+' {
        s.drop_first()
    } else {
        s
    };
    if cifras.len() > 0 && solo_cifras(cifras) && valor_de_cifras(cifras) <= 0xffff_ffff {
        Some(valor_de_cifras(cifras) as u32)
    } else {
        None
    }
}

// --- Conversión entre `String` y `Vec<char>` ---------------------------------

/// `String::push`: añade un carácter al final de la cadena.
#[verifier::external_body]
fn empujar(s: &mut String, c: char)
    ensures
        final(s)@ == old(s)@.push(c),
{
    s.push(c)
}

/// Los caracteres de un texto.
pub fn caracteres(s: &str) -> (v: Vec<char>)
    ensures
        v@ == s@,
{
    let mut v: Vec<char> = Vec::new();
    for c in it: s.chars()
        invariant
            v@ == it.seq().take(it.index() as int),
            it.seq() == s@,
    {
        v.push(c);
    }
    v
}

/// Una cadena con esos caracteres.
pub fn cadena(v: &[char]) -> (s: String)
    ensures
        s@ == v@,
{
    let mut s = String::new();
    let mut i: usize = 0;
    while i < v.len()
        invariant
            i <= v@.len(),
            s@ == v@.take(i as int),
        decreases v@.len() - i,
    {
        empujar(&mut s, v[i]);
        proof {
            assert(v@.take(i + 1) == v@.take(i as int).push(v@[i as int]));
        }
        i += 1;
    }
    proof {
        assert(v@.take(v@.len() as int) == v@);
    }
    s
}

/// Copia de una cadena.
pub fn copia(s: &String) -> (r: String)
    ensures
        r@ == s@,
{
    s.clone()
}

/// Copia de una cadena opcional.
pub fn copia_opcional(s: &Option<String>) -> (r: Option<String>)
    ensures
        r == *s,
{
    match s {
        Some(t) => Some(t.clone()),
        None => None,
    }
}

/// Copia de una lista de cadenas.
pub fn copia_lista(v: &Vec<String>) -> (r: Vec<String>)
    ensures
        r@ == v@,
{
    let mut r: Vec<String> = Vec::new();
    let mut i: usize = 0;
    while i < v.len()
        invariant
            i <= v@.len(),
            r@ == v@.take(i as int),
        decreases v@.len() - i,
    {
        r.push(v[i].clone());
        proof {
            assert(v@.take(i + 1) == v@.take(i as int).push(v@[i as int]));
        }
        i += 1;
    }
    proof {
        assert(v@.take(v@.len() as int) == v@);
    }
    r
}

// --- Operaciones ejecutables -------------------------------------------------

/// Añade `t` al final de `v`.
pub fn anexar(v: &mut Vec<char>, t: &[char])
    ensures
        final(v)@ == old(v)@ + t@,
{
    let ghost inicial = v@;
    let mut i: usize = 0;
    while i < t.len()
        invariant
            i <= t@.len(),
            v@ == inicial + t@.take(i as int),
        decreases t@.len() - i,
    {
        v.push(t[i]);
        proof {
            assert(t@.take(i + 1) == t@.take(i as int).push(t@[i as int]));
        }
        i += 1;
    }
    proof {
        assert(t@.take(t@.len() as int) == t@);
    }
}

/// Añade un texto literal al final de `v`.
pub fn anexar_str(v: &mut Vec<char>, t: &str)
    ensures
        final(v)@ == old(v)@ + t@,
{
    let c = caracteres(t);
    anexar(v, c.as_slice());
}

/// Trozo `[desde, hasta)`.
pub fn trozo(s: &[char], desde: usize, hasta: usize) -> (r: Vec<char>)
    requires
        desde <= hasta <= s@.len(),
    ensures
        r@ == s@.subrange(desde as int, hasta as int),
{
    let mut r: Vec<char> = Vec::new();
    let mut i: usize = desde;
    while i < hasta
        invariant
            desde <= i <= hasta <= s@.len(),
            r@ == s@.subrange(desde as int, i as int),
        decreases hasta - i,
    {
        r.push(s[i]);
        proof {
            assert(s@.subrange(desde as int, i + 1) == s@.subrange(desde as int, i as int).push(
                s@[i as int],
            ));
        }
        i += 1;
    }
    r
}

proof fn lema_inicio_paso(s: Seq<char>, i: int)
    requires
        0 <= i < s.len(),
        es_blanco(s[i]),
    ensures
        sin_blancos_al_inicio(s.subrange(i, s.len() as int)) == sin_blancos_al_inicio(
            s.subrange(i + 1, s.len() as int),
        ),
{
    assert(s.subrange(i, s.len() as int).drop_first() == s.subrange(i + 1, s.len() as int));
}

proof fn lema_final_paso(s: Seq<char>, j: int)
    requires
        0 < j <= s.len(),
        es_blanco(s[j - 1]),
    ensures
        sin_blancos_al_final(s.subrange(0, j)) == sin_blancos_al_final(s.subrange(0, j - 1)),
{
    assert(s.subrange(0, j).drop_last() == s.subrange(0, j - 1));
}

/// Posición del primer carácter que no es blanco.
fn primer_no_blanco(s: &[char]) -> (i: usize)
    ensures
        i <= s@.len(),
        sin_blancos_al_inicio(s@) == s@.subrange(i as int, s@.len() as int),
{
    let mut i: usize = 0;
    proof {
        assert(s@.subrange(0, s@.len() as int) == s@);
    }
    while i < s.len() && blanco(s[i])
        invariant
            i <= s@.len(),
            sin_blancos_al_inicio(s@) == sin_blancos_al_inicio(
                s@.subrange(i as int, s@.len() as int),
            ),
        decreases s@.len() - i,
    {
        proof {
            lema_inicio_paso(s@, i as int);
        }
        i += 1;
    }
    i
}

/// `str::trim_start`.
pub fn quitar_blancos_al_inicio(s: &[char]) -> (r: Vec<char>)
    ensures
        r@ == sin_blancos_al_inicio(s@),
{
    let i = primer_no_blanco(s);
    trozo(s, i, s.len())
}

/// `str::trim_end`.
pub fn quitar_blancos_al_final(s: &[char]) -> (r: Vec<char>)
    ensures
        r@ == sin_blancos_al_final(s@),
{
    let mut j: usize = s.len();
    proof {
        assert(s@.subrange(0, s@.len() as int) == s@);
    }
    while j > 0 && blanco(s[j - 1])
        invariant
            j <= s@.len(),
            sin_blancos_al_final(s@) == sin_blancos_al_final(s@.subrange(0, j as int)),
        decreases j,
    {
        proof {
            lema_final_paso(s@, j as int);
        }
        j -= 1;
    }
    trozo(s, 0, j)
}

/// `str::trim`.
pub fn recortar(s: &[char]) -> (r: Vec<char>)
    ensures
        r@ == recortado(s@),
{
    let a = quitar_blancos_al_inicio(s);
    quitar_blancos_al_final(a.as_slice())
}

/// `str::trim` de un texto, ya como caracteres.
pub fn recortar_str(s: &str) -> (r: Vec<char>)
    ensures
        r@ == recortado(s@),
{
    let c = caracteres(s);
    recortar(c.as_slice())
}

/// `str::to_ascii_lowercase`.
pub fn en_minusculas(s: &[char]) -> (r: Vec<char>)
    ensures
        r@ == minusculas(s@),
{
    let mut r: Vec<char> = Vec::new();
    let mut i: usize = 0;
    while i < s.len()
        invariant
            i <= s@.len(),
            r@ == minusculas(s@.take(i as int)),
        decreases s@.len() - i,
    {
        r.push(a_minuscula(s[i]));
        proof {
            assert(minusculas(s@.take(i + 1)) == minusculas(s@.take(i as int)).push(
                minuscula(s@[i as int]),
            ));
        }
        i += 1;
    }
    proof {
        assert(s@.take(s@.len() as int) == s@);
    }
    r
}

/// `str::to_ascii_uppercase`.
pub fn en_mayusculas(s: &[char]) -> (r: Vec<char>)
    ensures
        r@ == mayusculas(s@),
{
    let mut r: Vec<char> = Vec::new();
    let mut i: usize = 0;
    while i < s.len()
        invariant
            i <= s@.len(),
            r@ == mayusculas(s@.take(i as int)),
        decreases s@.len() - i,
    {
        r.push(a_mayuscula(s[i]));
        proof {
            assert(mayusculas(s@.take(i + 1)) == mayusculas(s@.take(i as int)).push(
                mayuscula(s@[i as int]),
            ));
        }
        i += 1;
    }
    proof {
        assert(s@.take(s@.len() as int) == s@);
    }
    r
}

/// `t` aparece en `s` a partir de la posición `i`.
pub fn aparece(s: &[char], t: &[char], i: usize) -> (r: bool)
    ensures
        r == aparece_en(s@, t@, i as int),
{
    let n = s.len();
    if i > n || t.len() > n - i {
        return false;
    }
    let mut k: usize = 0;
    while k < t.len()
        invariant
            n == s@.len(),
            i + t@.len() <= s@.len(),
            k <= t@.len(),
            forall|m: int| 0 <= m < k ==> s@[i + m] == t@[m],
        decreases t@.len() - k,
    {
        assert(i + k < s@.len());
        if s[i + k] != t[k] {
            proof {
                assert(s@.subrange(i as int, i + t@.len())[k as int] != t@[k as int]);
            }
            return false;
        }
        k += 1;
    }
    proof {
        assert(s@.subrange(i as int, i + t@.len()) =~= t@);
    }
    true
}

/// `s.starts_with(p)`.
pub fn empieza(s: &[char], p: &[char]) -> (r: bool)
    ensures
        r == empieza_por(s@, p@),
{
    aparece(s, p, 0)
}

/// `s.ends_with(p)`.
pub fn termina(s: &[char], p: &[char]) -> (r: bool)
    ensures
        r == termina_en(s@, p@),
{
    if p.len() > s.len() {
        return false;
    }
    aparece(s, p, s.len() - p.len())
}

/// `s.starts_with(p)` con un patrón literal.
pub fn empieza_str(s: &[char], p: &str) -> (r: bool)
    ensures
        r == empieza_por(s@, p@),
{
    let q = caracteres(p);
    empieza(s, q.as_slice())
}

/// Primera aparición de `t` en `s`.
pub fn buscar(s: &[char], t: &[char]) -> (r: Option<usize>)
    ensures
        match r {
            Some(i) => aparece_en(s@, t@, i as int) && forall|j: int|
                0 <= j < i ==> !aparece_en(s@, t@, j),
            None => !contiene(s@, t@),
        },
{
    if t.len() > s.len() {
        return None;
    }
    let tope = s.len() - t.len();
    let mut i: usize = 0;
    loop
        invariant
            i <= tope,
            tope == s@.len() - t@.len(),
            forall|j: int| 0 <= j < i ==> !aparece_en(s@, t@, j),
        ensures
            forall|j: int| 0 <= j <= tope ==> !aparece_en(s@, t@, j),
        decreases tope - i,
    {
        if aparece(s, t, i) {
            return Some(i);
        }
        if i == tope {
            break;
        }
        i += 1;
    }
    proof {
        assert forall|j: int| !aparece_en(s@, t@, j) by {
            if 0 <= j <= tope {
            }
        }
    }
    None
}

/// `s.contains(t)`.
pub fn contiene_sub(s: &[char], t: &[char]) -> (r: bool)
    ensures
        r == contiene(s@, t@),
{
    buscar(s, t).is_some()
}

/// `s.contains(t)` con un patrón literal.
pub fn contiene_str(s: &[char], t: &str) -> (r: bool)
    ensures
        r == contiene(s@, t@),
{
    let q = caracteres(t);
    contiene_sub(s, q.as_slice())
}

/// `true` si algún carácter de `s` es `c`.
pub fn tiene_char(s: &[char], c: char) -> (r: bool)
    ensures
        r == s@.contains(c),
{
    let mut i: usize = 0;
    while i < s.len()
        invariant
            i <= s@.len(),
            forall|j: int| 0 <= j < i ==> s@[j] != c,
        decreases s@.len() - i,
    {
        if s[i] == c {
            return true;
        }
        i += 1;
    }
    false
}

/// `true` si `s` y `t` son iguales.
pub fn iguales(s: &[char], t: &[char]) -> (r: bool)
    ensures
        r == (s@ == t@),
{
    if s.len() != t.len() {
        return false;
    }
    let r = aparece(s, t, 0);
    proof {
        assert(s@.subrange(0, t@.len() as int) == s@);
    }
    r
}

/// `true` si `s` es igual al literal `t`.
pub fn es_str(s: &[char], t: &str) -> (r: bool)
    ensures
        r == (s@ == t@),
{
    let q = caracteres(t);
    iguales(s, q.as_slice())
}

pub proof fn lema_decimal_no_vacio(n: nat)
    ensures
        decimal(n).len() >= 1,
    decreases n,
{
    if n >= 10 {
        lema_decimal_no_vacio(n / 10);
    }
}

/// Cifras decimales de `n`.
pub fn en_decimal(n: u64) -> (r: Vec<char>)
    ensures
        r@ == decimal(n as nat),
    decreases n,
{
    if n < 10 {
        let c = char_de_ascii((n as u32) + 48);
        let mut r: Vec<char> = Vec::new();
        r.push(c);
        proof {
            assert(r@ =~= seq![cifra(n as nat)]);
        }
        r
    } else {
        let mut r = en_decimal(n / 10);
        let c = char_de_ascii(((n % 10) as u32) + 48);
        r.push(c);
        r
    }
}

/// Cifras decimales de `n` como cadena.
pub fn decimal_cadena(n: u64) -> (r: String)
    ensures
        r@ == decimal(n as nat),
{
    let v = en_decimal(n);
    cadena(v.as_slice())
}

proof fn lema_cifras_paso(s: Seq<char>, i: int)
    requires
        0 <= i < s.len(),
    ensures
        s.take(i + 1).drop_last() == s.take(i),
        s.take(i + 1).last() == s[i],
{
    assert(s.take(i + 1).drop_last() =~= s.take(i));
}

/// Lee un número natural de cifras decimales, `None` si no son todo cifras o
/// si pasa de `tope`.
fn leer_cifras(s: &[char], tope: u64) -> (r: Option<u64>)
    requires
        tope <= 0xffff_ffff,
    ensures
        match r {
            Some(v) => s@.len() > 0 && solo_cifras(s@) && v == valor_de_cifras(s@) && v <= tope,
            None => !(s@.len() > 0 && solo_cifras(s@) && valor_de_cifras(s@) <= tope),
        },
{
    if s.len() == 0 {
        return None;
    }
    let mut valor: u64 = 0;
    let mut i: usize = 0;
    while i < s.len()
        invariant
            i <= s@.len(),
            tope <= 0xffff_ffff,
            solo_cifras(s@.take(i as int)),
            valor == valor_de_cifras(s@.take(i as int)),
            valor <= tope,
        decreases s@.len() - i,
    {
        let c = s[i];
        proof {
            lema_cifras_paso(s@, i as int);
        }
        if !digito(c) {
            proof {
                assert(!es_digito(s@[i as int]));
            }
            return None;
        }
        let d: u64 = ((c as u32) - 48) as u64;
        let nuevo: u64 = valor * 10 + d;
        proof {
            assert(valor_de_cifras(s@.take(i + 1)) == valor * 10 + d);
            assert(solo_cifras(s@.take(i + 1))) by {
                assert forall|j: int| 0 <= j < i + 1 implies es_digito(
                    #[trigger] s@.take(i + 1)[j],
                ) by {
                    if j < i {
                        assert(s@.take(i + 1)[j] == s@.take(i as int)[j]);
                    }
                }
            }
        }
        if nuevo > tope {
            proof {
                lema_cifras_crecen(s@, i + 1);
            }
            return None;
        }
        valor = nuevo;
        i += 1;
    }
    proof {
        assert(s@.take(s@.len() as int) == s@);
    }
    Some(valor)
}

/// Añadir cifras nunca hace menor el valor.
proof fn lema_cifras_crecen(s: Seq<char>, i: int)
    requires
        0 <= i <= s.len(),
    ensures
        valor_de_cifras(s.take(i)) <= valor_de_cifras(s),
    decreases s.len() - i,
{
    if i < s.len() {
        lema_cifras_crecen(s, i + 1);
        lema_cifras_paso(s, i);
        assert(valor_de_cifras(s.take(i + 1)) == valor_de_cifras(s.take(i)) * 10 + ((s[i] as u32)
            - ('0' as u32)) as nat);
    } else {
        assert(s.take(i) == s);
    }
}

/// `str::parse::<u16>`.
pub fn leer_u16(s: &[char]) -> (r: Option<u16>)
    ensures
        r == valor_u16(s@),
{
    let cifras = if s.len() > 0 && s[0] == '+' {
        trozo(s, 1, s.len())
    } else {
        trozo(s, 0, s.len())
    };
    proof {
        assert(s@.subrange(0, s@.len() as int) == s@);
        if s@.len() > 0 {
            assert(s@.subrange(1, s@.len() as int) == s@.drop_first());
        }
    }
    match leer_cifras(cifras.as_slice(), 65535) {
        Some(v) => Some(v as u16),
        None => None,
    }
}

/// `str::parse::<u32>`.
pub fn leer_u32(s: &[char]) -> (r: Option<u32>)
    ensures
        r == valor_u32(s@),
{
    let cifras = if s.len() > 0 && s[0] == '+' {
        trozo(s, 1, s.len())
    } else {
        trozo(s, 0, s.len())
    };
    proof {
        assert(s@.subrange(0, s@.len() as int) == s@);
        if s@.len() > 0 {
            assert(s@.subrange(1, s@.len() as int) == s@.drop_first());
        }
    }
    match leer_cifras(cifras.as_slice(), 0xffff_ffff) {
        Some(v) => Some(v as u32),
        None => None,
    }
}

// --- Búsqueda, troceado y unión ------------------------------------------------

/// Posición de la primera aparición de `c`.
pub open spec fn primera_pos(s: Seq<char>, c: char) -> Option<int>
    decreases s.len(),
{
    if s.len() == 0 {
        None
    } else if s[0] == c {
        Some(0)
    } else {
        match primera_pos(s.drop_first(), c) {
            Some(k) => Some(k + 1),
            None => None,
        }
    }
}

/// Posición de la última aparición de `c`.
pub open spec fn ultima_pos(s: Seq<char>, c: char) -> Option<int>
    decreases s.len(),
{
    if s.len() == 0 {
        None
    } else if s.last() == c {
        Some(s.len() - 1)
    } else {
        ultima_pos(s.drop_last(), c)
    }
}

/// `str::trim_start_matches(c)`.
pub open spec fn sin_iniciales(s: Seq<char>, c: char) -> Seq<char>
    decreases s.len(),
{
    if s.len() > 0 && s[0] == c {
        sin_iniciales(s.drop_first(), c)
    } else {
        s
    }
}

/// `str::trim_end_matches(c)`.
pub open spec fn sin_finales(s: Seq<char>, c: char) -> Seq<char>
    decreases s.len(),
{
    if s.len() > 0 && s.last() == c {
        sin_finales(s.drop_last(), c)
    } else {
        s
    }
}

/// `str::split(c)`: los trozos entre separadores, vacíos incluidos.
pub open spec fn trozos(s: Seq<char>, c: char) -> Seq<Seq<char>>
    decreases s.len(),
{
    match primera_pos(s, c) {
        None => seq![s],
        Some(k) => if 0 <= k < s.len() {
            seq![s.take(k)] + trozos(s.skip(k + 1), c)
        } else {
            seq![s]
        },
    }
}

/// `str::split` siempre da al menos un trozo.
pub proof fn lema_trozos_no_vacio(s: Seq<char>, c: char)
    ensures
        trozos(s, c).len() >= 1,
{
}

/// Reemplaza cada `de` por `a`.
pub open spec fn reemplazado(s: Seq<char>, de: char, a: char) -> Seq<char> {
    s.map_values(|x: char| if x == de { a } else { x })
}

/// `[Seq]::join(sep)`.
pub open spec fn unidos(v: Seq<Seq<char>>, sep: Seq<char>) -> Seq<char>
    decreases v.len(),
{
    if v.len() == 0 {
        seq![]
    } else if v.len() == 1 {
        v[0]
    } else {
        unidos(v.drop_last(), sep) + sep + v.last()
    }
}

/// Vista de una lista de cadenas.
pub open spec fn vistas(v: Seq<String>) -> Seq<Seq<char>> {
    v.map_values(|x: String| x@)
}

/// Vista de una lista de listas de caracteres.
pub open spec fn vistas_vec(v: Seq<Vec<char>>) -> Seq<Seq<char>> {
    v.map_values(|x: Vec<char>| x@)
}

pub proof fn lema_primera_pos(s: Seq<char>, c: char)
    ensures
        match primera_pos(s, c) {
            Some(k) => 0 <= k < s.len() && s[k] == c && forall|j: int| 0 <= j < k ==> s[j] != c,
            None => forall|j: int| 0 <= j < s.len() ==> s[j] != c,
        },
    decreases s.len(),
{
    if s.len() > 0 && s[0] != c {
        lema_primera_pos(s.drop_first(), c);
        match primera_pos(s.drop_first(), c) {
            Some(k) => {
                assert forall|j: int| 0 <= j < k + 1 implies s[j] != c by {
                    if j > 0 {
                        assert(s[j] == s.drop_first()[j - 1]);
                    }
                }
            },
            None => {
                assert forall|j: int| 0 <= j < s.len() implies s[j] != c by {
                    if j > 0 {
                        assert(s[j] == s.drop_first()[j - 1]);
                    }
                }
            },
        }
    }
}

pub proof fn lema_primera_pos_unica(s: Seq<char>, c: char, k: int)
    requires
        0 <= k < s.len(),
        s[k] == c,
        forall|j: int| 0 <= j < k ==> s[j] != c,
    ensures
        primera_pos(s, c) == Some(k),
{
    lema_primera_pos(s, c);
}

pub proof fn lema_sin_primera_pos(s: Seq<char>, c: char)
    requires
        forall|j: int| 0 <= j < s.len() ==> s[j] != c,
    ensures
        primera_pos(s, c) == None::<int>,
{
    lema_primera_pos(s, c);
}

pub proof fn lema_ultima_pos(s: Seq<char>, c: char)
    ensures
        match ultima_pos(s, c) {
            Some(k) => 0 <= k < s.len() && s[k] == c && forall|j: int| k < j < s.len() ==> s[j] != c,
            None => forall|j: int| 0 <= j < s.len() ==> s[j] != c,
        },
    decreases s.len(),
{
    if s.len() > 0 && s.last() != c {
        lema_ultima_pos(s.drop_last(), c);
        assert forall|j: int| 0 <= j < s.len() - 1 implies s[j] == s.drop_last()[j] by {}
    }
}

pub proof fn lema_ultima_pos_unica(s: Seq<char>, c: char, k: int)
    requires
        0 <= k < s.len(),
        s[k] == c,
        forall|j: int| k < j < s.len() ==> s[j] != c,
    ensures
        ultima_pos(s, c) == Some(k),
    decreases s.len(),
{
    if s.last() != c {
        lema_ultima_pos_unica(s.drop_last(), c, k);
    }
}

pub proof fn lema_sin_ultima_pos(s: Seq<char>, c: char)
    requires
        forall|j: int| 0 <= j < s.len() ==> s[j] != c,
    ensures
        ultima_pos(s, c) == None::<int>,
{
    lema_ultima_pos(s, c);
}

/// Primera aparición de `c`.
pub fn posicion(s: &[char], c: char) -> (r: Option<usize>)
    ensures
        r matches Some(k) ==> primera_pos(s@, c) == Some(k as int),
        r is None ==> primera_pos(s@, c) is None,
{
    let mut i: usize = 0;
    while i < s.len()
        invariant
            i <= s@.len(),
            forall|j: int| 0 <= j < i ==> s@[j] != c,
        decreases s@.len() - i,
    {
        if s[i] == c {
            proof {
                lema_primera_pos_unica(s@, c, i as int);
            }
            return Some(i);
        }
        i += 1;
    }
    proof {
        lema_sin_primera_pos(s@, c);
    }
    None
}

/// Última aparición de `c`.
pub fn posicion_ultima(s: &[char], c: char) -> (r: Option<usize>)
    ensures
        r matches Some(k) ==> ultima_pos(s@, c) == Some(k as int),
        r is None ==> ultima_pos(s@, c) is None,
{
    let mut i: usize = s.len();
    while i > 0
        invariant
            i <= s@.len(),
            forall|j: int| i <= j < s@.len() ==> s@[j] != c,
        decreases i,
    {
        if s[i - 1] == c {
            proof {
                lema_ultima_pos_unica(s@, c, i - 1);
            }
            return Some(i - 1);
        }
        i -= 1;
    }
    proof {
        lema_sin_ultima_pos(s@, c);
    }
    None
}

/// `str::trim_start_matches(c)`.
pub fn quitar_iniciales(s: &[char], c: char) -> (r: Vec<char>)
    ensures
        r@ == sin_iniciales(s@, c),
{
    let mut i: usize = 0;
    proof {
        assert(s@.subrange(0, s@.len() as int) == s@);
    }
    while i < s.len() && s[i] == c
        invariant
            i <= s@.len(),
            sin_iniciales(s@, c) == sin_iniciales(s@.subrange(i as int, s@.len() as int), c),
        decreases s@.len() - i,
    {
        proof {
            assert(s@.subrange(i as int, s@.len() as int).drop_first() == s@.subrange(
                i + 1,
                s@.len() as int,
            ));
        }
        i += 1;
    }
    trozo(s, i, s.len())
}

/// `str::trim_end_matches(c)`.
pub fn quitar_finales(s: &[char], c: char) -> (r: Vec<char>)
    ensures
        r@ == sin_finales(s@, c),
{
    let mut j: usize = s.len();
    proof {
        assert(s@.subrange(0, s@.len() as int) == s@);
    }
    while j > 0 && s[j - 1] == c
        invariant
            j <= s@.len(),
            sin_finales(s@, c) == sin_finales(s@.subrange(0, j as int), c),
        decreases j,
    {
        proof {
            assert(s@.subrange(0, j as int).drop_last() == s@.subrange(0, j - 1));
        }
        j -= 1;
    }
    trozo(s, 0, j)
}

/// Cambia cada `de` por `a`.
pub fn reemplazar(s: &[char], de: char, a: char) -> (r: Vec<char>)
    ensures
        r@ == reemplazado(s@, de, a),
{
    let mut r: Vec<char> = Vec::new();
    let mut i: usize = 0;
    while i < s.len()
        invariant
            i <= s@.len(),
            r@ == reemplazado(s@.take(i as int), de, a),
        decreases s@.len() - i,
    {
        let x = s[i];
        r.push(if x == de { a } else { x });
        proof {
            assert(reemplazado(s@.take(i + 1), de, a) =~= reemplazado(s@.take(i as int), de, a).push(
                if x == de { a } else { x },
            ));
        }
        i += 1;
    }
    proof {
        assert(s@.take(s@.len() as int) == s@);
    }
    r
}

/// `str::split(c)`.
pub fn trocear(s: &[char], c: char) -> (r: Vec<Vec<char>>)
    ensures
        vistas_vec(r@) == trozos(s@, c),
{
    let mut r: Vec<Vec<char>> = Vec::new();
    let mut inicio: usize = 0;
    let n = s.len();
    proof {
        assert(s@.skip(0) == s@);
        assert(vistas_vec(r@) =~= seq![]);
    }
    loop
        invariant
            n == s@.len(),
            inicio <= n,
            trozos(s@, c) == vistas_vec(r@) + trozos(s@.skip(inicio as int), c),
        decreases n - inicio,
    {
        let resto = trozo(s, inicio, n);
        proof {
            assert(resto@ == s@.skip(inicio as int));
        }
        match posicion(resto.as_slice(), c) {
            None => {
                proof {
                    assert(vistas_vec(r@.push(resto)) =~= vistas_vec(r@).push(resto@));
                }
                r.push(resto);
                return r;
            },
            Some(k) => {
                proof {
                    lema_primera_pos(resto@, c);
                    assert(resto@.skip(k + 1) =~= s@.skip(inicio + k + 1));
                }
                let pieza = trozo(resto.as_slice(), 0, k);
                proof {
                    assert(pieza@ == resto@.take(k as int));
                    assert(vistas_vec(r@.push(pieza)) =~= vistas_vec(r@).push(pieza@));
                    assert(vistas_vec(r@).push(pieza@) + trozos(s@.skip(inicio + k + 1), c)
                        =~= vistas_vec(r@) + (seq![pieza@] + trozos(s@.skip(inicio + k + 1), c)));
                }
                r.push(pieza);
                inicio = inicio + k + 1;
            },
        }
    }
}

/// Une textos con un separador.
pub fn juntar(v: &[Vec<char>], sep: &[char]) -> (r: Vec<char>)
    ensures
        r@ == unidos(vistas_vec(v@), sep@),
{
    let mut r: Vec<char> = Vec::new();
    let mut i: usize = 0;
    while i < v.len()
        invariant
            i <= v@.len(),
            r@ == unidos(vistas_vec(v@.take(i as int)), sep@),
        decreases v@.len() - i,
    {
        proof {
            assert(vistas_vec(v@.take(i + 1)).drop_last() =~= vistas_vec(v@.take(i as int)));
            assert(vistas_vec(v@.take(i + 1)).last() == v@[i as int]@);
        }
        if i > 0 {
            anexar(&mut r, sep);
        } else {
            proof {
                assert(vistas_vec(v@.take(0)) =~= seq![]);
            }
        }
        anexar(&mut r, v[i].as_slice());
        i += 1;
    }
    proof {
        assert(v@.take(v@.len() as int) == v@);
    }
    r
}

/// Une cadenas con un separador.
pub fn juntar_cadenas(v: &[String], sep: &[char]) -> (r: Vec<char>)
    ensures
        r@ == unidos(vistas(v@), sep@),
{
    let mut r: Vec<char> = Vec::new();
    let mut i: usize = 0;
    while i < v.len()
        invariant
            i <= v@.len(),
            r@ == unidos(vistas(v@.take(i as int)), sep@),
        decreases v@.len() - i,
    {
        proof {
            assert(vistas(v@.take(i + 1)).drop_last() =~= vistas(v@.take(i as int)));
            assert(vistas(v@.take(i + 1)).last() == v@[i as int]@);
        }
        if i > 0 {
            anexar(&mut r, sep);
        } else {
            proof {
                assert(vistas(v@.take(0)) =~= seq![]);
            }
        }
        let c = caracteres(v[i].as_str());
        anexar(&mut r, c.as_slice());
        i += 1;
    }
    proof {
        assert(v@.take(v@.len() as int) == v@);
    }
    r
}

/// Longitud de la palabra con la que empieza `s`: hasta el primer blanco.
pub open spec fn fin_palabra(s: Seq<char>) -> int
    decreases s.len(),
{
    if s.len() == 0 || es_blanco(s[0]) {
        0
    } else {
        1 + fin_palabra(s.drop_first())
    }
}

pub proof fn lema_inicio_no_crece(s: Seq<char>)
    ensures
        sin_blancos_al_inicio(s).len() <= s.len(),
        sin_blancos_al_inicio(s).len() > 0 ==> !es_blanco(sin_blancos_al_inicio(s)[0]),
    decreases s.len(),
{
    if s.len() > 0 && es_blanco(s[0]) {
        lema_inicio_no_crece(s.drop_first());
    }
}

pub proof fn lema_fin_palabra(s: Seq<char>)
    ensures
        0 <= fin_palabra(s) <= s.len(),
        s.len() > 0 && !es_blanco(s[0]) ==> fin_palabra(s) >= 1,
        forall|j: int| 0 <= j < fin_palabra(s) ==> !es_blanco(#[trigger] s[j]),
        fin_palabra(s) < s.len() ==> es_blanco(s[fin_palabra(s)]),
    decreases s.len(),
{
    if s.len() > 0 && !es_blanco(s[0]) {
        lema_fin_palabra(s.drop_first());
        assert forall|j: int| 0 <= j < fin_palabra(s) implies !es_blanco(#[trigger] s[j]) by {
            if j > 0 {
                assert(s[j] == s.drop_first()[j - 1]);
            }
        }
    }
}

/// `str::split_whitespace`.
pub open spec fn palabras(s: Seq<char>) -> Seq<Seq<char>>
    decreases s.len(),
{
    let t = sin_blancos_al_inicio(s);
    if t.len() == 0 {
        seq![]
    } else {
        proof {
            lema_inicio_no_crece(s);
            lema_fin_palabra(t);
        }
        seq![t.take(fin_palabra(t))] + palabras(t.skip(fin_palabra(t)))
    }
}

proof fn lema_fin_palabra_desde(s: Seq<char>, i: int, k: int)
    requires
        0 <= i <= k <= s.len(),
        forall|j: int| i <= j < k ==> !es_blanco(#[trigger] s[j]),
        k == s.len() || es_blanco(s[k]),
    ensures
        fin_palabra(s.skip(i)) == k - i,
    decreases k - i,
{
    if i < k {
        lema_fin_palabra_desde(s, i + 1, k);
        assert(s.skip(i).drop_first() =~= s.skip(i + 1));
    }
}

/// `str::split_whitespace`.
pub fn en_palabras(s: &[char]) -> (r: Vec<Vec<char>>)
    ensures
        vistas_vec(r@) == palabras(s@),
{
    let n = s.len();
    let mut r: Vec<Vec<char>> = Vec::new();
    let mut i: usize = 0;
    proof {
        assert(s@.skip(0) == s@);
        assert(vistas_vec(r@) =~= seq![]);
    }
    loop
        invariant
            n == s@.len(),
            i <= n,
            palabras(s@) == vistas_vec(r@) + palabras(s@.skip(i as int)),
        decreases n - i,
    {
        let ghost antes = i;
        while i < n && blanco(s[i])
            invariant
                n == s@.len(),
                antes <= i <= n,
                sin_blancos_al_inicio(s@.skip(antes as int)) == sin_blancos_al_inicio(
                    s@.skip(i as int),
                ),
            decreases n - i,
        {
            proof {
                assert(s@.skip(i as int).drop_first() =~= s@.skip(i + 1));
            }
            i += 1;
        }
        let ghost t = s@.skip(i as int);
        proof {
            if i < n {
                assert(!es_blanco(t[0]));
            }
            assert(sin_blancos_al_inicio(t) == t);
        }
        if i == n {
            proof {
                assert(t.len() == 0);
                assert(vistas_vec(r@) + seq![] =~= vistas_vec(r@));
            }
            return r;
        }
        let inicio = i;
        while i < n && !blanco(s[i])
            invariant
                n == s@.len(),
                inicio <= i <= n,
                forall|j: int| inicio <= j < i ==> !es_blanco(#[trigger] s@[j]),
            decreases n - i,
        {
            i += 1;
        }
        proof {
            lema_fin_palabra_desde(s@, inicio as int, i as int);
            assert(t.take(i - inicio) =~= s@.subrange(inicio as int, i as int));
            assert(t.skip(i - inicio) =~= s@.skip(i as int));
        }
        let palabra = trozo(s, inicio, i);
        proof {
            assert(vistas_vec(r@.push(palabra)) =~= vistas_vec(r@).push(palabra@));
            assert(vistas_vec(r@).push(palabra@) + palabras(s@.skip(i as int)) =~= vistas_vec(r@)
                + (seq![palabra@] + palabras(s@.skip(i as int))));
        }
        r.push(palabra);
    }
}

/// `a`, `b` y `c` seguidos.
pub fn rodeado(a: &str, b: &[char], c: &str) -> (r: Vec<char>)
    ensures
        r@ == a@ + b@ + c@,
{
    let mut r = caracteres(a);
    anexar(&mut r, b);
    anexar_str(&mut r, c);
    r
}

/// Un texto que no empieza ni acaba en blanco queda igual al recortarlo.
pub proof fn lema_recortado_sin_bordes(s: Seq<char>)
    requires
        s.len() > 0,
        !es_blanco(s[0]),
        !es_blanco(s.last()),
    ensures
        recortado(s) == s,
{
}

pub proof fn lema_final_no_crece(s: Seq<char>)
    ensures
        sin_blancos_al_final(s).len() <= s.len(),
        s.len() > 0 && es_blanco(s.last()) ==> sin_blancos_al_final(s).len() < s.len(),
    decreases s.len(),
{
    if s.len() > 0 && es_blanco(s.last()) {
        lema_final_no_crece(s.drop_last());
    }
}

/// Si recortar no cambia un texto no vacío, su último carácter no es blanco.
pub proof fn lema_recortado_fijo_ultimo(s: Seq<char>)
    requires
        s.len() > 0,
        recortado(s) == s,
    ensures
        !es_blanco(s.last()),
        !es_blanco(s[0]),
{
    lema_inicio_no_crece(s);
    lema_final_no_crece(sin_blancos_al_inicio(s));
    if es_blanco(s[0]) {
        lema_inicio_corto(s);
    }
    if es_blanco(s.last()) {
        if sin_blancos_al_inicio(s).len() == s.len() {
            lema_inicio_igual(s);
            lema_final_no_crece(s);
        }
    }
}

proof fn lema_inicio_corto(s: Seq<char>)
    requires
        s.len() > 0,
        es_blanco(s[0]),
    ensures
        sin_blancos_al_inicio(s).len() < s.len(),
{
    lema_inicio_no_crece(s.drop_first());
}

proof fn lema_inicio_igual(s: Seq<char>)
    requires
        sin_blancos_al_inicio(s).len() == s.len(),
    ensures
        sin_blancos_al_inicio(s) == s,
{
    if s.len() > 0 && es_blanco(s[0]) {
        lema_inicio_corto(s);
    }
}

/// `s` contiene algún carácter de control.
pub open spec fn tiene_control(s: Seq<char>) -> bool {
    exists|i: int| 0 <= i < s.len() && es_control(#[trigger] s[i])
}

/// `s` contiene algún blanco Unicode.
pub open spec fn tiene_blanco(s: Seq<char>) -> bool {
    exists|i: int| 0 <= i < s.len() && es_blanco(#[trigger] s[i])
}

pub fn hay_control(s: &[char]) -> (r: bool)
    ensures
        r == tiene_control(s@),
{
    let mut i: usize = 0;
    while i < s.len()
        invariant
            i <= s@.len(),
            forall|j: int| 0 <= j < i ==> !es_control(#[trigger] s@[j]),
        decreases s@.len() - i,
    {
        if control(s[i]) {
            return true;
        }
        i += 1;
    }
    false
}

pub fn hay_blanco(s: &[char]) -> (r: bool)
    ensures
        r == tiene_blanco(s@),
{
    let mut i: usize = 0;
    while i < s.len()
        invariant
            i <= s@.len(),
            forall|j: int| 0 <= j < i ==> !es_blanco(#[trigger] s@[j]),
        decreases s@.len() - i,
    {
        if blanco(s[i]) {
            return true;
        }
        i += 1;
    }
    false
}

pub open spec fn vista_mensaje(o: Option<Vec<char>>) -> Option<Seq<char>> {
    match o {
        Some(v) => Some(v@),
        None => None,
    }
}

// --- Orden lexicográfico ---------------------------------------------------------

/// `a` va antes que `b` en orden lexicográfico por punto de código: el de
/// `Ord` para `str`, que coincide con el de sus bytes en UTF-8.
pub open spec fn lex_menor(a: Seq<char>, b: Seq<char>) -> bool
    decreases a.len(),
{
    if a.len() == 0 {
        b.len() > 0
    } else if b.len() == 0 {
        false
    } else if a[0] != b[0] {
        a[0] < b[0]
    } else {
        lex_menor(a.drop_first(), b.drop_first())
    }
}

/// Cada elemento va después o a la par del anterior.
pub open spec fn ordenada(s: Seq<Seq<char>>) -> bool {
    forall|i: int, j: int| 0 <= i < j < s.len() ==> !lex_menor(#[trigger] s[j], #[trigger] s[i])
}

/// Dos textos distintos siempre se pueden ordenar.
pub proof fn lema_lex_total(a: Seq<char>, b: Seq<char>)
    ensures
        a =~= b || lex_menor(a, b) || lex_menor(b, a),
    decreases a.len(),
{
    if a.len() == 0 && b.len() == 0 {
        assert(a =~= b);
    } else if a.len() > 0 && b.len() > 0 && a[0] == b[0] {
        lema_lex_total(a.drop_first(), b.drop_first());
        if a.drop_first() =~= b.drop_first() {
            assert(a =~= seq![a[0]] + a.drop_first());
            assert(b =~= seq![b[0]] + b.drop_first());
        }
    }
}

/// Nunca van los dos antes que el otro.
pub proof fn lema_lex_asimetrico(a: Seq<char>, b: Seq<char>)
    ensures
        !(lex_menor(a, b) && lex_menor(b, a)),
        !lex_menor(a, a),
    decreases a.len(),
{
    if a.len() > 0 && b.len() > 0 && a[0] == b[0] {
        lema_lex_asimetrico(a.drop_first(), b.drop_first());
    }
    if a.len() > 0 {
        lema_lex_asimetrico(a.drop_first(), a.drop_first());
    }
}

/// El orden es transitivo.
pub proof fn lema_lex_transitivo(a: Seq<char>, b: Seq<char>, c: Seq<char>)
    requires
        lex_menor(a, b),
        lex_menor(b, c),
    ensures
        lex_menor(a, c),
    decreases a.len(),
{
    if a.len() > 0 && b.len() > 0 && c.len() > 0 && a[0] == b[0] && b[0] == c[0] {
        lema_lex_transitivo(a.drop_first(), b.drop_first(), c.drop_first());
    }
}

/// `a < b` para textos.
pub fn menor(a: &[char], b: &[char]) -> (r: bool)
    ensures
        r == lex_menor(a@, b@),
{
    let mut i: usize = 0;
    proof {
        assert(a@.skip(0) =~= a@);
        assert(b@.skip(0) =~= b@);
    }
    while i < a.len() && i < b.len() && a[i] == b[i]
        invariant
            i <= a@.len(),
            i <= b@.len(),
            lex_menor(a@, b@) == lex_menor(a@.skip(i as int), b@.skip(i as int)),
        decreases a@.len() - i,
    {
        proof {
            assert(a@.skip(i as int).drop_first() =~= a@.skip(i + 1));
            assert(b@.skip(i as int).drop_first() =~= b@.skip(i + 1));
            assert(a@.skip(i as int)[0] == a@[i as int]);
            assert(b@.skip(i as int)[0] == b@[i as int]);
        }
        i += 1;
    }
    proof {
        if i < a@.len() && i < b@.len() {
            assert(a@.skip(i as int)[0] == a@[i as int]);
            assert(b@.skip(i as int)[0] == b@[i as int]);
        }
    }
    if i == a.len() {
        i < b.len()
    } else if i == b.len() {
        false
    } else {
        a[i] < b[i]
    }
}

/// Ordena una lista de textos en orden lexicográfico, como `sort` sobre
/// cadenas o rutas de un mismo directorio.
pub fn ordenar(v: &Vec<String>) -> (r: Vec<String>)
    ensures
        ordenada(vistas(r@)),
        vistas(r@).to_multiset() == vistas(v@).to_multiset(),
{
    let mut r: Vec<String> = Vec::new();
    let mut k: usize = 0;
    proof {
        assert(vistas(v@).take(0) =~= seq![]);
        assert(vistas(r@) =~= seq![]);
    }
    while k < v.len()
        invariant
            k <= v@.len(),
            ordenada(vistas(r@)),
            vistas(r@).to_multiset() == vistas(v@).take(k as int).to_multiset(),
        decreases v@.len() - k,
    {
        let x = v[k].clone();
        let cx = caracteres(x.as_str());
        let mut p: usize = 0;
        while p < r.len() && !menor(cx.as_slice(), caracteres(r[p].as_str()).as_slice())
            invariant
                p <= r@.len(),
                cx@ == x@,
                forall|i: int| 0 <= i < p ==> !lex_menor(x@, #[trigger] r@[i]@),
            decreases r@.len() - p,
        {
            p += 1;
        }
        let ghost antes = vistas(r@);
        proof {
            if p < r@.len() {
                assert(lex_menor(x@, r@[p as int]@));
            }
            assert forall|i: int, j: int|
                0 <= i < j < antes.len() + 1 implies !lex_menor(
                #[trigger] antes.insert(p as int, x@)[j],
                #[trigger] antes.insert(p as int, x@)[i],
            ) by {
                let s = antes.insert(p as int, x@);
                if j < p {
                } else if j == p {
                    assert(s[i] == r@[i]@);
                    lema_lex_total(x@, r@[i]@);
                    lema_lex_asimetrico(x@, r@[i]@);
                } else if i < p {
                    assert(s[j] == antes[j - 1]);
                } else if i == p {
                    let y = antes[j - 1];
                    let z = antes[p as int];
                    assert(!lex_menor(y, z) || j - 1 == p);
                    lema_lex_total(z, y);
                    if lex_menor(z, y) {
                        lema_lex_transitivo(x@, z, y);
                    }
                    lema_lex_asimetrico(x@, y);
                } else {
                    assert(s[i] == antes[i - 1]);
                    assert(s[j] == antes[j - 1]);
                }
            }
        }
        r.insert(p, x);
        proof {
            assert(vistas(r@) =~= antes.insert(p as int, x@));
            vstd::seq_lib::to_multiset_insert(antes, p as int, x@);
            assert(vistas(v@).take(k + 1) =~= vistas(v@).take(k as int).push(x@));
            vstd::seq_lib::to_multiset_build(vistas(v@).take(k as int), x@);
        }
        k += 1;
    }
    proof {
        assert(vistas(v@).take(v@.len() as int) =~= vistas(v@));
    }
    r
}


// --- Lectura de vuelta de lo que se escribe ------------------------------------------

/// Las cifras de `n` son cifras y se leen de vuelta como `n`.
pub proof fn lema_decimal(n: nat)
    ensures
        decimal(n).len() >= 1,
        solo_cifras(decimal(n)),
        valor_de_cifras(decimal(n)) == n,
    decreases n,
{
    let s = decimal(n);
    if n < 10 {
        assert(s.drop_last() =~= seq![]);
        assert(s.last() == cifra(n));
        assert((cifra(n) as u32) == 48 + n);
        assert(valor_de_cifras(s.drop_last()) == 0);
        assert(es_digito(s[0]));
    } else {
        lema_decimal(n / 10);
        assert(s.drop_last() =~= decimal(n / 10));
        assert(s.last() == cifra(n % 10));
        assert((cifra(n % 10) as u32) == 48 + n % 10);
        assert(valor_de_cifras(s) == valor_de_cifras(decimal(n / 10)) * 10 + n % 10);
        assert((n / 10) * 10 + n % 10 == n);
        assert forall|i: int| 0 <= i < s.len() implies es_digito(#[trigger] s[i]) by {
            if i < s.len() - 1 {
                assert(s[i] == decimal(n / 10)[i]);
            }
        }
    }
}

/// Un puerto escrito en decimal se lee igual.
pub proof fn lema_u16_decimal(p: u16)
    ensures
        valor_u16(decimal(p as nat)) == Some(p),
        decimal(p as nat).len() >= 1,
        forall|i: int| 0 <= i < decimal(p as nat).len() ==> es_digito(#[trigger] decimal(p as nat)[i]),
{
    lema_decimal(p as nat);
    let s = decimal(p as nat);
    assert(es_digito(s[0]));
}

/// Una palabra sin blancos se lee como una sola palabra.
pub proof fn lema_palabras_una(a: Seq<char>)
    requires
        a.len() > 0,
        !tiene_blanco(a),
    ensures
        palabras(a) == seq![a],
{
    assert(!es_blanco(a[0]));
    assert(sin_blancos_al_inicio(a) == a);
    lema_fin_palabra_desde(a, 0, a.len() as int);
    assert(a.skip(0) =~= a);
    assert(a.take(a.len() as int) =~= a);
    let r = a.skip(a.len() as int);
    assert(r.len() == 0);
    assert(sin_blancos_al_inicio(r).len() == 0);
    assert(palabras(r) == Seq::<Seq<char>>::empty());
    assert(seq![a] + Seq::<Seq<char>>::empty() =~= seq![a]);
}

/// Dos palabras sin blancos separadas por un espacio se leen como dos palabras.
pub proof fn lema_palabras_dos(a: Seq<char>, b: Seq<char>)
    requires
        a.len() > 0,
        b.len() > 0,
        !tiene_blanco(a),
        !tiene_blanco(b),
    ensures
        palabras(a + seq![' '] + b) == seq![a, b],
{
    let s = a + seq![' '] + b;
    assert(s[0] == a[0]);
    assert(!es_blanco(a[0]));
    assert(sin_blancos_al_inicio(s) == s);
    assert forall|j: int| 0 <= j < a.len() implies !es_blanco(#[trigger] s[j]) by {
        assert(s[j] == a[j]);
    }
    assert(es_blanco(s[a.len() as int]));
    lema_fin_palabra_desde(s, 0, a.len() as int);
    assert(s.skip(0) =~= s);
    assert(s.take(a.len() as int) =~= a);
    let t = s.skip(a.len() as int);
    assert(t =~= seq![' '] + b);
    assert(t.drop_first() =~= b);
    assert(!es_blanco(b[0]));
    assert(sin_blancos_al_inicio(b) == b);
    assert(sin_blancos_al_inicio(t) == b);
    lema_palabras_una(b);
    assert(palabras(t) == palabras(b));
    assert(palabras(s) == seq![a] + palabras(t));
    assert(seq![a] + seq![b] =~= seq![a, b]);
}


/// Partir por `c` un texto con un `c` en medio parte cada lado por separado.
pub proof fn lema_trozos_concat(a: Seq<char>, b: Seq<char>, c: char)
    ensures
        trozos(a + seq![c] + b, c) == trozos(a, c) + trozos(b, c),
    decreases a.len(),
{
    let x = a + seq![c] + b;
    lema_primera_pos(a, c);
    match primera_pos(a, c) {
        None => {
            assert forall|j: int| 0 <= j < a.len() implies x[j] != c by {
                assert(x[j] == a[j]);
            }
            assert(x[a.len() as int] == c);
            lema_primera_pos_unica(x, c, a.len() as int);
            assert(x.take(a.len() as int) =~= a);
            assert(x.skip(a.len() as int + 1) =~= b);
            assert(seq![a] + trozos(b, c) =~= trozos(a, c) + trozos(b, c));
        },
        Some(k) => {
            assert forall|j: int| 0 <= j < k implies x[j] != c by {
                assert(x[j] == a[j]);
            }
            assert(x[k] == a[k]);
            lema_primera_pos_unica(x, c, k);
            let a2 = a.skip(k + 1);
            assert(x.skip(k + 1) =~= a2 + seq![c] + b);
            assert(x.take(k) =~= a.take(k));
            lema_trozos_concat(a2, b, c);
            assert(seq![a.take(k)] + (trozos(a2, c) + trozos(b, c)) =~= (seq![a.take(k)] + trozos(
                a2,
                c,
            )) + trozos(b, c));
        },
    }
}

/// Unir con `c` trozos que no lo contienen y volver a partir da los mismos trozos.
pub proof fn lema_trozos_unidos(s: Seq<Seq<char>>, c: char)
    requires
        s.len() > 0,
        forall|i: int| 0 <= i < s.len() ==> !(#[trigger] s[i]).contains(c),
    ensures
        trozos(unidos(s, seq![c]), c) == s,
    decreases s.len(),
{
    if s.len() == 1 {
        assert(!s[0].contains(c));
        assert forall|j: int| 0 <= j < s[0].len() implies s[0][j] != c by {
            if s[0][j] == c {
                assert(s[0].contains(c));
            }
        }
        lema_sin_primera_pos(s[0], c);
        assert(seq![s[0]] =~= s);
    } else {
        let previos = s.drop_last();
        assert forall|i: int| 0 <= i < previos.len() implies !(#[trigger] previos[i]).contains(c) by {
            assert(previos[i] == s[i]);
        }
        lema_trozos_unidos(previos, c);
        lema_trozos_concat(unidos(previos, seq![c]), s.last(), c);
        assert(!s[s.len() - 1].contains(c));
        assert forall|j: int| 0 <= j < s.last().len() implies s.last()[j] != c by {
            if s.last()[j] == c {
                assert(s.last().contains(c));
            }
        }
        lema_sin_primera_pos(s.last(), c);
        assert(previos + seq![s.last()] =~= s);
    }
}

} // verus!
