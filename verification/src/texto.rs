//! Text primitives shared by the registration rules: whitespace trimming,
//! digit filtering, code-point order, substring search and the decimal
//! notation of integers, each stated over the characters of the text.

use vstd::prelude::*;

verus! {

broadcast use vstd::seq_lib::group_seq_properties;

// ───────────────────────── characters ─────────────────────────

/// `char::is_whitespace`: the Unicode `White_Space` code points.
pub open spec fn eh_espaco(c: char) -> bool {
    ||| ('\u{9}' <= c && c <= '\u{d}')
    ||| c == ' '
    ||| c == '\u{85}'
    ||| c == '\u{a0}'
    ||| c == '\u{1680}'
    ||| ('\u{2000}' <= c && c <= '\u{200a}')
    ||| c == '\u{2028}'
    ||| c == '\u{2029}'
    ||| c == '\u{202f}'
    ||| c == '\u{205f}'
    ||| c == '\u{3000}'
}

/// An ASCII decimal digit (`char::is_ascii_digit`, and also what
/// `char::to_digit(10)` accepts).
pub open spec fn eh_digito(c: char) -> bool {
    '0' <= c && c <= '9'
}

/// The value of an ASCII digit.
pub open spec fn valor_digito(c: char) -> int {
    c as int - '0' as int
}

/// The digit that writes `d` (for `0 <= d < 10`).
pub open spec fn digito_de(d: int) -> char {
    (d + '0' as int) as char
}

pub fn espaco(c: char) -> (r: bool)
    ensures
        r == eh_espaco(c),
{
    ('\u{9}' <= c && c <= '\u{d}') || c == ' ' || c == '\u{85}' || c == '\u{a0}' || c == '\u{1680}'
        || ('\u{2000}' <= c && c <= '\u{200a}') || c == '\u{2028}' || c == '\u{2029}' || c
        == '\u{202f}' || c == '\u{205f}' || c == '\u{3000}'
}

pub fn digito(c: char) -> (r: bool)
    ensures
        r == eh_digito(c),
{
    '0' <= c && c <= '9'
}

// ───────────────────────── strings and character vectors ─────────────────────────

/// `String::push` from the standard library: its documentation says the
/// character is appended at the end, which is all this claims.
#[verifier::external_body]
pub(crate) fn empurrar(s: &mut String, c: char)
    ensures
        final(s)@ == old(s)@.push(c),
{
    s.push(c);
}

/// The characters of a string slice, in order.
pub fn caracteres(s: &str) -> (r: Vec<char>)
    ensures
        r@ == s@,
{
    let mut r: Vec<char> = Vec::new();
    for c in it: s.chars()
        invariant
            r@ == it.seq().take(it.index() as int),
            it.seq() == s@,
    {
        r.push(c);
    }
    r
}

/// The string made of the characters `v[de..ate]`.
pub fn texto_de_trecho(v: &Vec<char>, de: usize, ate: usize) -> (r: String)
    requires
        de <= ate <= v.len(),
    ensures
        r@ == v@.subrange(de as int, ate as int),
{
    let mut r = String::new();
    let mut i = de;
    while i < ate
        invariant
            de <= i <= ate <= v.len(),
            r@ == v@.subrange(de as int, i as int),
        decreases ate - i,
    {
        empurrar(&mut r, v[i]);
        i = i + 1;
    }
    r
}

/// The string made of the characters of `v`.
pub fn texto_de(v: &Vec<char>) -> (r: String)
    ensures
        r@ == v@,
{
    texto_de_trecho(v, 0, v.len())
}

/// `s` followed by `t`.
pub fn anexar(s: &mut String, t: &str)
    ensures
        final(s)@ == old(s)@ + t@,
{
    let v = caracteres(t);
    let mut i: usize = 0;
    while i < v.len()
        invariant
            i <= v@.len(),
            v@ == t@,
            s@ == old(s)@ + t@.take(i as int),
        decreases v.len() - i,
    {
        empurrar(s, v[i]);
        i = i + 1;
    }
}

/// A fresh copy of a string slice.
pub fn copia(t: &str) -> (r: String)
    ensures
        r@ == t@,
{
    let mut r = String::new();
    anexar(&mut r, t);
    r
}

// ───────────────────────── trimming ─────────────────────────

/// Number of leading whitespace characters of `s`.
pub open spec fn espacos_iniciais(s: Seq<char>) -> nat
    decreases s.len(),
{
    if s.len() > 0 && eh_espaco(s[0]) {
        1 + espacos_iniciais(s.drop_first())
    } else {
        0
    }
}

/// Number of trailing whitespace characters of `s`.
pub open spec fn espacos_finais(s: Seq<char>) -> nat
    decreases s.len(),
{
    if s.len() > 0 && eh_espaco(s.last()) {
        1 + espacos_finais(s.drop_last())
    } else {
        0
    }
}

/// `str::trim`: `s` without its leading and trailing whitespace.
pub open spec fn aparado(s: Seq<char>) -> Seq<char> {
    let t = s.skip(espacos_iniciais(s) as int);
    t.take(t.len() - espacos_finais(t))
}

pub proof fn lemma_espacos_iniciais(s: Seq<char>, i: int)
    requires
        0 <= i <= s.len(),
        forall|k: int| 0 <= k < i ==> eh_espaco(#[trigger] s[k]),
        i == s.len() || !eh_espaco(s[i]),
    ensures
        espacos_iniciais(s) == i,
    decreases i,
{
    if i > 0 {
        assert forall|k: int| 0 <= k < i - 1 implies eh_espaco(#[trigger] s.drop_first()[k]) by {
            assert(s.drop_first()[k] == s[k + 1]);
        }
        lemma_espacos_iniciais(s.drop_first(), i - 1);
    }
}

proof fn lemma_espacos_finais(s: Seq<char>, j: int)
    requires
        0 <= j <= s.len(),
        forall|k: int| j <= k < s.len() ==> eh_espaco(#[trigger] s[k]),
        j == 0 || !eh_espaco(s[j - 1]),
    ensures
        espacos_finais(s) == s.len() - j,
    decreases s.len() - j,
{
    if j < s.len() {
        assert forall|k: int| j <= k < s.len() - 1 implies eh_espaco(#[trigger] s.drop_last()[k]) by {
            assert(s.drop_last()[k] == s[k]);
        }
        lemma_espacos_finais(s.drop_last(), j);
    }
}

/// Leading and trailing whitespace positions of `v`: `(i, j)` with
/// `v[i..j]` the trimmed text.
pub fn limites_aparados(v: &Vec<char>) -> (r: (usize, usize))
    ensures
        r.0 <= r.1 <= v.len(),
        v@.subrange(r.0 as int, r.1 as int) == aparado(v@),
{
    let mut i: usize = 0;
    while i < v.len() && espaco(v[i])
        invariant
            i <= v.len(),
            forall|k: int| 0 <= k < i ==> eh_espaco(#[trigger] v@[k]),
        decreases v.len() - i,
    {
        i = i + 1;
    }
    proof {
        lemma_espacos_iniciais(v@, i as int);
    }
    let ghost t = v@.skip(i as int);
    let mut j: usize = v.len();
    while j > i && espaco(v[j - 1])
        invariant
            i <= j <= v.len(),
            forall|k: int| j <= k < v.len() ==> eh_espaco(#[trigger] v@[k]),
        decreases j,
    {
        j = j - 1;
    }
    proof {
        assert forall|k: int| j - i <= k < t.len() implies eh_espaco(#[trigger] t[k]) by {
            assert(t[k] == v@[k + i]);
        }
        if j > i {
            assert(t[j - i - 1] == v@[j - 1]);
        }
        lemma_espacos_finais(t, j - i);
        assert(t.take(j - i) =~= v@.subrange(i as int, j as int));
    }
    (i, j)
}

/// `str::trim`, as an owned string.
pub fn aparar(s: &str) -> (r: String)
    ensures
        r@ == aparado(s@),
{
    let v = caracteres(s);
    let (i, j) = limites_aparados(&v);
    texto_de_trecho(&v, i, j)
}

/// Is the text empty once trimmed (`s.trim().is_empty()`)?
pub fn em_branco(s: &str) -> (r: bool)
    ensures
        r == (aparado(s@).len() == 0),
{
    let v = caracteres(s);
    let (i, j) = limites_aparados(&v);
    i == j
}

// ───────────────────────── digits ─────────────────────────

/// The ASCII digits of `s`, in order.
pub open spec fn so_digitos(s: Seq<char>) -> Seq<char> {
    s.filter(filtro_digito())
}

/// The predicate `eh_digito` as a value.
pub open spec fn filtro_digito() -> spec_fn(char) -> bool {
    |c: char| eh_digito(c)
}

/// The ASCII digits of a text, in order.
pub fn digitos_de(s: &str) -> (r: Vec<char>)
    ensures
        r@ == so_digitos(s@),
{
    let v = caracteres(s);
    let mut r: Vec<char> = Vec::new();
    let mut i: usize = 0;
    while i < v.len()
        invariant
            i <= v.len(),
            v@ == s@,
            r@ == so_digitos(v@.take(i as int)),
        decreases v.len() - i,
    {
        proof {
            assert(v@.take(i + 1) =~= v@.take(i as int).push(v@[i as int]));
            v@.take(i as int).lemma_filter_push(v@[i as int], filtro_digito());
        }
        if digito(v[i]) {
            r.push(v[i]);
        }
        i = i + 1;
    }
    proof {
        assert(v@.take(v.len() as int) =~= v@);
    }
    r
}

// ───────────────────────── code-point order ─────────────────────────

/// Strict order of texts by code point, the order of `str` comparison in
/// Rust and of SQLite's `BINARY` collation on UTF-8 text.
pub open spec fn texto_menor(a: Seq<char>, b: Seq<char>) -> bool
    decreases a.len(),
{
    if a.len() == 0 {
        b.len() > 0
    } else if b.len() == 0 {
        false
    } else if a[0] != b[0] {
        a[0] < b[0]
    } else {
        texto_menor(a.drop_first(), b.drop_first())
    }
}

/// `a <= b` in code-point order.
pub open spec fn texto_menor_igual(a: Seq<char>, b: Seq<char>) -> bool {
    texto_menor(a, b) || a == b
}

pub proof fn lemma_texto_menor_pula(a: Seq<char>, b: Seq<char>, i: int)
    requires
        0 <= i <= a.len(),
        i <= b.len(),
        a.take(i) == b.take(i),
    ensures
        texto_menor(a, b) == texto_menor(a.skip(i), b.skip(i)),
    decreases i,
{
    if i > 0 {
        assert(a[0] == a.take(i)[0]);
        assert(b[0] == b.take(i)[0]);
        assert(a.drop_first().take(i - 1) =~= a.take(i).drop_first());
        assert(b.drop_first().take(i - 1) =~= b.take(i).drop_first());
        lemma_texto_menor_pula(a.drop_first(), b.drop_first(), i - 1);
        assert(a.drop_first().skip(i - 1) =~= a.skip(i));
        assert(b.drop_first().skip(i - 1) =~= b.skip(i));
    }
}

/// Compares two texts in code-point order: `-1`, `0` or `1`.
pub fn comparar(a: &str, b: &str) -> (r: i8)
    ensures
        r == -1 <==> texto_menor(a@, b@),
        r == 0 <==> a@ == b@,
        r == 1 <==> texto_menor(b@, a@),
        -1 <= r <= 1,
{
    let va = caracteres(a);
    let vb = caracteres(b);
    let mut i: usize = 0;
    while i < va.len() && i < vb.len() && va[i] == vb[i]
        invariant
            i <= va.len(),
            i <= vb.len(),
            va@ == a@,
            vb@ == b@,
            va@.take(i as int) == vb@.take(i as int),
        decreases va.len() - i,
    {
        proof {
            assert(va@.take(i + 1) =~= va@.take(i as int).push(va@[i as int]));
            assert(vb@.take(i + 1) =~= vb@.take(i as int).push(vb@[i as int]));
        }
        i = i + 1;
    }
    proof {
        lemma_texto_menor_pula(va@, vb@, i as int);
        lemma_texto_menor_pula(vb@, va@, i as int);
        let sa = va@.skip(i as int);
        let sb = vb@.skip(i as int);
        if i == va.len() && i == vb.len() {
            assert(va@ =~= va@.take(i as int));
            assert(vb@ =~= vb@.take(i as int));
        }
        if i < va.len() && i < vb.len() {
            assert(sa[0] == va@[i as int]);
            assert(sb[0] == vb@[i as int]);
            assert(va@[i as int] != vb@[i as int]);
            assert(va@ != vb@);
        }
        if i < va.len() && i == vb.len() {
            assert(va@.len() != vb@.len());
        }
        if i == va.len() && i < vb.len() {
            assert(va@.len() != vb@.len());
        }
    }
    if i == va.len() && i == vb.len() {
        0
    } else if i == va.len() {
        -1
    } else if i == vb.len() {
        1
    } else if va[i] < vb[i] {
        -1
    } else {
        1
    }
}

pub proof fn lemma_texto_menor_assimetrico(a: Seq<char>, b: Seq<char>)
    ensures
        texto_menor(a, b) ==> !texto_menor(b, a) && a != b,
    decreases a.len(),
{
    if a.len() > 0 && b.len() > 0 && a[0] == b[0] {
        lemma_texto_menor_assimetrico(a.drop_first(), b.drop_first());
        if a == b {
            assert(a.drop_first() == b.drop_first());
        }
    }
}

/// `a < b` in code-point order.
pub fn menor(a: &str, b: &str) -> (r: bool)
    ensures
        r == texto_menor(a@, b@),
{
    comparar(a, b) == -1
}

/// `a <= b` in code-point order.
pub fn menor_igual(a: &str, b: &str) -> (r: bool)
    ensures
        r == texto_menor_igual(a@, b@),
{
    proof {
        lemma_texto_menor_assimetrico(b@, a@);
    }
    comparar(a, b) != 1
}

// ───────────────────────── search ─────────────────────────

/// `needle` occurs in `hay` starting at position `i`.
pub open spec fn ocorre_em(hay: Seq<char>, needle: Seq<char>, i: int) -> bool {
    0 <= i && i + needle.len() <= hay.len() && hay.subrange(i, i + needle.len()) == needle
}

/// `str::contains` with a text pattern.
pub open spec fn contem(hay: Seq<char>, needle: Seq<char>) -> bool {
    exists|i: int| ocorre_em(hay, needle, i)
}

/// First position at which `needle` occurs in `hay`, if any.
pub fn procurar(hay: &Vec<char>, needle: &Vec<char>) -> (r: Option<usize>)
    ensures
        match r {
            Some(i) => ocorre_em(hay@, needle@, i as int) && forall|k: int|
                0 <= k < i ==> !ocorre_em(hay@, needle@, k),
            None => !contem(hay@, needle@),
        },
{
    if needle.len() > hay.len() {
        return None;
    }
    let mut i: usize = 0;
    while i <= hay.len() - needle.len()
        invariant
            needle.len() <= hay.len(),
            i <= hay.len(),
            forall|k: int| 0 <= k < i ==> !ocorre_em(hay@, needle@, k),
        decreases hay.len() - i,
    {
        let mut j: usize = 0;
        while j < needle.len() && hay[i + j] == needle[j]
            invariant
                i + needle.len() <= hay.len(),
                j <= needle.len(),
                forall|k: int| 0 <= k < j ==> hay@[i + k] == needle@[k],
            decreases needle.len() - j,
        {
            j = j + 1;
        }
        if j == needle.len() {
            proof {
                assert(hay@.subrange(i as int, i + needle.len()) =~= needle@);
            }
            return Some(i);
        }
        proof {
            assert(hay@.subrange(i as int, i + needle.len())[j as int] == hay@[i + j]);
        }
        i = i + 1;
    }
    None
}

/// `hay.contains(needle)`.
pub fn contem_texto(hay: &str, needle: &str) -> (r: bool)
    ensures
        r == contem(hay@, needle@),
{
    let h = caracteres(hay);
    let n = caracteres(needle);
    procurar(&h, &n).is_some()
}


// ───────────────────────── lower case ─────────────────────────

/// What `str::to_lowercase` gives for a text: the Unicode lower-case
/// mapping of each character (a character may map to several).
pub uninterp spec fn minusculas(s: Seq<char>) -> Seq<char>;

/// `str::to_lowercase`, from the standard library: its result is claimed
/// to be `minusculas` of the text, a function of the text alone; nothing
/// more of it is stated.
#[verifier::external_body]
pub(crate) fn em_minusculas(s: &str) -> (r: String)
    ensures
        r@ == minusculas(s@),
{
    s.to_lowercase()
}


proof fn lemma_iniciais(s: Seq<char>)
    ensures
        espacos_iniciais(s) <= s.len(),
        forall|k: int| 0 <= k < espacos_iniciais(s) ==> eh_espaco(#[trigger] s[k]),
        espacos_iniciais(s) < s.len() ==> !eh_espaco(s[espacos_iniciais(s) as int]),
    decreases s.len(),
{
    if s.len() > 0 && eh_espaco(s[0]) {
        lemma_iniciais(s.drop_first());
        assert forall|k: int| 0 <= k < espacos_iniciais(s) implies eh_espaco(#[trigger] s[k]) by {
            if k > 0 {
                assert(s[k] == s.drop_first()[k - 1]);
            }
        }
    }
}

proof fn lemma_finais(s: Seq<char>)
    ensures
        espacos_finais(s) <= s.len(),
        forall|k: int| s.len() - espacos_finais(s) <= k < s.len() ==> eh_espaco(#[trigger] s[k]),
        espacos_finais(s) < s.len() ==> !eh_espaco(s[s.len() - espacos_finais(s) - 1]),
    decreases s.len(),
{
    if s.len() > 0 && eh_espaco(s.last()) {
        lemma_finais(s.drop_last());
        assert forall|k: int| s.len() - espacos_finais(s) <= k < s.len() implies eh_espaco(#[trigger] s[k]) by {
            if k < s.len() - 1 {
                assert(s[k] == s.drop_last()[k]);
            }
        }
    }
}

/// A text that neither starts nor ends with whitespace is its own trim.
pub proof fn lemma_aparado_sem_bordas(s: Seq<char>)
    requires
        s.len() > 0,
        !eh_espaco(s[0]),
        !eh_espaco(s.last()),
    ensures
        aparado(s) == s,
{
    assert(espacos_iniciais(s) == 0);
    assert(s.skip(0) =~= s);
    assert(espacos_finais(s) == 0);
    assert(s.take(s.len() as int) =~= s);
}

/// Trimming twice is trimming once.
pub proof fn lemma_aparado_idempotente(s: Seq<char>)
    ensures
        aparado(aparado(s)) == aparado(s),
{
    lemma_iniciais(s);
    let u = s.skip(espacos_iniciais(s) as int);
    lemma_finais(u);
    let t = aparado(s);
    assert(t == u.take(u.len() - espacos_finais(u)));
    if t.len() > 0 {
        assert(t[0] == u[0]);
        assert(u[0] == s[espacos_iniciais(s) as int]);
        assert(t.last() == u[u.len() - espacos_finais(u) - 1]);
        assert(!eh_espaco(t.drop_last().push(t.last()).last()));
    }
    assert(espacos_iniciais(t) == 0);
    assert(t.skip(0) =~= t);
    assert(espacos_finais(t) == 0);
    assert(t.take(t.len() as int) =~= t);
}


proof fn lemma_filtro_de_todos(s: Seq<char>, f: spec_fn(char) -> bool)
    requires
        forall|k: int| 0 <= k < s.len() ==> f(#[trigger] s[k]),
    ensures
        s.filter(f) == s,
    decreases s.len(),
{
    reveal(Seq::filter);
    if s.len() > 0 {
        lemma_filtro_de_todos(s.drop_last(), f);
        assert(s.drop_last().push(s.last()) =~= s);
    }
}

/// The digits of the digits of a text are its digits.
pub proof fn lemma_so_digitos_idempotente(s: Seq<char>)
    ensures
        so_digitos(so_digitos(s)) == so_digitos(s),
        forall|k: int| 0 <= k < so_digitos(s).len() ==> eh_digito(#[trigger] so_digitos(s)[k]),
{
    let d = so_digitos(s);
    assert forall|k: int| 0 <= k < d.len() implies filtro_digito()(#[trigger] d[k]) by {
        s.lemma_filter_pred(filtro_digito(), k);
    }
    lemma_filtro_de_todos(d, filtro_digito());
}


// ───────────────────────── UTF-8 length ─────────────────────────

/// Bytes of one character in UTF-8.
pub open spec fn bytes_do_caractere(c: char) -> int {
    if (c as u32) < 0x80 {
        1
    } else if (c as u32) < 0x800 {
        2
    } else if (c as u32) < 0x10000 {
        3
    } else {
        4
    }
}

/// Length in bytes of a text in UTF-8 (`str::len`).
pub open spec fn bytes_utf8(s: Seq<char>) -> int
    decreases s.len(),
{
    if s.len() == 0 {
        0
    } else {
        bytes_utf8(s.drop_last()) + bytes_do_caractere(s.last())
    }
}

pub proof fn lemma_bytes_crescem(s: Seq<char>, j: int, k: int)
    requires
        0 <= j <= k <= s.len(),
    ensures
        bytes_utf8(s.take(j)) + (k - j) <= bytes_utf8(s.take(k)),
    decreases k,
{
    if j < k {
        lemma_bytes_crescem(s, j, k - 1);
        assert(s.take(k).drop_last() =~= s.take(k - 1));
    }
}

/// Bytes of one character in UTF-8 (`char::len_utf8`).
pub fn bytes_de(c: char) -> (r: usize)
    ensures
        r == bytes_do_caractere(c),
{
    let n: u32 = c as u32;
    if n < 0x80 {
        1
    } else if n < 0x800 {
        2
    } else if n < 0x10000 {
        3
    } else {
        4
    }
}



/// The code-point order is transitive.
pub proof fn lemma_texto_menor_transitivo(a: Seq<char>, b: Seq<char>, c: Seq<char>)
    requires
        texto_menor(a, b),
        texto_menor(b, c),
    ensures
        texto_menor(a, c),
    decreases a.len(),
{
    if a.len() > 0 && b.len() > 0 && c.len() > 0 && a[0] == b[0] && b[0] == c[0] {
        lemma_texto_menor_transitivo(a.drop_first(), b.drop_first(), c.drop_first());
    }
}

/// The code-point order is total.
pub proof fn lemma_texto_menor_total(a: Seq<char>, b: Seq<char>)
    ensures
        texto_menor(a, b) || a == b || texto_menor(b, a),
    decreases a.len(),
{
    if a.len() > 0 && b.len() > 0 && a[0] == b[0] {
        lemma_texto_menor_total(a.drop_first(), b.drop_first());
        if a.drop_first() == b.drop_first() {
            assert(a.drop_first().len() == a.len() - 1);
            assert(b.drop_first().len() == b.len() - 1);
            assert(a.drop_first().len() == b.drop_first().len());
            assert forall|i: int| 0 <= i < a.len() implies a[i] == b[i] by {
                if i > 0 {
                    assert(a[i] == a.drop_first()[i - 1]);
                    assert(b[i] == b.drop_first()[i - 1]);
                }
            }
            assert(a =~= b);
        }
    } else if a.len() == 0 && b.len() == 0 {
        assert(a =~= b);
    }
}

} // verus!
