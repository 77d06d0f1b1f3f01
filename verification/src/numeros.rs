//! Decimal notation of integers: how Rust writes them (`Display`, `{:0w}`)
//! and how `str::parse` reads them back.

use vstd::prelude::*;
use crate::texto::{empurrar, anexar, eh_digito, valor_digito, digito_de, digito};

verus! {

broadcast use vstd::seq_lib::group_seq_properties;

// ───────────────────────── writing ─────────────────────────

/// The decimal digits of `n`, without leading zeros (`0` is written `"0"`).
pub open spec fn decimal(n: nat) -> Seq<char>
    decreases n,
{
    if n < 10 {
        seq![digito_de(n as int)]
    } else {
        decimal(n / 10).push(digito_de((n % 10) as int))
    }
}

/// `Display` of a signed integer.
pub open spec fn decimal_int(i: int) -> Seq<char> {
    if i < 0 {
        seq!['-'] + decimal((-i) as nat)
    } else {
        decimal(i as nat)
    }
}

/// `n` written with at least `w` digits, zeros on the left.
pub open spec fn com_zeros(n: nat, w: nat) -> Seq<char> {
    let d = decimal(n);
    if d.len() < w {
        Seq::new((w - d.len()) as nat, |_k: int| '0') + d
    } else {
        d
    }
}

/// `{:0w}` of a signed integer: the sign counts in the width and the zeros
/// go between the sign and the digits.
pub open spec fn com_zeros_int(i: int, w: nat) -> Seq<char> {
    if i < 0 {
        seq!['-'] + com_zeros((-i) as nat, if w > 0 { (w - 1) as nat } else { 0 })
    } else {
        com_zeros(i as nat, w)
    }
}

pub proof fn lemma_decimal_digitos(n: nat)
    ensures
        decimal(n).len() >= 1,
        forall|k: int| 0 <= k < decimal(n).len() ==> eh_digito(#[trigger] decimal(n)[k]),
    decreases n,
{
    if n >= 10 {
        lemma_decimal_digitos(n / 10);
    }
}

/// Appends the decimal digits of `n`.
pub fn escrever_natural(out: &mut String, n: u64)
    ensures
        final(out)@ == old(out)@ + decimal(n as nat),
    decreases n,
{
    if n >= 10 {
        escrever_natural(out, n / 10);
    }
    proof {
        assert(decimal(n as nat) == if n < 10 {
            seq![digito_de(n as int)]
        } else {
            decimal((n / 10) as nat).push(digito_de((n % 10) as int))
        });
    }
    empurrar(out, caractere_do_digito(n % 10));
}

/// The character of a decimal digit.
pub fn caractere_do_digito(d: u64) -> (c: char)
    requires
        d < 10,
    ensures
        c == digito_de(d as int),
{
    if d == 0 { '0' } else if d == 1 { '1' } else if d == 2 { '2' } else if d == 3 { '3' }
    else if d == 4 { '4' } else if d == 5 { '5' } else if d == 6 { '6' } else if d == 7 { '7' }
    else if d == 8 { '8' } else { '9' }
}

/// The decimal digits of `n`.
pub fn natural_em_texto(n: u64) -> (r: String)
    ensures
        r@ == decimal(n as nat),
{
    let mut r = String::new();
    escrever_natural(&mut r, n);
    r
}

/// Appends `i` as `Display` writes it.
pub fn escrever_inteiro(out: &mut String, i: i64)
    ensures
        final(out)@ == old(out)@ + decimal_int(i as int),
{
    if i < 0 {
        empurrar(out, '-');
        let m: u64 = (0i128 - (i as i128)) as u64;
        escrever_natural(out, m);
        assert(final(out)@ =~= old(out)@ + decimal_int(i as int));
    } else {
        escrever_natural(out, i as u64);
    }
}

/// `i` as `Display` writes it.
pub fn inteiro_em_texto(i: i64) -> (r: String)
    ensures
        r@ == decimal_int(i as int),
{
    let mut r = String::new();
    escrever_inteiro(&mut r, i);
    assert(r@ =~= decimal_int(i as int));
    r
}

/// Appends `n` with at least `w` digits (`{:0w}`).
pub fn escrever_com_zeros(out: &mut String, n: u64, w: usize)
    ensures
        final(out)@ == old(out)@ + com_zeros(n as nat, w as nat),
{
    let d = natural_em_texto(n);
    let tamanho = crate::texto::caracteres(d.as_str()).len();
    let ghost antes = out@;
    let mut k: usize = tamanho;
    while k < w
        invariant
            tamanho == decimal(n as nat).len(),
            tamanho <= k,
            k <= w || tamanho > w,
            tamanho >= w ==> k == tamanho,
            out@ == antes + Seq::new((k - tamanho) as nat, |_j: int| '0'),
        decreases w - k,
    {
        empurrar(out, '0');
        k = k + 1;
        assert(out@ =~= antes + Seq::new((k - tamanho) as nat, |_j: int| '0'));
    }
    anexar(out, d.as_str());
    proof {
        if tamanho >= w {
            assert(Seq::new((k - tamanho) as nat, |_j: int| '0') =~= Seq::<char>::empty());
            assert(out@ =~= antes + decimal(n as nat));
        } else {
            assert(out@ =~= antes + com_zeros(n as nat, w as nat));
        }
    }
}

/// Appends `i` as `{:0w}` writes it.
pub fn escrever_inteiro_com_zeros(out: &mut String, i: i64, w: usize)
    ensures
        final(out)@ == old(out)@ + com_zeros_int(i as int, w as nat),
{
    if i < 0 {
        empurrar(out, '-');
        let m: u64 = (0i128 - (i as i128)) as u64;
        let w2: usize = if w > 0 { w - 1 } else { 0 };
        escrever_com_zeros(out, m, w2);
        assert(final(out)@ =~= old(out)@ + com_zeros_int(i as int, w as nat));
    } else {
        escrever_com_zeros(out, i as u64, w);
    }
}

// ───────────────────────── reading ─────────────────────────

/// Value of a string of decimal digits.
pub open spec fn valor_decimal(d: Seq<char>) -> int
    decreases d.len(),
{
    if d.len() == 0 {
        0
    } else {
        valor_decimal(d.drop_last()) * 10 + valor_digito(d.last())
    }
}

/// At least one character, all of them ASCII digits.
pub open spec fn digitos_validos(d: Seq<char>) -> bool {
    d.len() > 0 && forall|k: int| 0 <= k < d.len() ==> eh_digito(#[trigger] d[k])
}

/// The integer that `str::parse` reads from `s`, before any range check:
/// an optional `+` (or `-` where the type is signed) followed by at least one
/// ASCII digit, with nothing else.
pub open spec fn inteiro_lido(s: Seq<char>, com_sinal: bool) -> Option<int> {
    if s.len() > 0 && s[0] == '+' {
        if digitos_validos(s.drop_first()) {
            Some(valor_decimal(s.drop_first()))
        } else {
            None
        }
    } else if s.len() > 0 && s[0] == '-' && com_sinal {
        if digitos_validos(s.drop_first()) {
            Some(-valor_decimal(s.drop_first()))
        } else {
            None
        }
    } else if digitos_validos(s) {
        Some(valor_decimal(s))
    } else {
        None
    }
}

/// `str::parse::<i64>()`.
pub open spec fn i64_lido(s: Seq<char>) -> Option<int> {
    match inteiro_lido(s, true) {
        Some(v) => if i64::MIN <= v <= i64::MAX { Some(v) } else { None },
        None => None,
    }
}

/// `str::parse::<u64>()`.
pub open spec fn u64_lido(s: Seq<char>) -> Option<int> {
    match inteiro_lido(s, false) {
        Some(v) => if v <= u64::MAX { Some(v) } else { None },
        None => None,
    }
}

/// `str::parse::<u32>()`.
pub open spec fn u32_lido(s: Seq<char>) -> Option<int> {
    match inteiro_lido(s, false) {
        Some(v) => if v <= u32::MAX { Some(v) } else { None },
        None => None,
    }
}

pub proof fn lemma_valor_decimal_cresce(d: Seq<char>, i: int)
    requires
        0 <= i <= d.len(),
        forall|k: int| 0 <= k < d.len() ==> eh_digito(#[trigger] d[k]),
    ensures
        0 <= valor_decimal(d.take(i)) <= valor_decimal(d),
    decreases d.len(),
{
    if d.len() > 0 {
        if i == d.len() {
            assert(d.take(i) =~= d);
            lemma_valor_decimal_cresce(d.drop_last(), i - 1);
            assert(d.drop_last().take(i - 1) =~= d.drop_last());
        } else {
            lemma_valor_decimal_cresce(d.drop_last(), i);
            assert(d.drop_last().take(i) =~= d.take(i));
            lemma_valor_decimal_cresce(d.drop_last(), d.len() - 1);
            assert(d.drop_last().take(d.len() - 1) =~= d.drop_last());
        }
    } else {
        assert(d.take(i) =~= d);
    }
}

/// Magnitude of the digits `v[de..ate]`, or `None` if one of them is not a
/// digit, if there are none, or if the magnitude exceeds `limite`.
fn magnitude(v: &Vec<char>, de: usize, ate: usize, limite: u128) -> (r: Option<u128>)
    requires
        de <= ate <= v.len(),
        limite <= u64::MAX as u128 + 1,
    ensures
        match r {
            Some(m) => digitos_validos(v@.subrange(de as int, ate as int)) && m == valor_decimal(
                v@.subrange(de as int, ate as int),
            ) && m <= limite,
            None => !digitos_validos(v@.subrange(de as int, ate as int)) || valor_decimal(
                v@.subrange(de as int, ate as int),
            ) > limite,
        },
{
    let ghost d = v@.subrange(de as int, ate as int);
    if de == ate {
        return None;
    }
    let mut m: u128 = 0;
    let mut i = de;
    while i < ate
        invariant
            de <= i <= ate <= v.len(),
            d == v@.subrange(de as int, ate as int),
            limite <= u64::MAX as u128 + 1,
            forall|k: int| de <= k < i ==> eh_digito(#[trigger] v@[k]),
            m == valor_decimal(d.take(i - de)),
            m <= limite,
        decreases ate - i,
    {
        if !digito(v[i]) {
            proof {
                assert(d[i - de] == v@[i as int]);
            }
            return None;
        }
        proof {
            assert(d.take(i - de + 1).drop_last() =~= d.take(i - de));
            assert(d.take(i - de + 1).last() == v@[i as int]);
        }
        m = m * 10 + ((v[i] as u32) - ('0' as u32)) as u128;
        i = i + 1;
        if m > limite {
            proof {
                if digitos_validos(d) {
                    lemma_valor_decimal_cresce(d, i - de);
                }
            }
            return None;
        }
    }
    proof {
        assert(d.take(ate - de) =~= d);
        assert forall|k: int| 0 <= k < d.len() implies eh_digito(#[trigger] d[k]) by {
            assert(d[k] == v@[k + de]);
        }
    }
    Some(m)
}

pub proof fn lemma_lido_sem_sinal(s: Seq<char>)
    ensures
        inteiro_lido(s, false) matches Some(x) ==> x >= 0,
{
    if s.len() > 0 && s[0] == '+' && digitos_validos(s.drop_first()) {
        lemma_valor_decimal_cresce(s.drop_first(), 0);
    } else if digitos_validos(s) {
        lemma_valor_decimal_cresce(s, 0);
    }
}

/// What `str::parse` reads from `v[de..ate]`, within `-lim_neg ..= lim_pos`
/// (a leading `-` only where `com_sinal`).
fn inteiro_do_trecho(v: &Vec<char>, de: usize, ate: usize, com_sinal: bool, lim_pos: u128, lim_neg: u128) -> (r: Option<i128>)
    requires
        de <= ate <= v.len(),
        lim_pos <= u64::MAX as u128,
        lim_neg <= u64::MAX as u128 + 1,
    ensures
        r == match inteiro_lido(v@.subrange(de as int, ate as int), com_sinal) {
            Some(x) => if -(lim_neg as int) <= x <= lim_pos as int { Some(x as i128) } else { None },
            None => None,
        },
{
    let ghost s = v@.subrange(de as int, ate as int);
    if de < ate && v[de] == '+' {
        proof { assert(v@.subrange(de + 1, ate as int) =~= s.drop_first()); }
        match magnitude(v, de + 1, ate, lim_pos) {
            Some(m) => Some(m as i128),
            None => None,
        }
    } else if de < ate && v[de] == '-' && com_sinal {
        proof { assert(v@.subrange(de + 1, ate as int) =~= s.drop_first()); }
        match magnitude(v, de + 1, ate, lim_neg) {
            Some(m) => Some(0i128 - (m as i128)),
            None => None,
        }
    } else {
        proof {
            if de < ate && v[de as int] == '-' {
                assert(!eh_digito(s[0]));
            }
        }
        match magnitude(v, de, ate, lim_pos) {
            Some(m) => Some(m as i128),
            None => None,
        }
    }
}

/// `v[de..ate].parse::<i64>()`, as an option.
pub fn ler_i64_trecho(v: &Vec<char>, de: usize, ate: usize) -> (r: Option<i64>)
    requires
        de <= ate <= v.len(),
    ensures
        r matches Some(x) ==> i64_lido(v@.subrange(de as int, ate as int)) == Some(x as int),
        r is None ==> i64_lido(v@.subrange(de as int, ate as int)) is None,
{
    match inteiro_do_trecho(v, de, ate, true, i64::MAX as u128, i64::MAX as u128 + 1) {
        Some(x) => Some(x as i64),
        None => None,
    }
}

/// `v[de..ate].parse::<u32>()`, as an option.
pub fn ler_u32_trecho(v: &Vec<char>, de: usize, ate: usize) -> (r: Option<u32>)
    requires
        de <= ate <= v.len(),
    ensures
        r matches Some(x) ==> u32_lido(v@.subrange(de as int, ate as int)) == Some(x as int),
        r is None ==> u32_lido(v@.subrange(de as int, ate as int)) is None,
{
    proof { lemma_lido_sem_sinal(v@.subrange(de as int, ate as int)); }
    match inteiro_do_trecho(v, de, ate, false, u32::MAX as u128, 0) {
        Some(x) => Some(x as u32),
        None => None,
    }
}

/// `v[de..ate].parse::<u64>()`, as an option.
pub fn ler_u64_trecho(v: &Vec<char>, de: usize, ate: usize) -> (r: Option<u64>)
    requires
        de <= ate <= v.len(),
    ensures
        r matches Some(x) ==> u64_lido(v@.subrange(de as int, ate as int)) == Some(x as int),
        r is None ==> u64_lido(v@.subrange(de as int, ate as int)) is None,
{
    proof { lemma_lido_sem_sinal(v@.subrange(de as int, ate as int)); }
    match inteiro_do_trecho(v, de, ate, false, u64::MAX as u128, 0) {
        Some(x) => Some(x as u64),
        None => None,
    }
}

/// `s.parse::<i64>()`, as an option.
pub fn ler_i64(s: &str) -> (r: Option<i64>)
    ensures
        r matches Some(x) ==> i64_lido(s@) == Some(x as int),
        r is None ==> i64_lido(s@) is None,
{
    let v = crate::texto::caracteres(s);
    proof { assert(v@.subrange(0, v@.len() as int) =~= s@); }
    ler_i64_trecho(&v, 0, v.len())
}

/// `str::parse::<u32>()` reads the decimal notation of `n` back as `n`.
pub proof fn lemma_u32_de_decimal(n: nat)
    requires
        n <= u32::MAX,
    ensures
        u32_lido(decimal(n)) == Some(n as int),
{
    lemma_decimal_valor(n);
    assert(eh_digito(decimal(n)[0]));
}

/// The digits of `n` read back give `n`.
pub proof fn lemma_decimal_valor(n: nat)
    ensures
        valor_decimal(decimal(n)) == n,
        digitos_validos(decimal(n)),
    decreases n,
{
    lemma_decimal_digitos(n);
    let d = (n % 10) as int;
    assert(valor_digito(digito_de(d)) == d);
    assert(valor_decimal(decimal(n)) == valor_decimal(decimal(n).drop_last()) * 10
        + valor_digito(decimal(n).last()));
    if n >= 10 {
        lemma_decimal_valor(n / 10);
        assert(decimal(n).drop_last() =~= decimal(n / 10));
        assert(decimal(n).last() == digito_de(d));
        assert(n == (n / 10) * 10 + n % 10);
    } else {
        assert(decimal(n).drop_last() =~= Seq::<char>::empty());
        assert(valor_decimal(Seq::<char>::empty()) == 0);
    }
}

} // verus!
