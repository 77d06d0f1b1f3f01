//! Calendar dates as the application writes them (`yyyy-mm-dd`), as it
//! reads them back, and as SQLite's date functions count them.

use vstd::prelude::*;
use vstd::arithmetic::div_mod::lemma_fundamental_div_mod_converse;
use crate::texto::{caracteres, empurrar, anexar};
use crate::numeros::{
    decimal, digitos_validos, inteiro_lido, lemma_decimal_valor, lemma_decimal_digitos, lemma_lido_sem_sinal,
    i64_lido, u32_lido, com_zeros, com_zeros_int, decimal_int, valor_decimal, ler_i64_trecho,
    ler_u32_trecho, escrever_inteiro_com_zeros, escrever_inteiro, escrever_com_zeros,
};
use crate::texto::{eh_digito, digito, aparado, limites_aparados, valor_digito, texto_menor, texto_menor_igual,
    lemma_texto_menor_pula, lemma_texto_menor_assimetrico};

verus! {

broadcast use vstd::seq_lib::group_seq_properties;

// ───────────────────────── splitting ─────────────────────────

/// `str::split` on any of the characters of `seps`: the pieces between the
/// separators, in order (`n` separators give `n + 1` pieces).
pub open spec fn separar(s: Seq<char>, seps: Seq<char>) -> Seq<Seq<char>>
    decreases s.len(),
{
    if s.len() == 0 {
        seq![Seq::<char>::empty()]
    } else {
        let p = separar(s.drop_last(), seps);
        if seps.contains(s.last()) {
            p.push(Seq::<char>::empty())
        } else {
            p.update(p.len() - 1, p.last().push(s.last()))
        }
    }
}

/// Text without separators, added at the end, extends the last piece.
pub proof fn lemma_separar_sem_separador(a: Seq<char>, b: Seq<char>, seps: Seq<char>)
    requires
        forall|i: int| 0 <= i < b.len() ==> !seps.contains(b[i]),
        separar(a, seps).len() >= 1,
    ensures
        separar(a + b, seps) == separar(a, seps).update(
            separar(a, seps).len() - 1,
            separar(a, seps).last() + b,
        ),
    decreases b.len(),
{
    if b.len() == 0 {
        assert(a + b =~= a);
        assert(separar(a, seps).last() + b =~= separar(a, seps).last());
        assert(separar(a, seps).update(separar(a, seps).len() - 1, separar(a, seps).last()) =~= separar(a, seps));
    } else {
        let b1 = b.drop_last();
        lemma_separar_sem_separador(a, b1, seps);
        assert((a + b).drop_last() =~= a + b1);
        assert((a + b).last() == b.last());
        let p = separar(a + b1, seps);
        assert(p.last() == separar(a, seps).last() + b1);
        assert(p.last().push(b.last()) =~= separar(a, seps).last() + b);
        assert(separar(a + b, seps) =~= separar(a, seps).update(
            separar(a, seps).len() - 1,
            separar(a, seps).last() + b,
        ));
    }
}

pub proof fn lemma_separar_nao_vazio(s: Seq<char>, seps: Seq<char>)
    ensures
        separar(s, seps).len() >= 1,
    decreases s.len(),
{
    if s.len() > 0 {
        lemma_separar_nao_vazio(s.drop_last(), seps);
    }
}

/// The views of a sequence of character vectors.
pub open spec fn visoes(v: Seq<Vec<char>>) -> Seq<Seq<char>> {
    v.map_values(|p: Vec<char>| p@)
}

/// Is `c` one of `seps`?
pub fn pertence(c: char, seps: &Vec<char>) -> (r: bool)
    ensures
        r == seps@.contains(c),
{
    let mut i: usize = 0;
    while i < seps.len()
        invariant
            i <= seps.len(),
            forall|k: int| 0 <= k < i ==> seps@[k] != c,
        decreases seps.len() - i,
    {
        if seps[i] == c {
            return true;
        }
        i = i + 1;
    }
    false
}

/// `s.split(seps)`, each piece as a character vector.
pub fn separar_texto(v: &Vec<char>, seps: &Vec<char>) -> (r: Vec<Vec<char>>)
    ensures
        visoes(r@) == separar(v@, seps@),
{
    let mut feitas: Vec<Vec<char>> = Vec::new();
    let mut atual: Vec<char> = Vec::new();
    let mut i: usize = 0;
    proof {
        assert(v@.take(0) =~= Seq::<char>::empty());
        assert(visoes(feitas@).push(atual@) =~= separar(v@.take(0), seps@));
    }
    while i < v.len()
        invariant
            i <= v.len(),
            visoes(feitas@).push(atual@) == separar(v@.take(i as int), seps@),
        decreases v.len() - i,
    {
        let c = v[i];
        proof {
            assert(v@.take(i + 1).drop_last() =~= v@.take(i as int));
            assert(v@.take(i + 1).last() == c);
        }
        if pertence(c, seps) {
            let ghost antes = visoes(feitas@);
            let ghost anterior = atual@;
            feitas.push(atual);
            atual = Vec::new();
            proof {
                assert(visoes(feitas@) =~= antes.push(anterior));
                assert(visoes(feitas@).push(atual@) =~= separar(v@.take(i + 1), seps@));
            }
        } else {
            atual.push(c);
            proof {
                assert(visoes(feitas@).push(atual@) =~= separar(v@.take(i + 1), seps@));
            }
        }
        i = i + 1;
    }
    let ghost antes = visoes(feitas@);
    let ghost ultima = atual@;
    feitas.push(atual);
    proof {
        assert(visoes(feitas@) =~= antes.push(ultima));
        assert(v@.take(v.len() as int) =~= v@);
    }
    feitas
}

// ───────────────────────── the calendar ─────────────────────────

/// Gregorian leap year.
pub open spec fn bissexto(ano: int) -> bool {
    (ano % 4 == 0 && ano % 100 != 0) || ano % 400 == 0
}

/// Days in a month (`30` for a number that is not a month).
pub open spec fn dias_no_mes(ano: int, mes: int) -> int {
    if mes == 1 || mes == 3 || mes == 5 || mes == 7 || mes == 8 || mes == 10 || mes == 12 {
        31
    } else if mes == 4 || mes == 6 || mes == 9 || mes == 11 {
        30
    } else if mes == 2 {
        if bissexto(ano) {
            29
        } else {
            28
        }
    } else {
        30
    }
}

#[verifier::spinoff_prover]
#[verifier::rlimit(30)]
pub fn dias_do_mes(ano: i64, mes: i64) -> (r: i64)
    ensures
        r == dias_no_mes(ano as int, mes as int),
{
    if mes == 1 || mes == 3 || mes == 5 || mes == 7 || mes == 8 || mes == 10 || mes == 12 {
        31
    } else if mes == 4 || mes == 6 || mes == 9 || mes == 11 {
        30
    } else if mes == 2 {
        if (ano % 4 == 0 && ano % 100 != 0) || ano % 400 == 0 {
            29
        } else {
            28
        }
    } else {
        30
    }
}

// ───────────────────────── the application's own reading ─────────────────────────

/// `(ano, mes, dia)` of a text `ano-mes-dia` that names a real date, each
/// part read by `str::parse::<i64>`; `None` otherwise.
pub open spec fn data_iso(s: Seq<char>) -> Option<(int, int, int)> {
    let p = separar(s, seq!['-']);
    if p.len() != 3 {
        None
    } else {
        match (i64_lido(p[0]), i64_lido(p[1]), i64_lido(p[2])) {
            (Some(a), Some(m), Some(d)) => if 1 <= m <= 12 && 1 <= d <= dias_no_mes(a, m) {
                Some((a, m, d))
            } else {
                None
            },
            _ => None,
        }
    }
}

/// `"yyyy-mm-dd"` → `(ano, mês, dia)`, `None` if the text is not a real date.
pub fn parse_iso(iso: &str) -> (r: Option<(i64, i64, i64)>)
    ensures
        match r {
            Some((a, m, d)) => data_iso(iso@) == Some((a as int, m as int, d as int)),
            None => data_iso(iso@) is None,
        },
{
    let v = caracteres(iso);
    let seps = vec!['-'];
    let partes = separar_texto(&v, &seps);
    proof {
        assert(seps@ =~= seq!['-']);
    }
    if partes.len() != 3 {
        return None;
    }
    proof {
        assert(visoes(partes@)[0] == partes@[0]@);
        assert(visoes(partes@)[1] == partes@[1]@);
        assert(visoes(partes@)[2] == partes@[2]@);
        assert(partes@[0]@.subrange(0, partes@[0]@.len() as int) =~= partes@[0]@);
        assert(partes@[1]@.subrange(0, partes@[1]@.len() as int) =~= partes@[1]@);
        assert(partes@[2]@.subrange(0, partes@[2]@.len() as int) =~= partes@[2]@);
    }
    let ano = match ler_i64_trecho(&partes[0], 0, partes[0].len()) {
        Some(x) => x,
        None => return None,
    };
    let mes = match ler_i64_trecho(&partes[1], 0, partes[1].len()) {
        Some(x) => x,
        None => return None,
    };
    let dia = match ler_i64_trecho(&partes[2], 0, partes[2].len()) {
        Some(x) => x,
        None => return None,
    };
    if !(1 <= mes && mes <= 12) || dia < 1 || dia > dias_do_mes(ano, mes) {
        return None;
    }
    Some((ano, mes, dia))
}

/// Is the text a real date `ano-mes-dia`?
pub fn data_valida(iso: &str) -> (r: bool)
    ensures
        r == data_iso(iso@) is Some,
{
    parse_iso(iso).is_some()
}

/// `{ano:04}-{mes:02}-{dia:02}`.
pub open spec fn formatar_iso(a: int, m: int, d: int) -> Seq<char> {
    com_zeros_int(a, 4) + seq!['-'] + com_zeros_int(m, 2) + seq!['-'] + com_zeros_int(d, 2)
}

pub fn escrever_iso(a: i64, m: i64, d: i64) -> (r: String)
    ensures
        r@ == formatar_iso(a as int, m as int, d as int),
{
    let mut r = String::new();
    escrever_inteiro_com_zeros(&mut r, a, 4);
    empurrar(&mut r, '-');
    escrever_inteiro_com_zeros(&mut r, m, 2);
    empurrar(&mut r, '-');
    escrever_inteiro_com_zeros(&mut r, d, 2);
    assert(r@ =~= formatar_iso(a as int, m as int, d as int));
    r
}

/// The date `meses` months after `s`, the day held to the end of the month
/// (31/01 + 1 month = 28/02 or 29/02); a text that is not a date stays as it is.
pub open spec fn mais_meses(s: Seq<char>, meses: int) -> Seq<char> {
    match data_iso(s) {
        None => s,
        Some((a, m, d)) => {
            let total = a * 12 + (m - 1) + meses;
            let an = total / 12;
            let mn = total % 12 + 1;
            formatar_iso(an, mn, if d < dias_no_mes(an, mn) { d } else { dias_no_mes(an, mn) })
        },
    }
}

/// The arithmetic of `adicionar_meses` stays within `i64` for this input.
pub open spec fn meses_cabem(s: Seq<char>, meses: int) -> bool {
    match data_iso(s) {
        None => true,
        Some((a, m, _d)) => {
            &&& i64::MIN <= a * 12 <= i64::MAX
            &&& i64::MIN <= a * 12 + (m - 1) <= i64::MAX
            &&& i64::MIN <= a * 12 + (m - 1) + meses <= i64::MAX
        },
    }
}

/// Adds months to an ISO date (`yyyy-mm-dd`), holding the day to the end of
/// the month when needed (31/01 + 1 month = 28/02).
pub fn adicionar_meses(iso: &str, meses: i64) -> (r: String)
    requires
        meses_cabem(iso@, meses as int),
    ensures
        r@ == mais_meses(iso@, meses as int),
{
    let (ano, mes, dia) = match parse_iso(iso) {
        Some(v) => v,
        None => return crate::texto::copia(iso),
    };
    let total = ano * 12 + (mes - 1) + meses;
    let (ano_novo, resto) = if total >= 0 {
        (total / 12, total % 12)
    } else {
        let u = 0 - (total + 1);
        (0 - (u / 12) - 1, 11 - u % 12)
    };
    proof {
        if total >= 0 {
            lemma_fundamental_div_mod_converse(total as int, 12, ano_novo as int, resto as int);
        } else {
            assert(0 <= resto < 12 && total == ano_novo * 12 + resto) by (nonlinear_arith)
                requires
                    total < 0,
                    ano_novo == 0 - ((0 - (total + 1)) / 12) - 1,
                    resto == 11 - (0 - (total + 1)) % 12,
            ;
            lemma_fundamental_div_mod_converse(total as int, 12, ano_novo as int, resto as int);
        }
    }
    let mes_novo = resto + 1;
    let dia_maximo = dias_do_mes(ano_novo, mes_novo);
    let dia_final = if dia < dia_maximo { dia } else { dia_maximo };
    escrever_iso(ano_novo, mes_novo, dia_final)
}

/// `dd/mm/aaaa` of a date, for display; a text that is not a date stays as it is.
pub open spec fn em_data_br(s: Seq<char>) -> Seq<char> {
    match data_iso(s) {
        Some((a, m, d)) => com_zeros_int(d, 2) + seq!['/'] + com_zeros_int(m, 2) + seq!['/']
            + decimal_int(a),
        None => s,
    }
}

/// "yyyy-mm-dd" → "dd/mm/aaaa" (display).
pub fn data_br(iso: &str) -> (r: String)
    ensures
        r@ == em_data_br(iso@),
{
    match parse_iso(iso) {
        Some((ano, mes, dia)) => {
            let mut r = String::new();
            escrever_inteiro_com_zeros(&mut r, dia, 2);
            empurrar(&mut r, '/');
            escrever_inteiro_com_zeros(&mut r, mes, 2);
            empurrar(&mut r, '/');
            escrever_inteiro(&mut r, ano);
            assert(r@ =~= em_data_br(iso@));
            r
        },
        None => crate::texto::copia(iso),
    }
}

// ───────────────────────── day numbers ─────────────────────────

/// Days from 1970-01-01 to the civil date `(y, m, d)` of the proleptic
/// Gregorian calendar (Howard Hinnant's `days_from_civil`; a day past the end
/// of the month counts on into the next one, as SQLite counts it).
pub open spec fn dias_civis(y: int, m: int, d: int) -> int {
    let a = if m <= 2 { y - 1 } else { y };
    let era = a / 400;
    let yoe = a - era * 400;
    let mp = if m > 2 { m - 3 } else { m + 9 };
    let doy = (153 * mp + 2) / 5 + d - 1;
    let doe = yoe * 365 + yoe / 4 - yoe / 100 + doy;
    era * 146097 + doe - 719468
}

/// Days since 1970-01-01 of a civil date (Howard Hinnant's algorithm,
/// with floor division for the years before 0). The years are bounded only
/// by 64-bit arithmetic: the day count of a year past 10^16 no longer fits.
pub fn dias_desde_civil(ano: i64, mes: i64, dia: i64) -> (r: i64)
    requires
        -10_000_000_000_000_000 <= ano <= 10_000_000_000_000_000,
        1 <= mes <= 12,
        1 <= dia <= 31,
    ensures
        r == dias_civis(ano as int, mes as int, dia as int),
{
    let a = if mes <= 2 { ano - 1 } else { ano };
    let era = if a >= 0 { a / 400 } else { -((399 - a) / 400) };
    proof {
        if a < 0 {
            let q = (399 - a) / 400;
            assert(q * 400 <= 399 - a < q * 400 + 400) by (nonlinear_arith)
                requires q == (399 - a) / 400, 399 - a >= 0;
            assert(-q == a / 400) by (nonlinear_arith)
                requires q * 400 <= 399 - a < q * 400 + 400, a < 0;
        }
        assert(-25_000_000_000_001 <= era <= 25_000_000_000_000) by (nonlinear_arith)
            requires
                -10_000_000_000_000_001 <= a <= 10_000_000_000_000_000,
                era == a / 400,
        ;
        assert(0 <= a - era * 400 < 400) by (nonlinear_arith)
            requires
                era == a / 400,
        ;
    }
    let yoe = a - era * 400;
    let mp = if mes > 2 { mes - 3 } else { mes + 9 };
    let doy = (153 * mp + 2) / 5 + dia - 1;
    let doe = yoe * 365 + yoe / 4 - yoe / 100 + doy;
    era * 146097 + doe - 719468
}

/// The civil date `(y, m, d)` that is `dias` days from 1970-01-01 (Howard
/// Hinnant's `civil_from_days`), `None` if the month or day come out of range.
pub open spec fn civil_de_dias(dias: int) -> Option<(int, int, int)> {
    let z = dias + 719468;
    let era = z / 146097;
    let doe = z - era * 146097;
    let yoe = (doe - doe / 1460 + doe / 36524 - doe / 146096) / 365;
    let y = yoe + era * 400;
    let doy = doe - (365 * yoe + yoe / 4 - yoe / 100);
    let mp = (5 * doy + 2) / 153;
    let d = doy - (153 * mp + 2) / 5 + 1;
    let m = mp + if mp < 10 { 3int } else { -9int };
    let y2 = if m <= 2 { y + 1 } else { y };
    if !(1 <= m <= 12) || d < 1 || d > 31 {
        None
    } else {
        Some((y2, m, d))
    }
}

/// Converts days since 1970-01-01 into a civil date `(ano, mes, dia)`
/// (with floor division for the days before year 0). The day count is
/// bounded only by 64-bit arithmetic (`dias + 719468` must fit).
pub fn civil_desde_dias(dias: i64) -> (r: Option<(i64, i64, i64)>)
    requires
        -1_000_000_000_000_000_000 <= dias <= 1_000_000_000_000_000_000,
    ensures
        match r {
            Some((a, m, d)) => civil_de_dias(dias as int) == Some((a as int, m as int, d as int)),
            None => civil_de_dias(dias as int) is None,
        },
{
    let z = dias + 719468;
    let era = if z >= 0 { z / 146097 } else { -((146096 - z) / 146097) };
    proof {
        if z < 0 {
            let q = (146096 - z) / 146097;
            assert(q * 146097 <= 146096 - z < q * 146097 + 146097) by (nonlinear_arith)
                requires q == (146096 - z) / 146097, 146096 - z >= 0;
            assert(-q == z / 146097) by (nonlinear_arith)
                requires q * 146097 <= 146096 - z < q * 146097 + 146097, z < 0;
        }
        assert(0 <= z - era * 146097 < 146097) by (nonlinear_arith)
            requires
                era == z / 146097,
        ;
        assert(-7_000_000_000_000 <= era <= 7_000_000_000_000) by (nonlinear_arith)
            requires
                -1_000_000_000_000_000_000 <= z <= 1_000_000_000_000_719_468,
                era == z / 146097,
        ;
    }
    let doe = z - era * 146097;
    let yoe = (doe - doe / 1460 + doe / 36524 - doe / 146096) / 365;
    let mut ano = yoe + era * 400;
    let doy = doe - (365 * yoe + yoe / 4 - yoe / 100);
    proof {
        assert(0 <= yoe <= 400) by (nonlinear_arith)
            requires
                0 <= doe < 146097,
                yoe == (doe - doe / 1460 + doe / 36524 - doe / 146096) / 365,
        ;
        assert(0 <= yoe / 4 <= 100);
        assert(0 <= yoe / 100 <= 4);
        assert(-150000 <= doy <= 150000);
    }
    let mes_ajustado = if doy >= 0 { (5 * doy + 2) / 153 } else { -1 };
    if doy < 0 {
        // The algorithm never yields a negative day of the year; the check
        // below keeps the arithmetic defined without relying on it.
        proof {
            assert(false) by (nonlinear_arith)
                requires
                    0 <= doe < 146097,
                    yoe == (doe - doe / 1460 + doe / 36524 - doe / 146096) / 365,
                    doy == doe - (365 * yoe + yoe / 4 - yoe / 100),
                    doy < 0,
            ;
        }
        return None;
    }
    let dia = doy - (153 * mes_ajustado + 2) / 5 + 1;
    let mes = mes_ajustado + if mes_ajustado < 10 { 3 } else { -9 };
    if mes <= 2 {
        ano = ano + 1;
    }
    if !(1 <= mes && mes <= 12) || dia < 1 || dia > 31 {
        return None;
    }
    Some((ano, mes, dia))
}

// ───────────────────────── day numbers read back ─────────────────────────

/// Length of the month at position `mp` of a year that starts in March
/// (position 11 is February, counted with 29 days).
pub open spec fn dias_do_mes_de_marco(mp: int) -> int {
    if mp == 11 { 29 } else if mp == 1 || mp == 3 || mp == 6 || mp == 8 { 30 } else { 31 }
}

/// The day of the year (from March) of a month and day gives them back.
proof fn lemma_mes_volta(mp: int, d: int)
    requires
        0 <= mp < 12,
        1 <= d <= dias_do_mes_de_marco(mp),
    ensures
        ({
            let doy = (153 * mp + 2) / 5 + d - 1;
            &&& (5 * doy + 2) / 153 == mp
            &&& doy - (153 * mp + 2) / 5 + 1 == d
            &&& 0 <= doy <= 365
            &&& (doy == 365 ==> mp == 11 && d == 29)
        }),
{
    let doy = (153 * mp + 2) / 5 + d - 1;
    if mp == 0 {
        assert((5 * doy + 2) / 153 == 0) by (nonlinear_arith) requires doy == d - 1, 1 <= d <= 31;
    } else if mp == 1 {
        assert((5 * doy + 2) / 153 == 1) by (nonlinear_arith) requires doy == 30 + d, 1 <= d <= 30;
    } else if mp == 2 {
        assert((5 * doy + 2) / 153 == 2) by (nonlinear_arith) requires doy == 60 + d, 1 <= d <= 31;
    } else if mp == 3 {
        assert((5 * doy + 2) / 153 == 3) by (nonlinear_arith) requires doy == 91 + d, 1 <= d <= 30;
    } else if mp == 4 {
        assert((5 * doy + 2) / 153 == 4) by (nonlinear_arith) requires doy == 121 + d, 1 <= d <= 31;
    } else if mp == 5 {
        assert((5 * doy + 2) / 153 == 5) by (nonlinear_arith) requires doy == 152 + d, 1 <= d <= 31;
    } else if mp == 6 {
        assert((5 * doy + 2) / 153 == 6) by (nonlinear_arith) requires doy == 183 + d, 1 <= d <= 30;
    } else if mp == 7 {
        assert((5 * doy + 2) / 153 == 7) by (nonlinear_arith) requires doy == 213 + d, 1 <= d <= 31;
    } else if mp == 8 {
        assert((5 * doy + 2) / 153 == 8) by (nonlinear_arith) requires doy == 244 + d, 1 <= d <= 30;
    } else if mp == 9 {
        assert((5 * doy + 2) / 153 == 9) by (nonlinear_arith) requires doy == 274 + d, 1 <= d <= 31;
    } else if mp == 10 {
        assert((5 * doy + 2) / 153 == 10) by (nonlinear_arith) requires doy == 305 + d, 1 <= d <= 31;
    } else {
        assert((5 * doy + 2) / 153 == 11) by (nonlinear_arith) requires doy == 336 + d, 1 <= d <= 29;
    }
}

/// Within a 400-year era, the day of the era of a year's day gives the
/// year back (Hinnant's `yoe` formula).
proof fn lemma_ano_volta(yoe: int, doy: int)
    requires
        0 <= yoe < 400,
        0 <= doy <= 365,
        doy == 365 ==> ((yoe + 1) % 4 == 0 && ((yoe + 1) % 100 != 0 || yoe == 399)),
    ensures
        ({
            let doe = yoe * 365 + yoe / 4 - yoe / 100 + doy;
            &&& 0 <= doe < 146097
            &&& (doe - doe / 1460 + doe / 36524 - doe / 146096) / 365 == yoe
        }),
{
    let c = yoe / 100;
    let q = (yoe % 100) / 4;
    let r = yoe % 4;
    assert(yoe == 100 * c + 4 * q + r && 0 <= c <= 3 && 0 <= q <= 24 && 0 <= r <= 3) by (nonlinear_arith)
        requires 0 <= yoe < 400, c == yoe / 100, q == (yoe % 100) / 4, r == yoe % 4;
    assert(yoe / 4 == 25 * c + q && yoe / 100 == c) by (nonlinear_arith)
        requires yoe == 100 * c + 4 * q + r, 0 <= r <= 3, 0 <= q <= 24, 0 <= c <= 3;
    assert(doy == 365 ==> r == 3 && (q < 24 || c == 3)) by (nonlinear_arith)
        requires
            yoe == 100 * c + 4 * q + r, 0 <= r <= 3, 0 <= q <= 24, 0 <= c <= 3,
            doy == 365 ==> ((yoe + 1) % 4 == 0 && ((yoe + 1) % 100 != 0 || yoe == 399));
    let doe = yoe * 365 + yoe / 4 - yoe / 100 + doy;
    let t = 1461 * q + 365 * r + doy;
    assert(doe == 36524 * c + t);
    assert(t <= 36524 && (t == 36524 ==> c == 3));
    let s2 = 24 * c + q + 365 * r + doy;
    let e: int = if s2 >= 1460 { 1 } else { 0 };
    assert(0 <= s2 < 2920);
    assert(doe / 1460 == 25 * c + q + e) by (nonlinear_arith)
        requires doe == 1460 * (25 * c + q) + s2, 0 <= s2 < 2920, e == if s2 >= 1460 { 1int } else { 0int };
    let big: int = if t == 36524 { 1 } else { 0 };
    assert(doe / 36524 == c + big) by (nonlinear_arith)
        requires doe == 36524 * c + t, 0 <= t <= 36524, big == if t == 36524 { 1int } else { 0int };
    assert(doe / 146096 == big) by (nonlinear_arith)
        requires doe == 36524 * c + t, 0 <= t <= 36524, 0 <= c <= 3, (t == 36524 ==> c == 3),
            big == if t == 36524 { 1int } else { 0int };
    assert(e == 1 ==> doy >= 1);
    assert(doy == 365 ==> e == 1);
    let g = doe - doe / 1460 + doe / 36524 - doe / 146096;
    assert(g == 365 * yoe + (doy - e));
    assert(g / 365 == yoe) by (nonlinear_arith)
        requires g == 365 * yoe + (doy - e), 0 <= doy - e <= 364;
}

/// Days since 1970-01-01 read back give the date: `civil_de_dias` undoes
/// `dias_civis` for every real date of the proleptic Gregorian calendar.
pub proof fn lei_dias_civis_ida_e_volta(y: int, m: int, d: int)
    requires
        1 <= m <= 12,
        1 <= d <= dias_no_mes(y, m),
    ensures
        civil_de_dias(dias_civis(y, m, d)) == Some((y, m, d)),
        dias_civis(1970, 1, 1) == 0,
{
    let a = if m <= 2 { y - 1 } else { y };
    let era = a / 400;
    let yoe = a - era * 400;
    assert(0 <= yoe < 400) by (nonlinear_arith) requires era == a / 400, yoe == a - era * 400;
    let mp = if m > 2 { m - 3 } else { m + 9 };
    assert(d <= dias_do_mes_de_marco(mp));
    lemma_mes_volta(mp, d);
    let doy = (153 * mp + 2) / 5 + d - 1;
    if doy == 365 {
        assert(m == 2 && d == 29);
        assert(bissexto(y));
        assert(y == era * 400 + yoe + 1);
        assert((yoe + 1) % 4 == 0 && ((yoe + 1) % 100 != 0 || yoe == 399)) by (nonlinear_arith)
            requires
                y == era * 400 + yoe + 1, 0 <= yoe < 400,
                (y % 4 == 0 && y % 100 != 0) || y % 400 == 0;
    }
    lemma_ano_volta(yoe, doy);
    let doe = yoe * 365 + yoe / 4 - yoe / 100 + doy;
    let z = dias_civis(y, m, d) + 719468;
    assert(z == era * 146097 + doe);
    lemma_fundamental_div_mod_converse(z, 146097, era, doe);
    assert(z / 146097 == era);
}

// ───────────────────────── the calendar's order ─────────────────────────

/// `(y1, m1, d1)` is on or before `(y2, m2, d2)` in the calendar: an earlier
/// year, or the same year and an earlier month, or the same month and a day
/// not later.
pub open spec fn data_ate(y1: int, m1: int, d1: int, y2: int, m2: int, d2: int) -> bool {
    ||| y1 < y2
    ||| y1 == y2 && m1 < m2
    ||| y1 == y2 && m1 == m2 && d1 <= d2
}

/// A real date of the proleptic Gregorian calendar.
pub open spec fn data_real(y: int, m: int, d: int) -> bool {
    1 <= m <= 12 && 1 <= d <= dias_no_mes(y, m)
}

/// Each day of a month counts one more than the day before.
proof fn lemma_dia_do_mes(y: int, m: int, d: int)
    ensures
        dias_civis(y, m, d) == dias_civis(y, m, 1) + d - 1,
{
}

/// Hinnant's count of the days from the start of the 400-year era of `a`
/// (a year from March) up to the start of that year, plus the era's days.
spec fn dias_ate_o_ano(a: int) -> int {
    let era = a / 400;
    let yoe = a - era * 400;
    era * 146097 + yoe * 365 + yoe / 4 - yoe / 100
}

/// A year (from March of `b` to March of `b + 1`) has 365 days, 366 when
/// February of `b + 1` has 29.
proof fn lemma_comprimento_do_ano(b: int)
    ensures
        dias_ate_o_ano(b + 1) == dias_ate_o_ano(b) + if bissexto(b + 1) { 366int } else { 365int },
{
    let e = b / 400;
    let yo = b - e * 400;
    assert(0 <= yo < 400) by (nonlinear_arith) requires e == b / 400, yo == b - e * 400;
    if yo == 399 {
        lemma_fundamental_div_mod_converse(b + 1, 400, e + 1, 0);
        assert((b + 1) % 400 == 0);
        assert(399int / 4 == 99 && 399int / 100 == 3);
    } else {
        lemma_fundamental_div_mod_converse(b + 1, 400, e, yo + 1);
        let q4 = yo / 4;
        let r4 = yo - q4 * 4;
        assert(0 <= r4 < 4) by (nonlinear_arith) requires q4 == yo / 4, r4 == yo - q4 * 4;
        let q100 = yo / 100;
        let r100 = yo - q100 * 100;
        assert(0 <= r100 < 100) by (nonlinear_arith) requires q100 == yo / 100, r100 == yo - q100 * 100;
        if r4 == 3 {
            lemma_fundamental_div_mod_converse(yo + 1, 4, q4 + 1, 0);
            lemma_fundamental_div_mod_converse(b + 1, 4, 100 * e + q4 + 1, 0);
        } else {
            lemma_fundamental_div_mod_converse(yo + 1, 4, q4, r4 + 1);
            lemma_fundamental_div_mod_converse(b + 1, 4, 100 * e + q4, r4 + 1);
        }
        if r100 == 99 {
            lemma_fundamental_div_mod_converse(yo + 1, 100, q100 + 1, 0);
            lemma_fundamental_div_mod_converse(b + 1, 100, 4 * e + q100 + 1, 0);
        } else {
            lemma_fundamental_div_mod_converse(yo + 1, 100, q100, r100 + 1);
            lemma_fundamental_div_mod_converse(b + 1, 100, 4 * e + q100, r100 + 1);
        }
        assert(r100 == 99 ==> r4 == 3) by (nonlinear_arith)
            requires yo == q4 * 4 + r4, yo == q100 * 100 + r100, 0 <= r4 < 4, 0 <= r100 < 100;
    }
}

/// The first of the next month comes as many days after the first of a
/// month as the month has.
proof fn lemma_mes_seguinte(y: int, m: int)
    requires
        1 <= m <= 11,
    ensures
        dias_civis(y, m + 1, 1) == dias_civis(y, m, 1) + dias_no_mes(y, m),
{
    if m == 2 {
        lemma_comprimento_do_ano(y - 1);
        assert(dias_civis(y, 3, 1) == dias_ate_o_ano(y) - 719468);
        assert(dias_civis(y, 2, 1) == dias_ate_o_ano(y - 1) + 337 - 719468);
    } else if m == 1 {
        assert((153int * 10 + 2) / 5 == 306 && (153int * 11 + 2) / 5 == 337);
    } else if m == 3 {
        assert((153int * 0 + 2) / 5 == 0 && (153int * 1 + 2) / 5 == 31);
    } else if m == 4 {
        assert((153int * 1 + 2) / 5 == 31 && (153int * 2 + 2) / 5 == 61);
    } else if m == 5 {
        assert((153int * 2 + 2) / 5 == 61 && (153int * 3 + 2) / 5 == 92);
    } else if m == 6 {
        assert((153int * 3 + 2) / 5 == 92 && (153int * 4 + 2) / 5 == 122);
    } else if m == 7 {
        assert((153int * 4 + 2) / 5 == 122 && (153int * 5 + 2) / 5 == 153);
    } else if m == 8 {
        assert((153int * 5 + 2) / 5 == 153 && (153int * 6 + 2) / 5 == 184);
    } else if m == 9 {
        assert((153int * 6 + 2) / 5 == 184 && (153int * 7 + 2) / 5 == 214);
    } else if m == 10 {
        assert((153int * 7 + 2) / 5 == 214 && (153int * 8 + 2) / 5 == 245);
    } else {
        assert((153int * 8 + 2) / 5 == 245 && (153int * 9 + 2) / 5 == 275);
    }
}

/// The first of January comes 31 days after the first of December before.
proof fn lemma_ano_seguinte(y: int)
    ensures
        dias_civis(y + 1, 1, 1) == dias_civis(y, 12, 1) + 31,
{
    assert((153int * 9 + 2) / 5 == 275 && (153int * 10 + 2) / 5 == 306);
}

/// A later month of the same year starts after the whole of an earlier one.
proof fn lemma_meses_em_ordem(y: int, m1: int, m2: int)
    requires
        1 <= m1 < m2 <= 12,
    ensures
        dias_civis(y, m1, 1) + dias_no_mes(y, m1) <= dias_civis(y, m2, 1),
    decreases m2 - m1,
{
    lemma_mes_seguinte(y, m2 - 1);
    if m2 - 1 > m1 {
        lemma_meses_em_ordem(y, m1, m2 - 1);
    }
}

/// A later year starts after the whole December of an earlier one.
proof fn lemma_anos_em_ordem(y1: int, y2: int)
    requires
        y1 < y2,
    ensures
        dias_civis(y1, 12, 1) + 31 <= dias_civis(y2, 1, 1),
    decreases y2 - y1,
{
    lemma_ano_seguinte(y2 - 1);
    if y2 - 1 > y1 {
        lemma_anos_em_ordem(y1, y2 - 1);
        lemma_meses_em_ordem(y2 - 1, 1, 12);
    }
}

/// Of two real dates, the one earlier in the calendar has the smaller day
/// count.
proof fn lemma_antes_conta_menos(y1: int, m1: int, d1: int, y2: int, m2: int, d2: int)
    requires
        data_real(y1, m1, d1),
        data_real(y2, m2, d2),
        data_ate(y1, m1, d1, y2, m2, d2),
        (y1, m1, d1) != (y2, m2, d2),
    ensures
        dias_civis(y1, m1, d1) < dias_civis(y2, m2, d2),
{
    lemma_dia_do_mes(y1, m1, d1);
    lemma_dia_do_mes(y2, m2, d2);
    if y1 < y2 {
        if m1 < 12 {
            lemma_meses_em_ordem(y1, m1, 12);
        }
        lemma_anos_em_ordem(y1, y2);
        if m2 > 1 {
            lemma_meses_em_ordem(y2, 1, m2);
        }
    } else if m1 < m2 {
        lemma_meses_em_ordem(y1, m1, m2);
    }
}

/// The calendar order of real dates is the order of their day counts.
pub proof fn lei_ordem_das_datas(y1: int, m1: int, d1: int, y2: int, m2: int, d2: int)
    requires
        data_real(y1, m1, d1),
        data_real(y2, m2, d2),
    ensures
        data_ate(y1, m1, d1, y2, m2, d2) <==> dias_civis(y1, m1, d1) <= dias_civis(y2, m2, d2),
{
    if (y1, m1, d1) != (y2, m2, d2) {
        if data_ate(y1, m1, d1, y2, m2, d2) {
            lemma_antes_conta_menos(y1, m1, d1, y2, m2, d2);
        } else {
            lemma_antes_conta_menos(y2, m2, d2, y1, m1, d1);
        }
    }
}

/// The 29th of February of a common year counts as the 1st of March.
pub proof fn lemma_29_de_fevereiro(y: int)
    requires
        !bissexto(y),
    ensures
        dias_civis(y, 2, 29) == dias_civis(y, 3, 1),
{
    lemma_dia_do_mes(y, 2, 29);
    lemma_mes_seguinte(y, 2);
}

// ───────────────────────── SQLite's reading ─────────────────────────

/// `(ano, mes, dia)` of a text `AAAA-MM-DD` (ten characters, month 01 to 12,
/// day 01 to 31): the dates this application stores, as SQLite's date
/// functions read them; `None` where they would give NULL.
pub open spec fn data_sqlite(s: Seq<char>) -> Option<(int, int, int)> {
    if s.len() == 10 && s[4] == '-' && s[7] == '-' && (forall|k: int|
        0 <= k < 10 && k != 4 && k != 7 ==> eh_digito(#[trigger] s[k])) {
        let a = valor_decimal(s.subrange(0, 4));
        let m = valor_decimal(s.subrange(5, 7));
        let d = valor_decimal(s.subrange(8, 10));
        if 1 <= m <= 12 && 1 <= d <= 31 {
            Some((a, m, d))
        } else {
            None
        }
    } else {
        None
    }
}

/// `julianday(s)` as a day count from 1970-01-01 (`None` for NULL).
pub open spec fn dia_sqlite(s: Seq<char>) -> Option<int> {
    match data_sqlite(s) {
        Some((a, m, d)) => Some(dias_civis(a, m, d)),
        None => None,
    }
}

proof fn lemma_valor_quatro(s: Seq<char>)
    requires
        s.len() == 4,
        forall|k: int| 0 <= k < 4 ==> eh_digito(#[trigger] s[k]),
    ensures
        0 <= crate::numeros::valor_decimal(s) <= 9999,
{
    reveal_with_fuel(crate::numeros::valor_decimal, 5);
    let s3 = s.drop_last();
    let s2 = s3.drop_last();
    let s1 = s2.drop_last();
    assert(s1.drop_last() =~= Seq::<char>::empty());
    assert(s1[0] == s[0]);
    assert(s2[1] == s[1]);
    assert(s3[2] == s[2]);
}

proof fn lemma_valor_dois(s: Seq<char>)
    requires
        s.len() == 2,
        forall|k: int| 0 <= k < 2 ==> eh_digito(#[trigger] s[k]),
    ensures
        0 <= crate::numeros::valor_decimal(s) <= 99,
{
    reveal_with_fuel(crate::numeros::valor_decimal, 3);
    let s1 = s.drop_last();
    assert(s1.drop_last() =~= Seq::<char>::empty());
    assert(s1[0] == s[0]);
}

/// Reads a date the way SQLite's date functions do (see `data_sqlite`).
pub fn ler_data_sqlite(s: &str) -> (r: Option<(i64, i64, i64)>)
    ensures
        match r {
            Some((a, m, d)) => data_sqlite(s@) == Some((a as int, m as int, d as int)),
            None => data_sqlite(s@) is None,
        },
{
    let v = caracteres(s);
    if v.len() != 10 || v[4] != '-' || v[7] != '-' {
        return None;
    }
    let mut k: usize = 0;
    while k < 10
        invariant
            v@ == s@,
            v.len() == 10,
            k <= 10,
            forall|j: int| 0 <= j < k && j != 4 && j != 7 ==> eh_digito(#[trigger] v@[j]),
        decreases 10 - k,
    {
        if k != 4 && k != 7 && !digito(v[k]) {
            return None;
        }
        k = k + 1;
    }
    proof {
        assert forall|j: int| 0 <= j < 4 implies eh_digito(#[trigger] v@.subrange(0, 4)[j]) by {
            assert(v@.subrange(0, 4)[j] == v@[j]);
        }
        assert forall|j: int| 0 <= j < 2 implies eh_digito(#[trigger] v@.subrange(5, 7)[j]) by {
            assert(v@.subrange(5, 7)[j] == v@[j + 5]);
        }
        assert forall|j: int| 0 <= j < 2 implies eh_digito(#[trigger] v@.subrange(8, 10)[j]) by {
            assert(v@.subrange(8, 10)[j] == v@[j + 8]);
        }
        lemma_valor_quatro(v@.subrange(0, 4));
        lemma_valor_dois(v@.subrange(5, 7));
        lemma_valor_dois(v@.subrange(8, 10));
        assert(v@.subrange(0, 4).subrange(0, 4) =~= v@.subrange(0, 4));
        assert(v@.subrange(5, 7).subrange(0, 2) =~= v@.subrange(5, 7));
        assert(v@.subrange(8, 10).subrange(0, 2) =~= v@.subrange(8, 10));
    }
    let a = match ler_u32_trecho(&v, 0, 4) { Some(x) => x as i64, None => return None };
    let m = match ler_u32_trecho(&v, 5, 7) { Some(x) => x as i64, None => return None };
    let d = match ler_u32_trecho(&v, 8, 10) { Some(x) => x as i64, None => return None };
    if !(1 <= m && m <= 12) || d < 1 || d > 31 {
        return None;
    }
    Some((a, m, d))
}

/// `julianday(s)` as a day count from 1970-01-01.
pub fn dia_da_data(s: &str) -> (r: Option<i64>)
    ensures
        match r {
            Some(n) => dia_sqlite(s@) == Some(n as int),
            None => dia_sqlite(s@) is None,
        },
{
    match ler_data_sqlite(s) {
        Some((a, m, d)) => {
            proof {
                lemma_valor_quatro(s@.subrange(0, 4));
            }
            Some(dias_desde_civil(a, m, d))
        },
        None => None,
    }
}

pub proof fn lemma_limites_dias_civis(y: int, m: int, d: int)
    requires
        -1 <= y <= 9999,
        1 <= m <= 12,
        1 <= d <= 31,
    ensures
        -800_000 <= dias_civis(y, m, d) <= 3_000_000,
{
    let a = if m <= 2 { y - 1 } else { y };
    let era = a / 400;
    assert(-1 <= era <= 24) by (nonlinear_arith)
        requires -2 <= a <= 9999, era == a / 400;
    let yoe = a - era * 400;
    assert(0 <= yoe < 400);
    let mp = if m > 2 { m - 3 } else { m + 9 };
    assert(0 <= (153 * mp + 2) / 5 <= 400);
    assert(0 <= yoe / 4 <= 100);
    assert(0 <= yoe / 100 <= 4);
    assert(-146097 <= era * 146097 <= 24 * 146097) by (nonlinear_arith)
        requires -1 <= era <= 24;
}

pub proof fn lemma_data_sqlite_limites(s: Seq<char>)
    ensures
        data_sqlite(s) matches Some((y, m, d)) ==> 0 <= y <= 9999 && 1 <= m <= 12 && 1 <= d <= 31,
{
    if data_sqlite(s) is Some {
        assert forall|j: int| 0 <= j < 4 implies eh_digito(#[trigger] s.subrange(0, 4)[j]) by {
            assert(s.subrange(0, 4)[j] == s[j]);
        }
        lemma_valor_quatro(s.subrange(0, 4));
    }
}


// ───────────────────────── the calendar's text order ─────────────────────────

/// No piece of a split holds a separator.
pub proof fn lemma_pecas_sem_separador(s: Seq<char>, seps: Seq<char>)
    ensures
        forall|i: int, j: int| 0 <= i < separar(s, seps).len() && 0 <= j < separar(s, seps)[i].len()
            ==> !seps.contains(#[trigger] separar(s, seps)[i][j]),
    decreases s.len(),
{
    if s.len() > 0 {
        lemma_pecas_sem_separador(s.drop_last(), seps);
        lemma_separar_nao_vazio(s.drop_last(), seps);
        let p = separar(s.drop_last(), seps);
        let q = separar(s, seps);
        assert forall|i: int, j: int| 0 <= i < q.len() && 0 <= j < q[i].len() implies !seps.contains(#[trigger] q[i][j]) by {
            if seps.contains(s.last()) {
                if i < p.len() {
                    assert(q[i] == p[i]);
                }
            } else {
                if i < p.len() - 1 {
                    assert(q[i] == p[i]);
                } else {
                    assert(q[i] == p.last().push(s.last()));
                    if j < p.last().len() {
                        assert(q[i][j] == p[p.len() - 1][j]);
                    }
                }
            }
        }
    }
}

/// Three texts without any of `seps`, joined by a separator `c` of `seps`,
/// split back into the three.
pub proof fn lemma_separar_tres_com(x: Seq<char>, y: Seq<char>, z: Seq<char>, c: char, seps: Seq<char>)
    requires
        seps.contains(c),
        forall|i: int| 0 <= i < x.len() ==> !seps.contains(#[trigger] x[i]),
        forall|i: int| 0 <= i < y.len() ==> !seps.contains(#[trigger] y[i]),
        forall|i: int| 0 <= i < z.len() ==> !seps.contains(#[trigger] z[i]),
    ensures
        separar(x + seq![c] + y + seq![c] + z, seps) == seq![x, y, z],
{
    let e = Seq::<char>::empty();
    let sc = seq![c];
    assert(separar(e, seps) =~= seq![e]);
    lemma_separar_sem_separador(e, x, seps);
    assert(e + x =~= x);
    assert(separar(x, seps) =~= seq![x]);
    let a1 = x + sc;
    assert(a1.drop_last() =~= x);
    assert(seps.contains(a1.last()));
    assert(separar(a1, seps) =~= seq![x, e]);
    lemma_separar_sem_separador(a1, y, seps);
    assert(separar(a1 + y, seps) =~= seq![x, y]);
    let a2 = a1 + y + sc;
    assert(a2.drop_last() =~= a1 + y);
    assert(seps.contains(a2.last()));
    assert(separar(a2, seps) =~= seq![x, y, e]);
    lemma_separar_sem_separador(a2, z, seps);
    assert(separar(a2 + z, seps) =~= seq![x, y, z]);
    assert(x + sc + y + sc + z =~= a2 + z);
}

/// A text without `-`, split at `-`, is one piece; three such texts joined
/// by `-` split back into the three.
pub proof fn lemma_separar_tres(x: Seq<char>, y: Seq<char>, z: Seq<char>)
    requires
        !x.contains('-'),
        !y.contains('-'),
        !z.contains('-'),
    ensures
        separar(x + seq!['-'] + y + seq!['-'] + z, seq!['-']) == seq![x, y, z],
{
    let seps = seq!['-'];
    assert(seps.contains(seps[0]));
    assert forall|i: int| 0 <= i < x.len() implies !seps.contains(#[trigger] x[i]) by {
        assert(x.contains(x[i]));
    }
    assert forall|i: int| 0 <= i < y.len() implies !seps.contains(#[trigger] y[i]) by {
        assert(y.contains(y[i]));
    }
    assert forall|i: int| 0 <= i < z.len() implies !seps.contains(#[trigger] z[i]) by {
        assert(z.contains(z[i]));
    }
    lemma_separar_tres_com(x, y, z, '-', seps);
}

proof fn lemma_valor_zeros(k: nat)
    ensures
        valor_decimal(Seq::new(k, |_i: int| '0')) == 0,
    decreases k,
{
    if k > 0 {
        lemma_valor_zeros((k - 1) as nat);
        assert(Seq::new(k, |_i: int| '0').drop_last() =~= Seq::new((k - 1) as nat, |_i: int| '0'));
    }
}

proof fn lemma_valor_com_prefixo(z: Seq<char>, d: Seq<char>)
    requires
        valor_decimal(z) == 0,
    ensures
        valor_decimal(z + d) == valor_decimal(d),
    decreases d.len(),
{
    if d.len() == 0 {
        assert(z + d =~= z);
    } else {
        lemma_valor_com_prefixo(z, d.drop_last());
        assert((z + d).drop_last() =~= z + d.drop_last());
    }
}

/// `n` with at least `w` digits reads back as `n`, and is all digits.
pub proof fn lemma_com_zeros(n: nat, w: nat)
    ensures
        valor_decimal(com_zeros(n, w)) == n,
        digitos_validos(com_zeros(n, w)),
        com_zeros(n, w).len() >= w,
{
    lemma_decimal_valor(n);
    let d = decimal(n);
    if d.len() < w {
        let z = Seq::new((w - d.len()) as nat, |_k: int| '0');
        lemma_valor_zeros((w - d.len()) as nat);
        lemma_valor_com_prefixo(z, d);
        assert forall|k: int| 0 <= k < (z + d).len() implies eh_digito(#[trigger] (z + d)[k]) by {
            if k >= z.len() {
                assert((z + d)[k] == d[k - z.len()]);
            }
        }
    }
}

proof fn lemma_decimal_quatro(n: nat)
    ensures
        n < 10 ==> decimal(n).len() == 1,
        n < 100 ==> decimal(n).len() <= 2,
        n < 1000 ==> decimal(n).len() <= 3,
        n < 10000 ==> decimal(n).len() <= 4,
    decreases n,
{
    if n >= 10 {
        lemma_decimal_quatro(n / 10);
    }
}

/// A number with its zeros reads back through `str::parse::<i64>`.
pub proof fn lemma_i64_com_zeros(n: nat, w: nat)
    requires
        n <= i64::MAX,
    ensures
        i64_lido(com_zeros(n, w)) == Some(n as int),
        !com_zeros(n, w).contains('-'),
{
    lemma_com_zeros(n, w);
    lemma_decimal_digitos(n);
    let s = com_zeros(n, w);
    assert(eh_digito(s[0]));
    if s.contains('-') {
        let k = choose|k: int| 0 <= k < s.len() && s[k] == '-';
        assert(eh_digito(s[k]));
    }
}

/// A real date written `aaaa-mm-dd` (a year from 0 to 9999) reads back.
pub proof fn lemma_data_iso_formatada(a: int, m: int, d: int)
    requires
        0 <= a <= 9999,
        1 <= m <= 12,
        1 <= d <= dias_no_mes(a, m),
    ensures
        data_iso(formatar_iso(a, m, d)) == Some((a, m, d)),
{
    lemma_i64_com_zeros(a as nat, 4);
    lemma_i64_com_zeros(m as nat, 2);
    lemma_i64_com_zeros(d as nat, 2);
    lemma_separar_tres(com_zeros_int(a, 4), com_zeros_int(m, 2), com_zeros_int(d, 2));
}

/// A date's year is never negative (its year has no `-`).
pub proof fn lemma_ano_nao_negativo(s: Seq<char>)
    ensures
        data_iso(s) matches Some((a, _m, _d)) ==> a >= 0,
{
    if data_iso(s) is Some {
        let p = separar(s, seq!['-']);
        lemma_pecas_sem_separador(s, seq!['-']);
        let p0 = p[0];
        if p0.len() > 0 {
            assert(!seq!['-'].contains(p0[0]));
            assert(p0[0] != '-');
        }
        assert(inteiro_lido(p0, true) == inteiro_lido(p0, false));
        lemma_lido_sem_sinal(p0);
    }
}

/// Twelve months after a date: the same month of the next year, the day
/// held to the end of that month.
pub proof fn lemma_mais_um_ano(s: Seq<char>)
    ensures
        data_iso(s) matches Some((a, m, d)) ==> mais_meses(s, 12) == formatar_iso(
            a + 1,
            m,
            if d < dias_no_mes(a + 1, m) { d } else { dias_no_mes(a + 1, m) },
        ),
{
    if let Some((a, m, d)) = data_iso(s) {
        let total = a * 12 + (m - 1) + 12;
        lemma_fundamental_div_mod_converse(total, 12, a + 1, m - 1);
    }
}

proof fn lemma_digitos_iguais(p: Seq<char>, q: Seq<char>)
    requires
        p.len() == q.len(),
        forall|k: int| 0 <= k < p.len() ==> eh_digito(#[trigger] p[k]),
        forall|k: int| 0 <= k < q.len() ==> eh_digito(#[trigger] q[k]),
        valor_decimal(p) == valor_decimal(q),
    ensures
        p == q,
    decreases p.len(),
{
    if p.len() > 0 {
        let p1 = p.drop_last();
        let q1 = q.drop_last();
        assert(eh_digito(p[p.len() - 1]));
        assert(eh_digito(q[q.len() - 1]));
        assert(valor_decimal(p) == valor_decimal(p1) * 10 + valor_digito(p.last()));
        assert(valor_decimal(q) == valor_decimal(q1) * 10 + valor_digito(q.last()));
        assert(valor_decimal(p1) == valor_decimal(q1));
        lemma_digitos_iguais(p1, q1);
        assert(valor_digito(p.last()) == valor_digito(q.last()));
        assert(p.last() == q.last());
        assert(p =~= p1.push(p.last()));
        assert(q =~= q1.push(q.last()));
    } else {
        assert(p =~= q);
    }
}

proof fn lemma_valor_nao_negativo(p: Seq<char>)
    requires
        forall|k: int| 0 <= k < p.len() ==> eh_digito(#[trigger] p[k]),
    ensures
        valor_decimal(p) >= 0,
    decreases p.len(),
{
    if p.len() > 0 {
        lemma_valor_nao_negativo(p.drop_last());
        assert(eh_digito(p[p.len() - 1]));
    }
}

/// Digit strings of the same length compare as text as they compare as
/// numbers: a smaller value in the first `n` digits is a smaller text.
pub proof fn lemma_digitos_ordem(p: Seq<char>, q: Seq<char>, n: int)
    requires
        0 < n <= p.len(),
        n <= q.len(),
        forall|k: int| 0 <= k < n ==> eh_digito(#[trigger] p[k]),
        forall|k: int| 0 <= k < n ==> eh_digito(#[trigger] q[k]),
        valor_decimal(p.take(n)) < valor_decimal(q.take(n)),
    ensures
        texto_menor(p, q),
    decreases n,
{
    let pn = p.take(n);
    let qn = q.take(n);
    let p1 = p.take(n - 1);
    let q1 = q.take(n - 1);
    assert(pn.drop_last() =~= p1);
    assert(qn.drop_last() =~= q1);
    assert(pn.last() == p[n - 1]);
    assert(qn.last() == q[n - 1]);
    assert(eh_digito(p[n - 1]));
    assert(eh_digito(q[n - 1]));
    assert(valor_decimal(pn) == valor_decimal(p1) * 10 + valor_digito(p[n - 1]));
    assert(valor_decimal(qn) == valor_decimal(q1) * 10 + valor_digito(q[n - 1]));
    assert forall|k: int| 0 <= k < n - 1 implies eh_digito(#[trigger] p1[k]) by {
        assert(p1[k] == p[k]);
    }
    assert forall|k: int| 0 <= k < n - 1 implies eh_digito(#[trigger] q1[k]) by {
        assert(q1[k] == q[k]);
    }
    if n > 1 && valor_decimal(p1) < valor_decimal(q1) {
        lemma_digitos_ordem(p, q, n - 1);
    } else {
        if n > 1 {
            assert(valor_decimal(p1) == valor_decimal(q1));
            lemma_digitos_iguais(p1, q1);
        } else {
            assert(p1 =~= q1);
        }
        assert(p.take(n - 1) == q.take(n - 1));
        lemma_texto_menor_pula(p, q, n - 1);
        assert(p.skip(n - 1)[0] == p[n - 1]);
        assert(q.skip(n - 1)[0] == q[n - 1]);
    }
}

/// A date written with a later year than a stored date comes after it as
/// text.
pub proof fn lemma_ano_posterior(a: int, m: int, d: int, hoje: Seq<char>)
    requires
        0 <= a <= 9999,
        1 <= m <= 12,
        1 <= d <= 31,
        data_sqlite(hoje) matches Some((ah, _mh, _dh)) && ah < a,
    ensures
        texto_menor(hoje, formatar_iso(a, m, d)),
        !texto_menor_igual(formatar_iso(a, m, d), hoje),
{
    let f = formatar_iso(a, m, d);
    lemma_com_zeros(a as nat, 4);
    lemma_decimal_quatro(a as nat);
    let x = com_zeros(a as nat, 4);
    assert(x.len() == 4);
    assert(f.take(4) =~= x);
    assert(hoje.take(4) =~= hoje.subrange(0, 4));
    assert forall|k: int| 0 <= k < 4 implies eh_digito(#[trigger] f[k]) by {
        assert(f[k] == x[k]);
    }
    assert forall|k: int| 0 <= k < 4 implies eh_digito(#[trigger] hoje[k]) by {
        assert(k != 4 && k != 7);
    }
    lemma_digitos_ordem(hoje, f, 4);
    lemma_texto_menor_assimetrico(hoje, f);
}

} // verus!
