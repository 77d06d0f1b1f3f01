//! Leave ("férias") rules.
//!
//! Simplified labour-law model:
//! - from the hiring date, one leave period per year of work is generated;
//! - each period falls due ("vencimento") 24 months after it starts
//!   (12 months to acquire the right + 12 months to take it);
//! - past the due date without being settled ⇒ **overdue** ("vencida");
//! - within the granting window ⇒ **due soon** ("a vencer"), with a warning
//!   N days before the due date;
//! - a **manual alarm** (optional, per period): when the company has already
//!   scheduled the leave, the period enters the "due soon" list at once and
//!   the warning fires on the chosen date; the automatic warning keeps
//!   applying to the periods **without** an alarm.
//!
//! The stored rows are read by the caller; the functions here decide, over
//! those rows and the current date, what each screen and each warning shows.

use vstd::prelude::*;
use crate::texto::{
    texto_menor, texto_menor_igual, menor, menor_igual, anexar, copia, lemma_texto_menor_assimetrico,
    aparado, aparar, em_branco, comparar, lemma_texto_menor_total, lemma_texto_menor_transitivo,
};
use crate::datas::{dia_sqlite, data_sqlite, dias_civis, dia_da_data, ler_data_sqlite, dias_desde_civil, em_data_br, data_br,
    data_iso, data_valida, mais_meses, meses_cabem, adicionar_meses, formatar_iso, dias_no_mes,
    lemma_mais_um_ano, lemma_data_iso_formatada, lemma_ano_nao_negativo, lemma_ano_posterior, lemma_data_sqlite_limites,
    data_ate, data_real, bissexto, lei_ordem_das_datas, lemma_29_de_fevereiro};
use crate::banco::{formato_uuid, novo_id, msg_sem_aleatorio};
use crate::numeros::{decimal_int, escrever_inteiro, i64_lido, ler_i64, inteiro_em_texto};

verus! {

broadcast use vstd::seq_lib::group_seq_properties;

/// A leave period as stored, with the employee and company it belongs to.
pub struct RegistroPeriodo {
    /// Period id (UUID text).
    pub id: String,
    pub funcionario_id: String,
    pub funcionario_nome: String,
    pub empresa_nome: String,
    /// Start of the acquisition period (`yyyy-mm-dd`).
    pub inicio: String,
    /// Due date (`yyyy-mm-dd`).
    pub vencimento: String,
    /// The employee already took/settled this period.
    pub regularizada: bool,
    /// Note written when the period was settled.
    pub observacao: Option<String>,
    /// Manual alarm date (`yyyy-mm-dd`), if any.
    pub alarme_em: Option<String>,
    /// Free text of the manual alarm.
    pub alarme_observacao: Option<String>,
    /// The period is not soft-deleted.
    pub periodo_ativo: bool,
    /// The employee is not soft-deleted.
    pub funcionario_ativo: bool,
    /// The company is not soft-deleted.
    pub empresa_ativa: bool,
}

/// The current moment as the stored-date queries see it: the local date
/// (`yyyy-mm-dd`) and whether the time of day is past midnight.
pub struct Agora {
    pub hoje: String,
    /// The local time is not exactly `00:00:00.000`.
    pub fracao_positiva: bool,
}

/// Overdue leave period (not yet settled).
pub struct FeriasVencida {
    /// Period id (UUID text).
    pub id: String,
    pub funcionario_id: String,
    pub funcionario_nome: String,
    pub empresa_nome: String,
    pub inicio: String,
    pub vencimento: String,
    pub dias_vencidas: i64,
    pub observacao: Option<String>,
}

/// Leave period "due soon" (within the granting window).
pub struct FeriasAVencer {
    /// Period id (UUID text).
    pub id: String,
    pub funcionario_id: String,
    pub funcionario_nome: String,
    pub empresa_nome: String,
    pub inicio: String,
    pub vencimento: String,
    pub dias_restantes: i64,
    /// Inside the automatic warning (N days before the due date)?
    pub dentro_alerta: bool,
    /// Inside the automatic display window (12 months before the due date)?
    /// `false` = listed because of the manual alarm.
    pub na_janela_automatica: bool,
    /// A manual alarm is set (leave scheduled by the company)?
    pub agendado: bool,
    /// Date the warning should appear (yyyy-mm-dd).
    pub alarme_em: Option<String>,
    /// Free text of the schedule.
    pub alarme_observacao: Option<String>,
    /// Days between today and the alarm date (negative = late).
    pub dias_para_alarme: Option<i64>,
    /// The alarm date has arrived (the warning is pending)?
    pub alarme_disparado: bool,
}

/// Leave period of an employee, offered when choosing where an alarm goes.
pub struct PeriodoDoFuncionario {
    /// Period id (UUID text).
    pub id: String,
    pub inicio: String,
    pub vencimento: String,
    /// Days until the due date.
    pub dias_restantes: i64,
    pub alarme_em: Option<String>,
    pub alarme_observacao: Option<String>,
}

/// In-app notification (header bell).
pub struct Notificacao {
    /// Stable id used to mark it as seen (v-<id>/a-<id>/g-<id>).
    pub id: String,
    /// "vencida", "alarme" (manual schedule) or "alerta" (automatic deadline).
    pub tipo: String,
    pub titulo: String,
    pub mensagem: String,
}

/// Pending item shown in the notification window.
pub struct PendenciaNotificacao {
    pub id: String,
    pub tipo: String,
    pub titulo: String,
    pub mensagem: String,
    /// Section the action button leads to.
    pub secao: String,
}

/// A copy of an optional text.
pub fn copiar_opcao(o: &Option<String>) -> (r: Option<String>)
    ensures
        r == *o,
{
    match o {
        Some(s) => Some(s.clone()),
        None => None,
    }
}

// ───────────────────────── order by due date ─────────────────────────

/// Where `x` goes among rows ordered by due date: after every row that is
/// not due later than it (so rows due the same day keep their order).
pub open spec fn posicao_por_vencimento(s: Seq<RegistroPeriodo>, x: RegistroPeriodo) -> nat
    decreases s.len(),
{
    if s.len() == 0 || texto_menor(x.vencimento@, s[0].vencimento@) {
        0
    } else {
        1 + posicao_por_vencimento(s.drop_first(), x)
    }
}

/// The rows ordered by due date (`ORDER BY vencimento`), rows due the
/// same day in the order given.
pub open spec fn por_vencimento(s: Seq<RegistroPeriodo>) -> Seq<RegistroPeriodo>
    decreases s.len(),
{
    if s.len() == 0 {
        s
    } else {
        let o = por_vencimento(s.drop_last());
        o.insert(posicao_por_vencimento(o, s.last()) as int, s.last())
    }
}

/// Rows whose due dates never go down.
pub open spec fn ordenados_por_vencimento(s: Seq<RegistroPeriodo>) -> bool {
    forall|i: int, j: int| 0 <= i < j < s.len() ==> texto_menor_igual(#[trigger] s[i].vencimento@, #[trigger] s[j].vencimento@)
}

proof fn lemma_posicao(s: Seq<RegistroPeriodo>, x: RegistroPeriodo)
    ensures
        posicao_por_vencimento(s, x) <= s.len(),
        forall|j: int| 0 <= j < posicao_por_vencimento(s, x) ==> !texto_menor(x.vencimento@, #[trigger] s[j].vencimento@),
        posicao_por_vencimento(s, x) < s.len() ==> texto_menor(x.vencimento@, s[posicao_por_vencimento(s, x) as int].vencimento@),
    decreases s.len(),
{
    if s.len() > 0 && !texto_menor(x.vencimento@, s[0].vencimento@) {
        lemma_posicao(s.drop_first(), x);
        assert forall|j: int| 0 <= j < posicao_por_vencimento(s, x) implies !texto_menor(x.vencimento@, #[trigger] s[j].vencimento@) by {
            if j > 0 {
                assert(s[j] == s.drop_first()[j - 1]);
            }
        }
    }
}

/// The position found by a scan is the one of the specification.
proof fn lemma_posicao_unica(s: Seq<RegistroPeriodo>, x: RegistroPeriodo, p: int)
    requires
        0 <= p <= s.len(),
        forall|j: int| 0 <= j < p ==> !texto_menor(x.vencimento@, #[trigger] s[j].vencimento@),
        p < s.len() ==> texto_menor(x.vencimento@, s[p].vencimento@),
    ensures
        posicao_por_vencimento(s, x) == p,
    decreases s.len(),
{
    if s.len() > 0 && p > 0 {
        assert(!texto_menor(x.vencimento@, s[0].vencimento@));
        assert forall|j: int| 0 <= j < p - 1 implies !texto_menor(x.vencimento@, #[trigger] s.drop_first()[j].vencimento@) by {
            assert(s.drop_first()[j] == s[j + 1]);
        }
        lemma_posicao_unica(s.drop_first(), x, p - 1);
    }
}

proof fn lemma_menor_igual_transitivo(a: Seq<char>, b: Seq<char>, c: Seq<char>)
    requires
        texto_menor_igual(a, b),
        texto_menor_igual(b, c),
    ensures
        texto_menor_igual(a, c),
{
    if texto_menor(a, b) && texto_menor(b, c) {
        lemma_texto_menor_transitivo(a, b, c);
    }
}

/// Inserting at the position of `posicao_por_vencimento` keeps the order.
proof fn lemma_insercao_ordena(o: Seq<RegistroPeriodo>, x: RegistroPeriodo)
    requires
        ordenados_por_vencimento(o),
    ensures
        ordenados_por_vencimento(o.insert(posicao_por_vencimento(o, x) as int, x)),
{
    lemma_posicao(o, x);
    let p = posicao_por_vencimento(o, x) as int;
    let n = o.insert(p, x);
    assert forall|i: int, j: int| 0 <= i < j < n.len() implies texto_menor_igual(#[trigger] n[i].vencimento@, #[trigger] n[j].vencimento@) by {
        if i < p && j == p {
            lemma_texto_menor_total(o[i].vencimento@, x.vencimento@);
        } else if i < p && j > p {
            lemma_texto_menor_total(o[i].vencimento@, x.vencimento@);
            assert(n[j] == o[j - 1]);
        } else if i == p && j > p {
            assert(n[j] == o[j - 1]);
            assert(texto_menor_igual(o[p].vencimento@, o[j - 1].vencimento@));
            assert(texto_menor_igual(x.vencimento@, o[p].vencimento@));
            lemma_menor_igual_transitivo(x.vencimento@, o[p].vencimento@, o[j - 1].vencimento@);
        } else if i > p {
            assert(n[i] == o[i - 1] && n[j] == o[j - 1]);
        }
    }
}

/// Ordering by due date gives the same rows, each as often, with due dates
/// that never go down.
pub proof fn lei_por_vencimento_ordena(s: Seq<RegistroPeriodo>)
    ensures
        ordenados_por_vencimento(por_vencimento(s)),
        por_vencimento(s).to_multiset() == s.to_multiset(),
        por_vencimento(s).len() == s.len(),
    decreases s.len(),
{
    broadcast use vstd::seq_lib::group_to_multiset_ensures;
    if s.len() > 0 {
        let o = por_vencimento(s.drop_last());
        lei_por_vencimento_ordena(s.drop_last());
        lemma_posicao(o, s.last());
        lemma_insercao_ordena(o, s.last());
        assert(s.drop_last().push(s.last()) =~= s);
    }
}

/// Keeping some rows of ordered rows leaves them ordered.
proof fn lemma_filtro_ordenado(s: Seq<RegistroPeriodo>, f: spec_fn(RegistroPeriodo) -> bool)
    requires
        ordenados_por_vencimento(s),
    ensures
        ordenados_por_vencimento(s.filter(f)),
    decreases s.len(),
{
    if s.len() > 0 {
        let t = s.drop_last();
        assert(ordenados_por_vencimento(t));
        lemma_filtro_ordenado(t, f);
        assert(t.push(s.last()) =~= s);
        t.lemma_filter_push(s.last(), f);
        if f(s.last()) {
            let u = t.filter(f);
            let n = u.push(s.last());
            assert forall|i: int, j: int| 0 <= i < j < n.len() implies texto_menor_igual(#[trigger] n[i].vencimento@, #[trigger] n[j].vencimento@) by {
                if j == u.len() {
                    assert(u.contains(u[i]));
                    t.lemma_filter_contains_rev(f, u[i]);
                    let k = choose|k: int| 0 <= k < t.len() && t[k] == u[i];
                    assert(s[k] == t[k]);
                } else {
                    assert(n[i] == u[i] && n[j] == u[j]);
                }
            }
        }
    }
}

/// A copy of a stored row.
fn clonar_registro(r: &RegistroPeriodo) -> (c: RegistroPeriodo)
    ensures
        c == *r,
{
    RegistroPeriodo {
        id: r.id.clone(),
        funcionario_id: r.funcionario_id.clone(),
        funcionario_nome: r.funcionario_nome.clone(),
        empresa_nome: r.empresa_nome.clone(),
        inicio: r.inicio.clone(),
        vencimento: r.vencimento.clone(),
        regularizada: r.regularizada,
        observacao: copiar_opcao(&r.observacao),
        alarme_em: copiar_opcao(&r.alarme_em),
        alarme_observacao: copiar_opcao(&r.alarme_observacao),
        periodo_ativo: r.periodo_ativo,
        funcionario_ativo: r.funcionario_ativo,
        empresa_ativa: r.empresa_ativa,
    }
}

/// The rows ordered by due date (a stable insertion sort).
pub fn ordenar_por_vencimento(registros: &Vec<RegistroPeriodo>) -> (o: Vec<RegistroPeriodo>)
    ensures
        o@ == por_vencimento(registros@),
{
    let mut o: Vec<RegistroPeriodo> = Vec::new();
    let mut n: usize = 0;
    proof {
        assert(registros@.take(0) =~= Seq::<RegistroPeriodo>::empty());
    }
    while n < registros.len()
        invariant
            n <= registros.len(),
            o@ == por_vencimento(registros@.take(n as int)),
        decreases registros.len() - n,
    {
        let x = &registros[n];
        let mut p: usize = 0;
        proof {
            lei_por_vencimento_ordena(registros@.take(n as int));
        }
        while p < o.len() && !menor(x.vencimento.as_str(), o[p].vencimento.as_str())
            invariant
                p <= o.len(),
                forall|j: int| 0 <= j < p ==> !texto_menor(x.vencimento@, #[trigger] o@[j].vencimento@),
            decreases o.len() - p,
        {
            p = p + 1;
        }
        proof {
            lemma_posicao_unica(o@, *x, p as int);
            assert(registros@.take(n + 1).drop_last() =~= registros@.take(n as int));
            assert(registros@.take(n + 1).last() == *x);
        }
        o.insert(p, clonar_registro(x));
        n = n + 1;
    }
    proof {
        assert(registros@.take(registros.len() as int) =~= registros@);
    }
    o
}

// ───────────────────────── the clock ─────────────────────────

/// Today's date is a date SQLite reads.
pub open spec fn agora_valida(a: Agora) -> bool {
    data_sqlite(a.hoje@) is Some
}

/// Today as a day count.
pub open spec fn hoje_dia(a: Agora) -> int {
    dia_sqlite(a.hoje@)->Some_0
}

pub proof fn lemma_limites_dia(s: Seq<char>)
    ensures
        dia_sqlite(s) matches Some(n) ==> -800_000 <= n <= 3_000_000,
{
    crate::datas::lemma_data_sqlite_limites(s);
    if let Some((y, m, d)) = data_sqlite(s) {
        crate::datas::lemma_limites_dias_civis(y, m, d);
    }
}

fn hoje_exec(agora: &Agora) -> (r: i64)
    requires
        agora_valida(*agora),
    ensures
        r == hoje_dia(*agora),
        -800_000 <= r <= 3_000_000,
{
    proof {
        lemma_limites_dia(agora.hoje@);
    }
    match dia_da_data(agora.hoje.as_str()) {
        Some(n) => n,
        None => 0,
    }
}

// ───────────────────────── overdue ─────────────────────────

/// The row is live: neither the period, nor the employee, nor the company is
/// soft-deleted.
pub open spec fn registro_ativo(r: RegistroPeriodo) -> bool {
    r.periodo_ativo && r.funcionario_ativo && r.empresa_ativa
}

/// Overdue: not settled and due today or earlier.
pub open spec fn esta_vencido(r: RegistroPeriodo, a: Agora) -> bool {
    !r.regularizada && texto_menor_igual(r.vencimento@, a.hoje@) && registro_ativo(r)
}

/// Whole days since the due date (`CAST(julianday('now') - julianday(v) AS INTEGER)`,
/// `0` where the date is unreadable).
pub open spec fn dias_desde(venc: Seq<char>, a: Agora) -> int {
    match dia_sqlite(venc) {
        None => 0,
        Some(v) => {
            let d = hoje_dia(a) - v;
            if d >= 0 || !a.fracao_positiva {
                d
            } else {
                d + 1
            }
        },
    }
}

pub open spec fn vencida_de(r: RegistroPeriodo, a: Agora) -> FeriasVencida {
    FeriasVencida {
        id: r.id,
        funcionario_id: r.funcionario_id,
        funcionario_nome: r.funcionario_nome,
        empresa_nome: r.empresa_nome,
        inicio: r.inicio,
        vencimento: r.vencimento,
        dias_vencidas: dias_desde(r.vencimento@, a) as i64,
        observacao: r.observacao,
    }
}

pub open spec fn filtro_vencido(a: Agora) -> spec_fn(RegistroPeriodo) -> bool {
    |r: RegistroPeriodo| esta_vencido(r, a)
}

pub open spec fn vencidas(rs: Seq<RegistroPeriodo>, a: Agora) -> Seq<FeriasVencida> {
    rs.filter(filtro_vencido(a)).map_values(|r: RegistroPeriodo| vencida_de(r, a))
}

fn dias_desde_exec(venc: &String, agora: &Agora, h: i64) -> (r: i64)
    requires
        agora_valida(*agora),
        h == hoje_dia(*agora),
        -800_000 <= h <= 3_000_000,
    ensures
        r == dias_desde(venc@, *agora),
{
    proof {
        lemma_limites_dia(venc@);
    }
    match dia_da_data(venc.as_str()) {
        None => 0,
        Some(v) => {
            let d = h - v;
            if d >= 0 || !agora.fracao_positiva {
                d
            } else {
                d + 1
            }
        },
    }
}

fn clonar_registro_vencido(r: &RegistroPeriodo, agora: &Agora, h: i64) -> (v: FeriasVencida)
    requires
        agora_valida(*agora),
        h == hoje_dia(*agora),
        -800_000 <= h <= 3_000_000,
    ensures
        v == vencida_de(*r, *agora),
{
    FeriasVencida {
        id: r.id.clone(),
        funcionario_id: r.funcionario_id.clone(),
        funcionario_nome: r.funcionario_nome.clone(),
        empresa_nome: r.empresa_nome.clone(),
        inicio: r.inicio.clone(),
        vencimento: r.vencimento.clone(),
        dias_vencidas: dias_desde_exec(&r.vencimento, agora, h),
        observacao: copiar_opcao(&r.observacao),
    }
}

/// The overdue leave among the rows, in the order of the rows.
fn vencidas_na_ordem(registros: &Vec<RegistroPeriodo>, agora: &Agora) -> (r: Vec<FeriasVencida>)
    requires
        agora_valida(*agora),
    ensures
        r@ == vencidas(registros@, *agora),
{
    let h = hoje_exec(agora);
    let mut r: Vec<FeriasVencida> = Vec::new();
    let mut i: usize = 0;
    while i < registros.len()
        invariant
            i <= registros.len(),
            agora_valida(*agora),
            h == hoje_dia(*agora),
            -800_000 <= h <= 3_000_000,
            r@ == vencidas(registros@.take(i as int), *agora),
        decreases registros.len() - i,
    {
        let reg = &registros[i];
        proof {
            let t = registros@.take(i as int);
            assert(registros@.take(i + 1) =~= t.push(*reg));
            t.lemma_filter_push(*reg, filtro_vencido(*agora));
        }
        if !reg.regularizada && menor_igual(reg.vencimento.as_str(), agora.hoje.as_str())
            && reg.periodo_ativo && reg.funcionario_ativo && reg.empresa_ativa {
            let v = clonar_registro_vencido(reg, agora, h);
            let ghost antes = r@;
            r.push(v);
            proof {
                let t = registros@.take(i as int);
                assert(t.push(*reg).filter(filtro_vencido(*agora)) == t.filter(filtro_vencido(*agora)).push(*reg));
                assert(r@ =~= vencidas(registros@.take(i + 1), *agora));
            }
        } else {
            proof {
                let t = registros@.take(i as int);
                assert(t.push(*reg).filter(filtro_vencido(*agora)) == t.filter(filtro_vencido(*agora)));
            }
        }
        i = i + 1;
    }
    proof {
        assert(registros@.take(registros.len() as int) =~= registros@);
    }
    r
}

// ───────────────────────── due soon ─────────────────────────

/// `date(venc, '-12 months') <= date('now')`: the automatic display window
/// (twelve months before the due date) has begun.
pub open spec fn na_janela(venc: Seq<char>, a: Agora) -> bool {
    match data_sqlite(venc) {
        None => false,
        Some((y, m, d)) => dias_civis(y - 1, m, d) <= hoje_dia(a),
    }
}

/// Due soon: not settled, due after today, and either inside the automatic
/// window or with a manual alarm.
pub open spec fn esta_a_vencer(r: RegistroPeriodo, a: Agora) -> bool {
    &&& !r.regularizada
    &&& texto_menor(a.hoje@, r.vencimento@)
    &&& na_janela(r.vencimento@, a) || r.alarme_em is Some
    &&& registro_ativo(r)
}

/// Whole days until the due date (`CAST(julianday(v) - julianday('now') AS
/// INTEGER)`, `0` where the date is unreadable).
pub open spec fn dias_ate(venc: Seq<char>, a: Agora) -> int {
    match dia_sqlite(venc) {
        None => 0,
        Some(v) => {
            let e = v - hoje_dia(a);
            if e > 0 && a.fracao_positiva {
                e - 1
            } else {
                e
            }
        },
    }
}

/// Days from today to the alarm date (`None` without a readable alarm).
pub open spec fn dias_para(alarme: Option<String>, a: Agora) -> Option<i64> {
    match alarme {
        None => None,
        Some(s) => match dia_sqlite(s@) {
            None => None,
            Some(n) => Some((n - hoje_dia(a)) as i64),
        },
    }
}

/// The alarm date has arrived (`alarme_em <= date('now')`).
pub open spec fn disparado(alarme: Option<String>, a: Agora) -> bool {
    match alarme {
        Some(s) => texto_menor_igual(s@, a.hoje@),
        None => false,
    }
}

pub open spec fn a_vencer_de(r: RegistroPeriodo, a: Agora, alerta: int) -> FeriasAVencer {
    FeriasAVencer {
        id: r.id,
        funcionario_id: r.funcionario_id,
        funcionario_nome: r.funcionario_nome,
        empresa_nome: r.empresa_nome,
        inicio: r.inicio,
        vencimento: r.vencimento,
        dias_restantes: dias_ate(r.vencimento@, a) as i64,
        dentro_alerta: dias_ate(r.vencimento@, a) <= alerta,
        na_janela_automatica: na_janela(r.vencimento@, a),
        agendado: r.alarme_em is Some,
        alarme_em: r.alarme_em,
        alarme_observacao: r.alarme_observacao,
        dias_para_alarme: dias_para(r.alarme_em, a),
        alarme_disparado: disparado(r.alarme_em, a),
    }
}

pub open spec fn filtro_a_vencer(a: Agora) -> spec_fn(RegistroPeriodo) -> bool {
    |r: RegistroPeriodo| esta_a_vencer(r, a)
}

pub open spec fn a_vencer(rs: Seq<RegistroPeriodo>, a: Agora, alerta: int) -> Seq<FeriasAVencer> {
    rs.filter(filtro_a_vencer(a)).map_values(|r: RegistroPeriodo| a_vencer_de(r, a, alerta))
}

fn dias_ate_exec(venc: &String, agora: &Agora, h: i64) -> (r: i64)
    requires
        agora_valida(*agora),
        h == hoje_dia(*agora),
        -800_000 <= h <= 3_000_000,
    ensures
        r == dias_ate(venc@, *agora),
{
    proof {
        lemma_limites_dia(venc@);
    }
    match dia_da_data(venc.as_str()) {
        None => 0,
        Some(v) => {
            let e = v - h;
            if e > 0 && agora.fracao_positiva {
                e - 1
            } else {
                e
            }
        },
    }
}

fn na_janela_exec(venc: &String, agora: &Agora, h: i64) -> (r: bool)
    requires
        agora_valida(*agora),
        h == hoje_dia(*agora),
    ensures
        r == na_janela(venc@, *agora),
{
    proof {
        crate::datas::lemma_data_sqlite_limites(venc@);
    }
    match ler_data_sqlite(venc.as_str()) {
        None => false,
        Some((y, m, d)) => dias_desde_civil(y - 1, m, d) <= h,
    }
}

fn dias_para_exec(alarme: &Option<String>, agora: &Agora, h: i64) -> (r: Option<i64>)
    requires
        agora_valida(*agora),
        h == hoje_dia(*agora),
        -800_000 <= h <= 3_000_000,
    ensures
        r == dias_para(*alarme, *agora),
{
    match alarme {
        None => None,
        Some(s) => {
            proof {
                lemma_limites_dia(s@);
            }
            match dia_da_data(s.as_str()) {
                None => None,
                Some(n) => Some(n - h),
            }
        },
    }
}

fn disparado_exec(alarme: &Option<String>, agora: &Agora) -> (r: bool)
    ensures
        r == disparado(*alarme, *agora),
{
    match alarme {
        Some(s) => menor_igual(s.as_str(), agora.hoje.as_str()),
        None => false,
    }
}

fn item_a_vencer(r: &RegistroPeriodo, agora: &Agora, h: i64, alerta: i64) -> (v: FeriasAVencer)
    requires
        agora_valida(*agora),
        h == hoje_dia(*agora),
        -800_000 <= h <= 3_000_000,
    ensures
        v == a_vencer_de(*r, *agora, alerta as int),
{
    let dias = dias_ate_exec(&r.vencimento, agora, h);
    FeriasAVencer {
        id: r.id.clone(),
        funcionario_id: r.funcionario_id.clone(),
        funcionario_nome: r.funcionario_nome.clone(),
        empresa_nome: r.empresa_nome.clone(),
        inicio: r.inicio.clone(),
        vencimento: r.vencimento.clone(),
        dias_restantes: dias,
        dentro_alerta: dias <= alerta,
        na_janela_automatica: na_janela_exec(&r.vencimento, agora, h),
        agendado: r.alarme_em.is_some(),
        alarme_em: copiar_opcao(&r.alarme_em),
        alarme_observacao: copiar_opcao(&r.alarme_observacao),
        dias_para_alarme: dias_para_exec(&r.alarme_em, agora, h),
        alarme_disparado: disparado_exec(&r.alarme_em, agora),
    }
}

fn a_vencer_exec(r: &RegistroPeriodo, agora: &Agora, h: i64) -> (b: bool)
    requires
        agora_valida(*agora),
        h == hoje_dia(*agora),
    ensures
        b == esta_a_vencer(*r, *agora),
{
    !r.regularizada && menor(agora.hoje.as_str(), r.vencimento.as_str())
        && (na_janela_exec(&r.vencimento, agora, h) || r.alarme_em.is_some()) && r.periodo_ativo
        && r.funcionario_ativo && r.empresa_ativa
}

/// The leave due soon among the rows, in the order of the rows.
fn a_vencer_na_ordem(registros: &Vec<RegistroPeriodo>, agora: &Agora, alerta_dias: i64) -> (r: Vec<FeriasAVencer>)
    requires
        agora_valida(*agora),
    ensures
        r@ == a_vencer(registros@, *agora, alerta_dias as int),
{
    let h = hoje_exec(agora);
    let mut r: Vec<FeriasAVencer> = Vec::new();
    let mut i: usize = 0;
    while i < registros.len()
        invariant
            i <= registros.len(),
            agora_valida(*agora),
            h == hoje_dia(*agora),
            -800_000 <= h <= 3_000_000,
            r@ == a_vencer(registros@.take(i as int), *agora, alerta_dias as int),
        decreases registros.len() - i,
    {
        let reg = &registros[i];
        proof {
            let t = registros@.take(i as int);
            assert(registros@.take(i + 1) =~= t.push(*reg));
            t.lemma_filter_push(*reg, filtro_a_vencer(*agora));
        }
        if a_vencer_exec(reg, agora, h) {
            let v = item_a_vencer(reg, agora, h, alerta_dias);
            r.push(v);
            proof {
                assert(r@ =~= a_vencer(registros@.take(i + 1), *agora, alerta_dias as int));
            }
        }
        i = i + 1;
    }
    proof {
        assert(registros@.take(registros.len() as int) =~= registros@);
    }
    r
}

// ───────────────────────── periods of one employee ─────────────────────────

/// A period of the employee that can still be scheduled: not settled, due
/// after today, period and employee live.
pub open spec fn agendavel(r: RegistroPeriodo, funcionario: Seq<char>, a: Agora) -> bool {
    &&& r.funcionario_id@ == funcionario
    &&& !r.regularizada
    &&& texto_menor(a.hoje@, r.vencimento@)
    &&& r.periodo_ativo
    &&& r.funcionario_ativo
}

pub open spec fn periodo_de(r: RegistroPeriodo, a: Agora) -> PeriodoDoFuncionario {
    PeriodoDoFuncionario {
        id: r.id,
        inicio: r.inicio,
        vencimento: r.vencimento,
        dias_restantes: dias_ate(r.vencimento@, a) as i64,
        alarme_em: r.alarme_em,
        alarme_observacao: r.alarme_observacao,
    }
}

pub open spec fn filtro_agendavel(funcionario: Seq<char>, a: Agora) -> spec_fn(RegistroPeriodo) -> bool {
    |r: RegistroPeriodo| agendavel(r, funcionario, a)
}

pub open spec fn periodos_agendaveis(rs: Seq<RegistroPeriodo>, funcionario: Seq<char>, a: Agora) -> Seq<PeriodoDoFuncionario> {
    rs.filter(filtro_agendavel(funcionario, a)).map_values(|r: RegistroPeriodo| periodo_de(r, a))
}

/// The periods of an employee that can be scheduled, in the order of the rows.
fn periodos_na_ordem(registros: &Vec<RegistroPeriodo>, funcionario_id: &str, agora: &Agora) -> (r: Vec<PeriodoDoFuncionario>)
    requires
        agora_valida(*agora),
    ensures
        r@ == periodos_agendaveis(registros@, funcionario_id@, *agora),
{
    let h = hoje_exec(agora);
    let mut r: Vec<PeriodoDoFuncionario> = Vec::new();
    let mut i: usize = 0;
    while i < registros.len()
        invariant
            i <= registros.len(),
            agora_valida(*agora),
            h == hoje_dia(*agora),
            -800_000 <= h <= 3_000_000,
            r@ == periodos_agendaveis(registros@.take(i as int), funcionario_id@, *agora),
        decreases registros.len() - i,
    {
        let reg = &registros[i];
        proof {
            let t = registros@.take(i as int);
            assert(registros@.take(i + 1) =~= t.push(*reg));
            t.lemma_filter_push(*reg, filtro_agendavel(funcionario_id@, *agora));
        }
        let mesmo = crate::texto::comparar(reg.funcionario_id.as_str(), funcionario_id) == 0;
        if mesmo && !reg.regularizada && menor(agora.hoje.as_str(), reg.vencimento.as_str())
            && reg.periodo_ativo && reg.funcionario_ativo {
            let p = PeriodoDoFuncionario {
                id: reg.id.clone(),
                inicio: reg.inicio.clone(),
                vencimento: reg.vencimento.clone(),
                dias_restantes: dias_ate_exec(&reg.vencimento, agora, h),
                alarme_em: copiar_opcao(&reg.alarme_em),
                alarme_observacao: copiar_opcao(&reg.alarme_observacao),
            };
            r.push(p);
            proof {
                assert(r@ =~= periodos_agendaveis(registros@.take(i + 1), funcionario_id@, *agora));
            }
        }
        i = i + 1;
    }
    proof {
        assert(registros@.take(registros.len() as int) =~= registros@);
    }
    r
}

/// Overdue leave (granting window expired and not settled), by due date
/// (rows due the same day in the order given); only live rows count.
pub fn listar_vencidas(registros: &Vec<RegistroPeriodo>, agora: &Agora) -> (r: Vec<FeriasVencida>)
    requires
        agora_valida(*agora),
    ensures
        r@ == vencidas(por_vencimento(registros@), *agora),
        forall|i: int, j: int| 0 <= i < j < r@.len() ==> texto_menor_igual(#[trigger] r@[i].vencimento@, #[trigger] r@[j].vencimento@),
{
    let o = ordenar_por_vencimento(registros);
    proof {
        lei_por_vencimento_ordena(registros@);
        lemma_filtro_ordenado(o@, filtro_vencido(*agora));
    }
    vencidas_na_ordem(&o, agora)
}

/// Leave due soon (right acquired, within the granting window), by due
/// date: the periods inside the automatic window (12 months before the due
/// date) and those with a manual alarm, even before that window.
/// `alerta_dias` marks those already inside the warning.
pub fn listar_a_vencer(registros: &Vec<RegistroPeriodo>, agora: &Agora, alerta_dias: i64) -> (r: Vec<FeriasAVencer>)
    requires
        agora_valida(*agora),
    ensures
        r@ == a_vencer(por_vencimento(registros@), *agora, alerta_dias as int),
        forall|i: int, j: int| 0 <= i < j < r@.len() ==> texto_menor_igual(#[trigger] r@[i].vencimento@, #[trigger] r@[j].vencimento@),
{
    let o = ordenar_por_vencimento(registros);
    proof {
        lei_por_vencimento_ordena(registros@);
        lemma_filtro_ordenado(o@, filtro_a_vencer(*agora));
    }
    a_vencer_na_ordem(&o, agora, alerta_dias)
}

/// Periods of an employee that can still be scheduled (due soon and not
/// settled), by due date.
pub fn listar_periodos_do_funcionario(registros: &Vec<RegistroPeriodo>, funcionario_id: &str, agora: &Agora) -> (r: Vec<PeriodoDoFuncionario>)
    requires
        agora_valida(*agora),
    ensures
        r@ == periodos_agendaveis(por_vencimento(registros@), funcionario_id@, *agora),
        forall|i: int, j: int| 0 <= i < j < r@.len() ==> texto_menor_igual(#[trigger] r@[i].vencimento@, #[trigger] r@[j].vencimento@),
{
    let o = ordenar_por_vencimento(registros);
    proof {
        lei_por_vencimento_ordena(registros@);
        lemma_filtro_ordenado(o@, filtro_agendavel(funcionario_id@, *agora));
    }
    periodos_na_ordem(&o, funcionario_id, agora)
}

// ───────────────────────── notifications ─────────────────────────

/// The texts of a notification.
pub struct VistaNotificacao {
    pub id: Seq<char>,
    pub tipo: Seq<char>,
    pub titulo: Seq<char>,
    pub mensagem: Seq<char>,
}

impl View for Notificacao {
    type V = VistaNotificacao;

    open spec fn view(&self) -> VistaNotificacao {
        VistaNotificacao {
            id: self.id@,
            tipo: self.tipo@,
            titulo: self.titulo@,
            mensagem: self.mensagem@,
        }
    }
}

/// Overdue period: `v-<id>`, "Férias vencidas".
pub open spec fn aviso_vencida(v: FeriasVencida) -> VistaNotificacao {
    VistaNotificacao {
        id: "v-"@ + v.id@,
        tipo: "vencida"@,
        titulo: "Férias vencidas"@,
        mensagem: v.funcionario_nome@ + " ("@ + v.empresa_nome@ + ") — vencidas há "@
            + decimal_int(v.dias_vencidas as int) + " dia(s) (prazo "@ + em_data_br(v.vencimento@)
            + ")"@,
    }
}

/// Scheduled period whose alarm date arrived: `g-<id>`, "Férias agendadas".
pub open spec fn aviso_alarme(x: FeriasAVencer) -> VistaNotificacao {
    VistaNotificacao {
        id: "g-"@ + x.id@,
        tipo: "alarme"@,
        titulo: "Férias agendadas"@,
        mensagem: x.funcionario_nome@ + " ("@ + x.empresa_nome@ + ") — aviso agendado para "@
            + em_data_br(x.alarme_em->Some_0@) + " (prazo final em "@ + em_data_br(x.vencimento@)
            + ")"@,
    }
}

/// How many days remain, in words.
pub open spec fn rotulo_prazo(dias: int) -> Seq<char> {
    if dias <= 0 {
        "vencem hoje"@
    } else if dias == 1 {
        "vencem amanhã"@
    } else {
        "vencem em "@ + decimal_int(dias) + " dias"@
    }
}

/// Period inside the automatic warning: `a-<id>`, "Férias a vencer".
pub open spec fn aviso_alerta(x: FeriasAVencer) -> VistaNotificacao {
    VistaNotificacao {
        id: "a-"@ + x.id@,
        tipo: "alerta"@,
        titulo: "Férias a vencer"@,
        mensagem: x.funcionario_nome@ + " ("@ + x.empresa_nome@ + ") — "@ + rotulo_prazo(
            x.dias_restantes as int,
        ) + " ("@ + em_data_br(x.vencimento@) + ")"@,
    }
}

/// A scheduled period warns once its alarm date arrives.
pub open spec fn avisa_alarme(x: FeriasAVencer) -> bool {
    x.agendado && x.alarme_disparado
}

/// A period without an alarm warns once inside the automatic warning.
pub open spec fn avisa_alerta(x: FeriasAVencer) -> bool {
    !x.agendado && x.dentro_alerta
}

pub open spec fn filtro_avisa_alarme() -> spec_fn(FeriasAVencer) -> bool {
    |x: FeriasAVencer| avisa_alarme(x)
}

pub open spec fn filtro_avisa_alerta() -> spec_fn(FeriasAVencer) -> bool {
    |x: FeriasAVencer| avisa_alerta(x)
}

/// The bell's notifications: overdue periods first, then the alarms of the
/// day, then the automatic deadline warnings, each group in row order.
pub open spec fn notificacoes(rs: Seq<RegistroPeriodo>, a: Agora, alerta: int) -> Seq<VistaNotificacao> {
    let av = a_vencer(rs, a, alerta);
    vencidas(rs, a).map_values(|v: FeriasVencida| aviso_vencida(v)) + av.filter(
        filtro_avisa_alarme(),
    ).map_values(|x: FeriasAVencer| aviso_alarme(x)) + av.filter(filtro_avisa_alerta()).map_values(
        |x: FeriasAVencer| aviso_alerta(x),
    )
}

fn nova_notificacao_vencida(v: &FeriasVencida) -> (n: Notificacao)
    ensures
        n@ == aviso_vencida(*v),
{
    let mut id = String::new();
    anexar(&mut id, "v-");
    anexar(&mut id, v.id.as_str());
    let mut m = String::new();
    anexar(&mut m, v.funcionario_nome.as_str());
    anexar(&mut m, " (");
    anexar(&mut m, v.empresa_nome.as_str());
    anexar(&mut m, ") — vencidas há ");
    escrever_inteiro(&mut m, v.dias_vencidas);
    anexar(&mut m, " dia(s) (prazo ");
    let d = data_br(v.vencimento.as_str());
    anexar(&mut m, d.as_str());
    anexar(&mut m, ")");
    let n = Notificacao { id, tipo: copia("vencida"), titulo: copia("Férias vencidas"), mensagem: m };
    assert(n@ =~= aviso_vencida(*v));
    n
}

fn nova_notificacao_alarme(x: &FeriasAVencer) -> (n: Notificacao)
    requires
        x.alarme_em is Some,
    ensures
        n@ == aviso_alarme(*x),
{
    let mut id = String::new();
    anexar(&mut id, "g-");
    anexar(&mut id, x.id.as_str());
    let mut m = String::new();
    anexar(&mut m, x.funcionario_nome.as_str());
    anexar(&mut m, " (");
    anexar(&mut m, x.empresa_nome.as_str());
    anexar(&mut m, ") — aviso agendado para ");
    let data_alarme = match &x.alarme_em {
        Some(a) => data_br(a.as_str()),
        None => String::new(),
    };
    anexar(&mut m, data_alarme.as_str());
    anexar(&mut m, " (prazo final em ");
    let d = data_br(x.vencimento.as_str());
    anexar(&mut m, d.as_str());
    anexar(&mut m, ")");
    let n = Notificacao { id, tipo: copia("alarme"), titulo: copia("Férias agendadas"), mensagem: m };
    assert(n@ =~= aviso_alarme(*x));
    n
}

fn nova_notificacao_alerta(x: &FeriasAVencer) -> (n: Notificacao)
    ensures
        n@ == aviso_alerta(*x),
{
    let mut id = String::new();
    anexar(&mut id, "a-");
    anexar(&mut id, x.id.as_str());
    let mut rotulo = String::new();
    if x.dias_restantes <= 0 {
        anexar(&mut rotulo, "vencem hoje");
    } else if x.dias_restantes == 1 {
        anexar(&mut rotulo, "vencem amanhã");
    } else {
        anexar(&mut rotulo, "vencem em ");
        escrever_inteiro(&mut rotulo, x.dias_restantes);
        anexar(&mut rotulo, " dias");
    }
    assert(rotulo@ =~= rotulo_prazo(x.dias_restantes as int));
    let mut m = String::new();
    anexar(&mut m, x.funcionario_nome.as_str());
    anexar(&mut m, " (");
    anexar(&mut m, x.empresa_nome.as_str());
    anexar(&mut m, ") — ");
    anexar(&mut m, rotulo.as_str());
    anexar(&mut m, " (");
    let d = data_br(x.vencimento.as_str());
    anexar(&mut m, d.as_str());
    anexar(&mut m, ")");
    let n = Notificacao { id, tipo: copia("alerta"), titulo: copia("Férias a vencer"), mensagem: m };
    assert(n@ =~= aviso_alerta(*x));
    n
}

/// The views of a list of notifications.
pub open spec fn vistas(ns: Seq<Notificacao>) -> Seq<VistaNotificacao> {
    ns.map_values(|n: Notificacao| n@)
}

/// Builds the in-app notifications: overdue leave + manual alarms of
/// scheduled leave + periods inside the configured automatic warning.
///
/// The manual alarm takes **priority over the automatic warning of the SAME
/// period** (no two warnings about one fact): whoever scheduled is warned on
/// the chosen date. The automatic warning keeps applying to every period
/// **without** an alarm. Overdue periods come first, then the alarms of the
/// day, then the deadline warnings.
pub fn listar_notificacoes(registros: &Vec<RegistroPeriodo>, agora: &Agora, alerta_dias: i64) -> (r: Vec<Notificacao>)
    requires
        agora_valida(*agora),
    ensures
        vistas(r@) == notificacoes(por_vencimento(registros@), *agora, alerta_dias as int),
{
    let o = ordenar_por_vencimento(registros);
    let venc = vencidas_na_ordem(&o, agora);
    let av = a_vencer_na_ordem(&o, agora, alerta_dias);
    let mut r: Vec<Notificacao> = Vec::new();

    let mut i: usize = 0;
    while i < venc.len()
        invariant
            i <= venc.len(),
            vistas(r@) == venc@.take(i as int).map_values(|v: FeriasVencida| aviso_vencida(v)),
        decreases venc.len() - i,
    {
        let n = nova_notificacao_vencida(&venc[i]);
        let ghost antes = r@;
        r.push(n);
        proof {
            assert(r@ == antes.push(n));
            assert(vistas(r@) =~= vistas(antes).push(n@));
            assert(venc@.take(i + 1) =~= venc@.take(i as int).push(venc@[i as int]));
            assert(vistas(r@) =~= venc@.take(i + 1).map_values(|v: FeriasVencida| aviso_vencida(v)));
        }
        i = i + 1;
    }
    proof {
        assert(venc@.take(venc.len() as int) =~= venc@);
    }
    let ghost parte1 = vistas(r@);
    proof {
        assert forall|k: int| 0 <= k < av@.len() implies (#[trigger] av@[k]).agendado == (
        av@[k].alarme_em is Some) by {}
    }

    let mut j: usize = 0;
    while j < av.len()
        invariant
            j <= av.len(),
            forall|k: int| 0 <= k < av@.len() ==> (#[trigger] av@[k]).agendado == (
            av@[k].alarme_em is Some),
            vistas(r@) == parte1 + av@.take(j as int).filter(filtro_avisa_alarme()).map_values(
                |x: FeriasAVencer| aviso_alarme(x),
            ),
        decreases av.len() - j,
    {
        let x = &av[j];
        proof {
            let t = av@.take(j as int);
            assert(av@.take(j + 1) =~= t.push(*x));
            t.lemma_filter_push(*x, filtro_avisa_alarme());
        }
        if x.agendado && x.alarme_disparado {
            let n = nova_notificacao_alarme(x);
            let ghost antes = r@;
            r.push(n);
            proof {
                assert(vistas(r@) =~= vistas(antes).push(n@));
                assert(vistas(r@) =~= parte1 + av@.take(j + 1).filter(filtro_avisa_alarme()).map_values(
                    |x: FeriasAVencer| aviso_alarme(x),
                ));
            }
        }
        j = j + 1;
    }
    proof {
        assert(av@.take(av.len() as int) =~= av@);
    }
    let ghost parte2 = vistas(r@);

    let mut k: usize = 0;
    while k < av.len()
        invariant
            k <= av.len(),
            vistas(r@) == parte2 + av@.take(k as int).filter(filtro_avisa_alerta()).map_values(
                |x: FeriasAVencer| aviso_alerta(x),
            ),
        decreases av.len() - k,
    {
        let x = &av[k];
        proof {
            let t = av@.take(k as int);
            assert(av@.take(k + 1) =~= t.push(*x));
            t.lemma_filter_push(*x, filtro_avisa_alerta());
        }
        if !x.agendado && x.dentro_alerta {
            let n = nova_notificacao_alerta(x);
            let ghost antes = r@;
            r.push(n);
            proof {
                assert(vistas(r@) =~= vistas(antes).push(n@));
                assert(vistas(r@) =~= parte2 + av@.take(k + 1).filter(filtro_avisa_alerta()).map_values(
                    |x: FeriasAVencer| aviso_alerta(x),
                ));
            }
        }
        k = k + 1;
    }
    proof {
        assert(av@.take(av.len() as int) =~= av@);
        assert(vistas(r@) =~= notificacoes(o@, *agora, alerta_dias as int));
    }
    r
}


// ───────────────────────── manual alarms ─────────────────────────

pub open spec fn msg_periodo_nao_encontrado() -> Seq<char> {
    "Período de férias não encontrado."@
}

/// Why an alarm date is refused, if it is: it must be a real date
/// `aaaa-mm-dd` (after trimming), and not before today (compared as text,
/// as the stored dates are).
pub open spec fn recusa_da_data(alarme_em: Seq<char>, hoje: Seq<char>) -> Option<Seq<char>> {
    let data = aparado(alarme_em);
    if data_iso(data) is None {
        Some("Data do aviso inválida: \""@ + data + "\". Informe uma data no formato aaaa-mm-dd."@)
    } else if texto_menor(data, hoje) {
        Some("A data do aviso ("@ + em_data_br(data) + ") não pode estar no passado."@)
    } else {
        None
    }
}

/// Why a period cannot get an alarm, if it cannot: it must exist and be
/// active, not be settled, and not be due already (an overdue period is
/// shown among the overdue ones, with its own warning).
pub open spec fn recusa_do_periodo(periodo: Option<(String, bool)>, hoje: Seq<char>) -> Option<Seq<char>> {
    match periodo {
        None => Some(msg_periodo_nao_encontrado()),
        Some((vencimento, regularizada)) => if regularizada {
            Some("Este período já foi regularizado — não há o que agendar."@)
        } else if texto_menor_igual(vencimento@, hoje) {
            Some("Este período já venceu: ele aparece em \"Férias vencidas\" (regularize por lá)."@)
        } else {
            None
        },
    }
}

/// The note kept with an alarm: trimmed, none when blank.
pub open spec fn nota_util(o: Option<String>) -> Option<Seq<char>> {
    match o {
        Some(t) => if aparado(t@).len() == 0 { None } else { Some(aparado(t@)) },
        None => None,
    }
}

/// Sets the manual alarm of a period (the company already scheduled the
/// leave): checks the date, then the period (`periodo` is its due date and
/// whether it is settled, when it exists and is active), and gives the
/// date and note to store.
pub fn definir_alarme(
    alarme_em: &str,
    observacao: Option<String>,
    periodo: &Option<(String, bool)>,
    hoje: &str,
) -> (r: Result<(String, Option<String>), String>)
    ensures
        match recusa_da_data(alarme_em@, hoje@) {
            Some(m) => r matches Err(e) && e@ == m,
            None => match recusa_do_periodo(*periodo, hoje@) {
                Some(m) => r matches Err(e) && e@ == m,
                None => r matches Ok((data, nota)) && data@ == aparado(alarme_em@)
                    && match nota { Some(n) => nota_util(observacao) == Some(n@), None => nota_util(observacao) is None },
            },
        },
{
    let data = aparar(alarme_em);
    if !data_valida(data.as_str()) {
        let mut e = copia("Data do aviso inválida: \"");
        anexar(&mut e, data.as_str());
        anexar(&mut e, "\". Informe uma data no formato aaaa-mm-dd.");
        return Err(e);
    }
    if menor(data.as_str(), hoje) {
        let mut e = copia("A data do aviso (");
        anexar(&mut e, data_br(data.as_str()).as_str());
        anexar(&mut e, ") não pode estar no passado.");
        return Err(e);
    }
    match periodo {
        None => return Err(copia("Período de férias não encontrado.")),
        Some((vencimento, regularizada)) => {
            if *regularizada {
                return Err(copia("Este período já foi regularizado — não há o que agendar."));
            }
            if menor_igual(vencimento.as_str(), hoje) {
                return Err(copia("Este período já venceu: ele aparece em \"Férias vencidas\" (regularize por lá)."));
            }
        },
    }
    let nota = match observacao {
        Some(t) => if em_branco(t.as_str()) { None } else { Some(aparar(t.as_str())) },
        None => None,
    };
    Ok((data, nota))
}

/// The outcome of a change to one period (setting or removing an alarm,
/// settling it): none changed ⇒ the period does not exist or is removed.
pub fn resultado_da_alteracao(alterados: usize) -> (r: Result<(), String>)
    ensures
        alterados == 0 ==> (r matches Err(e) && e@ == msg_periodo_nao_encontrado()),
        alterados > 0 ==> r is Ok,
{
    if alterados == 0 {
        Err(copia("Período de férias não encontrado."))
    } else {
        Ok(())
    }
}

/// Removing an alarm (the automatic warning applies again) and settling a
/// period change only the row; their outcome is that of the change.
pub fn remover_alarme(alterados: usize) -> (r: Result<(), String>)
    ensures
        alterados == 0 ==> (r matches Err(e) && e@ == msg_periodo_nao_encontrado()),
        alterados > 0 ==> r is Ok,
{
    resultado_da_alteracao(alterados)
}

/// Settling a period (the leave was taken or paid): the outcome of the change.
pub fn regularizar(alterados: usize) -> (r: Result<(), String>)
    ensures
        alterados == 0 ==> (r matches Err(e) && e@ == msg_periodo_nao_encontrado()),
        alterados > 0 ==> r is Ok,
{
    resultado_da_alteracao(alterados)
}

// ───────────────────────── the automatic warning ─────────────────────────

/// Days of warning before the due date, from the stored setting: the
/// setting read as an integer, else 15.
pub open spec fn alerta_configurado(valor: Option<String>) -> int {
    match valor {
        Some(v) => match i64_lido(v@) {
            Some(n) => n,
            None => 15,
        },
        None => 15,
    }
}

pub fn obter_alerta_dias(valor: &Option<String>) -> (r: i64)
    ensures
        r == alerta_configurado(*valor),
{
    match valor {
        Some(v) => match ler_i64(v.as_str()) {
            Some(n) => n,
            None => 15,
        },
        None => 15,
    }
}

/// The days of warning kept: held between 1 and 365.
pub open spec fn alerta_limitado(dias: int) -> int {
    if dias < 1 { 1 } else if dias > 365 { 365 } else { dias }
}

/// The setting stored for a chosen number of days of warning.
pub fn definir_alerta_dias(dias: i64) -> (r: String)
    ensures
        r@ == decimal_int(alerta_limitado(dias as int)),
{
    let d = if dias < 1 { 1 } else if dias > 365 { 365 } else { dias };
    inteiro_em_texto(d)
}


// ───────────────────────── generating the periods ─────────────────────────

/// The starts of the periods from `inicio` on, one every 12 months, while
/// they are not after today (as text), at most `n` of them.
pub open spec fn inicios_a_partir(inicio: Seq<char>, hoje: Seq<char>, n: nat) -> Seq<Seq<char>>
    decreases n,
{
    if n == 0 || texto_menor(hoje, inicio) {
        Seq::empty()
    } else {
        seq![inicio] + inicios_a_partir(mais_meses(inicio, 12), hoje, (n - 1) as nat)
    }
}

/// More periods than there are years in the dates the application keeps.
pub open spec fn limite_de_periodos() -> nat {
    10001
}

/// The starts of the periods an employee hired on `admissao` is owed by
/// `hoje`: one per year of work whose start has come, the first on the
/// (trimmed) hiring date; none for a hiring date that is not a date or is
/// in the future.
pub open spec fn inicios_devidos(admissao: Seq<char>, hoje: Seq<char>) -> Seq<Seq<char>> {
    let s = aparado(admissao);
    if data_iso(s) is None {
        Seq::empty()
    } else {
        inicios_a_partir(s, hoje, limite_de_periodos())
    }
}

/// The starts of the leave periods owed to an employee hired on
/// `admissao`, as of `hoje` (the periods already stored are the caller's
/// to skip).
pub fn gerar_periodos_do_funcionario(admissao: &str, hoje: &str) -> (r: Vec<String>)
    requires
        data_sqlite(hoje@) matches Some((a, _m, _d)) && a <= 9998,
        data_iso(aparado(admissao@)) matches Some((a, _m, _d)) ==> a <= 9998,
    ensures
        r@.map_values(|s: String| s@) == inicios_devidos(admissao@, hoje@),
{
    let s0 = aparar(admissao);
    if !data_valida(s0.as_str()) {
        let vazio: Vec<String> = Vec::new();
        proof {
            assert(vazio@.map_values(|s: String| s@) =~= Seq::<Seq<char>>::empty());
        }
        return vazio;
    }
    let ghost n = limite_de_periodos();
    let ghost (a0, m0, d0) = data_iso(s0@)->0;
    proof {
        lemma_ano_nao_negativo(s0@);
        lemma_data_sqlite_limites(hoje@);
    }
    let mut r: Vec<String> = Vec::new();
    let mut inicio = s0;
    let ghost mut ano: int = a0;
    let ghost mut k: nat = 0;
    proof {
        assert(r@.map_values(|s: String| s@) + inicios_a_partir(inicio@, hoje@, n) =~= inicios_a_partir(s0@, hoje@, n));
    }
    while comparar(inicio.as_str(), hoje) <= 0
        invariant
            n == limite_de_periodos(),
            0 <= a0 <= 9998,
            data_sqlite(hoje@) matches Some((a, _m, _d)) && a <= 9998,
            a0 <= ano <= 9999,
            k == ano - a0,
            data_iso(inicio@) matches Some((a, m, d)) && a == ano && m == m0,
            k >= 1 ==> (data_iso(inicio@) matches Some((a, m, d)) && inicio@ == formatar_iso(a, m, d)),
            r@.map_values(|s: String| s@) + inicios_a_partir(inicio@, hoje@, (n - k) as nat)
                == inicios_a_partir(s0@, hoje@, n),
        decreases 10000 - ano,
    {
        let ghost (a, m, d) = data_iso(inicio@)->0;
        proof {
            if k >= 1 {
                if let Some((ah, _mh, _dh)) = data_sqlite(hoje@) {
                    if ano > ah {
                        assert(1 <= d <= 31);
                        lemma_ano_posterior(a, m, d, hoje@);
                    }
                }
            }
            assert(ano <= 9998);
            assert(!texto_menor(hoje@, inicio@));
            assert(inicios_a_partir(inicio@, hoje@, (n - k) as nat) == seq![inicio@]
                + inicios_a_partir(mais_meses(inicio@, 12), hoje@, (n - k - 1) as nat));
            lemma_mais_um_ano(inicio@);
        }
        let ghost antes = r@.map_values(|s: String| s@);
        r.push(inicio.clone());
        proof {
            assert(r@.map_values(|s: String| s@) =~= antes.push(inicio@));
        }
        let proximo = adicionar_meses(inicio.as_str(), 12);
        proof {
            let dn = if d < dias_no_mes(a + 1, m) { d } else { dias_no_mes(a + 1, m) };
            assert(1 <= dn <= dias_no_mes(a + 1, m));
            lemma_data_iso_formatada(a + 1, m, dn);
            assert(antes.push(inicio@) + inicios_a_partir(proximo@, hoje@, (n - k - 1) as nat)
                =~= antes + inicios_a_partir(inicio@, hoje@, (n - k) as nat));
            ano = ano + 1;
            k = k + 1;
        }
        inicio = proximo;
    }
    proof {
        assert(texto_menor(hoje@, inicio@));
        assert(inicios_a_partir(inicio@, hoje@, (n - k) as nat) =~= Seq::<Seq<char>>::empty());
        assert(r@.map_values(|s: String| s@) + Seq::<Seq<char>>::empty() =~= r@.map_values(|s: String| s@));
    }
    r
}

/// From a start written `aaaa-mm-dd`, the starts run one year apart in the
/// same month while they are not after today, and stop at the first one
/// after today.
proof fn lemma_inicios_anuais(s: Seq<char>, hoje: Seq<char>, n: nat, a: int, m: int)
    requires
        data_sqlite(hoje) matches Some((ah, _mh, _dh)) && ah <= 9998,
        data_iso(s) matches Some((x, y, d)) && x == a && y == m && s == formatar_iso(x, y, d),
        0 <= a <= 9999,
        a + n >= 10000,
    ensures
        ({
            let t = inicios_a_partir(s, hoje, n);
            &&& forall|k: int| #![trigger t[k]] 0 <= k < t.len() ==> !texto_menor(hoje, t[k])
                && (data_iso(t[k]) matches Some((x, y, _d)) && x == a + k && y == m)
            &&& forall|k: int| 0 <= k < t.len() - 1 ==> #[trigger] t[k + 1] == mais_meses(t[k], 12)
            &&& t.len() > 0 ==> texto_menor(hoje, mais_meses(t.last(), 12))
            &&& t.len() == 0 ==> texto_menor(hoje, s)
        }),
    decreases n,
{
    let (x, y, d) = data_iso(s)->0;
    lemma_data_sqlite_limites(hoje);
    let (ah, _mh, _dh) = data_sqlite(hoje)->0;
    if a > ah {
        crate::datas::lemma_ano_posterior(a, m, d, hoje);
    }
    if n == 0 || texto_menor(hoje, s) {
        assert(inicios_a_partir(s, hoje, n) =~= Seq::<Seq<char>>::empty());
    } else {
        assert(a <= ah);
        let s1 = mais_meses(s, 12);
        lemma_mais_um_ano(s);
        let dn = if d < dias_no_mes(a + 1, m) { d } else { dias_no_mes(a + 1, m) };
        lemma_data_iso_formatada(a + 1, m, dn);
        lemma_inicios_anuais(s1, hoje, (n - 1) as nat, a + 1, m);
        let u = inicios_a_partir(s1, hoje, (n - 1) as nat);
        let t = inicios_a_partir(s, hoje, n);
        assert(t == seq![s] + u);
        assert forall|k: int| #![trigger t[k]] 0 <= k < t.len() implies !texto_menor(hoje, t[k])
            && (data_iso(t[k]) matches Some((x, y, _d)) && x == a + k && y == m) by {
            if k > 0 {
                assert(t[k] == u[k - 1]);
            }
        }
        assert forall|k: int| 0 <= k < t.len() - 1 implies #[trigger] t[k + 1] == mais_meses(t[k], 12) by {
            assert(t[k + 1] == u[k]);
            if k > 0 {
                assert(t[k] == u[k - 1]);
                assert(u[(k - 1) + 1] == mais_meses(u[k - 1], 12));
            }
        }
        if u.len() > 0 {
            assert(t.last() == u.last());
        } else {
            assert(t.last() == s);
        }
    }
}

/// The periods generated for an employee are every anniversary of the
/// hiring date up to today: the first starts on the hiring date, each next
/// one twelve months after the one before (the year counting up by one, the
/// month kept), none is after today, and the anniversary after the last one
/// is after today. So there are as many as whole years of work plus one.
pub proof fn lei_periodos_ate_hoje(admissao: Seq<char>, hoje: Seq<char>)
    requires
        data_sqlite(hoje) matches Some((ah, _mh, _dh)) && ah <= 9998,
        data_iso(aparado(admissao)) matches Some((a, _m, _d)) && a <= 9998,
        !texto_menor(hoje, aparado(admissao)),
    ensures
        ({
            let r = inicios_devidos(admissao, hoje);
            let (a0, m0, _d0) = data_iso(aparado(admissao))->0;
            &&& r.len() >= 1
            &&& r[0] == aparado(admissao)
            &&& forall|k: int| #![trigger r[k]] 0 <= k < r.len() ==> !texto_menor(hoje, r[k])
                && (data_iso(r[k]) matches Some((x, y, _d)) && x == a0 + k && y == m0)
            &&& forall|k: int| 0 <= k < r.len() - 1 ==> #[trigger] r[k + 1] == mais_meses(r[k], 12)
            &&& texto_menor(hoje, mais_meses(r.last(), 12))
        }),
{
    let s0 = aparado(admissao);
    let (a0, m0, d0) = data_iso(s0)->0;
    lemma_ano_nao_negativo(s0);
    let s1 = mais_meses(s0, 12);
    lemma_mais_um_ano(s0);
    let dn = if d0 < dias_no_mes(a0 + 1, m0) { d0 } else { dias_no_mes(a0 + 1, m0) };
    lemma_data_iso_formatada(a0 + 1, m0, dn);
    lemma_inicios_anuais(s1, hoje, 10000, a0 + 1, m0);
    let u = inicios_a_partir(s1, hoje, 10000);
    let r = inicios_devidos(admissao, hoje);
    assert(r == seq![s0] + u);
    assert forall|k: int| #![trigger r[k]] 0 <= k < r.len() implies !texto_menor(hoje, r[k])
        && (data_iso(r[k]) matches Some((x, y, _d)) && x == a0 + k && y == m0) by {
        if k > 0 {
            assert(r[k] == u[k - 1]);
        }
    }
    assert forall|k: int| 0 <= k < r.len() - 1 implies #[trigger] r[k + 1] == mais_meses(r[k], 12) by {
        assert(r[k + 1] == u[k]);
        if k > 0 {
            assert(r[k] == u[k - 1]);
            assert(u[(k - 1) + 1] == mais_meses(u[k - 1], 12));
        }
    }
    if u.len() > 0 {
        assert(r.last() == u.last());
    } else {
        assert(r.last() == s0);
    }
}

/// The owed starts that are not stored yet (in the order owed).
pub open spec fn faltantes(devidos: Seq<Seq<char>>, existentes: Seq<Seq<char>>) -> Seq<Seq<char>> {
    devidos.filter(|d: Seq<char>| !existentes.contains(d))
}

fn contem_texto(v: &Vec<String>, t: &String) -> (r: bool)
    ensures
        r == v@.map_values(|s: String| s@).contains(t@),
{
    let ghost vv = v@.map_values(|s: String| s@);
    let mut i: usize = 0;
    while i < v.len()
        invariant
            i <= v.len(),
            vv == v@.map_values(|s: String| s@),
            forall|j: int| 0 <= j < i ==> vv[j] != t@,
        decreases v.len() - i,
    {
        if comparar(v[i].as_str(), t.as_str()) == 0 {
            proof {
                assert(vv[i as int] == t@);
            }
            return true;
        }
        i = i + 1;
    }
    false
}

/// Of the starts owed to an employee (`gerar_periodos_do_funcionario`),
/// those the employee has no stored period for: the only ones to create.
pub fn periodos_a_criar(devidos: &Vec<String>, existentes: &Vec<String>) -> (r: Vec<String>)
    ensures
        r@.map_values(|s: String| s@) == faltantes(
            devidos@.map_values(|s: String| s@),
            existentes@.map_values(|s: String| s@),
        ),
{
    let ghost dv = devidos@.map_values(|s: String| s@);
    let ghost ev = existentes@.map_values(|s: String| s@);
    let ghost f = |d: Seq<char>| !ev.contains(d);
    let mut r: Vec<String> = Vec::new();
    let mut i: usize = 0;
    proof {
        assert(dv.take(0) =~= Seq::<Seq<char>>::empty());
        assert(r@.map_values(|s: String| s@) =~= Seq::<Seq<char>>::empty());
    }
    while i < devidos.len()
        invariant
            i <= devidos.len(),
            dv == devidos@.map_values(|s: String| s@),
            ev == existentes@.map_values(|s: String| s@),
            f == (|d: Seq<char>| !ev.contains(d)),
            r@.map_values(|s: String| s@) == dv.take(i as int).filter(f),
        decreases devidos.len() - i,
    {
        proof {
            assert(dv.take(i + 1) =~= dv.take(i as int).push(dv[i as int]));
            dv.take(i as int).lemma_filter_push(dv[i as int], f);
        }
        if !contem_texto(existentes, &devidos[i]) {
            let ghost antes = r@.map_values(|s: String| s@);
            r.push(devidos[i].clone());
            proof {
                assert(r@.map_values(|s: String| s@) =~= antes.push(dv[i as int]));
            }
        }
        i = i + 1;
    }
    proof {
        assert(dv.take(devidos.len() as int) =~= dv);
    }
    r
}

proof fn lemma_filtro_vazio(s: Seq<Seq<char>>, f: spec_fn(Seq<char>) -> bool)
    requires
        forall|i: int| 0 <= i < s.len() ==> !f(#[trigger] s[i]),
    ensures
        s.filter(f) == Seq::<Seq<char>>::empty(),
    decreases s.len(),
{
    if s.len() > 0 {
        lemma_filtro_vazio(s.drop_last(), f);
        assert(s.drop_last().push(s.last()) =~= s);
        s.drop_last().lemma_filter_push(s.last(), f);
    }
}

/// Generating the periods is repeatable: once the missing ones are stored,
/// every owed start has a period, and a second run finds nothing to create.
pub proof fn lei_periodos_gerados_uma_vez(devidos: Seq<Seq<char>>, existentes: Seq<Seq<char>>)
    ensures
        forall|i: int| 0 <= i < devidos.len() ==> (existentes + faltantes(devidos, existentes)).contains(#[trigger] devidos[i]),
        faltantes(devidos, existentes + faltantes(devidos, existentes)) == Seq::<Seq<char>>::empty(),
{
    let f = |d: Seq<char>| !existentes.contains(d);
    let c = faltantes(devidos, existentes);
    let todos = existentes + c;
    assert forall|i: int| 0 <= i < devidos.len() implies todos.contains(#[trigger] devidos[i]) by {
        if existentes.contains(devidos[i]) {
            let k = choose|k: int| 0 <= k < existentes.len() && existentes[k] == devidos[i];
            assert(todos[k] == devidos[i]);
        } else {
            devidos.lemma_filter_contains(f, i);
            let k = choose|k: int| 0 <= k < c.len() && c[k] == devidos[i];
            assert(todos[existentes.len() + k] == devidos[i]);
        }
    }
    lemma_filtro_vazio(devidos, |d: Seq<char>| !todos.contains(d));
}

/// A period to store: a fresh id, its start, and its due date 24 months
/// later (12 to acquire the right, 12 to take it).
pub struct NovoPeriodo {
    pub id: String,
    pub inicio: String,
    pub vencimento: String,
}

/// The period that starts on `inicio`, with a fresh id (or the failure of
/// the random source the id comes from).
pub fn novo_periodo(inicio: &str) -> (r: Result<NovoPeriodo, String>)
    requires
        meses_cabem(inicio@, 24),
    ensures
        r matches Ok(p) ==> p.inicio@ == inicio@ && p.vencimento@ == mais_meses(inicio@, 24) && formato_uuid(p.id@),
        r matches Err(e) ==> exists|m: Seq<char>| e@ == msg_sem_aleatorio() + m,
{
    let id = match novo_id() {
        Ok(id) => id,
        Err(e) => return Err(e),
    };
    Ok(NovoPeriodo { id, inicio: copia(inicio), vencimento: adicionar_meses(inicio, 24) })
}


// ───────────────────────── laws ─────────────────────────

/// Only live, unsettled periods due today or earlier are overdue: every
/// entry of the overdue list reports such a row, so a settled period never
/// appears there (nor, therefore, in the bell's overdue warnings).
pub proof fn lei_vencidas_so_pendentes(rs: Seq<RegistroPeriodo>, a: Agora, k: int)
    requires
        0 <= k < vencidas(rs, a).len(),
    ensures
        exists|i: int|
            #![trigger rs[i]]
            0 <= i < rs.len() && !rs[i].regularizada && registro_ativo(rs[i])
                && texto_menor_igual(rs[i].vencimento@, a.hoje@)
                && vencidas(rs, a)[k] == vencida_de(rs[i], a),
{
    let f = filtro_vencido(a);
    let fs = rs.filter(f);
    assert(vencidas(rs, a)[k] == vencida_de(fs[k], a));
    assert(fs.contains(fs[k]));
    rs.lemma_filter_contains_rev(f, fs[k]);
    let i = choose|i: int| 0 <= i < rs.len() && rs[i] == fs[k];
    rs.lemma_filter_pred(f, k);
    assert(rs[i] == fs[k]);
}

/// Every live, unsettled period due today or earlier is in the overdue
/// list.
pub proof fn lei_vencida_listada(rs: Seq<RegistroPeriodo>, i: int, a: Agora)
    requires
        0 <= i < rs.len(),
        !rs[i].regularizada,
        registro_ativo(rs[i]),
        texto_menor_igual(rs[i].vencimento@, a.hoje@),
    ensures
        vencidas(rs, a).contains(vencida_de(rs[i], a)),
{
    let f = filtro_vencido(a);
    assert(f(rs[i]));
    rs.lemma_filter_contains(f, i);
    let fs = rs.filter(f);
    let k = choose|k: int| 0 <= k < fs.len() && fs[k] == rs[i];
    assert(vencidas(rs, a)[k] == vencida_de(rs[i], a));
}

/// The automatic window opens on the due date minus twelve calendar months
/// (SQLite's `date(v, '-12 months')`): a live, unsettled period due after
/// today whose due date a year back is on or before today is listed as due
/// soon, inside the automatic window; one whose due date a year back is
/// still after today, and that has no alarm, is not listed (the periods
/// being told apart by their ids).
pub proof fn lei_janela_de_doze_meses(rs: Seq<RegistroPeriodo>, i: int, a: Agora, alerta: int)
    requires
        0 <= i < rs.len(),
        forall|j: int| 0 <= j < rs.len() && j != i ==> (#[trigger] rs[j]).id@ != rs[i].id@,
        !rs[i].regularizada,
        registro_ativo(rs[i]),
        texto_menor(a.hoje@, rs[i].vencimento@),
        data_sqlite(rs[i].vencimento@) matches Some((y, m, d)) && data_real(y, m, d),
        data_sqlite(a.hoje@) matches Some((yh, mh, dh)) && data_real(yh, mh, dh),
    ensures
        ({
            let (y, m, d) = data_sqlite(rs[i].vencimento@)->0;
            let (yh, mh, dh) = data_sqlite(a.hoje@)->0;
            let x = a_vencer_de(rs[i], a, alerta);
            &&& data_ate(y - 1, m, d, yh, mh, dh) ==> a_vencer(rs, a, alerta).contains(x)
                && x.na_janela_automatica
            &&& !data_ate(y - 1, m, d, yh, mh, dh) && rs[i].alarme_em is None ==> forall|k: int|
                0 <= k < a_vencer(rs, a, alerta).len() ==> (#[trigger] a_vencer(rs, a, alerta)[k]).id@
                    != rs[i].id@
        }),
{
    let r = rs[i];
    let (y, m, d) = data_sqlite(r.vencimento@)->0;
    let (yh, mh, dh) = data_sqlite(a.hoje@)->0;
    assert(hoje_dia(a) == dias_civis(yh, mh, dh));
    let janela = data_ate(y - 1, m, d, yh, mh, dh);
    if data_real(y - 1, m, d) {
        lei_ordem_das_datas(y - 1, m, d, yh, mh, dh);
    } else {
        assert(m == 2 && d == 29 && !bissexto(y - 1));
        lemma_29_de_fevereiro(y - 1);
        lei_ordem_das_datas(y - 1, 3, 1, yh, mh, dh);
        assert(janela == data_ate(y - 1, 3, 1, yh, mh, dh));
    }
    assert(na_janela(r.vencimento@, a) == janela);
    let f = filtro_a_vencer(a);
    let fs = rs.filter(f);
    let av = a_vencer(rs, a, alerta);
    if janela {
        assert(f(r));
        rs.lemma_filter_contains(f, i);
        let k = choose|k: int| 0 <= k < fs.len() && fs[k] == r;
        assert(av[k] == a_vencer_de(r, a, alerta));
        assert(av.contains(a_vencer_de(r, a, alerta)));
    } else if r.alarme_em is None {
        assert(!f(r));
        assert forall|k: int| 0 <= k < av.len() implies (#[trigger] av[k]).id@ != r.id@ by {
            assert(fs.contains(fs[k]));
            rs.lemma_filter_contains_rev(f, fs[k]);
            rs.lemma_filter_pred(f, k);
            let j = choose|j: int| 0 <= j < rs.len() && rs[j] == fs[k];
            assert(j != i);
            assert(av[k].id == fs[k].id);
            assert(rs[j].id@ != rs[i].id@);
        }
    }
}

/// A period is never both overdue and due soon.
pub proof fn lei_vencida_e_a_vencer_exclusivas(r: RegistroPeriodo, a: Agora)
    ensures
        !(esta_vencido(r, a) && esta_a_vencer(r, a)),
{
    lemma_texto_menor_assimetrico(a.hoje@, r.vencimento@);
}

/// A scheduled period (manual alarm) enters the due-soon list at once, even
/// before the automatic window (twelve months before the due date) begins;
/// and once the alarm date arrives the bell warns about it.
pub proof fn lei_alarme_traz_o_periodo(rs: Seq<RegistroPeriodo>, i: int, a: Agora, alerta: int)
    requires
        0 <= i < rs.len(),
        !rs[i].regularizada,
        registro_ativo(rs[i]),
        texto_menor(a.hoje@, rs[i].vencimento@),
        rs[i].alarme_em is Some,
    ensures
        a_vencer(rs, a, alerta).contains(a_vencer_de(rs[i], a, alerta)),
        disparado(rs[i].alarme_em, a) ==> notificacoes(rs, a, alerta).contains(aviso_alarme(a_vencer_de(rs[i], a, alerta))),
{
    let f = filtro_a_vencer(a);
    let x = a_vencer_de(rs[i], a, alerta);
    assert(f(rs[i]));
    rs.lemma_filter_contains(f, i);
    let filtrados = rs.filter(f);
    let k = choose|k: int| 0 <= k < filtrados.len() && filtrados[k] == rs[i];
    let av = a_vencer(rs, a, alerta);
    assert(av[k] == x);
    assert(av.contains(x));
    if disparado(rs[i].alarme_em, a) {
        assert(filtro_avisa_alarme()(x));
        av.lemma_filter_contains(filtro_avisa_alarme(), k);
        let g = av.filter(filtro_avisa_alarme());
        let j = choose|j: int| 0 <= j < g.len() && g[j] == x;
        let alarmes = g.map_values(|y: FeriasAVencer| aviso_alarme(y));
        assert(alarmes[j] == aviso_alarme(x));
        let venc = vencidas(rs, a).map_values(|v: FeriasVencida| aviso_vencida(v));
        let alertas = av.filter(filtro_avisa_alerta()).map_values(|y: FeriasAVencer| aviso_alerta(y));
        assert(notificacoes(rs, a, alerta) == venc + alarmes + alertas);
        assert((venc + alarmes + alertas)[venc.len() + j] == aviso_alarme(x));
    }
}

/// The automatic warning still applies to every period without an alarm:
/// one due soon, inside the automatic window and within the days of
/// warning, is warned about by the bell.
pub proof fn lei_alerta_sem_alarme(rs: Seq<RegistroPeriodo>, i: int, a: Agora, alerta: int)
    requires
        0 <= i < rs.len(),
        !rs[i].regularizada,
        registro_ativo(rs[i]),
        texto_menor(a.hoje@, rs[i].vencimento@),
        na_janela(rs[i].vencimento@, a),
        rs[i].alarme_em is None,
        dias_ate(rs[i].vencimento@, a) <= alerta,
    ensures
        notificacoes(rs, a, alerta).contains(aviso_alerta(a_vencer_de(rs[i], a, alerta))),
{
    let f = filtro_a_vencer(a);
    let x = a_vencer_de(rs[i], a, alerta);
    assert(f(rs[i]));
    rs.lemma_filter_contains(f, i);
    let filtrados = rs.filter(f);
    let k = choose|k: int| 0 <= k < filtrados.len() && filtrados[k] == rs[i];
    let av = a_vencer(rs, a, alerta);
    assert(av[k] == x);
    assert(filtro_avisa_alerta()(x));
    av.lemma_filter_contains(filtro_avisa_alerta(), k);
    let g = av.filter(filtro_avisa_alerta());
    let j = choose|j: int| 0 <= j < g.len() && g[j] == x;
    let alertas = g.map_values(|y: FeriasAVencer| aviso_alerta(y));
    assert(alertas[j] == aviso_alerta(x));
    let venc = vencidas(rs, a).map_values(|v: FeriasVencida| aviso_vencida(v));
    let alarmes = av.filter(filtro_avisa_alarme()).map_values(|y: FeriasAVencer| aviso_alarme(y));
    assert(notificacoes(rs, a, alerta) == venc + alarmes + alertas);
    assert((venc + alarmes + alertas)[venc.len() + alarmes.len() + j] == aviso_alerta(x));
}

/// A period with an alarm never gets the automatic warning as well (one
/// warning per fact): the alarm takes its place.
pub proof fn lei_alarme_substitui_alerta(x: FeriasAVencer)
    ensures
        !(avisa_alarme(x) && avisa_alerta(x)),
        x.agendado ==> !avisa_alerta(x),
{
}

} // verus!
