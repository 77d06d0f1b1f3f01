//! The notification window: when it opens, with what, and what its buttons
//! do. It opens for the first notification that is due: on the first check
//! of a run, any; later, one never shown, or shown long enough ago (an
//! overdue period every 10 minutes, the others every 6 hours). "Remind me
//! later" silences it until the next day. When there is nothing to notify,
//! no window stays open.
//!
//! When each notification was last shown is remembered in the settings
//! table as the text `id=seconds;id=seconds;...`.

use vstd::prelude::*;
use crate::texto::{anexar, caracteres, comparar, copia, texto_de_trecho, empurrar, valor_digito, digito_de};
use crate::numeros::{decimal, escrever_natural, u64_lido, ler_u64_trecho, valor_decimal, digitos_validos,
    inteiro_lido, lemma_decimal_digitos, lemma_decimal_valor};
use crate::datas::{separar, lemma_separar_sem_separador};
use crate::ferias::{Notificacao, PendenciaNotificacao};

verus! {

broadcast use vstd::seq_lib::group_seq_properties;

/// Seconds before an overdue period is shown again.
pub const REENVIO_VENCIDA_SEG: u64 = 600;
/// Seconds before any other notification is shown again.
pub const REENVIO_ALERTA_SEG: u64 = 21600;

/// How long a notification of kind `tipo` waits before showing again.
pub open spec fn intervalo(tipo: Seq<char>) -> int {
    if tipo == "vencida"@ { REENVIO_VENCIDA_SEG as int } else { REENVIO_ALERTA_SEG as int }
}

pub fn intervalo_de_reenvio(tipo: &str) -> (r: u64)
    ensures
        r == intervalo(tipo@),
{
    if comparar(tipo, "vencida") == 0 { REENVIO_VENCIDA_SEG } else { REENVIO_ALERTA_SEG }
}

/// The section a notification's button leads to.
pub open spec fn secao_de(tipo: Seq<char>) -> Seq<char> {
    if tipo == "vencida"@ { "cadastro-ferias-vencidas"@ } else { "ferias-a-vencer"@ }
}

pub fn secao_da_notificacao(tipo: &str) -> (r: String)
    ensures
        r@ == secao_de(tipo@),
{
    if comparar(tipo, "vencida") == 0 {
        copia("cadastro-ferias-vencidas")
    } else {
        copia("ferias-a-vencer")
    }
}

// ───────────────────────── the remembered times ─────────────────────────

/// One `id=seconds` piece: the id is what comes before the first `=`, the
/// seconds what comes after it, read as `u64`; a piece without `=` or with
/// unreadable seconds is skipped.
pub open spec fn par_lido(p: Seq<char>) -> Option<(Seq<char>, int)> {
    if exists|i: int| 0 <= i < p.len() && p[i] == '=' {
        let i = choose|i: int| 0 <= i < p.len() && p[i] == '=' && forall|j: int| 0 <= j < i ==> p[j] != '=';
        match u64_lido(p.skip(i + 1)) {
            Some(v) => Some((p.take(i), v)),
            None => None,
        }
    } else {
        None
    }
}

/// The pieces read in order; a later one for the same id wins.
pub open spec fn mapa_de(ps: Seq<Seq<char>>) -> Map<Seq<char>, int>
    decreases ps.len(),
{
    if ps.len() == 0 {
        Map::empty()
    } else {
        let m = mapa_de(ps.drop_last());
        match par_lido(ps.last()) {
            Some((k, v)) => m.insert(k, v),
            None => m,
        }
    }
}

/// The remembered times held in the text `s`.
pub open spec fn memoria_lida(s: Seq<char>) -> Map<Seq<char>, int> {
    mapa_de(separar(s, seq![';']))
}

/// The remembered times held in a list of pairs.
pub open spec fn mapa_da_memoria(m: Seq<(String, u64)>) -> Map<Seq<char>, int>
    decreases m.len(),
{
    if m.len() == 0 {
        Map::empty()
    } else {
        mapa_da_memoria(m.drop_last()).insert(m.last().0@, m.last().1 as int)
    }
}

/// No id occurs twice.
pub open spec fn ids_distintos(m: Seq<(String, u64)>) -> bool {
    forall|i: int, j: int| 0 <= i < j < m.len() ==> m[i].0@ != m[j].0@
}

proof fn lemma_mapa_sem_id(m: Seq<(String, u64)>, id: Seq<char>)
    requires
        forall|i: int| 0 <= i < m.len() ==> m[i].0@ != id,
    ensures
        !mapa_da_memoria(m).contains_key(id),
    decreases m.len(),
{
    if m.len() > 0 {
        lemma_mapa_sem_id(m.drop_last(), id);
    }
}

proof fn lemma_mapa_troca(m: Seq<(String, u64)>, k: int, novo: (String, u64))
    requires
        0 <= k < m.len(),
        ids_distintos(m),
        novo.0@ == m[k].0@,
    ensures
        mapa_da_memoria(m.update(k, novo)) == mapa_da_memoria(m).insert(novo.0@, novo.1 as int),
    decreases m.len(),
{
    if k == m.len() - 1 {
        assert(m.update(k, novo).drop_last() =~= m.drop_last());
        lemma_mapa_sem_id(m.drop_last(), novo.0@);
        assert(mapa_da_memoria(m.update(k, novo)) =~= mapa_da_memoria(m).insert(novo.0@, novo.1 as int));
    } else {
        assert(m.update(k, novo).drop_last() =~= m.drop_last().update(k, novo));
        lemma_mapa_troca(m.drop_last(), k, novo);
        assert(m.last().0@ != novo.0@);
        assert(mapa_da_memoria(m.update(k, novo)) =~= mapa_da_memoria(m).insert(novo.0@, novo.1 as int));
    }
}

/// The first `=` of `v[de..ate]`, if any.
fn primeiro_igual(v: &Vec<char>, de: usize, ate: usize) -> (r: Option<usize>)
    requires
        de <= ate <= v.len(),
    ensures
        match r {
            Some(i) => de <= i < ate && v@[i as int] == '=' && forall|j: int| de <= j < i ==> v@[j] != '=',
            None => forall|j: int| de <= j < ate ==> v@[j] != '=',
        },
{
    let mut i = de;
    while i < ate
        invariant
            de <= i <= ate <= v.len(),
            forall|j: int| de <= j < i ==> v@[j] != '=',
        decreases ate - i,
    {
        if v[i] == '=' {
            return Some(i);
        }
        i = i + 1;
    }
    None
}

/// Reads one piece `v[de..ate]`.
fn ler_par(v: &Vec<char>, de: usize, ate: usize) -> (r: Option<(String, u64)>)
    requires
        de <= ate <= v.len(),
    ensures
        match r {
            Some((k, s)) => par_lido(v@.subrange(de as int, ate as int)) == Some((k@, s as int)),
            None => par_lido(v@.subrange(de as int, ate as int)) is None,
        },
{
    let ghost p = v@.subrange(de as int, ate as int);
    match primeiro_igual(v, de, ate) {
        None => {
            proof {
                assert forall|i: int| 0 <= i < p.len() implies p[i] != '=' by {
                    assert(p[i] == v@[de + i]);
                }
            }
            None
        },
        Some(i) => {
            proof {
                let w = (i - de) as int;
                assert(p[w] == '=');
                assert forall|j: int| 0 <= j < w implies p[j] != '=' by {
                    assert(p[j] == v@[de + j]);
                }
                let c = choose|x: int| 0 <= x < p.len() && p[x] == '=' && forall|j: int| 0 <= j < x ==> p[j] != '=';
                assert(c == w) by {
                    if c < w {
                        assert(p[c] != '=');
                    } else if c > w {
                        assert(p[w] != '=');
                    }
                }
                assert(p.skip(w + 1) =~= v@.subrange(i + 1, ate as int));
                assert(p.take(w) =~= v@.subrange(de as int, i as int));
            }
            match ler_u64_trecho(v, i + 1, ate) {
                Some(s) => Some((texto_de_trecho(v, de, i), s)),
                None => None,
            }
        },
    }
}

/// Where `id` is in the list, if it is.
fn posicao_na_memoria(m: &Vec<(String, u64)>, id: &str) -> (r: Option<usize>)
    ensures
        match r {
            Some(k) => k < m.len() && m@[k as int].0@ == id@,
            None => forall|i: int| 0 <= i < m.len() ==> m@[i].0@ != id@,
        },
{
    let mut i: usize = 0;
    while i < m.len()
        invariant
            i <= m.len(),
            forall|j: int| 0 <= j < i ==> m@[j].0@ != id@,
        decreases m.len() - i,
    {
        if comparar(m[i].0.as_str(), id) == 0 {
            return Some(i);
        }
        i = i + 1;
    }
    None
}

/// Remembers that `id` was shown at `segundos` (replacing an earlier time).
pub fn lembrar(m: &mut Vec<(String, u64)>, id: &str, segundos: u64)
    requires
        ids_distintos(old(m)@),
    ensures
        ids_distintos(final(m)@),
        mapa_da_memoria(final(m)@) == mapa_da_memoria(old(m)@).insert(id@, segundos as int),
{
    match posicao_na_memoria(m, id) {
        Some(k) => {
            let ghost antes = m@;
            let novo = (copia(id), segundos);
            m.set(k, novo);
            proof {
                lemma_mapa_troca(antes, k as int, novo);
            }
        },
        None => {
            let ghost antes = m@;
            m.push((copia(id), segundos));
            proof {
                assert(m@.drop_last() =~= antes);
            }
        },
    }
}

/// The remembered times held in a text (`HashMap` semantics: a later piece
/// for the same id wins).
pub fn ler_memoria(texto: &str) -> (r: Vec<(String, u64)>)
    ensures
        ids_distintos(r@),
        mapa_da_memoria(r@) == memoria_lida(texto@),
{
    let v = caracteres(texto);
    let ghost seps = seq![';'];
    let mut r: Vec<(String, u64)> = Vec::new();
    let mut inicio: usize = 0;
    let mut i: usize = 0;
    proof {
        assert(v@.take(0) =~= Seq::<char>::empty());
        assert(separar(v@.take(0), seps) =~= seq![Seq::<char>::empty()]);
        assert(separar(v@.take(0), seps).drop_last() =~= Seq::<Seq<char>>::empty());
        assert(v@.subrange(0, 0) =~= Seq::<char>::empty());
    }
    while i < v.len()
        invariant
            inicio <= i <= v.len(),
            v@ == texto@,
            seps == seq![';'],
            ids_distintos(r@),
            separar(v@.take(i as int), seps).last() == v@.subrange(inicio as int, i as int),
            separar(v@.take(i as int), seps).len() >= 1,
            mapa_da_memoria(r@) == mapa_de(separar(v@.take(i as int), seps).drop_last()),
        decreases v.len() - i,
    {
        let ghost ps = separar(v@.take(i as int), seps);
        proof {
            assert(v@.take(i + 1).drop_last() =~= v@.take(i as int));
            assert(v@.take(i + 1).last() == v@[i as int]);
        }
        if v[i] == ';' {
            let par = ler_par(&v, inicio, i);
            proof {
                assert(separar(v@.take(i + 1), seps) == ps.push(Seq::<char>::empty()));
                assert(separar(v@.take(i + 1), seps).drop_last() =~= ps);
                assert(ps =~= ps.drop_last().push(ps.last()));
            }
            if let Some((k, s)) = par {
                lembrar(&mut r, k.as_str(), s);
            }
            inicio = i + 1;
            proof {
                assert(v@.subrange(inicio as int, i + 1) =~= Seq::<char>::empty());
            }
        } else {
            proof {
                assert(seps.contains(v@[i as int]) == false);
                assert(separar(v@.take(i + 1), seps) == ps.update(ps.len() - 1, ps.last().push(v@[i as int])));
                assert(separar(v@.take(i + 1), seps).drop_last() =~= ps.drop_last());
                assert(v@.subrange(inicio as int, i + 1) =~= v@.subrange(inicio as int, i as int).push(v@[i as int]));
            }
        }
        i = i + 1;
    }
    let ghost ps = separar(v@, seps);
    proof {
        assert(v@.take(v.len() as int) =~= v@);
        assert(ps =~= ps.drop_last().push(ps.last()));
    }
    if let Some((k, s)) = ler_par(&v, inicio, v.len()) {
        lembrar(&mut r, k.as_str(), s);
    }
    r
}

/// The text written for a list of remembered times: `id=seconds` pieces
/// joined by `;`, in the list's order.
pub open spec fn memoria_escrita(m: Seq<(String, u64)>) -> Seq<char>
    decreases m.len(),
{
    if m.len() == 0 {
        Seq::empty()
    } else if m.len() == 1 {
        m[0].0@ + "="@ + decimal(m[0].1 as nat)
    } else {
        memoria_escrita(m.drop_last()) + ";"@ + m.last().0@ + "="@ + decimal(m.last().1 as nat)
    }
}

/// Writes the remembered times as text.
pub fn escrever_memoria(m: &Vec<(String, u64)>) -> (r: String)
    ensures
        r@ == memoria_escrita(m@),
{
    let mut r = String::new();
    let mut i: usize = 0;
    proof {
        assert(m@.take(0) =~= Seq::<(String, u64)>::empty());
    }
    while i < m.len()
        invariant
            i <= m.len(),
            r@ == memoria_escrita(m@.take(i as int)),
        decreases m.len() - i,
    {
        proof {
            assert(m@.take(i + 1).drop_last() =~= m@.take(i as int));
            assert(m@.take(i + 1).last() == m@[i as int]);
        }
        if i > 0 {
            anexar(&mut r, ";");
        }
        anexar(&mut r, m[i].0.as_str());
        anexar(&mut r, "=");
        escrever_natural(&mut r, m[i].1);
        proof {
            if i == 0 {
                assert(m@.take(1) =~= seq![m@[0]]);
            }
        }
        i = i + 1;
    }
    proof {
        assert(m@.take(m.len() as int) =~= m@);
    }
    r
}


// ───────────────────────── reading back what was written ─────────────────────────

/// A piece of the written text.
pub open spec fn peca(p: (String, u64)) -> Seq<char> {
    p.0@ + "="@ + decimal(p.1 as nat)
}

/// Ids that the text form can carry: no `;` and no `=`.
pub open spec fn id_gravavel(id: Seq<char>) -> bool {
    forall|i: int| 0 <= i < id.len() ==> id[i] != ';' && id[i] != '='
}

proof fn lemma_decimal_sem_separador(n: nat)
    ensures
        forall|i: int| 0 <= i < decimal(n).len() ==> decimal(n)[i] != ';' && decimal(n)[i] != '=',
{
    lemma_decimal_digitos(n);
    assert forall|i: int| 0 <= i < decimal(n).len() implies decimal(n)[i] != ';' && decimal(n)[i] != '=' by {
        assert(crate::texto::eh_digito(decimal(n)[i]));
    }
}

proof fn lemma_separar_escrita(m: Seq<(String, u64)>)
    requires
        m.len() >= 1,
        forall|i: int| 0 <= i < m.len() ==> id_gravavel(#[trigger] m[i].0@),
    ensures
        separar(memoria_escrita(m), seq![';']) == m.map_values(|p: (String, u64)| peca(p)),
    decreases m.len(),
{
    let seps = seq![';'];
    let last = m.last();
    reveal_strlit("=");
    reveal_strlit(";");
    lemma_decimal_sem_separador(last.1 as nat);
    assert(id_gravavel(m[m.len() - 1].0@));
    assert forall|i: int| 0 <= i < peca(last).len() implies !seps.contains(peca(last)[i]) by {
        if i < last.0@.len() {
            assert(peca(last)[i] == last.0@[i]);
        } else if i == last.0@.len() {
            assert(peca(last)[i] == '=');
        } else {
            assert(peca(last)[i] == decimal(last.1 as nat)[i - last.0@.len() - 1]);
        }
    }
    if m.len() == 1 {
        assert(separar(Seq::<char>::empty(), seps) =~= seq![Seq::<char>::empty()]);
        lemma_separar_sem_separador(Seq::<char>::empty(), peca(last), seps);
        assert(Seq::<char>::empty() + peca(last) =~= peca(last));
        assert(memoria_escrita(m) =~= peca(m[0]));
        assert(m.map_values(|p: (String, u64)| peca(p)) =~= seq![peca(last)]);
    } else {
        let m1 = m.drop_last();
        assert forall|i: int| 0 <= i < m1.len() implies id_gravavel(#[trigger] m1[i].0@) by {
            assert(m1[i] == m[i]);
        }
        lemma_separar_escrita(m1);
        let a = memoria_escrita(m1) + ";"@;
        assert(a.drop_last() =~= memoria_escrita(m1));
        assert(a.last() == ';');
        assert(separar(a, seps) == separar(memoria_escrita(m1), seps).push(Seq::<char>::empty()));
        lemma_separar_sem_separador(a, peca(last), seps);
        assert(memoria_escrita(m) =~= a + peca(last));
        assert(Seq::<char>::empty() + peca(last) =~= peca(last));
        assert(m.map_values(|p: (String, u64)| peca(p)) =~= m1.map_values(|p: (String, u64)| peca(p)).push(peca(last)));
    }
}

proof fn lemma_peca_lida(p: (String, u64))
    requires
        id_gravavel(p.0@),
    ensures
        par_lido(peca(p)) == Some((p.0@, p.1 as int)),
{
    reveal_strlit("=");
    let s = peca(p);
    let w = p.0@.len() as int;
    assert(s[w] == '=');
    assert forall|j: int| 0 <= j < w implies s[j] != '=' by {
        assert(s[j] == p.0@[j]);
    }
    let c = choose|x: int| 0 <= x < s.len() && s[x] == '=' && forall|j: int| 0 <= j < x ==> s[j] != '=';
    assert(c == w) by {
        if c < w {
            assert(s[c] != '=');
        } else if c > w {
            assert(s[w] != '=');
        }
    }
    assert(s.take(w) =~= p.0@);
    assert(s.skip(w + 1) =~= decimal(p.1 as nat));
    lemma_decimal_valor(p.1 as nat);
    let d = decimal(p.1 as nat);
    assert(crate::texto::eh_digito(d[0]));
    assert(inteiro_lido(d, false) == Some(valor_decimal(d)));
}

proof fn lemma_mapa_das_pecas(m: Seq<(String, u64)>)
    requires
        forall|i: int| 0 <= i < m.len() ==> id_gravavel(#[trigger] m[i].0@),
    ensures
        mapa_de(m.map_values(|p: (String, u64)| peca(p))) == mapa_da_memoria(m),
    decreases m.len(),
{
    if m.len() > 0 {
        let m1 = m.drop_last();
        assert forall|i: int| 0 <= i < m1.len() implies id_gravavel(#[trigger] m1[i].0@) by {
            assert(m1[i] == m[i]);
        }
        lemma_mapa_das_pecas(m1);
        assert(m.map_values(|p: (String, u64)| peca(p)).drop_last() =~= m1.map_values(|p: (String, u64)| peca(p)));
        assert(id_gravavel(m[m.len() - 1].0@));
        lemma_peca_lida(m.last());
    }
}

/// What is written is read back: for ids without `;` or `=`, reading the
/// text written for a list of remembered times gives the same times.
pub proof fn lei_memoria_relida(m: Seq<(String, u64)>)
    requires
        forall|i: int| 0 <= i < m.len() ==> id_gravavel(#[trigger] m[i].0@),
    ensures
        memoria_lida(memoria_escrita(m)) == mapa_da_memoria(m),
{
    if m.len() == 0 {
        assert(separar(Seq::<char>::empty(), seq![';']) =~= seq![Seq::<char>::empty()]);
        let e = Seq::<char>::empty();
        assert(!(exists|i: int| 0 <= i < e.len() && e[i] == '='));
        assert(seq![e].drop_last() =~= Seq::<Seq<char>>::empty());
        assert(seq![e].last() == e);
        assert(par_lido(e) is None);
        assert(mapa_de(Seq::<Seq<char>>::empty()) =~= Map::<Seq<char>, int>::empty());
        assert(mapa_de(seq![e]) =~= Map::<Seq<char>, int>::empty());
    } else {
        lemma_separar_escrita(m);
        lemma_mapa_das_pecas(m);
    }
}

// ───────────────────────── when the window opens ─────────────────────────

/// Is the notification due: on the first check of a run always; later,
/// when never shown, or shown at least its interval ago.
pub open spec fn devida(n: Notificacao, memoria: Map<Seq<char>, int>, agora: int, primeira: bool) -> bool {
    primeira || if memoria.contains_key(n.id@) {
        (if agora >= memoria[n.id@] { agora - memoria[n.id@] } else { 0 }) >= intervalo(n.tipo@)
    } else {
        true
    }
}

proof fn lemma_mapa_com_id(m: Seq<(String, u64)>, k: int)
    requires
        ids_distintos(m),
        0 <= k < m.len(),
    ensures
        mapa_da_memoria(m).contains_key(m[k].0@),
        mapa_da_memoria(m)[m[k].0@] == m[k].1 as int,
    decreases m.len(),
{
    if k < m.len() - 1 {
        lemma_mapa_com_id(m.drop_last(), k);
    }
}

/// When `id` was last shown, if it was.
pub fn tempo_lembrado(m: &Vec<(String, u64)>, id: &str) -> (r: Option<u64>)
    requires
        ids_distintos(m@),
    ensures
        match r {
            Some(t) => mapa_da_memoria(m@).contains_key(id@) && mapa_da_memoria(m@)[id@] == t as int,
            None => !mapa_da_memoria(m@).contains_key(id@),
        },
{
    match posicao_na_memoria(m, id) {
        Some(k) => {
            proof {
                lemma_mapa_com_id(m@, k as int);
            }
            Some(m[k].1)
        },
        None => {
            proof {
                lemma_mapa_sem_id(m@, id@);
            }
            None
        },
    }
}

/// The first notification due, if any.
pub fn proxima_pendencia(atuais: &Vec<Notificacao>, memoria: &Vec<(String, u64)>, agora: u64, primeira: bool) -> (r: Option<usize>)
    requires
        ids_distintos(memoria@),
    ensures
        match r {
            Some(k) => k < atuais.len() && devida(atuais@[k as int], mapa_da_memoria(memoria@), agora as int, primeira)
                && forall|j: int| 0 <= j < k ==> !devida(#[trigger] atuais@[j], mapa_da_memoria(memoria@), agora as int, primeira),
            None => forall|j: int| 0 <= j < atuais.len() ==> !devida(#[trigger] atuais@[j], mapa_da_memoria(memoria@), agora as int, primeira),
        },
{
    let mut i: usize = 0;
    while i < atuais.len()
        invariant
            i <= atuais.len(),
            ids_distintos(memoria@),
            forall|j: int| 0 <= j < i ==> !devida(#[trigger] atuais@[j], mapa_da_memoria(memoria@), agora as int, primeira),
        decreases atuais.len() - i,
    {
        let n = &atuais[i];
        let e = primeira || match tempo_lembrado(memoria, n.id.as_str()) {
            Some(u) => {
                let passou: u64 = if agora >= u { agora - u } else { 0 };
                passou >= intervalo_de_reenvio(n.tipo.as_str())
            },
            None => true,
        };
        if e {
            return Some(i);
        }
        i = i + 1;
    }
    None
}

/// What a check decides.
pub enum DecisaoNotificacao {
    /// Nothing to notify at all: close any window left open.
    Fechar,
    /// Nothing due now (or silenced, or a window is already open).
    Nada,
    /// Show this one, and save the remembered times as this text.
    Abrir { pendencia: PendenciaNotificacao, memoria: String },
}

/// The remembered times in the saved text, if any.
pub open spec fn memoria_salva_lida(salva: Option<String>) -> Map<Seq<char>, int> {
    match salva {
        Some(t) => memoria_lida(t@),
        None => memoria_lida(Seq::empty()),
    }
}

/// Did a check show notification `n` at `agora`, with pending item `p`
/// and saved memory `texto`?
pub open spec fn abre_com(
    p: PendenciaNotificacao,
    texto: String,
    n: Notificacao,
    salva: Option<String>,
    agora: int,
) -> bool {
    &&& p.id@ == n.id@
    &&& p.tipo@ == n.tipo@
    &&& p.titulo@ == n.titulo@
    &&& p.mensagem@ == n.mensagem@
    &&& p.secao@ == secao_de(n.tipo@)
    &&& exists|l: Seq<(String, u64)>| ids_distintos(l)
        && mapa_da_memoria(l) == memoria_salva_lida(salva).insert(n.id@, agora)
        && texto@ == memoria_escrita(l)
}

/// One check of the notification window, on the flag that says whether
/// this run already checked once. Silenced today, or a window already
/// open: nothing, and the flag is kept. Otherwise the flag is set, and:
/// nothing to notify ⇒ close; else the first notification due opens, and
/// is remembered as shown now; none due ⇒ nothing.
pub fn verificar_notificacoes_os(
    ja_verificou: bool,
    soneca: &Option<String>,
    hoje: &str,
    janela_aberta: bool,
    atuais: &Vec<Notificacao>,
    memoria_salva: &Option<String>,
    agora: u64,
) -> (r: (bool, DecisaoNotificacao))
    ensures
        (soneca matches Some(s) && s@ == hoje@) || janela_aberta ==> r.0 == ja_verificou && r.1 is Nada,
        !((soneca matches Some(s) && s@ == hoje@) || janela_aberta) ==> {
            &&& r.0
            &&& atuais.len() == 0 ==> r.1 is Fechar
            &&& atuais.len() > 0 ==> {
                ||| (forall|j: int| 0 <= j < atuais.len()
                    ==> !devida(#[trigger] atuais@[j], memoria_salva_lida(*memoria_salva), agora as int, !ja_verificou))
                    && r.1 is Nada
                ||| exists|k: int| 0 <= k < atuais.len()
                    && devida(atuais@[k], memoria_salva_lida(*memoria_salva), agora as int, !ja_verificou)
                    && (forall|j: int| 0 <= j < k ==> !devida(#[trigger] atuais@[j], memoria_salva_lida(*memoria_salva), agora as int, !ja_verificou))
                    && (r.1 matches DecisaoNotificacao::Abrir { pendencia, memoria }
                        && abre_com(pendencia, memoria, atuais@[k], *memoria_salva, agora as int))
            }
        },
{
    let silenciada = match soneca {
        Some(s) => comparar(s.as_str(), hoje) == 0,
        None => false,
    };
    if silenciada || janela_aberta {
        return (ja_verificou, DecisaoNotificacao::Nada);
    }
    if atuais.len() == 0 {
        return (true, DecisaoNotificacao::Fechar);
    }
    let mut memoria = match memoria_salva {
        Some(t) => ler_memoria(t.as_str()),
        None => ler_memoria(""),
    };
    proof {
        let v: &str = "";
        assert(v@ == Seq::<char>::empty()) by { reveal_strlit(""); }
    }
    match proxima_pendencia(atuais, &memoria, agora, !ja_verificou) {
        None => (true, DecisaoNotificacao::Nada),
        Some(k) => {
            let n = &atuais[k];
            lembrar(&mut memoria, n.id.as_str(), agora);
            let texto = escrever_memoria(&memoria);
            let pendencia = PendenciaNotificacao {
                id: n.id.clone(),
                tipo: n.tipo.clone(),
                titulo: n.titulo.clone(),
                mensagem: n.mensagem.clone(),
                secao: secao_da_notificacao(n.tipo.as_str()),
            };
            proof {
                assert(abre_com(pendencia, texto, atuais@[k as int], *memoria_salva, agora as int));
            }
            (true, DecisaoNotificacao::Abrir { pendencia, memoria: texto })
        },
    }
}

/// What a button of the notification window does.
pub enum AcaoNotificacao {
    /// "Remind me later": silence until tomorrow, and save the remembered
    /// times as this text (the notification counts as shown now).
    Sonecar { memoria: String },
    /// Any other button: show the main window at this section.
    IrPara(String),
}

/// The section the other buttons lead to when none is given.
pub open spec fn secao_padrao() -> Seq<char> {
    "cadastro-ferias-vencidas"@
}

/// The effect of a button of the notification window (the window closes
/// either way).
pub fn acao_notificacao(id: &str, acao: &str, secao: &str, memoria_salva: &Option<String>, agora: u64) -> (r: AcaoNotificacao)
    ensures
        acao@ == "lembrar"@ ==> (r matches AcaoNotificacao::Sonecar { memoria } && exists|l: Seq<(String, u64)>|
            ids_distintos(l) && mapa_da_memoria(l) == memoria_salva_lida(*memoria_salva).insert(id@, agora as int)
                && memoria@ == memoria_escrita(l)),
        acao@ != "lembrar"@ ==> (r matches AcaoNotificacao::IrPara(s)
            && s@ == if secao@.len() == 0 { secao_padrao() } else { secao@ }),
{
    if comparar(acao, "lembrar") == 0 {
        let mut memoria = match memoria_salva {
            Some(t) => ler_memoria(t.as_str()),
            None => ler_memoria(""),
        };
        proof {
            let v: &str = "";
            assert(v@ == Seq::<char>::empty()) by { reveal_strlit(""); }
        }
        lembrar(&mut memoria, id, agora);
        let texto = escrever_memoria(&memoria);
        AcaoNotificacao::Sonecar { memoria: texto }
    } else {
        let destino = if caracteres(secao).len() == 0 { copia("cadastro-ferias-vencidas") } else { copia(secao) };
        AcaoNotificacao::IrPara(destino)
    }
}

} // verus!
