//! Synchronisation of the local database with the cloud account.
//!
//! The local database stays the source the screens read and write. A cycle
//! first sends the local rows changed since the last send (creations and
//! edits parents first, removals children first), then brings the rows
//! changed in the cloud since the last pull, applying each one only when it
//! is not older than the local copy (last write wins by `updated_at`; on a
//! tie the cloud wins). Timestamps are compared as text in the local
//! `YYYY-MM-DD HH:MM:SS` form.
//!
//! The caller does the HTTP exchanges and the SQL; this module decides what
//! is sent, what is asked, and what a received row does to the local one.

use vstd::prelude::*;
use crate::texto::{
    aparado, aparar, anexar, caracteres, comparar, copia, em_branco, empurrar, texto_de_trecho,
    texto_menor, texto_menor_igual, lemma_texto_menor_transitivo, lemma_texto_menor_total,
    lemma_texto_menor_assimetrico, bytes_do_caractere, bytes_utf8, lemma_bytes_crescem, bytes_de,
};
use crate::json::{ValorJson, membro, obter, texto_de, texto_do_membro, booleano_de, booleano_do_membro,
    json_lido, json_escrito, ler_json, escrever_json, gravavel, raso, escalar};
use crate::numeros::{decimal, escrever_natural, com_zeros_int, escrever_inteiro_com_zeros};
use crate::texto::{eh_digito, valor_digito, digito};
use crate::cnpj::{digitos_iniciais, lemma_digitos_iniciais};
use crate::datas::{data_sqlite, ler_data_sqlite, dias_civis, civil_de_dias, dias_desde_civil, civil_desde_dias,
    formatar_iso, escrever_iso, lemma_data_sqlite_limites, lemma_limites_dias_civis};
use crate::usuarios::{super_usuario, eh_super_usuario};

verus! {

broadcast use vstd::seq_lib::group_seq_properties;

// ───────────────────────── what the screens see ─────────────────────────

/// The state of the synchronisation shown on the settings screen.
pub struct EstadoSync {
    /// Is a cloud account configured on this device?
    pub conectado: bool,
    /// E-mail of the configured account.
    pub email: Option<String>,
    /// When the last successful cycle ended.
    pub ultima_sync: Option<String>,
}

/// What one cycle did.
pub struct ResumoSync {
    pub enviados: usize,
    pub recebidos: usize,
    /// Problems that did not stop the cycle (a row whose parent has not
    /// arrived yet, a row the cloud refused).
    pub avisos: Vec<String>,
}

/// What is needed to connect the cloud account.
pub struct ConfiguracaoConexao {
    pub projeto_url: String,
    pub anon_key: String,
    pub email: String,
    pub senha: String,
}

// ───────────────────────── server timestamps ─────────────────────────

/// Can the first 19 bytes of the trimmed text be cut off (it is shorter, or
/// byte 19 falls between two characters)? Elsewhere the cut panics.
pub open spec fn ts_cortavel(s: Seq<char>) -> bool {
    let t = aparado(s);
    bytes_utf8(t) < 19 || exists|k: int| 0 <= k <= t.len() && bytes_utf8(#[trigger] t.take(k)) == 19
}

/// `T` replaced by a space.
pub open spec fn sem_t(s: Seq<char>) -> Seq<char> {
    s.map_values(|c: char| if c == 'T' { ' ' } else { c })
}

/// Length of the fraction of a second that may follow the seconds (`.`
/// and its digits).
pub open spec fn fracao(r: Seq<char>) -> nat {
    if r.len() > 0 && r[0] == '.' { 1 + digitos_iniciais(r.drop_first()) } else { 0 }
}

/// The number written by two digits.
pub open spec fn dois_digitos(a: char, b: char) -> int {
    10 * valor_digito(a) + valor_digito(b)
}

pub open spec fn eh_sinal(c: char) -> bool {
    c == '+' || c == '-'
}

pub open spec fn sinal(c: char) -> int {
    if c == '-' { -1 } else { 1 }
}

/// The offset from UTC, in minutes, written after the time: `±HH:MM`,
/// `±HHMM` or `±HH`; `Z`, nothing or anything else count as UTC.
pub open spec fn desvio_do_fuso(f: Seq<char>) -> int {
    if f.len() == 6 && eh_sinal(f[0]) && eh_digito(f[1]) && eh_digito(f[2]) && f[3] == ':' && eh_digito(f[4])
        && eh_digito(f[5]) {
        sinal(f[0]) * (dois_digitos(f[1], f[2]) * 60 + dois_digitos(f[4], f[5]))
    } else if f.len() == 5 && eh_sinal(f[0]) && eh_digito(f[1]) && eh_digito(f[2]) && eh_digito(f[3])
        && eh_digito(f[4]) {
        sinal(f[0]) * (dois_digitos(f[1], f[2]) * 60 + dois_digitos(f[3], f[4]))
    } else if f.len() == 3 && eh_sinal(f[0]) && eh_digito(f[1]) && eh_digito(f[2]) {
        sinal(f[0]) * (dois_digitos(f[1], f[2]) * 60)
    } else {
        0
    }
}

/// The offset written after the seconds (and their fraction).
pub open spec fn desvio_minutos(resto: Seq<char>) -> int {
    desvio_do_fuso(resto.skip(fracao(resto) as int))
}

/// Is `b` a readable `YYYY-MM-DD HH:MM:SS`?
pub open spec fn hora_legivel(b: Seq<char>) -> bool {
    &&& b.len() == 19
    &&& b[10] == ' ' && b[13] == ':' && b[16] == ':'
    &&& eh_digito(b[11]) && eh_digito(b[12]) && eh_digito(b[14]) && eh_digito(b[15])
    &&& eh_digito(b[17]) && eh_digito(b[18])
    &&& data_sqlite(b.subrange(0, 10)) is Some
    &&& dois_digitos(b[11], b[12]) <= 23 && dois_digitos(b[14], b[15]) <= 59
}

/// The local time `b` (`YYYY-MM-DD HH:MM:SS`) written at an offset of `desvio`
/// minutes, moved to UTC (the date changes when the time crosses midnight).
/// A time that cannot be read stays as it is.
pub open spec fn em_utc(b: Seq<char>, desvio: int) -> Seq<char> {
    if desvio == 0 || !hora_legivel(b) {
        b
    } else {
        let (y, m, d) = data_sqlite(b.subrange(0, 10))->Some_0;
        let x = dois_digitos(b[11], b[12]) * 60 + dois_digitos(b[14], b[15]) - desvio;
        let minuto = x % 1440;
        match civil_de_dias(dias_civis(y, m, d) + x / 1440) {
            None => b,
            Some((y2, m2, d2)) => formatar_iso(y2, m2, d2) + seq![' '] + com_zeros_int(minuto / 60, 2)
                + seq![':'] + com_zeros_int(minuto % 60, 2) + b.subrange(16, 19),
        }
    }
}

/// The local form of a server timestamp: the first 19 bytes of the trimmed
/// text (`YYYY-MM-DDTHH:MM:SS`), with the `T` made a space, moved to UTC by
/// the offset written after it; none when the trimmed text is shorter.
pub open spec fn ts_normalizado(s: Seq<char>) -> Option<Seq<char>> {
    let t = aparado(s);
    if bytes_utf8(t) < 19 {
        None
    } else {
        let k = choose|k: int| 0 <= k <= t.len() && bytes_utf8(#[trigger] t.take(k)) == 19;
        Some(em_utc(sem_t(t.take(k)), desvio_minutos(t.skip(k))))
    }
}

fn valor_do_digito(c: char) -> (r: i64)
    requires
        eh_digito(c),
    ensures
        r == valor_digito(c),
        0 <= r <= 9,
{
    (c as u32 - '0' as u32) as i64
}

/// The offset written in `t` from position `k` on.
fn desvio_do_sufixo(t: &Vec<char>, k: usize) -> (r: i64)
    requires
        k <= t.len(),
    ensures
        r == desvio_minutos(t@.skip(k as int)),
        -6039 <= r <= 6039,
{
    let ghost resto = t@.skip(k as int);
    let mut i = k;
    if i < t.len() && t[i] == '.' {
        i = i + 1;
        while i < t.len() && digito(t[i])
            invariant
                k + 1 <= i <= t.len(),
                forall|j: int| k + 1 <= j < i ==> eh_digito(#[trigger] t@[j]),
            decreases t.len() - i,
        {
            i = i + 1;
        }
        proof {
            let r1 = resto.drop_first();
            assert forall|j: int| 0 <= j < i - k - 1 implies eh_digito(#[trigger] r1[j]) by {
                assert(r1[j] == t@[j + k + 1]);
            }
            if i < t.len() {
                assert(r1[i - k - 1] == t@[i as int]);
            }
            lemma_digitos_iniciais(r1, i - k - 1);
        }
    }
    proof {
        assert(fracao(resto) == i - k);
        assert(resto.skip(i - k) =~= t@.skip(i as int));
    }
    let ghost f = t@.skip(i as int);
    let n = t.len() - i;
    if n == 6 && (t[i] == '+' || t[i] == '-') && digito(t[i + 1]) && digito(t[i + 2]) && t[i + 3] == ':'
        && digito(t[i + 4]) && digito(t[i + 5]) {
        assert(f[0] == t@[i as int] && f[1] == t@[i + 1] && f[2] == t@[i + 2] && f[3] == t@[i + 3]
            && f[4] == t@[i + 4] && f[5] == t@[i + 5]);
        let h = valor_do_digito(t[i + 1]) * 10 + valor_do_digito(t[i + 2]);
        let m = valor_do_digito(t[i + 4]) * 10 + valor_do_digito(t[i + 5]);
        if t[i] == '-' { -(h * 60 + m) } else { h * 60 + m }
    } else if n == 5 && (t[i] == '+' || t[i] == '-') && digito(t[i + 1]) && digito(t[i + 2]) && digito(t[i + 3])
        && digito(t[i + 4]) {
        assert(f[0] == t@[i as int] && f[1] == t@[i + 1] && f[2] == t@[i + 2] && f[3] == t@[i + 3]
            && f[4] == t@[i + 4]);
        let h = valor_do_digito(t[i + 1]) * 10 + valor_do_digito(t[i + 2]);
        let m = valor_do_digito(t[i + 3]) * 10 + valor_do_digito(t[i + 4]);
        if t[i] == '-' { -(h * 60 + m) } else { h * 60 + m }
    } else if n == 3 && (t[i] == '+' || t[i] == '-') && digito(t[i + 1]) && digito(t[i + 2]) {
        assert(f[0] == t@[i as int] && f[1] == t@[i + 1] && f[2] == t@[i + 2]);
        let h = valor_do_digito(t[i + 1]) * 10 + valor_do_digito(t[i + 2]);
        if t[i] == '-' { -(h * 60) } else { h * 60 }
    } else {
        proof {
            if f.len() == 6 && eh_sinal(f[0]) {
                assert(f[0] == t@[i as int] && f[1] == t@[i + 1] && f[2] == t@[i + 2] && f[3] == t@[i + 3]
                    && f[4] == t@[i + 4] && f[5] == t@[i + 5]);
            }
            if f.len() == 5 && eh_sinal(f[0]) {
                assert(f[0] == t@[i as int] && f[1] == t@[i + 1] && f[2] == t@[i + 2] && f[3] == t@[i + 3]
                    && f[4] == t@[i + 4]);
            }
            if f.len() == 3 && eh_sinal(f[0]) {
                assert(f[0] == t@[i as int] && f[1] == t@[i + 1] && f[2] == t@[i + 2]);
            }
        }
        0
    }
}

/// `em_utc` of a base time.
#[verifier::spinoff_prover]
#[verifier::rlimit(40)]
fn para_utc(b: &Vec<char>, desvio: i64) -> (r: String)
    requires
        -6039 <= desvio <= 6039,
    ensures
        r@ == em_utc(b@, desvio as int),
{
    if desvio == 0 || b.len() != 19 || b[10] != ' ' || b[13] != ':' || b[16] != ':' || !digito(b[11])
        || !digito(b[12]) || !digito(b[14]) || !digito(b[15]) || !digito(b[17]) || !digito(b[18]) {
        return texto_de_trecho(b, 0, b.len());
    }
    let data = texto_de_trecho(b, 0, 10);
    let (y, m, d) = match ler_data_sqlite(data.as_str()) {
        Some(x) => x,
        None => return texto_de_trecho(b, 0, b.len()),
    };
    let h = valor_do_digito(b[11]) * 10 + valor_do_digito(b[12]);
    let mi = valor_do_digito(b[14]) * 10 + valor_do_digito(b[15]);
    if h > 23 || mi > 59 {
        return texto_de_trecho(b, 0, b.len());
    }
    proof {
        lemma_data_sqlite_limites(b@.subrange(0, 10));
        lemma_limites_dias_civis(y as int, m as int, d as int);
        assert(hora_legivel(b@));
    }
    let x = h * 60 + mi - desvio;
    let xx = x + 7200;
    let q = xx / 1440 - 5;
    let minuto = xx % 1440;
    proof {
        assert(q == x / 1440 && minuto == x % 1440) by (nonlinear_arith)
            requires
                xx == x + 7200,
                xx >= 0,
                q == xx / 1440 - 5,
                minuto == xx % 1440,
        ;
    }
    let dias = dias_desde_civil(y, m, d);
    let (y2, m2, d2) = match civil_desde_dias(dias + q) {
        Some(v) => v,
        None => return texto_de_trecho(b, 0, b.len()),
    };
    let mut r = escrever_iso(y2, m2, d2);
    empurrar(&mut r, ' ');
    escrever_inteiro_com_zeros(&mut r, minuto / 60, 2);
    empurrar(&mut r, ':');
    escrever_inteiro_com_zeros(&mut r, minuto % 60, 2);
    empurrar(&mut r, b[16]);
    empurrar(&mut r, b[17]);
    empurrar(&mut r, b[18]);
    proof {
        assert(b@.subrange(16, 19) =~= seq![b@[16], b@[17], b@[18]]);
    }
    r
}

/// Where the first 19 bytes of the trimmed text end, in characters, with
/// the bytes up to there, if the text has that many bytes.
fn corte_de(t: &Vec<char>) -> (r: Option<(usize, usize)>)
    ensures
        match r {
            Some((k, b)) => 0 < k <= t.len() && b == bytes_utf8(t@.take(k as int)) && b >= 19
                && bytes_utf8(t@.take(k - 1)) < 19 && bytes_utf8(t@) >= 19,
            None => bytes_utf8(t@) < 19,
        },
{
    let mut i: usize = 0;
    let mut b: usize = 0;
    while i < t.len()
        invariant
            i <= t.len(),
            b == bytes_utf8(t@.take(i as int)),
            b < 19,
        decreases t.len() - i,
    {
        proof {
            assert(t@.take(i + 1).drop_last() =~= t@.take(i as int));
        }
        b = b + bytes_de(t[i]);
        i = i + 1;
        if b >= 19 {
            proof {
                lemma_bytes_crescem(t@, i as int, t@.len() as int);
                assert(t@.take(t@.len() as int) =~= t@);
            }
            return Some((i, b));
        }
    }
    proof {
        assert(t@.take(t.len() as int) =~= t@);
    }
    None
}

/// Is `ts_cortavel(valor)`? (Test it before `normalizar_ts_servidor`.)
pub fn corte_valido(valor: &str) -> (r: bool)
    ensures
        r == ts_cortavel(valor@),
{
    let t = caracteres(aparar(valor).as_str());
    match corte_de(&t) {
        None => true,
        Some((k, b)) => {
            proof {
                if b != 19 {
                    assert forall|j: int| 0 <= j <= t@.len() implies bytes_utf8(#[trigger] t@.take(j)) != 19 by {
                        if j < k {
                            lemma_bytes_crescem(t@, j, k as int - 1);
                        } else {
                            lemma_bytes_crescem(t@, k as int, j);
                        }
                    }
                }
            }
            b == 19
        },
    }
}

/// Puts a server timestamp (`timestamptz`) in the local form, in UTC, so
/// that the two compare as text: `2025-05-05T12:34:56.789123+00:00` gives
/// `2025-05-05 12:34:56`, and `2025-05-05T12:34:56-03:00` gives
/// `2025-05-05 15:34:56`.
pub fn normalizar_ts_servidor(valor: &str) -> (r: Option<String>)
    requires
        ts_cortavel(valor@),
    ensures
        match r {
            Some(s) => ts_normalizado(valor@) == Some(s@),
            None => ts_normalizado(valor@) is None,
        },
{
    let t = caracteres(aparar(valor).as_str());
    match corte_de(&t) {
        None => None,
        Some((k, _)) => {
            let ghost w = choose|j: int| 0 <= j <= t@.len() && bytes_utf8(#[trigger] t@.take(j)) == 19;
            proof {
                if w < k {
                    lemma_bytes_crescem(t@, w, k as int - 1);
                } else if w > k {
                    lemma_bytes_crescem(t@, k as int, w);
                }
            }
            let mut r = String::new();
            let mut i: usize = 0;
            while i < k
                invariant
                    i <= k <= t.len(),
                    r@ == sem_t(t@.take(i as int)),
                decreases k - i,
            {
                proof {
                    assert(sem_t(t@.take(i + 1)) =~= sem_t(t@.take(i as int)).push(
                        if t@[i as int] == 'T' { ' ' } else { t@[i as int] },
                    ));
                }
                if t[i] == 'T' {
                    empurrar(&mut r, ' ');
                } else {
                    empurrar(&mut r, t[i]);
                }
                i = i + 1;
            }
            let base = caracteres(r.as_str());
            let desvio = desvio_do_sufixo(&t, k);
            Some(para_utc(&base, desvio))
        },
    }
}


// ───────────────────────── configuration ─────────────────────────

/// A configured value: trimmed, and none when it is absent or blank.
pub open spec fn valor_util(v: Option<Seq<char>>) -> Option<Seq<char>> {
    match v {
        Some(t) => if aparado(t).len() == 0 { None } else { Some(aparado(t)) },
        None => None,
    }
}

pub open spec fn visao_str(v: Option<&str>) -> Option<Seq<char>> {
    match v {
        Some(t) => Some(t@),
        None => None,
    }
}

pub open spec fn visao_string(v: Option<String>) -> Option<Seq<char>> {
    match v {
        Some(t) => Some(t@),
        None => None,
    }
}

/// A configured value (an environment variable or a value given at build
/// time): trimmed, none when absent or blank.
pub fn valor_configurado(v: Option<&str>) -> (r: Option<String>)
    ensures
        visao_string(r) == valor_util(visao_str(v)),
{
    match v {
        Some(t) => {
            if em_branco(t) {
                None
            } else {
                Some(aparar(t))
            }
        },
        None => None,
    }
}

/// The connection described by four configured values: there only when
/// all four are there and not blank, each one trimmed.
pub fn configuracao_de(
    url: Option<&str>,
    anon: Option<&str>,
    email: Option<&str>,
    senha: Option<&str>,
) -> (r: Option<ConfiguracaoConexao>)
    ensures
        r is Some <==> (valor_util(visao_str(url)) is Some && valor_util(visao_str(anon)) is Some
            && valor_util(visao_str(email)) is Some && valor_util(visao_str(senha)) is Some),
        r matches Some(c) ==> {
            &&& valor_util(visao_str(url)) == Some(c.projeto_url@)
            &&& valor_util(visao_str(anon)) == Some(c.anon_key@)
            &&& valor_util(visao_str(email)) == Some(c.email@)
            &&& valor_util(visao_str(senha)) == Some(c.senha@)
        },
{
    let url = valor_configurado(url);
    let anon = valor_configurado(anon);
    let email = valor_configurado(email);
    let senha = valor_configurado(senha);
    match (url, anon, email, senha) {
        (Some(projeto_url), Some(anon_key), Some(email), Some(senha)) => Some(
            ConfiguracaoConexao { projeto_url, anon_key, email, senha },
        ),
        _ => None,
    }
}

/// The connection built into the program at build time (the four
/// `SCD_EMBUTIDO_SUPABASE_*` values): there only when all four are set.
pub fn config_embutida(
    url: Option<&str>,
    anon: Option<&str>,
    email: Option<&str>,
    senha: Option<&str>,
) -> (r: Option<ConfiguracaoConexao>)
    ensures
        r is Some <==> (valor_util(visao_str(url)) is Some && valor_util(visao_str(anon)) is Some
            && valor_util(visao_str(email)) is Some && valor_util(visao_str(senha)) is Some),
        r matches Some(c) ==> {
            &&& valor_util(visao_str(url)) == Some(c.projeto_url@)
            &&& valor_util(visao_str(anon)) == Some(c.anon_key@)
            &&& valor_util(visao_str(email)) == Some(c.email@)
            &&& valor_util(visao_str(senha)) == Some(c.senha@)
        },
{
    configuracao_de(url, anon, email, senha)
}

/// Where a cycle takes its connection from.
pub enum OrigemConfiguracao {
    /// The one saved on this device.
    Salva,
    /// None saved: connect this one first (from `.env`, else built in).
    Conectar(ConfiguracaoConexao),
    /// None at all.
    Desconectada(String),
}

pub open spec fn msg_desconectada() -> Seq<char> {
    "A conta da nuvem não está conectada. Conecte-a na tela de Sincronização."@
}

/// The saved project address and key are used when both are there; else
/// the `.env` configuration, else the built-in one, is connected first.
pub fn origem_da_configuracao(
    url_salva: &Option<String>,
    anon_salva: &Option<String>,
    do_env: Option<ConfiguracaoConexao>,
    embutida: Option<ConfiguracaoConexao>,
) -> (r: OrigemConfiguracao)
    ensures
        (url_salva is Some && anon_salva is Some) ==> r is Salva,
        !(url_salva is Some && anon_salva is Some) ==> match do_env {
            Some(c) => r == OrigemConfiguracao::Conectar(c),
            None => match embutida {
                Some(c) => r == OrigemConfiguracao::Conectar(c),
                None => r matches OrigemConfiguracao::Desconectada(m) && m@ == msg_desconectada(),
            },
        },
{
    if url_salva.is_some() && anon_salva.is_some() {
        OrigemConfiguracao::Salva
    } else {
        match do_env {
            Some(c) => OrigemConfiguracao::Conectar(c),
            None => match embutida {
                Some(c) => OrigemConfiguracao::Conectar(c),
                None => OrigemConfiguracao::Desconectada(
                    copia("A conta da nuvem não está conectada. Conecte-a na tela de Sincronização."),
                ),
            },
        }
    }
}

/// Keys, in the local settings table, of what the synchronisation keeps.
pub open spec fn chave_projeto_url() -> Seq<char> { "sync.projeto_url"@ }
pub open spec fn chave_anon_key() -> Seq<char> { "sync.anon_key"@ }
pub open spec fn chave_email() -> Seq<char> { "sync.email"@ }
pub open spec fn chave_senha() -> Seq<char> { "sync.senha"@ }
pub open spec fn chave_refresh_token() -> Seq<char> { "sync.refresh_token"@ }
pub open spec fn chave_access_token() -> Seq<char> { "sync.access_token"@ }
pub open spec fn chave_push_ate() -> Seq<char> { "sync.push_ate"@ }
pub open spec fn chave_pull_ate() -> Seq<char> { "sync.pull_ate"@ }
pub open spec fn chave_ultima_sync() -> Seq<char> { "sync.ultima_sync_em"@ }

pub open spec fn par_visto(p: (String, String)) -> (Seq<char>, Seq<char>) {
    (p.0@, p.1@)
}

/// What connecting saves, once the login went through (nothing is saved
/// before): the trimmed address, key and e-mail, the password as typed,
/// and both tokens.
pub fn valores_da_conexao(cfg: &ConfiguracaoConexao, acesso: &str, refresh: &str) -> (r: Vec<(String, String)>)
    ensures
        r@.map_values(|p: (String, String)| par_visto(p)) == seq![
            (chave_projeto_url(), aparado(cfg.projeto_url@)),
            (chave_anon_key(), aparado(cfg.anon_key@)),
            (chave_email(), aparado(cfg.email@)),
            (chave_senha(), cfg.senha@),
            (chave_access_token(), acesso@),
            (chave_refresh_token(), refresh@),
        ],
{
    let mut r: Vec<(String, String)> = Vec::new();
    r.push((copia("sync.projeto_url"), aparar(cfg.projeto_url.as_str())));
    r.push((copia("sync.anon_key"), aparar(cfg.anon_key.as_str())));
    r.push((copia("sync.email"), aparar(cfg.email.as_str())));
    r.push((copia("sync.senha"), copia(cfg.senha.as_str())));
    r.push((copia("sync.access_token"), copia(acesso)));
    r.push((copia("sync.refresh_token"), copia(refresh)));
    assert(r@.map_values(|p: (String, String)| par_visto(p)) =~= seq![
        (chave_projeto_url(), aparado(cfg.projeto_url@)),
        (chave_anon_key(), aparado(cfg.anon_key@)),
        (chave_email(), aparado(cfg.email@)),
        (chave_senha(), cfg.senha@),
        (chave_access_token(), acesso@),
        (chave_refresh_token(), refresh@),
    ]);
    r
}

/// What disconnecting removes: the credentials and the markers.
pub fn chaves_da_desconexao() -> (r: Vec<String>)
    ensures
        r@.map_values(|c: String| c@) == seq![
            chave_projeto_url(), chave_anon_key(), chave_email(), chave_senha(),
            chave_access_token(), chave_refresh_token(), chave_push_ate(), chave_pull_ate(),
            chave_ultima_sync(),
        ],
{
    let mut r: Vec<String> = Vec::new();
    r.push(copia("sync.projeto_url"));
    r.push(copia("sync.anon_key"));
    r.push(copia("sync.email"));
    r.push(copia("sync.senha"));
    r.push(copia("sync.access_token"));
    r.push(copia("sync.refresh_token"));
    r.push(copia("sync.push_ate"));
    r.push(copia("sync.pull_ate"));
    r.push(copia("sync.ultima_sync_em"));
    assert(r@.map_values(|c: String| c@) =~= seq![
        chave_projeto_url(), chave_anon_key(), chave_email(), chave_senha(),
        chave_access_token(), chave_refresh_token(), chave_push_ate(), chave_pull_ate(),
        chave_ultima_sync(),
    ]);
    r
}

// ───────────────────────── addresses ─────────────────────────

/// `trim_end_matches('/')`.
pub open spec fn sem_barras_finais(s: Seq<char>) -> Seq<char>
    decreases s.len(),
{
    if s.len() > 0 && s.last() == '/' {
        sem_barras_finais(s.drop_last())
    } else {
        s
    }
}

fn tirar_barras_finais(s: &str) -> (r: String)
    ensures
        r@ == sem_barras_finais(s@),
{
    let v = caracteres(s);
    let mut k: usize = v.len();
    proof {
        assert(v@.take(k as int) =~= v@);
    }
    while k > 0 && v[k - 1] == '/'
        invariant
            k <= v.len(),
            sem_barras_finais(v@.take(k as int)) == sem_barras_finais(v@),
        decreases k,
    {
        proof {
            assert(v@.take(k as int).drop_last() =~= v@.take(k - 1));
        }
        k = k - 1;
    }
    proof {
        assert(v@.subrange(0, k as int) =~= v@.take(k as int));
    }
    texto_de_trecho(&v, 0, k)
}

/// The project address followed by a path.
fn endereco(projeto_url: &str, caminho: &str) -> (r: String)
    ensures
        r@ == sem_barras_finais(projeto_url@) + caminho@,
{
    let mut r = tirar_barras_finais(projeto_url);
    anexar(&mut r, caminho);
    r
}

/// Where e-mail and password are exchanged for tokens.
pub fn url_login(projeto_url: &str) -> (r: String)
    ensures
        r@ == sem_barras_finais(projeto_url@) + "/auth/v1/token?grant_type=password"@,
{
    endereco(projeto_url, "/auth/v1/token?grant_type=password")
}

/// Where the refresh token is exchanged for new tokens.
pub fn url_renovacao(projeto_url: &str) -> (r: String)
    ensures
        r@ == sem_barras_finais(projeto_url@) + "/auth/v1/token?grant_type=refresh_token"@,
{
    endereco(projeto_url, "/auth/v1/token?grant_type=refresh_token")
}

/// Where an access token is checked and its owner read.
pub fn url_usuario(projeto_url: &str) -> (r: String)
    ensures
        r@ == sem_barras_finais(projeto_url@) + "/auth/v1/user"@,
{
    endereco(projeto_url, "/auth/v1/user")
}

/// Where a row of a table is sent.
pub fn url_tabela(projeto_url: &str, tabela: &str) -> (r: String)
    ensures
        r@ == sem_barras_finais(projeto_url@) + "/rest/v1/"@ + tabela@,
{
    let mut r = endereco(projeto_url, "/rest/v1/");
    anexar(&mut r, tabela);
    r
}

// ───────────────────────── login ─────────────────────────

/// The text of a member of an object (`value.get(nome).and_then(as_str)`).
pub open spec fn texto_em(json: ValorJson, nome: Seq<char>) -> Option<String> {
    match json {
        ValorJson::Objeto(c) => texto_do_membro(c@, nome),
        _ => None,
    }
}

fn texto_do_json(json: &ValorJson, nome: &str) -> (r: Option<String>)
    ensures
        r == texto_em(*json, nome@),
{
    match json {
        ValorJson::Objeto(c) => texto_de(c, nome),
        _ => None,
    }
}

/// The login request: the trimmed e-mail and the password.
pub open spec fn forma_login(v: ValorJson, cfg: ConfiguracaoConexao) -> bool {
    v matches ValorJson::Objeto(c) && c@.len() == 2
        && c@[0].0@ == "email"@ && (c@[0].1 matches ValorJson::Texto(e) && e@ == aparado(cfg.email@))
        && c@[1].0@ == "password"@ && (c@[1].1 matches ValorJson::Texto(p) && p@ == cfg.senha@)
}

/// The token renewal request.
pub open spec fn forma_renovacao(v: ValorJson, refresh_token: Seq<char>) -> bool {
    v matches ValorJson::Objeto(c) && c@.len() == 1
        && c@[0].0@ == "refresh_token"@ && (c@[0].1 matches ValorJson::Texto(t) && t@ == refresh_token)
}

/// The login request: the trimmed e-mail and the password.
pub fn corpo_login(cfg: &ConfiguracaoConexao) -> (r: ValorJson)
    ensures
        gravavel(r),
        forma_login(r, *cfg),
{
    let mut c: Vec<(String, ValorJson)> = Vec::new();
    c.push((copia("email"), ValorJson::Texto(aparar(cfg.email.as_str()))));
    c.push((copia("password"), ValorJson::Texto(copia(cfg.senha.as_str()))));
    ValorJson::Objeto(c)
}

/// The token renewal request.
pub fn corpo_renovacao(refresh_token: &str) -> (r: ValorJson)
    ensures
        gravavel(r),
        forma_renovacao(r, refresh_token@),
{
    let mut c: Vec<(String, ValorJson)> = Vec::new();
    c.push((copia("refresh_token"), ValorJson::Texto(copia(refresh_token))));
    ValorJson::Objeto(c)
}

/// Why a login was refused: the answer's `error_description`, else its
/// `msg` (the first of the two that is present, when it is text), else
/// "credenciais inválidas".
pub open spec fn detalhe_da_recusa(json: ValorJson) -> Seq<char> {
    let padrao = "credenciais inválidas"@;
    match json {
        ValorJson::Objeto(c) => match membro(c@, "error_description"@) {
            Some(ValorJson::Texto(t)) => t@,
            Some(_) => padrao,
            None => match membro(c@, "msg"@) {
                Some(ValorJson::Texto(t)) => t@,
                _ => padrao,
            },
        },
        _ => padrao,
    }
}

/// The two tokens of an answer, when both are there as text.
pub open spec fn tokens_em(json: ValorJson) -> Option<(String, String)> {
    match (texto_em(json, "access_token"@), texto_em(json, "refresh_token"@)) {
        (Some(a), Some(r)) => Some((a, r)),
        _ => None,
    }
}

fn tokens_do_json(json: &ValorJson) -> (r: Option<(String, String)>)
    ensures
        r == tokens_em(*json),
{
    let acesso = texto_do_json(json, "access_token");
    let refresh = texto_do_json(json, "refresh_token");
    match (acesso, refresh) {
        (Some(a), Some(r)) => Some((a, r)),
        _ => None,
    }
}

/// The tokens of a decoded login answer, or why the login was refused.
fn login_do_json(json: &ValorJson) -> (r: Result<(String, String), String>)
    ensures
        match tokens_em(*json) {
            Some(t) => r == Ok::<(String, String), String>(t),
            None => r matches Err(e) && e@ == "Falha ao entrar na conta da nuvem: "@ + detalhe_da_recusa(*json),
        },
{
    match tokens_do_json(json) {
        Some(t) => Ok(t),
        None => {
            let detalhe = match json {
                ValorJson::Objeto(c) => match obter(c, "error_description") {
                    Some(ValorJson::Texto(t)) => t.clone(),
                    Some(_) => copia("credenciais inválidas"),
                    None => match obter(c, "msg") {
                        Some(ValorJson::Texto(t)) => t.clone(),
                        _ => copia("credenciais inválidas"),
                    },
                },
                _ => copia("credenciais inválidas"),
            };
            let mut e = copia("Falha ao entrar na conta da nuvem: ");
            anexar(&mut e, detalhe.as_str());
            Err(e)
        },
    }
}

pub open spec fn msg_sessao_expirada() -> Seq<char> {
    "A sessão da nuvem expirou. Entre novamente com e-mail e senha."@
}

pub open spec fn msg_sessao_invalida() -> Seq<char> {
    "Sessão da nuvem inválida. Entre novamente com e-mail e senha."@
}

/// The new tokens of a decoded renewal answer.
fn renovacao_do_json(json: &ValorJson) -> (r: Result<(String, String), String>)
    ensures
        match tokens_em(*json) {
            Some(t) => r == Ok::<(String, String), String>(t),
            None => r matches Err(e) && e@ == msg_sessao_expirada(),
        },
{
    match tokens_do_json(json) {
        Some(t) => Ok(t),
        None => Err(copia("A sessão da nuvem expirou. Entre novamente com e-mail e senha.")),
    }
}

/// The owner's id in a decoded answer about an access token.
fn uid_do_json(json: &ValorJson) -> (r: Result<String, String>)
    ensures
        match texto_em(*json, "id"@) {
            Some(id) => r == Ok::<String, String>(id),
            None => r matches Err(e) && e@ == msg_sessao_invalida(),
        },
{
    match texto_do_json(json, "id") {
        Some(id) => Ok(id),
        None => Err(copia("Sessão da nuvem inválida. Entre novamente com e-mail e senha.")),
    }
}


/// The prefix of the error when an answer of the authentication service is
/// not JSON.
pub open spec fn msg_resposta_invalida() -> Seq<char> {
    "Resposta inválida do Supabase: "@
}

/// A JSON text, or the error of an answer that does not decode.
fn decodificar(corpo: &str, prefixo: &str) -> (r: Result<ValorJson, String>)
    ensures
        match json_lido(corpo@) {
            Some(j) => r == Ok::<ValorJson, String>(j),
            None => r matches Err(e) && exists|m: Seq<char>| e@ == prefixo@ + m,
        },
{
    match ler_json(corpo) {
        Ok(j) => Ok(j),
        Err(m) => {
            let mut e = copia(prefixo);
            anexar(&mut e, m.as_str());
            proof {
                assert(e@ == prefixo@ + m@);
            }
            Err(e)
        },
    }
}

/// The tokens of the login answer (its body as text), or why the login was
/// refused.
pub fn resposta_de_login(corpo: &str) -> (r: Result<(String, String), String>)
    ensures
        match json_lido(corpo@) {
            None => r matches Err(e) && exists|m: Seq<char>| e@ == msg_resposta_invalida() + m,
            Some(json) => match tokens_em(json) {
                Some(t) => r == Ok::<(String, String), String>(t),
                None => r matches Err(e) && e@ == "Falha ao entrar na conta da nuvem: "@ + detalhe_da_recusa(json),
            },
        },
{
    match decodificar(corpo, "Resposta inválida do Supabase: ") {
        Ok(json) => login_do_json(&json),
        Err(e) => {
            proof {
                let m = choose|m: Seq<char>| e@ == "Resposta inválida do Supabase: "@ + m;
                assert(e@ == msg_resposta_invalida() + m);
            }
            Err(e)
        },
    }
}

/// The new tokens of a renewal answer (its body as text).
pub fn resposta_de_renovacao(corpo: &str) -> (r: Result<(String, String), String>)
    ensures
        match json_lido(corpo@) {
            None => r matches Err(e) && exists|m: Seq<char>| e@ == msg_resposta_invalida() + m,
            Some(json) => match tokens_em(json) {
                Some(t) => r == Ok::<(String, String), String>(t),
                None => r matches Err(e) && e@ == msg_sessao_expirada(),
            },
        },
{
    match decodificar(corpo, "Resposta inválida do Supabase: ") {
        Ok(json) => renovacao_do_json(&json),
        Err(e) => {
            proof {
                let m = choose|m: Seq<char>| e@ == "Resposta inválida do Supabase: "@ + m;
                assert(e@ == msg_resposta_invalida() + m);
            }
            Err(e)
        },
    }
}

/// The owner's id in the answer about an access token (its body as text).
pub fn uid_da_resposta(corpo: &str) -> (r: Result<String, String>)
    ensures
        match json_lido(corpo@) {
            None => r matches Err(e) && exists|m: Seq<char>| e@ == msg_resposta_invalida() + m,
            Some(json) => match texto_em(json, "id"@) {
                Some(id) => r == Ok::<String, String>(id),
                None => r matches Err(e) && e@ == msg_sessao_invalida(),
            },
        },
{
    match decodificar(corpo, "Resposta inválida do Supabase: ") {
        Ok(json) => uid_do_json(&json),
        Err(e) => {
            proof {
                let m = choose|m: Seq<char>| e@ == "Resposta inválida do Supabase: "@ + m;
                assert(e@ == msg_resposta_invalida() + m);
            }
            Err(e)
        },
    }
}

/// The text of a value this application writes.
fn texto_gravavel(v: &ValorJson) -> (r: String)
    requires
        gravavel(*v),
    ensures
        r@ == json_escrito(*v),
{
    match escrever_json(v) {
        Ok(t) => t,
        Err(_) => {
            proof {
                assert(false);
            }
            String::new()
        },
    }
}

/// The text of the login request.
pub fn texto_do_login(cfg: &ConfiguracaoConexao) -> (r: String)
    ensures
        exists|v: ValorJson| #[trigger] forma_login(v, *cfg) && r@ == json_escrito(v),
{
    let v = corpo_login(cfg);
    let r = texto_gravavel(&v);
    assert(forma_login(v, *cfg) && r@ == json_escrito(v));
    r
}

/// The text of the token renewal request.
pub fn texto_da_renovacao(refresh_token: &str) -> (r: String)
    ensures
        exists|v: ValorJson| #[trigger] forma_renovacao(v, refresh_token@) && r@ == json_escrito(v),
{
    let v = corpo_renovacao(refresh_token);
    let r = texto_gravavel(&v);
    assert(forma_renovacao(v, refresh_token@) && r@ == json_escrito(v));
    r
}


// ───────────────────────── sending ─────────────────────────

/// A local row changed since the last send: its table, its id, and whether
/// it is removed (soft delete).
pub open spec fn alteracao_vista(a: (String, String, bool)) -> (Seq<char>, Seq<char>, bool) {
    (a.0@, a.1@, a.2)
}

/// The rows to create or edit in the cloud, in the order found.
pub open spec fn a_gravar(s: Seq<(Seq<char>, Seq<char>, bool)>) -> Seq<(Seq<char>, Seq<char>)>
    decreases s.len(),
{
    if s.len() == 0 {
        Seq::empty()
    } else {
        let r = a_gravar(s.drop_last());
        if !s.last().2 { r.push((s.last().0, s.last().1)) } else { r }
    }
}

/// The removed rows of one table, in the order found.
pub open spec fn removidas_de(s: Seq<(Seq<char>, Seq<char>, bool)>, tabela: Seq<char>) -> Seq<(Seq<char>, Seq<char>)>
    decreases s.len(),
{
    if s.len() == 0 {
        Seq::empty()
    } else {
        let r = removidas_de(s.drop_last(), tabela);
        if s.last().2 && s.last().0 == tabela { r.push((s.last().0, s.last().1)) } else { r }
    }
}

/// The removals, children before parents: users, leave periods,
/// employees, companies (the cloud refuses to remove a company that still
/// has employees).
pub open spec fn a_remover(s: Seq<(Seq<char>, Seq<char>, bool)>) -> Seq<(Seq<char>, Seq<char>)> {
    removidas_de(s, "users"@) + removidas_de(s, "employee_leave_periods"@)
        + removidas_de(s, "employees"@) + removidas_de(s, "companies"@)
}

fn juntar_removidas(
    alteracoes: &Vec<(String, String, bool)>,
    tabela: &str,
    saida: &mut Vec<(String, String)>,
)
    ensures
        final(saida)@.map_values(|p: (String, String)| par_visto(p))
            == old(saida)@.map_values(|p: (String, String)| par_visto(p))
                + removidas_de(alteracoes@.map_values(|a: (String, String, bool)| alteracao_vista(a)), tabela@),
{
    let ghost vista = alteracoes@.map_values(|a: (String, String, bool)| alteracao_vista(a));
    let ghost inicio = saida@.map_values(|p: (String, String)| par_visto(p));
    let mut i: usize = 0;
    proof {
        assert(vista.take(0) =~= Seq::<(Seq<char>, Seq<char>, bool)>::empty());
        assert(inicio + removidas_de(vista.take(0), tabela@) =~= inicio);
    }
    while i < alteracoes.len()
        invariant
            i <= alteracoes.len(),
            vista == alteracoes@.map_values(|a: (String, String, bool)| alteracao_vista(a)),
            saida@.map_values(|p: (String, String)| par_visto(p)) == inicio + removidas_de(vista.take(i as int), tabela@),
        decreases alteracoes.len() - i,
    {
        proof {
            assert(vista.take(i + 1).drop_last() =~= vista.take(i as int));
            assert(vista.take(i + 1).last() == alteracao_vista(alteracoes@[i as int]));
        }
        let (t, id, apagada) = (&alteracoes[i].0, &alteracoes[i].1, alteracoes[i].2);
        if apagada && comparar(t.as_str(), tabela) == 0 {
            let ghost antes = saida@.map_values(|p: (String, String)| par_visto(p));
            saida.push((t.clone(), id.clone()));
            proof {
                assert(saida@.map_values(|p: (String, String)| par_visto(p)) =~= antes.push((t@, id@)));
            }
        }
        i = i + 1;
    }
    proof {
        assert(vista.take(alteracoes.len() as int) =~= vista);
    }
}

/// Splits the changed rows (found table by table, parents first) into the
/// rows to create or edit, in that order, and the removals, children first.
pub fn ordem_de_envio(alteracoes: &Vec<(String, String, bool)>) -> (r: (Vec<(String, String)>, Vec<(String, String)>))
    ensures
        r.0@.map_values(|p: (String, String)| par_visto(p))
            == a_gravar(alteracoes@.map_values(|a: (String, String, bool)| alteracao_vista(a))),
        r.1@.map_values(|p: (String, String)| par_visto(p))
            == a_remover(alteracoes@.map_values(|a: (String, String, bool)| alteracao_vista(a))),
{
    let ghost vista = alteracoes@.map_values(|a: (String, String, bool)| alteracao_vista(a));
    let mut gravar: Vec<(String, String)> = Vec::new();
    let mut i: usize = 0;
    proof {
        assert(vista.take(0) =~= Seq::<(Seq<char>, Seq<char>, bool)>::empty());
        assert(gravar@.map_values(|p: (String, String)| par_visto(p)) =~= a_gravar(vista.take(0)));
    }
    while i < alteracoes.len()
        invariant
            i <= alteracoes.len(),
            vista == alteracoes@.map_values(|a: (String, String, bool)| alteracao_vista(a)),
            gravar@.map_values(|p: (String, String)| par_visto(p)) == a_gravar(vista.take(i as int)),
        decreases alteracoes.len() - i,
    {
        proof {
            assert(vista.take(i + 1).drop_last() =~= vista.take(i as int));
            assert(vista.take(i + 1).last() == alteracao_vista(alteracoes@[i as int]));
        }
        if !alteracoes[i].2 {
            let ghost antes = gravar@.map_values(|p: (String, String)| par_visto(p));
            gravar.push((alteracoes[i].0.clone(), alteracoes[i].1.clone()));
            proof {
                assert(gravar@.map_values(|p: (String, String)| par_visto(p)) =~= antes.push(
                    (alteracoes@[i as int].0@, alteracoes@[i as int].1@),
                ));
            }
        }
        i = i + 1;
    }
    proof {
        assert(vista.take(alteracoes.len() as int) =~= vista);
    }
    let mut remover: Vec<(String, String)> = Vec::new();
    proof {
        assert(remover@.map_values(|p: (String, String)| par_visto(p)) =~= Seq::<(Seq<char>, Seq<char>)>::empty());
    }
    juntar_removidas(alteracoes, "users", &mut remover);
    juntar_removidas(alteracoes, "employee_leave_periods", &mut remover);
    juntar_removidas(alteracoes, "employees", &mut remover);
    juntar_removidas(alteracoes, "companies", &mut remover);
    proof {
        assert(Seq::<(Seq<char>, Seq<char>)>::empty() + removidas_de(vista, "users"@) =~= removidas_de(vista, "users"@));
    }
    (gravar, remover)
}

/// The later of two markers, as text (`a` on a tie).
pub open spec fn marcador_maior(a: Seq<char>, b: Seq<char>) -> Seq<char> {
    if texto_menor(a, b) { b } else { a }
}

/// The later of two markers.
pub fn mais_recente(a: &str, b: &str) -> (r: String)
    ensures
        r@ == marcador_maior(a@, b@),
{
    if comparar(a, b) < 0 {
        copia(b)
    } else {
        copia(a)
    }
}

/// Counts what sending one row gave: a row the cloud took counts as sent
/// and moves the send marker to the server's time when it is later; a
/// refused one becomes a warning.
pub fn registrar_envio(
    resumo: &mut ResumoSync,
    enviado_ate: &mut String,
    tabela: &str,
    id: &str,
    resultado: Result<Option<String>, String>,
)
    requires
        old(resumo).enviados < usize::MAX,
    ensures
        match resultado {
            Ok(ts) => {
                &&& final(resumo).enviados == old(resumo).enviados + 1
                &&& final(resumo).recebidos == old(resumo).recebidos
                &&& final(resumo).avisos@ == old(resumo).avisos@
                &&& final(enviado_ate)@ == match ts {
                    Some(t) => marcador_maior(old(enviado_ate)@, t@),
                    None => old(enviado_ate)@,
                }
            },
            Err(m) => {
                &&& final(resumo).enviados == old(resumo).enviados
                &&& final(resumo).recebidos == old(resumo).recebidos
                &&& final(enviado_ate)@ == old(enviado_ate)@
                &&& final(resumo).avisos@.len() == old(resumo).avisos@.len() + 1
                &&& final(resumo).avisos@.drop_last() == old(resumo).avisos@
                &&& final(resumo).avisos@.last()@ == "Não foi possível enviar "@ + tabela@ + "/"@ + id@ + ": "@ + m@
            },
        },
{
    match resultado {
        Ok(ts) => {
            if let Some(t) = ts {
                let novo = mais_recente(enviado_ate.as_str(), t.as_str());
                *enviado_ate = novo;
            }
            resumo.enviados = resumo.enviados + 1;
        },
        Err(m) => {
            let mut aviso = copia("Não foi possível enviar ");
            anexar(&mut aviso, tabela);
            anexar(&mut aviso, "/");
            anexar(&mut aviso, id);
            anexar(&mut aviso, ": ");
            anexar(&mut aviso, m.as_str());
            resumo.avisos.push(aviso);
        },
    }
}

// ───────────────────────── receiving ─────────────────────────

/// Rows asked per page.
pub const TAMANHO_PAGINA: usize = 500;

/// `s` with each space written `%20`.
pub open spec fn espacos_codificados(s: Seq<char>) -> Seq<char>
    decreases s.len(),
{
    if s.len() == 0 {
        s
    } else {
        espacos_codificados(s.drop_last()) + if s.last() == ' ' { "%20"@ } else { seq![s.last()] }
    }
}

/// The filter of changes after the pull marker (none on the first cycle,
/// when the marker is blank: everything is brought).
pub open spec fn filtro_delta(desde: Seq<char>) -> Seq<char> {
    if aparado(desde).len() == 0 {
        Seq::empty()
    } else {
        "&updated_at=gt."@ + espacos_codificados(desde)
    }
}

/// The query of the rows of `tabela` owned by `uid` and changed after
/// `desde`, oldest first.
pub fn url_deltas(projeto_url: &str, tabela: &str, uid: &str, desde: &str) -> (r: String)
    ensures
        r@ == sem_barras_finais(projeto_url@) + "/rest/v1/"@ + tabela@ + "?select=*&owner_id=eq."@ + uid@
            + filtro_delta(desde@) + "&order=updated_at.asc"@,
{
    let mut r = url_tabela(projeto_url, tabela);
    anexar(&mut r, "?select=*&owner_id=eq.");
    anexar(&mut r, uid);
    if !em_branco(desde) {
        anexar(&mut r, "&updated_at=gt.");
        let v = caracteres(desde);
        let ghost antes = r@;
        let mut i: usize = 0;
        while i < v.len()
            invariant
                i <= v.len(),
                v@ == desde@,
                r@ == antes + espacos_codificados(v@.take(i as int)),
            decreases v.len() - i,
        {
            proof {
                assert(v@.take(i + 1).drop_last() =~= v@.take(i as int));
            }
            if v[i] == ' ' {
                anexar(&mut r, "%20");
            } else {
                empurrar(&mut r, v[i]);
            }
            i = i + 1;
        }
        proof {
            assert(v@.take(v.len() as int) =~= v@);
        }
    }
    anexar(&mut r, "&order=updated_at.asc");
    r
}

/// The `Range` of the page that starts at row `inicio`: `inicio-fim`.
pub fn faixa_da_pagina(inicio: u64) -> (r: String)
    requires
        inicio + TAMANHO_PAGINA - 1 <= u64::MAX,
    ensures
        r@ == decimal(inicio as nat) + "-"@ + decimal((inicio + TAMANHO_PAGINA - 1) as nat),
{
    let mut r = String::new();
    escrever_natural(&mut r, inicio);
    anexar(&mut r, "-");
    escrever_natural(&mut r, inicio + 499);
    r
}

/// Where the next page starts: a full page may be followed by more; a
/// shorter one was the last.
pub fn proxima_pagina(inicio: u64, quantidade: usize) -> (r: Option<u64>)
    requires
        inicio + TAMANHO_PAGINA <= u64::MAX,
    ensures
        quantidade == TAMANHO_PAGINA ==> r == Some((inicio + TAMANHO_PAGINA) as u64),
        quantidade != TAMANHO_PAGINA ==> r is None,
{
    if quantidade == TAMANHO_PAGINA {
        Some(inicio + 500)
    } else {
        None
    }
}


/// A member's text, as a view.
pub open spec fn campo(c: Seq<(String, ValorJson)>, nome: Seq<char>) -> Option<Seq<char>> {
    visao_string(texto_do_membro(c, nome))
}

/// A member's text, or empty.
pub open spec fn campo_ou_vazio(c: Seq<(String, ValorJson)>, nome: Seq<char>) -> Seq<char> {
    match texto_do_membro(c, nome) {
        Some(t) => t@,
        None => Seq::empty(),
    }
}

/// A member's timestamp in the local form.
pub open spec fn ts_em(c: Seq<(String, ValorJson)>, nome: Seq<char>) -> Option<Seq<char>> {
    match texto_do_membro(c, nome) {
        Some(t) => ts_normalizado(t@),
        None => None,
    }
}

/// Can the member's timestamp, if any, be normalized?
pub open spec fn ts_cortavel_em(c: Seq<(String, ValorJson)>, nome: Seq<char>) -> bool {
    match texto_do_membro(c, nome) {
        Some(t) => ts_cortavel(t@),
        None => true,
    }
}

/// Can every timestamp of a received row be normalized?
pub open spec fn registro_cortavel(json: ValorJson) -> bool {
    match json {
        ValorJson::Objeto(c) => ts_cortavel_em(c@, "updated_at"@) && ts_cortavel_em(c@, "created_at"@)
            && ts_cortavel_em(c@, "deleted_at"@),
        _ => true,
    }
}

fn ts_do_campo(c: &Vec<(String, ValorJson)>, nome: &str) -> (r: Option<String>)
    requires
        ts_cortavel_em(c@, nome@),
    ensures
        visao_string(r) == ts_em(c@, nome@),
{
    match texto_de(c, nome) {
        Some(t) => normalizar_ts_servidor(t.as_str()),
        None => None,
    }
}

fn texto_ou_vazio(c: &Vec<(String, ValorJson)>, nome: &str) -> (r: String)
    ensures
        r@ == campo_ou_vazio(c@, nome@),
{
    match texto_de(c, nome) {
        Some(t) => t,
        None => String::new(),
    }
}

/// Counts what applying one received row gave, and moves the pull marker
/// to the row's time when it is later. A failure becomes a warning.
pub fn registrar_recebimento(
    resumo: &mut ResumoSync,
    puxado_ate: &mut String,
    remoto: &ValorJson,
    resultado: Result<bool, String>,
)
    requires
        old(resumo).recebidos < usize::MAX,
        registro_cortavel(*remoto),
    ensures
        final(resumo).enviados == old(resumo).enviados,
        match resultado {
            Ok(aplicado) => {
                &&& final(resumo).recebidos == old(resumo).recebidos + if aplicado { 1int } else { 0int }
                &&& final(resumo).avisos@ == old(resumo).avisos@
                &&& final(puxado_ate)@ == match *remoto {
                    ValorJson::Objeto(c) => match ts_em(c@, "updated_at"@) {
                        Some(t) => marcador_maior(old(puxado_ate)@, t),
                        None => old(puxado_ate)@,
                    },
                    _ => old(puxado_ate)@,
                }
            },
            Err(m) => {
                &&& final(resumo).recebidos == old(resumo).recebidos
                &&& final(puxado_ate)@ == old(puxado_ate)@
                &&& final(resumo).avisos@ == old(resumo).avisos@.push(m)
            },
        },
{
    match resultado {
        Ok(aplicado) => {
            if aplicado {
                resumo.recebidos = resumo.recebidos + 1;
            }
            if let ValorJson::Objeto(c) = remoto {
                if let Some(ts) = ts_do_campo(c, "updated_at") {
                    let novo = mais_recente(puxado_ate.as_str(), ts.as_str());
                    *puxado_ate = novo;
                }
            }
        },
        Err(m) => {
            resumo.avisos.push(m);
        },
    }
}

/// The data of a received row, by table.
pub enum DadosRemotos {
    Empresa {
        cnpj: String,
        razao_social: String,
        nome_fantasia: Option<String>,
        situacao: Option<String>,
        municipio: Option<String>,
        uf: Option<String>,
        telefone: Option<String>,
        email: Option<String>,
    },
    Funcionario {
        nome: String,
        cpf: Option<String>,
        data_admissao: Option<String>,
        empresa_id: String,
    },
    Periodo {
        employee_id: String,
        inicio: String,
        vencimento: String,
        regularizada: bool,
        regularizada_em: Option<String>,
        observacao: Option<String>,
        alarme_em: Option<String>,
        alarme_observacao: Option<String>,
    },
}

/// A received row of companies, employees or leave periods.
pub struct RegistroRemoto {
    pub id: String,
    /// Its `updated_at`, in the local form.
    pub atualizado_em: String,
    /// Its `created_at`, in the local form (its `updated_at` when absent).
    pub criado_em: String,
    /// Its `deleted_at`, in the local form.
    pub apagado_em: Option<String>,
    pub dados: DadosRemotos,
}

/// The tables synchronised by id (users are matched by name).
pub open spec fn tabela_por_id(t: Seq<char>) -> bool {
    t == "companies"@ || t == "employees"@ || t == "employee_leave_periods"@
}

/// Do the data read from `c` for table `tabela` match `d`?
pub open spec fn dados_conferem(d: DadosRemotos, tabela: Seq<char>, c: Seq<(String, ValorJson)>) -> bool {
    if tabela == "companies"@ {
        d matches DadosRemotos::Empresa { cnpj, razao_social, nome_fantasia, situacao, municipio, uf, telefone, email }
            && cnpj@ == campo_ou_vazio(c, "cnpj"@) && razao_social@ == campo_ou_vazio(c, "razao_social"@)
            && visao_string(nome_fantasia) == campo(c, "nome_fantasia"@)
            && visao_string(situacao) == campo(c, "situacao"@)
            && visao_string(municipio) == campo(c, "municipio"@) && visao_string(uf) == campo(c, "uf"@)
            && visao_string(telefone) == campo(c, "telefone"@) && visao_string(email) == campo(c, "email"@)
    } else if tabela == "employees"@ {
        d matches DadosRemotos::Funcionario { nome, cpf, data_admissao, empresa_id }
            && nome@ == campo_ou_vazio(c, "nome"@) && visao_string(cpf) == campo(c, "cpf"@)
            && visao_string(data_admissao) == campo(c, "data_admissao"@)
            && empresa_id@ == campo_ou_vazio(c, "empresa_id"@)
    } else {
        d matches DadosRemotos::Periodo { employee_id, inicio, vencimento, regularizada, regularizada_em, observacao, alarme_em, alarme_observacao }
            && employee_id@ == campo_ou_vazio(c, "employee_id"@) && inicio@ == campo_ou_vazio(c, "inicio"@)
            && vencimento@ == campo_ou_vazio(c, "vencimento"@)
            && regularizada == (booleano_do_membro(c, "regularizada"@) == Some(true))
            && visao_string(regularizada_em) == campo(c, "regularizada_em"@)
            && visao_string(observacao) == campo(c, "observacao"@)
            && visao_string(alarme_em) == campo(c, "alarme_em"@)
            && visao_string(alarme_observacao) == campo(c, "alarme_observacao"@)
    }
}

pub open spec fn msg_tabela_invalida(tabela: Seq<char>) -> Seq<char> {
    "Tabela não sincronizável: "@ + tabela
}

fn opcional_de(c: &Vec<(String, ValorJson)>, nome: &str) -> (r: Option<String>)
    ensures
        visao_string(r) == campo(c@, nome@),
{
    texto_de(c, nome)
}

/// Reads a row received for `tabela` (companies, employees or leave
/// periods). A row that is not an object, or has no id or no usable
/// `updated_at`, is ignored (`None`).
pub fn ler_registro_remoto(tabela: &str, remoto: &ValorJson) -> (r: Result<Option<RegistroRemoto>, String>)
    requires
        registro_cortavel(*remoto),
    ensures
        match *remoto {
            ValorJson::Objeto(c) => {
                if texto_do_membro(c@, "id"@) is None || ts_em(c@, "updated_at"@) is None {
                    r matches Ok(None)
                } else if !tabela_por_id(tabela@) {
                    r matches Err(e) && e@ == msg_tabela_invalida(tabela@)
                } else {
                    r matches Ok(Some(g)) && {
                        &&& texto_do_membro(c@, "id"@) == Some(g.id)
                        &&& ts_em(c@, "updated_at"@) == Some(g.atualizado_em@)
                        &&& g.criado_em@ == match ts_em(c@, "created_at"@) {
                            Some(t) => t,
                            None => g.atualizado_em@,
                        }
                        &&& visao_string(g.apagado_em) == ts_em(c@, "deleted_at"@)
                        &&& dados_conferem(g.dados, tabela@, c@)
                    }
                }
            },
            _ => r matches Ok(None),
        },
{
    let c = match remoto {
        ValorJson::Objeto(c) => c,
        _ => return Ok(None),
    };
    let id = match texto_de(c, "id") {
        Some(id) => id,
        None => return Ok(None),
    };
    let atualizado_em = match ts_do_campo(c, "updated_at") {
        Some(t) => t,
        None => return Ok(None),
    };
    let criado_em = match ts_do_campo(c, "created_at") {
        Some(t) => t,
        None => atualizado_em.clone(),
    };
    let apagado_em = ts_do_campo(c, "deleted_at");
    let dados = if comparar(tabela, "companies") == 0 {
        DadosRemotos::Empresa {
            cnpj: texto_ou_vazio(c, "cnpj"),
            razao_social: texto_ou_vazio(c, "razao_social"),
            nome_fantasia: opcional_de(c, "nome_fantasia"),
            situacao: opcional_de(c, "situacao"),
            municipio: opcional_de(c, "municipio"),
            uf: opcional_de(c, "uf"),
            telefone: opcional_de(c, "telefone"),
            email: opcional_de(c, "email"),
        }
    } else if comparar(tabela, "employees") == 0 {
        DadosRemotos::Funcionario {
            nome: texto_ou_vazio(c, "nome"),
            cpf: opcional_de(c, "cpf"),
            data_admissao: opcional_de(c, "data_admissao"),
            empresa_id: texto_ou_vazio(c, "empresa_id"),
        }
    } else if comparar(tabela, "employee_leave_periods") == 0 {
        let regularizada = match booleano_de(c, "regularizada") {
            Some(b) => b,
            None => false,
        };
        DadosRemotos::Periodo {
            employee_id: texto_ou_vazio(c, "employee_id"),
            inicio: texto_ou_vazio(c, "inicio"),
            vencimento: texto_ou_vazio(c, "vencimento"),
            regularizada,
            regularizada_em: opcional_de(c, "regularizada_em"),
            observacao: opcional_de(c, "observacao"),
            alarme_em: opcional_de(c, "alarme_em"),
            alarme_observacao: opcional_de(c, "alarme_observacao"),
        }
    } else {
        let mut e = copia("Tabela não sincronizável: ");
        anexar(&mut e, tabela);
        return Err(e);
    };
    Ok(Some(RegistroRemoto { id, atualizado_em, criado_em, apagado_em, dados }))
}

/// What a received row does to the local database.
pub enum Aplicacao {
    /// It is new here: insert it (with its creation and update times).
    Inserir,
    /// The local copy is not newer: overwrite it.
    Atualizar,
    /// The local copy is newer: keep it.
    Manter,
    /// Its parent has not arrived yet: warn, and take it next cycle.
    Aguardar(String),
}

/// The warning for a row whose parent is not here yet.
pub open spec fn aviso_de_espera(g: RegistroRemoto) -> Seq<char> {
    match g.dados {
        DadosRemotos::Funcionario { .. } => "Funcionário "@ + g.id@
            + " aguarda a empresa de origem na próxima sincronização."@,
        _ => "Período de férias "@ + g.id@ + " aguarda o funcionário de origem na próxima sincronização."@,
    }
}

/// Must the parent (the employee's company, the period's employee) be
/// looked up before deciding? Only for a row that is new here.
pub fn precisa_do_vinculo(g: &RegistroRemoto, local_ts: &Option<String>) -> (r: bool)
    ensures
        r == (local_ts is None && !(g.dados is Empresa)),
{
    local_ts.is_none() && !matches!(g.dados, DadosRemotos::Empresa { .. })
}

/// Last write wins: a row new here is inserted (an employee or a period
/// only once its parent is here); one that is here replaces the local copy
/// when the local `updated_at` is not later than the received one (on a
/// tie the cloud wins), and is ignored otherwise.
pub fn decidir_aplicacao(g: &RegistroRemoto, local_ts: &Option<String>, vinculo_existe: bool) -> (r: Aplicacao)
    ensures
        match local_ts {
            None => if g.dados is Empresa || vinculo_existe {
                r is Inserir
            } else {
                r matches Aplicacao::Aguardar(m) && m@ == aviso_de_espera(*g)
            },
            Some(l) => if texto_menor_igual(l@, g.atualizado_em@) { r is Atualizar } else { r is Manter },
        },
{
    match local_ts {
        None => {
            match &g.dados {
                DadosRemotos::Empresa { .. } => Aplicacao::Inserir,
                DadosRemotos::Funcionario { .. } => {
                    if vinculo_existe {
                        Aplicacao::Inserir
                    } else {
                        let mut m = copia("Funcionário ");
                        anexar(&mut m, g.id.as_str());
                        anexar(&mut m, " aguarda a empresa de origem na próxima sincronização.");
                        Aplicacao::Aguardar(m)
                    }
                },
                DadosRemotos::Periodo { .. } => {
                    if vinculo_existe {
                        Aplicacao::Inserir
                    } else {
                        let mut m = copia("Período de férias ");
                        anexar(&mut m, g.id.as_str());
                        anexar(&mut m, " aguarda o funcionário de origem na próxima sincronização.");
                        Aplicacao::Aguardar(m)
                    }
                },
            }
        },
        Some(l) => {
            if comparar(l.as_str(), g.atualizado_em.as_str()) <= 0 {
                Aplicacao::Atualizar
            } else {
                Aplicacao::Manter
            }
        },
    }
}

// ───────────────────────── received users ─────────────────────────

/// A received user (matched by name; the accesses travel with it).
pub struct UsuarioRemoto {
    pub username: String,
    /// Its `updated_at`, in the local form.
    pub atualizado_em: String,
    /// Its `deleted_at`, in the local form.
    pub removido: Option<String>,
    pub nome_exibicao: String,
    pub hash_senha: String,
    pub secoes: Vec<String>,
}

/// The texts of a list, in order (other items skipped).
pub open spec fn textos_da_lista(l: Seq<ValorJson>) -> Seq<Seq<char>>
    decreases l.len(),
{
    if l.len() == 0 {
        Seq::empty()
    } else {
        let r = textos_da_lista(l.drop_last());
        match l.last() {
            ValorJson::Texto(t) => r.push(t@),
            _ => r,
        }
    }
}

/// The sections of a received user: the texts of its `secoes` list.
pub open spec fn secoes_em(c: Seq<(String, ValorJson)>) -> Seq<Seq<char>> {
    match membro(c, "secoes"@) {
        Some(ValorJson::Lista(l)) => textos_da_lista(l@),
        _ => Seq::empty(),
    }
}

fn textos_de(l: &Vec<ValorJson>) -> (r: Vec<String>)
    ensures
        r@.map_values(|t: String| t@) == textos_da_lista(l@),
{
    let mut r: Vec<String> = Vec::new();
    let mut i: usize = 0;
    proof {
        assert(l@.take(0) =~= Seq::<ValorJson>::empty());
        assert(r@.map_values(|t: String| t@) =~= textos_da_lista(l@.take(0)));
    }
    while i < l.len()
        invariant
            i <= l.len(),
            r@.map_values(|t: String| t@) == textos_da_lista(l@.take(i as int)),
        decreases l.len() - i,
    {
        proof {
            assert(l@.take(i + 1).drop_last() =~= l@.take(i as int));
        }
        if let ValorJson::Texto(t) = &l[i] {
            let ghost antes = r@.map_values(|t: String| t@);
            r.push(t.clone());
            proof {
                assert(r@.map_values(|t: String| t@) =~= antes.push(t@));
            }
        }
        i = i + 1;
    }
    proof {
        assert(l@.take(l.len() as int) =~= l@);
    }
    r
}

/// Reads a received user. Ignored (`None`): a row that is not an object,
/// has no name or no usable `updated_at`, and the removal of the superuser
/// (the cloud never removes it).
pub fn ler_usuario_remoto(remoto: &ValorJson) -> (r: Option<UsuarioRemoto>)
    requires
        registro_cortavel(*remoto),
    ensures
        match *remoto {
            ValorJson::Objeto(c) => {
                if texto_do_membro(c@, "username"@) is None || ts_em(c@, "updated_at"@) is None
                    || (campo(c@, "username"@) == Some(super_usuario()) && ts_em(c@, "deleted_at"@) is Some) {
                    r is None
                } else {
                    r matches Some(u) && {
                        &&& texto_do_membro(c@, "username"@) == Some(u.username)
                        &&& ts_em(c@, "updated_at"@) == Some(u.atualizado_em@)
                        &&& visao_string(u.removido) == ts_em(c@, "deleted_at"@)
                        &&& u.nome_exibicao@ == campo_ou_vazio(c@, "display_name"@)
                        &&& u.hash_senha@ == campo_ou_vazio(c@, "password_hash"@)
                        &&& u.secoes@.map_values(|t: String| t@) == secoes_em(c@)
                    }
                }
            },
            _ => r is None,
        },
{
    let c = match remoto {
        ValorJson::Objeto(c) => c,
        _ => return None,
    };
    let username = match texto_de(c, "username") {
        Some(u) => u,
        None => return None,
    };
    let atualizado_em = match ts_do_campo(c, "updated_at") {
        Some(t) => t,
        None => return None,
    };
    let removido = ts_do_campo(c, "deleted_at");
    if eh_super_usuario(username.as_str()) && removido.is_some() {
        return None;
    }
    let secoes = match obter(c, "secoes") {
        Some(ValorJson::Lista(l)) => textos_de(l),
        _ => Vec::new(),
    };
    proof {
        if !(membro(c@, "secoes"@) matches Some(ValorJson::Lista(_))) {
            assert(secoes@.map_values(|t: String| t@) =~= Seq::<Seq<char>>::empty());
        }
    }
    Some(UsuarioRemoto {
        username,
        atualizado_em,
        removido,
        nome_exibicao: texto_ou_vazio(c, "display_name"),
        hash_senha: texto_ou_vazio(c, "password_hash"),
        secoes,
    })
}

/// What a received user does to the local one.
pub enum AcaoUsuario {
    Ignorar,
    /// Create it with its accesses.
    Criar,
    /// Overwrite the local user `id`; when the user was removed, close its
    /// sessions, else rewrite its accesses.
    Atualizar { id: i64, encerrar_sessoes: bool },
}

/// Last write wins for users too: unknown here ⇒ created (unless it comes
/// removed); known ⇒ overwritten unless the local one is newer.
pub fn decidir_usuario(u: &UsuarioRemoto, local: &Option<(i64, Option<String>)>) -> (r: AcaoUsuario)
    ensures
        match local {
            None => if u.removido is Some { r is Ignorar } else { r is Criar },
            Some((id, ts)) => {
                let local_ts = match ts { Some(t) => t@, None => Seq::<char>::empty() };
                if texto_menor(u.atualizado_em@, local_ts) {
                    r is Ignorar
                } else {
                    r == AcaoUsuario::Atualizar { id: *id, encerrar_sessoes: u.removido is Some }
                }
            },
        },
{
    match local {
        None => {
            if u.removido.is_some() {
                AcaoUsuario::Ignorar
            } else {
                AcaoUsuario::Criar
            }
        },
        Some((id, ts)) => {
            let local_ts = match ts {
                Some(t) => t.clone(),
                None => String::new(),
            };
            if comparar(local_ts.as_str(), u.atualizado_em.as_str()) > 0 {
                AcaoUsuario::Ignorar
            } else {
                AcaoUsuario::Atualizar { id: *id, encerrar_sessoes: u.removido.is_some() }
            }
        },
    }
}


// ───────────────────────── what is sent ─────────────────────────

/// Is a table synchronised (users, companies, employees, leave periods)?
pub fn tabela_sincronizavel(tabela: &str) -> (r: bool)
    ensures
        r == (tabela@ == "users"@ || tabela_por_id(tabela@)),
{
    comparar(tabela, "users") == 0 || comparar(tabela, "companies") == 0 || comparar(tabela, "employees") == 0
        || comparar(tabela, "employee_leave_periods") == 0
}

/// A local row, as read for sending (the cloud keeps `updated_at` and the
/// owner itself).
pub enum LinhaLocal {
    Empresa {
        cnpj: String,
        razao_social: String,
        nome_fantasia: Option<String>,
        situacao: Option<String>,
        municipio: Option<String>,
        uf: Option<String>,
        telefone: Option<String>,
        email: Option<String>,
        deleted_at: Option<String>,
    },
    Funcionario {
        nome: String,
        cpf: Option<String>,
        data_admissao: Option<String>,
        empresa_id: String,
        deleted_at: Option<String>,
    },
    Periodo {
        employee_id: String,
        inicio: String,
        vencimento: String,
        regularizada: i64,
        regularizada_em: Option<String>,
        observacao: Option<String>,
        alarme_em: Option<String>,
        alarme_observacao: Option<String>,
        deleted_at: Option<String>,
    },
}

/// Is member `p` the text `t` under the name `nome`?
pub open spec fn par_texto(p: (String, ValorJson), nome: Seq<char>, t: Seq<char>) -> bool {
    p.0@ == nome && (p.1 matches ValorJson::Texto(v) && v@ == t)
}

/// Is member `p` the optional text `o` (null when absent) under `nome`?
pub open spec fn par_opcional(p: (String, ValorJson), nome: Seq<char>, o: Option<String>) -> bool {
    match o {
        Some(t) => par_texto(p, nome, t@),
        None => p.0@ == nome && p.1 is Nulo,
    }
}

fn texto_json(t: &str) -> (r: ValorJson)
    ensures
        r matches ValorJson::Texto(v) && v@ == t@,
{
    ValorJson::Texto(copia(t))
}

fn opcional_json(o: &Option<String>) -> (r: ValorJson)
    ensures
        match o {
            Some(t) => r matches ValorJson::Texto(v) && v@ == t@,
            None => r is Nulo,
        },
{
    match o {
        Some(t) => ValorJson::Texto(t.clone()),
        None => ValorJson::Nulo,
    }
}

/// The JSON of a local row as it is sent: its id and its columns, in order.
pub open spec fn forma_registro(v: ValorJson, id: Seq<char>, linha: LinhaLocal) -> bool {
    v matches ValorJson::Objeto(c) && match linha {
        LinhaLocal::Empresa { cnpj, razao_social, nome_fantasia, situacao, municipio, uf, telefone, email, deleted_at } => {
            &&& c@.len() == 10
            &&& par_texto(c@[0], "id"@, id)
            &&& par_texto(c@[1], "cnpj"@, cnpj@)
            &&& par_texto(c@[2], "razao_social"@, razao_social@)
            &&& par_opcional(c@[3], "nome_fantasia"@, nome_fantasia)
            &&& par_opcional(c@[4], "situacao"@, situacao)
            &&& par_opcional(c@[5], "municipio"@, municipio)
            &&& par_opcional(c@[6], "uf"@, uf)
            &&& par_opcional(c@[7], "telefone"@, telefone)
            &&& par_opcional(c@[8], "email"@, email)
            &&& par_opcional(c@[9], "deleted_at"@, deleted_at)
        },
        LinhaLocal::Funcionario { nome, cpf, data_admissao, empresa_id, deleted_at } => {
            &&& c@.len() == 6
            &&& par_texto(c@[0], "id"@, id)
            &&& par_texto(c@[1], "nome"@, nome@)
            &&& par_opcional(c@[2], "cpf"@, cpf)
            &&& par_opcional(c@[3], "data_admissao"@, data_admissao)
            &&& par_texto(c@[4], "empresa_id"@, empresa_id@)
            &&& par_opcional(c@[5], "deleted_at"@, deleted_at)
        },
        LinhaLocal::Periodo { employee_id, inicio, vencimento, regularizada, regularizada_em, observacao, alarme_em, alarme_observacao, deleted_at } => {
            &&& c@.len() == 10
            &&& par_texto(c@[0], "id"@, id)
            &&& par_texto(c@[1], "employee_id"@, employee_id@)
            &&& par_texto(c@[2], "inicio"@, inicio@)
            &&& par_texto(c@[3], "vencimento"@, vencimento@)
            &&& c@[4].0@ == "regularizada"@ && c@[4].1 == ValorJson::Booleano(regularizada != 0)
            &&& par_opcional(c@[5], "regularizada_em"@, regularizada_em)
            &&& par_opcional(c@[6], "observacao"@, observacao)
            &&& par_opcional(c@[7], "alarme_em"@, alarme_em)
            &&& par_opcional(c@[8], "alarme_observacao"@, alarme_observacao)
            &&& par_opcional(c@[9], "deleted_at"@, deleted_at)
        },
    }
}

/// The JSON sent for a local company, employee or leave period row.
pub fn payload_do_registro(id: &str, linha: &LinhaLocal) -> (r: ValorJson)
    ensures
        gravavel(r),
        forma_registro(r, id@, *linha),
{
    let mut c: Vec<(String, ValorJson)> = Vec::new();
    c.push((copia("id"), texto_json(id)));
    match linha {
        LinhaLocal::Empresa { cnpj, razao_social, nome_fantasia, situacao, municipio, uf, telefone, email, deleted_at } => {
            c.push((copia("cnpj"), texto_json(cnpj.as_str())));
            c.push((copia("razao_social"), texto_json(razao_social.as_str())));
            c.push((copia("nome_fantasia"), opcional_json(nome_fantasia)));
            c.push((copia("situacao"), opcional_json(situacao)));
            c.push((copia("municipio"), opcional_json(municipio)));
            c.push((copia("uf"), opcional_json(uf)));
            c.push((copia("telefone"), opcional_json(telefone)));
            c.push((copia("email"), opcional_json(email)));
            c.push((copia("deleted_at"), opcional_json(deleted_at)));
        },
        LinhaLocal::Funcionario { nome, cpf, data_admissao, empresa_id, deleted_at } => {
            c.push((copia("nome"), texto_json(nome.as_str())));
            c.push((copia("cpf"), opcional_json(cpf)));
            c.push((copia("data_admissao"), opcional_json(data_admissao)));
            c.push((copia("empresa_id"), texto_json(empresa_id.as_str())));
            c.push((copia("deleted_at"), opcional_json(deleted_at)));
        },
        LinhaLocal::Periodo { employee_id, inicio, vencimento, regularizada, regularizada_em, observacao, alarme_em, alarme_observacao, deleted_at } => {
            c.push((copia("employee_id"), texto_json(employee_id.as_str())));
            c.push((copia("inicio"), texto_json(inicio.as_str())));
            c.push((copia("vencimento"), texto_json(vencimento.as_str())));
            c.push((copia("regularizada"), ValorJson::Booleano(*regularizada != 0)));
            c.push((copia("regularizada_em"), opcional_json(regularizada_em)));
            c.push((copia("observacao"), opcional_json(observacao)));
            c.push((copia("alarme_em"), opcional_json(alarme_em)));
            c.push((copia("alarme_observacao"), opcional_json(alarme_observacao)));
            c.push((copia("deleted_at"), opcional_json(deleted_at)));
        },
    }
    ValorJson::Objeto(c)
}

/// The JSON of a local user as it is sent: its data and its accesses.
pub open spec fn forma_usuario(v: ValorJson, username: Seq<char>, display_name: Seq<char>, password_hash: Seq<char>,
    secoes: Seq<Seq<char>>, deleted_at: Option<String>) -> bool {
    v matches ValorJson::Objeto(c) && {
        &&& c@.len() == 5
        &&& par_texto(c@[0], "username"@, username)
        &&& par_texto(c@[1], "display_name"@, display_name)
        &&& par_texto(c@[2], "password_hash"@, password_hash)
        &&& c@[3].0@ == "secoes"@ && (c@[3].1 matches ValorJson::Lista(l) && textos_da_lista(l@) == secoes && l@.len() == secoes.len())
        &&& par_opcional(c@[4], "deleted_at"@, deleted_at)
    }
}

/// The JSON sent for a local user: its data and its accesses, which the
/// cloud keeps in the same row.
pub fn payload_do_usuario(
    username: &str,
    display_name: &str,
    password_hash: &str,
    secoes: &Vec<String>,
    deleted_at: &Option<String>,
) -> (r: ValorJson)
    ensures
        gravavel(r),
        forma_usuario(r, username@, display_name@, password_hash@, secoes@.map_values(|t: String| t@), *deleted_at),
{
    let mut lista: Vec<ValorJson> = Vec::new();
    let mut i: usize = 0;
    proof {
        assert(secoes@.take(0).map_values(|t: String| t@) =~= textos_da_lista(lista@));
    }
    while i < secoes.len()
        invariant
            i <= secoes.len(),
            lista@.len() == i,
            textos_da_lista(lista@) == secoes@.take(i as int).map_values(|t: String| t@),
            forall|k: int| 0 <= k < lista@.len() ==> escalar(#[trigger] lista@[k]),
        decreases secoes.len() - i,
    {
        let ghost antes = lista@;
        lista.push(ValorJson::Texto(secoes[i].clone()));
        proof {
            assert(lista@.drop_last() =~= antes);
            assert(secoes@.take(i + 1).map_values(|t: String| t@) =~= secoes@.take(i as int).map_values(|t: String| t@).push(secoes@[i as int]@));
        }
        i = i + 1;
    }
    proof {
        assert(secoes@.take(secoes.len() as int) =~= secoes@);
    }
    let mut c: Vec<(String, ValorJson)> = Vec::new();
    c.push((copia("username"), texto_json(username)));
    c.push((copia("display_name"), texto_json(display_name)));
    c.push((copia("password_hash"), texto_json(password_hash)));
    c.push((copia("secoes"), ValorJson::Lista(lista)));
    c.push((copia("deleted_at"), opcional_json(deleted_at)));
    proof {
        assert(forall|k: int| 0 <= k < c@.len() ==> raso(#[trigger] c@[k].1));
    }
    ValorJson::Objeto(c)
}


// ───────────────────────── laws ─────────────────────────

/// The local `updated_at` of a row once a received version with
/// `updated_at` `remoto` went through `decidir_aplicacao` (inserted or
/// overwritten: the received time; kept: the local one).
pub open spec fn ts_apos_receber(local: Option<Seq<char>>, remoto: Seq<char>) -> Option<Seq<char>> {
    match local {
        None => Some(remoto),
        Some(l) => if texto_menor_igual(l, remoto) { Some(remoto) } else { Some(l) },
    }
}

/// Last write wins whatever the order of arrival: two versions of a row
/// received one after the other leave the same local time in either
/// order, and that time is not before either of them nor before the local
/// one.
pub proof fn lei_ultima_escrita_vence(local: Option<Seq<char>>, a: Seq<char>, b: Seq<char>)
    ensures
        ts_apos_receber(ts_apos_receber(local, a), b) == ts_apos_receber(ts_apos_receber(local, b), a),
        ts_apos_receber(ts_apos_receber(local, a), b) matches Some(t) && texto_menor_igual(a, t)
            && texto_menor_igual(b, t) && (local matches Some(l) ==> texto_menor_igual(l, t)),
{
    lemma_texto_menor_total(a, b);
    lemma_texto_menor_assimetrico(a, b);
    lemma_texto_menor_assimetrico(b, a);
    if let Some(l) = local {
        lemma_texto_menor_total(l, a);
        lemma_texto_menor_total(l, b);
        lemma_texto_menor_assimetrico(l, a);
        lemma_texto_menor_assimetrico(a, l);
        lemma_texto_menor_assimetrico(l, b);
        lemma_texto_menor_assimetrico(b, l);
        if texto_menor(l, a) && texto_menor(a, b) { lemma_texto_menor_transitivo(l, a, b); }
        if texto_menor(l, b) && texto_menor(b, a) { lemma_texto_menor_transitivo(l, b, a); }
        if texto_menor(a, l) && texto_menor(l, b) { lemma_texto_menor_transitivo(a, l, b); }
        if texto_menor(b, l) && texto_menor(l, a) { lemma_texto_menor_transitivo(b, l, a); }
        if texto_menor(a, b) && texto_menor(b, l) { lemma_texto_menor_transitivo(a, b, l); }
        if texto_menor(b, a) && texto_menor(a, l) { lemma_texto_menor_transitivo(b, a, l); }
    }
}

/// A user sent and received back (the cloud adding its `updated_at`) reads
/// as the same user: name, display name, hash and accesses.
pub proof fn lei_usuario_vai_e_volta(c: Seq<(String, ValorJson)>, chave: String, ts: String, username: Seq<char>, display_name: Seq<char>, password_hash: Seq<char>, secoes: Seq<Seq<char>>)
    requires
        c.len() == 5,
        par_texto(c[0], "username"@, username),
        par_texto(c[1], "display_name"@, display_name),
        par_texto(c[2], "password_hash"@, password_hash),
        c[3].0@ == "secoes"@ && (c[3].1 matches ValorJson::Lista(l) && textos_da_lista(l@) == secoes),
        c[4].0@ == "deleted_at"@,
        chave@ == "updated_at"@,
    ensures
        campo(c.push((chave, ValorJson::Texto(ts))), "username"@) == Some(username),
        campo_ou_vazio(c.push((chave, ValorJson::Texto(ts))), "display_name"@) == display_name,
        campo_ou_vazio(c.push((chave, ValorJson::Texto(ts))), "password_hash"@) == password_hash,
        secoes_em(c.push((chave, ValorJson::Texto(ts)))) == secoes,
        texto_do_membro(c.push((chave, ValorJson::Texto(ts))), "updated_at"@) == Some(ts),
{
    reveal_strlit("username");
    reveal_strlit("display_name");
    reveal_strlit("password_hash");
    reveal_strlit("secoes");
    reveal_strlit("deleted_at");
    reveal_strlit("updated_at");
    reveal_with_fuel(membro, 7);
    let d = c.push((chave, ValorJson::Texto(ts)));
    assert(d[0] == c[0]);
    assert(d.drop_first()[0] == c[1]);
    assert(d.drop_first().drop_first()[0] == c[2]);
    assert(d.drop_first().drop_first().drop_first()[0] == c[3]);
    assert(d.drop_first().drop_first().drop_first().drop_first()[0] == c[4]);
    assert(d.drop_first().drop_first().drop_first().drop_first().drop_first()[0] == (chave, ValorJson::Texto(ts)));
    assert(d.drop_first().drop_first().drop_first().drop_first().drop_first().drop_first().len() == 0);
    assert("username"@.len() == 8);
    assert("display_name"@.len() == 12);
    assert("password_hash"@.len() == 13);
    assert(d[0].0@ != "display_name"@);
    assert(membro(d, "display_name"@) == membro(d.drop_first(), "display_name"@));
    assert(d.drop_first()[0].0@ == "display_name"@);
    assert(d[0].0@ != "password_hash"@);
    assert(d.drop_first()[0].0@ != "password_hash"@);
    assert(membro(d, "password_hash"@) == membro(d.drop_first().drop_first(), "password_hash"@));
    assert("secoes"@.len() == 6);
    assert("updated_at"@.len() == 10);
    assert("deleted_at"@[0] == 'd');
    assert("updated_at"@[0] == 'u');
    let d5 = d.drop_first().drop_first().drop_first().drop_first().drop_first();
    assert(d[0].0@ != "updated_at"@);
    assert(d.drop_first()[0].0@ != "updated_at"@);
    assert(d.drop_first().drop_first()[0].0@ != "updated_at"@);
    assert(d.drop_first().drop_first().drop_first()[0].0@ != "updated_at"@);
    assert(d.drop_first().drop_first().drop_first().drop_first()[0].0@ != "updated_at"@);
    assert(membro(d, "updated_at"@) == membro(d5, "updated_at"@));
}


/// Can the `updated_at` the cloud gave back for a sent row be normalized?
pub open spec fn envio_cortavel(json: Option<ValorJson>) -> bool {
    match json {
        Some(ValorJson::Lista(l)) => l@.len() == 0 || registro_cortavel(l@[0]),
        _ => true,
    }
}

/// The `updated_at` the cloud stored for a sent row, in the local form: the
/// answer is the list of stored rows; its first row's time stamps the local
/// row, so that it is not taken for a local change again.
pub open spec fn ts_do_envio_spec(json: Option<ValorJson>) -> Option<Seq<char>> {
    match json {
        Some(ValorJson::Lista(l)) => if l@.len() == 0 {
            None
        } else {
            match l@[0] {
                ValorJson::Objeto(c) => ts_em(c@, "updated_at"@),
                _ => None,
            }
        },
        _ => None,
    }
}

fn ts_do_envio_json(json: &Option<ValorJson>) -> (r: Option<String>)
    requires
        envio_cortavel(*json),
    ensures
        visao_string(r) == ts_do_envio_spec(*json),
{
    match json {
        Some(ValorJson::Lista(l)) => {
            if l.len() == 0 {
                None
            } else {
                match &l[0] {
                    ValorJson::Objeto(c) => ts_do_campo(c, "updated_at"),
                    _ => None,
                }
            }
        },
        _ => None,
    }
}

/// The decoded answer to a send, when it decodes.
fn envio_lido(corpo: &str) -> (r: Option<ValorJson>)
    ensures
        r == json_lido(corpo@),
{
    match ler_json(corpo) {
        Ok(j) => Some(j),
        Err(_) => None,
    }
}

/// Can every timestamp of a received row be normalized?
pub fn registro_legivel(json: &ValorJson) -> (r: bool)
    ensures
        r == registro_cortavel(*json),
{
    match json {
        ValorJson::Objeto(c) => {
            let a = match texto_de(c, "updated_at") { Some(t) => corte_valido(t.as_str()), None => true };
            let b = match texto_de(c, "created_at") { Some(t) => corte_valido(t.as_str()), None => true };
            let d = match texto_de(c, "deleted_at") { Some(t) => corte_valido(t.as_str()), None => true };
            a && b && d
        },
        _ => true,
    }
}

/// Can the `updated_at` of the answer to a send (its body as text) be
/// normalized? (Test it before `ts_do_envio`.)
pub fn envio_legivel(corpo: &str) -> (r: bool)
    ensures
        r == envio_cortavel(json_lido(corpo@)),
{
    match envio_lido(corpo) {
        Some(ValorJson::Lista(l)) => l.len() == 0 || registro_legivel(&l[0]),
        _ => true,
    }
}

/// The `updated_at` the cloud stored for a sent row, in the local form,
/// read from the answer's body (none when it does not decode).
pub(crate) fn ts_do_envio(corpo: &str) -> (r: Option<String>)
    requires
        envio_cortavel(json_lido(corpo@)),
    ensures
        visao_string(r) == ts_do_envio_spec(json_lido(corpo@)),
{
    let json = envio_lido(corpo);
    ts_do_envio_json(&json)
}

/// The time stamp for a sent row, from the answer's body: `None` when its
/// `updated_at` cannot be cut at 19 bytes (where a byte-wise cut would
/// split a character), else what `ts_do_envio` reads.
pub fn carimbo_do_envio(corpo: &str) -> (r: Option<Option<String>>)
    ensures
        envio_cortavel(json_lido(corpo@)) ==> (r matches Some(t) && visao_string(t) == ts_do_envio_spec(json_lido(corpo@))),
        !envio_cortavel(json_lido(corpo@)) ==> r is None,
{
    if envio_legivel(corpo) {
        Some(ts_do_envio(corpo))
    } else {
        None
    }
}

/// The rows of one page of changes (its body as text): none for a blank
/// body, else the items of the JSON list it holds; anything else is an
/// invalid answer.
pub fn pagina_recebida(tabela: &str, corpo: &str) -> (r: Result<Vec<ValorJson>, String>)
    ensures
        aparado(corpo@).len() == 0 ==> (r matches Ok(l) && l@.len() == 0),
        aparado(corpo@).len() != 0 ==> match json_lido(corpo@) {
            Some(ValorJson::Lista(l)) => r matches Ok(x) && x@ == l@,
            _ => r matches Err(e) && exists|m: Seq<char>| e@ == "Resposta inválida de "@ + tabela@ + ": "@ + m,
        },
{
    if em_branco(corpo) {
        return Ok(Vec::new());
    }
    let mut prefixo = copia("Resposta inválida de ");
    anexar(&mut prefixo, tabela);
    anexar(&mut prefixo, ": ");
    match decodificar(corpo, prefixo.as_str()) {
        Ok(ValorJson::Lista(l)) => Ok(l),
        Ok(_) => {
            let mut e = prefixo;
            let m = copia("a resposta não é uma lista");
            anexar(&mut e, m.as_str());
            Err(e)
        },
        Err(e) => Err(e),
    }
}

/// The text of a local row as it is sent.
pub fn texto_do_registro(id: &str, linha: &LinhaLocal) -> (r: String)
    ensures
        exists|v: ValorJson| #[trigger] forma_registro(v, id@, *linha) && r@ == json_escrito(v),
{
    let v = payload_do_registro(id, linha);
    let r = texto_gravavel(&v);
    assert(forma_registro(v, id@, *linha) && r@ == json_escrito(v));
    r
}

/// The text of a local user as it is sent.
pub fn texto_do_usuario(
    username: &str,
    display_name: &str,
    password_hash: &str,
    secoes: &Vec<String>,
    deleted_at: &Option<String>,
) -> (r: String)
    ensures
        exists|v: ValorJson| forma_usuario(v, username@, display_name@, password_hash@,
            secoes@.map_values(|t: String| t@), *deleted_at) && r@ == #[trigger] json_escrito(v),
{
    let v = payload_do_usuario(username, display_name, password_hash, secoes, deleted_at);
    let r = texto_gravavel(&v);
    assert(forma_usuario(v, username@, display_name@, password_hash@, secoes@.map_values(|t: String| t@), *deleted_at)
        && r@ == json_escrito(v));
    r
}

} // verus!
