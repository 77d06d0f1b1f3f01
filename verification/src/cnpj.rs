//! CNPJ rules and the lookup of public company data.
//!
//! Sources (in order, all public and free):
//!   1. **Minha Receita** (https://minhareceita.org) — open API, no key and no
//!      practical query limit; open data of the Receita Federal.
//!   2. **BrasilAPI** (https://brasilapi.com.br) — fallback; about 3 queries
//!      per second per IP (429), handled with retry/backoff.
//!
//! Both answer in the same format, so there is a single reader. The caller
//! performs the HTTP requests and the waits; the functions here decide what
//! to ask next and what an answer means.

use vstd::prelude::*;
use crate::texto::{
    caracteres, digitos_de, so_digitos, texto_de, anexar, copia, aparar, em_branco, aparado,
    eh_digito, valor_digito, procurar, ocorre_em, contem, digito, espaco, eh_espaco, espacos_iniciais,
    lemma_espacos_iniciais,
};
use crate::numeros::{u64_lido, ler_u64_trecho};
use crate::json::{ValorJson, membro, obter, json_lido, json_lido_de_bytes, utf8_com_perdas, ler_json,
    ler_json_de_bytes, texto_com_perdas};

verus! {

broadcast use vstd::seq_lib::group_seq_properties;

// ───────────────────────── check digits ─────────────────────────

/// Weights of the first check digit.
pub open spec fn pesos_dv1() -> Seq<int> {
    seq![5, 4, 3, 2, 9, 8, 7, 6, 5, 4, 3, 2]
}

/// Weights of the second check digit.
pub open spec fn pesos_dv2() -> Seq<int> {
    seq![6, 5, 4, 3, 2, 9, 8, 7, 6, 5, 4, 3, 2]
}

/// `Σ pesos[k] · d[k]` over the first `n` positions.
pub open spec fn soma_ponderada(pesos: Seq<int>, d: Seq<char>, n: int) -> int
    decreases n,
{
    if n <= 0 {
        0
    } else {
        soma_ponderada(pesos, d, n - 1) + pesos[n - 1] * valor_digito(d[n - 1])
    }
}

/// Modulo-11 check digit of `d` with the given weights.
pub open spec fn digito_verificador(pesos: Seq<int>, d: Seq<char>) -> int {
    let resto = soma_ponderada(pesos, d, pesos.len() as int) % 11;
    if resto < 2 {
        0
    } else {
        11 - resto
    }
}

/// The digits of a text form a CNPJ: exactly 14 of them, the last two being
/// the check digits of the first twelve and thirteen.
pub open spec fn cnpj_valido(s: Seq<char>) -> bool {
    let d = so_digitos(s);
    &&& d.len() == 14
    &&& digito_verificador(pesos_dv1(), d) == valor_digito(d[12])
    &&& digito_verificador(pesos_dv2(), d) == valor_digito(d[13])
}

/// Modulo-11 check digit computed over `d` with `pesos`.
pub fn calcular_digito(pesos: &Vec<u32>, d: &Vec<char>) -> (r: u32)
    requires
        pesos.len() <= d.len(),
        pesos.len() <= 13,
        forall|k: int| 0 <= k < pesos.len() ==> pesos@[k] <= 11,
        forall|k: int| 0 <= k < d.len() ==> eh_digito(#[trigger] d@[k]),
    ensures
        r == digito_verificador(pesos@.map_values(|p: u32| p as int), d@),
{
    let ghost ps = pesos@.map_values(|p: u32| p as int);
    let mut soma: u32 = 0;
    let mut i: usize = 0;
    while i < pesos.len()
        invariant
            i <= pesos.len(),
            pesos.len() <= d.len(),
            pesos.len() <= 13,
            ps == pesos@.map_values(|p: u32| p as int),
            forall|k: int| 0 <= k < pesos.len() ==> pesos@[k] <= 11,
            forall|k: int| 0 <= k < d.len() ==> eh_digito(#[trigger] d@[k]),
            soma == soma_ponderada(ps, d@, i as int),
            soma <= 99 * i,
        decreases pesos.len() - i,
    {
        let dig = (d[i] as u32) - ('0' as u32);
        assert(dig == valor_digito(d@[i as int]));
        assert(pesos[i as int] * dig <= 99) by (nonlinear_arith)
            requires
                pesos[i as int] <= 11,
                dig <= 9,
        ;
        soma = soma + pesos[i] * dig;
        i = i + 1;
    }
    let resto = soma % 11;
    if resto < 2 {
        0
    } else {
        11 - resto
    }
}

/// Checks the **check digits** of a 14-digit CNPJ (modulo 11, the rule of the
/// Receita Federal). Only the ASCII digits of the text count.
pub fn validar_cnpj(cnpj: &str) -> (r: bool)
    ensures
        r == cnpj_valido(cnpj@),
{
    let d = digitos_de(cnpj);
    if d.len() != 14 {
        return false;
    }
    proof {
        assert forall|k: int| 0 <= k < d.len() implies eh_digito(#[trigger] d@[k]) by {
            assert(so_digitos(cnpj@).contains(d@[k]));
            cnpj@.filter_lemma(crate::texto::filtro_digito());
        }
    }
    let pesos1: Vec<u32> = vec![5, 4, 3, 2, 9, 8, 7, 6, 5, 4, 3, 2];
    let pesos2: Vec<u32> = vec![6, 5, 4, 3, 2, 9, 8, 7, 6, 5, 4, 3, 2];
    proof {
        assert(pesos1@.map_values(|p: u32| p as int) =~= pesos_dv1());
        assert(pesos2@.map_values(|p: u32| p as int) =~= pesos_dv2());
    }
    let dv1 = calcular_digito(&pesos1, &d);
    if dv1 != (d[12] as u32) - ('0' as u32) {
        return false;
    }
    let dv2 = calcular_digito(&pesos2, &d);
    dv2 == (d[13] as u32) - ('0' as u32)
}

/// The message when a CNPJ does not have 14 digits.
pub open spec fn msg_cnpj_tamanho() -> Seq<char> {
    "CNPJ inválido — informe os 14 dígitos."@
}

/// The message when the check digits of a CNPJ do not match.
pub open spec fn msg_cnpj_digitos() -> Seq<char> {
    "CNPJ inválido — os dígitos verificadores não conferem."@
}

/// What `normalizar_cnpj` answers for a text.
pub open spec fn cnpj_normalizado(raw: Seq<char>) -> Result<Seq<char>, Seq<char>> {
    let d = so_digitos(raw);
    if d.len() != 14 {
        Err(msg_cnpj_tamanho())
    } else if !cnpj_valido(d) {
        Err(msg_cnpj_digitos())
    } else {
        Ok(d)
    }
}

/// The view of a textual result.
pub open spec fn visao_resultado(r: Result<String, String>) -> Result<Seq<char>, Seq<char>> {
    match r {
        Ok(s) => Ok(s@),
        Err(e) => Err(e@),
    }
}

/// Normalizes a typed CNPJ (mask, dots, slashes, spaces) to the system's
/// form — **only the 14 digits** — and checks the check digits, so that no
/// query is spent on a false CNPJ.
pub fn normalizar_cnpj(raw: &str) -> (r: Result<String, String>)
    ensures
        visao_resultado(r) == cnpj_normalizado(raw@),
{
    let d = digitos_de(raw);
    if d.len() != 14 {
        return Err(copia("CNPJ inválido — informe os 14 dígitos."));
    }
    let digitos = texto_de(&d);
    if !validar_cnpj(digitos.as_str()) {
        return Err(copia("CNPJ inválido — os dígitos verificadores não conferem."));
    }
    Ok(digitos)
}

// ───────────────────────── the public data ─────────────────────────

/// Company data from the API (shown before saving).
pub struct DadosEmpresa {
    pub cnpj: String,
    pub razao_social: String,
    pub nome_fantasia: Option<String>,
    pub situacao: Option<String>,
    pub municipio: Option<String>,
    pub uf: Option<String>,
    pub telefone: Option<String>,
    pub email: Option<String>,
}

/// What `extrair_dados` reads from one member: a non-blank string, trimmed,
/// or the text of a number; anything else reads as absent.
pub open spec fn texto_util(v: Option<ValorJson>) -> Option<Seq<char>> {
    match v {
        Some(ValorJson::Texto(s)) => if aparado(s@).len() > 0 {
            Some(aparado(s@))
        } else {
            None
        },
        Some(ValorJson::Numero(n)) => Some(n@),
        _ => None,
    }
}

/// The first of the named members that reads as text.
pub open spec fn primeiro_texto(campos: Seq<(String, ValorJson)>, chaves: Seq<Seq<char>>) -> Option<Seq<char>>
    decreases chaves.len(),
{
    if chaves.len() == 0 {
        None
    } else {
        match texto_util(membro(campos, chaves[0])) {
            Some(t) => Some(t),
            None => primeiro_texto(campos, chaves.drop_first()),
        }
    }
}

/// The view of an optional text.
pub open spec fn visao_opcao(o: Option<String>) -> Option<Seq<char>> {
    match o {
        Some(s) => Some(s@),
        None => None,
    }
}

fn texto_do_campo(campos: &Vec<(String, ValorJson)>, chave: &str) -> (r: Option<String>)
    ensures
        visao_opcao(r) == texto_util(membro(campos@, chave@)),
{
    match obter(campos, chave) {
        Some(ValorJson::Texto(s)) => {
            if em_branco(s.as_str()) {
                None
            } else {
                Some(aparar(s.as_str()))
            }
        },
        Some(ValorJson::Numero(n)) => Some(n.clone()),
        _ => None,
    }
}

fn primeiro_de(campos: &Vec<(String, ValorJson)>, chaves: &Vec<&str>) -> (r: Option<String>)
    ensures
        visao_opcao(r) == primeiro_texto(campos@, chaves@.map_values(|c: &str| c@)),
{
    let ghost cs = chaves@.map_values(|c: &str| c@);
    let mut i: usize = 0;
    proof {
        assert(cs.skip(0) =~= cs);
    }
    while i < chaves.len()
        invariant
            i <= chaves.len(),
            cs == chaves@.map_values(|c: &str| c@),
            primeiro_texto(campos@, cs) == primeiro_texto(campos@, cs.skip(i as int)),
        decreases chaves.len() - i,
    {
        proof {
            assert(cs.skip(i as int).drop_first() =~= cs.skip(i + 1));
            assert(cs.skip(i as int)[0] == chaves@[i as int]@);
        }
        let t = texto_do_campo(campos, chaves[i]);
        if t.is_some() {
            return t;
        }
        i = i + 1;
    }
    None
}

/// The company data read from the API's answer: each field the first of its
/// names that holds a text; the legal name falls back to the trade name and
/// then to `EMPRESA <cnpj>`, so that no row is saved without a name.
pub open spec fn dados_extraidos(campos: Seq<(String, ValorJson)>, cnpj: Seq<char>) -> (Seq<char>, Seq<char>, Option<Seq<char>>, Option<Seq<char>>, Option<Seq<char>>, Option<Seq<char>>, Option<Seq<char>>, Option<Seq<char>>) {
    let razao = match primeiro_texto(campos, seq!["razao_social"@]) {
        Some(t) => t,
        None => match primeiro_texto(campos, seq!["nome_fantasia"@]) {
            Some(t) => t,
            None => "EMPRESA "@ + cnpj,
        },
    };
    (
        cnpj,
        razao,
        primeiro_texto(campos, seq!["nome_fantasia"@]),
        primeiro_texto(campos, seq!["descricao_situacao_cadastral"@]),
        primeiro_texto(campos, seq!["municipio"@]),
        primeiro_texto(campos, seq!["uf"@]),
        primeiro_texto(campos, seq!["ddd_telefone_1"@, "ddd_telefone_2"@, "telefone"@]),
        primeiro_texto(campos, seq!["email"@]),
    )
}

/// The view of company data.
pub open spec fn visao_dados(d: DadosEmpresa) -> (Seq<char>, Seq<char>, Option<Seq<char>>, Option<Seq<char>>, Option<Seq<char>>, Option<Seq<char>>, Option<Seq<char>>, Option<Seq<char>>) {
    (
        d.cnpj@,
        d.razao_social@,
        visao_opcao(d.nome_fantasia),
        visao_opcao(d.situacao),
        visao_opcao(d.municipio),
        visao_opcao(d.uf),
        visao_opcao(d.telefone),
        visao_opcao(d.email),
    )
}

/// Reads the API's JSON object into `DadosEmpresa`; empty or missing fields
/// become `None`.
pub fn extrair_dados(json: &Vec<(String, ValorJson)>, cnpj: &str) -> (r: DadosEmpresa)
    ensures
        visao_dados(r) == dados_extraidos(json@, cnpj@),
{
    let k_razao = vec!["razao_social"];
    let k_fantasia = vec!["nome_fantasia"];
    let k_situacao = vec!["descricao_situacao_cadastral"];
    let k_municipio = vec!["municipio"];
    let k_uf = vec!["uf"];
    let k_telefone = vec!["ddd_telefone_1", "ddd_telefone_2", "telefone"];
    let k_email = vec!["email"];
    proof {
        assert(k_razao@.map_values(|c: &str| c@) =~= seq!["razao_social"@]);
        assert(k_fantasia@.map_values(|c: &str| c@) =~= seq!["nome_fantasia"@]);
        assert(k_situacao@.map_values(|c: &str| c@) =~= seq!["descricao_situacao_cadastral"@]);
        assert(k_municipio@.map_values(|c: &str| c@) =~= seq!["municipio"@]);
        assert(k_uf@.map_values(|c: &str| c@) =~= seq!["uf"@]);
        assert(k_telefone@.map_values(|c: &str| c@) =~= seq![
            "ddd_telefone_1"@,
            "ddd_telefone_2"@,
            "telefone"@,
        ]);
        assert(k_email@.map_values(|c: &str| c@) =~= seq!["email"@]);
    }
    let razao_social = match primeiro_de(json, &k_razao) {
        Some(t) => t,
        None => match primeiro_de(json, &k_fantasia) {
            Some(t) => t,
            None => {
                let mut t = copia("EMPRESA ");
                anexar(&mut t, cnpj);
                t
            },
        },
    };
    let r = DadosEmpresa {
        cnpj: copia(cnpj),
        razao_social,
        nome_fantasia: primeiro_de(json, &k_fantasia),
        situacao: primeiro_de(json, &k_situacao),
        municipio: primeiro_de(json, &k_municipio),
        uf: primeiro_de(json, &k_uf),
        telefone: primeiro_de(json, &k_telefone),
        email: primeiro_de(json, &k_email),
    };
    r
}

// ───────────────────────── rate-limit hints ─────────────────────────

/// Length of the run of ASCII digits at the start of `s`.
pub open spec fn digitos_iniciais(s: Seq<char>) -> nat
    decreases s.len(),
{
    if s.len() > 0 && eh_digito(s[0]) {
        1 + digitos_iniciais(s.drop_first())
    } else {
        0
    }
}

/// The first position at which `needle` occurs in `hay`.
pub open spec fn primeira_ocorrencia(hay: Seq<char>, needle: Seq<char>) -> int {
    choose|i: int| ocorre_em(hay, needle, i) && forall|k: int| 0 <= k < i ==> !ocorre_em(hay, needle, k)
}

/// "N" of a message like "Rate limit exceeded, retry in N seconds": the
/// digits after the first "retry in" and the spaces that follow it, read
/// as `u64`.
pub open spec fn segundos_na_mensagem(corpo: Seq<char>) -> Option<int> {
    if !contem(corpo, "retry in"@) {
        None
    } else {
        let apos = corpo.skip(primeira_ocorrencia(corpo, "retry in"@) + 8);
        let resto = apos.skip(espacos_iniciais(apos) as int);
        u64_lido(resto.take(digitos_iniciais(resto) as int))
    }
}

pub proof fn lemma_digitos_iniciais(s: Seq<char>, j: int)
    requires
        0 <= j <= s.len(),
        forall|k: int| 0 <= k < j ==> eh_digito(#[trigger] s[k]),
        j == s.len() || !eh_digito(s[j]),
    ensures
        digitos_iniciais(s) == j,
    decreases j,
{
    if j > 0 {
        assert forall|k: int| 0 <= k < j - 1 implies eh_digito(#[trigger] s.drop_first()[k]) by {
            assert(s.drop_first()[k] == s[k + 1]);
        }
        lemma_digitos_iniciais(s.drop_first(), j - 1);
    }
}

/// Reads "N" from a message like "Rate limit exceeded, retry in N seconds".
pub fn segundos_do_retry(corpo: &str) -> (r: Option<u64>)
    ensures
        r matches Some(n) ==> segundos_na_mensagem(corpo@) == Some(n as int),
        r is None ==> segundos_na_mensagem(corpo@) is None,
{
    let v = caracteres(corpo);
    let padrao = caracteres("retry in");
    proof {
        reveal_strlit("retry in");
    }
    let i = match procurar(&v, &padrao) {
        Some(i) => i,
        None => return None,
    };
    proof {
        let hay = corpo@;
        let nd = "retry in"@;
        let c = primeira_ocorrencia(hay, nd);
        assert(ocorre_em(hay, nd, i as int));
        assert(ocorre_em(hay, nd, c) && forall|k: int| 0 <= k < c ==> !ocorre_em(hay, nd, k));
        if c < i {
            assert(!ocorre_em(hay, nd, c));
        }
        if i < c {
            assert(!ocorre_em(hay, nd, i as int));
        }
        assert(c == i);
        assert(padrao@.len() == 8);
        assert(i + 8 <= v.len());
    }
    let depois = i + 8;
    let mut inicio = depois;
    while inicio < v.len() && espaco(v[inicio])
        invariant
            depois <= inicio <= v.len(),
            forall|k: int| depois <= k < inicio ==> eh_espaco(#[trigger] v@[k]),
        decreases v.len() - inicio,
    {
        inicio = inicio + 1;
    }
    proof {
        let apos = corpo@.skip(depois as int);
        assert forall|k: int| 0 <= k < inicio - depois implies eh_espaco(#[trigger] apos[k]) by {
            assert(apos[k] == v@[k + depois]);
        }
        if inicio < v.len() {
            assert(apos[inicio - depois] == v@[inicio as int]);
        }
        lemma_espacos_iniciais(apos, inicio - depois);
        assert(apos.skip(inicio - depois) =~= corpo@.skip(inicio as int));
    }
    let mut j = inicio;
    while j < v.len() && digito(v[j])
        invariant
            inicio <= j <= v.len(),
            forall|k: int| inicio <= k < j ==> eh_digito(#[trigger] v@[k]),
        decreases v.len() - j,
    {
        j = j + 1;
    }
    proof {
        let resto = corpo@.skip(inicio as int);
        assert forall|k: int| 0 <= k < j - inicio implies eh_digito(#[trigger] resto[k]) by {
            assert(resto[k] == v@[k + inicio]);
        }
        if j < v.len() {
            assert(resto[j - inicio] == v@[j as int]);
        }
        lemma_digitos_iniciais(resto, j - inicio);
        assert(resto.take(j - inicio) =~= v@.subrange(inicio as int, j as int));
    }
    ler_u64_trecho(&v, inicio, j)
}

/// `Retry-After` as seconds, or else the seconds named in the body.
pub open spec fn espera_indicada(cabecalho: Option<Seq<char>>, corpo: Seq<char>) -> Option<int> {
    match cabecalho {
        Some(c) => match u64_lido(c) {
            Some(n) => Some(n),
            None => segundos_na_mensagem(corpo),
        },
        None => segundos_na_mensagem(corpo),
    }
}

/// How long a 429 answer asks to wait: the `Retry-After` header (seconds,
/// when it is readable text) or else the "retry in N" of the body.
pub fn espera_sugerida(cabecalho: Option<&str>, corpo: &str) -> (r: Option<u64>)
    ensures
        r matches Some(n) ==> espera_indicada(
            match cabecalho { Some(c) => Some(c@), None => None },
            corpo@,
        ) == Some(n as int),
        r is None ==> espera_indicada(
            match cabecalho { Some(c) => Some(c@), None => None },
            corpo@,
        ) is None,
{
    match cabecalho {
        Some(c) => {
            let v = caracteres(c);
            proof {
                assert(v@.subrange(0, v@.len() as int) =~= c@);
            }
            match ler_u64_trecho(&v, 0, v.len()) {
                Some(n) => Some(n),
                None => segundos_do_retry(corpo),
            }
        },
        None => segundos_do_retry(corpo),
    }
}

// ───────────────────────── the lookup, step by step ─────────────────────────

/// How many times one source is asked after answering 429.
pub const MAX_TENTATIVAS: u32 = 4;

/// Number of sources, tried in order.
pub const NUM_PROVEDORES: usize = 2;

/// Name of the source at position `i`.
pub open spec fn nome_provedor(i: int) -> Seq<char> {
    if i == 0 { "Minha Receita"@ } else { "BrasilAPI"@ }
}

/// Base URL of the source at position `i`; a query is `{base}/{cnpj}`.
pub open spec fn base_provedor(i: int) -> Seq<char> {
    if i == 0 { "https://minhareceita.org"@ } else { "https://brasilapi.com.br/api/cnpj/v1"@ }
}

fn nome_do_provedor(i: usize) -> (r: String)
    ensures
        r@ == nome_provedor(i as int),
{
    if i == 0 { copia("Minha Receita") } else { copia("BrasilAPI") }
}

/// The URL that asks source `i` about `cnpj`.
pub fn url_consulta(i: usize, cnpj: &str) -> (r: String)
    ensures
        r@ == base_provedor(i as int) + "/"@ + cnpj@,
{
    let mut r = if i == 0 { copia("https://minhareceita.org") } else { copia("https://brasilapi.com.br/api/cnpj/v1") };
    anexar(&mut r, "/");
    anexar(&mut r, cnpj);
    r
}

/// Where a lookup stands.
pub struct EstadoConsulta {
    /// Source being asked (position in the order of sources).
    pub provedor: usize,
    /// Attempt at this source, from 1.
    pub tentativa: u32,
    /// Default wait after a 429, in seconds; doubles after each one.
    pub espera: u64,
    /// Last temporary failure, prefixed by the source's name.
    pub ultimo_erro: Option<String>,
}

/// What one query of one source gave.
pub enum ResultadoConsulta {
    /// 200: the company data.
    Dados(DadosEmpresa),
    /// 429: query limit; the wait the source suggested, in seconds.
    Limite(Option<u64>),
    /// 404: the CNPJ does not exist.
    NaoEncontrado,
    /// Anything else (network, 5xx, unreadable answer), with its message.
    Falha(String),
}

/// What the caller does next.
pub enum AcaoConsulta {
    /// Query this URL.
    Consultar(String),
    /// Wait this many seconds, then report it with `apos_espera`.
    Aguardar(u64),
    /// The lookup is over.
    Concluir(Result<DadosEmpresa, String>),
}

/// The message when the CNPJ does not exist.
pub open spec fn msg_nao_encontrado() -> Seq<char> {
    "CNPJ não encontrado nas fontes públicas consultadas."@
}

/// The message when a source keeps answering 429.
pub open spec fn msg_limite() -> Seq<char> {
    "limite de consultas atingido mesmo após novas tentativas."@
}

/// The message when no source could be asked.
pub open spec fn msg_sem_resposta() -> Seq<char> {
    "Não foi possível consultar o CNPJ. Tente novamente."@
}

/// Starts the lookup of a normalized CNPJ: the first source, first attempt,
/// one second of default wait.
pub fn iniciar_consulta(cnpj: &str) -> (r: (EstadoConsulta, AcaoConsulta))
    ensures
        r.0.provedor == 0,
        r.0.tentativa == 1,
        r.0.espera == 1,
        r.0.ultimo_erro is None,
        r.1 matches AcaoConsulta::Consultar(u) && u@ == base_provedor(0) + "/"@ + cnpj@,
{
    (
        EstadoConsulta { provedor: 0, tentativa: 1, espera: 1, ultimo_erro: None },
        AcaoConsulta::Consultar(url_consulta(0, cnpj)),
    )
}

/// Moves to the next source after source `estado.provedor` failed, or ends
/// with the last failure when there is none left.
fn proximo_provedor(estado: &mut EstadoConsulta, cnpj: &str) -> (a: AcaoConsulta)
    requires
        old(estado).provedor < NUM_PROVEDORES,
    ensures
        final(estado).provedor == old(estado).provedor + 1,
        final(estado).ultimo_erro == old(estado).ultimo_erro,
        final(estado).provedor < NUM_PROVEDORES ==> {
            &&& final(estado).tentativa == 1
            &&& final(estado).espera == 1
            &&& a matches AcaoConsulta::Consultar(u) && u@ == base_provedor(final(estado).provedor as int) + "/"@ + cnpj@
        },
        final(estado).provedor == NUM_PROVEDORES ==> (a matches AcaoConsulta::Concluir(Err(e)) && e@ == match old(estado).ultimo_erro {
            Some(m) => m@,
            None => msg_sem_resposta(),
        }),
{
    estado.provedor = estado.provedor + 1;
    if estado.provedor < NUM_PROVEDORES {
        estado.tentativa = 1;
        estado.espera = 1;
        AcaoConsulta::Consultar(url_consulta(estado.provedor, cnpj))
    } else {
        let e = match &estado.ultimo_erro {
            Some(m) => m.clone(),
            None => copia("Não foi possível consultar o CNPJ. Tente novamente."),
        };
        AcaoConsulta::Concluir(Err(e))
    }
}

/// Gives up the current source after its last attempt hit the query
/// limit, and moves to the next one.
fn desistir_do_provedor(estado: &mut EstadoConsulta, cnpj: &str) -> (a: AcaoConsulta)
    requires
        old(estado).provedor < NUM_PROVEDORES,
    ensures
        final(estado).ultimo_erro matches Some(u) && u@ == nome_provedor(old(estado).provedor as int) + ": "@ + msg_limite(),
        final(estado).provedor == old(estado).provedor + 1,
        final(estado).provedor < NUM_PROVEDORES ==> (final(estado).tentativa == 1 && final(estado).espera == 1
            && (a matches AcaoConsulta::Consultar(url) && url@ == base_provedor(final(estado).provedor as int) + "/"@ + cnpj@)),
        final(estado).provedor == NUM_PROVEDORES ==> (a matches AcaoConsulta::Concluir(Err(e)) && e@ == nome_provedor(old(estado).provedor as int) + ": "@ + msg_limite()),
{
    let mut u = nome_do_provedor(estado.provedor);
    anexar(&mut u, ": ");
    anexar(&mut u, "limite de consultas atingido mesmo após novas tentativas.");
    estado.ultimo_erro = Some(u);
    proximo_provedor(estado, cnpj)
}

/// The next step after a query of the current source answered:
/// - data ⇒ done;
/// - 404 ⇒ done: a CNPJ that does not exist holds for every source;
/// - 429 before the last attempt ⇒ wait (the suggested time, or the
///   default one, which then doubles: 1 s, 2 s, 4 s), then `apos_espera`;
/// - 429 on the last attempt ⇒ the source is given up at once ("limite de
///   consultas ...") and the next one is tried (or the lookup ends so);
/// - other failure ⇒ note it, prefixed by the source's name, and try the next
///   source (or end with that failure).
pub fn apos_resultado(estado: &mut EstadoConsulta, resultado: ResultadoConsulta, cnpj: &str) -> (a: AcaoConsulta)
    requires
        old(estado).provedor < NUM_PROVEDORES,
        1 <= old(estado).tentativa <= MAX_TENTATIVAS,
    ensures
        match resultado {
            ResultadoConsulta::Dados(d) => a == AcaoConsulta::Concluir(Ok(d)) && *final(estado) == *old(estado),
            ResultadoConsulta::NaoEncontrado => (a matches AcaoConsulta::Concluir(Err(e)) && e@ == msg_nao_encontrado())
                && *final(estado) == *old(estado),
            ResultadoConsulta::Limite(sugerida) => if old(estado).tentativa < MAX_TENTATIVAS {
                &&& a == AcaoConsulta::Aguardar(match sugerida { Some(s) => s, None => old(estado).espera })
                &&& final(estado).espera == (if old(estado).espera <= u64::MAX / 2 { 2 * old(estado).espera } else { u64::MAX as int })
                &&& final(estado).provedor == old(estado).provedor
                &&& final(estado).tentativa == old(estado).tentativa
                &&& final(estado).ultimo_erro == old(estado).ultimo_erro
            } else {
                &&& final(estado).ultimo_erro matches Some(u) && u@ == nome_provedor(old(estado).provedor as int) + ": "@ + msg_limite()
                &&& final(estado).provedor == old(estado).provedor + 1
                &&& final(estado).provedor < NUM_PROVEDORES ==> (final(estado).tentativa == 1 && final(estado).espera == 1
                    && (a matches AcaoConsulta::Consultar(url) && url@ == base_provedor(final(estado).provedor as int) + "/"@ + cnpj@))
                &&& final(estado).provedor == NUM_PROVEDORES ==> (a matches AcaoConsulta::Concluir(Err(e)) && e@ == nome_provedor(old(estado).provedor as int) + ": "@ + msg_limite())
            },
            ResultadoConsulta::Falha(m) => {
                &&& final(estado).ultimo_erro matches Some(u) && u@ == nome_provedor(old(estado).provedor as int) + ": "@ + m@
                &&& final(estado).provedor == old(estado).provedor + 1
                &&& final(estado).provedor < NUM_PROVEDORES ==> (final(estado).tentativa == 1 && final(estado).espera == 1
                    && (a matches AcaoConsulta::Consultar(url) && url@ == base_provedor(final(estado).provedor as int) + "/"@ + cnpj@))
                &&& final(estado).provedor == NUM_PROVEDORES ==> (a matches AcaoConsulta::Concluir(Err(e)) && e@ == nome_provedor(old(estado).provedor as int) + ": "@ + m@)
            },
        },
{
    match resultado {
        ResultadoConsulta::Dados(d) => AcaoConsulta::Concluir(Ok(d)),
        ResultadoConsulta::NaoEncontrado => AcaoConsulta::Concluir(Err(copia("CNPJ não encontrado nas fontes públicas consultadas."))),
        ResultadoConsulta::Limite(sugerida) => {
            if estado.tentativa < MAX_TENTATIVAS {
                let aguardar = match sugerida { Some(s) => s, None => estado.espera };
                estado.espera = if estado.espera <= u64::MAX / 2 { 2 * estado.espera } else { u64::MAX };
                AcaoConsulta::Aguardar(aguardar)
            } else {
                desistir_do_provedor(estado, cnpj)
            }
        },
        ResultadoConsulta::Falha(m) => {
            let mut u = nome_do_provedor(estado.provedor);
            anexar(&mut u, ": ");
            anexar(&mut u, m.as_str());
            estado.ultimo_erro = Some(u);
            proximo_provedor(estado, cnpj)
        },
    }
}

/// The next step once the wait asked after a 429 is over: ask the same
/// source again (its next attempt).
pub fn apos_espera(estado: &mut EstadoConsulta, cnpj: &str) -> (a: AcaoConsulta)
    requires
        old(estado).provedor < NUM_PROVEDORES,
        1 <= old(estado).tentativa < MAX_TENTATIVAS,
    ensures
        final(estado).tentativa == old(estado).tentativa + 1,
        final(estado).provedor == old(estado).provedor,
        final(estado).espera == old(estado).espera,
        final(estado).ultimo_erro == old(estado).ultimo_erro,
        a matches AcaoConsulta::Consultar(u) && u@ == base_provedor(old(estado).provedor as int) + "/"@ + cnpj@,
{
    estado.tentativa = estado.tentativa + 1;
    AcaoConsulta::Consultar(url_consulta(estado.provedor, cnpj))
}

// ───────────────────────── reading an answer ─────────────────────────

/// Company data read from any decoded answer (an answer that is not an
/// object has no fields).
pub fn dados_da_resposta(json: &ValorJson, cnpj: &str) -> (r: DadosEmpresa)
    ensures
        visao_dados(r) == dados_extraidos(
            match json { ValorJson::Objeto(c) => c@, _ => Seq::empty() },
            cnpj@,
        ),
{
    match json {
        ValorJson::Objeto(c) => extrair_dados(c, cnpj),
        _ => {
            let vazio: Vec<(String, ValorJson)> = Vec::new();
            extrair_dados(&vazio, cnpj)
        },
    }
}

/// The message of an error answer: its JSON `"message"` when it is text,
/// else the trimmed body, else "erro do servidor".
pub open spec fn mensagem_do_erro(json: Option<ValorJson>, corpo: Seq<char>) -> Seq<char> {
    match json {
        Some(ValorJson::Objeto(c)) => match membro(c@, "message"@) {
            Some(ValorJson::Texto(m)) => m@,
            _ => if aparado(corpo).len() == 0 { "erro do servidor"@ } else { aparado(corpo) },
        },
        _ => if aparado(corpo).len() == 0 { "erro do servidor"@ } else { aparado(corpo) },
    }
}

/// The message of an error answer (`json` is the body when it decodes).
pub fn mensagem_de_falha(json: &Option<ValorJson>, corpo: &str) -> (r: String)
    ensures
        r@ == mensagem_do_erro(*json, corpo@),
{
    if let Some(ValorJson::Objeto(c)) = json {
        if let Some(ValorJson::Texto(m)) = obter(c, "message") {
            return m.clone();
        }
    }
    let t = aparar(corpo);
    if em_branco(corpo) {
        copia("erro do servidor")
    } else {
        t
    }
}


/// The check digit rule, written out: the digits of a text form a CNPJ
/// exactly when there are 14 of them, the 13th is the modulo-11 check digit
/// of the first twelve with weights 5,4,3,2,9,8,7,6,5,4,3,2 (a remainder
/// below 2 gives 0, else 11 minus the remainder), and the 14th that of the
/// first thirteen with weights 6,5,4,3,2,9,8,7,6,5,4,3,2.
pub proof fn lei_digitos_verificadores(s: Seq<char>)
    ensures
        cnpj_valido(s) <==> {
            let d = so_digitos(s);
            let v = |k: int| valor_digito(d[k]);
            let s1 = 5 * v(0) + 4 * v(1) + 3 * v(2) + 2 * v(3) + 9 * v(4) + 8 * v(5) + 7 * v(6)
                + 6 * v(7) + 5 * v(8) + 4 * v(9) + 3 * v(10) + 2 * v(11);
            let s2 = 6 * v(0) + 5 * v(1) + 4 * v(2) + 3 * v(3) + 2 * v(4) + 9 * v(5) + 8 * v(6)
                + 7 * v(7) + 6 * v(8) + 5 * v(9) + 4 * v(10) + 3 * v(11) + 2 * v(12);
            &&& d.len() == 14
            &&& v(12) == (if s1 % 11 < 2 { 0 } else { 11 - s1 % 11 })
            &&& v(13) == (if s2 % 11 < 2 { 0 } else { 11 - s2 % 11 })
        },
{
    let d = so_digitos(s);
    reveal_with_fuel(soma_ponderada, 14);
    assert(pesos_dv1().len() == 12);
    assert(pesos_dv2().len() == 13);
}

/// A normalized CNPJ normalizes to itself: `normalizar_cnpj` accepts its
/// own output unchanged.
pub proof fn lei_cnpj_normalizado_idempotente(raw: Seq<char>)
    ensures
        cnpj_normalizado(raw) matches Ok(d) ==> cnpj_normalizado(d) == Ok::<Seq<char>, Seq<char>>(d),
{
    crate::texto::lemma_so_digitos_idempotente(raw);
}


/// What one answer of a source means, from its status and its body
/// (bytes): 200 ⇒ the company data decoded from the body (or, when the body
/// is not JSON, a failure naming the decoding error); 404 ⇒ the CNPJ does
/// not exist; 429 ⇒ the query limit, with the wait the source suggests
/// (`Retry-After`, else "retry in N" in the body's text); anything else ⇒ a
/// failure with the source's message (the body's JSON `"message"`, else its
/// trimmed text).
pub fn resultado_da_consulta(
    status: u16,
    corpo: &[u8],
    retry_after: Option<&str>,
    cnpj: &str,
) -> (r: ResultadoConsulta)
    ensures
        status == 200 ==> match json_lido_de_bytes(corpo@) {
            Some(j) => r matches ResultadoConsulta::Dados(d) && visao_dados(d) == dados_extraidos(
                match j { ValorJson::Objeto(c) => c@, _ => Seq::empty() },
                cnpj@,
            ),
            None => r matches ResultadoConsulta::Falha(m) && exists|e: Seq<char>| m@ == "resposta inválida: "@ + e,
        },
        status == 404 ==> r is NaoEncontrado,
        status == 429 ==> (r matches ResultadoConsulta::Limite(e) && match e {
            Some(n) => espera_indicada(visao_str(retry_after), utf8_com_perdas(corpo@)) == Some(n as int),
            None => espera_indicada(visao_str(retry_after), utf8_com_perdas(corpo@)) is None,
        }),
        status != 200 && status != 404 && status != 429 ==> (r matches ResultadoConsulta::Falha(m)
            && m@ == mensagem_do_erro(json_lido(utf8_com_perdas(corpo@)), utf8_com_perdas(corpo@))),
{
    if status == 200 {
        match ler_json_de_bytes(corpo) {
            Ok(j) => ResultadoConsulta::Dados(dados_da_resposta(&j, cnpj)),
            Err(erro) => {
                let mut m = copia("resposta inválida: ");
                anexar(&mut m, erro.as_str());
                proof {
                    assert(m@ == "resposta inválida: "@ + erro@);
                }
                ResultadoConsulta::Falha(m)
            },
        }
    } else if status == 404 {
        ResultadoConsulta::NaoEncontrado
    } else {
        let texto = texto_com_perdas(corpo);
        if status == 429 {
            ResultadoConsulta::Limite(espera_sugerida(retry_after, texto.as_str()))
        } else {
            let json = match ler_json(texto.as_str()) {
                Ok(j) => Some(j),
                Err(_) => None,
            };
            ResultadoConsulta::Falha(mensagem_de_falha(&json, texto.as_str()))
        }
    }
}

pub open spec fn visao_str(v: Option<&str>) -> Option<Seq<char>> {
    match v {
        Some(t) => Some(t@),
        None => None,
    }
}

} // verus!
