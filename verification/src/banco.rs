//! The database's schema versions and the ids of its rows.
//!
//! The schema version is kept in the database itself. At start-up the
//! missing migrations are applied in order, each one recorded as soon as it
//! is done; a database newer than this program is refused with a clear
//! message. The rows that travel to the cloud have UUID ids: random for new
//! rows, and derived from the data (the same row gets the same id on every
//! machine) for the rows that existed before ids were UUIDs.

use vstd::prelude::*;
use crate::texto::{anexar, copia, comparar};
use crate::usuarios::bytes_aleatorios;
use crate::numeros::{decimal, decimal_int, escrever_natural, escrever_inteiro};

verus! {

broadcast use vstd::seq_lib::group_seq_properties;

// ───────────────────────── ids ─────────────────────────

/// A lower-case hexadecimal digit.
pub open spec fn hex_minusculo(c: char) -> bool {
    ('0' <= c && c <= '9') || ('a' <= c && c <= 'f')
}

/// The text of a UUID as `uuid` writes it: `8-4-4-4-12` lower-case
/// hexadecimal digits.
pub open spec fn formato_uuid(s: Seq<char>) -> bool {
    &&& s.len() == 36
    &&& forall|k: int| 0 <= k < 36 ==> if k == 8 || k == 13 || k == 18 || k == 23 {
        s[k] == '-'
    } else {
        hex_minusculo(#[trigger] s[k])
    }
}

/// The name-based (SHA-1, version 5) UUID of a text in the URL namespace,
/// written as `uuid` writes it.
pub uninterp spec fn uuid_v5_url(nome: Seq<char>) -> Seq<char>;

/// `Uuid::new_v5(&Uuid::NAMESPACE_URL, nome.as_bytes()).to_string()`: the
/// result depends on the name alone, and has the UUID text form.
#[verifier::external_body]
pub(crate) fn uuid_de_nome(nome: &str) -> (r: String)
    ensures
        r@ == uuid_v5_url(nome@),
        formato_uuid(r@),
{
    uuid::Uuid::new_v5(&uuid::Uuid::NAMESPACE_URL, nome.as_bytes()).to_string()
}

/// `Builder::from_random_bytes(bytes).into_uuid().to_string()`: the
/// version-4 UUID made of 16 random bytes (the version and variant bits are
/// set by the crate); only its text form is claimed.
#[verifier::external_body]
pub(crate) fn uuid_de_bytes(bytes: &Vec<u8>) -> (r: String)
    requires
        bytes@.len() == 16,
    ensures
        formato_uuid(r@),
{
    let mut b = [0u8; 16];
    b.copy_from_slice(bytes.as_slice());
    uuid::Builder::from_random_bytes(b).into_uuid().to_string()
}

/// A fresh id for a new row: a random UUID, or the failure of the
/// operating system's random source.
pub fn novo_id() -> (r: Result<String, String>)
    ensures
        r matches Ok(s) ==> formato_uuid(s@),
        r matches Err(e) ==> exists|m: Seq<char>| e@ == msg_sem_aleatorio() + m,
{
    match bytes_aleatorios(16) {
        Ok(b) => Ok(uuid_de_bytes(&b)),
        Err(m) => {
            let mut e = copia("Falha ao gerar o identificador: ");
            anexar(&mut e, m.as_str());
            proof {
                assert(e@ == msg_sem_aleatorio() + m@);
            }
            Err(e)
        },
    }
}

/// The prefix of the message when no random bytes could be had.
pub open spec fn msg_sem_aleatorio() -> Seq<char> {
    "Falha ao gerar o identificador: "@
}

/// The id of a company that existed before ids were UUIDs: derived from
/// its CNPJ.
pub fn uuid_da_empresa(cnpj: &str) -> (r: String)
    ensures
        r@ == uuid_v5_url("scd/empresa/"@ + cnpj@),
{
    let mut nome = copia("scd/empresa/");
    anexar(&mut nome, cnpj);
    uuid_de_nome(nome.as_str())
}

/// The name an older employee's id is derived from: its CPF when it has
/// one; else its company's id and its old numeric id (it has no natural
/// key then).
pub open spec fn nome_do_funcionario_legado(cpf: Option<String>, cnpj_da_empresa: Seq<char>, id: int) -> Seq<char> {
    match cpf {
        Some(c) => "scd/funcionario/"@ + c@,
        None => "scd/funcionario/"@ + uuid_v5_url("scd/empresa/"@ + cnpj_da_empresa) + "/"@ + decimal_int(id),
    }
}

/// The id of an employee that existed before ids were UUIDs.
pub fn uuid_do_funcionario_legado(cpf: &Option<String>, cnpj_da_empresa: &str, id: i64) -> (r: String)
    ensures
        r@ == uuid_v5_url(nome_do_funcionario_legado(*cpf, cnpj_da_empresa@, id as int)),
{
    let mut nome = copia("scd/funcionario/");
    match cpf {
        Some(c) => anexar(&mut nome, c.as_str()),
        None => {
            let empresa = uuid_da_empresa(cnpj_da_empresa);
            anexar(&mut nome, empresa.as_str());
            anexar(&mut nome, "/");
            escrever_inteiro(&mut nome, id);
        },
    }
    uuid_de_nome(nome.as_str())
}

/// The id of a leave period that existed before ids were UUIDs: derived
/// from its employee's id and its start.
pub fn uuid_do_periodo_legado(uuid_do_funcionario: &str, inicio: &str) -> (r: String)
    ensures
        r@ == uuid_v5_url("scd/ferias/"@ + uuid_do_funcionario@ + "/"@ + inicio@),
{
    let mut nome = copia("scd/ferias/");
    anexar(&mut nome, uuid_do_funcionario);
    anexar(&mut nome, "/");
    anexar(&mut nome, inicio);
    uuid_de_nome(nome.as_str())
}

// ───────────────────────── schema versions ─────────────────────────

/// The schema version this program understands.
pub const VERSAO_ATUAL: i64 = 4;

/// What start-up does next, given the version recorded in the database.
pub enum PassoMigracao {
    /// The schema is current.
    Pronto,
    /// Apply the migration to this version, record it, and ask again.
    Aplicar(i64),
    /// Stop with this message.
    Erro(String),
}

pub open spec fn msg_banco_mais_novo(versao: int) -> Seq<char> {
    "O banco de dados está na versão "@ + decimal_int(versao)
        + ", mais nova que a suportada por este aplicativo (4). Ele foi criado/atualizado por uma versão mais recente do SCD. Atualize o aplicativo ou restaure um backup compatível."@
}

pub open spec fn msg_migracao_desconhecida(versao: int) -> Seq<char> {
    "Migração para a versão "@ + decimal_int(versao) + " não implementada."@
}

/// The next step of bringing a database at version `versao` to the
/// current one: the migrations run one version at a time, in order; a
/// newer database is refused; there is no migration to a version below 1.
pub fn passo_de_migracao(versao: i64) -> (r: PassoMigracao)
    ensures
        versao > VERSAO_ATUAL ==> (r matches PassoMigracao::Erro(m) && m@ == msg_banco_mais_novo(versao as int)),
        versao == VERSAO_ATUAL ==> r is Pronto,
        0 <= versao < VERSAO_ATUAL ==> r == PassoMigracao::Aplicar((versao + 1) as i64),
        versao < 0 ==> (r matches PassoMigracao::Erro(m) && m@ == msg_migracao_desconhecida(versao + 1)),
{
    if versao > VERSAO_ATUAL {
        let mut m = copia("O banco de dados está na versão ");
        escrever_inteiro(&mut m, versao);
        anexar(&mut m, ", mais nova que a suportada por este aplicativo (4). Ele foi criado/atualizado por uma versão mais recente do SCD. Atualize o aplicativo ou restaure um backup compatível.");
        PassoMigracao::Erro(m)
    } else if versao == VERSAO_ATUAL {
        PassoMigracao::Pronto
    } else if versao >= 0 {
        PassoMigracao::Aplicar(versao + 1)
    } else {
        let mut m = copia("Migração para a versão ");
        escrever_inteiro(&mut m, versao + 1);
        anexar(&mut m, " não implementada.");
        PassoMigracao::Erro(m)
    }
}

/// The version reached after `n` steps from `versao`, each step applying
/// the migration `passo_de_migracao` names.
pub open spec fn versao_apos(versao: int, n: nat) -> int
    decreases n,
{
    if n == 0 || versao < 0 || versao >= VERSAO_ATUAL {
        versao
    } else {
        versao_apos(versao + 1, (n - 1) as nat)
    }
}

/// From any version the program understands, the migrations bring the
/// database to the current version, one version per step, in exactly
/// `VERSAO_ATUAL - versao` steps.
pub proof fn lei_migracao_chega_a_versao_atual(versao: int)
    requires
        0 <= versao <= VERSAO_ATUAL,
    ensures
        versao_apos(versao, (VERSAO_ATUAL - versao) as nat) == VERSAO_ATUAL,
        forall|n: nat| n < VERSAO_ATUAL - versao ==> versao_apos(versao, n) == versao + n,
    decreases VERSAO_ATUAL - versao,
{
    if versao < VERSAO_ATUAL {
        lei_migracao_chega_a_versao_atual(versao + 1);
        assert forall|n: nat| n < VERSAO_ATUAL - versao implies versao_apos(versao, n) == versao + n by {
            if n > 0 {
                assert(versao_apos(versao, n) == versao_apos(versao + 1, (n - 1) as nat));
            }
        }
    }
}

/// Has the table the column (among the names `PRAGMA table_info` lists)?
pub fn tabela_tem_coluna(colunas: &Vec<String>, coluna: &str) -> (r: bool)
    ensures
        r == exists|k: int| 0 <= k < colunas.len() && #[trigger] colunas@[k]@ == coluna@,
{
    let mut i: usize = 0;
    while i < colunas.len()
        invariant
            i <= colunas.len(),
            forall|k: int| 0 <= k < i ==> #[trigger] colunas@[k]@ != coluna@,
        decreases colunas.len() - i,
    {
        if comparar(colunas[i].as_str(), coluna) == 0 {
            return true;
        }
        i = i + 1;
    }
    false
}

/// Is `employees.cpf` still `NOT NULL` (the oldest format), given the
/// table's columns as (name, notnull)?
pub fn coluna_cpf_e_obrigatoria(colunas: &Vec<(String, i64)>) -> (r: bool)
    ensures
        r == exists|k: int| 0 <= k < colunas.len() && #[trigger] colunas@[k].0@ == "cpf"@ && colunas@[k].1 != 0,
{
    let mut i: usize = 0;
    while i < colunas.len()
        invariant
            i <= colunas.len(),
            forall|k: int| 0 <= k < i ==> !(#[trigger] colunas@[k].0@ == "cpf"@ && colunas@[k].1 != 0),
        decreases colunas.len() - i,
    {
        if comparar(colunas[i].0.as_str(), "cpf") == 0 && colunas[i].1 != 0 {
            return true;
        }
        i = i + 1;
    }
    false
}

// ───────────────────────── the move to UUID ids ─────────────────────────

/// A company as stored before ids were UUIDs.
pub struct EmpresaLegada {
    pub id: i64,
    pub cnpj: String,
    pub razao_social: String,
    pub nome_fantasia: Option<String>,
    pub situacao: Option<String>,
    pub municipio: Option<String>,
    pub uf: Option<String>,
    pub telefone: Option<String>,
    pub email: Option<String>,
    pub created_at: String,
}

/// An employee as stored before ids were UUIDs.
pub struct FuncionarioLegado {
    pub id: i64,
    pub nome: String,
    pub cpf: Option<String>,
    pub data_admissao: Option<String>,
    pub empresa_id: i64,
    pub created_at: String,
}

/// A leave period as stored before ids were UUIDs.
pub struct PeriodoLegado {
    pub employee_id: i64,
    pub inicio: String,
    pub vencimento: String,
    pub regularizada: i64,
    pub regularizada_em: Option<String>,
    pub observacao: Option<String>,
}

/// The new ids of the old rows, in the order the rows are copied:
/// each company's id; each employee's id and its company's; each period's
/// id and its employee's.
pub struct PlanoUuid {
    pub empresas: Vec<String>,
    pub funcionarios: Vec<(String, String)>,
    pub periodos: Vec<(String, String)>,
}

/// The position of the first company with old id `id`.
#[verifier::opaque]
pub open spec fn primeira_empresa(empresas: Seq<EmpresaLegada>, id: i64) -> Option<int> {
    if exists|k: int| 0 <= k < empresas.len() && empresas[k].id == id {
        Some(choose|k: int| 0 <= k < empresas.len() && empresas[k].id == id
            && forall|j: int| 0 <= j < k ==> empresas[j].id != id)
    } else {
        None
    }
}

/// The position of the first employee with old id `id`.
#[verifier::opaque]
pub open spec fn primeiro_funcionario(funcionarios: Seq<FuncionarioLegado>, id: i64) -> Option<int> {
    if exists|k: int| 0 <= k < funcionarios.len() && funcionarios[k].id == id {
        Some(choose|k: int| 0 <= k < funcionarios.len() && funcionarios[k].id == id
            && forall|j: int| 0 <= j < k ==> funcionarios[j].id != id)
    } else {
        None
    }
}

fn achar_empresa(empresas: &Vec<EmpresaLegada>, id: i64) -> (r: Option<usize>)
    ensures
        match r {
            Some(k) => primeira_empresa(empresas@, id) == Some(k as int) && k < empresas.len()
                && empresas@[k as int].id == id,
            None => primeira_empresa(empresas@, id) is None,
        },
{
    let mut i: usize = 0;
    while i < empresas.len()
        invariant
            i <= empresas.len(),
            forall|j: int| 0 <= j < i ==> empresas@[j].id != id,
        decreases empresas.len() - i,
    {
        if empresas[i].id == id {
            proof {
                reveal(primeira_empresa);
                let c = choose|k: int| 0 <= k < empresas@.len() && empresas@[k].id == id
                    && forall|j: int| 0 <= j < k ==> empresas@[j].id != id;
                assert(c == i) by {
                    if c < i {
                        assert(empresas@[c].id != id);
                    } else if c > i {
                        assert(empresas@[i as int].id != id);
                    }
                }
            }
            return Some(i);
        }
        i = i + 1;
    }
    proof {
        reveal(primeira_empresa);
    }
    None
}

fn achar_funcionario(funcionarios: &Vec<FuncionarioLegado>, id: i64) -> (r: Option<usize>)
    ensures
        match r {
            Some(k) => primeiro_funcionario(funcionarios@, id) == Some(k as int) && k < funcionarios.len()
                && funcionarios@[k as int].id == id,
            None => primeiro_funcionario(funcionarios@, id) is None,
        },
{
    let mut i: usize = 0;
    while i < funcionarios.len()
        invariant
            i <= funcionarios.len(),
            forall|j: int| 0 <= j < i ==> funcionarios@[j].id != id,
        decreases funcionarios.len() - i,
    {
        if funcionarios[i].id == id {
            proof {
                reveal(primeiro_funcionario);
                let c = choose|k: int| 0 <= k < funcionarios@.len() && funcionarios@[k].id == id
                    && forall|j: int| 0 <= j < k ==> funcionarios@[j].id != id;
                assert(c == i) by {
                    if c < i {
                        assert(funcionarios@[c].id != id);
                    } else if c > i {
                        assert(funcionarios@[i as int].id != id);
                    }
                }
            }
            return Some(i);
        }
        i = i + 1;
    }
    proof {
        reveal(primeiro_funcionario);
    }
    None
}

/// The id of an old employee, its company found by old id.
pub open spec fn uuid_funcionario_em(empresas: Seq<EmpresaLegada>, f: FuncionarioLegado) -> Seq<char> {
    uuid_v5_url(nome_do_funcionario_legado(f.cpf, empresas[primeira_empresa(empresas, f.empresa_id)->0].cnpj@, f.id as int))
}

/// Why the old rows cannot be moved, if they cannot: the first employee
/// whose company is missing, else the first period whose employee (or
/// whose employee's company) is missing.
#[verifier::opaque]
pub open spec fn recusa_do_plano(
    empresas: Seq<EmpresaLegada>,
    funcionarios: Seq<FuncionarioLegado>,
    periodos: Seq<PeriodoLegado>,
) -> Option<Seq<char>> {
    if exists|k: int| 0 <= k < funcionarios.len() && primeira_empresa(empresas, #[trigger] funcionarios[k].empresa_id) is None {
        let k = choose|k: int| 0 <= k < funcionarios.len() && primeira_empresa(empresas, #[trigger] funcionarios[k].empresa_id) is None
            && forall|j: int| 0 <= j < k ==> primeira_empresa(empresas, #[trigger] funcionarios[j].empresa_id) is Some;
        Some("Funcionário "@ + funcionarios[k].nome@ + " referencia a empresa inexistente "@
            + decimal_int(funcionarios[k].empresa_id as int) + "."@)
    } else if exists|k: int| 0 <= k < periodos.len() && !periodo_tem_dono(empresas, funcionarios, #[trigger] periodos[k]) {
        let k = choose|k: int| 0 <= k < periodos.len() && !periodo_tem_dono(empresas, funcionarios, #[trigger] periodos[k])
            && forall|j: int| 0 <= j < k ==> periodo_tem_dono(empresas, funcionarios, #[trigger] periodos[j]);
        match primeiro_funcionario(funcionarios, periodos[k].employee_id) {
            None => Some("Período de férias referencia o funcionário inexistente "@
                + decimal_int(periodos[k].employee_id as int) + "."@),
            Some(_) => Some("Empresa do funcionário do período sumiu."@),
        }
    } else {
        None
    }
}

/// Are a period's employee and that employee's company there?
pub open spec fn periodo_tem_dono(empresas: Seq<EmpresaLegada>, funcionarios: Seq<FuncionarioLegado>, p: PeriodoLegado) -> bool {
    match primeiro_funcionario(funcionarios, p.employee_id) {
        Some(i) => primeira_empresa(empresas, funcionarios[i].empresa_id) is Some,
        None => false,
    }
}


proof fn lemma_primeiro_sem_empresa(empresas: Seq<EmpresaLegada>, funcionarios: Seq<FuncionarioLegado>, i: int)
    requires
        0 <= i < funcionarios.len(),
        primeira_empresa(empresas, funcionarios[i].empresa_id) is None,
        forall|k: int| 0 <= k < i ==> primeira_empresa(empresas, #[trigger] funcionarios[k].empresa_id) is Some,
    ensures
        (choose|k: int| 0 <= k < funcionarios.len() && primeira_empresa(empresas, #[trigger] funcionarios[k].empresa_id) is None
            && forall|j: int| 0 <= j < k ==> primeira_empresa(empresas, #[trigger] funcionarios[j].empresa_id) is Some) == i,
{
    let w = choose|k: int| 0 <= k < funcionarios.len() && primeira_empresa(empresas, #[trigger] funcionarios[k].empresa_id) is None
        && forall|j: int| 0 <= j < k ==> primeira_empresa(empresas, #[trigger] funcionarios[j].empresa_id) is Some;
    assert(0 <= i < funcionarios.len() && primeira_empresa(empresas, funcionarios[i].empresa_id) is None
        && forall|j: int| 0 <= j < i ==> primeira_empresa(empresas, #[trigger] funcionarios[j].empresa_id) is Some);
    if w < i {
        assert(primeira_empresa(empresas, funcionarios[w].empresa_id) is Some);
    } else if w > i {
        assert(primeira_empresa(empresas, funcionarios[i].empresa_id) is Some);
    }
}

proof fn lemma_primeiro_sem_dono(
    empresas: Seq<EmpresaLegada>,
    funcionarios: Seq<FuncionarioLegado>,
    periodos: Seq<PeriodoLegado>,
    i: int,
)
    requires
        0 <= i < periodos.len(),
        !periodo_tem_dono(empresas, funcionarios, periodos[i]),
        forall|k: int| 0 <= k < i ==> periodo_tem_dono(empresas, funcionarios, #[trigger] periodos[k]),
    ensures
        (choose|k: int| 0 <= k < periodos.len() && !periodo_tem_dono(empresas, funcionarios, #[trigger] periodos[k])
            && forall|j: int| 0 <= j < k ==> periodo_tem_dono(empresas, funcionarios, #[trigger] periodos[j])) == i,
{
    let w = choose|k: int| 0 <= k < periodos.len() && !periodo_tem_dono(empresas, funcionarios, #[trigger] periodos[k])
        && forall|j: int| 0 <= j < k ==> periodo_tem_dono(empresas, funcionarios, #[trigger] periodos[j]);
    assert(0 <= i < periodos.len() && !periodo_tem_dono(empresas, funcionarios, periodos[i])
        && forall|j: int| 0 <= j < i ==> periodo_tem_dono(empresas, funcionarios, #[trigger] periodos[j]));
    if w < i {
        assert(periodo_tem_dono(empresas, funcionarios, periodos[w]));
    } else if w > i {
        assert(periodo_tem_dono(empresas, funcionarios, periodos[i]));
    }
}

proof fn lemma_recusa_funcionario(empresas: Seq<EmpresaLegada>, funcionarios: Seq<FuncionarioLegado>, periodos: Seq<PeriodoLegado>, i: int)
    requires
        0 <= i < funcionarios.len(),
        primeira_empresa(empresas, funcionarios[i].empresa_id) is None,
        forall|k: int| 0 <= k < i ==> primeira_empresa(empresas, #[trigger] funcionarios[k].empresa_id) is Some,
    ensures
        recusa_do_plano(empresas, funcionarios, periodos) == Some("Funcionário "@ + funcionarios[i].nome@
            + " referencia a empresa inexistente "@ + decimal_int(funcionarios[i].empresa_id as int) + "."@),
{
    reveal(recusa_do_plano);
    lemma_primeiro_sem_empresa(empresas, funcionarios, i);
}

proof fn lemma_recusa_periodo(empresas: Seq<EmpresaLegada>, funcionarios: Seq<FuncionarioLegado>, periodos: Seq<PeriodoLegado>, i: int)
    requires
        0 <= i < periodos.len(),
        primeiro_funcionario(funcionarios, periodos[i].employee_id) is None,
        forall|k: int| 0 <= k < funcionarios.len() ==> primeira_empresa(empresas, #[trigger] funcionarios[k].empresa_id) is Some,
        forall|k: int| 0 <= k < i ==> periodo_tem_dono(empresas, funcionarios, #[trigger] periodos[k]),
    ensures
        recusa_do_plano(empresas, funcionarios, periodos) == Some("Período de férias referencia o funcionário inexistente "@
            + decimal_int(periodos[i].employee_id as int) + "."@),
{
    reveal(recusa_do_plano);
    assert(!periodo_tem_dono(empresas, funcionarios, periodos[i]));
    lemma_primeiro_sem_dono(empresas, funcionarios, periodos, i);
}

proof fn lemma_sem_recusa(empresas: Seq<EmpresaLegada>, funcionarios: Seq<FuncionarioLegado>, periodos: Seq<PeriodoLegado>)
    requires
        forall|k: int| 0 <= k < funcionarios.len() ==> primeira_empresa(empresas, #[trigger] funcionarios[k].empresa_id) is Some,
        forall|k: int| 0 <= k < periodos.len() ==> periodo_tem_dono(empresas, funcionarios, #[trigger] periodos[k]),
    ensures
        recusa_do_plano(empresas, funcionarios, periodos) is None,
{
    reveal(recusa_do_plano);
}

/// Works out the new ids of the old rows (companies by CNPJ, employees by
/// CPF or by company and old id, periods by employee and start), keeping
/// the links between them; refuses when a link points at a missing row, in
/// which case nothing is rewritten.
pub fn plano_uuid(
    empresas: &Vec<EmpresaLegada>,
    funcionarios: &Vec<FuncionarioLegado>,
    periodos: &Vec<PeriodoLegado>,
) -> (r: Result<PlanoUuid, String>)
    ensures
        match recusa_do_plano(empresas@, funcionarios@, periodos@) {
            Some(m) => r matches Err(e) && e@ == m,
            None => r matches Ok(p) && {
                &&& p.empresas@.len() == empresas.len()
                &&& forall|k: int| 0 <= k < empresas.len() ==>
                    #[trigger] p.empresas@[k]@ == uuid_v5_url("scd/empresa/"@ + empresas@[k].cnpj@)
                &&& p.funcionarios@.len() == funcionarios.len()
                &&& forall|k: int| 0 <= k < funcionarios.len() ==> {
                    &&& (#[trigger] p.funcionarios@[k]).0@ == uuid_funcionario_em(empresas@, funcionarios@[k])
                    &&& p.funcionarios@[k].1@ == uuid_v5_url("scd/empresa/"@
                        + empresas@[primeira_empresa(empresas@, funcionarios@[k].empresa_id)->0].cnpj@)
                }
                &&& p.periodos@.len() == periodos.len()
                &&& forall|k: int| 0 <= k < periodos.len() ==> {
                    let f = funcionarios@[primeiro_funcionario(funcionarios@, periodos@[k].employee_id)->0];
                    &&& (#[trigger] p.periodos@[k]).1@ == uuid_funcionario_em(empresas@, f)
                    &&& p.periodos@[k].0@ == uuid_v5_url("scd/ferias/"@ + uuid_funcionario_em(empresas@, f)
                        + "/"@ + periodos@[k].inicio@)
                }
            },
        },
{
    let mut ids_empresas: Vec<String> = Vec::new();
    let mut i: usize = 0;
    while i < empresas.len()
        invariant
            i <= empresas.len(),
            ids_empresas@.len() == i,
            forall|k: int| 0 <= k < i ==> #[trigger] ids_empresas@[k]@ == uuid_v5_url("scd/empresa/"@ + empresas@[k].cnpj@),
        decreases empresas.len() - i,
    {
        ids_empresas.push(uuid_da_empresa(empresas[i].cnpj.as_str()));
        i = i + 1;
    }
    let mut ids_funcionarios: Vec<(String, String)> = Vec::new();
    let mut i: usize = 0;
    while i < funcionarios.len()
        invariant
            i <= funcionarios.len(),
            ids_funcionarios@.len() == i,
            forall|k: int| 0 <= k < i ==> primeira_empresa(empresas@, #[trigger] funcionarios@[k].empresa_id) is Some,
            forall|k: int| 0 <= k < i ==> {
                &&& (#[trigger] ids_funcionarios@[k]).0@ == uuid_funcionario_em(empresas@, funcionarios@[k])
                &&& ids_funcionarios@[k].1@ == uuid_v5_url("scd/empresa/"@
                    + empresas@[primeira_empresa(empresas@, funcionarios@[k].empresa_id)->0].cnpj@)
            },
        decreases funcionarios.len() - i,
    {
        let f = &funcionarios[i];
        match achar_empresa(empresas, f.empresa_id) {
            None => {
                proof {
                    lemma_recusa_funcionario(empresas@, funcionarios@, periodos@, i as int);
                }
                let mut e = copia("Funcionário ");
                anexar(&mut e, f.nome.as_str());
                anexar(&mut e, " referencia a empresa inexistente ");
                escrever_inteiro(&mut e, f.empresa_id);
                anexar(&mut e, ".");
                return Err(e);
            },
            Some(k) => {
                let id = uuid_do_funcionario_legado(&f.cpf, empresas[k].cnpj.as_str(), f.id);
                ids_funcionarios.push((id, uuid_da_empresa(empresas[k].cnpj.as_str())));
            },
        }
        i = i + 1;
    }
    let mut ids_periodos: Vec<(String, String)> = Vec::new();
    let mut i: usize = 0;
    while i < periodos.len()
        invariant
            i <= periodos.len(),
            ids_periodos@.len() == i,
            forall|k: int| 0 <= k < funcionarios.len() ==> primeira_empresa(empresas@, #[trigger] funcionarios@[k].empresa_id) is Some,
            forall|k: int| 0 <= k < i ==> periodo_tem_dono(empresas@, funcionarios@, #[trigger] periodos@[k]),
            forall|k: int| 0 <= k < i ==> {
                let f = funcionarios@[primeiro_funcionario(funcionarios@, periodos@[k].employee_id)->0];
                &&& (#[trigger] ids_periodos@[k]).1@ == uuid_funcionario_em(empresas@, f)
                &&& ids_periodos@[k].0@ == uuid_v5_url("scd/ferias/"@ + uuid_funcionario_em(empresas@, f)
                    + "/"@ + periodos@[k].inicio@)
            },
        decreases periodos.len() - i,
    {
        let p = &periodos[i];
        match achar_funcionario(funcionarios, p.employee_id) {
            None => {
                proof {
                    lemma_recusa_periodo(empresas@, funcionarios@, periodos@, i as int);
                }
                let mut e = copia("Período de férias referencia o funcionário inexistente ");
                escrever_inteiro(&mut e, p.employee_id);
                anexar(&mut e, ".");
                return Err(e);
            },
            Some(j) => {
                let f = &funcionarios[j];
                match achar_empresa(empresas, f.empresa_id) {
                    None => {
                        proof {
                            assert(primeira_empresa(empresas@, funcionarios@[j as int].empresa_id) is Some);
                        }
                        return Err(copia("Empresa do funcionário do período sumiu."));
                    },
                    Some(k) => {
                        let dono = uuid_do_funcionario_legado(&f.cpf, empresas[k].cnpj.as_str(), f.id);
                        let id = uuid_do_periodo_legado(dono.as_str(), p.inicio.as_str());
                        ids_periodos.push((id, dono));
                    },
                }
            },
        }
        i = i + 1;
    }
    proof {
        lemma_sem_recusa(empresas@, funcionarios@, periodos@);
    }
    Ok(PlanoUuid { empresas: ids_empresas, funcionarios: ids_funcionarios, periodos: ids_periodos })
}

/// The columns the alarm migration still has to add (each only when
/// missing, so that a database already in the new form is left as it is).
pub fn colunas_do_alarme(tem_alarme_em: bool, tem_alarme_observacao: bool) -> (r: Vec<String>)
    ensures
        r@.map_values(|c: String| c@) == (if tem_alarme_em { Seq::<Seq<char>>::empty() } else { seq!["alarme_em"@] })
            + (if tem_alarme_observacao { Seq::<Seq<char>>::empty() } else { seq!["alarme_observacao"@] }),
{
    let mut r: Vec<String> = Vec::new();
    if !tem_alarme_em {
        r.push(copia("alarme_em"));
    }
    let ghost antes = r@.map_values(|c: String| c@);
    if !tem_alarme_observacao {
        r.push(copia("alarme_observacao"));
    }
    proof {
        if !tem_alarme_observacao {
            assert(r@.map_values(|c: String| c@) =~= antes.push("alarme_observacao"@));
        }
        assert(r@.map_values(|c: String| c@) =~= (if tem_alarme_em { Seq::<Seq<char>>::empty() } else { seq!["alarme_em"@] })
            + (if tem_alarme_observacao { Seq::<Seq<char>>::empty() } else { seq!["alarme_observacao"@] }));
    }
    r
}

} // verus!
