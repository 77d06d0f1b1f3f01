//! Employees: each one belongs to a company, and has a hiring date (the
//! base of its leave periods). The CPF is optional; when given it is kept as
//! its 11 digits, with valid check digits, and must be unique.

use vstd::prelude::*;
use crate::texto::{
    aparado, aparar, em_branco, anexar, copia, so_digitos, digitos_de, texto_de, texto_de_trecho, caracteres,
    limites_aparados, valor_digito, eh_digito, lemma_aparado_sem_bordas,
};
use crate::numeros::{i64_lido, u32_lido, ler_i64_trecho, ler_u32_trecho, decimal, lemma_decimal_digitos,
    lemma_u32_de_decimal};
use crate::datas::{separar, separar_texto, lemma_separar_tres_com, visoes, formatar_iso, escrever_iso, dias_civis, civil_de_dias,
    dias_desde_civil, civil_desde_dias, dias_no_mes, dias_do_mes};
use crate::cnpj::{digito_verificador, calcular_digito, visao_opcao, cnpj_normalizado, normalizar_cnpj};
use crate::empresas::{primeira_coluna, achar_coluna, celula, celula_opcional, opcional_util};
use crate::banco::{formato_uuid, novo_id, msg_sem_aleatorio};

verus! {

broadcast use vstd::seq_lib::group_seq_properties;

/// An employee, with the name of its company.
pub struct Funcionario {
    pub id: String,
    pub nome: String,
    pub cpf: Option<String>,
    pub data_admissao: Option<String>,
    pub empresa_id: String,
    pub empresa_nome: String,
    pub created_at: String,
}

/// What an import of employees did.
pub struct RelatorioImportacaoFuncionarios {
    /// Data rows read (with a name).
    pub total: usize,
    /// Employees registered.
    pub criados: usize,
    /// Rows that failed, with the reason.
    pub erros: Vec<ErroImportacaoLinha>,
}

/// A row that could not be imported.
pub struct ErroImportacaoLinha {
    /// Row number in the sheet (the header is 1).
    pub linha: usize,
    pub motivo: String,
}

// ───────────────────────── the CPF ─────────────────────────

/// Weights of the first check digit of a CPF.
pub open spec fn pesos_cpf1() -> Seq<int> {
    seq![10, 9, 8, 7, 6, 5, 4, 3, 2]
}

/// Weights of the second check digit of a CPF.
pub open spec fn pesos_cpf2() -> Seq<int> {
    seq![11, 10, 9, 8, 7, 6, 5, 4, 3, 2]
}

pub open spec fn msg_cpf_tamanho() -> Seq<char> {
    "CPF inválido — informe os 11 dígitos (ou deixe em branco)."@
}

pub open spec fn msg_cpf_digitos() -> Seq<char> {
    "CPF inválido — os dígitos verificadores não conferem."@
}

/// What a typed CPF gives: none when it has no digits; else its 11 digits
/// with valid check digits (modulo 11, the rule of the Receita Federal).
pub open spec fn cpf_lido(raw: Seq<char>) -> Result<Option<Seq<char>>, Seq<char>> {
    let d = so_digitos(raw);
    if d.len() == 0 {
        Ok(None)
    } else if d.len() != 11 {
        Err(msg_cpf_tamanho())
    } else if digito_verificador(pesos_cpf1(), d) != valor_digito(d[9])
        || digito_verificador(pesos_cpf2(), d) != valor_digito(d[10]) {
        Err(msg_cpf_digitos())
    } else {
        Ok(Some(d))
    }
}

/// Normalizes and checks a CPF; blank is `None` (the CPF is optional).
pub fn validar_cpf(raw: &str) -> (r: Result<Option<String>, String>)
    ensures
        match cpf_lido(raw@) {
            Ok(o) => r matches Ok(x) && visao_opcao(x) == o,
            Err(e) => r matches Err(m) && m@ == e,
        },
{
    let d = digitos_de(raw);
    if d.len() == 0 {
        return Ok(None);
    }
    if d.len() != 11 {
        return Err(copia("CPF inválido — informe os 11 dígitos (ou deixe em branco)."));
    }
    proof {
        crate::texto::lemma_so_digitos_idempotente(raw@);
    }
    let pesos1: Vec<u32> = vec![10, 9, 8, 7, 6, 5, 4, 3, 2];
    let pesos2: Vec<u32> = vec![11, 10, 9, 8, 7, 6, 5, 4, 3, 2];
    proof {
        assert(pesos1@.map_values(|p: u32| p as int) =~= pesos_cpf1());
        assert(pesos2@.map_values(|p: u32| p as int) =~= pesos_cpf2());
    }
    let dv1 = calcular_digito(&pesos1, &d);
    let dv2 = calcular_digito(&pesos2, &d);
    proof {
        assert(eh_digito(d@[9]));
        assert(eh_digito(d@[10]));
    }
    if dv1 != (d[9] as u32) - ('0' as u32) || dv2 != (d[10] as u32) - ('0' as u32) {
        return Err(copia("CPF inválido — os dígitos verificadores não conferem."));
    }
    Ok(Some(texto_de(&d)))
}

// ───────────────────────── dates ─────────────────────────

/// A hiring date as the form sends it: `aaaa-mm-dd`, a real date (month 1
/// to 12, day 1 to the month's length, leap years included), year 1900 to
/// 2200, each part read as an integer.
pub open spec fn admissao_valida(iso: Seq<char>) -> bool {
    let p = separar(iso, seq!['-']);
    p.len() == 3 && match (i64_lido(p[0]), i64_lido(p[1]), i64_lido(p[2])) {
        (Some(a), Some(m), Some(d)) => 1 <= m <= 12 && 1900 <= a <= 2200 && 1 <= d <= dias_no_mes(a, m),
        _ => false,
    }
}

/// Is `iso` a valid hiring date?
pub fn data_iso_valida(iso: &str) -> (r: bool)
    ensures
        r == admissao_valida(iso@),
{
    let v = caracteres(iso);
    let seps = vec!['-'];
    let partes = separar_texto(&v, &seps);
    proof {
        assert(seps@ =~= seq!['-']);
    }
    if partes.len() != 3 {
        return false;
    }
    proof {
        assert(visoes(partes@)[0] == partes@[0]@);
        assert(visoes(partes@)[1] == partes@[1]@);
        assert(visoes(partes@)[2] == partes@[2]@);
        assert(partes@[0]@.subrange(0, partes@[0]@.len() as int) =~= partes@[0]@);
        assert(partes@[1]@.subrange(0, partes@[1]@.len() as int) =~= partes@[1]@);
        assert(partes@[2]@.subrange(0, partes@[2]@.len() as int) =~= partes@[2]@);
    }
    let ano = ler_i64_trecho(&partes[0], 0, partes[0].len());
    let mes = ler_i64_trecho(&partes[1], 0, partes[1].len());
    let dia = ler_i64_trecho(&partes[2], 0, partes[2].len());
    match (ano, mes, dia) {
        (Some(a), Some(m), Some(d)) => 1 <= m && m <= 12 && 1900 <= a && a <= 2200 && 1 <= d && d <= dias_do_mes(a, m),
        _ => false,
    }
}

/// The day Excel counts its serial dates from (30/12/1899), in days since
/// 1970-01-01.
pub open spec fn base_do_excel() -> int {
    dias_civis(1899, 12, 30)
}

/// The date of an Excel serial number (whole days since 30/12/1899).
pub open spec fn data_do_serial(dias: int) -> Option<Seq<char>> {
    match civil_de_dias(base_do_excel() + dias) {
        Some((a, m, d)) => Some(formatar_iso(a, m, d)),
        None => None,
    }
}

/// Converts an Excel serial date to `aaaa-mm-dd`.
pub fn excel_serial_para_data(dias: i64) -> (r: Option<String>)
    requires
        15000 <= dias <= 60000,
    ensures
        match r {
            Some(s) => data_do_serial(dias as int) == Some(s@),
            None => data_do_serial(dias as int) is None,
        },
{
    let base = dias_desde_civil(1899, 12, 30);
    assert(base == -25569);
    match civil_desde_dias(base + dias) {
        Some((a, m, d)) => Some(escrever_iso(a, m, d)),
        None => None,
    }
}

/// The separators of a typed date.
pub open spec fn separadores_de_data() -> Seq<char> {
    seq!['/', '-', '.']
}

pub open spec fn filtro_nao_vazio() -> spec_fn(Seq<char>) -> bool {
    |p: Seq<char>| p.len() > 0
}

/// The parts of a typed date: the trimmed text split at `/`, `-` or `.`,
/// each part trimmed, the empty ones dropped.
pub open spec fn partes_da_data(c: Seq<char>) -> Seq<Seq<char>> {
    separar(aparado(c), separadores_de_data()).map_values(|p: Seq<char>| aparado(p)).filter(filtro_nao_vazio())
}

/// The date a text cell names: three parts read as `u32`, either
/// day/month/year or year/month/day, the year above 1000.
pub open spec fn data_do_texto(c: Seq<char>) -> Option<Seq<char>> {
    let ps = partes_da_data(c);
    if ps.len() != 3 {
        None
    } else {
        match (u32_lido(ps[0]), u32_lido(ps[1]), u32_lido(ps[2])) {
            (Some(a), Some(b), Some(x)) => if x > 1000 && 1 <= a <= 31 && 1 <= b <= 12 {
                Some(formatar_iso(x, b, a))
            } else if a > 1000 && 1 <= b <= 12 && 1 <= x <= 31 {
                Some(formatar_iso(a, b, x))
            } else {
                None
            },
            _ => None,
        }
    }
}

/// The decimal digits of `n` contain no date separator and no whitespace.
proof fn lemma_decimal_sem_separador_de_data(n: nat)
    ensures
        decimal(n).len() > 0,
        forall|i: int| 0 <= i < decimal(n).len() ==> !separadores_de_data().contains(#[trigger] decimal(n)[i]),
        aparado(decimal(n)) == decimal(n),
{
    lemma_decimal_digitos(n);
    let d = decimal(n);
    let seps = separadores_de_data();
    assert forall|i: int| 0 <= i < d.len() implies !seps.contains(#[trigger] d[i]) by {
        assert(eh_digito(d[i]));
        if seps.contains(d[i]) {
            let j = choose|j: int| 0 <= j < seps.len() && seps[j] == d[i];
            assert(seps[0] == '/' && seps[1] == '-' && seps[2] == '.');
        }
    }
    assert(eh_digito(d[0]));
    assert(eh_digito(d.last()));
    lemma_aparado_sem_bordas(d);
}

/// Three numbers written in decimal and joined by a date separator are the
/// three parts of the typed date.
proof fn lemma_partes_de_tres(p: nat, q: nat, r: nat, sep: char)
    requires
        separadores_de_data().contains(sep),
    ensures
        partes_da_data(decimal(p) + seq![sep] + decimal(q) + seq![sep] + decimal(r))
            == seq![decimal(p), decimal(q), decimal(r)],
{
    let x = decimal(p);
    let y = decimal(q);
    let z = decimal(r);
    let c = x + seq![sep] + y + seq![sep] + z;
    lemma_decimal_sem_separador_de_data(p);
    lemma_decimal_sem_separador_de_data(q);
    lemma_decimal_sem_separador_de_data(r);
    lemma_decimal_digitos(p);
    lemma_decimal_digitos(r);
    assert(c[0] == x[0]);
    assert(c.last() == z.last());
    assert(eh_digito(x[0]));
    assert(eh_digito(z.last()));
    lemma_aparado_sem_bordas(c);
    lemma_separar_tres_com(x, y, z, sep, separadores_de_data());
    let f = filtro_nao_vazio();
    let ps = seq![x, y, z];
    assert(ps.map_values(|t: Seq<char>| aparado(t)) =~= ps);
    let e = Seq::<Seq<char>>::empty();
    assert(e.filter(f) =~= e) by {
        reveal(Seq::filter);
    }
    e.lemma_filter_push(x, f);
    assert(e.push(x) =~= seq![x]);
    seq![x].lemma_filter_push(y, f);
    assert(seq![x].push(y) =~= seq![x, y]);
    seq![x, y].lemma_filter_push(z, f);
    assert(seq![x, y].push(z) =~= ps);
    assert(ps.filter(f) =~= ps);
}

/// A date typed day first, `d/m/aaaa` (no zero padding needed), is read as
/// that date: every day from 1 to 31 and month from 1 to 12 with a year
/// above 1000 gives `aaaa-mm-dd`.
pub proof fn lei_data_dia_mes_ano(dia: nat, mes: nat, ano: nat)
    requires
        1 <= dia <= 31,
        1 <= mes <= 12,
        1000 < ano <= u32::MAX,
    ensures
        data_do_texto(decimal(dia) + seq!['/'] + decimal(mes) + seq!['/'] + decimal(ano))
            == Some(formatar_iso(ano as int, mes as int, dia as int)),
{
    assert(separadores_de_data()[0] == '/');
    lemma_partes_de_tres(dia, mes, ano, '/');
    lemma_u32_de_decimal(dia);
    lemma_u32_de_decimal(mes);
    lemma_u32_de_decimal(ano);
}

/// A date typed year first, `aaaa-m-d` (no zero padding needed), is read as
/// that date too.
pub proof fn lei_data_ano_mes_dia(ano: nat, mes: nat, dia: nat)
    requires
        1 <= dia <= 31,
        1 <= mes <= 12,
        1000 < ano <= u32::MAX,
    ensures
        data_do_texto(decimal(ano) + seq!['-'] + decimal(mes) + seq!['-'] + decimal(dia))
            == Some(formatar_iso(ano as int, mes as int, dia as int)),
{
    assert(separadores_de_data()[1] == '-');
    lemma_partes_de_tres(ano, mes, dia, '-');
    lemma_u32_de_decimal(dia);
    lemma_u32_de_decimal(mes);
    lemma_u32_de_decimal(ano);
}

fn partes_de(c: &str) -> (r: Vec<Vec<char>>)
    ensures
        visoes(r@) == partes_da_data(c@),
{
    let v = caracteres(aparar(c).as_str());
    let seps = vec!['/', '-', '.'];
    proof {
        assert(seps@ =~= separadores_de_data());
    }
    let pedacos = separar_texto(&v, &seps);
    let ghost todas = visoes(pedacos@).map_values(|p: Seq<char>| aparado(p));
    let mut r: Vec<Vec<char>> = Vec::new();
    let mut i: usize = 0;
    proof {
        assert(todas.take(0) =~= Seq::<Seq<char>>::empty());
        reveal(Seq::filter);
        assert(visoes(r@) =~= todas.take(0).filter(filtro_nao_vazio()));
    }
    while i < pedacos.len()
        invariant
            i <= pedacos.len(),
            todas == visoes(pedacos@).map_values(|p: Seq<char>| aparado(p)),
            visoes(r@) == todas.take(i as int).filter(filtro_nao_vazio()),
        decreases pedacos.len() - i,
    {
        let p = &pedacos[i];
        let (a, b) = limites_aparados(p);
        proof {
            assert(todas[i as int] == aparado(pedacos@[i as int]@));
            assert(todas.take(i + 1) =~= todas.take(i as int).push(todas[i as int]));
            todas.take(i as int).lemma_filter_push(todas[i as int], filtro_nao_vazio());
        }
        if a < b {
            let t = texto_de_trecho(p, a, b);
            let ghost antes = visoes(r@);
            let w = caracteres(t.as_str());
            r.push(w);
            proof {
                assert(visoes(r@) =~= antes.push(w@));
            }
        }
        i = i + 1;
    }
    proof {
        assert(todas.take(pedacos.len() as int) =~= todas);
    }
    r
}

/// The date of a text cell, if it names one.
fn data_de_texto(c: &str) -> (r: Option<String>)
    ensures
        match r {
            Some(s) => data_do_texto(c@) == Some(s@),
            None => data_do_texto(c@) is None,
        },
{
    let ps = partes_de(c);
    if ps.len() != 3 {
        return None;
    }
    proof {
        assert(visoes(ps@)[0] == ps@[0]@);
        assert(visoes(ps@)[1] == ps@[1]@);
        assert(visoes(ps@)[2] == ps@[2]@);
        assert(ps@[0]@.subrange(0, ps@[0]@.len() as int) =~= ps@[0]@);
        assert(ps@[1]@.subrange(0, ps@[1]@.len() as int) =~= ps@[1]@);
        assert(ps@[2]@.subrange(0, ps@[2]@.len() as int) =~= ps@[2]@);
    }
    let a = ler_u32_trecho(&ps[0], 0, ps[0].len());
    let b = ler_u32_trecho(&ps[1], 0, ps[1].len());
    let x = ler_u32_trecho(&ps[2], 0, ps[2].len());
    match (a, b, x) {
        (Some(a), Some(b), Some(x)) => {
            if x > 1000 && 1 <= a && a <= 31 && 1 <= b && b <= 12 {
                Some(escrever_iso(x as i64, b as i64, a as i64))
            } else if a > 1000 && 1 <= b && b <= 12 && 1 <= x && x <= 31 {
                Some(escrever_iso(a as i64, b as i64, x as i64))
            } else {
                None
            }
        },
        _ => None,
    }
}

/// The date of a spreadsheet cell: an Excel serial date when the cell is a
/// number between 15000 and 60000 (`serial` is then its whole days, which
/// the caller reads off the number), else a typed date.
pub fn data_de_celula(celula: &str, serial: Option<i64>) -> (r: Option<String>)
    requires
        serial matches Some(d) ==> 15000 <= d <= 60000,
    ensures
        match serial {
            Some(d) => match r {
                Some(s) => data_do_serial(d as int) == Some(s@),
                None => data_do_serial(d as int) is None,
            },
            None => match r {
                Some(s) => data_do_texto(celula@) == Some(s@),
                None => data_do_texto(celula@) is None,
            },
        },
{
    match serial {
        Some(d) => excel_serial_para_data(d),
        None => data_de_texto(celula),
    }
}


// ───────────────────────── registering ─────────────────────────

/// A new employee, checked and ready to be stored.
pub struct NovoFuncionario {
    /// A fresh UUID.
    pub id: String,
    pub nome: String,
    pub cpf: Option<String>,
    pub data_admissao: String,
}

/// What registering gives, or why it is refused, in this order: a name,
/// a valid CPF (or none), an existing company, a hiring date, a valid one.
pub open spec fn cadastro(nome: Seq<char>, cpf: Seq<char>, empresa_existe: bool, data_admissao: Option<Seq<char>>)
    -> Result<(Seq<char>, Option<Seq<char>>, Seq<char>), Seq<char>>
{
    if aparado(nome).len() == 0 {
        Err("Informe o nome do funcionário."@)
    } else {
        match cpf_lido(cpf) {
            Err(e) => Err(e),
            Ok(c) => if !empresa_existe {
                Err("A empresa escolhida não existe. Atualize a lista e tente de novo."@)
            } else {
                match opcional_util(data_admissao) {
                    None => Err("A data de admissão é obrigatória."@),
                    Some(d) => if !admissao_valida(d) {
                        Err("Data de admissão inválida: "@ + d + "."@)
                    } else {
                        Ok((aparado(nome), c, d))
                    },
                }
            },
        }
    }
}

/// Checks an employee before it is stored (`empresa_existe`: is the
/// chosen company there and active?), and gives it a fresh id.
pub fn inserir(nome: &str, cpf: &str, empresa_existe: bool, data_admissao: Option<String>) -> (r: Result<NovoFuncionario, String>)
    ensures
        match cadastro(nome@, cpf@, empresa_existe, visao_opcao(data_admissao)) {
            Ok((n, c, d)) => match r {
                Ok(f) => f.nome@ == n && visao_opcao(f.cpf) == c && f.data_admissao@ == d && formato_uuid(f.id@),
                Err(m) => exists|x: Seq<char>| m@ == msg_sem_aleatorio() + x,
            },
            Err(e) => r matches Err(m) && m@ == e,
        },
{
    if em_branco(nome) {
        return Err(copia("Informe o nome do funcionário."));
    }
    let cpf = match validar_cpf(cpf) {
        Ok(c) => c,
        Err(e) => return Err(e),
    };
    if !empresa_existe {
        return Err(copia("A empresa escolhida não existe. Atualize a lista e tente de novo."));
    }
    let data = match data_admissao {
        Some(d) => if em_branco(d.as_str()) { None } else { Some(aparar(d.as_str())) },
        None => None,
    };
    let data = match data {
        Some(d) => d,
        None => return Err(copia("A data de admissão é obrigatória.")),
    };
    if !data_iso_valida(data.as_str()) {
        let mut e = copia("Data de admissão inválida: ");
        anexar(&mut e, data.as_str());
        anexar(&mut e, ".");
        return Err(e);
    }
    let id = match novo_id() {
        Ok(id) => id,
        Err(e) => return Err(e),
    };
    Ok(NovoFuncionario { id, nome: aparar(nome), cpf, data_admissao: data })
}

/// The message when storing an employee failed: a repeated CPF (the
/// database's uniqueness rule) is told as such.
pub fn erro_do_cadastro(cpf_duplicado: bool, detalhe: &str) -> (r: String)
    ensures
        cpf_duplicado ==> r@ == "Já existe um funcionário com este CPF."@,
        !cpf_duplicado ==> r@ == "Falha ao cadastrar o funcionário: "@ + detalhe@,
{
    if cpf_duplicado {
        copia("Já existe um funcionário com este CPF.")
    } else {
        let mut e = copia("Falha ao cadastrar o funcionário: ");
        anexar(&mut e, detalhe);
        e
    }
}

/// The outcome of removing an employee: none removed ⇒ it did not exist.
pub fn remover(removidos: usize) -> (r: Result<(), String>)
    ensures
        removidos == 0 ==> (r matches Err(e) && e@ == "Funcionário não encontrado ou já removido."@),
        removidos > 0 ==> r is Ok,
{
    if removidos == 0 {
        Err(copia("Funcionário não encontrado ou já removido."))
    } else {
        Ok(())
    }
}

// ───────────────────────── importing a sheet ─────────────────────────

/// The columns an import reads.
pub struct ColunasFuncionario {
    /// The name: a header containing "nome" (required).
    pub nome: usize,
    /// The CPF: a header containing "cpf".
    pub cpf: Option<usize>,
    /// The hiring date: a header containing "admiss" (required).
    pub admissao: usize,
    /// The company's CNPJ: a header containing "cnpj".
    pub cnpj: Option<usize>,
}

/// An import of employees under way.
pub struct ImportacaoFuncionarios {
    pub colunas: ColunasFuncionario,
    /// The company of the rows without a CNPJ.
    pub empresa_padrao: Option<String>,
    pub relatorio: RelatorioImportacaoFuncionarios,
}

/// What to do next with the current row.
pub enum PassoFuncionario {
    /// Go to the next row.
    Proxima,
    /// Find the registered company with this CNPJ, then `apos_buscar_empresa`.
    BuscarEmpresa(String),
    /// Register this employee (with `inserir`), then `apos_cadastrar`.
    Cadastrar { nome: String, cpf: String, empresa_id: String, data_admissao: String },
}

/// Starts an import: the name and hiring-date columns are required, and
/// the rows need a company, from a CNPJ column or the one chosen.
pub fn iniciar_importacao(cabecalho: &Vec<String>, empresa_padrao: Option<String>) -> (r: Result<ImportacaoFuncionarios, String>)
    ensures
        match r {
            Ok(imp) => {
                &&& primeira_coluna(Some(imp.colunas.nome), cabecalho@, seq!["nome"])
                &&& primeira_coluna(imp.colunas.cpf, cabecalho@, seq!["cpf"])
                &&& primeira_coluna(Some(imp.colunas.admissao), cabecalho@, seq!["admiss"])
                &&& primeira_coluna(imp.colunas.cnpj, cabecalho@, seq!["cnpj"])
                &&& (imp.colunas.cnpj is Some || empresa_padrao is Some)
                &&& imp.empresa_padrao == empresa_padrao
                &&& imp.relatorio.total == 0 && imp.relatorio.criados == 0 && imp.relatorio.erros@.len() == 0
            },
            Err(e) => {
                ||| primeira_coluna(None, cabecalho@, seq!["nome"])
                    && e@ == "Planilha sem coluna de Nome (cabeçalho deve conter \"nome\")."@
                ||| !primeira_coluna(None, cabecalho@, seq!["nome"]) && primeira_coluna(None, cabecalho@, seq!["admiss"])
                    && e@ == "Planilha sem coluna de Admissão (cabeçalho deve conter \"admissão\" ou \"admissao\")."@
                ||| !primeira_coluna(None, cabecalho@, seq!["nome"]) && !primeira_coluna(None, cabecalho@, seq!["admiss"])
                    && primeira_coluna(None, cabecalho@, seq!["cnpj"]) && empresa_padrao is None
                    && e@ == "Informe a empresa de destino (seletor) ou inclua uma coluna de CNPJ na planilha."@
            },
        },
{
    let p_nome = vec!["nome"];
    let p_cpf = vec!["cpf"];
    let p_admissao = vec!["admiss"];
    let p_cnpj = vec!["cnpj"];
    proof {
        assert(p_nome@ =~= seq!["nome"]);
        assert(p_cpf@ =~= seq!["cpf"]);
        assert(p_admissao@ =~= seq!["admiss"]);
        assert(p_cnpj@ =~= seq!["cnpj"]);
    }
    let nome = match achar_coluna(cabecalho, &p_nome) {
        Some(c) => c,
        None => return Err(copia("Planilha sem coluna de Nome (cabeçalho deve conter \"nome\").")),
    };
    let cpf = achar_coluna(cabecalho, &p_cpf);
    let admissao = match achar_coluna(cabecalho, &p_admissao) {
        Some(c) => c,
        None => return Err(copia("Planilha sem coluna de Admissão (cabeçalho deve conter \"admissão\" ou \"admissao\").")),
    };
    let cnpj = achar_coluna(cabecalho, &p_cnpj);
    if cnpj.is_none() && empresa_padrao.is_none() {
        return Err(copia("Informe a empresa de destino (seletor) ou inclua uma coluna de CNPJ na planilha."));
    }
    Ok(ImportacaoFuncionarios {
        colunas: ColunasFuncionario { nome, cpf, admissao, cnpj },
        empresa_padrao,
        relatorio: RelatorioImportacaoFuncionarios { total: 0, criados: 0, erros: Vec::new() },
    })
}

/// Was one error, for row `linha` and reason `motivo`, added to the list?
pub open spec fn erro_na_linha(antes: Seq<ErroImportacaoLinha>, depois: Seq<ErroImportacaoLinha>, linha: int, motivo: Seq<char>) -> bool {
    &&& depois.len() == antes.len() + 1
    &&& depois.drop_last() == antes
    &&& depois.last().linha == linha
    &&& depois.last().motivo@ == motivo
}

fn anotar(erros: &mut Vec<ErroImportacaoLinha>, linha: usize, motivo: String)
    ensures
        erro_na_linha(old(erros)@, final(erros)@, linha as int, motivo@),
{
    let ghost antes = erros@;
    erros.push(ErroImportacaoLinha { linha, motivo });
    proof {
        assert(erros@.drop_last() =~= antes);
    }
}

fn texto_da_celula(linha: &Vec<String>, c: usize) -> (r: String)
    ensures
        r@ == celula(linha@, c as int),
{
    if c < linha.len() { linha[c].clone() } else { String::new() }
}

/// What a row gives once its company is known: its CPF must be valid, its
/// hiring date present and readable; then (name, CPF cell, company, date).
pub open spec fn linha_validada(linha: Seq<String>, colunas: ColunasFuncionario, empresa_id: Seq<char>, serial: Option<i64>)
    -> Result<(Seq<char>, Seq<char>, Seq<char>, Seq<char>), Seq<char>>
{
    let cpf = celula_opcional(linha, colunas.cpf);
    let adm = celula(linha, colunas.admissao as int);
    match cpf_lido(cpf) {
        Err(e) => Err(e),
        Ok(_) => if aparado(adm).len() == 0 {
            Err("Data de admissão não informada (obrigatória)."@)
        } else {
            let data = match serial {
                Some(d) => data_do_serial(d as int),
                None => data_do_texto(adm),
            };
            match data {
                None => Err("Data de admissão inválida: \""@ + adm + "\"."@),
                Some(d) => Ok((celula(linha, colunas.nome as int), cpf, empresa_id, d)),
            }
        },
    }
}

/// Does step `r` with report change `antes` → `depois` carry out `v`?
pub open spec fn passo_de_validacao(
    r: PassoFuncionario,
    antes: Seq<ErroImportacaoLinha>,
    depois: Seq<ErroImportacaoLinha>,
    linha: int,
    v: Result<(Seq<char>, Seq<char>, Seq<char>, Seq<char>), Seq<char>>,
) -> bool {
    match v {
        Err(e) => r is Proxima && erro_na_linha(antes, depois, linha, e),
        Ok((n, c, emp, d)) => depois == antes && (r matches PassoFuncionario::Cadastrar { nome, cpf, empresa_id, data_admissao }
            && nome@ == n && cpf@ == c && empresa_id@ == emp && data_admissao@ == d),
    }
}

impl ImportacaoFuncionarios {
    fn validar(&mut self, linha: &Vec<String>, indice: usize, empresa_id: String, serial: Option<i64>) -> (r: PassoFuncionario)
        requires
            indice < usize::MAX,
            serial matches Some(d) ==> 15000 <= d <= 60000,
        ensures
            final(self).colunas == old(self).colunas,
            final(self).empresa_padrao == old(self).empresa_padrao,
            final(self).relatorio.total == old(self).relatorio.total,
            final(self).relatorio.criados == old(self).relatorio.criados,
            passo_de_validacao(r, old(self).relatorio.erros@, final(self).relatorio.erros@, indice + 1,
                linha_validada(linha@, old(self).colunas, empresa_id@, serial)),
    {
        let cpf = match self.colunas.cpf {
            Some(c) => texto_da_celula(linha, c),
            None => String::new(),
        };
        if let Err(m) = validar_cpf(cpf.as_str()) {
            anotar(&mut self.relatorio.erros, indice + 1, m);
            return PassoFuncionario::Proxima;
        }
        let adm = texto_da_celula(linha, self.colunas.admissao);
        if em_branco(adm.as_str()) {
            anotar(&mut self.relatorio.erros, indice + 1, copia("Data de admissão não informada (obrigatória)."));
            return PassoFuncionario::Proxima;
        }
        match data_de_celula(adm.as_str(), serial) {
            None => {
                let mut e = copia("Data de admissão inválida: \"");
                anexar(&mut e, adm.as_str());
                anexar(&mut e, "\".");
                anotar(&mut self.relatorio.erros, indice + 1, e);
                PassoFuncionario::Proxima
            },
            Some(data) => PassoFuncionario::Cadastrar {
                nome: texto_da_celula(linha, self.colunas.nome),
                cpf,
                empresa_id,
                data_admissao: data,
            },
        }
    }

    /// A data row (at `indice`, the header being 0; `serial` is the whole
    /// days of its hiring-date cell when that cell is a number between 15000
    /// and 60000). A row without a name is skipped silently; the others
    /// count in the total. The company comes from the row's CNPJ when the
    /// sheet has that column and the cell is filled, else it is the chosen
    /// one.
    pub fn ler_linha(&mut self, linha: &Vec<String>, indice: usize, serial: Option<i64>) -> (r: PassoFuncionario)
        requires
            indice < usize::MAX,
            old(self).relatorio.total < usize::MAX,
            serial matches Some(d) ==> 15000 <= d <= 60000,
        ensures
            final(self).colunas == old(self).colunas,
            final(self).empresa_padrao == old(self).empresa_padrao,
            final(self).relatorio.criados == old(self).relatorio.criados,
            aparado(celula(linha@, old(self).colunas.nome as int)).len() == 0 ==> {
                &&& r is Proxima
                &&& final(self).relatorio.total == old(self).relatorio.total
                &&& final(self).relatorio.erros@ == old(self).relatorio.erros@
            },
            aparado(celula(linha@, old(self).colunas.nome as int)).len() != 0 ==> {
                let cnpj = celula_opcional(linha@, old(self).colunas.cnpj);
                &&& final(self).relatorio.total == old(self).relatorio.total + 1
                &&& if old(self).colunas.cnpj is Some && aparado(cnpj).len() != 0 {
                    match cnpj_normalizado(cnpj) {
                        Err(e) => r is Proxima
                            && erro_na_linha(old(self).relatorio.erros@, final(self).relatorio.erros@, indice + 1, e),
                        Ok(c) => (r matches PassoFuncionario::BuscarEmpresa(x) && x@ == c)
                            && final(self).relatorio.erros@ == old(self).relatorio.erros@,
                    }
                } else {
                    match old(self).empresa_padrao {
                        None => r is Proxima && erro_na_linha(old(self).relatorio.erros@, final(self).relatorio.erros@,
                            indice + 1, "Linha sem empresa (informe o CNPJ ou a empresa padrão)."@),
                        Some(e) => passo_de_validacao(r, old(self).relatorio.erros@, final(self).relatorio.erros@,
                            indice + 1, linha_validada(linha@, old(self).colunas, e@, serial)),
                    }
                }
            },
    {
        let nome = texto_da_celula(linha, self.colunas.nome);
        if em_branco(nome.as_str()) {
            return PassoFuncionario::Proxima;
        }
        self.relatorio.total = self.relatorio.total + 1;
        if let Some(c) = self.colunas.cnpj {
            let cel = texto_da_celula(linha, c);
            if !em_branco(cel.as_str()) {
                match normalizar_cnpj(cel.as_str()) {
                    Err(e) => {
                        anotar(&mut self.relatorio.erros, indice + 1, e);
                        return PassoFuncionario::Proxima;
                    },
                    Ok(cnpj) => return PassoFuncionario::BuscarEmpresa(cnpj),
                }
            }
        }
        match &self.empresa_padrao {
            None => {
                anotar(&mut self.relatorio.erros, indice + 1, copia("Linha sem empresa (informe o CNPJ ou a empresa padrão)."));
                PassoFuncionario::Proxima
            },
            Some(e) => {
                let id = e.clone();
                self.validar(linha, indice, id, serial)
            },
        }
    }

    /// After looking the row's CNPJ up among the registered companies (its
    /// id, if any, or a failure of the lookup).
    pub fn apos_buscar_empresa(
        &mut self,
        linha: &Vec<String>,
        indice: usize,
        cnpj: &str,
        resultado: Result<Option<String>, String>,
        serial: Option<i64>,
    ) -> (r: PassoFuncionario)
        requires
            indice < usize::MAX,
            serial matches Some(d) ==> 15000 <= d <= 60000,
        ensures
            final(self).colunas == old(self).colunas,
            final(self).empresa_padrao == old(self).empresa_padrao,
            final(self).relatorio.total == old(self).relatorio.total,
            final(self).relatorio.criados == old(self).relatorio.criados,
            match resultado {
                Err(m) => r is Proxima && erro_na_linha(old(self).relatorio.erros@, final(self).relatorio.erros@, indice + 1, m@),
                Ok(None) => r is Proxima && erro_na_linha(old(self).relatorio.erros@, final(self).relatorio.erros@, indice + 1,
                    "Empresa com CNPJ "@ + cnpj@ + " não está cadastrada. Cadastre-a antes."@),
                Ok(Some(id)) => passo_de_validacao(r, old(self).relatorio.erros@, final(self).relatorio.erros@,
                    indice + 1, linha_validada(linha@, old(self).colunas, id@, serial)),
            },
    {
        match resultado {
            Err(m) => {
                anotar(&mut self.relatorio.erros, indice + 1, m);
                PassoFuncionario::Proxima
            },
            Ok(None) => {
                let mut e = copia("Empresa com CNPJ ");
                anexar(&mut e, cnpj);
                anexar(&mut e, " não está cadastrada. Cadastre-a antes.");
                anotar(&mut self.relatorio.erros, indice + 1, e);
                PassoFuncionario::Proxima
            },
            Ok(Some(id)) => self.validar(linha, indice, id, serial),
        }
    }

    /// After registering a row's employee: one more created, or an error
    /// of the row.
    pub fn apos_cadastrar(&mut self, indice: usize, resultado: Result<(), String>)
        requires
            indice < usize::MAX,
            old(self).relatorio.criados < usize::MAX,
        ensures
            final(self).colunas == old(self).colunas,
            final(self).empresa_padrao == old(self).empresa_padrao,
            final(self).relatorio.total == old(self).relatorio.total,
            match resultado {
                Ok(()) => final(self).relatorio.criados == old(self).relatorio.criados + 1
                    && final(self).relatorio.erros@ == old(self).relatorio.erros@,
                Err(m) => final(self).relatorio.criados == old(self).relatorio.criados
                    && erro_na_linha(old(self).relatorio.erros@, final(self).relatorio.erros@, indice + 1, m@),
            },
    {
        match resultado {
            Ok(()) => {
                self.relatorio.criados = self.relatorio.criados + 1;
            },
            Err(m) => anotar(&mut self.relatorio.erros, indice + 1, m),
        }
    }
}

} // verus!
