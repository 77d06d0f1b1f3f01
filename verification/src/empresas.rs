//! Company registration: the normal form of a company's data, and the
//! import of companies from a spreadsheet.
//!
//! Data are kept in one form whatever their source (the CNPJ services or a
//! spreadsheet): the CNPJ as its 14 digits, texts without spaces at the
//! ends, and blank fields absent.

use vstd::prelude::*;
use crate::texto::{
    aparado, aparar, em_branco, anexar, copia, so_digitos, digitos_de, texto_de, empurrar, contem,
    contem_texto, minusculas, em_minusculas,
};
use crate::numeros::{decimal, escrever_natural};
use crate::cnpj::{DadosEmpresa, cnpj_normalizado, cnpj_valido, normalizar_cnpj, validar_cnpj, visao_dados, visao_opcao};

verus! {

broadcast use vstd::seq_lib::group_seq_properties;

/// A registered company.
pub struct Empresa {
    pub id: i64,
    pub cnpj: String,
    pub razao_social: String,
    pub nome_fantasia: Option<String>,
    pub situacao: Option<String>,
    pub municipio: Option<String>,
    pub uf: Option<String>,
    pub telefone: Option<String>,
    pub email: Option<String>,
    pub created_at: String,
}

/// A spreadsheet row that could not be imported.
pub struct ErroImportacao {
    /// Row number in the sheet, from 1, the header included.
    pub linha: usize,
    pub motivo: String,
}

/// What an import did.
pub struct RelatorioImportacao {
    /// Rows with a valid CNPJ.
    pub total: usize,
    pub criadas: usize,
    pub duplicadas: usize,
    pub erros: Vec<ErroImportacao>,
}

/// Progress of an import, reported before each data row.
pub struct ProgressoImportacao {
    /// Row being processed (the header is row 1).
    pub linha: usize,
    /// Data rows gone through, the current one included.
    pub processadas: usize,
    /// Data rows in the sheet.
    pub total: usize,
}

/// What removing several companies did.
pub struct ResultadoRemocao {
    /// Companies removed.
    pub removidas: usize,
    /// Companies kept: they have employees, or did not exist.
    pub bloqueadas: usize,
}

// ───────────────────────── the normal form ─────────────────────────

/// An optional text in normal form: trimmed, absent when blank.
pub open spec fn opcional_util(o: Option<Seq<char>>) -> Option<Seq<char>> {
    match o {
        Some(t) => if aparado(t).len() == 0 { None } else { Some(aparado(t)) },
        None => None,
    }
}

/// `Some(texto)` trimmed when not blank, else `None`.
pub fn opcional(texto: &str) -> (r: Option<String>)
    ensures
        visao_opcao(r) == opcional_util(Some(texto@)),
{
    if em_branco(texto) {
        None
    } else {
        Some(aparar(texto))
    }
}

fn opcional_de(o: Option<String>) -> (r: Option<String>)
    ensures
        visao_opcao(r) == opcional_util(visao_opcao(o)),
{
    match o {
        Some(t) => opcional(t.as_str()),
        None => None,
    }
}

pub open spec fn msg_sem_razao() -> Seq<char> {
    "Razão social não informada."@
}

/// The normal form of company data, or why there is none: the CNPJ must
/// normalize (14 digits with valid check digits) and the company name must
/// not be blank.
pub open spec fn dados_normalizados(d: DadosEmpresa) -> Result<(Seq<char>, Seq<char>, Option<Seq<char>>, Option<Seq<char>>, Option<Seq<char>>, Option<Seq<char>>, Option<Seq<char>>, Option<Seq<char>>), Seq<char>> {
    match cnpj_normalizado(d.cnpj@) {
        Err(e) => Err(e),
        Ok(c) => if aparado(d.razao_social@).len() == 0 {
            Err(msg_sem_razao())
        } else {
            Ok((
                c,
                aparado(d.razao_social@),
                opcional_util(visao_opcao(d.nome_fantasia)),
                opcional_util(visao_opcao(d.situacao)),
                opcional_util(visao_opcao(d.municipio)),
                opcional_util(visao_opcao(d.uf)),
                opcional_util(visao_opcao(d.telefone)),
                opcional_util(visao_opcao(d.email)),
            ))
        },
    }
}

/// Puts company data in normal form before it is stored (data from the
/// CNPJ services and from a spreadsheet alike).
pub fn normalizar_dados(dados: DadosEmpresa) -> (r: Result<DadosEmpresa, String>)
    ensures
        match dados_normalizados(dados) {
            Ok(v) => r matches Ok(d) && visao_dados(d) == v,
            Err(e) => r matches Err(m) && m@ == e,
        },
{
    let cnpj = match normalizar_cnpj(dados.cnpj.as_str()) {
        Ok(c) => c,
        Err(e) => return Err(e),
    };
    if em_branco(dados.razao_social.as_str()) {
        return Err(copia("Razão social não informada."));
    }
    Ok(DadosEmpresa {
        cnpj,
        razao_social: aparar(dados.razao_social.as_str()),
        nome_fantasia: opcional_de(dados.nome_fantasia),
        situacao: opcional_de(dados.situacao),
        municipio: opcional_de(dados.municipio),
        uf: opcional_de(dados.uf),
        telefone: opcional_de(dados.telefone),
        email: opcional_de(dados.email),
    })
}

// ───────────────────────── the spreadsheet ─────────────────────────

/// Does a header cell name the column: its lower case contains one of the
/// words?
pub open spec fn cabecalho_casa(celula: Seq<char>, palavras: Seq<&str>) -> bool {
    exists|j: int| 0 <= j < palavras.len() && contem(minusculas(celula), #[trigger] palavras[j]@)
}

/// Is `r` the first column whose header names the column?
pub open spec fn primeira_coluna(r: Option<usize>, cabecalho: Seq<String>, palavras: Seq<&str>) -> bool {
    match r {
        Some(i) => i < cabecalho.len() && cabecalho_casa(cabecalho[i as int]@, palavras)
            && forall|k: int| 0 <= k < i ==> !cabecalho_casa(#[trigger] cabecalho[k]@, palavras),
        None => forall|k: int| 0 <= k < cabecalho.len() ==> !cabecalho_casa(#[trigger] cabecalho[k]@, palavras),
    }
}

/// The first column whose header contains one of the words (ignoring case).
pub fn achar_coluna(cabecalho: &Vec<String>, palavras: &Vec<&str>) -> (r: Option<usize>)
    ensures
        primeira_coluna(r, cabecalho@, palavras@),
{
    let mut i: usize = 0;
    while i < cabecalho.len()
        invariant
            i <= cabecalho.len(),
            forall|k: int| 0 <= k < i ==> !cabecalho_casa(#[trigger] cabecalho@[k]@, palavras@),
        decreases cabecalho.len() - i,
    {
        let nome = em_minusculas(cabecalho[i].as_str());
        let mut j: usize = 0;
        while j < palavras.len()
            invariant
                j <= palavras.len(),
                i < cabecalho.len(),
                forall|k: int| 0 <= k < i ==> !cabecalho_casa(#[trigger] cabecalho@[k]@, palavras@),
                nome@ == minusculas(cabecalho@[i as int]@),
                forall|k: int| 0 <= k < j ==> !contem(nome@, #[trigger] palavras@[k]@),
            decreases palavras.len() - j,
        {
            if contem_texto(nome.as_str(), palavras[j]) {
                proof {
                    assert(contem(minusculas(cabecalho@[i as int]@), palavras@[j as int]@));
                }
                return Some(i);
            }
            j = j + 1;
        }
        i = i + 1;
    }
    None
}

/// `n` zeros.
pub open spec fn zeros(n: nat) -> Seq<char> {
    Seq::new(n, |k: int| '0')
}

/// What a spreadsheet CNPJ cell gives: its digits, with the leading zeros a
/// numeric cell lost put back (12 or 13 digits are completed to 14), and
/// the check digits checked (no query is made).
pub open spec fn cnpj_da_celula(celula: Seq<char>) -> Result<Seq<char>, Seq<char>> {
    let d = so_digitos(celula);
    if d.len() == 0 {
        Err("Linha sem CNPJ."@)
    } else if d.len() != 12 && d.len() != 13 && d.len() != 14 {
        Err("CNPJ com "@ + decimal(d.len()) + " dígito(s) — esperado 14."@)
    } else if !cnpj_valido(zeros((14 - d.len()) as nat) + d) {
        Err("CNPJ "@ + celula + " inválido (dígitos verificadores não conferem)."@)
    } else {
        Ok(zeros((14 - d.len()) as nat) + d)
    }
}

/// Normalizes the CNPJ of a spreadsheet cell.
pub fn normalizar_cnpj_planilha(celula: &str) -> (r: Result<String, String>)
    ensures
        match cnpj_da_celula(celula@) {
            Ok(c) => r matches Ok(s) && s@ == c,
            Err(e) => r matches Err(m) && m@ == e,
        },
{
    let d = digitos_de(celula);
    if d.len() == 0 {
        return Err(copia("Linha sem CNPJ."));
    }
    if d.len() != 12 && d.len() != 13 && d.len() != 14 {
        let mut e = copia("CNPJ com ");
        escrever_natural(&mut e, d.len() as u64);
        anexar(&mut e, " dígito(s) — esperado 14.");
        return Err(e);
    }
    let mut n = String::new();
    let mut k: usize = d.len();
    while k < 14
        invariant
            d.len() <= k <= 14,
            n@ == zeros((k - d.len()) as nat),
        decreases 14 - k,
    {
        empurrar(&mut n, '0');
        proof {
            assert(n@ =~= zeros((k + 1 - d.len()) as nat));
        }
        k = k + 1;
    }
    anexar(&mut n, texto_de(&d).as_str());
    if !validar_cnpj(n.as_str()) {
        let mut e = copia("CNPJ ");
        anexar(&mut e, celula);
        anexar(&mut e, " inválido (dígitos verificadores não conferem).");
        return Err(e);
    }
    Ok(n)
}


// ───────────────────────── importing a sheet ─────────────────────────

/// The columns an import reads.
pub struct ColunasEmpresa {
    /// The CNPJ: a header containing "cnpj" (required).
    pub cnpj: usize,
    /// The company name: a header containing "raz".
    pub razao: Option<usize>,
    /// The trade name: a header containing "fantas".
    pub fantasia: Option<usize>,
}

/// An import under way.
pub struct ImportacaoEmpresas {
    pub colunas: ColunasEmpresa,
    pub relatorio: RelatorioImportacao,
    /// Was a CNPJ service already asked (the next query waits first)?
    pub ja_consultou: bool,
}

/// What to do next with the current row.
pub enum PassoEmpresa {
    /// Go to the next row.
    Proxima,
    /// See whether this CNPJ is already registered, then `apos_conferir`.
    Conferir(String),
    /// Look this CNPJ up in the public sources (after the pause between
    /// queries when `aguardar`), then `apos_consulta`.
    Consultar { cnpj: String, aguardar: bool },
    /// Store these data, then `apos_gravar`.
    Gravar(DadosEmpresa),
}

pub open spec fn msg_sem_coluna_cnpj() -> Seq<char> {
    "Planilha sem coluna de CNPJ (cabeçalho deve conter \"cnpj\")."@
}

/// Starts an import from the header row: the CNPJ column must be there.
pub fn iniciar_importacao(cabecalho: &Vec<String>) -> (r: Result<ImportacaoEmpresas, String>)
    ensures
        match r {
            Ok(imp) => {
                &&& primeira_coluna(Some(imp.colunas.cnpj), cabecalho@, seq!["cnpj"])
                &&& primeira_coluna(imp.colunas.razao, cabecalho@, seq!["raz"])
                &&& primeira_coluna(imp.colunas.fantasia, cabecalho@, seq!["fantas"])
                &&& imp.relatorio.total == 0 && imp.relatorio.criadas == 0 && imp.relatorio.duplicadas == 0
                &&& imp.relatorio.erros@.len() == 0
                &&& !imp.ja_consultou
            },
            Err(e) => primeira_coluna(None, cabecalho@, seq!["cnpj"]) && e@ == msg_sem_coluna_cnpj(),
        },
{
    let p_cnpj = vec!["cnpj"];
    let p_razao = vec!["raz"];
    let p_fantasia = vec!["fantas"];
    proof {
        assert(p_cnpj@ =~= seq!["cnpj"]);
        assert(p_razao@ =~= seq!["raz"]);
        assert(p_fantasia@ =~= seq!["fantas"]);
    }
    let cnpj = match achar_coluna(cabecalho, &p_cnpj) {
        Some(c) => c,
        None => return Err(copia("Planilha sem coluna de CNPJ (cabeçalho deve conter \"cnpj\").")),
    };
    let razao = achar_coluna(cabecalho, &p_razao);
    let fantasia = achar_coluna(cabecalho, &p_fantasia);
    Ok(ImportacaoEmpresas {
        colunas: ColunasEmpresa { cnpj, razao, fantasia },
        relatorio: RelatorioImportacao { total: 0, criadas: 0, duplicadas: 0, erros: Vec::new() },
        ja_consultou: false,
    })
}

/// Data rows of a sheet of `n` rows (the first is the header).
pub fn total_de_linhas(n: usize) -> (r: usize)
    ensures
        r == if n == 0 { 0 } else { n - 1 },
{
    if n == 0 { 0 } else { n - 1 }
}

/// The progress reported before the row at `indice` (the header being 0).
pub fn progresso_da_linha(indice: usize, total: usize) -> (r: ProgressoImportacao)
    requires
        indice < usize::MAX,
    ensures
        r.linha == indice + 1,
        r.processadas == indice,
        r.total == total,
{
    ProgressoImportacao { linha: indice + 1, processadas: indice, total }
}

/// The text of cell `c` of a row (empty when the row is shorter).
pub open spec fn celula(linha: Seq<String>, c: int) -> Seq<char> {
    if 0 <= c < linha.len() { linha[c]@ } else { Seq::empty() }
}

pub open spec fn celula_opcional(linha: Seq<String>, c: Option<usize>) -> Seq<char> {
    match c {
        Some(i) => celula(linha, i as int),
        None => Seq::empty(),
    }
}

fn texto_da_celula(linha: &Vec<String>, c: usize) -> (r: String)
    ensures
        r@ == celula(linha@, c as int),
{
    if c < linha.len() { linha[c].clone() } else { String::new() }
}

/// Was one error, for row `linha` and reason `motivo`, added to the list?
pub open spec fn erro_acrescentado(antes: Seq<ErroImportacao>, depois: Seq<ErroImportacao>, linha: int, motivo: Seq<char>) -> bool {
    &&& depois.len() == antes.len() + 1
    &&& depois.drop_last() == antes
    &&& depois.last().linha == linha
    &&& depois.last().motivo@ == motivo
}

fn anotar_erro(erros: &mut Vec<ErroImportacao>, linha: usize, motivo: String)
    ensures
        erro_acrescentado(old(erros)@, final(erros)@, linha as int, motivo@),
{
    let ghost antes = erros@;
    erros.push(ErroImportacao { linha, motivo });
    proof {
        assert(erros@.drop_last() =~= antes);
    }
}

impl ImportacaoEmpresas {
    /// First look at the data row at `indice` (the header being 0): its
    /// CNPJ. A blank CNPJ cell is skipped silently; an invalid CNPJ is an
    /// error of the row; a valid one counts in the total and is checked
    /// against the registered ones.
    pub fn ler_linha(&mut self, linha: &Vec<String>, indice: usize) -> (r: PassoEmpresa)
        requires
            indice < usize::MAX,
            old(self).relatorio.total < usize::MAX,
        ensures
            final(self).colunas == old(self).colunas,
            final(self).ja_consultou == old(self).ja_consultou,
            final(self).relatorio.criadas == old(self).relatorio.criadas,
            final(self).relatorio.duplicadas == old(self).relatorio.duplicadas,
            match cnpj_da_celula(celula(linha@, old(self).colunas.cnpj as int)) {
                Ok(c) => r matches PassoEmpresa::Conferir(x) && x@ == c
                    && final(self).relatorio.total == old(self).relatorio.total + 1
                    && final(self).relatorio.erros@ == old(self).relatorio.erros@,
                Err(m) => r is Proxima && final(self).relatorio.total == old(self).relatorio.total && if aparado(
                    celula(linha@, old(self).colunas.cnpj as int),
                ).len() == 0 {
                    final(self).relatorio.erros@ == old(self).relatorio.erros@
                } else {
                    erro_acrescentado(old(self).relatorio.erros@, final(self).relatorio.erros@, indice + 1, m)
                },
            },
    {
        let celula_cnpj = texto_da_celula(linha, self.colunas.cnpj);
        match normalizar_cnpj_planilha(celula_cnpj.as_str()) {
            Ok(c) => {
                self.relatorio.total = self.relatorio.total + 1;
                PassoEmpresa::Conferir(c)
            },
            Err(m) => {
                if !em_branco(celula_cnpj.as_str()) {
                    anotar_erro(&mut self.relatorio.erros, indice + 1, m);
                }
                PassoEmpresa::Proxima
            },
        }
    }

    /// After checking whether the row's CNPJ is registered: a registered
    /// one counts as a duplicate; a row with a company name is stored as
    /// the sheet gives it (in normal form); one without is looked up in the
    /// public sources, the queries after the first waiting a pause.
    pub fn apos_conferir(&mut self, linha: &Vec<String>, indice: usize, cnpj: String, ja_existe: bool) -> (r: PassoEmpresa)
        requires
            indice < usize::MAX,
            old(self).relatorio.duplicadas < usize::MAX,
        ensures
            final(self).colunas == old(self).colunas,
            final(self).relatorio.total == old(self).relatorio.total,
            final(self).relatorio.criadas == old(self).relatorio.criadas,
            ja_existe ==> {
                &&& r is Proxima
                &&& final(self).relatorio.duplicadas == old(self).relatorio.duplicadas + 1
                &&& final(self).relatorio.erros@ == old(self).relatorio.erros@
                &&& final(self).ja_consultou == old(self).ja_consultou
            },
            !ja_existe ==> final(self).relatorio.duplicadas == old(self).relatorio.duplicadas,
            !ja_existe && aparado(celula_opcional(linha@, old(self).colunas.razao)).len() == 0 ==> {
                &&& r matches PassoEmpresa::Consultar { cnpj: c, aguardar } && c@ == cnpj@ && aguardar == old(self).ja_consultou
                &&& final(self).ja_consultou
                &&& final(self).relatorio.erros@ == old(self).relatorio.erros@
            },
            !ja_existe && aparado(celula_opcional(linha@, old(self).colunas.razao)).len() != 0 ==> {
                &&& final(self).ja_consultou == old(self).ja_consultou
                &&& match cnpj_normalizado(cnpj@) {
                    Err(e) => r is Proxima && erro_acrescentado(old(self).relatorio.erros@, final(self).relatorio.erros@, indice + 1, e),
                    Ok(c) => r matches PassoEmpresa::Gravar(d) && visao_dados(d) == (
                        c,
                        aparado(celula_opcional(linha@, old(self).colunas.razao)),
                        opcional_util(Some(celula_opcional(linha@, old(self).colunas.fantasia))),
                        None::<Seq<char>>, None::<Seq<char>>, None::<Seq<char>>, None::<Seq<char>>, None::<Seq<char>>,
                    ) && final(self).relatorio.erros@ == old(self).relatorio.erros@,
                }
            },
    {
        if ja_existe {
            self.relatorio.duplicadas = self.relatorio.duplicadas + 1;
            return PassoEmpresa::Proxima;
        }
        let razao = match self.colunas.razao {
            Some(c) => texto_da_celula(linha, c),
            None => String::new(),
        };
        let fantasia = match self.colunas.fantasia {
            Some(c) => texto_da_celula(linha, c),
            None => String::new(),
        };
        if em_branco(razao.as_str()) {
            let aguardar = self.ja_consultou;
            self.ja_consultou = true;
            return PassoEmpresa::Consultar { cnpj, aguardar };
        }
        let dados = DadosEmpresa {
            cnpj,
            razao_social: aparar(razao.as_str()),
            nome_fantasia: opcional(fantasia.as_str()),
            situacao: None,
            municipio: None,
            uf: None,
            telefone: None,
            email: None,
        };
        proof {
            crate::texto::lemma_aparado_idempotente(razao@);
            crate::texto::lemma_aparado_idempotente(fantasia@);
        }
        self.normalizar_para_gravar(dados, indice)
    }

    fn normalizar_para_gravar(&mut self, dados: DadosEmpresa, indice: usize) -> (r: PassoEmpresa)
        requires
            indice < usize::MAX,
        ensures
            final(self).colunas == old(self).colunas,
            final(self).ja_consultou == old(self).ja_consultou,
            final(self).relatorio.total == old(self).relatorio.total,
            final(self).relatorio.criadas == old(self).relatorio.criadas,
            final(self).relatorio.duplicadas == old(self).relatorio.duplicadas,
            match dados_normalizados(dados) {
                Ok(v) => r matches PassoEmpresa::Gravar(d) && visao_dados(d) == v
                    && final(self).relatorio.erros@ == old(self).relatorio.erros@,
                Err(e) => r is Proxima
                    && erro_acrescentado(old(self).relatorio.erros@, final(self).relatorio.erros@, indice as int + 1, e),
            },
    {
        match normalizar_dados(dados) {
            Ok(d) => PassoEmpresa::Gravar(d),
            Err(m) => {
                anotar_erro(&mut self.relatorio.erros, indice + 1, m);
                PassoEmpresa::Proxima
            },
        }
    }
}


impl ImportacaoEmpresas {
    /// After looking a CNPJ up: the data found are stored (in normal form);
    /// a failed lookup is an error of the row.
    pub fn apos_consulta(&mut self, indice: usize, resultado: Result<DadosEmpresa, String>) -> (r: PassoEmpresa)
        requires
            indice < usize::MAX,
        ensures
            final(self).colunas == old(self).colunas,
            final(self).ja_consultou == old(self).ja_consultou,
            final(self).relatorio.total == old(self).relatorio.total,
            final(self).relatorio.criadas == old(self).relatorio.criadas,
            final(self).relatorio.duplicadas == old(self).relatorio.duplicadas,
            match resultado {
                Err(m) => r is Proxima
                    && erro_acrescentado(old(self).relatorio.erros@, final(self).relatorio.erros@, indice + 1, m@),
                Ok(dados) => match dados_normalizados(dados) {
                    Ok(v) => r matches PassoEmpresa::Gravar(d) && visao_dados(d) == v
                        && final(self).relatorio.erros@ == old(self).relatorio.erros@,
                    Err(e) => r is Proxima
                        && erro_acrescentado(old(self).relatorio.erros@, final(self).relatorio.erros@, indice + 1, e),
                },
            },
    {
        match resultado {
            Err(m) => {
                anotar_erro(&mut self.relatorio.erros, indice + 1, m);
                PassoEmpresa::Proxima
            },
            Ok(dados) => self.normalizar_para_gravar(dados, indice),
        }
    }

    /// After storing a row: one more company created, or an error of the row.
    pub fn apos_gravar(&mut self, indice: usize, resultado: Result<(), String>)
        requires
            indice < usize::MAX,
            old(self).relatorio.criadas < usize::MAX,
        ensures
            final(self).colunas == old(self).colunas,
            final(self).ja_consultou == old(self).ja_consultou,
            final(self).relatorio.total == old(self).relatorio.total,
            final(self).relatorio.duplicadas == old(self).relatorio.duplicadas,
            match resultado {
                Ok(()) => final(self).relatorio.criadas == old(self).relatorio.criadas + 1
                    && final(self).relatorio.erros@ == old(self).relatorio.erros@,
                Err(m) => final(self).relatorio.criadas == old(self).relatorio.criadas
                    && erro_acrescentado(old(self).relatorio.erros@, final(self).relatorio.erros@, indice + 1, m@),
            },
    {
        match resultado {
            Ok(()) => {
                self.relatorio.criadas = self.relatorio.criadas + 1;
            },
            Err(m) => {
                anotar_erro(&mut self.relatorio.erros, indice + 1, m);
            },
        }
    }
}

// ───────────────────────── saving and removing ─────────────────────────

/// Saving checked data: refused when the CNPJ is already registered.
pub fn salvar_empresa(dados: &DadosEmpresa, ja_existe: bool) -> (r: Result<(), String>)
    ensures
        ja_existe ==> (r matches Err(e) && e@ == "A empresa com CNPJ "@ + dados.cnpj@ + " já está cadastrada."@),
        !ja_existe ==> r is Ok,
{
    if ja_existe {
        let mut e = copia("A empresa com CNPJ ");
        anexar(&mut e, dados.cnpj.as_str());
        anexar(&mut e, " já está cadastrada.");
        Err(e)
    } else {
        Ok(())
    }
}

pub open spec fn msg_empresa_com_funcionarios() -> Seq<char> {
    "Esta empresa possui funcionários vinculados. Exclua ou mova os funcionários antes."@
}

/// A company with employees cannot be removed.
pub fn conferir_remocao(tem_funcionarios: bool) -> (r: Result<(), String>)
    ensures
        tem_funcionarios ==> (r matches Err(e) && e@ == msg_empresa_com_funcionarios()),
        !tem_funcionarios ==> r is Ok,
{
    if tem_funcionarios {
        Err(copia("Esta empresa possui funcionários vinculados. Exclua ou mova os funcionários antes."))
    } else {
        Ok(())
    }
}

/// The outcome of removing one company: none removed ⇒ it did not exist.
pub fn remover(removidas: usize) -> (r: Result<(), String>)
    ensures
        removidas == 0 ==> (r matches Err(e) && e@ == "Empresa não encontrada ou já removida."@),
        removidas > 0 ==> r is Ok,
{
    if removidas == 0 {
        Err(copia("Empresa não encontrada ou já removida."))
    } else {
        Ok(())
    }
}

/// How many companies of a batch were removed: those without employees
/// whose removal found the row.
pub open spec fn removidas_no_lote(s: Seq<(bool, usize)>) -> int
    decreases s.len(),
{
    if s.len() == 0 {
        0
    } else {
        removidas_no_lote(s.drop_last()) + if !s.last().0 && s.last().1 > 0 { 1int } else { 0int }
    }
}

proof fn lemma_removidas_limite(s: Seq<(bool, usize)>)
    ensures
        0 <= removidas_no_lote(s) <= s.len(),
    decreases s.len(),
{
    if s.len() > 0 {
        lemma_removidas_limite(s.drop_last());
    }
}

/// Counts a batch removal, one outcome per company in order (did it have
/// employees, how many rows its removal deleted): every company is counted
/// once, as removed or as kept.
pub fn remover_varias(resultados: &Vec<(bool, usize)>) -> (r: ResultadoRemocao)
    ensures
        r.removidas == removidas_no_lote(resultados@),
        r.removidas + r.bloqueadas == resultados.len(),
{
    let mut removidas: usize = 0;
    let mut bloqueadas: usize = 0;
    let mut i: usize = 0;
    while i < resultados.len()
        invariant
            i <= resultados.len(),
            removidas == removidas_no_lote(resultados@.take(i as int)),
            removidas + bloqueadas == i,
        decreases resultados.len() - i,
    {
        proof {
            assert(resultados@.take(i + 1).drop_last() =~= resultados@.take(i as int));
        }
        let (tem_funcionarios, excluidas) = resultados[i];
        if tem_funcionarios || excluidas == 0 {
            bloqueadas = bloqueadas + 1;
        } else {
            removidas = removidas + 1;
        }
        i = i + 1;
    }
    proof {
        assert(resultados@.take(resultados.len() as int) =~= resultados@);
    }
    ResultadoRemocao { removidas, bloqueadas }
}

// ───────────────────────── laws ─────────────────────────

/// Normalizing normalized data changes nothing: data in normal form are
/// accepted as they are.
pub proof fn lei_normalizar_dados_idempotente(d: DadosEmpresa, e: DadosEmpresa)
    requires
        dados_normalizados(d) matches Ok(v) && visao_dados(e) == v,
    ensures
        dados_normalizados(e) == dados_normalizados(d),
{
    crate::cnpj::lei_cnpj_normalizado_idempotente(d.cnpj@);
    crate::texto::lemma_aparado_idempotente(d.razao_social@);
    lemma_opcional_idempotente(visao_opcao(d.nome_fantasia));
    lemma_opcional_idempotente(visao_opcao(d.situacao));
    lemma_opcional_idempotente(visao_opcao(d.municipio));
    lemma_opcional_idempotente(visao_opcao(d.uf));
    lemma_opcional_idempotente(visao_opcao(d.telefone));
    lemma_opcional_idempotente(visao_opcao(d.email));
}

proof fn lemma_opcional_idempotente(o: Option<Seq<char>>)
    ensures
        opcional_util(opcional_util(o)) == opcional_util(o),
{
    if let Some(t) = o {
        crate::texto::lemma_aparado_idempotente(t);
    }
}

} // verus!
