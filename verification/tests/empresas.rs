use scd::cnpj::{normalizar_cnpj, validar_cnpj, DadosEmpresa};
use scd::empresas::{
    achar_coluna, conferir_remocao, iniciar_importacao, normalizar_cnpj_planilha, normalizar_dados, opcional,
    progresso_da_linha, remover, remover_varias, salvar_empresa, total_de_linhas, PassoEmpresa,
};

fn dados(cnpj: &str, razao: &str) -> DadosEmpresa {
    DadosEmpresa {
        cnpj: cnpj.to_string(),
        razao_social: razao.to_string(),
        nome_fantasia: Some("  ".to_string()),
        situacao: Some(" ATIVA ".to_string()),
        municipio: None,
        uf: Some("SP".to_string()),
        telefone: None,
        email: None,
    }
}

fn linha(v: &[&str]) -> Vec<String> {
    v.iter().map(|s| s.to_string()).collect()
}

#[test]
fn normaliza_dados_da_empresa() {
    let d = normalizar_dados(dados("11.222.333/0001-81", "  ACME Ltda ")).unwrap();
    assert_eq!(d.cnpj, "11222333000181");
    assert_eq!(d.razao_social, "ACME Ltda");
    assert_eq!(d.nome_fantasia, None);
    assert_eq!(d.situacao.as_deref(), Some("ATIVA"));
    // normal form is kept as it is
    let de_novo = normalizar_dados(DadosEmpresa { ..d }).unwrap();
    assert_eq!(de_novo.cnpj, "11222333000181");
    assert_eq!(de_novo.razao_social, "ACME Ltda");
    assert_eq!(normalizar_dados(dados("11222333000181", "   ")).err().unwrap(), "Razão social não informada.");
    assert_eq!(
        normalizar_dados(dados("123", "X")).err().unwrap(),
        "CNPJ inválido — informe os 14 dígitos."
    );
}

#[test]
fn cnpj_normalizado_e_validado() {
    assert_eq!(normalizar_cnpj("11.222.333/0001-81").unwrap(), "11222333000181");
    assert_eq!(normalizar_cnpj("11222333000181").unwrap(), "11222333000181");
    assert_eq!(normalizar_cnpj("11.222.333/0001-82").unwrap_err(), "CNPJ inválido — os dígitos verificadores não conferem.");
    assert!(validar_cnpj("11222333000181"));
    assert!(!validar_cnpj("12345678000199"));
}

#[test]
fn cnpj_da_planilha_recupera_zeros() {
    assert_eq!(normalizar_cnpj_planilha("1000136").unwrap_err(), "CNPJ com 7 dígito(s) — esperado 14.");
    assert_eq!(normalizar_cnpj_planilha("123456000149").unwrap(), "00123456000149");
    assert_eq!(normalizar_cnpj_planilha("11222333000181").unwrap(), "11222333000181");
    assert_eq!(normalizar_cnpj_planilha("  ").unwrap_err(), "Linha sem CNPJ.");
    assert_eq!(
        normalizar_cnpj_planilha("11222333000182").unwrap_err(),
        "CNPJ 11222333000182 inválido (dígitos verificadores não conferem)."
    );
}

#[test]
fn colunas_pelo_cabecalho() {
    let cab = linha(&["Nome Fantasia", "CNPJ da empresa", "Razão Social"]);
    assert_eq!(achar_coluna(&cab, &vec!["cnpj"]), Some(1));
    assert_eq!(achar_coluna(&cab, &vec!["raz"]), Some(2));
    assert_eq!(achar_coluna(&cab, &vec!["fantas"]), Some(0));
    assert_eq!(achar_coluna(&cab, &vec!["cpf", "admiss"]), None);
    assert_eq!(iniciar_importacao(&linha(&["nome"])).err().unwrap(), "Planilha sem coluna de CNPJ (cabeçalho deve conter \"cnpj\").");
}

#[test]
fn importacao_linha_a_linha() {
    let cab = linha(&["CNPJ", "Razão social", "Fantasia"]);
    let mut imp = iniciar_importacao(&cab).unwrap();
    // blank row: silent
    assert!(matches!(imp.ler_linha(&linha(&["", "x"]), 1), PassoEmpresa::Proxima));
    assert!(imp.relatorio.erros.is_empty());
    // invalid CNPJ: an error of row 3
    assert!(matches!(imp.ler_linha(&linha(&["123"]), 2), PassoEmpresa::Proxima));
    assert_eq!(imp.relatorio.erros[0].linha, 3);
    // valid CNPJ with a company name: stored as given
    let l = linha(&["11222333000181", " ACME ", " Loja "]);
    let cnpj = match imp.ler_linha(&l, 3) {
        PassoEmpresa::Conferir(c) => c,
        _ => panic!("conferir"),
    };
    assert_eq!(imp.relatorio.total, 1);
    match imp.apos_conferir(&l, 3, cnpj.clone(), false) {
        PassoEmpresa::Gravar(d) => {
            assert_eq!(d.razao_social, "ACME");
            assert_eq!(d.nome_fantasia.as_deref(), Some("Loja"));
        },
        _ => panic!("gravar"),
    }
    imp.apos_gravar(3, Ok(()));
    assert_eq!(imp.relatorio.criadas, 1);
    // registered already: duplicate
    assert!(matches!(imp.apos_conferir(&l, 4, cnpj.clone(), true), PassoEmpresa::Proxima));
    assert_eq!(imp.relatorio.duplicadas, 1);
    // no company name: looked up, the second query waits
    let sem = linha(&["11222333000181"]);
    assert!(matches!(imp.apos_conferir(&sem, 5, cnpj.clone(), false), PassoEmpresa::Consultar { aguardar: false, .. }));
    assert!(matches!(imp.apos_conferir(&sem, 6, cnpj.clone(), false), PassoEmpresa::Consultar { aguardar: true, .. }));
    assert!(matches!(imp.apos_consulta(6, Err("fora do ar".into())), PassoEmpresa::Proxima));
    assert_eq!(imp.relatorio.erros.last().unwrap().motivo, "fora do ar");
    assert_eq!(imp.relatorio.erros.last().unwrap().linha, 7);
    assert_eq!(total_de_linhas(0), 0);
    assert_eq!(total_de_linhas(8), 7);
    let p = progresso_da_linha(3, 7);
    assert_eq!((p.linha, p.processadas, p.total), (4, 3, 7));
}

#[test]
fn remocao_de_empresas() {
    assert_eq!(
        conferir_remocao(true).unwrap_err(),
        "Esta empresa possui funcionários vinculados. Exclua ou mova os funcionários antes."
    );
    assert!(conferir_remocao(false).is_ok());
    assert_eq!(remover(0).unwrap_err(), "Empresa não encontrada ou já removida.");
    let r = remover_varias(&vec![(true, 0), (false, 1), (false, 0), (false, 1)]);
    assert_eq!((r.removidas, r.bloqueadas), (2, 2));
    let d = dados("11222333000181", "X");
    assert_eq!(salvar_empresa(&d, true).unwrap_err(), "A empresa com CNPJ 11222333000181 já está cadastrada.");
    assert_eq!(opcional("  a "), Some("a".to_string()));
    assert_eq!(opcional("   "), None);
}
