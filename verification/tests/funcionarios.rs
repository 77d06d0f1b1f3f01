use scd::funcionarios::{
    data_de_celula, data_iso_valida, erro_do_cadastro, excel_serial_para_data, iniciar_importacao, inserir,
    remover, validar_cpf, PassoFuncionario,
};

fn linha(v: &[&str]) -> Vec<String> {
    v.iter().map(|s| s.to_string()).collect()
}

#[test]
fn cpf_opcional_e_validado() {
    assert_eq!(validar_cpf("529.982.247-25").unwrap(), Some("52998224725".to_string()));
    assert_eq!(validar_cpf("  ").unwrap(), None);
    assert_eq!(validar_cpf("123").unwrap_err(), "CPF inválido — informe os 11 dígitos (ou deixe em branco).");
    assert_eq!(validar_cpf("52998224724").unwrap_err(), "CPF inválido — os dígitos verificadores não conferem.");
}

#[test]
fn datas_de_admissao() {
    assert!(data_iso_valida("2023-01-02"));
    assert!(!data_iso_valida("2023-02-31"));
    assert!(!data_iso_valida("2023-02-30"));
    assert!(!data_iso_valida("2023-02-29"));
    assert!(data_iso_valida("2024-02-29"));
    assert!(!data_iso_valida("2023-04-31"));
    assert!(!data_iso_valida("1899-01-02"));
    assert!(!data_iso_valida("02/01/2023"));
    assert_eq!(data_de_celula(" 02/01/2023 ", None).as_deref(), Some("2023-01-02"));
    assert_eq!(data_de_celula("2023-1-2", None).as_deref(), Some("2023-01-02"));
    assert_eq!(data_de_celula("5.3.2024", None).as_deref(), Some("2024-03-05"));
    assert_eq!(data_de_celula("13/13/2023", None), None);
    assert_eq!(data_de_celula("01/02", None), None);
    assert_eq!(data_de_celula("45000", Some(45000)).as_deref(), Some("2023-03-15"));
    assert_eq!(excel_serial_para_data(25569).as_deref(), Some("1970-01-01"));
}

#[test]
fn cadastro_de_funcionario() {
    assert_eq!(inserir("  ", "", true, Some("2023-01-02".into())).err().unwrap(), "Informe o nome do funcionário.");
    assert_eq!(
        inserir("Ana", "", false, Some("2023-01-02".into())).err().unwrap(),
        "A empresa escolhida não existe. Atualize a lista e tente de novo."
    );
    assert_eq!(inserir("Ana", "", true, Some("  ".into())).err().unwrap(), "A data de admissão é obrigatória.");
    assert_eq!(inserir("Ana", "", true, Some("2023-13-02".into())).err().unwrap(), "Data de admissão inválida: 2023-13-02.");
    let f = inserir(" Ana ", "529.982.247-25", true, Some(" 2023-01-02 ".into())).unwrap();
    assert_eq!(f.nome, "Ana");
    assert_eq!(f.cpf.as_deref(), Some("52998224725"));
    assert_eq!(f.data_admissao, "2023-01-02");
    assert_eq!(f.id.len(), 36);
    assert_eq!(erro_do_cadastro(true, "x"), "Já existe um funcionário com este CPF.");
    assert_eq!(erro_do_cadastro(false, "x"), "Falha ao cadastrar o funcionário: x");
    assert_eq!(remover(0).unwrap_err(), "Funcionário não encontrado ou já removido.");
}

#[test]
fn importacao_de_funcionarios() {
    assert_eq!(
        iniciar_importacao(&linha(&["CPF"]), None).err().unwrap(),
        "Planilha sem coluna de Nome (cabeçalho deve conter \"nome\")."
    );
    assert_eq!(
        iniciar_importacao(&linha(&["Nome"]), None).err().unwrap(),
        "Planilha sem coluna de Admissão (cabeçalho deve conter \"admissão\" ou \"admissao\")."
    );
    assert_eq!(
        iniciar_importacao(&linha(&["Nome", "Admissão"]), None).err().unwrap(),
        "Informe a empresa de destino (seletor) ou inclua uma coluna de CNPJ na planilha."
    );
    let cab = linha(&["Nome", "CPF", "Data de admissão", "CNPJ"]);
    let mut imp = iniciar_importacao(&cab, Some("emp-1".into())).unwrap();
    assert!(matches!(imp.ler_linha(&linha(&[" "]), 1, None), PassoFuncionario::Proxima));
    assert_eq!(imp.relatorio.total, 0);
    // company from the chosen one
    match imp.ler_linha(&linha(&["Ana", "", "02/01/2023", ""]), 2, None) {
        PassoFuncionario::Cadastrar { nome, empresa_id, data_admissao, .. } => {
            assert_eq!(nome, "Ana");
            assert_eq!(empresa_id, "emp-1");
            assert_eq!(data_admissao, "2023-01-02");
        },
        _ => panic!("cadastrar"),
    }
    imp.apos_cadastrar(2, Ok(()));
    assert_eq!(imp.relatorio.criados, 1);
    // company by CNPJ
    let l = linha(&["Bia", "", "2023-01-02", "11.222.333/0001-81"]);
    match imp.ler_linha(&l, 3, None) {
        PassoFuncionario::BuscarEmpresa(c) => assert_eq!(c, "11222333000181"),
        _ => panic!("buscar"),
    }
    assert!(matches!(imp.apos_buscar_empresa(&l, 3, "11222333000181", Ok(None), None), PassoFuncionario::Proxima));
    assert_eq!(
        imp.relatorio.erros[0].motivo,
        "Empresa com CNPJ 11222333000181 não está cadastrada. Cadastre-a antes."
    );
    assert_eq!(imp.relatorio.erros[0].linha, 4);
    // missing and unreadable dates
    assert!(matches!(imp.ler_linha(&linha(&["Caio", "", " ", ""]), 4, None), PassoFuncionario::Proxima));
    assert_eq!(imp.relatorio.erros[1].motivo, "Data de admissão não informada (obrigatória).");
    assert!(matches!(imp.ler_linha(&linha(&["Duda", "", "ontem", ""]), 5, None), PassoFuncionario::Proxima));
    assert_eq!(imp.relatorio.erros[2].motivo, "Data de admissão inválida: \"ontem\".");
    assert!(matches!(imp.ler_linha(&linha(&["Eva", "123", "2023-01-02", ""]), 6, None), PassoFuncionario::Proxima));
    assert_eq!(imp.relatorio.total, 5);
}
