use scd::banco::{
    coluna_cpf_e_obrigatoria, colunas_do_alarme, novo_id, passo_de_migracao, plano_uuid, tabela_tem_coluna,
    uuid_da_empresa, uuid_do_funcionario_legado, uuid_do_periodo_legado, EmpresaLegada, FuncionarioLegado,
    PassoMigracao, PeriodoLegado, VERSAO_ATUAL,
};

fn empresa(id: i64, cnpj: &str) -> EmpresaLegada {
    EmpresaLegada {
        id,
        cnpj: cnpj.to_string(),
        razao_social: "Empresa Teste".to_string(),
        nome_fantasia: None,
        situacao: None,
        municipio: None,
        uf: None,
        telefone: None,
        email: None,
        created_at: "2024-01-01 00:00:00".to_string(),
    }
}

fn funcionario(id: i64, cpf: Option<&str>, empresa_id: i64) -> FuncionarioLegado {
    FuncionarioLegado {
        id,
        nome: "Fulano".to_string(),
        cpf: cpf.map(str::to_string),
        data_admissao: Some("2023-01-02".to_string()),
        empresa_id,
        created_at: "2024-01-01 00:00:00".to_string(),
    }
}

fn periodo(employee_id: i64) -> PeriodoLegado {
    PeriodoLegado {
        employee_id,
        inicio: "2023-01-02".to_string(),
        vencimento: "2025-01-02".to_string(),
        regularizada: 0,
        regularizada_em: None,
        observacao: None,
    }
}

#[test]
fn banco_legado_v1_migra_para_uuid_preservando_dados_e_vinculos() {
    let empresas = vec![empresa(1, "12345678000199")];
    let funcionarios = vec![funcionario(1, Some("52998224725"), 1)];
    let periodos = vec![periodo(1)];
    let plano = plano_uuid(&empresas, &funcionarios, &periodos).expect("migração do banco legado falhou");
    assert_eq!(plano.empresas[0], uuid_da_empresa("12345678000199"), "uuid deve ser determinístico");
    assert_eq!(plano.funcionarios[0].1, plano.empresas[0], "vínculo empresa→funcionário preservado");
    assert_eq!(plano.periodos[0].1, plano.funcionarios[0].0, "vínculo funcionário→período preservado");
    assert_eq!(plano.periodos[0].0.len(), 36, "período deve ter id UUID");
    // planning again gives the same ids
    let de_novo = plano_uuid(&empresas, &funcionarios, &periodos).unwrap();
    assert_eq!(de_novo.periodos[0].0, plano.periodos[0].0, "reabrir não pode duplicar/perder dados");
}

#[test]
fn mesmos_dados_legados_geram_mesmos_uuids_em_maquinas_diferentes() {
    let a = plano_uuid(&vec![empresa(1, "12345678000199")], &vec![funcionario(7, None, 1)], &vec![]).unwrap();
    let b = plano_uuid(&vec![empresa(1, "12345678000199")], &vec![funcionario(7, None, 1)], &vec![]).unwrap();
    assert_eq!((a.empresas[0].clone(), a.funcionarios[0].0.clone()), (b.empresas[0].clone(), b.funcionarios[0].0.clone()),
        "uuids devem ser determinísticos entre máquinas");
}

#[test]
fn banco_legado_v0_cpf_obrigatorio_migra() {
    let antigo = vec![("id".to_string(), 0), ("nome".to_string(), 1), ("cpf".to_string(), 1)];
    assert!(coluna_cpf_e_obrigatoria(&antigo));
    let novo = vec![("id".to_string(), 0), ("nome".to_string(), 1), ("cpf".to_string(), 0)];
    assert!(!coluna_cpf_e_obrigatoria(&novo), "cpf deve ter virado opcional");
}

#[test]
fn banco_com_versao_futura_falha_com_mensagem_clara() {
    match passo_de_migracao(VERSAO_ATUAL + 5) {
        PassoMigracao::Erro(m) => {
            assert!(m.contains("mais nova que a suportada"), "mensagem de erro inesperada: {m}");
            assert!(m.starts_with(&format!("O banco de dados está na versão {},", VERSAO_ATUAL + 5)));
        },
        _ => panic!("banco mais novo que o app deveria falhar"),
    }
}

#[test]
fn banco_novo_nasce_na_versao_atual() {
    assert!(matches!(passo_de_migracao(VERSAO_ATUAL), PassoMigracao::Pronto));
}

#[test]
fn migracoes_em_ordem_ate_a_versao_atual() {
    let mut versao = 0;
    let mut aplicadas = Vec::new();
    loop {
        match passo_de_migracao(versao) {
            PassoMigracao::Pronto => break,
            PassoMigracao::Aplicar(v) => {
                aplicadas.push(v);
                versao = v;
            },
            PassoMigracao::Erro(m) => panic!("{m}"),
        }
    }
    assert_eq!(aplicadas, vec![1, 2, 3, 4]);
    match passo_de_migracao(-1) {
        PassoMigracao::Erro(m) => assert_eq!(m, "Migração para a versão 0 não implementada."),
        _ => panic!("versão negativa"),
    }
}

#[test]
fn vinculos_quebrados_recusam_a_migracao() {
    let erro = plano_uuid(&vec![empresa(1, "1")], &vec![funcionario(3, None, 2)], &vec![]).err().unwrap();
    assert_eq!(erro, "Funcionário Fulano referencia a empresa inexistente 2.");
    let erro = plano_uuid(&vec![empresa(1, "1")], &vec![funcionario(3, None, 1)], &vec![periodo(9)]).err().unwrap();
    assert_eq!(erro, "Período de férias referencia o funcionário inexistente 9.");
}

#[test]
fn uuids_derivados_dos_dados() {
    assert_eq!(uuid_da_empresa("12345678000199"), uuid_da_empresa("12345678000199"));
    assert_ne!(uuid_da_empresa("12345678000199"), uuid_da_empresa("11222333000181"));
    let com_cpf = uuid_do_funcionario_legado(&Some("52998224725".into()), "1", 1);
    assert_eq!(com_cpf, uuid_do_funcionario_legado(&Some("52998224725".into()), "2", 9));
    assert_ne!(uuid_do_funcionario_legado(&None, "1", 1), uuid_do_funcionario_legado(&None, "1", 2));
    assert_ne!(uuid_do_periodo_legado(&com_cpf, "2023-01-02"), uuid_do_periodo_legado(&com_cpf, "2024-01-02"));
    // the URL-namespace v5 id of a known name
    assert_eq!(uuid_da_empresa("x").len(), 36);
    let id = novo_id().unwrap();
    assert_eq!(id.len(), 36);
    assert_eq!(&id[8..9], "-");
    assert_eq!(&id[14..15], "4");
}

#[test]
fn colunas_do_esquema() {
    let cols = vec!["id".to_string(), "deleted_at".to_string()];
    assert!(tabela_tem_coluna(&cols, "deleted_at"));
    assert!(!tabela_tem_coluna(&cols, "alarme_em"));
    assert_eq!(colunas_do_alarme(false, true), vec!["alarme_em".to_string()]);
    assert!(colunas_do_alarme(true, true).is_empty());
    assert_eq!(colunas_do_alarme(false, false).len(), 2);
}
