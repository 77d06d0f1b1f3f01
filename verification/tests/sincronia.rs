use scd::sincronia::normalizar_ts_servidor;

#[test]
fn normaliza_timestamp_do_servidor() {
    assert_eq!(
        normalizar_ts_servidor("2025-05-05T12:34:56.789123+00:00").as_deref(),
        Some("2025-05-05 12:34:56")
    );
    assert_eq!(
        normalizar_ts_servidor("2025-05-05T12:34:56Z").as_deref(),
        Some("2025-05-05 12:34:56")
    );
    assert_eq!(
        normalizar_ts_servidor("2025-05-05T12:34:56+00:00").as_deref(),
        Some("2025-05-05 12:34:56")
    );
    assert_eq!(normalizar_ts_servidor("curto"), None);
}

use scd::json::ValorJson;
use scd::sincronia::{
    config_embutida, corte_valido, decidir_aplicacao, decidir_usuario, faixa_da_pagina, ler_registro_remoto,
    ler_usuario_remoto, mais_recente, ordem_de_envio, origem_da_configuracao, payload_do_registro,
    payload_do_usuario, precisa_do_vinculo, proxima_pagina, registrar_envio, registrar_recebimento,
    resposta_de_login, resposta_de_renovacao, uid_da_resposta, url_deltas, url_login, url_tabela, AcaoUsuario,
    Aplicacao, DadosRemotos, LinhaLocal, OrigemConfiguracao, ResumoSync, ConfiguracaoConexao, envio_legivel,
    pagina_recebida, texto_da_renovacao, texto_do_login, texto_do_usuario, carimbo_do_envio,
};

fn texto(s: &str) -> ValorJson {
    ValorJson::Texto(s.to_string())
}

fn objeto(campos: Vec<(&str, ValorJson)>) -> ValorJson {
    ValorJson::Objeto(campos.into_iter().map(|(k, v)| (k.to_string(), v)).collect())
}

#[test]
fn usuarios_payload_e_aplicacao_redonda() {
    let secoes = vec!["cadastro-empresa".to_string(), "ferias-a-vencer".to_string()];
    let payload = payload_do_usuario("maria", "Maria Silva", "hash-de-teste", &secoes, &None);
    let mut campos = match payload {
        ValorJson::Objeto(c) => c,
        _ => panic!("objeto"),
    };
    assert_eq!(campos[0], ("username".to_string(), texto("maria")));
    match &campos[3].1 {
        ValorJson::Lista(l) => assert_eq!(l.len(), 2),
        _ => panic!("secoes"),
    }
    // the server adds its updated_at
    campos.push(("updated_at".to_string(), texto("2026-01-01 10:00:00")));
    let u = ler_usuario_remoto(&ValorJson::Objeto(campos)).expect("usuária");
    assert_eq!(u.username, "maria");
    assert_eq!(u.nome_exibicao, "Maria Silva");
    assert_eq!(u.hash_senha, "hash-de-teste");
    assert_eq!(u.secoes, secoes);
    assert_eq!(u.removido, None);
    assert!(matches!(decidir_usuario(&u, &None), AcaoUsuario::Criar));
}

#[test]
fn deteccao_de_alteracoes_e_payload_funcionam_no_esquema_local() {
    let empresa = LinhaLocal::Empresa {
        cnpj: "12345678000199".into(),
        razao_social: "Teste".into(),
        nome_fantasia: None,
        situacao: None,
        municipio: None,
        uf: None,
        telefone: None,
        email: None,
        deleted_at: None,
    };
    match payload_do_registro("aaaaaaaa-aaaa-4aaa-8aaa-aaaaaaaaaaaa", &empresa) {
        ValorJson::Objeto(c) => {
            assert_eq!(c[2], ("razao_social".to_string(), texto("Teste")));
            assert_eq!(c[3], ("nome_fantasia".to_string(), ValorJson::Nulo));
        },
        _ => panic!("objeto"),
    }
    let funcionario = LinhaLocal::Funcionario {
        nome: "Fulano".into(),
        cpf: Some("52998224725".into()),
        data_admissao: Some("2023-01-02".into()),
        empresa_id: "aaaaaaaa-aaaa-4aaa-8aaa-aaaaaaaaaaaa".into(),
        deleted_at: None,
    };
    match payload_do_registro("bbbbbbbb-bbbb-4bbb-8bbb-bbbbbbbbbbbb", &funcionario) {
        ValorJson::Objeto(c) => assert_eq!(c[4], ("empresa_id".to_string(), texto("aaaaaaaa-aaaa-4aaa-8aaa-aaaaaaaaaaaa"))),
        _ => panic!("objeto"),
    }
    let periodo = LinhaLocal::Periodo {
        employee_id: "bbbbbbbb-bbbb-4bbb-8bbb-bbbbbbbbbbbb".into(),
        inicio: "2023-01-02".into(),
        vencimento: "2025-01-02".into(),
        regularizada: 0,
        regularizada_em: None,
        observacao: None,
        alarme_em: Some("2024-12-01".into()),
        alarme_observacao: Some("agendadas de 10/12 a 09/01".into()),
        deleted_at: None,
    };
    let enviado = payload_do_registro("cccccccc-cccc-4ccc-8ccc-cccccccccccc", &periodo);
    match &enviado {
        ValorJson::Objeto(c) => {
            assert_eq!(c.len(), 10);
            assert_eq!(c[4], ("regularizada".to_string(), ValorJson::Booleano(false)));
            assert_eq!(c[7], ("alarme_em".to_string(), texto("2024-12-01")));
            assert_eq!(c[8], ("alarme_observacao".to_string(), texto("agendadas de 10/12 a 09/01")));
        }
        _ => panic!("objeto"),
    }
    // the alarm comes back on the other machine
    let mut recebido = match enviado {
        ValorJson::Objeto(c) => c,
        _ => unreachable!(),
    };
    recebido.push(("updated_at".to_string(), texto("2025-01-01T00:00:00+00:00")));
    let reg = ler_registro_remoto("employee_leave_periods", &ValorJson::Objeto(recebido)).unwrap().unwrap();
    match reg.dados {
        DadosRemotos::Periodo { alarme_em, alarme_observacao, .. } => {
            assert_eq!(alarme_em.as_deref(), Some("2024-12-01"));
            assert_eq!(alarme_observacao.as_deref(), Some("agendadas de 10/12 a 09/01"));
        }
        _ => panic!("período"),
    }
}

#[test]
fn timestamp_com_acento_corta_pelos_bytes() {
    // 19 bytes are 18 characters here: "é" takes two bytes
    assert_eq!(normalizar_ts_servidor("  é025-05-05T12:34:5xyz").as_deref(), Some("é025-05-05 12:34:5"));
    assert!(corte_valido("2025-05-05T12:34:56"));
    // byte 19 falls inside "é": the original would panic; it is detected
    assert!(!corte_valido("2025-05-05T12:34:5é"));
    assert!(corte_valido("curto"));
}

#[test]
fn ultima_escrita_vence_e_empate_favorece_a_nuvem() {
    let reg = ler_registro_remoto(
        "companies",
        &objeto(vec![
            ("id", texto("e1")),
            ("cnpj", texto("11222333000181")),
            ("razao_social", texto("Nuvem")),
            ("updated_at", texto("2025-05-05T12:00:00+00:00")),
        ]),
    )
    .unwrap()
    .unwrap();
    assert_eq!(reg.atualizado_em, "2025-05-05 12:00:00");
    assert_eq!(reg.criado_em, "2025-05-05 12:00:00");
    assert!(matches!(reg.dados, DadosRemotos::Empresa { .. }));
    assert!(matches!(decidir_aplicacao(&reg, &None, false), Aplicacao::Inserir));
    assert!(matches!(decidir_aplicacao(&reg, &Some("2025-05-05 12:00:00".into()), true), Aplicacao::Atualizar));
    assert!(matches!(decidir_aplicacao(&reg, &Some("2025-05-05 11:59:59".into()), true), Aplicacao::Atualizar));
    assert!(matches!(decidir_aplicacao(&reg, &Some("2025-05-05 12:00:01".into()), true), Aplicacao::Manter));
}

#[test]
fn funcionario_sem_empresa_aguarda() {
    let reg = ler_registro_remoto(
        "employees",
        &objeto(vec![
            ("id", texto("f1")),
            ("nome", texto("Ana")),
            ("empresa_id", texto("e9")),
            ("updated_at", texto("2025-05-05 12:00:00")),
            ("created_at", texto("2025-01-01T08:00:00Z")),
        ]),
    )
    .unwrap()
    .unwrap();
    assert_eq!(reg.criado_em, "2025-01-01 08:00:00");
    assert!(precisa_do_vinculo(&reg, &None));
    match decidir_aplicacao(&reg, &None, false) {
        Aplicacao::Aguardar(m) => {
            assert_eq!(m, "Funcionário f1 aguarda a empresa de origem na próxima sincronização.")
        },
        _ => panic!("deveria aguardar"),
    }
    assert!(matches!(decidir_aplicacao(&reg, &None, true), Aplicacao::Inserir));
}

#[test]
fn registro_remoto_ignorado_ou_recusado() {
    assert!(ler_registro_remoto("companies", &texto("x")).unwrap().is_none());
    assert!(ler_registro_remoto("companies", &objeto(vec![("id", texto("e1"))])).unwrap().is_none());
    let erro = ler_registro_remoto(
        "outra",
        &objeto(vec![("id", texto("e1")), ("updated_at", texto("2025-05-05 12:00:00"))]),
    )
    .err()
    .unwrap();
    assert_eq!(erro, "Tabela não sincronizável: outra");
}

#[test]
fn superusuario_removido_na_nuvem_e_ignorado() {
    let u = objeto(vec![
        ("username", texto("fernando")),
        ("updated_at", texto("2025-05-05 12:00:00")),
        ("deleted_at", texto("2025-05-05 12:00:00")),
    ]);
    assert!(ler_usuario_remoto(&u).is_none());
    let u = objeto(vec![
        ("username", texto("ana")),
        ("updated_at", texto("2025-05-05 12:00:00")),
        ("deleted_at", texto("2025-05-05 12:00:00")),
    ]);
    let u = ler_usuario_remoto(&u).unwrap();
    assert!(matches!(decidir_usuario(&u, &None), AcaoUsuario::Ignorar));
    match decidir_usuario(&u, &Some((7, Some("2025-01-01 00:00:00".into())))) {
        AcaoUsuario::Atualizar { id, encerrar_sessoes } => {
            assert_eq!(id, 7);
            assert!(encerrar_sessoes);
        },
        _ => panic!("deveria atualizar"),
    }
    assert!(matches!(decidir_usuario(&u, &Some((7, Some("2026-01-01 00:00:00".into())))), AcaoUsuario::Ignorar));
}

#[test]
fn remocoes_vao_de_filho_para_pai() {
    let alteracoes = vec![
        ("users".to_string(), "u1".to_string(), true),
        ("companies".to_string(), "c1".to_string(), true),
        ("companies".to_string(), "c2".to_string(), false),
        ("employees".to_string(), "f1".to_string(), true),
        ("employee_leave_periods".to_string(), "p1".to_string(), true),
        ("employees".to_string(), "f2".to_string(), false),
    ];
    let (gravar, remover) = ordem_de_envio(&alteracoes);
    let ids = |v: &Vec<(String, String)>| v.iter().map(|p| p.1.clone()).collect::<Vec<_>>();
    assert_eq!(ids(&gravar), vec!["c2", "f2"]);
    assert_eq!(ids(&remover), vec!["u1", "p1", "f1", "c1"]);
}

#[test]
fn marcadores_andam_para_o_mais_recente() {
    let mut resumo = ResumoSync { enviados: 0, recebidos: 0, avisos: Vec::new() };
    let mut enviado = String::new();
    registrar_envio(&mut resumo, &mut enviado, "companies", "c1", Ok(Some("2025-05-05 10:00:00".into())));
    registrar_envio(&mut resumo, &mut enviado, "companies", "c2", Ok(Some("2025-05-05 09:00:00".into())));
    registrar_envio(&mut resumo, &mut enviado, "companies", "c3", Ok(None));
    registrar_envio(&mut resumo, &mut enviado, "companies", "c4", Err("recusado".into()));
    assert_eq!(enviado, "2025-05-05 10:00:00");
    assert_eq!(resumo.enviados, 3);
    assert_eq!(resumo.avisos, vec!["Não foi possível enviar companies/c4: recusado"]);

    let mut puxado = "2025-05-05 10:00:00".to_string();
    let remoto = objeto(vec![("updated_at", texto("2025-05-06T00:00:00Z"))]);
    registrar_recebimento(&mut resumo, &mut puxado, &remoto, Ok(true));
    registrar_recebimento(&mut resumo, &mut puxado, &remoto, Err("falhou".into()));
    assert_eq!(puxado, "2025-05-06 00:00:00");
    assert_eq!(resumo.recebidos, 1);
    assert_eq!(resumo.avisos.len(), 2);
    assert_eq!(mais_recente("2025-01-01", "2024-12-31"), "2025-01-01");
}

#[test]
fn enderecos_da_nuvem() {
    assert_eq!(url_login("https://x.supabase.co//"), "https://x.supabase.co/auth/v1/token?grant_type=password");
    assert_eq!(url_tabela("https://x.supabase.co/", "companies"), "https://x.supabase.co/rest/v1/companies");
    assert_eq!(
        url_deltas("https://x", "employees", "u1", "2025-05-05 12:00:00"),
        "https://x/rest/v1/employees?select=*&owner_id=eq.u1&updated_at=gt.2025-05-05%2012:00:00&order=updated_at.asc"
    );
    assert_eq!(url_deltas("https://x", "users", "u1", "  "), "https://x/rest/v1/users?select=*&owner_id=eq.u1&order=updated_at.asc");
    assert_eq!(faixa_da_pagina(500), "500-999");
    assert_eq!(proxima_pagina(0, 500), Some(500));
    assert_eq!(proxima_pagina(500, 12), None);
}

#[test]
fn respostas_da_autenticacao() {
    let ok = r#"{"access_token": "a", "refresh_token": "r", "expires_in": 3600}"#;
    assert_eq!(resposta_de_login(ok).unwrap(), ("a".to_string(), "r".to_string()));
    let recusa = r#"{"error_description": "Invalid login credentials"}"#;
    assert_eq!(resposta_de_login(recusa).unwrap_err(), "Falha ao entrar na conta da nuvem: Invalid login credentials");
    assert_eq!(resposta_de_login(r#"{"msg": "bloqueado"}"#).unwrap_err(), "Falha ao entrar na conta da nuvem: bloqueado");
    assert_eq!(resposta_de_login("null").unwrap_err(), "Falha ao entrar na conta da nuvem: credenciais inválidas");
    assert!(resposta_de_login("<html>").unwrap_err().starts_with("Resposta inválida do Supabase: "));
    assert_eq!(
        resposta_de_renovacao(recusa).unwrap_err(),
        "A sessão da nuvem expirou. Entre novamente com e-mail e senha."
    );
    assert_eq!(uid_da_resposta(r#"{"id": "u-1", "email": "a@b"}"#).unwrap(), "u-1");
    assert_eq!(
        uid_da_resposta(ok).unwrap_err(),
        "Sessão da nuvem inválida. Entre novamente com e-mail e senha."
    );
}

#[test]
fn textos_enviados_e_respostas_lidas() {
    let cfg = ConfiguracaoConexao {
        projeto_url: "https://x".into(),
        anon_key: "k".into(),
        email: " a@b ".into(),
        senha: "s\"1".into(),
    };
    assert_eq!(texto_do_login(&cfg), r#"{"email":"a@b","password":"s\"1"}"#);
    assert_eq!(texto_da_renovacao("rt"), r#"{"refresh_token":"rt"}"#);
    let usuario = texto_do_usuario("maria", "Maria", "h", &vec!["b".to_string(), "a".to_string()], &None);
    assert_eq!(usuario, r#"{"deleted_at":null,"display_name":"Maria","password_hash":"h","secoes":["b","a"],"username":"maria"}"#);
    // the answer to a send stamps the row with the server's time, in UTC
    let resposta = r#"[{"id": "e1", "updated_at": "2025-05-05T09:00:00-03:00"}]"#;
    assert!(envio_legivel(resposta));
    assert_eq!(carimbo_do_envio(resposta), Some(Some("2025-05-05 12:00:00".to_string())));
    assert_eq!(carimbo_do_envio("não é json"), Some(None));
    assert_eq!(carimbo_do_envio("[]"), Some(None));
    // byte 19 falls inside "é": no cut
    assert_eq!(carimbo_do_envio(r#"[{"updated_at": "2025-05-05T12:34:5é"}]"#), None);
    // a page of changes
    let pagina = pagina_recebida("companies", r#"[{"id": "e1"}, {"id": "e2"}]"#).unwrap();
    assert_eq!(pagina.len(), 2);
    assert!(pagina_recebida("companies", "  ").unwrap().is_empty());
    assert!(pagina_recebida("companies", "{}").unwrap_err().starts_with("Resposta inválida de companies: "));
    assert!(pagina_recebida("companies", "[").unwrap_err().starts_with("Resposta inválida de companies: "));
}

#[test]
fn configuracao_completa_ou_nenhuma() {
    let c = config_embutida(Some(" https://x "), Some("k"), Some("a@b"), Some("s")).unwrap();
    assert_eq!(c.projeto_url, "https://x");
    assert!(config_embutida(Some("https://x"), Some("  "), Some("a@b"), Some("s")).is_none());
    assert!(config_embutida(None, Some("k"), Some("a@b"), Some("s")).is_none());
    assert!(matches!(origem_da_configuracao(&Some("u".into()), &Some("k".into()), None, None), OrigemConfiguracao::Salva));
    match origem_da_configuracao(&Some("u".into()), &None, None, None) {
        OrigemConfiguracao::Desconectada(m) => {
            assert_eq!(m, "A conta da nuvem não está conectada. Conecte-a na tela de Sincronização.")
        },
        _ => panic!("deveria estar desconectada"),
    }
    assert!(matches!(origem_da_configuracao(&None, &None, None, Some(c)), OrigemConfiguracao::Conectar(_)));
}

#[test]
fn timestamp_com_fuso_vira_utc() {
    assert_eq!(normalizar_ts_servidor("2025-05-05T09:34:56-03:00").as_deref(), Some("2025-05-05 12:34:56"));
    assert_eq!(normalizar_ts_servidor("2025-05-05T12:34:56.789-03:00").as_deref(), Some("2025-05-05 15:34:56"));
    assert_eq!(normalizar_ts_servidor("2025-05-05T23:30:00-0300").as_deref(), Some("2025-05-06 02:30:00"));
    assert_eq!(normalizar_ts_servidor("2025-03-01T01:00:00+02").as_deref(), Some("2025-02-28 23:00:00"));
    assert_eq!(normalizar_ts_servidor("2024-12-31T22:00:00.5-05:00").as_deref(), Some("2025-01-01 03:00:00"));
    assert_eq!(normalizar_ts_servidor("2024-03-01T00:15:00+00:30").as_deref(), Some("2024-02-29 23:45:00"));
}
