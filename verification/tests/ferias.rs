use scd::ferias::{
    definir_alarme, definir_alerta_dias, gerar_periodos_do_funcionario, listar_a_vencer, listar_notificacoes,
    listar_periodos_do_funcionario, listar_vencidas, novo_periodo, periodos_a_criar, obter_alerta_dias, regularizar, remover_alarme,
    Agora, RegistroPeriodo,
};

const HOJE: &str = "2025-06-15";
const FUNC_ID: &str = "bbbbbbbb-bbbb-4bbb-8bbb-bbbbbbbbbbbb";

fn agora() -> Agora {
    Agora { hoje: HOJE.to_string(), fracao_positiva: true }
}

/// A period of the test employee; `vencimento` is its due date, the start
/// 24 months before.
fn periodo(id: &str, inicio: &str, vencimento: &str) -> RegistroPeriodo {
    RegistroPeriodo {
        id: id.to_string(),
        funcionario_id: FUNC_ID.to_string(),
        funcionario_nome: "Fulano".to_string(),
        empresa_nome: "Empresa Teste".to_string(),
        inicio: inicio.to_string(),
        vencimento: vencimento.to_string(),
        regularizada: false,
        observacao: None,
        alarme_em: None,
        alarme_observacao: None,
        periodo_ativo: true,
        funcionario_ativo: true,
        empresa_ativa: true,
    }
}

/// Applies `definir_alarme` to the stored row, as the caller does.
fn agendar(r: &mut RegistroPeriodo, data: &str, obs: Option<String>) -> Result<(), String> {
    let p = if r.periodo_ativo { Some((r.vencimento.clone(), r.regularizada)) } else { None };
    let (data, nota) = definir_alarme(data, obs, &p, HOJE)?;
    r.alarme_em = Some(data);
    r.alarme_observacao = nota;
    Ok(())
}

#[test]
fn alarme_traz_periodo_fora_da_janela_automatica_e_avisa_na_data() {
    const PERIODO: &str = "cccccccc-cccc-4ccc-8ccc-cccccccccccc";
    // Due in 18 months: the automatic window only starts in 6 months.
    let mut regs = vec![periodo(PERIODO, "2024-12-15", "2026-12-15")];
    assert!(listar_a_vencer(&regs, &agora(), 15).is_empty(), "sem alarme, o período ainda não deve aparecer");
    assert!(listar_notificacoes(&regs, &agora(), 15).is_empty());

    // Alarm in 5 days: the period is listed at once, scheduled, outside the
    // automatic window, and nothing is notified yet.
    let aviso = "2025-06-20";
    agendar(&mut regs[0], aviso, Some("gozo de 10/03 a 05/04".into())).unwrap();
    let lista = listar_a_vencer(&regs, &agora(), 15);
    assert_eq!(lista.len(), 1, "o período agendado deve aparecer na lista");
    let item = &lista[0];
    assert!(item.agendado, "deve estar marcado como agendado");
    assert!(!item.na_janela_automatica, "ainda fora da janela automática");
    assert_eq!(item.alarme_em.as_deref(), Some(aviso));
    assert_eq!(item.alarme_observacao.as_deref(), Some("gozo de 10/03 a 05/04"));
    assert_eq!(item.dias_para_alarme, Some(5));
    assert!(!item.alarme_disparado, "o aviso ainda não chegou");
    assert!(listar_notificacoes(&regs, &agora(), 15).is_empty(), "antes da data do alarme não há notificação");

    // On the chosen day the warning becomes a scheduling notification.
    agendar(&mut regs[0], HOJE, Some("gozo de 10/03 a 05/04".into())).unwrap();
    let avisos = listar_notificacoes(&regs, &agora(), 15);
    assert_eq!(avisos.len(), 1);
    assert_eq!(avisos[0].tipo, "alarme");
    assert_eq!(avisos[0].id, format!("g-{PERIODO}"));
    assert!(avisos[0].mensagem.contains("Fulano"));
    assert!(avisos[0].mensagem.contains("aviso agendado"));

    // Removing the alarm gives the period back to the automatic rule.
    remover_alarme(1).unwrap();
    regs[0].alarme_em = None;
    regs[0].alarme_observacao = None;
    assert!(listar_a_vencer(&regs, &agora(), 15).is_empty());
    assert!(listar_notificacoes(&regs, &agora(), 15).is_empty());
}

#[test]
fn alerta_automatico_continua_valendo_para_os_periodos_sem_alarme() {
    const COM_ALARME: &str = "cccccccc-cccc-4ccc-8ccc-cccccccccccc";
    const SEM_ALARME: &str = "dddddddd-dddd-4ddd-8ddd-dddddddddddd";
    // Without an alarm, inside the window and the 15-day warning.
    let sem = periodo(SEM_ALARME, "2023-06-15", "2025-06-25");
    // With an alarm, well before the automatic window.
    let mut com = periodo(COM_ALARME, "2024-12-15", "2026-12-15");
    agendar(&mut com, HOJE, None).unwrap();
    let mut regs = vec![sem, com];

    let avisos = listar_notificacoes(&regs, &agora(), 15);
    assert_eq!(avisos.len(), 2, "os dois períodos devem avisar");
    assert_eq!(avisos[0].tipo, "alarme", "agendamento vem antes do prazo");
    assert_eq!(avisos[0].id, format!("g-{COM_ALARME}"));
    assert_eq!(avisos[1].tipo, "alerta", "alerta automático segue valendo");
    assert_eq!(avisos[1].id, format!("a-{SEM_ALARME}"));

    // Scheduling the period that was in the automatic warning: one warning.
    agendar(&mut regs[0], HOJE, None).unwrap();
    let avisos = listar_notificacoes(&regs, &agora(), 15);
    assert_eq!(avisos.len(), 2);
    assert!(avisos.iter().all(|n| n.tipo == "alarme"), "sem duplicidade");
    assert!(
        !avisos.iter().any(|n| n.id == format!("a-{SEM_ALARME}")),
        "o alerta automático do período agendado não deve aparecer duas vezes"
    );
}

#[test]
fn definir_alarme_recusa_data_invalida_passado_periodo_vencido_ou_regularizado() {
    let a_vencer = periodo("cccccccc-cccc-4ccc-8ccc-cccccccccccc", "2024-12-15", "2026-12-15");
    let vencido = periodo("dddddddd-dddd-4ddd-8ddd-dddddddddddd", "2023-05-15", "2025-05-15");
    let mut regularizado = periodo("eeeeeeee-eeee-4eee-8eee-eeeeeeeeeeee", "2025-01-15", "2027-01-15");
    regularizado.regularizada = true;
    let de = |r: &RegistroPeriodo| Some((r.vencimento.clone(), r.regularizada));

    let erro = definir_alarme("31/12/2026", None, &de(&a_vencer), HOJE).unwrap_err();
    assert!(erro.contains("inválida"), "mensagem inesperada: {erro}");

    let erro = definir_alarme("2025-06-14", None, &de(&a_vencer), HOJE).unwrap_err();
    assert!(erro.contains("passado"), "mensagem inesperada: {erro}");

    let erro = definir_alarme("2025-06-16", None, &de(&vencido), HOJE).unwrap_err();
    assert!(erro.contains("já venceu"), "mensagem inesperada: {erro}");

    let erro = definir_alarme("2025-06-16", None, &de(&regularizado), HOJE).unwrap_err();
    assert!(erro.contains("regularizado"), "mensagem inesperada: {erro}");

    let erro = definir_alarme("2025-06-16", None, &None, HOJE).unwrap_err();
    assert!(erro.contains("não encontrado"), "mensagem inesperada: {erro}");

    // Today is accepted (an alarm that fires at once).
    assert!(definir_alarme(HOJE, None, &de(&a_vencer), HOJE).is_ok());
}

#[test]
fn alarme_pode_ser_substituido_e_atualiza_o_updated_at() {
    let mut r = periodo("cccccccc-cccc-4ccc-8ccc-cccccccccccc", "2024-12-15", "2026-12-15");

    // A blank note is stored as none.
    agendar(&mut r, "2025-06-18", Some("   ".to_string())).unwrap();
    assert_eq!(r.alarme_em.as_deref(), Some("2025-06-18"));
    assert_eq!(r.alarme_observacao, None, "observação em branco deve virar NULL");

    // Setting it again replaces date and note.
    agendar(&mut r, "2025-07-15", Some("gozo de 10/04 a 05/05".into())).unwrap();
    assert_eq!(r.alarme_em.as_deref(), Some("2025-07-15"));
    assert_eq!(r.alarme_observacao.as_deref(), Some("gozo de 10/04 a 05/05"));

    // Removing, once or twice, works while the period exists.
    assert!(remover_alarme(1).is_ok());
    assert!(remover_alarme(1).is_ok());
}

#[test]
fn periodos_do_funcionario_trazem_apenas_os_agendaveis() {
    const A_VENCER: &str = "cccccccc-cccc-4ccc-8ccc-cccccccccccc";
    let mut regs = vec![
        periodo(A_VENCER, "2024-12-15", "2026-12-15"),
        periodo("dddddddd-dddd-4ddd-8ddd-dddddddddddd", "2023-05-15", "2025-05-15"),
    ];
    let periodos = listar_periodos_do_funcionario(&regs, FUNC_ID, &agora());
    assert_eq!(periodos.len(), 1, "apenas o período a vencer é agendável");
    assert_eq!(periodos[0].id, A_VENCER);
    assert!(periodos[0].dias_restantes > 0);
    assert_eq!(periodos[0].alarme_em, None);

    regs[0].regularizada = true;
    assert!(listar_periodos_do_funcionario(&regs, FUNC_ID, &agora()).is_empty());
    assert!(listar_periodos_do_funcionario(&regs, "id-inexistente", &agora()).is_empty());
}

// ───────── own cases ─────────

#[test]
fn vencida_conta_os_dias_desde_o_vencimento() {
    let regs = vec![periodo("p1", "2023-05-15", "2025-05-15")];
    let v = listar_vencidas(&regs, &agora());
    assert_eq!(v.len(), 1);
    assert_eq!(v[0].dias_vencidas, 31);
    // never both overdue and due soon
    assert!(listar_a_vencer(&regs, &agora(), 15).is_empty());
    let n = listar_notificacoes(&regs, &agora(), 15);
    assert_eq!(n.len(), 1);
    assert_eq!(n[0].id, "v-p1");
    assert_eq!(n[0].mensagem, "Fulano (Empresa Teste) — vencidas há 31 dia(s) (prazo 15/05/2025)");
}

#[test]
fn alerta_automatico_conta_os_dias_restantes() {
    let regs = vec![periodo("p2", "2023-06-15", "2025-06-25")];
    let lista = listar_a_vencer(&regs, &agora(), 15);
    assert_eq!(lista.len(), 1);
    // 10 days to go, the current day already begun
    assert_eq!(lista[0].dias_restantes, 9);
    assert!(lista[0].dentro_alerta);
    assert!(lista[0].na_janela_automatica);
    let n = listar_notificacoes(&regs, &agora(), 15);
    assert_eq!(n[0].mensagem, "Fulano (Empresa Teste) — vencem em 9 dias (25/06/2025)");
    // outside the 5-day warning: listed, not notified
    assert!(listar_notificacoes(&regs, &agora(), 5).is_empty());
}

#[test]
fn periodos_inativos_nao_aparecem() {
    let mut r = periodo("p3", "2023-05-15", "2025-05-15");
    r.empresa_ativa = false;
    assert!(listar_vencidas(&vec![r], &agora()).is_empty());
}

#[test]
fn alerta_configurado_le_o_numero_ou_usa_15() {
    assert_eq!(obter_alerta_dias(&None), 15);
    assert_eq!(obter_alerta_dias(&Some("30".to_string())), 30);
    assert_eq!(obter_alerta_dias(&Some("abc".to_string())), 15);
    assert_eq!(obter_alerta_dias(&Some("-7".to_string())), -7);
    assert_eq!(definir_alerta_dias(0), "1");
    assert_eq!(definir_alerta_dias(1000), "365");
    assert_eq!(definir_alerta_dias(45), "45");
}

#[test]
fn regularizar_e_remover_sem_periodo_falham() {
    assert_eq!(regularizar(0).unwrap_err(), "Período de férias não encontrado.");
    assert_eq!(remover_alarme(0).unwrap_err(), "Período de férias não encontrado.");
    assert!(regularizar(1).is_ok());
}

#[test]
fn periodos_gerados_um_por_ano_ate_hoje() {
    let r = gerar_periodos_do_funcionario(" 2022-02-28 ", HOJE);
    assert_eq!(r, vec!["2022-02-28", "2023-02-28", "2024-02-28", "2025-02-28"]);
    // a day clipped to the end of the month stays clipped
    let r = gerar_periodos_do_funcionario("2020-02-29", "2022-03-01");
    assert_eq!(r, vec!["2020-02-29", "2021-02-28", "2022-02-28"]);
    // the anniversary itself counts (inclusive)
    let r = gerar_periodos_do_funcionario("2024-06-15", HOJE);
    assert_eq!(r, vec!["2024-06-15", "2025-06-15"]);
    // future or invalid hiring dates give nothing
    assert!(gerar_periodos_do_funcionario("2025-06-16", HOJE).is_empty());
    assert!(gerar_periodos_do_funcionario("2025-02-30", HOJE).is_empty());
    assert!(gerar_periodos_do_funcionario("", HOJE).is_empty());
    // a non-padded date is read, the following ones are written padded
    let r = gerar_periodos_do_funcionario("2024-1-5", HOJE);
    assert_eq!(r, vec!["2024-1-5", "2025-01-05"]);
}

#[test]
fn novo_periodo_vence_24_meses_depois() {
    let p = novo_periodo("2024-02-29").unwrap();
    assert_eq!(p.inicio, "2024-02-29");
    assert_eq!(p.vencimento, "2026-02-28");
    assert_eq!(p.id.len(), 36);
    assert_ne!(p.id, novo_periodo("2024-02-29").unwrap().id);
}

#[test]
fn listas_saem_por_vencimento() {
    let regs = vec![
        periodo("p3", "2023-09-01", "2025-09-01"),
        periodo("p1", "2022-01-10", "2024-01-10"),
        periodo("p4", "2023-07-01", "2025-07-01"),
        periodo("p2", "2023-01-10", "2025-01-10"),
        periodo("p5", "2023-07-01", "2025-07-01"),
    ];
    let vencidas: Vec<String> = listar_vencidas(&regs, &agora()).into_iter().map(|v| v.id).collect();
    assert_eq!(vencidas, vec!["p1", "p2"]);
    let a_vencer: Vec<String> = listar_a_vencer(&regs, &agora(), 15).into_iter().map(|v| v.id).collect();
    // rows due the same day keep their order
    assert_eq!(a_vencer, vec!["p4", "p5", "p3"]);
    let periodos: Vec<String> =
        listar_periodos_do_funcionario(&regs, FUNC_ID, &agora()).into_iter().map(|v| v.id).collect();
    assert_eq!(periodos, vec!["p4", "p5", "p3"]);
}

#[test]
fn so_os_periodos_que_faltam_sao_criados() {
    let devidos = gerar_periodos_do_funcionario("2022-03-10", HOJE);
    assert_eq!(devidos, vec!["2022-03-10", "2023-03-10", "2024-03-10", "2025-03-10"]);
    let existentes = vec!["2023-03-10".to_string()];
    let criar = periodos_a_criar(&devidos, &existentes);
    assert_eq!(criar, vec!["2022-03-10", "2024-03-10", "2025-03-10"]);
    let mut todos = existentes.clone();
    todos.extend(criar);
    assert!(periodos_a_criar(&devidos, &todos).is_empty());
}
