use scd::avisos::{
    acao_notificacao, escrever_memoria, intervalo_de_reenvio, ler_memoria, lembrar, secao_da_notificacao,
    tempo_lembrado, verificar_notificacoes_os, AcaoNotificacao, DecisaoNotificacao,
};
use scd::ferias::Notificacao;

fn notificacao(id: &str, tipo: &str) -> Notificacao {
    Notificacao { id: id.to_string(), tipo: tipo.to_string(), titulo: "t".to_string(), mensagem: "m".to_string() }
}

#[test]
fn memoria_le_o_que_escreve() {
    let mut m = ler_memoria("");
    assert!(m.is_empty());
    lembrar(&mut m, "v-1", 100);
    lembrar(&mut m, "a-2", 200);
    lembrar(&mut m, "v-1", 300);
    let texto = escrever_memoria(&m);
    assert_eq!(texto, "v-1=300;a-2=200");
    let relida = ler_memoria(&texto);
    assert_eq!(tempo_lembrado(&relida, "v-1"), Some(300));
    assert_eq!(tempo_lembrado(&relida, "a-2"), Some(200));
    assert_eq!(tempo_lembrado(&relida, "g-3"), None);
}

#[test]
fn memoria_ignora_pecas_ruins_e_a_ultima_vence() {
    let m = ler_memoria(";x;y=;z=abc;v-1=5;;v-1=7;=9;a=1=2");
    assert_eq!(tempo_lembrado(&m, "v-1"), Some(7));
    assert_eq!(tempo_lembrado(&m, ""), Some(9));
    assert_eq!(tempo_lembrado(&m, "x"), None);
    assert_eq!(tempo_lembrado(&m, "y"), None);
    assert_eq!(tempo_lembrado(&m, "a"), None);
    assert_eq!(m.len(), 2);
}

#[test]
fn janela_abre_na_primeira_checagem_e_respeita_o_intervalo() {
    let atuais = vec![notificacao("v-1", "vencida"), notificacao("a-2", "alerta")];
    let memoria = Some("v-1=1000;a-2=1000".to_string());
    // first check of the run: opens for the first one whatever the memory
    let (ja, d) = verificar_notificacoes_os(false, &None, "2025-06-15", false, &atuais, &memoria, 1100);
    assert!(ja);
    match d {
        DecisaoNotificacao::Abrir { pendencia, memoria } => {
            assert_eq!(pendencia.id, "v-1");
            assert_eq!(pendencia.secao, "cadastro-ferias-vencidas");
            let m = ler_memoria(&memoria);
            assert_eq!(tempo_lembrado(&m, "v-1"), Some(1100));
            assert_eq!(tempo_lembrado(&m, "a-2"), Some(1000));
        },
        _ => panic!("deveria abrir"),
    }
    // later: the overdue one waits 10 minutes
    let (_, d) = verificar_notificacoes_os(true, &None, "2025-06-15", false, &atuais, &memoria, 1599);
    assert!(matches!(d, DecisaoNotificacao::Nada));
    let (_, d) = verificar_notificacoes_os(true, &None, "2025-06-15", false, &atuais, &memoria, 1600);
    assert!(matches!(d, DecisaoNotificacao::Abrir { .. }));
    // the alert waits 6 hours
    let memoria = Some("v-1=99999".to_string());
    let so_alerta = vec![notificacao("a-2", "alerta")];
    let (_, d) = verificar_notificacoes_os(true, &None, "2025-06-15", false, &so_alerta, &Some("a-2=0".into()), 21599);
    assert!(matches!(d, DecisaoNotificacao::Nada));
    let (_, d) = verificar_notificacoes_os(true, &None, "2025-06-15", false, &so_alerta, &memoria, 5);
    match d {
        DecisaoNotificacao::Abrir { pendencia, .. } => assert_eq!(pendencia.secao, "ferias-a-vencer"),
        _ => panic!("nunca mostrada: abre"),
    }
}

#[test]
fn soneca_janela_aberta_e_nada_a_notificar() {
    let atuais = vec![notificacao("v-1", "vencida")];
    let (ja, d) = verificar_notificacoes_os(false, &Some("2025-06-15".into()), "2025-06-15", false, &atuais, &None, 0);
    assert!(!ja);
    assert!(matches!(d, DecisaoNotificacao::Nada));
    let (ja, d) = verificar_notificacoes_os(false, &None, "2025-06-15", true, &atuais, &None, 0);
    assert!(!ja);
    assert!(matches!(d, DecisaoNotificacao::Nada));
    let (ja, d) = verificar_notificacoes_os(false, &None, "2025-06-15", false, &vec![], &None, 0);
    assert!(ja);
    assert!(matches!(d, DecisaoNotificacao::Fechar));
}

#[test]
fn botoes_da_janela() {
    match acao_notificacao("v-1", "lembrar", "", &Some("a-2=5".into()), 42) {
        AcaoNotificacao::Sonecar { memoria } => {
            let m = ler_memoria(&memoria);
            assert_eq!(tempo_lembrado(&m, "v-1"), Some(42));
            assert_eq!(tempo_lembrado(&m, "a-2"), Some(5));
        },
        _ => panic!("lembrar"),
    }
    match acao_notificacao("v-1", "ver", "", &None, 42) {
        AcaoNotificacao::IrPara(s) => assert_eq!(s, "cadastro-ferias-vencidas"),
        _ => panic!("ver"),
    }
    match acao_notificacao("a-1", "ver", "ferias-a-vencer", &None, 42) {
        AcaoNotificacao::IrPara(s) => assert_eq!(s, "ferias-a-vencer"),
        _ => panic!("ver"),
    }
    assert_eq!(intervalo_de_reenvio("vencida"), 600);
    assert_eq!(intervalo_de_reenvio("alarme"), 21600);
    assert_eq!(secao_da_notificacao("alerta"), "ferias-a-vencer");
}
