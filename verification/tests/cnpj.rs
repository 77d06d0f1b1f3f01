use scd::cnpj::{apos_espera, apos_resultado, iniciar_consulta, resultado_da_consulta, AcaoConsulta, ResultadoConsulta};

fn espera(a: &AcaoConsulta) -> Option<u64> {
    match a {
        AcaoConsulta::Aguardar(s) => Some(*s),
        _ => None,
    }
}

#[test]
fn quatro_tentativas_com_esperas_de_1_2_e_4_segundos() {
    let cnpj = "11222333000181";
    let (mut estado, acao) = iniciar_consulta(cnpj);
    assert!(matches!(acao, AcaoConsulta::Consultar(ref u) if u == "https://minhareceita.org/11222333000181"));
    let mut esperas = Vec::new();
    for _ in 0..3 {
        let a = apos_resultado(&mut estado, ResultadoConsulta::Limite(None), cnpj);
        esperas.push(espera(&a).unwrap());
        let a = apos_espera(&mut estado, cnpj);
        assert!(matches!(a, AcaoConsulta::Consultar(_)));
    }
    assert_eq!(esperas, vec![1, 2, 4]);
    assert_eq!(estado.tentativa, 4);
    // the fourth 429 gives the source up at once, with no wait
    let a = apos_resultado(&mut estado, ResultadoConsulta::Limite(None), cnpj);
    assert!(matches!(a, AcaoConsulta::Consultar(ref u) if u == "https://brasilapi.com.br/api/cnpj/v1/11222333000181"));
    assert_eq!(
        estado.ultimo_erro.as_deref(),
        Some("Minha Receita: limite de consultas atingido mesmo após novas tentativas.")
    );
    assert_eq!(estado.tentativa, 1);
}

#[test]
fn espera_sugerida_pela_fonte_tem_prioridade() {
    let cnpj = "11222333000181";
    let (mut estado, _) = iniciar_consulta(cnpj);
    let a = apos_resultado(&mut estado, ResultadoConsulta::Limite(Some(9)), cnpj);
    assert_eq!(espera(&a), Some(9));
    assert_eq!(estado.espera, 2);
}

#[test]
fn resposta_da_fonte_lida_dos_bytes() {
    let cnpj = "11222333000181";
    let corpo = br#"{"razao_social": " ACME LTDA ", "uf": "SP", "ddd_telefone_1": 1133334444}"#;
    match resultado_da_consulta(200, corpo, None, cnpj) {
        ResultadoConsulta::Dados(d) => {
            assert_eq!(d.razao_social, "ACME LTDA");
            assert_eq!(d.uf.as_deref(), Some("SP"));
            assert_eq!(d.telefone.as_deref(), Some("1133334444"));
        }
        _ => panic!("dados"),
    }
    match resultado_da_consulta(200, b"<html>", None, cnpj) {
        ResultadoConsulta::Falha(m) => assert!(m.starts_with("resposta inválida: ")),
        _ => panic!("falha"),
    }
    assert!(matches!(resultado_da_consulta(404, b"", None, cnpj), ResultadoConsulta::NaoEncontrado));
    assert!(matches!(
        resultado_da_consulta(429, b"Rate limit exceeded, retry in 3 seconds", None, cnpj),
        ResultadoConsulta::Limite(Some(3))
    ));
    assert!(matches!(resultado_da_consulta(429, b"", Some("7"), cnpj), ResultadoConsulta::Limite(Some(7))));
    match resultado_da_consulta(500, br#"{"message": "fora do ar"}"#, None, cnpj) {
        ResultadoConsulta::Falha(m) => assert_eq!(m, "fora do ar"),
        _ => panic!("falha"),
    }
    match resultado_da_consulta(502, b"  Bad Gateway  ", None, cnpj) {
        ResultadoConsulta::Falha(m) => assert_eq!(m, "Bad Gateway"),
        _ => panic!("falha"),
    }
}
