use scd::cnpj::{espera_sugerida, segundos_do_retry};
use scd::datas::{adicionar_meses, civil_desde_dias, data_br, data_valida, dias_desde_civil, dias_do_mes, parse_iso};

#[test]
fn meses_somados_ajustam_o_dia() {
    assert_eq!(adicionar_meses("2024-01-31", 1), "2024-02-29");
    assert_eq!(adicionar_meses("2023-01-31", 1), "2023-02-28");
    assert_eq!(adicionar_meses("2023-05-15", 24), "2025-05-15");
    assert_eq!(adicionar_meses("2023-01-15", -1), "2022-12-15");
    assert_eq!(adicionar_meses("não é data", 12), "não é data");
}

#[test]
fn datas_lidas_e_exibidas() {
    assert_eq!(parse_iso("2024-02-29"), Some((2024, 2, 29)));
    assert_eq!(parse_iso("2023-02-29"), None);
    assert!(data_valida("1900-02-28"));
    assert!(!data_valida("1900-02-29"));
    assert_eq!(dias_do_mes(2000, 2), 29);
    assert_eq!(data_br("2025-06-05"), "05/06/2025");
    assert_eq!(data_br("x"), "x");
}

#[test]
fn dias_desde_1970() {
    assert_eq!(dias_desde_civil(1970, 1, 1), 0);
    assert_eq!(dias_desde_civil(2000, 3, 1), 11017);
    assert_eq!(dias_desde_civil(1899, 12, 30), -25569);
    assert_eq!(civil_desde_dias(11017), Some((2000, 3, 1)));
    assert_eq!(civil_desde_dias(-1), Some((1969, 12, 31)));
}

#[test]
fn espera_pedida_pela_fonte() {
    // the spaces after "retry in" are skipped
    assert_eq!(segundos_do_retry("Rate limit exceeded, retry in 7 seconds"), Some(7));
    assert_eq!(segundos_do_retry("Rate limit exceeded, retry in 5 seconds"), Some(5));
    assert_eq!(segundos_do_retry("Rate limit exceeded, retry in12s"), Some(12));
    assert_eq!(segundos_do_retry("retry in soon"), None);
    assert_eq!(segundos_do_retry("sem pista"), None);
    assert_eq!(espera_sugerida(Some("3"), "retry in9"), Some(3));
    assert_eq!(espera_sugerida(Some("x"), "retry in9"), Some(9));
}
