use scd::usuarios::{
    authenticate, create_user, criar_usuario, e_administrador, ensure_usuario_inicial, gerar_token, hex_minusculo,
    login, normalize_username, remover_usuario, salvar_secoes_do_usuario, verify_password, User,
};

fn usuario() -> User {
    User { id: 1, username: "maria silva".into(), display_name: "Maria".into() }
}

#[test]
fn nomes_de_usuario_normalizados() {
    assert_eq!(normalize_username("  Maria  Silva "), "maria silva");
    assert_eq!(normalize_username("ADMIN"), "admin");
    assert_eq!(normalize_username("\tJoão\n da\u{a0}Silva"), "joão da silva");
    assert_eq!(normalize_username("   "), "");
}

#[test]
fn senha_vira_hash_que_confere() {
    let n = create_user(" Maria  Silva", "Maria", "segredo").unwrap();
    assert_eq!(n.username, "maria silva");
    assert_eq!(n.password_hash.len(), 60);
    assert!(verify_password("segredo", &n.password_hash));
    assert!(!verify_password("outra", &n.password_hash));
    assert!(!verify_password("segredo", "não é hash"));
    assert_eq!(create_user("x", "X", " ab ").err().unwrap(), "A senha deve ter pelo menos 4 caracteres.");
    // characters are counted, not bytes: "ééé" is six bytes but three characters
    assert_eq!(create_user("x", "X", "ééé").err().unwrap(), "A senha deve ter pelo menos 4 caracteres.");
    assert!(create_user("x", "X", "éééé").is_ok());

    let u = authenticate(Some((usuario(), n.password_hash.clone())), "segredo");
    assert_eq!(u.map(|u| u.id), Some(1));
    assert!(authenticate(Some((usuario(), n.password_hash.clone())), "errada").is_none());
    assert!(authenticate(None, "segredo").is_none());
    assert_eq!(login(None).err().unwrap(), "Usuário ou senha inválidos.");
}

#[test]
fn cadastro_pela_administracao() {
    assert_eq!(criar_usuario("ana", "  ", "1234").err().unwrap(), "Informe o nome de exibição do usuário.");
    assert_eq!(criar_usuario("  ", "Ana", "1234").err().unwrap(), "Informe o nome de usuário (login).");
    let n = criar_usuario(" ANA ", " Ana Lima ", "1234").unwrap();
    assert_eq!(n.username, "ana");
    assert_eq!(n.display_name, "Ana Lima");
}

#[test]
fn superusuario_protegido() {
    assert_eq!(
        remover_usuario(&Some("fernando".into())).unwrap_err(),
        "O usuário superadministrador (fernando) não pode ser excluído."
    );
    assert_eq!(remover_usuario(&None).unwrap_err(), "Usuário não encontrado ou já removido.");
    assert!(remover_usuario(&Some("ana".into())).is_ok());
    assert!(e_administrador(&Some("fernando".into())));
    assert!(!e_administrador(&Some("ana".into())));
    assert!(salvar_secoes_do_usuario(true).is_err());
    assert!(ensure_usuario_inicial(true).unwrap().is_none());
    let n = ensure_usuario_inicial(false).unwrap().unwrap();
    assert_eq!(n.username, "fernando");
    assert!(verify_password("admin150202", &n.password_hash));
}

#[test]
fn token_de_sessao() {
    assert_eq!(hex_minusculo(&vec![0, 15, 16, 255]), "000f10ff");
    let t = gerar_token().unwrap();
    assert_eq!(t.len(), 64);
    assert!(t.chars().all(|c| c.is_ascii_hexdigit() && !c.is_ascii_uppercase()));
    assert_ne!(t, gerar_token().unwrap());
}
