//! Users, passwords and sessions: the rules of who may enter and what the
//! administrator may do. Names are kept in one normal form (lower case,
//! single spaces, no spaces at the ends), both when a user is created and
//! when one signs in. Passwords are kept as bcrypt hashes.

use vstd::prelude::*;
use crate::texto::{
    comparar, copia, anexar, aparado, aparar, em_branco, eh_espaco, espaco, caracteres, empurrar,
    minusculas, em_minusculas, espacos_iniciais, espacos_finais,
};

verus! {

broadcast use vstd::seq_lib::group_seq_properties;

/// A user as the screens see it (never with the password hash).
pub struct User {
    pub id: i64,
    pub username: String,
    pub display_name: String,
}

/// The answer to a login: the user, and the session token when the user
/// asked to stay signed in.
pub struct RespostaLogin {
    pub user: User,
    pub token: Option<String>,
}

/// A user as the administration screen lists it.
pub struct Usuario {
    pub id: i64,
    pub username: String,
    pub display_name: String,
    pub created_at: String,
}

/// The system's superuser: full access, and never removed.
pub open spec fn super_usuario() -> Seq<char> {
    "fernando"@
}

/// Is `nome` the superuser?
pub fn eh_super_usuario(nome: &str) -> (r: bool)
    ensures
        r == (nome@ == super_usuario()),
{
    comparar(nome, "fernando") == 0
}

// ───────────────────────── names ─────────────────────────

/// The words of a text (`split_whitespace`) joined by single spaces.
pub open spec fn espacos_colapsados(s: Seq<char>) -> Seq<char>
    decreases s.len(),
{
    if s.len() == 0 {
        s
    } else {
        let c = espacos_colapsados(s.drop_last());
        if eh_espaco(s.last()) {
            c
        } else if s.len() >= 2 && eh_espaco(s[s.len() - 2]) && c.len() > 0 {
            c.push(' ').push(s.last())
        } else {
            c.push(s.last())
        }
    }
}

/// The normal form of a user name: its words joined by single spaces, in
/// lower case ("  Maria  Silva " gives "maria silva").
pub open spec fn nome_normalizado(s: Seq<char>) -> Seq<char> {
    minusculas(espacos_colapsados(s))
}

/// Puts a user name in its normal form. This is the only rule: whatever
/// goes into the database, or is compared with it, goes through here.
pub fn normalize_username(username: &str) -> (r: String)
    ensures
        r@ == nome_normalizado(username@),
{
    let v = caracteres(username);
    let mut out = String::new();
    let mut tem_algo = false;
    let mut i: usize = 0;
    proof {
        assert(v@.take(0) =~= Seq::<char>::empty());
    }
    while i < v.len()
        invariant
            i <= v.len(),
            v@ == username@,
            tem_algo == (out@.len() > 0),
            out@ == espacos_colapsados(v@.take(i as int)),
        decreases v.len() - i,
    {
        proof {
            assert(v@.take(i + 1).drop_last() =~= v@.take(i as int));
            assert(v@.take(i + 1).last() == v@[i as int]);
            if i >= 1 {
                assert(v@.take(i + 1)[i - 1] == v@[i - 1]);
            }
        }
        let c = v[i];
        if !espaco(c) {
            if i >= 1 && espaco(v[i - 1]) && tem_algo {
                empurrar(&mut out, ' ');
            }
            empurrar(&mut out, c);
            tem_algo = true;
        }
        i = i + 1;
    }
    proof {
        assert(v@.take(v.len() as int) =~= v@);
    }
    em_minusculas(out.as_str())
}

// ───────────────────────── passwords ─────────────────────────

/// What `bcrypt::verify(senha, hash)` answers: whether the password matches
/// the hash, or nothing when the hash is malformed.
pub uninterp spec fn bcrypt_confere(senha: Seq<char>, hash: Seq<char>) -> Option<bool>;

/// `bcrypt::verify(senha, hash).ok()`.
#[verifier::external_body]
fn bcrypt_verificar(senha: &str, hash: &str) -> (r: Option<bool>)
    ensures
        r == bcrypt_confere(senha@, hash@),
{
    bcrypt::verify(senha, hash).ok()
}

/// `bcrypt::hash(senha, DEFAULT_COST)`, its error as text. The salt is
/// random, so the hash itself is not known; what the crate's source shows
/// is that a hash it made is 60 characters long and verifies against the
/// password it was made from.
#[verifier::external_body]
fn bcrypt_gerar(senha: &str) -> (r: Result<String, String>)
    ensures
        r matches Ok(h) ==> h@.len() == 60 && bcrypt_confere(senha@, h@) == Some(true),
{
    bcrypt::hash(senha, bcrypt::DEFAULT_COST).map_err(|err| format!("{err}"))
}

/// Does the typed password match the stored hash? An unreadable hash
/// answers as a wrong password does.
pub fn verify_password(password: &str, password_hash: &str) -> (r: bool)
    ensures
        r == (bcrypt_confere(password@, password_hash@) == Some(true)),
{
    match bcrypt_verificar(password, password_hash) {
        Some(b) => b,
        None => false,
    }
}

/// Checks a password against the user found under the (normalized) name,
/// given with its hash: an unknown user and a wrong password get the same
/// answer, so that no one learns which users exist.
pub fn authenticate(registro: Option<(User, String)>, password: &str) -> (r: Option<User>)
    ensures
        match registro {
            None => r is None,
            Some((u, h)) => if bcrypt_confere(password@, h@) == Some(true) { r == Some(u) } else { r is None },
        },
{
    match registro {
        None => None,
        Some((u, h)) => {
            if verify_password(password, h.as_str()) {
                Some(u)
            } else {
                None
            }
        },
    }
}

/// The answer to a login attempt (`autenticado`: what `authenticate` gave).
pub fn login(autenticado: Option<User>) -> (r: Result<User, String>)
    ensures
        match autenticado {
            Some(u) => r == Ok::<User, String>(u),
            None => r matches Err(e) && e@ == "Usuário ou senha inválidos."@,
        },
{
    match autenticado {
        Some(u) => Ok(u),
        None => Err(copia("Usuário ou senha inválidos.")),
    }
}

/// A user ready to be stored.
pub struct NovoUsuario {
    pub username: String,
    pub display_name: String,
    pub password_hash: String,
}

pub open spec fn msg_senha_curta() -> Seq<char> {
    "A senha deve ter pelo menos 4 caracteres."@
}

/// Creates a user: the name in normal form, and the password (at least 4
/// characters once trimmed) kept as a bcrypt hash that verifies against it.
pub fn create_user(username: &str, display_name: &str, password: &str) -> (r: Result<NovoUsuario, String>)
    ensures
        aparado(password@).len() < 4 ==> (r matches Err(e) && e@ == msg_senha_curta()),
        r matches Ok(n) ==> {
            &&& aparado(password@).len() >= 4
            &&& n.username@ == nome_normalizado(username@)
            &&& n.display_name@ == display_name@
            &&& bcrypt_confere(password@, n.password_hash@) == Some(true)
        },
        aparado(password@).len() >= 4 ==> (r matches Err(e)
            ==> exists|m: Seq<char>| e@ == "Falha ao gerar o hash da senha: "@ + m),
{
    let username = normalize_username(username);
    let aparada = aparar(password);
    if caracteres(aparada.as_str()).len() < 4 {
        return Err(copia("A senha deve ter pelo menos 4 caracteres."));
    }
    match bcrypt_gerar(password) {
        Ok(h) => Ok(NovoUsuario { username, display_name: copia(display_name), password_hash: h }),
        Err(m) => {
            let mut e = copia("Falha ao gerar o hash da senha: ");
            anexar(&mut e, m.as_str());
            Err(e)
        },
    }
}

/// Creating a user from the administration screen: a display name and a
/// login are required (both trimmed, the login in lower case first).
pub fn criar_usuario(username: &str, nome_exibicao: &str, senha: &str) -> (r: Result<NovoUsuario, String>)
    ensures
        aparado(nome_exibicao@).len() == 0 ==> (r matches Err(e) && e@ == "Informe o nome de exibição do usuário."@),
        aparado(nome_exibicao@).len() != 0 && minusculas(aparado(username@)).len() == 0
            ==> (r matches Err(e) && e@ == "Informe o nome de usuário (login)."@),
        aparado(nome_exibicao@).len() != 0 && minusculas(aparado(username@)).len() != 0
            && aparado(senha@).len() < 4 ==> (r matches Err(e) && e@ == msg_senha_curta()),
        aparado(nome_exibicao@).len() != 0 && minusculas(aparado(username@)).len() != 0
            && aparado(senha@).len() >= 4 ==> (r matches Ok(_) || (r matches Err(e)
            && exists|m: Seq<char>| e@ == "Falha ao gerar o hash da senha: "@ + m)),
        r matches Ok(n) ==> {
            &&& n.username@ == nome_normalizado(minusculas(aparado(username@)))
            &&& n.display_name@ == aparado(nome_exibicao@)
            &&& bcrypt_confere(senha@, n.password_hash@) == Some(true)
        },
{
    if em_branco(nome_exibicao) {
        return Err(copia("Informe o nome de exibição do usuário."));
    }
    let login = em_minusculas(aparar(username).as_str());
    if caracteres(login.as_str()).len() == 0 {
        return Err(copia("Informe o nome de usuário (login)."));
    }
    let exibicao = aparar(nome_exibicao);
    create_user(login.as_str(), exibicao.as_str(), senha)
}

/// The superuser is there from the first start: when it is missing (not
/// active), it is created with its first password.
pub fn ensure_usuario_inicial(super_existe: bool) -> (r: Result<Option<NovoUsuario>, String>)
    ensures
        super_existe ==> r matches Ok(None),
        r matches Ok(Some(n)) ==> !super_existe && n.username@ == nome_normalizado(super_usuario())
            && n.display_name@ == "Fernando"@ && bcrypt_confere("admin150202"@, n.password_hash@) == Some(true),
        !super_existe ==> (r matches Ok(Some(_)) || (r matches Err(e)
            && exists|m: Seq<char>| e@ == "Falha ao gerar o hash da senha: "@ + m)),
{
    if super_existe {
        return Ok(None);
    }
    proof {
        reveal_strlit("admin150202");
        let s = "admin150202"@;
        assert(s[0] == 'a' && s.last() == '2');
        assert(espacos_iniciais(s) == 0);
        assert(s.skip(0) =~= s);
        assert(espacos_finais(s) == 0);
        assert(s.take(s.len() as int) =~= s);
        assert(aparado(s) == s);
    }
    match create_user("fernando", "Fernando", "admin150202") {
        Ok(n) => {
            proof {
                reveal_strlit("fernando");
            }
            Ok(Some(n))
        },
        Err(e) => Err(e),
    }
}

// ───────────────────────── sessions ─────────────────────────

/// `n` random bytes from the operating system (`getrandom::fill` on a
/// buffer of `n` zeros), its error as text; their values are unknown, and
/// the call may fail when the operating system gives no random bytes.
#[verifier::external_body]
pub(crate) fn bytes_aleatorios(n: usize) -> (r: Result<Vec<u8>, String>)
    ensures
        r matches Ok(b) ==> b@.len() == n,
{
    let mut bytes = vec![0u8; n];
    getrandom::fill(&mut bytes).map(|_| bytes).map_err(|err| format!("{err}"))
}

/// The lower-case hexadecimal digit of a value below 16.
pub open spec fn digito_hex(v: int) -> char {
    if v < 10 { ((v + '0' as int) as char) } else { ((v - 10 + 'a' as int) as char) }
}

/// Bytes in lower-case hexadecimal, two digits each (`{:02x}`).
pub open spec fn hex_de(b: Seq<u8>) -> Seq<char>
    decreases b.len(),
{
    if b.len() == 0 {
        Seq::empty()
    } else {
        hex_de(b.drop_last()).push(digito_hex(b.last() as int / 16)).push(digito_hex(b.last() as int % 16))
    }
}

fn hex_do_valor(v: u8) -> (c: char)
    requires
        v < 16,
    ensures
        c == digito_hex(v as int),
{
    if v < 10 {
        if v == 0 { '0' } else if v == 1 { '1' } else if v == 2 { '2' } else if v == 3 { '3' }
        else if v == 4 { '4' } else if v == 5 { '5' } else if v == 6 { '6' } else if v == 7 { '7' }
        else if v == 8 { '8' } else { '9' }
    } else {
        if v == 10 { 'a' } else if v == 11 { 'b' } else if v == 12 { 'c' } else if v == 13 { 'd' }
        else if v == 14 { 'e' } else { 'f' }
    }
}

/// Bytes written in lower-case hexadecimal.
pub fn hex_minusculo(bytes: &Vec<u8>) -> (r: String)
    ensures
        r@ == hex_de(bytes@),
{
    let mut r = String::new();
    let mut i: usize = 0;
    proof {
        assert(bytes@.take(0) =~= Seq::<u8>::empty());
    }
    while i < bytes.len()
        invariant
            i <= bytes.len(),
            r@ == hex_de(bytes@.take(i as int)),
        decreases bytes.len() - i,
    {
        proof {
            assert(bytes@.take(i + 1).drop_last() =~= bytes@.take(i as int));
        }
        let b = bytes[i];
        empurrar(&mut r, hex_do_valor(b / 16));
        empurrar(&mut r, hex_do_valor(b % 16));
        i = i + 1;
    }
    proof {
        assert(bytes@.take(bytes.len() as int) =~= bytes@);
    }
    r
}

proof fn lemma_hex_tamanho(b: Seq<u8>)
    ensures
        hex_de(b).len() == 2 * b.len(),
    decreases b.len(),
{
    if b.len() > 0 {
        lemma_hex_tamanho(b.drop_last());
    }
}

/// A new session token: 32 random bytes in hexadecimal (64 characters).
pub fn gerar_token() -> (r: Result<String, String>)
    ensures
        r matches Ok(t) ==> t@.len() == 64 && exists|b: Seq<u8>| b.len() == 32 && t@ == hex_de(b),
        r matches Err(e) ==> exists|m: Seq<char>| e@ == "Falha ao gerar o token: "@ + m,
{
    match bytes_aleatorios(32) {
        Ok(b) => {
            let t = hex_minusculo(&b);
            proof {
                lemma_hex_tamanho(b@);
            }
            Ok(t)
        },
        Err(m) => {
            let mut e = copia("Falha ao gerar o token: ");
            anexar(&mut e, m.as_str());
            Err(e)
        },
    }
}

// ───────────────────────── administration ─────────────────────────

/// Removing a user (`username`: the active user with that id, if any):
/// refused for an unknown or removed user and for the superuser.
pub fn remover_usuario(username: &Option<String>) -> (r: Result<(), String>)
    ensures
        match username {
            None => r matches Err(e) && e@ == "Usuário não encontrado ou já removido."@,
            Some(u) => if u@ == super_usuario() {
                r matches Err(e) && e@ == "O usuário superadministrador (fernando) não pode ser excluído."@
            } else {
                r is Ok
            },
        },
{
    match username {
        None => Err(copia("Usuário não encontrado ou já removido.")),
        Some(u) => {
            if eh_super_usuario(u.as_str()) {
                Err(copia("O usuário superadministrador (fernando) não pode ser excluído."))
            } else {
                Ok(())
            }
        },
    }
}

/// Is the user (`username`: the name of the user with that id, if any) the
/// administrator? Only the superuser is; it sees everything.
pub fn e_administrador(username: &Option<String>) -> (r: bool)
    ensures
        r == (username matches Some(u) && u@ == super_usuario()),
{
    match username {
        Some(u) => eh_super_usuario(u.as_str()),
        None => false,
    }
}

/// Saving a user's accesses: the superuser has them all, and its are not
/// edited.
pub fn salvar_secoes_do_usuario(e_admin: bool) -> (r: Result<(), String>)
    ensures
        e_admin ==> (r matches Err(e)
            && e@ == "O superusuário tem acesso total ao sistema e não precisa de permissões."@),
        !e_admin ==> r is Ok,
{
    if e_admin {
        Err(copia("O superusuário tem acesso total ao sistema e não precisa de permissões."))
    } else {
        Ok(())
    }
}

} // verus!
