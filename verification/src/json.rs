//! JSON values as the rules read and write them: the decoded document, held
//! in plain values, and the text they are read from and written to
//! (`serde_json`).

use vstd::prelude::*;
use crate::texto::comparar;

verus! {

/// A decoded JSON value. Numbers keep the text `serde_json` writes for them.
#[derive(Debug, PartialEq)]
pub enum ValorJson {
    Nulo,
    Booleano(bool),
    Numero(String),
    Texto(String),
    Lista(Vec<ValorJson>),
    Objeto(Vec<(String, ValorJson)>),
}

/// The value of the first member named `nome` (`Map::get`: the members of a
/// decoded object have distinct names).
pub open spec fn membro(campos: Seq<(String, ValorJson)>, nome: Seq<char>) -> Option<ValorJson>
    decreases campos.len(),
{
    if campos.len() == 0 {
        None
    } else if campos[0].0@ == nome {
        Some(campos[0].1)
    } else {
        membro(campos.drop_first(), nome)
    }
}

/// `Map::get(nome)`.
pub fn obter<'a>(campos: &'a Vec<(String, ValorJson)>, nome: &str) -> (r: Option<&'a ValorJson>)
    ensures
        match r {
            Some(v) => membro(campos@, nome@) == Some(*v),
            None => membro(campos@, nome@) is None,
        },
{
    let mut i: usize = 0;
    proof {
        assert(campos@.skip(0) =~= campos@);
    }
    while i < campos.len()
        invariant
            i <= campos.len(),
            membro(campos@, nome@) == membro(campos@.skip(i as int), nome@),
        decreases campos.len() - i,
    {
        proof {
            assert(campos@.skip(i as int).drop_first() =~= campos@.skip(i + 1));
            assert(campos@.skip(i as int)[0] == campos@[i as int]);
        }
        if comparar(campos[i].0.as_str(), nome) == 0 {
            return Some(&campos[i].1);
        }
        i = i + 1;
    }
    None
}

/// `Value::as_str` of a member: its text when it is a JSON string.
pub open spec fn texto_do_membro(campos: Seq<(String, ValorJson)>, nome: Seq<char>) -> Option<String> {
    match membro(campos, nome) {
        Some(ValorJson::Texto(s)) => Some(s),
        _ => None,
    }
}

/// The text of a member that is a JSON string (`None` when absent, null or
/// of another kind).
pub fn texto_de(campos: &Vec<(String, ValorJson)>, nome: &str) -> (r: Option<String>)
    ensures
        r == texto_do_membro(campos@, nome@),
{
    match obter(campos, nome) {
        Some(ValorJson::Texto(s)) => Some(s.clone()),
        _ => None,
    }
}

/// `Value::as_bool` of a member.
pub open spec fn booleano_do_membro(campos: Seq<(String, ValorJson)>, nome: Seq<char>) -> Option<bool> {
    match membro(campos, nome) {
        Some(ValorJson::Booleano(b)) => Some(b),
        _ => None,
    }
}

pub fn booleano_de(campos: &Vec<(String, ValorJson)>, nome: &str) -> (r: Option<bool>)
    ensures
        r == booleano_do_membro(campos@, nome@),
{
    match obter(campos, nome) {
        Some(ValorJson::Booleano(b)) => Some(*b),
        _ => None,
    }
}

// ───────────────────────── text and bytes ─────────────────────────

#[verifier::external_type_specification]
#[verifier::external_body]
pub struct ExValorSerde(serde_json::Value);

/// `serde_json::Value` held node for node as a `ValorJson` (a number keeps
/// the text `serde_json` writes for it).
#[verifier::external_body]
fn de_serde(v: &serde_json::Value) -> ValorJson {
    match v {
        serde_json::Value::Null => ValorJson::Nulo,
        serde_json::Value::Bool(b) => ValorJson::Booleano(*b),
        serde_json::Value::Number(n) => ValorJson::Numero(n.to_string()),
        serde_json::Value::String(t) => ValorJson::Texto(t.clone()),
        serde_json::Value::Array(l) => ValorJson::Lista(l.iter().map(de_serde).collect()),
        serde_json::Value::Object(m) => ValorJson::Objeto(m.iter().map(|(k, x)| (k.clone(), de_serde(x))).collect()),
    }
}

/// A `ValorJson` as a `serde_json::Value`, node for node; a number whose
/// text `serde_json` does not read is an error.
#[verifier::external_body]
fn para_serde(v: &ValorJson) -> Result<serde_json::Value, String> {
    Ok(match v {
        ValorJson::Nulo => serde_json::Value::Null,
        ValorJson::Booleano(b) => serde_json::Value::Bool(*b),
        ValorJson::Numero(n) => serde_json::Value::Number(serde_json::from_str(n).map_err(|e: serde_json::Error| e.to_string())?),
        ValorJson::Texto(t) => serde_json::Value::String(t.clone()),
        ValorJson::Lista(l) => serde_json::Value::Array(l.iter().map(para_serde).collect::<Result<_, _>>()?),
        ValorJson::Objeto(c) => serde_json::Value::Object(
            c.iter().map(|(k, x)| para_serde(x).map(|y| (k.clone(), y))).collect::<Result<_, _>>()?,
        ),
    })
}

/// What `serde_json::from_str::<Value>` reads in a text (`None` when it
/// refuses the text), held as a `ValorJson`.
pub uninterp spec fn json_lido(texto: Seq<char>) -> Option<ValorJson>;

/// What `serde_json::from_slice::<Value>` reads in bytes (`None` when it
/// refuses them), held as a `ValorJson`.
pub uninterp spec fn json_lido_de_bytes(bytes: Seq<u8>) -> Option<ValorJson>;

/// The text `serde_json::to_string` writes for a value.
pub uninterp spec fn json_escrito(v: ValorJson) -> Seq<char>;

/// `String::from_utf8_lossy(bytes)`: the bytes read as UTF-8, each invalid
/// sequence replaced by U+FFFD.
pub uninterp spec fn utf8_com_perdas(bytes: Seq<u8>) -> Seq<char>;

/// `serde_json::from_str::<Value>(texto)`, converted node for node; its
/// error as text. The value read is named `json_lido`, a function of the
/// text alone; the wording of the error is not stated.
#[verifier::external_body]
pub(crate) fn ler_json(texto: &str) -> (r: Result<ValorJson, String>)
    ensures
        r matches Ok(v) ==> json_lido(texto@) == Some(v),
        r is Err <==> json_lido(texto@) is None,
{
    serde_json::from_str::<serde_json::Value>(texto).map(|v| de_serde(&v)).map_err(|e| e.to_string())
}

/// `serde_json::from_slice::<Value>(bytes)`, converted node for node; its
/// error as text. The value read is named `json_lido_de_bytes`; the wording
/// of the error is not stated.
#[verifier::external_body]
pub(crate) fn ler_json_de_bytes(bytes: &[u8]) -> (r: Result<ValorJson, String>)
    ensures
        r matches Ok(v) ==> json_lido_de_bytes(bytes@) == Some(v),
        r is Err <==> json_lido_de_bytes(bytes@) is None,
{
    serde_json::from_slice::<serde_json::Value>(bytes).map(|v| de_serde(&v)).map_err(|e| e.to_string())
}

/// `String::from_utf8_lossy(bytes).into_owned()`.
#[verifier::external_body]
pub(crate) fn texto_com_perdas(bytes: &[u8]) -> (r: String)
    ensures
        r@ == utf8_com_perdas(bytes@),
{
    String::from_utf8_lossy(bytes).into_owned()
}

/// A scalar: null, a boolean or a text.
pub open spec fn escalar(v: ValorJson) -> bool {
    v is Nulo || v is Booleano || v is Texto
}

/// A scalar, or a list of scalars.
pub open spec fn raso(v: ValorJson) -> bool {
    escalar(v) || (v matches ValorJson::Lista(l) && forall|i: int| 0 <= i < l@.len() ==> escalar(#[trigger] l@[i]))
}

/// The values this application writes: no numbers, objects only at the
/// top, each member a scalar or a list of scalars.
pub open spec fn gravavel(v: ValorJson) -> bool {
    raso(v) || (v matches ValorJson::Objeto(c) && forall|i: int| 0 <= i < c@.len() ==> raso(#[trigger] c@[i].1))
}

/// `serde_json::to_string` of the value converted to a `serde_json::Value`
/// node for node; its error as text. The text is named `json_escrito`. A
/// value without numbers always converts, and `to_string` of a `Value`
/// writes into memory and does not fail.
#[verifier::external_body]
pub(crate) fn escrever_json(v: &ValorJson) -> (r: Result<String, String>)
    ensures
        r matches Ok(t) ==> t@ == json_escrito(*v),
        gravavel(*v) ==> r is Ok,
{
    para_serde(v).and_then(|x| serde_json::to_string(&x).map_err(|e| e.to_string()))
}

} // verus!
