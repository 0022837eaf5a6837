//! Preferências leves guardadas no navegador (o e-mail lembrado no login e o token de
//! renovação da sessão). Fora do navegador não há armazenamento: ler não encontra nada e
//! gravar ou remover não têm efeito.

use vstd::prelude::*;

verus! {

/// Chave do e-mail lembrado na tela de login ("Lembrar-me").
pub const EMAIL_LEMBRADO: &'static str = "pcp_email_lembrado";

/// Chave do token de renovação persistido, que restaura a sessão após recarregar a página.
pub const REFRESH: &'static str = "pcp_refresh";

/// Lê um valor guardado; fora do navegador nunca há valor.
pub fn ler(_chave: &str) -> (r: Option<String>)
    ensures
        r is None,
{
    None
}

/// Guarda um valor; fora do navegador não tem efeito.
pub fn gravar(_chave: &str, _valor: &str) {
}

/// Remove uma chave; fora do navegador não tem efeito.
pub fn remover(_chave: &str) {
}

} // verus!
