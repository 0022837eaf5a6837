//! O que fazer com o status de uma resposta da API: sessão expirada, recurso ausente, ação
//! proibida, falha, ou seguir para o corpo.

use vstd::prelude::*;
use vstd::string::StringExecFns;

verus! {

/// Mensagem da sessão expirada (status 401).
pub const MSG_SESSAO_EXPIRADA: &'static str = "sessão expirada — entre novamente";

/// O desfecho de uma resposta pelo status.
#[derive(Debug, Clone, PartialEq, Eq)]
pub enum Desfecho {
    /// Sucesso: ler o corpo.
    Corpo,
    /// O recurso não existe (404 onde a chamada aceita ausência): `Ok(None)`.
    Ausente,
    /// Erro, com a mensagem a mostrar.
    Erro(String),
}

/// Modelo de [`Desfecho`].
pub enum DesfechoV {
    Corpo,
    Ausente,
    Erro(Seq<char>),
}

/// Modelo de um desfecho.
pub open spec fn vista_desfecho(d: Desfecho) -> DesfechoV {
    match d {
        Desfecho::Corpo => DesfechoV::Corpo,
        Desfecho::Ausente => DesfechoV::Ausente,
        Desfecho::Erro(m) => DesfechoV::Erro(m@),
    }
}

/// O desfecho de um status: 401 é sessão expirada (nas chamadas autenticadas); 403, a mensagem
/// de proibido (se a chamada tem uma); 404, ausente (se a chamada aceita ausência); fora de
/// 200–299, a mensagem de falha da chamada; senão, seguir para o corpo.
pub open spec fn desfecho_spec(
    status: int,
    autenticada: bool,
    proibido: Option<Seq<char>>,
    aceita_ausente: bool,
    falha: Seq<char>,
) -> DesfechoV {
    if autenticada && status == 401 {
        DesfechoV::Erro(MSG_SESSAO_EXPIRADA@)
    } else if status == 403 && proibido is Some {
        DesfechoV::Erro(proibido->0)
    } else if aceita_ausente && status == 404 {
        DesfechoV::Ausente
    } else if !(200 <= status <= 299) {
        DesfechoV::Erro(falha)
    } else {
        DesfechoV::Corpo
    }
}

/// Decide o que fazer com o status de uma resposta da API.
pub fn desfecho_status(
    status: u16,
    autenticada: bool,
    proibido: Option<&str>,
    aceita_ausente: bool,
    falha: &str,
) -> (r: Desfecho)
    ensures
        vista_desfecho(r) == desfecho_spec(
            status as int,
            autenticada,
            match proibido { Some(m) => Some(m@), None => None },
            aceita_ausente,
            falha@,
        ),
{
    if autenticada && status == 401 {
        Desfecho::Erro(String::from_str(MSG_SESSAO_EXPIRADA))
    } else if status == 403 && proibido.is_some() {
        match proibido {
            Some(m) => Desfecho::Erro(String::from_str(m)),
            None => Desfecho::Corpo,
        }
    } else if aceita_ausente && status == 404 {
        Desfecho::Ausente
    } else if !(200 <= status && status <= 299) {
        Desfecho::Erro(String::from_str(falha))
    } else {
        Desfecho::Corpo
    }
}

/// Só uma resposta de sucesso (200–299) chega ao corpo.
pub proof fn lei_corpo_so_com_sucesso(
    status: int,
    autenticada: bool,
    proibido: Option<Seq<char>>,
    aceita_ausente: bool,
    falha: Seq<char>,
)
    ensures
        desfecho_spec(status, autenticada, proibido, aceita_ausente, falha) is Corpo ==> 200 <= status <= 299,
        desfecho_spec(status, autenticada, proibido, aceita_ausente, falha) is Ausente ==> status == 404,
{
}

} // verus!
