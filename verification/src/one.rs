//! Regras da ingestão incremental a partir do ERP One: de onde começa a janela de vendas (o
//! backfill na primeira vez, depois a marca-d'água menos a janela deslizante) e a normalização
//! das colunas lidas (texto em branco vira ausente, inteiro e booleano nulos viram 0 e falso).

use vstd::prelude::*;
use crate::data::{data_valida, dias_antes, Data};
use crate::texto::{aparado, aparar, vazio_ao_aparar};

verus! {

/// Parâmetros do ciclo de ingestão do One.
#[derive(Debug, Clone, Copy, PartialEq, Eq, Structural)]
pub struct OpcoesOne {
    /// Data de referência do snapshot (normalmente hoje).
    pub data_ref: Data,
    /// Profundidade do backfill na primeira sincronização (sem marca-d'água).
    pub backfill_dias: i64,
    /// Janela deslizante re-lida a cada ciclo, para capturar cancelamentos de pedidos recentes.
    pub janela_deslizante_dias: i64,
}

/// Dia em que começa a janela de vendas: a marca-d'água menos a janela deslizante, ou, sem
/// marca-d'água, a data de referência menos o backfill.
pub open spec fn inicio_janela_spec(opcoes: OpcoesOne, marca: Option<Data>) -> int {
    match marca {
        Some(m) => m.dias - opcoes.janela_deslizante_dias,
        None => opcoes.data_ref.dias - opcoes.backfill_dias,
    }
}

/// Início da janela de vendas a partir da marca-d'água lida do bronze (se houver): backfill na
/// primeira vez; senão, marca-d'água − janela deslizante.
pub fn inicio_janela_vendas(opcoes: &OpcoesOne, marca: Option<Data>) -> (r: Data)
    requires
        match marca {
            Some(m) => data_valida(m.dias as int),
            None => data_valida(opcoes.data_ref.dias as int),
        },
        data_valida(inicio_janela_spec(*opcoes, marca)),
    ensures
        r.dias == inicio_janela_spec(*opcoes, marca),
{
    match marca {
        Some(m) => dias_antes(m, opcoes.janela_deslizante_dias),
        None => dias_antes(opcoes.data_ref, opcoes.backfill_dias),
    }
}

/// Com janelas não negativas e a marca-d'água até a data de referência, a janela de vendas nunca
/// começa depois da data de referência: o ciclo re-lê, não pula dias.
pub proof fn lei_janela_nao_pula_dias(opcoes: OpcoesOne, marca: Option<Data>)
    requires
        opcoes.backfill_dias >= 0,
        opcoes.janela_deslizante_dias >= 0,
        marca matches Some(m) ==> m.dias <= opcoes.data_ref.dias,
    ensures
        inicio_janela_spec(opcoes, marca) <= opcoes.data_ref.dias,
        marca matches Some(m) ==> inicio_janela_spec(opcoes, marca) <= m.dias,
{
}

/// Texto lido de uma coluna: aparado, e em branco vira ausente.
pub open spec fn texto_normalizado_spec(v: Option<Seq<char>>) -> Option<Seq<char>> {
    match v {
        Some(s) => if aparar(s).len() == 0 { None } else { Some(aparar(s)) },
        None => None,
    }
}

/// Normaliza uma coluna textual opcional: aparada, e em branco vira `None`.
pub fn texto_normalizado(v: Option<String>) -> (r: Option<String>)
    ensures
        match r { Some(s) => Some(s@), None => None } == texto_normalizado_spec(
            match v { Some(s) => Some(s@), None => None },
        ),
{
    match v {
        Some(s) => {
            if vazio_ao_aparar(s.as_str()) {
                None
            } else {
                Some(aparado(s.as_str()))
            }
        },
        None => None,
    }
}

/// Quantidade inteira agregada: `NULL` (soma de tudo nulo) vira 0.
pub fn inteiro_ou_zero(v: Option<i32>) -> (r: i32)
    ensures
        r == match v { Some(n) => n, None => 0 },
{
    match v {
        Some(n) => n,
        None => 0,
    }
}

/// Booleano agregado: `NULL` (`BOOL_OR` vazio) vira falso.
pub fn booleano_ou_falso(v: Option<bool>) -> (r: bool)
    ensures
        r == match v { Some(b) => b, None => false },
{
    match v {
        Some(b) => b,
        None => false,
    }
}

} // verus!
