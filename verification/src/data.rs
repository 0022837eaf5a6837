//! Datas do calendário gregoriano proléptico, representadas pelo número do dia contado a partir
//! de 1º de janeiro do ano 1 (que é o dia 1), como em `chrono::Datelike::num_days_from_ce`.
//! Nessa representação a ordem cronológica é a ordem dos números e subtrair dias é subtrair.

use vstd::prelude::*;

verus! {

/// Primeiro dia representável (1º de janeiro do ano -262143).
pub const DIA_MINIMO: i32 = -95746129;

/// Último dia representável (31 de dezembro do ano 262142).
pub const DIA_MAXIMO: i32 = 95745399;

/// Uma data, pelo número do dia desde o início da era comum.
#[derive(Debug, Clone, Copy, PartialEq, Eq, Structural)]
pub struct Data {
    pub dias: i32,
}

/// `d` é uma data que o calendário representa.
pub open spec fn data_valida(d: int) -> bool {
    DIA_MINIMO <= d <= DIA_MAXIMO
}

/// Número do dia da data escrita em `texto` no formato `AAAA-MM-DD` aceito por
/// `chrono::NaiveDate::from_str`, ou `None` se o texto não é uma data válida.
pub uninterp spec fn dias_da_data(texto: Seq<char>) -> Option<int>;

/// Lê uma data `AAAA-MM-DD` com `chrono::NaiveDate::from_str` e a converte para o número do dia
/// (`Datelike::num_days_from_ce`). O contrato só diz que o resultado é o de `dias_da_data` para
/// o texto dado, e que o dia está no intervalo de `NaiveDate` (`DIA_MINIMO..=DIA_MAXIMO`); a
/// gramática aceita pelo `chrono` não é descrita aqui.
#[verifier::external_body]
pub fn ler_data(texto: &str) -> (r: Option<Data>)
    ensures
        r matches Some(d) ==> dias_da_data(texto@) == Some(d.dias as int) && data_valida(d.dias as int),
        r is None ==> dias_da_data(texto@) is None,
{
    texto.parse::<chrono::NaiveDate>().ok().map(|d| Data { dias: chrono::Datelike::num_days_from_ce(&d) })
}

/// A data `k` dias antes de `d` (`NaiveDate - Duration::days(k)`); o resultado precisa ser uma
/// data representável (fora disso a subtração do calendário entra em pânico).
pub fn dias_antes(d: Data, k: i64) -> (r: Data)
    requires
        data_valida(d.dias as int),
        data_valida(d.dias - k),
    ensures
        r.dias == d.dias - k,
{
    let v: i64 = (d.dias as i64) - k;
    Data { dias: v as i32 }
}

} // verus!
