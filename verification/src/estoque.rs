//! Os textos de uma linha da tabela de estoque: o nome mostrado, o disponível, a recomendação e a
//! quantidade a produzir. Sem recomendação (histórico insuficiente) o motor não tem alvo, e a
//! linha não inventa um.

use vstd::prelude::*;
use vstd::string::StringExecFns;
use crate::formato::{fmt_data, fmt_data_spec, fmt_milhar, milhar_com_sinal};
use crate::texto::{decimal, texto_decimal};
use crate::tipos::OrdemProducao;

verus! {

/// Os textos de uma linha da tabela de estoque.
#[derive(Clone, Debug, PartialEq, Eq)]
pub struct TextosLinhaEstoque {
    /// O produto, ou o código se o produto falta ou é vazio.
    pub nome: String,
    /// "{disponível} un".
    pub disponivel: String,
    /// "rec. {recomendado} un", ou "sem recomendação" sem alvo.
    pub recomendacao: String,
    /// "{sugerida} un"; nenhum texto sem alvo ou sem quantidade sugerida.
    pub produzir: Option<String>,
}

/// A linha tem alvo: o estoque recomendado é positivo.
pub open spec fn tem_alvo(recomendado: int) -> bool {
    recomendado > 0
}

/// Quantidade em unidades: "{n} un".
pub open spec fn unidades(n: int) -> Seq<char> {
    milhar_com_sinal(n) + " un"@
}

/// "{n} un" com o milhar à brasileira.
fn texto_unidades(n: i64) -> (s: String)
    ensures
        s@ == unidades(n as int),
{
    let mut s = fmt_milhar(n);
    s.append(" un");
    s
}

/// Monta os textos de uma linha da tabela de estoque.
pub fn textos_linha_estoque(
    codigo: &str,
    produto: Option<&str>,
    qtd_disponivel: i64,
    recomendado: i64,
    qtd_sugerida: i64,
) -> (r: TextosLinhaEstoque)
    ensures
        r.nome@ == (match produto {
            Some(p) => if p@.len() > 0 { p@ } else { codigo@ },
            None => codigo@,
        }),
        r.disponivel@ == unidades(qtd_disponivel as int),
        r.recomendacao@ == (if tem_alvo(recomendado as int) {
            "rec. "@ + unidades(recomendado as int)
        } else {
            "sem recomendação"@
        }),
        (r.produzir is Some) <==> (tem_alvo(recomendado as int) && qtd_sugerida > 0),
        r.produzir matches Some(t) ==> t@ == unidades(qtd_sugerida as int),
{
    let nome = match produto {
        Some(p) => if p.is_empty() {
            String::from_str(codigo)
        } else {
            String::from_str(p)
        },
        None => String::from_str(codigo),
    };
    let disponivel = texto_unidades(qtd_disponivel);
    let recomendacao = if recomendado <= 0 {
        String::from_str("sem recomendação")
    } else {
        let mut s = String::from_str("rec. ");
        let u = texto_unidades(recomendado);
        s.append(u.as_str());
        s
    };
    let produzir = if recomendado <= 0 || qtd_sugerida <= 0 {
        None
    } else {
        Some(texto_unidades(qtd_sugerida))
    };
    TextosLinhaEstoque { nome, disponivel, recomendacao, produzir }
}

/// Os textos de um cartão do histórico de produção.
#[derive(Clone, Debug, PartialEq, Eq)]
pub struct TextosOrdem {
    /// A data em "DD/MM/AAAA" ("—" se a ordem não tem data).
    pub data: String,
    /// "{quantidade} un".
    pub quantidade: String,
    /// O número do lote, ou "—".
    pub lote: String,
}

/// Monta os textos de um cartão do histórico de produção.
pub fn textos_ordem(o: &OrdemProducao) -> (r: TextosOrdem)
    ensures
        r.data@ == fmt_data_spec(match &o.data { Some(d) => d@, None => "—"@ }),
        r.quantidade@ == unidades(o.quantidade as int),
        r.lote@ == (match o.lote { Some(l) => decimal(l as int), None => "—"@ }),
{
    let data = match &o.data {
        Some(d) => fmt_data(d.as_str()),
        None => fmt_data("—"),
    };
    let lote = match o.lote {
        Some(l) => texto_decimal(l),
        None => String::from_str("—"),
    };
    TextosOrdem { data, quantidade: texto_unidades(o.quantidade), lote }
}

} // verus!
