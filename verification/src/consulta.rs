//! Consulta de estoque (filtros, faixas de cobertura, chaves e paginação) e os parâmetros de
//! query string que ela gera, compartilhados pela listagem e pela exportação.

use vstd::prelude::*;
use vstd::string::StringExecFns;
use crate::texto::iguais;

verus! {

/// Parâmetros da consulta de estoque. As faixas de cobertura vêm já escritas como texto (a forma
/// decimal com que entram na query string).
#[derive(Clone, Debug, Default, PartialEq, Eq)]
pub struct ConsultaEstoque {
    pub classe: Option<String>,
    pub status: Option<String>,
    pub busca: Option<String>,
    pub ordem: Option<String>,
    pub cobertura_min: Option<String>,
    pub cobertura_max: Option<String>,
    pub apenas_sugestao: bool,
    pub apenas_fora_linha: bool,
    pub limite: i64,
    pub deslocamento: i64,
}

/// Texto opcional como sequência.
pub open spec fn opcional(o: Option<String>) -> Option<Seq<char>> {
    match o {
        Some(s) => Some(s@),
        None => None,
    }
}

/// Um filtro de texto entra na query só se presente e não vazio.
pub open spec fn param_texto(chave: Seq<char>, v: Option<Seq<char>>) -> Seq<(Seq<char>, Seq<char>)> {
    match v {
        Some(s) => if s.len() > 0 { seq![(chave, s)] } else { seq![] },
        None => seq![],
    }
}

/// Uma faixa entra na query se presente.
pub open spec fn param_faixa(chave: Seq<char>, v: Option<Seq<char>>) -> Seq<(Seq<char>, Seq<char>)> {
    match v {
        Some(s) => seq![(chave, s)],
        None => seq![],
    }
}

/// Uma chave liga/desliga entra na query, como `true`, só se ligada.
pub open spec fn param_chave(chave: Seq<char>, b: bool) -> Seq<(Seq<char>, Seq<char>)> {
    if b {
        seq![(chave, "true"@)]
    } else {
        seq![]
    }
}

/// Os parâmetros da consulta, na ordem: classe, status, busca, ordem, faixas de cobertura e
/// chaves ligadas.
pub open spec fn parametros_spec(c: ConsultaEstoque) -> Seq<(Seq<char>, Seq<char>)> {
    param_texto("classe"@, opcional(c.classe)) + param_texto("status"@, opcional(c.status))
        + param_texto("busca"@, opcional(c.busca)) + param_texto("ordem"@, opcional(c.ordem))
        + param_faixa("cobertura_min"@, opcional(c.cobertura_min)) + param_faixa(
        "cobertura_max"@,
        opcional(c.cobertura_max),
    ) + param_chave("apenas_sugestao"@, c.apenas_sugestao) + param_chave(
        "apenas_fora_linha"@,
        c.apenas_fora_linha,
    )
}

/// Pares `(chave, valor)` como sequências.
pub open spec fn vista_parametros(v: Seq<(&'static str, String)>) -> Seq<(Seq<char>, Seq<char>)> {
    v.map_values(|p: (&'static str, String)| (p.0@, p.1@))
}

/// Acrescenta um filtro de texto, se presente e não vazio.
fn com_texto(params: &mut Vec<(&'static str, String)>, chave: &'static str, v: &Option<String>)
    ensures
        vista_parametros(final(params)@) == vista_parametros(old(params)@) + param_texto(chave@, opcional(*v)),
{
    match v {
        Some(s) => {
            if !s.as_str().is_empty() {
                let ghost antes = params@;
                params.push((chave, s.clone()));
                assert(vista_parametros(params@) =~= vista_parametros(antes) + seq![(chave@, s@)]);
            } else {
                assert(vista_parametros(params@) =~= vista_parametros(params@) + Seq::<(Seq<char>, Seq<char>)>::empty());
            }
        },
        None => {
            assert(vista_parametros(params@) =~= vista_parametros(params@) + Seq::<(Seq<char>, Seq<char>)>::empty());
        },
    }
}

/// Acrescenta uma faixa, se presente.
fn com_faixa(params: &mut Vec<(&'static str, String)>, chave: &'static str, v: &Option<String>)
    ensures
        vista_parametros(final(params)@) == vista_parametros(old(params)@) + param_faixa(chave@, opcional(*v)),
{
    match v {
        Some(s) => {
            let ghost antes = params@;
            params.push((chave, s.clone()));
            assert(vista_parametros(params@) =~= vista_parametros(antes) + seq![(chave@, s@)]);
        },
        None => {
            assert(vista_parametros(params@) =~= vista_parametros(params@) + Seq::<(Seq<char>, Seq<char>)>::empty());
        },
    }
}

/// Acrescenta uma chave ligada.
fn com_chave(params: &mut Vec<(&'static str, String)>, chave: &'static str, b: bool)
    ensures
        vista_parametros(final(params)@) == vista_parametros(old(params)@) + param_chave(chave@, b),
{
    if b {
        let ghost antes = params@;
        params.push((chave, String::from_str("true")));
        assert(vista_parametros(params@) =~= vista_parametros(antes) + seq![(chave@, "true"@)]);
    } else {
        assert(vista_parametros(params@) =~= vista_parametros(params@) + Seq::<(Seq<char>, Seq<char>)>::empty());
    }
}

/// Monta os parâmetros de query string da consulta de estoque (filtros + faixas + chaves).
pub fn parametros_consulta(c: &ConsultaEstoque) -> (r: Vec<(&'static str, String)>)
    ensures
        vista_parametros(r@) == parametros_spec(*c),
{
    let mut params: Vec<(&'static str, String)> = Vec::new();
    assert(vista_parametros(params@) =~= Seq::<(Seq<char>, Seq<char>)>::empty());
    com_texto(&mut params, "classe", &c.classe);
    com_texto(&mut params, "status", &c.status);
    com_texto(&mut params, "busca", &c.busca);
    com_texto(&mut params, "ordem", &c.ordem);
    com_faixa(&mut params, "cobertura_min", &c.cobertura_min);
    com_faixa(&mut params, "cobertura_max", &c.cobertura_max);
    com_chave(&mut params, "apenas_sugestao", c.apenas_sugestao);
    com_chave(&mut params, "apenas_fora_linha", c.apenas_fora_linha);
    assert(vista_parametros(params@) =~= parametros_spec(*c));
    params
}

/// Estado da lista de estoque (busca, filtros, ordenação e página), que sobrevive à ida ao
/// detalhe de um produto e à volta.
#[derive(Clone, Debug, PartialEq, Eq)]
pub struct FiltroEstoque {
    pub classe: Option<String>,
    pub status: Option<String>,
    /// Termo já aplicado (o que filtra a consulta).
    pub busca: String,
    /// O que está sendo digitado no campo (aplicado no Enter).
    pub busca_input: String,
    pub ordem: String,
    /// Estado de produção: `em_producao`, `aguardando` ou `recem_produzido`.
    pub producao: Option<String>,
    pub limite: i64,
    pub deslocamento: i64,
}

impl Default for FiltroEstoque {
    /// Sem filtros, ordenado pela maior sugestão, primeira página de 50.
    fn default() -> (r: Self)
        ensures
            r.classe is None,
            r.status is None,
            r.busca@.len() == 0,
            r.busca_input@.len() == 0,
            r.ordem@ == "sugerida_desc"@,
            r.producao is None,
            r.limite == 50,
            r.deslocamento == 0,
    {
        FiltroEstoque {
            classe: None,
            status: None,
            busca: String::new(),
            busca_input: String::new(),
            ordem: String::from_str("sugerida_desc"),
            producao: None,
            limite: 50,
            deslocamento: 0,
        }
    }
}

/// Cópia de um texto opcional.
fn copia(o: &Option<String>) -> (r: Option<String>)
    ensures
        opcional(r) == opcional(*o),
{
    match o {
        Some(s) => Some(s.clone()),
        None => None,
    }
}

impl FiltroEstoque {
    /// A consulta enviada ao servidor: os filtros, a busca aplicada, a ordem e a página. A faixa de
    /// cobertura e os recortes "só com sugestão" e "só fora de linha" seguem nos valores neutros,
    /// que não restringem o resultado.
    pub fn consulta(&self) -> (c: ConsultaEstoque)
        ensures
            opcional(c.classe) == opcional(self.classe),
            opcional(c.status) == opcional(self.status),
            opcional(c.busca) == Some(self.busca@),
            opcional(c.ordem) == Some(self.ordem@),
            c.cobertura_min is None,
            c.cobertura_max is None,
            !c.apenas_sugestao,
            !c.apenas_fora_linha,
            c.limite == self.limite,
            c.deslocamento == self.deslocamento,
    {
        ConsultaEstoque {
            classe: copia(&self.classe),
            status: copia(&self.status),
            busca: Some(self.busca.clone()),
            ordem: Some(self.ordem.clone()),
            cobertura_min: None,
            cobertura_max: None,
            apenas_sugestao: false,
            apenas_fora_linha: false,
            limite: self.limite,
            deslocamento: self.deslocamento,
        }
    }
}

/// A ordem `{chave}_asc`.
pub open spec fn ordem_asc(chave: Seq<char>) -> Seq<char> {
    chave + "_asc"@
}

/// A ordem `{chave}_desc`.
pub open spec fn ordem_desc(chave: Seq<char>) -> Seq<char> {
    chave + "_desc"@
}

/// `{chave}{sufixo}`.
fn com_sufixo(chave: &str, sufixo: &str) -> (r: String)
    ensures
        r@ == chave@ + sufixo@,
{
    let mut r = String::from_str(chave);
    r.append(sufixo);
    r
}

/// A ordem depois do clique no cabeçalho da coluna `chave`.
pub open spec fn alternar_spec(atual: Seq<char>, chave: Seq<char>) -> Seq<char> {
    if atual == ordem_asc(chave) { ordem_desc(chave) } else { ordem_asc(chave) }
}

/// Clique no cabeçalho de uma coluna: se a lista está em ordem crescente por ela, passa a
/// decrescente; em qualquer outro caso, crescente.
pub fn alternar_ordem(atual: &str, chave: &str) -> (r: String)
    ensures
        r@ == alternar_spec(atual@, chave@),
{
    let asc = com_sufixo(chave, "_asc");
    if iguais(atual, asc.as_str()) {
        com_sufixo(chave, "_desc")
    } else {
        asc
    }
}

/// O `aria-sort` do cabeçalho de uma coluna: crescente, decrescente ou nenhum.
pub fn aria_ordem(atual: &str, chave: &str) -> (r: &'static str)
    ensures
        r@ == (if atual@ == ordem_asc(chave@) {
            "ascending"@
        } else if atual@ == ordem_desc(chave@) {
            "descending"@
        } else {
            "none"@
        }),
{
    let asc = com_sufixo(chave, "_asc");
    let desc = com_sufixo(chave, "_desc");
    if iguais(atual, asc.as_str()) {
        "ascending"
    } else if iguais(atual, desc.as_str()) {
        "descending"
    } else {
        "none"
    }
}

/// Clicar no cabeçalho de uma coluna sempre ordena por ela, e dois cliques seguidos voltam à
/// ordem crescente: crescente e decrescente se alternam.
pub proof fn lei_alternar_duas_vezes(atual: Seq<char>, chave: Seq<char>)
    ensures
        alternar_spec(atual, chave) == ordem_asc(chave) || alternar_spec(atual, chave) == ordem_desc(chave),
        alternar_spec(ordem_asc(chave), chave) == ordem_desc(chave),
        alternar_spec(ordem_desc(chave), chave) == ordem_asc(chave),
        alternar_spec(alternar_spec(ordem_asc(chave), chave), chave) == ordem_asc(chave),
{
    reveal_strlit("_asc");
    reveal_strlit("_desc");
    let a = ordem_asc(chave);
    let d = ordem_desc(chave);
    assert(a.len() != d.len());
}

proof fn lema_concat_contem(a: Seq<(Seq<char>, Seq<char>)>, b: Seq<(Seq<char>, Seq<char>)>, x: (Seq<char>, Seq<char>))
    ensures
        (a + b).contains(x) <==> (a.contains(x) || b.contains(x)),
{
    if (a + b).contains(x) {
        let i = choose|i: int| 0 <= i < (a + b).len() && (a + b)[i] == x;
        if i >= a.len() {
            assert(b[i - a.len()] == x);
        }
    }
    if a.contains(x) {
        let i = choose|i: int| 0 <= i < a.len() && a[i] == x;
        assert((a + b)[i] == x);
    }
    if b.contains(x) {
        let i = choose|i: int| 0 <= i < b.len() && b[i] == x;
        assert((a + b)[a.len() + i] == x);
    }
}

proof fn lema_um_contem(p: (Seq<char>, Seq<char>), x: (Seq<char>, Seq<char>))
    ensures
        seq![p].contains(x) <==> x == p,
{
    if x == p {
        assert(seq![p][0] == x);
    }
}

/// O par `x` vem de um campo da consulta: um filtro de texto presente e não vazio com o seu nome,
/// uma faixa presente com o seu nome, ou uma chave ligada com `true`.
pub open spec fn par_da_consulta(c: ConsultaEstoque, x: (Seq<char>, Seq<char>)) -> bool {
    ||| (x.0 == "classe"@ && opcional(c.classe) == Some(x.1) && x.1.len() > 0)
    ||| (x.0 == "status"@ && opcional(c.status) == Some(x.1) && x.1.len() > 0)
    ||| (x.0 == "busca"@ && opcional(c.busca) == Some(x.1) && x.1.len() > 0)
    ||| (x.0 == "ordem"@ && opcional(c.ordem) == Some(x.1) && x.1.len() > 0)
    ||| (x.0 == "cobertura_min"@ && opcional(c.cobertura_min) == Some(x.1))
    ||| (x.0 == "cobertura_max"@ && opcional(c.cobertura_max) == Some(x.1))
    ||| (x.0 == "apenas_sugestao"@ && c.apenas_sugestao && x.1 == "true"@)
    ||| (x.0 == "apenas_fora_linha"@ && c.apenas_fora_linha && x.1 == "true"@)
}

/// A query string da consulta tem exatamente os pares dos campos dela: cada filtro de texto
/// (classe, status, busca, ordem) presente e não vazio aparece com o seu valor, cada faixa de
/// cobertura presente aparece, cada chave ligada aparece como `true`, e nenhum outro par aparece.
pub proof fn lei_parametros_da_consulta(c: ConsultaEstoque, x: (Seq<char>, Seq<char>))
    ensures
        parametros_spec(c).contains(x) <==> par_da_consulta(c, x),
{
    let p1 = param_texto("classe"@, opcional(c.classe));
    let p2 = param_texto("status"@, opcional(c.status));
    let p3 = param_texto("busca"@, opcional(c.busca));
    let p4 = param_texto("ordem"@, opcional(c.ordem));
    let p5 = param_faixa("cobertura_min"@, opcional(c.cobertura_min));
    let p6 = param_faixa("cobertura_max"@, opcional(c.cobertura_max));
    let p7 = param_chave("apenas_sugestao"@, c.apenas_sugestao);
    let p8 = param_chave("apenas_fora_linha"@, c.apenas_fora_linha);
    assert(parametros_spec(c) == p1 + p2 + p3 + p4 + p5 + p6 + p7 + p8);
    lema_concat_contem(p1 + p2 + p3 + p4 + p5 + p6 + p7, p8, x);
    lema_concat_contem(p1 + p2 + p3 + p4 + p5 + p6, p7, x);
    lema_concat_contem(p1 + p2 + p3 + p4 + p5, p6, x);
    lema_concat_contem(p1 + p2 + p3 + p4, p5, x);
    lema_concat_contem(p1 + p2 + p3, p4, x);
    lema_concat_contem(p1 + p2, p3, x);
    lema_concat_contem(p1, p2, x);
    let vazio = Seq::<(Seq<char>, Seq<char>)>::empty();
    assert(!vazio.contains(x));
    if let Some(v) = opcional(c.classe) { lema_um_contem(("classe"@, v), x); }
    if let Some(v) = opcional(c.status) { lema_um_contem(("status"@, v), x); }
    if let Some(v) = opcional(c.busca) { lema_um_contem(("busca"@, v), x); }
    if let Some(v) = opcional(c.ordem) { lema_um_contem(("ordem"@, v), x); }
    if let Some(v) = opcional(c.cobertura_min) { lema_um_contem(("cobertura_min"@, v), x); }
    if let Some(v) = opcional(c.cobertura_max) { lema_um_contem(("cobertura_max"@, v), x); }
    lema_um_contem(("apenas_sugestao"@, "true"@), x);
    lema_um_contem(("apenas_fora_linha"@, "true"@), x);
}

} // verus!
