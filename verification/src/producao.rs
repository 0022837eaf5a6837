//! Criação de ordens de produção a partir dos produtos marcados na lista de estoque: as
//! quantidades por produto (que nascem da sugestão do motor e o usuário pode ajustar), a decisão
//! de cada item do lote e o que fica marcado depois do envio.

use vstd::prelude::*;
use vstd::string::StringExecFns;
use crate::painel::{pares, quantidade_de};
use crate::texto::iguais;

verus! {

broadcast use vstd::seq_lib::group_seq_properties;

/// Um produto marcado na lista de estoque para virar ordem de produção.
#[derive(Clone, Debug, PartialEq, Eq)]
pub struct ProdutoSelecionado {
    pub codigo: String,
    pub nome: String,
    /// Quantidade sugerida pelo motor.
    pub qtd_sugerida: i64,
}

/// Pares `(código, quantidade sugerida)` da seleção.
pub open spec fn sugestoes(ps: Seq<ProdutoSelecionado>) -> Seq<(Seq<char>, int)> {
    ps.map_values(|p: ProdutoSelecionado| (p.codigo@, p.qtd_sugerida as int))
}

/// Algum par de `s` tem o código `c`.
pub open spec fn tem_codigo(s: Seq<(Seq<char>, int)>, c: Seq<char>) -> bool {
    exists|i: int| 0 <= i < s.len() && #[trigger] s[i].0 == c
}

/// O par tem um código da seleção `ps`.
pub open spec fn na_selecao(ps: Seq<(Seq<char>, int)>) -> spec_fn((Seq<char>, int)) -> bool {
    |x: (Seq<char>, int)| tem_codigo(ps, x.0)
}

/// `n`, ou 0 se for negativo.
pub open spec fn nao_negativo(n: int) -> int {
    if n >= 0 { n } else { 0 }
}

/// Acrescenta ao fim de `q`, na ordem da seleção, cada produto ainda sem quantidade, com a
/// sugestão do motor (nunca negativa).
pub open spec fn acrescentar_sugestoes(q: Seq<(Seq<char>, int)>, ps: Seq<(Seq<char>, int)>) -> Seq<(Seq<char>, int)>
    decreases ps.len(),
{
    if ps.len() == 0 {
        q
    } else {
        let antes = acrescentar_sugestoes(q, ps.drop_last());
        if tem_codigo(antes, ps.last().0) {
            antes
        } else {
            antes.push((ps.last().0, nao_negativo(ps.last().1)))
        }
    }
}

/// Quantidades sincronizadas com a seleção: saem as de produtos desmarcados, ficam as demais
/// (com o valor que o usuário deu) e entram os produtos marcados depois, com a sugestão.
pub open spec fn sincronizado(q: Seq<(Seq<char>, int)>, ps: Seq<(Seq<char>, int)>) -> Seq<(Seq<char>, int)> {
    acrescentar_sugestoes(q.filter(na_selecao(ps)), ps)
}

/// Se algum produto da seleção tem o código `c`.
fn esta_selecionado(atuais: &Vec<ProdutoSelecionado>, c: &str) -> (r: bool)
    ensures
        r == tem_codigo(sugestoes(atuais@), c@),
{
    let ghost ps = sugestoes(atuais@);
    let mut i: usize = 0;
    while i < atuais.len()
        invariant
            ps == sugestoes(atuais@),
            i <= atuais@.len(),
            forall|k: int| 0 <= k < i ==> #[trigger] ps[k].0 != c@,
        decreases atuais.len() - i,
    {
        if iguais(atuais[i].codigo.as_str(), c) {
            assert(ps[i as int].0 == c@);
            return true;
        }
        i = i + 1;
    }
    false
}

/// Se alguma quantidade é do código `c`.
fn tem_quantidade(q: &Vec<(String, i64)>, c: &str) -> (r: bool)
    ensures
        r == tem_codigo(pares(q@), c@),
{
    let ghost s = pares(q@);
    let mut i: usize = 0;
    while i < q.len()
        invariant
            s == pares(q@),
            i <= q@.len(),
            forall|k: int| 0 <= k < i ==> #[trigger] s[k].0 != c@,
        decreases q.len() - i,
    {
        if iguais(q[i].0.as_str(), c) {
            assert(s[i as int].0 == c@);
            return true;
        }
        i = i + 1;
    }
    false
}

/// Sincroniza as quantidades com a seleção (um produto marcado depois entra com a sugestão).
pub fn sincronizar_quantidades(quantidades: &mut Vec<(String, i64)>, atuais: &Vec<ProdutoSelecionado>)
    ensures
        pares(final(quantidades)@) == sincronizado(pares(old(quantidades)@), sugestoes(atuais@)),
        codigos_distintos(pares(old(quantidades)@)) ==> codigos_distintos(pares(final(quantidades)@)),
{
    let ghost ps = sugestoes(atuais@);
    let ghost q0 = pares(quantidades@);
    let mut mantidas: Vec<(String, i64)> = Vec::new();
    let mut i: usize = 0;
    assert(q0.take(0) =~= Seq::<(Seq<char>, int)>::empty());
    proof {
        q0.take(0).lemma_filter_len(na_selecao(ps));
    }
    while i < quantidades.len()
        invariant
            ps == sugestoes(atuais@),
            q0 == pares(quantidades@),
            i <= quantidades@.len(),
            pares(mantidas@) == q0.take(i as int).filter(na_selecao(ps)),
        decreases quantidades.len() - i,
    {
        proof {
            assert(q0.take(i + 1) =~= q0.take(i as int).push(q0[i as int]));
            q0.take(i as int).lemma_filter_push(q0[i as int], na_selecao(ps));
        }
        if esta_selecionado(atuais, quantidades[i].0.as_str()) {
            let ghost velho = mantidas@;
            mantidas.push((quantidades[i].0.clone(), quantidades[i].1));
            assert(pares(mantidas@) =~= pares(velho).push(q0[i as int]));
        }
        i = i + 1;
    }
    assert(q0.take(i as int) =~= q0);
    let ghost base = pares(mantidas@);
    let mut j: usize = 0;
    assert(ps.take(0) =~= Seq::<(Seq<char>, int)>::empty());
    while j < atuais.len()
        invariant
            ps == sugestoes(atuais@),
            j <= atuais@.len(),
            pares(mantidas@) == acrescentar_sugestoes(base, ps.take(j as int)),
        decreases atuais.len() - j,
    {
        assert(ps.take(j + 1).drop_last() =~= ps.take(j as int));
        assert(ps.take(j + 1).last() == ps[j as int]);
        if !tem_quantidade(&mantidas, atuais[j].codigo.as_str()) {
            let q = if atuais[j].qtd_sugerida >= 0 { atuais[j].qtd_sugerida } else { 0 };
            let ghost velho = mantidas@;
            mantidas.push((atuais[j].codigo.clone(), q));
            assert(pares(mantidas@) =~= pares(velho).push((ps[j as int].0, nao_negativo(ps[j as int].1))));
        }
        j = j + 1;
    }
    assert(ps.take(j as int) =~= ps);
    proof {
        if codigos_distintos(q0) {
            lei_sincronizar_um_por_codigo(q0, ps);
        }
    }
    *quantidades = mantidas;
}

/// Índice do primeiro par com o código `c`, se houver.
pub open spec fn primeiro_indice(s: Seq<(Seq<char>, int)>, c: Seq<char>) -> Option<int>
    decreases s.len(),
{
    if s.len() == 0 {
        None
    } else if s[0].0 == c {
        Some(0)
    } else {
        match primeiro_indice(s.drop_first(), c) {
            Some(i) => Some(i + 1),
            None => None,
        }
    }
}

/// O primeiro índice é o de um par com o código, antes do qual nenhum tem o código; sem ele,
/// nenhum par tem o código. A quantidade lida é a desse par (0 sem ele).
pub proof fn lema_primeiro_indice(s: Seq<(Seq<char>, int)>, c: Seq<char>)
    ensures
        primeiro_indice(s, c) matches Some(i) ==> 0 <= i < s.len() && s[i].0 == c && quantidade_de(s, c)
            == s[i].1 && forall|j: int| 0 <= j < i ==> #[trigger] s[j].0 != c,
        primeiro_indice(s, c) is None ==> quantidade_de(s, c) == 0 && forall|j: int|
            0 <= j < s.len() ==> #[trigger] s[j].0 != c,
    decreases s.len(),
{
    if s.len() > 0 {
        lema_primeiro_indice(s.drop_first(), c);
        assert forall|j: int| 1 <= j < s.len() implies #[trigger] s[j] == s.drop_first()[j - 1] by {}
    }
}

/// A quantidade de um produto (0 se ele não tem uma).
pub fn qtd_de(quantidades: &Vec<(String, i64)>, codigo: &str) -> (r: i64)
    ensures
        r == quantidade_de(pares(quantidades@), codigo@),
{
    match indice_de(quantidades, codigo) {
        Some(i) => {
            proof {
                lema_primeiro_indice(pares(quantidades@), codigo@);
            }
            quantidades[i].1
        },
        None => {
            proof {
                lema_primeiro_indice(pares(quantidades@), codigo@);
            }
            0
        },
    }
}

/// Índice da primeira quantidade do código.
fn indice_de(quantidades: &Vec<(String, i64)>, codigo: &str) -> (r: Option<usize>)
    ensures
        r matches Some(i) ==> primeiro_indice(pares(quantidades@), codigo@) == Some(i as int),
        r is None ==> primeiro_indice(pares(quantidades@), codigo@) is None,
{
    let ghost s = pares(quantidades@);
    let mut i: usize = 0;
    while i < quantidades.len()
        invariant
            s == pares(quantidades@),
            i <= quantidades@.len(),
            forall|k: int| 0 <= k < i ==> #[trigger] s[k].0 != codigo@,
        decreases quantidades.len() - i,
    {
        if iguais(quantidades[i].0.as_str(), codigo) {
            proof {
                lema_primeiro_indice(s, codigo@);
                if let Some(k) = primeiro_indice(s, codigo@) {
                    if k < i {
                    } else if k > i {
                        assert(s[i as int].0 == codigo@);
                    }
                } else {
                    assert(s[i as int].0 == codigo@);
                }
            }
            return Some(i);
        }
        i = i + 1;
    }
    proof {
        lema_primeiro_indice(s, codigo@);
        if let Some(k) = primeiro_indice(s, codigo@) {
            assert(s[k].0 == codigo@);
        }
    }
    None
}

/// Novo valor para a quantidade de um produto: o primeiro par do código passa a ter `valor`
/// (nunca negativo); sem par do código, nada muda.
pub fn definir_qtd(quantidades: &mut Vec<(String, i64)>, codigo: &str, valor: i64)
    ensures
        primeiro_indice(pares(old(quantidades)@), codigo@) matches Some(i) ==> pares(final(quantidades)@)
            == pares(old(quantidades)@).update(i, (codigo@, nao_negativo(valor as int))),
        primeiro_indice(pares(old(quantidades)@), codigo@) is None ==> final(quantidades)@ == old(
            quantidades,
        )@,
        codigos_distintos(pares(old(quantidades)@)) ==> codigos_distintos(pares(final(quantidades)@)),
{
    match indice_de(quantidades, codigo) {
        None => {},
        Some(i) => {
            proof {
                lema_primeiro_indice(pares(quantidades@), codigo@);
            }
            let v = if valor >= 0 { valor } else { 0 };
            let c = quantidades[i].0.clone();
            let ghost velho = quantidades@;
            quantidades.set(i, (c, v));
            assert(pares(quantidades@) =~= pares(velho).update(i as int, (codigo@, nao_negativo(valor as int))));
            proof {
                if codigos_distintos(pares(velho)) {
                    lei_definir_um_por_codigo(pares(velho), codigo@, valor as int);
                }
            }
        },
    }
}

/// O que fazer com um produto do lote: criar a ordem com a quantidade, ou recusá-lo com o motivo.
#[derive(Debug, Clone, PartialEq, Eq)]
pub enum DecisaoItem {
    Criar(i64),
    Recusar(String),
}

/// Decide um item do lote: quantidade zerada (ou negativa) não vira ordem, seria uma ordem vazia.
pub fn decidir_item(quantidades: &Vec<(String, i64)>, codigo: &str) -> (r: DecisaoItem)
    ensures
        quantidade_de(pares(quantidades@), codigo@) > 0 ==> r == DecisaoItem::Criar(
            quantidade_de(pares(quantidades@), codigo@) as i64,
        ),
        quantidade_de(pares(quantidades@), codigo@) <= 0 ==> (r matches DecisaoItem::Recusar(m) && m@
            == "quantidade zerada"@),
{
    let q = qtd_de(quantidades, codigo);
    if q <= 0 {
        DecisaoItem::Recusar(String::from_str("quantidade zerada"))
    } else {
        DecisaoItem::Criar(q)
    }
}

/// Resultado da criação de uma ordem, por produto.
#[derive(Clone, Debug, PartialEq, Eq)]
pub struct Resultado {
    pub codigo: String,
    pub nome: String,
    pub erro: Option<String>,
}

/// Códigos dos produtos cuja ordem falhou, na ordem do lote.
pub open spec fn codigos_com_falha(saida: Seq<Resultado>) -> Seq<Seq<char>>
    decreases saida.len(),
{
    if saida.len() == 0 {
        Seq::empty()
    } else {
        let antes = codigos_com_falha(saida.drop_last());
        if saida.last().erro is Some {
            antes.push(saida.last().codigo@)
        } else {
            antes
        }
    }
}

/// Os códigos que falharam no lote.
pub fn falhas_do_lote(saida: &Vec<Resultado>) -> (r: Vec<String>)
    ensures
        r@.map_values(|x: String| x@) == codigos_com_falha(saida@),
{
    let mut r: Vec<String> = Vec::new();
    let mut i: usize = 0;
    assert(saida@.take(0) =~= Seq::<Resultado>::empty());
    while i < saida.len()
        invariant
            i <= saida@.len(),
            r@.map_values(|x: String| x@) == codigos_com_falha(saida@.take(i as int)),
        decreases saida.len() - i,
    {
        assert(saida@.take(i + 1).drop_last() =~= saida@.take(i as int));
        if saida[i].erro.is_some() {
            let ghost velho = r@;
            r.push(saida[i].codigo.clone());
            assert(r@.map_values(|x: String| x@) =~= velho.map_values(|x: String| x@).push(saida@[i as int].codigo@));
        }
        i = i + 1;
    }
    assert(saida@.take(i as int) =~= saida@);
    r
}

/// O produto tem um dos códigos de `codigos`.
pub open spec fn com_codigo_em(codigos: Seq<Seq<char>>) -> spec_fn(ProdutoSelecionado) -> bool {
    |p: ProdutoSelecionado| codigos.contains(p.codigo@)
}

/// Se `c` está entre os códigos.
fn contem_codigo(codigos: &Vec<String>, c: &str) -> (r: bool)
    ensures
        r == codigos@.map_values(|x: String| x@).contains(c@),
{
    let ghost s = codigos@.map_values(|x: String| x@);
    let mut i: usize = 0;
    while i < codigos.len()
        invariant
            s == codigos@.map_values(|x: String| x@),
            i <= codigos@.len(),
            forall|k: int| 0 <= k < i ==> #[trigger] s[k] != c@,
        decreases codigos.len() - i,
    {
        if iguais(codigos[i].as_str(), c) {
            assert(s[i as int] == c@);
            return true;
        }
        i = i + 1;
    }
    false
}

/// Depois do envio, só os produtos que falharam continuam marcados, na mesma ordem: o usuário vê
/// o que ficou pendente e pode tentar de novo sem remontar a seleção.
pub fn reter_falhas(selecao: &mut Vec<ProdutoSelecionado>, falhas: &Vec<String>)
    ensures
        final(selecao)@ == old(selecao)@.filter(com_codigo_em(falhas@.map_values(|x: String| x@))),
{
    let ghost f = com_codigo_em(falhas@.map_values(|x: String| x@));
    let mut antigos: Vec<ProdutoSelecionado> = Vec::new();
    std::mem::swap(&mut antigos, selecao);
    let ghost anteriores = antigos@;
    let mut novos: Vec<ProdutoSelecionado> = Vec::new();
    assert(anteriores.take(0) =~= Seq::<ProdutoSelecionado>::empty());
    proof {
        anteriores.take(0).lemma_filter_len(f);
    }
    for p in it: antigos
        invariant
            it.seq() == anteriores,
            f == com_codigo_em(falhas@.map_values(|x: String| x@)),
            novos@ == anteriores.take(it.index() as int).filter(f),
    {
        proof {
            assert(anteriores.take(it.index() + 1) =~= anteriores.take(it.index() as int).push(p));
            anteriores.take(it.index() as int).lemma_filter_push(p, f);
        }
        if contem_codigo(falhas, p.codigo.as_str()) {
            novos.push(p);
        }
    }
    assert(anteriores.take(anteriores.len() as int) =~= anteriores);
    *selecao = novos;
}

/// O produto não tem o código `c`.
pub open spec fn sem_codigo(c: Seq<char>) -> spec_fn(ProdutoSelecionado) -> bool {
    |p: ProdutoSelecionado| p.codigo@ != c
}

/// Remove da seleção o produto com o código dado (o botão de fechar de cada item).
pub fn remover_da_selecao(selecao: &mut Vec<ProdutoSelecionado>, codigo: &str)
    ensures
        final(selecao)@ == old(selecao)@.filter(sem_codigo(codigo@)),
{
    let ghost f = sem_codigo(codigo@);
    let mut antigos: Vec<ProdutoSelecionado> = Vec::new();
    std::mem::swap(&mut antigos, selecao);
    let ghost anteriores = antigos@;
    let mut novos: Vec<ProdutoSelecionado> = Vec::new();
    assert(anteriores.take(0) =~= Seq::<ProdutoSelecionado>::empty());
    proof {
        anteriores.take(0).lemma_filter_len(f);
    }
    for p in it: antigos
        invariant
            it.seq() == anteriores,
            f == sem_codigo(codigo@),
            novos@ == anteriores.take(it.index() as int).filter(f),
    {
        proof {
            assert(anteriores.take(it.index() + 1) =~= anteriores.take(it.index() as int).push(p));
            anteriores.take(it.index() as int).lemma_filter_push(p, f);
        }
        if !iguais(p.codigo.as_str(), codigo) {
            novos.push(p);
        }
    }
    assert(anteriores.take(anteriores.len() as int) =~= anteriores);
    *selecao = novos;
}

/// Quantas ordens do lote foram criadas.
pub open spec fn criadas(feitos: Seq<Resultado>) -> nat
    decreases feitos.len(),
{
    if feitos.len() == 0 {
        0
    } else {
        criadas(feitos.drop_last()) + if feitos.last().erro is None {
            1nat
        } else {
            0nat
        }
    }
}

proof fn lema_criadas_limitadas(feitos: Seq<Resultado>)
    ensures
        criadas(feitos) <= feitos.len(),
    decreases feitos.len(),
{
    if feitos.len() > 0 {
        lema_criadas_limitadas(feitos.drop_last());
    }
}

/// Resumo do lote: quantas ordens foram criadas e quantas falharam (o resto).
pub fn resumo_criacao(feitos: &Vec<Resultado>) -> (r: (usize, usize))
    ensures
        r.0 == criadas(feitos@),
        r.0 + r.1 == feitos@.len(),
{
    let mut ok: usize = 0;
    let mut i: usize = 0;
    assert(feitos@.take(0) =~= Seq::<Resultado>::empty());
    while i < feitos.len()
        invariant
            i <= feitos@.len(),
            ok == criadas(feitos@.take(i as int)),
            ok <= i,
        decreases feitos.len() - i,
    {
        assert(feitos@.take(i + 1).drop_last() =~= feitos@.take(i as int));
        if feitos[i].erro.is_none() {
            ok = ok + 1;
        }
        i = i + 1;
    }
    assert(feitos@.take(i as int) =~= feitos@);
    (ok, feitos.len() - ok)
}

/// `acrescentar_sugestoes` só acrescenta: `q` continua no começo.
proof fn lema_acrescentar_prefixo(q: Seq<(Seq<char>, int)>, ps: Seq<(Seq<char>, int)>)
    ensures
        acrescentar_sugestoes(q, ps).len() >= q.len(),
        forall|i: int| 0 <= i < q.len() ==> #[trigger] acrescentar_sugestoes(q, ps)[i] == q[i],
    decreases ps.len(),
{
    if ps.len() > 0 {
        lema_acrescentar_prefixo(q, ps.drop_last());
    }
}

/// Depois de acrescentar, um código está presente se já estava ou se está na seleção.
proof fn lema_acrescentar_codigos(q: Seq<(Seq<char>, int)>, ps: Seq<(Seq<char>, int)>, c: Seq<char>)
    ensures
        tem_codigo(acrescentar_sugestoes(q, ps), c) <==> (tem_codigo(q, c) || tem_codigo(ps, c)),
    decreases ps.len(),
{
    if ps.len() > 0 {
        let t = ps.drop_last();
        lema_acrescentar_codigos(q, t, c);
        let antes = acrescentar_sugestoes(q, t);
        let depois = acrescentar_sugestoes(q, ps);
        if tem_codigo(t, c) {
            let j = choose|j: int| 0 <= j < t.len() && #[trigger] t[j].0 == c;
            assert(ps[j] == t[j]);
        }
        if tem_codigo(ps, c) && !tem_codigo(t, c) {
            let j = choose|j: int| 0 <= j < ps.len() && #[trigger] ps[j].0 == c;
            if j < t.len() {
                assert(t[j] == ps[j]);
            }
            assert(ps.last().0 == c);
        }
        if tem_codigo(antes, c) {
            let j = choose|j: int| 0 <= j < antes.len() && #[trigger] antes[j].0 == c;
            if !tem_codigo(antes, ps.last().0) {
                assert(depois[j] == antes[j]);
            }
        }
        if !tem_codigo(antes, ps.last().0) {
            assert(depois[antes.len() as int].0 == ps.last().0);
            if tem_codigo(depois, c) {
                let j = choose|j: int| 0 <= j < depois.len() && #[trigger] depois[j].0 == c;
                if j < antes.len() {
                    assert(antes[j] == depois[j]);
                }
            }
        } else {
            let k = choose|k: int| 0 <= k < antes.len() && #[trigger] antes[k].0 == ps.last().0;
            assert(antes[k].0 == ps.last().0);
        }
        if tem_codigo(t, c) {
            let j = choose|j: int| 0 <= j < t.len() && #[trigger] t[j].0 == c;
            assert(ps[j].0 == c);
        }
    }
}

/// Se cada produto da seleção já tem quantidade, acrescentar não muda nada.
proof fn lema_acrescentar_fixo(q: Seq<(Seq<char>, int)>, ps: Seq<(Seq<char>, int)>)
    requires
        forall|j: int| 0 <= j < ps.len() ==> tem_codigo(q, #[trigger] ps[j].0),
    ensures
        acrescentar_sugestoes(q, ps) == q,
    decreases ps.len(),
{
    if ps.len() > 0 {
        let t = ps.drop_last();
        assert forall|j: int| 0 <= j < t.len() implies tem_codigo(q, #[trigger] t[j].0) by {
            assert(t[j] == ps[j]);
        }
        lema_acrescentar_fixo(q, t);
        assert(tem_codigo(q, ps[ps.len() - 1].0));
    }
}

/// Quantidades não negativas continuam não negativas depois de acrescentar.
proof fn lema_acrescentar_nao_negativo(q: Seq<(Seq<char>, int)>, ps: Seq<(Seq<char>, int)>)
    requires
        forall|i: int| 0 <= i < q.len() ==> #[trigger] q[i].1 >= 0,
    ensures
        forall|i: int| 0 <= i < acrescentar_sugestoes(q, ps).len() ==> #[trigger] acrescentar_sugestoes(q, ps)[i].1 >= 0,
    decreases ps.len(),
{
    if ps.len() > 0 {
        lema_acrescentar_nao_negativo(q, ps.drop_last());
        let antes = acrescentar_sugestoes(q, ps.drop_last());
        let depois = acrescentar_sugestoes(q, ps);
        assert forall|i: int| 0 <= i < depois.len() implies #[trigger] depois[i].1 >= 0 by {
            if i < antes.len() {
                assert(depois[i] == antes[i]);
            }
        }
    }
}

/// Os pares mantidos pelo filtro são da seleção.
proof fn lema_mantidas_selecionadas(q: Seq<(Seq<char>, int)>, ps: Seq<(Seq<char>, int)>, c: Seq<char>)
    ensures
        tem_codigo(q.filter(na_selecao(ps)), c) ==> tem_codigo(ps, c),
{
    let f = q.filter(na_selecao(ps));
    if tem_codigo(f, c) {
        let j = choose|j: int| 0 <= j < f.len() && #[trigger] f[j].0 == c;
        q.lemma_filter_pred(na_selecao(ps), j);
    }
}

/// Depois de sincronizar, os produtos com quantidade são exatamente os da seleção.
pub proof fn lei_sincronizar_codigos(q: Seq<(Seq<char>, int)>, ps: Seq<(Seq<char>, int)>, c: Seq<char>)
    ensures
        tem_codigo(sincronizado(q, ps), c) <==> tem_codigo(ps, c),
{
    lema_acrescentar_codigos(q.filter(na_selecao(ps)), ps, c);
    lema_mantidas_selecionadas(q, ps, c);
}

/// Sincronizar não perde o que o usuário digitou: a quantidade de um produto que continua marcado
/// fica na lista, com o mesmo valor.
pub proof fn lei_sincronizar_preserva(q: Seq<(Seq<char>, int)>, ps: Seq<(Seq<char>, int)>, i: int)
    requires
        0 <= i < q.len(),
        tem_codigo(ps, q[i].0),
    ensures
        sincronizado(q, ps).contains(q[i]),
{
    let f = q.filter(na_selecao(ps));
    q.lemma_filter_contains(na_selecao(ps), i);
    let j = choose|j: int| 0 <= j < f.len() && f[j] == q[i];
    lema_acrescentar_prefixo(f, ps);
    assert(sincronizado(q, ps)[j] == q[i]);
}

/// Sincronizar de novo com a mesma seleção não muda nada.
pub proof fn lei_sincronizar_idempotente(q: Seq<(Seq<char>, int)>, ps: Seq<(Seq<char>, int)>)
    ensures
        sincronizado(sincronizado(q, ps), ps) == sincronizado(q, ps),
{
    let s1 = sincronizado(q, ps);
    assert forall|i: int| 0 <= i < s1.len() implies #[trigger] (na_selecao(ps))(s1[i]) by {
        assert(tem_codigo(s1, s1[i].0));
        lei_sincronizar_codigos(q, ps, s1[i].0);
    }
    lema_filtro_sem_efeito(s1, na_selecao(ps));
    assert forall|j: int| 0 <= j < ps.len() implies tem_codigo(s1, #[trigger] ps[j].0) by {
        assert(tem_codigo(ps, ps[j].0));
        lei_sincronizar_codigos(q, ps, ps[j].0);
    }
    lema_acrescentar_fixo(s1, ps);
}

/// Um filtro que todos os elementos passam devolve a própria sequência.
proof fn lema_filtro_sem_efeito(s: Seq<(Seq<char>, int)>, p: spec_fn((Seq<char>, int)) -> bool)
    requires
        forall|i: int| 0 <= i < s.len() ==> #[trigger] p(s[i]),
    ensures
        s.filter(p) == s,
    decreases s.len(),
{
    reveal(Seq::filter);
    if s.len() > 0 {
        let t = s.drop_last();
        assert forall|i: int| 0 <= i < t.len() implies #[trigger] p(t[i]) by {
            assert(t[i] == s[i]);
        }
        lema_filtro_sem_efeito(t, p);
        assert(p(s[s.len() - 1]));
        assert(t.push(s.last()) =~= s);
    }
}

/// Nenhum código aparece em dois pares.
pub open spec fn codigos_distintos(s: Seq<(Seq<char>, int)>) -> bool {
    forall|i: int, j: int| 0 <= i < s.len() && 0 <= j < s.len() && i != j ==> #[trigger] s[i].0 != #[trigger] s[j].0
}

proof fn lema_filtro_distinto(q: Seq<(Seq<char>, int)>, p: spec_fn((Seq<char>, int)) -> bool)
    requires
        codigos_distintos(q),
    ensures
        codigos_distintos(q.filter(p)),
    decreases q.len(),
{
    if q.len() > 0 {
        let t = q.drop_last();
        let x = q.last();
        assert(codigos_distintos(t)) by {
            assert forall|i: int, j: int| 0 <= i < t.len() && 0 <= j < t.len() && i != j implies #[trigger] t[i].0 != #[trigger] t[j].0 by {
                assert(t[i] == q[i] && t[j] == q[j]);
            }
        }
        lema_filtro_distinto(t, p);
        assert(t.push(x) =~= q);
        t.lemma_filter_push(x, p);
        if p(x) {
            let f = t.filter(p);
            let g = f.push(x);
            assert forall|i: int, j: int| 0 <= i < g.len() && 0 <= j < g.len() && i != j implies #[trigger] g[i].0 != #[trigger] g[j].0 by {
                if i < f.len() && j < f.len() {
                    assert(g[i] == f[i] && g[j] == f[j]);
                } else {
                    let k = if i < f.len() { i } else { j };
                    assert(g[k] == f[k]);
                    assert(f.contains(f[k]));
                    t.lemma_filter_contains_rev(p, f[k]);
                    let m = choose|m: int| 0 <= m < t.len() && t[m] == f[k];
                    assert(q[m] == t[m]);
                    assert(q[q.len() - 1] == x);
                    assert(q[m].0 != q[q.len() - 1].0);
                }
            }
        }
    }
}

proof fn lema_acrescentar_distinto(q: Seq<(Seq<char>, int)>, ps: Seq<(Seq<char>, int)>)
    requires
        codigos_distintos(q),
    ensures
        codigos_distintos(acrescentar_sugestoes(q, ps)),
    decreases ps.len(),
{
    if ps.len() > 0 {
        lema_acrescentar_distinto(q, ps.drop_last());
        let antes = acrescentar_sugestoes(q, ps.drop_last());
        if !tem_codigo(antes, ps.last().0) {
            let g = antes.push((ps.last().0, nao_negativo(ps.last().1)));
            assert forall|i: int, j: int| 0 <= i < g.len() && 0 <= j < g.len() && i != j implies #[trigger] g[i].0 != #[trigger] g[j].0 by {
                if i < antes.len() && j < antes.len() {
                    assert(g[i] == antes[i] && g[j] == antes[j]);
                } else if i < antes.len() {
                    assert(g[i] == antes[i]);
                    if antes[i].0 == ps.last().0 {
                        assert(tem_codigo(antes, ps.last().0));
                    }
                } else {
                    assert(g[j] == antes[j]);
                    if antes[j].0 == ps.last().0 {
                        assert(tem_codigo(antes, ps.last().0));
                    }
                }
            }
        }
    }
}

/// Depois de sincronizar, cada código aparece uma única vez (se já era assim antes): com
/// [`lei_sincronizar_codigos`], há exatamente uma quantidade por produto da seleção.
pub proof fn lei_sincronizar_um_por_codigo(q: Seq<(Seq<char>, int)>, ps: Seq<(Seq<char>, int)>)
    requires
        codigos_distintos(q),
    ensures
        codigos_distintos(sincronizado(q, ps)),
        forall|c: Seq<char>| tem_codigo(sincronizado(q, ps), c) <==> #[trigger] tem_codigo(ps, c),
{
    lema_filtro_distinto(q, na_selecao(ps));
    lema_acrescentar_distinto(q.filter(na_selecao(ps)), ps);
    assert forall|c: Seq<char>| tem_codigo(sincronizado(q, ps), c) <==> #[trigger] tem_codigo(ps, c) by {
        lei_sincronizar_codigos(q, ps, c);
    }
}

/// A lista de quantidades começa vazia, sem código repetido; como sincronizar e definir
/// preservam isso, ela tem sempre uma única quantidade por código. Em particular, a primeira
/// sincronização dá exatamente uma quantidade por produto da seleção.
pub proof fn lei_primeira_sincronizacao(ps: Seq<(Seq<char>, int)>)
    ensures
        codigos_distintos(Seq::<(Seq<char>, int)>::empty()),
        codigos_distintos(sincronizado(Seq::empty(), ps)),
        forall|c: Seq<char>| tem_codigo(sincronizado(Seq::empty(), ps), c) <==> #[trigger] tem_codigo(ps, c),
{
    lei_sincronizar_um_por_codigo(Seq::empty(), ps);
}

/// Definir uma quantidade não cria código repetido.
pub proof fn lei_definir_um_por_codigo(q: Seq<(Seq<char>, int)>, c: Seq<char>, valor: int)
    requires
        codigos_distintos(q),
    ensures
        primeiro_indice(q, c) matches Some(i) ==> codigos_distintos(q.update(i, (c, nao_negativo(valor)))),
{
    lema_primeiro_indice(q, c);
    if let Some(i) = primeiro_indice(q, c) {
        let g = q.update(i, (c, nao_negativo(valor)));
        assert forall|a: int, b: int| 0 <= a < g.len() && 0 <= b < g.len() && a != b implies #[trigger] g[a].0 != #[trigger] g[b].0 by {
            assert(g[a].0 == q[a].0);
            assert(g[b].0 == q[b].0);
        }
    }
}

/// Quantidades nunca ficam negativas: se não eram antes, não são depois de sincronizar.
pub proof fn lei_sincronizar_nao_negativo(q: Seq<(Seq<char>, int)>, ps: Seq<(Seq<char>, int)>)
    requires
        forall|i: int| 0 <= i < q.len() ==> #[trigger] q[i].1 >= 0,
    ensures
        forall|i: int| 0 <= i < sincronizado(q, ps).len() ==> #[trigger] sincronizado(q, ps)[i].1 >= 0,
{
    let f = q.filter(na_selecao(ps));
    assert forall|i: int| 0 <= i < f.len() implies #[trigger] f[i].1 >= 0 by {
        q.lemma_filter_contains_rev(na_selecao(ps), f[i]);
        assert(f.contains(f[i]));
    }
    lema_acrescentar_nao_negativo(f, ps);
}

/// Definir a quantidade de um produto com quantidade e depois lê-la devolve o valor (nunca
/// negativo); a quantidade dos outros produtos não muda.
pub proof fn lei_definir_e_ler(q: Seq<(Seq<char>, int)>, c: Seq<char>, valor: int, outro: Seq<char>)
    requires
        tem_codigo(q, c),
        outro != c,
    ensures
        primeiro_indice(q, c) is Some,
        quantidade_de(q.update(primeiro_indice(q, c)->0, (c, nao_negativo(valor))), c) == nao_negativo(valor),
        quantidade_de(q.update(primeiro_indice(q, c)->0, (c, nao_negativo(valor))), outro) == quantidade_de(q, outro),
{
    lema_primeiro_indice(q, c);
    if primeiro_indice(q, c) is None {
        let j = choose|j: int| 0 <= j < q.len() && #[trigger] q[j].0 == c;
        assert(q[j].0 != c);
    }
    let i = primeiro_indice(q, c)->0;
    let q2 = q.update(i, (c, nao_negativo(valor)));
    lema_primeiro_indice(q2, c);
    assert(q2[i].0 == c);
    if let Some(k) = primeiro_indice(q2, c) {
        if k < i {
            assert(q2[k] == q[k]);
        } else if k > i {
            assert(q2[i].0 == c);
        }
    } else {
        assert(q2[i].0 == c);
    }
    lema_primeiro_indice(q, outro);
    lema_primeiro_indice(q2, outro);
    assert forall|j: int| 0 <= j < q.len() implies (#[trigger] q2[j].0 == outro) == (q[j].0 == outro) by {
        if j == i {
            assert(q[i].0 == c);
        }
    }
    match (primeiro_indice(q, outro), primeiro_indice(q2, outro)) {
        (Some(a), Some(b)) => {
            if a < b {
                assert(q2[a].0 == outro);
            } else if b < a {
                assert(q[b].0 == outro);
            }
            assert(a != i);
        },
        (Some(a), None) => {
            assert(q2[a].0 == outro);
        },
        (None, Some(b)) => {
            assert(q[b].0 == outro);
        },
        (None, None) => {},
    }
}

} // verus!
