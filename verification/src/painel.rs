//! Os números dos painéis tirados das listas que a API entrega: contagem de um status, soma dos
//! itens abaixo do recomendado, abas de classe em ordem com o total, e os KPIs da classificação
//! ABC (maior grupo, classe A, maior volume) e da central de alertas.

use vstd::prelude::*;
use crate::rotulos::{ordem_abc_spec, ordem_classe, ordem_classe_abc, ordem_estoque_spec};
use crate::texto::iguais;
use crate::tipos::{Contagem, ContagemClasse, DistribuicaoAbc};

verus! {

broadcast use vstd::seq_lib::group_seq_properties;

/// Pares `(rótulo, quantidade)` de uma lista de contagens.
pub open spec fn pares_contagem(v: Seq<Contagem>) -> Seq<(Seq<char>, int)> {
    v.map_values(|c: Contagem| (c.rotulo@, c.quantidade as int))
}

/// Pares `(classe, quantidade)` das contagens por classe.
pub open spec fn pares_classe(v: Seq<ContagemClasse>) -> Seq<(Seq<char>, int)> {
    v.map_values(|c: ContagemClasse| (c.classe@, c.quantidade as int))
}

/// Pares `(classe, quantidade)` da distribuição ABC.
pub open spec fn pares_distribuicao(v: Seq<DistribuicaoAbc>) -> Seq<(Seq<char>, int)> {
    v.map_values(|d: DistribuicaoAbc| (d.classe@, d.quantidade as int))
}

/// Pares `(texto, número)` de uma lista já montada.
pub open spec fn pares(v: Seq<(String, i64)>) -> Seq<(Seq<char>, int)> {
    v.map_values(|x: (String, i64)| (x.0@, x.1 as int))
}

/// A quantidade do primeiro par com o rótulo dado; 0 se nenhum tem.
pub open spec fn quantidade_de(s: Seq<(Seq<char>, int)>, rotulo: Seq<char>) -> int
    decreases s.len(),
{
    if s.len() == 0 {
        0
    } else if s[0].0 == rotulo {
        s[0].1
    } else {
        quantidade_de(s.drop_first(), rotulo)
    }
}

/// Soma das quantidades.
pub open spec fn soma(s: Seq<(Seq<char>, int)>) -> int
    decreases s.len(),
{
    if s.len() == 0 {
        0
    } else {
        soma(s.drop_last()) + s.last().1
    }
}

/// As somas parciais cabem num `i64`.
pub open spec fn somas_cabem(s: Seq<(Seq<char>, int)>) -> bool {
    forall|k: int| 0 <= k <= s.len() ==> i64::MIN <= #[trigger] soma(s.take(k)) <= i64::MAX
}

/// Percorre `s` do início até achar o rótulo.
proof fn lema_quantidade_de_passo(s: Seq<(Seq<char>, int)>, rotulo: Seq<char>, i: int)
    requires
        0 <= i < s.len(),
        s[i].0 != rotulo,
    ensures
        quantidade_de(s.skip(i), rotulo) == quantidade_de(s.skip(i + 1), rotulo),
{
    assert(s.skip(i).drop_first() =~= s.skip(i + 1));
}

/// Quantos itens o painel tem no status dado (0 se o status não aparece).
pub fn conta_status(por_status: &Vec<Contagem>, status: &str) -> (r: i64)
    ensures
        r == quantidade_de(pares_contagem(por_status@), status@),
{
    let ghost s = pares_contagem(por_status@);
    let mut i: usize = 0;
    assert(s.skip(0) =~= s);
    while i < por_status.len()
        invariant
            s == pares_contagem(por_status@),
            i <= por_status@.len(),
            quantidade_de(s, status@) == quantidade_de(s.skip(i as int), status@),
        decreases por_status.len() - i,
    {
        if iguais(por_status[i].rotulo.as_str(), status) {
            return por_status[i].quantidade;
        }
        proof {
            lema_quantidade_de_passo(s, status@, i as int);
        }
        i = i + 1;
    }
    assert(s.skip(i as int).len() == 0);
    0
}

/// Status que contam como "abaixo do recomendado".
pub open spec fn status_abaixo(rotulo: Seq<char>) -> bool {
    rotulo == "critico"@ || rotulo == "sem_estoque"@ || rotulo == "estoque_baixo"@ || rotulo
        == "baixo"@
}

/// Soma das quantidades dos status abaixo do recomendado.
pub open spec fn soma_abaixo(s: Seq<(Seq<char>, int)>) -> int
    decreases s.len(),
{
    if s.len() == 0 {
        0
    } else {
        soma_abaixo(s.drop_last()) + if status_abaixo(s.last().0) {
            s.last().1
        } else {
            0
        }
    }
}

/// Quantos produtos estão abaixo do recomendado: crítico, sem estoque, estoque baixo ou baixo.
pub fn abaixo_do_recomendado(por_status: &Vec<Contagem>) -> (r: i64)
    requires
        forall|k: int|
            0 <= k <= por_status@.len() ==> i64::MIN <= #[trigger] soma_abaixo(
                pares_contagem(por_status@).take(k),
            ) <= i64::MAX,
    ensures
        r == soma_abaixo(pares_contagem(por_status@)),
{
    let ghost s = pares_contagem(por_status@);
    let mut total: i64 = 0;
    let mut i: usize = 0;
    assert(s.take(0) =~= Seq::<(Seq<char>, int)>::empty());
    while i < por_status.len()
        invariant
            s == pares_contagem(por_status@),
            i <= por_status@.len(),
            total == soma_abaixo(s.take(i as int)),
            forall|k: int|
                0 <= k <= por_status@.len() ==> i64::MIN <= #[trigger] soma_abaixo(s.take(k))
                    <= i64::MAX,
        decreases por_status.len() - i,
    {
        let c = &por_status[i];
        let r = c.rotulo.as_str();
        assert(s.take(i + 1).drop_last() =~= s.take(i as int));
        assert(s.take(i + 1).last() == s[i as int]);
        assert(soma_abaixo(s.take(i + 1)) <= i64::MAX);
        if iguais(r, "critico") || iguais(r, "sem_estoque") || iguais(r, "estoque_baixo") || iguais(
            r,
            "baixo",
        ) {
            total = total + c.quantidade;
        }
        i = i + 1;
    }
    assert(s.take(i as int) =~= s);
    total
}

/// As duas ordens de abas de classe: a da tela de estoque e a da classificação ABC.
#[derive(Debug, Clone, Copy, PartialEq, Eq, Structural)]
pub enum OrdemAbas {
    Estoque,
    Abc,
}

/// Posição de uma classe na ordem de abas `o`.
pub open spec fn posicao_aba(o: OrdemAbas, classe: Seq<char>) -> u8 {
    match o {
        OrdemAbas::Estoque => ordem_estoque_spec(classe),
        OrdemAbas::Abc => ordem_abc_spec(classe),
    }
}

/// Os pares cuja classe fica na posição `k`.
pub open spec fn na_posicao(o: OrdemAbas, k: int) -> spec_fn((Seq<char>, int)) -> bool {
    |x: (Seq<char>, int)| posicao_aba(o, x.0) == k
}

/// Os pares de `s` com posição menor que `k`, agrupados por posição crescente e, dentro de cada
/// posição, na ordem em que vieram.
pub open spec fn ordenadas_ate(s: Seq<(Seq<char>, int)>, o: OrdemAbas, k: nat) -> Seq<(Seq<char>, int)>
    decreases k,
{
    if k == 0 {
        Seq::empty()
    } else {
        ordenadas_ate(s, o, (k - 1) as nat) + s.filter(na_posicao(o, k - 1))
    }
}

/// As abas em ordem estável pela posição da classe (`sort_by_key`): todas as posições ficam
/// abaixo de 10.
pub open spec fn abas_ordenadas(s: Seq<(Seq<char>, int)>, o: OrdemAbas) -> Seq<(Seq<char>, int)> {
    ordenadas_ate(s, o, 10)
}

proof fn lema_posicao_limitada(o: OrdemAbas, c: Seq<char>)
    ensures
        posicao_aba(o, c) < 10,
{
}

/// Cada par de `ordenadas_ate(s, o, k)` tem posição abaixo de `k`, e a lista tem um par para
/// cada par de `s` com posição abaixo de `k`.
proof fn lema_ordenadas_ate(s: Seq<(Seq<char>, int)>, o: OrdemAbas, k: nat)
    ensures
        forall|i: int|
            0 <= i < ordenadas_ate(s, o, k).len() ==> posicao_aba(o, #[trigger] ordenadas_ate(s, o, k)[i].0) < k,
    decreases k,
{
    if k > 0 {
        lema_ordenadas_ate(s, o, (k - 1) as nat);
        let a = ordenadas_ate(s, o, (k - 1) as nat);
        let b = s.filter(na_posicao(o, k - 1));
        assert forall|i: int| 0 <= i < ordenadas_ate(s, o, k).len() implies posicao_aba(
            o,
            #[trigger] ordenadas_ate(s, o, k)[i].0,
        ) < k by {
            if i >= a.len() {
                s.lemma_filter_pred(na_posicao(o, k - 1), i - a.len());
                assert(ordenadas_ate(s, o, k)[i] == b[i - a.len()]);
            } else {
                assert(ordenadas_ate(s, o, k)[i] == a[i]);
            }
        }
    }
}

/// Tamanho de `ordenadas_ate` depois de mais um par no fim de `s`.
proof fn lema_ordenadas_ate_push(s: Seq<(Seq<char>, int)>, x: (Seq<char>, int), o: OrdemAbas, k: nat)
    ensures
        ordenadas_ate(s.push(x), o, k).len() == ordenadas_ate(s, o, k).len() + if posicao_aba(o, x.0) < k {
            1int
        } else {
            0int
        },
    decreases k,
{
    if k > 0 {
        lema_ordenadas_ate_push(s, x, o, (k - 1) as nat);
        s.lemma_filter_push(x, na_posicao(o, k - 1));
    }
}

/// Nenhum par se perde nem se repete: a lista ordenada tem o tamanho da de entrada.
proof fn lema_abas_tamanho(s: Seq<(Seq<char>, int)>, o: OrdemAbas)
    ensures
        abas_ordenadas(s, o).len() == s.len(),
    decreases s.len(),
{
    if s.len() == 0 {
        lema_ordenadas_vazia(s, o, 10);
    } else {
        lema_abas_tamanho(s.drop_last(), o);
        lema_ordenadas_ate_push(s.drop_last(), s.last(), o, 10);
        lema_posicao_limitada(o, s.last().0);
        assert(s.drop_last().push(s.last()) =~= s);
    }
}

proof fn lema_ordenadas_vazia(s: Seq<(Seq<char>, int)>, o: OrdemAbas, k: nat)
    requires
        s.len() == 0,
    ensures
        ordenadas_ate(s, o, k).len() == 0,
    decreases k,
{
    if k > 0 {
        lema_ordenadas_vazia(s, o, (k - 1) as nat);
        s.lemma_filter_len(na_posicao(o, k - 1));
    }
}

/// Abas ordenadas de uma lista de pares: posição por posição, os pares dessa posição na ordem
/// em que vieram.
fn ordenar_abas(itens: &Vec<(String, i64)>, o: OrdemAbas) -> (r: Vec<(String, i64)>)
    ensures
        pares(r@) == abas_ordenadas(pares(itens@), o),
{
    let ghost s = pares(itens@);
    let mut r: Vec<(String, i64)> = Vec::new();
    let mut k: u8 = 0;
    while k < 10
        invariant
            s == pares(itens@),
            k <= 10,
            pares(r@) == ordenadas_ate(s, o, k as nat),
        decreases 10 - k,
    {
        let ghost antes = pares(r@);
        let mut i: usize = 0;
        assert(s.take(0) =~= Seq::<(Seq<char>, int)>::empty());
        assert(s.take(0).filter(na_posicao(o, k as int)) =~= Seq::<(Seq<char>, int)>::empty()) by {
            s.take(0).lemma_filter_len(na_posicao(o, k as int));
        }
        assert(pares(r@) =~= antes + s.take(0).filter(na_posicao(o, k as int)));
        while i < itens.len()
            invariant
                s == pares(itens@),
                k < 10,
                i <= itens@.len(),
                antes == ordenadas_ate(s, o, k as nat),
                pares(r@) == antes + s.take(i as int).filter(na_posicao(o, k as int)),
            decreases itens.len() - i,
        {
            let classe = itens[i].0.as_str();
            let posicao = match o {
                OrdemAbas::Estoque => ordem_classe(classe),
                OrdemAbas::Abc => ordem_classe_abc(classe),
            };
            proof {
                assert(s.take(i + 1) =~= s.take(i as int).push(s[i as int]));
                s.take(i as int).lemma_filter_push(s[i as int], na_posicao(o, k as int));
            }
            if posicao == k {
                let ghost velho = r@;
                r.push((itens[i].0.clone(), itens[i].1));
                assert(pares(r@) =~= pares(velho).push(s[i as int]));
            }
            i = i + 1;
        }
        assert(s.take(i as int) =~= s);
        k = k + 1;
    }
    r
}

/// Abas de filtro por classe da tela de estoque: `(classe, quantidade)` em ordem A, B, C, N, D,
/// F e as demais (estável), e o total "Todos" (a soma das classes).
pub fn abas_classe(contagens: &Vec<ContagemClasse>) -> (r: (Vec<(String, i64)>, i64))
    requires
        somas_cabem(pares_classe(contagens@)),
    ensures
        pares(r.0@) == abas_ordenadas(pares_classe(contagens@), OrdemAbas::Estoque),
        r.0@.len() == contagens@.len(),
        forall|i: int, j: int|
            0 <= i < j < r.0@.len() ==> ordem_estoque_spec(#[trigger] r.0@[i].0@) <= ordem_estoque_spec(
                #[trigger] r.0@[j].0@,
            ),
        r.1 == soma(pares_classe(contagens@)),
{
    let ghost s = pares_classe(contagens@);
    let mut presentes: Vec<(String, i64)> = Vec::new();
    let mut total: i64 = 0;
    let mut i: usize = 0;
    assert(s.take(0) =~= Seq::<(Seq<char>, int)>::empty());
    while i < contagens.len()
        invariant
            s == pares_classe(contagens@),
            somas_cabem(s),
            i <= contagens@.len(),
            pares(presentes@) == s.take(i as int),
            total == soma(s.take(i as int)),
        decreases contagens.len() - i,
    {
        let ghost velho = presentes@;
        presentes.push((contagens[i].classe.clone(), contagens[i].quantidade));
        assert(s.take(i + 1).drop_last() =~= s.take(i as int));
        assert(soma(s.take(i + 1)) <= i64::MAX);
        total = total + contagens[i].quantidade;
        assert(pares(presentes@) =~= s.take(i + 1));
        i = i + 1;
    }
    assert(s.take(i as int) =~= s);
    let abas = ordenar_abas(&presentes, OrdemAbas::Estoque);
    proof {
        lema_abas_tamanho(s, OrdemAbas::Estoque);
        lema_abas_em_ordem(s, OrdemAbas::Estoque);
        assert forall|i: int, j: int| 0 <= i < j < abas@.len() implies ordem_estoque_spec(
            #[trigger] abas@[i].0@,
        ) <= ordem_estoque_spec(#[trigger] abas@[j].0@) by {
            assert(pares(abas@)[i] == (abas@[i].0@, abas@[i].1 as int));
            assert(pares(abas@)[j] == (abas@[j].0@, abas@[j].1 as int));
            assert(abas_ordenadas(s, OrdemAbas::Estoque)[i].0 == abas@[i].0@);
            assert(abas_ordenadas(s, OrdemAbas::Estoque)[j].0 == abas@[j].0@);
        }
    }
    (abas, total)
}

/// Abas da classificação ABC: `(classe, quantidade)` da distribuição em ordem A, B, C, D, F, N e
/// as demais (estável).
pub fn abas_abc(distribuicao: &Vec<DistribuicaoAbc>) -> (r: Vec<(String, i64)>)
    ensures
        pares(r@) == abas_ordenadas(pares_distribuicao(distribuicao@), OrdemAbas::Abc),
        r@.len() == distribuicao@.len(),
        forall|i: int, j: int|
            0 <= i < j < r@.len() ==> ordem_abc_spec(#[trigger] r@[i].0@) <= ordem_abc_spec(
                #[trigger] r@[j].0@,
            ),
{
    let ghost s = pares_distribuicao(distribuicao@);
    let mut presentes: Vec<(String, i64)> = Vec::new();
    let mut i: usize = 0;
    while i < distribuicao.len()
        invariant
            s == pares_distribuicao(distribuicao@),
            i <= distribuicao@.len(),
            pares(presentes@) == s.take(i as int),
        decreases distribuicao.len() - i,
    {
        let ghost velho = presentes@;
        presentes.push((distribuicao[i].classe.clone(), distribuicao[i].quantidade));
        assert(s.take(i + 1).drop_last() =~= s.take(i as int));
        assert(pares(velho) == s.take(i as int));
        assert(pares(presentes@) =~= s.take(i + 1));
        i = i + 1;
    }
    assert(s.take(i as int) =~= s);
    let abas = ordenar_abas(&presentes, OrdemAbas::Abc);
    proof {
        lema_abas_tamanho(s, OrdemAbas::Abc);
        lema_abas_em_ordem(s, OrdemAbas::Abc);
        assert forall|i: int, j: int| 0 <= i < j < abas@.len() implies ordem_abc_spec(
            #[trigger] abas@[i].0@,
        ) <= ordem_abc_spec(#[trigger] abas@[j].0@) by {
            assert(pares(abas@)[i] == (abas@[i].0@, abas@[i].1 as int));
            assert(pares(abas@)[j] == (abas@[j].0@, abas@[j].1 as int));
            assert(abas_ordenadas(s, OrdemAbas::Abc)[i].0 == abas@[i].0@);
            assert(abas_ordenadas(s, OrdemAbas::Abc)[j].0 == abas@[j].0@);
        }
    }
    abas
}

/// As abas saem em ordem de posição.
proof fn lema_abas_em_ordem(s: Seq<(Seq<char>, int)>, o: OrdemAbas)
    ensures
        forall|i: int, j: int|
            0 <= i < j < abas_ordenadas(s, o).len() ==> posicao_aba(o, #[trigger] abas_ordenadas(s, o)[i].0)
                <= posicao_aba(o, #[trigger] abas_ordenadas(s, o)[j].0),
{
    lema_ordenadas_em_ordem(s, o, 10);
}

proof fn lema_ordenadas_em_ordem(s: Seq<(Seq<char>, int)>, o: OrdemAbas, k: nat)
    ensures
        forall|i: int, j: int|
            0 <= i < j < ordenadas_ate(s, o, k).len() ==> posicao_aba(o, #[trigger] ordenadas_ate(s, o, k)[i].0)
                <= posicao_aba(o, #[trigger] ordenadas_ate(s, o, k)[j].0),
    decreases k,
{
    if k > 0 {
        let k1 = (k - 1) as nat;
        lema_ordenadas_em_ordem(s, o, k1);
        lema_ordenadas_ate(s, o, k1);
        let a = ordenadas_ate(s, o, k1);
        let b = s.filter(na_posicao(o, k - 1));
        let t = ordenadas_ate(s, o, k);
        assert(t == a + b);
        assert forall|i: int, j: int| 0 <= i < j < t.len() implies posicao_aba(o, #[trigger] t[i].0)
            <= posicao_aba(o, #[trigger] t[j].0) by {
            if j >= a.len() {
                s.lemma_filter_pred(na_posicao(o, k - 1), j - a.len());
                assert(t[j] == b[j - a.len()]);
                if i >= a.len() {
                    s.lemma_filter_pred(na_posicao(o, k - 1), i - a.len());
                    assert(t[i] == b[i - a.len()]);
                } else {
                    assert(t[i] == a[i]);
                    assert(posicao_aba(o, a[i].0) < k1);
                }
            } else {
                assert(t[i] == a[i]);
                assert(t[j] == a[j]);
            }
        }
    }
}

/// Índice do maior par pela quantidade; entre iguais, o último (`Iterator::max_by_key`).
pub open spec fn indice_maior(s: Seq<(Seq<char>, int)>) -> int
    decreases s.len(),
{
    if s.len() <= 1 {
        0
    } else {
        let i = indice_maior(s.drop_last());
        if s.last().1 >= s[i].1 {
            s.len() - 1
        } else {
            i
        }
    }
}

/// O índice escolhido é de um par de `s`, nenhum par tem quantidade maior, e os que vêm depois
/// dele têm quantidade menor.
pub proof fn lema_indice_maior(s: Seq<(Seq<char>, int)>)
    requires
        s.len() > 0,
    ensures
        0 <= indice_maior(s) < s.len(),
        forall|j: int| 0 <= j < s.len() ==> #[trigger] s[j].1 <= s[indice_maior(s)].1,
        forall|j: int| indice_maior(s) < j < s.len() ==> #[trigger] s[j].1 < s[indice_maior(s)].1,
    decreases s.len(),
{
    if s.len() > 1 {
        let t = s.drop_last();
        lema_indice_maior(t);
        assert forall|j: int| 0 <= j < t.len() implies #[trigger] s[j] == t[j] by {}
    }
}

/// O maior grupo da distribuição ABC: a classe com mais produtos (a última, se houver empate);
/// nenhum, se a distribuição é vazia.
pub fn maior_grupo(distribuicao: &Vec<DistribuicaoAbc>) -> (r: Option<(String, i64)>)
    ensures
        r is None <==> distribuicao@.len() == 0,
        r matches Some((c, q)) ==> (c@, q as int) == pares_distribuicao(distribuicao@)[indice_maior(
            pares_distribuicao(distribuicao@),
        )],
        r matches Some((c, q)) ==> forall|j: int|
            0 <= j < distribuicao@.len() ==> #[trigger] distribuicao@[j].quantidade <= q,
{
    let ghost s = pares_distribuicao(distribuicao@);
    if distribuicao.len() == 0 {
        return None;
    }
    let mut m: usize = 0;
    let mut i: usize = 1;
    assert(s.take(1).len() == 1);
    while i < distribuicao.len()
        invariant
            s == pares_distribuicao(distribuicao@),
            1 <= i <= distribuicao@.len(),
            m < i,
            m == indice_maior(s.take(i as int)),
        decreases distribuicao.len() - i,
    {
        assert(s.take(i + 1).drop_last() =~= s.take(i as int));
        assert(s.take(i + 1)[m as int] == s[m as int]);
        if distribuicao[i].quantidade >= distribuicao[m].quantidade {
            m = i;
        }
        i = i + 1;
    }
    assert(s.take(i as int) =~= s);
    proof {
        lema_indice_maior(s);
        assert forall|j: int| 0 <= j < distribuicao@.len() implies #[trigger] distribuicao@[j].quantidade
            <= distribuicao@[m as int].quantidade by {
            assert(s[j].1 <= s[m as int].1);
        }
    }
    Some((distribuicao[m].classe.clone(), distribuicao[m].quantidade))
}

/// Produtos da classe A (os produtos-chave); 0 se a classe não aparece.
pub fn quantidade_classe_a(distribuicao: &Vec<DistribuicaoAbc>) -> (r: i64)
    ensures
        r == quantidade_de(pares_distribuicao(distribuicao@), "A"@),
{
    let ghost s = pares_distribuicao(distribuicao@);
    let mut i: usize = 0;
    assert(s.skip(0) =~= s);
    while i < distribuicao.len()
        invariant
            s == pares_distribuicao(distribuicao@),
            i <= distribuicao@.len(),
            quantidade_de(s, "A"@) == quantidade_de(s.skip(i as int), "A"@),
        decreases distribuicao.len() - i,
    {
        if iguais(distribuicao[i].classe.as_str(), "A") {
            return distribuicao[i].quantidade;
        }
        proof {
            lema_quantidade_de_passo(s, "A"@, i as int);
        }
        i = i + 1;
    }
    assert(s.skip(i as int).len() == 0);
    0
}

/// O maior volume da janela entre as linhas; 0 se não há linhas.
pub fn maior_volume(volumes: &Vec<i64>) -> (r: i64)
    ensures
        volumes@.len() == 0 ==> r == 0,
        volumes@.len() > 0 ==> volumes@.contains(r),
        forall|j: int| 0 <= j < volumes@.len() ==> #[trigger] volumes@[j] <= r,
{
    if volumes.len() == 0 {
        return 0;
    }
    let mut m: i64 = volumes[0];
    let mut k: usize = 0;
    let mut i: usize = 1;
    while i < volumes.len()
        invariant
            1 <= i <= volumes@.len(),
            k < i,
            m == volumes@[k as int],
            forall|j: int| 0 <= j < i ==> #[trigger] volumes@[j] <= m,
        decreases volumes.len() - i,
    {
        if volumes[i] > m {
            m = volumes[i];
            k = i;
        }
        i = i + 1;
    }
    m
}

/// Quantas vezes `p` aparece em `s`.
pub open spec fn ocorrencias(s: Seq<Seq<char>>, p: Seq<char>) -> nat
    decreases s.len(),
{
    if s.len() == 0 {
        0
    } else {
        ocorrencias(s.drop_last(), p) + if s.last() == p {
            1nat
        } else {
            0nat
        }
    }
}

/// Quantos alertas têm a prioridade `p` (as contagens dos filtros da central de alertas).
pub fn conta_prioridade(prioridades: &Vec<String>, p: &str) -> (r: usize)
    ensures
        r == ocorrencias(prioridades@.map_values(|x: String| x@), p@),
{
    let ghost s = prioridades@.map_values(|x: String| x@);
    let mut n: usize = 0;
    let mut i: usize = 0;
    assert(s.take(0) =~= Seq::<Seq<char>>::empty());
    while i < prioridades.len()
        invariant
            s == prioridades@.map_values(|x: String| x@),
            i <= prioridades@.len(),
            n == ocorrencias(s.take(i as int), p@),
            n <= i,
        decreases prioridades.len() - i,
    {
        assert(s.take(i + 1).drop_last() =~= s.take(i as int));
        if iguais(prioridades[i].as_str(), p) {
            n = n + 1;
        }
        i = i + 1;
    }
    assert(s.take(i as int) =~= s);
    n
}

} // verus!
