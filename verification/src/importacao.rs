//! Agrupamento dos registros de entrada por dia, para a gravação idempotente por dia (cada dia
//! presente nos dados substitui integralmente o que havia naquele dia), e o resumo do que foi
//! gravado.

use vstd::prelude::*;
use crate::arquivo::{NovaVendaDia, NovoEstoqueSnapshot};
use crate::data::Data;
use std::collections::BTreeMap;

verus! {

broadcast use {vstd::std_specs::vec::axiom_spec_into_iter, vstd::laws_cmp::group_laws_cmp};

/// Registro de entrada com data de referência.
pub trait ComData: Sized {
    spec fn dia_spec(&self) -> i32;

    fn dia(&self) -> (d: Data)
        ensures
            d.dias == self.dia_spec(),
    ;
}

impl ComData for NovaVendaDia {
    open spec fn dia_spec(&self) -> i32 {
        self.dt_ref.dias
    }

    fn dia(&self) -> (d: Data) {
        self.dt_ref
    }
}

impl ComData for NovoEstoqueSnapshot {
    open spec fn dia_spec(&self) -> i32 {
        self.dt_ref.dias
    }

    fn dia(&self) -> (d: Data) {
        self.dt_ref
    }
}

/// Os itens de `itens` com data `d`, na ordem em que aparecem.
pub open spec fn itens_do_dia<T: ComData>(itens: Seq<T>, d: int) -> Seq<T>
    decreases itens.len(),
{
    if itens.len() == 0 {
        Seq::empty()
    } else {
        let r = itens_do_dia(itens.drop_last(), d);
        if itens.last().dia_spec() == d {
            r.push(itens.last())
        } else {
            r
        }
    }
}

/// `mapa` é o agrupamento de `itens` por dia: uma entrada para cada dia que aparece nos itens
/// (e só para eles), com exatamente os itens daquele dia, na ordem de entrada.
pub open spec fn agrupamento<T: ComData>(mapa: Map<i32, Vec<T>>, itens: Seq<T>) -> bool {
    &&& forall|d: i32| #[trigger] mapa.contains_key(d) <==> exists|k: int|
        0 <= k < itens.len() && (#[trigger] itens[k]).dia_spec() == d
    &&& forall|d: i32| #[trigger] mapa.contains_key(d) ==> mapa[d]@ == itens_do_dia(itens, d as int)
}

proof fn lema_dia_ausente<T: ComData>(itens: Seq<T>, d: int)
    requires
        forall|k: int| 0 <= k < itens.len() ==> (#[trigger] itens[k]).dia_spec() != d,
    ensures
        itens_do_dia(itens, d) == Seq::<T>::empty(),
    decreases itens.len(),
{
    if itens.len() > 0 {
        assert forall|k: int| 0 <= k < itens.drop_last().len() implies (#[trigger] itens.drop_last()[k]).dia_spec() != d by {
            assert(itens.drop_last()[k] == itens[k]);
        }
        lema_dia_ausente(itens.drop_last(), d);
    }
}

/// Agrupa os itens por dia de referência (o número do dia), num mapa ordenado: percorrer o mapa
/// dá os dias em ordem cronológica; dentro de cada dia os itens ficam na ordem de entrada.
pub fn agrupar_por_dia<T: ComData>(itens: Vec<T>) -> (mapa: BTreeMap<i32, Vec<T>>)
    ensures
        agrupamento(mapa@, itens@),
{
    let ghost todos = itens@;
    let mut mapa: BTreeMap<i32, Vec<T>> = BTreeMap::new();
    for x in it: itens
        invariant
            it.seq() == todos,
            agrupamento(mapa@, todos.take(it.index())),
    {
        let ghost k = it.index();
        let ghost antes = todos.take(k);
        let ghost depois = todos.take(k + 1);
        let ghost m0 = mapa@;
        assert(x == todos[k]);
        assert(depois.drop_last() == antes);
        assert(depois.last() == x);
        let d = x.dia().dias;
        let mut lista = match mapa.remove(&d) {
            Some(l) => l,
            None => Vec::new(),
        };
        proof {
            if !m0.contains_key(d) {
                assert forall|m: int| 0 <= m < antes.len() implies (#[trigger] antes[m]).dia_spec() != d by {
                    if antes[m].dia_spec() == d {
                        assert(m0.contains_key(d));
                    }
                }
                lema_dia_ausente(antes, d as int);
            }
            assert(lista@ == itens_do_dia(antes, d as int));
        }
        lista.push(x);
        mapa.insert(d, lista);
        proof {
            assert(mapa@ == m0.remove(d).insert(d, lista));
            assert(itens_do_dia(depois, d as int) == itens_do_dia(antes, d as int).push(x));
            assert forall|e: i32| #[trigger] mapa@.contains_key(e) implies mapa@[e]@ == itens_do_dia(depois, e as int) by {
                if e != d {
                    assert(mapa@[e] == m0[e]);
                }
            }
            assert forall|e: i32| #[trigger] mapa@.contains_key(e) <==> exists|m: int|
                0 <= m < depois.len() && (#[trigger] depois[m]).dia_spec() == e by {
                if e == d {
                    assert(depois[k as int] == x);
                } else {
                    if m0.contains_key(e) {
                        let m = choose|m: int| 0 <= m < antes.len() && (#[trigger] antes[m]).dia_spec() == e;
                        assert(depois[m] == antes[m]);
                    }
                    if exists|m: int| 0 <= m < depois.len() && (#[trigger] depois[m]).dia_spec() == e {
                        let m = choose|m: int| 0 <= m < depois.len() && (#[trigger] depois[m]).dia_spec() == e;
                        if m < k {
                            assert(antes[m] == depois[m]);
                        }
                    }
                }
            }
        }
    }
    assert(todos.take(todos.len() as int) == todos);
    mapa
}

/// Resumo de uma importação: dias distintos e linhas gravadas de vendas e de snapshot.
#[derive(Debug, Clone, Copy, Default, PartialEq, Eq, Structural)]
pub struct ResumoImportacao {
    pub dias_vendas: usize,
    pub linhas_vendas: u64,
    pub dias_snapshot: usize,
    pub linhas_snapshot: u64,
}

impl ResumoImportacao {
    /// Resumo de partida: quantos dias distintos cada tabela recebe, nenhuma linha gravada ainda.
    pub fn inicial(dias_vendas: usize, dias_snapshot: usize) -> (r: ResumoImportacao)
        ensures
            r == (ResumoImportacao { dias_vendas, linhas_vendas: 0, dias_snapshot, linhas_snapshot: 0 }),
    {
        ResumoImportacao { dias_vendas, linhas_vendas: 0, dias_snapshot, linhas_snapshot: 0 }
    }

    /// Soma as linhas gravadas pela substituição de um dia de vendas.
    pub fn registrar_vendas(&mut self, linhas: u64)
        requires
            old(self).linhas_vendas + linhas <= u64::MAX,
        ensures
            *final(self) == (ResumoImportacao { linhas_vendas: (old(self).linhas_vendas + linhas) as u64, ..*old(self) }),
    {
        self.linhas_vendas = self.linhas_vendas + linhas;
    }

    /// Soma as linhas gravadas pela substituição de um dia de snapshot.
    pub fn registrar_snapshot(&mut self, linhas: u64)
        requires
            old(self).linhas_snapshot + linhas <= u64::MAX,
        ensures
            *final(self) == (ResumoImportacao { linhas_snapshot: (old(self).linhas_snapshot + linhas) as u64, ..*old(self) }),
    {
        self.linhas_snapshot = self.linhas_snapshot + linhas;
    }
}

/// Quantos itens há nos grupos dos dias `ds`, somados.
pub open spec fn total_nos_grupos<T>(mapa: Map<i32, Vec<T>>, ds: Seq<i32>) -> int
    decreases ds.len(),
{
    if ds.len() == 0 {
        0
    } else {
        total_nos_grupos(mapa, ds.drop_last()) + mapa[ds.last()]@.len()
    }
}

/// Quantos itens caem em cada um dos dias de `ds`, somados.
spec fn total_nos_dias<T: ComData>(itens: Seq<T>, ds: Seq<i32>) -> int
    decreases ds.len(),
{
    if ds.len() == 0 {
        0
    } else {
        total_nos_dias(itens, ds.drop_last()) + itens_do_dia(itens, ds.last() as int).len()
    }
}

/// Um item a mais conta uma vez, no seu dia, se o dia está entre os de `ds` (dias distintos).
proof fn lema_total_nos_dias_push<T: ComData>(itens: Seq<T>, x: T, ds: Seq<i32>)
    requires
        forall|i: int, j: int| 0 <= i < j < ds.len() ==> ds[i] != ds[j],
    ensures
        total_nos_dias(itens.push(x), ds) == total_nos_dias(itens, ds) + if ds.contains(x.dia_spec()) {
            1int
        } else {
            0int
        },
    decreases ds.len(),
{
    if ds.len() > 0 {
        let t = ds.drop_last();
        lema_total_nos_dias_push(itens, x, t);
        assert(itens.push(x).drop_last() =~= itens);
        if t.contains(x.dia_spec()) {
            let k = choose|k: int| 0 <= k < t.len() && t[k] == x.dia_spec();
            assert(ds[k] == t[k]);
            assert(ds.contains(x.dia_spec()));
        }
        if ds.contains(x.dia_spec()) {
            let k = choose|k: int| 0 <= k < ds.len() && ds[k] == x.dia_spec();
            if k < t.len() {
                assert(t[k] == ds[k]);
            }
        }
    }
}

/// Se cada item tem o dia entre os de `ds` (dias distintos), os dias somam todos os itens.
proof fn lema_total_nos_dias<T: ComData>(itens: Seq<T>, ds: Seq<i32>)
    requires
        forall|i: int, j: int| 0 <= i < j < ds.len() ==> ds[i] != ds[j],
        forall|k: int| 0 <= k < itens.len() ==> ds.contains(#[trigger] itens[k].dia_spec()),
    ensures
        total_nos_dias(itens, ds) == itens.len(),
    decreases itens.len(),
{
    if itens.len() == 0 {
        lema_total_vazio(itens, ds);
    } else {
        let t = itens.drop_last();
        assert forall|k: int| 0 <= k < t.len() implies ds.contains(#[trigger] t[k].dia_spec()) by {
            assert(t[k] == itens[k]);
        }
        lema_total_nos_dias(t, ds);
        lema_total_nos_dias_push(t, itens.last(), ds);
        assert(t.push(itens.last()) =~= itens);
        assert(ds.contains(itens[itens.len() - 1].dia_spec()));
    }
}

proof fn lema_total_vazio<T: ComData>(itens: Seq<T>, ds: Seq<i32>)
    requires
        itens.len() == 0,
    ensures
        total_nos_dias(itens, ds) == 0,
    decreases ds.len(),
{
    if ds.len() > 0 {
        lema_total_vazio(itens, ds.drop_last());
    }
}

proof fn lema_total_nos_grupos<T: ComData>(mapa: Map<i32, Vec<T>>, itens: Seq<T>, ds: Seq<i32>)
    requires
        agrupamento(mapa, itens),
        forall|i: int| 0 <= i < ds.len() ==> mapa.contains_key(#[trigger] ds[i]),
    ensures
        total_nos_grupos(mapa, ds) == total_nos_dias(itens, ds),
    decreases ds.len(),
{
    if ds.len() > 0 {
        let t = ds.drop_last();
        assert forall|i: int| 0 <= i < t.len() implies mapa.contains_key(#[trigger] t[i]) by {
            assert(t[i] == ds[i]);
        }
        lema_total_nos_grupos(mapa, itens, t);
        assert(mapa.contains_key(ds[ds.len() - 1]));
    }
}

/// Agrupar por dia não perde nem repete itens: somando os grupos de todos os dias do mapa (cada
/// dia uma vez), dá o número de itens de entrada.
pub proof fn lei_agrupamento_conserva<T: ComData>(mapa: Map<i32, Vec<T>>, itens: Seq<T>, ds: Seq<i32>)
    requires
        agrupamento(mapa, itens),
        ds.no_duplicates(),
        forall|d: i32| ds.contains(d) <==> #[trigger] mapa.contains_key(d),
    ensures
        total_nos_grupos(mapa, ds) == itens.len(),
{
    assert forall|i: int| 0 <= i < ds.len() implies mapa.contains_key(#[trigger] ds[i]) by {
        assert(ds.contains(ds[i]));
    }
    lema_total_nos_grupos(mapa, itens, ds);
    let di = ds;
    assert forall|k: int| 0 <= k < itens.len() implies di.contains(#[trigger] itens[k].dia_spec()) by {
        let d = itens[k].dia_spec();
        assert(mapa.contains_key(d) <==> exists|m: int| 0 <= m < itens.len() && (#[trigger] itens[m]).dia_spec() == d);
        assert(mapa.contains_key(d));
        assert(ds.contains(d));
    }
    lema_total_nos_dias(itens, di);
}

} // verus!
