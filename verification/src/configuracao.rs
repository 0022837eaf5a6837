//! A configuração em JSON como árvore, para o editor: achatar em caminhos `a.b.c` com o valor de
//! cada folha, e trocar o valor num caminho. Os objetos guardam as chaves na ordem do mapa do
//! `serde_json` (ordem crescente de chave); números que não são inteiros de 64 bits vêm como texto.

use vstd::prelude::*;
use vstd::string::StringExecFns;
use crate::tabela_abc::{menor_texto, texto_menor};
use crate::numero::{inteiro_i64, ler_i64};
use crate::texto::{caracteres, de_caracteres, iguais, lema_primeira, primeira};

verus! {

/// Um valor JSON.
#[derive(Debug, PartialEq, Eq)]
pub enum NoJson {
    Objeto(Vec<(String, NoJson)>),
    Lista(Vec<NoJson>),
    Texto(String),
    Inteiro(i64),
    Numero(String),
    Booleano(bool),
    Nulo,
}

/// Modelo de [`NoJson`].
pub enum NoJsonV {
    Objeto(Seq<(Seq<char>, NoJsonV)>),
    Lista(Seq<NoJsonV>),
    Texto(Seq<char>),
    Inteiro(int),
    Numero(Seq<char>),
    Booleano(bool),
    Nulo,
}

pub open spec fn vista_no(v: NoJson) -> NoJsonV
    decreases v, 1nat,
{
    match v {
        NoJson::Objeto(m) => NoJsonV::Objeto(Seq::new(m@.len(), |i: int| (m@[i].0@, vista_entrada(v, i)))),
        NoJson::Lista(l) => NoJsonV::Lista(Seq::new(l@.len(), |i: int| vista_item(v, i))),
        NoJson::Texto(s) => NoJsonV::Texto(s@),
        NoJson::Inteiro(n) => NoJsonV::Inteiro(n as int),
        NoJson::Numero(s) => NoJsonV::Numero(s@),
        NoJson::Booleano(b) => NoJsonV::Booleano(b),
        NoJson::Nulo => NoJsonV::Nulo,
    }
}

pub open spec fn vista_entrada(v: NoJson, i: int) -> NoJsonV
    decreases v, 0nat,
{
    match v {
        NoJson::Objeto(m) => if 0 <= i < m@.len() {
            vista_no(m@[i].1)
        } else {
            NoJsonV::Nulo
        },
        _ => NoJsonV::Nulo,
    }
}

pub open spec fn vista_item(v: NoJson, i: int) -> NoJsonV
    decreases v, 0nat,
{
    match v {
        NoJson::Lista(l) => if 0 <= i < l@.len() {
            vista_no(l@[i])
        } else {
            NoJsonV::Nulo
        },
        _ => NoJsonV::Nulo,
    }
}

/// O valor é uma folha: nem objeto nem lista.
pub open spec fn eh_folha(v: NoJsonV) -> bool {
    !(v is Objeto) && !(v is Lista)
}

/// O caminho de uma chave dentro de `prefixo`: `prefixo.chave`, ou só a chave na raiz.
pub open spec fn caminho_de(prefixo: Seq<char>, chave: Seq<char>) -> Seq<char> {
    if prefixo.len() == 0 {
        chave
    } else {
        prefixo + "."@ + chave
    }
}

/// As folhas de `v` com o caminho de cada uma, na ordem das chaves; listas não entram.
pub open spec fn folhas(prefixo: Seq<char>, v: NoJsonV) -> Seq<(Seq<char>, NoJsonV)>
    decreases v, 1nat, 0nat,
{
    match v {
        NoJsonV::Objeto(m) => folhas_entradas(prefixo, v, m.len() as int),
        NoJsonV::Lista(_) => Seq::empty(),
        _ => seq![(prefixo, v)],
    }
}

/// As folhas das `n` primeiras entradas do objeto `v`.
pub open spec fn folhas_entradas(prefixo: Seq<char>, v: NoJsonV, n: int) -> Seq<(Seq<char>, NoJsonV)>
    decreases v, 0nat, n,
{
    match v {
        NoJsonV::Objeto(m) => if n <= 0 || n > m.len() {
            Seq::empty()
        } else {
            folhas_entradas(prefixo, v, n - 1) + folhas(caminho_de(prefixo, m[n - 1].0), m[n - 1].1)
        },
        _ => Seq::empty(),
    }
}

/// Pares `(caminho, valor)` como modelos.
pub open spec fn vista_folhas(s: Seq<(String, NoJson)>) -> Seq<(Seq<char>, NoJsonV)> {
    s.map_values(|p: (String, NoJson)| (p.0@, vista_no(p.1)))
}

/// Cópia de uma folha.
fn copia_folha(v: &NoJson) -> (r: NoJson)
    requires
        eh_folha(vista_no(*v)),
    ensures
        vista_no(r) == vista_no(*v),
{
    match v {
        NoJson::Texto(s) => NoJson::Texto(s.clone()),
        NoJson::Inteiro(n) => NoJson::Inteiro(*n),
        NoJson::Numero(s) => NoJson::Numero(s.clone()),
        NoJson::Booleano(b) => NoJson::Booleano(*b),
        _ => NoJson::Nulo,
    }
}

/// O caminho de uma chave dentro de `prefixo`.
fn caminho(prefixo: &str, chave: &str) -> (r: String)
    ensures
        r@ == caminho_de(prefixo@, chave@),
{
    if prefixo.is_empty() {
        String::from_str(chave)
    } else {
        let mut s = String::from_str(prefixo);
        s.append(".");
        s.append(chave);
        s
    }
}

/// Acrescenta a `out` as folhas de `v` (tudo que não é objeto nem lista), cada uma com o seu
/// caminho `a.b.c` a partir de `prefixo`.
pub fn achatar(prefixo: &str, v: &NoJson, out: &mut Vec<(String, NoJson)>)
    ensures
        vista_folhas(final(out)@) == vista_folhas(old(out)@) + folhas(prefixo@, vista_no(*v)),
    decreases *v,
{
    match v {
        NoJson::Objeto(m) => {
            let ghost vv = vista_no(*v);
            let ghost antes = vista_folhas(out@);
            let mut k: usize = 0;
            while k < m.len()
                invariant
                    vv == vista_no(*v),
                    *v == NoJson::Objeto(*m),
                    k <= m@.len(),
                    vista_folhas(out@) == antes + folhas_entradas(prefixo@, vv, k as int),
                decreases m.len() - k,
            {
                let c = caminho(prefixo, m[k].0.as_str());
                let ghost meio = vista_folhas(out@);
                proof {
                    assert(decreases_to!(*v => m@[k as int].1));
                }
                achatar(c.as_str(), &m[k].1, out);
                proof {
                    assert(vv->Objeto_0[k as int] == (m@[k as int].0@, vista_no(m@[k as int].1)));
                }
                k = k + 1;
            }
            assert(folhas(prefixo@, vv) == folhas_entradas(prefixo@, vv, m@.len() as int));
        },
        NoJson::Lista(_) => {
            assert(vista_folhas(out@) =~= vista_folhas(out@) + Seq::<(Seq<char>, NoJsonV)>::empty());
        },
        _ => {
            let ghost antes = out@;
            let f = copia_folha(v);
            let p = String::from_str(prefixo);
            out.push((p, f));
            assert(vista_folhas(out@) =~= vista_folhas(antes) + seq![(prefixo@, vista_no(*v))]);
        },
    }
}

/// As partes de um caminho separadas por `.` (`str::split('.')`): `"a.b"` dá `a` e `b`, e um
/// caminho sem ponto é uma parte só.
pub open spec fn segmentos(s: Seq<char>) -> Seq<Seq<char>>
    decreases s.len(),
{
    match primeira(s, '.') {
        Some(i) => {
            proof {
                lema_primeira(s, '.');
            }
            seq![s.subrange(0, i)] + segmentos(s.subrange(i + 1, s.len() as int))
        },
        None => seq![s],
    }
}

proof fn lema_primeira_em(t: Seq<char>, j: int)
    requires
        0 <= j < t.len(),
        t[j] == '.',
        forall|m: int| 0 <= m < j ==> t[m] != '.',
    ensures
        primeira(t, '.') == Some(j),
{
    lema_primeira(t, '.');
    if let Some(k) = primeira(t, '.') {
        if k < j {
            assert(t[k] != '.');
        } else if k > j {
            assert(t[j] != '.');
        }
    }
}

/// Divide um caminho nas suas partes.
pub fn dividir_caminho(caminho: &str) -> (r: Vec<String>)
    ensures
        r@.map_values(|x: String| x@) == segmentos(caminho@),
{
    let v = caracteres(caminho);
    let n = v.len();
    let mut partes: Vec<String> = Vec::new();
    let mut inicio: usize = 0;
    let mut k: usize = 0;
    assert(v@.subrange(0, n as int) =~= v@);
    while k < n
        invariant
            n == v@.len(),
            v@ == caminho@,
            inicio <= k <= n,
            forall|m: int| inicio <= m < k ==> v@[m] != '.',
            segmentos(v@) == partes@.map_values(|x: String| x@) + segmentos(v@.subrange(inicio as int, n as int)),
        decreases n - k,
    {
        if v[k] == '.' {
            let ghost t = v@.subrange(inicio as int, n as int);
            proof {
                assert forall|m: int| 0 <= m < k - inicio implies t[m] != '.' by {
                    assert(t[m] == v@[inicio + m]);
                }
                lema_primeira_em(t, (k - inicio) as int);
                assert(t.subrange(0, (k - inicio) as int) =~= v@.subrange(inicio as int, k as int));
                assert(t.subrange((k - inicio) + 1, t.len() as int) =~= v@.subrange(k + 1, n as int));
            }
            let ghost antes = partes@;
            let parte = de_caracteres(&v, inicio, k);
            partes.push(parte);
            assert(partes@.map_values(|x: String| x@) =~= antes.map_values(|x: String| x@).push(v@.subrange(inicio as int, k as int)));
            inicio = k + 1;
        }
        k = k + 1;
    }
    let ghost t = v@.subrange(inicio as int, n as int);
    proof {
        lema_primeira(t, '.');
        if let Some(j) = primeira(t, '.') {
            assert(t[j] == v@[inicio + j]);
        }
    }
    let ghost antes = partes@;
    let ultima = de_caracteres(&v, inicio, n);
    partes.push(ultima);
    assert(partes@.map_values(|x: String| x@) =~= antes.map_values(|x: String| x@) + seq![t]);
    partes
}

/// Índice da entrada com a chave `k`, se houver.
pub open spec fn indice_chave(m: Seq<(Seq<char>, NoJsonV)>, k: Seq<char>) -> Option<int>
    decreases m.len(),
{
    if m.len() == 0 {
        None
    } else if m[0].0 == k {
        Some(0)
    } else {
        match indice_chave(m.drop_first(), k) {
            Some(i) => Some(i + 1),
            None => None,
        }
    }
}

/// Onde entra uma chave nova: antes da primeira chave maior que ela (as chaves estão em ordem).
pub open spec fn posicao_nova(m: Seq<(Seq<char>, NoJsonV)>, k: Seq<char>) -> int
    decreases m.len(),
{
    if m.len() == 0 {
        0
    } else if texto_menor(k, m[0].0) {
        0
    } else {
        posicao_nova(m.drop_first(), k) + 1
    }
}

/// O objeto com `chave` valendo `novo`: trocado se a chave existe, acrescentado em ordem se não.
pub open spec fn inserir_chave(m: Seq<(Seq<char>, NoJsonV)>, chave: Seq<char>, novo: NoJsonV) -> Seq<(Seq<char>, NoJsonV)> {
    match indice_chave(m, chave) {
        Some(j) => m.update(j, (chave, novo)),
        None => m.insert(posicao_nova(m, chave), (chave, novo)),
    }
}

/// `v` com `novo` no caminho `partes`: desce pelos objetos; na última parte grava a chave; se
/// no meio do caminho falta a chave ou o valor não é objeto, nada muda.
pub open spec fn com_caminho(v: NoJsonV, partes: Seq<Seq<char>>, novo: NoJsonV) -> NoJsonV
    decreases partes.len(),
{
    match v {
        NoJsonV::Objeto(m) => if partes.len() == 0 {
            v
        } else if partes.len() == 1 {
            NoJsonV::Objeto(inserir_chave(m, partes[0], novo))
        } else {
            match indice_chave(m, partes[0]) {
                Some(j) => NoJsonV::Objeto(
                    m.update(j, (m[j].0, com_caminho(m[j].1, partes.drop_first(), novo))),
                ),
                None => v,
            }
        },
        _ => v,
    }
}

proof fn lema_indice_chave(m: Seq<(Seq<char>, NoJsonV)>, k: Seq<char>)
    ensures
        indice_chave(m, k) matches Some(i) ==> 0 <= i < m.len() && m[i].0 == k && forall|j: int|
            0 <= j < i ==> #[trigger] m[j].0 != k,
        indice_chave(m, k) is None ==> forall|j: int| 0 <= j < m.len() ==> #[trigger] m[j].0 != k,
    decreases m.len(),
{
    if m.len() > 0 {
        lema_indice_chave(m.drop_first(), k);
        assert forall|j: int| 1 <= j < m.len() implies #[trigger] m[j] == m.drop_first()[j - 1] by {}
    }
}

proof fn lema_posicao_nova(m: Seq<(Seq<char>, NoJsonV)>, k: Seq<char>)
    ensures
        0 <= posicao_nova(m, k) <= m.len(),
        forall|j: int| 0 <= j < posicao_nova(m, k) ==> !texto_menor(k, #[trigger] m[j].0),
        posicao_nova(m, k) < m.len() ==> texto_menor(k, m[posicao_nova(m, k)].0),
    decreases m.len(),
{
    if m.len() > 0 && !texto_menor(k, m[0].0) {
        lema_posicao_nova(m.drop_first(), k);
        assert forall|j: int| 1 <= j < m.len() implies #[trigger] m[j] == m.drop_first()[j - 1] by {}
    }
}

/// As entradas de um objeto como modelos.
pub open spec fn entradas_v(m: Seq<(String, NoJson)>) -> Seq<(Seq<char>, NoJsonV)> {
    Seq::new(m.len(), |i: int| (m[i].0@, vista_no(m[i].1)))
}

proof fn lema_vista_objeto(m: Vec<(String, NoJson)>)
    ensures
        vista_no(NoJson::Objeto(m)) == NoJsonV::Objeto(entradas_v(m@)),
{
    let v = NoJson::Objeto(m);
    let a = vista_no(v)->Objeto_0;
    assert forall|i: int| 0 <= i < m@.len() implies #[trigger] a[i] == entradas_v(m@)[i] by {
        assert(vista_entrada(v, i) == vista_no(m@[i].1));
    }
    assert(a =~= entradas_v(m@));
}

/// Índice da entrada com a chave `k`.
fn achar_chave(m: &Vec<(String, NoJson)>, k: &str) -> (r: Option<usize>)
    ensures
        r matches Some(i) ==> indice_chave(entradas_v(m@), k@) == Some(i as int),
        r is None ==> indice_chave(entradas_v(m@), k@) is None,
{
    let ghost e = entradas_v(m@);
    let mut i: usize = 0;
    while i < m.len()
        invariant
            e == entradas_v(m@),
            i <= m@.len(),
            forall|j: int| 0 <= j < i ==> #[trigger] e[j].0 != k@,
        decreases m.len() - i,
    {
        if iguais(m[i].0.as_str(), k) {
            proof {
                lema_indice_chave(e, k@);
                assert(e[i as int].0 == k@);
                if let Some(j) = indice_chave(e, k@) {
                    if j > i {
                    }
                }
            }
            return Some(i);
        }
        i = i + 1;
    }
    proof {
        lema_indice_chave(e, k@);
        if let Some(j) = indice_chave(e, k@) {
            assert(e[j].0 == k@);
        }
    }
    None
}

/// Onde entra a chave nova `k`.
fn achar_posicao(m: &Vec<(String, NoJson)>, k: &str) -> (r: usize)
    ensures
        r == posicao_nova(entradas_v(m@), k@),
{
    let ghost e = entradas_v(m@);
    let vk = caracteres(k);
    let mut i: usize = 0;
    while i < m.len()
        invariant
            e == entradas_v(m@),
            vk@ == k@,
            i <= m@.len(),
            forall|j: int| 0 <= j < i ==> !texto_menor(k@, #[trigger] e[j].0),
        decreases m.len() - i,
    {
        let vc = caracteres(m[i].0.as_str());
        if menor_texto(&vk, &vc) {
            proof {
                lema_posicao_nova(e, k@);
                let p = posicao_nova(e, k@);
                if p < i {
                    assert(texto_menor(k@, e[p].0));
                } else if p > i {
                    assert(!texto_menor(k@, e[i as int].0));
                }
            }
            return i;
        }
        i = i + 1;
    }
    proof {
        lema_posicao_nova(e, k@);
        let p = posicao_nova(e, k@);
        if p < m@.len() {
            assert(texto_menor(k@, e[p].0));
        }
    }
    i
}

/// Troca o valor de `v` no caminho `partes[i..]` (por valor).
fn trocar(v: NoJson, partes: &Vec<String>, i: usize, novo: NoJson) -> (r: NoJson)
    requires
        i <= partes@.len(),
    ensures
        vista_no(r) == com_caminho(vista_no(v), partes@.map_values(|x: String| x@).skip(i as int), vista_no(novo)),
    decreases partes.len() - i,
{
    let ghost ps = partes@.map_values(|x: String| x@).skip(i as int);
    match v {
        NoJson::Objeto(m) => {
            let mut m = m;
            proof {
                lema_vista_objeto(m);
            }
            let ghost e = entradas_v(m@);
            if i == partes.len() {
                assert(ps.len() == 0);
                return NoJson::Objeto(m);
            }
            let chave = partes[i].as_str();
            assert(ps[0] == chave@);
            if i + 1 == partes.len() {
                let c = String::from_str(chave);
                let ghost m0 = m@;
                let ghost nv = vista_no(novo);
                match achar_chave(&m, chave) {
                    Some(j) => {
                        proof {
                            lema_indice_chave(e, chave@);
                        }
                        m.set(j, (c, novo));
                        assert(entradas_v(m@) =~= e.update(j as int, (chave@, nv)));
                    },
                    None => {
                        let p = achar_posicao(&m, chave);
                        proof {
                            lema_posicao_nova(e, chave@);
                        }
                        m.insert(p, (c, novo));
                        proof {
                            m0.insert_ensures(p as int, (c, novo));
                            e.insert_ensures(p as int, (chave@, nv));
                        }
                        assert(entradas_v(m@) =~= e.insert(p as int, (chave@, nv)));
                    },
                }
                proof {
                    lema_vista_objeto(m);
                }
                assert(entradas_v(m@) == inserir_chave(e, ps[0], vista_no(novo)));
                NoJson::Objeto(m)
            } else {
                match achar_chave(&m, chave) {
                    None => NoJson::Objeto(m),
                    Some(j) => {
                        proof {
                            lema_indice_chave(e, chave@);
                        }
                        let (c, filho) = m.remove(j);
                        assert(ps.drop_first() =~= partes@.map_values(|x: String| x@).skip(i + 1));
                        let f2 = trocar(filho, partes, i + 1, novo);
                        m.insert(j, (c, f2));
                        proof {
                            lema_vista_objeto(m);
                        }
                        assert(entradas_v(m@) =~= e.update(j as int, (e[j as int].0, com_caminho(e[j as int].1, ps.drop_first(), vista_no(novo)))));
                        NoJson::Objeto(m)
                    },
                }
            }
        },
        outro => outro,
    }
}

/// Grava `novo` no caminho `a.b.c` de `v`: desce pelos objetos e grava a chave no último; se no
/// meio do caminho falta a chave ou o valor não é objeto, nada muda.
pub fn set_path(v: &mut NoJson, caminho: &str, novo: NoJson)
    ensures
        vista_no(*final(v)) == com_caminho(vista_no(*old(v)), segmentos(caminho@), vista_no(novo)),
{
    let partes = dividir_caminho(caminho);
    let mut atual = NoJson::Nulo;
    std::mem::swap(&mut atual, v);
    assert(partes@.map_values(|x: String| x@).skip(0) =~= partes@.map_values(|x: String| x@));
    let r = trocar(atual, &partes, 0, novo);
    *v = r;
}

/// O valor digitado para uma folha, no tipo que ela tinha: booleano é `true` exatamente para o
/// texto `true`; inteiro é o texto lido como `i64`, ou o valor antigo se não for um; o resto vira
/// texto. Uma folha `Numero` (ponto flutuante ou inteiro grande) não é decidida aqui (`None`).
pub open spec fn valor_editado_spec(orig: NoJsonV, s: Seq<char>) -> Option<NoJsonV> {
    match orig {
        NoJsonV::Booleano(_) => Some(NoJsonV::Booleano(s == "true"@)),
        NoJsonV::Inteiro(n) => Some(
            match inteiro_i64(s) {
                Some(v) => NoJsonV::Inteiro(v),
                None => NoJsonV::Inteiro(n),
            },
        ),
        NoJsonV::Numero(_) => None,
        _ => Some(NoJsonV::Texto(s)),
    }
}

/// Converte o valor digitado para o tipo da folha (ver [`valor_editado_spec`]).
pub fn valor_editado(orig: &NoJson, s: &str) -> (r: Option<NoJson>)
    ensures
        match r { Some(v) => Some(vista_no(v)), None => None } == valor_editado_spec(vista_no(*orig), s@),
{
    match orig {
        NoJson::Booleano(_) => Some(NoJson::Booleano(iguais(s, "true"))),
        NoJson::Inteiro(n) => Some(
            match ler_i64(s) {
                Some(v) => NoJson::Inteiro(v),
                None => NoJson::Inteiro(*n),
            },
        ),
        NoJson::Numero(_) => None,
        _ => Some(NoJson::Texto(String::from_str(s))),
    }
}

} // verus!
