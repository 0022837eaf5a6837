//! Tabela da classificação ABC: a busca (por código ou produto, sem diferenciar maiúsculas), os
//! filtros de classe e de status e a ordenação escolhida (volume, estoque ou produto), estável
//! como `sort_by_key`. A tabela é dada pelos índices das linhas, na ordem de exibição.

use vstd::prelude::*;
use crate::texto::{caracteres, iguais};

verus! {

broadcast use vstd::seq_lib::group_seq_properties;

/// O que a busca, os filtros e a ordenação leem de uma linha da tabela ABC.
#[derive(Clone, Debug, PartialEq, Eq)]
pub struct ChaveAbc {
    pub codigo_estoque: String,
    pub produto: Option<String>,
    pub classe: String,
    pub status: String,
    pub volume_janela: i64,
    pub estoque_atual: i64,
}

/// Modelo de [`ChaveAbc`]; o produto ausente é o texto vazio.
pub struct ChaveAbcV {
    pub codigo: Seq<char>,
    pub produto: Seq<char>,
    pub classe: Seq<char>,
    pub status: Seq<char>,
    pub volume: int,
    pub estoque: int,
}

/// Modelo de uma linha.
pub open spec fn vista_chave(c: ChaveAbc) -> ChaveAbcV {
    ChaveAbcV {
        codigo: c.codigo_estoque@,
        produto: match c.produto {
            Some(p) => p@,
            None => Seq::empty(),
        },
        classe: c.classe@,
        status: c.status@,
        volume: c.volume_janela as int,
        estoque: c.estoque_atual as int,
    }
}

/// Modelo das linhas.
pub open spec fn vista_linhas(v: Seq<ChaveAbc>) -> Seq<ChaveAbcV> {
    v.map_values(|c: ChaveAbc| vista_chave(c))
}

/// Ordenações da tabela.
#[derive(Debug, Clone, Copy, PartialEq, Eq, Structural)]
pub enum OrdemAbc {
    VolumeDesc,
    VolumeAsc,
    EstoqueDesc,
    EstoqueAsc,
    ProdutoAsc,
}

/// A ordenação escolhida no seletor; qualquer outro valor é volume decrescente.
pub open spec fn ordem_abc_de(ordem: Seq<char>) -> OrdemAbc {
    if ordem == "volume_asc"@ {
        OrdemAbc::VolumeAsc
    } else if ordem == "estoque_desc"@ {
        OrdemAbc::EstoqueDesc
    } else if ordem == "estoque_asc"@ {
        OrdemAbc::EstoqueAsc
    } else if ordem == "produto_asc"@ {
        OrdemAbc::ProdutoAsc
    } else {
        OrdemAbc::VolumeDesc
    }
}

/// Lê a ordenação escolhida.
pub fn ordem_abc(ordem: &str) -> (r: OrdemAbc)
    ensures
        r == ordem_abc_de(ordem@),
{
    if iguais(ordem, "volume_asc") {
        OrdemAbc::VolumeAsc
    } else if iguais(ordem, "estoque_desc") {
        OrdemAbc::EstoqueDesc
    } else if iguais(ordem, "estoque_asc") {
        OrdemAbc::EstoqueAsc
    } else if iguais(ordem, "produto_asc") {
        OrdemAbc::ProdutoAsc
    } else {
        OrdemAbc::VolumeDesc
    }
}

/// `a` vem antes de `b` na ordem de `str::cmp`: a ordem dos bytes UTF-8, que é a dos pontos de
/// código, caractere a caractere; um prefixo vem antes.
pub open spec fn texto_menor(a: Seq<char>, b: Seq<char>) -> bool
    decreases a.len(),
{
    if a.len() == 0 {
        b.len() > 0
    } else if b.len() == 0 {
        false
    } else if a[0] != b[0] {
        (a[0] as u32) < (b[0] as u32)
    } else {
        texto_menor(a.drop_first(), b.drop_first())
    }
}

proof fn lema_texto_menor_irreflexivo(a: Seq<char>)
    ensures
        !texto_menor(a, a),
    decreases a.len(),
{
    if a.len() > 0 {
        lema_texto_menor_irreflexivo(a.drop_first());
    }
}

proof fn lema_texto_menor_transitivo(a: Seq<char>, b: Seq<char>, c: Seq<char>)
    requires
        texto_menor(a, b),
        texto_menor(b, c),
    ensures
        texto_menor(a, c),
    decreases a.len(),
{
    if a.len() > 0 && b.len() > 0 && c.len() > 0 && a[0] == b[0] && b[0] == c[0] {
        lema_texto_menor_transitivo(a.drop_first(), b.drop_first(), c.drop_first());
    }
}

proof fn lema_texto_menor_total(a: Seq<char>, b: Seq<char>)
    ensures
        a == b || texto_menor(a, b) || texto_menor(b, a),
    decreases a.len(),
{
    if a.len() > 0 && b.len() > 0 {
        if a[0] == b[0] {
            lema_texto_menor_total(a.drop_first(), b.drop_first());
            if a.drop_first() == b.drop_first() {
                assert(a =~= seq![a[0]] + a.drop_first());
                assert(b =~= seq![b[0]] + b.drop_first());
            }
        } else {
            vstd::utf8::char_u32_cast(a[0], a[0] as u32);
            vstd::utf8::char_u32_cast(b[0], b[0] as u32);
        }
    } else if a.len() == 0 && b.len() == 0 {
        assert(a =~= b);
    }
}

/// A linha `a` vem antes da linha `b` na ordem `o`: pela chave da ordem e, empatadas, pela
/// posição de entrada (a ordenação é estável).
pub open spec fn precede(vs: Seq<ChaveAbcV>, o: OrdemAbc, a: int, b: int) -> bool {
    let x = vs[a];
    let y = vs[b];
    match o {
        OrdemAbc::VolumeDesc => x.volume > y.volume || (x.volume == y.volume && a < b),
        OrdemAbc::VolumeAsc => x.volume < y.volume || (x.volume == y.volume && a < b),
        OrdemAbc::EstoqueDesc => x.estoque > y.estoque || (x.estoque == y.estoque && a < b),
        OrdemAbc::EstoqueAsc => x.estoque < y.estoque || (x.estoque == y.estoque && a < b),
        OrdemAbc::ProdutoAsc => texto_menor(x.produto, y.produto) || (x.produto == y.produto && a < b),
    }
}

/// `precede` é uma ordem total estrita entre posições distintas.
proof fn lema_precede(vs: Seq<ChaveAbcV>, o: OrdemAbc, a: int, b: int, c: int)
    ensures
        !precede(vs, o, a, a),
        a != b ==> precede(vs, o, a, b) || precede(vs, o, b, a),
        precede(vs, o, a, b) && precede(vs, o, b, c) ==> precede(vs, o, a, c),
        precede(vs, o, a, b) ==> !precede(vs, o, b, a),
{
    lema_texto_menor_irreflexivo(vs[a].produto);
    lema_texto_menor_total(vs[a].produto, vs[b].produto);
    if texto_menor(vs[a].produto, vs[b].produto) && texto_menor(vs[b].produto, vs[c].produto) {
        lema_texto_menor_transitivo(vs[a].produto, vs[b].produto, vs[c].produto);
    }
    if texto_menor(vs[a].produto, vs[b].produto) && texto_menor(vs[b].produto, vs[a].produto) {
        lema_texto_menor_transitivo(vs[a].produto, vs[b].produto, vs[a].produto);
    }
}

/// Compara dois textos na ordem de `str::cmp`.
pub(crate) fn menor_texto(a: &Vec<char>, b: &Vec<char>) -> (r: bool)
    ensures
        r == texto_menor(a@, b@),
{
    let mut i: usize = 0;
    assert(a@.subrange(0, a@.len() as int) =~= a@);
    assert(b@.subrange(0, b@.len() as int) =~= b@);
    while i < a.len() && i < b.len() && a[i] == b[i]
        invariant
            i <= a@.len(),
            i <= b@.len(),
            texto_menor(a@, b@) == texto_menor(a@.subrange(i as int, a@.len() as int), b@.subrange(i as int, b@.len() as int)),
        decreases a.len() - i,
    {
        assert(a@.subrange(i as int, a@.len() as int).drop_first() =~= a@.subrange(i + 1, a@.len() as int));
        assert(b@.subrange(i as int, b@.len() as int).drop_first() =~= b@.subrange(i + 1, b@.len() as int));
        i = i + 1;
    }
    let ghost sa = a@.subrange(i as int, a@.len() as int);
    let ghost sb = b@.subrange(i as int, b@.len() as int);
    if i == a.len() {
        i < b.len()
    } else if i == b.len() {
        false
    } else {
        let x = a[i];
        let y = b[i];
        assert(sa[0] == x);
        assert(sb[0] == y);
        assert(x != y);
        assert(sa.len() > 0 && sb.len() > 0);
        (x as u32) < (y as u32)
    }
}

/// O produto da linha como caracteres (vazio se ausente).
fn produto_de(c: &ChaveAbc) -> (r: Vec<char>)
    ensures
        r@ == vista_chave(*c).produto,
{
    match &c.produto {
        Some(p) => caracteres(p.as_str()),
        None => Vec::new(),
    }
}

/// Se a linha `a` vem antes da linha `b` na ordem `o`.
fn vem_antes(linhas: &Vec<ChaveAbc>, o: OrdemAbc, a: usize, b: usize) -> (r: bool)
    requires
        a < linhas@.len(),
        b < linhas@.len(),
    ensures
        r == precede(vista_linhas(linhas@), o, a as int, b as int),
{
    let x = &linhas[a];
    let y = &linhas[b];
    match o {
        OrdemAbc::VolumeDesc => x.volume_janela > y.volume_janela || (x.volume_janela == y.volume_janela && a < b),
        OrdemAbc::VolumeAsc => x.volume_janela < y.volume_janela || (x.volume_janela == y.volume_janela && a < b),
        OrdemAbc::EstoqueDesc => x.estoque_atual > y.estoque_atual || (x.estoque_atual == y.estoque_atual && a < b),
        OrdemAbc::EstoqueAsc => x.estoque_atual < y.estoque_atual || (x.estoque_atual == y.estoque_atual && a < b),
        OrdemAbc::ProdutoAsc => {
            let px = produto_de(x);
            let py = produto_de(y);
            if menor_texto(&px, &py) {
                true
            } else if menor_texto(&py, &px) {
                false
            } else {
                proof {
                    lema_texto_menor_total(px@, py@);
                }
                a < b
            }
        },
    }
}

/// `s` está em ordem estrita por `precede`.
pub open spec fn em_ordem(vs: Seq<ChaveAbcV>, o: OrdemAbc, s: Seq<usize>) -> bool {
    forall|i: int, j: int| 0 <= i < j < s.len() ==> precede(vs, o, #[trigger] s[i] as int, #[trigger] s[j] as int)
}

/// Ordena as posições `idx` (distintas, de linhas existentes) pela ordem `o`, por inserção.
/// Como `precede` desempata pela posição, o resultado é o da ordenação estável das posições em
/// ordem crescente.
pub fn ordenar_linhas(linhas: &Vec<ChaveAbc>, idx: &Vec<usize>, o: OrdemAbc) -> (r: Vec<usize>)
    requires
        forall|i: int| 0 <= i < idx@.len() ==> #[trigger] idx@[i] < linhas@.len(),
        idx@.no_duplicates(),
    ensures
        r@.len() == idx@.len(),
        forall|x: usize| r@.contains(x) <==> idx@.contains(x),
        em_ordem(vista_linhas(linhas@), o, r@),
{
    let ghost vs = vista_linhas(linhas@);
    let mut r: Vec<usize> = Vec::new();
    let mut k: usize = 0;
    while k < idx.len()
        invariant
            vs == vista_linhas(linhas@),
            forall|i: int| 0 <= i < idx@.len() ==> #[trigger] idx@[i] < linhas@.len(),
            idx@.no_duplicates(),
            k <= idx@.len(),
            r@.len() == k,
            forall|x: usize| r@.contains(x) <==> idx@.take(k as int).contains(x),
            forall|i: int| 0 <= i < r@.len() ==> #[trigger] r@[i] < linhas@.len(),
            em_ordem(vs, o, r@),
        decreases idx.len() - k,
    {
        let x = idx[k];
        let mut p: usize = 0;
        while p < r.len() && !vem_antes(linhas, o, x, r[p])
            invariant
                vs == vista_linhas(linhas@),
                x < linhas@.len(),
                p <= r@.len(),
                forall|i: int| 0 <= i < r@.len() ==> #[trigger] r@[i] < linhas@.len(),
                forall|j: int| 0 <= j < p ==> !precede(vs, o, x as int, #[trigger] r@[j] as int),
            decreases r.len() - p,
        {
            p = p + 1;
        }
        proof {
            assert(!idx@.take(k as int).contains(x)) by {
                if idx@.take(k as int).contains(x) {
                    let j = choose|j: int| 0 <= j < k && #[trigger] idx@.take(k as int)[j] == x;
                    assert(idx@[j] == idx@[k as int]);
                }
            }
            assert(!r@.contains(x));
            assert forall|j: int| 0 <= j < p implies precede(vs, o, #[trigger] r@[j] as int, x as int) by {
                assert(r@.contains(r@[j]));
                lema_precede(vs, o, r@[j] as int, x as int, x as int);
            }
            if p < r@.len() {
                assert forall|j: int| p <= j < r@.len() implies precede(vs, o, x as int, #[trigger] r@[j] as int) by {
                    if j > p {
                        lema_precede(vs, o, x as int, r@[p as int] as int, r@[j] as int);
                    }
                }
            }
        }
        let ghost antes = r@;
        r.insert(p, x);
        proof {
            antes.insert_ensures(p as int, x);
            assert(idx@.take(k + 1) =~= idx@.take(k as int).push(x));
            assert forall|y: usize| r@.contains(y) <==> idx@.take(k + 1).contains(y) by {
                if r@.contains(y) {
                    let j = choose|j: int| 0 <= j < r@.len() && #[trigger] r@[j] == y;
                    if j < p {
                        assert(antes[j] == y);
                        assert(antes.contains(y));
                    } else if j > p {
                        assert(antes[j - 1] == y);
                        assert(antes.contains(y));
                    }
                    assert(idx@.take(k + 1).contains(y) || y == x);
                    if y == x {
                        assert(idx@.take(k + 1)[k as int] == x);
                    }
                }
                if idx@.take(k + 1).contains(y) {
                    let j = choose|j: int| 0 <= j < k + 1 && #[trigger] idx@.take(k + 1)[j] == y;
                    if j < k {
                        assert(idx@.take(k as int)[j] == y);
                        assert(antes.contains(y));
                        let m = choose|m: int| 0 <= m < antes.len() && #[trigger] antes[m] == y;
                        if m < p {
                            assert(r@[m] == y);
                        } else {
                            assert(r@[m + 1] == y);
                        }
                    } else {
                        assert(r@[p as int] == x);
                    }
                }
            }
            assert forall|i: int, j: int| 0 <= i < j < r@.len() implies precede(vs, o, #[trigger] r@[i] as int, #[trigger] r@[j] as int) by {
                if j < p {
                    assert(r@[i] == antes[i] && r@[j] == antes[j]);
                } else if j == p {
                    assert(r@[i] == antes[i]);
                } else if i < p {
                    assert(r@[i] == antes[i] && r@[j] == antes[j - 1]);
                    lema_precede(vs, o, antes[i] as int, x as int, antes[j - 1] as int);
                } else if i == p {
                    assert(r@[j] == antes[j - 1]);
                } else {
                    assert(r@[i] == antes[i - 1] && r@[j] == antes[j - 1]);
                }
            }
        }
        k = k + 1;
    }
    proof {
        assert(idx@.take(k as int) =~= idx@);
    }
    r
}

/// O texto em minúsculas segundo `str::to_lowercase` (o mapeamento de maiúsculas do Unicode).
pub uninterp spec fn minusculas(s: Seq<char>) -> Seq<char>;

/// Minúscula de um caractere segundo o mapeamento simples do Unicode (UnicodeData.txt), no
/// trecho Latin-1 (U+0000 a U+00FF): as maiúsculas `A`–`Z`, `À`–`Ö` e `Ø`–`Þ` sobem 32 pontos de
/// código (`É` vira `é`); os demais caracteres desse trecho não têm minúscula e ficam como estão.
pub open spec fn minuscula_latin1(c: char) -> char {
    let u = c as u32;
    if (0x41 <= u && u <= 0x5a) || (0xc0 <= u && u <= 0xde && u != 0xd7) {
        ((u + 32) as u32) as char
    } else {
        c
    }
}

/// O texto só tem caracteres do trecho Latin-1 (U+0000 a U+00FF).
pub open spec fn so_latin1(s: Seq<char>) -> bool {
    forall|i: int| 0 <= i < s.len() ==> (#[trigger] s[i] as u32) <= 0xff
}

/// O texto em minúsculas, caractere a caractere, por [`minuscula_latin1`].
pub open spec fn baixa_latin1(s: Seq<char>) -> Seq<char> {
    s.map_values(|c: char| minuscula_latin1(c))
}

/// `str::to_lowercase`. O contrato diz que o resultado é `minusculas` do texto dado e, para um
/// texto só do trecho Latin-1, que é o texto com cada maiúscula trocada pela sua minúscula do
/// Unicode (`to_lowercase` aplica a cada caractere o mapeamento de `char::to_lowercase`, que no
/// Latin-1 é de um caractere para um; o caso especial do sigma final fica fora desse trecho). Fora
/// do Latin-1 a tabela de caixa do Unicode não é descrita aqui.
#[verifier::external_body]
fn em_minusculas(s: &str) -> (r: String)
    ensures
        r@ == minusculas(s@),
        so_latin1(s@) ==> r@ == baixa_latin1(s@),
{
    s.to_lowercase()
}

/// `agulha` aparece como trecho contíguo de `palheiro`.
pub open spec fn contem_trecho(palheiro: Seq<char>, agulha: Seq<char>) -> bool {
    exists|i: int| 0 <= i <= palheiro.len() - agulha.len() && #[trigger] palheiro.subrange(i, i + agulha.len()) == agulha
}

/// Se `agulha` aparece em `palheiro` a partir da posição `i`.
fn trecho_em(palheiro: &Vec<char>, agulha: &Vec<char>, i: usize) -> (r: bool)
    requires
        i + agulha@.len() <= palheiro@.len(),
    ensures
        r == (palheiro@.subrange(i as int, i + agulha@.len()) == agulha@),
{
    let n = palheiro.len();
    let mut k: usize = 0;
    while k < agulha.len()
        invariant
            n == palheiro@.len(),
            i + agulha@.len() <= palheiro@.len(),
            k <= agulha@.len(),
            forall|m: int| 0 <= m < k ==> palheiro@[i + m] == #[trigger] agulha@[m],
        decreases agulha.len() - k,
    {
        if palheiro[i + k] != agulha[k] {
            assert(palheiro@.subrange(i as int, i + agulha@.len())[k as int] != agulha@[k as int]);
            return false;
        }
        k = k + 1;
    }
    assert(palheiro@.subrange(i as int, i + agulha@.len()) =~= agulha@);
    true
}

/// Se `agulha` aparece em `palheiro` (`str::contains`).
fn contem(palheiro: &Vec<char>, agulha: &Vec<char>) -> (r: bool)
    ensures
        r == contem_trecho(palheiro@, agulha@),
{
    if agulha.len() > palheiro.len() {
        return false;
    }
    let ultimo = palheiro.len() - agulha.len();
    let mut i: usize = 0;
    loop
        invariant
            agulha@.len() <= palheiro@.len(),
            ultimo == palheiro@.len() - agulha@.len(),
            i <= ultimo,
            forall|m: int| 0 <= m < i ==> #[trigger] palheiro@.subrange(m, m + agulha@.len()) != agulha@,
        decreases ultimo - i,
    {
        if trecho_em(palheiro, agulha, i) {
            return true;
        }
        if i == ultimo {
            return false;
        }
        i = i + 1;
    }
}

/// A busca (já em minúsculas) casa com o código ou com o produto (em minúsculas): vazia casa
/// com tudo.
pub open spec fn casa_busca(codigo_min: Seq<char>, produto_min: Seq<char>, busca_min: Seq<char>) -> bool {
    busca_min.len() == 0 || contem_trecho(codigo_min, busca_min) || contem_trecho(produto_min, busca_min)
}

/// Se a busca (em minúsculas) casa com o código ou o produto de uma linha (em minúsculas).
pub fn passa_busca(codigo_min: &str, produto_min: &str, busca_min: &str) -> (r: bool)
    ensures
        r == casa_busca(codigo_min@, produto_min@, busca_min@),
{
    if busca_min.is_empty() {
        return true;
    }
    let b = caracteres(busca_min);
    let c = caracteres(codigo_min);
    if contem(&c, &b) {
        return true;
    }
    let p = caracteres(produto_min);
    contem(&p, &b)
}

/// Texto opcional como sequência.
pub open spec fn opcional(o: Option<&str>) -> Option<Seq<char>> {
    match o {
        Some(s) => Some(s@),
        None => None,
    }
}

/// A linha aparece na tabela: casa com a busca e com os filtros de classe e de status escolhidos.
pub open spec fn linha_visivel(v: ChaveAbcV, busca_min: Seq<char>, classe: Option<Seq<char>>, status: Option<Seq<char>>) -> bool {
    &&& casa_busca(minusculas(v.codigo), minusculas(v.produto), busca_min)
    &&& match classe { Some(c) => v.classe == c, None => true }
    &&& match status { Some(s) => v.status == s, None => true }
}

/// As posições das `n` primeiras linhas que aparecem, em ordem.
pub open spec fn visiveis(vs: Seq<ChaveAbcV>, busca_min: Seq<char>, classe: Option<Seq<char>>, status: Option<Seq<char>>, n: int) -> Seq<usize>
    decreases n,
{
    if n <= 0 {
        Seq::empty()
    } else {
        let antes = visiveis(vs, busca_min, classe, status, n - 1);
        if linha_visivel(vs[n - 1], busca_min, classe, status) {
            antes.push((n - 1) as usize)
        } else {
            antes
        }
    }
}

proof fn lema_visiveis(vs: Seq<ChaveAbcV>, b: Seq<char>, c: Option<Seq<char>>, s: Option<Seq<char>>, n: int)
    requires
        0 <= n <= vs.len(),
        vs.len() <= usize::MAX,
    ensures
        forall|i: int| 0 <= i < visiveis(vs, b, c, s, n).len() ==> #[trigger] visiveis(vs, b, c, s, n)[i] < n,
        forall|i: int, j: int| 0 <= i < j < visiveis(vs, b, c, s, n).len() ==> #[trigger] visiveis(vs, b, c, s, n)[i] < #[trigger] visiveis(vs, b, c, s, n)[j],
    decreases n,
{
    if n > 0 {
        lema_visiveis(vs, b, c, s, n - 1);
        let antes = visiveis(vs, b, c, s, n - 1);
        let agora = visiveis(vs, b, c, s, n);
        if linha_visivel(vs[n - 1], b, c, s) {
            assert(agora == antes.push((n - 1) as usize));
            assert forall|i: int| 0 <= i < agora.len() implies #[trigger] agora[i] < n by {
                if i < antes.len() {
                    assert(agora[i] == antes[i]);
                }
            }
            assert forall|i: int, j: int| 0 <= i < j < agora.len() implies #[trigger] agora[i] < #[trigger] agora[j] by {
                assert(agora[i] == antes[i]);
                if j < antes.len() {
                    assert(agora[j] == antes[j]);
                }
            }
        }
    }
}

proof fn lema_visiveis_contem(vs: Seq<ChaveAbcV>, b: Seq<char>, c: Option<Seq<char>>, s: Option<Seq<char>>, n: int, k: int)
    requires
        0 <= n <= vs.len(),
        vs.len() <= usize::MAX,
        0 <= k < n,
    ensures
        visiveis(vs, b, c, s, n).contains(k as usize) <==> linha_visivel(vs[k], b, c, s),
    decreases n,
{
    lema_visiveis(vs, b, c, s, n - 1);
    let antes = visiveis(vs, b, c, s, n - 1);
    if k < n - 1 {
        lema_visiveis_contem(vs, b, c, s, n - 1, k);
        if linha_visivel(vs[n - 1], b, c, s) {
            assert(visiveis(vs, b, c, s, n) == antes.push((n - 1) as usize));
            if antes.push((n - 1) as usize).contains(k as usize) {
                let p = choose|p: int| 0 <= p < antes.len() + 1 && #[trigger] antes.push((n - 1) as usize)[p] == k as usize;
                if p == antes.len() {
                    assert(false);
                }
                assert(antes[p] == k as usize);
            }
        }
    } else {
        if linha_visivel(vs[n - 1], b, c, s) {
            assert(visiveis(vs, b, c, s, n) == antes.push((n - 1) as usize));
            assert(antes.push((n - 1) as usize)[antes.len() as int] == k as usize);
        } else {
            if antes.contains(k as usize) {
                let p = choose|p: int| 0 <= p < antes.len() && #[trigger] antes[p] == k as usize;
                assert(antes[p] < n - 1);
            }
        }
    }
}

/// A linha aparece na tabela, com textos só do trecho Latin-1: a busca em minúsculas é trecho do
/// código ou do produto em minúsculas (ou é vazia), e a classe e o status casam com os filtros.
pub open spec fn linha_visivel_latin1(v: ChaveAbcV, busca: Seq<char>, classe: Option<Seq<char>>, status: Option<Seq<char>>) -> bool {
    &&& casa_busca(baixa_latin1(v.codigo), baixa_latin1(v.produto), baixa_latin1(busca))
    &&& match classe { Some(c) => v.classe == c, None => true }
    &&& match status { Some(s) => v.status == s, None => true }
}

/// A minúscula de uma minúscula é ela mesma, e a minúscula de um caractere do Latin-1 continua no
/// Latin-1.
pub proof fn lei_minuscula_latin1(c: char)
    requires
        (c as u32) <= 0xff,
    ensures
        (minuscula_latin1(c) as u32) <= 0xff,
        minuscula_latin1(minuscula_latin1(c)) == minuscula_latin1(c),
        minuscula_latin1(c) != c ==> (minuscula_latin1(c) as u32) == (c as u32) + 32,
{
    let u = c as u32;
    if (0x41 <= u && u <= 0x5a) || (0xc0 <= u && u <= 0xde && u != 0xd7) {
        let m = ((u + 32) as u32) as char;
        assert((m as u32) == u + 32);
    }
}

/// A busca não diferencia maiúsculas: buscar um texto do Latin-1 ou o mesmo texto já em minúsculas
/// (`TÉRMICA` ou `térmica`) mostra as mesmas linhas.
pub proof fn lei_busca_sem_caixa(v: ChaveAbcV, busca: Seq<char>, classe: Option<Seq<char>>, status: Option<Seq<char>>)
    requires
        so_latin1(busca),
    ensures
        so_latin1(baixa_latin1(busca)),
        linha_visivel_latin1(v, baixa_latin1(busca), classe, status) == linha_visivel_latin1(v, busca, classe, status),
{
    assert forall|i: int| 0 <= i < busca.len() implies baixa_latin1(baixa_latin1(busca))[i] == baixa_latin1(busca)[i] by {
        lei_minuscula_latin1(busca[i]);
    }
    assert(baixa_latin1(baixa_latin1(busca)) =~= baixa_latin1(busca));
    assert forall|i: int| 0 <= i < baixa_latin1(busca).len() implies (#[trigger] baixa_latin1(busca)[i] as u32) <= 0xff by {
        lei_minuscula_latin1(busca[i]);
    }
}

/// A busca casa com o texto como ele está escrito: se a busca aparece tal qual no código ou no
/// produto, e a classe e o status passam nos filtros, a linha aparece.
pub proof fn lei_busca_literal(v: ChaveAbcV, busca: Seq<char>, classe: Option<Seq<char>>, status: Option<Seq<char>>)
    requires
        contem_trecho(v.codigo, busca) || contem_trecho(v.produto, busca),
        match classe { Some(c) => v.classe == c, None => true },
        match status { Some(s) => v.status == s, None => true },
    ensures
        linha_visivel_latin1(v, busca, classe, status),
{
    lema_trecho_em_minusculas(v.codigo, busca);
    lema_trecho_em_minusculas(v.produto, busca);
}

proof fn lema_trecho_em_minusculas(p: Seq<char>, b: Seq<char>)
    ensures
        contem_trecho(p, b) ==> contem_trecho(baixa_latin1(p), baixa_latin1(b)),
{
    if contem_trecho(p, b) {
        let i = choose|i: int| 0 <= i <= p.len() - b.len() && #[trigger] p.subrange(i, i + b.len()) == b;
        assert(baixa_latin1(p).subrange(i, i + b.len()) =~= baixa_latin1(b));
    }
}

/// Se a linha aparece na tabela.
fn linha_aparece(l: &ChaveAbc, busca_min: &str, classe: Option<&str>, status: Option<&str>) -> (r: bool)
    ensures
        r == linha_visivel(vista_chave(*l), busca_min@, opcional(classe), opcional(status)),
        so_latin1(vista_chave(*l).codigo) ==> minusculas(vista_chave(*l).codigo) == baixa_latin1(vista_chave(*l).codigo),
        so_latin1(vista_chave(*l).produto) ==> minusculas(vista_chave(*l).produto) == baixa_latin1(vista_chave(*l).produto),
{
    let classe_ok = match classe {
        Some(c) => iguais(l.classe.as_str(), c),
        None => true,
    };
    let status_ok = match status {
        Some(s) => iguais(l.status.as_str(), s),
        None => true,
    };
    let codigo_min = em_minusculas(l.codigo_estoque.as_str());
    let produto_min = match &l.produto {
        Some(p) => em_minusculas(p.as_str()),
        None => {
            proof {
                reveal_strlit("");
                assert(""@ =~= Seq::<char>::empty());
            }
            em_minusculas("")
        },
    };
    assert(produto_min@ == minusculas(vista_chave(*l).produto));
    assert(codigo_min@ == minusculas(vista_chave(*l).codigo));
    assert(classe_ok == match opcional(classe) { Some(c) => vista_chave(*l).classe == c, None => true });
    assert(status_ok == match opcional(status) { Some(s) => vista_chave(*l).status == s, None => true });
    passa_busca(codigo_min.as_str(), produto_min.as_str(), busca_min) && classe_ok && status_ok
}

/// As linhas da tabela ABC, na ordem de exibição: as que casam com a busca (sem diferenciar
/// maiúsculas, no código ou no produto) e com os filtros de classe e de status, ordenadas pela
/// ordem escolhida e, em empate, pela posição de entrada (como `sort_by_key`, que é estável).
pub fn tabela_abc(linhas: &Vec<ChaveAbc>, busca: &str, classe: Option<&str>, status: Option<&str>, ordem: &str) -> (r: Vec<usize>)
    ensures
        r@.len() == visiveis(vista_linhas(linhas@), minusculas(busca@), opcional(classe), opcional(status), linhas@.len() as int).len(),
        forall|x: usize|
            r@.contains(x) <==> visiveis(vista_linhas(linhas@), minusculas(busca@), opcional(classe), opcional(status), linhas@.len() as int).contains(x),
        em_ordem(vista_linhas(linhas@), ordem_abc_de(ordem@), r@),
        forall|i: int|
            0 <= i < linhas@.len() && so_latin1(busca@) && so_latin1(#[trigger] vista_linhas(linhas@)[i].codigo)
                && so_latin1(vista_linhas(linhas@)[i].produto) ==> (r@.contains(i as usize)
                <==> linha_visivel_latin1(vista_linhas(linhas@)[i], busca@, opcional(classe), opcional(status))),
{
    let ghost vs = vista_linhas(linhas@);
    let busca_min = em_minusculas(busca);
    let ghost b = minusculas(busca@);
    let mut idx: Vec<usize> = Vec::new();
    let mut i: usize = 0;
    while i < linhas.len()
        invariant
            vs == vista_linhas(linhas@),
            busca_min@ == b,
            i <= linhas@.len(),
            idx@ == visiveis(vs, b, opcional(classe), opcional(status), i as int),
            so_latin1(busca@) ==> b == baixa_latin1(busca@),
            forall|j: int|
                0 <= j < i ==> (so_latin1(#[trigger] vs[j].codigo) ==> minusculas(vs[j].codigo) == baixa_latin1(vs[j].codigo))
                    && (so_latin1(vs[j].produto) ==> minusculas(vs[j].produto) == baixa_latin1(vs[j].produto)),
        decreases linhas.len() - i,
    {
        proof {
            assert(vs[i as int] == vista_chave(linhas@[i as int]));
        }
        if linha_aparece(&linhas[i], busca_min.as_str(), classe, status) {
            idx.push(i);
        }
        i = i + 1;
    }
    proof {
        lema_visiveis(vs, b, opcional(classe), opcional(status), i as int);
        assert(idx@.no_duplicates()) by {
            assert forall|p: int, q: int| 0 <= p < idx@.len() && 0 <= q < idx@.len() && p != q implies idx@[p] != idx@[q] by {
                if p < q {
                    assert(idx@[p] < idx@[q]);
                } else {
                    assert(idx@[q] < idx@[p]);
                }
            }
        }
    }
    let o = ordem_abc(ordem);
    let r = ordenar_linhas(linhas, &idx, o);
    proof {
        assert forall|k: int|
            0 <= k < linhas@.len() && so_latin1(busca@) && so_latin1(#[trigger] vs[k].codigo)
                && so_latin1(vs[k].produto) implies (r@.contains(k as usize)
                <==> linha_visivel_latin1(vs[k], busca@, opcional(classe), opcional(status))) by {
            lema_visiveis_contem(vs, b, opcional(classe), opcional(status), linhas@.len() as int, k);
        }
    }
    r
}

} // verus!
