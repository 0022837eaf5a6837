//! Paginação das listas: quantas páginas há, qual é a atual, para onde as setas levam e a janela
//! deslizante de até cinco páginas numeradas mostrada entre as setas.

use vstd::prelude::*;
use vstd::string::StringExecFns;
use crate::formato::{fmt_milhar, milhar_com_sinal};

verus! {

/// Quantas páginas numeradas cabem entre as setas.
pub const JANELA_PAGINAS: i64 = 5;

/// `a / b` com arredondamento em direção ao zero, como a divisão de inteiros do Rust (`b > 0`).
pub open spec fn quociente_truncado(a: int, b: int) -> int {
    if a >= 0 {
        a / b
    } else {
        -((-a) / b)
    }
}

/// O maior de dois inteiros.
pub open spec fn maior(a: int, b: int) -> int {
    if a >= b { a } else { b }
}

/// O menor de dois inteiros.
pub open spec fn menor(a: int, b: int) -> int {
    if a <= b { a } else { b }
}

/// `a / b` com arredondamento em direção ao zero (`b > 0`).
fn dividir(a: i64, b: i64) -> (q: i64)
    requires
        b > 0,
    ensures
        q == quociente_truncado(a as int, b as int),
{
    a / b
}

/// Quantos botões numerados a janela mostra: cinco, ou todas as páginas se forem menos.
pub open spec fn largura_janela(total_paginas: int) -> int {
    menor(JANELA_PAGINAS as int, total_paginas)
}

/// A primeira página da janela: a atual fica no meio, mas a janela não passa da página 1 nem
/// da última.
pub open spec fn primeira_da_janela(atual: int, total_paginas: int) -> int {
    let largura = largura_janela(total_paginas);
    menor(
        maior(atual - quociente_truncado(largura, 2), 1),
        maior(total_paginas - largura + 1, 1),
    )
}

/// As páginas numeradas da janela, em ordem: `largura` páginas consecutivas a partir da
/// primeira (nenhuma se a largura não for positiva).
pub open spec fn janela_spec(atual: int, total_paginas: int) -> Seq<int> {
    let largura = largura_janela(total_paginas);
    let primeira = primeira_da_janela(atual, total_paginas);
    Seq::new(maior(largura, 0) as nat, |i: int| primeira + i)
}

/// Janela de até [`JANELA_PAGINAS`] páginas em volta da atual, sem estourar as bordas: perto do
/// início ou do fim ela não encolhe, desliza — o usuário sempre vê o mesmo número de botões.
pub fn janela(atual: i64, total_paginas: i64) -> (r: Vec<i64>)
    requires
        i64::MIN <= atual - quociente_truncado(largura_janela(total_paginas as int), 2),
        atual - quociente_truncado(largura_janela(total_paginas as int), 2) <= i64::MAX,
        primeira_da_janela(atual as int, total_paginas as int) + largura_janela(total_paginas as int)
            <= i64::MAX,
    ensures
        r@.len() == janela_spec(atual as int, total_paginas as int).len(),
        forall|i: int| 0 <= i < r@.len() ==> r@[i] == #[trigger] janela_spec(atual as int, total_paginas as int)[i],
        // sempre o mesmo número de botões, onde quer que esteja a página atual
        total_paginas >= 0 ==> r@.len() == menor(JANELA_PAGINAS as int, total_paginas as int),
        // páginas consecutivas
        forall|i: int| 0 <= i < r@.len() - 1 ==> #[trigger] r@[i + 1] == r@[i] + 1,
        // só páginas que existem
        forall|i: int| 0 <= i < r@.len() ==> 1 <= #[trigger] r@[i] <= total_paginas,
        // a página atual está sempre entre as mostradas
        1 <= atual <= total_paginas ==> r@.contains(atual),
        // longe das bordas, a atual fica no meio
        JANELA_PAGINAS <= total_paginas && 3 <= atual <= total_paginas - 2 ==> r@[2] == atual,
{
    let largura = if JANELA_PAGINAS <= total_paginas { JANELA_PAGINAS } else { total_paginas };
    let metade = dividir(largura, 2);
    let mut primeira = atual - metade;
    if primeira < 1 {
        primeira = 1;
    }
    let mut limite_fim: i64 = 1;
    if largura >= 1 {
        let fim = total_paginas - largura + 1;
        if fim > 1 {
            limite_fim = fim;
        }
    }
    if limite_fim < primeira {
        primeira = limite_fim;
    }
    assert(primeira == primeira_da_janela(atual as int, total_paginas as int));
    let mut r: Vec<i64> = Vec::new();
    let mut i: i64 = 0;
    while i < largura
        invariant
            largura == largura_janela(total_paginas as int),
            primeira == primeira_da_janela(atual as int, total_paginas as int),
            primeira + largura <= i64::MAX,
            0 <= i,
            largura >= 0 ==> i <= largura,
            largura < 0 ==> i == 0,
            r@.len() == i,
            forall|k: int| 0 <= k < i ==> r@[k] == primeira + k,
        decreases largura - i,
    {
        r.push(primeira + i);
        i = i + 1;
    }
    proof {
        let s = janela_spec(atual as int, total_paginas as int);
        assert(r@.len() == s.len());
        if 1 <= atual <= total_paginas {
            let k = atual - primeira;
            assert(0 <= k < r@.len());
            assert(r@[k] == atual);
        }
    }
    r
}

/// Total de páginas de `total` itens em páginas de `limite` itens, arredondado para cima
/// (51 itens em páginas de 50 são 2 páginas); um limite abaixo de 1 conta como 1.
pub open spec fn total_paginas_spec(total: int, limite: int) -> int {
    quociente_truncado(total + limite - 1, maior(limite, 1))
}

/// A página em que começa o deslocamento `deslocamento`, contando de 1.
pub open spec fn pagina_atual_spec(deslocamento: int, limite: int) -> int {
    quociente_truncado(deslocamento, maior(limite, 1)) + 1
}

/// Estado da paginação de uma lista: `total` itens, páginas de `limite` itens, e a lista mostrada
/// a partir do item `deslocamento` (contando de 0).
#[derive(Debug, Clone, Copy, PartialEq, Eq, Structural)]
pub struct Paginacao {
    pub limite: i64,
    pub deslocamento: i64,
    pub total: i64,
}

impl Paginacao {
    /// Número (de 1) do primeiro item mostrado; 0 se não há itens.
    pub fn inicio(&self) -> (r: i64)
        requires
            self.total != 0 ==> self.deslocamento < i64::MAX,
        ensures
            r == (if self.total == 0 { 0 } else { self.deslocamento + 1 }),
    {
        if self.total == 0 {
            0
        } else {
            self.deslocamento + 1
        }
    }

    /// Número do último item mostrado: o fim da página, ou o total se a página não se completa.
    pub fn fim(&self) -> (r: i64)
        requires
            i64::MIN <= self.deslocamento + self.limite <= i64::MAX,
        ensures
            r == menor(self.deslocamento + self.limite, self.total as int),
    {
        let f = self.deslocamento + self.limite;
        if f <= self.total {
            f
        } else {
            self.total
        }
    }

    /// Há página anterior.
    pub fn tem_anterior(&self) -> (r: bool)
        ensures
            r == (self.deslocamento > 0),
    {
        self.deslocamento > 0
    }

    /// Há página seguinte.
    pub fn tem_proximo(&self) -> (r: bool)
        requires
            i64::MIN <= self.deslocamento + self.limite <= i64::MAX,
        ensures
            r == (self.deslocamento + self.limite < self.total),
    {
        self.deslocamento + self.limite < self.total
    }

    /// Quantas páginas há.
    pub fn total_paginas(&self) -> (r: i64)
        requires
            i64::MIN < self.total + self.limite <= i64::MAX,
        ensures
            r == total_paginas_spec(self.total as int, self.limite as int),
    {
        let divisor = if self.limite >= 1 { self.limite } else { 1 };
        dividir(self.total + self.limite - 1, divisor)
    }

    /// A página atual, contando de 1.
    pub fn atual(&self) -> (r: i64)
        requires
            self.deslocamento < i64::MAX,
        ensures
            r == pagina_atual_spec(self.deslocamento as int, self.limite as int),
    {
        let divisor = if self.limite >= 1 { self.limite } else { 1 };
        let q = dividir(self.deslocamento, divisor);
        proof {
            lema_quociente_limitado(self.deslocamento as int, divisor as int);
        }
        q + 1
    }

    /// Vai para a página `pagina` (contando de 1).
    pub fn ir_para(&mut self, pagina: i64)
        requires
            pagina > i64::MIN,
            i64::MIN <= (pagina - 1) * old(self).limite <= i64::MAX,
        ensures
            final(self).deslocamento == (pagina - 1) * old(self).limite,
            final(self).limite == old(self).limite,
            final(self).total == old(self).total,
    {
        self.deslocamento = (pagina - 1) * self.limite;
    }

    /// Seta da esquerda: volta uma página, sem passar do início.
    pub fn anterior(&mut self)
        requires
            i64::MIN <= old(self).deslocamento - old(self).limite <= i64::MAX,
        ensures
            final(self).deslocamento == maior(old(self).deslocamento - old(self).limite, 0),
            final(self).limite == old(self).limite,
            final(self).total == old(self).total,
    {
        let d = self.deslocamento - self.limite;
        self.deslocamento = if d >= 0 { d } else { 0 };
    }

    /// Seta da direita: avança uma página.
    pub fn proxima(&mut self)
        requires
            i64::MIN <= old(self).deslocamento + old(self).limite <= i64::MAX,
        ensures
            final(self).deslocamento == old(self).deslocamento + old(self).limite,
            final(self).limite == old(self).limite,
            final(self).total == old(self).total,
    {
        self.deslocamento = self.deslocamento + self.limite;
    }

    /// As páginas numeradas mostradas entre as setas.
    pub fn paginas_visiveis(&self) -> (r: Vec<i64>)
        requires
            self.deslocamento < i64::MAX,
            i64::MIN < self.total + self.limite <= i64::MAX,
            pagina_atual_spec(self.deslocamento as int, self.limite as int)
                - quociente_truncado(largura_janela(total_paginas_spec(self.total as int, self.limite as int)), 2)
                <= i64::MAX,
            i64::MIN <= pagina_atual_spec(self.deslocamento as int, self.limite as int)
                - quociente_truncado(largura_janela(total_paginas_spec(self.total as int, self.limite as int)), 2),
            primeira_da_janela(
                pagina_atual_spec(self.deslocamento as int, self.limite as int),
                total_paginas_spec(self.total as int, self.limite as int),
            ) + largura_janela(total_paginas_spec(self.total as int, self.limite as int)) <= i64::MAX,
        ensures
            r@.len() == janela_spec(
                pagina_atual_spec(self.deslocamento as int, self.limite as int),
                total_paginas_spec(self.total as int, self.limite as int),
            ).len(),
            forall|i: int| 0 <= i < r@.len() ==> r@[i] == #[trigger] janela_spec(
                pagina_atual_spec(self.deslocamento as int, self.limite as int),
                total_paginas_spec(self.total as int, self.limite as int),
            )[i],
    {
        let atual = self.atual();
        let total_paginas = self.total_paginas();
        proof {
            lema_largura_limitada(total_paginas as int);
        }
        janela(atual, total_paginas)
    }

    /// Texto informativo da paginação: "Nenhum item" ou "Mostrando {início} á {fim} de {total}
    /// itens", com os números no formato de milhar.
    pub fn info(&self) -> (s: String)
        requires
            self.total != 0 ==> self.deslocamento < i64::MAX,
            i64::MIN <= self.deslocamento + self.limite <= i64::MAX,
        ensures
            s@ == (if self.total == 0 {
                "Nenhum item"@
            } else {
                "Mostrando "@ + milhar_com_sinal(self.deslocamento + 1) + " á "@
                    + milhar_com_sinal(menor(self.deslocamento + self.limite, self.total as int))
                    + " de "@ + milhar_com_sinal(self.total as int) + " itens"@
            }),
    {
        if self.total == 0 {
            return String::from_str("Nenhum item");
        }
        let inicio = fmt_milhar(self.inicio());
        let fim = fmt_milhar(self.fim());
        let total = fmt_milhar(self.total);
        let mut s = String::from_str("Mostrando ");
        s.append(inicio.as_str());
        s.append(" á ");
        s.append(fim.as_str());
        s.append(" de ");
        s.append(total.as_str());
        s.append(" itens");
        s
    }
}

/// O quociente truncado por um divisor positivo nunca passa do dividendo em valor absoluto.
proof fn lema_quociente_limitado(a: int, b: int)
    requires
        b >= 1,
    ensures
        a >= 0 ==> 0 <= quociente_truncado(a, b) <= a,
        a < 0 ==> a <= quociente_truncado(a, b) <= 0,
{
    if a >= 0 {
        vstd::arithmetic::div_mod::lemma_div_is_ordered_by_denominator(a, 1, b);
        vstd::arithmetic::div_mod::lemma_div_pos_is_pos(a, b);
    } else {
        vstd::arithmetic::div_mod::lemma_div_is_ordered_by_denominator(-a, 1, b);
        vstd::arithmetic::div_mod::lemma_div_pos_is_pos(-a, b);
    }
}

/// A largura da janela nunca passa de cinco, e a metade dela fica entre a metade do total e 2.
proof fn lema_largura_limitada(total_paginas: int)
    ensures
        largura_janela(total_paginas) <= 5,
        quociente_truncado(largura_janela(total_paginas), 2) <= 2,
{
}

/// Ir para a página `pagina` e perguntar a página atual devolve `pagina`.
pub proof fn lei_ir_para_e_atual(pagina: int, limite: int)
    requires
        pagina >= 1,
        limite >= 1,
    ensures
        pagina_atual_spec((pagina - 1) * limite, limite) == pagina,
{
    assert((pagina - 1) * limite >= 0) by (nonlinear_arith)
        requires
            pagina >= 1,
            limite >= 1,
    ;
    vstd::arithmetic::div_mod::lemma_div_multiples_vanish(pagina - 1, limite);
    assert((pagina - 1) * limite == limite * (pagina - 1)) by (nonlinear_arith);
}

/// Avançar uma página e voltar uma página devolve a lista ao mesmo ponto.
pub proof fn lei_proxima_e_anterior(deslocamento: int, limite: int)
    requires
        deslocamento >= 0,
    ensures
        maior((deslocamento + limite) - limite, 0) == deslocamento,
{
}

/// Numa página alinhada (o deslocamento é múltiplo do limite), a seta da direita está ativa
/// exatamente quando a página atual não é a última, e a da esquerda exatamente quando não é a
/// primeira.
pub proof fn lei_setas_e_pagina_atual(pagina: int, limite: int, total: int)
    requires
        pagina >= 1,
        limite >= 1,
        total >= 0,
    ensures
        ((pagina - 1) * limite + limite < total) <==> pagina < total_paginas_spec(total, limite),
        ((pagina - 1) * limite > 0) <==> pagina > 1,
{
    let q = (total + limite - 1) / limite;
    vstd::arithmetic::div_mod::lemma_fundamental_div_mod(total + limite - 1, limite);
    let r = (total + limite - 1) % limite;
    assert(0 <= r < limite);
    assert(total + limite - 1 == limite * q + r);
    assert(total_paginas_spec(total, limite) == q);
    assert((pagina - 1) * limite + limite == pagina * limite) by (nonlinear_arith);
    assert((pagina * limite < total) <==> pagina < q) by (nonlinear_arith)
        requires
            limite >= 1,
            total + limite - 1 == limite * q + r,
            0 <= r < limite,
    ;
    assert(((pagina - 1) * limite > 0) <==> pagina > 1) by (nonlinear_arith)
        requires
            limite >= 1,
            pagina >= 1,
    ;
}

/// Com itens na lista e o deslocamento dentro dela, a página atual é uma página que existe; por
/// isso ela aparece sempre entre os botões da janela.
pub proof fn lei_pagina_atual_existe(deslocamento: int, limite: int, total: int)
    requires
        0 <= deslocamento < total,
        limite >= 1,
    ensures
        1 <= pagina_atual_spec(deslocamento, limite) <= total_paginas_spec(total, limite),
        janela_spec(pagina_atual_spec(deslocamento, limite), total_paginas_spec(total, limite)).contains(
            pagina_atual_spec(deslocamento, limite),
        ),
{
    let a = deslocamento / limite;
    let q = (total + limite - 1) / limite;
    vstd::arithmetic::div_mod::lemma_fundamental_div_mod(deslocamento, limite);
    vstd::arithmetic::div_mod::lemma_fundamental_div_mod(total + limite - 1, limite);
    let ra = deslocamento % limite;
    let rq = (total + limite - 1) % limite;
    assert(a + 1 <= q) by (nonlinear_arith)
        requires
            deslocamento == limite * a + ra,
            total + limite - 1 == limite * q + rq,
            0 <= ra < limite,
            0 <= rq < limite,
            0 <= deslocamento < total,
            limite >= 1,
    ;
    vstd::arithmetic::div_mod::lemma_div_pos_is_pos(deslocamento, limite);
    let atual = pagina_atual_spec(deslocamento, limite);
    let tp = total_paginas_spec(total, limite);
    let s = janela_spec(atual, tp);
    let k = atual - primeira_da_janela(atual, tp);
    assert(0 <= k < s.len());
    assert(s[k] == atual);
}

/// O texto da paginação conta itens que existem: com a lista não vazia e o deslocamento dentro
/// dela, o primeiro item mostrado vem antes do último, que não passa do total.
pub proof fn lei_inicio_e_fim(deslocamento: int, limite: int, total: int)
    requires
        0 <= deslocamento < total,
        limite >= 1,
    ensures
        1 <= deslocamento + 1 <= menor(deslocamento + limite, total) <= total,
{
}

/// Divisão para cima: com páginas de `limite` itens, as `total_paginas` páginas comportam todos os
/// itens e uma página a menos não comportaria (51 itens em páginas de 50 são 2 páginas).
pub proof fn lei_total_paginas_para_cima(total: int, limite: int)
    requires
        total >= 0,
        limite >= 1,
    ensures
        total_paginas_spec(total, limite) * limite >= total,
        (total_paginas_spec(total, limite) - 1) * limite < total || total == 0,
        total == 0 ==> total_paginas_spec(total, limite) == 0,
{
    let q = (total + limite - 1) / limite;
    vstd::arithmetic::div_mod::lemma_fundamental_div_mod(total + limite - 1, limite);
    let r = (total + limite - 1) % limite;
    assert(total_paginas_spec(total, limite) == q);
    assert(q * limite >= total) by (nonlinear_arith)
        requires
            total + limite - 1 == limite * q + r,
            0 <= r < limite,
    ;
    assert((q - 1) * limite < total || total == 0) by (nonlinear_arith)
        requires
            total + limite - 1 == limite * q + r,
            0 <= r,
            total >= 0,
    ;
    if total == 0 {
        assert(q == 0) by (nonlinear_arith)
            requires
                limite - 1 == limite * q + r,
                0 <= r < limite,
                limite >= 1,
        ;
    }
}

} // verus!
