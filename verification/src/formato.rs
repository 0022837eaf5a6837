//! Formatação e rótulos de exibição em pt-BR: milhar com ponto, escala compacta dos KPIs,
//! cor e rótulo do status de estoque e o nome de exibição "{produto} - {cor}".

use vstd::prelude::*;
use crate::texto::{
    absoluto, achar_primeira, algarismo, antes_da_primeira, aparar, caracteres, char_algarismo,
    de_caracteres, depois_da_primeira, digitos, empurrar, iguais, lema_primeira,
    limites_aparados, primeira, so_espacos, lema_aparar_vazio, vetor_digitos, acrescentar,
};
use vstd::string::StringExecFns;

verus! {

/// Três algarismos de `r < 1000`, com zeros à esquerda.
pub open spec fn tres_digitos(r: nat) -> Seq<char> {
    seq![algarismo((r / 100) as int), algarismo(((r / 10) % 10) as int), algarismo((r % 10) as int)]
}

/// Algarismos de `n` em grupos de três separados por `.`, a partir da direita.
pub open spec fn milhar(n: nat) -> Seq<char>
    decreases n,
{
    if n < 1000 {
        digitos(n)
    } else {
        milhar(n / 1000) + seq!['.'] + tres_digitos(n % 1000)
    }
}

/// Inteiro com separador de milhar à brasileira, com `-` à frente se negativo.
pub open spec fn milhar_com_sinal(n: int) -> Seq<char> {
    if n < 0 {
        seq!['-'] + milhar((-n) as nat)
    } else {
        milhar(n as nat)
    }
}

/// Inteiro com separador de milhar à brasileira: `1234567` → `1.234.567`, `-1000` → `-1.000`.
pub fn fmt_milhar(n: i64) -> (s: String)
    ensures
        s@ == milhar_com_sinal(n as int),
{
    let a = absoluto(n);
    let mut r = a;
    let mut fim: Vec<char> = Vec::new();
    while r >= 1000
        invariant
            milhar(a as nat) == milhar(r as nat) + fim@,
        decreases r,
    {
        let resto = r % 1000;
        let mut grupo = vec![
            '.',
            char_algarismo(resto / 100),
            char_algarismo((resto / 10) % 10),
            char_algarismo(resto % 10),
        ];
        let ghost antes = fim@;
        grupo.append(&mut fim);
        fim = grupo;
        assert(fim@ =~= seq!['.'] + tres_digitos((r % 1000) as nat) + antes);
        r = r / 1000;
    }
    let mut v = vetor_digitos(r);
    v.append(&mut fim);
    let mut s = String::new();
    if n < 0 {
        empurrar(&mut s, '-');
    }
    acrescentar(&mut s, &v, 0, v.len());
    assert(v@.subrange(0, v@.len() as int) == v@);
    s
}

/// Escala de um KPI compacto: milhões a partir de 1 milhão, milhares a partir de 10 mil (em
/// valor absoluto), unidades abaixo disso.
#[derive(Debug, Clone, Copy, PartialEq, Eq, Structural)]
pub enum EscalaCompacta {
    Milhoes,
    Milhares,
    Unidades,
}

/// Escala em que um KPI é mostrado de forma compacta (`10,2 mi`, `12,4 mil` ou o inteiro).
pub fn escala_compacta(n: i64) -> (e: EscalaCompacta)
    ensures
        e == (if n >= 1_000_000 || n <= -1_000_000 {
            EscalaCompacta::Milhoes
        } else if n >= 10_000 || n <= -10_000 {
            EscalaCompacta::Milhares
        } else {
            EscalaCompacta::Unidades
        }),
{
    let a = absoluto(n);
    if a >= 1_000_000 {
        EscalaCompacta::Milhoes
    } else if a >= 10_000 {
        EscalaCompacta::Milhares
    } else {
        EscalaCompacta::Unidades
    }
}

/// Cor (variável CSS do semáforo) de cada status canônico de estoque.
pub open spec fn cor_status_spec(codigo: Seq<char>) -> Seq<char> {
    if codigo == "sem_estoque"@ || codigo == "critico"@ {
        "var(--semaforo-critico)"@
    } else if codigo == "estoque_baixo"@ {
        "var(--semaforo-alto)"@
    } else if codigo == "baixo"@ {
        "var(--semaforo-medio)"@
    } else if codigo == "adequado"@ {
        "var(--semaforo-ok)"@
    } else if codigo == "alto"@ || codigo == "excessivo"@ {
        "var(--semaforo-info)"@
    } else {
        "var(--abc-d)"@
    }
}

/// Cor do status canônico de estoque (cinza neutro para fora de linha, sem histórico e
/// desconhecidos).
pub fn cor_status(codigo: &str) -> (r: &'static str)
    ensures
        r@ == cor_status_spec(codigo@),
{
    if iguais(codigo, "sem_estoque") || iguais(codigo, "critico") {
        "var(--semaforo-critico)"
    } else if iguais(codigo, "estoque_baixo") {
        "var(--semaforo-alto)"
    } else if iguais(codigo, "baixo") {
        "var(--semaforo-medio)"
    } else if iguais(codigo, "adequado") {
        "var(--semaforo-ok)"
    } else if iguais(codigo, "alto") || iguais(codigo, "excessivo") {
        "var(--semaforo-info)"
    } else {
        "var(--abc-d)"
    }
}

/// Rótulo pt-BR de cada status canônico.
pub open spec fn rotulo_status_spec(codigo: Seq<char>) -> Seq<char> {
    if codigo == "sem_estoque"@ {
        "Sem estoque"@
    } else if codigo == "fora_de_linha"@ {
        "Fora de linha"@
    } else if codigo == "sem_historico"@ {
        "Sem histórico"@
    } else if codigo == "critico"@ {
        "Crítico"@
    } else if codigo == "estoque_baixo"@ {
        "Estoque baixo"@
    } else if codigo == "baixo"@ {
        "Baixo"@
    } else if codigo == "adequado"@ {
        "Adequado"@
    } else if codigo == "alto"@ {
        "Alto"@
    } else if codigo == "excessivo"@ {
        "Excessivo"@
    } else {
        "—"@
    }
}

/// Rótulo pt-BR do status canônico (`—` para desconhecidos).
pub fn rotulo_status(codigo: &str) -> (r: &'static str)
    ensures
        r@ == rotulo_status_spec(codigo@),
{
    if iguais(codigo, "sem_estoque") {
        "Sem estoque"
    } else if iguais(codigo, "fora_de_linha") {
        "Fora de linha"
    } else if iguais(codigo, "sem_historico") {
        "Sem histórico"
    } else if iguais(codigo, "critico") {
        "Crítico"
    } else if iguais(codigo, "estoque_baixo") {
        "Estoque baixo"
    } else if iguais(codigo, "baixo") {
        "Baixo"
    } else if iguais(codigo, "adequado") {
        "Adequado"
    } else if iguais(codigo, "alto") {
        "Alto"
    } else if iguais(codigo, "excessivo") {
        "Excessivo"
    } else {
        "—"
    }
}

/// A cor de uma configuração: o trecho entre o primeiro `:` e o `:` seguinte (ou o fim).
pub open spec fn cor_da_configuracao(configuracao: Seq<char>) -> Option<Seq<char>> {
    match depois_da_primeira(configuracao, ':') {
        Some(resto) => Some(antes_da_primeira(resto, ':')),
        None => None,
    }
}

/// Nome de exibição: o produto (ou o código, se o produto falta ou é vazio), seguido de
/// `" - "` e da cor aparada quando a configuração tem uma cor não em branco.
pub open spec fn nome_exibicao_spec(
    produto: Option<Seq<char>>,
    configuracao: Option<Seq<char>>,
    codigo: Seq<char>,
) -> Seq<char> {
    let base = match produto {
        Some(p) => if p.len() > 0 { p } else { codigo },
        None => codigo,
    };
    let cor = match configuracao {
        Some(c) => cor_da_configuracao(c),
        None => None,
    };
    match cor {
        Some(c) => if so_espacos(c) { base } else { base + " - "@ + aparar(c) },
        None => base,
    }
}

/// O trecho de `v` entre o primeiro `:` e o seguinte, como limites `[i, j)`.
fn limites_cor(v: &Vec<char>) -> (r: Option<(usize, usize)>)
    ensures
        r matches Some((i, j)) ==> i <= j <= v@.len() && cor_da_configuracao(v@) == Some(v@.subrange(i as int, j as int)),
        r is None ==> cor_da_configuracao(v@) is None,
{
    match achar_primeira(v, ':') {
        None => None,
        Some(p) => {
            proof {
                lema_primeira(v@, ':');
            }
            assert(p < v@.len());
            assert(v@.len() == v.len());
            let ghost resto = v@.subrange(p + 1, v@.len() as int);
            let mut j = p + 1;
            while j < v.len() && v[j] != ':'
                invariant
                    p < v@.len(),
                    p + 1 <= j <= v@.len(),
                    forall|k: int| p + 1 <= k < j ==> v@[k] != ':',
                decreases v.len() - j,
            {
                j = j + 1;
            }
            proof {
                lema_primeira(resto, ':');
                if let Some(q) = primeira(resto, ':') {
                    assert(resto[q] == v@[p + 1 + q]);
                    if q < j - (p + 1) {
                        assert(v@[p + 1 + q] != ':');
                    } else if q > j - (p + 1) {
                        assert(resto[j - (p + 1)] == v@[j as int]);
                    }
                    assert(resto.subrange(0, q) =~= v@.subrange(p + 1, j as int));
                } else {
                    if j < v@.len() {
                        assert(resto[j - (p + 1)] == v@[j as int]);
                    }
                    assert(resto =~= v@.subrange(p + 1, j as int));
                }
            }
            Some((p + 1, j))
        },
    }
}

/// Nome de exibição "{produto} - {cor}", com a cor tirada da configuração.
pub fn nome_exibicao(produto: Option<&str>, configuracao: Option<&str>, codigo: &str) -> (s: String)
    ensures
        s@ == nome_exibicao_spec(
            match produto { Some(p) => Some(p@), None => None },
            match configuracao { Some(c) => Some(c@), None => None },
            codigo@,
        ),
{
    let mut s = match produto {
        Some(p) => {
            if p.is_empty() {
                String::from_str(codigo)
            } else {
                String::from_str(p)
            }
        },
        None => String::from_str(codigo),
    };
    match configuracao {
        None => {},
        Some(c) => {
            let v = caracteres(c);
            match limites_cor(&v) {
                None => {},
                Some((i, j)) => {
                    let cor = de_caracteres(&v, i, j);
                    let w = caracteres(cor.as_str());
                    let (a, b) = limites_aparados(&w);
                    proof {
                        lema_aparar_vazio(w@);
                    }
                    if a != b {
                        s.append(" - ");
                        acrescentar(&mut s, &w, a, b);
                    }
                },
            }
        },
    }
    s
}

/// "AAAA-MM-DD" como "DD/MM/AAAA": o que vem antes do primeiro `-` é o ano, o que vem entre ele e
/// o `-` seguinte é o mês e o resto é o dia; sem dois `-`, o texto fica como está.
pub open spec fn fmt_data_spec(iso: Seq<char>) -> Seq<char> {
    match primeira(iso, '-') {
        Some(p) => {
            let resto = iso.subrange(p + 1, iso.len() as int);
            match primeira(resto, '-') {
                Some(q) => resto.subrange(q + 1, resto.len() as int) + "/"@ + resto.subrange(0, q)
                    + "/"@ + iso.subrange(0, p),
                None => iso,
            }
        },
        None => iso,
    }
}

/// Converte "AAAA-MM-DD" em "DD/MM/AAAA" (formato BR); devolve o texto como está se não casar.
pub fn fmt_data(iso: &str) -> (s: String)
    ensures
        s@ == fmt_data_spec(iso@),
{
    let v = caracteres(iso);
    match achar_primeira(&v, '-') {
        None => String::from_str(iso),
        Some(p) => {
            proof {
                lema_primeira(v@, '-');
            }
            let resto_s = de_caracteres(&v, p + 1, v.len());
            let resto = caracteres(resto_s.as_str());
            match achar_primeira(&resto, '-') {
                None => String::from_str(iso),
                Some(q) => {
                    proof {
                        lema_primeira(resto@, '-');
                    }
                    let mut s = de_caracteres(&resto, q + 1, resto.len());
                    s.append("/");
                    acrescentar(&mut s, &resto, 0, q);
                    s.append("/");
                    acrescentar(&mut s, &v, 0, p);
                    s
                },
            }
        },
    }
}

/// Ano, mês e dia sem `-` voltam como "dia/mês/ano": `fmt_data(a-m-d) == d/m/a`.
pub proof fn lei_fmt_data_inverte(a: Seq<char>, m: Seq<char>, d: Seq<char>)
    requires
        !a.contains('-'),
        !m.contains('-'),
    ensures
        fmt_data_spec(a + "-"@ + m + "-"@ + d) == d + "/"@ + m + "/"@ + a,
{
    reveal_strlit("-");
    let iso = a + "-"@ + m + "-"@ + d;
    lema_primeira(iso, '-');
    assert(iso[a.len() as int] == '-');
    assert forall|j: int| 0 <= j < a.len() implies iso[j] != '-' by {
        assert(iso[j] == a[j]);
        if iso[j] == '-' {
            assert(a.contains('-'));
        }
    }
    let p = a.len() as int;
    if let Some(k) = primeira(iso, '-') {
        if k < p {
            assert(iso[k] != '-');
        }
    }
    assert(primeira(iso, '-') == Some(p));
    let resto = iso.subrange(p + 1, iso.len() as int);
    assert(resto =~= m + "-"@ + d);
    lema_primeira(resto, '-');
    let q = m.len() as int;
    assert(resto[q] == '-');
    assert forall|j: int| 0 <= j < q implies resto[j] != '-' by {
        assert(resto[j] == m[j]);
        if resto[j] == '-' {
            assert(m.contains('-'));
        }
    }
    if let Some(k) = primeira(resto, '-') {
        if k < q {
            assert(resto[k] != '-');
        }
    }
    assert(primeira(resto, '-') == Some(q));
    assert(resto.subrange(q + 1, resto.len() as int) =~= d);
    assert(resto.subrange(0, q) =~= m);
    assert(iso.subrange(0, p) =~= a);
}

/// Nome de exibição da central de alertas: como [`nome_exibicao`], mas o produto presente é
/// usado mesmo vazio (só a falta dele leva ao código).
pub open spec fn nome_exibicao_alerta_spec(
    produto: Option<Seq<char>>,
    configuracao: Option<Seq<char>>,
    codigo: Seq<char>,
) -> Seq<char> {
    let base = match produto {
        Some(p) => p,
        None => codigo,
    };
    nome_exibicao_spec(None, configuracao, base)
}

/// Nome de exibição "{produto} - {cor}" de um alerta; sem produto, o código de estoque.
pub fn nome_exibicao_alerta(produto: Option<&str>, configuracao: Option<&str>, codigo: &str) -> (s: String)
    ensures
        s@ == nome_exibicao_alerta_spec(
            match produto { Some(p) => Some(p@), None => None },
            match configuracao { Some(c) => Some(c@), None => None },
            codigo@,
        ),
{
    let base = match produto {
        Some(p) => p,
        None => codigo,
    };
    nome_exibicao(None, configuracao, base)
}

/// O caractere não é o separador de milhar.
pub open spec fn nao_ponto() -> spec_fn(char) -> bool {
    |c: char| c != '.'
}

proof fn lema_algarismo_nao_ponto(d: int)
    requires
        0 <= d < 10,
    ensures
        algarismo(d) != '.',
{
    let c = algarismo(d);
    vstd::utf8::char_u32_cast('.', '.' as u32);
    assert(('0' as u32) == 48);
    assert(('.' as u32) == 46);
    if c == '.' {
        assert((c as u32) == 46);
        assert(c == ((48 + d) as char));
        vstd::utf8::char_u32_cast(c, c as u32);
    }
}

proof fn lema_digitos_sem_ponto(n: nat)
    ensures
        !digitos(n).contains('.'),
    decreases n,
{
    if n < 10 {
        lema_algarismo_nao_ponto(n as int);
        assert(digitos(n)[0] == algarismo(n as int));
    } else {
        lema_digitos_sem_ponto(n / 10);
        lema_algarismo_nao_ponto((n % 10) as int);
        let d = digitos(n);
        if d.contains('.') {
            let i = choose|i: int| 0 <= i < d.len() && d[i] == '.';
            if i < d.len() - 1 {
                assert(digitos(n / 10)[i] == '.');
            }
        }
    }
}

proof fn lema_filtro_identidade(s: Seq<char>)
    requires
        !s.contains('.'),
    ensures
        s.filter(nao_ponto()) == s,
    decreases s.len(),
{
    reveal(Seq::filter);
    if s.len() > 0 {
        let t = s.drop_last();
        if t.contains('.') {
            let i = choose|i: int| 0 <= i < t.len() && t[i] == '.';
            assert(s[i] == '.');
        }
        lema_filtro_identidade(t);
        assert(s.last() != '.') by {
            assert(s[s.len() - 1] == s.last());
        }
        assert(t.push(s.last()) =~= s);
    }
}

proof fn lema_digitos_em_grupos(n: nat)
    requires
        n >= 1000,
    ensures
        digitos(n) == digitos(n / 1000) + tres_digitos(n % 1000),
{
    let a = n / 1000;
    let r = n % 1000;
    let b = r / 100;
    let c = (r / 10) % 10;
    let e = r % 10;
    assert(n == 1000 * a + 100 * b + 10 * c + e);
    assert(n / 10 == 100 * a + 10 * b + c);
    assert(n % 10 == e);
    assert((n / 10) / 10 == 10 * a + b);
    assert((n / 10) % 10 == c);
    assert(((n / 10) / 10) / 10 == a);
    assert(((n / 10) / 10) % 10 == b);
    assert(n / 10 >= 10);
    assert((n / 10) / 10 >= 10);
    let d3 = digitos(a);
    assert(digitos((n / 10) / 10) == d3.push(algarismo(b as int)));
    assert(digitos(n / 10) == d3.push(algarismo(b as int)).push(algarismo(c as int)));
    assert(digitos(n) == d3.push(algarismo(b as int)).push(algarismo(c as int)).push(algarismo(e as int)));
    assert(tres_digitos(r) == seq![algarismo(b as int), algarismo(c as int), algarismo(e as int)]);
    assert(digitos(n) =~= d3 + tres_digitos(r));
}

/// Sem os pontos, o milhar é a escrita decimal: o separador não muda os algarismos.
pub proof fn lei_milhar_sem_pontos(n: nat)
    ensures
        milhar(n).filter(nao_ponto()) == digitos(n),
    decreases n,
{
    if n < 1000 {
        lema_digitos_sem_ponto(n);
        lema_filtro_identidade(digitos(n));
    } else {
        lei_milhar_sem_pontos(n / 1000);
        let t = tres_digitos(n % 1000);
        lema_algarismo_nao_ponto(((n % 1000) / 100) as int);
        lema_algarismo_nao_ponto((((n % 1000) / 10) % 10) as int);
        lema_algarismo_nao_ponto(((n % 1000) % 10) as int);
        assert(!t.contains('.')) by {
            if t.contains('.') {
                let i = choose|i: int| 0 <= i < t.len() && t[i] == '.';
                assert(i == 0 || i == 1 || i == 2);
            }
        }
        lema_filtro_identidade(t);
        assert(seq!['.'].filter(nao_ponto()) =~= Seq::<char>::empty()) by {
            reveal(Seq::filter);
            assert(seq!['.'].drop_last() =~= Seq::<char>::empty());
        }
        Seq::filter_distributes_over_add(milhar(n / 1000) + seq!['.'], t, nao_ponto());
        Seq::filter_distributes_over_add(milhar(n / 1000), seq!['.'], nao_ponto());
        lema_digitos_em_grupos(n);
        assert(milhar(n / 1000) + seq!['.'] + t == milhar(n));
    }
}

proof fn lema_algarismo_nao_menos(d: int)
    requires
        0 <= d < 10,
    ensures
        algarismo(d) != '-',
{
    let c = algarismo(d);
    vstd::utf8::char_u32_cast('-', '-' as u32);
    assert(('0' as u32) == 48);
    assert(('-' as u32) == 45);
    if c == '-' {
        assert((c as u32) == 45);
        assert(c == ((48 + d) as char));
        vstd::utf8::char_u32_cast(c, c as u32);
    }
}

/// `c` é um algarismo decimal.
pub open spec fn eh_algarismo(c: char) -> bool {
    exists|d: int| 0 <= d < 10 && c == #[trigger] algarismo(d)
}

/// `c` é um algarismo de 1 a 9.
pub open spec fn algarismo_nao_zero(c: char) -> bool {
    exists|d: int| 1 <= d < 10 && c == #[trigger] algarismo(d)
}

/// `s` é uma escrita em grupos de três com `.`: um primeiro grupo de 1 a 3 algarismos e depois
/// zero ou mais grupos `.ddd` de exatamente 3 algarismos. Os pontos estão exatamente nas posições
/// que ficam a um múltiplo de 4 do fim (nunca no começo nem no fim) e todo o resto é algarismo.
pub open spec fn agrupado_de_tres(s: Seq<char>) -> bool {
    &&& s.len() % 4 != 0
    &&& forall|j: int| 0 <= j < s.len() ==> ((#[trigger] s[j] == '.') <==> (j > 0 && (s.len() - j) % 4 == 0))
    &&& forall|j: int| 0 <= j < s.len() && s[j] != '.' ==> eh_algarismo(#[trigger] s[j])
}

proof fn lema_digitos_pequenos(n: nat)
    requires
        n < 1000,
    ensures
        1 <= digitos(n).len() <= 3,
        forall|j: int| 0 <= j < digitos(n).len() ==> eh_algarismo(#[trigger] digitos(n)[j]) && digitos(n)[j] != '.',
        n > 0 ==> algarismo_nao_zero(digitos(n)[0]),
        n == 0 ==> digitos(n) == seq![algarismo(0)],
{
    if n < 10 {
        assert(eh_algarismo(algarismo(n as int)));
        lema_algarismo_nao_ponto(n as int);
        if n > 0 {
            assert(algarismo_nao_zero(algarismo(n as int)));
        }
    } else if n < 100 {
        let a = n / 10;
        let b = n % 10;
        assert(digitos(a) == seq![algarismo(a as int)]);
        assert(digitos(n) == digitos(a).push(algarismo(b as int)));
        assert(digitos(n) =~= seq![algarismo(a as int), algarismo(b as int)]);
        assert(eh_algarismo(algarismo(a as int)));
        assert(eh_algarismo(algarismo(b as int)));
        assert(algarismo_nao_zero(algarismo(a as int)));
        lema_algarismo_nao_ponto(a as int);
        lema_algarismo_nao_ponto(b as int);
    } else {
        let a = n / 100;
        let b = (n / 10) % 10;
        let c = n % 10;
        assert((n / 10) / 10 == a);
        assert(digitos(a) == seq![algarismo(a as int)]);
        assert(n / 10 >= 10);
        assert(digitos(n / 10) == digitos(a).push(algarismo(b as int)));
        assert(digitos(n) == digitos(n / 10).push(algarismo(c as int)));
        assert(digitos(n) =~= seq![algarismo(a as int), algarismo(b as int), algarismo(c as int)]);
        assert(eh_algarismo(algarismo(a as int)));
        assert(eh_algarismo(algarismo(b as int)));
        assert(eh_algarismo(algarismo(c as int)));
        assert(algarismo_nao_zero(algarismo(a as int)));
        lema_algarismo_nao_ponto(a as int);
        lema_algarismo_nao_ponto(b as int);
        lema_algarismo_nao_ponto(c as int);
    }
}

/// O milhar de um natural: grupos de três separados por `.`, o primeiro algarismo diferente de
/// 0 (só o zero se escreve `0`), e sem os pontos ficam os algarismos decimais.
pub proof fn lei_milhar_agrupado(n: nat)
    ensures
        agrupado_de_tres(milhar(n)),
        n > 0 ==> algarismo_nao_zero(milhar(n)[0]),
        n == 0 ==> milhar(n) == seq![algarismo(0)],
        milhar(n).filter(nao_ponto()) == digitos(n),
    decreases n,
{
    lei_milhar_sem_pontos(n);
    if n < 1000 {
        lema_digitos_pequenos(n);
        let s = milhar(n);
        assert forall|j: int| 0 <= j < s.len() implies ((#[trigger] s[j] == '.') <==> (j > 0 && (s.len() - j) % 4 == 0)) by {
            assert(s[j] != '.');
        }
    } else {
        lei_milhar_agrupado(n / 1000);
        let a = milhar(n / 1000);
        let r = n % 1000;
        let t = tres_digitos(r);
        let s = milhar(n);
        assert(s == a + seq!['.'] + t);
        assert(s.len() == a.len() + 4);
        lema_algarismo_nao_ponto((r / 100) as int);
        lema_algarismo_nao_ponto(((r / 10) % 10) as int);
        lema_algarismo_nao_ponto((r % 10) as int);
        assert(eh_algarismo(algarismo((r / 100) as int)));
        assert(eh_algarismo(algarismo(((r / 10) % 10) as int)));
        assert(eh_algarismo(algarismo((r % 10) as int)));
        assert forall|j: int| 0 <= j < s.len() implies ((#[trigger] s[j] == '.') <==> (j > 0 && (s.len() - j) % 4 == 0)) by {
            if j < a.len() {
                assert(s[j] == a[j]);
                assert((s.len() - j) % 4 == (a.len() - j) % 4);
            } else if j == a.len() {
                assert(s[j] == '.');
            } else {
                assert(s[j] == t[j - a.len() - 1]);
            }
        }
        assert forall|j: int| 0 <= j < s.len() && s[j] != '.' implies eh_algarismo(#[trigger] s[j]) by {
            if j < a.len() {
                assert(s[j] == a[j]);
            } else if j > a.len() {
                assert(s[j] == t[j - a.len() - 1]);
            }
        }
        assert(s[0] == a[0]);
    }
}

/// `fmt_milhar`: um `-` à frente exatamente quando o número é negativo, e depois o milhar do
/// valor absoluto (grupos de três, sem zero à esquerda), para todo `i64`, `i64::MIN` incluído.
pub proof fn lei_fmt_milhar(n: i64)
    ensures
        (milhar_com_sinal(n as int)[0] == '-') <==> n < 0,
        n < 0 ==> milhar_com_sinal(n as int).drop_first() == milhar((-(n as int)) as nat),
        n >= 0 ==> milhar_com_sinal(n as int) == milhar(n as nat),
        agrupado_de_tres(milhar(abs_int(n as int))),
        n != 0 ==> algarismo_nao_zero(milhar(abs_int(n as int))[0]),
        milhar(abs_int(n as int)).filter(nao_ponto()) == digitos(abs_int(n as int)),
{
    let m = abs_int(n as int);
    lei_milhar_agrupado(m);
    let s = milhar_com_sinal(n as int);
    if n < 0 {
        assert(s.drop_first() =~= milhar(m));
    } else {
        assert(milhar(m).len() > 0);
        assert(eh_algarismo(milhar(m)[0]));
        let d = choose|d: int| 0 <= d < 10 && milhar(m)[0] == #[trigger] algarismo(d);
        lema_algarismo_nao_menos(d);
    }
}

/// Valor absoluto como natural.
pub open spec fn abs_int(n: int) -> nat {
    if n < 0 { (-n) as nat } else { n as nat }
}

/// Os status canônicos de estoque.
pub open spec fn status_canonicos() -> Seq<Seq<char>> {
    seq!["sem_estoque"@, "fora_de_linha"@, "sem_historico"@, "critico"@, "estoque_baixo"@, "baixo"@, "adequado"@, "alto"@, "excessivo"@]
}

/// Rótulos dos status canônicos: cada um tem o seu, dois status distintos nunca mostram o mesmo
/// rótulo (em particular "estoque_baixo" e "baixo" se distinguem na tela), e nenhum mostra o
/// traço reservado aos códigos desconhecidos.
pub proof fn lei_rotulos_de_status()
    ensures
        rotulo_status_spec("sem_estoque"@) == "Sem estoque"@,
        rotulo_status_spec("fora_de_linha"@) == "Fora de linha"@,
        rotulo_status_spec("sem_historico"@) == "Sem histórico"@,
        rotulo_status_spec("critico"@) == "Crítico"@,
        rotulo_status_spec("estoque_baixo"@) == "Estoque baixo"@,
        rotulo_status_spec("baixo"@) == "Baixo"@,
        rotulo_status_spec("adequado"@) == "Adequado"@,
        rotulo_status_spec("alto"@) == "Alto"@,
        rotulo_status_spec("excessivo"@) == "Excessivo"@,
        forall|i: int, j: int|
            0 <= i < 9 && 0 <= j < 9 && i != j ==> rotulo_status_spec(#[trigger] status_canonicos()[i])
                != rotulo_status_spec(#[trigger] status_canonicos()[j]),
        forall|i: int| 0 <= i < 9 ==> rotulo_status_spec(#[trigger] status_canonicos()[i]) != "—"@,
{
    reveal_strlit("sem_estoque");
    reveal_strlit("fora_de_linha");
    reveal_strlit("sem_historico");
    reveal_strlit("critico");
    reveal_strlit("estoque_baixo");
    reveal_strlit("baixo");
    reveal_strlit("adequado");
    reveal_strlit("alto");
    reveal_strlit("excessivo");
    reveal_strlit("Sem estoque");
    reveal_strlit("Fora de linha");
    reveal_strlit("Sem histórico");
    reveal_strlit("Crítico");
    reveal_strlit("Estoque baixo");
    reveal_strlit("Baixo");
    reveal_strlit("Adequado");
    reveal_strlit("Alto");
    reveal_strlit("Excessivo");
    reveal_strlit("—");
    let c = status_canonicos();
    let r = Seq::new(9, |i: int| rotulo_status_spec(c[i]));
    assert(c[0].len() == 11 && c[0][0] == 's');
    assert(c[1].len() == 13 && c[1][0] == 'f');
    assert(c[2].len() == 13 && c[2][0] == 's');
    assert(c[3].len() == 7 && c[3][0] == 'c');
    assert(c[4].len() == 13 && c[4][0] == 'e');
    assert(c[5].len() == 5 && c[5][0] == 'b');
    assert(c[6].len() == 8 && c[6][0] == 'a');
    assert(c[7].len() == 4 && c[7][0] == 'a');
    assert(c[8].len() == 9 && c[8][0] == 'e');
    assert(c[0] == "sem_estoque"@);
    assert(rotulo_status_spec(c[0]) == "Sem estoque"@);
    assert(c[1] == "fora_de_linha"@);
    assert(rotulo_status_spec(c[1]) == "Fora de linha"@);
    assert(c[2] == "sem_historico"@);
    assert(rotulo_status_spec(c[2]) == "Sem histórico"@);
    assert(c[3] == "critico"@);
    assert(rotulo_status_spec(c[3]) == "Crítico"@);
    assert(c[4] == "estoque_baixo"@);
    assert(rotulo_status_spec(c[4]) == "Estoque baixo"@);
    assert(c[5] == "baixo"@);
    assert(rotulo_status_spec(c[5]) == "Baixo"@);
    assert(c[6] == "adequado"@);
    assert(rotulo_status_spec(c[6]) == "Adequado"@);
    assert(c[7] == "alto"@);
    assert(rotulo_status_spec(c[7]) == "Alto"@);
    assert(c[8] == "excessivo"@);
    assert(rotulo_status_spec(c[8]) == "Excessivo"@);
    assert forall|i: int, j: int| 0 <= i < 9 && 0 <= j < 9 && i != j implies rotulo_status_spec(#[trigger] c[i])
        != rotulo_status_spec(#[trigger] c[j]) by {
        assert(r[i] == rotulo_status_spec(c[i]));
        assert(r[j] == rotulo_status_spec(c[j]));
        if r[i] == r[j] {
            assert(r[i].len() == r[j].len());
            assert(r[i][0] == r[j][0]);
            assert(r[i][1] == r[j][1]);
            assert(r[i][2] == r[j][2]);
        }
    }
}

} // verus!
