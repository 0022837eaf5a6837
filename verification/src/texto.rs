//! Operações elementares sobre texto, descritas sobre a sequência de `char` de cada string:
//! igualdade, prefixos, separação no primeiro ou no último delimitador, aparo de espaços
//! (a noção de espaço de `char::is_whitespace`) e escrita decimal de inteiros.

use vstd::prelude::*;

verus! {

broadcast use vstd::string::group_string_axioms;

/// Acrescenta um caractere ao fim de `s` (`String::push`).
#[verifier::external_body]
pub(crate) fn empurrar(s: &mut String, c: char)
    ensures
        final(s)@ == old(s)@.push(c),
{
    s.push(c);
}

/// Os caracteres de `s`, em ordem.
pub fn caracteres(s: &str) -> (v: Vec<char>)
    ensures
        v@ == s@,
{
    let mut v: Vec<char> = Vec::new();
    for c in it: s.chars()
        invariant
            it.seq() == s@,
            v@ == it.seq().take(it.index()),
    {
        v.push(c);
    }
    v
}

/// A string formada por `cs@[de..ate]`.
pub fn de_caracteres(cs: &Vec<char>, de: usize, ate: usize) -> (s: String)
    requires
        de <= ate <= cs@.len(),
    ensures
        s@ == cs@.subrange(de as int, ate as int),
{
    let mut s = String::new();
    let mut i = de;
    while i < ate
        invariant
            de <= i <= ate <= cs@.len(),
            s@ == cs@.subrange(de as int, i as int),
        decreases ate - i,
    {
        empurrar(&mut s, cs[i]);
        assert(cs@.subrange(de as int, i + 1) == cs@.subrange(de as int, i as int).push(cs@[i as int]));
        i = i + 1;
    }
    s
}

/// Acrescenta `cs@[de..ate]` ao fim de `s`.
pub fn acrescentar(s: &mut String, cs: &Vec<char>, de: usize, ate: usize)
    requires
        de <= ate <= cs@.len(),
    ensures
        final(s)@ == old(s)@ + cs@.subrange(de as int, ate as int),
{
    let mut i = de;
    while i < ate
        invariant
            de <= i <= ate <= cs@.len(),
            s@ == old(s)@ + cs@.subrange(de as int, i as int),
        decreases ate - i,
    {
        empurrar(s, cs[i]);
        assert(cs@.subrange(de as int, i + 1) == cs@.subrange(de as int, i as int).push(cs@[i as int]));
        i = i + 1;
    }
}

/// Igualdade de duas sequências de caracteres, posição a posição.
pub fn seq_iguais(a: &Vec<char>, b: &Vec<char>) -> (r: bool)
    ensures
        r == (a@ == b@),
{
    if a.len() != b.len() {
        return false;
    }
    let mut i: usize = 0;
    while i < a.len()
        invariant
            a@.len() == b@.len(),
            i <= a@.len(),
            a@.take(i as int) == b@.take(i as int),
        decreases a.len() - i,
    {
        if a[i] != b[i] {
            assert(a@[i as int] != b@[i as int]);
            return false;
        }
        assert(a@.take(i + 1) == a@.take(i as int).push(a@[i as int]));
        assert(b@.take(i + 1) == b@.take(i as int).push(b@[i as int]));
        i = i + 1;
    }
    assert(a@ == a@.take(i as int));
    assert(b@ == b@.take(i as int));
    true
}

/// Igualdade de dois textos.
pub fn iguais(a: &str, b: &str) -> (r: bool)
    ensures
        r == (a@ == b@),
{
    let va = caracteres(a);
    let vb = caracteres(b);
    seq_iguais(&va, &vb)
}

/// `p` é prefixo de `s`.
pub open spec fn prefixo(p: Seq<char>, s: Seq<char>) -> bool {
    p.len() <= s.len() && s.subrange(0, p.len() as int) == p
}

/// Se o texto `s` começa por `p` (`str::starts_with`).
pub fn comeca_com(s: &str, p: &str) -> (r: bool)
    ensures
        r == prefixo(p@, s@),
{
    let vs = caracteres(s);
    let vp = caracteres(p);
    if vp.len() > vs.len() {
        return false;
    }
    let mut i: usize = 0;
    while i < vp.len()
        invariant
            vs@ == s@,
            vp@ == p@,
            vp@.len() <= vs@.len(),
            i <= vp@.len(),
            vs@.subrange(0, i as int) == vp@.take(i as int),
        decreases vp.len() - i,
    {
        if vs[i] != vp[i] {
            assert(vs@.subrange(0, vp@.len() as int)[i as int] != vp@[i as int]);
            return false;
        }
        assert(vs@.subrange(0, i + 1) == vs@.subrange(0, i as int).push(vs@[i as int]));
        assert(vp@.take(i + 1) == vp@.take(i as int).push(vp@[i as int]));
        i = i + 1;
    }
    assert(vp@ == vp@.take(i as int));
    true
}

/// Índice da primeira ocorrência de `c` em `s`, se houver.
pub open spec fn primeira(s: Seq<char>, c: char) -> Option<int>
    decreases s.len(),
{
    if s.len() == 0 {
        None
    } else if s[0] == c {
        Some(0)
    } else {
        match primeira(s.drop_first(), c) {
            Some(i) => Some(i + 1),
            None => None,
        }
    }
}

/// Índice da última ocorrência de `c` em `s`, se houver.
pub open spec fn ultima(s: Seq<char>, c: char) -> Option<int>
    decreases s.len(),
{
    if s.len() == 0 {
        None
    } else if s.last() == c {
        Some(s.len() - 1)
    } else {
        ultima(s.drop_last(), c)
    }
}

pub proof fn lema_primeira(s: Seq<char>, c: char)
    ensures
        primeira(s, c) matches Some(i) ==> 0 <= i < s.len() && s[i] == c && forall|j: int|
            0 <= j < i ==> s[j] != c,
        primeira(s, c) is None ==> forall|j: int| 0 <= j < s.len() ==> s[j] != c,
    decreases s.len(),
{
    if s.len() > 0 {
        lema_primeira(s.drop_first(), c);
        if s[0] != c {
            assert forall|j: int| 1 <= j < s.len() implies s[j] == s.drop_first()[j - 1] by {}
        }
    }
}

pub proof fn lema_ultima(s: Seq<char>, c: char)
    ensures
        ultima(s, c) matches Some(i) ==> 0 <= i < s.len() && s[i] == c && forall|j: int|
            i < j < s.len() ==> s[j] != c,
        ultima(s, c) is None ==> forall|j: int| 0 <= j < s.len() ==> s[j] != c,
    decreases s.len(),
{
    if s.len() > 0 {
        lema_ultima(s.drop_last(), c);
        assert forall|j: int| 0 <= j < s.len() - 1 implies s[j] == s.drop_last()[j] by {}
    }
}

/// Posição da primeira ocorrência de `c` em `v`.
pub fn achar_primeira(v: &Vec<char>, c: char) -> (r: Option<usize>)
    ensures
        r matches Some(i) ==> primeira(v@, c) == Some(i as int),
        r is None ==> primeira(v@, c) is None,
{
    let mut i: usize = 0;
    while i < v.len()
        invariant
            i <= v@.len(),
            forall|j: int| 0 <= j < i ==> v@[j] != c,
        decreases v.len() - i,
    {
        if v[i] == c {
            proof {
                lema_primeira(v@, c);
                if let Some(k) = primeira(v@, c) {
                    if k < i {
                    } else if k > i {
                    }
                }
            }
            return Some(i);
        }
        i = i + 1;
    }
    proof {
        lema_primeira(v@, c);
    }
    None
}

/// Posição da última ocorrência de `c` em `v`.
pub fn achar_ultima(v: &Vec<char>, c: char) -> (r: Option<usize>)
    ensures
        r matches Some(i) ==> ultima(v@, c) == Some(i as int),
        r is None ==> ultima(v@, c) is None,
{
    let mut i: usize = v.len();
    while i > 0
        invariant
            i <= v@.len(),
            forall|j: int| i <= j < v@.len() ==> v@[j] != c,
        decreases i,
    {
        if v[i - 1] == c {
            proof {
                lema_ultima(v@, c);
                if let Some(k) = ultima(v@, c) {
                    if k < i - 1 {
                    } else if k > i - 1 {
                    }
                }
            }
            return Some(i - 1);
        }
        i = i - 1;
    }
    proof {
        lema_ultima(v@, c);
    }
    None
}

/// O que vem antes da primeira ocorrência de `c` (o texto todo, se não houver).
pub open spec fn antes_da_primeira(s: Seq<char>, c: char) -> Seq<char> {
    match primeira(s, c) {
        Some(i) => s.subrange(0, i),
        None => s,
    }
}

/// O que vem depois da primeira ocorrência de `c`, se houver.
pub open spec fn depois_da_primeira(s: Seq<char>, c: char) -> Option<Seq<char>> {
    match primeira(s, c) {
        Some(i) => Some(s.subrange(i + 1, s.len() as int)),
        None => None,
    }
}

/// Espaço em branco no sentido de `char::is_whitespace` (propriedade Unicode `White_Space`).
pub open spec fn eh_espaco(c: char) -> bool {
    let u = c as u32;
    ||| 0x09 <= u <= 0x0d
    ||| u == 0x20
    ||| u == 0x85
    ||| u == 0xa0
    ||| u == 0x1680
    ||| 0x2000 <= u <= 0x200a
    ||| u == 0x2028
    ||| u == 0x2029
    ||| u == 0x202f
    ||| u == 0x205f
    ||| u == 0x3000
}

/// Se `c` é espaço em branco (`char::is_whitespace`).
pub fn espaco(c: char) -> (r: bool)
    ensures
        r == eh_espaco(c),
{
    let u = c as u32;
    (0x09 <= u && u <= 0x0d) || u == 0x20 || u == 0x85 || u == 0xa0 || u == 0x1680 || (0x2000
        <= u && u <= 0x200a) || u == 0x2028 || u == 0x2029 || u == 0x202f || u == 0x205f || u
        == 0x3000
}

/// `s` sem os espaços do início (`str::trim_start`).
pub open spec fn aparar_inicio(s: Seq<char>) -> Seq<char>
    decreases s.len(),
{
    if s.len() > 0 && eh_espaco(s[0]) {
        aparar_inicio(s.drop_first())
    } else {
        s
    }
}

/// `s` sem os espaços do fim (`str::trim_end`).
pub open spec fn aparar_fim(s: Seq<char>) -> Seq<char>
    decreases s.len(),
{
    if s.len() > 0 && eh_espaco(s.last()) {
        aparar_fim(s.drop_last())
    } else {
        s
    }
}

/// `s` sem os espaços das pontas (`str::trim`).
pub open spec fn aparar(s: Seq<char>) -> Seq<char> {
    aparar_fim(aparar_inicio(s))
}

/// Só há espaços em `s` (ou `s` é vazio).
pub open spec fn so_espacos(s: Seq<char>) -> bool {
    forall|i: int| 0 <= i < s.len() ==> eh_espaco(#[trigger] s[i])
}

pub proof fn lema_aparar_vazio(s: Seq<char>)
    ensures
        (aparar(s).len() == 0) == so_espacos(s),
    decreases s.len(),
{
    lema_aparar_inicio_vazio(s);
    if aparar_inicio(s).len() != 0 {
        lema_aparar_inicio_nao_espaco(s);
        lema_aparar_fim_nao_vazio(aparar_inicio(s));
    }
}

proof fn lema_aparar_inicio_vazio(s: Seq<char>)
    ensures
        (aparar_inicio(s).len() == 0) == so_espacos(s),
    decreases s.len(),
{
    if s.len() > 0 {
        lema_aparar_inicio_vazio(s.drop_first());
        if eh_espaco(s[0]) {
            if so_espacos(s.drop_first()) {
                assert forall|i: int| 0 <= i < s.len() implies eh_espaco(#[trigger] s[i]) by {
                    if i > 0 {
                        assert(s[i] == s.drop_first()[i - 1]);
                    }
                }
            } else {
                let k = choose|k: int| 0 <= k < s.drop_first().len() && !eh_espaco(#[trigger] s.drop_first()[k]);
                assert(s[k + 1] == s.drop_first()[k]);
            }
        } else {
            assert(!eh_espaco(s[0]));
        }
    }
}

proof fn lema_aparar_inicio_nao_espaco(s: Seq<char>)
    ensures
        aparar_inicio(s).len() > 0 ==> !eh_espaco(aparar_inicio(s)[0]),
    decreases s.len(),
{
    if s.len() > 0 && eh_espaco(s[0]) {
        lema_aparar_inicio_nao_espaco(s.drop_first());
    }
}

proof fn lema_aparar_fim_nao_vazio(s: Seq<char>)
    requires
        s.len() > 0,
        !eh_espaco(s[0]),
    ensures
        aparar_fim(s).len() > 0,
    decreases s.len(),
{
    if eh_espaco(s.last()) {
        lema_aparar_fim_nao_vazio(s.drop_last());
    }
}

proof fn lema_aparar_inicio_passo(s: Seq<char>, i: int)
    requires
        0 <= i < s.len(),
        eh_espaco(s[i]),
    ensures
        aparar_inicio(s.subrange(i, s.len() as int)) == aparar_inicio(s.subrange(i + 1, s.len() as int)),
{
    assert(s.subrange(i, s.len() as int).drop_first() == s.subrange(i + 1, s.len() as int));
}

proof fn lema_aparar_fim_passo(s: Seq<char>, i: int, j: int)
    requires
        0 <= i < j <= s.len(),
        eh_espaco(s[j - 1]),
    ensures
        aparar_fim(s.subrange(i, j)) == aparar_fim(s.subrange(i, j - 1)),
{
    assert(s.subrange(i, j).drop_last() == s.subrange(i, j - 1));
}

/// Limites `(i, j)` de `v@` sem os espaços das pontas: `aparar(v@) == v@[i..j]`.
pub fn limites_aparados(v: &Vec<char>) -> (r: (usize, usize))
    ensures
        r.0 <= r.1 <= v@.len(),
        aparar(v@) == v@.subrange(r.0 as int, r.1 as int),
{
    let n = v.len();
    let mut i: usize = 0;
    assert(v@.subrange(0, n as int) == v@);
    while i < n && espaco(v[i])
        invariant
            i <= n == v@.len(),
            aparar_inicio(v@) == aparar_inicio(v@.subrange(i as int, n as int)),
        decreases n - i,
    {
        proof {
            lema_aparar_inicio_passo(v@, i as int);
        }
        i = i + 1;
    }
    assert(aparar_inicio(v@.subrange(i as int, n as int)) == v@.subrange(i as int, n as int));
    let mut j: usize = n;
    while j > i && espaco(v[j - 1])
        invariant
            i <= j <= n == v@.len(),
            aparar(v@) == aparar_fim(v@.subrange(i as int, j as int)),
        decreases j,
    {
        proof {
            lema_aparar_fim_passo(v@, i as int, j as int);
        }
        j = j - 1;
    }
    assert(aparar_fim(v@.subrange(i as int, j as int)) == v@.subrange(i as int, j as int));
    (i, j)
}

/// Se o texto só tem espaços (`s.trim().is_empty()`).
pub fn vazio_ao_aparar(s: &str) -> (r: bool)
    ensures
        r == (aparar(s@).len() == 0),
        r == so_espacos(s@),
{
    let v = caracteres(s);
    let (i, j) = limites_aparados(&v);
    proof {
        lema_aparar_vazio(s@);
    }
    i == j
}

/// O texto sem os espaços das pontas (`str::trim`), como `String`.
pub fn aparado(s: &str) -> (r: String)
    ensures
        r@ == aparar(s@),
{
    let v = caracteres(s);
    let (i, j) = limites_aparados(&v);
    de_caracteres(&v, i, j)
}

/// Caractere do algarismo decimal `d` (`0 <= d < 10`).
pub open spec fn algarismo(d: int) -> char {
    (('0' as u32) + d) as char
}

/// Algarismos decimais de `n`, sem zeros à esquerda (`"0"` para zero).
pub open spec fn digitos(n: nat) -> Seq<char>
    decreases n,
{
    if n < 10 {
        seq![algarismo(n as int)]
    } else {
        digitos(n / 10).push(algarismo((n % 10) as int))
    }
}

/// Escrita decimal de um inteiro, com `-` à frente se negativo (`Display` dos inteiros).
pub open spec fn decimal(n: int) -> Seq<char> {
    if n < 0 {
        seq!['-'] + digitos((-n) as nat)
    } else {
        digitos(n as nat)
    }
}

/// Algarismo decimal de `d < 10`.
pub fn char_algarismo(d: u64) -> (c: char)
    requires
        d < 10,
    ensures
        c == algarismo(d as int),
{
    if d == 0 { '0' }
    else if d == 1 { '1' }
    else if d == 2 { '2' }
    else if d == 3 { '3' }
    else if d == 4 { '4' }
    else if d == 5 { '5' }
    else if d == 6 { '6' }
    else if d == 7 { '7' }
    else if d == 8 { '8' }
    else { '9' }
}

/// Algarismos decimais de `n` como vetor de caracteres.
pub fn vetor_digitos(n: u64) -> (v: Vec<char>)
    ensures
        v@ == digitos(n as nat),
{
    let mut v: Vec<char> = Vec::new();
    let mut r = n;
    while r >= 10
        invariant
            digitos(n as nat) == digitos(r as nat) + v@,
        decreases r,
    {
        let c = char_algarismo(r % 10);
        v.insert(0, c);
        proof {
            assert(digitos(r as nat) == digitos((r / 10) as nat).push(c));
        }
        r = r / 10;
    }
    let c = char_algarismo(r);
    v.insert(0, c);
    v
}

/// Valor absoluto de um `i64`, sem estouro.
pub fn absoluto(n: i64) -> (r: u64)
    ensures
        r as int == if n < 0 { -n } else { n as int },
{
    if n < 0 {
        ((-(n + 1)) as u64) + 1
    } else {
        n as u64
    }
}

/// Escrita decimal de `n` (`n.to_string()`).
pub fn texto_decimal(n: i64) -> (s: String)
    ensures
        s@ == decimal(n as int),
{
    let d = vetor_digitos(absoluto(n));
    let mut s = String::new();
    if n < 0 {
        empurrar(&mut s, '-');
    }
    acrescentar(&mut s, &d, 0, d.len());
    assert(d@.subrange(0, d@.len() as int) == d@);
    s
}

} // verus!
