//! Leitura de inteiros escritos em texto: `i32` de um campo de CSV (decimal com sinal opcional,
//! ou hexadecimal após o prefixo `0x`, como o leitor de CSV faz: `i32::from_str_radix` na base 16
//! depois de `0x`, `str::parse` nos demais casos) e `i64` em decimal (`str::parse::<i64>`).

use vstd::prelude::*;
use crate::texto::prefixo;

verus! {

/// Valor do algarismo `c` na base `base` (10 ou 16; letras de `a` a `f` em qualquer caixa).
pub open spec fn valor_algarismo(c: char, base: int) -> Option<int> {
    let u = c as u32;
    if '0' as u32 <= u <= '9' as u32 {
        Some(u - '0' as u32)
    } else if base == 16 && 'a' as u32 <= u <= 'f' as u32 {
        Some(u - 'a' as u32 + 10)
    } else if base == 16 && 'A' as u32 <= u <= 'F' as u32 {
        Some(u - 'A' as u32 + 10)
    } else {
        None
    }
}

/// Valor de uma sequência de algarismos na base `base` (`Some(0)` para a sequência vazia).
pub open spec fn valor_algarismos(s: Seq<char>, base: int) -> Option<int>
    decreases s.len(),
{
    if s.len() == 0 {
        Some(0)
    } else {
        match (valor_algarismos(s.drop_last(), base), valor_algarismo(s.last(), base)) {
            (Some(v), Some(d)) => Some(v * base + d),
            _ => None,
        }
    }
}

/// Inteiro em `i32` escrito em `s` na base `base`, com sinal `+` ou `-` opcional e ao menos
/// um algarismo (`i32::from_str_radix`); `None` se a escrita é inválida ou o valor não cabe.
pub open spec fn inteiro_na_base(s: Seq<char>, base: int) -> Option<int> {
    let valor = if s.len() == 0 {
        None
    } else if (s[0] == '+' || s[0] == '-') && s.len() == 1 {
        None
    } else if s[0] == '+' {
        valor_algarismos(s.drop_first(), base)
    } else if s[0] == '-' {
        match valor_algarismos(s.drop_first(), base) {
            Some(v) => Some(-v),
            None => None,
        }
    } else {
        valor_algarismos(s, base)
    };
    match valor {
        Some(v) => if i32::MIN <= v <= i32::MAX { Some(v) } else { None },
        None => None,
    }
}

/// Inteiro de um campo de CSV: hexadecimal depois de `0x`, decimal nos demais casos.
pub open spec fn inteiro_csv(s: Seq<char>) -> Option<int> {
    if prefixo(seq!['0', 'x'], s) {
        inteiro_na_base(s.subrange(2, s.len() as int), 16)
    } else {
        inteiro_na_base(s, 10)
    }
}

proof fn lema_valor_nao_negativo(s: Seq<char>, base: int)
    requires
        base == 10 || base == 16,
    ensures
        valor_algarismos(s, base) matches Some(v) ==> v >= 0,
    decreases s.len(),
{
    if s.len() > 0 {
        lema_valor_nao_negativo(s.drop_last(), base);
    }
}

/// Um prefixo com valor acima de `limite` torna o todo inválido ou acima de `limite`.
proof fn lema_valor_cresce(s: Seq<char>, k: int, base: int, limite: int)
    requires
        base == 10 || base == 16,
        0 <= k <= s.len(),
        limite >= 0,
        valor_algarismos(s.subrange(0, k), base) matches Some(v) && v > limite,
    ensures
        valor_algarismos(s, base) matches Some(w) ==> w > limite,
    decreases s.len() - k,
{
    if k < s.len() {
        let t = s.subrange(0, k + 1);
        assert(t.drop_last() == s.subrange(0, k));
        lema_valor_nao_negativo(s.subrange(0, k), base);
        if let Some(w) = valor_algarismos(t, base) {
            let v = valor_algarismos(s.subrange(0, k), base).unwrap();
            assert(w >= v * base) by (nonlinear_arith)
                requires
                    w == v * base + valor_algarismo(t.last(), base).unwrap(),
                    valor_algarismo(t.last(), base).unwrap() >= 0,
            ;
            assert(v * base >= v) by (nonlinear_arith)
                requires
                    v >= 0,
                    base >= 1,
            ;
            lema_valor_cresce(s, k + 1, base, limite);
        } else {
            lema_prefixo_invalido(s, k + 1, base);
        }
    } else {
        assert(s.subrange(0, k) == s);
    }
}

/// Um prefixo inválido torna o todo inválido.
proof fn lema_prefixo_invalido(s: Seq<char>, k: int, base: int)
    requires
        0 <= k <= s.len(),
        valor_algarismos(s.subrange(0, k), base) is None,
    ensures
        valor_algarismos(s, base) is None,
    decreases s.len() - k,
{
    if k < s.len() {
        assert(s.subrange(0, k + 1).drop_last() == s.subrange(0, k));
        lema_prefixo_invalido(s, k + 1, base);
    } else {
        assert(s.subrange(0, k) == s);
    }
}

/// Valor do algarismo `c` na base `base`.
fn algarismo_em(c: char, base: u32) -> (r: Option<u32>)
    requires
        base == 10 || base == 16,
    ensures
        r matches Some(d) ==> valor_algarismo(c, base as int) == Some(d as int),
        r is None ==> valor_algarismo(c, base as int) is None,
{
    let u = c as u32;
    if '0' as u32 <= u && u <= '9' as u32 {
        Some(u - '0' as u32)
    } else if base == 16 && 'a' as u32 <= u && u <= 'f' as u32 {
        Some(u - 'a' as u32 + 10)
    } else if base == 16 && 'A' as u32 <= u && u <= 'F' as u32 {
        Some(u - 'A' as u32 + 10)
    } else {
        None
    }
}

/// Valor de `s@[de..]` como algarismos na base, se não passar de `limite`; `None` quando algum
/// algarismo é inválido ou o valor passa de `limite`.
fn valor_limitado(s: &Vec<char>, de: usize, base: u32, limite: u128) -> (r: Option<u128>)
    requires
        de <= s@.len(),
        base == 10 || base == 16,
        limite <= 0x8000_0000_0000_0000,
    ensures
        r matches Some(v) ==> v <= limite && valor_algarismos(s@.subrange(de as int, s@.len() as int), base as int) == Some(v as int),
        r is None ==> match valor_algarismos(s@.subrange(de as int, s@.len() as int), base as int) {
            Some(w) => w > limite,
            None => true,
        },
{
    let ghost t = s@.subrange(de as int, s@.len() as int);
    let mut v: u128 = 0;
    let mut i = de;
    assert(t.subrange(0, 0) =~= Seq::<char>::empty());
    while i < s.len()
        invariant
            de <= i <= s@.len(),
            base == 10 || base == 16,
            limite <= 0x8000_0000_0000_0000,
            t == s@.subrange(de as int, s@.len() as int),
            v <= limite,
            valor_algarismos(t.subrange(0, i - de), base as int) == Some(v as int),
        decreases s.len() - i,
    {
        let d = match algarismo_em(s[i], base) {
            Some(d) => d,
            None => {
                proof {
                    let p = t.subrange(0, i - de + 1);
                    assert(p.drop_last() == t.subrange(0, i - de));
                    assert(p.last() == s@[i as int]);
                    lema_prefixo_invalido(t, i - de + 1, base as int);
                }
                return None;
            },
        };
        assert(d < 16);
        assert(v * (base as u128) <= 0x8000_0000_0000_0000 * 16) by (nonlinear_arith)
            requires
                v <= 0x8000_0000_0000_0000,
                base <= 16,
        ;
        let novo = v * (base as u128) + (d as u128);
        proof {
            let p = t.subrange(0, i - de + 1);
            assert(p.drop_last() == t.subrange(0, i - de));
            assert(p.last() == s@[i as int]);
        }
        if novo > limite {
            proof {
                lema_valor_cresce(t, i - de + 1, base as int, limite as int);
            }
            return None;
        }
        v = novo;
        i = i + 1;
    }
    assert(t.subrange(0, i - de) == t);
    Some(v)
}

/// Inteiro escrito em `s@[de..]` na base dada (`i32::from_str_radix`).
pub fn inteiro_em_base(s: &Vec<char>, de: usize, base: u32) -> (r: Option<i32>)
    requires
        de <= s@.len(),
        base == 10 || base == 16,
    ensures
        r matches Some(v) ==> inteiro_na_base(s@.subrange(de as int, s@.len() as int), base as int) == Some(v as int),
        r is None ==> inteiro_na_base(s@.subrange(de as int, s@.len() as int), base as int) is None,
{
    let ghost t = s@.subrange(de as int, s@.len() as int);
    if de == s.len() {
        return None;
    }
    let c = s[de];
    if (c == '+' || c == '-') && de + 1 == s.len() {
        return None;
    }
    if c == '+' || c == '-' {
        assert(t.drop_first() == s@.subrange(de + 1, s@.len() as int));
        match valor_limitado(s, de + 1, base, 0x8000_0000) {
            None => None,
            Some(v) => {
                if c == '-' {
                    Some((-(v as i128)) as i32)
                } else if v <= 0x7fff_ffff {
                    Some(v as i32)
                } else {
                    None
                }
            },
        }
    } else {
        match valor_limitado(s, de, base, 0x8000_0000) {
            None => None,
            Some(v) => {
                if v <= 0x7fff_ffff {
                    Some(v as i32)
                } else {
                    None
                }
            },
        }
    }
}

/// Inteiro de um campo de CSV (`0x` seguido de hexadecimal, ou decimal).
pub fn inteiro_do_campo(s: &Vec<char>) -> (r: Option<i32>)
    ensures
        r matches Some(v) ==> inteiro_csv(s@) == Some(v as int),
        r is None ==> inteiro_csv(s@) is None,
{
    if s.len() >= 2 && s[0] == '0' && s[1] == 'x' {
        assert(prefixo(seq!['0', 'x'], s@)) by {
            assert(s@.subrange(0, 2) =~= seq!['0', 'x']);
        }
        inteiro_em_base(s, 2, 16)
    } else {
        assert(!prefixo(seq!['0', 'x'], s@)) by {
            if s@.len() >= 2 {
                assert(s@.subrange(0, 2)[0] == s@[0]);
                assert(s@.subrange(0, 2)[1] == s@[1]);
            }
        }
        assert(s@.subrange(0, s@.len() as int) == s@);
        inteiro_em_base(s, 0, 10)
    }
}

/// Inteiro em `i64` escrito em decimal em `s`, com sinal `+` ou `-` opcional e ao menos um
/// algarismo (`i64::from_str`); `None` se a escrita é inválida ou o valor não cabe.
pub open spec fn inteiro_i64(s: Seq<char>) -> Option<int> {
    let valor = if s.len() == 0 {
        None
    } else if (s[0] == '+' || s[0] == '-') && s.len() == 1 {
        None
    } else if s[0] == '+' {
        valor_algarismos(s.drop_first(), 10)
    } else if s[0] == '-' {
        match valor_algarismos(s.drop_first(), 10) {
            Some(v) => Some(-v),
            None => None,
        }
    } else {
        valor_algarismos(s, 10)
    };
    match valor {
        Some(v) => if i64::MIN <= v <= i64::MAX { Some(v) } else { None },
        None => None,
    }
}

/// Lê um `i64` em decimal (`str::parse::<i64>`).
pub fn ler_i64(texto: &str) -> (r: Option<i64>)
    ensures
        r matches Some(v) ==> inteiro_i64(texto@) == Some(v as int),
        r is None ==> inteiro_i64(texto@) is None,
{
    let s = crate::texto::caracteres(texto);
    if s.len() == 0 {
        return None;
    }
    let c = s[0];
    if (c == '+' || c == '-') && s.len() == 1 {
        return None;
    }
    if c == '+' || c == '-' {
        assert(s@.drop_first() == s@.subrange(1, s@.len() as int));
        match valor_limitado(&s, 1, 10, 0x8000_0000_0000_0000) {
            None => None,
            Some(v) => {
                if c == '-' {
                    Some((-(v as i128)) as i64)
                } else if v <= 0x7fff_ffff_ffff_ffff {
                    Some(v as i64)
                } else {
                    None
                }
            },
        }
    } else {
        assert(s@.subrange(0, s@.len() as int) == s@);
        match valor_limitado(&s, 0, 10, 0x8000_0000_0000_0000) {
            None => None,
            Some(v) => {
                if v <= 0x7fff_ffff_ffff_ffff {
                    Some(v as i64)
                } else {
                    None
                }
            },
        }
    }
}

} // verus!
