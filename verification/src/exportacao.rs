//! Campos de texto da exportação CSV (separador `;`): um campo com `;`, aspas ou quebra de linha
//! vai entre aspas, com as aspas internas dobradas, e quem lê o arquivo recupera o texto exportado.

use vstd::prelude::*;
use crate::texto::{caracteres, empurrar};

verus! {

broadcast use vstd::seq_lib::group_seq_properties;

/// O texto com cada aspa dobrada.
pub open spec fn dobrar_aspas(s: Seq<char>) -> Seq<char>
    decreases s.len(),
{
    if s.len() == 0 {
        Seq::empty()
    } else {
        (if s[0] == '"' { seq!['"', '"'] } else { seq![s[0]] }) + dobrar_aspas(s.drop_first())
    }
}

/// Desfaz [`dobrar_aspas`]: cada par de aspas volta a ser uma.
pub open spec fn desfazer_aspas(t: Seq<char>) -> Seq<char>
    decreases t.len(),
{
    if t.len() == 0 {
        Seq::empty()
    } else if t.len() >= 2 && t[0] == '"' && t[1] == '"' {
        seq!['"'] + desfazer_aspas(t.subrange(2, t.len() as int))
    } else {
        seq![t[0]] + desfazer_aspas(t.drop_first())
    }
}

/// O campo precisa de aspas: tem `;`, aspas ou quebra de linha.
pub open spec fn precisa_aspas(s: Seq<char>) -> bool {
    s.contains(';') || s.contains('"') || s.contains('\n')
}

/// O campo como vai para o CSV.
pub open spec fn campo_csv_spec(s: Seq<char>) -> Seq<char> {
    if precisa_aspas(s) {
        seq!['"'] + dobrar_aspas(s) + seq!['"']
    } else {
        s
    }
}

/// Como um leitor de CSV lê o campo: entre aspas, tira as aspas das pontas e desdobra as internas.
pub open spec fn ler_campo_csv(t: Seq<char>) -> Seq<char> {
    if t.len() >= 2 && t[0] == '"' && t.last() == '"' {
        desfazer_aspas(t.subrange(1, t.len() - 1))
    } else {
        t
    }
}

proof fn lema_dobrar_push(s: Seq<char>, c: char)
    ensures
        dobrar_aspas(s.push(c)) == dobrar_aspas(s) + (if c == '"' { seq!['"', '"'] } else { seq![c] }),
    decreases s.len(),
{
    if s.len() > 0 {
        assert(s.push(c).drop_first() =~= s.drop_first().push(c));
        lema_dobrar_push(s.drop_first(), c);
    } else {
        assert(s.push(c).drop_first() =~= Seq::<char>::empty());
    }
}

proof fn lema_desfazer_dobrar(s: Seq<char>)
    ensures
        desfazer_aspas(dobrar_aspas(s)) == s,
    decreases s.len(),
{
    if s.len() > 0 {
        lema_desfazer_dobrar(s.drop_first());
        let d = dobrar_aspas(s.drop_first());
        let t = dobrar_aspas(s);
        if s[0] == '"' {
            assert(t.subrange(2, t.len() as int) =~= d);
        } else {
            assert(t.drop_first() =~= d);
        }
        assert(s =~= seq![s[0]] + s.drop_first());
    }
}

/// Quem lê o CSV recupera exatamente o texto exportado.
pub proof fn lei_campo_csv_reversivel(s: Seq<char>)
    ensures
        ler_campo_csv(campo_csv_spec(s)) == s,
{
    if precisa_aspas(s) {
        let t = campo_csv_spec(s);
        assert(t.subrange(1, t.len() - 1) =~= dobrar_aspas(s));
        lema_desfazer_dobrar(s);
    } else if s.len() >= 2 {
        assert(s.contains(s[0]));
    }
}

/// Se `c` aparece em `v`.
fn tem_char(v: &Vec<char>, c: char) -> (r: bool)
    ensures
        r == v@.contains(c),
{
    let mut i: usize = 0;
    while i < v.len()
        invariant
            i <= v@.len(),
            forall|k: int| 0 <= k < i ==> v@[k] != c,
        decreases v.len() - i,
    {
        if v[i] == c {
            assert(v@[i as int] == c);
            return true;
        }
        i = i + 1;
    }
    false
}

/// Escreve um campo de texto no CSV: entre aspas (com as aspas internas dobradas) quando tem `;`,
/// aspas ou quebra de linha; senão, como está.
pub fn campo_csv(s: &str) -> (r: String)
    ensures
        r@ == campo_csv_spec(s@),
{
    let v = caracteres(s);
    let aspas = tem_char(&v, ';') || tem_char(&v, '"') || tem_char(&v, '\n');
    let mut r = String::new();
    if aspas {
        empurrar(&mut r, '"');
    }
    let mut i: usize = 0;
    assert(v@.take(0) =~= Seq::<char>::empty());
    while i < v.len()
        invariant
            v@ == s@,
            i <= v@.len(),
            aspas ==> r@ == seq!['"'] + dobrar_aspas(v@.take(i as int)),
            !aspas ==> r@ == v@.take(i as int),
        decreases v.len() - i,
    {
        let c = v[i];
        proof {
            assert(v@.take(i + 1) =~= v@.take(i as int).push(c));
            lema_dobrar_push(v@.take(i as int), c);
        }
        if aspas && c == '"' {
            empurrar(&mut r, '"');
            empurrar(&mut r, '"');
        } else {
            empurrar(&mut r, c);
        }
        i = i + 1;
    }
    assert(v@.take(i as int) =~= v@);
    if aspas {
        empurrar(&mut r, '"');
    }
    r
}

} // verus!
