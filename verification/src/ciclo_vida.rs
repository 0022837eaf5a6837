//! Fila de sugestões de ciclo de vida (fora de linha): quem pode aprovar, que ações cada sugestão
//! oferece e os textos de cada linha da fila.

use vstd::prelude::*;
use vstd::string::StringExecFns;
use crate::rotulos::{acoes_estado, acoes_estado_spec, rotulo_acao};
use crate::texto::{decimal, iguais, texto_decimal};
use crate::tipos::SugestaoCicloVida;

verus! {

/// O papel pode aprovar (gestor ou administrador).
pub open spec fn gestor_spec(papel: Option<Seq<char>>) -> bool {
    papel == Some("gestor"@) || papel == Some("admin"@)
}

/// Se o papel do usuário é de gestor (gestor ou administrador).
pub fn eh_gestor(papel: Option<&str>) -> (r: bool)
    ensures
        r == gestor_spec(match papel { Some(p) => Some(p@), None => None }),
{
    match papel {
        Some(p) => iguais(p, "gestor") || iguais(p, "admin"),
        None => false,
    }
}

/// Se o papel do usuário é de administrador (a gestão de usuários).
pub fn eh_admin(papel: Option<&str>) -> (r: bool)
    ensures
        r == (match papel { Some(p) => p@ == "admin"@, None => false }),
{
    match papel {
        Some(p) => iguais(p, "admin"),
        None => false,
    }
}

/// Todo administrador é gestor.
pub proof fn lei_admin_e_gestor(papel: Option<Seq<char>>)
    ensures
        (match papel { Some(p) => p == "admin"@, None => false }) ==> gestor_spec(papel),
{
}

/// As ações de uma sugestão na fila: as do seu estado para o gestor; nenhuma para os demais.
pub fn acoes_da_sugestao(estado: &str, gestor: bool) -> (r: Vec<(&'static str, &'static str)>)
    ensures
        r@.map_values(|a: (&'static str, &'static str)| (a.0@, a.1@)) == (if gestor {
            acoes_estado_spec(estado@)
        } else {
            Seq::empty()
        }),
{
    if gestor {
        acoes_estado(estado)
    } else {
        let r: Vec<(&'static str, &'static str)> = Vec::new();
        assert(r@.map_values(|a: (&'static str, &'static str)| (a.0@, a.1@)) =~= Seq::empty());
        r
    }
}

/// Nenhuma ação leva uma sugestão de volta a "gerada", e só o gestor vê ações.
pub proof fn lei_acoes_so_avancam(estado: Seq<char>, gestor: bool)
    ensures
        forall|i: int|
            0 <= i < acoes_estado_spec(estado).len() ==> #[trigger] acoes_estado_spec(estado)[i].1
                != "gerada"@,
{
    reveal_strlit("gerada");
    reveal_strlit("em_analise");
    reveal_strlit("aplicada");
    reveal_strlit("recusada");
    assert("em_analise"@[0] != "gerada"@[0]);
    assert("aplicada"@.len() != "gerada"@.len());
    assert("recusada"@[0] != "gerada"@[0]);
}

/// Os textos juntados com `sep` entre eles (`join`).
pub open spec fn juntar_spec(partes: Seq<Seq<char>>, sep: Seq<char>) -> Seq<char>
    decreases partes.len(),
{
    if partes.len() == 0 {
        Seq::empty()
    } else if partes.len() == 1 {
        partes[0]
    } else {
        juntar_spec(partes.drop_last(), sep) + sep + partes.last()
    }
}

/// Junta os textos com `sep` entre eles.
pub fn juntar(partes: &Vec<String>, sep: &str) -> (r: String)
    ensures
        r@ == juntar_spec(partes@.map_values(|x: String| x@), sep@),
{
    let ghost s = partes@.map_values(|x: String| x@);
    let mut r = String::new();
    let mut i: usize = 0;
    assert(s.take(0) =~= Seq::<Seq<char>>::empty());
    while i < partes.len()
        invariant
            s == partes@.map_values(|x: String| x@),
            i <= partes@.len(),
            r@ == juntar_spec(s.take(i as int), sep@),
        decreases partes.len() - i,
    {
        assert(s.take(i + 1).drop_last() =~= s.take(i as int));
        if i > 0 {
            r.append(sep);
        } else {
            assert(r@ =~= Seq::<char>::empty());
        }
        r.append(partes[i].as_str());
        i = i + 1;
    }
    assert(s.take(i as int) =~= s);
    r
}

/// Os dois textos de uma linha da fila: "{código} — {ação}" e "Pontuação {n} · {critérios}".
pub fn textos_da_sugestao(s: &SugestaoCicloVida) -> (r: (String, String))
    ensures
        r.0@ == s.codigo_estoque@ + " — "@ + crate::rotulos::rotulo_acao_spec(s.acao_sugerida@),
        r.1@ == "Pontuação "@ + decimal(s.pontuacao as int) + " · "@ + juntar_spec(
            s.criterios@.map_values(|x: String| x@),
            ", "@,
        ),
{
    let mut a = s.codigo_estoque.clone();
    a.append(" — ");
    a.append(rotulo_acao(s.acao_sugerida.as_str()));
    let mut b = String::from_str("Pontuação ");
    let n = texto_decimal(s.pontuacao as i64);
    b.append(n.as_str());
    b.append(" · ");
    let c = juntar(&s.criterios, ", ");
    b.append(c.as_str());
    (a, b)
}

} // verus!
