//! Conversão de um registro de CSV nos campos de uma linha de entrada, como a desserialização
//! de uma struct pelo leitor de CSV: com cabeçalho, cada campo é procurado pelo nome; sem
//! cabeçalho legível, os campos são tomados pela posição. Campos com valor padrão podem faltar.

use vstd::prelude::*;
use crate::data::{dias_da_data, ler_data, Data};
use crate::numero::{inteiro_csv, inteiro_do_campo};
use crate::texto::{caracteres, iguais};

verus! {

/// Tipo do valor de um campo.
#[derive(Debug, Clone, Copy, PartialEq, Eq, Structural)]
pub enum Tipo {
    /// Data `AAAA-MM-DD`.
    Data,
    /// Texto livre.
    Texto,
    /// Inteiro `i32`.
    Inteiro,
    /// `true` ou `false`.
    Booleano,
    /// Inteiro `i32` opcional: vazio é ausência.
    InteiroOpcional,
}

/// Descrição de um campo: nome no cabeçalho, tipo e se tem valor padrão quando falta.
pub struct Campo {
    pub nome: &'static str,
    pub tipo: Tipo,
    pub padrao: bool,
}

/// Modelo de [`Campo`].
pub struct CampoV {
    pub nome: Seq<char>,
    pub tipo: Tipo,
    pub padrao: bool,
}

impl Campo {
    pub open spec fn vista(&self) -> CampoV {
        CampoV { nome: self.nome@, tipo: self.tipo, padrao: self.padrao }
    }
}

/// Valor convertido de um campo.
pub enum Valor {
    Data(Data),
    Texto(String),
    Inteiro(i32),
    Booleano(bool),
    InteiroOpcional(Option<i32>),
}

/// Modelo de [`Valor`].
pub enum ValorV {
    Data(int),
    Texto(Seq<char>),
    Inteiro(int),
    Booleano(bool),
    InteiroOpcional(Option<int>),
}

impl View for Valor {
    type V = ValorV;

    open spec fn view(&self) -> ValorV {
        match self {
            Valor::Data(d) => ValorV::Data(d.dias as int),
            Valor::Texto(t) => ValorV::Texto(t@),
            Valor::Inteiro(v) => ValorV::Inteiro(*v as int),
            Valor::Booleano(b) => ValorV::Booleano(*b),
            Valor::InteiroOpcional(o) => ValorV::InteiroOpcional(
                match o {
                    Some(v) => Some(*v as int),
                    None => None,
                },
            ),
        }
    }
}

/// Valor do texto `t` de um campo presente do tipo `tipo`, ou `None` se não se converte.
pub open spec fn valor_presente(tipo: Tipo, t: Seq<char>) -> Option<ValorV> {
    match tipo {
        Tipo::Data => match dias_da_data(t) {
            Some(d) => Some(ValorV::Data(d)),
            None => None,
        },
        Tipo::Texto => Some(ValorV::Texto(t)),
        Tipo::Inteiro => match inteiro_csv(t) {
            Some(v) => Some(ValorV::Inteiro(v)),
            None => None,
        },
        Tipo::Booleano => if t == "true"@ {
            Some(ValorV::Booleano(true))
        } else if t == "false"@ {
            Some(ValorV::Booleano(false))
        } else {
            None
        },
        Tipo::InteiroOpcional => if t.len() == 0 {
            Some(ValorV::InteiroOpcional(None))
        } else {
            match inteiro_csv(t) {
                Some(v) => Some(ValorV::InteiroOpcional(Some(v))),
                None => None,
            }
        },
    }
}

/// Valor padrão de um tipo, para os tipos que o têm (texto vazio; inteiro opcional ausente).
pub open spec fn padrao_de(tipo: Tipo) -> Option<ValorV> {
    match tipo {
        Tipo::Texto => Some(ValorV::Texto(Seq::empty())),
        Tipo::InteiroOpcional => Some(ValorV::InteiroOpcional(None)),
        _ => None,
    }
}

/// Valor de um campo cujo nome não está no cabeçalho.
pub open spec fn valor_faltante(c: CampoV) -> Option<ValorV> {
    if c.padrao {
        padrao_de(c.tipo)
    } else if c.tipo == Tipo::InteiroOpcional {
        Some(ValorV::InteiroOpcional(None))
    } else {
        None
    }
}

/// Valor de um campo cujo nome está no cabeçalho mas cujo registro acabou antes.
pub open spec fn valor_esgotado(c: CampoV) -> Option<ValorV> {
    if c.tipo == Tipo::InteiroOpcional {
        Some(ValorV::InteiroOpcional(None))
    } else {
        None
    }
}

/// Primeira posição de `nome` no cabeçalho `h`.
pub open spec fn posicao(h: Seq<Seq<char>>, nome: Seq<char>) -> Option<int>
    decreases h.len(),
{
    if h.len() == 0 {
        None
    } else if h[0] == nome {
        Some(0)
    } else {
        match posicao(h.drop_first(), nome) {
            Some(k) => Some(k + 1),
            None => None,
        }
    }
}

/// `nome` aparece mais de uma vez no cabeçalho.
pub open spec fn repetido(h: Seq<Seq<char>>, nome: Seq<char>) -> bool {
    exists|a: int, b: int| 0 <= a < b < h.len() && h[a] == nome && h[b] == nome
}

/// Valor do campo `c` procurado pelo nome no cabeçalho `h`, no registro `r`.
pub open spec fn valor_por_nome(c: CampoV, h: Seq<Seq<char>>, r: Seq<Seq<char>>) -> Option<ValorV> {
    if repetido(h, c.nome) {
        None
    } else {
        match posicao(h, c.nome) {
            None => valor_faltante(c),
            Some(k) => if k < r.len() {
                valor_presente(c.tipo, r[k])
            } else {
                valor_esgotado(c)
            },
        }
    }
}

/// Valor do `i`-ésimo campo `c` tomado pela posição no registro `r`.
pub open spec fn valor_por_posicao(c: CampoV, i: int, r: Seq<Seq<char>>) -> Option<ValorV> {
    if i < r.len() {
        valor_presente(c.tipo, r[i])
    } else if c.padrao {
        padrao_de(c.tipo)
    } else {
        None
    }
}

/// `nome` é o nome de algum dos campos.
pub open spec fn conhecido(campos: Seq<CampoV>, nome: Seq<char>) -> bool {
    exists|i: int| 0 <= i < campos.len() && campos[i].nome == nome
}

/// As colunas do cabeçalho além do fim do registro são todas de campos conhecidos.
pub open spec fn sobras_conhecidas(campos: Seq<CampoV>, cab: Option<Seq<Seq<char>>>, r: Seq<Seq<char>>) -> bool {
    match cab {
        Some(h) => forall|k: int| r.len() <= k < h.len() ==> conhecido(campos, #[trigger] h[k]),
        None => true,
    }
}

/// Valor do `i`-ésimo campo do registro `r`.
pub open spec fn valor_campo(campos: Seq<CampoV>, i: int, cab: Option<Seq<Seq<char>>>, r: Seq<Seq<char>>) -> Option<ValorV> {
    match cab {
        Some(h) => valor_por_nome(campos[i], h, r),
        None => valor_por_posicao(campos[i], i, r),
    }
}

/// Os valores de todos os campos do registro `r`, ou `None` se algum não se converte.
pub open spec fn decodificar(campos: Seq<CampoV>, cab: Option<Seq<Seq<char>>>, r: Seq<Seq<char>>) -> Option<Seq<ValorV>> {
    if sobras_conhecidas(campos, cab, r) && forall|i: int| 0 <= i < campos.len() ==> (#[trigger] valor_campo(campos, i, cab, r)) is Some {
        Some(Seq::new(campos.len(), |i: int| valor_campo(campos, i, cab, r).unwrap()))
    } else {
        None
    }
}

/// Modelo de uma lista de campos.
pub open spec fn vista_campos(campos: Seq<Campo>) -> Seq<CampoV> {
    campos.map_values(|c: Campo| c.vista())
}

/// Converte o texto de um campo presente.
pub fn valor_do_texto(tipo: Tipo, t: &String) -> (r: Option<Valor>)
    ensures
        r matches Some(v) ==> valor_presente(tipo, t@) == Some(v@),
        r is None ==> valor_presente(tipo, t@) is None,
{
    match tipo {
        Tipo::Data => match ler_data(t.as_str()) {
            Some(d) => Some(Valor::Data(d)),
            None => None,
        },
        Tipo::Texto => Some(Valor::Texto(t.clone())),
        Tipo::Inteiro => {
            let cs = caracteres(t.as_str());
            match inteiro_do_campo(&cs) {
                Some(v) => Some(Valor::Inteiro(v)),
                None => None,
            }
        },
        Tipo::Booleano => {
            if iguais(t.as_str(), "true") {
                Some(Valor::Booleano(true))
            } else if iguais(t.as_str(), "false") {
                Some(Valor::Booleano(false))
            } else {
                None
            }
        },
        Tipo::InteiroOpcional => {
            let cs = caracteres(t.as_str());
            if cs.len() == 0 {
                Some(Valor::InteiroOpcional(None))
            } else {
                match inteiro_do_campo(&cs) {
                    Some(v) => Some(Valor::InteiroOpcional(Some(v))),
                    None => None,
                }
            }
        },
    }
}

/// Valor padrão de um tipo.
fn valor_padrao(tipo: Tipo) -> (r: Option<Valor>)
    ensures
        r matches Some(v) ==> padrao_de(tipo) == Some(v@),
        r is None ==> padrao_de(tipo) is None,
{
    match tipo {
        Tipo::Texto => Some(Valor::Texto(String::new())),
        Tipo::InteiroOpcional => Some(Valor::InteiroOpcional(None)),
        _ => None,
    }
}

proof fn lema_posicao(h: Seq<Seq<char>>, nome: Seq<char>)
    ensures
        posicao(h, nome) matches Some(k) ==> 0 <= k < h.len() && h[k] == nome && forall|j: int|
            0 <= j < k ==> h[j] != nome,
        posicao(h, nome) is None ==> forall|j: int| 0 <= j < h.len() ==> h[j] != nome,
    decreases h.len(),
{
    if h.len() > 0 {
        lema_posicao(h.drop_first(), nome);
        assert forall|j: int| 1 <= j < h.len() implies h[j] == h.drop_first()[j - 1] by {}
    }
}

/// Primeira posição de `nome` no cabeçalho e se ele se repete.
fn procurar_no_cabecalho(h: &Vec<String>, nome: &str) -> (r: (Option<usize>, bool))
    ensures
        r.0 matches Some(k) ==> posicao(h.deep_view(), nome@) == Some(k as int),
        r.0 is None ==> posicao(h.deep_view(), nome@) is None,
        r.1 == repetido(h.deep_view(), nome@),
{
    let ghost hv = h.deep_view();
    proof {
        lema_posicao(hv, nome@);
    }
    let mut primeira: Option<usize> = None;
    let mut i: usize = 0;
    while i < h.len()
        invariant
            hv == h.deep_view(),
            i <= h@.len(),
            primeira is None ==> forall|j: int| 0 <= j < i ==> hv[j] != nome@,
            primeira matches Some(k) ==> k < i && hv[k as int] == nome@ && forall|j: int|
                0 <= j < k ==> hv[j] != nome@,
            primeira matches Some(k) ==> forall|j: int| k < j < i ==> hv[j] != nome@,
        decreases h.len() - i,
    {
        assert(hv[i as int] == h@[i as int]@);
        if iguais(h[i].as_str(), nome) {
            match primeira {
                Some(k) => {
                    proof {
                        lema_posicao(hv, nome@);
                        assert(hv[k as int] == nome@ && hv[i as int] == nome@);
                        assert(repetido(hv, nome@));
                        if let Some(p) = posicao(hv, nome@) {
                            if p < k {
                            } else if p > k {
                            }
                        }
                    }
                    return (Some(k), true);
                },
                None => {
                    primeira = Some(i);
                },
            }
        }
        i = i + 1;
    }
    proof {
        if let Some(k) = primeira {
            if let Some(p) = posicao(hv, nome@) {
                if p < k {
                } else if p > k {
                }
            }
            assert(!repetido(hv, nome@)) by {
                if repetido(hv, nome@) {
                    let (a, b) = choose|a: int, b: int| 0 <= a < b < hv.len() && hv[a] == nome@ && hv[b] == nome@;
                    if a < k {
                    } else if a == k {
                    } else {
                    }
                }
            }
        } else {
            assert(!repetido(hv, nome@));
        }
    }
    (primeira, false)
}

/// Valor do campo `c` procurado pelo nome no cabeçalho.
fn valor_pelo_nome(c: &Campo, h: &Vec<String>, reg: &Vec<String>) -> (r: Option<Valor>)
    ensures
        r matches Some(v) ==> valor_por_nome(c.vista(), h.deep_view(), reg.deep_view()) == Some(v@),
        r is None ==> valor_por_nome(c.vista(), h.deep_view(), reg.deep_view()) is None,
{
    let (pos, rep) = procurar_no_cabecalho(h, c.nome);
    if rep {
        return None;
    }
    match pos {
        None => {
            if c.padrao {
                valor_padrao(c.tipo)
            } else if c.tipo == Tipo::InteiroOpcional {
                Some(Valor::InteiroOpcional(None))
            } else {
                None
            }
        },
        Some(k) => {
            if k < reg.len() {
                assert(reg.deep_view()[k as int] == reg@[k as int]@);
                valor_do_texto(c.tipo, &reg[k])
            } else if c.tipo == Tipo::InteiroOpcional {
                Some(Valor::InteiroOpcional(None))
            } else {
                None
            }
        },
    }
}

/// Valor do `i`-ésimo campo `c` tomado pela posição.
fn valor_pela_posicao(c: &Campo, i: usize, reg: &Vec<String>) -> (r: Option<Valor>)
    ensures
        r matches Some(v) ==> valor_por_posicao(c.vista(), i as int, reg.deep_view()) == Some(v@),
        r is None ==> valor_por_posicao(c.vista(), i as int, reg.deep_view()) is None,
{
    if i < reg.len() {
        assert(reg.deep_view()[i as int] == reg@[i as int]@);
        valor_do_texto(c.tipo, &reg[i])
    } else if c.padrao {
        valor_padrao(c.tipo)
    } else {
        None
    }
}

/// Se `nome` é o nome de algum dos campos.
fn eh_conhecido(campos: &Vec<Campo>, nome: &String) -> (r: bool)
    ensures
        r == conhecido(vista_campos(campos@), nome@),
{
    let ghost cv = vista_campos(campos@);
    let mut i: usize = 0;
    while i < campos.len()
        invariant
            cv == vista_campos(campos@),
            i <= campos@.len(),
            forall|j: int| 0 <= j < i ==> cv[j].nome != nome@,
        decreases campos.len() - i,
    {
        if iguais(campos[i].nome, nome.as_str()) {
            assert(cv[i as int].nome == nome@);
            return true;
        }
        i = i + 1;
    }
    false
}

/// Converte o registro `reg` nos valores dos `campos`, ou `None` se algum não se converte.
pub fn decodificar_registro(campos: &Vec<Campo>, cab: &Option<Vec<String>>, reg: &Vec<String>) -> (r: Option<Vec<Valor>>)
    ensures
        r matches Some(vs) ==> decodificar(
            vista_campos(campos@),
            match cab { Some(h) => Some(h.deep_view()), None => None },
            reg.deep_view(),
        ) == Some(vs@.map_values(|v: Valor| v@)),
        r is None ==> decodificar(
            vista_campos(campos@),
            match cab { Some(h) => Some(h.deep_view()), None => None },
            reg.deep_view(),
        ) is None,
{
    let ghost cv = vista_campos(campos@);
    let ghost cabv: Option<Seq<Seq<char>>> = match cab { Some(h) => Some(h.deep_view()), None => None };
    let ghost rv = reg.deep_view();
    if let Some(h) = cab {
        let mut k = if reg.len() < h.len() { reg.len() } else { h.len() };
        while k < h.len()
            invariant
                cabv == Some(h.deep_view()),
                cabv == (match cab { Some(hh) => Some(hh.deep_view()), None => None }),
                cv == vista_campos(campos@),
                rv == reg.deep_view(),
                k <= h@.len(),
                k >= reg@.len() || k == h@.len(),
                forall|j: int| rv.len() <= j < k ==> conhecido(cv, #[trigger] h.deep_view()[j]),
            decreases h.len() - k,
        {
            assert(h.deep_view()[k as int] == h@[k as int]@);
            if !eh_conhecido(campos, &h[k]) {
                assert(rv.len() == reg@.len());
                assert(!conhecido(cv, h.deep_view()[k as int]));
                assert(h.deep_view().len() == h@.len());
                assert(cabv->0 == h.deep_view());
                assert(!sobras_conhecidas(cv, cabv, rv));
                return None;
            }
            k = k + 1;
        }
        assert(sobras_conhecidas(cv, cabv, rv));
    }
    let mut vs: Vec<Valor> = Vec::new();
    let mut i: usize = 0;
    while i < campos.len()
        invariant
            cv == vista_campos(campos@),
            cabv == (match cab { Some(h) => Some(h.deep_view()), None => None }),
            rv == reg.deep_view(),
            sobras_conhecidas(cv, cabv, rv),
            i <= campos@.len(),
            vs@.len() == i,
            forall|j: int| 0 <= j < i ==> valor_campo(cv, j, cabv, rv) == Some(#[trigger] vs@[j]@),
        decreases campos.len() - i,
    {
        assert(cv[i as int] == campos@[i as int].vista());
        let v = match cab {
            Some(h) => valor_pelo_nome(&campos[i], h, reg),
            None => valor_pela_posicao(&campos[i], i, reg),
        };
        match v {
            Some(v) => {
                vs.push(v);
            },
            None => {
                assert(valor_campo(cv, i as int, cabv, rv) is None);
                return None;
            },
        }
        i = i + 1;
    }
    proof {
        assert forall|j: int| 0 <= j < cv.len() implies (#[trigger] valor_campo(cv, j, cabv, rv)) is Some by {
            assert(valor_campo(cv, j, cabv, rv) == Some(vs@[j]@));
        }
        assert(Seq::new(cv.len(), |j: int| valor_campo(cv, j, cabv, rv).unwrap()) =~= vs@.map_values(|v: Valor| v@));
    }
    Some(vs)
}

} // verus!
