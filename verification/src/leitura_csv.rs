//! Leitura de um CSV (separador `,`, aspas `"`, primeira linha como cabeçalho) em texto: o
//! cabeçalho e, em ordem, cada registro seguinte ou o erro do leitor naquele ponto.

use vstd::prelude::*;

verus! {

/// Um CSV lido: o cabeçalho (ausente se a primeira linha não pôde ser lida como texto) e, para
/// cada registro após o cabeçalho, seus campos ou a mensagem do erro de leitura.
pub struct TabelaCsv {
    pub cabecalho: Option<Vec<String>>,
    pub registros: Vec<Result<Vec<String>, String>>,
}

/// Modelo de um registro lido: os campos, ou a mensagem de erro.
pub open spec fn vista_registro(r: Result<Vec<String>, String>) -> Result<Seq<Seq<char>>, Seq<char>> {
    match r {
        Ok(campos) => Ok(campos.deep_view()),
        Err(m) => Err(m@),
    }
}

impl TabelaCsv {
    /// Modelo da tabela sobre sequências de caracteres.
    pub open spec fn vista(&self) -> (Option<Seq<Seq<char>>>, Seq<Result<Seq<Seq<char>>, Seq<char>>>) {
        (
            match self.cabecalho {
                Some(c) => Some(c.deep_view()),
                None => None,
            },
            Seq::new(self.registros@.len(), |i: int| vista_registro(self.registros@[i])),
        )
    }
}

/// O que o leitor de CSV (`csv::Reader` com a configuração padrão) obtém de `conteudo`: o
/// cabeçalho, se legível, e os registros seguintes ou os erros de leitura, em ordem.
pub uninterp spec fn leitura_csv(conteudo: Seq<u8>) -> (Option<Seq<Seq<char>>>, Seq<Result<Seq<Seq<char>>, Seq<char>>>);

/// Lê `conteudo` com `csv::Reader::from_reader` (configuração padrão): `headers()` e depois
/// todos os itens de `records()`, com cada erro convertido na sua mensagem. O contrato diz
/// que o resultado é `leitura_csv(conteudo)`, e que o número de registros cabe num vetor; a
/// gramática do CSV não é descrita aqui.
#[verifier::external_body]
pub fn ler_tabela_csv(conteudo: &[u8]) -> (t: TabelaCsv)
    ensures
        t.vista() == leitura_csv(conteudo@),
        t.registros@.len() <= isize::MAX,
{
    let mut leitor = csv::Reader::from_reader(conteudo);
    let cabecalho = leitor.headers().ok().map(|c| c.iter().map(str::to_owned).collect());
    let registros = leitor
        .records()
        .map(|r| r.map(|reg| reg.iter().map(str::to_owned).collect()).map_err(|e| e.to_string()))
        .collect();
    TabelaCsv { cabecalho, registros }
}

} // verus!
