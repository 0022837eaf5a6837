//! Erros da ingestão de dados.

use vstd::prelude::*;

verus! {

/// Falha ao ler ou validar os dados de entrada.
#[derive(Debug)]
pub enum ErroEtl {
    /// O arquivo não pôde ser aberto ou lido.
    Io { caminho: String, motivo: String },
    /// O CSV está malformado (o texto é a mensagem do leitor de CSV).
    Leitura { motivo: String },
    /// A linha `linha` (contando o cabeçalho como linha 1) não se converte nos campos esperados.
    Conversao { linha: usize },
    /// A linha `linha` viola o contrato dos dados de entrada.
    Validacao { linha: usize, motivo: String },
}

/// Modelo de [`ErroEtl`] sobre sequências e inteiros.
pub enum ErroEtlV {
    Io { caminho: Seq<char>, motivo: Seq<char> },
    Leitura { motivo: Seq<char> },
    Conversao { linha: int },
    Validacao { linha: int, motivo: Seq<char> },
}

impl View for ErroEtl {
    type V = ErroEtlV;

    open spec fn view(&self) -> ErroEtlV {
        match self {
            ErroEtl::Io { caminho, motivo } => ErroEtlV::Io { caminho: caminho@, motivo: motivo@ },
            ErroEtl::Leitura { motivo } => ErroEtlV::Leitura { motivo: motivo@ },
            ErroEtl::Conversao { linha } => ErroEtlV::Conversao { linha: *linha as int },
            ErroEtl::Validacao { linha, motivo } => ErroEtlV::Validacao {
                linha: *linha as int,
                motivo: motivo@,
            },
        }
    }
}

} // verus!
