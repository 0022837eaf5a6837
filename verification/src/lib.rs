//! Planejamento e controle de produção: ingestão validada dos dados de entrada (CSV de vendas e
//! de snapshot de estoque), agrupamento por dia, janela de sincronização e as regras de
//! apresentação (formatação pt-BR, rótulos, paginação) usadas pelas telas.

pub mod armazenamento;
pub mod arquivo;
pub mod ciclo_vida;
pub mod configuracao;
pub mod consulta;
pub mod data;
pub mod decodificacao;
pub mod erro;
pub mod estoque;
pub mod exportacao;
pub mod formato;
pub mod importacao;
pub mod leitura_csv;
pub mod numero;
pub mod one;
pub mod paginacao;
pub mod painel;
pub mod producao;
pub mod resposta;
pub mod rotulos;
pub mod tabela_abc;
pub mod texto;
pub mod tipos;
pub mod validacao;
