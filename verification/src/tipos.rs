//! Dados trocados com a API do PCP que as telas exibem sem cálculo (valores inteiros e textos
//! já prontos no servidor).

use vstd::prelude::*;

verus! {

/// Contagem `(rótulo, quantidade)` das distribuições do painel.
#[derive(Clone, Debug, Default, PartialEq, Eq)]
pub struct Contagem {
    pub rotulo: String,
    pub quantidade: i64,
}

/// Contagem de uma classe nas abas da tela de estoque.
#[derive(Clone, Debug, Default, PartialEq, Eq)]
pub struct ContagemClasse {
    pub classe: String,
    pub quantidade: i64,
}

/// Total de vendas de um mês.
#[derive(Clone, Debug, PartialEq, Eq)]
pub struct VendaMes {
    pub ano: i32,
    pub mes: i32,
    pub total: i64,
}

/// Sugestão de ciclo de vida / fora de linha.
#[derive(Clone, Debug, PartialEq, Eq)]
pub struct SugestaoCicloVida {
    pub id: String,
    pub codigo_estoque: String,
    pub acao_sugerida: String,
    pub pontuacao: i16,
    pub nivel_certeza: String,
    pub criterios: Vec<String>,
    pub estado: String,
    pub data_analise: String,
    pub aplicado_por: Option<String>,
    pub observacoes: Option<String>,
}

/// Distribuição por classe ABC, agregada no servidor: contagem, volume e recomendado.
#[derive(Clone, Debug, PartialEq, Eq)]
pub struct DistribuicaoAbc {
    pub classe: String,
    pub quantidade: i64,
    pub volume: i64,
    pub recomendado: i64,
}

/// Uma entrada da auditoria de configuração.
#[derive(Clone, Debug, PartialEq, Eq)]
pub struct EntradaAuditoriaConfig {
    pub chave: String,
    pub valor_anterior: Option<String>,
    pub valor_novo: Option<String>,
    pub por_id: String,
    pub em: String,
}

/// Usuário da tela de gestão (sem o hash da senha, que nunca trafega).
#[derive(Clone, Debug, PartialEq, Eq)]
pub struct UsuarioConta {
    pub id: String,
    pub email: String,
    pub papel: String,
    pub nome: Option<String>,
    pub ativo: bool,
}

/// Preferências de exibição do usuário.
#[derive(Clone, Debug, PartialEq, Eq)]
pub struct Preferencia {
    pub pagina_inicial: String,
    pub tamanho_pagina: i32,
}

/// Alerta inteligente dos insights estatísticos.
#[derive(Clone, Debug, PartialEq, Eq)]
pub struct AlertaInteligente {
    pub categoria: String,
    pub severidade: String,
    pub titulo: String,
    pub detalhe: String,
}

/// Credenciais do login: token de acesso (curto, em memória) e de renovação (persistido).
#[derive(Clone, Debug, PartialEq, Eq)]
pub struct Credenciais {
    pub access_token: String,
    pub refresh_token: String,
}

/// Execução de um módulo do pipeline (painel de operação).
#[derive(Clone, Debug, PartialEq, Eq)]
pub struct ExecucaoPipeline {
    pub data_ref: String,
    pub modulo: String,
    pub status: String,
    pub linhas_afetadas: i64,
    pub duracao_ms: i64,
    pub erro: Option<String>,
    pub inicio: String,
    pub fim: String,
}

/// Uma verificação de saúde com veredito pronto: `status` é `ok`, `atencao` ou `critico`.
#[derive(Clone, Debug, PartialEq, Eq)]
pub struct VerificacaoSaude {
    pub nome: String,
    pub status: String,
    pub detalhe: String,
}

/// Relatório das verificações de saúde.
#[derive(Clone, Debug, Default, PartialEq, Eq)]
pub struct RelatorioSaude {
    pub gerado_em: String,
    pub verificacoes: Vec<VerificacaoSaude>,
}

/// Situação atual da produção de uma linha de estoque.
#[derive(Clone, Debug, Default, PartialEq, Eq)]
pub struct StatusProducao {
    pub ordens_abertas: i64,
    pub qtd_planejada: i64,
    pub em_producao: i64,
    pub aguardando: i64,
}

/// Uma ordem de produção da linha.
#[derive(Clone, Debug, PartialEq, Eq)]
pub struct OrdemProducao {
    pub data: Option<String>,
    pub quantidade: i64,
    pub status: Option<String>,
    pub lote: Option<i64>,
}

/// Um movimento de estoque (kardex) da linha.
#[derive(Clone, Debug, PartialEq, Eq)]
pub struct Movimento {
    pub data: String,
    pub tipo: String,
    pub quantidade: i64,
    pub saldo: i64,
}

/// Atividade da linha de estoque: situação e histórico de produção e histórico de movimentação.
#[derive(Clone, Debug, Default, PartialEq, Eq)]
pub struct Atividade {
    pub status_producao: StatusProducao,
    pub producao: Vec<OrdemProducao>,
    pub movimentos: Vec<Movimento>,
}

} // verus!
