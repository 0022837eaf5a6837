//! Rótulos, cores e ordens de exibição das telas: título de cada rota, cores das classes ABC,
//! ordem das abas de classe, rótulos de prioridade, de ação de ciclo de vida, de meses, de
//! status de produção e de movimento de estoque, ícones dos cards de saúde.

use vstd::prelude::*;
use crate::formato::cor_status_spec;
use crate::texto::{comeca_com, iguais, prefixo};
use vstd::string::StringExecFns;

verus! {

/// Título do cabeçalho para cada rota.
pub open spec fn titulo_da_rota_spec(caminho: Seq<char>) -> Seq<char> {
    if caminho == "/estoque"@ {
        "Gestão de Estoque"@
    } else if caminho == "/alertas"@ {
        "Central de Alertas"@
    } else if caminho == "/abc"@ {
        "Classificação ABC"@
    } else if caminho == "/ai-chat"@ {
        "Chat IA"@
    } else if caminho == "/configuracoes"@ {
        "Configurações"@
    } else if prefixo("/estoque/"@, caminho) {
        "Detalhe do Produto"@
    } else {
        "Dashboard"@
    }
}

/// Título do cabeçalho para a rota `caminho` (detalhe do produto para `/estoque/...`,
/// painel para as demais).
pub fn titulo_da_rota(caminho: &str) -> (r: &'static str)
    ensures
        r@ == titulo_da_rota_spec(caminho@),
{
    if iguais(caminho, "/estoque") {
        "Gestão de Estoque"
    } else if iguais(caminho, "/alertas") {
        "Central de Alertas"
    } else if iguais(caminho, "/abc") {
        "Classificação ABC"
    } else if iguais(caminho, "/ai-chat") {
        "Chat IA"
    } else if iguais(caminho, "/configuracoes") {
        "Configurações"
    } else if comeca_com(caminho, "/estoque/") {
        "Detalhe do Produto"
    } else {
        "Dashboard"
    }
}

/// Cor fixa de cada classe ABC.
pub open spec fn cor_classe_spec(classe: Seq<char>) -> Seq<char> {
    if classe == "A"@ {
        "var(--abc-a)"@
    } else if classe == "B"@ {
        "var(--abc-b)"@
    } else if classe == "C"@ {
        "var(--abc-c)"@
    } else if classe == "D"@ {
        "var(--abc-d)"@
    } else if classe == "F"@ {
        "var(--abc-f)"@
    } else {
        "var(--abc-n)"@
    }
}

/// Cor fixa de uma classe ABC (a de "novo" para as demais).
pub fn cor_classe_abc(classe: &str) -> (r: &'static str)
    ensures
        r@ == cor_classe_spec(classe@),
{
    if iguais(classe, "A") {
        "var(--abc-a)"
    } else if iguais(classe, "B") {
        "var(--abc-b)"
    } else if iguais(classe, "C") {
        "var(--abc-c)"
    } else if iguais(classe, "D") {
        "var(--abc-d)"
    } else if iguais(classe, "F") {
        "var(--abc-f)"
    } else {
        "var(--abc-n)"
    }
}

/// Cor do texto de status na tabela ABC e na barra de nível do estoque: a mesma do semáforo
/// de status.
pub fn cor_status_abc(status: &str) -> (r: &'static str)
    ensures
        r@ == cor_status_spec(status@),
{
    crate::formato::cor_status(status)
}

/// Ordem das abas na classificação ABC: A, B, C, D, F, N e depois as demais.
pub open spec fn ordem_abc_spec(c: Seq<char>) -> u8 {
    if c == "A"@ {
        0
    } else if c == "B"@ {
        1
    } else if c == "C"@ {
        2
    } else if c == "D"@ {
        3
    } else if c == "F"@ {
        4
    } else if c == "N"@ {
        5
    } else {
        9
    }
}

/// Posição de uma classe nas abas da classificação ABC.
pub fn ordem_classe_abc(c: &str) -> (r: u8)
    ensures
        r == ordem_abc_spec(c@),
{
    if iguais(c, "A") {
        0
    } else if iguais(c, "B") {
        1
    } else if iguais(c, "C") {
        2
    } else if iguais(c, "D") {
        3
    } else if iguais(c, "F") {
        4
    } else if iguais(c, "N") {
        5
    } else {
        9
    }
}

/// Ordem das abas de classe do estoque: a curva (A, B, C), depois Novo, depois os estados
/// (D, F) e por fim as demais.
pub open spec fn ordem_estoque_spec(c: Seq<char>) -> u8 {
    if c == "A"@ {
        0
    } else if c == "B"@ {
        1
    } else if c == "C"@ {
        2
    } else if c == "N"@ {
        3
    } else if c == "D"@ {
        4
    } else if c == "F"@ {
        5
    } else {
        9
    }
}

/// Posição de uma classe nas abas da tela de estoque.
pub fn ordem_classe(c: &str) -> (r: u8)
    ensures
        r == ordem_estoque_spec(c@),
{
    if iguais(c, "A") {
        0
    } else if iguais(c, "B") {
        1
    } else if iguais(c, "C") {
        2
    } else if iguais(c, "N") {
        3
    } else if iguais(c, "D") {
        4
    } else if iguais(c, "F") {
        5
    } else {
        9
    }
}

/// Rótulo de cada ação sugerida de ciclo de vida.
pub open spec fn rotulo_acao_spec(acao: Seq<char>) -> Seq<char> {
    if acao == "sair"@ {
        "Sair de linha"@
    } else if acao == "voltar"@ {
        "Voltar à linha"@
    } else {
        "—"@
    }
}

/// Rótulo da ação sugerida de ciclo de vida.
pub fn rotulo_acao(acao: &str) -> (r: &'static str)
    ensures
        r@ == rotulo_acao_spec(acao@),
{
    if iguais(acao, "sair") {
        "Sair de linha"
    } else if iguais(acao, "voltar") {
        "Voltar à linha"
    } else {
        "—"
    }
}

/// Ações do gestor em cada estado de uma sugestão de ciclo de vida, como
/// `(rótulo, estado de destino)`: analisar uma sugestão gerada; aplicar ou recusar uma em
/// análise; nenhuma nos demais estados.
pub open spec fn acoes_estado_spec(estado: Seq<char>) -> Seq<(Seq<char>, Seq<char>)> {
    if estado == "gerada"@ {
        seq![("Analisar"@, "em_analise"@)]
    } else if estado == "em_analise"@ {
        seq![("Aplicar"@, "aplicada"@), ("Recusar"@, "recusada"@)]
    } else {
        Seq::empty()
    }
}

/// Ações possíveis do gestor no estado dado (o servidor revalida a transição).
pub fn acoes_estado(estado: &str) -> (r: Vec<(&'static str, &'static str)>)
    ensures
        r@.map_values(|a: (&'static str, &'static str)| (a.0@, a.1@)) == acoes_estado_spec(estado@),
{
    let r: Vec<(&'static str, &'static str)> = if iguais(estado, "gerada") {
        vec![("Analisar", "em_analise")]
    } else if iguais(estado, "em_analise") {
        vec![("Aplicar", "aplicada"), ("Recusar", "recusada")]
    } else {
        Vec::new()
    };
    assert(r@.map_values(|a: (&'static str, &'static str)| (a.0@, a.1@)) =~= acoes_estado_spec(estado@));
    r
}

/// Rótulo da prioridade de um alerta.
pub fn rotulo_prioridade(p: &str) -> (r: &'static str)
    ensures
        r@ == (if p@ == "critico"@ {
            "Crítico"@
        } else if p@ == "alto"@ {
            "Alto"@
        } else if p@ == "medio"@ {
            "Médio"@
        } else {
            "—"@
        }),
{
    if iguais(p, "critico") {
        "Crítico"
    } else if iguais(p, "alto") {
        "Alto"
    } else if iguais(p, "medio") {
        "Médio"
    } else {
        "—"
    }
}

/// Abreviações dos meses, de janeiro (1) a dezembro (12).
pub open spec fn meses() -> Seq<Seq<char>> {
    seq![
        "Jan"@, "Fev"@, "Mar"@, "Abr"@, "Mai"@, "Jun"@, "Jul"@, "Ago"@, "Set"@, "Out"@, "Nov"@, "Dez"@,
    ]
}

/// Abreviação do mês `m` (1 a 12), ou `—` fora disso.
pub open spec fn abreviacao_mes(m: int) -> Seq<char> {
    if 1 <= m <= 12 {
        meses()[m - 1]
    } else {
        "—"@
    }
}

fn abreviacao(m: i64) -> (r: &'static str)
    ensures
        r@ == abreviacao_mes(m as int),
{
    if m == 1 { "Jan" }
    else if m == 2 { "Fev" }
    else if m == 3 { "Mar" }
    else if m == 4 { "Abr" }
    else if m == 5 { "Mai" }
    else if m == 6 { "Jun" }
    else if m == 7 { "Jul" }
    else if m == 8 { "Ago" }
    else if m == 9 { "Set" }
    else if m == 10 { "Out" }
    else if m == 11 { "Nov" }
    else if m == 12 { "Dez" }
    else { "—" }
}

/// Nome curto do mês (1 a 12) nos fatores sazonais; `—` fora disso.
pub fn nome_mes(mes: i16) -> (r: &'static str)
    ensures
        r@ == abreviacao_mes(mes as int),
{
    abreviacao(mes as i64)
}

/// Abreviação do mês (1 a 12) no eixo do gráfico de vendas; `—` fora disso.
pub fn mes_abrev(mes: i32) -> (r: &'static str)
    ensures
        r@ == abreviacao_mes(mes as int),
{
    abreviacao(mes as i64)
}

/// Ícone de um card de saúde: alerta quando o status não é `ok`; senão um ícone pelo começo do
/// nome da verificação.
pub open spec fn icone_saude_spec(nome: Seq<char>, status: Seq<char>) -> Seq<char> {
    if status != "ok"@ {
        "alerta.svg"@
    } else if prefixo("Duração"@, nome) || prefixo("Snapshot"@, nome) {
        "relogio.svg"@
    } else if prefixo("Geração de alertas"@, nome) {
        "notificacao.svg"@
    } else if prefixo("CV"@, nome) || prefixo("Última execução"@, nome) {
        "atividade.svg"@
    } else {
        "confirmar.svg"@
    }
}

/// Ícone do card de uma verificação de saúde.
pub fn icone_saude(nome: &str, status: &str) -> (r: &'static str)
    ensures
        r@ == icone_saude_spec(nome@, status@),
{
    if !iguais(status, "ok") {
        "alerta.svg"
    } else if comeca_com(nome, "Duração") || comeca_com(nome, "Snapshot") {
        "relogio.svg"
    } else if comeca_com(nome, "Geração de alertas") {
        "notificacao.svg"
    } else if comeca_com(nome, "CV") || comeca_com(nome, "Última execução") {
        "atividade.svg"
    } else {
        "confirmar.svg"
    }
}

/// Rótulo do veredito de uma verificação de saúde.
pub fn rotulo_saude(status: &str) -> (r: &'static str)
    ensures
        r@ == (if status@ == "ok"@ {
            "OK"@
        } else if status@ == "atencao"@ {
            "Atenção"@
        } else {
            "Crítico"@
        }),
{
    if iguais(status, "ok") {
        "OK"
    } else if iguais(status, "atencao") {
        "Atenção"
    } else {
        "Crítico"
    }
}

/// Rótulo do status de uma ordem de produção.
pub fn rotulo_producao(s: &str) -> (r: &'static str)
    ensures
        r@ == (if s@ == "AGUARDANDO"@ {
            "Aguardando"@
        } else if s@ == "PRODUCAO"@ {
            "Em produção"@
        } else if s@ == "FINALIZADO"@ {
            "Finalizado"@
        } else if s@ == "CANCELADO"@ {
            "Cancelado"@
        } else {
            "—"@
        }),
{
    if iguais(s, "AGUARDANDO") {
        "Aguardando"
    } else if iguais(s, "PRODUCAO") {
        "Em produção"
    } else if iguais(s, "FINALIZADO") {
        "Finalizado"
    } else if iguais(s, "CANCELADO") {
        "Cancelado"
    } else {
        "—"
    }
}

/// Rótulo de cada tipo de movimento do kardex.
pub open spec fn rotulo_movimento_spec(t: Seq<char>) -> Seq<char> {
    if t == "VENDA"@ {
        "Venda"@
    } else if t == "DEVOLUCAO_VENDA"@ {
        "Devolução"@
    } else if t == "PRODUCAO"@ {
        "Produção"@
    } else if t == "SEPARACAO_VENDA"@ {
        "Separação (venda)"@
    } else if t == "SEPARACAO_PRODUCAO"@ {
        "Separação (produção)"@
    } else if t == "INVENTARIO"@ {
        "Inventário"@
    } else if t == "AJUSTE"@ {
        "Ajuste"@
    } else if t == "LOCAL_ESTOQUE"@ {
        "Transferência"@
    } else if t == "RESERVA_TEMPORARIA"@ {
        "Reserva"@
    } else {
        "Movimento"@
    }
}

/// Rótulo do tipo de movimento do kardex (`Movimento` para os desconhecidos).
pub fn rotulo_movimento(t: &str) -> (r: &'static str)
    ensures
        r@ == rotulo_movimento_spec(t@),
{
    if iguais(t, "VENDA") {
        "Venda"
    } else if iguais(t, "DEVOLUCAO_VENDA") {
        "Devolução"
    } else if iguais(t, "PRODUCAO") {
        "Produção"
    } else if iguais(t, "SEPARACAO_VENDA") {
        "Separação (venda)"
    } else if iguais(t, "SEPARACAO_PRODUCAO") {
        "Separação (produção)"
    } else if iguais(t, "INVENTARIO") {
        "Inventário"
    } else if iguais(t, "AJUSTE") {
        "Ajuste"
    } else if iguais(t, "LOCAL_ESTOQUE") {
        "Transferência"
    } else if iguais(t, "RESERVA_TEMPORARIA") {
        "Reserva"
    } else {
        "Movimento"
    }
}

/// Estilo CSS de máscara que aponta para o ícone `arquivo` de `public/icons`.
pub fn mascara(arquivo: &str) -> (s: String)
    ensures
        s@ == "-webkit-mask-image:url(/icons/"@ + arquivo@ + ");mask-image:url(/icons/"@ + arquivo@
            + ")"@,
{
    let mut s = String::from_str("-webkit-mask-image:url(/icons/");
    s.append(arquivo);
    s.append(");mask-image:url(/icons/");
    s.append(arquivo);
    s.append(")");
    s
}

/// Índice da primeira opção com o valor `v`, se houver.
pub open spec fn opcao_com_valor(opcoes: Seq<(Seq<char>, Seq<char>)>, v: Seq<char>) -> Option<int>
    decreases opcoes.len(),
{
    if opcoes.len() == 0 {
        None
    } else if opcoes[0].0 == v {
        Some(0)
    } else {
        match opcao_com_valor(opcoes.drop_first(), v) {
            Some(i) => Some(i + 1),
            None => None,
        }
    }
}

/// Texto mostrado no seletor: o da opção com o valor atual; sem correspondência, o da primeira
/// opção; sem opções, nada.
pub open spec fn texto_atual_spec(opcoes: Seq<(Seq<char>, Seq<char>)>, v: Seq<char>) -> Seq<char> {
    match opcao_com_valor(opcoes, v) {
        Some(i) => opcoes[i].1,
        None => if opcoes.len() > 0 { opcoes[0].1 } else { Seq::empty() },
    }
}

/// Opções `(valor, texto)` como sequências.
pub open spec fn vista_opcoes(o: Seq<(&'static str, &'static str)>) -> Seq<(Seq<char>, Seq<char>)> {
    o.map_values(|p: (&'static str, &'static str)| (p.0@, p.1@))
}

proof fn lema_opcao_com_valor(opcoes: Seq<(Seq<char>, Seq<char>)>, v: Seq<char>)
    ensures
        opcao_com_valor(opcoes, v) matches Some(i) ==> 0 <= i < opcoes.len() && opcoes[i].0 == v
            && forall|j: int| 0 <= j < i ==> #[trigger] opcoes[j].0 != v,
        opcao_com_valor(opcoes, v) is None ==> forall|j: int| 0 <= j < opcoes.len() ==> #[trigger] opcoes[j].0 != v,
    decreases opcoes.len(),
{
    if opcoes.len() > 0 {
        lema_opcao_com_valor(opcoes.drop_first(), v);
        assert forall|j: int| 1 <= j < opcoes.len() implies #[trigger] opcoes[j] == opcoes.drop_first()[j - 1] by {}
    }
}

/// Texto da opção atual de um seletor. Sem correspondência (ex.: valor vazio), mostra a primeira
/// opção.
pub fn texto_atual(opcoes: &Vec<(&'static str, &'static str)>, valor: &str) -> (r: &'static str)
    ensures
        r@ == texto_atual_spec(vista_opcoes(opcoes@), valor@),
{
    let ghost s = vista_opcoes(opcoes@);
    let mut i: usize = 0;
    while i < opcoes.len()
        invariant
            s == vista_opcoes(opcoes@),
            i <= opcoes@.len(),
            forall|j: int| 0 <= j < i ==> #[trigger] s[j].0 != valor@,
        decreases opcoes.len() - i,
    {
        if iguais(opcoes[i].0, valor) {
            proof {
                lema_opcao_com_valor(s, valor@);
                if let Some(k) = opcao_com_valor(s, valor@) {
                    if k > i {
                        assert(s[i as int].0 == valor@);
                    }
                } else {
                    assert(s[i as int].0 == valor@);
                }
            }
            return opcoes[i].1;
        }
        i = i + 1;
    }
    proof {
        lema_opcao_com_valor(s, valor@);
        if let Some(k) = opcao_com_valor(s, valor@) {
            assert(s[k].0 == valor@);
        }
    }
    if opcoes.len() > 0 {
        opcoes[0].1
    } else {
        proof {
            reveal_strlit("");
        }
        ""
    }
}

} // verus!
