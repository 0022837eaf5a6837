use pcp::rotulos::{
    acoes_estado, cor_classe_abc, cor_status_abc, icone_saude, mascara, mes_abrev, nome_mes,
    ordem_classe, ordem_classe_abc, rotulo_acao, rotulo_movimento, rotulo_prioridade,
    rotulo_producao, rotulo_saude, titulo_da_rota,
};

#[test]
fn titulos_das_rotas() {
    assert_eq!(titulo_da_rota("/estoque"), "Gestão de Estoque");
    assert_eq!(titulo_da_rota("/estoque/6797"), "Detalhe do Produto");
    assert_eq!(titulo_da_rota("/alertas"), "Central de Alertas");
    assert_eq!(titulo_da_rota("/abc"), "Classificação ABC");
    assert_eq!(titulo_da_rota("/"), "Dashboard");
}

#[test]
fn cores_e_ordens_das_classes() {
    assert_eq!(cor_classe_abc("A"), "var(--abc-a)");
    assert_eq!(cor_classe_abc("F"), "var(--abc-f)");
    assert_eq!(cor_classe_abc("Z"), "var(--abc-n)");
    assert_eq!(cor_status_abc("critico"), "var(--semaforo-critico)");
    assert_eq!(cor_status_abc("sem_historico"), "var(--abc-d)");
    assert_eq!(ordem_classe_abc("D"), 3);
    assert_eq!(ordem_classe_abc("N"), 5);
    assert_eq!(ordem_classe("N"), 3);
    assert_eq!(ordem_classe("D"), 4);
    assert_eq!(ordem_classe("?"), 9);
}

#[test]
fn rotulos_de_acoes_e_prioridades() {
    assert_eq!(rotulo_acao("sair"), "Sair de linha");
    assert_eq!(rotulo_acao("voltar"), "Voltar à linha");
    assert_eq!(rotulo_acao("x"), "—");
    assert_eq!(acoes_estado("gerada"), vec![("Analisar", "em_analise")]);
    assert_eq!(acoes_estado("aplicada"), Vec::new());
    assert_eq!(rotulo_prioridade("critico"), "Crítico");
    assert_eq!(rotulo_prioridade("medio"), "Médio");
    assert_eq!(rotulo_prioridade("baixo"), "—");
}

#[test]
fn meses_abreviados() {
    assert_eq!(nome_mes(1), "Jan");
    assert_eq!(nome_mes(12), "Dez");
    assert_eq!(nome_mes(0), "—");
    assert_eq!(mes_abrev(3), "Mar");
    assert_eq!(mes_abrev(13), "—");
    assert_eq!(mes_abrev(i32::MIN), "—");
}

#[test]
fn saude_producao_e_movimentos() {
    assert_eq!(icone_saude("Duração do pipeline", "ok"), "relogio.svg");
    assert_eq!(icone_saude("Geração de alertas", "ok"), "notificacao.svg");
    assert_eq!(icone_saude("CV médio", "ok"), "atividade.svg");
    assert_eq!(icone_saude("Outro", "ok"), "confirmar.svg");
    assert_eq!(icone_saude("Duração", "critico"), "alerta.svg");
    assert_eq!(rotulo_saude("ok"), "OK");
    assert_eq!(rotulo_saude("atencao"), "Atenção");
    assert_eq!(rotulo_saude("x"), "Crítico");
    assert_eq!(rotulo_producao("PRODUCAO"), "Em produção");
    assert_eq!(rotulo_producao("?"), "—");
    assert_eq!(rotulo_movimento("DEVOLUCAO_VENDA"), "Devolução");
    assert_eq!(rotulo_movimento("LOCAL_ESTOQUE"), "Transferência");
    assert_eq!(rotulo_movimento("?"), "Movimento");
    assert_eq!(mascara("seta.svg"), "-webkit-mask-image:url(/icons/seta.svg);mask-image:url(/icons/seta.svg)");
}
