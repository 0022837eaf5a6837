use pcp::producao::{
    decidir_item, definir_qtd, falhas_do_lote, qtd_de, remover_da_selecao, resumo_criacao,
    reter_falhas, sincronizar_quantidades, DecisaoItem, ProdutoSelecionado, Resultado,
};

fn produto(codigo: &str, qtd: i64) -> ProdutoSelecionado {
    ProdutoSelecionado { codigo: codigo.to_owned(), nome: format!("Produto {codigo}"), qtd_sugerida: qtd }
}

fn par(c: &str, q: i64) -> (String, i64) {
    (c.to_owned(), q)
}

#[test]
fn quantidades_nascem_da_sugestao() {
    let mut q = Vec::new();
    sincronizar_quantidades(&mut q, &vec![produto("1", 10), produto("2", -4)]);
    assert_eq!(q, vec![par("1", 10), par("2", 0)]);
}

#[test]
fn sincronizar_mantem_o_que_o_usuario_digitou() {
    let mut q = vec![par("1", 7), par("9", 3)];
    sincronizar_quantidades(&mut q, &vec![produto("1", 10), produto("2", 5)]);
    assert_eq!(q, vec![par("1", 7), par("2", 5)]);
    let antes = q.clone();
    sincronizar_quantidades(&mut q, &vec![produto("1", 10), produto("2", 5)]);
    assert_eq!(q, antes);
}

#[test]
fn ler_e_definir_quantidade() {
    let mut q = vec![par("1", 7), par("2", 5)];
    assert_eq!(qtd_de(&q, "2"), 5);
    assert_eq!(qtd_de(&q, "3"), 0);
    definir_qtd(&mut q, "2", 12);
    assert_eq!(qtd_de(&q, "2"), 12);
    definir_qtd(&mut q, "1", -8);
    assert_eq!(qtd_de(&q, "1"), 0);
    definir_qtd(&mut q, "3", 4);
    assert_eq!(q, vec![par("1", 0), par("2", 12)]);
}

#[test]
fn quantidade_zerada_nao_vira_ordem() {
    let q = vec![par("1", 0), par("2", 5)];
    assert_eq!(decidir_item(&q, "1"), DecisaoItem::Recusar("quantidade zerada".to_owned()));
    assert_eq!(decidir_item(&q, "3"), DecisaoItem::Recusar("quantidade zerada".to_owned()));
    assert_eq!(decidir_item(&q, "2"), DecisaoItem::Criar(5));
}

#[test]
fn so_as_falhas_continuam_marcadas() {
    let saida = vec![
        Resultado { codigo: "1".to_owned(), nome: "a".to_owned(), erro: None },
        Resultado { codigo: "2".to_owned(), nome: "b".to_owned(), erro: Some("falhou".to_owned()) },
        Resultado { codigo: "3".to_owned(), nome: "c".to_owned(), erro: Some("quantidade zerada".to_owned()) },
    ];
    let falhas = falhas_do_lote(&saida);
    assert_eq!(falhas, vec!["2".to_owned(), "3".to_owned()]);
    let mut selecao = vec![produto("1", 1), produto("2", 2), produto("3", 3)];
    reter_falhas(&mut selecao, &falhas);
    assert_eq!(selecao, vec![produto("2", 2), produto("3", 3)]);
    assert_eq!(resumo_criacao(&saida), (1, 2));
    assert_eq!(resumo_criacao(&Vec::new()), (0, 0));
}

#[test]
fn remover_um_produto_da_selecao() {
    let mut selecao = vec![produto("1", 1), produto("2", 2)];
    remover_da_selecao(&mut selecao, "1");
    assert_eq!(selecao, vec![produto("2", 2)]);
    remover_da_selecao(&mut selecao, "x");
    assert_eq!(selecao, vec![produto("2", 2)]);
}
