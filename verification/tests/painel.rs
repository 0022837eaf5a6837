use pcp::painel::{
    abaixo_do_recomendado, abas_abc, abas_classe, conta_prioridade, conta_status, maior_grupo,
    maior_volume, quantidade_classe_a,
};
use pcp::estoque::{textos_linha_estoque, textos_ordem};
use pcp::tipos::{Contagem, ContagemClasse, DistribuicaoAbc, OrdemProducao};

fn contagem(rotulo: &str, quantidade: i64) -> Contagem {
    Contagem { rotulo: rotulo.to_owned(), quantidade }
}

fn classe(classe: &str, quantidade: i64) -> ContagemClasse {
    ContagemClasse { classe: classe.to_owned(), quantidade }
}

fn dist(classe: &str, quantidade: i64) -> DistribuicaoAbc {
    DistribuicaoAbc { classe: classe.to_owned(), quantidade, volume: 0, recomendado: 0 }
}

#[test]
fn contagem_de_um_status() {
    let s = vec![contagem("critico", 4), contagem("baixo", 7), contagem("critico", 9)];
    assert_eq!(conta_status(&s, "critico"), 4);
    assert_eq!(conta_status(&s, "baixo"), 7);
    assert_eq!(conta_status(&s, "adequado"), 0);
    assert_eq!(conta_status(&Vec::new(), "baixo"), 0);
}

#[test]
fn soma_dos_abaixo_do_recomendado() {
    let s = vec![
        contagem("critico", 4),
        contagem("sem_estoque", 1),
        contagem("adequado", 100),
        contagem("estoque_baixo", 2),
        contagem("baixo", 3),
        contagem("excessivo", 50),
    ];
    assert_eq!(abaixo_do_recomendado(&s), 10);
    assert_eq!(abaixo_do_recomendado(&Vec::new()), 0);
}

#[test]
fn abas_do_estoque_em_ordem_com_total() {
    let c = vec![classe("F", 1), classe("A", 10), classe("X", 2), classe("N", 3), classe("C", 4), classe("B", 5)];
    let (abas, total) = abas_classe(&c);
    let ordem: Vec<&str> = abas.iter().map(|(c, _)| c.as_str()).collect();
    assert_eq!(ordem, vec!["A", "B", "C", "N", "F", "X"]);
    assert_eq!(abas[0], ("A".to_owned(), 10));
    assert_eq!(total, 25);
}

#[test]
fn abas_estaveis_entre_classes_desconhecidas() {
    let c = vec![classe("Z", 1), classe("A", 2), classe("Y", 3)];
    let (abas, total) = abas_classe(&c);
    assert_eq!(abas, vec![("A".to_owned(), 2), ("Z".to_owned(), 1), ("Y".to_owned(), 3)]);
    assert_eq!(total, 6);
}

#[test]
fn abas_da_classificacao_abc() {
    let d = vec![dist("N", 3), dist("F", 1), dist("D", 2), dist("A", 9)];
    let abas = abas_abc(&d);
    let ordem: Vec<&str> = abas.iter().map(|(c, _)| c.as_str()).collect();
    assert_eq!(ordem, vec!["A", "D", "F", "N"]);
}

#[test]
fn kpis_da_classificacao_abc() {
    let d = vec![dist("A", 9), dist("B", 12), dist("C", 12), dist("D", 2)];
    assert_eq!(maior_grupo(&d), Some(("C".to_owned(), 12)));
    assert_eq!(maior_grupo(&Vec::new()), None);
    assert_eq!(quantidade_classe_a(&d), 9);
    assert_eq!(quantidade_classe_a(&vec![dist("B", 1)]), 0);
    assert_eq!(maior_volume(&vec![3, 40, 7]), 40);
    assert_eq!(maior_volume(&vec![-3, -1]), -1);
    assert_eq!(maior_volume(&Vec::new()), 0);
}

#[test]
fn contagem_por_prioridade() {
    let p: Vec<String> = ["critico", "alto", "critico", "medio"].iter().map(|s| s.to_string()).collect();
    assert_eq!(conta_prioridade(&p, "critico"), 2);
    assert_eq!(conta_prioridade(&p, "alto"), 1);
    assert_eq!(conta_prioridade(&p, "baixo"), 0);
}

#[test]
fn textos_da_linha_de_estoque() {
    let t = textos_linha_estoque("6797", Some("Copo"), 1500, 2000, 500);
    assert_eq!(t.nome, "Copo");
    assert_eq!(t.disponivel, "1.500 un");
    assert_eq!(t.recomendacao, "rec. 2.000 un");
    assert_eq!(t.produzir, Some("500 un".to_owned()));
    let sem_alvo = textos_linha_estoque("6797", Some(""), 3, 0, 10);
    assert_eq!(sem_alvo.nome, "6797");
    assert_eq!(sem_alvo.recomendacao, "sem recomendação");
    assert_eq!(sem_alvo.produzir, None);
    let nada = textos_linha_estoque("1", None, -2, 10, 0);
    assert_eq!(nada.nome, "1");
    assert_eq!(nada.disponivel, "-2 un");
    assert_eq!(nada.produzir, None);
}

#[test]
fn textos_do_historico_de_producao() {
    let o = OrdemProducao { data: Some("2026-06-14".to_owned()), quantidade: 1200, status: None, lote: Some(42) };
    let t = textos_ordem(&o);
    assert_eq!(t.data, "14/06/2026");
    assert_eq!(t.quantidade, "1.200 un");
    assert_eq!(t.lote, "42");
    let sem = textos_ordem(&OrdemProducao { data: None, quantidade: 0, status: None, lote: None });
    assert_eq!(sem.data, "—");
    assert_eq!(sem.lote, "—");
}
