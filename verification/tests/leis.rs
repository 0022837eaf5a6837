use pcp::arquivo::{ler_snapshot_csv, ler_vendas_csv};
use pcp::ciclo_vida::{acoes_da_sugestao, eh_admin, eh_gestor};
use pcp::data::Data;
use pcp::exportacao::campo_csv;
use pcp::formato::{fmt_data, fmt_milhar};
use pcp::importacao::agrupar_por_dia;
use pcp::one::{inicio_janela_vendas, OpcoesOne};
use pcp::paginacao::Paginacao;
use pcp::producao::{definir_qtd, qtd_de, sincronizar_quantidades, ProdutoSelecionado};
use pcp::validacao::{erro_email, erro_senha, pode_enviar};

/// Como um leitor de CSV lê o campo exportado.
fn ler_campo(t: &str) -> String {
    if t.len() >= 2 && t.starts_with('"') && t.ends_with('"') {
        t[1..t.len() - 1].replace("\"\"", "\"")
    } else {
        t.to_owned()
    }
}

#[test]
fn milhar_sem_pontos_e_a_escrita_decimal() {
    for n in [0_i64, 7, 999, 1000, 65_536, 1_234_567, 9_000_000_001, i64::MAX] {
        assert_eq!(fmt_milhar(n).replace('.', ""), n.to_string());
    }
}

#[test]
fn data_brasileira_inverte_as_partes() {
    assert_eq!(fmt_data("1999-12-31"), "31/12/1999");
    assert_eq!(fmt_data("a-b-c"), "c/b/a");
}

#[test]
fn campo_csv_reversivel() {
    for s in ["", "Copo", "a;b", "aspas \"x\"", "\"", "linha\nnova", "\"\""] {
        assert_eq!(ler_campo(&campo_csv(s)), s);
    }
}

#[test]
fn agrupamento_conserva_as_linhas() {
    let csv = "dt_ref,codigo_estoque,sku,produto,configuracao,qtd_vendida,is_personalizado\n\
        2026-06-15,1,,,,1,false\n\
        2026-06-14,2,,,,2,false\n\
        2026-06-15,3,,,,3,false\n";
    let vendas = ler_vendas_csv(csv.as_bytes()).unwrap();
    assert_eq!(vendas.len(), 3);
    let grupos = agrupar_por_dia(vendas);
    assert_eq!(grupos.len(), 2);
    let dias: Vec<i32> = grupos.keys().copied().collect();
    assert!(dias[0] < dias[1]);
    assert_eq!(grupos.values().map(Vec::len).sum::<usize>(), 3);
    let ultimo = &grupos[&dias[1]];
    assert_eq!(ultimo[0].codigo_estoque, "1");
    assert_eq!(ultimo[1].codigo_estoque, "3");
}

#[test]
fn linhas_aceitas_cumprem_o_contrato() {
    let csv = "dt_ref,codigo_estoque,sku,produto,configuracao,qtd_estoque,qtd_reserva,qtd_disponivel,estoque_min_erp,fora_de_linha\n\
        2026-06-15,1,,,,100,30,70,,false\n\
        2026-06-15,2,,,,5,10,,3,true\n";
    let s = ler_snapshot_csv(csv.as_bytes()).unwrap();
    assert_eq!(s.len(), 2);
    for x in &s {
        assert_eq!(x.qtd_disponivel, x.qtd_estoque - x.qtd_reserva);
        assert!(!x.codigo_estoque.trim().is_empty());
    }
}

#[test]
fn janela_de_vendas_nao_pula_dias() {
    let opcoes = OpcoesOne { data_ref: Data { dias: 1000 }, backfill_dias: 0, janela_deslizante_dias: 3 };
    assert!(inicio_janela_vendas(&opcoes, None).dias <= 1000);
    assert!(inicio_janela_vendas(&opcoes, Some(Data { dias: 990 })).dias <= 990);
}

#[test]
fn paginacao_ir_para_e_setas() {
    for pagina in 1..=7 {
        let mut p = Paginacao { limite: 20, deslocamento: 0, total: 130 };
        p.ir_para(pagina);
        assert_eq!(p.atual(), pagina);
        assert_eq!(p.tem_proximo(), pagina < p.total_paginas());
        assert_eq!(p.tem_anterior(), pagina > 1);
        let antes = p.deslocamento;
        p.proxima();
        p.anterior();
        assert_eq!(p.deslocamento, antes);
    }
}

#[test]
fn sincronizar_e_definir_quantidades() {
    let sel = vec![
        ProdutoSelecionado { codigo: "1".to_owned(), nome: "a".to_owned(), qtd_sugerida: 3 },
        ProdutoSelecionado { codigo: "2".to_owned(), nome: "b".to_owned(), qtd_sugerida: -1 },
    ];
    let mut q = vec![("9".to_owned(), 4), ("1".to_owned(), 8)];
    sincronizar_quantidades(&mut q, &sel);
    let codigos: Vec<&str> = q.iter().map(|(c, _)| c.as_str()).collect();
    assert_eq!(codigos, vec!["1", "2"]);
    assert!(q.iter().all(|(_, n)| *n >= 0));
    assert_eq!(qtd_de(&q, "1"), 8);
    definir_qtd(&mut q, "2", 6);
    assert_eq!(qtd_de(&q, "2"), 6);
    assert_eq!(qtd_de(&q, "1"), 8);
}

#[test]
fn papeis_e_avisos_coerentes() {
    assert!(eh_admin(Some("admin")) && eh_gestor(Some("admin")));
    for (estado, gestor) in [("gerada", true), ("em_analise", true), ("aplicada", true), ("gerada", false)] {
        assert!(acoes_da_sugestao(estado, gestor).iter().all(|(_, destino)| *destino != "gerada"));
    }
    for (e, s) in [("a@b.com", "x"), ("a@b", "x"), ("", "x"), ("a@b.com", "")] {
        assert_eq!(pode_enviar(e, s), erro_email(true, e).is_none() && erro_senha(true, s).is_none());
    }
}

#[test]
fn sincronizar_deixa_um_por_codigo() {
    let sel = vec![
        ProdutoSelecionado { codigo: "1".to_owned(), nome: "a".to_owned(), qtd_sugerida: 3 },
        ProdutoSelecionado { codigo: "2".to_owned(), nome: "b".to_owned(), qtd_sugerida: 4 },
        ProdutoSelecionado { codigo: "1".to_owned(), nome: "a".to_owned(), qtd_sugerida: 9 },
    ];
    let mut q = vec![("2".to_owned(), 7), ("5".to_owned(), 1)];
    sincronizar_quantidades(&mut q, &sel);
    assert_eq!(q, vec![("2".to_owned(), 7), ("1".to_owned(), 3)]);
    let mut codigos: Vec<&str> = q.iter().map(|(c, _)| c.as_str()).collect();
    codigos.sort_unstable();
    codigos.dedup();
    assert_eq!(codigos.len(), q.len());
}

#[test]
fn milhar_em_grupos_de_tres() {
    for n in [0_i64, 5, -5, 999, -1000, 1_000_000, 12_345_678, i64::MIN, i64::MAX] {
        let s = fmt_milhar(n);
        assert_eq!(s.starts_with('-'), n < 0);
        let corpo = s.trim_start_matches('-');
        let grupos: Vec<&str> = corpo.split('.').collect();
        assert!((1..=3).contains(&grupos[0].len()));
        assert!(grupos[1..].iter().all(|g| g.len() == 3));
        assert!(grupos.iter().all(|g| g.chars().all(|c| c.is_ascii_digit())));
        assert!(n == 0 || !corpo.starts_with('0'));
    }
}
