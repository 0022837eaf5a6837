use pcp::data::Data;
use pcp::importacao::ResumoImportacao;
use pcp::one::{booleano_ou_falso, inicio_janela_vendas, inteiro_ou_zero, texto_normalizado, OpcoesOne};

#[test]
fn inicio_da_janela_de_vendas() {
    let opcoes = OpcoesOne { data_ref: Data { dias: 740_000 }, backfill_dias: 365, janela_deslizante_dias: 7 };
    assert_eq!(inicio_janela_vendas(&opcoes, None), Data { dias: 739_635 });
    assert_eq!(inicio_janela_vendas(&opcoes, Some(Data { dias: 739_990 })), Data { dias: 739_983 });
}

#[test]
fn colunas_normalizadas() {
    assert_eq!(texto_normalizado(Some("  AZUL ".to_owned())), Some("AZUL".to_owned()));
    assert_eq!(texto_normalizado(Some("   ".to_owned())), None);
    assert_eq!(texto_normalizado(None), None);
    assert_eq!(inteiro_ou_zero(None), 0);
    assert_eq!(inteiro_ou_zero(Some(-3)), -3);
    assert!(!booleano_ou_falso(None));
    assert!(booleano_ou_falso(Some(true)));
}

#[test]
fn resumo_soma_linhas_por_dia() {
    let mut r = ResumoImportacao::inicial(2, 1);
    r.registrar_vendas(10);
    r.registrar_vendas(5);
    r.registrar_snapshot(7);
    assert_eq!(r, ResumoImportacao { dias_vendas: 2, linhas_vendas: 15, dias_snapshot: 1, linhas_snapshot: 7 });
}
