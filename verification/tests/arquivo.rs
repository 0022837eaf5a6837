use pcp::arquivo::{
    ler_snapshot_csv, ler_snapshot_csv_conferido, ler_vendas_csv, ImportadorArquivo,
};
use pcp::erro::ErroEtl;

const VENDAS: &str =
    "dt_ref,codigo_estoque,sku,produto,configuracao,qtd_vendida,is_personalizado\n\
    2026-06-14,6797,SKU1,Copo,COR DO PRODUTO: AZUL,10,false\n\
    2026-06-14,6797,SKU1,Copo,,3,true\n";

#[test]
fn parse_vendas_consolida_variacoes() {
    let v = ler_vendas_csv(VENDAS.as_bytes()).unwrap();
    assert_eq!(v.len(), 2);
    assert_eq!(v[0].codigo_estoque, "6797");
    assert_eq!(v[0].qtd_vendida, 10);
    assert_eq!(v[1].configuracao, None); // vazio -> None
    assert!(v[1].is_personalizado);
}

#[test]
fn vendas_qtd_negativa_falha() {
    let csv = "dt_ref,codigo_estoque,sku,produto,configuracao,qtd_vendida,is_personalizado\n\
        2026-06-14,6797,,,,-5,false\n";
    assert!(ler_vendas_csv(csv.as_bytes()).is_err());
}

#[test]
fn vendas_codigo_vazio_falha() {
    let csv = "dt_ref,codigo_estoque,sku,produto,configuracao,qtd_vendida,is_personalizado\n\
        2026-06-14,,,,,10,false\n";
    assert!(ler_vendas_csv(csv.as_bytes()).is_err());
}

#[test]
fn snapshot_calcula_disponivel_quando_ausente() {
    let csv = "dt_ref,codigo_estoque,sku,produto,configuracao,qtd_estoque,qtd_reserva,qtd_disponivel,estoque_min_erp,fora_de_linha\n\
        2026-06-15,6797,,,,100,30,,,false\n";
    let s = ler_snapshot_csv(csv.as_bytes()).unwrap();
    assert_eq!(s.len(), 1);
    assert_eq!(s[0].qtd_disponivel, 70); // 100 - 30
    assert_eq!(s[0].estoque_min_erp, None);
}

#[test]
fn snapshot_disponivel_inconsistente_falha() {
    // 50 != 100 - 30 -> viola o contrato.
    let csv = "dt_ref,codigo_estoque,sku,produto,configuracao,qtd_estoque,qtd_reserva,qtd_disponivel,estoque_min_erp,fora_de_linha\n\
        2026-06-15,6797,,,,100,30,50,,false\n";
    assert!(ler_snapshot_csv(csv.as_bytes()).is_err());
}

#[test]
fn vendas_campos_e_datas() {
    let v = ler_vendas_csv(VENDAS.as_bytes()).unwrap();
    // 2026-06-14 é o dia 739781 da era comum.
    assert_eq!(v[0].dt_ref.dias, 739781);
    assert_eq!(v[0].sku.as_deref(), Some("SKU1"));
    assert_eq!(v[0].produto.as_deref(), Some("Copo"));
    assert_eq!(v[0].configuracao.as_deref(), Some("COR DO PRODUTO: AZUL"));
    assert!(!v[0].is_personalizado);
    assert_eq!(v[1].qtd_vendida, 3);
}

#[test]
fn vendas_mensagens_de_validacao() {
    let csv = "dt_ref,codigo_estoque,sku,produto,configuracao,qtd_vendida,is_personalizado\n\
        2026-06-14,1,,,,1,false\n\
        2026-06-14, ,,,,1,false\n";
    match ler_vendas_csv(csv.as_bytes()) {
        Err(ErroEtl::Validacao { linha, motivo }) => {
            assert_eq!(linha, 3);
            assert_eq!(motivo, "codigo_estoque vazio");
        }
        outro => panic!("esperava erro de validação: {outro:?}"),
    }
    let csv = "dt_ref,codigo_estoque,sku,produto,configuracao,qtd_vendida,is_personalizado\n\
        2026-06-14,1,,,,-1,false\n";
    match ler_vendas_csv(csv.as_bytes()) {
        Err(ErroEtl::Validacao { linha, motivo }) => {
            assert_eq!(linha, 2);
            assert_eq!(motivo, "qtd_vendida negativa (doc 05 §2.1)");
        }
        outro => panic!("esperava erro de validação: {outro:?}"),
    }
}

#[test]
fn vendas_campo_invalido_e_conversao() {
    let csv = "dt_ref,codigo_estoque,sku,produto,configuracao,qtd_vendida,is_personalizado\n\
        2026-06-14,1,,,,dez,false\n";
    assert!(matches!(ler_vendas_csv(csv.as_bytes()), Err(ErroEtl::Conversao { linha: 2 })));
    let csv = "dt_ref,codigo_estoque,sku,produto,configuracao,qtd_vendida,is_personalizado\n\
        2026-13-40,1,,,,1,false\n";
    assert!(matches!(ler_vendas_csv(csv.as_bytes()), Err(ErroEtl::Conversao { linha: 2 })));
    let csv = "dt_ref,codigo_estoque,sku,produto,configuracao,qtd_vendida,is_personalizado\n\
        2026-06-14,1,,,,1,sim\n";
    assert!(matches!(ler_vendas_csv(csv.as_bytes()), Err(ErroEtl::Conversao { linha: 2 })));
}

#[test]
fn vendas_colunas_opcionais_e_hexadecimal() {
    // Sem sku/produto/configuracao: valem o padrão; colunas extras são ignoradas; 0x é hexadecimal.
    let csv = "is_personalizado,extra,qtd_vendida,codigo_estoque,dt_ref\n\
        true,x,0x1f,77,2026-01-02\n";
    let v = ler_vendas_csv(csv.as_bytes()).unwrap();
    assert_eq!(v.len(), 1);
    assert_eq!(v[0].qtd_vendida, 31);
    assert_eq!(v[0].codigo_estoque, "77");
    assert_eq!(v[0].sku, None);
    assert!(v[0].is_personalizado);
}

#[test]
fn vendas_coluna_obrigatoria_ausente_ou_repetida() {
    let csv = "dt_ref,codigo_estoque,is_personalizado\n2026-01-02,1,false\n";
    assert!(matches!(ler_vendas_csv(csv.as_bytes()), Err(ErroEtl::Conversao { linha: 2 })));
    let csv = "dt_ref,codigo_estoque,codigo_estoque,qtd_vendida,is_personalizado\n\
        2026-01-02,1,2,3,false\n";
    assert!(matches!(ler_vendas_csv(csv.as_bytes()), Err(ErroEtl::Conversao { linha: 2 })));
}

#[test]
fn vendas_registro_malformado() {
    // Um registro com número de campos diferente do cabeçalho é erro de leitura.
    let csv = "dt_ref,codigo_estoque,qtd_vendida,is_personalizado\n2026-01-02,1,3\n";
    assert!(matches!(ler_vendas_csv(csv.as_bytes()), Err(ErroEtl::Leitura { .. })));
}

#[test]
fn vendas_vazio() {
    assert_eq!(ler_vendas_csv(b"").unwrap().len(), 0);
    let so_cabecalho = "dt_ref,codigo_estoque,qtd_vendida,is_personalizado\n";
    assert_eq!(ler_vendas_csv(so_cabecalho.as_bytes()).unwrap().len(), 0);
}

#[test]
fn snapshot_mensagem_inconsistente() {
    let csv = "dt_ref,codigo_estoque,qtd_estoque,qtd_reserva,qtd_disponivel,fora_de_linha\n\
        2026-06-15,6797,100,30,50,false\n";
    match ler_snapshot_csv(csv.as_bytes()) {
        Err(ErroEtl::Validacao { linha, motivo }) => {
            assert_eq!(linha, 2);
            assert_eq!(motivo, "qtd_disponivel (50) != qtd_estoque - qtd_reserva (70)");
        }
        outro => panic!("esperava erro de validação: {outro:?}"),
    }
}

#[test]
fn snapshot_valores_completos() {
    let csv = "dt_ref,codigo_estoque,sku,produto,configuracao,qtd_estoque,qtd_reserva,qtd_disponivel,estoque_min_erp,fora_de_linha\n\
        2026-06-15,10, ,Copo,A:B,5,7,-2,4,true\n";
    let s = ler_snapshot_csv(csv.as_bytes()).unwrap();
    assert_eq!(s[0].sku, None);
    assert_eq!(s[0].produto.as_deref(), Some("Copo"));
    assert_eq!(s[0].qtd_disponivel, -2);
    assert_eq!(s[0].estoque_min_erp, Some(4));
    assert!(s[0].fora_de_linha);
}

#[test]
fn snapshot_conferido_detecta_estouro() {
    let csv = "dt_ref,codigo_estoque,qtd_estoque,qtd_reserva,fora_de_linha\n\
        2026-06-15,1,2147483647,-1,false\n";
    assert!(ler_snapshot_csv_conferido(csv.as_bytes()).is_none());
    let ok = "dt_ref,codigo_estoque,qtd_estoque,qtd_reserva,fora_de_linha\n\
        2026-06-15,1,10,1,false\n";
    let r = ler_snapshot_csv_conferido(ok.as_bytes()).unwrap().unwrap();
    assert_eq!(r[0].qtd_disponivel, 9);
}

#[test]
fn importador_guarda_caminhos() {
    let imp = ImportadorArquivo::novo("v.csv".to_owned(), "s.csv".to_owned());
    assert_eq!(imp.caminho_vendas(), "v.csv");
    assert_eq!(imp.caminho_snapshot(), "s.csv");
}
