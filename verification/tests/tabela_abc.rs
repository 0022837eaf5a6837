use pcp::tabela_abc::{ordem_abc, passa_busca, tabela_abc, ChaveAbc, OrdemAbc};

fn linha(codigo: &str, produto: Option<&str>, classe: &str, status: &str, volume: i64, estoque: i64) -> ChaveAbc {
    ChaveAbc {
        codigo_estoque: codigo.to_owned(),
        produto: produto.map(str::to_owned),
        classe: classe.to_owned(),
        status: status.to_owned(),
        volume_janela: volume,
        estoque_atual: estoque,
    }
}

fn linhas() -> Vec<ChaveAbc> {
    vec![
        linha("6797", Some("Copo Azul"), "A", "adequado", 100, 5),
        linha("6800", Some("Caneca"), "B", "critico", 300, 50),
        linha("7001", None, "A", "baixo", 100, 20),
        linha("COPO-9", Some("Tampa"), "C", "adequado", 10, 50),
    ]
}

#[test]
fn ordem_padrao_e_volume_decrescente_estavel() {
    assert_eq!(tabela_abc(&linhas(), "", None, None, "volume_desc"), vec![1, 0, 2, 3]);
    assert_eq!(tabela_abc(&linhas(), "", None, None, "qualquer"), vec![1, 0, 2, 3]);
    assert_eq!(ordem_abc("xyz"), OrdemAbc::VolumeDesc);
}

#[test]
fn demais_ordens() {
    assert_eq!(tabela_abc(&linhas(), "", None, None, "volume_asc"), vec![3, 0, 2, 1]);
    assert_eq!(tabela_abc(&linhas(), "", None, None, "estoque_desc"), vec![1, 3, 2, 0]);
    assert_eq!(tabela_abc(&linhas(), "", None, None, "estoque_asc"), vec![0, 2, 1, 3]);
    // produto ausente conta como texto vazio, que vem antes de todos
    assert_eq!(tabela_abc(&linhas(), "", None, None, "produto_asc"), vec![2, 1, 0, 3]);
}

#[test]
fn busca_sem_diferenciar_maiusculas() {
    assert_eq!(tabela_abc(&linhas(), "copo", None, None, "volume_desc"), vec![0, 3]);
    assert_eq!(tabela_abc(&linhas(), "CANE", None, None, "volume_desc"), vec![1]);
    assert_eq!(tabela_abc(&linhas(), "nada", None, None, "volume_desc"), Vec::<usize>::new());
    assert!(passa_busca("6797", "copo azul", "azul"));
    assert!(passa_busca("6797", "", ""));
    assert!(!passa_busca("6797", "copo", "tampa"));
}

#[test]
fn filtros_de_classe_e_status() {
    assert_eq!(tabela_abc(&linhas(), "", Some("A"), None, "volume_desc"), vec![0, 2]);
    assert_eq!(tabela_abc(&linhas(), "", Some("A"), Some("baixo"), "volume_desc"), vec![2]);
    assert_eq!(tabela_abc(&linhas(), "", None, Some("adequado"), "estoque_asc"), vec![0, 3]);
    assert_eq!(tabela_abc(&Vec::new(), "x", None, None, "volume_desc"), Vec::<usize>::new());
}
