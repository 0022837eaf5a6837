use pcp::ciclo_vida::{acoes_da_sugestao, eh_admin, eh_gestor, juntar, textos_da_sugestao};
use pcp::consulta::{parametros_consulta, ConsultaEstoque, FiltroEstoque};
use pcp::exportacao::campo_csv;
use pcp::rotulos::texto_atual;
use pcp::tipos::SugestaoCicloVida;
use pcp::validacao::{
    destino_inicial, erro_email, erro_senha, pode_enviar, MSG_EMAIL_INVALIDO, MSG_EMAIL_VAZIO,
    MSG_SENHA_VAZIA,
};

#[test]
fn campo_csv_entre_aspas_quando_preciso() {
    assert_eq!(campo_csv("Copo"), "Copo");
    assert_eq!(campo_csv("Copo; azul"), "\"Copo; azul\"");
    assert_eq!(campo_csv("Copo \"grande\""), "\"Copo \"\"grande\"\"\"");
    assert_eq!(campo_csv("linha\nnova"), "\"linha\nnova\"");
    assert_eq!(campo_csv(""), "");
}

#[test]
fn parametros_da_consulta_de_estoque() {
    let c = ConsultaEstoque {
        classe: Some("A".to_owned()),
        status: Some(String::new()),
        busca: None,
        ordem: Some("sugerida_desc".to_owned()),
        cobertura_min: Some("15.5".to_owned()),
        cobertura_max: None,
        apenas_sugestao: true,
        apenas_fora_linha: false,
        limite: 50,
        deslocamento: 0,
    };
    let p = parametros_consulta(&c);
    assert_eq!(
        p,
        vec![
            ("classe", "A".to_owned()),
            ("ordem", "sugerida_desc".to_owned()),
            ("cobertura_min", "15.5".to_owned()),
            ("apenas_sugestao", "true".to_owned()),
        ]
    );
    assert_eq!(parametros_consulta(&ConsultaEstoque::default()), Vec::new());
}

#[test]
fn texto_do_seletor() {
    let opcoes = vec![("alta", "Alta"), ("media", "Média"), ("baixa", "Baixa")];
    assert_eq!(texto_atual(&opcoes, "media"), "Média");
    assert_eq!(texto_atual(&opcoes, ""), "Alta");
    assert_eq!(texto_atual(&Vec::new(), "x"), "");
}

#[test]
fn avisos_do_login() {
    assert_eq!(erro_email(false, ""), None);
    assert_eq!(erro_email(true, "  "), Some(MSG_EMAIL_VAZIO));
    assert_eq!(erro_email(true, "nome@"), Some(MSG_EMAIL_INVALIDO));
    assert_eq!(erro_email(true, "nome@empresa.com.br"), None);
    assert_eq!(erro_senha(true, ""), Some(MSG_SENHA_VAZIA));
    assert_eq!(erro_senha(true, " "), None);
    assert_eq!(erro_senha(false, ""), None);
    assert!(pode_enviar("a@b.com", "x"));
    assert!(!pode_enviar("a@b.com", ""));
    assert!(!pode_enviar("a@b", "x"));
    assert_eq!(destino_inicial(Some("estoque")), "/estoque");
    assert_eq!(destino_inicial(None), "/dashboard");
}

#[test]
fn papeis_e_acoes_do_ciclo_de_vida() {
    assert!(eh_gestor(Some("gestor")));
    assert!(eh_gestor(Some("admin")));
    assert!(!eh_gestor(Some("analista")));
    assert!(!eh_gestor(None));
    assert!(eh_admin(Some("admin")));
    assert!(!eh_admin(Some("gestor")));
    assert_eq!(acoes_da_sugestao("em_analise", true), vec![("Aplicar", "aplicada"), ("Recusar", "recusada")]);
    assert_eq!(acoes_da_sugestao("em_analise", false), Vec::new());
    assert_eq!(acoes_da_sugestao("gerada", true), vec![("Analisar", "em_analise")]);
}

#[test]
fn textos_de_uma_sugestao() {
    let s = SugestaoCicloVida {
        id: "1".to_owned(),
        codigo_estoque: "6797".to_owned(),
        acao_sugerida: "sair".to_owned(),
        pontuacao: -3,
        nivel_certeza: "alta".to_owned(),
        criterios: vec!["sem venda".to_owned(), "estoque alto".to_owned()],
        estado: "gerada".to_owned(),
        data_analise: "2026-06-14".to_owned(),
        aplicado_por: None,
        observacoes: None,
    };
    let (a, b) = textos_da_sugestao(&s);
    assert_eq!(a, "6797 — Sair de linha");
    assert_eq!(b, "Pontuação -3 · sem venda, estoque alto");
    assert_eq!(juntar(&Vec::new(), ", "), "");
    assert_eq!(juntar(&vec!["x".to_owned()], ", "), "x");
}

#[test]
fn filtro_padrao_e_consulta() {
    let mut f = FiltroEstoque::default();
    assert_eq!(f.ordem, "sugerida_desc");
    assert_eq!(f.limite, 50);
    assert_eq!(f.deslocamento, 0);
    assert_eq!(f.busca, "");
    f.classe = Some("A".to_owned());
    f.busca = "copo".to_owned();
    let c = f.consulta();
    assert_eq!(c.classe, Some("A".to_owned()));
    assert_eq!(c.busca, Some("copo".to_owned()));
    assert_eq!(c.ordem, Some("sugerida_desc".to_owned()));
    assert_eq!(c.limite, 50);
    assert_eq!(
        parametros_consulta(&c),
        vec![("classe", "A".to_owned()), ("busca", "copo".to_owned()), ("ordem", "sugerida_desc".to_owned())]
    );
}
