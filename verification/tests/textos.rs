use pcp::formato::{fmt_data, nome_exibicao_alerta};
use pcp::validacao::email_valido;

#[test]
fn emails_aceitos() {
    assert!(email_valido("nome@empresa.com.br"));
    assert!(email_valido("admin@supercopo.local"));
    assert!(email_valido("  a@b.io  "));
}

#[test]
fn emails_recusados() {
    assert!(!email_valido(""));
    assert!(!email_valido("   "));
    assert!(!email_valido("semarroba.com"));
    assert!(!email_valido("@empresa.com"));
    assert!(!email_valido("a@b@c.com"));
    assert!(!email_valido("a@empresa"));
    assert!(!email_valido("a@.com"));
    assert!(!email_valido("a@empresa.c"));
    assert!(!email_valido("a@empresa.c0m"));
    assert!(!email_valido("a b@empresa.com"));
    assert!(!email_valido("a@empresa.çom"));
}

#[test]
fn data_no_formato_brasileiro() {
    assert_eq!(fmt_data("2026-06-14"), "14/06/2026");
    assert_eq!(fmt_data("2026-06"), "2026-06");
    assert_eq!(fmt_data("sem data"), "sem data");
    assert_eq!(fmt_data("2026-06-14T10:00"), "14T10:00/06/2026");
}

#[test]
fn nome_de_exibicao_do_alerta() {
    assert_eq!(nome_exibicao_alerta(Some("Copo"), Some("COR: AZUL"), "1"), "Copo - AZUL");
    assert_eq!(nome_exibicao_alerta(Some(""), Some("COR: AZUL"), "1"), " - AZUL");
    assert_eq!(nome_exibicao_alerta(None, None, "1"), "1");
}
