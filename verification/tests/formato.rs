use pcp::armazenamento::{gravar, ler, remover, EMAIL_LEMBRADO, REFRESH};
use pcp::formato::{
    cor_status, escala_compacta, fmt_milhar, nome_exibicao, rotulo_status, EscalaCompacta,
};

#[test]
fn milhar_agrupa_de_tres_em_tres() {
    assert_eq!(fmt_milhar(1234567), "1.234.567");
    assert_eq!(fmt_milhar(0), "0");
    assert_eq!(fmt_milhar(999), "999");
    assert_eq!(fmt_milhar(1000), "1.000");
    assert_eq!(fmt_milhar(-1000), "-1.000");
    assert_eq!(fmt_milhar(1_000_001), "1.000.001");
    assert_eq!(fmt_milhar(i64::MIN), "-9.223.372.036.854.775.808");
    assert_eq!(fmt_milhar(i64::MAX), "9.223.372.036.854.775.807");
}

#[test]
fn escala_dos_kpis() {
    assert_eq!(escala_compacta(10_230_601), EscalaCompacta::Milhoes);
    assert_eq!(escala_compacta(-1_000_000), EscalaCompacta::Milhoes);
    assert_eq!(escala_compacta(12_400), EscalaCompacta::Milhares);
    assert_eq!(escala_compacta(9_999), EscalaCompacta::Unidades);
    assert_eq!(escala_compacta(i64::MIN), EscalaCompacta::Milhoes);
}

#[test]
fn cores_e_rotulos_de_status() {
    assert_eq!(cor_status("critico"), "var(--semaforo-critico)");
    assert_eq!(cor_status("sem_estoque"), "var(--semaforo-critico)");
    assert_eq!(cor_status("estoque_baixo"), "var(--semaforo-alto)");
    assert_eq!(cor_status("baixo"), "var(--semaforo-medio)");
    assert_eq!(cor_status("adequado"), "var(--semaforo-ok)");
    assert_eq!(cor_status("excessivo"), "var(--semaforo-info)");
    assert_eq!(cor_status("fora_de_linha"), "var(--abc-d)");
    assert_eq!(rotulo_status("sem_historico"), "Sem histórico");
    assert_eq!(rotulo_status("critico"), "Crítico");
    assert_eq!(rotulo_status("qualquer"), "—");
}

#[test]
fn nome_de_exibicao() {
    assert_eq!(nome_exibicao(Some("Copo"), Some("COR DO PRODUTO: AZUL"), "6797"), "Copo - AZUL");
    assert_eq!(nome_exibicao(Some(""), Some("COR: VERDE :x"), "6797"), "6797 - VERDE");
    assert_eq!(nome_exibicao(None, Some("sem cor"), "6797"), "6797");
    assert_eq!(nome_exibicao(Some("Copo"), Some("COR:   "), "1"), "Copo");
    assert_eq!(nome_exibicao(Some("Copo"), None, "1"), "Copo");
}

#[test]
fn armazenamento_fora_do_navegador() {
    gravar(EMAIL_LEMBRADO, "a@b.com");
    assert_eq!(ler(EMAIL_LEMBRADO), None);
    remover(REFRESH);
    assert_eq!(ler(REFRESH), None);
}
