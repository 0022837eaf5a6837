use pcp::consulta::{alternar_ordem, aria_ordem};
use pcp::numero::ler_i64;
use pcp::resposta::{desfecho_status, Desfecho, MSG_SESSAO_EXPIRADA};

#[test]
fn desfecho_pelo_status() {
    assert_eq!(desfecho_status(200, true, None, false, "falha"), Desfecho::Corpo);
    assert_eq!(desfecho_status(401, true, None, false, "falha"), Desfecho::Erro(MSG_SESSAO_EXPIRADA.to_owned()));
    assert_eq!(desfecho_status(401, false, None, false, "credenciais inválidas"), Desfecho::Erro("credenciais inválidas".to_owned()));
    assert_eq!(desfecho_status(404, true, None, true, "falha"), Desfecho::Ausente);
    assert_eq!(desfecho_status(404, true, None, false, "falha"), Desfecho::Erro("falha".to_owned()));
    assert_eq!(
        desfecho_status(403, true, Some("apenas gestor pode alterar o estado"), false, "falha"),
        Desfecho::Erro("apenas gestor pode alterar o estado".to_owned())
    );
    assert_eq!(desfecho_status(500, true, None, true, "falha"), Desfecho::Erro("falha".to_owned()));
    assert_eq!(desfecho_status(204, true, None, true, "falha"), Desfecho::Corpo);
}

#[test]
fn cabecalho_alterna_a_ordem() {
    assert_eq!(alternar_ordem("sugerida_desc", "volume"), "volume_asc");
    assert_eq!(alternar_ordem("volume_asc", "volume"), "volume_desc");
    assert_eq!(alternar_ordem("volume_desc", "volume"), "volume_asc");
    assert_eq!(aria_ordem("volume_asc", "volume"), "ascending");
    assert_eq!(aria_ordem("volume_desc", "volume"), "descending");
    assert_eq!(aria_ordem("estoque_asc", "volume"), "none");
}

#[test]
fn inteiro_de_64_bits() {
    assert_eq!(ler_i64("42"), Some(42));
    assert_eq!(ler_i64("+7"), Some(7));
    assert_eq!(ler_i64("-9223372036854775808"), Some(i64::MIN));
    assert_eq!(ler_i64("9223372036854775807"), Some(i64::MAX));
    assert_eq!(ler_i64("9223372036854775808"), None);
    assert_eq!(ler_i64(""), None);
    assert_eq!(ler_i64("-"), None);
    assert_eq!(ler_i64("1a"), None);
    assert_eq!(ler_i64(" 1"), None);
    for s in ["0", "-0", "00012", "+0", "123456789012345678"] {
        assert_eq!(ler_i64(s), s.parse::<i64>().ok());
    }
}
