use pcp::configuracao::{achatar, dividir_caminho, set_path, valor_editado, NoJson};

fn texto(s: &str) -> String {
    s.to_owned()
}

fn exemplo() -> NoJson {
    NoJson::Objeto(vec![
        (texto("abc"), NoJson::Objeto(vec![(texto("a"), NoJson::Numero(texto("0.8"))), (texto("b"), NoJson::Inteiro(95))])),
        (texto("ativo"), NoJson::Booleano(true)),
        (texto("lista"), NoJson::Lista(vec![NoJson::Inteiro(1)])),
        (texto("nome"), NoJson::Texto(texto("PCP"))),
    ])
}

#[test]
fn achatar_da_os_caminhos_das_folhas() {
    let mut out = Vec::new();
    achatar("", &exemplo(), &mut out);
    let caminhos: Vec<&str> = out.iter().map(|(c, _)| c.as_str()).collect();
    assert_eq!(caminhos, vec!["abc.a", "abc.b", "ativo", "nome"]);
    assert_eq!(out[1].1, NoJson::Inteiro(95));
    let mut com_prefixo = Vec::new();
    achatar("cfg", &NoJson::Nulo, &mut com_prefixo);
    assert_eq!(com_prefixo, vec![(texto("cfg"), NoJson::Nulo)]);
}

#[test]
fn caminho_dividido_nos_pontos() {
    assert_eq!(dividir_caminho("abc.a"), vec![texto("abc"), texto("a")]);
    assert_eq!(dividir_caminho("x"), vec![texto("x")]);
    assert_eq!(dividir_caminho(""), vec![texto("")]);
    assert_eq!(dividir_caminho("a..b"), vec![texto("a"), texto(""), texto("b")]);
}

#[test]
fn gravar_num_caminho() {
    let mut v = exemplo();
    set_path(&mut v, "abc.b", NoJson::Inteiro(90));
    let mut out = Vec::new();
    achatar("", &v, &mut out);
    assert_eq!(out[1], (texto("abc.b"), NoJson::Inteiro(90)));
    // chave nova entra em ordem
    set_path(&mut v, "abc.aa", NoJson::Nulo);
    let mut out2 = Vec::new();
    achatar("", &v, &mut out2);
    let caminhos: Vec<&str> = out2.iter().map(|(c, _)| c.as_str()).collect();
    assert_eq!(caminhos, vec!["abc.a", "abc.aa", "abc.b", "ativo", "nome"]);
    // caminho que passa por uma folha ou por chave ausente não muda nada
    let antes = exemplo();
    let mut w = exemplo();
    set_path(&mut w, "nome.x", NoJson::Nulo);
    set_path(&mut w, "falta.x", NoJson::Nulo);
    assert_eq!(w, antes);
    let mut folha = NoJson::Inteiro(1);
    set_path(&mut folha, "a", NoJson::Nulo);
    assert_eq!(folha, NoJson::Inteiro(1));
}

#[test]
fn valor_digitado_no_tipo_da_folha() {
    assert_eq!(valor_editado(&NoJson::Booleano(false), "true"), Some(NoJson::Booleano(true)));
    assert_eq!(valor_editado(&NoJson::Booleano(true), "sim"), Some(NoJson::Booleano(false)));
    assert_eq!(valor_editado(&NoJson::Inteiro(5), "-12"), Some(NoJson::Inteiro(-12)));
    assert_eq!(valor_editado(&NoJson::Inteiro(5), "1.5"), Some(NoJson::Inteiro(5)));
    assert_eq!(valor_editado(&NoJson::Inteiro(5), "9223372036854775808"), Some(NoJson::Inteiro(5)));
    assert_eq!(valor_editado(&NoJson::Texto(texto("a")), "b"), Some(NoJson::Texto(texto("b"))));
    assert_eq!(valor_editado(&NoJson::Nulo, "x"), Some(NoJson::Texto(texto("x"))));
    assert_eq!(valor_editado(&NoJson::Numero(texto("0.5")), "0.7"), None);
}
