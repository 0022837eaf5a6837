//! Validação do e-mail digitado no login, feita no próprio sistema (sem depender do navegador).

use vstd::prelude::*;
use vstd::string::StringExecFns;
use crate::texto::{vazio_ao_aparar, 
    achar_primeira, achar_ultima, aparar, caracteres, de_caracteres, eh_espaco, espaco,
    lema_primeira, lema_ultima, limites_aparados, primeira, ultima,
};

verus! {

/// Letra ASCII (`char::is_ascii_alphabetic`).
pub open spec fn letra_ascii(c: char) -> bool {
    ('a' <= c && c <= 'z') || ('A' <= c && c <= 'Z')
}

/// Domínio de e-mail aceito: sem outro `@`, com um ponto depois de um host não vazio, e o que
/// vem depois do último ponto (o TLD) com duas ou mais letras ASCII.
pub open spec fn dominio_valido(d: Seq<char>) -> bool {
    &&& primeira(d, '@') is None
    &&& match ultima(d, '.') {
        Some(q) => {
            &&& q > 0
            &&& d.len() - (q + 1) >= 2
            &&& forall|k: int| q + 1 <= k < d.len() ==> letra_ascii(#[trigger] d[k])
        },
        None => false,
    }
}

/// E-mail aceito: depois de aparado, não vazio, sem espaços, com parte local não vazia antes do
/// primeiro `@` e um domínio válido depois dele. Não exige `.com`: `supercopo.local` e `.com.br`
/// passam.
pub open spec fn email_valido_spec(e: Seq<char>) -> bool {
    let t = aparar(e);
    &&& t.len() > 0
    &&& forall|i: int| 0 <= i < t.len() ==> !eh_espaco(#[trigger] t[i])
    &&& match primeira(t, '@') {
        Some(p) => p > 0 && dominio_valido(t.subrange(p + 1, t.len() as int)),
        None => false,
    }
}

/// Se o TLD `d@[de..]` só tem letras ASCII.
fn so_letras(d: &Vec<char>, de: usize) -> (r: bool)
    requires
        de <= d@.len(),
    ensures
        r == forall|k: int| de <= k < d@.len() ==> letra_ascii(#[trigger] d@[k]),
{
    let mut k = de;
    while k < d.len()
        invariant
            de <= k <= d@.len(),
            forall|m: int| de <= m < k ==> letra_ascii(#[trigger] d@[m]),
        decreases d.len() - k,
    {
        let c = d[k];
        if !(('a' <= c && c <= 'z') || ('A' <= c && c <= 'Z')) {
            assert(!letra_ascii(d@[k as int]));
            return false;
        }
        k = k + 1;
    }
    true
}

/// Se o domínio `d` é aceito.
fn dominio_aceito(d: &Vec<char>) -> (r: bool)
    ensures
        r == dominio_valido(d@),
{
    if achar_primeira(d, '@').is_some() {
        return false;
    }
    match achar_ultima(d, '.') {
        None => false,
        Some(q) => {
            proof {
                lema_ultima(d@, '.');
            }
            if q == 0 {
                return false;
            }
            if d.len() - (q + 1) < 2 {
                return false;
            }
            so_letras(d, q + 1)
        },
    }
}

/// Valida o e-mail: exige parte local, `@`, domínio com ponto e TLD alfabético de 2+ letras, sem
/// espaços.
pub fn email_valido(e: &str) -> (r: bool)
    ensures
        r == email_valido_spec(e@),
{
    let v = caracteres(e);
    let (i, j) = limites_aparados(&v);
    if i == j {
        return false;
    }
    let aparado = de_caracteres(&v, i, j);
    let t = caracteres(aparado.as_str());
    assert(t@ == aparar(e@));
    let mut k: usize = 0;
    while k < t.len()
        invariant
            t@ == aparar(e@),
            k <= t@.len(),
            forall|m: int| 0 <= m < k ==> !eh_espaco(#[trigger] t@[m]),
        decreases t.len() - k,
    {
        if espaco(t[k]) {
            assert(eh_espaco(t@[k as int]));
            return false;
        }
        k = k + 1;
    }
    match achar_primeira(&t, '@') {
        None => false,
        Some(p) => {
            proof {
                lema_primeira(t@, '@');
            }
            if p == 0 {
                return false;
            }
            let dominio = de_caracteres(&t, p + 1, t.len());
            let d = caracteres(dominio.as_str());
            dominio_aceito(&d)
        },
    }
}

/// Aviso do e-mail em branco.
pub const MSG_EMAIL_VAZIO: &'static str = "Informe seu e-mail.";

/// Aviso do e-mail fora do formato.
pub const MSG_EMAIL_INVALIDO: &'static str =
    "Informe um e-mail válido, com @ e domínio (ex.: nome@empresa.com.br).";

/// Aviso da senha em branco.
pub const MSG_SENHA_VAZIA: &'static str = "Informe sua senha.";

/// O aviso do campo de e-mail, que só aparece depois de tentar entrar.
pub open spec fn erro_email_spec(tentou: bool, email: Seq<char>) -> Option<Seq<char>> {
    if !tentou {
        None
    } else if aparar(email).len() == 0 {
        Some(MSG_EMAIL_VAZIO@)
    } else if email_valido_spec(email) {
        None
    } else {
        Some(MSG_EMAIL_INVALIDO@)
    }
}

/// Aviso do campo de e-mail: nenhum antes de tentar entrar; depois, "em branco" ou "inválido".
pub fn erro_email(tentou: bool, email: &str) -> (r: Option<&'static str>)
    ensures
        match r { Some(m) => Some(m@), None => None } == erro_email_spec(tentou, email@),
{
    if !tentou {
        None
    } else if vazio_ao_aparar(email) {
        Some(MSG_EMAIL_VAZIO)
    } else if email_valido(email) {
        None
    } else {
        Some(MSG_EMAIL_INVALIDO)
    }
}

/// Aviso do campo de senha: só depois de tentar entrar, e só se a senha está vazia (a senha não é
/// aparada: espaços podem fazer parte dela).
pub fn erro_senha(tentou: bool, senha: &str) -> (r: Option<&'static str>)
    ensures
        match r { Some(m) => Some(m@), None => None } == (if tentou && senha@.len() == 0 {
            Some(MSG_SENHA_VAZIA@)
        } else {
            None
        }),
{
    if tentou && senha.is_empty() {
        Some(MSG_SENHA_VAZIA)
    } else {
        None
    }
}

/// O clique em "Entrar" envia o formulário: e-mail válido e senha não vazia.
pub fn pode_enviar(email: &str, senha: &str) -> (r: bool)
    ensures
        r == (email_valido_spec(email@) && senha@.len() > 0),
{
    email_valido(email) && !senha.is_empty()
}

/// O formulário só é enviado quando, depois de tentar, nenhum campo mostra aviso: a validação do
/// clique e as mensagens mostradas nunca discordam.
pub proof fn lei_envio_sem_avisos(email: Seq<char>, senha: Seq<char>)
    ensures
        (email_valido_spec(email) && senha.len() > 0) <==> (erro_email_spec(true, email) is None
            && !(senha.len() == 0)),
{
}

/// Caminho da página inicial depois do login: a preferida do usuário, ou o dashboard se as
/// preferências não puderam ser lidas.
pub fn destino_inicial(pagina_inicial: Option<&str>) -> (r: String)
    ensures
        r@ == "/"@ + match pagina_inicial { Some(p) => p@, None => "dashboard"@ },
{
    let mut s = String::from_str("/");
    match pagina_inicial {
        Some(p) => s.append(p),
        None => s.append("dashboard"),
    }
    s
}

} // verus!
