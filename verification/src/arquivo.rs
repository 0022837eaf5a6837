//! Importação dos dados de entrada a partir de CSV: vendas diárias e snapshot de estoque. Cada
//! registro é convertido nos campos do contrato e validado antes de virar um registro de
//! entrada; o primeiro problema, na ordem das linhas, interrompe a leitura.

use vstd::prelude::*;
use crate::data::Data;
use crate::decodificacao::{
    decodificar, decodificar_registro, vista_campos, Campo, CampoV, Tipo, Valor, ValorV,
};
use crate::erro::{ErroEtl, ErroEtlV};
use crate::leitura_csv::{ler_tabela_csv, leitura_csv, vista_registro, TabelaCsv};
use crate::texto::{decimal, so_espacos, texto_decimal, vazio_ao_aparar};
use vstd::string::StringExecFns;

verus! {

/// Importador dos dados de entrada a partir de dois arquivos CSV (vendas e snapshot).
pub struct ImportadorArquivo {
    caminho_vendas: String,
    caminho_snapshot: String,
}

impl ImportadorArquivo {
    /// Cria o importador a partir dos caminhos dos CSV de vendas e de snapshot.
    pub fn novo(caminho_vendas: String, caminho_snapshot: String) -> (r: ImportadorArquivo)
        ensures
            r.vendas_spec() == caminho_vendas@,
            r.snapshot_spec() == caminho_snapshot@,
    {
        ImportadorArquivo { caminho_vendas, caminho_snapshot }
    }

    pub closed spec fn vendas_spec(&self) -> Seq<char> {
        self.caminho_vendas@
    }

    pub closed spec fn snapshot_spec(&self) -> Seq<char> {
        self.caminho_snapshot@
    }

    /// Caminho do CSV de vendas.
    pub fn caminho_vendas(&self) -> (r: &str)
        ensures
            r@ == self.vendas_spec(),
    {
        self.caminho_vendas.as_str()
    }

    /// Caminho do CSV de snapshot.
    pub fn caminho_snapshot(&self) -> (r: &str)
        ensures
            r@ == self.snapshot_spec(),
    {
        self.caminho_snapshot.as_str()
    }
}

/// Venda consolidada de um produto num dia (uma linha do CSV de vendas).
#[derive(Debug)]
pub struct NovaVendaDia {
    pub dt_ref: Data,
    pub codigo_estoque: String,
    pub sku: Option<String>,
    pub produto: Option<String>,
    pub configuracao: Option<String>,
    pub qtd_vendida: i32,
    pub is_personalizado: bool,
}

/// Posição de estoque de um produto num dia (uma linha do CSV de snapshot).
#[derive(Debug)]
pub struct NovoEstoqueSnapshot {
    pub dt_ref: Data,
    pub codigo_estoque: String,
    pub sku: Option<String>,
    pub produto: Option<String>,
    pub configuracao: Option<String>,
    pub qtd_estoque: i32,
    pub qtd_reserva: i32,
    pub qtd_disponivel: i32,
    pub estoque_min_erp: Option<i32>,
    pub fora_de_linha: bool,
}

/// Modelo de [`NovaVendaDia`].
pub struct VendaV {
    pub dt_ref: int,
    pub codigo_estoque: Seq<char>,
    pub sku: Option<Seq<char>>,
    pub produto: Option<Seq<char>>,
    pub configuracao: Option<Seq<char>>,
    pub qtd_vendida: int,
    pub is_personalizado: bool,
}

/// Modelo de [`NovoEstoqueSnapshot`].
pub struct SnapshotV {
    pub dt_ref: int,
    pub codigo_estoque: Seq<char>,
    pub sku: Option<Seq<char>>,
    pub produto: Option<Seq<char>>,
    pub configuracao: Option<Seq<char>>,
    pub qtd_estoque: int,
    pub qtd_reserva: int,
    pub qtd_disponivel: int,
    pub estoque_min_erp: Option<int>,
    pub fora_de_linha: bool,
}

pub open spec fn vista_texto_opcional(o: Option<String>) -> Option<Seq<char>> {
    match o {
        Some(t) => Some(t@),
        None => None,
    }
}

pub open spec fn vista_inteiro_opcional(o: Option<i32>) -> Option<int> {
    match o {
        Some(v) => Some(v as int),
        None => None,
    }
}

impl View for NovaVendaDia {
    type V = VendaV;

    open spec fn view(&self) -> VendaV {
        VendaV {
            dt_ref: self.dt_ref.dias as int,
            codigo_estoque: self.codigo_estoque@,
            sku: vista_texto_opcional(self.sku),
            produto: vista_texto_opcional(self.produto),
            configuracao: vista_texto_opcional(self.configuracao),
            qtd_vendida: self.qtd_vendida as int,
            is_personalizado: self.is_personalizado,
        }
    }
}

impl View for NovoEstoqueSnapshot {
    type V = SnapshotV;

    open spec fn view(&self) -> SnapshotV {
        SnapshotV {
            dt_ref: self.dt_ref.dias as int,
            codigo_estoque: self.codigo_estoque@,
            sku: vista_texto_opcional(self.sku),
            produto: vista_texto_opcional(self.produto),
            configuracao: vista_texto_opcional(self.configuracao),
            qtd_estoque: self.qtd_estoque as int,
            qtd_reserva: self.qtd_reserva as int,
            qtd_disponivel: self.qtd_disponivel as int,
            estoque_min_erp: vista_inteiro_opcional(self.estoque_min_erp),
            fora_de_linha: self.fora_de_linha,
        }
    }
}

/// Modelo do resultado da leitura de vendas.
pub open spec fn vista_vendas(r: Result<Vec<NovaVendaDia>, ErroEtl>) -> Result<Seq<VendaV>, ErroEtlV> {
    match r {
        Ok(v) => Ok(v@.map_values(|x: NovaVendaDia| x@)),
        Err(e) => Err(e@),
    }
}

/// Modelo do resultado da leitura de snapshots.
pub open spec fn vista_snapshots(r: Result<Vec<NovoEstoqueSnapshot>, ErroEtl>) -> Result<Seq<SnapshotV>, ErroEtlV> {
    match r {
        Ok(v) => Ok(v@.map_values(|x: NovoEstoqueSnapshot| x@)),
        Err(e) => Err(e@),
    }
}

/// Texto em branco (só espaços) vira ausência; os demais ficam como estão.
pub open spec fn vazio_para_none_v(t: Seq<char>) -> Option<Seq<char>> {
    if so_espacos(t) {
        None
    } else {
        Some(t)
    }
}

/// Texto em branco (só espaços) vira `None`; os demais ficam como estão, sem aparar.
pub fn vazio_para_none(texto: String) -> (r: Option<String>)
    ensures
        vista_texto_opcional(r) == vazio_para_none_v(texto@),
{
    if vazio_ao_aparar(texto.as_str()) {
        None
    } else {
        Some(texto)
    }
}

/// Exige código de estoque não em branco; o erro aponta a `linha`.
pub fn validar_codigo(codigo: &str, linha: usize) -> (r: Result<(), ErroEtl>)
    ensures
        r is Ok <==> !so_espacos(codigo@),
        r matches Err(e) ==> e@ == (ErroEtlV::Validacao { linha: linha as int, motivo: "codigo_estoque vazio"@ }),
{
    if vazio_ao_aparar(codigo) {
        Err(ErroEtl::Validacao { linha, motivo: String::from_str("codigo_estoque vazio") })
    } else {
        Ok(())
    }
}

pub open spec fn data_de(v: ValorV) -> int {
    match v {
        ValorV::Data(d) => d,
        _ => arbitrary(),
    }
}

pub open spec fn texto_de(v: ValorV) -> Seq<char> {
    match v {
        ValorV::Texto(t) => t,
        _ => arbitrary(),
    }
}

pub open spec fn inteiro_de(v: ValorV) -> int {
    match v {
        ValorV::Inteiro(n) => n,
        _ => arbitrary(),
    }
}

pub open spec fn booleano_de(v: ValorV) -> bool {
    match v {
        ValorV::Booleano(b) => b,
        _ => arbitrary(),
    }
}

pub open spec fn opcional_de(v: ValorV) -> Option<int> {
    match v {
        ValorV::InteiroOpcional(o) => o,
        _ => arbitrary(),
    }
}

/// O tipo de um valor modelo.
pub open spec fn tipo_de(v: ValorV) -> Tipo {
    match v {
        ValorV::Data(_) => Tipo::Data,
        ValorV::Texto(_) => Tipo::Texto,
        ValorV::Inteiro(_) => Tipo::Inteiro,
        ValorV::Booleano(_) => Tipo::Booleano,
        ValorV::InteiroOpcional(_) => Tipo::InteiroOpcional,
    }
}

/// Os valores decodificados têm o tipo declarado do seu campo.
proof fn lema_tipos(campos: Seq<CampoV>, cab: Option<Seq<Seq<char>>>, r: Seq<Seq<char>>)
    ensures
        decodificar(campos, cab, r) matches Some(vals) ==> vals.len() == campos.len() && forall|i: int|
            0 <= i < campos.len() ==> tipo_de(#[trigger] vals[i]) == campos[i].tipo,
{
}

/// Campos do CSV de vendas, na ordem da struct de leitura.
pub open spec fn campos_venda_v() -> Seq<CampoV> {
    seq![
        CampoV { nome: "dt_ref"@, tipo: Tipo::Data, padrao: false },
        CampoV { nome: "codigo_estoque"@, tipo: Tipo::Texto, padrao: false },
        CampoV { nome: "sku"@, tipo: Tipo::Texto, padrao: true },
        CampoV { nome: "produto"@, tipo: Tipo::Texto, padrao: true },
        CampoV { nome: "configuracao"@, tipo: Tipo::Texto, padrao: true },
        CampoV { nome: "qtd_vendida"@, tipo: Tipo::Inteiro, padrao: false },
        CampoV { nome: "is_personalizado"@, tipo: Tipo::Booleano, padrao: false },
    ]
}

/// Campos do CSV de snapshot, na ordem da struct de leitura.
pub open spec fn campos_snapshot_v() -> Seq<CampoV> {
    seq![
        CampoV { nome: "dt_ref"@, tipo: Tipo::Data, padrao: false },
        CampoV { nome: "codigo_estoque"@, tipo: Tipo::Texto, padrao: false },
        CampoV { nome: "sku"@, tipo: Tipo::Texto, padrao: true },
        CampoV { nome: "produto"@, tipo: Tipo::Texto, padrao: true },
        CampoV { nome: "configuracao"@, tipo: Tipo::Texto, padrao: true },
        CampoV { nome: "qtd_estoque"@, tipo: Tipo::Inteiro, padrao: false },
        CampoV { nome: "qtd_reserva"@, tipo: Tipo::Inteiro, padrao: false },
        CampoV { nome: "qtd_disponivel"@, tipo: Tipo::InteiroOpcional, padrao: true },
        CampoV { nome: "estoque_min_erp"@, tipo: Tipo::InteiroOpcional, padrao: true },
        CampoV { nome: "fora_de_linha"@, tipo: Tipo::Booleano, padrao: false },
    ]
}

fn campos_venda() -> (c: Vec<Campo>)
    ensures
        vista_campos(c@) == campos_venda_v(),
{
    let c = vec![
        Campo { nome: "dt_ref", tipo: Tipo::Data, padrao: false },
        Campo { nome: "codigo_estoque", tipo: Tipo::Texto, padrao: false },
        Campo { nome: "sku", tipo: Tipo::Texto, padrao: true },
        Campo { nome: "produto", tipo: Tipo::Texto, padrao: true },
        Campo { nome: "configuracao", tipo: Tipo::Texto, padrao: true },
        Campo { nome: "qtd_vendida", tipo: Tipo::Inteiro, padrao: false },
        Campo { nome: "is_personalizado", tipo: Tipo::Booleano, padrao: false },
    ];
    assert(vista_campos(c@) =~= campos_venda_v());
    c
}

fn campos_snapshot() -> (c: Vec<Campo>)
    ensures
        vista_campos(c@) == campos_snapshot_v(),
{
    let c = vec![
        Campo { nome: "dt_ref", tipo: Tipo::Data, padrao: false },
        Campo { nome: "codigo_estoque", tipo: Tipo::Texto, padrao: false },
        Campo { nome: "sku", tipo: Tipo::Texto, padrao: true },
        Campo { nome: "produto", tipo: Tipo::Texto, padrao: true },
        Campo { nome: "configuracao", tipo: Tipo::Texto, padrao: true },
        Campo { nome: "qtd_estoque", tipo: Tipo::Inteiro, padrao: false },
        Campo { nome: "qtd_reserva", tipo: Tipo::Inteiro, padrao: false },
        Campo { nome: "qtd_disponivel", tipo: Tipo::InteiroOpcional, padrao: true },
        Campo { nome: "estoque_min_erp", tipo: Tipo::InteiroOpcional, padrao: true },
        Campo { nome: "fora_de_linha", tipo: Tipo::Booleano, padrao: false },
    ];
    assert(vista_campos(c@) =~= campos_snapshot_v());
    c
}

/// Resultado da `i`-ésima linha de dados (linha `i + 2` do arquivo) do CSV de vendas.
pub open spec fn linha_venda(
    cab: Option<Seq<Seq<char>>>,
    item: Result<Seq<Seq<char>>, Seq<char>>,
    i: int,
) -> Result<VendaV, ErroEtlV> {
    match item {
        Err(m) => Err(ErroEtlV::Leitura { motivo: m }),
        Ok(r) => match decodificar(campos_venda_v(), cab, r) {
            None => Err(ErroEtlV::Conversao { linha: i + 2 }),
            Some(vals) => if so_espacos(texto_de(vals[1])) {
                Err(ErroEtlV::Validacao { linha: i + 2, motivo: "codigo_estoque vazio"@ })
            } else if inteiro_de(vals[5]) < 0 {
                Err(ErroEtlV::Validacao { linha: i + 2, motivo: "qtd_vendida negativa (doc 05 §2.1)"@ })
            } else {
                Ok(VendaV {
                    dt_ref: data_de(vals[0]),
                    codigo_estoque: texto_de(vals[1]),
                    sku: vazio_para_none_v(texto_de(vals[2])),
                    produto: vazio_para_none_v(texto_de(vals[3])),
                    configuracao: vazio_para_none_v(texto_de(vals[4])),
                    qtd_vendida: inteiro_de(vals[5]),
                    is_personalizado: booleano_de(vals[6]),
                })
            },
        },
    }
}

/// Vendas das `n` primeiras linhas de dados, ou o primeiro erro entre elas.
pub open spec fn vendas_ate(
    cab: Option<Seq<Seq<char>>>,
    regs: Seq<Result<Seq<Seq<char>>, Seq<char>>>,
    n: int,
) -> Result<Seq<VendaV>, ErroEtlV>
    decreases n,
{
    if n <= 0 {
        Ok(Seq::empty())
    } else {
        match vendas_ate(cab, regs, n - 1) {
            Err(e) => Err(e),
            Ok(vs) => match linha_venda(cab, regs[n - 1], n - 1) {
                Err(e) => Err(e),
                Ok(v) => Ok(vs.push(v)),
            },
        }
    }
}

/// Vendas de uma tabela lida, ou o primeiro erro na ordem das linhas.
pub open spec fn vendas_da_tabela(
    t: (Option<Seq<Seq<char>>>, Seq<Result<Seq<Seq<char>>, Seq<char>>>),
) -> Result<Seq<VendaV>, ErroEtlV> {
    vendas_ate(t.0, t.1, t.1.len() as int)
}

/// Mensagem do snapshot cujo disponível não bate com estoque − reserva.
pub open spec fn mensagem_disponivel(disponivel: int, esperado: int) -> Seq<char> {
    "qtd_disponivel ("@ + decimal(disponivel) + ") != qtd_estoque - qtd_reserva ("@ + decimal(esperado) + ")"@
}

/// Resultado da `i`-ésima linha de dados do CSV de snapshot; `None` quando estoque − reserva
/// não cabe em `i32` (a conta do contrato estoura).
pub open spec fn linha_snapshot(
    cab: Option<Seq<Seq<char>>>,
    item: Result<Seq<Seq<char>>, Seq<char>>,
    i: int,
) -> Option<Result<SnapshotV, ErroEtlV>> {
    match item {
        Err(m) => Some(Err(ErroEtlV::Leitura { motivo: m })),
        Ok(r) => match decodificar(campos_snapshot_v(), cab, r) {
            None => Some(Err(ErroEtlV::Conversao { linha: i + 2 })),
            Some(vals) => if so_espacos(texto_de(vals[1])) {
                Some(Err(ErroEtlV::Validacao { linha: i + 2, motivo: "codigo_estoque vazio"@ }))
            } else {
                let esperado = inteiro_de(vals[5]) - inteiro_de(vals[6]);
                if !(i32::MIN <= esperado <= i32::MAX) {
                    None
                } else {
                    let disponivel = match opcional_de(vals[7]) {
                        Some(d) => d,
                        None => esperado,
                    };
                    if disponivel != esperado {
                        Some(Err(ErroEtlV::Validacao { linha: i + 2, motivo: mensagem_disponivel(disponivel, esperado) }))
                    } else {
                        Some(Ok(SnapshotV {
                            dt_ref: data_de(vals[0]),
                            codigo_estoque: texto_de(vals[1]),
                            sku: vazio_para_none_v(texto_de(vals[2])),
                            produto: vazio_para_none_v(texto_de(vals[3])),
                            configuracao: vazio_para_none_v(texto_de(vals[4])),
                            qtd_estoque: inteiro_de(vals[5]),
                            qtd_reserva: inteiro_de(vals[6]),
                            qtd_disponivel: disponivel,
                            estoque_min_erp: opcional_de(vals[8]),
                            fora_de_linha: booleano_de(vals[9]),
                        }))
                    }
                }
            },
        },
    }
}

/// Snapshots das `n` primeiras linhas de dados, ou o primeiro erro entre elas; `None` se a
/// conta estoque − reserva estoura antes de qualquer erro.
pub open spec fn snapshots_ate(
    cab: Option<Seq<Seq<char>>>,
    regs: Seq<Result<Seq<Seq<char>>, Seq<char>>>,
    n: int,
) -> Option<Result<Seq<SnapshotV>, ErroEtlV>>
    decreases n,
{
    if n <= 0 {
        Some(Ok(Seq::empty()))
    } else {
        match snapshots_ate(cab, regs, n - 1) {
            None => None,
            Some(Err(e)) => Some(Err(e)),
            Some(Ok(vs)) => match linha_snapshot(cab, regs[n - 1], n - 1) {
                None => None,
                Some(Err(e)) => Some(Err(e)),
                Some(Ok(v)) => Some(Ok(vs.push(v))),
            },
        }
    }
}

/// Snapshots de uma tabela lida (ver [`snapshots_ate`]).
pub open spec fn snapshots_da_tabela(
    t: (Option<Seq<Seq<char>>>, Seq<Result<Seq<Seq<char>>, Seq<char>>>),
) -> Option<Result<Seq<SnapshotV>, ErroEtlV>> {
    snapshots_ate(t.0, t.1, t.1.len() as int)
}

fn tomar_data(v: Valor) -> (d: Data)
    requires
        tipo_de(v@) == Tipo::Data,
    ensures
        d.dias as int == data_de(v@),
{
    match v {
        Valor::Data(d) => d,
        _ => {
            proof {
                assert(false);
            }
            Data { dias: 0 }
        },
    }
}

fn tomar_texto(v: Valor) -> (t: String)
    requires
        tipo_de(v@) == Tipo::Texto,
    ensures
        t@ == texto_de(v@),
{
    match v {
        Valor::Texto(t) => t,
        _ => {
            proof {
                assert(false);
            }
            String::new()
        },
    }
}

fn tomar_inteiro(v: Valor) -> (n: i32)
    requires
        tipo_de(v@) == Tipo::Inteiro,
    ensures
        n as int == inteiro_de(v@),
{
    match v {
        Valor::Inteiro(n) => n,
        _ => {
            proof {
                assert(false);
            }
            0
        },
    }
}

fn tomar_booleano(v: Valor) -> (b: bool)
    requires
        tipo_de(v@) == Tipo::Booleano,
    ensures
        b == booleano_de(v@),
{
    match v {
        Valor::Booleano(b) => b,
        _ => {
            proof {
                assert(false);
            }
            false
        },
    }
}

fn tomar_opcional(v: Valor) -> (o: Option<i32>)
    requires
        tipo_de(v@) == Tipo::InteiroOpcional,
    ensures
        vista_inteiro_opcional(o) == opcional_de(v@),
{
    match v {
        Valor::InteiroOpcional(o) => o,
        _ => {
            proof {
                assert(false);
            }
            None
        },
    }
}

/// Retira o último valor de `vals`.
fn retirar(vals: &mut Vec<Valor>) -> (v: Valor)
    requires
        old(vals)@.len() > 0,
    ensures
        v == old(vals)@.last(),
        final(vals)@ == old(vals)@.drop_last(),
{
    match vals.pop() {
        Some(v) => v,
        None => {
            proof {
                assert(false);
            }
            Valor::Booleano(false)
        },
    }
}

/// Converte e valida a `i`-ésima linha de dados de vendas.
fn processar_linha_venda(
    campos: &Vec<Campo>,
    cab: &Option<Vec<String>>,
    item: &Result<Vec<String>, String>,
    i: usize,
) -> (r: Result<NovaVendaDia, ErroEtl>)
    requires
        vista_campos(campos@) == campos_venda_v(),
        i <= isize::MAX,
    ensures
        match r {
            Ok(v) => linha_venda(
                match cab { Some(h) => Some(h.deep_view()), None => None },
                vista_registro(*item),
                i as int,
            ) == Ok::<VendaV, ErroEtlV>(v@),
            Err(e) => linha_venda(
                match cab { Some(h) => Some(h.deep_view()), None => None },
                vista_registro(*item),
                i as int,
            ) == Err::<VendaV, ErroEtlV>(e@),
        },
{
    let ghost cabv: Option<Seq<Seq<char>>> = match cab { Some(h) => Some(h.deep_view()), None => None };
    let linha = i + 2;
    match item {
        Err(m) => Err(ErroEtl::Leitura { motivo: m.clone() }),
        Ok(reg) => {
            match decodificar_registro(campos, cab, reg) {
                None => Err(ErroEtl::Conversao { linha }),
                Some(vals) => {
                    let ghost vv = vals@.map_values(|v: Valor| v@);
                    proof {
                        lema_tipos(campos_venda_v(), cabv, reg.deep_view());
                        assert(vv[6] == vals@[6]@);
                        assert(vv[5] == vals@[5]@);
                        assert(vv[4] == vals@[4]@);
                        assert(vv[3] == vals@[3]@);
                        assert(vv[2] == vals@[2]@);
                        assert(vv[1] == vals@[1]@);
                        assert(vv[0] == vals@[0]@);
                    }
                    let mut vals = vals;
                    let v6 = retirar(&mut vals);
                    let v5 = retirar(&mut vals);
                    let v4 = retirar(&mut vals);
                    let v3 = retirar(&mut vals);
                    let v2 = retirar(&mut vals);
                    let v1 = retirar(&mut vals);
                    let v0 = retirar(&mut vals);
                    let is_personalizado = tomar_booleano(v6);
                    let qtd_vendida = tomar_inteiro(v5);
                    let configuracao = tomar_texto(v4);
                    let produto = tomar_texto(v3);
                    let sku = tomar_texto(v2);
                    let codigo_estoque = tomar_texto(v1);
                    let dt_ref = tomar_data(v0);
                    match validar_codigo(codigo_estoque.as_str(), linha) {
                        Err(e) => {
                            return Err(e);
                        },
                        Ok(()) => {},
                    }
                    if qtd_vendida < 0 {
                        return Err(ErroEtl::Validacao {
                            linha,
                            motivo: String::from_str("qtd_vendida negativa (doc 05 §2.1)"),
                        });
                    }
                    Ok(NovaVendaDia {
                        dt_ref,
                        codigo_estoque,
                        sku: vazio_para_none(sku),
                        produto: vazio_para_none(produto),
                        configuracao: vazio_para_none(configuracao),
                        qtd_vendida,
                        is_personalizado,
                    })
                },
            }
        },
    }
}

/// Vendas de uma tabela de CSV já lida: converte e valida as linhas em ordem e devolve todas,
/// ou o primeiro erro (de leitura, de conversão ou de validação).
pub fn vendas_de_tabela(t: &TabelaCsv) -> (r: Result<Vec<NovaVendaDia>, ErroEtl>)
    requires
        t.registros@.len() <= isize::MAX,
    ensures
        vista_vendas(r) == vendas_da_tabela(t.vista()),
{
    let campos = campos_venda();
    let ghost cabv = t.vista().0;
    let ghost regs = t.vista().1;
    let mut vendas: Vec<NovaVendaDia> = Vec::new();
    assert(vendas@.map_values(|x: NovaVendaDia| x@) =~= Seq::<VendaV>::empty());
    let mut i: usize = 0;
    while i < t.registros.len()
        invariant
            vista_campos(campos@) == campos_venda_v(),
            cabv == t.vista().0,
            regs == t.vista().1,
            t.registros@.len() <= isize::MAX,
            i <= t.registros@.len(),
            vendas_ate(cabv, regs, i as int) == Ok::<Seq<VendaV>, ErroEtlV>(vendas@.map_values(|x: NovaVendaDia| x@)),
        decreases t.registros.len() - i,
    {
        assert(regs[i as int] == vista_registro(t.registros@[i as int]));
        match processar_linha_venda(&campos, &t.cabecalho, &t.registros[i], i) {
            Err(e) => {
                proof {
                    assert(vendas_ate(cabv, regs, i + 1) == Err::<Seq<VendaV>, ErroEtlV>(e@));
                    lema_vendas_erro_persiste(cabv, regs, i + 1, regs.len() as int);
                }
                return Err(e);
            },
            Ok(v) => {
                let ghost antes = vendas@.map_values(|x: NovaVendaDia| x@);
                vendas.push(v);
                assert(vendas@.map_values(|x: NovaVendaDia| x@) =~= antes.push(v@));
            },
        }
        i = i + 1;
    }
    Ok(vendas)
}

proof fn lema_vendas_erro_persiste(
    cab: Option<Seq<Seq<char>>>,
    regs: Seq<Result<Seq<Seq<char>>, Seq<char>>>,
    n: int,
    m: int,
)
    requires
        0 < n <= m,
        vendas_ate(cab, regs, n) is Err,
    ensures
        vendas_ate(cab, regs, m) == vendas_ate(cab, regs, n),
    decreases m - n,
{
    if n < m {
        lema_vendas_erro_persiste(cab, regs, n, m - 1);
    }
}

/// Lê o CSV de vendas (cabeçalho + uma venda por linha) e valida o contrato: código de estoque
/// não em branco e quantidade vendida não negativa. Devolve as vendas na ordem do arquivo ou
/// o primeiro erro.
pub fn ler_vendas_csv(conteudo: &[u8]) -> (r: Result<Vec<NovaVendaDia>, ErroEtl>)
    ensures
        vista_vendas(r) == vendas_da_tabela(leitura_csv(conteudo@)),
{
    let t = ler_tabela_csv(conteudo);
    vendas_de_tabela(&t)
}

/// Mensagem do snapshot cujo disponível não bate com estoque − reserva.
fn texto_mensagem_disponivel(disponivel: i64, esperado: i64) -> (m: String)
    ensures
        m@ == mensagem_disponivel(disponivel as int, esperado as int),
{
    let mut m = String::from_str("qtd_disponivel (");
    let d = texto_decimal(disponivel);
    m.append(d.as_str());
    m.append(") != qtd_estoque - qtd_reserva (");
    let e = texto_decimal(esperado);
    m.append(e.as_str());
    m.append(")");
    m
}

/// Converte e valida a `i`-ésima linha de dados de snapshot; `None` quando estoque − reserva
/// não cabe em `i32`.
fn processar_linha_snapshot(
    campos: &Vec<Campo>,
    cab: &Option<Vec<String>>,
    item: &Result<Vec<String>, String>,
    i: usize,
) -> (r: Option<Result<NovoEstoqueSnapshot, ErroEtl>>)
    requires
        vista_campos(campos@) == campos_snapshot_v(),
        i <= isize::MAX,
    ensures
        linha_snapshot(
            match cab { Some(h) => Some(h.deep_view()), None => None },
            vista_registro(*item),
            i as int,
        ) == match r {
            None => None,
            Some(Ok(v)) => Some(Ok::<SnapshotV, ErroEtlV>(v@)),
            Some(Err(e)) => Some(Err::<SnapshotV, ErroEtlV>(e@)),
        },
{
    let ghost cabv: Option<Seq<Seq<char>>> = match cab { Some(h) => Some(h.deep_view()), None => None };
    let linha = i + 2;
    match item {
        Err(m) => Some(Err(ErroEtl::Leitura { motivo: m.clone() })),
        Ok(reg) => {
            match decodificar_registro(campos, cab, reg) {
                None => Some(Err(ErroEtl::Conversao { linha })),
                Some(vals) => {
                    let ghost vv = vals@.map_values(|v: Valor| v@);
                    proof {
                        lema_tipos(campos_snapshot_v(), cabv, reg.deep_view());
                        assert(vv[9] == vals@[9]@);
                        assert(vv[8] == vals@[8]@);
                        assert(vv[7] == vals@[7]@);
                        assert(vv[6] == vals@[6]@);
                        assert(vv[5] == vals@[5]@);
                        assert(vv[4] == vals@[4]@);
                        assert(vv[3] == vals@[3]@);
                        assert(vv[2] == vals@[2]@);
                        assert(vv[1] == vals@[1]@);
                        assert(vv[0] == vals@[0]@);
                    }
                    let mut vals = vals;
                    let v9 = retirar(&mut vals);
                    let v8 = retirar(&mut vals);
                    let v7 = retirar(&mut vals);
                    let v6 = retirar(&mut vals);
                    let v5 = retirar(&mut vals);
                    let v4 = retirar(&mut vals);
                    let v3 = retirar(&mut vals);
                    let v2 = retirar(&mut vals);
                    let v1 = retirar(&mut vals);
                    let v0 = retirar(&mut vals);
                    let fora_de_linha = tomar_booleano(v9);
                    let estoque_min_erp = tomar_opcional(v8);
                    let qtd_disponivel = tomar_opcional(v7);
                    let qtd_reserva = tomar_inteiro(v6);
                    let qtd_estoque = tomar_inteiro(v5);
                    let configuracao = tomar_texto(v4);
                    let produto = tomar_texto(v3);
                    let sku = tomar_texto(v2);
                    let codigo_estoque = tomar_texto(v1);
                    let dt_ref = tomar_data(v0);
                    match validar_codigo(codigo_estoque.as_str(), linha) {
                        Err(e) => {
                            return Some(Err(e));
                        },
                        Ok(()) => {},
                    }
                    let esperado: i64 = (qtd_estoque as i64) - (qtd_reserva as i64);
                    if esperado < i32::MIN as i64 || esperado > i32::MAX as i64 {
                        return None;
                    }
                    let disponivel: i64 = match qtd_disponivel {
                        Some(d) => d as i64,
                        None => esperado,
                    };
                    if disponivel != esperado {
                        return Some(Err(ErroEtl::Validacao {
                            linha,
                            motivo: texto_mensagem_disponivel(disponivel, esperado),
                        }));
                    }
                    Some(Ok(NovoEstoqueSnapshot {
                        dt_ref,
                        codigo_estoque,
                        sku: vazio_para_none(sku),
                        produto: vazio_para_none(produto),
                        configuracao: vazio_para_none(configuracao),
                        qtd_estoque,
                        qtd_reserva,
                        qtd_disponivel: disponivel as i32,
                        estoque_min_erp,
                        fora_de_linha,
                    }))
                },
            }
        },
    }
}

proof fn lema_snapshots_para(
    cab: Option<Seq<Seq<char>>>,
    regs: Seq<Result<Seq<Seq<char>>, Seq<char>>>,
    n: int,
    m: int,
)
    requires
        0 < n <= m,
        !(snapshots_ate(cab, regs, n) matches Some(Ok(_))),
    ensures
        snapshots_ate(cab, regs, m) == snapshots_ate(cab, regs, n),
    decreases m - n,
{
    if n < m {
        lema_snapshots_para(cab, regs, n, m - 1);
    }
}

/// Snapshots de uma tabela de CSV já lida: converte e valida as linhas em ordem e devolve
/// `Some` com todos os snapshots ou com o primeiro erro; `None` se antes de qualquer erro
/// aparece uma linha cujo estoque − reserva não cabe em `i32`.
pub fn snapshots_de_tabela(t: &TabelaCsv) -> (r: Option<Result<Vec<NovoEstoqueSnapshot>, ErroEtl>>)
    requires
        t.registros@.len() <= isize::MAX,
    ensures
        snapshots_da_tabela(t.vista()) == match r {
            None => None,
            Some(r) => Some(vista_snapshots(r)),
        },
{
    let campos = campos_snapshot();
    let ghost cabv = t.vista().0;
    let ghost regs = t.vista().1;
    let mut snaps: Vec<NovoEstoqueSnapshot> = Vec::new();
    assert(snaps@.map_values(|x: NovoEstoqueSnapshot| x@) =~= Seq::<SnapshotV>::empty());
    let mut i: usize = 0;
    while i < t.registros.len()
        invariant
            vista_campos(campos@) == campos_snapshot_v(),
            cabv == t.vista().0,
            regs == t.vista().1,
            t.registros@.len() <= isize::MAX,
            i <= t.registros@.len(),
            snapshots_ate(cabv, regs, i as int) == Some(Ok::<Seq<SnapshotV>, ErroEtlV>(snaps@.map_values(|x: NovoEstoqueSnapshot| x@))),
        decreases t.registros.len() - i,
    {
        assert(regs[i as int] == vista_registro(t.registros@[i as int]));
        match processar_linha_snapshot(&campos, &t.cabecalho, &t.registros[i], i) {
            None => {
                proof {
                    lema_snapshots_para(cabv, regs, i + 1, regs.len() as int);
                }
                return None;
            },
            Some(Err(e)) => {
                proof {
                    lema_snapshots_para(cabv, regs, i + 1, regs.len() as int);
                }
                return Some(Err(e));
            },
            Some(Ok(v)) => {
                let ghost antes = snaps@.map_values(|x: NovoEstoqueSnapshot| x@);
                snaps.push(v);
                assert(snaps@.map_values(|x: NovoEstoqueSnapshot| x@) =~= antes.push(v@));
            },
        }
        i = i + 1;
    }
    Some(Ok(snaps))
}

/// Lê o CSV de snapshot (cabeçalho + um produto por linha) e valida o contrato: código de
/// estoque não em branco e disponível = estoque − reserva (calculado quando ausente). Devolve os
/// snapshots na ordem do arquivo ou o primeiro erro. A conta estoque − reserva precisa caber em
/// `i32` nas linhas lidas antes do primeiro erro.
pub fn ler_snapshot_csv(conteudo: &[u8]) -> (r: Result<Vec<NovoEstoqueSnapshot>, ErroEtl>)
    requires
        snapshots_da_tabela(leitura_csv(conteudo@)) is Some,
    ensures
        snapshots_da_tabela(leitura_csv(conteudo@)) == Some(vista_snapshots(r)),
{
    let t = ler_tabela_csv(conteudo);
    match snapshots_de_tabela(&t) {
        Some(r) => r,
        None => {
            proof {
                assert(false);
            }
            Ok(Vec::new())
        },
    }
}

/// Como [`ler_snapshot_csv`], mas sem exigir nada do conteúdo: devolve `None` quando alguma
/// linha lida antes do primeiro erro tem estoque − reserva fora de `i32`.
pub fn ler_snapshot_csv_conferido(conteudo: &[u8]) -> (r: Option<Result<Vec<NovoEstoqueSnapshot>, ErroEtl>>)
    ensures
        snapshots_da_tabela(leitura_csv(conteudo@)) == match r {
            None => None,
            Some(r) => Some(vista_snapshots(r)),
        },
{
    let t = ler_tabela_csv(conteudo);
    match snapshots_de_tabela(&t) {
        None => None,
        Some(_) => Some(ler_snapshot_csv(conteudo)),
    }
}

proof fn lema_vendas_ate(cab: Option<Seq<Seq<char>>>, regs: Seq<Result<Seq<Seq<char>>, Seq<char>>>, n: int)
    requires
        n >= 0,
    ensures
        vendas_ate(cab, regs, n) matches Ok(vs) ==> vs.len() == n && forall|i: int|
            0 <= i < vs.len() ==> !so_espacos(#[trigger] vs[i].codigo_estoque) && vs[i].qtd_vendida >= 0,
    decreases n,
{
    if n > 0 {
        lema_vendas_ate(cab, regs, n - 1);
        if let Ok(vs) = vendas_ate(cab, regs, n - 1) {
            if let Ok(v) = linha_venda(cab, regs[n - 1], n - 1) {
                let ws = vs.push(v);
                assert(vendas_ate(cab, regs, n) == Ok::<Seq<VendaV>, ErroEtlV>(ws));
                assert forall|i: int| 0 <= i < ws.len() implies !so_espacos(#[trigger] ws[i].codigo_estoque)
                    && ws[i].qtd_vendida >= 0 by {
                    if i < vs.len() {
                        assert(ws[i] == vs[i]);
                    }
                }
            }
        }
    }
}

/// Vendas aceitas cumprem o contrato de entrada: uma venda por linha de dados, todas com código
/// de estoque não em branco e quantidade vendida não negativa.
pub proof fn lei_vendas_aceitas(t: (Option<Seq<Seq<char>>>, Seq<Result<Seq<Seq<char>>, Seq<char>>>))
    ensures
        vendas_da_tabela(t) matches Ok(vs) ==> vs.len() == t.1.len() && forall|i: int|
            0 <= i < vs.len() ==> !so_espacos(#[trigger] vs[i].codigo_estoque) && vs[i].qtd_vendida >= 0,
{
    lema_vendas_ate(t.0, t.1, t.1.len() as int);
    assert(vendas_da_tabela(t) == vendas_ate(t.0, t.1, t.1.len() as int));
    if let Ok(vs) = vendas_da_tabela(t) {
        assert(vendas_ate(t.0, t.1, t.1.len() as int) == Ok::<Seq<VendaV>, ErroEtlV>(vs));
        assert(vs.len() == t.1.len());
        assert forall|i: int| 0 <= i < vs.len() implies !so_espacos(#[trigger] vs[i].codigo_estoque)
            && vs[i].qtd_vendida >= 0 by {
            let ws = vendas_ate(t.0, t.1, t.1.len() as int)->Ok_0;
            assert(ws == vs);
            assert(!so_espacos(ws[i].codigo_estoque));
        }
    }
}

proof fn lema_snapshots_ate(cab: Option<Seq<Seq<char>>>, regs: Seq<Result<Seq<Seq<char>>, Seq<char>>>, n: int)
    requires
        n >= 0,
    ensures
        snapshots_ate(cab, regs, n) matches Some(Ok(vs)) ==> vs.len() == n && forall|i: int|
            0 <= i < vs.len() ==> !so_espacos(#[trigger] vs[i].codigo_estoque) && vs[i].qtd_disponivel
                == vs[i].qtd_estoque - vs[i].qtd_reserva,
    decreases n,
{
    if n > 0 {
        lema_snapshots_ate(cab, regs, n - 1);
        if let Some(Ok(vs)) = snapshots_ate(cab, regs, n - 1) {
            if let Some(Ok(v)) = linha_snapshot(cab, regs[n - 1], n - 1) {
                let ws = vs.push(v);
                assert(snapshots_ate(cab, regs, n) == Some(Ok::<Seq<SnapshotV>, ErroEtlV>(ws)));
                assert forall|i: int| 0 <= i < ws.len() implies !so_espacos(#[trigger] ws[i].codigo_estoque)
                    && ws[i].qtd_disponivel == ws[i].qtd_estoque - ws[i].qtd_reserva by {
                    if i < vs.len() {
                        assert(ws[i] == vs[i]);
                    }
                }
            }
        }
    }
}

/// Snapshots aceitos cumprem o contrato de entrada: um por linha de dados, com código de estoque
/// não em branco e disponível igual a estoque − reserva (calculado quando ausente).
pub proof fn lei_snapshots_aceitos(t: (Option<Seq<Seq<char>>>, Seq<Result<Seq<Seq<char>>, Seq<char>>>))
    ensures
        snapshots_da_tabela(t) matches Some(Ok(vs)) ==> vs.len() == t.1.len() && forall|i: int|
            0 <= i < vs.len() ==> !so_espacos(#[trigger] vs[i].codigo_estoque) && vs[i].qtd_disponivel
                == vs[i].qtd_estoque - vs[i].qtd_reserva,
{
    lema_snapshots_ate(t.0, t.1, t.1.len() as int);
    assert(snapshots_da_tabela(t) == snapshots_ate(t.0, t.1, t.1.len() as int));
    if let Some(Ok(vs)) = snapshots_da_tabela(t) {
        assert forall|i: int| 0 <= i < vs.len() implies !so_espacos(#[trigger] vs[i].codigo_estoque)
            && vs[i].qtd_disponivel == vs[i].qtd_estoque - vs[i].qtd_reserva by {
            let ws = snapshots_ate(t.0, t.1, t.1.len() as int)->Some_0->Ok_0;
            assert(ws == vs);
            assert(!so_espacos(ws[i].codigo_estoque));
        }
    }
}

/// Os valores decodificados de um registro lido (nenhum, se o registro é um erro de leitura ou
/// não se converte nos campos).
pub open spec fn valores_do_registro(
    campos: Seq<CampoV>,
    cab: Option<Seq<Seq<char>>>,
    item: Result<Seq<Seq<char>>, Seq<char>>,
) -> Option<Seq<ValorV>> {
    match item {
        Ok(r) => decodificar(campos, cab, r),
        Err(_) => None,
    }
}

/// Texto de coluna opcional: ausente exatamente quando a coluna está em branco.
pub open spec fn texto_ou_nada(t: Seq<char>) -> Option<Seq<char>> {
    if so_espacos(t) {
        None
    } else {
        Some(t)
    }
}

/// Uma linha de vendas cumpre o contrato: converte-se nos campos, o código não está em branco e a
/// quantidade vendida não é negativa.
pub open spec fn venda_valida(cab: Option<Seq<Seq<char>>>, item: Result<Seq<Seq<char>>, Seq<char>>) -> bool {
    &&& valores_do_registro(campos_venda_v(), cab, item) is Some
    &&& !so_espacos(texto_de(valores_do_registro(campos_venda_v(), cab, item)->0[1]))
    &&& inteiro_de(valores_do_registro(campos_venda_v(), cab, item)->0[5]) >= 0
}

/// A venda `v` tem, campo a campo, os valores das colunas do registro: data, código, quantidade e
/// personalização como lidos, e sku, produto e configuração ausentes só quando a coluna está em
/// branco.
pub open spec fn venda_do_registro(
    v: VendaV,
    cab: Option<Seq<Seq<char>>>,
    item: Result<Seq<Seq<char>>, Seq<char>>,
) -> bool {
    valores_do_registro(campos_venda_v(), cab, item) matches Some(vals) && {
        &&& v.dt_ref == data_de(vals[0])
        &&& v.codigo_estoque == texto_de(vals[1])
        &&& v.sku == texto_ou_nada(texto_de(vals[2]))
        &&& v.produto == texto_ou_nada(texto_de(vals[3]))
        &&& v.configuracao == texto_ou_nada(texto_de(vals[4]))
        &&& v.qtd_vendida == inteiro_de(vals[5])
        &&& v.is_personalizado == booleano_de(vals[6])
    }
}

proof fn lema_linha_venda(cab: Option<Seq<Seq<char>>>, item: Result<Seq<Seq<char>>, Seq<char>>, i: int)
    ensures
        venda_valida(cab, item) ==> linha_venda(cab, item, i) is Ok,
        linha_venda(cab, item, i) matches Ok(v) ==> venda_do_registro(v, cab, item) && venda_valida(cab, item),
{
}

proof fn lema_vendas_completas(cab: Option<Seq<Seq<char>>>, regs: Seq<Result<Seq<Seq<char>>, Seq<char>>>, n: int)
    requires
        0 <= n <= regs.len(),
    ensures
        (forall|i: int| 0 <= i < n ==> venda_valida(cab, #[trigger] regs[i])) ==> vendas_ate(cab, regs, n) is Ok,
        vendas_ate(cab, regs, n) matches Ok(vs) ==> vs.len() == n && forall|i: int|
            0 <= i < n ==> venda_do_registro(#[trigger] vs[i], cab, regs[i]),
    decreases n,
{
    if n > 0 {
        lema_vendas_completas(cab, regs, n - 1);
        lema_linha_venda(cab, regs[n - 1], n - 1);
        if forall|i: int| 0 <= i < n ==> venda_valida(cab, #[trigger] regs[i]) {
            assert forall|i: int| 0 <= i < n - 1 implies venda_valida(cab, #[trigger] regs[i]) by {}
            assert(venda_valida(cab, regs[n - 1]));
        }
        if let Ok(vs) = vendas_ate(cab, regs, n - 1) {
            if let Ok(v) = linha_venda(cab, regs[n - 1], n - 1) {
                let ws = vs.push(v);
                assert(vendas_ate(cab, regs, n) == Ok::<Seq<VendaV>, ErroEtlV>(ws));
                assert forall|i: int| 0 <= i < n implies venda_do_registro(#[trigger] ws[i], cab, regs[i]) by {
                    if i < n - 1 {
                        assert(ws[i] == vs[i]);
                    }
                }
            }
        }
    }
}

/// O CSV de vendas é aceito exatamente nos casos do contrato: se todas as linhas se convertem,
/// têm código não em branco e quantidade vendida não negativa (zero incluído), o resultado é `Ok`
/// com uma venda por linha; e toda venda aceita traz, campo a campo, as colunas da sua linha (sku,
/// produto e configuração ausentes só quando a coluna está em branco).
pub proof fn lei_vendas_completas(t: (Option<Seq<Seq<char>>>, Seq<Result<Seq<Seq<char>>, Seq<char>>>))
    ensures
        (forall|i: int| 0 <= i < t.1.len() ==> venda_valida(t.0, #[trigger] t.1[i])) ==> vendas_da_tabela(t) is Ok,
        vendas_da_tabela(t) matches Ok(vs) ==> vs.len() == t.1.len() && forall|i: int|
            0 <= i < vs.len() ==> venda_do_registro(#[trigger] vs[i], t.0, t.1[i]) && venda_valida(t.0, t.1[i]),
{
    lema_vendas_completas(t.0, t.1, t.1.len() as int);
    assert(vendas_da_tabela(t) == vendas_ate(t.0, t.1, t.1.len() as int));
    if let Ok(vs) = vendas_da_tabela(t) {
        assert forall|i: int| 0 <= i < vs.len() implies venda_do_registro(#[trigger] vs[i], t.0, t.1[i])
            && venda_valida(t.0, t.1[i]) by {
            let ws = vendas_ate(t.0, t.1, t.1.len() as int)->Ok_0;
            assert(ws == vs);
            assert(venda_do_registro(ws[i], t.0, t.1[i]));
            lema_linha_venda(t.0, t.1[i], i);
            lema_vendas_linha_aceita(t.0, t.1, t.1.len() as int, i);
        }
    }
}

/// Numa tabela de vendas aceita, cada linha até `n` foi aceita.
proof fn lema_vendas_linha_aceita(cab: Option<Seq<Seq<char>>>, regs: Seq<Result<Seq<Seq<char>>, Seq<char>>>, n: int, i: int)
    requires
        0 <= i < n <= regs.len(),
        vendas_ate(cab, regs, n) is Ok,
    ensures
        linha_venda(cab, regs[i], i) is Ok,
    decreases n,
{
    if i < n - 1 {
        lema_vendas_linha_aceita(cab, regs, n - 1, i);
    }
}

/// Uma linha de snapshot cumpre o contrato: converte-se nos campos, o código não está em branco,
/// estoque − reserva cabe em `i32` e o disponível, se informado, é estoque − reserva.
pub open spec fn snapshot_valido(cab: Option<Seq<Seq<char>>>, item: Result<Seq<Seq<char>>, Seq<char>>) -> bool {
    valores_do_registro(campos_snapshot_v(), cab, item) matches Some(vals) && {
        let esperado = inteiro_de(vals[5]) - inteiro_de(vals[6]);
        &&& !so_espacos(texto_de(vals[1]))
        &&& i32::MIN <= esperado <= i32::MAX
        &&& (opcional_de(vals[7]) matches Some(d) ==> d == esperado)
    }
}

/// O snapshot `v` tem, campo a campo, os valores das colunas do registro; o disponível é estoque −
/// reserva; sku, produto e configuração ficam ausentes só quando a coluna está em branco.
pub open spec fn snapshot_do_registro(
    v: SnapshotV,
    cab: Option<Seq<Seq<char>>>,
    item: Result<Seq<Seq<char>>, Seq<char>>,
) -> bool {
    valores_do_registro(campos_snapshot_v(), cab, item) matches Some(vals) && {
        &&& v.dt_ref == data_de(vals[0])
        &&& v.codigo_estoque == texto_de(vals[1])
        &&& v.sku == texto_ou_nada(texto_de(vals[2]))
        &&& v.produto == texto_ou_nada(texto_de(vals[3]))
        &&& v.configuracao == texto_ou_nada(texto_de(vals[4]))
        &&& v.qtd_estoque == inteiro_de(vals[5])
        &&& v.qtd_reserva == inteiro_de(vals[6])
        &&& v.qtd_disponivel == inteiro_de(vals[5]) - inteiro_de(vals[6])
        &&& v.estoque_min_erp == opcional_de(vals[8])
        &&& v.fora_de_linha == booleano_de(vals[9])
    }
}

proof fn lema_linha_snapshot(cab: Option<Seq<Seq<char>>>, item: Result<Seq<Seq<char>>, Seq<char>>, i: int)
    ensures
        snapshot_valido(cab, item) ==> linha_snapshot(cab, item, i) matches Some(Ok(_)),
        linha_snapshot(cab, item, i) matches Some(Ok(v)) ==> snapshot_do_registro(v, cab, item) && snapshot_valido(cab, item),
{
}

proof fn lema_snapshots_completos(cab: Option<Seq<Seq<char>>>, regs: Seq<Result<Seq<Seq<char>>, Seq<char>>>, n: int)
    requires
        0 <= n <= regs.len(),
    ensures
        (forall|i: int| 0 <= i < n ==> snapshot_valido(cab, #[trigger] regs[i])) ==> snapshots_ate(cab, regs, n) matches Some(Ok(_)),
        snapshots_ate(cab, regs, n) matches Some(Ok(vs)) ==> vs.len() == n && forall|i: int|
            0 <= i < n ==> snapshot_do_registro(#[trigger] vs[i], cab, regs[i]),
    decreases n,
{
    if n > 0 {
        lema_snapshots_completos(cab, regs, n - 1);
        lema_linha_snapshot(cab, regs[n - 1], n - 1);
        if forall|i: int| 0 <= i < n ==> snapshot_valido(cab, #[trigger] regs[i]) {
            assert forall|i: int| 0 <= i < n - 1 implies snapshot_valido(cab, #[trigger] regs[i]) by {}
            assert(snapshot_valido(cab, regs[n - 1]));
        }
        if let Some(Ok(vs)) = snapshots_ate(cab, regs, n - 1) {
            if let Some(Ok(v)) = linha_snapshot(cab, regs[n - 1], n - 1) {
                let ws = vs.push(v);
                assert(snapshots_ate(cab, regs, n) == Some(Ok::<Seq<SnapshotV>, ErroEtlV>(ws)));
                assert forall|i: int| 0 <= i < n implies snapshot_do_registro(#[trigger] ws[i], cab, regs[i]) by {
                    if i < n - 1 {
                        assert(ws[i] == vs[i]);
                    }
                }
            }
        }
    }
}

/// O CSV de snapshot é aceito exatamente nos casos do contrato: se todas as linhas se convertem,
/// têm código não em branco, estoque − reserva cabe em `i32` e o disponível informado confere, o
/// resultado é `Ok` com um snapshot por linha; e todo snapshot aceito traz, campo a campo, as
/// colunas da sua linha, com o disponível calculado como estoque − reserva e sku, produto e
/// configuração ausentes só quando a coluna está em branco.
pub proof fn lei_snapshots_completos(t: (Option<Seq<Seq<char>>>, Seq<Result<Seq<Seq<char>>, Seq<char>>>))
    ensures
        (forall|i: int| 0 <= i < t.1.len() ==> snapshot_valido(t.0, #[trigger] t.1[i])) ==> snapshots_da_tabela(t) matches Some(Ok(_)),
        snapshots_da_tabela(t) matches Some(Ok(vs)) ==> vs.len() == t.1.len() && forall|i: int|
            0 <= i < vs.len() ==> snapshot_do_registro(#[trigger] vs[i], t.0, t.1[i]),
{
    lema_snapshots_completos(t.0, t.1, t.1.len() as int);
    assert(snapshots_da_tabela(t) == snapshots_ate(t.0, t.1, t.1.len() as int));
    if let Some(Ok(vs)) = snapshots_da_tabela(t) {
        assert forall|i: int| 0 <= i < vs.len() implies snapshot_do_registro(#[trigger] vs[i], t.0, t.1[i]) by {
            let ws = snapshots_ate(t.0, t.1, t.1.len() as int)->Some_0->Ok_0;
            assert(ws == vs);
            assert(snapshot_do_registro(ws[i], t.0, t.1[i]));
        }
    }
}

} // verus!
