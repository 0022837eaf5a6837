# pcp

Planejamento e controle de produção: a ingestão validada dos dados de entrada e as regras de
exibição das telas, verificadas com Verus.

- `src/` — a biblioteca verificada:
  - ingestão: `leitura_csv` (leitor de CSV), `decodificacao` (campos por nome ou posição),
    `arquivo` (contrato das vendas e do snapshot), `data`, `numero`, `importacao` (agrupamento
    por dia), `one` (janela incremental de vendas), `erro`;
  - telas: `formato`, `rotulos`, `paginacao`, `painel`, `estoque`, `tabela_abc`, `consulta`,
    `exportacao`, `producao`, `ciclo_vida`, `validacao`, `armazenamento`, `tipos`,
    `configuracao` (a configuração em JSON como árvore: folhas e gravação num caminho),
    `resposta` (o desfecho de cada status de resposta da API);
  - `texto`: operações sobre texto usadas por todos.
- `app/` — o que não é verificado: leitura de arquivos, tipos com serde, números em ponto
  flutuante, a conversão de/para `serde_json::Value` do editor de configuração, o
  `localStorage` do navegador e o envio do lote de ordens.
- `tests/` — testes de exemplo de cada módulo e das leis.
