use pcp::paginacao::{janela, Paginacao, JANELA_PAGINAS};

#[test]
fn janela_desliza_sem_encolher() {
    assert_eq!(JANELA_PAGINAS, 5);
    assert_eq!(janela(1, 10), vec![1, 2, 3, 4, 5]);
    assert_eq!(janela(2, 10), vec![1, 2, 3, 4, 5]);
    assert_eq!(janela(5, 10), vec![3, 4, 5, 6, 7]);
    assert_eq!(janela(9, 10), vec![6, 7, 8, 9, 10]);
    assert_eq!(janela(10, 10), vec![6, 7, 8, 9, 10]);
}

#[test]
fn janela_com_poucas_paginas() {
    assert_eq!(janela(1, 3), vec![1, 2, 3]);
    assert_eq!(janela(3, 3), vec![1, 2, 3]);
    assert_eq!(janela(2, 2), vec![1, 2]);
    assert_eq!(janela(1, 1), vec![1]);
    assert_eq!(janela(1, 0), Vec::<i64>::new());
    assert_eq!(janela(1, -1), Vec::<i64>::new());
}

#[test]
fn pagina_atual_sempre_visivel() {
    for total in 1..=12 {
        for atual in 1..=total {
            let j = janela(atual, total);
            assert!(j.contains(&atual));
            assert_eq!(j.len() as i64, total.min(5));
            assert!(j.iter().all(|p| 1 <= *p && *p <= total));
        }
    }
}

#[test]
fn contas_da_paginacao() {
    let p = Paginacao { limite: 50, deslocamento: 0, total: 51 };
    assert_eq!(p.total_paginas(), 2);
    assert_eq!(p.atual(), 1);
    assert_eq!(p.inicio(), 1);
    assert_eq!(p.fim(), 50);
    assert!(!p.tem_anterior());
    assert!(p.tem_proximo());
    assert_eq!(p.paginas_visiveis(), vec![1, 2]);
    assert_eq!(p.info(), "Mostrando 1 á 50 de 51 itens");
}

#[test]
fn setas_e_ir_para() {
    let mut p = Paginacao { limite: 50, deslocamento: 0, total: 51 };
    p.ir_para(2);
    assert_eq!(p.deslocamento, 50);
    assert_eq!(p.atual(), 2);
    assert_eq!(p.fim(), 51);
    assert!(!p.tem_proximo());
    assert!(p.tem_anterior());
    assert_eq!(p.info(), "Mostrando 51 á 51 de 51 itens");
    p.anterior();
    assert_eq!(p.deslocamento, 0);
    p.anterior();
    assert_eq!(p.deslocamento, 0);
    p.proxima();
    assert_eq!(p.deslocamento, 50);
    let mut q = Paginacao { limite: 50, deslocamento: 10, total: 100 };
    q.anterior();
    assert_eq!(q.deslocamento, 0);
}

#[test]
fn lista_vazia_e_milhares() {
    let vazia = Paginacao { limite: 50, deslocamento: 0, total: 0 };
    assert_eq!(vazia.info(), "Nenhum item");
    assert_eq!(vazia.inicio(), 0);
    assert_eq!(vazia.total_paginas(), 0);
    assert_eq!(vazia.paginas_visiveis(), Vec::<i64>::new());
    let grande = Paginacao { limite: 50, deslocamento: 1000, total: 1234 };
    assert_eq!(grande.info(), "Mostrando 1.001 á 1.050 de 1.234 itens");
    assert_eq!(grande.atual(), 21);
    assert_eq!(grande.total_paginas(), 25);
    assert_eq!(grande.paginas_visiveis(), vec![19, 20, 21, 22, 23]);
}

#[test]
fn limite_zero_conta_como_um() {
    let p = Paginacao { limite: 0, deslocamento: 3, total: 5 };
    assert_eq!(p.atual(), 4);
    assert_eq!(p.total_paginas(), 4);
}
