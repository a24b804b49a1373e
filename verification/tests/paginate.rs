use genpdf::content::Operand;
use genpdf::paginate::{chunk_bounds, count_pages, page_content};
use genpdf::{Layout, ObjectId, Price};

#[test]
fn there_is_always_at_least_one_page() {
    assert_eq!(count_pages(0, 50), 1);
    assert_eq!(count_pages(0, 1), 1);
    assert_eq!(count_pages(1, 50), 1);
}

#[test]
fn the_pages_are_as_many_as_hold_the_items() {
    assert_eq!(count_pages(49, 50), 1);
    assert_eq!(count_pages(50, 50), 1);
    assert_eq!(count_pages(51, 50), 2);
    assert_eq!(count_pages(100, 50), 2);
    assert_eq!(count_pages(101, 50), 3);
    assert_eq!(count_pages(500, 50), 10);
    assert_eq!(count_pages(7, 1), 7);
    assert_eq!(count_pages(usize::MAX, 1), usize::MAX);
    assert_eq!(count_pages(usize::MAX, u32::MAX), 4294967297);
}

#[test]
fn page_counts_agree_with_the_rounded_up_quotient() {
    for capacity in 1u32..8 {
        for items in 0usize..40 {
            let quotient = (items as f64 / capacity as f64).ceil() as usize;
            assert_eq!(count_pages(items, capacity), quotient.max(1));
        }
    }
}

#[test]
fn chunks_are_full_but_for_the_last() {
    assert_eq!(chunk_bounds(120, 0, 50), (0, 50));
    assert_eq!(chunk_bounds(120, 1, 50), (50, 100));
    assert_eq!(chunk_bounds(120, 2, 50), (100, 120));
    assert_eq!(chunk_bounds(100, 1, 50), (50, 100));
    assert_eq!(chunk_bounds(51, 1, 50), (50, 51));
    assert_eq!(chunk_bounds(0, 0, 50), (0, 0));
    assert_eq!(chunk_bounds(usize::MAX, 0, u32::MAX), (0, u32::MAX as usize));
}

#[test]
fn a_page_draws_head_image_and_items() {
    let layout = Layout { capacity: 2, ..Layout::default() };
    let labels = vec!["a".to_string(), "b".to_string(), "c".to_string()];
    let prices = vec![Price { mills: 1000 }, Price { mills: 2000 }, Price { mills: 3000 }];
    let builder = page_content("Kim", &labels, &prices, 1, ObjectId::new(7), &layout);
    let operators: Vec<&str> =
        builder.instructions.iter().map(|i| i.operator.as_str()).collect();
    assert_eq!(
        operators,
        vec![
            "BT", "Tf", "Td", "Tj", "ET", "BT", "Tf", "Td", "Tj", "ET", "BT", "Tf", "Td", "Tj",
            "ET", "q", "cm", "Do", "Q", "BT", "Tf", "Td", "Tj", "ET",
        ]
    );
    match &builder.instructions[17].operands[0] {
        Operand::Name(name) => assert_eq!(name, "X7"),
        other => panic!("{:?}", other),
    }
    match &builder.instructions[22].operands[0] {
        Operand::Text(text) => assert_eq!(*text, format!("c{}$3.00", " ".repeat(34))),
        other => panic!("{:?}", other),
    }
    match &builder.instructions[21].operands[1] {
        Operand::Integer(y) => assert_eq!(*y, 688),
        other => panic!("{:?}", other),
    }
}
