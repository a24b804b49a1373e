use genpdf::content::{ContentStreamBuilder, Operand};
use genpdf::image::{place_image, resource_name_text};
use genpdf::{Layout, ObjectId, Price};
use lopdf::content::Content;

fn text_of(bytes: Vec<u8>) -> String {
    String::from_utf8(bytes).unwrap()
}

#[test]
fn an_empty_builder_encodes_to_nothing() {
    let builder = ContentStreamBuilder::new();
    assert!(builder.instructions.is_empty());
    assert_eq!(builder.encode().unwrap(), Vec::<u8>::new());
}

#[test]
fn instructions_are_encoded_in_the_order_pushed() {
    let mut builder = ContentStreamBuilder::new();
    builder.push("q", vec![]);
    builder.push("Do", vec![Operand::Name("X4".to_string())]);
    builder.push("Td", vec![Operand::Integer(-3), Operand::Integer(700)]);
    builder.push("Tj", vec![Operand::Text("a (b".to_string())]);
    assert_eq!(builder.instructions.len(), 4);
    assert_eq!(text_of(builder.encode().unwrap()), "q\n/X4 Do\n-3 700 Td\n(a \\(b) Tj");
}

#[test]
fn a_text_block_sets_font_cursor_and_text() {
    let mut builder = ContentStreamBuilder::new();
    builder.text_block(12, 50, 700, "Hi".to_string());
    assert_eq!(builder.instructions.len(), 5);
    assert_eq!(text_of(builder.encode().unwrap()), "BT\n/F1 12 Tf\n50 700 Td\n(Hi) Tj\nET");
}

#[test]
fn the_head_has_title_rule_and_caption() {
    let mut builder = ContentStreamBuilder::new();
    builder.header("Alice", &Layout::default());
    let expected = format!(
        "BT\n/F1 24 Tf\n50 800 Td\n(Fake Bill for: Alice) Tj\nET\n\
         BT\n/F1 12 Tf\n50 720 Td\n({}) Tj\nET\n\
         BT\n/F1 12 Tf\n50 700 Td\n(Purchases:) Tj\nET",
        "-".repeat(67)
    );
    assert_eq!(text_of(builder.encode().unwrap()), expected);
}

#[test]
fn the_head_uses_the_sizes_of_the_layout() {
    let layout = Layout { title_size: 30, body_size: 9, ..Layout::default() };
    let mut builder = ContentStreamBuilder::new();
    builder.header("Z", &layout);
    let text = text_of(builder.encode().unwrap());
    assert!(text.starts_with("BT\n/F1 30 Tf\n50 800 Td\n(Fake Bill for: Z) Tj\nET\nBT\n/F1 9 Tf"));
}

#[test]
fn item_lines_step_down_by_the_line_height() {
    let labels: Vec<String> = vec!["a".into(), "b".into(), "c".into(), "d".into()];
    let prices = vec![
        Price { mills: 1000 },
        Price { mills: 2000 },
        Price { mills: 3000 },
        Price { mills: 4000 },
    ];
    let mut builder = ContentStreamBuilder::new();
    builder.item_lines(&labels, &prices, 1, 4, &Layout::default());
    let gap = " ".repeat(34);
    let expected = format!(
        "BT\n/F1 12 Tf\n50 688 Td\n(b{gap}$2.00) Tj\nET\n\
         BT\n/F1 12 Tf\n50 676 Td\n(c{gap}$3.00) Tj\nET\n\
         BT\n/F1 12 Tf\n50 664 Td\n(d{gap}$4.00) Tj\nET"
    );
    assert_eq!(text_of(builder.encode().unwrap()), expected);
}

#[test]
fn item_lines_of_an_empty_range_add_nothing() {
    let labels: Vec<String> = vec!["a".into()];
    let prices = vec![Price { mills: 1000 }];
    let mut builder = ContentStreamBuilder::new();
    builder.item_lines(&labels, &prices, 1, 1, &Layout::default());
    assert!(builder.instructions.is_empty());
}

#[test]
fn item_lines_may_run_below_the_page() {
    let layout = Layout { line_height: 400, ..Layout::default() };
    let labels: Vec<String> = vec!["a".into(), "b".into(), "c".into()];
    let prices = vec![Price { mills: 0 }, Price { mills: 0 }, Price { mills: 0 }];
    let mut builder = ContentStreamBuilder::new();
    builder.item_lines(&labels, &prices, 0, 3, &layout);
    let ys: Vec<i64> = builder
        .instructions
        .iter()
        .filter(|i| i.operator == "Td")
        .map(|i| match i.operands[1] {
            Operand::Integer(y) => y,
            _ => panic!("not an integer"),
        })
        .collect();
    assert_eq!(ys, vec![300, -100, -500]);
}

#[test]
fn an_image_is_placed_with_four_operations() {
    let mut builder = ContentStreamBuilder::new();
    place_image(&mut builder, "X4", &Layout::default());
    assert_eq!(text_of(builder.encode().unwrap()), "q\n371 0 0 414 100 210 cm\n/X4 Do\nQ");
}

#[test]
fn the_image_scale_follows_size_and_divisor() {
    let layout = Layout {
        image_width: 800,
        image_height: 601,
        image_divisor: 2,
        ..Layout::default()
    };
    let mut builder = ContentStreamBuilder::new();
    place_image(&mut builder, "Im", &layout);
    assert_eq!(text_of(builder.encode().unwrap()), "q\n500 0 0 510 100 210 cm\n/Im Do\nQ");
}

#[test]
fn resource_names_are_x_and_the_object_number() {
    assert_eq!(resource_name_text(ObjectId::new(4)), "X4");
    assert_eq!(resource_name_text(ObjectId::new(1504)), "X1504");
    assert_eq!(resource_name_text(ObjectId { number: u32::MAX, generation: 3 }), "X4294967295");
}

#[test]
fn encoded_content_reads_back_as_the_same_operations() {
    let mut builder = ContentStreamBuilder::new();
    builder.header("Round (trip)", &Layout::default());
    place_image(&mut builder, "X9", &Layout::default());
    let decoded = Content::decode(&builder.encode().unwrap()).unwrap();
    assert_eq!(decoded.operations.len(), builder.instructions.len());
    for (read, written) in decoded.operations.iter().zip(&builder.instructions) {
        assert_eq!(read.operator, written.operator);
        assert_eq!(read.operands.len(), written.operands.len());
        for (object, operand) in read.operands.iter().zip(&written.operands) {
            match operand {
                Operand::Integer(value) => assert_eq!(object.as_i64().unwrap(), *value),
                Operand::Name(name) => assert_eq!(object.as_name().unwrap(), name.as_bytes()),
                Operand::Text(text) => assert_eq!(object.as_str().unwrap(), text.as_bytes()),
            }
        }
    }
}
