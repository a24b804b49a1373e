use genpdf::paginate::count_pages;
use genpdf::{genpdf, BuildError, Layout, Price};
use lopdf::content::Content;
use lopdf::{Document, Object};

fn labels(names: &[&str]) -> Vec<String> {
    names.iter().map(|name| name.to_string()).collect()
}

fn prices(mills: &[i64]) -> Vec<Price> {
    mills.iter().map(|&mills| Price { mills }).collect()
}

fn images(count: usize) -> Vec<Vec<u8>> {
    (0..count).map(|page| vec![0xff, 0xd8, page as u8, 0xff, 0xd9]).collect()
}

fn numbered(count: usize) -> (Vec<String>, Vec<Price>) {
    let labels = (1..=count).map(|i| format!("{} item", i)).collect();
    let prices = (1..=count).map(|i| Price { mills: 1230 * i as i64 }).collect();
    (labels, prices)
}

/// The texts shown on each page, in page order.
fn shown(bytes: &[u8]) -> Vec<Vec<(i64, String)>> {
    let document = Document::load_mem(bytes).unwrap();
    let mut pages = Vec::new();
    for (_, page_id) in document.get_pages() {
        let content = Content::decode(&document.get_page_content(page_id)).unwrap();
        let mut lines = Vec::new();
        let mut y = 0;
        for operation in content.operations {
            match operation.operator.as_str() {
                "Td" => y = operation.operands[1].as_i64().unwrap(),
                "Tj" => {
                    let text = operation.operands[0].as_str().unwrap();
                    lines.push((y, String::from_utf8(text.to_vec()).unwrap()));
                }
                _ => {}
            }
        }
        pages.push(lines);
    }
    pages
}

fn gap() -> String {
    " ".repeat(34)
}

#[test]
fn alice_has_one_page_with_two_lines() {
    let layout = Layout::default();
    let bytes = genpdf(
        "Alice",
        &labels(&["Widget", "Gadget"]),
        &prices(&[9990, 19995]),
        &images(1),
        &layout,
    )
    .unwrap();
    let pages = shown(&bytes);
    assert_eq!(pages.len(), 1);
    assert_eq!(
        pages[0],
        vec![
            (800, "Fake Bill for: Alice".to_string()),
            (720, "-".repeat(67)),
            (700, "Purchases:".to_string()),
            (688, format!("Widget{}$9.99", gap())),
            (676, format!("Gadget{}$20.00", gap())),
        ]
    );
}

#[test]
fn output_is_framed_as_a_document() {
    let layout = Layout::default();
    let bytes = genpdf("Alice", &labels(&[]), &prices(&[]), &images(1), &layout).unwrap();
    assert!(bytes.starts_with(b"%PDF-1.5\n"));
    assert!(bytes.ends_with(b"%%EOF"));
    let document = Document::load_mem(&bytes).unwrap();
    let root = document.trailer.get(b"Root").unwrap().as_reference().unwrap();
    let catalog = document.get_dictionary(root).unwrap();
    assert_eq!(catalog.get(b"Type").unwrap().as_name().unwrap(), b"Catalog");
    assert_eq!(root, (7, 0));
}

#[test]
fn no_items_give_one_page_without_item_lines() {
    let layout = Layout::default();
    let bytes = genpdf("Bob", &labels(&[]), &prices(&[]), &images(1), &layout).unwrap();
    let pages = shown(&bytes);
    assert_eq!(pages.len(), 1);
    assert_eq!(pages[0].len(), 3);
    assert_eq!(pages[0][0], (800, "Fake Bill for: Bob".to_string()));
    let document = Document::load_mem(&bytes).unwrap();
    let page_id = document.get_pages()[&1];
    let content = Content::decode(&document.get_page_content(page_id)).unwrap();
    let draws = content.operations.iter().filter(|op| op.operator == "Do").count();
    assert_eq!(draws, 1);
}

#[test]
fn pages_hold_the_items_in_order() {
    let layout = Layout::default();
    let (labels, prices) = numbered(120);
    let pages = count_pages(labels.len(), layout.capacity);
    assert_eq!(pages, 3);
    let bytes = genpdf("Carol", &labels, &prices, &images(pages), &layout).unwrap();
    let shown = shown(&bytes);
    assert_eq!(shown.len(), 3);
    let mut item = 0;
    for (page, lines) in shown.iter().enumerate() {
        let expected = if page < 2 { 50 } else { 20 };
        assert_eq!(lines.len(), 3 + expected);
        for (index, (y, text)) in lines[3..].iter().enumerate() {
            item += 1;
            assert_eq!(*y, 688 - 12 * index as i64);
            let cents = 123 * item;
            let amount = format!("{}.{:02}", cents / 100, cents % 100);
            assert_eq!(*text, format!("{} item{}${}", item, gap(), amount));
        }
    }
    assert_eq!(item, 120);
}

#[test]
fn a_full_last_page_is_not_followed_by_a_short_one() {
    let layout = Layout { capacity: 4, ..Layout::default() };
    let (labels, prices) = numbered(8);
    let bytes = genpdf("Dan", &labels, &prices, &images(2), &layout).unwrap();
    let shown = shown(&bytes);
    assert_eq!(shown.len(), 2);
    assert_eq!(shown[0].len(), 3 + 4);
    assert_eq!(shown[1].len(), 3 + 4);
}

#[test]
fn one_item_over_a_page_starts_a_second_page() {
    let layout = Layout { capacity: 4, ..Layout::default() };
    let (labels, prices) = numbered(5);
    let bytes = genpdf("Eve", &labels, &prices, &images(2), &layout).unwrap();
    let shown = shown(&bytes);
    assert_eq!(shown.len(), 2);
    assert_eq!(shown[0].len(), 3 + 4);
    assert_eq!(shown[1].len(), 3 + 1);
    assert_eq!(shown[1][3], (688, format!("5 item{}$6.15", gap())));
}

#[test]
fn building_twice_gives_the_same_bytes() {
    let layout = Layout::default();
    let (labels, prices) = numbered(75);
    let first = genpdf("Fay", &labels, &prices, &images(2), &layout).unwrap();
    let second = genpdf("Fay", &labels, &prices, &images(2), &layout).unwrap();
    assert_eq!(first, second);
}

#[test]
fn every_page_draws_the_image_that_it_names() {
    let layout = Layout { capacity: 2, ..Layout::default() };
    let (labels, prices) = numbered(5);
    let payloads = images(3);
    let bytes = genpdf("Gus", &labels, &prices, &payloads, &layout).unwrap();
    let document = Document::load_mem(&bytes).unwrap();
    let pages = document.get_pages();
    assert_eq!(pages.len(), 3);
    for (number, page_id) in pages {
        let index = number as usize - 1;
        let image_id = (4 + 3 * index as u32, 0);
        assert_eq!(page_id, (6 + 3 * index as u32, 0));
        let name = format!("X{}", image_id.0);
        let page = document.get_dictionary(page_id).unwrap();
        let resources = page.get(b"Resources").unwrap().as_dict().unwrap();
        let xobjects = resources.get(b"XObject").unwrap().as_dict().unwrap();
        assert_eq!(xobjects.len(), 1);
        assert_eq!(xobjects.get(name.as_bytes()).unwrap().as_reference().unwrap(), image_id);
        let content = Content::decode(&document.get_page_content(page_id)).unwrap();
        let drawn: Vec<&Object> = content
            .operations
            .iter()
            .filter(|op| op.operator == "Do")
            .map(|op| &op.operands[0])
            .collect();
        assert_eq!(drawn.len(), 1);
        assert_eq!(drawn[0].as_name().unwrap(), name.as_bytes());
        let image = document.get_object(image_id).unwrap().as_stream().unwrap();
        assert_eq!(image.content, payloads[index]);
        assert_eq!(image.dict.get(b"Subtype").unwrap().as_name().unwrap(), b"Image");
        assert_eq!(image.dict.get(b"Width").unwrap().as_i64().unwrap(), 814);
        assert_eq!(image.dict.get(b"Height").unwrap().as_i64().unwrap(), 613);
        assert_eq!(image.dict.get(b"Length").unwrap().as_i64().unwrap(), 5);
    }
}

#[test]
fn the_page_tree_lists_the_pages_in_order() {
    let layout = Layout { capacity: 1, ..Layout::default() };
    let (labels, prices) = numbered(4);
    let bytes = genpdf("Hal", &labels, &prices, &images(4), &layout).unwrap();
    let document = Document::load_mem(&bytes).unwrap();
    let tree = document.get_dictionary((1, 0)).unwrap();
    assert_eq!(tree.get(b"Type").unwrap().as_name().unwrap(), b"Pages");
    assert_eq!(tree.get(b"Count").unwrap().as_i64().unwrap(), 4);
    let kids: Vec<(u32, u16)> = tree
        .get(b"Kids")
        .unwrap()
        .as_array()
        .unwrap()
        .iter()
        .map(|kid| kid.as_reference().unwrap())
        .collect();
    assert_eq!(kids, vec![(6, 0), (9, 0), (12, 0), (15, 0)]);
    let shown = shown(&bytes);
    for (index, lines) in shown.iter().enumerate() {
        assert!(lines[3].1.starts_with(&format!("{} item", index + 1)));
    }
    let media: Vec<i64> = tree
        .get(b"MediaBox")
        .unwrap()
        .as_array()
        .unwrap()
        .iter()
        .map(|corner| corner.as_i64().unwrap())
        .collect();
    assert_eq!(media, vec![0, 0, 595, 842]);
    assert_eq!(tree.get(b"Resources").unwrap().as_reference().unwrap(), (3, 0));
}

#[test]
fn an_empty_subject_is_rejected() {
    let layout = Layout::default();
    let result = genpdf("", &labels(&["a"]), &prices(&[1000]), &images(1), &layout);
    assert_eq!(result, Err(BuildError::EmptySubject));
}

#[test]
fn prices_must_be_as_many_as_labels() {
    let layout = Layout::default();
    let result = genpdf("Ida", &labels(&["a", "b"]), &prices(&[1000]), &images(1), &layout);
    assert_eq!(result, Err(BuildError::LengthMismatch));
}

#[test]
fn images_must_be_as_many_as_pages() {
    let layout = Layout::default();
    let result = genpdf("Jon", &labels(&["a"]), &prices(&[1000]), &images(2), &layout);
    assert_eq!(result, Err(BuildError::ImageCountMismatch));
    let result = genpdf("Jon", &labels(&["a"]), &prices(&[1000]), &images(0), &layout);
    assert_eq!(result, Err(BuildError::ImageCountMismatch));
}

#[test]
fn a_layout_without_capacity_or_divisor_is_rejected() {
    let layout = Layout { capacity: 0, ..Layout::default() };
    let result = genpdf("Kay", &labels(&["a"]), &prices(&[1000]), &images(1), &layout);
    assert_eq!(result, Err(BuildError::InvalidLayout));
    let layout = Layout { image_divisor: 0, ..Layout::default() };
    let result = genpdf("Kay", &labels(&["a"]), &prices(&[1000]), &images(1), &layout);
    assert_eq!(result, Err(BuildError::InvalidLayout));
}

#[test]
fn the_first_fault_found_is_reported() {
    let broken = Layout { capacity: 0, ..Layout::default() };
    let result = genpdf("", &labels(&["a", "b"]), &prices(&[1000]), &images(5), &broken);
    assert_eq!(result, Err(BuildError::InvalidLayout));
    let layout = Layout::default();
    let result = genpdf("", &labels(&["a", "b"]), &prices(&[1000]), &images(5), &layout);
    assert_eq!(result, Err(BuildError::EmptySubject));
    let result = genpdf("Lou", &labels(&["a", "b"]), &prices(&[1000]), &images(5), &layout);
    assert_eq!(result, Err(BuildError::LengthMismatch));
}

#[test]
fn the_layout_sets_the_page_size_and_the_line_height() {
    let layout = Layout {
        capacity: 3,
        page_width: 300,
        page_height: 400,
        line_height: 20,
        ..Layout::default()
    };
    let (labels, prices) = numbered(3);
    let bytes = genpdf("Max", &labels, &prices, &images(1), &layout).unwrap();
    let ys: Vec<i64> = shown(&bytes)[0][3..].iter().map(|line| line.0).collect();
    assert_eq!(ys, vec![680, 660, 640]);
    let document = Document::load_mem(&bytes).unwrap();
    let tree = document.get_dictionary((1, 0)).unwrap();
    let media: Vec<i64> = tree
        .get(b"MediaBox")
        .unwrap()
        .as_array()
        .unwrap()
        .iter()
        .map(|corner| corner.as_i64().unwrap())
        .collect();
    assert_eq!(media, vec![0, 0, 300, 400]);
}
