use genpdf::assemble::{DocumentAssembler, Stage};
use genpdf::image::image_object;
use genpdf::objects::{
    catalog_object, content_object, font_object, page_object, resources_object, tree_object,
};
use genpdf::{Layout, ObjectId};
use lopdf::{Dictionary, Document, Object, Stream};

fn dictionary(pairs: Vec<(&str, Object)>) -> Dictionary {
    let mut dictionary = Dictionary::new();
    for (key, value) in pairs {
        dictionary.set(key, value);
    }
    dictionary
}

fn name(text: &str) -> Object {
    Object::Name(text.as_bytes().to_vec())
}

#[test]
fn the_font_is_courier() {
    let expected = dictionary(vec![
        ("Type", name("Font")),
        ("Subtype", name("Type1")),
        ("BaseFont", name("Courier")),
    ]);
    assert_eq!(font_object(), Object::Dictionary(expected));
}

#[test]
fn the_resources_name_the_font() {
    let fonts = dictionary(vec![("F1", Object::Reference((2, 0)))]);
    let expected = dictionary(vec![("Font", Object::Dictionary(fonts))]);
    assert_eq!(resources_object(ObjectId::new(2)), Object::Dictionary(expected));
}

#[test]
fn a_content_stream_carries_its_length() {
    let expected = Stream::new(Dictionary::new(), b"BT ET".to_vec());
    assert_eq!(expected.dict.get(b"Length").unwrap(), &Object::Integer(5));
    assert_eq!(content_object(b"BT ET".to_vec()), Object::Stream(expected));
}

#[test]
fn an_image_object_declares_its_encoding() {
    let layout = Layout { image_width: 3, image_height: 2, ..Layout::default() };
    let object = image_object(&layout, vec![1, 2, 3, 4]);
    let stream = object.as_stream().unwrap();
    let entries: Vec<(Vec<u8>, Object)> =
        stream.dict.iter().map(|(key, value)| (key.clone(), value.clone())).collect();
    assert_eq!(
        entries,
        vec![
            (b"Type".to_vec(), name("XObject")),
            (b"Subtype".to_vec(), name("Image")),
            (b"Width".to_vec(), Object::Integer(3)),
            (b"Height".to_vec(), Object::Integer(2)),
            (b"ColorSpace".to_vec(), name("DeviceRGB")),
            (b"BitsPerComponent".to_vec(), Object::Integer(8)),
            (b"Filter".to_vec(), name("DCTDecode")),
            (b"Length".to_vec(), Object::Integer(4)),
        ]
    );
    assert_eq!(stream.content, vec![1, 2, 3, 4]);
}

#[test]
fn a_page_refers_to_tree_content_and_image() {
    let images = dictionary(vec![("X4", Object::Reference((4, 0)))]);
    let resources = dictionary(vec![("XObject", Object::Dictionary(images))]);
    let expected = dictionary(vec![
        ("Type", name("Page")),
        ("Parent", Object::Reference((1, 0))),
        ("Contents", Object::Reference((5, 0))),
        ("Resources", Object::Dictionary(resources)),
    ]);
    let object = page_object(ObjectId::new(1), ObjectId::new(5), ObjectId::new(4));
    assert_eq!(object, Object::Dictionary(expected));
}

#[test]
fn the_page_tree_lists_its_kids() {
    let kids = vec![ObjectId::new(6), ObjectId::new(9)];
    let expected = dictionary(vec![
        ("Type", name("Pages")),
        ("Kids", Object::Array(vec![Object::Reference((6, 0)), Object::Reference((9, 0))])),
        ("Count", Object::Integer(2)),
        ("Resources", Object::Reference((3, 0))),
        (
            "MediaBox",
            Object::Array(vec![
                Object::Integer(0),
                Object::Integer(0),
                Object::Integer(595),
                Object::Integer(842),
            ]),
        ),
    ]);
    let object = tree_object(&kids, ObjectId::new(3), &Layout::default());
    assert_eq!(object, Object::Dictionary(expected));
}

#[test]
fn the_catalog_names_the_page_tree() {
    let expected =
        dictionary(vec![("Type", name("Catalog")), ("Pages", Object::Reference((1, 0)))]);
    assert_eq!(catalog_object(ObjectId::new(1)), Object::Dictionary(expected));
}

#[test]
fn assembly_goes_through_its_stages() {
    let mut assembler = DocumentAssembler::new(Layout::default());
    assert_eq!(assembler.current_stage(), Stage::Empty);
    assert_eq!(assembler.page_total(), 0);
    assert_eq!(assembler.next_image_id(), ObjectId::new(4));
    let first = assembler.add_page(vec![1], b"q Q".to_vec());
    assert_eq!(assembler.current_stage(), Stage::PagesBuilding);
    assert_eq!(first, ObjectId::new(6));
    assert_eq!(assembler.next_image_id(), ObjectId::new(7));
    let second = assembler.add_page(vec![2], b"q Q".to_vec());
    assert_eq!(second, ObjectId::new(9));
    assert_eq!(assembler.page_total(), 2);
    assembler.seal();
    assert_eq!(assembler.current_stage(), Stage::TreeSealed);
    let root = assembler.link();
    assert_eq!(assembler.current_stage(), Stage::CatalogLinked);
    assert_eq!(root, ObjectId::new(10));
    let bytes = assembler.serialize().unwrap();
    let document = Document::load_mem(&bytes).unwrap();
    assert_eq!(document.version, "1.5");
    for number in 1..=10 {
        assert!(document.get_object((number, 0)).is_ok());
    }
    assert_eq!(document.trailer.get(b"Root").unwrap(), &Object::Reference((10, 0)));
    let pages = document.get_pages();
    assert_eq!(pages.len(), 2);
    assert_eq!(pages[&1], (6, 0));
    assert_eq!(pages[&2], (9, 0));
    let content = document.get_object((8, 0)).unwrap().as_stream().unwrap();
    assert_eq!(content.content, b"q Q".to_vec());
    assert_eq!(document.get_page_contents((9, 0)), vec![(8, 0)]);
    assert_eq!(document.get_object((7, 0)).unwrap().as_stream().unwrap().content, vec![2]);
}

#[test]
fn the_default_layout_has_the_usual_measures() {
    let layout = Layout::default();
    assert_eq!(layout.capacity, 50);
    assert_eq!((layout.page_width, layout.page_height), (595, 842));
    assert_eq!((layout.image_width, layout.image_height), (814, 613));
    assert_eq!(layout.image_divisor, 3);
    assert_eq!(layout.line_height, 12);
    assert_eq!((layout.title_size, layout.body_size), (24, 12));
    assert!(layout.is_valid());
}

#[test]
fn a_layout_needs_capacity_and_divisor() {
    assert!(!Layout { capacity: 0, ..Layout::default() }.is_valid());
    assert!(!Layout { image_divisor: 0, ..Layout::default() }.is_valid());
    assert!(Layout { capacity: 1, image_divisor: 1, ..Layout::default() }.is_valid());
}
