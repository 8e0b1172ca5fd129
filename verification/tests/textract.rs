use prompt_scaler::drivers::Cost;
use prompt_scaler::json::Json;
use prompt_scaler::queues::ocr::engines::textract::{
    assemble_text, block_type_of, document_output, find_block, page_failure, page_output, Block,
    BlockType,
};
use prompt_scaler::queues::work::WorkStatus;

fn block(id: &str, block_type: BlockType, text: Option<&str>, children: Vec<&str>) -> Block {
    Block {
        id: Some(id.to_string()),
        block_type: Some(block_type),
        text: text.map(|t| t.to_string()),
        children: children.into_iter().map(|c| c.to_string()).collect(),
    }
}

fn two_pages() -> Vec<Block> {
    vec![
        block("pg1", BlockType::Page, None, vec!["t1", "l1", "l2"]),
        block("t1", BlockType::Layout, None, vec!["l1"]),
        block("l1", BlockType::Line, Some("Hello world"), vec!["w1", "w2"]),
        block("w1", BlockType::Word, Some("Hello"), vec![]),
        block("w2", BlockType::Word, Some("world"), vec![]),
        block("pg2", BlockType::Page, None, vec!["t2"]),
        block("t2", BlockType::Layout, None, vec!["l2"]),
        block("l2", BlockType::Line, Some("Bye"), vec![]),
    ]
}

#[test]
fn block_types_by_name() {
    assert_eq!(block_type_of("PAGE"), BlockType::Page);
    assert_eq!(block_type_of("LINE"), BlockType::Line);
    assert_eq!(block_type_of("WORD"), BlockType::Word);
    assert_eq!(block_type_of("LAYOUT_TEXT"), BlockType::Layout);
    assert_eq!(block_type_of("LAYOUT_"), BlockType::Layout);
    assert_eq!(block_type_of("LAYOUT"), BlockType::Other);
    assert_eq!(block_type_of("TABLE"), BlockType::Other);
}

#[test]
fn a_name_refers_to_the_last_block_that_has_it() {
    let mut blocks = two_pages();
    assert_eq!(find_block(&blocks, "l1"), Some(2));
    assert_eq!(find_block(&blocks, "zz"), None);
    blocks.push(block("l1", BlockType::Line, Some("Other"), vec![]));
    assert_eq!(find_block(&blocks, "l1"), Some(8));
    assert_eq!(find_block(&vec![], "l1"), None);
}

#[test]
fn layout_blocks_give_the_text() {
    assert_eq!(assemble_text(&two_pages(), false), Ok("Hello world\n\nBye\n\n".to_string()));
    assert_eq!(assemble_text(&two_pages(), true), Ok("Hello world\n\n\u{c}Bye\n\n".to_string()));
    assert_eq!(assemble_text(&vec![], true), Ok(String::new()));
}

#[test]
fn words_under_a_bare_layout_block_are_written() {
    let blocks = vec![
        block("t", BlockType::Layout, None, vec!["w1", "w2"]),
        block("w1", BlockType::Word, Some("a"), vec![]),
        block("w2", BlockType::Word, Some("b"), vec![]),
    ];
    assert_eq!(assemble_text(&blocks, false), Ok("a b \n".to_string()));
}

#[test]
fn a_block_is_written_once() {
    let blocks = vec![
        block("t1", BlockType::Layout, None, vec!["l", "l"]),
        block("t2", BlockType::Layout, None, vec!["l"]),
        block("l", BlockType::Line, Some("x"), vec![]),
    ];
    assert_eq!(assemble_text(&blocks, false), Ok("x\n\n".to_string()));
}

#[test]
fn blocks_that_name_each_other_end() {
    let blocks = vec![
        block("a", BlockType::Layout, Some("A"), vec!["b"]),
        block("b", BlockType::Layout, Some("B"), vec!["a", "c"]),
        block("c", BlockType::Line, Some("C"), vec!["b"]),
    ];
    assert_eq!(assemble_text(&blocks, false), Ok("AC\n\n".to_string()));
}

#[test]
fn page_breaks_stand_on_their_own_line() {
    let blocks = vec![
        block("pg1", BlockType::Page, None, vec![]),
        block("t", BlockType::Layout, None, vec!["w"]),
        block("w", BlockType::Word, Some("end"), vec![]),
        block("pg2", BlockType::Page, None, vec![]),
        block("pg3", BlockType::Page, None, vec![]),
    ];
    assert_eq!(assemble_text(&blocks, true), Ok("end \n\u{c}\n\u{c}".to_string()));
    let bare = vec![
        block("pg1", BlockType::Page, None, vec![]),
        block("pg2", BlockType::Page, None, vec![]),
    ];
    assert_eq!(assemble_text(&bare, true), Ok("\n\u{c}".to_string()));
    assert_eq!(assemble_text(&bare, false), Ok(String::new()));
}

#[test]
fn a_missing_child_is_an_error() {
    let blocks = vec![block("t", BlockType::Layout, None, vec!["gone"])];
    assert_eq!(assemble_text(&blocks, false), Err("gone".to_string()));
    assert_eq!(
        document_output(Json::Null, "s3://b/k".to_string(), WorkStatus::Okay, &blocks, false, Some(1)).err(),
        Some("Textract child block gone not found".to_string())
    );
    assert_eq!(page_output(&blocks).err(), Some("Textract child block gone not found".to_string()));
    let untyped = vec![Block { id: None, block_type: None, text: Some("x".to_string()), children: vec!["gone".to_string()] }];
    assert_eq!(assemble_text(&untyped, false), Ok(String::new()));
}

#[test]
fn records_of_an_analysis() {
    let out = document_output(
        Json::Text("d".to_string()),
        "s3://bucket/key.pdf".to_string(),
        WorkStatus::Incomplete,
        &two_pages(),
        true,
        Some(2),
    )
    .unwrap();
    assert_eq!(out.id, Json::Text("d".to_string()));
    assert_eq!(out.status, WorkStatus::Incomplete);
    assert!(out.errors.is_empty());
    assert_eq!(out.estimated_cost, Some(Cost { picodollars: 8_000_000_000 }));
    assert_eq!(out.token_usage, None);
    assert_eq!(out.data.path, "s3://bucket/key.pdf");
    assert_eq!(out.data.text, Some("Hello world\n\n\u{c}Bye\n\n".to_string()));
    assert_eq!(out.data.page_count, Some(2));
    let unknown = document_output(Json::Null, "p".to_string(), WorkStatus::Okay, &vec![], false, None).unwrap();
    assert_eq!(unknown.data.page_count, Some(0));
    assert_eq!(unknown.estimated_cost, Some(Cost { picodollars: 0 }));
    let negative = document_output(Json::Null, "p".to_string(), WorkStatus::Okay, &vec![], false, Some(-1)).unwrap();
    assert_eq!(negative.data.page_count, None);
    let page = page_output(&two_pages()).unwrap();
    assert_eq!(page.text, Some("Hello world\n\nBye\n\n".to_string()));
    assert_eq!(page.estimated_cost, Some(Cost { picodollars: 4_000_000_000 }));
    let failed = page_failure("throttled");
    assert_eq!(failed.text, None);
    assert_eq!(failed.errors, vec!["AWS Textract error: throttled".to_string()]);
    assert_eq!(failed.estimated_cost, None);
}
