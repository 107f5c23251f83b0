use gigaam::error::{GigaamError, IoKind};
use gigaam::vocab::{load_vocab, parse_vocab, vocab_fits};

#[test]
fn vocabulary_is_a_table_by_id() {
    let content = "<unk> 0\n▁да 1\nнет 3\n<blk> 2\n";
    let (vocab, blank) = load_vocab(content).unwrap();
    assert_eq!(vocab, vec!["<unk>", " да", "<blk>", "нет"]);
    assert_eq!(blank, 2);
}

#[test]
fn gaps_are_empty_and_later_lines_win() {
    let content = "а 0\nб 4\nв 0\n<blk> 3";
    let (vocab, blank) = load_vocab(content).unwrap();
    assert_eq!(vocab, vec!["в", "", "", "<blk>", "б"]);
    assert_eq!(blank, 3);
}

#[test]
fn the_last_blank_counts() {
    let (vocab, blank) = load_vocab("<blk> 0\n<blk> 5\n").unwrap();
    assert_eq!(blank, 5);
    assert_eq!(vocab.len(), 6);
}

#[test]
fn tokens_may_be_empty_or_hold_spaces() {
    let entries = parse_vocab(" 7\na b c 8\n  9\n");
    assert_eq!(
        entries,
        vec![
            ("".to_string(), 7),
            ("a b c".to_string(), 8),
            (" ".to_string(), 9)
        ]
    );
}

#[test]
fn lines_without_token_or_number_are_passed_over() {
    let content = "\nnospace\nа x\nа -1\nа \n\r\nб 2\t\r\nв +3\nг 99999999999999999999999\n";
    assert_eq!(
        parse_vocab(content),
        vec![("б".to_string(), 2), ("в".to_string(), 3)]
    );
}

#[test]
fn a_vocabulary_needs_a_blank() {
    match load_vocab("а 0\nб 1\n") {
        Err(GigaamError::Io(kind, words)) => {
            assert_eq!(kind, IoKind::InvalidData);
            assert_eq!(words, "Missing <blk> token in GigaAM vocabulary")
        }
        other => panic!("{:?}", other),
    }
    assert!(load_vocab("").is_err());
}

#[test]
fn a_written_file_is_read_back() {
    let entries = vec![
        ("▁по".to_string(), 12usize),
        ("".to_string(), 0),
        ("x 1".to_string(), 3),
        ("<blk>".to_string(), 1024),
    ];
    let mut content = String::new();
    for (token, id) in &entries {
        content.push_str(&format!("{} {}\n", token, id));
    }
    assert_eq!(parse_vocab(&content), entries);
}

#[test]
fn no_mark_survives() {
    let (vocab, _) = load_vocab("▁▁а▁ 0\n<blk> 1\n").unwrap();
    assert_eq!(vocab[0], "  а ");
}

#[test]
fn huge_ids_do_not_fit() {
    assert!(vocab_fits(&parse_vocab("<blk> 1024\n")));
    assert!(vocab_fits(&Vec::new()));
    let content = format!("<blk> {}\n", usize::MAX);
    assert!(!vocab_fits(&parse_vocab(&content)));
    let limit = isize::MAX as usize / 24;
    assert!(vocab_fits(&vec![("a".to_string(), limit - 1)]));
    assert!(!vocab_fits(&vec![("a".to_string(), limit)]));
}
