use goldsrc_rs::error::DecodeError;

#[test]
fn one_block_one_pair() {
    let text = b"{\n\"classname\" \"worldspawn\"\n}\n";
    let es = goldsrc_rs::entities::map(text, text.len()).unwrap();
    assert_eq!(es.len(), 1);
    assert_eq!(
        es[0].get(&"classname".to_string()),
        Some(&"worldspawn".to_string())
    );
    assert_eq!(es[0].get(&"origin".to_string()), None);
}

#[test]
fn several_blocks_in_order() {
    let text = b"{\n\"classname\" \"worldspawn\"\n}\n{\n\"classname\" \"light\"\n\"brightness\" \"200\"\n}\n";
    let es = goldsrc_rs::entities::map(text, text.len()).unwrap();
    assert_eq!(es.len(), 2);
    assert_eq!(
        es[0].get(&"classname".to_string()),
        Some(&"worldspawn".to_string())
    );
    assert_eq!(
        es[1].get(&"classname".to_string()),
        Some(&"light".to_string())
    );
    assert_eq!(es[1].get(&"brightness".to_string()), Some(&"200".to_string()));
}

#[test]
fn later_pair_overrides_earlier() {
    let text = b"{\n\"wad\" \"first\"\n\"wad\" \"second\"\n}\n";
    let es = goldsrc_rs::entities::map(text, text.len()).unwrap();
    assert_eq!(es.len(), 1);
    assert_eq!(es[0].get(&"wad".to_string()), Some(&"second".to_string()));
    assert_eq!(es[0].props.len(), 2);
}

#[test]
fn unparseable_lines_are_ignored() {
    // a pair before any block is dropped; lines without three quotes
    // are ignored
    let text = b"\"early\" \"dropped\"\nnoise here\n{\n\"k\" \"v\"\nhalf \"quoted\n}\n";
    let es = goldsrc_rs::entities::map(text, text.len()).unwrap();
    assert_eq!(es.len(), 1);
    assert_eq!(es[0].get(&"k".to_string()), Some(&"v".to_string()));
    assert_eq!(es[0].props.len(), 1);
    assert_eq!(es[0].get(&"early".to_string()), None);
}

#[test]
fn value_may_run_to_the_end_of_the_line() {
    // no fourth quote: the value reaches the line's end
    let text = b"{\n\"k\" \"open\n}\n";
    let es = goldsrc_rs::entities::map(text, text.len()).unwrap();
    assert_eq!(es[0].get(&"k".to_string()), Some(&"open".to_string()));
}

#[test]
fn bytes_that_are_not_text_are_replaced() {
    let mut text = b"{\n\"k\" \"".to_vec();
    text.push(0xFF);
    text.extend(b"\"\n}\n");
    let es = goldsrc_rs::entities::map(&text, text.len()).unwrap();
    assert_eq!(
        es[0].get(&"k".to_string()),
        Some(&"\u{FFFD}".to_string())
    );
}

#[test]
fn size_hint_is_honoured() {
    let text = b"{\n\"classname\" \"worldspawn\"\n}\n";
    // a hint past the end of the data is a truncation error
    assert_eq!(goldsrc_rs::entities::map(text, text.len() + 1), Err(DecodeError::UnexpectedEnd));
    // a shorter hint parses the prefix alone
    let es = goldsrc_rs::entities::map(text, 2).unwrap();
    assert_eq!(es.len(), 1);
    assert_eq!(es[0].props.len(), 0);
}

#[test]
fn empty_lump_has_no_entities() {
    let es = goldsrc_rs::entities::map(b"", 0).unwrap();
    assert!(es.is_empty());
    let es = goldsrc_rs::entities::map(b"\0", 1).unwrap();
    assert!(es.is_empty());
}
