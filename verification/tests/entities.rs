use bsp_parser::entities::{entity_from_items, parse_entities, Entity};

fn value<'a>(entity: &'a Entity, key: &str) -> Option<&'a str> {
    entity.get(key).map(|v| v.as_str())
}

#[test]
fn one_block_yields_one_entity() {
    let text = "{\n\"classname\" \"light\"\n\"origin\" \"0 0 0\"\n}\n";
    let entities = parse_entities(text.as_bytes()).unwrap();
    assert_eq!(entities.len(), 1);
    assert_eq!(entities[0].len(), 2);
    assert_eq!(value(&entities[0], "classname"), Some("light"));
    assert_eq!(value(&entities[0], "origin"), Some("0 0 0"));
    assert_eq!(value(&entities[0], "angles"), None);
}

#[test]
fn unmatched_brace_yields_no_block() {
    let text = "{\n\"classname\" \"light\"\n\"origin\" \"0 0 0\"\n";
    let entities = parse_entities(text.as_bytes()).unwrap();
    assert_eq!(entities.len(), 0);
}

#[test]
fn two_blocks_yield_two_entities_in_order() {
    let text = "{\n\"classname\" \"worldspawn\"\n}\n\
                {\n\"classname\" \"light\"\n\"_light\" \"255 255 255 200\"\n}\n";
    let entities = parse_entities(text.as_bytes()).unwrap();
    assert_eq!(entities.len(), 2);
    assert_eq!(value(&entities[0], "classname"), Some("worldspawn"));
    assert_eq!(entities[0].len(), 1);
    assert_eq!(value(&entities[1], "classname"), Some("light"));
    assert_eq!(value(&entities[1], "_light"), Some("255 255 255 200"));
    assert_eq!(entities[1].len(), 2);
}

#[test]
fn empty_text_has_no_entities() {
    assert_eq!(parse_entities(b"").unwrap().len(), 0);
    assert_eq!(parse_entities(b"no braces at all\n").unwrap().len(), 0);
    assert_eq!(parse_entities(b"}{").unwrap().len(), 0);
}

#[test]
fn later_value_of_a_key_wins() {
    let text = "{\n\"targetname\" \"a\"\n\"origin\" \"1 2 3\"\n\"targetname\" \"b\"\n}\n";
    let entities = parse_entities(text.as_bytes()).unwrap();
    assert_eq!(entities.len(), 1);
    assert_eq!(entities[0].len(), 2);
    assert_eq!(value(&entities[0], "targetname"), Some("b"));
    assert_eq!(value(&entities[0], "origin"), Some("1 2 3"));
}

#[test]
fn lines_of_another_form_are_passed_over() {
    let text = "{\n\"classname\" \"light\"\nnot a pair\n\"lonely\"\n\
                \"a\"  \"two spaces\"\n\"origin\" \"0 0 0\"\n}\n";
    let entities = parse_entities(text.as_bytes()).unwrap();
    assert_eq!(entities.len(), 1);
    assert_eq!(entities[0].len(), 2);
    assert_eq!(value(&entities[0], "classname"), Some("light"));
    assert_eq!(value(&entities[0], "origin"), Some("0 0 0"));
    assert_eq!(value(&entities[0], "lonely"), None);
    assert_eq!(value(&entities[0], "a"), None);
}

#[test]
fn a_pair_needs_its_end_of_line() {
    let entities = parse_entities(b"{\"a\" \"b\"}").unwrap();
    assert_eq!(entities.len(), 1);
    assert_eq!(entities[0].len(), 0);
    let entities = parse_entities(b"{\"a\" \"b\"\n}").unwrap();
    assert_eq!(entities.len(), 1);
    assert_eq!(value(&entities[0], "a"), Some("b"));
}

#[test]
fn a_block_ends_at_the_first_closing_brace_behind_one_character() {
    // The character behind the opening brace belongs to the block whatever
    // it is, so "{}" alone is no block and "{}}" is one.
    assert_eq!(parse_entities(b"{}").unwrap().len(), 0);
    assert_eq!(parse_entities(b"{}}").unwrap().len(), 1);
    assert_eq!(parse_entities(b"{x}{y}").unwrap().len(), 2);
    // A pair behind the first closing brace is outside the block.
    let entities = parse_entities(b"{\n\"a\" \"b\"\n}\n\"c\" \"d\"\n}").unwrap();
    assert_eq!(entities.len(), 1);
    assert_eq!(entities[0].len(), 1);
    assert_eq!(value(&entities[0], "c"), None);
}

#[test]
fn text_outside_blocks_is_passed_over() {
    let text = "\"stray\" \"pair\"\n{\n\"k\" \"v\"\n}\ntrailer";
    let entities = parse_entities(text.as_bytes()).unwrap();
    assert_eq!(entities.len(), 1);
    assert_eq!(entities[0].len(), 1);
    assert_eq!(value(&entities[0], "k"), Some("v"));
    assert_eq!(value(&entities[0], "stray"), None);
}

#[test]
fn bytes_that_are_no_utf8_are_replaced() {
    let mut text = Vec::new();
    text.extend_from_slice(b"{\n\"name\" \"caf");
    text.push(0xff);
    text.extend_from_slice(b"\"\n\"ok\" \"gr\xc3\xbcn\"\n}\n");
    let entities = parse_entities(&text).unwrap();
    assert_eq!(entities.len(), 1);
    assert_eq!(value(&entities[0], "name"), Some("caf\u{fffd}"));
    assert_eq!(value(&entities[0], "ok"), Some("gr\u{fc}n"));
}

#[test]
fn keys_and_values_hold_spaces_and_quotes() {
    let text = "{\n\"a key\" \"a \"quoted\" value\"\n}\n";
    let entities = parse_entities(text.as_bytes()).unwrap();
    assert_eq!(entities.len(), 1);
    assert_eq!(value(&entities[0], "a key"), Some("a \"quoted\" value"));
}

fn texts(groups: &[Option<&str>]) -> Vec<Option<String>> {
    groups.iter().map(|g| g.map(|s| s.to_string())).collect()
}

#[test]
fn entity_from_items_takes_group_one_and_two() {
    let items = vec![
        texts(&[Some("\"a\" \"1\"\n"), Some("a"), Some("1")]),
        texts(&[Some("\"b\" \"2\"\n"), Some("b"), Some("2")]),
        texts(&[Some("\"a\" \"3\"\n"), Some("a"), Some("3")]),
    ];
    let entity = entity_from_items(&items);
    assert_eq!(entity.len(), 2);
    assert_eq!(value(&entity, "a"), Some("3"));
    assert_eq!(value(&entity, "b"), Some("2"));
    // The whole match is no key.
    assert_eq!(value(&entity, "\"a\" \"1\"\n"), None);
}

#[test]
fn entity_from_items_passes_over_matches_without_both_groups() {
    let items = vec![
        texts(&[Some("x"), None, Some("1")]),
        texts(&[Some("x"), Some("k"), None]),
        texts(&[Some("x"), Some("k")]),
        texts(&[Some("x")]),
        texts(&[]),
        texts(&[None, Some("kept"), Some("v"), Some("more")]),
    ];
    let entity = entity_from_items(&items);
    assert_eq!(entity.len(), 1);
    assert_eq!(value(&entity, "kept"), Some("v"));
    assert_eq!(value(&entity, "k"), None);
    assert_eq!(entity_from_items(&vec![]).len(), 0);
}

#[test]
fn entity_insert_get_len() {
    let mut entity = Entity::new();
    assert_eq!(entity.len(), 0);
    assert_eq!(value(&entity, "a"), None);
    entity.insert("a".to_string(), "1".to_string());
    entity.insert("b".to_string(), "2".to_string());
    assert_eq!(entity.len(), 2);
    entity.insert("a".to_string(), "3".to_string());
    assert_eq!(entity.len(), 2);
    assert_eq!(value(&entity, "a"), Some("3"));
    assert_eq!(value(&entity, "b"), Some("2"));
    assert_eq!(value(&entity, ""), None);
    entity.insert(String::new(), "empty key".to_string());
    assert_eq!(entity.len(), 3);
    assert_eq!(value(&entity, ""), Some("empty key"));
    let pairs: Vec<(&str, &str)> =
        entity.pairs().iter().map(|(k, v)| (k.as_str(), v.as_str())).collect();
    assert_eq!(pairs, vec![("a", "3"), ("b", "2"), ("", "empty key")]);
}
