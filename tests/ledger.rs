use imhumane::Ledger;

const ID: &str = "5f0c2a8e-7d4b-4c1e-9a3f-2b6d8e0f1a2c";

fn flip_one_bit(answer: &str) -> String {
    let mut chars: Vec<char> = answer.chars().collect();
    chars[0] = if chars[0] == '1' { '0' } else { '1' };
    chars.into_iter().collect()
}

#[test]
fn grading_happy_path() {
    let mut ledger = Ledger::new();
    assert!(ledger.register(ID, "010011000".to_string()));
    assert!(ledger.check_answer(ID.to_string(), "010011000".to_string()));
    assert!(ledger.check_token(ID.to_string()));
    assert!(!ledger.check_token(ID.to_string()));
}

#[test]
fn wrong_answer_invalidates() {
    let mut ledger = Ledger::new();
    assert!(ledger.register(ID, "010011000".to_string()));
    assert!(!ledger.check_answer(ID.to_string(), flip_one_bit("010011000")));
    assert!(!ledger.check_answer(ID.to_string(), "010011000".to_string()));
    assert!(!ledger.check_token(ID.to_string()));
}

#[test]
fn unknown_id_is_refused() {
    let mut ledger = Ledger::new();
    let id = "00000000-0000-0000-0000-000000000000";
    assert!(!ledger.check_answer(id.to_string(), "000000000".to_string()));
    assert!(!ledger.check_token(id.to_string()));
}

#[test]
fn answer_is_single_use() {
    let mut ledger = Ledger::new();
    ledger.register(ID, "111".to_string());
    assert!(ledger.check_answer(ID.to_string(), "111".to_string()));
    assert!(!ledger.check_answer(ID.to_string(), "111".to_string()));
    assert!(ledger.check_token(ID.to_string()));
}

#[test]
fn token_is_single_use() {
    let mut ledger = Ledger::new();
    ledger.register_key(7, "1".to_string());
    assert!(ledger.check_answer_key(7, &"1".to_string()));
    assert!(ledger.check_token_key(7));
    assert!(!ledger.check_token_key(7));
}

#[test]
fn no_token_without_solve() {
    let mut ledger = Ledger::new();
    ledger.register(ID, "101".to_string());
    assert!(!ledger.check_token(ID.to_string()));
    assert!(ledger.check_answer(ID.to_string(), "101".to_string()));
    assert!(ledger.check_token(ID.to_string()));
}

#[test]
fn malformed_id_is_neither_registered_nor_accepted() {
    let mut ledger = Ledger::new();
    assert!(!ledger.register("not-a-uuid", "1".to_string()));
    assert!(!ledger.check_answer("not-a-uuid".to_string(), "1".to_string()));
    assert!(!ledger.check_token("not-a-uuid".to_string()));
}

#[test]
fn ids_are_read_as_uuids() {
    let mut ledger = Ledger::new();
    ledger.register(ID, "1".to_string());
    assert!(ledger.check_answer(ID.to_uppercase(), "1".to_string()));
    assert!(ledger.check_token(ID.replace('-', "")));
}

#[test]
fn register_replaces_earlier_answer() {
    let mut ledger = Ledger::new();
    ledger.register(ID, "1".to_string());
    ledger.register(ID, "0".to_string());
    assert!(ledger.check_answer(ID.to_string(), "0".to_string()));
}

#[test]
fn challenge_ids_are_parsed() {
    assert_eq!(imhumane::parse_challenge_id("00000000-0000-0000-0000-00000000002a").unwrap(), 42);
    assert!(matches!(imhumane::parse_challenge_id("nope"), Err(imhumane::Error::ParseUuid)));
}

fn drawn() -> imhumane::Draw {
    let cols: Vec<imhumane::Collection> = ["cats", "dogs"]
        .iter()
        .map(|name| imhumane::Collection {
            name: name.to_string(),
            images: (0..9).map(|i| format!("root/{}/{}.jpg", name, i).into_bytes()).collect(),
        })
        .collect();
    imhumane::draw_challenge(&cols, 3).unwrap()
}

#[test]
fn grading_happy_path_on_drawn_challenge() {
    let c = drawn();
    let mut ledger = Ledger::new();
    assert!(ledger.register(&c.id, c.answer.clone()));
    assert!(ledger.check_answer(c.id.clone(), c.answer.clone()));
    assert!(ledger.check_token(c.id.clone()));
    assert!(!ledger.check_token(c.id.clone()));
}

#[test]
fn wrong_answer_invalidates_drawn_challenge() {
    let c = drawn();
    let mut ledger = Ledger::new();
    assert!(ledger.register(&c.id, c.answer.clone()));
    assert!(!ledger.check_answer(c.id.clone(), flip_one_bit(&c.answer)));
    assert!(!ledger.check_answer(c.id.clone(), c.answer.clone()));
    assert!(!ledger.check_token(c.id.clone()));
}
