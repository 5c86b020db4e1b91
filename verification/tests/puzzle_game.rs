use puzzle_game::error::CallError;
use puzzle_game::logic::{challenge, get_puzzle_info, guess, initialize, set_puzzle};
use puzzle_game::puzzle::{Puzzle, PuzzleInfo};
use puzzle_game::router::{dispatch, handle_call, Output, CHALLENGE_SELECTOR,
    GET_PUZZLE_INFO_SELECTOR, GUESS_SELECTOR, SET_PUZZLE_SELECTOR};
use puzzle_game::store::{addr_eq, Address, PuzzleStore};
use puzzle_game::text::{copy_chars, matches_ignore_ascii_case, upper_char};

fn text(s: &str) -> Vec<char> {
    s.chars().collect()
}

fn puzzle(hint: &str, word: &str, reward: &str) -> Puzzle {
    Puzzle { hint: text(hint), word: text(word), reward: text(reward) }
}

fn addr(last: u8) -> Address {
    let mut bytes = vec![0u8; 20];
    bytes[19] = last;
    Address { bytes }
}

fn le32_bytes(v: u32) -> Vec<u8> {
    vec![
        (v % 0x100) as u8,
        ((v / 0x100) % 0x100) as u8,
        ((v / 0x1_0000) % 0x100) as u8,
        ((v / 0x100_0000) % 0x100) as u8,
    ]
}

fn le64_bytes(v: u64) -> Vec<u8> {
    let mut out = Vec::new();
    let mut rest = v;
    let mut i: usize = 0;
    while i < 8 {
        out.push((rest % 0x100) as u8);
        rest /= 0x100;
        i += 1;
    }
    out
}

fn text_bytes(s: &str) -> Vec<u8> {
    let chars = text(s);
    let mut out = le64_bytes(chars.len() as u64);
    for c in chars {
        out.extend(le32_bytes(c as u32));
    }
    out
}

fn set_puzzle_payload(hint: &str, word: &str, reward: &str) -> Vec<u8> {
    let mut out = text_bytes(hint);
    out.extend(text_bytes(word));
    out.extend(text_bytes(reward));
    out
}

#[test]
fn test_set_and_solve_puzzle() {
    let caller = Address {
        bytes: vec![
            0x1c, 0xCA, 0x28, 0x60, 0x0d, 0x74, 0x91, 0x36, 0x55, 0x20, 0xB3, 0x1b, 0x46, 0x6f,
            0x88, 0x64, 0x7B, 0x98, 0x39, 0xeC,
        ],
    };
    let mut store = initialize();
    set_puzzle(&mut store, &caller, puzzle("A fruit", "Apple", "You are the apple of my eye"));
    let info = get_puzzle_info(&store, &caller).unwrap();
    assert_eq!(info.hint, text("A fruit"));
    assert_eq!(info.size, 5);
}

#[test]
fn info_reports_hint_and_word_length() {
    let mut store = initialize();
    let owner = addr(7);
    set_puzzle(&mut store, &owner, puzzle("greets you", "hello", "well done"));
    let info = get_puzzle_info(&store, &owner).unwrap();
    assert_eq!(info.hint, text("greets you"));
    assert_eq!(info.size, 5);
}

#[test]
fn absent_address_fails_not_found() {
    let store = initialize();
    let nobody = addr(9);
    assert!(matches!(get_puzzle_info(&store, &nobody), Err(CallError::NotFound)));
    assert!(matches!(challenge(&store, &nobody, Some('x')), Err(CallError::NotFound)));
    assert!(matches!(guess(&store, &nobody, Some(text("word"))), Err(CallError::NotFound)));
}

#[test]
fn challenge_reveals_matching_positions() {
    let mut store = initialize();
    let owner = addr(1);
    set_puzzle(&mut store, &owner, puzzle("A fruit", "Apple", "a reward"));
    assert_eq!(challenge(&store, &owner, Some('P')).unwrap(), text("-pp--"));
    assert_eq!(challenge(&store, &owner, Some('a')).unwrap(), text("A----"));
    assert_eq!(challenge(&store, &owner, Some('x')).unwrap(), text("-----"));
}

#[test]
fn challenge_output_length_matches_word() {
    let mut store = initialize();
    let owner = addr(2);
    set_puzzle(&mut store, &owner, puzzle("long", "abracadabra", "prize"));
    let masked = challenge(&store, &owner, Some('b')).unwrap();
    assert_eq!(masked.len(), "abracadabra".len());
    assert_eq!(masked, text("-b------b--"));
}

#[test]
fn guess_is_case_insensitive() {
    let mut store = initialize();
    let owner = addr(3);
    set_puzzle(&mut store, &owner, puzzle("A fruit", "Apple", "You are the apple of my eye"));
    assert_eq!(guess(&store, &owner, Some(text("apple"))).unwrap(),
        text("You are the apple of my eye"));
    assert_eq!(guess(&store, &owner, Some(text("APPLE"))).unwrap(),
        text("You are the apple of my eye"));
    assert!(matches!(guess(&store, &owner, Some(text("banana"))), Err(CallError::WrongGuess)));
    assert!(matches!(guess(&store, &owner, Some(text("appl"))), Err(CallError::WrongGuess)));
}

#[test]
fn repeated_info_lookups_agree() {
    let mut store = initialize();
    let owner = addr(4);
    set_puzzle(&mut store, &owner, puzzle("hint", "word", "reward"));
    let first = get_puzzle_info(&store, &owner).unwrap();
    let second = get_puzzle_info(&store, &owner).unwrap();
    assert_eq!(first.hint, second.hint);
    assert_eq!(first.size, second.size);
}

#[test]
fn overwrite_leaves_only_second_puzzle() {
    let mut store = initialize();
    let owner = addr(5);
    set_puzzle(&mut store, &owner, puzzle("first hint", "alpha", "first reward"));
    set_puzzle(&mut store, &owner, puzzle("second hint", "betagamma", "second reward"));
    let info = get_puzzle_info(&store, &owner).unwrap();
    assert_eq!(info.hint, text("second hint"));
    assert_eq!(info.size, 9);
    assert!(matches!(guess(&store, &owner, Some(text("alpha"))), Err(CallError::WrongGuess)));
    assert_eq!(guess(&store, &owner, Some(text("BetaGamma"))).unwrap(), text("second reward"));
}

#[test]
fn missing_inputs_are_rejected() {
    let mut store = initialize();
    let owner = addr(6);
    set_puzzle(&mut store, &owner, puzzle("hint", "word", "reward"));
    assert!(matches!(challenge(&store, &owner, None), Err(CallError::MissingInput)));
    assert!(matches!(guess(&store, &owner, None), Err(CallError::MissingInput)));
}

#[test]
fn error_messages_name_each_kind() {
    assert_eq!(CallError::StorageError.message(), "the storage adapter failed to load or commit");
    assert_eq!(CallError::NotFound.message(), "there is no puzzle in this address");
    assert_eq!(CallError::MissingInput.message(), "a required input field is missing");
    assert_eq!(CallError::WrongGuess.message(), "the guess does not match the word");
    assert_eq!(CallError::UnknownOperation.message(), "the selector matches no operation");
    assert_eq!(CallError::DecodeError.message(), "the call payload could not be decoded");
}

#[test]
fn puzzle_info_projects_hint_and_size() {
    let info = PuzzleInfo::from(puzzle("A fruit", "Apple", "a reward"));
    assert_eq!(info.hint, text("A fruit"));
    assert_eq!(info.size, 5);
}

#[test]
fn upper_char_folds_ascii_only() {
    assert_eq!(upper_char('a'), 'A');
    assert_eq!(upper_char('z'), 'Z');
    assert_eq!(upper_char('M'), 'M');
    assert_eq!(upper_char('-'), '-');
    assert_eq!(upper_char('3'), '3');
    assert_eq!(upper_char('ä'), 'ä');
}

#[test]
fn case_insensitive_match_is_ascii_only() {
    assert!(matches_ignore_ascii_case(&text("hello"), &text("HeLLo")));
    assert!(!matches_ignore_ascii_case(&text("hello"), &text("hell")));
    assert!(!matches_ignore_ascii_case(&text("äpfel"), &text("Äpfel")));
}

#[test]
fn copy_and_compare_helpers() {
    let original = text("Apple");
    let copy = copy_chars(&original);
    assert_eq!(copy, original);
    assert!(addr_eq(&addr(8), &addr(8)));
    assert!(!addr_eq(&addr(8), &addr(9)));
}

#[test]
fn unknown_selector_is_rejected() {
    let mut store = initialize();
    let caller = addr(10);
    let r = dispatch(&mut store, &caller, 0xdead_beef, &Vec::new());
    assert!(matches!(r, Err(CallError::UnknownOperation)));
}

#[test]
fn dispatch_runs_a_whole_round() {
    let mut store = initialize();
    let owner = addr(11);
    let payload = set_puzzle_payload("A fruit", "Apple", "You are the apple of my eye");
    let r = dispatch(&mut store, &owner, SET_PUZZLE_SELECTOR, &payload);
    assert!(matches!(r, Ok(Output::Empty)));

    let asker = addr(12);
    let r = dispatch(&mut store, &asker, GET_PUZZLE_INFO_SELECTOR, &owner.bytes.clone());
    match r {
        Ok(Output::Info(info)) => {
            assert_eq!(info.hint, text("A fruit"));
            assert_eq!(info.size, 5);
        },
        _ => panic!("lookup through the router failed"),
    }

    let mut challenge_payload = owner.bytes.clone();
    challenge_payload.push(1);
    challenge_payload.extend(le32_bytes('P' as u32));
    let r = dispatch(&mut store, &asker, CHALLENGE_SELECTOR, &challenge_payload);
    match r {
        Ok(Output::Masked(masked)) => assert_eq!(masked, text("-pp--")),
        _ => panic!("challenge through the router failed"),
    }

    let mut guess_payload = owner.bytes.clone();
    guess_payload.push(1);
    guess_payload.extend(text_bytes("apple"));
    let r = dispatch(&mut store, &asker, GUESS_SELECTOR, &guess_payload);
    match r {
        Ok(Output::Reward(reward)) => assert_eq!(reward, text("You are the apple of my eye")),
        _ => panic!("guess through the router failed"),
    }
}

#[test]
fn dispatch_reports_missing_inputs() {
    let mut store = initialize();
    let owner = addr(13);
    let payload = set_puzzle_payload("hint", "word", "reward");
    dispatch(&mut store, &owner, SET_PUZZLE_SELECTOR, &payload).ok().unwrap();

    let mut absent_letter = owner.bytes.clone();
    absent_letter.push(0);
    let r = dispatch(&mut store, &owner, CHALLENGE_SELECTOR, &absent_letter);
    assert!(matches!(r, Err(CallError::MissingInput)));

    let mut absent_attempt = owner.bytes.clone();
    absent_attempt.push(0);
    let r = dispatch(&mut store, &owner, GUESS_SELECTOR, &absent_attempt);
    assert!(matches!(r, Err(CallError::MissingInput)));
}

#[test]
fn malformed_payloads_are_decode_errors() {
    let mut store = initialize();
    let caller = addr(14);

    let r = dispatch(&mut store, &caller, GET_PUZZLE_INFO_SELECTOR, &vec![0u8; 19]);
    assert!(matches!(r, Err(CallError::DecodeError)));

    let mut surrogate = addr(15).bytes;
    surrogate.push(1);
    surrogate.extend(le32_bytes(0xD800));
    let r = dispatch(&mut store, &caller, CHALLENGE_SELECTOR, &surrogate);
    assert!(matches!(r, Err(CallError::DecodeError)));

    let empty_word = set_puzzle_payload("hint", "", "reward");
    let r = dispatch(&mut store, &caller, SET_PUZZLE_SELECTOR, &empty_word);
    assert!(matches!(r, Err(CallError::DecodeError)));

    let mut trailing = addr(15).bytes;
    trailing.push(1);
    trailing.extend(text_bytes("word"));
    trailing.push(0);
    let r = dispatch(&mut store, &caller, GUESS_SELECTOR, &trailing);
    assert!(matches!(r, Err(CallError::DecodeError)));

    let mut bad_flag = addr(15).bytes;
    bad_flag.push(2);
    let r = dispatch(&mut store, &caller, CHALLENGE_SELECTOR, &bad_flag);
    assert!(matches!(r, Err(CallError::DecodeError)));

    let truncated = set_puzzle_payload("hint", "word", "reward")[..30].to_vec();
    let r = dispatch(&mut store, &caller, SET_PUZZLE_SELECTOR, &truncated);
    assert!(matches!(r, Err(CallError::DecodeError)));
}

#[test]
fn failed_calls_leave_the_store_unchanged() {
    let mut store = initialize();
    let owner = addr(16);
    let payload = set_puzzle_payload("hint", "secret", "reward");
    dispatch(&mut store, &owner, SET_PUZZLE_SELECTOR, &payload).ok().unwrap();

    let bad = set_puzzle_payload("other", "", "other");
    let r = dispatch(&mut store, &owner, SET_PUZZLE_SELECTOR, &bad);
    assert!(matches!(r, Err(CallError::DecodeError)));

    let info = get_puzzle_info(&store, &owner).unwrap();
    assert_eq!(info.hint, text("hint"));
    assert_eq!(info.size, 6);
}

#[test]
fn handle_call_encodes_the_reply() {
    let mut store = initialize();
    let owner = addr(17);
    let payload = set_puzzle_payload("A fruit", "Apple", "a reward");
    let r = handle_call(&mut store, &owner, SET_PUZZLE_SELECTOR, &payload);
    assert_eq!(r.unwrap(), Vec::<u8>::new());

    let r = handle_call(&mut store, &owner, GET_PUZZLE_INFO_SELECTOR, &owner.bytes.clone());
    let mut expected = le64_bytes(5);
    expected.extend(text_bytes("A fruit"));
    assert_eq!(r.unwrap(), expected);

    let mut guess_payload = owner.bytes.clone();
    guess_payload.push(1);
    guess_payload.extend(text_bytes("APPLE"));
    let r = handle_call(&mut store, &owner, GUESS_SELECTOR, &guess_payload);
    assert_eq!(r.unwrap(), text_bytes("a reward")[..].to_vec());
}
