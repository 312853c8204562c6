use quiz_program::address::{
    answer_seeds_of, derive_address, question_seeds_of, score_seeds_of, session_seeds_of,
    with_bump,
};
use quiz_program::state::Address;
use solana_program::pubkey::Pubkey;

fn key(n: u8) -> Address {
    Address::new([n; 32])
}

#[test]
fn session_seeds_are_tag_and_host() {
    assert_eq!(session_seeds_of(&key(3)), vec![b"quiz_session".to_vec(), vec![3u8; 32]]);
}

#[test]
fn question_seeds_are_tag_session_and_index() {
    assert_eq!(
        question_seeds_of(&key(3), 7),
        vec![b"quiz_question".to_vec(), vec![3u8; 32], vec![7u8]]
    );
}

#[test]
fn answer_seeds_are_tag_session_and_player() {
    assert_eq!(
        answer_seeds_of(&key(3), &key(4)),
        vec![b"player_answer".to_vec(), vec![3u8; 32], vec![4u8; 32]]
    );
}

#[test]
fn score_seeds_are_tag_session_and_player() {
    assert_eq!(
        score_seeds_of(&key(3), &key(4)),
        vec![b"player_score".to_vec(), vec![3u8; 32], vec![4u8; 32]]
    );
}

#[test]
fn with_bump_appends_one_byte_seed() {
    assert_eq!(
        with_bump(vec![b"a".to_vec(), b"bc".to_vec()], 254),
        vec![b"a".to_vec(), b"bc".to_vec(), vec![254u8]]
    );
}

#[test]
fn derive_address_is_the_program_derived_address() {
    let program = Pubkey::new_from_array([42u8; 32]);
    let host = [3u8; 32];
    let (expected, expected_bump) =
        Pubkey::find_program_address(&[b"quiz_session", &host], &program);
    let found = derive_address(&session_seeds_of(&key(3)), &key(42));
    assert_eq!(found, Some((Address::new(expected.to_bytes()), expected_bump)));
}

#[test]
fn derived_address_is_recreated_from_seeds_and_bump() {
    let program = key(42);
    let seeds = question_seeds_of(&key(1), 0);
    let (address, bump) = derive_address(&seeds, &program).unwrap();
    let signing = with_bump(seeds, bump);
    let parts: Vec<&[u8]> = signing.iter().map(|s| s.as_slice()).collect();
    let recreated =
        Pubkey::create_program_address(&parts, &Pubkey::new_from_array(program.bytes)).unwrap();
    assert_eq!(recreated.to_bytes(), address.bytes);
}

#[test]
fn derive_address_is_deterministic() {
    let seeds = score_seeds_of(&key(1), &key(2));
    assert_eq!(derive_address(&seeds, &key(9)), derive_address(&seeds, &key(9)));
}

#[test]
fn derive_address_depends_on_each_input() {
    let base = derive_address(&question_seeds_of(&key(1), 0), &key(9)).unwrap().0;
    let other_index = derive_address(&question_seeds_of(&key(1), 1), &key(9)).unwrap().0;
    let other_session = derive_address(&question_seeds_of(&key(2), 0), &key(9)).unwrap().0;
    let other_program = derive_address(&question_seeds_of(&key(1), 0), &key(8)).unwrap().0;
    assert_ne!(base, other_index);
    assert_ne!(base, other_session);
    assert_ne!(base, other_program);
    assert_ne!(base, key(1));
    assert_ne!(base, key(9));
}

#[test]
fn derive_address_of_no_seeds() {
    let program = Pubkey::new_from_array([1u8; 32]);
    let (expected, bump) = Pubkey::find_program_address(&[], &program);
    assert_eq!(
        derive_address(&vec![], &key(1)),
        Some((Address::new(expected.to_bytes()), bump))
    );
}

#[test]
fn derive_address_refuses_a_seed_longer_than_32_bytes() {
    assert_eq!(derive_address(&vec![vec![0u8; 33]], &key(1)), None);
}

#[test]
fn derive_address_refuses_16_seeds() {
    let seeds: Vec<Vec<u8>> = (0..16u8).map(|i| vec![i]).collect();
    assert_eq!(derive_address(&seeds, &key(1)), None);
    let seeds: Vec<Vec<u8>> = (0..15u8).map(|i| vec![i]).collect();
    assert!(derive_address(&seeds, &key(1)).is_some());
}
