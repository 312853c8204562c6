use quiz_program::action::Action;
use quiz_program::address::{
    answer_seeds_of, derive_address, question_seeds_of, score_seeds_of, session_seeds_of,
    with_bump,
};
use quiz_program::error::QuizError;
use quiz_program::processor::{
    process_add_question, process_calculate_scores, process_commit_answers,
    process_delegate_player, process_initialize_quiz, process_instruction,
    process_start_quiz, process_submit_answers, process_undelegate_player,
};
use quiz_program::state::{
    Account, Address, PlayerAnswer, PlayerScore, QuizQuestion, QuizSession,
};

fn key(n: u8) -> Address {
    Address::new([n; 32])
}

fn program() -> Address {
    key(200)
}

fn host() -> Address {
    key(1)
}

fn signer(k: Address) -> Account {
    Account { key: k, is_signer: true, data: vec![] }
}

fn plain(k: Address) -> Account {
    Account { key: k, is_signer: false, data: vec![] }
}

fn record(k: Address, data: Vec<u8>) -> Account {
    Account { key: k, is_signer: false, data }
}

fn session_address() -> (Address, u8) {
    derive_address(&session_seeds_of(&host()), &program()).unwrap()
}

fn session(question_count: u8, player_count: u8, active: bool, completed: bool) -> QuizSession {
    QuizSession { host: host(), question_count, player_count, active, completed }
}

fn session_account(s: QuizSession) -> Account {
    record(session_address().0, s.to_bytes())
}

fn question(correct: u8) -> QuizQuestion {
    QuizQuestion {
        question_text: "Which one?".to_string(),
        options: ["a".to_string(), "b".to_string(), "c".to_string(), "d".to_string()],
        correct_answer_index: correct,
    }
}

fn question_account(index: u8, correct: u8) -> Account {
    let address = derive_address(&question_seeds_of(&session_address().0, index), &program())
        .unwrap()
        .0;
    record(address, question(correct).to_bytes().unwrap())
}

fn answer_account(player: Address, answers: Vec<u8>) -> Account {
    let address = derive_address(&answer_seeds_of(&session_address().0, &player), &program())
        .unwrap()
        .0;
    record(address, PlayerAnswer { player, answers }.to_bytes().unwrap())
}

fn score_address(player: Address) -> (Address, u8) {
    derive_address(&score_seeds_of(&session_address().0, &player), &program()).unwrap()
}

fn system_program() -> Account {
    plain(key(0))
}

fn written(plan: &[Action], record: usize) -> Vec<u8> {
    let mut found = None;
    for step in plan {
        if let Action::WriteRecord { record: r, data } = step {
            if *r == record {
                found = Some(data.clone());
            }
        }
    }
    found.unwrap()
}

// ---- InitializeQuiz ----

#[test]
fn initialize_creates_and_writes_the_session() {
    let (address, bump) = session_address();
    let accounts = vec![signer(host()), plain(address), system_program()];
    let plan = process_initialize_quiz(&program(), &accounts, 5).unwrap();
    assert_eq!(
        plan,
        vec![
            Action::CreateRecord {
                payer: 0,
                record: 1,
                system_program: 2,
                space: 36,
                seeds: vec![b"quiz_session".to_vec(), vec![1u8; 32], vec![bump]],
            },
            Action::WriteRecord { record: 1, data: session(5, 0, false, false).to_bytes() },
        ]
    );
}

#[test]
fn initialize_then_read_yields_a_created_session() {
    for question_count in [0u8, 1, 2, 255] {
        let accounts = vec![signer(host()), plain(session_address().0), system_program()];
        let plan = process_initialize_quiz(&program(), &accounts, question_count).unwrap();
        let read = QuizSession::try_from_slice(&written(&plan, 1)).unwrap();
        assert_eq!(read, session(question_count, 0, false, false));
    }
}

#[test]
fn initialize_unsigned_is_unauthorized() {
    let accounts = vec![plain(host()), plain(session_address().0), system_program()];
    assert_eq!(process_initialize_quiz(&program(), &accounts, 5), Err(QuizError::Unauthorized));
}

#[test]
fn initialize_at_wrong_address_is_a_mismatch() {
    let accounts = vec![signer(host()), plain(key(77)), system_program()];
    assert_eq!(
        process_initialize_quiz(&program(), &accounts, 5),
        Err(QuizError::AddressMismatch)
    );
}

#[test]
fn initialize_at_another_hosts_address_is_a_mismatch() {
    let accounts = vec![signer(key(2)), plain(session_address().0), system_program()];
    assert_eq!(
        process_initialize_quiz(&program(), &accounts, 5),
        Err(QuizError::AddressMismatch)
    );
}

#[test]
fn initialize_with_too_few_accounts_is_malformed() {
    let accounts = vec![signer(host()), plain(session_address().0)];
    assert_eq!(process_initialize_quiz(&program(), &accounts, 5), Err(QuizError::MalformedInput));
    assert_eq!(process_initialize_quiz(&program(), &[], 5), Err(QuizError::MalformedInput));
}

// ---- AddQuestion ----

fn add_question_accounts(s: QuizSession, index: u8) -> Vec<Account> {
    let address = derive_address(&question_seeds_of(&session_address().0, index), &program())
        .unwrap()
        .0;
    vec![signer(host()), session_account(s), plain(address), system_program()]
}

fn add(accounts: &[Account], index: u8) -> Result<Vec<Action>, QuizError> {
    let q = question(2);
    process_add_question(
        &program(),
        accounts,
        index,
        q.question_text,
        q.options,
        q.correct_answer_index,
    )
}

#[test]
fn add_question_creates_a_record_of_exactly_its_size() {
    let accounts = add_question_accounts(session(2, 0, false, false), 1);
    let plan = add(&accounts, 1).unwrap();
    let bytes = question(2).to_bytes().unwrap();
    let (_, bump) =
        derive_address(&question_seeds_of(&session_address().0, 1), &program()).unwrap();
    assert_eq!(bytes.len(), 10 + 4 + 4 * 5 + 1);
    assert_eq!(
        plan,
        vec![
            Action::CreateRecord {
                payer: 0,
                record: 2,
                system_program: 3,
                space: bytes.len(),
                seeds: with_bump(question_seeds_of(&session_address().0, 1), bump),
            },
            Action::WriteRecord { record: 2, data: bytes },
        ]
    );
}

#[test]
fn add_question_then_read_yields_the_question() {
    let accounts = add_question_accounts(session(2, 0, false, false), 0);
    let plan = add(&accounts, 0).unwrap();
    assert_eq!(QuizQuestion::try_from_slice(&written(&plan, 2)), Some(question(2)));
}

#[test]
fn add_question_after_start_is_invalid_state() {
    let accounts = add_question_accounts(session(2, 0, true, false), 0);
    assert_eq!(add(&accounts, 0), Err(QuizError::InvalidState));
    let accounts = add_question_accounts(session(2, 3, true, true), 0);
    assert_eq!(add(&accounts, 0), Err(QuizError::InvalidState));
}

#[test]
fn add_question_after_start_quiz_call_is_invalid_state() {
    let mut accounts = add_question_accounts(session(2, 0, false, false), 0);
    let plan = process_start_quiz(&program(), &accounts[..2]).unwrap();
    accounts[1].data = written(&plan, 1);
    assert_eq!(add(&accounts, 0), Err(QuizError::InvalidState));
}

#[test]
fn add_question_by_non_host_is_unauthorized() {
    let mut accounts = add_question_accounts(session(2, 0, false, false), 0);
    accounts[0] = signer(key(9));
    assert_eq!(add(&accounts, 0), Err(QuizError::Unauthorized));
    let mut accounts = add_question_accounts(session(2, 0, true, false), 0);
    accounts[0] = signer(key(9));
    assert_eq!(add(&accounts, 0), Err(QuizError::Unauthorized));
}

#[test]
fn add_question_unsigned_is_unauthorized() {
    let mut accounts = add_question_accounts(session(2, 0, false, false), 0);
    accounts[0].is_signer = false;
    assert_eq!(add(&accounts, 0), Err(QuizError::Unauthorized));
}

#[test]
fn add_question_at_the_address_of_another_index_is_a_mismatch() {
    let accounts = add_question_accounts(session(2, 0, false, false), 0);
    assert_eq!(add(&accounts, 1), Err(QuizError::AddressMismatch));
}

#[test]
fn add_question_with_unreadable_session_is_a_store_failure() {
    let mut accounts = add_question_accounts(session(2, 0, false, false), 0);
    accounts[1].data.pop();
    assert_eq!(add(&accounts, 0), Err(QuizError::StoreFailure));
}

#[test]
fn add_question_with_too_few_accounts_is_malformed() {
    let accounts = add_question_accounts(session(2, 0, false, false), 0);
    assert_eq!(add(&accounts[..3], 0), Err(QuizError::MalformedInput));
}

// ---- StartQuiz ----

#[test]
fn start_quiz_activates_the_session() {
    let accounts = vec![signer(host()), session_account(session(2, 0, false, false))];
    let plan = process_start_quiz(&program(), &accounts).unwrap();
    assert_eq!(
        plan,
        vec![Action::WriteRecord { record: 1, data: session(2, 0, true, false).to_bytes() }]
    );
}

#[test]
fn start_quiz_again_writes_the_same_state() {
    let accounts = vec![signer(host()), session_account(session(2, 4, true, false))];
    let plan = process_start_quiz(&program(), &accounts).unwrap();
    assert_eq!(written(&plan, 1), accounts[1].data);
}

#[test]
fn start_quiz_by_non_host_is_unauthorized() {
    let accounts = vec![signer(key(9)), session_account(session(2, 0, false, false))];
    assert_eq!(process_start_quiz(&program(), &accounts), Err(QuizError::Unauthorized));
}

#[test]
fn start_quiz_unsigned_is_unauthorized() {
    let accounts = vec![plain(host()), session_account(session(2, 0, false, false))];
    assert_eq!(process_start_quiz(&program(), &accounts), Err(QuizError::Unauthorized));
}

#[test]
fn start_quiz_with_unreadable_session_is_a_store_failure() {
    let accounts = vec![signer(host()), record(session_address().0, vec![1, 2, 3])];
    assert_eq!(process_start_quiz(&program(), &accounts), Err(QuizError::StoreFailure));
}

#[test]
fn start_quiz_with_too_few_accounts_is_malformed() {
    assert_eq!(
        process_start_quiz(&program(), &[signer(host())]),
        Err(QuizError::MalformedInput)
    );
}

// ---- DelegatePlayer ----

fn delegate_accounts(player: Account, s: QuizSession) -> Vec<Account> {
    let answer = answer_account(player.key, vec![]);
    vec![
        player,
        system_program(),
        answer,
        plain(program()),
        plain(key(50)),
        plain(key(51)),
        plain(key(52)),
        plain(key(53)),
        session_account(s),
    ]
}

#[test]
fn delegate_counts_the_player_and_hands_the_record_over() {
    let accounts = delegate_accounts(signer(key(7)), session(2, 4, true, false));
    let plan = process_delegate_player(&program(), &accounts).unwrap();
    assert_eq!(
        plan,
        vec![
            Action::WriteRecord { record: 8, data: session(2, 5, true, false).to_bytes() },
            Action::Delegate {
                payer: 0,
                record: 2,
                owner_program: 3,
                buffer: 4,
                delegation_record: 5,
                delegation_metadata: 6,
                delegation_program: 7,
                system_program: 1,
                seeds: vec![
                    b"player_answer".to_vec(),
                    session_address().0.to_vec(),
                    vec![7u8; 32],
                ],
                commit_frequency_ms: 1000,
                validator: Some(Address::new([0u8; 32])),
            },
        ]
    );
}

#[test]
fn delegate_twice_counts_twice() {
    let mut accounts = delegate_accounts(signer(key(7)), session(2, 0, true, false));
    let plan = process_delegate_player(&program(), &accounts).unwrap();
    accounts[8].data = written(&plan, 8);
    let plan = process_delegate_player(&program(), &accounts).unwrap();
    assert_eq!(
        QuizSession::try_from_slice(&written(&plan, 8)),
        Some(session(2, 2, true, false))
    );
}

#[test]
fn delegate_before_start_is_invalid_state() {
    let accounts = delegate_accounts(signer(key(7)), session(2, 0, false, false));
    assert_eq!(process_delegate_player(&program(), &accounts), Err(QuizError::InvalidState));
}

#[test]
fn delegate_after_completion_is_invalid_state() {
    let accounts = delegate_accounts(signer(key(7)), session(2, 1, true, true));
    assert_eq!(process_delegate_player(&program(), &accounts), Err(QuizError::InvalidState));
}

#[test]
fn delegate_into_a_full_session_is_invalid_state() {
    let accounts = delegate_accounts(signer(key(7)), session(2, 255, true, false));
    assert_eq!(process_delegate_player(&program(), &accounts), Err(QuizError::InvalidState));
    let accounts = delegate_accounts(signer(key(7)), session(2, 254, true, false));
    let plan = process_delegate_player(&program(), &accounts).unwrap();
    assert_eq!(
        QuizSession::try_from_slice(&written(&plan, 8)),
        Some(session(2, 255, true, false))
    );
}

#[test]
fn delegate_unsigned_is_unauthorized() {
    let accounts = delegate_accounts(plain(key(7)), session(2, 0, true, false));
    assert_eq!(process_delegate_player(&program(), &accounts), Err(QuizError::Unauthorized));
}

#[test]
fn delegate_with_unreadable_session_is_a_store_failure() {
    let mut accounts = delegate_accounts(signer(key(7)), session(2, 0, true, false));
    accounts[8].data[34] = 2;
    assert_eq!(process_delegate_player(&program(), &accounts), Err(QuizError::StoreFailure));
}

#[test]
fn delegate_with_too_few_accounts_is_malformed() {
    let accounts = delegate_accounts(signer(key(7)), session(2, 0, true, false));
    assert_eq!(
        process_delegate_player(&program(), &accounts[..8]),
        Err(QuizError::MalformedInput)
    );
}

// ---- SubmitAnswers ----

fn submit_accounts(s: QuizSession, record_len: usize) -> Vec<Account> {
    let mut answer = answer_account(key(7), vec![]);
    answer.data = vec![0u8; record_len];
    vec![signer(key(7)), answer, session_account(s)]
}

#[test]
fn submit_writes_the_answers_under_the_player() {
    let accounts = submit_accounts(session(2, 1, true, false), 38);
    let plan = process_submit_answers(&program(), &accounts, vec![1, 3]).unwrap();
    let mut expected = vec![7u8; 32];
    expected.extend_from_slice(&[2, 0, 0, 0, 1, 3]);
    assert_eq!(plan, vec![Action::WriteRecord { record: 1, data: expected }]);
}

#[test]
fn submit_then_read_yields_exactly_those_answers() {
    let accounts = submit_accounts(session(3, 1, true, false), PlayerAnswer::get_size(3));
    let plan = process_submit_answers(&program(), &accounts, vec![0, 3, 2]).unwrap();
    let mut stored = accounts[1].data.clone();
    let data = written(&plan, 1);
    stored[..data.len()].copy_from_slice(&data);
    assert_eq!(
        PlayerAnswer::try_from_slice(&stored),
        Some(PlayerAnswer { player: key(7), answers: vec![0, 3, 2] })
    );
}

#[test]
fn submit_with_wrong_count_is_malformed() {
    let accounts = submit_accounts(session(2, 1, true, false), 64);
    assert_eq!(
        process_submit_answers(&program(), &accounts, vec![1, 3, 9]),
        Err(QuizError::MalformedInput)
    );
    assert_eq!(
        process_submit_answers(&program(), &accounts, vec![1]),
        Err(QuizError::MalformedInput)
    );
    assert_eq!(
        process_submit_answers(&program(), &accounts, vec![]),
        Err(QuizError::MalformedInput)
    );
}

#[test]
fn submit_no_answers_to_a_session_without_questions() {
    let accounts = submit_accounts(session(0, 1, true, false), 36);
    let plan = process_submit_answers(&program(), &accounts, vec![]).unwrap();
    let mut expected = vec![7u8; 32];
    expected.extend_from_slice(&[0, 0, 0, 0]);
    assert_eq!(written(&plan, 1), expected);
}

#[test]
fn submit_before_start_is_invalid_state() {
    let accounts = submit_accounts(session(2, 1, false, false), 38);
    assert_eq!(
        process_submit_answers(&program(), &accounts, vec![1, 3]),
        Err(QuizError::InvalidState)
    );
}

#[test]
fn submit_after_completion_is_invalid_state() {
    let accounts = submit_accounts(session(2, 1, true, true), 38);
    assert_eq!(
        process_submit_answers(&program(), &accounts, vec![1, 3]),
        Err(QuizError::InvalidState)
    );
}

#[test]
fn submit_unsigned_is_unauthorized() {
    let mut accounts = submit_accounts(session(2, 1, true, false), 38);
    accounts[0].is_signer = false;
    assert_eq!(
        process_submit_answers(&program(), &accounts, vec![1, 3]),
        Err(QuizError::Unauthorized)
    );
}

#[test]
fn submit_into_too_small_record_is_a_store_failure() {
    let accounts = submit_accounts(session(2, 1, true, false), 37);
    assert_eq!(
        process_submit_answers(&program(), &accounts, vec![1, 3]),
        Err(QuizError::StoreFailure)
    );
}

#[test]
fn submit_with_too_few_accounts_is_malformed() {
    let accounts = submit_accounts(session(2, 1, true, false), 38);
    assert_eq!(
        process_submit_answers(&program(), &accounts[..2], vec![1, 3]),
        Err(QuizError::MalformedInput)
    );
}

// ---- CommitAnswers ----

fn commit_accounts(caller: Account) -> Vec<Account> {
    vec![caller, session_account(session(2, 1, true, false)), plain(key(60)), plain(key(61))]
}

#[test]
fn commit_asks_the_venue_to_commit_all() {
    let plan = process_commit_answers(&program(), &commit_accounts(signer(host()))).unwrap();
    assert_eq!(plan, vec![Action::CommitAll { magic_program: 2, magic_context: 3 }]);
}

#[test]
fn commit_by_non_host_is_unauthorized() {
    assert_eq!(
        process_commit_answers(&program(), &commit_accounts(signer(key(9)))),
        Err(QuizError::Unauthorized)
    );
    assert_eq!(
        process_commit_answers(&program(), &commit_accounts(plain(host()))),
        Err(QuizError::Unauthorized)
    );
}

#[test]
fn commit_with_unreadable_session_is_a_store_failure() {
    let mut accounts = commit_accounts(signer(host()));
    accounts[1].data.push(0);
    assert_eq!(process_commit_answers(&program(), &accounts), Err(QuizError::StoreFailure));
}

#[test]
fn commit_with_too_few_accounts_is_malformed() {
    let accounts = commit_accounts(signer(host()));
    assert_eq!(
        process_commit_answers(&program(), &accounts[..3]),
        Err(QuizError::MalformedInput)
    );
}

// ---- CalculateScores ----

fn scoring_accounts(s: QuizSession, key_: &[u8], players: &[(Address, Vec<u8>)]) -> Vec<Account> {
    let mut accounts = vec![signer(host()), session_account(s)];
    for (i, correct) in key_.iter().enumerate() {
        accounts.push(question_account(i as u8, *correct));
    }
    for (player, answers) in players {
        accounts.push(answer_account(*player, answers.clone()));
        accounts.push(plain(score_address(*player).0));
        accounts.push(system_program());
    }
    accounts
}

fn two_player_accounts() -> Vec<Account> {
    scoring_accounts(
        session(2, 2, true, false),
        &[1, 3],
        &[(key(7), vec![1, 3]), (key(8), vec![0, 3])],
    )
}

#[test]
fn calculate_scores_scores_each_player_and_completes_the_session() {
    let accounts = two_player_accounts();
    let plan = process_calculate_scores(&program(), &accounts).unwrap();
    let (_, bump7) = score_address(key(7));
    let (_, bump8) = score_address(key(8));
    assert_eq!(
        plan,
        vec![
            Action::CreateRecord {
                payer: 0,
                record: 5,
                system_program: 6,
                space: 33,
                seeds: with_bump(score_seeds_of(&session_address().0, &key(7)), bump7),
            },
            Action::WriteRecord {
                record: 5,
                data: PlayerScore { player: key(7), score: 2 }.to_bytes(),
            },
            Action::CreateRecord {
                payer: 0,
                record: 8,
                system_program: 9,
                space: 33,
                seeds: with_bump(score_seeds_of(&session_address().0, &key(8)), bump8),
            },
            Action::WriteRecord {
                record: 8,
                data: PlayerScore { player: key(8), score: 1 }.to_bytes(),
            },
            Action::WriteRecord { record: 1, data: session(2, 2, true, true).to_bytes() },
        ]
    );
}

#[test]
fn calculate_scores_twice_on_the_same_inputs_gives_the_same_plan() {
    let accounts = two_player_accounts();
    assert_eq!(
        process_calculate_scores(&program(), &accounts),
        process_calculate_scores(&program(), &accounts)
    );
}

#[test]
fn calculate_scores_without_players_only_completes_the_session() {
    let accounts = scoring_accounts(session(1, 0, true, false), &[2], &[]);
    let plan = process_calculate_scores(&program(), &accounts).unwrap();
    assert_eq!(
        plan,
        vec![Action::WriteRecord { record: 1, data: session(1, 0, true, true).to_bytes() }]
    );
}

#[test]
fn calculate_scores_counts_only_answers_to_existing_questions() {
    let accounts =
        scoring_accounts(session(2, 1, true, false), &[1, 3], &[(key(7), vec![1, 3, 9, 9])]);
    let plan = process_calculate_scores(&program(), &accounts).unwrap();
    assert_eq!(written(&plan, 5), PlayerScore { player: key(7), score: 2 }.to_bytes());
}

#[test]
fn calculate_scores_by_non_host_is_unauthorized() {
    let mut accounts = two_player_accounts();
    accounts[0] = signer(key(9));
    assert_eq!(process_calculate_scores(&program(), &accounts), Err(QuizError::Unauthorized));
    let mut accounts = two_player_accounts();
    accounts[0].is_signer = false;
    assert_eq!(process_calculate_scores(&program(), &accounts), Err(QuizError::Unauthorized));
}

#[test]
fn calculate_scores_before_start_is_invalid_state() {
    let accounts = scoring_accounts(session(1, 0, false, false), &[2], &[]);
    assert_eq!(process_calculate_scores(&program(), &accounts), Err(QuizError::InvalidState));
}

#[test]
fn calculate_scores_after_completion_is_invalid_state() {
    let accounts = scoring_accounts(session(1, 0, true, true), &[2], &[]);
    assert_eq!(process_calculate_scores(&program(), &accounts), Err(QuizError::InvalidState));
}

#[test]
fn calculate_scores_with_missing_question_is_malformed() {
    let accounts = scoring_accounts(session(3, 0, true, false), &[1, 3], &[]);
    assert_eq!(process_calculate_scores(&program(), &accounts), Err(QuizError::MalformedInput));
}

#[test]
fn calculate_scores_with_unreadable_question_is_a_store_failure() {
    let mut accounts = two_player_accounts();
    accounts[3].data.push(0);
    assert_eq!(process_calculate_scores(&program(), &accounts), Err(QuizError::StoreFailure));
}

#[test]
fn calculate_scores_with_missing_player_account_is_malformed() {
    let mut accounts = two_player_accounts();
    accounts.pop();
    assert_eq!(process_calculate_scores(&program(), &accounts), Err(QuizError::MalformedInput));
}

#[test]
fn calculate_scores_with_unreadable_answers_is_a_store_failure() {
    let mut accounts = two_player_accounts();
    accounts[7].data.push(0);
    assert_eq!(process_calculate_scores(&program(), &accounts), Err(QuizError::StoreFailure));
}

#[test]
fn calculate_scores_with_wrong_score_address_is_a_mismatch() {
    let mut accounts = two_player_accounts();
    accounts[8].key = score_address(key(7)).0;
    assert_eq!(process_calculate_scores(&program(), &accounts), Err(QuizError::AddressMismatch));
}

#[test]
fn calculate_scores_reports_the_first_failure() {
    let mut accounts = two_player_accounts();
    accounts[5].key = key(99);
    accounts[7].data.push(0);
    assert_eq!(process_calculate_scores(&program(), &accounts), Err(QuizError::AddressMismatch));
}

#[test]
fn calculate_scores_with_too_few_accounts_is_malformed() {
    assert_eq!(
        process_calculate_scores(&program(), &[signer(host())]),
        Err(QuizError::MalformedInput)
    );
}

// ---- UndelegatePlayer ----

fn undelegate_accounts(player: Account) -> Vec<Account> {
    vec![answer_account(key(7), vec![1, 3]), plain(key(50)), player, system_program()]
}

#[test]
fn undelegate_asks_the_venue_to_release_the_record() {
    let seeds = answer_seeds_of(&session_address().0, &key(7));
    let plan =
        process_undelegate_player(&program(), &undelegate_accounts(signer(key(7))), seeds.clone())
            .unwrap();
    assert_eq!(
        plan,
        vec![Action::Undelegate { record: 0, buffer: 1, payer: 2, system_program: 3, seeds }]
    );
}

#[test]
fn undelegate_unsigned_is_unauthorized() {
    assert_eq!(
        process_undelegate_player(&program(), &undelegate_accounts(plain(key(7))), vec![]),
        Err(QuizError::Unauthorized)
    );
}

#[test]
fn undelegate_with_too_few_accounts_is_malformed() {
    let accounts = undelegate_accounts(signer(key(7)));
    assert_eq!(
        process_undelegate_player(&program(), &accounts[..3], vec![]),
        Err(QuizError::MalformedInput)
    );
}

// ---- Dispatch ----

#[test]
fn instruction_with_unknown_discriminator_is_malformed() {
    let accounts = two_player_accounts();
    assert_eq!(
        process_instruction(&program(), &accounts, &[9, 0, 0, 0, 0, 0, 0, 0]),
        Err(QuizError::MalformedInput)
    );
    assert_eq!(process_instruction(&program(), &accounts, &[2]), Err(QuizError::MalformedInput));
}

#[test]
fn instruction_initialize_is_dispatched() {
    let accounts = vec![signer(host()), plain(session_address().0), system_program()];
    let data = [0u8, 0, 0, 0, 0, 0, 0, 0, 4];
    assert_eq!(
        process_instruction(&program(), &accounts, &data),
        process_initialize_quiz(&program(), &accounts, 4)
    );
    assert!(process_instruction(&program(), &accounts, &data).is_ok());
}

#[test]
fn instruction_add_question_is_dispatched() {
    let accounts = add_question_accounts(session(2, 0, false, false), 1);
    let mut data = vec![1u8, 0, 0, 0, 0, 0, 0, 0, 1];
    data.extend(question(2).to_bytes().unwrap());
    let plan = process_instruction(&program(), &accounts, &data).unwrap();
    assert_eq!(Ok(plan), add(&accounts, 1));
}

#[test]
fn instruction_start_is_dispatched() {
    let accounts = vec![signer(host()), session_account(session(2, 0, false, false))];
    let plan = process_instruction(&program(), &accounts, &[2, 0, 0, 0, 0, 0, 0, 0]).unwrap();
    assert_eq!(written(&plan, 1), session(2, 0, true, false).to_bytes());
}

#[test]
fn instruction_delegate_is_dispatched() {
    let accounts = delegate_accounts(signer(key(7)), session(2, 4, true, false));
    assert_eq!(
        process_instruction(&program(), &accounts, &[3, 0, 0, 0, 0, 0, 0, 0]),
        process_delegate_player(&program(), &accounts)
    );
}

#[test]
fn instruction_submit_scenario() {
    let accounts = submit_accounts(session(2, 1, true, false), 38);
    let ok = [4u8, 0, 0, 0, 0, 0, 0, 0, 2, 0, 0, 0, 1, 3];
    let plan = process_instruction(&program(), &accounts, &ok).unwrap();
    assert_eq!(
        PlayerAnswer::try_from_slice(&written(&plan, 1)),
        Some(PlayerAnswer { player: key(7), answers: vec![1, 3] })
    );
    let too_many = [4u8, 0, 0, 0, 0, 0, 0, 0, 3, 0, 0, 0, 1, 3, 9];
    assert_eq!(
        process_instruction(&program(), &accounts, &too_many),
        Err(QuizError::MalformedInput)
    );
}

#[test]
fn instruction_commit_is_dispatched() {
    let accounts = commit_accounts(signer(host()));
    assert_eq!(
        process_instruction(&program(), &accounts, &[5, 0, 0, 0, 0, 0, 0, 0]),
        Ok(vec![Action::CommitAll { magic_program: 2, magic_context: 3 }])
    );
}

#[test]
fn instruction_calculate_scores_is_dispatched() {
    let accounts = two_player_accounts();
    assert_eq!(
        process_instruction(&program(), &accounts, &[6, 0, 0, 0, 0, 0, 0, 0]),
        process_calculate_scores(&program(), &accounts)
    );
}

#[test]
fn instruction_undelegate_is_dispatched() {
    let accounts = undelegate_accounts(signer(key(7)));
    let data = [7u8, 0, 0, 0, 0, 0, 0, 0, 1, 0, 0, 0, 2, 0, 0, 0, 5, 6];
    assert_eq!(
        process_instruction(&program(), &accounts, &data),
        Ok(vec![Action::Undelegate {
            record: 0,
            buffer: 1,
            payer: 2,
            system_program: 3,
            seeds: vec![vec![5, 6]],
        }])
    );
}

// ---- A whole session ----

#[test]
fn scenario_two_questions_two_players() {
    // Correct answers [1, 3]; one player submits [1, 3], the other [0, 3].
    let accounts = two_player_accounts();
    let plan = process_calculate_scores(&program(), &accounts).unwrap();
    assert_eq!(written(&plan, 5)[32], 2);
    assert_eq!(written(&plan, 8)[32], 1);
    let submit = submit_accounts(session(2, 2, true, false), 64);
    assert_eq!(
        process_submit_answers(&program(), &submit, vec![1, 3, 9]),
        Err(QuizError::MalformedInput)
    );
    let stored = QuizSession::try_from_slice(&written(&plan, 1)).unwrap();
    assert!(stored.active && stored.completed);
}

#[test]
fn refused_operations_plan_nothing() {
    let accounts = vec![signer(key(9)), session_account(session(2, 0, false, false))];
    let before = accounts.clone();
    assert!(process_start_quiz(&program(), &accounts).is_err());
    assert_eq!(accounts, before);
}

#[test]
fn error_messages() {
    assert_eq!(QuizError::Unauthorized.message(), "unauthorized");
    assert_eq!(QuizError::AddressMismatch.message(), "address mismatch");
    assert_eq!(QuizError::InvalidState.message(), "invalid state");
    assert_eq!(QuizError::MalformedInput.message(), "malformed input");
    assert_eq!(QuizError::StoreFailure.message(), "store failure");
}
