//! The operations of a quiz session. Each checks the phase of the session
//! and the authority of the caller against the accounts it is given, in a
//! fixed order, and answers with the first failure or with the plan of steps
//! for the runtime. A refused operation plans nothing.

use crate::action::{plan_view, Action, ActionView};
use crate::address::{
    answer_seeds, answer_seeds_of, derive_address, derived_address, question_seeds,
    question_seeds_of, score_seeds, score_seeds_of, session_seeds, session_seeds_of,
    signer_seeds, with_bump,
};
use crate::codec::{
    answer_bytes, answer_of, lemma_question_size, question_bytes, question_fits, question_of,
    score_bytes, session_bytes, session_of,
};
use crate::error::QuizError;
use crate::instruction::{byte_lists, instruction_of, InstructionView, QuizInstruction};
use crate::scoring::{compute_score, score_of};
use crate::state::{
    option_texts, Account, Address, AnswerView, PlayerAnswer, PlayerScore, QuestionView,
    QuizQuestion, QuizSession, ScoreView, SessionView,
};
use vstd::prelude::*;

verus! {

/// How often the venue writes a delegated record back, in milliseconds.
pub const COMMIT_FREQUENCY_MS: u32 = 1000;

/// What an operation answers: the plan, or the failure.
pub open spec fn outcome_view(r: Result<Vec<Action>, QuizError>) -> Result<
    Seq<ActionView>,
    QuizError,
> {
    match r {
        Ok(plan) => Ok(plan_view(plan@)),
        Err(e) => Err(e),
    }
}

/// The step that writes a session to account `record`.
pub open spec fn write_session(record: int, s: SessionView) -> ActionView {
    ActionView::WriteRecord { record, data: session_bytes(s) }
}

/// Whether `seeds` derive the address `key` under `program_id`.
pub open spec fn derives(seeds: Seq<Seq<u8>>, program_id: Seq<u8>, key: Seq<u8>) -> bool {
    derived_address(seeds, program_id) matches Some(found) && found.0 == key
}

/// The bump with which `seeds` derive their address.
pub open spec fn bump_of(seeds: Seq<Seq<u8>>, program_id: Seq<u8>) -> u8 {
    derived_address(seeds, program_id)->Some_0.1
}

/// The correct options of the first `count` questions, read from the
/// accounts that follow the host and the session, or the first failure: a
/// missing account is `MalformedInput`, an unreadable record `StoreFailure`.
pub open spec fn answer_key(accounts: Seq<Account>, count: nat) -> Result<Seq<u8>, QuizError>
    decreases count,
{
    if count == 0 {
        Ok(Seq::<u8>::empty())
    } else {
        match answer_key(accounts, (count - 1) as nat) {
            Err(e) => Err(e),
            Ok(key) => if accounts.len() <= 1 + count {
                Err(QuizError::MalformedInput)
            } else {
                match question_of(accounts[1 + count as int].data@) {
                    None => Err(QuizError::StoreFailure),
                    Some(q) => Ok(key.push(q.correct_answer_index)),
                }
            },
        }
    }
}

/// The steps that record the score of the player whose three accounts
/// (answers, score, system program) start at `base`, or the failure.
pub open spec fn player_steps(
    program_id: Seq<u8>,
    accounts: Seq<Account>,
    key: Seq<u8>,
    base: int,
) -> Result<Seq<ActionView>, QuizError> {
    if accounts.len() < base + 3 {
        Err(QuizError::MalformedInput)
    } else {
        match answer_of(accounts[base].data@) {
            None => Err(QuizError::StoreFailure),
            Some(a) => {
                let seeds = score_seeds(accounts[1].key@, a.player);
                if !derives(seeds, program_id, accounts[base + 1].key@) {
                    Err(QuizError::AddressMismatch)
                } else {
                    Ok(
                        seq![
                            ActionView::CreateRecord {
                                payer: 0,
                                record: base + 1,
                                system_program: base + 2,
                                space: 33,
                                seeds: signer_seeds(seeds, bump_of(seeds, program_id)),
                            },
                            ActionView::WriteRecord {
                                record: base + 1,
                                data: score_bytes(
                                    ScoreView {
                                        player: a.player,
                                        score: score_of(key, a.answers) as u8,
                                    },
                                ),
                            },
                        ],
                    )
                }
            },
        }
    }
}

/// The steps that record the scores of the first `count` players, whose
/// accounts start at `first`, or the first failure.
pub open spec fn score_steps(
    program_id: Seq<u8>,
    accounts: Seq<Account>,
    key: Seq<u8>,
    first: int,
    count: nat,
) -> Result<Seq<ActionView>, QuizError>
    decreases count,
{
    if count == 0 {
        Ok(Seq::<ActionView>::empty())
    } else {
        match score_steps(program_id, accounts, key, first, (count - 1) as nat) {
            Err(e) => Err(e),
            Ok(steps) => match player_steps(program_id, accounts, key, first + 3 * (count - 1)) {
                Err(e) => Err(e),
                Ok(more) => Ok(steps + more),
            },
        }
    }
}

/// Once reading the questions has failed, it has failed for every larger count.
proof fn lemma_answer_key_fails(accounts: Seq<Account>, i: nat, n: nat)
    requires
        i <= n,
        answer_key(accounts, i) is Err,
    ensures
        answer_key(accounts, n) == answer_key(accounts, i),
    decreases n - i,
{
    if i < n {
        lemma_answer_key_fails(accounts, i, (n - 1) as nat);
    }
}

/// Once scoring the players has failed, it has failed for every larger count.
proof fn lemma_score_steps_fails(
    program_id: Seq<u8>,
    accounts: Seq<Account>,
    key: Seq<u8>,
    first: int,
    i: nat,
    n: nat,
)
    requires
        i <= n,
        score_steps(program_id, accounts, key, first, i) is Err,
    ensures
        score_steps(program_id, accounts, key, first, n) == score_steps(
            program_id,
            accounts,
            key,
            first,
            i,
        ),
    decreases n - i,
{
    if i < n {
        lemma_score_steps_fails(program_id, accounts, key, first, i, (n - 1) as nat);
    }
}

/// What `process_calculate_scores` answers.
pub open spec fn calculate_scores_outcome(program_id: Seq<u8>, accounts: Seq<Account>) -> Result<
    Seq<ActionView>,
    QuizError,
> {
    if accounts.len() < 2 {
        Err(QuizError::MalformedInput)
    } else if !accounts[0].is_signer {
        Err(QuizError::Unauthorized)
    } else {
        match session_of(accounts[1].data@) {
            None => Err(QuizError::StoreFailure),
            Some(s) => if s.host != accounts[0].key@ {
                Err(QuizError::Unauthorized)
            } else if !s.active || s.completed {
                Err(QuizError::InvalidState)
            } else {
                match answer_key(accounts, s.question_count as nat) {
                    Err(e) => Err(e),
                    Ok(key) => match score_steps(
                        program_id,
                        accounts,
                        key,
                        2 + s.question_count,
                        s.player_count as nat,
                    ) {
                        Err(e) => Err(e),
                        Ok(steps) => Ok(
                            steps.push(write_session(1, SessionView { completed: true, ..s })),
                        ),
                    },
                }
            },
        }
    }
}

/// Scores every player of an active session and completes the session.
///
/// Accounts: the host (signer), the session, one account for each question
/// in order of its index, then for each player the answer record, the score
/// record to create, and the system program.
#[verifier::loop_isolation(false)]
pub fn process_calculate_scores(program_id: &Address, accounts: &[Account]) -> (r: Result<
    Vec<Action>,
    QuizError,
>)
    ensures
        outcome_view(r) == calculate_scores_outcome(program_id@, accounts@),
{
    if accounts.len() < 2 {
        return Err(QuizError::MalformedInput);
    }
    let host_account = &accounts[0];
    let quiz_account = &accounts[1];
    if !host_account.is_signer {
        return Err(QuizError::Unauthorized);
    }
    let quiz_data = match QuizSession::try_from_slice(quiz_account.data.as_slice()) {
        Some(s) => s,
        None => {
            return Err(QuizError::StoreFailure);
        },
    };
    if !quiz_data.host.same(&host_account.key) {
        return Err(QuizError::Unauthorized);
    }
    if !quiz_data.active || quiz_data.completed {
        return Err(QuizError::InvalidState);
    }
    let question_count: usize = quiz_data.question_count as usize;
    let player_count: usize = quiz_data.player_count as usize;

    let mut key: Vec<u8> = Vec::new();
    let mut i: usize = 0;
    while i < question_count
        invariant
            i <= question_count <= 255,
            answer_key(accounts@, i as nat) == Ok::<Seq<u8>, QuizError>(key@),
            key@.len() == i,
        decreases question_count - i,
    {
        proof {
            if accounts@.len() <= 2 + i || question_of(accounts@[2 + i as int].data@) is None {
                lemma_answer_key_fails(accounts@, (i + 1) as nat, question_count as nat);
            }
        }
        if accounts.len() <= 2 + i {
            return Err(QuizError::MalformedInput);
        }
        let question = match QuizQuestion::try_from_slice(accounts[2 + i].data.as_slice()) {
            Some(q) => q,
            None => {
                return Err(QuizError::StoreFailure);
            },
        };
        key.push(question.correct_answer_index);
        i += 1;
    }

    let first: usize = 2 + question_count;
    let mut plan: Vec<Action> = Vec::new();
    let mut p: usize = 0;
    assert(plan_view(plan@) =~= Seq::<ActionView>::empty());
    while p < player_count
        invariant
            p <= player_count <= 255,
            first == 2 + question_count,
            question_count <= 255,
            accounts@.len() >= 2,
            key@.len() <= 255,
            score_steps(program_id@, accounts@, key@, first as int, p as nat) == Ok::<
                Seq<ActionView>,
                QuizError,
            >(plan_view(plan@)),
        decreases player_count - p,
    {
        let base: usize = first + 3 * p;
        proof {
            if player_steps(program_id@, accounts@, key@, base as int) is Err {
                lemma_score_steps_fails(
                    program_id@,
                    accounts@,
                    key@,
                    first as int,
                    (p + 1) as nat,
                    player_count as nat,
                );
            }
        }
        if accounts.len() < base + 3 {
            return Err(QuizError::MalformedInput);
        }
        let player_answer = match PlayerAnswer::try_from_slice(accounts[base].data.as_slice()) {
            Some(a) => a,
            None => {
                return Err(QuizError::StoreFailure);
            },
        };
        let score = compute_score(key.as_slice(), player_answer.answers.as_slice());
        let seeds = score_seeds_of(&quiz_account.key, &player_answer.player);
        let bump = match derive_address(&seeds, program_id) {
            Some((score_pda, bump)) => {
                if !score_pda.same(&accounts[base + 1].key) {
                    return Err(QuizError::AddressMismatch);
                }
                bump
            },
            None => {
                return Err(QuizError::AddressMismatch);
            },
        };
        let player_score = PlayerScore { player: player_answer.player, score };
        let ghost before = plan_view(plan@);
        let create = Action::CreateRecord {
            payer: 0,
            record: base + 1,
            system_program: base + 2,
            space: PlayerScore::SIZE,
            seeds: with_bump(seeds, bump),
        };
        let write = Action::WriteRecord { record: base + 1, data: player_score.to_bytes() };
        plan.push(create);
        plan.push(write);
        proof {
            let more = player_steps(program_id@, accounts@, key@, base as int)->Ok_0;
            assert(plan_view(plan@) =~= before + seq![create@, write@]);
            assert(more =~= seq![create@, write@]);
        }
        p += 1;
    }
    let mut completed = quiz_data;
    completed.completed = true;
    let ghost steps = plan_view(plan@);
    let last = Action::WriteRecord { record: 1, data: completed.to_bytes() };
    plan.push(last);
    proof {
        assert(plan_view(plan@) =~= steps.push(last@));
        assert(completed@ == SessionView { completed: true, ..quiz_data@ });
    }
    Ok(plan)
}

/// What `process_initialize_quiz` answers.
pub open spec fn initialize_quiz_outcome(
    program_id: Seq<u8>,
    accounts: Seq<Account>,
    question_count: u8,
) -> Result<Seq<ActionView>, QuizError> {
    if accounts.len() < 3 {
        Err(QuizError::MalformedInput)
    } else if !accounts[0].is_signer {
        Err(QuizError::Unauthorized)
    } else {
        let seeds = session_seeds(accounts[0].key@);
        if !derives(seeds, program_id, accounts[1].key@) {
            Err(QuizError::AddressMismatch)
        } else {
            Ok(
                seq![
                    ActionView::CreateRecord {
                        payer: 0,
                        record: 1,
                        system_program: 2,
                        space: 36,
                        seeds: signer_seeds(seeds, bump_of(seeds, program_id)),
                    },
                    write_session(
                        1,
                        SessionView {
                            host: accounts[0].key@,
                            question_count,
                            player_count: 0,
                            active: false,
                            completed: false,
                        },
                    ),
                ],
            )
        }
    }
}

/// Creates the session of the calling host, with no players, neither active
/// nor completed.
///
/// Accounts: the host (signer), the session record to create, the system
/// program.
pub fn process_initialize_quiz(
    program_id: &Address,
    accounts: &[Account],
    question_count: u8,
) -> (r: Result<Vec<Action>, QuizError>)
    ensures
        outcome_view(r) == initialize_quiz_outcome(program_id@, accounts@, question_count),
{
    if accounts.len() < 3 {
        return Err(QuizError::MalformedInput);
    }
    let host_account = &accounts[0];
    let quiz_account = &accounts[1];
    if !host_account.is_signer {
        return Err(QuizError::Unauthorized);
    }
    let seeds = session_seeds_of(&host_account.key);
    let bump_seed = match derive_address(&seeds, program_id) {
        Some((quiz_pda, bump_seed)) => {
            if !quiz_pda.same(&quiz_account.key) {
                return Err(QuizError::AddressMismatch);
            }
            bump_seed
        },
        None => {
            return Err(QuizError::AddressMismatch);
        },
    };
    let quiz_data = QuizSession {
        host: host_account.key,
        question_count,
        player_count: 0,
        active: false,
        completed: false,
    };
    let create = Action::CreateRecord {
        payer: 0,
        record: 1,
        system_program: 2,
        space: QuizSession::SIZE,
        seeds: with_bump(seeds, bump_seed),
    };
    let write = Action::WriteRecord { record: 1, data: quiz_data.to_bytes() };
    let mut plan: Vec<Action> = Vec::new();
    plan.push(create);
    plan.push(write);
    assert(plan_view(plan@) =~= seq![create@, write@]);
    Ok(plan)
}

/// What `process_add_question` answers.
pub open spec fn add_question_outcome(
    program_id: Seq<u8>,
    accounts: Seq<Account>,
    question_index: u8,
    question: QuestionView,
) -> Result<Seq<ActionView>, QuizError> {
    if accounts.len() < 4 {
        Err(QuizError::MalformedInput)
    } else if !accounts[0].is_signer {
        Err(QuizError::Unauthorized)
    } else {
        match session_of(accounts[1].data@) {
            None => Err(QuizError::StoreFailure),
            Some(s) => {
                let seeds = question_seeds(accounts[1].key@, question_index);
                if s.host != accounts[0].key@ {
                    Err(QuizError::Unauthorized)
                } else if s.active {
                    Err(QuizError::InvalidState)
                } else if !derives(seeds, program_id, accounts[2].key@) {
                    Err(QuizError::AddressMismatch)
                } else if !question_fits(question) {
                    Err(QuizError::StoreFailure)
                } else {
                    Ok(
                        seq![
                            ActionView::CreateRecord {
                                payer: 0,
                                record: 2,
                                system_program: 3,
                                space: question_bytes(question).len(),
                                seeds: signer_seeds(seeds, bump_of(seeds, program_id)),
                            },
                            ActionView::WriteRecord { record: 2, data: question_bytes(question) },
                        ],
                    )
                }
            },
        }
    }
}

/// Adds a question to a session that has not started. The record is created
/// with exactly the size of the question.
///
/// Accounts: the host (signer), the session, the question record to create,
/// the system program.
pub fn process_add_question(
    program_id: &Address,
    accounts: &[Account],
    question_index: u8,
    question_text: String,
    options: [String; 4],
    correct_answer_index: u8,
) -> (r: Result<Vec<Action>, QuizError>)
    ensures
        outcome_view(r) == add_question_outcome(
            program_id@,
            accounts@,
            question_index,
            QuestionView {
                question_text: question_text@,
                options: option_texts(options),
                correct_answer_index,
            },
        ),
{
    if accounts.len() < 4 {
        return Err(QuizError::MalformedInput);
    }
    let host_account = &accounts[0];
    let quiz_account = &accounts[1];
    let question_account = &accounts[2];
    if !host_account.is_signer {
        return Err(QuizError::Unauthorized);
    }
    let quiz_data = match QuizSession::try_from_slice(quiz_account.data.as_slice()) {
        Some(s) => s,
        None => {
            return Err(QuizError::StoreFailure);
        },
    };
    if !quiz_data.host.same(&host_account.key) {
        return Err(QuizError::Unauthorized);
    }
    if quiz_data.active {
        return Err(QuizError::InvalidState);
    }
    let seeds = question_seeds_of(&quiz_account.key, question_index);
    let bump_seed = match derive_address(&seeds, program_id) {
        Some((question_pda, bump_seed)) => {
            if !question_pda.same(&question_account.key) {
                return Err(QuizError::AddressMismatch);
            }
            bump_seed
        },
        None => {
            return Err(QuizError::AddressMismatch);
        },
    };
    let question_data = QuizQuestion { question_text, options, correct_answer_index };
    let data = match question_data.to_bytes() {
        Some(data) => data,
        None => {
            return Err(QuizError::StoreFailure);
        },
    };
    // The record that was written bounds the size that is computed.
    let written = data.len();
    proof {
        lemma_question_size(question_data@);
    }
    let account_size = QuizQuestion::get_size(
        question_data.question_text.as_str(),
        &question_data.options,
    );
    assert(account_size == written);
    let create = Action::CreateRecord {
        payer: 0,
        record: 2,
        system_program: 3,
        space: account_size,
        seeds: with_bump(seeds, bump_seed),
    };
    let write = Action::WriteRecord { record: 2, data };
    let mut plan: Vec<Action> = Vec::new();
    plan.push(create);
    plan.push(write);
    assert(plan_view(plan@) =~= seq![create@, write@]);
    Ok(plan)
}

/// What `process_start_quiz` answers.
pub open spec fn start_quiz_outcome(accounts: Seq<Account>) -> Result<Seq<ActionView>, QuizError> {
    if accounts.len() < 2 {
        Err(QuizError::MalformedInput)
    } else if !accounts[0].is_signer {
        Err(QuizError::Unauthorized)
    } else {
        match session_of(accounts[1].data@) {
            None => Err(QuizError::StoreFailure),
            Some(s) => if s.host != accounts[0].key@ {
                Err(QuizError::Unauthorized)
            } else {
                Ok(seq![write_session(1, SessionView { active: true, ..s })])
            },
        }
    }
}

/// Opens a session for players. Starting a session again writes the same
/// state again.
///
/// Accounts: the host (signer), the session.
pub fn process_start_quiz(_program_id: &Address, accounts: &[Account]) -> (r: Result<
    Vec<Action>,
    QuizError,
>)
    ensures
        outcome_view(r) == start_quiz_outcome(accounts@),
{
    if accounts.len() < 2 {
        return Err(QuizError::MalformedInput);
    }
    let host_account = &accounts[0];
    let quiz_account = &accounts[1];
    if !host_account.is_signer {
        return Err(QuizError::Unauthorized);
    }
    let mut quiz_data = match QuizSession::try_from_slice(quiz_account.data.as_slice()) {
        Some(s) => s,
        None => {
            return Err(QuizError::StoreFailure);
        },
    };
    if !quiz_data.host.same(&host_account.key) {
        return Err(QuizError::Unauthorized);
    }
    let ghost before = quiz_data@;
    quiz_data.active = true;
    assert(quiz_data@ == SessionView { active: true, ..before });
    let write = Action::WriteRecord { record: 1, data: quiz_data.to_bytes() };
    let mut plan: Vec<Action> = Vec::new();
    plan.push(write);
    assert(plan_view(plan@) =~= seq![write@]);
    Ok(plan)
}

/// The address that stands for "no particular validator": 32 zero bytes.
pub open spec fn default_validator() -> Seq<u8> {
    Seq::new(32, |i: int| 0u8)
}

/// What `process_delegate_player` answers.
pub open spec fn delegate_player_outcome(accounts: Seq<Account>) -> Result<
    Seq<ActionView>,
    QuizError,
> {
    if accounts.len() < 9 {
        Err(QuizError::MalformedInput)
    } else if !accounts[0].is_signer {
        Err(QuizError::Unauthorized)
    } else {
        match session_of(accounts[8].data@) {
            None => Err(QuizError::StoreFailure),
            Some(s) => if !s.active || s.completed {
                Err(QuizError::InvalidState)
            } else if s.player_count == u8::MAX {
                Err(QuizError::InvalidState)
            } else {
                Ok(
                    seq![
                        write_session(
                            8,
                            SessionView { player_count: (s.player_count + 1) as u8, ..s },
                        ),
                        ActionView::Delegate {
                            payer: 0,
                            record: 2,
                            owner_program: 3,
                            buffer: 4,
                            delegation_record: 5,
                            delegation_metadata: 6,
                            delegation_program: 7,
                            system_program: 1,
                            seeds: answer_seeds(accounts[8].key@, accounts[0].key@),
                            commit_frequency_ms: 1000,
                            validator: Some(default_validator()),
                        },
                    ],
                )
            },
        }
    }
}

/// Admits a player to an active session: counts the player and hands the
/// player's answer record to the execution venue. A player who joins twice
/// is counted twice. A session that already counts 255 players admits no
/// more.
///
/// Accounts: the player (signer), the system program, the player's answer
/// record, the owning program, the venue's buffer, delegation record,
/// delegation metadata and program, the session.
pub fn process_delegate_player(_program_id: &Address, accounts: &[Account]) -> (r: Result<
    Vec<Action>,
    QuizError,
>)
    ensures
        outcome_view(r) == delegate_player_outcome(accounts@),
{
    if accounts.len() < 9 {
        return Err(QuizError::MalformedInput);
    }
    let player = &accounts[0];
    let quiz_account = &accounts[8];
    if !player.is_signer {
        return Err(QuizError::Unauthorized);
    }
    let mut quiz_data = match QuizSession::try_from_slice(quiz_account.data.as_slice()) {
        Some(s) => s,
        None => {
            return Err(QuizError::StoreFailure);
        },
    };
    if !quiz_data.active || quiz_data.completed {
        return Err(QuizError::InvalidState);
    }
    if quiz_data.player_count == u8::MAX {
        return Err(QuizError::InvalidState);
    }
    let ghost before = quiz_data@;
    quiz_data.player_count += 1;
    assert(quiz_data@ == SessionView { player_count: (before.player_count + 1) as u8, ..before });
    let pda_seeds = answer_seeds_of(&quiz_account.key, &player.key);
    let validator = Address::new([0u8; 32]);
    assert(validator@ =~= default_validator());
    let write = Action::WriteRecord { record: 8, data: quiz_data.to_bytes() };
    let delegate = Action::Delegate {
        payer: 0,
        record: 2,
        owner_program: 3,
        buffer: 4,
        delegation_record: 5,
        delegation_metadata: 6,
        delegation_program: 7,
        system_program: 1,
        seeds: pda_seeds,
        commit_frequency_ms: COMMIT_FREQUENCY_MS,
        validator: Some(validator),
    };
    let mut plan: Vec<Action> = Vec::new();
    plan.push(write);
    plan.push(delegate);
    assert(plan_view(plan@) =~= seq![write@, delegate@]);
    Ok(plan)
}

/// What `process_submit_answers` answers.
pub open spec fn submit_answers_outcome(accounts: Seq<Account>, answers: Seq<u8>) -> Result<
    Seq<ActionView>,
    QuizError,
> {
    if accounts.len() < 3 {
        Err(QuizError::MalformedInput)
    } else if !accounts[0].is_signer {
        Err(QuizError::Unauthorized)
    } else {
        match session_of(accounts[2].data@) {
            None => Err(QuizError::StoreFailure),
            Some(s) => {
                let data = answer_bytes(AnswerView { player: accounts[0].key@, answers });
                if !s.active || s.completed {
                    Err(QuizError::InvalidState)
                } else if answers.len() != s.question_count {
                    Err(QuizError::MalformedInput)
                } else if data.len() > accounts[1].data@.len() {
                    Err(QuizError::StoreFailure)
                } else {
                    Ok(seq![ActionView::WriteRecord { record: 1, data }])
                }
            },
        }
    }
}

/// Replaces the answers of the calling player in an active session. There
/// must be exactly one answer for each question, and the record must hold
/// them.
///
/// Accounts: the player (signer), the player's answer record, the session.
pub fn process_submit_answers(_program_id: &Address, accounts: &[Account], answers: Vec<u8>) -> (r:
    Result<Vec<Action>, QuizError>)
    ensures
        outcome_view(r) == submit_answers_outcome(accounts@, answers@),
{
    if accounts.len() < 3 {
        return Err(QuizError::MalformedInput);
    }
    let player_account = &accounts[0];
    let player_answer_account = &accounts[1];
    let quiz_account = &accounts[2];
    if !player_account.is_signer {
        return Err(QuizError::Unauthorized);
    }
    let quiz_data = match QuizSession::try_from_slice(quiz_account.data.as_slice()) {
        Some(s) => s,
        None => {
            return Err(QuizError::StoreFailure);
        },
    };
    if !quiz_data.active || quiz_data.completed {
        return Err(QuizError::InvalidState);
    }
    if answers.len() != quiz_data.question_count as usize {
        return Err(QuizError::MalformedInput);
    }
    let player_answers = PlayerAnswer { player: player_account.key, answers };
    let data = match player_answers.to_bytes() {
        Some(data) => data,
        None => {
            return Err(QuizError::StoreFailure);
        },
    };
    if data.len() > player_answer_account.data.len() {
        return Err(QuizError::StoreFailure);
    }
    let write = Action::WriteRecord { record: 1, data };
    let mut plan: Vec<Action> = Vec::new();
    plan.push(write);
    assert(plan_view(plan@) =~= seq![write@]);
    Ok(plan)
}

/// What `process_commit_answers` answers.
pub open spec fn commit_answers_outcome(accounts: Seq<Account>) -> Result<
    Seq<ActionView>,
    QuizError,
> {
    if accounts.len() < 4 {
        Err(QuizError::MalformedInput)
    } else if !accounts[0].is_signer {
        Err(QuizError::Unauthorized)
    } else {
        match session_of(accounts[1].data@) {
            None => Err(QuizError::StoreFailure),
            Some(s) => if s.host != accounts[0].key@ {
                Err(QuizError::Unauthorized)
            } else {
                Ok(seq![ActionView::CommitAll { magic_program: 2, magic_context: 3 }])
            },
        }
    }
}

/// Asks the venue to write every delegated record of this program back to
/// the durable store.
///
/// Accounts: the host (signer), the session, the venue's program, the
/// venue's context.
pub fn process_commit_answers(_program_id: &Address, accounts: &[Account]) -> (r: Result<
    Vec<Action>,
    QuizError,
>)
    ensures
        outcome_view(r) == commit_answers_outcome(accounts@),
{
    if accounts.len() < 4 {
        return Err(QuizError::MalformedInput);
    }
    let host_account = &accounts[0];
    let quiz_account = &accounts[1];
    if !host_account.is_signer {
        return Err(QuizError::Unauthorized);
    }
    let quiz_data = match QuizSession::try_from_slice(quiz_account.data.as_slice()) {
        Some(s) => s,
        None => {
            return Err(QuizError::StoreFailure);
        },
    };
    if !quiz_data.host.same(&host_account.key) {
        return Err(QuizError::Unauthorized);
    }
    let commit = Action::CommitAll { magic_program: 2, magic_context: 3 };
    let mut plan: Vec<Action> = Vec::new();
    plan.push(commit);
    assert(plan_view(plan@) =~= seq![commit@]);
    Ok(plan)
}

/// What `process_undelegate_player` answers.
pub open spec fn undelegate_player_outcome(
    accounts: Seq<Account>,
    pda_seeds: Seq<Seq<u8>>,
) -> Result<Seq<ActionView>, QuizError> {
    if accounts.len() < 4 {
        Err(QuizError::MalformedInput)
    } else if !accounts[2].is_signer {
        Err(QuizError::Unauthorized)
    } else {
        Ok(
            seq![
                ActionView::Undelegate {
                    record: 0,
                    buffer: 1,
                    payer: 2,
                    system_program: 3,
                    seeds: pda_seeds,
                },
            ],
        )
    }
}

/// Asks the venue to release the calling player's answer record. The seeds
/// are those from which the record's address derives; the venue checks them.
///
/// Accounts: the player's answer record, the venue's buffer, the player
/// (signer), the system program.
pub fn process_undelegate_player(
    _program_id: &Address,
    accounts: &[Account],
    pda_seeds: Vec<Vec<u8>>,
) -> (r: Result<Vec<Action>, QuizError>)
    ensures
        outcome_view(r) == undelegate_player_outcome(accounts@, byte_lists(pda_seeds@)),
{
    if accounts.len() < 4 {
        return Err(QuizError::MalformedInput);
    }
    let player = &accounts[2];
    if !player.is_signer {
        return Err(QuizError::Unauthorized);
    }
    let undelegate = Action::Undelegate {
        record: 0,
        buffer: 1,
        payer: 2,
        system_program: 3,
        seeds: pda_seeds,
    };
    let mut plan: Vec<Action> = Vec::new();
    plan.push(undelegate);
    assert(plan_view(plan@) =~= seq![undelegate@]);
    Ok(plan)
}

/// What the command `instruction` answers on these accounts.
pub open spec fn command_outcome(
    program_id: Seq<u8>,
    accounts: Seq<Account>,
    instruction: InstructionView,
) -> Result<Seq<ActionView>, QuizError> {
    match instruction {
        InstructionView::InitializeQuiz { question_count } => initialize_quiz_outcome(
            program_id,
            accounts,
            question_count,
        ),
        InstructionView::AddQuestion {
            question_index,
            question_text,
            options,
            correct_answer_index,
        } => add_question_outcome(
            program_id,
            accounts,
            question_index,
            QuestionView { question_text, options, correct_answer_index },
        ),
        InstructionView::StartQuiz => start_quiz_outcome(accounts),
        InstructionView::DelegatePlayer => delegate_player_outcome(accounts),
        InstructionView::SubmitAnswers { answers } => submit_answers_outcome(accounts, answers),
        InstructionView::CommitAnswers => commit_answers_outcome(accounts),
        InstructionView::CalculateScores => calculate_scores_outcome(program_id, accounts),
        InstructionView::UndelegatePlayer { pda_seeds } => undelegate_player_outcome(
            accounts,
            pda_seeds,
        ),
    }
}

/// What `process_instruction` answers.
pub open spec fn instruction_outcome(
    program_id: Seq<u8>,
    accounts: Seq<Account>,
    instruction_data: Seq<u8>,
) -> Result<Seq<ActionView>, QuizError> {
    match instruction_of(instruction_data) {
        None => Err(QuizError::MalformedInput),
        Some(instruction) => command_outcome(program_id, accounts, instruction),
    }
}

/// Decodes an instruction buffer and carries out the command it spells.
pub fn process_instruction(
    program_id: &Address,
    accounts: &[Account],
    instruction_data: &[u8],
) -> (r: Result<Vec<Action>, QuizError>)
    ensures
        outcome_view(r) == instruction_outcome(program_id@, accounts@, instruction_data@),
{
    let instruction = match QuizInstruction::unpack(instruction_data) {
        Ok(instruction) => instruction,
        Err(e) => {
            return Err(e);
        },
    };
    match instruction {
        QuizInstruction::InitializeQuiz { question_count } => {
            process_initialize_quiz(program_id, accounts, question_count)
        },
        QuizInstruction::AddQuestion {
            question_index,
            question_text,
            options,
            correct_answer_index,
        } => process_add_question(
            program_id,
            accounts,
            question_index,
            question_text,
            options,
            correct_answer_index,
        ),
        QuizInstruction::StartQuiz => process_start_quiz(program_id, accounts),
        QuizInstruction::DelegatePlayer => process_delegate_player(program_id, accounts),
        QuizInstruction::SubmitAnswers { answers } => {
            process_submit_answers(program_id, accounts, answers)
        },
        QuizInstruction::CommitAnswers => process_commit_answers(program_id, accounts),
        QuizInstruction::CalculateScores => process_calculate_scores(program_id, accounts),
        QuizInstruction::UndelegatePlayer { pda_seeds } => {
            process_undelegate_player(program_id, accounts, pda_seeds)
        },
    }
}

} // verus!
