//! Properties of the operations, proved from their outcomes.

use crate::action::{after_outcome, after_plan, after_step, overwritten, store_of, ActionView};
use crate::codec::{
    answer_bytes, answer_of, lemma_answer_round_trip, lemma_question_round_trip,
    lemma_session_of_shape, lemma_session_round_trip, question_bytes, question_of, score_bytes,
    session_bytes, session_of,
};
use crate::error::QuizError;
use crate::processor::{
    add_question_outcome, answer_key, calculate_scores_outcome, commit_answers_outcome,
    delegate_player_outcome, initialize_quiz_outcome, player_steps, score_steps,
    start_quiz_outcome, submit_answers_outcome, undelegate_player_outcome, write_session,
};
use crate::scoring::{lemma_points_bounded, lemma_points_local, point, points_upto, score_of};
use crate::state::{Account, AnswerView, QuestionView, ScoreView, SessionView};
use vstd::prelude::*;

verus! {

/// A session that was initialized reads back with the given question count,
/// no players, neither active nor completed, and the caller as its host.
pub proof fn law_initialize_then_read(
    program_id: Seq<u8>,
    accounts: Seq<Account>,
    question_count: u8,
)
    requires
        initialize_quiz_outcome(program_id, accounts, question_count) is Ok,
    ensures
        session_of(
            after_outcome(
                store_of(accounts),
                initialize_quiz_outcome(program_id, accounts, question_count),
            )[1],
        ) == Some(
            SessionView {
                host: accounts[0].key@,
                question_count,
                player_count: 0,
                active: false,
                completed: false,
            },
        ),
{
    let plan = initialize_quiz_outcome(program_id, accounts, question_count)->Ok_0;
    let created = SessionView {
        host: accounts[0].key@,
        question_count,
        player_count: 0,
        active: false,
        completed: false,
    };
    lemma_session_round_trip(created);
    reveal_with_fuel(after_plan, 3);
    let store = store_of(accounts);
    let s1 = after_step(store, plan[0]);
    let s2 = after_step(s1, plan[1]);
    assert(plan.drop_first()[0] == plan[1]);
    assert(plan.drop_first().drop_first().len() == 0);
    assert(s2[1] =~= session_bytes(created));
}

/// An active session takes no question, whoever asks: the call is refused.
/// When the session's host calls and signs, it is refused with
/// `InvalidState`.
pub proof fn law_add_question_on_active_session(
    program_id: Seq<u8>,
    accounts: Seq<Account>,
    question_index: u8,
    question: QuestionView,
)
    requires
        session_of(accounts[1].data@) matches Some(s) && s.active,
    ensures
        add_question_outcome(program_id, accounts, question_index, question) is Err,
        accounts.len() >= 4 && accounts[0].is_signer && session_of(
            accounts[1].data@,
        )->Some_0.host == accounts[0].key@ ==> add_question_outcome(
            program_id,
            accounts,
            question_index,
            question,
        ) == Err::<Seq<ActionView>, QuizError>(QuizError::InvalidState),
{
}

/// After a session was started, its host cannot add a question: the call is
/// refused with `InvalidState`, whatever the question.
pub proof fn law_add_question_after_start(
    program_id: Seq<u8>,
    before: Seq<Account>,
    after: Seq<Account>,
    question_index: u8,
    question: QuestionView,
)
    requires
        start_quiz_outcome(before) is Ok,
        store_of(after) == after_outcome(store_of(before), start_quiz_outcome(before)),
        after.len() >= 4,
        after[0].is_signer,
        after[0].key@ == before[0].key@,
    ensures
        add_question_outcome(program_id, after, question_index, question) == Err::<
            Seq<ActionView>,
            QuizError,
        >(QuizError::InvalidState),
{
    let s = session_of(before[1].data@)->Some_0;
    let started = SessionView { active: true, ..s };
    let plan = start_quiz_outcome(before)->Ok_0;
    lemma_session_round_trip(started);
    reveal_with_fuel(after_plan, 2);
    let store = store_of(before);
    assert(plan.drop_first().len() == 0);
    assert(after_plan(store, plan)[1] =~= session_bytes(started));
    assert(store_of(after)[1] == after[1].data@);
    law_add_question_on_active_session(program_id, after, question_index, question);
}

/// Starting a session that is already active changes no record.
pub proof fn law_start_again_changes_nothing(accounts: Seq<Account>)
    requires
        start_quiz_outcome(accounts) is Ok,
        session_of(accounts[1].data@)->Some_0.active,
    ensures
        after_outcome(store_of(accounts), start_quiz_outcome(accounts)) == store_of(accounts),
{
    let s = session_of(accounts[1].data@)->Some_0;
    let plan = start_quiz_outcome(accounts)->Ok_0;
    let store = store_of(accounts);
    lemma_session_of_shape(accounts[1].data@);
    assert(SessionView { active: true, ..s } == s);
    reveal_with_fuel(after_plan, 2);
    assert(plan.drop_first().len() == 0);
    assert(overwritten(store[1], session_bytes(s)) =~= store[1]);
    assert(after_plan(store, plan) =~= store);
}

/// In an active session, a signed submission whose length is not the
/// session's question count is refused with `MalformedInput`.
pub proof fn law_submit_wrong_count(accounts: Seq<Account>, answers: Seq<u8>)
    requires
        accounts.len() >= 3,
        accounts[0].is_signer,
        session_of(accounts[2].data@) matches Some(s) && s.active && !s.completed
            && answers.len() != s.question_count,
    ensures
        submit_answers_outcome(accounts, answers) == Err::<Seq<ActionView>, QuizError>(
            QuizError::MalformedInput,
        ),
{
}

/// In an active session, a signed submission of one answer for each
/// question is accepted where the player's record holds it.
pub proof fn law_submit_right_count(accounts: Seq<Account>, answers: Seq<u8>)
    requires
        accounts.len() >= 3,
        accounts[0].is_signer,
        session_of(accounts[2].data@) matches Some(s) && s.active && !s.completed
            && answers.len() == s.question_count,
        accounts[1].data@.len() >= 36 + answers.len(),
    ensures
        submit_answers_outcome(accounts, answers) is Ok,
{
    lemma_answer_round_trip(AnswerView { player: accounts[0].key@, answers });
}

/// Answers that were accepted read back exactly as submitted, under the
/// player who submitted them, from a record that is as long as they are.
pub proof fn law_submit_then_read(accounts: Seq<Account>, answers: Seq<u8>)
    requires
        submit_answers_outcome(accounts, answers) is Ok,
        accounts[1].data@.len() == 36 + answers.len(),
    ensures
        answer_of(after_outcome(store_of(accounts), submit_answers_outcome(accounts, answers))[1])
            == Some(AnswerView { player: accounts[0].key@, answers }),
{
    let a = AnswerView { player: accounts[0].key@, answers };
    let plan = submit_answers_outcome(accounts, answers)->Ok_0;
    lemma_answer_round_trip(a);
    reveal_with_fuel(after_plan, 2);
    assert(plan.drop_first().len() == 0);
    assert(after_plan(store_of(accounts), plan)[1] =~= answer_bytes(a));
}

/// A question that was added reads back as it was given.
pub proof fn law_add_question_then_read(
    program_id: Seq<u8>,
    accounts: Seq<Account>,
    question_index: u8,
    question: QuestionView,
)
    requires
        question.options.len() == 4,
        add_question_outcome(program_id, accounts, question_index, question) is Ok,
    ensures
        question_of(
            after_outcome(
                store_of(accounts),
                add_question_outcome(program_id, accounts, question_index, question),
            )[2],
        ) == Some(question),
{
    let plan = add_question_outcome(program_id, accounts, question_index, question)->Ok_0;
    lemma_question_round_trip(question);
    reveal_with_fuel(after_plan, 3);
    let store = store_of(accounts);
    let s1 = after_step(store, plan[0]);
    let s2 = after_step(s1, plan[1]);
    assert(plan.drop_first()[0] == plan[1]);
    assert(plan.drop_first().drop_first().len() == 0);
    assert(s2[2] =~= question_bytes(question));
}

/// A score is at most the number of questions and at most the number of
/// answers.
pub proof fn law_score_in_range(key: Seq<u8>, answers: Seq<u8>)
    ensures
        score_of(key, answers) <= key.len(),
        score_of(key, answers) <= answers.len(),
{
    lemma_points_bounded(key, answers, answers.len());
}

/// A score is the sum of the scores of its parts: what one position earns
/// does not depend on any other position.
pub proof fn law_score_by_position(
    key1: Seq<u8>,
    answers1: Seq<u8>,
    key2: Seq<u8>,
    answers2: Seq<u8>,
)
    requires
        key1.len() == answers1.len(),
    ensures
        score_of(key1 + key2, answers1 + answers2) == score_of(key1, answers1) + score_of(
            key2,
            answers2,
        ),
{
    lemma_points_split(key1, answers1, key2, answers2, answers2.len());
}

proof fn lemma_points_split(
    key1: Seq<u8>,
    answers1: Seq<u8>,
    key2: Seq<u8>,
    answers2: Seq<u8>,
    n: nat,
)
    requires
        key1.len() == answers1.len(),
        n <= answers2.len(),
    ensures
        points_upto(key1 + key2, answers1 + answers2, answers1.len() + n) == points_upto(
            key1,
            answers1,
            answers1.len(),
        ) + points_upto(key2, answers2, n),
    decreases n,
{
    let key = key1 + key2;
    let answers = answers1 + answers2;
    if n == 0 {
        assert forall|i: int| 0 <= i < answers1.len() implies point(key, answers, i) == point(
            key1,
            answers1,
            i,
        ) by {
            assert(key[i] == key1[i]);
            assert(answers[i] == answers1[i]);
        }
        lemma_points_local(key, answers, key1, answers1, answers1.len());
    } else {
        lemma_points_split(key1, answers1, key2, answers2, (n - 1) as nat);
        let i = answers1.len() + n - 1;
        assert(answers[i] == answers2[n - 1]);
        if n - 1 < key2.len() {
            assert(key[i] == key2[n - 1]);
        }
        assert(point(key, answers, i) == point(key2, answers2, n - 1));
    }
}

/// An operation that only the host may call is refused with `Unauthorized`
/// when another identity calls and signs, and changes no record.
pub proof fn law_non_host_is_refused(
    program_id: Seq<u8>,
    accounts: Seq<Account>,
    question_index: u8,
    question: QuestionView,
)
    requires
        accounts.len() >= 4,
        accounts[0].is_signer,
        session_of(accounts[1].data@) matches Some(s) && s.host != accounts[0].key@,
    ensures
        add_question_outcome(program_id, accounts, question_index, question) == Err::<
            Seq<ActionView>,
            QuizError,
        >(QuizError::Unauthorized),
        start_quiz_outcome(accounts) == Err::<Seq<ActionView>, QuizError>(
            QuizError::Unauthorized,
        ),
        commit_answers_outcome(accounts) == Err::<Seq<ActionView>, QuizError>(
            QuizError::Unauthorized,
        ),
        calculate_scores_outcome(program_id, accounts) == Err::<Seq<ActionView>, QuizError>(
            QuizError::Unauthorized,
        ),
        after_outcome(
            store_of(accounts),
            add_question_outcome(program_id, accounts, question_index, question),
        ) == store_of(accounts),
        after_outcome(store_of(accounts), start_quiz_outcome(accounts)) == store_of(accounts),
        after_outcome(store_of(accounts), commit_answers_outcome(accounts)) == store_of(accounts),
        after_outcome(store_of(accounts), calculate_scores_outcome(program_id, accounts))
            == store_of(accounts),
{
}

/// An operation that needs the caller's signature is refused with
/// `Unauthorized` when the caller has not signed, and changes no record.
pub proof fn law_unsigned_is_refused(
    program_id: Seq<u8>,
    accounts: Seq<Account>,
    question_count: u8,
    answers: Seq<u8>,
)
    requires
        accounts.len() >= 9,
        !accounts[0].is_signer,
    ensures
        initialize_quiz_outcome(program_id, accounts, question_count) == Err::<
            Seq<ActionView>,
            QuizError,
        >(QuizError::Unauthorized),
        start_quiz_outcome(accounts) == Err::<Seq<ActionView>, QuizError>(
            QuizError::Unauthorized,
        ),
        delegate_player_outcome(accounts) == Err::<Seq<ActionView>, QuizError>(
            QuizError::Unauthorized,
        ),
        submit_answers_outcome(accounts, answers) == Err::<Seq<ActionView>, QuizError>(
            QuizError::Unauthorized,
        ),
        commit_answers_outcome(accounts) == Err::<Seq<ActionView>, QuizError>(
            QuizError::Unauthorized,
        ),
        calculate_scores_outcome(program_id, accounts) == Err::<Seq<ActionView>, QuizError>(
            QuizError::Unauthorized,
        ),
{
}

/// Releasing a player's record changes no record on this side: the plan
/// holds the request to the venue and nothing else.
pub proof fn law_undelegate_changes_no_record(accounts: Seq<Account>, pda_seeds: Seq<Seq<u8>>)
    ensures
        after_outcome(store_of(accounts), undelegate_player_outcome(accounts, pda_seeds))
            == store_of(accounts),
{
    reveal_with_fuel(after_plan, 2);
    if undelegate_player_outcome(accounts, pda_seeds) is Ok {
        let plan = undelegate_player_outcome(accounts, pda_seeds)->Ok_0;
        assert(plan.drop_first().len() == 0);
    }
}

/// Whether a step creates or writes the record at account `record`.
pub open spec fn touches(step: ActionView, record: int) -> bool {
    match step {
        ActionView::CreateRecord { record: r, .. } => r == record,
        ActionView::WriteRecord { record: r, .. } => r == record,
        _ => false,
    }
}

/// Whether no step of a plan creates or writes the record at account `record`.
pub open spec fn leaves(plan: Seq<ActionView>, record: int) -> bool {
    forall|i: int| 0 <= i < plan.len() ==> !touches(#[trigger] plan[i], record)
}

/// A plan changes neither the number of accounts nor a record that none of
/// its steps creates or writes.
pub proof fn lemma_untouched_record(store: Seq<Seq<u8>>, plan: Seq<ActionView>, record: int)
    requires
        leaves(plan, record),
    ensures
        after_plan(store, plan).len() == store.len(),
        0 <= record < store.len() ==> after_plan(store, plan)[record] == store[record],
    decreases plan.len(),
{
    if plan.len() > 0 {
        let rest = plan.drop_first();
        assert(!touches(plan[0], record));
        assert(leaves(rest, record)) by {
            assert forall|i: int| 0 <= i < rest.len() implies !touches(
                #[trigger] rest[i],
                record,
            ) by {
                assert(rest[i] == plan[i + 1]);
            }
        }
        lemma_untouched_record(after_step(store, plan[0]), rest, record);
    }
}

/// Carrying out two plans one after the other is carrying out their
/// concatenation.
pub proof fn lemma_after_plans(store: Seq<Seq<u8>>, first: Seq<ActionView>, second: Seq<ActionView>)
    ensures
        after_plan(store, first + second) == after_plan(after_plan(store, first), second),
    decreases first.len(),
{
    if first.len() == 0 {
        assert(first + second =~= second);
    } else {
        let whole = first + second;
        assert(whole[0] == first[0]);
        assert(whole.drop_first() =~= first.drop_first() + second);
        lemma_after_plans(after_step(store, first[0]), first.drop_first(), second);
    }
}

/// The answer key of `count` questions has `count` entries.
pub proof fn lemma_answer_key_len(accounts: Seq<Account>, count: nat)
    requires
        answer_key(accounts, count) is Ok,
    ensures
        answer_key(accounts, count)->Ok_0.len() == count,
    decreases count,
{
    if count > 0 {
        lemma_answer_key_len(accounts, (count - 1) as nat);
    }
}

/// Scoring `count` players plans two steps for each, in the order of the
/// players: the steps of player `p` are those of `player_steps` on the
/// player's accounts.
pub proof fn lemma_score_steps_shape(
    program_id: Seq<u8>,
    accounts: Seq<Account>,
    key: Seq<u8>,
    first: int,
    count: nat,
    p: int,
)
    requires
        score_steps(program_id, accounts, key, first, count) is Ok,
        0 <= p < count,
    ensures
        score_steps(program_id, accounts, key, first, count)->Ok_0.len() == 2 * count,
        player_steps(program_id, accounts, key, first + 3 * p) is Ok,
        score_steps(program_id, accounts, key, first, count)->Ok_0.subrange(2 * p, 2 * p + 2)
            == player_steps(program_id, accounts, key, first + 3 * p)->Ok_0,
    decreases count,
{
    let before = score_steps(program_id, accounts, key, first, (count - 1) as nat)->Ok_0;
    let last = player_steps(program_id, accounts, key, first + 3 * (count - 1))->Ok_0;
    let all = score_steps(program_id, accounts, key, first, count)->Ok_0;
    assert(all == before + last);
    if count > 1 {
        lemma_score_steps_shape(program_id, accounts, key, first, (count - 1) as nat, 0);
    }
    assert(before.len() == 2 * (count - 1));
    if p == count - 1 {
        assert(all.subrange(2 * p, 2 * p + 2) =~= last);
    } else {
        lemma_score_steps_shape(program_id, accounts, key, first, (count - 1) as nat, p);
        assert(all.subrange(2 * p, 2 * p + 2) =~= before.subrange(2 * p, 2 * p + 2));
    }
}

/// Scoring players whose accounts come after the session plans no step on
/// the session.
proof fn lemma_score_steps_leave_session(
    program_id: Seq<u8>,
    accounts: Seq<Account>,
    key: Seq<u8>,
    first: int,
    count: nat,
)
    requires
        score_steps(program_id, accounts, key, first, count) is Ok,
        first >= 2,
    ensures
        leaves(score_steps(program_id, accounts, key, first, count)->Ok_0, 1),
    decreases count,
{
    if count > 0 {
        lemma_score_steps_leave_session(program_id, accounts, key, first, (count - 1) as nat);
    }
}

/// Scores were calculated: the session reads back completed and otherwise
/// as it was.
pub proof fn law_calculate_scores_then_read(program_id: Seq<u8>, accounts: Seq<Account>)
    requires
        calculate_scores_outcome(program_id, accounts) is Ok,
    ensures
        session_of(
            after_outcome(store_of(accounts), calculate_scores_outcome(program_id, accounts))[1],
        ) == Some(
            SessionView { completed: true, ..session_of(accounts[1].data@)->Some_0 },
        ),
{
    let s = session_of(accounts[1].data@)->Some_0;
    let done = SessionView { completed: true, ..s };
    let key = answer_key(accounts, s.question_count as nat)->Ok_0;
    let first = 2 + s.question_count;
    let steps = score_steps(program_id, accounts, key, first, s.player_count as nat)->Ok_0;
    let last = seq![write_session(1, done)];
    let store = store_of(accounts);
    lemma_score_steps_leave_session(program_id, accounts, key, first, s.player_count as nat);
    lemma_untouched_record(store, steps, 1);
    assert(steps.push(write_session(1, done)) =~= steps + last);
    lemma_after_plans(store, steps, last);
    lemma_session_round_trip(done);
    reveal_with_fuel(after_plan, 2);
    assert(last.drop_first().len() == 0);
    let mid = after_plan(store, steps);
    assert(after_plan(mid, last)[1] =~= session_bytes(done));
}

/// Every score that is calculated lies between 0 and the session's question
/// count: the score record planned for player `p` holds the number of the
/// player's answers that agree with the answer key.
pub proof fn law_calculated_score_in_range(program_id: Seq<u8>, accounts: Seq<Account>, p: int)
    requires
        calculate_scores_outcome(program_id, accounts) is Ok,
        0 <= p < session_of(accounts[1].data@)->Some_0.player_count,
    ensures
        ({
            let s = session_of(accounts[1].data@)->Some_0;
            let key = answer_key(accounts, s.question_count as nat)->Ok_0;
            let base = 2 + s.question_count + 3 * p;
            let a = answer_of(accounts[base].data@)->Some_0;
            let plan = calculate_scores_outcome(program_id, accounts)->Ok_0;
            &&& score_of(key, a.answers) <= s.question_count
            &&& plan[2 * p + 1] == ActionView::WriteRecord {
                record: base + 1,
                data: score_bytes(
                    ScoreView { player: a.player, score: score_of(key, a.answers) as u8 },
                ),
            }
        }),
{
    let s = session_of(accounts[1].data@)->Some_0;
    let key = answer_key(accounts, s.question_count as nat)->Ok_0;
    let first = 2 + s.question_count;
    let base = first + 3 * p;
    let a = answer_of(accounts[base].data@)->Some_0;
    let steps = score_steps(program_id, accounts, key, first, s.player_count as nat)->Ok_0;
    let plan = calculate_scores_outcome(program_id, accounts)->Ok_0;
    lemma_answer_key_len(accounts, s.question_count as nat);
    lemma_points_bounded(key, a.answers, a.answers.len());
    lemma_score_steps_shape(program_id, accounts, key, first, s.player_count as nat, p);
    let two = steps.subrange(2 * p, 2 * p + 2);
    assert(two[1] == steps[2 * p + 1]);
    assert(plan[2 * p + 1] == steps[2 * p + 1]);
}

/// The phases of a session only advance. Whatever an accepted operation
/// writes to the session keeps its host and its question count, never lowers
/// the player count, never clears `active` or `completed`, and sets
/// `completed` only on an active session.
pub proof fn law_phases_only_advance(program_id: Seq<u8>, accounts: Seq<Account>)
    ensures
        start_quiz_outcome(accounts) is Ok ==> advances(
            session_of(accounts[1].data@),
            session_of(after_outcome(store_of(accounts), start_quiz_outcome(accounts))[1]),
        ),
        delegate_player_outcome(accounts) is Ok ==> advances(
            session_of(accounts[8].data@),
            session_of(after_outcome(store_of(accounts), delegate_player_outcome(accounts))[8]),
        ),
        calculate_scores_outcome(program_id, accounts) is Ok ==> advances(
            session_of(accounts[1].data@),
            session_of(
                after_outcome(
                    store_of(accounts),
                    calculate_scores_outcome(program_id, accounts),
                )[1],
            ),
        ),
{
    if start_quiz_outcome(accounts) is Ok {
        let s = session_of(accounts[1].data@)->Some_0;
        let plan = start_quiz_outcome(accounts)->Ok_0;
        lemma_session_round_trip(SessionView { active: true, ..s });
        reveal_with_fuel(after_plan, 2);
        assert(plan.drop_first().len() == 0);
        assert(after_plan(store_of(accounts), plan)[1] =~= session_bytes(
            SessionView { active: true, ..s },
        ));
    }
    if delegate_player_outcome(accounts) is Ok {
        let s = session_of(accounts[8].data@)->Some_0;
        let joined = SessionView { player_count: (s.player_count + 1) as u8, ..s };
        let plan = delegate_player_outcome(accounts)->Ok_0;
        lemma_session_round_trip(joined);
        reveal_with_fuel(after_plan, 3);
        assert(plan.drop_first()[0] == plan[1]);
        assert(plan.drop_first().drop_first().len() == 0);
        assert(after_plan(store_of(accounts), plan)[8] =~= session_bytes(joined));
    }
    if calculate_scores_outcome(program_id, accounts) is Ok {
        law_calculate_scores_then_read(program_id, accounts);
    }
}

/// Whether the session `after` is the session `before`, advanced.
pub open spec fn advances(before: Option<SessionView>, after: Option<SessionView>) -> bool {
    &&& before matches Some(b)
    &&& after matches Some(a)
    &&& a.host == b.host
    &&& a.question_count == b.question_count
    &&& a.player_count >= b.player_count
    &&& b.active ==> a.active
    &&& b.completed ==> a.completed
    &&& a.completed && !b.completed ==> b.active
    &&& b.well_formed() ==> a.well_formed()
}

} // verus!
