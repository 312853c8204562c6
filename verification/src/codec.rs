//! The byte form of each record. Records are written and read with `borsh`;
//! this module states the layout that the rules rely on and proves that a
//! record that was written reads back unchanged.

use crate::state::{
    question_size, Address, AnswerView, PlayerAnswer, PlayerScore, QuestionView, QuizQuestion,
    QuizSession, ScoreView, SessionView,
};
use crate::wire::{
    field, field_of, fields, items_fit, lemma_field_of_shape, lemma_field_round_trip,
    lemma_take_fields, take_fields, MAX_FIELD_LEN,
};
use borsh::BorshDeserialize;
use vstd::prelude::*;
use vstd::utf8::{decode_utf8, encode_utf8, valid_utf8};

verus! {

/// The byte that stands for a truth value.
pub open spec fn flag(b: bool) -> u8 {
    if b {
        1
    } else {
        0
    }
}

/// The UTF-8 bytes of each text.
pub open spec fn utf8_items(texts: Seq<Seq<char>>) -> Seq<Seq<u8>> {
    Seq::new(texts.len(), |i: int| encode_utf8(texts[i]))
}

/// Whether each item is valid UTF-8.
pub open spec fn all_utf8(items: Seq<Seq<u8>>) -> bool {
    forall|i: int| 0 <= i < items.len() ==> valid_utf8(#[trigger] items[i])
}

/// The text that each item spells.
pub open spec fn texts_of(items: Seq<Seq<u8>>) -> Seq<Seq<char>> {
    Seq::new(items.len(), |i: int| decode_utf8(items[i]))
}

/// The 36 bytes of a session record.
pub open spec fn session_bytes(s: SessionView) -> Seq<u8> {
    s.host + seq![s.question_count, s.player_count, flag(s.active), flag(s.completed)]
}

/// The session that 36 bytes spell; `None` for any other length and where a
/// truth value is neither 0 nor 1.
pub open spec fn session_of(data: Seq<u8>) -> Option<SessionView> {
    if data.len() == 36 && data[34] <= 1 && data[35] <= 1 {
        Some(
            SessionView {
                host: data.take(32),
                question_count: data[32],
                player_count: data[33],
                active: data[34] == 1,
                completed: data[35] == 1,
            },
        )
    } else {
        None
    }
}

/// The texts of a question in the order of its record.
pub open spec fn question_texts(q: QuestionView) -> Seq<Seq<char>> {
    seq![q.question_text, q.options[0], q.options[1], q.options[2], q.options[3]]
}

/// The bytes of a question record: five length-prefixed texts and the index
/// of the correct option.
pub open spec fn question_bytes(q: QuestionView) -> Seq<u8> {
    fields(utf8_items(question_texts(q))) + seq![q.correct_answer_index]
}

/// The question that `data` spells; `None` unless `data` is five
/// length-prefixed UTF-8 texts and one more byte.
pub open spec fn question_of(data: Seq<u8>) -> Option<QuestionView> {
    match take_fields(data, 5) {
        Some((items, tail)) => if tail.len() == 1 && all_utf8(items) {
            Some(
                QuestionView {
                    question_text: decode_utf8(items[0]),
                    options: texts_of(items.skip(1)),
                    correct_answer_index: tail[0],
                },
            )
        } else {
            None
        },
        None => None,
    }
}

/// The bytes of an answer record: the player's address and the
/// length-prefixed answers.
pub open spec fn answer_bytes(a: AnswerView) -> Seq<u8> {
    a.player + field(a.answers)
}

/// The answer record that `data` spells; `None` unless `data` is 32 bytes
/// followed by exactly one length-prefixed item.
pub open spec fn answer_of(data: Seq<u8>) -> Option<AnswerView> {
    if data.len() < 32 {
        None
    } else {
        match field_of(data.skip(32)) {
            Some(answers) => Some(AnswerView { player: data.take(32), answers }),
            None => None,
        }
    }
}

/// The 33 bytes of a score record.
pub open spec fn score_bytes(s: ScoreView) -> Seq<u8> {
    s.player + seq![s.score]
}

/// Whether the texts of a question are short enough to be written.
pub open spec fn question_fits(q: QuestionView) -> bool {
    items_fit(utf8_items(question_texts(q)))
}

/// `BorshDeserialize::try_from_slice` at the tuple of a session's fields.
/// It succeeds on exactly 36 bytes whose last two are 0 or 1, and reads the
/// fields in order.
#[verifier::external_body]
fn borsh_read_session(data: &[u8]) -> (r: Option<QuizSession>)
    ensures
        r matches Some(s) ==> session_of(data@) == Some(s@),
        r is None ==> session_of(data@) is None,
{
    match <([u8; 32], u8, u8, bool, bool)>::try_from_slice(data) {
        Ok((host, question_count, player_count, active, completed)) => Some(
            QuizSession {
                host: Address { bytes: host },
                question_count,
                player_count,
                active,
                completed,
            },
        ),
        Err(_) => None,
    }
}

/// `borsh::to_vec` at the tuple of a session's fields. Writing fixed-size
/// fields into a vector does not fail.
#[verifier::external_body]
fn borsh_write_session(s: &QuizSession) -> (r: Option<Vec<u8>>)
    ensures
        r is Some,
        r matches Some(b) ==> b@ == session_bytes(s@),
{
    borsh::to_vec(&(s.host.bytes, s.question_count, s.player_count, s.active, s.completed)).ok()
}

/// `BorshDeserialize::try_from_slice` at the tuple of a question's fields:
/// a text, an array of four texts and a byte. A text is a four-byte
/// little-endian length and that many bytes of valid UTF-8.
#[verifier::external_body]
fn borsh_read_question(data: &[u8]) -> (r: Option<QuizQuestion>)
    ensures
        r matches Some(q) ==> question_of(data@) == Some(q@),
        r is None ==> question_of(data@) is None,
{
    match <(String, [String; 4], u8)>::try_from_slice(data) {
        Ok((question_text, options, correct_answer_index)) => Some(
            QuizQuestion { question_text, options, correct_answer_index },
        ),
        Err(_) => None,
    }
}

/// `borsh::to_vec` at the tuple of a question's fields. It fails only where
/// a text is longer than its four-byte length can say.
#[verifier::external_body]
fn borsh_write_question(q: &QuizQuestion) -> (r: Option<Vec<u8>>)
    ensures
        r is Some <==> question_fits(q@),
        r matches Some(b) ==> b@ == question_bytes(q@),
{
    borsh::to_vec(&(&q.question_text, &q.options, q.correct_answer_index)).ok()
}

/// `BorshDeserialize::try_from_slice` at the pair of an answer record's
/// fields: 32 bytes and a length-prefixed byte vector that ends the input.
#[verifier::external_body]
fn borsh_read_answer(data: &[u8]) -> (r: Option<PlayerAnswer>)
    ensures
        r matches Some(a) ==> answer_of(data@) == Some(a@),
        r is None ==> answer_of(data@) is None,
{
    match <([u8; 32], Vec<u8>)>::try_from_slice(data) {
        Ok((player, answers)) => Some(PlayerAnswer { player: Address { bytes: player }, answers }),
        Err(_) => None,
    }
}

/// `borsh::to_vec` at the pair of an answer record's fields. It fails only
/// where there are more answers than the four-byte length can say.
#[verifier::external_body]
fn borsh_write_answer(a: &PlayerAnswer) -> (r: Option<Vec<u8>>)
    ensures
        r is Some <==> a.answers@.len() <= MAX_FIELD_LEN,
        r matches Some(b) ==> b@ == answer_bytes(a@),
{
    borsh::to_vec(&(a.player.bytes, &a.answers)).ok()
}

/// `borsh::to_vec` at the pair of a score record's fields. Writing
/// fixed-size fields into a vector does not fail.
#[verifier::external_body]
fn borsh_write_score(s: &PlayerScore) -> (r: Option<Vec<u8>>)
    ensures
        r is Some,
        r matches Some(b) ==> b@ == score_bytes(s@),
{
    borsh::to_vec(&(s.player.bytes, s.score)).ok()
}

impl QuizSession {
    /// Reads a session record.
    pub fn try_from_slice(data: &[u8]) -> (r: Option<QuizSession>)
        ensures
            r matches Some(s) ==> session_of(data@) == Some(s@),
            r is None ==> session_of(data@) is None,
    {
        borsh_read_session(data)
    }

    /// The bytes of this session's record.
    pub fn to_bytes(&self) -> (b: Vec<u8>)
        ensures
            b@ == session_bytes(self@),
            b@.len() == QuizSession::SIZE,
    {
        match borsh_write_session(self) {
            Some(b) => b,
            None => Vec::new(),
        }
    }
}

impl QuizQuestion {
    /// Reads a question record.
    pub fn try_from_slice(data: &[u8]) -> (r: Option<QuizQuestion>)
        ensures
            r matches Some(q) ==> question_of(data@) == Some(q@),
            r is None ==> question_of(data@) is None,
    {
        borsh_read_question(data)
    }

    /// The bytes of this question's record; `None` where a text is too long
    /// to be written.
    pub fn to_bytes(&self) -> (r: Option<Vec<u8>>)
        ensures
            r is Some <==> question_fits(self@),
            r matches Some(b) ==> b@ == question_bytes(self@),
    {
        borsh_write_question(self)
    }
}

impl PlayerAnswer {
    /// Reads an answer record.
    pub fn try_from_slice(data: &[u8]) -> (r: Option<PlayerAnswer>)
        ensures
            r matches Some(a) ==> answer_of(data@) == Some(a@),
            r is None ==> answer_of(data@) is None,
    {
        borsh_read_answer(data)
    }

    /// The bytes of this answer record; `None` where the answers are too
    /// many to be written.
    pub fn to_bytes(&self) -> (r: Option<Vec<u8>>)
        ensures
            r is Some <==> self.answers@.len() <= MAX_FIELD_LEN,
            r matches Some(b) ==> b@ == answer_bytes(self@),
    {
        borsh_write_answer(self)
    }
}

impl PlayerScore {
    /// The bytes of this score's record.
    pub fn to_bytes(&self) -> (b: Vec<u8>)
        ensures
            b@ == score_bytes(self@),
            b@.len() == PlayerScore::SIZE,
    {
        match borsh_write_score(self) {
            Some(b) => b,
            None => Vec::new(),
        }
    }
}

/// The length of several length-prefixed items: four bytes and its own
/// bytes for each.
pub open spec fn fields_len(items: Seq<Seq<u8>>) -> nat
    decreases items.len(),
{
    if items.len() == 0 {
        0
    } else {
        4 + items[0].len() + fields_len(items.drop_first())
    }
}

proof fn lemma_fields_len(items: Seq<Seq<u8>>)
    ensures
        fields(items).len() == fields_len(items),
    decreases items.len(),
{
    if items.len() > 0 {
        lemma_fields_len(items.drop_first());
    }
}

/// A question's record is as long as `QuizQuestion::get_size` says.
pub proof fn lemma_question_size(q: QuestionView)
    ensures
        question_bytes(q).len() == question_size(q.question_text, q.options),
{
    let items = utf8_items(question_texts(q));
    lemma_fields_len(items);
    reveal_with_fuel(fields_len, 6);
    let i1 = items.drop_first();
    let i2 = i1.drop_first();
    let i3 = i2.drop_first();
    let i4 = i3.drop_first();
    assert(i4.drop_first().len() == 0);
    assert(i1[0] == items[1]);
    assert(i2[0] == items[2]);
    assert(i3[0] == items[3]);
    assert(i4[0] == items[4]);
}

/// A session that was written reads back unchanged.
pub proof fn lemma_session_round_trip(s: SessionView)
    requires
        s.host.len() == 32,
    ensures
        session_bytes(s).len() == 36,
        session_of(session_bytes(s)) == Some(s),
{
    let data = session_bytes(s);
    assert(data.take(32) =~= s.host);
}

/// An answer record that was written reads back unchanged.
pub proof fn lemma_answer_round_trip(a: AnswerView)
    requires
        a.player.len() == 32,
        a.answers.len() <= MAX_FIELD_LEN,
    ensures
        answer_bytes(a).len() == 36 + a.answers.len(),
        answer_of(answer_bytes(a)) == Some(a),
{
    let data = answer_bytes(a);
    lemma_field_round_trip(a.answers);
    assert(data.skip(32) =~= field(a.answers));
    assert(data.take(32) =~= a.player);
}

/// A question that was written reads back unchanged.
pub proof fn lemma_question_round_trip(q: QuestionView)
    requires
        q.options.len() == 4,
        question_fits(q),
    ensures
        question_of(question_bytes(q)) == Some(q),
{
    broadcast use vstd::utf8::encode_utf8_valid_utf8, vstd::utf8::encode_utf8_decode_utf8;

    let texts = question_texts(q);
    let items = utf8_items(texts);
    let tail = seq![q.correct_answer_index];
    lemma_take_fields(items, tail);
    assert(all_utf8(items));
    assert(decode_utf8(items[0]) == q.question_text);
    assert(texts_of(items.skip(1)) =~= q.options) by {
        assert forall|i: int| 0 <= i < 4 implies texts_of(items.skip(1))[i] == q.options[i] by {
            assert(items.skip(1)[i] == items[i + 1]);
            assert(texts[i + 1] == q.options[i]);
        }
    }
}

/// Only the bytes of a session read as that session.
pub proof fn lemma_session_of_shape(data: Seq<u8>)
    requires
        session_of(data) is Some,
    ensures
        data == session_bytes(session_of(data)->Some_0),
{
    assert(data =~= session_bytes(session_of(data)->Some_0));
}

/// Only the bytes of an answer record read as that record.
pub proof fn lemma_answer_of_shape(data: Seq<u8>)
    requires
        answer_of(data) is Some,
    ensures
        data == answer_bytes(answer_of(data)->Some_0),
{
    lemma_field_of_shape(data.skip(32));
    assert(data =~= data.take(32) + data.skip(32));
}

} // verus!
