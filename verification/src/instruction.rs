//! The instruction envelope: an eight-byte discriminator, of which the first
//! byte selects the command and the other seven are zero, followed by the
//! command's payload.

use crate::codec::{all_utf8, texts_of};
use crate::error::QuizError;
use crate::state::option_texts;
use crate::wire::{field_list_of, field_of, take_fields};
use borsh::BorshDeserialize;
use vstd::prelude::*;
use vstd::utf8::decode_utf8;

verus! {

/// Payload of the command that adds a question.
#[derive(Clone, Debug, PartialEq, Eq)]
pub struct AddQuestionData {
    pub question_index: u8,
    pub question_text: String,
    pub options: [String; 4],
    pub correct_answer_index: u8,
}

/// The payload of the command that adds a question, as a mathematical value.
pub struct AddQuestionView {
    pub question_index: u8,
    pub question_text: Seq<char>,
    pub options: Seq<Seq<char>>,
    pub correct_answer_index: u8,
}

impl View for AddQuestionData {
    type V = AddQuestionView;

    open spec fn view(&self) -> AddQuestionView {
        AddQuestionView {
            question_index: self.question_index,
            question_text: self.question_text@,
            options: option_texts(self.options),
            correct_answer_index: self.correct_answer_index,
        }
    }
}

/// A decoded command.
#[derive(Clone, Debug, PartialEq, Eq)]
pub enum QuizInstruction {
    InitializeQuiz { question_count: u8 },
    AddQuestion {
        question_index: u8,
        question_text: String,
        options: [String; 4],
        correct_answer_index: u8,
    },
    StartQuiz,
    DelegatePlayer,
    SubmitAnswers { answers: Vec<u8> },
    CommitAnswers,
    CalculateScores,
    UndelegatePlayer { pda_seeds: Vec<Vec<u8>> },
}

/// A command as a mathematical value.
pub enum InstructionView {
    InitializeQuiz { question_count: u8 },
    AddQuestion {
        question_index: u8,
        question_text: Seq<char>,
        options: Seq<Seq<char>>,
        correct_answer_index: u8,
    },
    StartQuiz,
    DelegatePlayer,
    SubmitAnswers { answers: Seq<u8> },
    CommitAnswers,
    CalculateScores,
    UndelegatePlayer { pda_seeds: Seq<Seq<u8>> },
}

/// The bytes of each item of a list.
pub open spec fn byte_lists(items: Seq<Vec<u8>>) -> Seq<Seq<u8>> {
    Seq::new(items.len(), |i: int| items[i]@)
}

impl View for QuizInstruction {
    type V = InstructionView;

    open spec fn view(&self) -> InstructionView {
        match *self {
            QuizInstruction::InitializeQuiz { question_count } => InstructionView::InitializeQuiz {
                question_count,
            },
            QuizInstruction::AddQuestion {
                question_index,
                question_text,
                options,
                correct_answer_index,
            } => InstructionView::AddQuestion {
                question_index,
                question_text: question_text@,
                options: option_texts(options),
                correct_answer_index,
            },
            QuizInstruction::StartQuiz => InstructionView::StartQuiz,
            QuizInstruction::DelegatePlayer => InstructionView::DelegatePlayer,
            QuizInstruction::SubmitAnswers { answers } => InstructionView::SubmitAnswers {
                answers: answers@,
            },
            QuizInstruction::CommitAnswers => InstructionView::CommitAnswers,
            QuizInstruction::CalculateScores => InstructionView::CalculateScores,
            QuizInstruction::UndelegatePlayer { pda_seeds } => InstructionView::UndelegatePlayer {
                pda_seeds: byte_lists(pda_seeds@),
            },
        }
    }
}

/// The payload of the command that adds a question: the index byte, five
/// length-prefixed UTF-8 texts and the byte of the correct option, and
/// nothing after it.
pub open spec fn add_question_of(data: Seq<u8>) -> Option<AddQuestionView> {
    if data.len() < 1 {
        None
    } else {
        match take_fields(data.skip(1), 5) {
            Some((items, tail)) => if tail.len() == 1 && all_utf8(items) {
                Some(
                    AddQuestionView {
                        question_index: data[0],
                        question_text: decode_utf8(items[0]),
                        options: texts_of(items.skip(1)),
                        correct_answer_index: tail[0],
                    },
                )
            } else {
                None
            },
            None => None,
        }
    }
}

/// Whether bytes 1 to 7 of the envelope are zero.
pub open spec fn header_tail_is_zero(input: Seq<u8>) -> bool {
    forall|i: int| 1 <= i < 8 ==> input[i] == 0
}

/// The command that an instruction buffer spells, if it spells one.
pub open spec fn instruction_of(input: Seq<u8>) -> Option<InstructionView> {
    if input.len() < 8 || !header_tail_is_zero(input) {
        None
    } else {
        let rest = input.skip(8);
        if input[0] == 0 {
            if rest.len() == 0 {
                None
            } else {
                Some(InstructionView::InitializeQuiz { question_count: rest[0] })
            }
        } else if input[0] == 1 {
            match add_question_of(rest) {
                Some(q) => Some(
                    InstructionView::AddQuestion {
                        question_index: q.question_index,
                        question_text: q.question_text,
                        options: q.options,
                        correct_answer_index: q.correct_answer_index,
                    },
                ),
                None => None,
            }
        } else if input[0] == 2 {
            Some(InstructionView::StartQuiz)
        } else if input[0] == 3 {
            Some(InstructionView::DelegatePlayer)
        } else if input[0] == 4 {
            match field_of(rest) {
                Some(answers) => Some(InstructionView::SubmitAnswers { answers }),
                None => None,
            }
        } else if input[0] == 5 {
            Some(InstructionView::CommitAnswers)
        } else if input[0] == 6 {
            Some(InstructionView::CalculateScores)
        } else if input[0] == 7 {
            match field_list_of(rest) {
                Some(pda_seeds) => Some(InstructionView::UndelegatePlayer { pda_seeds }),
                None => None,
            }
        } else {
            None
        }
    }
}

/// `BorshDeserialize::try_from_slice` at the tuple of the fields of
/// [`AddQuestionData`]: a byte, a text, an array of four texts and a byte. A
/// text is a four-byte little-endian length and that many bytes of valid
/// UTF-8; the input must end with the last field.
#[verifier::external_body]
fn borsh_read_add_question(data: &[u8]) -> (r: Option<AddQuestionData>)
    ensures
        r matches Some(q) ==> add_question_of(data@) == Some(q@),
        r is None ==> add_question_of(data@) is None,
{
    match <(u8, String, [String; 4], u8)>::try_from_slice(data) {
        Ok((question_index, question_text, options, correct_answer_index)) => Some(
            AddQuestionData { question_index, question_text, options, correct_answer_index },
        ),
        Err(_) => None,
    }
}

/// `BorshDeserialize::try_from_slice` at a byte vector: a four-byte
/// little-endian length and exactly that many bytes.
#[verifier::external_body]
fn borsh_read_bytes(data: &[u8]) -> (r: Option<Vec<u8>>)
    ensures
        r matches Some(v) ==> field_of(data@) == Some(v@),
        r is None ==> field_of(data@) is None,
{
    Vec::<u8>::try_from_slice(data).ok()
}

/// `BorshDeserialize::try_from_slice` at a vector of byte vectors: a
/// four-byte little-endian count, that many length-prefixed items, and
/// nothing after them.
#[verifier::external_body]
fn borsh_read_byte_lists(data: &[u8]) -> (r: Option<Vec<Vec<u8>>>)
    ensures
        r matches Some(v) ==> field_list_of(data@) == Some(byte_lists(v@)),
        r is None ==> field_list_of(data@) is None,
{
    Vec::<Vec<u8>>::try_from_slice(data).ok()
}

impl AddQuestionData {
    /// Reads the payload of the command that adds a question.
    pub fn try_from_slice(data: &[u8]) -> (r: Option<AddQuestionData>)
        ensures
            r matches Some(q) ==> add_question_of(data@) == Some(q@),
            r is None ==> add_question_of(data@) is None,
    {
        borsh_read_add_question(data)
    }
}

impl QuizInstruction {
    /// Decodes an instruction buffer. Fails with `MalformedInput` on a buffer
    /// shorter than its header, an unknown discriminator, or a payload that
    /// does not decode.
    pub fn unpack(input: &[u8]) -> (r: Result<QuizInstruction, QuizError>)
        ensures
            r matches Ok(i) ==> instruction_of(input@) == Some(i@),
            r matches Err(e) ==> e == QuizError::MalformedInput && instruction_of(input@) is None,
    {
        if input.len() < 8 {
            return Err(QuizError::MalformedInput);
        }
        let (ix_discriminator, rest) = input.split_at(8);
        assert(rest@ == input@.skip(8));
        let mut i: usize = 1;
        while i < 8
            invariant
                1 <= i <= 8,
                ix_discriminator@ == input@.subrange(0, 8),
                input@.len() >= 8,
                forall|j: int| 1 <= j < i ==> input@[j] == 0,
            decreases 8 - i,
        {
            if ix_discriminator[i] != 0 {
                assert(input@[i as int] != 0);
                return Err(QuizError::MalformedInput);
            }
            i += 1;
        }
        let command = ix_discriminator[0];
        assert(command == input@[0]);
        if command == 0 {
            if rest.len() == 0 {
                return Err(QuizError::MalformedInput);
            }
            let question_count = rest[0];
            Ok(QuizInstruction::InitializeQuiz { question_count })
        } else if command == 1 {
            match AddQuestionData::try_from_slice(rest) {
                Some(question_data) => Ok(
                    QuizInstruction::AddQuestion {
                        question_index: question_data.question_index,
                        question_text: question_data.question_text,
                        options: question_data.options,
                        correct_answer_index: question_data.correct_answer_index,
                    },
                ),
                None => Err(QuizError::MalformedInput),
            }
        } else if command == 2 {
            Ok(QuizInstruction::StartQuiz)
        } else if command == 3 {
            Ok(QuizInstruction::DelegatePlayer)
        } else if command == 4 {
            match borsh_read_bytes(rest) {
                Some(answers) => Ok(QuizInstruction::SubmitAnswers { answers }),
                None => Err(QuizError::MalformedInput),
            }
        } else if command == 5 {
            Ok(QuizInstruction::CommitAnswers)
        } else if command == 6 {
            Ok(QuizInstruction::CalculateScores)
        } else if command == 7 {
            match borsh_read_byte_lists(rest) {
                Some(pda_seeds) => Ok(QuizInstruction::UndelegatePlayer { pda_seeds }),
                None => Err(QuizError::MalformedInput),
            }
        } else {
            Err(QuizError::MalformedInput)
        }
    }
}

} // verus!
