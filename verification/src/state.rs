use vstd::prelude::*;
use vstd::utf8::encode_utf8;

verus! {

/// A 32-byte record or identity address.
#[derive(Clone, Copy, Debug, PartialEq, Eq, Hash)]
pub struct Address {
    pub bytes: [u8; 32],
}

impl View for Address {
    type V = Seq<u8>;

    open spec fn view(&self) -> Seq<u8> {
        self.bytes@
    }
}

impl Address {
    /// The address that these 32 bytes spell.
    pub fn new(bytes: [u8; 32]) -> (a: Address)
        ensures
            a.bytes == bytes,
    {
        Address { bytes }
    }

    /// The 32 bytes of the address, in order.
    pub fn to_vec(&self) -> (v: Vec<u8>)
        ensures
            v@ == self@,
    {
        let mut v: Vec<u8> = Vec::new();
        let mut i: usize = 0;
        while i < 32
            invariant
                i <= 32,
                v@ == self@.take(i as int),
            decreases 32 - i,
        {
            v.push(self.bytes[i]);
            i += 1;
        }
        v
    }

    /// Whether two addresses hold the same bytes.
    pub fn same(&self, other: &Address) -> (r: bool)
        ensures
            r == (self@ == other@),
            r == (*self == *other),
    {
        let mut i: usize = 0;
        while i < 32
            invariant
                i <= 32,
                forall|j: int| 0 <= j < i ==> self@[j] == other@[j],
            decreases 32 - i,
        {
            if self.bytes[i] != other.bytes[i] {
                return false;
            }
            i += 1;
        }
        assert(self@ =~= other@);
        assert(self.bytes == other.bytes);
        true
    }
}

/// What the rules read of an account that a call refers to.
#[derive(Clone, Debug, PartialEq, Eq)]
pub struct Account {
    /// The account's address.
    pub key: Address,
    /// Whether the account's owner signed the call.
    pub is_signer: bool,
    /// The bytes that the account holds.
    pub data: Vec<u8>,
}

/// The quiz session of one host.
#[derive(Clone, Copy, Debug, PartialEq, Eq)]
pub struct QuizSession {
    pub host: Address,
    pub question_count: u8,
    pub player_count: u8,
    pub active: bool,
    pub completed: bool,
}

/// A session as a mathematical value.
pub struct SessionView {
    pub host: Seq<u8>,
    pub question_count: u8,
    pub player_count: u8,
    pub active: bool,
    pub completed: bool,
}

impl View for QuizSession {
    type V = SessionView;

    open spec fn view(&self) -> SessionView {
        SessionView {
            host: self.host@,
            question_count: self.question_count,
            player_count: self.player_count,
            active: self.active,
            completed: self.completed,
        }
    }
}

impl SessionView {
    /// The phases of a session: created, then active, then completed. A
    /// completed session is active.
    pub open spec fn well_formed(self) -> bool {
        self.completed ==> self.active
    }
}

impl QuizSession {
    /// Bytes of a session record: host, question count, player count, active, completed.
    pub const SIZE: usize = 36;
}

/// One question of a session, with its four options and the index of the
/// correct one.
#[derive(Clone, Debug, PartialEq, Eq)]
pub struct QuizQuestion {
    pub question_text: String,
    pub options: [String; 4],
    pub correct_answer_index: u8,
}

/// A question as a mathematical value: its texts as character sequences.
pub struct QuestionView {
    pub question_text: Seq<char>,
    pub options: Seq<Seq<char>>,
    pub correct_answer_index: u8,
}

/// The texts of four options.
pub open spec fn option_texts(options: [String; 4]) -> Seq<Seq<char>> {
    seq![options@[0]@, options@[1]@, options@[2]@, options@[3]@]
}

impl View for QuizQuestion {
    type V = QuestionView;

    open spec fn view(&self) -> QuestionView {
        QuestionView {
            question_text: self.question_text@,
            options: option_texts(self.options),
            correct_answer_index: self.correct_answer_index,
        }
    }
}

/// Bytes that a text occupies in a record: a four-byte length and its UTF-8 bytes.
pub open spec fn text_size(text: Seq<char>) -> nat {
    encode_utf8(text).len() + 4
}

/// Bytes that a question record occupies: the question text, the four
/// options and the one-byte index of the correct option.
pub open spec fn question_size(question_text: Seq<char>, options: Seq<Seq<char>>) -> nat {
    text_size(question_text) + text_size(options[0]) + text_size(options[1]) + text_size(
        options[2],
    ) + text_size(options[3]) + 1
}

impl QuizQuestion {
    /// The number of bytes that the record of a question with these texts occupies.
    pub fn get_size(question_text: &str, options: &[String; 4]) -> (size: usize)
        requires
            question_size(question_text@, option_texts(*options)) <= usize::MAX,
        ensures
            size == question_size(question_text@, option_texts(*options)),
    {
        let mut size: usize = question_text.len() + 4;
        let mut i: usize = 0;
        while i < 4
            invariant
                i <= 4,
                question_size(question_text@, option_texts(*options)) <= usize::MAX,
                size == text_size(question_text@) + (if i > 0 {
                    text_size(options@[0]@)
                } else {
                    0
                }) + (if i > 1 {
                    text_size(options@[1]@)
                } else {
                    0
                }) + (if i > 2 {
                    text_size(options@[2]@)
                } else {
                    0
                }) + (if i > 3 {
                    text_size(options@[3]@)
                } else {
                    0
                }),
            decreases 4 - i,
        {
            size = size + (options[i].as_str().len() + 4);
            i += 1;
        }
        size + 1
    }
}

/// The answers that one player submitted to a session.
#[derive(Clone, Debug, PartialEq, Eq)]
pub struct PlayerAnswer {
    pub player: Address,
    pub answers: Vec<u8>,
}

/// An answer record as a mathematical value.
pub struct AnswerView {
    pub player: Seq<u8>,
    pub answers: Seq<u8>,
}

impl View for PlayerAnswer {
    type V = AnswerView;

    open spec fn view(&self) -> AnswerView {
        AnswerView { player: self.player@, answers: self.answers@ }
    }
}

impl PlayerAnswer {
    /// The number of bytes that the record of `answer_count` answers occupies:
    /// the player's address, a four-byte length and one byte for each answer.
    pub fn get_size(answer_count: usize) -> (size: usize)
        requires
            answer_count + 36 <= usize::MAX,
        ensures
            size == answer_count + 36,
    {
        32 + 4 + answer_count
    }
}

/// The score of one player in a completed session.
#[derive(Clone, Copy, Debug, PartialEq, Eq)]
pub struct PlayerScore {
    pub player: Address,
    pub score: u8,
}

/// A score record as a mathematical value.
pub struct ScoreView {
    pub player: Seq<u8>,
    pub score: u8,
}

impl View for PlayerScore {
    type V = ScoreView;

    open spec fn view(&self) -> ScoreView {
        ScoreView { player: self.player@, score: self.score }
    }
}

impl PlayerScore {
    /// Bytes of a score record: the player's address and the score.
    pub const SIZE: usize = 33;
}

} // verus!
