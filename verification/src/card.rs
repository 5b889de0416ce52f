//! The persisted records: flashcards and the log of interactions with them.

use vstd::prelude::*;

verus! {

/// One of the three texts of a card that a user can edit.
#[derive(Clone, Copy, Debug, PartialEq, Eq, Structural)]
pub enum CardField {
    Title,
    Question,
    Answer,
}

/// A flashcard.
///
/// `rowid` is absent until the card has been stored.  A card whose `deleted`
/// flag is set stays in the store but is left out of every listing and of
/// navigation.  The two timestamps are in milliseconds and are absent until
/// the card's question or answer has been viewed.
#[derive(Debug, PartialEq, Eq)]
pub struct Card {
    pub rowid: Option<i64>,
    pub deleted: bool,
    pub title: String,
    pub question: String,
    pub answer: String,
    pub last_question_viewed_ms: Option<i64>,
    pub last_answer_viewed_ms: Option<i64>,
}

/// What a [`Card`] holds, with each text as a sequence of characters.
pub struct CardView {
    pub rowid: Option<i64>,
    pub deleted: bool,
    pub title: Seq<char>,
    pub question: Seq<char>,
    pub answer: Seq<char>,
    pub last_question_viewed_ms: Option<i64>,
    pub last_answer_viewed_ms: Option<i64>,
}

impl CardView {
    /// The card that is created on request and that stands for a card that
    /// could not be found: no identifier, not deleted, empty texts, never
    /// viewed.
    pub open spec fn placeholder() -> CardView {
        CardView {
            rowid: None,
            deleted: false,
            title: Seq::empty(),
            question: Seq::empty(),
            answer: Seq::empty(),
            last_question_viewed_ms: None,
            last_answer_viewed_ms: None,
        }
    }

    /// The text of one editable field.
    pub open spec fn field(self, field: CardField) -> Seq<char> {
        match field {
            CardField::Title => self.title,
            CardField::Question => self.question,
            CardField::Answer => self.answer,
        }
    }

    /// This card with one editable field rewritten and all else kept.
    pub open spec fn with_field(self, field: CardField, value: Seq<char>) -> CardView {
        match field {
            CardField::Title => CardView { title: value, ..self },
            CardField::Question => CardView { question: value, ..self },
            CardField::Answer => CardView { answer: value, ..self },
        }
    }

    /// This card under the identifier `id`.
    pub open spec fn with_rowid(self, id: i64) -> CardView {
        CardView { rowid: Some(id), ..self }
    }

    /// This card with its soft-delete flag set.
    pub open spec fn soft_deleted(self) -> CardView {
        CardView { deleted: true, ..self }
    }
}

impl View for Card {
    type V = CardView;

    open spec fn view(&self) -> CardView {
        CardView {
            rowid: self.rowid,
            deleted: self.deleted,
            title: self.title@,
            question: self.question@,
            answer: self.answer@,
            last_question_viewed_ms: self.last_question_viewed_ms,
            last_answer_viewed_ms: self.last_answer_viewed_ms,
        }
    }
}

impl Default for Card {
    /// The placeholder card.
    fn default() -> (card: Card)
        ensures
            card@ == CardView::placeholder(),
    {
        Card {
            rowid: None,
            deleted: false,
            title: String::new(),
            question: String::new(),
            answer: String::new(),
            last_question_viewed_ms: None,
            last_answer_viewed_ms: None,
        }
    }
}

impl Clone for Card {
    fn clone(&self) -> (card: Card)
        ensures
            card@ == self@,
    {
        Card {
            rowid: self.rowid,
            deleted: self.deleted,
            title: self.title.clone(),
            question: self.question.clone(),
            answer: self.answer.clone(),
            last_question_viewed_ms: self.last_question_viewed_ms,
            last_answer_viewed_ms: self.last_answer_viewed_ms,
        }
    }
}

impl Card {
    /// The text of one editable field.
    pub fn field(&self, field: CardField) -> (text: &String)
        ensures
            text@ == self@.field(field),
    {
        match field {
            CardField::Title => &self.title,
            CardField::Question => &self.question,
            CardField::Answer => &self.answer,
        }
    }

    /// Rewrites one editable field and leaves the rest of the card as it is.
    pub fn set_field(&mut self, field: CardField, value: String)
        ensures
            final(self)@ == old(self)@.with_field(field, value@),
    {
        match field {
            CardField::Title => {
                self.title = value;
            },
            CardField::Question => {
                self.question = value;
            },
            CardField::Answer => {
                self.answer = value;
            },
        }
    }
}

/// What a user did with a card.
#[derive(Clone, Copy, Debug, PartialEq, Eq, Structural)]
pub enum Action {
    NoOp,
    ViewedQuestion,
    ViewedAnswer,
    Responded { correct: bool },
}

/// One entry of the append-only log of interactions: the card it is about,
/// the time in milliseconds, and what was done.  An entry is written once and
/// never changed afterwards, so the type offers no operation that alters one.
#[derive(Clone, Copy, Debug, PartialEq, Eq, Structural)]
pub struct CardLog {
    pub rowid: Option<i64>,
    pub card_id: i64,
    pub time_ms: i64,
    pub action: Action,
}

} // verus!
