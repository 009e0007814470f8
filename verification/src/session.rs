use vstd::prelude::*;

use crate::error::StudyError;
use crate::text::{normalize_spec, romaji_matches};
use crate::vocab::{
    full_display_spec, masked_display_spec, short_display_spec, MaskableVocabField, MaskedVocab,
    Vocab,
};

verus! {

/// Relies on rand::random_range: a value drawn from `0..len`, which the
/// crate documents to lie inside the given non-empty range.
#[verifier::external_body]
fn random_index(len: usize) -> (r: usize)
    requires
        len > 0,
    ensures
        r < len,
{
    rand::random_range(0..len)
}

/// The show-mode study loop state: a non-empty candidate set drawn from
/// with replacement.
pub struct ShowSession {
    vocabs: Vec<Vocab>,
}

impl ShowSession {
    /// The candidate entries, in their filtered order.
    pub closed spec fn spec_vocabs(self) -> Seq<Vocab> {
        self.vocabs@
    }

    /// Start a show session over a filtered corpus.  An empty corpus is
    /// exactly the reportable `EmptySelection` condition.
    pub fn new(vocabs: Vec<Vocab>) -> (r: Result<ShowSession, StudyError>)
        ensures
            (vocabs@.len() == 0) <==> (r == Err::<ShowSession, StudyError>(
                StudyError::EmptySelection,
            )),
            r matches Ok(s) ==> s.spec_vocabs() == vocabs@ && s.spec_vocabs().len() > 0,
    {
        if vocabs.len() == 0 {
            Err(StudyError::EmptySelection)
        } else {
            Ok(ShowSession { vocabs })
        }
    }

    /// How many candidates the session holds.
    pub fn count(&self) -> (r: usize)
        ensures
            r == self.spec_vocabs().len(),
    {
        self.vocabs.len()
    }

    /// Draw one entry uniformly at random, independently of earlier draws,
    /// and render its full card.
    pub fn draw(&self) -> (r: String)
        requires
            self.spec_vocabs().len() > 0,
        ensures
            exists|i: int|
                0 <= i < self.spec_vocabs().len() && r@ == full_display_spec(
                    #[trigger] self.spec_vocabs()[i],
                ),
    {
        let i = random_index(self.vocabs.len());
        let out = self.vocabs[i].full_display();
        proof {
            assert(out@ == full_display_spec(self.spec_vocabs()[i as int]));
        }
        out
    }
}

/// What one quiz turn answers back to the user.
#[derive(Debug, PartialEq)]
pub enum QuizFeedback {
    /// Self-graded meaning quiz: the true meaning, revealed for the user
    /// to judge their answer themself.
    Meaning { answer: String },
    /// Graded romaji quiz: whether the normalized answer matched, and the
    /// short form of the entry to show either way.
    Romaji { correct: bool, short: String },
}

/// The quiz-mode study loop state: a non-empty candidate set, the fields
/// the question card hides, and the field the answer is collected for.
pub struct QuizSession {
    vocabs: Vec<Vocab>,
    masked_fields: Vec<MaskableVocabField>,
    answer_field: MaskableVocabField,
}

impl QuizSession {
    /// The candidate entries, in their filtered order.
    pub closed spec fn spec_vocabs(self) -> Seq<Vocab> {
        self.vocabs@
    }

    /// The fields the question card hides.
    pub closed spec fn spec_masked(self) -> Seq<MaskableVocabField> {
        self.masked_fields@
    }

    /// The field the answer is collected for.
    pub closed spec fn spec_answer_field(self) -> MaskableVocabField {
        self.answer_field
    }

    /// A session holds candidates and quizzes one of the two answerable
    /// fields.
    pub open spec fn wf(self) -> bool {
        &&& self.spec_vocabs().len() > 0
        &&& (self.spec_answer_field() == MaskableVocabField::Meaning || self.spec_answer_field()
            == MaskableVocabField::Romaji)
    }

    /// How many candidates the session holds.
    pub fn count(&self) -> (r: usize)
        ensures
            r == self.spec_vocabs().len(),
    {
        self.vocabs.len()
    }

    /// Draw the next question's entry uniformly at random, independently
    /// of earlier draws.
    pub fn draw(&self) -> (i: usize)
        requires
            self.wf(),
        ensures
            i < self.spec_vocabs().len(),
    {
        random_index(self.vocabs.len())
    }

    /// Render the question card of one entry, the variant's fields hidden.
    pub fn question(&self, i: usize) -> (r: String)
        requires
            self.wf(),
            i < self.spec_vocabs().len(),
        ensures
            r@ == masked_display_spec(self.spec_vocabs()[i as int], self.spec_masked()),
    {
        let masked = MaskedVocab { vocab: &self.vocabs[i], masked_field: &self.masked_fields };
        masked.masked_display()
    }

    /// Judge one collected answer.  The meaning variant is self-graded: it
    /// only reveals the true meaning.  The romaji variant compares the
    /// answer against the true romaji, both in normal form, and hands back
    /// the entry's short form to show.
    pub fn check(&self, i: usize, answer: &str) -> (f: QuizFeedback)
        requires
            self.wf(),
            i < self.spec_vocabs().len(),
        ensures
            self.spec_answer_field() == MaskableVocabField::Meaning ==> (f matches
                QuizFeedback::Meaning { answer: a } && a@ == self.spec_vocabs()[i as int].meaning@),
            self.spec_answer_field() == MaskableVocabField::Romaji ==> (f matches
                QuizFeedback::Romaji { correct, short } && correct == (normalize_spec(
                self.spec_vocabs()[i as int].romaji@,
            ) == normalize_spec(answer@)) && short@ == short_display_spec(
                self.spec_vocabs()[i as int],
            )),
    {
        match self.answer_field {
            MaskableVocabField::Meaning => QuizFeedback::Meaning {
                answer: self.vocabs[i].meaning.clone(),
            },
            MaskableVocabField::Romaji => {
                let correct = romaji_matches(self.vocabs[i].romaji.as_str(), answer);
                let short = self.vocabs[i].short_display();
                QuizFeedback::Romaji { correct, short }
            },
            MaskableVocabField::Hiragana => vstd::pervasive::unreached(),
            MaskableVocabField::Kanji => vstd::pervasive::unreached(),
        }
    }
}

/// Start the self-graded meaning quiz: kanji and meaning masked, the
/// meaning collected.  An empty corpus is the `EmptySelection` condition.
pub fn quiz_random_meaning(vocabs: Vec<Vocab>) -> (r: Result<QuizSession, StudyError>)
    ensures
        (vocabs@.len() == 0) <==> (r == Err::<QuizSession, StudyError>(StudyError::EmptySelection)),
        r matches Ok(s) ==> s.wf() && s.spec_vocabs() == vocabs@ && s.spec_masked() == seq![
            MaskableVocabField::Kanji,
            MaskableVocabField::Meaning,
        ] && s.spec_answer_field() == MaskableVocabField::Meaning,
{
    if vocabs.len() == 0 {
        return Err(StudyError::EmptySelection);
    }
    let mut masked_fields: Vec<MaskableVocabField> = Vec::new();
    masked_fields.push(MaskableVocabField::Kanji);
    masked_fields.push(MaskableVocabField::Meaning);
    proof {
        assert(masked_fields@ =~= seq![MaskableVocabField::Kanji, MaskableVocabField::Meaning]);
    }
    Ok(QuizSession { vocabs, masked_fields, answer_field: MaskableVocabField::Meaning })
}

/// Start the graded romaji quiz: hiragana and romaji masked, the romaji
/// collected.  An empty corpus is the `EmptySelection` condition.
pub fn quiz_random_romaji(vocabs: Vec<Vocab>) -> (r: Result<QuizSession, StudyError>)
    ensures
        (vocabs@.len() == 0) <==> (r == Err::<QuizSession, StudyError>(StudyError::EmptySelection)),
        r matches Ok(s) ==> s.wf() && s.spec_vocabs() == vocabs@ && s.spec_masked() == seq![
            MaskableVocabField::Hiragana,
            MaskableVocabField::Romaji,
        ] && s.spec_answer_field() == MaskableVocabField::Romaji,
{
    if vocabs.len() == 0 {
        return Err(StudyError::EmptySelection);
    }
    let mut masked_fields: Vec<MaskableVocabField> = Vec::new();
    masked_fields.push(MaskableVocabField::Hiragana);
    masked_fields.push(MaskableVocabField::Romaji);
    proof {
        assert(masked_fields@ =~= seq![MaskableVocabField::Hiragana, MaskableVocabField::Romaji]);
    }
    Ok(QuizSession { vocabs, masked_fields, answer_field: MaskableVocabField::Romaji })
}

} // verus!
