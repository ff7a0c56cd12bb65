use vstd::prelude::*;

verus! {

/// Why a single question could not be converted.
#[derive(Debug)]
pub enum QuestionError {
    UnknownQuestionType(QuestionTypeError),
    AnswerError(AnswerError),
}

/// Why the answers of a question could not be converted.
#[derive(Debug)]
pub enum AnswerError {
    UnknownQuestionType(QuestionTypeError),
    /// A free-text question lists no correct answer.
    NoCorrectAnswer,
    NoComplexAnswer(ComplexAnswerError),
    NoPredefinedAnswer(PredefinedAnswerError),
    /// A one-based coordinate of an answer cell is zero.
    ZeroDimension,
}

#[derive(Debug, PartialEq, Eq, Structural)]
pub enum ComplexAnswerError {
    /// The list of correct answers is empty.
    NoGroup,
    /// The first correct answer carries no answer cells.
    NoAnswers,
}

#[derive(Debug, PartialEq, Eq, Structural)]
pub enum PredefinedAnswerError {
    /// A grouping question has no predefined answers.
    NoValue,
    /// No predefined answer carries the referenced id.
    NotFound,
}

/// A type tag that names none of the known question types.
#[derive(Debug)]
pub struct QuestionTypeError {
    pub raw_type: String,
}

impl QuestionTypeError {
    /// Human-readable description of the error.
    pub fn message(&self) -> (r: String)
        ensures
            r@ == "Invalid question type: "@ + self.raw_type@,
    {
        let mut r = "Invalid question type: ".to_owned();
        r.append(self.raw_type.as_str());
        r
    }
}

/// Failure of the whole export: no folder list to convert.
#[derive(Debug, PartialEq, Eq, Structural)]
pub enum UnipolError {
    FlattenError(UnipolFolderError),
}

#[derive(Debug, PartialEq, Eq, Structural)]
pub enum UnipolFolderError {
    /// The export carries no folder list at all.
    NoTopFolders,
    /// The export's folder list is empty.
    NoFirstTopFolder,
}

} // verus!
