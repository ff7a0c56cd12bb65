use vstd::prelude::*;

verus! {

/// A named, flat list of folders.
#[derive(Debug, Clone)]
pub struct Collection {
    pub name: String,
    pub folders: Vec<Folder>,
}

/// A folder with its converted questions; folders do not nest.
#[derive(Debug, Clone)]
pub struct Folder {
    pub name: String,
    pub questions: Vec<Question>,
}

/// The name given to a folder that has no title.
pub open spec fn folder_name(title: Option<String>) -> Seq<char> {
    match title {
        Some(t) => t@,
        None => "Unnamed"@,
    }
}

impl Folder {
    pub(crate) fn new(name: Option<&String>, questions: Vec<Question>) -> (r: Folder)
        ensures
            r.name@ == folder_name(
                match name {
                    Some(n) => Some(*n),
                    None => None,
                },
            ),
            r.questions == questions,
    {
        let name = match name {
            Some(n) => n.clone(),
            None => "Unnamed".to_owned(),
        };
        Folder { name, questions }
    }
}

#[derive(Debug, Clone, Copy, PartialEq, Eq, Structural)]
pub enum QuestionType {
    ExactText,
    SingleAnswer,
    MultipleAnswers,
    Table,
    Group,
}

#[derive(Debug, Clone)]
pub struct Question {
    pub text: String,
    pub question_type: QuestionType,
    pub possible_answers: Vec<String>,
    pub possible_options: Vec<String>,
    pub answer: AnswerWrapper,
}

/// The correct answers of a question: literal texts for free-text
/// questions, index pairs for all others.
#[derive(Debug, Clone)]
pub struct AnswerWrapper {
    pub single_answer: Option<String>,
    pub text_answers: Vec<String>,
    pub answers: Vec<Answer>,
}

/// A zero-based (answer, option) pair.
#[derive(Debug, Clone, Copy, PartialEq, Eq, Structural)]
pub struct Answer {
    pub answer_index: usize,
    pub option_index: usize,
}

} // verus!
