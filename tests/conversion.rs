use upt_converter::encoding::{convert_to_utf8, EncodingError};
use upt_converter::error::{
    AnswerError, ComplexAnswerError, PredefinedAnswerError, QuestionError, UnipolError,
    UnipolFolderError,
};
use upt_converter::model::{Answer, AnswerWrapper, Collection, Question, QuestionType};
use upt_converter::unipol::{
    CorrectQuestionAnswer, CorrectQuestionComplexAnswer, Dimension, Export, Folder, FolderWrapper,
    QuestionWrapper, Resource, ResourceWrapper, Value, ValueSet, ValueWrapper,
};
use upt_converter::unipol;
use upt_converter::convert::{get_all_questions_from_folder, get_valid_questions_from_folder};

const EXACT: &str = "Egysoros_szoveg";
const SINGLE: &str = "Lista_egy_valaszthato_ertekkel_";
const MULTIPLE: &str = "Lista_tobb_valaszthato_ertekkel_";
const TABLE: &str = "Tablazat_soronkent_egy_lehetseges_valasszal";
const GROUP: &str = "Csoportokba_rendezes";

fn res(text: &str) -> ResourceWrapper {
    ResourceWrapper { resource: Resource { text: text.to_string() } }
}

fn values(ids: &[&str]) -> Dimension {
    Dimension {
        value_set: Some(ValueSet {
            values: ValueWrapper {
                value: ids
                    .iter()
                    .map(|id| Value { resource_text: res(&format!("label {}", id)), id: id.to_string() })
                    .collect(),
            },
        }),
    }
}

fn no_values() -> Dimension {
    Dimension { value_set: None }
}

fn cell(point_value: u32, d1: u32, d2: u32, answer_id: &str) -> CorrectQuestionComplexAnswer {
    CorrectQuestionComplexAnswer {
        point_value,
        dimension_1: d1,
        dimension_2: d2,
        text_answer: String::new(),
        answer_id: answer_id.to_string(),
    }
}

fn with_cells(cells: Vec<CorrectQuestionComplexAnswer>) -> Vec<CorrectQuestionAnswer> {
    vec![CorrectQuestionAnswer {
        text_answer: String::new(),
        correct_question_complex_answer: Some(cells),
    }]
}

fn question(tag: &str, correct: Vec<CorrectQuestionAnswer>) -> unipol::Question {
    unipol::Question {
        title: res("question"),
        type_tag: tag.to_string(),
        dimension_x: values(&["x1", "x2"]),
        dimension_y: values(&["y1", "y2", "y3"]),
        predefined_answers: values(&["a", "b", "c"]),
        correct_question_answer: correct,
        is_using_partial_points: false,
    }
}

fn exact(texts: &[&str]) -> unipol::Question {
    question(
        EXACT,
        texts
            .iter()
            .map(|t| CorrectQuestionAnswer {
                text_answer: t.to_string(),
                correct_question_complex_answer: None,
            })
            .collect(),
    )
}

fn folder(title: Option<&str>, questions: Vec<unipol::Question>, children: Vec<Folder>) -> Folder {
    Folder {
        title: title.map(|t| t.to_string()),
        questions: Some(QuestionWrapper { question: Some(questions) }),
        folders: FolderWrapper { folder: if children.is_empty() { None } else { Some(children) } },
    }
}

fn titles(folders: &[Folder]) -> Vec<String> {
    folders.iter().map(|f| f.title.clone().unwrap_or_default()).collect()
}

#[test]
fn lib_test_group() {
    let q = question(GROUP, with_cells(vec![cell(1, 1, 2, "b")]));
    let export = Export { folders: Some(vec![folder(Some("root"), vec![q], vec![])]) };
    let collection = Collection::new("test", export).unwrap();
    assert_eq!(collection.folders.len(), 1);
    let folder = &collection.folders[0];
    assert_eq!(folder.questions.len(), 1);
    let question = &folder.questions[0];
    assert_eq!(question.question_type, QuestionType::Group);
}

#[test]
fn lib_test_other() {
    let qs = vec![
        exact(&["one"]),
        question(SINGLE, with_cells(vec![cell(1, 2, 1, "")])),
        question(MULTIPLE, with_cells(vec![cell(1, 1, 1, ""), cell(1, 2, 1, "")])),
        question(TABLE, with_cells(vec![cell(1, 1, 3, "")])),
    ];
    let export = Export { folders: Some(vec![folder(Some("root"), qs, vec![])]) };
    let collection = Collection::new("test", export).unwrap();
    assert_eq!(collection.folders.len(), 1);
    let folder = collection.folders.into_iter().next().unwrap();
    assert_eq!(folder.questions.len(), 4);
}

#[test]
fn flatten_seeds_from_last_top_folder() {
    let export = Export {
        folders: Some(vec![folder(Some("first"), vec![], vec![]), folder(Some("last"), vec![], vec![])]),
    };
    let flat = export.flatten_folders().unwrap();
    assert_eq!(titles(&flat), vec!["last".to_string()]);
}

#[test]
fn flatten_is_breadth_first_and_detaches_children() {
    let tree = folder(
        Some("r"),
        vec![],
        vec![
            folder(Some("a"), vec![], vec![folder(Some("a1"), vec![], vec![]), folder(Some("a2"), vec![], vec![])]),
            folder(Some("b"), vec![], vec![folder(Some("b1"), vec![], vec![])]),
        ],
    );
    let export = Export { folders: Some(vec![tree]) };
    let flat = export.flatten_folders().unwrap();
    assert_eq!(titles(&flat), vec!["r", "a", "b", "a1", "a2", "b1"]);
    assert!(flat.iter().all(|f| f.folders.folder.is_none()));
}

#[test]
fn flatten_errors() {
    assert!(matches!(
        Export { folders: None }.flatten_folders(),
        Err(UnipolError::FlattenError(UnipolFolderError::NoTopFolders))
    ));
    assert!(matches!(
        Export { folders: Some(vec![]) }.flatten_folders(),
        Err(UnipolError::FlattenError(UnipolFolderError::NoFirstTopFolder))
    ));
    assert!(matches!(
        Collection::new("x", Export { folders: None }),
        Err(UnipolError::FlattenError(UnipolFolderError::NoTopFolders))
    ));
}

#[test]
fn valid_and_detailed_modes_agree() {
    let f = folder(Some("f"), get_qs(), vec![]);
    assert_eq!(get_valid_questions_from_folder(&f).len(), 2);
    let all = get_all_questions_from_folder(&f);
    assert_eq!(all.len(), 5);
    assert!(all[0].is_ok() && all[1].is_err() && all[2].is_ok() && all[3].is_err() && all[4].is_err());

    let export = Export { folders: Some(vec![folder(Some("f"), get_qs(), vec![])]) };
    let (collection, errors) = Collection::new_with_error_details("c", export).unwrap();
    assert_eq!(collection.name, "c");
    assert_eq!(collection.folders[0].questions.len(), 2);
    assert_eq!(errors.len(), 1);
    assert_eq!(errors[0].len(), 3);
    assert!(matches!(&errors[0][0], QuestionError::UnknownQuestionType(e) if e.raw_type == "Foo"));
    assert!(matches!(errors[0][1], QuestionError::AnswerError(AnswerError::NoCorrectAnswer)));
    assert!(matches!(
        errors[0][2],
        QuestionError::AnswerError(AnswerError::NoPredefinedAnswer(PredefinedAnswerError::NotFound))
    ));
}

fn get_qs() -> Vec<unipol::Question> {
    vec![
        exact(&["one"]),
        question("Foo", vec![]),
        question(TABLE, with_cells(vec![cell(1, 3, 5, "")])),
        exact(&[]),
        question(GROUP, with_cells(vec![cell(1, 1, 1, "zzz")])),
    ]
}

#[test]
fn exact_text_answers() {
    let w = AnswerWrapper::try_from(&exact(&["alpha", "beta"])).unwrap();
    assert_eq!(w.single_answer.as_deref(), Some("alpha"));
    assert_eq!(w.text_answers, vec!["alpha".to_string(), "beta".to_string()]);
    assert!(w.answers.is_empty());
    let q = Question::try_from(&exact(&["alpha"])).unwrap();
    assert_eq!(q.question_type, QuestionType::ExactText);
    assert_eq!(q.text, "question");
    assert_eq!(q.possible_answers, vec!["label a", "label b", "label c"]);
    assert!(q.possible_options.is_empty());
}

#[test]
fn non_text_answers_carry_no_text() {
    let w = AnswerWrapper::try_from(&question(SINGLE, with_cells(vec![cell(1, 2, 3, "")]))).unwrap();
    assert!(w.single_answer.is_none());
    assert!(w.text_answers.is_empty());
    assert_eq!(w.answers, vec![Answer { answer_index: 1, option_index: 2 }]);
}

#[test]
fn table_answer_is_swapped() {
    let q = Question::try_from(&question(TABLE, with_cells(vec![cell(1, 3, 5, "")]))).unwrap();
    assert_eq!(q.answer.answers, vec![Answer { answer_index: 4, option_index: 2 }]);
    assert_eq!(q.possible_options, vec!["label x1", "label x2"]);
}

#[test]
fn group_answer_is_looked_up_by_id() {
    let q = Question::try_from(&question(GROUP, with_cells(vec![cell(1, 7, 2, "b")]))).unwrap();
    assert_eq!(q.answer.answers, vec![Answer { answer_index: 1, option_index: 1 }]);
    assert_eq!(q.possible_options, vec!["label y1", "label y2", "label y3"]);
}

#[test]
fn group_errors() {
    let mut q = question(GROUP, with_cells(vec![cell(1, 1, 1, "a")]));
    q.predefined_answers = no_values();
    assert!(matches!(
        AnswerWrapper::try_from(&q),
        Err(AnswerError::NoPredefinedAnswer(PredefinedAnswerError::NoValue))
    ));
    let q = question(GROUP, with_cells(vec![cell(1, 1, 1, "missing")]));
    assert!(matches!(
        AnswerWrapper::try_from(&q),
        Err(AnswerError::NoPredefinedAnswer(PredefinedAnswerError::NotFound))
    ));
}

#[test]
fn partial_points_filter() {
    let cells = vec![cell(0, 1, 1, ""), cell(2, 2, 2, ""), cell(0, 3, 3, "")];
    let mut q = question(MULTIPLE, with_cells(cells));
    let all = AnswerWrapper::try_from(&q).unwrap();
    assert_eq!(all.answers.len(), 3);
    q.is_using_partial_points = true;
    let kept = AnswerWrapper::try_from(&q).unwrap();
    assert_eq!(kept.answers, vec![Answer { answer_index: 1, option_index: 1 }]);
}

#[test]
fn unknown_type_tag() {
    match QuestionType::try_from("Foo") {
        Err(e) => {
            assert_eq!(e.raw_type, "Foo");
            assert_eq!(e.message(), "Invalid question type: Foo");
        }
        Ok(_) => panic!("an unknown tag was accepted"),
    }
    assert!(matches!(
        Question::try_from(&question("Foo", vec![])),
        Err(QuestionError::UnknownQuestionType(e)) if e.raw_type == "Foo"
    ));
    assert!(matches!(
        AnswerWrapper::try_from(&question("Foo", vec![])),
        Err(AnswerError::UnknownQuestionType(e)) if e.raw_type == "Foo"
    ));
    assert_eq!(QuestionType::try_from(GROUP).unwrap(), QuestionType::Group);
}

#[test]
fn missing_answer_data() {
    assert!(matches!(AnswerWrapper::try_from(&exact(&[])), Err(AnswerError::NoCorrectAnswer)));
    assert!(matches!(
        AnswerWrapper::try_from(&question(TABLE, vec![])),
        Err(AnswerError::NoComplexAnswer(ComplexAnswerError::NoGroup))
    ));
    let no_cells = vec![CorrectQuestionAnswer { text_answer: String::new(), correct_question_complex_answer: None }];
    assert!(matches!(
        AnswerWrapper::try_from(&question(TABLE, no_cells)),
        Err(AnswerError::NoComplexAnswer(ComplexAnswerError::NoAnswers))
    ));
    assert!(matches!(
        AnswerWrapper::try_from(&question(SINGLE, with_cells(vec![cell(1, 0, 1, "")]))),
        Err(AnswerError::ZeroDimension)
    ));
}

#[test]
fn unnamed_folder() {
    let export = Export { folders: Some(vec![folder(None, vec![], vec![])]) };
    let collection = Collection::new("c", export).unwrap();
    assert_eq!(collection.folders[0].name, "Unnamed");
    let empty = Folder { title: Some("t".to_string()), questions: None, folders: FolderWrapper { folder: None } };
    assert!(get_all_questions_from_folder(&empty).is_empty());
}

#[test]
fn utf16_decoding() {
    assert_eq!(convert_to_utf8(&[0x68, 0x00, 0x69, 0x00]).unwrap(), "hi");
    assert_eq!(convert_to_utf8(&[]).unwrap(), "");
    assert_eq!(convert_to_utf8(&[0x68, 0x00, 0x69]), Err(EncodingError::InvalidUtf16));
    assert_eq!(convert_to_utf8(&[0x00, 0xdc]), Err(EncodingError::InvalidUtf16));
    assert_eq!(convert_to_utf8(&[0x3d, 0xd8, 0x00, 0xde]).unwrap(), "\u{1F600}");
    assert_eq!(convert_to_utf8(&[0x3d, 0xd8]), Err(EncodingError::InvalidUtf16));
    assert_eq!(convert_to_utf8(&[0x3d, 0xd8, 0x41, 0x00]), Err(EncodingError::InvalidUtf16));
}

#[test]
fn cloned_export_flattens_alike() {
    let tree = folder(Some("r"), vec![], vec![folder(Some("a"), vec![exact(&["x"])], vec![])]);
    let export = Export { folders: Some(vec![tree]) };
    let copy = export.clone();
    let flat = export.flatten_folders().unwrap();
    let flat_copy = copy.flatten_folders().unwrap();
    assert_eq!(titles(&flat), titles(&flat_copy));
    assert_eq!(titles(&flat_copy), vec!["r", "a"]);
    assert_eq!(get_valid_questions_from_folder(&flat_copy[1]).len(), 1);
}
