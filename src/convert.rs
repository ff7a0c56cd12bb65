//! Mapping of raw questions onto the uniform question model.
use vstd::prelude::*;
use crate::error::{
    AnswerError, ComplexAnswerError, PredefinedAnswerError, QuestionError, QuestionTypeError,
};
use crate::model::{Answer, AnswerWrapper, Question, QuestionType};
use crate::unipol;

verus! {

/// The question type that a raw tag names, if any.
pub open spec fn question_type_of(tag: Seq<char>) -> Option<QuestionType> {
    if tag == "Egysoros_szoveg"@ {
        Some(QuestionType::ExactText)
    } else if tag == "Lista_egy_valaszthato_ertekkel_"@ {
        Some(QuestionType::SingleAnswer)
    } else if tag == "Lista_tobb_valaszthato_ertekkel_"@ {
        Some(QuestionType::MultipleAnswers)
    } else if tag == "Tablazat_soronkent_egy_lehetseges_valasszal"@ {
        Some(QuestionType::Table)
    } else if tag == "Csoportokba_rendezes"@ {
        Some(QuestionType::Group)
    } else {
        None
    }
}

/// Display texts of a value list, in order.
pub open spec fn value_texts(values: Seq<unipol::Value>) -> Seq<String> {
    values.map_values(|v: unipol::Value| v.resource_text.resource.text)
}

/// Display texts of a dimension's value set; empty without one.
pub open spec fn dimension_texts(d: unipol::Dimension) -> Seq<String> {
    match d.value_set {
        Some(vs) => value_texts(vs.values.value@),
        None => Seq::empty(),
    }
}

/// Option labels of a question: the X dimension for tables, the Y dimension
/// for groups, none otherwise.
pub open spec fn option_texts(q: unipol::Question, t: QuestionType) -> Seq<String> {
    match t {
        QuestionType::Table => dimension_texts(q.dimension_x),
        QuestionType::Group => dimension_texts(q.dimension_y),
        _ => Seq::empty(),
    }
}

/// Literal texts of all correct answers, in order.
pub open spec fn correct_texts(q: unipol::Question) -> Seq<String> {
    q.correct_question_answer@.map_values(|c: unipol::CorrectQuestionAnswer| c.text_answer)
}

/// The answer cells that count: with partial points only those worth points.
pub open spec fn kept_cells(
    cells: Seq<unipol::CorrectQuestionComplexAnswer>,
    partial: bool,
) -> Seq<unipol::CorrectQuestionComplexAnswer>
    decreases cells.len(),
{
    if cells.len() == 0 {
        Seq::empty()
    } else if !partial || cells[0].point_value > 0 {
        seq![cells[0]] + kept_cells(cells.drop_first(), partial)
    } else {
        kept_cells(cells.drop_first(), partial)
    }
}

/// Position of the first value whose id is `id`.
pub open spec fn id_position(values: Seq<unipol::Value>, id: Seq<char>) -> Option<int>
    decreases values.len(),
{
    if values.len() == 0 {
        None
    } else if values[0].id@ == id {
        Some(0)
    } else {
        match id_position(values.drop_first(), id) {
            Some(i) => Some(i + 1),
            None => None,
        }
    }
}

/// The answer that one cell stands for under the given question type.
pub open spec fn cell_answer(
    t: QuestionType,
    predefined: Option<unipol::ValueSet>,
    c: unipol::CorrectQuestionComplexAnswer,
) -> Result<Answer, AnswerError> {
    match t {
        QuestionType::Table => if c.dimension_1 == 0 || c.dimension_2 == 0 {
            Err(AnswerError::ZeroDimension)
        } else {
            Ok(
                Answer {
                    answer_index: (c.dimension_2 - 1) as usize,
                    option_index: (c.dimension_1 - 1) as usize,
                },
            )
        },
        QuestionType::Group => match predefined {
            None => Err(AnswerError::NoPredefinedAnswer(PredefinedAnswerError::NoValue)),
            Some(vs) => match id_position(vs.values.value@, c.answer_id@) {
                None => Err(AnswerError::NoPredefinedAnswer(PredefinedAnswerError::NotFound)),
                Some(i) => if c.dimension_2 == 0 {
                    Err(AnswerError::ZeroDimension)
                } else {
                    Ok(Answer { answer_index: i as usize, option_index: (c.dimension_2 - 1) as usize })
                },
            },
        },
        _ => if c.dimension_1 == 0 || c.dimension_2 == 0 {
            Err(AnswerError::ZeroDimension)
        } else {
            Ok(
                Answer {
                    answer_index: (c.dimension_1 - 1) as usize,
                    option_index: (c.dimension_2 - 1) as usize,
                },
            )
        },
    }
}

/// The answers of the cells that count (all of them, or with `partial` only
/// those worth points), or the error of the first of them that fails.
pub open spec fn cell_answers(
    t: QuestionType,
    predefined: Option<unipol::ValueSet>,
    cells: Seq<unipol::CorrectQuestionComplexAnswer>,
    partial: bool,
) -> Result<Seq<Answer>, AnswerError>
    decreases cells.len(),
{
    if cells.len() == 0 {
        Ok(Seq::empty())
    } else if partial && cells[0].point_value == 0 {
        cell_answers(t, predefined, cells.drop_first(), partial)
    } else {
        match cell_answer(t, predefined, cells[0]) {
            Err(e) => Err(e),
            Ok(x) => match cell_answers(t, predefined, cells.drop_first(), partial) {
                Err(e) => Err(e),
                Ok(a) => Ok(seq![x] + a),
            },
        }
    }
}

/// The index answers of a question of a type other than free text.
pub open spec fn answer_list(q: unipol::Question, t: QuestionType) -> Result<
    Seq<Answer>,
    AnswerError,
> {
    if q.correct_question_answer@.len() == 0 {
        Err(AnswerError::NoComplexAnswer(ComplexAnswerError::NoGroup))
    } else {
        match q.correct_question_answer@[0].correct_question_complex_answer {
            None => Err(AnswerError::NoComplexAnswer(ComplexAnswerError::NoAnswers)),
            Some(cells) => cell_answers(
                t,
                q.predefined_answers.value_set,
                cells@,
                q.is_using_partial_points,
            ),
        }
    }
}

/// The error that converting a question's answers ends in, if any.
pub open spec fn answer_error(q: unipol::Question) -> Option<AnswerError> {
    match question_type_of(q.type_tag@) {
        None => Some(AnswerError::UnknownQuestionType(QuestionTypeError { raw_type: q.type_tag })),
        Some(QuestionType::ExactText) => if q.correct_question_answer@.len() == 0 {
            Some(AnswerError::NoCorrectAnswer)
        } else {
            None
        },
        Some(t) => match answer_list(q, t) {
            Err(e) => Some(e),
            Ok(_) => None,
        },
    }
}

/// `w` holds the converted answers of `q`.
pub open spec fn wrapper_matches(q: unipol::Question, w: AnswerWrapper) -> bool {
    match question_type_of(q.type_tag@) {
        None => false,
        Some(QuestionType::ExactText) => {
            &&& q.correct_question_answer@.len() > 0
            &&& w.single_answer == Some(q.correct_question_answer@[0].text_answer)
            &&& w.text_answers@ == correct_texts(q)
            &&& w.answers@.len() == 0
        },
        Some(t) => {
            &&& w.single_answer is None
            &&& w.text_answers@.len() == 0
            &&& answer_list(q, t) == Ok::<Seq<Answer>, AnswerError>(w.answers@)
        },
    }
}

/// The error that converting a question ends in, if any.
pub open spec fn question_error(q: unipol::Question) -> Option<QuestionError> {
    match question_type_of(q.type_tag@) {
        None => Some(
            QuestionError::UnknownQuestionType(QuestionTypeError { raw_type: q.type_tag }),
        ),
        Some(_) => match answer_error(q) {
            Some(e) => Some(QuestionError::AnswerError(e)),
            None => None,
        },
    }
}

/// `out` is the converted form of `q`.
pub open spec fn question_matches(q: unipol::Question, out: Question) -> bool {
    &&& question_type_of(q.type_tag@) == Some(out.question_type)
    &&& out.text == q.title.resource.text
    &&& out.possible_answers@ == dimension_texts(q.predefined_answers)
    &&& out.possible_options@ == option_texts(q, out.question_type)
    &&& wrapper_matches(q, out.answer)
}

/// `r` is the outcome of converting `q`.
pub open spec fn outcome_matches(q: unipol::Question, r: Result<Question, QuestionError>) -> bool {
    match r {
        Ok(out) => question_error(q) is None && question_matches(q, out),
        Err(e) => question_error(q) == Some(e),
    }
}

fn text_is(value: &str, lit: &str) -> (r: bool)
    ensures
        r == (value@ == lit@),
{
    value.to_owned() == lit.to_owned()
}

impl QuestionType {
    pub fn try_from(value: &str) -> (r: Result<QuestionType, QuestionTypeError>)
        ensures
            match r {
                Ok(t) => question_type_of(value@) == Some(t),
                Err(e) => question_type_of(value@) is None && e.raw_type@ == value@,
            },
    {
        if text_is(value, "Egysoros_szoveg") {
            Ok(QuestionType::ExactText)
        } else if text_is(value, "Lista_egy_valaszthato_ertekkel_") {
            Ok(QuestionType::SingleAnswer)
        } else if text_is(value, "Lista_tobb_valaszthato_ertekkel_") {
            Ok(QuestionType::MultipleAnswers)
        } else if text_is(value, "Tablazat_soronkent_egy_lehetseges_valasszal") {
            Ok(QuestionType::Table)
        } else if text_is(value, "Csoportokba_rendezes") {
            Ok(QuestionType::Group)
        } else {
            Err(QuestionTypeError { raw_type: value.to_owned() })
        }
    }
}

/// The raw questions of a folder; none where the folder lists none.
pub open spec fn folder_questions(f: unipol::Folder) -> Seq<unipol::Question> {
    match f.questions {
        Some(w) => match w.question {
            Some(v) => v@,
            None => Seq::empty(),
        },
        None => Seq::empty(),
    }
}

/// The questions of `qs` that convert without error, in order.
pub open spec fn valid_questions(qs: Seq<unipol::Question>) -> Seq<unipol::Question>
    decreases qs.len(),
{
    if qs.len() == 0 {
        Seq::empty()
    } else if question_error(qs.last()) is None {
        valid_questions(qs.drop_last()).push(qs.last())
    } else {
        valid_questions(qs.drop_last())
    }
}

/// The errors of the questions of `qs` that fail to convert, in order.
pub open spec fn question_failures(qs: Seq<unipol::Question>) -> Seq<QuestionError>
    decreases qs.len(),
{
    if qs.len() == 0 {
        Seq::empty()
    } else {
        match question_error(qs.last()) {
            Some(e) => question_failures(qs.drop_last()).push(e),
            None => question_failures(qs.drop_last()),
        }
    }
}

/// Each question ends up either among the converted ones or among the
/// failures, exactly once: their counts add up to the number of questions.
pub proof fn lemma_partition_counts(qs: Seq<unipol::Question>)
    ensures
        valid_questions(qs).len() + question_failures(qs).len() == qs.len(),
    decreases qs.len(),
{
    if qs.len() > 0 {
        lemma_partition_counts(qs.drop_last());
    }
}

/// Free-text questions carry literal answers only, one for each correct
/// answer; questions of every other type carry index answers only.
pub proof fn lemma_answer_shape(q: unipol::Question, w: AnswerWrapper)
    requires
        wrapper_matches(q, w),
    ensures
        question_type_of(q.type_tag@) == Some(QuestionType::ExactText) ==> {
            &&& w.answers@.len() == 0
            &&& w.text_answers@.len() == q.correct_question_answer@.len()
        },
        question_type_of(q.type_tag@) != Some(QuestionType::ExactText) ==> {
            &&& w.text_answers@.len() == 0
            &&& w.single_answer is None
        },
{
}

/// With partial points, the cells worth no points are left out and the rest
/// are mapped as if there were no partial points; without them, every cell
/// is mapped.
pub proof fn lemma_partial_points_filter(
    t: QuestionType,
    predefined: Option<unipol::ValueSet>,
    cells: Seq<unipol::CorrectQuestionComplexAnswer>,
    partial: bool,
)
    ensures
        cell_answers(t, predefined, cells, partial) == cell_answers(
            t,
            predefined,
            kept_cells(cells, partial),
            false,
        ),
        !partial ==> kept_cells(cells, partial) == cells,
        partial ==> forall|i: int|
            0 <= i < kept_cells(cells, partial).len() ==> (#[trigger] kept_cells(
                cells,
                partial,
            )[i]).point_value > 0,
    decreases cells.len(),
{
    if cells.len() > 0 {
        lemma_partial_points_filter(t, predefined, cells.drop_first(), partial);
        let rest = kept_cells(cells.drop_first(), partial);
        if !partial || cells[0].point_value > 0 {
            let k = seq![cells[0]] + rest;
            assert(k.drop_first() =~= rest);
            assert(k[0] == cells[0]);
            if !partial {
                assert(k =~= cells);
            }
            if partial {
                assert forall|i: int| 0 <= i < k.len() implies (#[trigger] k[i]).point_value > 0 by {
                    if i > 0 {
                        assert(k[i] == rest[i - 1]);
                    }
                }
            }
        }
    } else {
        assert(kept_cells(cells, partial) =~= cells);
    }
}

/// A tag outside the known set is reported as such, carrying the tag; it is
/// never read as some question type.
pub proof fn lemma_unknown_tag(q: unipol::Question)
    requires
        question_type_of(q.type_tag@) is None,
    ensures
        question_error(q) == Some(
            QuestionError::UnknownQuestionType(QuestionTypeError { raw_type: q.type_tag }),
        ),
        forall|r: Result<Question, QuestionError>| #[trigger] outcome_matches(q, r) ==> r is Err,
{
}

/// The converted questions among a list of outcomes, in order.
pub open spec fn successes(rs: Seq<Result<Question, QuestionError>>) -> Seq<Question>
    decreases rs.len(),
{
    if rs.len() == 0 {
        Seq::empty()
    } else {
        match rs.last() {
            Ok(q) => successes(rs.drop_last()).push(q),
            Err(_) => successes(rs.drop_last()),
        }
    }
}

/// The errors among a list of outcomes, in order.
pub open spec fn failures(rs: Seq<Result<Question, QuestionError>>) -> Seq<QuestionError>
    decreases rs.len(),
{
    if rs.len() == 0 {
        Seq::empty()
    } else {
        match rs.last() {
            Ok(_) => failures(rs.drop_last()),
            Err(e) => failures(rs.drop_last()).push(e),
        }
    }
}

/// Splitting the outcomes of converting each question of `qs` gives, in
/// source order, the converted questions of the valid-only mode and the
/// errors of the detailed mode; together they account for every question
/// exactly once.
pub proof fn lemma_outcomes_partition(
    qs: Seq<unipol::Question>,
    rs: Seq<Result<Question, QuestionError>>,
)
    requires
        rs.len() == qs.len(),
        forall|i: int| 0 <= i < qs.len() ==> outcome_matches(#[trigger] qs[i], rs[i]),
    ensures
        successes(rs).len() == valid_questions(qs).len(),
        forall|k: int|
            0 <= k < successes(rs).len() ==> question_matches(
                #[trigger] valid_questions(qs)[k],
                successes(rs)[k],
            ),
        failures(rs) == question_failures(qs),
        successes(rs).len() + failures(rs).len() == qs.len(),
    decreases qs.len(),
{
    lemma_partition_counts(qs);
    if qs.len() > 0 {
        let qp = qs.drop_last();
        let rp = rs.drop_last();
        assert forall|i: int| 0 <= i < qp.len() implies outcome_matches(#[trigger] qp[i], rp[i]) by {
            assert(qp[i] == qs[i] && rp[i] == rs[i]);
            assert(outcome_matches(qs[i], rs[i]));
        }
        lemma_outcomes_partition(qp, rp);
        assert(outcome_matches(qs[qs.len() - 1], rs[rs.len() - 1]));
        match rs.last() {
            Ok(q) => {
                assert forall|k: int|
                    0 <= k < successes(rs).len() implies question_matches(
                    #[trigger] valid_questions(qs)[k],
                    successes(rs)[k],
                ) by {
                    if k < successes(rp).len() {
                        assert(valid_questions(qs)[k] == valid_questions(qp)[k]);
                        assert(successes(rs)[k] == successes(rp)[k]);
                    }
                }
            },
            Err(e) => {},
        }
    }
}

fn position_of_id(values: &Vec<unipol::Value>, id: &String) -> (r: Option<usize>)
    ensures
        match r {
            Some(i) => id_position(values@, id@) == Some(i as int),
            None => id_position(values@, id@) is None,
        },
{
    let n = values.len();
    let mut i: usize = 0;
    assert(values@.subrange(0, n as int) =~= values@);
    assert(id_position(values@, id@) == match id_position(values@.subrange(0, n as int), id@) {
        Some(j) => Some(j + 0),
        None => None::<int>,
    });
    while i < n
        invariant
            n == values@.len(),
            i <= n,
            id_position(values@, id@) == match id_position(values@.subrange(i as int, n as int), id@) {
                Some(j) => Some(j + i),
                None => None::<int>,
            },
        decreases n - i,
    {
        let ghost rest = values@.subrange(i as int, n as int);
        assert(rest.drop_first() =~= values@.subrange(i + 1, n as int));
        if values[i].id == *id {
            return Some(i);
        }
        i = i + 1;
    }
    assert(values@.subrange(i as int, n as int).len() == 0);
    None
}

fn answer_of_cell(
    t: QuestionType,
    predefined: &Option<unipol::ValueSet>,
    c: &unipol::CorrectQuestionComplexAnswer,
) -> (r: Result<Answer, AnswerError>)
    ensures
        r == cell_answer(t, *predefined, *c),
{
    match t {
        QuestionType::Table => {
            if c.dimension_1 == 0 || c.dimension_2 == 0 {
                return Err(AnswerError::ZeroDimension);
            }
            Ok(
                Answer {
                    answer_index: (c.dimension_2 - 1) as usize,
                    option_index: (c.dimension_1 - 1) as usize,
                },
            )
        },
        QuestionType::Group => {
            let vs = match predefined {
                Some(vs) => vs,
                None => return Err(AnswerError::NoPredefinedAnswer(PredefinedAnswerError::NoValue)),
            };
            let index = match position_of_id(&vs.values.value, &c.answer_id) {
                Some(i) => i,
                None => return Err(AnswerError::NoPredefinedAnswer(PredefinedAnswerError::NotFound)),
            };
            if c.dimension_2 == 0 {
                return Err(AnswerError::ZeroDimension);
            }
            Ok(Answer { answer_index: index, option_index: (c.dimension_2 - 1) as usize })
        },
        _ => {
            if c.dimension_1 == 0 || c.dimension_2 == 0 {
                return Err(AnswerError::ZeroDimension);
            }
            Ok(
                Answer {
                    answer_index: (c.dimension_1 - 1) as usize,
                    option_index: (c.dimension_2 - 1) as usize,
                },
            )
        },
    }
}

fn answers_of_cells(
    t: QuestionType,
    predefined: &Option<unipol::ValueSet>,
    cells: &Vec<unipol::CorrectQuestionComplexAnswer>,
    partial: bool,
) -> (r: Result<Vec<Answer>, AnswerError>)
    ensures
        match r {
            Ok(a) => cell_answers(t, *predefined, cells@, partial) == Ok::<Seq<Answer>, AnswerError>(a@),
            Err(e) => cell_answers(t, *predefined, cells@, partial) == Err::<Seq<Answer>, AnswerError>(e),
        },
{
    let n = cells.len();
    let mut acc: Vec<Answer> = Vec::new();
    let mut i: usize = 0;
    assert(cells@.subrange(0, n as int) =~= cells@);
    while i < n
        invariant
            n == cells@.len(),
            i <= n,
            cell_answers(t, *predefined, cells@, partial) == match cell_answers(t, *predefined, cells@.subrange(i as int, n as int), partial) {
                Err(e) => Err(e),
                Ok(a) => Ok::<Seq<Answer>, AnswerError>(acc@ + a),
            },
        decreases n - i,
    {
        let ghost rest = cells@.subrange(i as int, n as int);
        let ghost next = cells@.subrange(i + 1, n as int);
        let ghost acc0 = acc@;
        assert(rest.drop_first() =~= next);
        let c = &cells[i];
        if !partial || c.point_value > 0 {
            match answer_of_cell(t, predefined, c) {
                Err(e) => return Err(e),
                Ok(x) => {
                    acc.push(x);
                    proof {
                        match cell_answers(t, *predefined, next, partial) {
                            Ok(a) => {
                                assert(acc0 + (seq![x] + a) =~= acc@ + a);
                            },
                            Err(_) => {},
                        }
                    }
                },
            }
        }
        i = i + 1;
    }
    assert(acc@ + Seq::<Answer>::empty() =~= acc@);
    Ok(acc)
}

fn texts_of_dimension(d: &unipol::Dimension) -> (r: Vec<String>)
    ensures
        r@ == dimension_texts(*d),
{
    let mut texts: Vec<String> = Vec::new();
    match &d.value_set {
        None => texts,
        Some(vs) => {
            let values = &vs.values.value;
            let mut i: usize = 0;
            while i < values.len()
                invariant
                    i <= values@.len(),
                    texts@ == value_texts(values@).subrange(0, i as int),
                decreases values@.len() - i,
            {
                texts.push(values[i].resource_text.resource.text.clone());
                assert(texts@ =~= value_texts(values@).subrange(0, i + 1));
                i = i + 1;
            }
            assert(texts@ =~= value_texts(values@));
            texts
        },
    }
}

impl AnswerWrapper {
    pub fn try_from(value: &unipol::Question) -> (r: Result<AnswerWrapper, AnswerError>)
        ensures
            match r {
                Ok(w) => answer_error(*value) is None && wrapper_matches(*value, w),
                Err(e) => answer_error(*value) == Some(e),
            },
    {
        let question_type = match QuestionType::try_from(value.type_tag.as_str()) {
            Ok(t) => t,
            Err(_) => {
                return Err(
                    AnswerError::UnknownQuestionType(
                        QuestionTypeError { raw_type: value.type_tag.clone() },
                    ),
                )
            },
        };
        let correct = &value.correct_question_answer;
        if question_type == QuestionType::ExactText {
            if correct.len() == 0 {
                return Err(AnswerError::NoCorrectAnswer);
            }
            let single_answer = Some(correct[0].text_answer.clone());
            let mut text_answers: Vec<String> = Vec::new();
            let mut i: usize = 0;
            while i < correct.len()
                invariant
                    i <= correct@.len(),
                    correct == value.correct_question_answer,
                    text_answers@ == correct_texts(*value).subrange(0, i as int),
                decreases correct@.len() - i,
            {
                text_answers.push(correct[i].text_answer.clone());
                assert(text_answers@ =~= correct_texts(*value).subrange(0, i + 1));
                i = i + 1;
            }
            assert(text_answers@ =~= correct_texts(*value));
            Ok(AnswerWrapper { single_answer, text_answers, answers: Vec::new() })
        } else {
            if correct.len() == 0 {
                return Err(AnswerError::NoComplexAnswer(ComplexAnswerError::NoGroup));
            }
            let cells = match &correct[0].correct_question_complex_answer {
                Some(cells) => cells,
                None => return Err(AnswerError::NoComplexAnswer(ComplexAnswerError::NoAnswers)),
            };
            let answers = answers_of_cells(
                question_type,
                &value.predefined_answers.value_set,
                cells,
                value.is_using_partial_points,
            )?;
            Ok(AnswerWrapper { single_answer: None, text_answers: Vec::new(), answers })
        }
    }
}

impl Question {
    pub fn try_from(value: &unipol::Question) -> (r: Result<Question, QuestionError>)
        ensures
            outcome_matches(*value, r),
    {
        let text = value.title.resource.text.clone();
        let question_type = match QuestionType::try_from(value.type_tag.as_str()) {
            Ok(t) => t,
            Err(_) => {
                return Err(
                    QuestionError::UnknownQuestionType(
                        QuestionTypeError { raw_type: value.type_tag.clone() },
                    ),
                )
            },
        };
        let answer = match AnswerWrapper::try_from(value) {
            Ok(a) => a,
            Err(e) => return Err(QuestionError::AnswerError(e)),
        };
        let possible_answers = texts_of_dimension(&value.predefined_answers);
        let possible_options = match question_type {
            QuestionType::Table => texts_of_dimension(&value.dimension_x),
            QuestionType::Group => texts_of_dimension(&value.dimension_y),
            _ => Vec::new(),
        };
        Ok(Question { text, question_type, possible_answers, possible_options, answer })
    }
}

/// Converts every question of a folder, keeping each failure in place.
pub fn get_all_questions_from_folder(folder: &unipol::Folder) -> (r: Vec<
    Result<Question, QuestionError>,
>)
    ensures
        r@.len() == folder_questions(*folder).len(),
        forall|i: int|
            0 <= i < r@.len() ==> outcome_matches(#[trigger] folder_questions(*folder)[i], r@[i]),
{
    let mut result: Vec<Result<Question, QuestionError>> = Vec::new();
    if let Some(wrapper) = &folder.questions {
        if let Some(questions) = &wrapper.question {
            let mut i: usize = 0;
            while i < questions.len()
                invariant
                    i <= questions@.len(),
                    questions@ == folder_questions(*folder),
                    result@.len() == i,
                    forall|j: int| 0 <= j < i ==> outcome_matches(#[trigger] questions@[j], result@[j]),
                decreases questions@.len() - i,
            {
                result.push(Question::try_from(&questions[i]));
                i = i + 1;
            }
        }
    }
    result
}

/// Converts the questions of a folder, leaving out those that fail.
pub fn get_valid_questions_from_folder(folder: &unipol::Folder) -> (r: Vec<Question>)
    ensures
        r@.len() == valid_questions(folder_questions(*folder)).len(),
        forall|k: int|
            0 <= k < r@.len() ==> question_matches(
                #[trigger] valid_questions(folder_questions(*folder))[k],
                r@[k],
            ),
{
    let (questions, _) = convert_folder_questions(folder);
    questions
}

/// Converts the questions of a folder into the converted ones and the
/// failures, each in order.
pub(crate) fn convert_folder_questions(folder: &unipol::Folder) -> (r: (Vec<Question>, Vec<QuestionError>))
    ensures
        r.0@.len() == valid_questions(folder_questions(*folder)).len(),
        forall|k: int|
            0 <= k < r.0@.len() ==> question_matches(
                #[trigger] valid_questions(folder_questions(*folder))[k],
                r.0@[k],
            ),
        r.1@ == question_failures(folder_questions(*folder)),
{
    let ghost qs = folder_questions(*folder);
    let mut valid: Vec<Question> = Vec::new();
    let mut failures: Vec<QuestionError> = Vec::new();
    if let Some(wrapper) = &folder.questions {
        if let Some(questions) = &wrapper.question {
            let mut i: usize = 0;
            while i < questions.len()
                invariant
                    i <= questions@.len(),
                    questions@ == qs,
                    valid@.len() == valid_questions(qs.subrange(0, i as int)).len(),
                    forall|k: int|
                        0 <= k < valid@.len() ==> question_matches(
                            #[trigger] valid_questions(qs.subrange(0, i as int))[k],
                            valid@[k],
                        ),
                    failures@ == question_failures(qs.subrange(0, i as int)),
                decreases questions@.len() - i,
            {
                let ghost prefix = qs.subrange(0, i + 1);
                assert(prefix.drop_last() =~= qs.subrange(0, i as int));
                match Question::try_from(&questions[i]) {
                    Ok(q) => valid.push(q),
                    Err(e) => failures.push(e),
                }
                i = i + 1;
            }
            assert(qs.subrange(0, i as int) =~= qs);
        }
    }
    (valid, failures)
}

} // verus!
