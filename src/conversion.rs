//! Assembly of a whole export into a collection.
use vstd::prelude::*;
use crate::convert::{
    convert_folder_questions, folder_questions, question_failures, question_matches,
    valid_questions,
};
use crate::error::{QuestionError, UnipolError};
use crate::model::{folder_name, Collection, Folder};
use crate::unipol::{self, flattened, Export};

verus! {

/// `f` is the converted form of `raw`: its name, and the questions of `raw`
/// that convert, in order.
pub open spec fn folder_matches(raw: unipol::Folder, f: Folder) -> bool {
    let valid = valid_questions(folder_questions(raw));
    &&& f.name@ == folder_name(raw.title)
    &&& f.questions@.len() == valid.len()
    &&& forall|k: int| 0 <= k < valid.len() ==> question_matches(#[trigger] valid[k], f.questions@[k])
}

fn folder_of(raw: &unipol::Folder) -> (r: (Folder, Vec<QuestionError>))
    ensures
        folder_matches(*raw, r.0),
        r.1@ == question_failures(folder_questions(*raw)),
{
    let (questions, failures) = convert_folder_questions(raw);
    let name = match &raw.title {
        Some(t) => Some(t),
        None => None,
    };
    (Folder::new(name, questions), failures)
}

impl Collection {
    /// Flattens the export and converts every folder, leaving out the
    /// questions that fail to convert.
    pub fn new(name: &str, export: Export) -> (r: Result<Collection, UnipolError>)
        ensures
            match r {
                Ok(c) => match flattened(export) {
                    Ok(raws) => {
                        &&& c.name@ == name@
                        &&& c.folders@.len() == raws.len()
                        &&& forall|i: int|
                            0 <= i < raws.len() ==> folder_matches(#[trigger] raws[i], c.folders@[i])
                    },
                    Err(_) => false,
                },
                Err(e) => flattened(export) == Err::<Seq<unipol::Folder>, UnipolError>(e),
            },
    {
        let (collection, _) = Collection::new_with_error_details(name, export)?;
        Ok(collection)
    }

    /// Flattens the export and converts every folder; beside the collection,
    /// the errors of the questions that failed, one list per folder.
    pub fn new_with_error_details(name: &str, export: Export) -> (r: Result<
        (Collection, Vec<Vec<QuestionError>>),
        UnipolError,
    >)
        ensures
            match r {
                Ok((c, errors)) => match flattened(export) {
                    Ok(raws) => {
                        &&& c.name@ == name@
                        &&& c.folders@.len() == raws.len()
                        &&& errors@.len() == raws.len()
                        &&& forall|i: int|
                            0 <= i < raws.len() ==> folder_matches(#[trigger] raws[i], c.folders@[i])
                        &&& forall|i: int|
                            0 <= i < raws.len() ==> (#[trigger] errors@[i])@ == question_failures(
                                folder_questions(raws[i]),
                            )
                    },
                    Err(_) => false,
                },
                Err(e) => flattened(export) == Err::<Seq<unipol::Folder>, UnipolError>(e),
            },
    {
        let raws = export.flatten_folders()?;
        let mut folders: Vec<Folder> = Vec::new();
        let mut errors: Vec<Vec<QuestionError>> = Vec::new();
        let mut i: usize = 0;
        while i < raws.len()
            invariant
                i <= raws@.len(),
                folders@.len() == i,
                errors@.len() == i,
                forall|j: int| 0 <= j < i ==> folder_matches(#[trigger] raws@[j], folders@[j]),
                forall|j: int|
                    0 <= j < i ==> (#[trigger] errors@[j])@ == question_failures(
                        folder_questions(raws@[j]),
                    ),
            decreases raws@.len() - i,
        {
            let (folder, failures) = folder_of(&raws[i]);
            folders.push(folder);
            errors.push(failures);
            i = i + 1;
        }
        Ok((Collection { name: name.to_owned(), folders }, errors))
    }
}

} // verus!
