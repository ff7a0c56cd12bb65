//! The raw export as parsed from the legacy schema, and the flattening of its
//! folder tree.
use vstd::prelude::*;
use std::collections::VecDeque;
use crate::error::{UnipolError, UnipolFolderError};

verus! {

#[derive(Debug)]
pub struct Export {
    pub folders: Option<Vec<Folder>>,
}

#[derive(Debug)]
pub struct Folder {
    pub title: Option<String>,
    pub questions: Option<QuestionWrapper>,
    pub folders: FolderWrapper,
}

#[derive(Debug)]
pub struct FolderWrapper {
    pub folder: Option<Vec<Folder>>,
}

#[derive(Debug, Clone)]
pub struct QuestionWrapper {
    pub question: Option<Vec<Question>>,
}

#[derive(Debug, Clone)]
pub struct Question {
    pub title: ResourceWrapper,
    /// The raw type tag, one of the literal tags of the schema.
    pub type_tag: String,
    pub dimension_x: Dimension,
    pub dimension_y: Dimension,
    pub predefined_answers: Dimension,
    pub correct_question_answer: Vec<CorrectQuestionAnswer>,
    pub is_using_partial_points: bool,
}

#[derive(Debug, Clone)]
pub struct ResourceWrapper {
    pub resource: Resource,
}

#[derive(Debug, Clone)]
pub struct Resource {
    pub text: String,
}

#[derive(Debug, Clone)]
pub struct Dimension {
    pub value_set: Option<ValueSet>,
}

#[derive(Debug, Clone)]
pub struct ValueSet {
    pub values: ValueWrapper,
}

#[derive(Debug, Clone)]
pub struct ValueWrapper {
    pub value: Vec<Value>,
}

#[derive(Debug, Clone)]
pub struct Value {
    pub resource_text: ResourceWrapper,
    pub id: String,
}

#[derive(Debug, Clone)]
pub struct CorrectQuestionAnswer {
    pub text_answer: String,
    pub correct_question_complex_answer: Option<Vec<CorrectQuestionComplexAnswer>>,
}

#[derive(Debug, Clone)]
pub struct CorrectQuestionComplexAnswer {
    pub point_value: u32,
    pub dimension_1: u32,
    pub dimension_2: u32,
    pub text_answer: String,
    pub answer_id: String,
}

/// The direct child folders of a folder.
pub open spec fn subfolders(f: Folder) -> Seq<Folder> {
    match f.folders.folder {
        Some(v) => v@,
        None => Seq::empty(),
    }
}

/// A folder with its child folders taken away.
pub open spec fn detached(f: Folder) -> Folder {
    Folder { title: f.title, questions: f.questions, folders: FolderWrapper { folder: None } }
}

/// Number of folders in a tree.
pub open spec fn tree_size(f: Folder) -> nat
    decreases f,
    via lemma_tree_size_decreases
{
    match f.folders.folder {
        Some(v) => 1 + forest_size(v@),
        None => 1,
    }
}

#[via_fn]
proof fn lemma_tree_size_decreases(f: Folder) {
    broadcast use vstd::std_specs::vec::axiom_vec_decreases_to_view;

    if let Some(v) = f.folders.folder {
        assert(decreases_to!(f => f.folders));
        assert(decreases_to!(f.folders => f.folders.folder));
        assert(decreases_to!(v => v@));
    }
}

proof fn lemma_forest_size_front(s: Seq<Folder>)
    requires
        s.len() > 0,
    ensures
        forest_size(s) == 1 + forest_size(subfolders(s[0])) + forest_size(s.drop_first()),
{
    assert(tree_size(s[0]) == 1 + forest_size(subfolders(s[0]))) by {
        if s[0].folders.folder is None {
            assert(forest_size(subfolders(s[0])) == 0);
        }
    }
}

/// Number of folders in a sequence of trees.
pub open spec fn forest_size(s: Seq<Folder>) -> nat
    decreases s,
{
    if s.len() == 0 {
        0
    } else {
        tree_size(s[0]) + forest_size(s.drop_first())
    }
}

pub proof fn lemma_forest_size_append(a: Seq<Folder>, b: Seq<Folder>)
    ensures
        forest_size(a + b) == forest_size(a) + forest_size(b),
    decreases a.len(),
{
    if a.len() == 0 {
        assert(a + b =~= b);
    } else {
        assert((a + b).drop_first() =~= a.drop_first() + b);
        lemma_forest_size_append(a.drop_first(), b);
    }
}

#[via_fn]
proof fn lemma_breadth_first_decreases(queue: Seq<Folder>) {
    if queue.len() > 0 {
        lemma_forest_size_append(queue.drop_first(), subfolders(queue[0]));
        lemma_forest_size_front(queue);
    }
}

/// Breadth-first listing of the trees in `queue`, each folder detached from
/// its children: the first tree's root, then the remaining trees followed by
/// that root's children.
pub open spec fn breadth_first(queue: Seq<Folder>) -> Seq<Folder>
    decreases forest_size(queue),
    via lemma_breadth_first_decreases
{
    if queue.len() == 0 {
        Seq::empty()
    } else {
        seq![detached(queue[0])] + breadth_first(queue.drop_first() + subfolders(queue[0]))
    }
}

/// The flat folder sequence of an export: the breadth-first listing of the
/// tree rooted at the last top-level folder.
pub open spec fn flattened(e: Export) -> Result<Seq<Folder>, UnipolError> {
    match e.folders {
        None => Err(UnipolError::FlattenError(UnipolFolderError::NoTopFolders)),
        Some(v) => if v@.len() == 0 {
            Err(UnipolError::FlattenError(UnipolFolderError::NoFirstTopFolder))
        } else {
            Ok(breadth_first(seq![v@.last()]))
        },
    }
}

/// Flattening a forest whose top-level folders have no child folders yields
/// the last top-level folder alone: the other top-level folders are dropped.
pub proof fn lemma_flat_forest(e: Export)
    requires
        e.folders is Some,
        e.folders->0@.len() > 0,
        forall|i: int|
            0 <= i < e.folders->0@.len() ==> #[trigger] subfolders(e.folders->0@[i])
                == Seq::<Folder>::empty(),
    ensures
        flattened(e) == Ok::<Seq<Folder>, UnipolError>(seq![detached(e.folders->0@.last())]),
{
    let v = e.folders->0@;
    let root = v.last();
    assert(subfolders(v[v.len() - 1]) == Seq::<Folder>::empty());
    let q = seq![root];
    assert(q.drop_first() + subfolders(root) =~= Seq::<Folder>::empty());
    assert(breadth_first(Seq::<Folder>::empty()) == Seq::<Folder>::empty());
    assert(breadth_first(q) =~= seq![detached(root)]);
}

impl Export {
    pub fn flatten_folders(self) -> (r: Result<Vec<Folder>, UnipolError>)
        ensures
            match r {
                Ok(v) => flattened(self) == Ok::<Seq<Folder>, UnipolError>(v@),
                Err(e) => flattened(self) == Err::<Seq<Folder>, UnipolError>(e),
            },
    {
        let mut result: Vec<Folder> = Vec::new();
        let mut q: VecDeque<Folder> = VecDeque::new();
        let mut top_folders = match self.folders {
            None => return Err(UnipolError::FlattenError(UnipolFolderError::NoTopFolders)),
            Some(v) => v,
        };
        let ghost tops = top_folders@;
        assert(self.folders == Some(top_folders));
        let top_first_folder = match top_folders.pop() {
            Some(v) => v,
            None => return Err(UnipolError::FlattenError(UnipolFolderError::NoFirstTopFolder)),
        };
        q.push_back(top_first_folder);
        let ghost start = q@;
        assert(start =~= seq![tops.last()]);
        loop
            invariant
                result@ + breadth_first(q@) == breadth_first(start),
                flattened(self) == Ok::<Seq<Folder>, UnipolError>(breadth_first(start)),
            decreases forest_size(q@),
        {
            let ghost q0 = q@;
            let ghost res0 = result@;
            match q.pop_front() {
                None => {
                    assert(breadth_first(q0) == Seq::<Folder>::empty());
                    assert(result@ + breadth_first(q0) =~= result@);
                    return Ok(result);
                },
                Some(t) => {
                    assert(q@ =~= q0.drop_first());
                    proof {
                        lemma_forest_size_append(q@, subfolders(t));
                        lemma_forest_size_front(q0);
                    }
                    let (without_subfolders, sub_folders) = t.remove_subfolders();
                    result.push(without_subfolders);
                    if let Some(sub_folders) = sub_folders {
                        let mut children = sub_folders;
                        let mut ordered: VecDeque<Folder> = VecDeque::new();
                        assert(children@ + ordered@ =~= subfolders(t));
                        while children.len() > 0
                            invariant
                                children@ + ordered@ == subfolders(t),
                            decreases children@.len(),
                        {
                            let ghost ch0 = children@;
                            let ghost or0 = ordered@;
                            let c = children.pop().unwrap();
                            ordered.push_front(c);
                            assert(children@ + ordered@ =~= ch0 + or0);
                        }
                        assert(ordered@ =~= subfolders(t));
                        q.append(&mut ordered);
                    } else {
                        assert(q@ =~= q@ + subfolders(t));
                    }
                    assert(q@ =~= q0.drop_first() + subfolders(t));
                    assert(breadth_first(q0) == seq![detached(t)] + breadth_first(q@));
                    assert(result@ + breadth_first(q@) =~= res0 + breadth_first(q0));
                },
            }
        }
    }
}

fn clone_folders(folders: &Vec<Folder>) -> (r: Vec<Folder>)
    ensures
        r@.len() == folders@.len(),
{
    let mut copies: Vec<Folder> = Vec::new();
    let mut i: usize = 0;
    while i < folders.len()
        invariant
            i <= folders@.len(),
            copies@.len() == i,
        decreases folders@.len() - i,
    {
        copies.push(folders[i].clone());
        i = i + 1;
    }
    copies
}

impl Clone for Export {
    fn clone(&self) -> (r: Export) {
        let folders = match &self.folders {
            None => None,
            Some(v) => Some(clone_folders(v)),
        };
        Export { folders }
    }
}

impl Clone for FolderWrapper {
    fn clone(&self) -> (r: FolderWrapper) {
        let folder = match &self.folder {
            None => None,
            Some(v) => Some(clone_folders(v)),
        };
        FolderWrapper { folder }
    }
}

impl Clone for Folder {
    fn clone(&self) -> (r: Folder)
        decreases self,
    {
        let folder = match &self.folders.folder {
            None => None,
            Some(children) => {
                let mut copies: Vec<Folder> = Vec::new();
                let mut i: usize = 0;
                while i < children.len()
                    invariant
                        i <= children@.len(),
                        self.folders.folder == Some(*children),
                    decreases children@.len() - i,
                {
                    proof {
                        broadcast use vstd::std_specs::vec::axiom_vec_decreases_to_view;

                        assert(decreases_to!(self => self.folders));
                        assert(decreases_to!(self.folders => self.folders.folder));
                        assert(decreases_to!(self.folders.folder => self.folders.folder->0));
                        assert(decreases_to!(*children => children@));
                        assert(decreases_to!(*self => children@[i as int]));
                        assert(decreases_to!(children@ => children@[i as int]));
                    }
                    copies.push(children[i].clone());
                    i = i + 1;
                }
                Some(copies)
            },
        };
        Folder {
            title: self.title.clone(),
            questions: self.questions.clone(),
            folders: FolderWrapper { folder },
        }
    }
}

impl Folder {
    fn remove_subfolders(self) -> (r: (Folder, Option<Vec<Folder>>))
        ensures
            r.0 == detached(self),
            r.1 == self.folders.folder,
    {
        let mut this = self;
        let folders = this.folders.folder;
        this.folders.folder = None;
        (this, folders)
    }
}

} // verus!
