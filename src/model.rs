//! Filesystem steps, and the model of the directory that they change.
//!
//! The model maps the path of each file to its text. Directories are not
//! modelled: making one changes no file.

use vstd::prelude::*;

verus! {

/// One step on the filesystem, for the caller to perform in order.
#[derive(Debug, PartialEq, Eq)]
pub enum FsOp {
    /// Make the directory `path` and its missing parents.
    CreateDirAll { path: String },
    /// Write `content` to the file `path`, replacing what it held.
    Write { path: String, content: String },
    /// Copy the file `from` over the file `to`.
    Copy { from: String, to: String },
}

/// What an `FsOp` stands for.
pub enum FsStep {
    CreateDirAll(Seq<char>),
    Write(Seq<char>, Seq<char>),
    Copy(Seq<char>, Seq<char>),
}

impl View for FsOp {
    type V = FsStep;

    open spec fn view(&self) -> FsStep {
        match self {
            FsOp::CreateDirAll { path } => FsStep::CreateDirAll(path@),
            FsOp::Write { path, content } => FsStep::Write(path@, content@),
            FsOp::Copy { from, to } => FsStep::Copy(from@, to@),
        }
    }
}

/// The files of a directory tree: path to text.
pub type Files = Map<Seq<char>, Seq<char>>;

/// The files after `step`. Copying a missing file fails, and changes nothing.
pub open spec fn apply(fs: Files, step: FsStep) -> Files {
    match step {
        FsStep::CreateDirAll(_) => fs,
        FsStep::Write(p, c) => fs.insert(p, c),
        FsStep::Copy(from, to) => if fs.contains_key(from) {
            fs.insert(to, fs[from])
        } else {
            fs
        },
    }
}

/// The files after `steps`, performed in order.
pub open spec fn run(fs: Files, steps: Seq<FsStep>) -> Files
    decreases steps.len(),
{
    if steps.len() == 0 {
        fs
    } else {
        run(apply(fs, steps[0]), steps.drop_first())
    }
}

pub open spec fn steps_of(ops: Seq<FsOp>) -> Seq<FsStep> {
    ops.map_values(|o: FsOp| o@)
}

pub open spec fn texts_of(v: Seq<String>) -> Seq<Seq<char>> {
    v.map_values(|s: String| s@)
}

/// The set of paths that a listing names.
pub open spec fn paths_of(v: Seq<String>) -> Set<Seq<char>> {
    texts_of(v).to_set()
}

/// Whether `path` is among `listing`.
pub fn listed(listing: &Vec<String>, path: &String) -> (r: bool)
    ensures
        r == paths_of(listing@).contains(path@),
{
    let mut i: usize = 0;
    while i < listing.len()
        invariant
            i <= listing@.len(),
            forall|j: int| 0 <= j < i ==> listing@[j]@ != path@,
        decreases listing@.len() - i,
    {
        if listing[i] == *path {
            assert(texts_of(listing@)[i as int] == path@);
            return true;
        }
        i = i + 1;
    }
    assert(!texts_of(listing@).contains(path@));
    false
}

} // verus!
