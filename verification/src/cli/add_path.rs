//! `add-path`: adds the tool directory and the node directory to `PATH`.

use vstd::prelude::*;

verus! {

/// Add the tool and node directories to the user's environment variables
#[derive(Debug)]
pub struct AddPathArgs {
    /// Ignore the directory where the current tool executable is located
    pub no_exe: bool,
    /// Ignore the node directory
    pub no_node: bool,
}

/// What an entry of `PATH` is to this tool.
#[derive(Debug, Clone, Copy, PartialEq, Eq, Structural)]
pub enum PathNote {
    /// The directory where the tool executable is located.
    ToolDir,
    /// The node directory (the active version's link).
    NodeDir,
    Other,
}

/// An entry is the tool directory first, else the node directory.
pub open spec fn note_of(entry: Seq<char>, exe_dir: Seq<char>, node_dir: Seq<char>) -> PathNote {
    if entry == exe_dir {
        PathNote::ToolDir
    } else if entry == node_dir {
        PathNote::NodeDir
    } else {
        PathNote::Other
    }
}

/// The notes of all entries of `PATH`.
pub open spec fn notes_of(paths: Seq<String>, exe_dir: Seq<char>, node_dir: Seq<char>) -> Seq<
    PathNote,
> {
    Seq::new(paths.len(), |j: int| note_of(paths[j]@, exe_dir, node_dir))
}

/// Some entry of `PATH` is noted with `note`.
pub open spec fn has_note(
    paths: Seq<String>,
    exe_dir: Seq<char>,
    node_dir: Seq<char>,
    note: PathNote,
) -> bool {
    exists|j: int| 0 <= j < paths.len() && #[trigger] note_of(paths[j]@, exe_dir, node_dir) == note
}

/// Notes the entries of `PATH`: the tool directory, the node directory, or
/// another one.
pub fn path_notes(paths: &Vec<String>, exe_dir: &String, node_dir: &String) -> (notes: Vec<PathNote>)
    ensures
        notes@ == notes_of(paths@, exe_dir@, node_dir@),
{
    let n = paths.len();
    let mut notes: Vec<PathNote> = Vec::new();
    let mut i: usize = 0;
    while i < n
        invariant
            n == paths.len(),
            0 <= i <= n,
            notes@ =~= notes_of(paths@, exe_dir@, node_dir@).take(i as int),
        decreases n - i,
    {
        let note = if paths[i] == *exe_dir {
            PathNote::ToolDir
        } else if paths[i] == *node_dir {
            PathNote::NodeDir
        } else {
            PathNote::Other
        };
        notes.push(note);
        i = i + 1;
    }
    assert(notes_of(paths@, exe_dir@, node_dir@).take(n as int) =~= notes_of(
        paths@,
        exe_dir@,
        node_dir@,
    ));
    notes
}

/// Whether some note is `note`.
pub fn any_note(notes: &Vec<PathNote>, note: PathNote) -> (r: bool)
    ensures
        r == exists|j: int| 0 <= j < notes.len() && notes@[j] == note,
{
    let n = notes.len();
    let mut i: usize = 0;
    while i < n
        invariant
            n == notes.len(),
            0 <= i <= n,
            forall|j: int| 0 <= j < i ==> notes@[j] != note,
        decreases n - i,
    {
        if notes[i] == note {
            return true;
        }
        i = i + 1;
    }
    false
}

/// Some note among the notes of `PATH` is `note` exactly when some entry
/// of `PATH` is noted so.
pub proof fn lemma_notes_agree(
    notes: Seq<PathNote>,
    paths: Seq<String>,
    exe_dir: Seq<char>,
    node_dir: Seq<char>,
    note: PathNote,
)
    requires
        notes == notes_of(paths, exe_dir, node_dir),
    ensures
        (exists|j: int| 0 <= j < notes.len() && notes[j] == note) == has_note(
            paths,
            exe_dir,
            node_dir,
            note,
        ),
{
    if exists|j: int| 0 <= j < notes.len() && notes[j] == note {
        let j = choose|j: int| 0 <= j < notes.len() && notes[j] == note;
        assert(note_of(paths[j]@, exe_dir, node_dir) == note);
    }
    if has_note(paths, exe_dir, node_dir, note) {
        let j = choose|j: int|
            0 <= j < paths.len() && #[trigger] note_of(paths[j]@, exe_dir, node_dir) == note;
        assert(notes[j] == note);
    }
}

/// What `add-path` does: how each entry of `PATH` is shown, and which
/// directories it appends.
#[derive(Debug)]
pub struct AddPathPlan {
    pub notes: Vec<PathNote>,
    pub append_exe: bool,
    pub append_node: bool,
}

/// Decides what `add-path` appends to `PATH`: the tool directory unless it
/// is there or `--no-exe`; the node directory unless it is there or
/// `--no-node`. Nothing appended means that no action is required.
pub fn plan_add_path(
    paths: &Vec<String>,
    exe_dir: &String,
    node_dir: &String,
    args: &AddPathArgs,
) -> (plan: AddPathPlan)
    ensures
        plan.notes@ == notes_of(paths@, exe_dir@, node_dir@),
        plan.append_exe == (!has_note(paths@, exe_dir@, node_dir@, PathNote::ToolDir) && !args.no_exe),
        plan.append_node == (!has_note(paths@, exe_dir@, node_dir@, PathNote::NodeDir)
            && !args.no_node),
{
    let notes = path_notes(paths, exe_dir, node_dir);
    let exe_dir_added = any_note(&notes, PathNote::ToolDir);
    let node_dir_added = any_note(&notes, PathNote::NodeDir);
    proof {
        lemma_notes_agree(notes@, paths@, exe_dir@, node_dir@, PathNote::ToolDir);
        lemma_notes_agree(notes@, paths@, exe_dir@, node_dir@, PathNote::NodeDir);
    }
    AddPathPlan {
        notes,
        append_exe: !exe_dir_added && !args.no_exe,
        append_node: !node_dir_added && !args.no_node,
    }
}

/// After `add-path` appends what it plans, both directories are in `PATH`
/// unless ignored: each is there already or is appended.
pub proof fn lemma_add_path_completes(
    paths: Seq<String>,
    exe_dir: Seq<char>,
    node_dir: Seq<char>,
    no_exe: bool,
    no_node: bool,
    append_exe: bool,
    append_node: bool,
)
    requires
        exe_dir != node_dir,
        append_exe == (!has_note(paths, exe_dir, node_dir, PathNote::ToolDir) && !no_exe),
        append_node == (!has_note(paths, exe_dir, node_dir, PathNote::NodeDir) && !no_node),
    ensures
        !no_exe ==> append_exe || exists|j: int| 0 <= j < paths.len() && paths[j]@ == exe_dir,
        !no_node ==> append_node || exists|j: int| 0 <= j < paths.len() && paths[j]@ == node_dir,
        append_exe ==> forall|j: int| 0 <= j < paths.len() ==> paths[j]@ != exe_dir,
        append_node ==> forall|j: int| 0 <= j < paths.len() ==> paths[j]@ != node_dir,
{
    if !no_exe && !append_exe {
        let j = choose|j: int| 0 <= j < paths.len() && #[trigger] note_of(paths[j]@, exe_dir, node_dir) == PathNote::ToolDir;
        assert(paths[j]@ == exe_dir);
    }
    if !no_node && !append_node {
        let j = choose|j: int| 0 <= j < paths.len() && #[trigger] note_of(paths[j]@, exe_dir, node_dir) == PathNote::NodeDir;
        assert(paths[j]@ == node_dir);
    }
    if append_exe {
        assert forall|j: int| 0 <= j < paths.len() implies paths[j]@ != exe_dir by {
            if paths[j]@ == exe_dir {
                assert(note_of(paths[j]@, exe_dir, node_dir) == PathNote::ToolDir);
            }
        }
    }
    if append_node {
        assert forall|j: int| 0 <= j < paths.len() implies paths[j]@ != node_dir by {
            if paths[j]@ == node_dir {
                assert(note_of(paths[j]@, exe_dir, node_dir) == PathNote::NodeDir);
            }
        }
    }
}

} // verus!
