//! `clean-path`: removes the tool directory and the node directory from
//! `PATH`.

use vstd::prelude::*;

use super::add_path::{
    any_note, has_note, lemma_notes_agree, note_of, notes_of, path_notes, PathNote,
};

verus! {

/// Clean up the environment variables added by this tool
#[derive(Debug)]
pub struct CleanPathArgs {
    /// Ignore the directory where the current tool executable is located
    pub no_exe: bool,
    /// Ignore the node directory
    pub no_node: bool,
}

/// Whether `clean-path` deletes an entry with this note.
pub open spec fn is_deleted(note: PathNote, no_exe: bool, no_node: bool) -> bool {
    match note {
        PathNote::ToolDir => !no_exe,
        PathNote::NodeDir => !no_node,
        PathNote::Other => false,
    }
}

/// What `clean-path` does: how each entry of `PATH` is shown (its note and
/// whether it is deleted), whether `PATH` is clean already, and which
/// directories it removes.
#[derive(Debug)]
pub struct CleanPathPlan {
    pub rows: Vec<(PathNote, bool)>,
    pub already_clean: bool,
    pub remove_exe: bool,
    pub remove_node: bool,
}

/// Decides what `clean-path` removes from `PATH`: the tool directory when it
/// is there unless `--no-exe`, the node directory when it is there unless
/// `--no-node`. `PATH` is clean when neither is there.
pub fn plan_clean_path(
    paths: &Vec<String>,
    exe_dir: &String,
    node_dir: &String,
    args: &CleanPathArgs,
) -> (plan: CleanPathPlan)
    ensures
        plan.rows@.len() == paths@.len(),
        forall|j: int|
            0 <= j < paths@.len() ==> #[trigger] plan.rows@[j] == (
                note_of(paths@[j]@, exe_dir@, node_dir@),
                is_deleted(note_of(paths@[j]@, exe_dir@, node_dir@), args.no_exe, args.no_node),
            ),
        plan.already_clean == (!has_note(paths@, exe_dir@, node_dir@, PathNote::ToolDir) && !has_note(
            paths@,
            exe_dir@,
            node_dir@,
            PathNote::NodeDir,
        )),
        plan.remove_exe == (!args.no_exe && has_note(paths@, exe_dir@, node_dir@, PathNote::ToolDir)),
        plan.remove_node == (!args.no_node && has_note(paths@, exe_dir@, node_dir@, PathNote::NodeDir)),
{
    let notes = path_notes(paths, exe_dir, node_dir);
    let n = notes.len();
    let mut rows: Vec<(PathNote, bool)> = Vec::new();
    let mut i: usize = 0;
    while i < n
        invariant
            n == notes.len(),
            n == paths.len(),
            notes@ == notes_of(paths@, exe_dir@, node_dir@),
            0 <= i <= n,
            rows@.len() == i,
            forall|j: int|
                0 <= j < i ==> #[trigger] rows@[j] == (
                    note_of(paths@[j]@, exe_dir@, node_dir@),
                    is_deleted(note_of(paths@[j]@, exe_dir@, node_dir@), args.no_exe, args.no_node),
                ),
        decreases n - i,
    {
        let note = notes[i];
        let deleted = match note {
            PathNote::ToolDir => !args.no_exe,
            PathNote::NodeDir => !args.no_node,
            PathNote::Other => false,
        };
        rows.push((note, deleted));
        i = i + 1;
    }
    let exe_dir_exists = any_note(&notes, PathNote::ToolDir);
    let node_dir_exists = any_note(&notes, PathNote::NodeDir);
    proof {
        lemma_notes_agree(notes@, paths@, exe_dir@, node_dir@, PathNote::ToolDir);
        lemma_notes_agree(notes@, paths@, exe_dir@, node_dir@, PathNote::NodeDir);
    }
    CleanPathPlan {
        rows,
        already_clean: !exe_dir_exists && !node_dir_exists,
        remove_exe: !args.no_exe && exe_dir_exists,
        remove_node: !args.no_node && node_dir_exists,
    }
}

} // verus!
