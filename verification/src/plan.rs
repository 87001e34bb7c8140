//! The move plan: which files of the source directory go where.
//!
//! Given the names of the source directory's entries and the names
//! already present at the two destinations, `plan_moves` selects every
//! eligible file — a regular file whose extension is recognized and
//! whose name is still free at its destination — and pairs it with its
//! category, while collecting the recognizably-named but unclassifiable
//! files for the caller to report.

use vstd::prelude::*;

use crate::classify::{classify, spec_classify, Category};
use crate::file_name::{extension_of, spec_extension_of};

verus! {

use vstd::string::StringExecFns;

/// One immediate entry of the source directory, as the surrounding
/// program read it: its plain name and whether it is a regular file.
pub struct SourceEntry {
    pub name: String,
    pub is_file: bool,
}

/// One pending move: the file of this name goes to this category's
/// destination directory.
pub struct FileTask {
    pub name: String,
    pub category: Category,
}

impl View for FileTask {
    type V = (Seq<char>, Category);

    open spec fn view(&self) -> (Seq<char>, Category) {
        (self.name@, self.category)
    }
}

/// What `plan_moves` decides: the moves to launch, and the names whose
/// extension no category recognizes.
pub struct MovePlan {
    pub tasks: Vec<FileTask>,
    pub unrecognized: Vec<String>,
}

/// The character sequences of a sequence of strings.
pub open spec fn names_of(v: Seq<String>) -> Seq<Seq<char>> {
    v.map_values(|s: String| s@)
}

/// The models of a sequence of tasks.
pub open spec fn tasks_view(v: Seq<FileTask>) -> Seq<(Seq<char>, Category)> {
    v.map_values(|t: FileTask| t@)
}

/// The category a file name classifies into, through its extension.
pub open spec fn spec_category_of(name: Seq<char>) -> Option<Category> {
    match spec_extension_of(name) {
        Some(ext) => spec_classify(ext),
        None => None,
    }
}

/// The names already present at one category's destination.
pub open spec fn dest_names(
    cat: Category,
    photos: Seq<Seq<char>>,
    videos: Seq<Seq<char>>,
) -> Seq<Seq<char>> {
    match cat {
        Category::Photos => photos,
        Category::Videos => videos,
    }
}

/// An entry is eligible when it is a regular file, its extension
/// classifies into a category, and no entry of that category's
/// destination already carries its name.
pub open spec fn spec_eligible(
    e: SourceEntry,
    photos: Seq<Seq<char>>,
    videos: Seq<Seq<char>>,
) -> bool {
    &&& e.is_file
    &&& match spec_category_of(e.name@) {
        Some(cat) => !dest_names(cat, photos, videos).contains(e.name@),
        None => false,
    }
}

/// An entry whose extension exists but classifies into no category; it
/// is reported and left in place.
pub open spec fn spec_unrecognized(e: SourceEntry) -> bool {
    &&& e.is_file
    &&& spec_extension_of(e.name@) is Some
    &&& spec_classify(spec_extension_of(e.name@)->0) is None
}

/// The task an eligible entry turns into.
pub open spec fn task_of(e: SourceEntry) -> (Seq<char>, Category) {
    match spec_category_of(e.name@) {
        Some(cat) => (e.name@, cat),
        None => (e.name@, Category::Photos),
    }
}

/// The tasks of a run: one per eligible entry, in enumeration order.
pub open spec fn spec_plan_tasks(
    entries: Seq<SourceEntry>,
    photos: Seq<Seq<char>>,
    videos: Seq<Seq<char>>,
) -> Seq<(Seq<char>, Category)>
    decreases entries.len(),
{
    if entries.len() == 0 {
        Seq::empty()
    } else {
        let rest = spec_plan_tasks(entries.drop_last(), photos, videos);
        if spec_eligible(entries.last(), photos, videos) {
            rest.push(task_of(entries.last()))
        } else {
            rest
        }
    }
}

/// The unrecognized names of a run, in enumeration order.
pub open spec fn spec_unrecognized_names(entries: Seq<SourceEntry>) -> Seq<Seq<char>>
    decreases entries.len(),
{
    if entries.len() == 0 {
        Seq::empty()
    } else {
        let rest = spec_unrecognized_names(entries.drop_last());
        if spec_unrecognized(entries.last()) {
            rest.push(entries.last().name@)
        } else {
            rest
        }
    }
}

pub(crate) proof fn lemma_names_of_push(v: Seq<String>, s: String)
    ensures
        names_of(v.push(s)) == names_of(v).push(s@),
{
    assert(names_of(v.push(s)) =~= names_of(v).push(s@));
}

proof fn lemma_tasks_view_push(v: Seq<FileTask>, t: FileTask)
    ensures
        tasks_view(v.push(t)) == tasks_view(v).push(t@),
{
    assert(tasks_view(v.push(t)) =~= tasks_view(v).push(t@));
}

/// Whether one of `names` reads as `name`.
fn contains_name(names: &Vec<String>, name: &String) -> (r: bool)
    ensures
        r == names_of(names@).contains(name@),
{
    for i in 0..names.len()
        invariant
            forall|j: int| 0 <= j < i ==> names@[j]@ != name@,
    {
        if names[i] == *name {
            proof {
                assert(names_of(names@)[i as int] == name@);
            }
            return true;
        }
    }
    proof {
        assert forall|k: int| 0 <= k < names_of(names@).len() implies names_of(
            names@,
        )[k] != name@ by {
            assert(names_of(names@)[k] == names@[k]@);
        }
    }
    false
}

/// Whether a file may be moved: it must have a name at all, and no
/// same-named entry may already sit at the destination; an existing
/// entry blocks the move, whatever it holds.
pub fn should_move_file(file_name: &Option<String>, destination_contents: &Vec<String>) -> (r:
    bool)
    ensures
        r == match file_name {
            Some(n) => !names_of(destination_contents@).contains(n@),
            None => false,
        },
{
    match file_name {
        Some(n) => !contains_name(destination_contents, n),
        None => false,
    }
}

/// The path of a file inside a directory: the directory, one
/// separator, the name. The directory is given without a trailing
/// separator.
pub fn destination_path(directory: &str, file_name: &str) -> (r: String)
    ensures
        r@ == directory@ + seq!['/'] + file_name@,
{
    proof {
        reveal_strlit("/");
    }
    let mut r = String::from_str(directory);
    r.append("/");
    r.append(file_name);
    proof {
        assert(r@ =~= directory@ + seq!['/'] + file_name@);
    }
    r
}

/// Walks the source entries once and decides every move of the run:
/// each eligible entry yields one task, in enumeration order; each
/// file whose extension no category recognizes is collected for
/// reporting; everything else is passed over silently.
pub fn plan_moves(
    entries: &Vec<SourceEntry>,
    photos_existing: &Vec<String>,
    videos_existing: &Vec<String>,
) -> (plan: MovePlan)
    ensures
        tasks_view(plan.tasks@) == spec_plan_tasks(
            entries@,
            names_of(photos_existing@),
            names_of(videos_existing@),
        ),
        names_of(plan.unrecognized@) == spec_unrecognized_names(entries@),
{
    let ghost pd = names_of(photos_existing@);
    let ghost vd = names_of(videos_existing@);
    let mut tasks: Vec<FileTask> = Vec::new();
    let mut unrecognized: Vec<String> = Vec::new();
    proof {
        assert(tasks_view(tasks@) =~= spec_plan_tasks(entries@.take(0), pd, vd));
        assert(names_of(unrecognized@) =~= spec_unrecognized_names(entries@.take(0)));
    }
    for i in 0..entries.len()
        invariant
            pd == names_of(photos_existing@),
            vd == names_of(videos_existing@),
            tasks_view(tasks@) == spec_plan_tasks(entries@.take(i as int), pd, vd),
            names_of(unrecognized@) == spec_unrecognized_names(entries@.take(i as int)),
    {
        let e = &entries[i];
        proof {
            assert(entries@.take(i as int + 1).drop_last() =~= entries@.take(i as int));
            assert(entries@.take(i as int + 1).last() == entries@[i as int]);
        }
        if e.is_file {
            match extension_of(e.name.as_str()) {
                None => {
                    // no extension at all: skipped silently
                    proof {
                        assert(!spec_eligible(entries@[i as int], pd, vd));
                        assert(!spec_unrecognized(entries@[i as int]));
                    }
                },
                Some(ext) => {
                    match classify(ext.as_str()) {
                        None => {
                            proof {
                                assert(spec_unrecognized(entries@[i as int]));
                                assert(!spec_eligible(entries@[i as int], pd, vd));
                                lemma_names_of_push(unrecognized@, e.name);
                            }
                            unrecognized.push(e.name.clone());
                        },
                        Some(cat) => {
                            let dest = match cat {
                                Category::Photos => photos_existing,
                                Category::Videos => videos_existing,
                            };
                            proof {
                                assert(names_of(dest@) == dest_names(cat, pd, vd));
                                assert(!spec_unrecognized(entries@[i as int]));
                            }
                            if !contains_name(dest, &e.name) {
                                proof {
                                    assert(spec_eligible(entries@[i as int], pd, vd));
                                    assert(task_of(entries@[i as int]) == (e.name@, cat));
                                    lemma_tasks_view_push(
                                        tasks@,
                                        (FileTask { name: e.name, category: cat }),
                                    );
                                }
                                tasks.push(FileTask { name: e.name.clone(), category: cat });
                            } else {
                                proof {
                                    assert(!spec_eligible(entries@[i as int], pd, vd));
                                }
                            }
                        },
                    }
                },
            }
        } else {
            proof {
                assert(!spec_eligible(entries@[i as int], pd, vd));
                assert(!spec_unrecognized(entries@[i as int]));
            }
        }
    }
    proof {
        assert(entries@.take(entries@.len() as int) =~= entries@);
    }
    MovePlan { tasks, unrecognized }
}

} // verus!
