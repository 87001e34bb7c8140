//! What a planned run guarantees, stated over the plan's model.
//!
//! A run takes the source entries and the two destination listings,
//! plans its tasks, and then performs exactly those moves: each task's
//! file leaves the source directory and its name joins the task's
//! destination listing. `remaining_entries` and `dest_after` describe
//! that final state, and the proof functions here state the laws a run
//! obeys: it never targets an occupied destination name, it moves every
//! eligible file, and a second run over the final state has nothing
//! left to do.

use vstd::prelude::*;

use crate::classify::Category;
use crate::plan::{
    dest_names, spec_category_of, spec_eligible, spec_plan_tasks, spec_unrecognized,
    spec_unrecognized_names, task_of, SourceEntry,
};

verus! {

/// The source entries still in place after the run: every entry the
/// plan did not turn into a task.
pub open spec fn remaining_entries(
    entries: Seq<SourceEntry>,
    photos: Seq<Seq<char>>,
    videos: Seq<Seq<char>>,
) -> Seq<SourceEntry>
    decreases entries.len(),
{
    if entries.len() == 0 {
        Seq::empty()
    } else {
        let rest = remaining_entries(entries.drop_last(), photos, videos);
        if spec_eligible(entries.last(), photos, videos) {
            rest
        } else {
            rest.push(entries.last())
        }
    }
}

/// The names the run adds to one category's destination: the names of
/// the eligible entries of that category, in enumeration order.
pub open spec fn moved_names(
    cat: Category,
    entries: Seq<SourceEntry>,
    photos: Seq<Seq<char>>,
    videos: Seq<Seq<char>>,
) -> Seq<Seq<char>>
    decreases entries.len(),
{
    if entries.len() == 0 {
        Seq::empty()
    } else {
        let rest = moved_names(cat, entries.drop_last(), photos, videos);
        if spec_eligible(entries.last(), photos, videos) && spec_category_of(
            entries.last().name@,
        ) == Some(cat) {
            rest.push(entries.last().name@)
        } else {
            rest
        }
    }
}

/// One category's destination listing after the run: what was there
/// before, then what the run moved in.
pub open spec fn dest_after(
    cat: Category,
    entries: Seq<SourceEntry>,
    photos: Seq<Seq<char>>,
    videos: Seq<Seq<char>>,
) -> Seq<Seq<char>> {
    dest_names(cat, photos, videos) + moved_names(cat, entries, photos, videos)
}

/// Every entry the run leaves in the source directory was ineligible.
pub proof fn lemma_remaining_all_ineligible(
    entries: Seq<SourceEntry>,
    photos: Seq<Seq<char>>,
    videos: Seq<Seq<char>>,
)
    ensures
        forall|j: int|
            0 <= j < remaining_entries(entries, photos, videos).len() ==> !spec_eligible(
                #[trigger] remaining_entries(entries, photos, videos)[j],
                photos,
                videos,
            ),
    decreases entries.len(),
{
    if entries.len() > 0 {
        lemma_remaining_all_ineligible(entries.drop_last(), photos, videos);
        let rem = remaining_entries(entries, photos, videos);
        let rest = remaining_entries(entries.drop_last(), photos, videos);
        assert forall|j: int| 0 <= j < rem.len() implies !spec_eligible(
            #[trigger] rem[j],
            photos,
            videos,
        ) by {
            if j < rest.len() {
                assert(rem[j] == rest[j]);
            } else {
                assert(rem[j] == entries.last());
            }
        }
    }
}

/// An ineligible entry stays: it is among the remaining entries.
pub proof fn lemma_ineligible_entry_stays(
    entries: Seq<SourceEntry>,
    photos: Seq<Seq<char>>,
    videos: Seq<Seq<char>>,
    i: int,
)
    requires
        0 <= i < entries.len(),
        !spec_eligible(entries[i], photos, videos),
    ensures
        remaining_entries(entries, photos, videos).contains(entries[i]),
    decreases entries.len(),
{
    let rem = remaining_entries(entries, photos, videos);
    if i == entries.len() - 1 {
        assert(rem.last() == entries[i]);
    } else {
        lemma_ineligible_entry_stays(entries.drop_last(), photos, videos, i);
        let rest = remaining_entries(entries.drop_last(), photos, videos);
        let j = choose|j: int| 0 <= j < rest.len() && rest[j] == entries[i];
        assert(rem[j] == entries[i]);
    }
}

/// An eligible entry's task is in the plan.
pub proof fn lemma_eligible_entry_planned(
    entries: Seq<SourceEntry>,
    photos: Seq<Seq<char>>,
    videos: Seq<Seq<char>>,
    i: int,
)
    requires
        0 <= i < entries.len(),
        spec_eligible(entries[i], photos, videos),
    ensures
        spec_plan_tasks(entries, photos, videos).contains(task_of(entries[i])),
    decreases entries.len(),
{
    let tasks = spec_plan_tasks(entries, photos, videos);
    if i == entries.len() - 1 {
        assert(tasks.last() == task_of(entries[i]));
    } else {
        lemma_eligible_entry_planned(entries.drop_last(), photos, videos, i);
        let rest = spec_plan_tasks(entries.drop_last(), photos, videos);
        let j = choose|j: int| 0 <= j < rest.len() && rest[j] == task_of(entries[i]);
        assert(tasks[j] == task_of(entries[i]));
    }
}

/// An eligible entry's name reaches its destination's listing.
pub proof fn lemma_eligible_name_moved(
    entries: Seq<SourceEntry>,
    photos: Seq<Seq<char>>,
    videos: Seq<Seq<char>>,
    i: int,
    cat: Category,
)
    requires
        0 <= i < entries.len(),
        spec_eligible(entries[i], photos, videos),
        spec_category_of(entries[i].name@) == Some(cat),
    ensures
        moved_names(cat, entries, photos, videos).contains(entries[i].name@),
    decreases entries.len(),
{
    let moved = moved_names(cat, entries, photos, videos);
    if i == entries.len() - 1 {
        assert(moved.last() == entries[i].name@);
    } else {
        lemma_eligible_name_moved(entries.drop_last(), photos, videos, i, cat);
        let rest = moved_names(cat, entries.drop_last(), photos, videos);
        let j = choose|j: int| 0 <= j < rest.len() && rest[j] == entries[i].name@;
        assert(moved[j] == entries[i].name@);
    }
}

/// The no-overwrite invariant: no task of a plan carries a name that
/// its destination's listing already holds, so no move of the run can
/// replace an existing destination entry.
pub proof fn lemma_plan_never_overwrites(
    entries: Seq<SourceEntry>,
    photos: Seq<Seq<char>>,
    videos: Seq<Seq<char>>,
)
    ensures
        forall|j: int|
            0 <= j < spec_plan_tasks(entries, photos, videos).len() ==> !dest_names(
                (#[trigger] spec_plan_tasks(entries, photos, videos)[j]).1,
                photos,
                videos,
            ).contains(spec_plan_tasks(entries, photos, videos)[j].0),
    decreases entries.len(),
{
    if entries.len() > 0 {
        lemma_plan_never_overwrites(entries.drop_last(), photos, videos);
        let tasks = spec_plan_tasks(entries, photos, videos);
        let rest = spec_plan_tasks(entries.drop_last(), photos, videos);
        assert forall|j: int| 0 <= j < tasks.len() implies !dest_names(
            (#[trigger] tasks[j]).1,
            photos,
            videos,
        ).contains(tasks[j].0) by {
            if j < rest.len() {
                assert(tasks[j] == rest[j]);
            } else {
                assert(tasks[j] == task_of(entries.last()));
            }
        }
    }
}

/// A file whose name already sits at its destination is passed over:
/// it stays among the source entries, and no task of the plan would
/// write its destination name.
pub proof fn lemma_blocked_entry_stays(
    entries: Seq<SourceEntry>,
    photos: Seq<Seq<char>>,
    videos: Seq<Seq<char>>,
    i: int,
    cat: Category,
)
    requires
        0 <= i < entries.len(),
        spec_category_of(entries[i].name@) == Some(cat),
        dest_names(cat, photos, videos).contains(entries[i].name@),
    ensures
        remaining_entries(entries, photos, videos).contains(entries[i]),
        dest_after(cat, entries, photos, videos).contains(entries[i].name@),
        forall|j: int|
            0 <= j < spec_plan_tasks(entries, photos, videos).len() ==> #[trigger] spec_plan_tasks(
                entries,
                photos,
                videos,
            )[j] != (entries[i].name@, cat),
{
    lemma_ineligible_entry_stays(entries, photos, videos, i);
    lemma_plan_never_overwrites(entries, photos, videos);
    let dest = dest_names(cat, photos, videos);
    let j = choose|j: int| 0 <= j < dest.len() && dest[j] == entries[i].name@;
    assert(dest_after(cat, entries, photos, videos)[j] == entries[i].name@);
}

/// Fan-out completeness: every eligible entry of the source directory
/// is planned, leaves the source, and its name appears at its
/// category's destination after the run.
pub proof fn lemma_fan_out_complete(
    entries: Seq<SourceEntry>,
    photos: Seq<Seq<char>>,
    videos: Seq<Seq<char>>,
    i: int,
)
    requires
        0 <= i < entries.len(),
        spec_eligible(entries[i], photos, videos),
    ensures
        spec_plan_tasks(entries, photos, videos).contains(task_of(entries[i])),
        !remaining_entries(entries, photos, videos).contains(entries[i]),
        spec_category_of(entries[i].name@) is Some,
        dest_after(
            spec_category_of(entries[i].name@)->0,
            entries,
            photos,
            videos,
        ).contains(entries[i].name@),
{
    let cat = spec_category_of(entries[i].name@)->0;
    lemma_eligible_entry_planned(entries, photos, videos, i);
    lemma_remaining_all_ineligible(entries, photos, videos);
    lemma_eligible_name_moved(entries, photos, videos, i, cat);
    let moved = moved_names(cat, entries, photos, videos);
    let j = choose|j: int| 0 <= j < moved.len() && moved[j] == entries[i].name@;
    assert(dest_after(cat, entries, photos, videos)[dest_names(cat, photos, videos).len() + j]
        == entries[i].name@);
}

/// Ineligibility survives growth of the destination listings: what a
/// run skips, a run against fuller destinations skips too.
proof fn lemma_ineligible_monotone(
    e: SourceEntry,
    photos: Seq<Seq<char>>,
    videos: Seq<Seq<char>>,
    photos_more: Seq<Seq<char>>,
    videos_more: Seq<Seq<char>>,
)
    requires
        !spec_eligible(e, photos, videos),
        forall|x: Seq<char>| photos.contains(x) ==> photos_more.contains(x),
        forall|x: Seq<char>| videos.contains(x) ==> videos_more.contains(x),
    ensures
        !spec_eligible(e, photos_more, videos_more),
{
}

/// A run over entries that are all ineligible plans nothing and leaves
/// every entry in place.
proof fn lemma_nothing_to_do(
    entries: Seq<SourceEntry>,
    photos: Seq<Seq<char>>,
    videos: Seq<Seq<char>>,
)
    requires
        forall|j: int| 0 <= j < entries.len() ==> !spec_eligible(#[trigger] entries[j], photos, videos),
    ensures
        spec_plan_tasks(entries, photos, videos) == Seq::<(Seq<char>, Category)>::empty(),
        remaining_entries(entries, photos, videos) == entries,
    decreases entries.len(),
{
    if entries.len() > 0 {
        lemma_nothing_to_do(entries.drop_last(), photos, videos);
        assert(remaining_entries(entries, photos, videos) =~= entries);
    }
}

/// What the run leaves in place reports the same unrecognized names:
/// moving the eligible files takes nothing away from, and adds nothing
/// to, what a later walk finds unclassifiable.
pub proof fn lemma_unrecognized_stable(
    entries: Seq<SourceEntry>,
    photos: Seq<Seq<char>>,
    videos: Seq<Seq<char>>,
)
    ensures
        spec_unrecognized_names(remaining_entries(entries, photos, videos))
            == spec_unrecognized_names(entries),
    decreases entries.len(),
{
    if entries.len() > 0 {
        lemma_unrecognized_stable(entries.drop_last(), photos, videos);
        let last = entries.last();
        let rest = remaining_entries(entries.drop_last(), photos, videos);
        if spec_eligible(last, photos, videos) {
            assert(!spec_unrecognized(last));
        } else {
            assert(rest.push(last).drop_last() =~= rest);
        }
    }
}

/// Idempotence: a second run over the state the first run leaves
/// behind — the remaining source entries against the grown destination
/// listings — plans no move and changes nothing.
pub proof fn lemma_plan_idempotent(
    entries: Seq<SourceEntry>,
    photos: Seq<Seq<char>>,
    videos: Seq<Seq<char>>,
)
    ensures
        ({
            let rem = remaining_entries(entries, photos, videos);
            let photos_after = dest_after(Category::Photos, entries, photos, videos);
            let videos_after = dest_after(Category::Videos, entries, photos, videos);
            &&& spec_plan_tasks(rem, photos_after, videos_after) == Seq::<(
                Seq<char>,
                Category,
            )>::empty()
            &&& remaining_entries(rem, photos_after, videos_after) == rem
        }),
{
    let rem = remaining_entries(entries, photos, videos);
    let photos_after = dest_after(Category::Photos, entries, photos, videos);
    let videos_after = dest_after(Category::Videos, entries, photos, videos);
    lemma_remaining_all_ineligible(entries, photos, videos);
    assert forall|x: Seq<char>| photos.contains(x) implies photos_after.contains(x) by {
        let j = choose|j: int| 0 <= j < photos.len() && photos[j] == x;
        assert(photos_after[j] == x);
    }
    assert forall|x: Seq<char>| videos.contains(x) implies videos_after.contains(x) by {
        let j = choose|j: int| 0 <= j < videos.len() && videos[j] == x;
        assert(videos_after[j] == x);
    }
    assert forall|j: int| 0 <= j < rem.len() implies !spec_eligible(
        #[trigger] rem[j],
        photos_after,
        videos_after,
    ) by {
        lemma_ineligible_monotone(rem[j], photos, videos, photos_after, videos_after);
    }
    lemma_nothing_to_do(rem, photos_after, videos_after);
}

} // verus!
