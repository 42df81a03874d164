//! Which entries of a walk through a directory tree are read for the index.

use crate::error::{context_message, CodeAssistantError};
use vstd::prelude::*;

verus! {

/// What a walk through a directory tree found at one place.
#[derive(Debug)]
pub struct WalkEntry {
    /// Where it is.
    pub path: String,
    /// How many directories below the root of the walk it lies.
    pub depth: usize,
    /// Whether it is a regular file.
    pub is_file: bool,
}

/// The positions in `entries` of the regular files, in ascending order.
pub open spec fn file_positions(entries: Seq<WalkEntry>) -> Seq<int>
    decreases entries.len(),
{
    if entries.len() == 0 {
        Seq::empty()
    } else if entries.last().is_file {
        file_positions(entries.drop_last()).push(entries.len() - 1)
    } else {
        file_positions(entries.drop_last())
    }
}

/// How many of `entries` are regular files.
pub open spec fn file_count(entries: Seq<WalkEntry>) -> nat {
    file_positions(entries).len()
}

/// The text of the failure to find the workspace.
pub open spec fn workspace_failure() -> Seq<char> {
    "Workspace path does not exist"@
}

/// The text of the failure to read a file.
pub open spec fn read_failure() -> Seq<char> {
    "Failed to read file"@
}

/// Every regular file among `entries` has its position in `file_positions`
/// once, nothing else has, and the positions ascend.
pub proof fn lemma_file_positions(entries: Seq<WalkEntry>)
    ensures
        file_count(entries) <= entries.len(),
        forall|k: int|
            0 <= k < file_count(entries) ==> 0 <= (#[trigger] file_positions(entries)[k])
                < entries.len() && entries[file_positions(entries)[k]].is_file,
        forall|j: int, k: int|
            0 <= j < k < file_count(entries) ==> file_positions(entries)[j] < file_positions(
                entries,
            )[k],
        forall|i: int|
            0 <= i < entries.len() && (#[trigger] entries[i]).is_file ==> file_positions(
                entries,
            ).contains(i),
    decreases entries.len(),
{
    if entries.len() > 0 {
        let front = entries.drop_last();
        let last = entries.len() - 1;
        lemma_file_positions(front);
        let found = file_positions(front);
        let all = file_positions(entries);
        assert forall|i: int| 0 <= i < entries.len() && (#[trigger] entries[i]).is_file implies all.contains(
            i,
        ) by {
            if i < last {
                assert(front[i].is_file);
                let k = choose|k: int| 0 <= k < found.len() && found[k] == i;
                assert(all[k] == i);
            } else {
                assert(all[all.len() - 1] == i);
            }
        }
        assert forall|k: int| 0 <= k < all.len() implies 0 <= (#[trigger] all[k]) < entries.len()
            && entries[all[k]].is_file by {
            if k < found.len() {
                assert(all[k] == found[k]);
                assert(front[found[k]].is_file);
            }
        }
    }
}

/// Which entries are regular files does not depend on how deep they lie, nor
/// on where: two walks that agree, place by place, on what is a regular file
/// have the same files read.
pub proof fn lemma_depth_is_irrelevant(a: Seq<WalkEntry>, b: Seq<WalkEntry>)
    requires
        a.len() == b.len(),
        forall|i: int| 0 <= i < a.len() ==> a[i].is_file == b[i].is_file,
    ensures
        file_positions(a) == file_positions(b),
        file_count(a) == file_count(b),
    decreases a.len(),
{
    if a.len() > 0 {
        lemma_depth_is_irrelevant(a.drop_last(), b.drop_last());
    }
}

/// Tells whether the workspace can be indexed: it has to exist.
pub fn check_workspace(workspace: &str, exists: bool) -> (r: Result<(), CodeAssistantError>)
    ensures
        exists ==> r is Ok,
        !exists ==> r is Err && r->Err_0@ == context_message(workspace_failure(), workspace@),
{
    if exists {
        Ok(())
    } else {
        Err(CodeAssistantError::with_context("Workspace path does not exist", workspace))
    }
}

/// Finds the regular files among the entries of a walk: each of them is to
/// be read once, in the order of the walk.
pub fn plan_indexing(entries: &Vec<WalkEntry>) -> (plan: Vec<usize>)
    ensures
        plan@.len() == file_count(entries@),
        plan@.map_values(|i: usize| i as int) == file_positions(entries@),
{
    let mut plan: Vec<usize> = Vec::new();
    let mut i: usize = 0;
    assert(entries@.take(0) =~= Seq::<WalkEntry>::empty());
    assert(plan@.map_values(|i: usize| i as int) =~= file_positions(entries@.take(0)));
    while i < entries.len()
        invariant
            i <= entries@.len(),
            plan@.map_values(|i: usize| i as int) == file_positions(entries@.take(i as int)),
        decreases entries@.len() - i,
    {
        let ghost before = plan@;
        assert(entries@.take(i + 1).drop_last() =~= entries@.take(i as int));
        assert(entries@.take(i + 1).last() == entries@[i as int]);
        if entries[i].is_file {
            plan.push(i);
            assert(plan@.map_values(|i: usize| i as int) =~= before.map_values(
                |i: usize| i as int,
            ).push(i as int));
        }
        i += 1;
    }
    assert(entries@.take(i as int) =~= entries@);
    plan
}

/// Decides what to read for the index of `workspace`, given whether it
/// exists and what a walk through it found. Fails where it does not exist.
pub fn index_and_embed(workspace: &str, exists: bool, entries: &Vec<WalkEntry>) -> (r: Result<
    Vec<usize>,
    CodeAssistantError,
>)
    ensures
        exists ==> r is Ok && r->Ok_0@.len() == file_count(entries@) && r->Ok_0@.map_values(
            |i: usize| i as int,
        ) == file_positions(entries@),
        !exists ==> r is Err && r->Err_0@ == context_message(workspace_failure(), workspace@),
{
    match check_workspace(workspace, exists) {
        Ok(()) => Ok(plan_indexing(entries)),
        Err(e) => Err(e),
    }
}

/// Takes in a file that was read for the index, or the reason why it could
/// not be read. What was read is not kept.
pub fn process_file(read: Result<String, String>) -> (r: Result<(), CodeAssistantError>)
    ensures
        read is Ok ==> r is Ok,
        read matches Err(reason) ==> r is Err && r->Err_0@ == context_message(
            read_failure(),
            reason@,
        ),
{
    match read {
        Ok(_) => Ok(()),
        Err(reason) => Err(CodeAssistantError::with_context("Failed to read file", reason.as_str())),
    }
}

} // verus!
