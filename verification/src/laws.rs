//! What holds of the store whatever is asked of it.

use vstd::prelude::*;
use crate::batch::{
    index_set, lemma_without_agree, lemma_without_len, lemma_without_one_more,
    lemma_without_survivor, lemma_without_untouched,
};
use crate::intent::{Action, IntentView};
use crate::model::{is_pending, TodoView};
use crate::positions::{
    embeds_at, is_subsequence, lemma_positions_agree, lemma_positions_complete,
    lemma_positions_sound, without,
};
use crate::task::TaskView;
use crate::text::lowercase_of;

verus! {

/// The request leaves every task as it is: it neither marks a task as done
/// or not done nor changes a description. It may add and remove tasks.
pub open spec fn leaves_tasks_intact(intent: IntentView) -> bool {
    !(intent is ToggleCompleted) && !(intent is EditDescription)
}

impl TodoView {
    /// Every task that the store ever held in the course of a series of
    /// requests, in the order of insertion: the tasks it started with, then
    /// each task that a request added.
    pub open spec fn history(self, intents: Seq<IntentView>) -> Seq<TaskView>
        decreases intents.len(),
    {
        if intents.len() == 0 {
            self.tasks
        } else {
            let before = self.run(intents.drop_last());
            let earlier = self.history(intents.drop_last());
            if intents.last() is AddTask && before.new_task.len() > 0 {
                earlier.push(TaskView { description: before.new_task, completed: false })
            } else {
                earlier
            }
        }
    }
}

/// A position of `s` that is not doomed is found again in what is left, at
/// the place that `origin` names, and the places ascend.
proof fn lemma_without_origin<A>(s: Seq<A>, doomed: Set<int>) -> (origin: Seq<int>)
    ensures
        embeds_at(without(s, doomed), s, origin),
    decreases s.len(),
{
    if s.len() == 0 {
        Seq::empty()
    } else {
        let shorter = lemma_without_origin(s.drop_last(), doomed);
        if doomed.contains(s.len() - 1) {
            shorter
        } else {
            shorter.push(s.len() - 1)
        }
    }
}

/// Taking positions out of what is left after positions were taken out
/// comes to taking positions out once.
proof fn lemma_without_twice<A>(s: Seq<A>, first: Set<int>, second: Set<int>) -> (merged: Set<int>)
    ensures
        without(without(s, first), second) == without(s, merged),
    decreases s.len(),
{
    if s.len() == 0 {
        first
    } else {
        let shorter = s.drop_last();
        let last = s.len() - 1;
        let left = without(shorter, first);
        let inner = lemma_without_twice(shorter, first, second);
        if first.contains(last) {
            let merged = inner.insert(last);
            lemma_without_agree(shorter, inner, merged);
            merged
        } else {
            assert(left.push(s.last()).drop_last() == left);
            if second.contains(left.len() as int) {
                let merged = inner.insert(last);
                lemma_without_agree(shorter, inner, merged);
                merged
            } else {
                let merged = inner.remove(last);
                lemma_without_agree(shorter, inner, merged);
                merged
            }
        }
    }
}

/// Sifting a sequence by a test is taking out the positions that fail it.
proof fn lemma_filter_without<A>(s: Seq<A>, pred: spec_fn(A) -> bool)
    ensures
        s.filter(pred) == without(s, Set::new(|i: int| 0 <= i < s.len() && !pred(s[i]))),
    decreases s.len(),
{
    reveal(Seq::filter);
    if s.len() > 0 {
        let shorter = s.drop_last();
        lemma_filter_without(shorter, pred);
        lemma_without_agree(
            shorter,
            Set::new(|i: int| 0 <= i < shorter.len() && !pred(shorter[i])),
            Set::new(|i: int| 0 <= i < s.len() && !pred(s[i])),
        );
    }
}

/// The tasks after a series of requests that leave tasks intact are the
/// history with some positions taken out.
proof fn lemma_run_without(start: TodoView, intents: Seq<IntentView>) -> (gone: Set<int>)
    requires
        forall|k: int| 0 <= k < intents.len() ==> leaves_tasks_intact(#[trigger] intents[k]),
    ensures
        start.run(intents).tasks == without(start.history(intents), gone),
    decreases intents.len(),
{
    if intents.len() == 0 {
        lemma_without_untouched(start.tasks, Set::<int>::empty());
        Set::empty()
    } else {
        let earlier = intents.drop_last();
        assert forall|k: int| 0 <= k < earlier.len() implies leaves_tasks_intact(
            #[trigger] earlier[k],
        ) by {
            assert(earlier[k] == intents[k]);
        }
        let gone = lemma_run_without(start, earlier);
        let before = start.run(earlier);
        let past = start.history(earlier);
        assert(leaves_tasks_intact(intents[intents.len() - 1]));
        match intents.last() {
            IntentView::AddTask => {
                if before.new_task.len() > 0 {
                    let added = TaskView { description: before.new_task, completed: false };
                    let kept = gone.remove(past.len() as int);
                    lemma_without_agree(past, gone, kept);
                    assert(past.push(added).drop_last() == past);
                    kept
                } else {
                    gone
                }
            },
            IntentView::DeleteTask(index) => {
                if before.has_task(index) {
                    let nothing = Set::<int>::empty();
                    lemma_without_untouched(before.tasks, nothing);
                    lemma_without_one_more(before.tasks, nothing, index);
                    lemma_without_twice(past, gone, nothing.insert(index))
                } else {
                    gone
                }
            },
            IntentView::DeleteTasks(doomed) => lemma_without_twice(past, gone, doomed),
            IntentView::ClearCompleted => {
                lemma_filter_without(before.tasks, is_pending());
                lemma_without_twice(
                    past,
                    gone,
                    Set::new(|i: int| 0 <= i < before.tasks.len() && !is_pending()(before.tasks[i])),
                )
            },
            _ => gone,
        }
    }
}

/// Whatever tasks are added and removed, in whatever order, the tasks that
/// are left stand in the order in which they were added: they are the
/// history of insertions with the removed ones left out.
pub proof fn law_survivors_keep_insertion_order(start: TodoView, intents: Seq<IntentView>)
    requires
        forall|k: int| 0 <= k < intents.len() ==> leaves_tasks_intact(#[trigger] intents[k]),
    ensures
        is_subsequence(start.run(intents).tasks, start.history(intents)),
{
    let gone = lemma_run_without(start, intents);
    let origin = lemma_without_origin(start.history(intents), gone);
    assert(embeds_at(start.run(intents).tasks, start.history(intents), origin));
}

/// A request leaves the editing slot on a task or empty.
pub proof fn law_step_keeps_slot_valid(store: TodoView, intent: IntentView)
    requires
        store.wf(),
    ensures
        store.step(intent).wf(),
{
    match intent {
        IntentView::DeleteTasks(doomed) => {
            if store.selected_task.is_some() && !doomed.contains(store.selected_task.unwrap()) {
                lemma_without_survivor(store.tasks, doomed, store.selected_task.unwrap());
            }
        },
        IntentView::ClearCompleted => {
            if store.selected_task.is_some() && !store.tasks[store.selected_task.unwrap()].completed {
                store.tasks.lemma_filter_contains(is_pending(), store.selected_task.unwrap());
            }
        },
        _ => {},
    }
}

/// In every state that a series of requests leads to, the editing slot
/// stands on a task or is empty.
pub proof fn law_run_keeps_slot_valid(start: TodoView, intents: Seq<IntentView>)
    requires
        start.wf(),
    ensures
        start.run(intents).wf(),
    decreases intents.len(),
{
    if intents.len() > 0 {
        law_run_keeps_slot_valid(start, intents.drop_last());
        law_step_keeps_slot_valid(start.run(intents.drop_last()), intents.last());
    }
}

/// Removing a task that is open for editing, alone, in a batch or with the
/// completed tasks, leaves no task open for editing.
pub proof fn law_removal_closes_slot(store: TodoView, index: int, doomed: Set<int>)
    requires
        store.wf(),
    ensures
        store.is_editing(index) ==> store.delete_task(index).selected_task is None,
        store.is_editing(index) && doomed.contains(index) ==> store.delete_tasks(
            doomed,
        ).selected_task is None,
        store.is_editing(index) && store.tasks[index].completed
            ==> store.clear_completed().selected_task is None,
{
}

/// The display lists exactly the tasks that pass the search and the
/// completed-tasks filter, each once, in the order of the list.
pub proof fn law_view_lists_exactly_the_shown(store: TodoView)
    ensures
        forall|i: int|
            store.shown_positions().contains(i) <==> store.has_task(i) && store.is_shown(i),
        forall|j: int, k: int|
            0 <= j < k < store.shown_positions().len() ==> store.shown_positions()[j]
                < store.shown_positions()[k],
        forall|i: int| store.search_hits().contains(i) <==> store.has_task(i) && store.is_hit(i),
        forall|j: int, k: int|
            0 <= j < k < store.search_hits().len() ==> store.search_hits()[j]
                < store.search_hits()[k],
{
    let n = store.tasks.len() as int;
    lemma_positions_sound(n, store.shown_test());
    lemma_positions_sound(n, store.hit_test());
    assert forall|i: int| store.has_task(i) && store.is_shown(i) implies store.shown_positions().contains(
        i,
    ) by {
        lemma_positions_complete(n, store.shown_test(), i);
    }
    assert forall|i: int| store.has_task(i) && store.is_hit(i) implies store.search_hits().contains(
        i,
    ) by {
        lemma_positions_complete(n, store.hit_test(), i);
    }
}

/// A batch removal asks for a write exactly when it names a task.
pub proof fn law_batch_persists_when_it_removes(store: TodoView, doomed: Set<int>)
    ensures
        store.response(IntentView::DeleteTasks(doomed)) == Action::when(
            exists|i: int| store.has_task(i) && doomed.contains(i),
        ),
{
    lemma_without_len(store.tasks, doomed);
}

/// Two search texts with the same lowercase form find the same tasks and
/// put the same tasks on display.
pub proof fn law_search_ignores_case(store: TodoView, other: Seq<char>)
    requires
        lowercase_of(other) == lowercase_of(store.search_query),
    ensures
        store.set_search_query(other).search_hits() == store.search_hits(),
        store.set_search_query(other).shown_positions() == store.shown_positions(),
{
    let changed = store.set_search_query(other);
    let n = store.tasks.len() as int;
    lemma_positions_agree(n, changed.hit_test(), store.hit_test());
    lemma_positions_agree(n, changed.shown_test(), store.shown_test());
}

/// Each entry is a position of `len` items and greater than all that follow.
pub open spec fn descends_within(order: Seq<int>, len: int) -> bool {
    &&& forall|k: int| 0 <= k < order.len() ==> 0 <= #[trigger] order[k] < len
    &&& forall|j: int, k: int| 0 <= j < k < order.len() ==> #[trigger] order[j] > #[trigger] order[k]
}

/// The positions that `order` names, as a set.
pub open spec fn named_positions(order: Seq<int>) -> Set<int> {
    Set::new(|i: int| order.contains(i))
}

impl TodoView {
    /// The store after the tasks at the positions of `order` were removed
    /// one by one, first to last, each position meant as of the moment of
    /// its removal.
    pub open spec fn delete_each(self, order: Seq<int>) -> TodoView
        decreases order.len(),
    {
        if order.len() == 0 {
            self
        } else {
            self.delete_each(order.drop_last()).delete_task(order.last())
        }
    }
}

/// Where nothing is doomed up to `low` and `high`, behind it, is spared too,
/// more than `low + 1` items are left.
proof fn lemma_without_two_survivors<A>(s: Seq<A>, doomed: Set<int>, low: int, high: int)
    requires
        0 <= low < high < s.len(),
        forall|i: int| 0 <= i <= low ==> !doomed.contains(i),
        !doomed.contains(high),
    ensures
        without(s, doomed).len() >= low + 2,
    decreases s.len(),
{
    if high == s.len() - 1 {
        lemma_without_one_more(s.drop_last(), doomed, low);
    } else {
        lemma_without_two_survivors(s.drop_last(), doomed, low, high);
    }
}

/// Removing tasks one by one, greatest position first, gives what removing
/// them in one batch gives: no removal moves a task that is still to go.
pub proof fn law_descending_deletes_are_batch(store: TodoView, order: Seq<int>)
    requires
        store.wf(),
        descends_within(order, store.tasks.len() as int),
    ensures
        store.delete_each(order) == store.delete_tasks(named_positions(order)),
    decreases order.len(),
{
    if order.len() == 0 {
        lemma_without_untouched(store.tasks, named_positions(order));
    } else {
        let earlier = order.drop_last();
        let at = order.last();
        let gone = named_positions(earlier);
        law_descending_deletes_are_batch(store, earlier);
        assert forall|i: int| 0 <= i <= at implies !gone.contains(i) by {
            if gone.contains(i) {
                let k = choose|k: int| 0 <= k < earlier.len() && earlier[k] == i;
                assert(order[k] > order[order.len() - 1]);
            }
        }
        assert forall|i: int| named_positions(order).contains(i) <==> gone.insert(at).contains(
            i,
        ) by {
            if named_positions(order).contains(i) {
                let k = choose|k: int| 0 <= k < order.len() && order[k] == i;
                if k < earlier.len() {
                    assert(earlier[k] == i);
                }
            }
            if gone.contains(i) {
                let k = choose|k: int| 0 <= k < earlier.len() && earlier[k] == i;
                assert(order[k] == i);
            }
            if i == at {
                assert(order[order.len() - 1] == i);
            }
        }
        assert(named_positions(order) =~= gone.insert(at));
        lemma_without_one_more(store.tasks, gone, at);
        if store.selected_task.is_some() {
            let e = store.selected_task.unwrap();
            if !gone.contains(e) && e > at {
                lemma_without_two_survivors(store.tasks, gone, at, e);
            }
        }
    }
}

/// A store that was saved and read back is the store that was saved.
pub proof fn law_restore_of_snapshot(store: TodoView)
    requires
        store.wf(),
    ensures
        TodoView::restore(store.snapshot()) == store,
        TodoView::load(Some(store.snapshot())) == store,
{
}

/// Removing a batch of positions gives the same store in whatever order
/// the positions were collected, and however often one of them is named.
pub proof fn law_batch_ignores_order(store: TodoView, first: Seq<usize>, second: Seq<usize>)
    requires
        forall|x: usize| first.contains(x) <==> second.contains(x),
    ensures
        store.delete_tasks(index_set(first)) == store.delete_tasks(index_set(second)),
{
    assert forall|i: int| index_set(first).contains(i) <==> index_set(second).contains(i) by {
        if index_set(first).contains(i) {
            let k = choose|k: int| 0 <= k < first.len() && first[k] == i;
            assert(first.contains(first[k]));
            let j = choose|j: int| 0 <= j < second.len() && second[j] == first[k];
            assert(second[j] == i);
        }
        if index_set(second).contains(i) {
            let k = choose|k: int| 0 <= k < second.len() && second[k] == i;
            assert(second.contains(second[k]));
            let j = choose|j: int| 0 <= j < first.len() && first[j] == second[k];
            assert(first[j] == i);
        }
    }
    assert(index_set(first) =~= index_set(second));
}

} // verus!
