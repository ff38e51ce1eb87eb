use crate::actions::{unchanged, Outcome};
use crate::body::step_view_body;
use crate::effects::Effect;
use crate::model::{contains_u64, spec_thread_size, spec_visible, AppModel, AppModelView};
use crate::models::MessageSummaryView;
use crate::seqs::{first_match, keep, lemma_first_match, lemma_shift_kept};
use vstd::prelude::*;

verus! {

/// The test for a place in the list.
pub open spec fn is_place(i: usize) -> spec_fn(usize) -> bool {
    |x: usize| x == i
}

/// The test for the first message of a thread: it belongs to the thread and is no reply.
pub open spec fn is_thread_root(thread: u64) -> spec_fn(MessageSummaryView) -> bool {
    |m: MessageSummaryView| m.thread_id == Some(thread) && m.thread_depth == 0
}

/// The test for every thread but one.
pub open spec fn other_thread(thread: u64) -> spec_fn(u64) -> bool {
    |t: u64| t != thread
}

/// The row among the shown ones on which the selection stands.
pub open spec fn selected_row(m: AppModelView) -> Option<int> {
    match m.selected_message {
        Some(sel) => first_match(m.visible_indices, is_place(sel)),
        None => None,
    }
}

/// The selection moves to the shown row `row`, if there is such a row, and the message
/// there is opened.
pub open spec fn select_row(m: AppModelView, row: int) -> Outcome {
    if 0 <= row < m.visible_indices.len() {
        let place = m.visible_indices[row];
        step_view_body(AppModelView { selected_message: Some(place), ..m }, place)
    } else {
        unchanged(m)
    }
}

/// The selection moves one shown row down and stops at the last; without a selection
/// among the shown rows it goes to the first.
pub open spec fn step_selection_down(m: AppModelView) -> Outcome {
    if m.messages.len() == 0 {
        unchanged(m)
    } else {
        match selected_row(m) {
            Some(row) => if row + 1 <= m.visible_indices.len() - 1 {
                select_row(m, row + 1)
            } else {
                select_row(m, m.visible_indices.len() - 1)
            },
            None => select_row(m, 0),
        }
    }
}

/// The selection moves one shown row up and stops at the first.
pub open spec fn step_selection_up(m: AppModelView) -> Outcome {
    if m.messages.len() == 0 {
        unchanged(m)
    } else {
        match selected_row(m) {
            Some(row) => if row >= 1 {
                select_row(m, row - 1)
            } else {
                select_row(m, 0)
            },
            None => select_row(m, 0),
        }
    }
}

/// The selected message is opened.
pub open spec fn step_activate_selection(m: AppModelView) -> Outcome {
    match m.selected_message {
        Some(index) => step_view_body(m, index),
        None => unchanged(m),
    }
}

/// The thread of the selected message is collapsed, or opened again if it is collapsed.
/// Only threads of more than one message collapse. When a thread collapses while one of
/// its replies is selected, the selection goes to the first message of the thread.
pub open spec fn step_toggle_thread_collapse(m: AppModelView) -> Outcome {
    match m.selected_message {
        Some(index) => if index < m.messages.len() {
            let msg = m.messages[index as int];
            match msg.thread_id {
                Some(tid) => if spec_thread_size(m.messages, tid) > 1 {
                    if m.collapsed_threads.contains(tid) {
                        let collapsed = keep(m.collapsed_threads, other_thread(tid));
                        unchanged(
                            AppModelView {
                                collapsed_threads: collapsed,
                                visible_indices: spec_visible(m.messages, collapsed),
                                ..m
                            },
                        )
                    } else {
                        let collapsed = m.collapsed_threads.push(tid);
                        let root = first_match(m.messages, is_thread_root(tid));
                        unchanged(
                            AppModelView {
                                collapsed_threads: collapsed,
                                selected_message: if msg.thread_depth > 0 && root is Some {
                                    Some(root->0 as usize)
                                } else {
                                    m.selected_message
                                },
                                visible_indices: spec_visible(m.messages, collapsed),
                                ..m
                            },
                        )
                    }
                } else {
                    unchanged(m)
                },
                None => unchanged(m),
            }
        } else {
            unchanged(m)
        },
        None => unchanged(m),
    }
}

impl AppModel {
    /// The row among the shown ones on which the selection stands.
    fn shown_row_of_selection(&self) -> (r: Option<usize>)
        ensures
            match r {
                Some(row) => row < self.visible_indices.len() && selected_row(self@) == Some(
                    row as int,
                ),
                None => selected_row(self@) is None,
            },
    {
        let sel = match self.selected_message {
            Some(sel) => sel,
            None => {
                return None;
            },
        };
        let mut i: usize = 0;
        while i < self.visible_indices.len()
            invariant
                i <= self.visible_indices.len(),
                self.selected_message == Some(sel),
                forall|j: int| 0 <= j < i ==> !is_place(sel)(#[trigger] self.visible_indices@[j]),
            decreases self.visible_indices.len() - i,
        {
            if self.visible_indices[i] == sel {
                proof {
                    lemma_first_match(self.visible_indices@, is_place(sel), Some(i as int));
                }
                return Some(i);
            }
            i = i + 1;
        }
        proof {
            lemma_first_match(self.visible_indices@, is_place(sel), None);
        }
        None
    }

    /// Moves the selection to a shown row and opens the message there.
    fn go_to_row(&mut self, row: usize) -> (effects: Vec<Effect>)
        ensures
            final(self)@ == select_row(old(self)@, row as int).model,
            effects@ == select_row(old(self)@, row as int).effects,
    {
        if row < self.visible_indices.len() {
            let place = self.visible_indices[row];
            self.selected_message = Some(place);
            self.view_body(place)
        } else {
            Vec::new()
        }
    }

    /// The selection moves one shown row down.
    pub fn selection_down(&mut self) -> (effects: Vec<Effect>)
        ensures
            final(self)@ == step_selection_down(old(self)@).model,
            effects@ == step_selection_down(old(self)@).effects,
    {
        assert(self@.messages.len() == self.messages.len());
        if self.messages.len() == 0 {
            return Vec::new();
        }
        match self.shown_row_of_selection() {
            Some(row) => {
                if row + 1 <= self.visible_indices.len() - 1 {
                    self.go_to_row(row + 1)
                } else {
                    self.go_to_row(self.visible_indices.len() - 1)
                }
            },
            None => self.go_to_row(0),
        }
    }

    /// The selection moves one shown row up.
    pub fn selection_up(&mut self) -> (effects: Vec<Effect>)
        ensures
            final(self)@ == step_selection_up(old(self)@).model,
            effects@ == step_selection_up(old(self)@).effects,
    {
        assert(self@.messages.len() == self.messages.len());
        if self.messages.len() == 0 {
            return Vec::new();
        }
        match self.shown_row_of_selection() {
            Some(row) => {
                if row >= 1 {
                    self.go_to_row(row - 1)
                } else {
                    self.go_to_row(0)
                }
            },
            None => self.go_to_row(0),
        }
    }

    /// The selected message is opened.
    pub fn activate_selection(&mut self) -> (effects: Vec<Effect>)
        ensures
            final(self)@ == step_activate_selection(old(self)@).model,
            effects@ == step_activate_selection(old(self)@).effects,
    {
        match self.selected_message {
            Some(index) => self.view_body(index),
            None => Vec::new(),
        }
    }

    /// The place of the first message of a thread.
    fn thread_root(&self, thread: u64) -> (r: Option<usize>)
        ensures
            match r {
                Some(i) => first_match(self@.messages, is_thread_root(thread)) == Some(i as int),
                None => first_match(self@.messages, is_thread_root(thread)) is None,
            },
    {
        let mut i: usize = 0;
        while i < self.messages.len()
            invariant
                i <= self.messages.len(),
                forall|j: int| 0 <= j < i ==> !is_thread_root(thread)(#[trigger] self@.messages[j]),
            decreases self.messages.len() - i,
        {
            assert(self.messages@[i as int]@ == self@.messages[i as int]);
            let m = &self.messages[i];
            let same = match m.thread_id {
                Some(t) => t == thread,
                None => false,
            };
            if same && m.thread_depth == 0 {
                proof {
                    lemma_first_match(self@.messages, is_thread_root(thread), Some(i as int));
                }
                return Some(i);
            }
            i = i + 1;
        }
        proof {
            lemma_first_match(self@.messages, is_thread_root(thread), None);
        }
        None
    }

    /// Opens a collapsed thread again.
    fn expand_thread(&mut self, thread: u64)
        ensures
            final(self)@ == (AppModelView {
                collapsed_threads: keep(old(self)@.collapsed_threads, other_thread(thread)),
                ..old(self)@
            }),
    {
        let ghost orig = self.collapsed_threads@;
        let ghost q = other_thread(thread);
        let mut i: usize = 0;
        let ghost mut k: int = 0;
        proof {
            assert(orig.take(0) =~= Seq::<u64>::empty());
            assert(keep(orig.take(0), q) + orig.skip(0) =~= orig);
        }
        while i < self.collapsed_threads.len()
            invariant
                q == other_thread(thread),
                0 <= k <= orig.len(),
                i == keep(orig.take(k), q).len(),
                self.collapsed_threads@ == keep(orig.take(k), q) + orig.skip(k),
                self@ == (AppModelView { collapsed_threads: self.collapsed_threads@, ..old(self)@ }),
            decreases orig.len() - k,
        {
            assert(self.collapsed_threads@[i as int] == orig[k]);
            proof {
                assert(orig.take(k + 1).drop_last() =~= orig.take(k));
                assert(orig.take(k + 1).last() == orig[k]);
                lemma_shift_kept(keep(orig.take(k), q), orig, k);
            }
            if self.collapsed_threads[i] == thread {
                let _ = self.collapsed_threads.remove(i);
                assert(self.collapsed_threads@ =~= keep(orig.take(k + 1), q) + orig.skip(k + 1));
            } else {
                assert(self.collapsed_threads@ =~= keep(orig.take(k + 1), q) + orig.skip(k + 1));
                i = i + 1;
            }
            proof {
                k = k + 1;
            }
        }
        proof {
            assert(orig.take(k) =~= orig);
            assert(self.collapsed_threads@ =~= keep(orig, q));
        }
    }

    /// The thread of the selected message is collapsed or opened again.
    pub fn toggle_thread_collapse(&mut self) -> (effects: Vec<Effect>)
        ensures
            final(self)@ == step_toggle_thread_collapse(old(self)@).model,
            effects@ == step_toggle_thread_collapse(old(self)@).effects,
    {
        let index = match self.selected_message {
            Some(index) => index,
            None => {
                return Vec::new();
            },
        };
        if index >= self.messages.len() {
            return Vec::new();
        }
        assert(self.messages@[index as int]@ == self@.messages[index as int]);
        let depth = self.messages[index].thread_depth;
        let tid = match self.messages[index].thread_id {
            Some(tid) => tid,
            None => {
                return Vec::new();
            },
        };
        if self.thread_size(tid) <= 1 {
            return Vec::new();
        }
        if contains_u64(&self.collapsed_threads, tid) {
            self.expand_thread(tid);
        } else {
            let root = self.thread_root(tid);
            self.collapsed_threads.push(tid);
            if depth > 0 && root.is_some() {
                self.selected_message = root;
            }
        }
        self.recompute_visible();
        Vec::new()
    }
}

} // verus!
