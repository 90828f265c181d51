//! Undo/redo history: before each edit the whole project is kept, so undo
//! restores the previous value and redo re-applies from the redo stack.

use vstd::prelude::*;
use crate::project::Project;

verus! {

/// An undo/redo entry: a project state and the label of the edit.
pub type HistoryEntry = (String, Project);

/// The abstract state of an [`EditHistory`]: both stacks (most recent last)
/// with labels as character sequences, and the retention limit.
pub struct HistoryModel {
    pub undo: Seq<(Seq<char>, Project)>,
    pub redo: Seq<(Seq<char>, Project)>,
    pub limit: nat,
}

/// `record`: the redo stack is cleared, the entry pushed, and the oldest
/// entries dropped while more than `limit` remain.
pub open spec fn spec_record(m: HistoryModel, label: Seq<char>, pre_edit: Project) -> HistoryModel {
    let pushed = m.undo.push((label, pre_edit));
    let excess = if pushed.len() > m.limit { pushed.len() - m.limit } else { 0 };
    HistoryModel { undo: pushed.skip(excess), redo: Seq::empty(), limit: m.limit }
}

/// `undo`: the most recent undo entry is popped and `current` is banked for
/// redo under the same label; the popped state is returned.
pub open spec fn spec_undo(m: HistoryModel, current: Project) -> (HistoryModel, Option<Project>) {
    if m.undo.len() == 0 {
        (m, None)
    } else {
        let (label, previous) = m.undo.last();
        (HistoryModel { undo: m.undo.drop_last(), redo: m.redo.push((label, current)), limit: m.limit }, Some(previous))
    }
}

/// `redo`: the mirror image of `undo`.
pub open spec fn spec_redo(m: HistoryModel, current: Project) -> (HistoryModel, Option<Project>) {
    if m.redo.len() == 0 {
        (m, None)
    } else {
        let (label, next) = m.redo.last();
        (HistoryModel { undo: m.undo.push((label, current)), redo: m.redo.drop_last(), limit: m.limit }, Some(next))
    }
}

/// Labels of a stack, most recent first.
pub open spec fn labels_recent_first(s: Seq<(Seq<char>, Project)>) -> Seq<Seq<char>> {
    Seq::new(s.len(), |i: int| s[s.len() - 1 - i].0)
}

/// Undo/redo manager that keeps the whole project before each edit.
pub struct EditHistory {
    undo_stack: Vec<HistoryEntry>,
    redo_stack: Vec<HistoryEntry>,
    limit: usize,
}

impl View for EditHistory {
    type V = HistoryModel;

    closed spec fn view(&self) -> HistoryModel {
        HistoryModel {
            undo: self.undo_stack@.map_values(|e: HistoryEntry| (e.0@, e.1)),
            redo: self.redo_stack@.map_values(|e: HistoryEntry| (e.0@, e.1)),
            limit: self.limit as nat,
        }
    }
}

/// The history keeps at least one entry, and the two stacks together never
/// hold more than the limit.
pub open spec fn model_wf(m: HistoryModel) -> bool {
    m.limit >= 1 && m.undo.len() + m.redo.len() <= m.limit
}

impl EditHistory {
    pub open spec fn wf(&self) -> bool {
        model_wf(self@)
    }

    /// A history that retains at most `limit` edits (at least one).
    pub fn new(limit: usize) -> (h: Self)
        ensures
            h@.undo.len() == 0,
            h@.redo.len() == 0,
            h@.limit == (if limit >= 1 { limit as nat } else { 1 }),
            h.wf(),
    {
        let h = EditHistory {
            undo_stack: Vec::new(),
            redo_stack: Vec::new(),
            limit: if limit >= 1 { limit } else { 1 },
        };
        assert(h@.undo =~= Seq::<(Seq<char>, Project)>::empty());
        assert(h@.redo =~= Seq::<(Seq<char>, Project)>::empty());
        h
    }

    /// Record `pre_edit` as the state to restore on undo, labelled "Edit".
    pub fn record(&mut self, pre_edit: Project)
        ensures
            final(self)@ == spec_record(old(self)@, "Edit"@, pre_edit),
            old(self).wf() ==> final(self).wf(),
    {
        self.record_labeled("Edit", pre_edit);
    }

    /// Record `pre_edit` with a label; clears the redo stack.
    pub fn record_labeled(&mut self, label: &str, pre_edit: Project)
        ensures
            final(self)@ == spec_record(old(self)@, label@, pre_edit),
            old(self).wf() ==> final(self).wf(),
    {
        let ghost m = self@;
        self.redo_stack.clear();
        self.undo_stack.push((label.to_owned(), pre_edit));
        let ghost pushed = m.undo.push((label@, pre_edit));
        assert(self.undo_stack@.map_values(|e: HistoryEntry| (e.0@, e.1)) =~= pushed);
        let ghost excess: int = if pushed.len() > m.limit { pushed.len() - m.limit } else { 0 };
        while self.undo_stack.len() > self.limit
            invariant
                self.limit == m.limit,
                self.redo_stack@.len() == 0,
                0 <= excess <= pushed.len(),
                excess == (if pushed.len() > m.limit { pushed.len() - m.limit } else { 0int }),
                self.undo_stack@.len() >= pushed.len() - excess,
                self.undo_stack@.map_values(|e: HistoryEntry| (e.0@, e.1)) =~= pushed.skip(
                    pushed.len() - self.undo_stack@.len(),
                ),
                self.undo_stack@.len() <= pushed.len(),
            decreases self.undo_stack@.len(),
        {
            let ghost before = self.undo_stack@;
            let ghost bm = before.map_values(|e: HistoryEntry| (e.0@, e.1));
            self.undo_stack.remove(0);
            let ghost am = self.undo_stack@.map_values(|e: HistoryEntry| (e.0@, e.1));
            assert forall|j: int| 0 <= j < am.len() implies am[j] == bm[j + 1] by {
                assert(self.undo_stack@[j] == before[j + 1]);
            }
            assert(self.undo_stack@.map_values(|e: HistoryEntry| (e.0@, e.1)) =~= pushed.skip(
                pushed.len() - self.undo_stack@.len(),
            ));
        }
        assert(self@.redo =~= Seq::<(Seq<char>, Project)>::empty());
    }

    pub fn can_undo(&self) -> (b: bool)
        ensures
            b == (self@.undo.len() > 0),
    {
        self.undo_stack.len() > 0
    }

    pub fn can_redo(&self) -> (b: bool)
        ensures
            b == (self@.redo.len() > 0),
    {
        self.redo_stack.len() > 0
    }

    /// Undo: pop the most recent pre-edit state, banking `current` for redo.
    pub fn undo(&mut self, current: Project) -> (r: Option<Project>)
        ensures
            (final(self)@, r) == spec_undo(old(self)@, current),
            old(self).wf() ==> final(self).wf(),
    {
        match self.undo_stack.pop() {
            Some(entry) => {
                let (label, previous) = entry;
                self.redo_stack.push((label, current));
                assert(self@.undo =~= old(self)@.undo.drop_last());
                assert(self@.redo =~= old(self)@.redo.push((label@, current)));
                Some(previous)
            },
            None => None,
        }
    }

    /// Redo: pop the most recent redo state, banking `current` for undo.
    pub fn redo(&mut self, current: Project) -> (r: Option<Project>)
        ensures
            (final(self)@, r) == spec_redo(old(self)@, current),
            old(self).wf() ==> final(self).wf(),
    {
        match self.redo_stack.pop() {
            Some(entry) => {
                let (label, next) = entry;
                self.undo_stack.push((label, current));
                assert(self@.redo =~= old(self)@.redo.drop_last());
                assert(self@.undo =~= old(self)@.undo.push((label@, current)));
                Some(next)
            },
            None => None,
        }
    }

    /// Undo in place: the most recent pre-edit state replaces `project`,
    /// and the replaced state is banked for redo.  Returns whether there was
    /// anything to undo.
    pub fn undo_into(&mut self, project: &mut Project) -> (b: bool)
        ensures
            b == (old(self)@.undo.len() > 0),
            b ==> (final(self)@, Some(*final(project))) == spec_undo(old(self)@, *old(project)),
            !b ==> final(self)@ == old(self)@ && *final(project) == *old(project),
            old(self).wf() ==> final(self).wf(),
    {
        match self.undo_stack.pop() {
            Some(entry) => {
                let (label, mut previous) = entry;
                std::mem::swap(project, &mut previous);
                self.redo_stack.push((label, previous));
                assert(self@.undo =~= old(self)@.undo.drop_last());
                assert(self@.redo =~= old(self)@.redo.push((label@, *old(project))));
                true
            },
            None => false,
        }
    }

    /// Redo in place: the mirror image of [`EditHistory::undo_into`].
    pub fn redo_into(&mut self, project: &mut Project) -> (b: bool)
        ensures
            b == (old(self)@.redo.len() > 0),
            b ==> (final(self)@, Some(*final(project))) == spec_redo(old(self)@, *old(project)),
            !b ==> final(self)@ == old(self)@ && *final(project) == *old(project),
            old(self).wf() ==> final(self).wf(),
    {
        match self.redo_stack.pop() {
            Some(entry) => {
                let (label, mut next) = entry;
                std::mem::swap(project, &mut next);
                self.undo_stack.push((label, next));
                assert(self@.redo =~= old(self)@.redo.drop_last());
                assert(self@.undo =~= old(self)@.undo.push((label@, *old(project))));
                true
            },
            None => false,
        }
    }

    pub fn undo_depth(&self) -> (n: usize)
        ensures
            n == self@.undo.len(),
    {
        self.undo_stack.len()
    }

    pub fn redo_depth(&self) -> (n: usize)
        ensures
            n == self@.redo.len(),
    {
        self.redo_stack.len()
    }

    /// Label of the next undo.
    pub fn undo_label(&self) -> (r: Option<&str>)
        ensures
            r matches Some(s) ==> self@.undo.len() > 0 && s@ == self@.undo.last().0,
            r is None <==> self@.undo.len() == 0,
    {
        let n = self.undo_stack.len();
        if n == 0 {
            None
        } else {
            Some(self.undo_stack[n - 1].0.as_str())
        }
    }

    /// Label of the next redo.
    pub fn redo_label(&self) -> (r: Option<&str>)
        ensures
            r matches Some(s) ==> self@.redo.len() > 0 && s@ == self@.redo.last().0,
            r is None <==> self@.redo.len() == 0,
    {
        let n = self.redo_stack.len();
        if n == 0 {
            None
        } else {
            Some(self.redo_stack[n - 1].0.as_str())
        }
    }

    /// Undo labels, most recent first.
    pub fn undo_labels(&self) -> (r: Vec<String>)
        ensures
            r@.map_values(|s: String| s@) == labels_recent_first(self@.undo),
    {
        labels_of(&self.undo_stack)
    }

    /// Redo labels, most recent first.
    pub fn redo_labels(&self) -> (r: Vec<String>)
        ensures
            r@.map_values(|s: String| s@) == labels_recent_first(self@.redo),
    {
        labels_of(&self.redo_stack)
    }
}

fn labels_of(stack: &Vec<HistoryEntry>) -> (r: Vec<String>)
    ensures
        r@.map_values(|s: String| s@) == labels_recent_first(
            stack@.map_values(|e: HistoryEntry| (e.0@, e.1)),
        ),
{
    let ghost m = stack@.map_values(|e: HistoryEntry| (e.0@, e.1));
    let mut r: Vec<String> = Vec::new();
    let mut i: usize = stack.len();
    while i > 0
        invariant
            0 <= i <= stack@.len(),
            m == stack@.map_values(|e: HistoryEntry| (e.0@, e.1)),
            r@.len() == stack@.len() - i,
            forall|j: int| 0 <= j < r@.len() ==> r@[j]@ == m[m.len() - 1 - j].0,
        decreases i,
    {
        i = i - 1;
        r.push(stack[i].0.clone());
    }
    assert(r@.map_values(|s: String| s@) =~= labels_recent_first(m));
    r
}

/// Undo right after recording gives back the recorded state.
pub proof fn lemma_undo_after_record(m: HistoryModel, label: Seq<char>, pre_edit: Project, current: Project)
    requires
        m.limit >= 1,
    ensures
        spec_undo(spec_record(m, label, pre_edit), current).1 == Some(pre_edit),
{
    let r = spec_record(m, label, pre_edit);
    let pushed = m.undo.push((label, pre_edit));
    let excess = if pushed.len() > m.limit { pushed.len() - m.limit } else { 0 };
    assert(r.undo.len() > 0);
    assert(r.undo.last() == pushed.last());
}

/// Redo right after an undo gives back the state that was current at the
/// undo, and leaves the history as it was before the undo.
pub proof fn lemma_redo_after_undo(m: HistoryModel, current: Project, restored: Project)
    requires
        m.undo.len() > 0,
    ensures
        spec_redo(spec_undo(m, current).0, restored).1 == Some(current),
        spec_redo(spec_undo(m, current).0, restored).0.redo == m.redo,
        spec_redo(spec_undo(m, current).0, restored).0.undo == m.undo.drop_last().push(
            (m.undo.last().0, restored),
        ),
{
    let u = spec_undo(m, current).0;
    assert(u.redo.drop_last() =~= m.redo);
}

/// Undo right after a redo gives back the state that was current at the redo.
pub proof fn lemma_undo_after_redo(m: HistoryModel, current: Project, restored: Project)
    requires
        m.redo.len() > 0,
    ensures
        spec_undo(spec_redo(m, current).0, restored).1 == Some(current),
        spec_undo(spec_redo(m, current).0, restored).0.undo == m.undo,
{
    let u = spec_redo(m, current).0;
    assert(u.undo.drop_last() =~= m.undo);
}

/// A new edit makes redo impossible.
pub proof fn lemma_record_clears_redo(m: HistoryModel, label: Seq<char>, pre_edit: Project)
    ensures
        spec_record(m, label, pre_edit).redo.len() == 0,
        spec_redo(spec_record(m, label, pre_edit), pre_edit).1 is None,
{
}

/// Recording never keeps more entries than the limit, and the most recent
/// entry is the one just recorded.
pub proof fn lemma_record_bounded(m: HistoryModel, label: Seq<char>, pre_edit: Project)
    requires
        m.limit >= 1,
    ensures
        spec_record(m, label, pre_edit).undo.len() <= m.limit,
        spec_record(m, label, pre_edit).undo.last() == (label, pre_edit),
{
}

/// Undo and redo keep the history well formed.
pub proof fn lemma_moves_keep_wf(m: HistoryModel, current: Project)
    requires
        model_wf(m),
    ensures
        model_wf(spec_undo(m, current).0),
        model_wf(spec_redo(m, current).0),
{
}

} // verus!
