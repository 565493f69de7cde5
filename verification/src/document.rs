//! The annotation list of an editing session and its undo/redo history.
//!
//! Every edit is recorded as the command that reverses it, and undo and
//! redo move owned objects between the list and the history entries; the
//! document never copies the whole list. The objects themselves, and the
//! geometry that computes a moved, resized or restyled object, belong to
//! the caller: a changed object enters the document by `replace`.
use vstd::prelude::*;

verus! {

/// One history entry, as the proofs see it. An entry on the undo stack
/// holds what undoing it needs, one on the redo stack what redoing needs.
pub enum EditRecord<A> {
    /// The object appended or re-inserted at `index`; `held` is the object
    /// while the addition is undone.
    Add { index: nat, held: Option<A> },
    /// The object removed from `index`; `held` is the object while the
    /// removal stands.
    Delete { index: nat, held: Option<A> },
    /// The list that a clear emptied, or that it will restore.
    Clear { held: Seq<A> },
    /// The other version of the object at `index`.
    Replace { index: nat, held: A },
}

/// The objects and both history stacks, bottom first.
pub struct DocumentState<A> {
    pub objects: Seq<A>,
    pub undo: Seq<EditRecord<A>>,
    pub redo: Seq<EditRecord<A>>,
}

/// Undoing `edit` is possible on `objects`.
pub open spec fn undo_valid<A>(edit: EditRecord<A>, objects: Seq<A>) -> bool {
    match edit {
        EditRecord::Add { index, held } => held is None && index < objects.len(),
        EditRecord::Delete { index, held } => held is Some && index <= objects.len(),
        EditRecord::Clear { .. } => true,
        EditRecord::Replace { index, .. } => index < objects.len(),
    }
}

/// The objects after undoing `edit`.
pub open spec fn undo_apply<A>(edit: EditRecord<A>, objects: Seq<A>) -> Seq<A> {
    match edit {
        EditRecord::Add { index, .. } => objects.remove(index as int),
        EditRecord::Delete { index, held } => objects.insert(index as int, held->0),
        EditRecord::Clear { held } => held,
        EditRecord::Replace { index, held } => objects.update(index as int, held),
    }
}

/// The entry that undoing `edit` on `objects` leaves for redo.
pub open spec fn undone<A>(edit: EditRecord<A>, objects: Seq<A>) -> EditRecord<A> {
    match edit {
        EditRecord::Add { index, .. } => EditRecord::Add { index, held: Some(objects[index as int]) },
        EditRecord::Delete { index, .. } => EditRecord::Delete { index, held: None },
        EditRecord::Clear { .. } => EditRecord::Clear { held: objects },
        EditRecord::Replace { index, .. } => EditRecord::Replace { index, held: objects[index as int] },
    }
}

/// Redoing `edit` is possible on `objects`.
pub open spec fn redo_valid<A>(edit: EditRecord<A>, objects: Seq<A>) -> bool {
    match edit {
        EditRecord::Add { index, held } => held is Some && index <= objects.len(),
        EditRecord::Delete { index, held } => held is None && index < objects.len(),
        EditRecord::Clear { .. } => true,
        EditRecord::Replace { index, .. } => index < objects.len(),
    }
}

/// The objects after redoing `edit`.
pub open spec fn redo_apply<A>(edit: EditRecord<A>, objects: Seq<A>) -> Seq<A> {
    match edit {
        EditRecord::Add { index, held } => objects.insert(index as int, held->0),
        EditRecord::Delete { index, .. } => objects.remove(index as int),
        EditRecord::Clear { held } => held,
        EditRecord::Replace { index, held } => objects.update(index as int, held),
    }
}

/// The entry that redoing `edit` on `objects` leaves for undo.
pub open spec fn redone<A>(edit: EditRecord<A>, objects: Seq<A>) -> EditRecord<A> {
    match edit {
        EditRecord::Add { index, .. } => EditRecord::Add { index, held: None },
        EditRecord::Delete { index, .. } => EditRecord::Delete { index, held: Some(objects[index as int]) },
        EditRecord::Clear { .. } => EditRecord::Clear { held: objects },
        EditRecord::Replace { index, .. } => EditRecord::Replace { index, held: objects[index as int] },
    }
}

/// The undo stack can be undone entry by entry, top first.
pub open spec fn replayable<A>(objects: Seq<A>, stack: Seq<EditRecord<A>>) -> bool
    decreases stack.len(),
{
    stack.len() == 0 || (undo_valid(stack.last(), objects) && replayable(
        undo_apply(stack.last(), objects),
        stack.drop_last(),
    ))
}

/// The redo stack can be redone entry by entry, top first.
pub open spec fn redoable<A>(objects: Seq<A>, stack: Seq<EditRecord<A>>) -> bool
    decreases stack.len(),
{
    stack.len() == 0 || (redo_valid(stack.last(), objects) && redoable(
        redo_apply(stack.last(), objects),
        stack.drop_last(),
    ))
}

/// A document whose history can be walked both ways.
pub open spec fn consistent<A>(state: DocumentState<A>) -> bool {
    replayable(state.objects, state.undo) && redoable(state.objects, state.redo)
}

/// The document after `undo`: the top entry is reversed and moves to the
/// redo stack; with nothing to undo the document is unchanged.
pub open spec fn undo_step<A>(state: DocumentState<A>) -> DocumentState<A> {
    if state.undo.len() == 0 {
        state
    } else {
        let edit = state.undo.last();
        DocumentState {
            objects: undo_apply(edit, state.objects),
            undo: state.undo.drop_last(),
            redo: state.redo.push(undone(edit, state.objects)),
        }
    }
}

/// The document after `redo`, the mirror of [`undo_step`].
pub open spec fn redo_step<A>(state: DocumentState<A>) -> DocumentState<A> {
    if state.redo.len() == 0 {
        state
    } else {
        let edit = state.redo.last();
        DocumentState {
            objects: redo_apply(edit, state.objects),
            undo: state.undo.push(redone(edit, state.objects)),
            redo: state.redo.drop_last(),
        }
    }
}

/// A new edit: the objects change, its reversing entry is pushed, and
/// whatever could be redone is forgotten.
pub open spec fn edited<A>(state: DocumentState<A>, objects: Seq<A>, entry: EditRecord<A>) -> DocumentState<A> {
    DocumentState { objects, undo: state.undo.push(entry), redo: Seq::empty() }
}

/// The document after appending `object`.
pub open spec fn add_step<A>(state: DocumentState<A>, object: A) -> DocumentState<A> {
    edited(
        state,
        state.objects.push(object),
        EditRecord::Add { index: state.objects.len(), held: None },
    )
}

/// The document after removing the object at `index`, where there is one.
pub open spec fn delete_step<A>(state: DocumentState<A>, index: int) -> DocumentState<A> {
    if 0 <= index < state.objects.len() {
        edited(
            state,
            state.objects.remove(index),
            EditRecord::Delete { index: index as nat, held: Some(state.objects[index]) },
        )
    } else {
        state
    }
}

/// The document after replacing the object at `index`, where there is one.
pub open spec fn replace_step<A>(state: DocumentState<A>, index: int, object: A) -> DocumentState<A> {
    if 0 <= index < state.objects.len() {
        edited(
            state,
            state.objects.update(index, object),
            EditRecord::Replace { index: index as nat, held: state.objects[index] },
        )
    } else {
        state
    }
}

/// The document after removing every object, where there is one.
pub open spec fn clear_step<A>(state: DocumentState<A>) -> DocumentState<A> {
    if state.objects.len() > 0 {
        edited(state, Seq::empty(), EditRecord::Clear { held: state.objects })
    } else {
        state
    }
}

proof fn lemma_undo_reverses<A>(edit: EditRecord<A>, objects: Seq<A>)
    requires
        undo_valid(edit, objects),
    ensures
        redo_valid(undone(edit, objects), undo_apply(edit, objects)),
        redo_apply(undone(edit, objects), undo_apply(edit, objects)) == objects,
        redone(undone(edit, objects), undo_apply(edit, objects)) == edit,
{
    match edit {
        EditRecord::Add { index, held } => {
            assert(objects.remove(index as int).insert(index as int, objects[index as int]) =~= objects);
        },
        EditRecord::Delete { index, held } => {
            assert(objects.insert(index as int, held->0).remove(index as int) =~= objects);
        },
        EditRecord::Clear { held } => {},
        EditRecord::Replace { index, held } => {
            assert(objects.update(index as int, held).update(index as int, objects[index as int]) =~= objects);
        },
    }
}

proof fn lemma_redo_reverses<A>(edit: EditRecord<A>, objects: Seq<A>)
    requires
        redo_valid(edit, objects),
    ensures
        undo_valid(redone(edit, objects), redo_apply(edit, objects)),
        undo_apply(redone(edit, objects), redo_apply(edit, objects)) == objects,
        undone(redone(edit, objects), redo_apply(edit, objects)) == edit,
{
    match edit {
        EditRecord::Add { index, held } => {
            assert(objects.insert(index as int, held->0).remove(index as int) =~= objects);
        },
        EditRecord::Delete { index, held } => {
            assert(objects.remove(index as int).insert(index as int, objects[index as int]) =~= objects);
        },
        EditRecord::Clear { held } => {},
        EditRecord::Replace { index, held } => {
            assert(objects.update(index as int, held).update(index as int, objects[index as int]) =~= objects);
        },
    }
}

/// Undoing keeps a consistent document consistent.
pub proof fn lemma_undo_keeps_consistency<A>(state: DocumentState<A>)
    requires
        consistent(state),
    ensures
        consistent(undo_step(state)),
{
    if state.undo.len() > 0 {
        let edit = state.undo.last();
        lemma_undo_reverses(edit, state.objects);
        let after = undo_step(state);
        assert(after.redo.drop_last() =~= state.redo);
    }
}

/// Redoing keeps a consistent document consistent.
pub proof fn lemma_redo_keeps_consistency<A>(state: DocumentState<A>)
    requires
        consistent(state),
    ensures
        consistent(redo_step(state)),
{
    if state.redo.len() > 0 {
        let edit = state.redo.last();
        lemma_redo_reverses(edit, state.objects);
        let after = redo_step(state);
        assert(after.undo.drop_last() =~= state.undo);
    }
}

/// Redo gives back exactly the document that undo started from: the same
/// objects and the same history.
pub proof fn lemma_redo_reverts_undo<A>(state: DocumentState<A>)
    requires
        consistent(state),
        state.undo.len() > 0,
    ensures
        redo_step(undo_step(state)) == state,
{
    let edit = state.undo.last();
    lemma_undo_reverses(edit, state.objects);
    let after = undo_step(state);
    assert(after.redo.last() == undone(edit, state.objects));
    assert(after.redo.drop_last() =~= state.redo);
    assert(after.undo.push(edit) =~= state.undo);
}

/// Undo gives back exactly the document that redo started from.
pub proof fn lemma_undo_reverts_redo<A>(state: DocumentState<A>)
    requires
        consistent(state),
        state.redo.len() > 0,
    ensures
        undo_step(redo_step(state)) == state,
{
    let edit = state.redo.last();
    lemma_redo_reverses(edit, state.objects);
    let after = redo_step(state);
    assert(after.undo.drop_last() =~= state.undo);
    assert(after.redo.push(edit) =~= state.redo);
}

/// Every edit that changes the document is undone by one `undo`, which
/// gives back the objects and the undo history from before the edit; and
/// after any edit nothing is left to redo.
pub proof fn lemma_undo_reverts_edits<A>(state: DocumentState<A>, object: A, index: int)
    requires
        consistent(state),
    ensures
        undo_step(add_step(state, object)).objects == state.objects,
        undo_step(add_step(state, object)).undo == state.undo,
        0 <= index < state.objects.len() ==> undo_step(delete_step(state, index)).objects == state.objects
            && undo_step(delete_step(state, index)).undo == state.undo,
        0 <= index < state.objects.len() ==> undo_step(replace_step(state, index, object)).objects
            == state.objects && undo_step(replace_step(state, index, object)).undo == state.undo,
        state.objects.len() > 0 ==> undo_step(clear_step(state)).objects == state.objects
            && undo_step(clear_step(state)).undo == state.undo,
        add_step(state, object).redo.len() == 0,
        0 <= index < state.objects.len() ==> delete_step(state, index).redo.len() == 0,
        0 <= index < state.objects.len() ==> replace_step(state, index, object).redo.len() == 0,
        state.objects.len() > 0 ==> clear_step(state).redo.len() == 0,
{
    assert(state.objects.push(object).remove(state.objects.len() as int) =~= state.objects);
    assert(add_step(state, object).undo.drop_last() =~= state.undo);
    if 0 <= index < state.objects.len() {
        assert(state.objects.remove(index).insert(index, state.objects[index]) =~= state.objects);
        assert(delete_step(state, index).undo.drop_last() =~= state.undo);
        assert(state.objects.update(index, object).update(index, state.objects[index]) =~= state.objects);
        assert(replace_step(state, index, object).undo.drop_last() =~= state.undo);
    }
    if state.objects.len() > 0 {
        assert(clear_step(state).undo.drop_last() =~= state.undo);
    }
}

/// Every edit keeps a consistent document consistent.
pub proof fn lemma_edits_keep_consistency<A>(state: DocumentState<A>, object: A, index: int)
    requires
        consistent(state),
    ensures
        consistent(add_step(state, object)),
        consistent(delete_step(state, index)),
        consistent(replace_step(state, index, object)),
        consistent(clear_step(state)),
{
    let pushed = state.objects.push(object);
    assert(pushed.remove(state.objects.len() as int) =~= state.objects);
    assert(add_step(state, object).undo.drop_last() =~= state.undo);
    if 0 <= index < state.objects.len() {
        assert(state.objects.remove(index).insert(index, state.objects[index]) =~= state.objects);
        assert(delete_step(state, index).undo.drop_last() =~= state.undo);
        assert(state.objects.update(index, object).update(index, state.objects[index]) =~= state.objects);
        assert(replace_step(state, index, object).undo.drop_last() =~= state.undo);
    }
    if state.objects.len() > 0 {
        assert(clear_step(state).undo.drop_last() =~= state.undo);
    }
}

/// Two entries of the same kind, for the same position and with the same
/// number of objects held: the history's shape, which decides whether it
/// can be walked.
pub open spec fn same_shape<A>(first: EditRecord<A>, second: EditRecord<A>) -> bool {
    match (first, second) {
        (EditRecord::Add { index: i, held: h }, EditRecord::Add { index: j, held: k }) => i == j && (h is Some
            <==> k is Some),
        (EditRecord::Delete { index: i, held: h }, EditRecord::Delete { index: j, held: k }) => i == j && (h is Some
            <==> k is Some),
        (EditRecord::Clear { held: h }, EditRecord::Clear { held: k }) => h.len() == k.len(),
        (EditRecord::Replace { index: i, .. }, EditRecord::Replace { index: j, .. }) => i == j,
        _ => false,
    }
}

/// Two stacks with entries of the same shape, position by position.
pub open spec fn same_shapes<A>(first: Seq<EditRecord<A>>, second: Seq<EditRecord<A>>) -> bool {
    first.len() == second.len() && forall|k: int| 0 <= k < first.len() ==> #[trigger] same_shape(first[k], second[k])
}

proof fn lemma_shape_decides_replay<A>(
    objects: Seq<A>,
    stack: Seq<EditRecord<A>>,
    other_objects: Seq<A>,
    other_stack: Seq<EditRecord<A>>,
)
    requires
        objects.len() == other_objects.len(),
        same_shapes(stack, other_stack),
        replayable(objects, stack),
    ensures
        replayable(other_objects, other_stack),
    decreases stack.len(),
{
    if stack.len() > 0 {
        assert(same_shape(stack[stack.len() - 1], other_stack[stack.len() - 1]));
        assert(same_shapes(stack.drop_last(), other_stack.drop_last())) by {
            assert forall|k: int| 0 <= k < stack.drop_last().len() implies #[trigger] same_shape(
                stack.drop_last()[k],
                other_stack.drop_last()[k],
            ) by {
                assert(same_shape(stack[k], other_stack[k]));
            }
        }
        lemma_shape_decides_replay(
            undo_apply(stack.last(), objects),
            stack.drop_last(),
            undo_apply(other_stack.last(), other_objects),
            other_stack.drop_last(),
        );
    }
}

proof fn lemma_shape_decides_redo<A>(
    objects: Seq<A>,
    stack: Seq<EditRecord<A>>,
    other_objects: Seq<A>,
    other_stack: Seq<EditRecord<A>>,
)
    requires
        objects.len() == other_objects.len(),
        same_shapes(stack, other_stack),
        redoable(objects, stack),
    ensures
        redoable(other_objects, other_stack),
    decreases stack.len(),
{
    if stack.len() > 0 {
        assert(same_shape(stack[stack.len() - 1], other_stack[stack.len() - 1]));
        assert(same_shapes(stack.drop_last(), other_stack.drop_last())) by {
            assert forall|k: int| 0 <= k < stack.drop_last().len() implies #[trigger] same_shape(
                stack.drop_last()[k],
                other_stack.drop_last()[k],
            ) by {
                assert(same_shape(stack[k], other_stack[k]));
            }
        }
        lemma_shape_decides_redo(
            redo_apply(stack.last(), objects),
            stack.drop_last(),
            redo_apply(other_stack.last(), other_objects),
            other_stack.drop_last(),
        );
    }
}

/// `after` is `before` with each object passed through `shift`.
pub open spec fn shifted_objects<A, F: Fn(&A) -> A>(shift: F, before: Seq<A>, after: Seq<A>) -> bool {
    before.len() == after.len() && forall|i: int| 0 <= i < before.len() ==> #[trigger] shift.ensures((&before[i],), after[i])
}

/// `after` is the entry `before` with each object it holds passed through
/// `shift`.
pub open spec fn shifted_record<A, F: Fn(&A) -> A>(shift: F, before: EditRecord<A>, after: EditRecord<A>) -> bool {
    &&& same_shape(before, after)
    &&& match (before, after) {
        (EditRecord::Add { held: Some(h), .. }, EditRecord::Add { held: Some(k), .. }) => shift.ensures((&h,), k),
        (EditRecord::Delete { held: Some(h), .. }, EditRecord::Delete { held: Some(k), .. }) => shift.ensures((&h,), k),
        (EditRecord::Clear { held: h }, EditRecord::Clear { held: k }) => shifted_objects(shift, h, k),
        (EditRecord::Replace { held: h, .. }, EditRecord::Replace { held: k, .. }) => shift.ensures((&h,), k),
        _ => true,
    }
}

/// `after` is the stack `before` with each entry shifted.
pub open spec fn shifted_records<A, F: Fn(&A) -> A>(
    shift: F,
    before: Seq<EditRecord<A>>,
    after: Seq<EditRecord<A>>,
) -> bool {
    before.len() == after.len() && forall|k: int| 0 <= k < before.len() ==> #[trigger] shifted_record(shift, before[k], after[k])
}

enum Edit<A> {
    Add { index: usize, held: Option<A> },
    Delete { index: usize, held: Option<A> },
    Clear(Vec<A>),
    Replace { index: usize, held: A },
}

impl<A> Edit<A> {
    spec fn record(&self) -> EditRecord<A> {
        match self {
            Edit::Add { index, held } => EditRecord::Add { index: *index as nat, held: *held },
            Edit::Delete { index, held } => EditRecord::Delete { index: *index as nat, held: *held },
            Edit::Clear(held) => EditRecord::Clear { held: held@ },
            Edit::Replace { index, held } => EditRecord::Replace { index: *index as nat, held: *held },
        }
    }
}

spec fn records<A>(edits: Seq<Edit<A>>) -> Seq<EditRecord<A>> {
    edits.map_values(|edit: Edit<A>| edit.record())
}

/// Annotations, in drawing order, with their history.
pub struct AnnotationDocument<A> {
    annotations: Vec<A>,
    undo: Vec<Edit<A>>,
    redo: Vec<Edit<A>>,
}

impl<A> AnnotationDocument<A> {
    /// The objects and the history.
    pub closed spec fn state(&self) -> DocumentState<A> {
        DocumentState { objects: self.annotations@, undo: records(self.undo@), redo: records(self.redo@) }
    }

    /// The document's history can be walked both ways.
    pub open spec fn well_formed(&self) -> bool {
        consistent(self.state())
    }

    /// An empty document with no history.
    pub fn new() -> (document: Self)
        ensures
            document.state() == (DocumentState::<A> {
                objects: Seq::empty(),
                undo: Seq::empty(),
                redo: Seq::empty(),
            }),
            document.well_formed(),
    {
        let document = AnnotationDocument { annotations: Vec::new(), undo: Vec::new(), redo: Vec::new() };
        proof {
            assert(document.state().undo =~= Seq::<EditRecord<A>>::empty());
            assert(document.state().redo =~= Seq::<EditRecord<A>>::empty());
        }
        document
    }

    /// The objects, in drawing order.
    pub fn annotations(&self) -> (annotations: &[A])
        ensures
            annotations@ == self.state().objects,
    {
        self.annotations.as_slice()
    }

    /// The object at `index`, if there is one.
    pub fn annotation(&self, index: usize) -> (annotation: Option<&A>)
        ensures
            annotation == if index < self.state().objects.len() {
                Some(&self.state().objects[index as int])
            } else {
                None
            },
    {
        if index < self.annotations.len() {
            Some(&self.annotations[index])
        } else {
            None
        }
    }

    pub fn len(&self) -> (count: usize)
        ensures
            count == self.state().objects.len(),
    {
        self.annotations.len()
    }

    pub fn is_empty(&self) -> (empty: bool)
        ensures
            empty == (self.state().objects.len() == 0),
    {
        self.annotations.len() == 0
    }

    pub fn can_undo(&self) -> (possible: bool)
        ensures
            possible == (self.state().undo.len() > 0),
    {
        self.undo.len() > 0
    }

    pub fn can_redo(&self) -> (possible: bool)
        ensures
            possible == (self.state().redo.len() > 0),
    {
        self.redo.len() > 0
    }

    proof fn lemma_records_push(edits: Seq<Edit<A>>, edit: Edit<A>)
        ensures
            records(edits.push(edit)) == records(edits).push(edit.record()),
    {
        assert(records(edits.push(edit)) =~= records(edits).push(edit.record()));
    }

    proof fn lemma_records_drop_last(edits: Seq<Edit<A>>)
        requires
            edits.len() > 0,
        ensures
            records(edits.drop_last()) == records(edits).drop_last(),
            records(edits).last() == edits.last().record(),
    {
        assert(records(edits.drop_last()) =~= records(edits).drop_last());
    }

    fn record_edit(&mut self, edit: Edit<A>)
        ensures
            final(self).annotations@ == old(self).annotations@,
            final(self).undo@ == old(self).undo@.push(edit),
            final(self).redo@.len() == 0,
    {
        self.undo.push(edit);
        self.redo.clear();
    }

    /// Appends `annotation` on top of the others.
    pub fn add(&mut self, annotation: A)
        requires
            old(self).well_formed(),
        ensures
            final(self).state() == add_step(old(self).state(), annotation),
            final(self).well_formed(),
    {
        let ghost before = self.state();
        let index = self.annotations.len();
        self.annotations.push(annotation);
        self.record_edit(Edit::Add { index, held: None });
        proof {
            Self::lemma_records_push(old(self).undo@, Edit::Add { index, held: None });
            assert(records(self.redo@) =~= Seq::<EditRecord<A>>::empty());
            assert(self.state() =~= add_step(before, annotation));
            lemma_edits_keep_consistency(before, annotation, 0);
        }
    }

    /// Removes the object at `index`; `false`, with nothing changed, where
    /// there is none.
    pub fn delete(&mut self, index: usize) -> (deleted: bool)
        requires
            old(self).well_formed(),
        ensures
            deleted == (index < old(self).state().objects.len()),
            final(self).state() == delete_step(old(self).state(), index as int),
            final(self).well_formed(),
    {
        if index >= self.annotations.len() {
            return false;
        }
        let ghost before = self.state();
        let annotation = self.annotations.remove(index);
        let edit = Edit::Delete { index, held: Some(annotation) };
        self.record_edit(edit);
        proof {
            Self::lemma_records_push(old(self).undo@, edit);
            assert(records(self.redo@) =~= Seq::<EditRecord<A>>::empty());
            assert(self.state() =~= delete_step(before, index as int));
            lemma_edits_keep_consistency(before, annotation, index as int);
        }
        true
    }

    /// Puts `annotation` in place of the object at `index` (a move, resize
    /// or restyle); `false`, with nothing changed, where there is none.
    pub fn replace(&mut self, index: usize, annotation: A) -> (replaced: bool)
        requires
            old(self).well_formed(),
        ensures
            replaced == (index < old(self).state().objects.len()),
            final(self).state() == replace_step(old(self).state(), index as int, annotation),
            final(self).well_formed(),
    {
        if index >= self.annotations.len() {
            return false;
        }
        let ghost before = self.state();
        let previous = self.annotations.remove(index);
        self.annotations.insert(index, annotation);
        let edit = Edit::Replace { index, held: previous };
        self.record_edit(edit);
        proof {
            Self::lemma_records_push(old(self).undo@, edit);
            assert(records(self.redo@) =~= Seq::<EditRecord<A>>::empty());
            assert(self.annotations@ =~= before.objects.update(index as int, annotation));
            assert(self.state() =~= replace_step(before, index as int, annotation));
            lemma_edits_keep_consistency(before, annotation, index as int);
        }
        true
    }

    /// Removes every object as one edit; `false`, with nothing changed, for
    /// an empty document.
    pub fn clear(&mut self) -> (cleared: bool)
        requires
            old(self).well_formed(),
        ensures
            cleared == (old(self).state().objects.len() > 0),
            final(self).state() == clear_step(old(self).state()),
            final(self).well_formed(),
    {
        if self.annotations.len() == 0 {
            return false;
        }
        let ghost before = self.state();
        let mut removed: Vec<A> = Vec::new();
        std::mem::swap(&mut removed, &mut self.annotations);
        let edit = Edit::Clear(removed);
        self.record_edit(edit);
        proof {
            Self::lemma_records_push(old(self).undo@, edit);
            assert(records(self.redo@) =~= Seq::<EditRecord<A>>::empty());
            assert(self.annotations@ =~= Seq::<A>::empty());
            assert(self.state() =~= clear_step(before));
            lemma_edits_keep_consistency(before, before.objects[0], 0);
        }
        true
    }

    /// Reverses the latest edit and keeps it for redo; `false`, with
    /// nothing changed, where there is nothing to undo.
    pub fn undo(&mut self) -> (reverted: bool)
        requires
            old(self).well_formed(),
        ensures
            reverted == (old(self).state().undo.len() > 0),
            final(self).state() == undo_step(old(self).state()),
            final(self).well_formed(),
    {
        let ghost before = self.state();
        let edit = match self.undo.pop() {
            Some(edit) => edit,
            None => return false,
        };
        proof {
            Self::lemma_records_drop_last(old(self).undo@);
            assert(self.undo@ =~= old(self).undo@.drop_last());
        }
        let reversed = match edit {
            Edit::Add { index, held: _ } => {
                let annotation = self.annotations.remove(index);
                Edit::Add { index, held: Some(annotation) }
            },
            Edit::Delete { index, held } => match held {
                Some(annotation) => {
                    self.annotations.insert(index, annotation);
                    Edit::Delete { index, held: None }
                },
                None => Edit::Delete { index, held: None },
            },
            Edit::Clear(mut held) => {
                std::mem::swap(&mut held, &mut self.annotations);
                Edit::Clear(held)
            },
            Edit::Replace { index, held } => {
                let current = self.annotations.remove(index);
                self.annotations.insert(index, held);
                Edit::Replace { index, held: current }
            },
        };
        proof {
            assert(self.annotations@ =~= undo_apply(edit.record(), before.objects));
            assert(reversed.record() == undone(edit.record(), before.objects));
        }
        self.redo.push(reversed);
        proof {
            Self::lemma_records_push(old(self).redo@, reversed);
            assert(self.state() =~= undo_step(before));
            lemma_undo_keeps_consistency(before);
        }
        true
    }

    /// Applies the latest undone edit again; `false`, with nothing
    /// changed, where there is nothing to redo.
    pub fn redo(&mut self) -> (reapplied: bool)
        requires
            old(self).well_formed(),
        ensures
            reapplied == (old(self).state().redo.len() > 0),
            final(self).state() == redo_step(old(self).state()),
            final(self).well_formed(),
    {
        let ghost before = self.state();
        let edit = match self.redo.pop() {
            Some(edit) => edit,
            None => return false,
        };
        proof {
            Self::lemma_records_drop_last(old(self).redo@);
            assert(self.redo@ =~= old(self).redo@.drop_last());
        }
        let reversed = match edit {
            Edit::Add { index, held } => match held {
                Some(annotation) => {
                    self.annotations.insert(index, annotation);
                    Edit::Add { index, held: None }
                },
                None => Edit::Add { index, held: None },
            },
            Edit::Delete { index, held: _ } => {
                let annotation = self.annotations.remove(index);
                Edit::Delete { index, held: Some(annotation) }
            },
            Edit::Clear(mut held) => {
                std::mem::swap(&mut held, &mut self.annotations);
                Edit::Clear(held)
            },
            Edit::Replace { index, held } => {
                let current = self.annotations.remove(index);
                self.annotations.insert(index, held);
                Edit::Replace { index, held: current }
            },
        };
        proof {
            assert(self.annotations@ =~= redo_apply(edit.record(), before.objects));
            assert(reversed.record() == redone(edit.record(), before.objects));
        }
        self.undo.push(reversed);
        proof {
            Self::lemma_records_push(old(self).undo@, reversed);
            assert(self.state() =~= redo_step(before));
            lemma_redo_keeps_consistency(before);
        }
        true
    }

    fn shifted_all<F: Fn(&A) -> A>(objects: &Vec<A>, shift: &F) -> (shifted: Vec<A>)
        requires
            forall|object: &A| shift.requires((object,)),
        ensures
            shifted_objects(*shift, objects@, shifted@),
    {
        let mut shifted: Vec<A> = Vec::new();
        let mut index: usize = 0;
        while index < objects.len()
            invariant
                forall|object: &A| shift.requires((object,)),
                index <= objects@.len(),
                shifted@.len() == index,
                forall|i: int| 0 <= i < index ==> #[trigger] shift.ensures((&objects@[i],), shifted@[i]),
            decreases objects@.len() - index,
        {
            let moved = shift(&objects[index]);
            shifted.push(moved);
            index += 1;
        }
        shifted
    }

    fn shifted_held<F: Fn(&A) -> A>(held: &Option<A>, shift: &F) -> (shifted: Option<A>)
        requires
            forall|object: &A| shift.requires((object,)),
        ensures
            shifted is Some <==> held is Some,
            held is Some ==> shift.ensures((&held->0,), shifted->0),
    {
        match held {
            Some(object) => Some(shift(object)),
            None => None,
        }
    }

    fn shifted_edits<F: Fn(&A) -> A>(edits: &Vec<Edit<A>>, shift: &F) -> (shifted: Vec<Edit<A>>)
        requires
            forall|object: &A| shift.requires((object,)),
        ensures
            shifted_records(*shift, records(edits@), records(shifted@)),
    {
        let mut shifted: Vec<Edit<A>> = Vec::new();
        let mut index: usize = 0;
        while index < edits.len()
            invariant
                forall|object: &A| shift.requires((object,)),
                index <= edits@.len(),
                shifted@.len() == index,
                forall|k: int| 0 <= k < index ==> #[trigger] shifted_record(*shift, edits@[k].record(), shifted@[k].record()),
            decreases edits@.len() - index,
        {
            let edit = match &edits[index] {
                Edit::Add { index: position, held } => Edit::Add { index: *position, held: Self::shifted_held(held, shift) },
                Edit::Delete { index: position, held } => Edit::Delete {
                    index: *position,
                    held: Self::shifted_held(held, shift),
                },
                Edit::Clear(held) => Edit::Clear(Self::shifted_all(held, shift)),
                Edit::Replace { index: position, held } => Edit::Replace { index: *position, held: shift(held) },
            };
            shifted.push(edit);
            index += 1;
        }
        proof {
            assert forall|k: int| 0 <= k < records(edits@).len() implies #[trigger] shifted_record(
                *shift,
                records(edits@)[k],
                records(shifted@)[k],
            ) by {
                assert(shifted_record(*shift, edits@[k].record(), shifted@[k].record()));
            }
        }
        shifted
    }

    /// Passes every object, those the history holds too, through `shift`,
    /// as a crop does when it moves the objects' origin. The history keeps
    /// its entries, and this is no edit of its own.
    pub fn rebase<F: Fn(&A) -> A>(&mut self, shift: F)
        requires
            old(self).well_formed(),
            forall|object: &A| shift.requires((object,)),
        ensures
            final(self).well_formed(),
            shifted_objects(shift, old(self).state().objects, final(self).state().objects),
            shifted_records(shift, old(self).state().undo, final(self).state().undo),
            shifted_records(shift, old(self).state().redo, final(self).state().redo),
    {
        let ghost before = self.state();
        let annotations = Self::shifted_all(&self.annotations, &shift);
        let undo = Self::shifted_edits(&self.undo, &shift);
        let redo = Self::shifted_edits(&self.redo, &shift);
        self.annotations = annotations;
        self.undo = undo;
        self.redo = redo;
        proof {
            assert(same_shapes(before.undo, self.state().undo)) by {
                assert forall|k: int| 0 <= k < before.undo.len() implies #[trigger] same_shape(
                    before.undo[k],
                    self.state().undo[k],
                ) by {
                    assert(shifted_record(shift, before.undo[k], self.state().undo[k]));
                }
            }
            assert(same_shapes(before.redo, self.state().redo)) by {
                assert forall|k: int| 0 <= k < before.redo.len() implies #[trigger] same_shape(
                    before.redo[k],
                    self.state().redo[k],
                ) by {
                    assert(shifted_record(shift, before.redo[k], self.state().redo[k]));
                }
            }
            lemma_shape_decides_replay(before.objects, before.undo, self.state().objects, self.state().undo);
            lemma_shape_decides_redo(before.objects, before.redo, self.state().objects, self.state().redo);
        }
    }
}

} // verus!
