//! Transient Quick Markup model.
//!
//! Shapes live in decoded-image pixel coordinates. Nothing here persists
//! annotations or draws them.
use vstd::prelude::*;

use crate::number::Real;

verus! {

pub const MAX_SHAPES: usize = 128;

pub const MAX_UNDO_OPERATIONS: usize = 256;

pub const MAX_RETAINED_SHAPES: usize = 256;

#[derive(Debug, Clone, Copy, PartialEq, Eq, Structural)]
pub enum Tool {
    Box,
    Arrow,
}

#[derive(Debug, Clone, Copy, PartialEq, Eq, Structural)]
pub struct Point {
    pub x: Real,
    pub y: Real,
}

impl Point {
    pub fn new(x: Real, y: Real) -> (result: Self)
        ensures
            result.x == x,
            result.y == y,
    {
        Point { x, y }
    }
}

#[derive(Debug, Clone, Copy, PartialEq, Eq, Structural)]
pub struct Shape {
    pub tool: Tool,
    pub start: Point,
    pub end: Point,
}

#[derive(Debug, Clone, Copy, PartialEq, Eq, Structural)]
pub struct Status {
    pub tool: Tool,
    pub shape_count: usize,
    pub can_undo: bool,
}

#[derive(Debug, Clone, Copy, PartialEq, Eq, Structural)]
pub enum CommitResult {
    Added,
    TooSmall,
}

enum UndoEdit {
    RemoveLast,
    Restore(Vec<Shape>),
}

/// What undoing one step does.
#[verifier::ext_equal]
pub enum Edit {
    RemoveLast,
    Restore(Seq<Shape>),
}

impl View for UndoEdit {
    type V = Edit;

    closed spec fn view(&self) -> Edit {
        match self {
            UndoEdit::RemoveLast => Edit::RemoveLast,
            UndoEdit::Restore(shapes) => Edit::Restore(shapes@),
        }
    }
}

spec fn edits(list: Seq<UndoEdit>) -> Seq<Edit> {
    Seq::new(list.len(), |i: int| list[i]@)
}

/// One markup of one image.
pub struct Session {
    tool: Tool,
    shapes: Vec<Shape>,
    draft: Option<Shape>,
    undo: Vec<UndoEdit>,
}

/// The markup as a value.
#[verifier::ext_equal]
pub struct Sketch {
    pub tool: Tool,
    pub shapes: Seq<Shape>,
    pub draft: Option<Shape>,
    pub undo: Seq<Edit>,
}

impl View for Session {
    type V = Sketch;

    closed spec fn view(&self) -> Sketch {
        Sketch {
            tool: self.tool,
            shapes: self.shapes@,
            draft: self.draft,
            undo: edits(self.undo@),
        }
    }
}

/// How many shapes a step holds on to.
pub open spec fn held(edit: Edit) -> nat {
    match edit {
        Edit::RemoveLast => 0,
        Edit::Restore(shapes) => shapes.len(),
    }
}

/// How many shapes the history holds on to.
pub open spec fn retained(undo: Seq<Edit>) -> nat
    decreases undo.len(),
{
    if undo.len() == 0 {
        0
    } else {
        retained(undo.drop_last()) + held(undo.last())
    }
}

pub open spec fn over_limit(undo: Seq<Edit>, shapes: nat) -> bool {
    undo.len() > MAX_UNDO_OPERATIONS || shapes + retained(undo) > MAX_RETAINED_SHAPES
}

/// The history with its oldest steps forgotten until it fits.
pub open spec fn pruned(undo: Seq<Edit>, shapes: nat) -> Seq<Edit>
    decreases undo.len(),
{
    if undo.len() > 0 && over_limit(undo, shapes) {
        pruned(undo.skip(1), shapes)
    } else {
        undo
    }
}

impl Sketch {
    pub open spec fn fresh() -> Sketch {
        Sketch { tool: Tool::Box, shapes: Seq::empty(), draft: None, undo: Seq::empty() }
    }

    /// Shapes and history are bounded, and a draft always has room.
    pub open spec fn wf(self) -> bool {
        &&& self.shapes.len() <= MAX_SHAPES
        &&& self.draft is Some ==> self.shapes.len() < MAX_SHAPES
        &&& !over_limit(self.undo, self.shapes.len())
        &&& forall|i: int| 0 <= i < self.undo.len() ==> held(#[trigger] self.undo[i]) <= MAX_SHAPES
    }

    pub open spec fn committed(self) -> Sketch {
        let shapes = self.shapes.push(self.draft->0);
        Sketch {
            shapes,
            draft: None,
            undo: pruned(self.undo.push(Edit::RemoveLast), shapes.len()),
            ..self
        }
    }

    pub open spec fn undone(self) -> Sketch {
        if self.draft is Some {
            Sketch { draft: None, ..self }
        } else if self.undo.len() == 0 {
            self
        } else {
            Sketch {
                shapes: match self.undo.last() {
                    Edit::RemoveLast => if self.shapes.len() > 0 {
                        self.shapes.drop_last()
                    } else {
                        self.shapes
                    },
                    Edit::Restore(shapes) => shapes,
                },
                undo: self.undo.drop_last(),
                ..self
            }
        }
    }

    pub open spec fn can_undo(self) -> bool {
        self.draft is Some || self.undo.len() > 0
    }

    pub open spec fn cleared(self) -> Sketch {
        Sketch {
            shapes: Seq::empty(),
            draft: None,
            undo: if self.shapes.len() > 0 {
                pruned(self.undo.push(Edit::Restore(self.shapes)), 0)
            } else {
                self.undo
            },
            ..self
        }
    }
}

proof fn retained_split(undo: Seq<Edit>)
    requires
        undo.len() > 0,
    ensures
        retained(undo) == held(undo[0]) + retained(undo.skip(1)),
    decreases undo.len(),
{
    if undo.len() == 1 {
        assert(undo.drop_last() =~= Seq::<Edit>::empty());
        assert(undo.skip(1) =~= Seq::<Edit>::empty());
        reveal_with_fuel(retained, 2);
    } else {
        retained_split(undo.drop_last());
        assert(undo.drop_last().skip(1) =~= undo.skip(1).drop_last());
        assert(undo.skip(1).last() == undo.last());
    }
}

/// Forgetting old steps leaves a history that fits and keeps the newest step,
/// as long as that step fits by itself.
proof fn pruning_keeps_the_newest(undo: Seq<Edit>, shapes: nat)
    requires
        undo.len() > 0,
        shapes + held(undo.last()) <= MAX_RETAINED_SHAPES,
        forall|i: int| 0 <= i < undo.len() ==> held(#[trigger] undo[i]) <= MAX_SHAPES,
    ensures
        pruned(undo, shapes).len() > 0,
        pruned(undo, shapes).last() == undo.last(),
        !over_limit(pruned(undo, shapes), shapes),
        forall|i: int|
            0 <= i < pruned(undo, shapes).len() ==> held(#[trigger] pruned(undo, shapes)[i])
                <= MAX_SHAPES,
    decreases undo.len(),
{
    if over_limit(undo, shapes) {
        if undo.len() == 1 {
            assert(undo.drop_last() =~= Seq::<Edit>::empty());
            reveal_with_fuel(retained, 2);
        } else {
            let rest = undo.skip(1);
            assert(rest.last() == undo.last());
            assert forall|i: int| 0 <= i < rest.len() implies held(#[trigger] rest[i])
                <= MAX_SHAPES by {
                assert(rest[i] == undo[i + 1]);
            }
            pruning_keeps_the_newest(rest, shapes);
        }
    }
}

/// Committing a draft keeps the bounds, and undoing it takes exactly it away.
pub proof fn undo_takes_back_a_commit(sketch: Sketch)
    requires
        sketch.wf(),
        sketch.draft is Some,
    ensures
        sketch.committed().wf(),
        sketch.committed().can_undo(),
        sketch.committed().undone().shapes == sketch.shapes,
{
    let undo = sketch.undo.push(Edit::RemoveLast);
    let shapes = sketch.shapes.push(sketch.draft->0);
    assert forall|i: int| 0 <= i < undo.len() implies held(#[trigger] undo[i]) <= MAX_SHAPES by {
        if i < sketch.undo.len() {
            assert(undo[i] == sketch.undo[i]);
        }
    }
    pruning_keeps_the_newest(undo, shapes.len());
    assert(shapes.drop_last() =~= sketch.shapes);
}

/// Clearing keeps the bounds, and undoing it brings every shape back.
pub proof fn undo_takes_back_a_clear(sketch: Sketch)
    requires
        sketch.wf(),
    ensures
        sketch.cleared().wf(),
        sketch.shapes.len() > 0 ==> sketch.cleared().can_undo() && sketch.cleared().undone().shapes
            == sketch.shapes,
        sketch.cleared().cleared() == sketch.cleared(),
{
    if sketch.shapes.len() > 0 {
        let undo = sketch.undo.push(Edit::Restore(sketch.shapes));
        assert forall|i: int| 0 <= i < undo.len() implies held(#[trigger] undo[i])
            <= MAX_SHAPES by {
            if i < sketch.undo.len() {
                assert(undo[i] == sketch.undo[i]);
            }
        }
        pruning_keeps_the_newest(undo, 0);
    }
}

/// Undoing keeps the bounds.
pub proof fn undo_keeps_the_bounds(sketch: Sketch)
    requires
        sketch.wf(),
    ensures
        sketch.undone().wf(),
        sketch.draft is Some ==> sketch.undone().shapes == sketch.shapes,
{
    if sketch.draft is None && sketch.undo.len() > 0 {
        let rest = sketch.undo.drop_last();
        let last = sketch.undo.last();
        assert(last == sketch.undo[sketch.undo.len() - 1]);
        assert(held(last) <= MAX_SHAPES);
        assert forall|i: int| 0 <= i < rest.len() implies held(#[trigger] rest[i])
            <= MAX_SHAPES by {
            assert(rest[i] == sketch.undo[i]);
        }
    }
}

impl Session {
    pub fn new() -> (result: Self)
        ensures
            result@ == Sketch::fresh(),
            result@.wf(),
    {
        let result = Session {
            tool: Tool::Box,
            shapes: Vec::new(),
            draft: None,
            undo: Vec::new(),
        };
        assert(result@.undo =~= Seq::<Edit>::empty());
        result
    }

    pub fn status(&self) -> (result: Status)
        ensures
            result.tool == self@.tool,
            result.shape_count == self@.shapes.len(),
            result.can_undo == self@.can_undo(),
    {
        Status {
            tool: self.tool,
            shape_count: self.shapes.len(),
            can_undo: self.draft.is_some() || self.undo.len() > 0,
        }
    }

    /// Changes the tool; a draft is dropped.
    pub fn set_tool(&mut self, tool: Tool)
        requires
            old(self)@.wf(),
        ensures
            final(self)@ == (Sketch { tool, draft: None, ..old(self)@ }),
            final(self)@.wf(),
    {
        self.tool = tool;
        self.draft = None;
    }

    /// Begins a shape, unless there are too many.
    pub fn begin(&mut self, point: Point) -> (result: bool)
        requires
            old(self)@.wf(),
        ensures
            result == (old(self)@.shapes.len() < MAX_SHAPES),
            final(self)@ == (if result {
                Sketch {
                    draft: Some(Shape { tool: old(self)@.tool, start: point, end: point }),
                    ..old(self)@
                }
            } else {
                old(self)@
            }),
            final(self)@.wf(),
    {
        if self.shapes.len() >= MAX_SHAPES {
            return false;
        }
        self.draft = Some(Shape { tool: self.tool, start: point, end: point });
        true
    }

    /// Moves the end of the draft.
    pub fn update(&mut self, point: Point)
        requires
            old(self)@.wf(),
        ensures
            final(self)@ == (Sketch {
                draft: match old(self)@.draft {
                    Some(shape) => Some(Shape { end: point, ..shape }),
                    None => None,
                },
                ..old(self)@
            }),
            final(self)@.wf(),
    {
        match self.draft {
            Some(shape) => {
                self.draft = Some(Shape { tool: shape.tool, start: shape.start, end: point });
            },
            None => {},
        }
    }

    /// The shape being drawn.
    pub fn draft(&self) -> (result: Option<Shape>)
        ensures
            result == self@.draft,
    {
        self.draft
    }

    /// Ends the draft. It becomes a shape where it is large enough: `far_enough`
    /// says that its ends are at least the minimum distance apart.
    pub fn commit(&mut self, far_enough: bool) -> (result: CommitResult)
        requires
            old(self)@.wf(),
        ensures
            final(self)@.wf(),
            if old(self)@.draft is Some && far_enough {
                result == CommitResult::Added && final(self)@ == old(self)@.committed()
            } else {
                result == CommitResult::TooSmall && final(self)@ == (Sketch {
                    draft: None,
                    ..old(self)@
                })
            },
    {
        let ghost before = self@;
        match self.draft.take() {
            Some(shape) => {
                if !far_enough {
                    return CommitResult::TooSmall;
                }
                proof {
                    undo_takes_back_a_commit(before);
                }
                self.shapes.push(shape);
                self.undo.push(UndoEdit::RemoveLast);
                assert(self@.undo =~= before.undo.push(Edit::RemoveLast));
                self.prune_undo();
                CommitResult::Added
            },
            None => CommitResult::TooSmall,
        }
    }

    /// Drops the draft. Returns whether there was one.
    pub fn cancel_draft(&mut self) -> (result: bool)
        requires
            old(self)@.wf(),
        ensures
            result == (old(self)@.draft is Some),
            final(self)@ == (Sketch { draft: None, ..old(self)@ }),
            final(self)@.wf(),
    {
        self.draft.take().is_some()
    }

    pub fn has_draft(&self) -> (result: bool)
        ensures
            result == (self@.draft is Some),
    {
        self.draft.is_some()
    }

    /// Takes one step back: the draft, or else the last edit.
    pub fn undo(&mut self) -> (result: bool)
        requires
            old(self)@.wf(),
        ensures
            result == old(self)@.can_undo(),
            final(self)@ == old(self)@.undone(),
            final(self)@.wf(),
    {
        let ghost before = self@;
        proof {
            undo_keeps_the_bounds(before);
        }
        if self.cancel_draft() {
            return true;
        }
        let ghost list = self.undo@;
        match self.undo.pop() {
            Some(edit) => {
                assert(self@.undo =~= before.undo.drop_last());
                assert(before.undo.last() == edit@);
                match edit {
                    UndoEdit::RemoveLast => {
                        let _ = self.shapes.pop();
                        assert(before.shapes.len() > 0 ==> self@.shapes
                            =~= before.shapes.drop_last());
                        assert(before.shapes.len() == 0 ==> self@.shapes =~= before.shapes);
                    },
                    UndoEdit::Restore(shapes) => {
                        self.shapes = shapes;
                    },
                }
                true
            },
            None => false,
        }
    }

    /// Takes all shapes away. Returns whether there was anything.
    pub fn clear(&mut self) -> (result: bool)
        requires
            old(self)@.wf(),
        ensures
            result == (old(self)@.shapes.len() > 0 || old(self)@.draft is Some),
            final(self)@ == old(self)@.cleared(),
            final(self)@.wf(),
    {
        let ghost before = self@;
        proof {
            undo_takes_back_a_clear(before);
        }
        let changed = self.shapes.len() > 0 || self.draft.is_some();
        if self.shapes.len() > 0 {
            let mut taken: Vec<Shape> = Vec::new();
            taken.append(&mut self.shapes);
            assert(taken@ =~= before.shapes);
            self.undo.push(UndoEdit::Restore(taken));
            assert(self@.undo =~= before.undo.push(Edit::Restore(before.shapes)));
            self.prune_undo();
        }
        self.draft = None;
        assert(self@.shapes =~= Seq::<Shape>::empty());
        changed
    }

    /// The shapes to draw, in order, with the draft last where it is asked for.
    pub fn shapes(&self, include_draft: bool) -> (result: Vec<Shape>)
        ensures
            result@ == (if include_draft && self@.draft is Some {
                self@.shapes.push(self@.draft->0)
            } else {
                self@.shapes
            }),
    {
        let mut result: Vec<Shape> = Vec::new();
        for i in 0..self.shapes.len()
            invariant
                result@ == self.shapes@.take(i as int),
        {
            result.push(self.shapes[i]);
            assert(result@ =~= self.shapes@.take(i + 1));
        }
        assert(result@ =~= self.shapes@);
        match self.draft {
            Some(shape) => if include_draft {
                result.push(shape);
            },
            None => {},
        }
        result
    }

    fn retained_shapes(&self) -> (result: u128)
        requires
            forall|i: int| 0 <= i < self@.undo.len() ==> held(#[trigger] self@.undo[i]) <= MAX_SHAPES,
        ensures
            result as nat == retained(self@.undo),
    {
        let mut sum: u128 = 0;
        for i in 0..self.undo.len()
            invariant
                self@.undo.len() == self.undo@.len(),
                forall|k: int|
                    0 <= k < self@.undo.len() ==> held(#[trigger] self@.undo[k]) <= MAX_SHAPES,
                sum as nat == retained(self@.undo.take(i as int)),
                sum <= i * 128,
        {
            assert(self@.undo.take(i + 1).drop_last() =~= self@.undo.take(i as int));
            assert(self@.undo[i as int] == self.undo@[i as int]@);
            match &self.undo[i] {
                UndoEdit::RemoveLast => {},
                UndoEdit::Restore(shapes) => {
                    sum = sum + shapes.len() as u128;
                },
            }
        }
        assert(self@.undo.take(self@.undo.len() as int) =~= self@.undo);
        sum
    }

    fn prune_undo(&mut self)
        requires
            old(self)@.undo.len() > 0,
            old(self)@.shapes.len() + held(old(self)@.undo.last()) <= MAX_RETAINED_SHAPES,
            forall|i: int|
                0 <= i < old(self)@.undo.len() ==> held(#[trigger] old(self)@.undo[i]) <= MAX_SHAPES,
        ensures
            final(self)@ == (Sketch {
                undo: pruned(old(self)@.undo, old(self)@.shapes.len()),
                ..old(self)@
            }),
    {
        let ghost before = self@;
        let mut total: u128 = self.retained_shapes();
        proof {
            pruning_keeps_the_newest(before.undo, before.shapes.len());
            retained_bound(before.undo);
        }
        while self.undo.len() > MAX_UNDO_OPERATIONS || self.shapes.len() as u128 + total
            > MAX_RETAINED_SHAPES as u128
            invariant
                self@ == (Sketch { undo: self@.undo, ..before }),
                self@.undo.len() == self.undo@.len(),
                self@.shapes.len() <= MAX_RETAINED_SHAPES,
                total as nat == retained(self@.undo),
                total <= self@.undo.len() * 128,
                forall|i: int|
                    0 <= i < self@.undo.len() ==> held(#[trigger] self@.undo[i]) <= MAX_SHAPES,
                pruned(before.undo, before.shapes.len()) == pruned(
                    self@.undo,
                    before.shapes.len(),
                ),
            decreases self@.undo.len(),
        {
            let ghost here = self@.undo;
            proof {
                if here.len() == 0 {
                    assert(retained(here) == 0);
                }
                retained_split(here);
            }
            self.undo.remove(0);
            assert(self@.undo =~= here.skip(1));
            assert forall|i: int| 0 <= i < self@.undo.len() implies held(#[trigger] self@.undo[i])
                <= MAX_SHAPES by {
                assert(self@.undo[i] == here[i + 1]);
            }
            total = self.retained_shapes();
            proof {
                retained_bound(self@.undo);
            }
        }
    }
}

proof fn retained_bound(undo: Seq<Edit>)
    requires
        forall|i: int| 0 <= i < undo.len() ==> held(#[trigger] undo[i]) <= MAX_SHAPES,
    ensures
        retained(undo) <= undo.len() * 128,
    decreases undo.len(),
{
    if undo.len() > 0 {
        let rest = undo.drop_last();
        assert forall|i: int| 0 <= i < rest.len() implies held(#[trigger] rest[i])
            <= MAX_SHAPES by {
            assert(rest[i] == undo[i]);
        }
        assert(undo.last() == undo[undo.len() - 1]);
        retained_bound(rest);
    }
}

impl Default for Session {
    fn default() -> (result: Self)
        ensures
            result@ == Sketch::fresh(),
            result@.wf(),
    {
        Session::new()
    }
}

/// What was drawn is added after all other shapes; the tool and every other shape stay.
pub proof fn commits_add_the_draft(sketch: Sketch, shape: Shape)
    requires
        sketch.wf(),
        sketch.draft == Some(shape),
    ensures
        sketch.committed().shapes == sketch.shapes.push(shape),
        sketch.committed().draft is None,
        sketch.committed().tool == sketch.tool,
{
}

/// A new markup is empty: nothing is drawn, nothing can be undone, and boxes come first.
pub proof fn markups_begin_empty()
    ensures
        Sketch::fresh().shapes.len() == 0,
        Sketch::fresh().draft is None,
        !Sketch::fresh().can_undo(),
        Sketch::fresh().tool == Tool::Box,
        Sketch::fresh().wf(),
{
}

/// Clearing takes every shape and the drawing away and keeps the tool; undoing what is
/// being drawn drops it and nothing else; where there is nothing to undo, nothing changes.
pub proof fn clearing_takes_everything(sketch: Sketch)
    ensures
        sketch.cleared().shapes.len() == 0,
        sketch.cleared().draft is None,
        sketch.cleared().tool == sketch.tool,
        sketch.draft is Some ==> sketch.can_undo() && sketch.undone() == (Sketch {
            draft: None,
            ..sketch
        }),
        sketch.draft is None && sketch.undo.len() == 0 ==> !sketch.can_undo() && sketch.undone()
            == sketch,
        sketch.undo.len() > 0 ==> sketch.can_undo(),
        sketch.draft is None && sketch.undo.len() > 0 ==> sketch.undone().undo
            == sketch.undo.drop_last() && sketch.undone().tool == sketch.tool
            && sketch.undone().draft is None,
{
}

/// At most 128 shapes are drawn, 256 steps can be taken back, and no more than 256 shapes
/// are held on to for that; a history within these bounds is kept whole, and a longer one
/// forgets its oldest steps first.
pub proof fn markups_are_bounded(sketch: Sketch, undo: Seq<Edit>, shapes: nat)
    ensures
        sketch.wf() ==> sketch.shapes.len() <= 128 && sketch.undo.len() <= 256
            && sketch.shapes.len() + retained(sketch.undo) <= 256,
        undo.len() <= 256 && shapes + retained(undo) <= 256 ==> pruned(undo, shapes) == undo,
        exists|from: int| 0 <= from <= undo.len() && #[trigger] undo.skip(from) == pruned(undo, shapes),
    decreases undo.len(),
{
    if undo.len() > 0 && over_limit(undo, shapes) {
        let rest = undo.skip(1);
        markups_are_bounded(sketch, rest, shapes);
        let from = choose|from: int|
            0 <= from <= rest.len() && #[trigger] rest.skip(from) == pruned(rest, shapes);
        assert(undo.skip(from + 1) =~= rest.skip(from));
    } else {
        assert(undo.skip(0) =~= undo);
    }
}

/// What the history holds on to is what its clears took away.
pub proof fn clears_hold_their_shapes(undo: Seq<Edit>, shapes: Seq<Shape>)
    ensures
        retained(undo.push(Edit::Restore(shapes))) == retained(undo) + shapes.len(),
        retained(undo.push(Edit::RemoveLast)) == retained(undo),
        retained(Seq::<Edit>::empty()) == 0,
{
    assert(undo.push(Edit::Restore(shapes)).drop_last() =~= undo);
    assert(undo.push(Edit::RemoveLast).drop_last() =~= undo);
}

}
