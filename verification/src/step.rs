//! The steps of a compiled pipeline, and the lists that hold them.
use vstd::prelude::*;
use smallvec::SmallVec;
use crate::binary64::Binary64;
use crate::crs::Projection;
use crate::ellipsoid::Ellipsoid;
use crate::operation::{GeocentricAffineParams, GridHandle, GridShiftDirection, HelmertParams};

verus! {

/// One step of a compiled pipeline.
#[derive(Debug, PartialEq, Eq)]
pub enum CompiledStep {
    ProjectionForward { projection: Projection },
    ProjectionInverse { projection: Projection },
    Helmert { params: HelmertParams, inverse: bool },
    GeocentricAffine { params: GeocentricAffineParams, inverse: bool },
    GridShift { handle: GridHandle, direction: GridShiftDirection },
    GridShiftList { handles: Vec<GridHandle>, allow_null: bool, direction: GridShiftDirection },
    GeodeticToGeocentric { ellipsoid: Ellipsoid },
    GeocentricToGeodetic { ellipsoid: Ellipsoid },
    /// Saves the ellipsoidal height.
    PushHeight,
    /// Restores the height that the matching [`CompiledStep::PushHeight`] saved.
    PopHeight,
}

/// What a [`CompiledStep`] is, with its grids as a sequence.
pub enum Step {
    ProjectionForward { projection: Projection },
    ProjectionInverse { projection: Projection },
    Helmert { params: HelmertParams, inverse: bool },
    GeocentricAffine { params: GeocentricAffineParams, inverse: bool },
    GridShift { handle: GridHandle, direction: GridShiftDirection },
    GridShiftList { handles: Seq<GridHandle>, allow_null: bool, direction: GridShiftDirection },
    GeodeticToGeocentric { ellipsoid: Ellipsoid },
    GeocentricToGeodetic { ellipsoid: Ellipsoid },
    PushHeight,
    PopHeight,
}

impl View for CompiledStep {
    type V = Step;

    open spec fn view(&self) -> Step {
        match *self {
            CompiledStep::ProjectionForward { projection } => Step::ProjectionForward {
                projection,
            },
            CompiledStep::ProjectionInverse { projection } => Step::ProjectionInverse {
                projection,
            },
            CompiledStep::Helmert { params, inverse } => Step::Helmert { params, inverse },
            CompiledStep::GeocentricAffine { params, inverse } => Step::GeocentricAffine {
                params,
                inverse,
            },
            CompiledStep::GridShift { handle, direction } => Step::GridShift { handle, direction },
            CompiledStep::GridShiftList { handles, allow_null, direction } => Step::GridShiftList {
                handles: handles@,
                allow_null,
                direction,
            },
            CompiledStep::GeodeticToGeocentric { ellipsoid } => Step::GeodeticToGeocentric {
                ellipsoid,
            },
            CompiledStep::GeocentricToGeodetic { ellipsoid } => Step::GeocentricToGeodetic {
                ellipsoid,
            },
            CompiledStep::PushHeight => Step::PushHeight,
            CompiledStep::PopHeight => Step::PopHeight,
        }
    }
}

impl Clone for CompiledStep {
    fn clone(&self) -> (copy: Self)
        ensures
            copy@ == self@,
    {
        match self {
            CompiledStep::ProjectionForward { projection } => CompiledStep::ProjectionForward {
                projection: *projection,
            },
            CompiledStep::ProjectionInverse { projection } => CompiledStep::ProjectionInverse {
                projection: *projection,
            },
            CompiledStep::Helmert { params, inverse } => CompiledStep::Helmert {
                params: *params,
                inverse: *inverse,
            },
            CompiledStep::GeocentricAffine { params, inverse } => CompiledStep::GeocentricAffine {
                params: *params,
                inverse: *inverse,
            },
            CompiledStep::GridShift { handle, direction } => CompiledStep::GridShift {
                handle: *handle,
                direction: *direction,
            },
            CompiledStep::GridShiftList { handles, allow_null, direction } => {
                let mut copies: Vec<GridHandle> = Vec::new();
                let mut i: usize = 0;
                while i < handles.len()
                    invariant
                        i <= handles@.len(),
                        copies@ == handles@.take(i as int),
                    decreases handles@.len() - i,
                {
                    copies.push(handles[i]);
                    i = i + 1;
                    assert(handles@.take(i as int) =~= handles@.take(i - 1).push(handles@[i - 1]));
                }
                assert(handles@.take(i as int) =~= handles@);
                CompiledStep::GridShiftList {
                    handles: copies,
                    allow_null: *allow_null,
                    direction: *direction,
                }
            },
            CompiledStep::GeodeticToGeocentric {
                ellipsoid,
            } => CompiledStep::GeodeticToGeocentric { ellipsoid: *ellipsoid },
            CompiledStep::GeocentricToGeodetic {
                ellipsoid,
            } => CompiledStep::GeocentricToGeodetic { ellipsoid: *ellipsoid },
            CompiledStep::PushHeight => CompiledStep::PushHeight,
            CompiledStep::PopHeight => CompiledStep::PopHeight,
        }
    }
}

/// A list of steps that keeps up to eight of them without an allocation.
#[verifier::external_body]
pub struct StepList {
    items: SmallVec<[CompiledStep; 8]>,
}

/// The steps that the [`smallvec::SmallVec`] of a [`StepList`] holds, in order.
pub uninterp spec fn steps_of(list: StepList) -> Seq<CompiledStep>;

/// [`smallvec::SmallVec::new`]: the new list is empty.
#[verifier::external_body]
fn step_list_new() -> (list: StepList)
    ensures
        steps_of(list) == Seq::<CompiledStep>::empty(),
{
    StepList { items: SmallVec::new() }
}

/// [`smallvec::SmallVec::push`]: the step is added at the end. As for any
/// growing collection of std, memory that cannot be had is not modelled.
#[verifier::external_body]
fn step_list_push(list: &mut StepList, step: CompiledStep)
    ensures
        steps_of(*final(list)) == steps_of(*old(list)).push(step),
{
    list.items.push(step)
}

/// [`smallvec::SmallVec::len`]: the number of steps.
#[verifier::external_body]
fn step_list_len(list: &StepList) -> (len: usize)
    ensures
        len == steps_of(*list).len(),
{
    list.items.len()
}

/// The `Index` impl of [`smallvec::SmallVec`], by position: the step there. It
/// panics past the end.
#[verifier::external_body]
fn step_list_index(list: &StepList, index: usize) -> (step: &CompiledStep)
    requires
        index < steps_of(*list).len(),
    ensures
        *step == steps_of(*list)[index as int],
{
    &list.items[index]
}

/// [`smallvec::SmallVec::remove`]: the step at the position leaves and is
/// returned, and those behind it move up. It panics past the end.
#[verifier::external_body]
fn step_list_remove(list: &mut StepList, index: usize) -> (step: CompiledStep)
    requires
        index < steps_of(*old(list)).len(),
    ensures
        step == steps_of(*old(list))[index as int],
        steps_of(*final(list)) == steps_of(*old(list)).remove(index as int),
{
    list.items.remove(index)
}

/// What a sequence of compiled steps is.
pub open spec fn step_views(steps: Seq<CompiledStep>) -> Seq<Step> {
    steps.map_values(|step: CompiledStep| step@)
}

impl View for StepList {
    type V = Seq<Step>;

    open spec fn view(&self) -> Seq<Step> {
        step_views(steps_of(*self))
    }
}

impl StepList {
    /// No steps.
    pub fn new() -> (list: StepList)
        ensures
            list@ == Seq::<Step>::empty(),
    {
        let list = step_list_new();
        assert(list@ =~= Seq::<Step>::empty());
        list
    }

    /// The given steps, in order.
    pub fn of(steps: &Vec<CompiledStep>) -> (list: StepList)
        ensures
            list@ == step_views(steps@),
    {
        let mut list = StepList::new();
        let mut i: usize = 0;
        while i < steps.len()
            invariant
                i <= steps@.len(),
                list@ =~= step_views(steps@.take(i as int)),
            decreases steps@.len() - i,
        {
            list.push(steps[i].clone());
            i = i + 1;
        }
        assert(steps@.take(i as int) =~= steps@);
        list
    }

    /// Adds a step at the end.
    pub fn push(&mut self, step: CompiledStep)
        ensures
            final(self)@ == old(self)@.push(step@),
    {
        step_list_push(self, step);
        assert(self@ =~= old(self)@.push(step@));
    }

    /// The number of steps.
    pub fn len(&self) -> (len: usize)
        ensures
            len == self@.len(),
    {
        step_list_len(self)
    }

    /// Whether there are no steps.
    pub fn is_empty(&self) -> (result: bool)
        ensures
            result == (self@.len() == 0),
    {
        step_list_len(self) == 0
    }

    /// The step at a position.
    pub fn at(&self, index: usize) -> (step: &CompiledStep)
        requires
            index < self@.len(),
        ensures
            step@ == self@[index as int],
    {
        step_list_index(self, index)
    }

    /// Takes the step at a position out.
    pub fn remove(&mut self, index: usize) -> (step: CompiledStep)
        requires
            index < old(self)@.len(),
        ensures
            step@ == old(self)@[index as int],
            final(self)@ == old(self)@.remove(index as int),
    {
        let step = step_list_remove(self, index);
        assert(self@ =~= old(self)@.remove(index as int));
        step
    }
}

impl Clone for StepList {
    fn clone(&self) -> (copy: Self)
        ensures
            copy@ == self@,
    {
        let mut list = StepList::new();
        let mut i: usize = 0;
        while i < self.len()
            invariant
                i <= self@.len(),
                list@ == self@.take(i as int),
            decreases self@.len() - i,
        {
            list.push(self.at(i).clone());
            i = i + 1;
            assert(self@.take(i as int) =~= self@.take(i - 1).push(self@[i - 1]));
        }
        assert(self@.take(i as int) =~= self@);
        list
    }
}

/// A stack of heights that keeps up to two of them without an allocation.
#[verifier::external_body]
pub struct HeightStack {
    items: SmallVec<[u64; 2]>,
}

/// The bits of the heights that the [`smallvec::SmallVec`] of a
/// [`HeightStack`] holds, the bottom first.
pub uninterp spec fn heights_of(stack: HeightStack) -> Seq<u64>;

/// [`smallvec::SmallVec::new`]: the new stack is empty.
#[verifier::external_body]
fn height_stack_new() -> (stack: HeightStack)
    ensures
        heights_of(stack) == Seq::<u64>::empty(),
{
    HeightStack { items: SmallVec::new() }
}

/// [`smallvec::SmallVec::push`]: the height is added on top. As for any growing
/// collection of std, memory that cannot be had is not modelled.
#[verifier::external_body]
fn height_stack_push(stack: &mut HeightStack, height: u64)
    ensures
        heights_of(*final(stack)) == heights_of(*old(stack)).push(height),
{
    stack.items.push(height)
}

/// [`smallvec::SmallVec::pop`]: the height on top leaves and is returned; an
/// empty stack stays as it is and gives nothing.
#[verifier::external_body]
fn height_stack_pop(stack: &mut HeightStack) -> (height: Option<u64>)
    ensures
        heights_of(*old(stack)).len() == 0 ==> height is None && heights_of(*final(stack))
            == heights_of(*old(stack)),
        heights_of(*old(stack)).len() > 0 ==> height == Some(heights_of(*old(stack)).last())
            && heights_of(*final(stack)) == heights_of(*old(stack)).drop_last(),
{
    stack.items.pop()
}

/// [`smallvec::SmallVec::is_empty`]: whether there are no heights.
#[verifier::external_body]
fn height_stack_is_empty(stack: &HeightStack) -> (result: bool)
    ensures
        result == (heights_of(*stack).len() == 0),
{
    stack.items.is_empty()
}

impl View for HeightStack {
    type V = Seq<Binary64>;

    open spec fn view(&self) -> Seq<Binary64> {
        heights_of(*self).map_values(|bits: u64| Binary64 { bits })
    }
}

impl HeightStack {
    /// No heights.
    pub fn new() -> (stack: HeightStack)
        ensures
            stack@ == Seq::<Binary64>::empty(),
    {
        let stack = height_stack_new();
        assert(stack@ =~= Seq::<Binary64>::empty());
        stack
    }

    /// Saves a height.
    pub fn push(&mut self, height: Binary64)
        ensures
            final(self)@ == old(self)@.push(height),
    {
        height_stack_push(self, height.bits);
        assert(self@ =~= old(self)@.push(height));
    }

    /// Takes back the height saved last, if there is one.
    pub fn pop(&mut self) -> (height: Option<Binary64>)
        ensures
            old(self)@.len() == 0 ==> height is None && final(self)@ == old(self)@,
            old(self)@.len() > 0 ==> height == Some(old(self)@.last()) && final(self)@ == old(
                self,
            )@.drop_last(),
    {
        match height_stack_pop(self) {
            Some(bits) => {
                assert(self@ =~= old(self)@.drop_last());
                Some(Binary64 { bits })
            },
            None => None,
        }
    }

    /// Whether there are no heights.
    pub fn is_empty(&self) -> (result: bool)
        ensures
            result == (self@.len() == 0),
    {
        height_stack_is_empty(self)
    }
}

} // verus!
