//! Gradient cells and the rule by which contributions are written to them.
//!
//! A cell belongs to the node that receives gradient, and every node that
//! consumes that node's value writes to it. The first write of a traversal
//! replaces what an earlier traversal left; the later ones add. The cell's
//! flag records which of the two the next write is.

use crate::scalar::{single_valued, sum_of, zero_value, Scalar};
use crate::shape::{checked_size, copy_shape, same_shape, size};
use crate::tensor::Tensor;
use vstd::prelude::*;

verus! {

/// A gradient buffer, which may be absent, with the flag that says whether the
/// next write replaces its contents.
#[derive(Debug, PartialEq)]
pub struct GradientCell<T> {
    pub shape: Vec<usize>,
    pub buffer: Option<Tensor<T>>,
    pub overwrite: bool,
}

/// Element by element, `after` is a value of `before + c`.
pub open spec fn added<T: Scalar>(before: Seq<T>, c: Seq<T>, after: Seq<T>) -> bool {
    &&& after.len() == before.len()
    &&& forall|i: int| 0 <= i < before.len() ==> sum_of(before[i], c[i], #[trigger] after[i])
}

/// `after` is `before` once the contribution `c` was written to it: in place of
/// the old contents where the flag was set, added to them where it was not; and
/// the flag is cleared.
pub open spec fn pushed<T: Scalar>(
    before: GradientCell<T>,
    c: Tensor<T>,
    after: GradientCell<T>,
) -> bool {
    &&& after.shape@ == before.shape@
    &&& after.present()
    &&& after.buffer->0.dims() == before.shape@
    &&& !after.overwrite
    &&& if before.overwrite {
        after.values() == c@
    } else {
        added(before.values(), c@, after.values())
    }
}

/// `after` is `before` with the contribution `c` added to its contents; the
/// flag is as it was.
pub open spec fn accumulated<T: Scalar>(
    before: GradientCell<T>,
    c: Tensor<T>,
    after: GradientCell<T>,
) -> bool {
    &&& after.shape@ == before.shape@
    &&& after.present()
    &&& after.buffer->0.dims() == before.shape@
    &&& after.overwrite == before.overwrite
    &&& added(before.values(), c@, after.values())
}

/// `after` is `before` once some contribution that is the cell's `share` was
/// written to it by the rule of the first write.
pub open spec fn received<T: Scalar>(
    before: GradientCell<T>,
    after: GradientCell<T>,
    share: spec_fn(Tensor<T>) -> bool,
) -> bool {
    exists|c: Tensor<T>| share(c) && #[trigger] pushed(before, c, after)
}

/// `after` is `before` once some contribution that is the cell's `share` was
/// added to it, whatever its flag says.
pub open spec fn gained<T: Scalar>(
    before: GradientCell<T>,
    after: GradientCell<T>,
    share: spec_fn(Tensor<T>) -> bool,
) -> bool {
    exists|c: Tensor<T>| share(c) && #[trigger] accumulated(before, c, after)
}

impl<T: Scalar> GradientCell<T> {
    /// The shape of the buffer, present or not.
    pub open spec fn dims(&self) -> Seq<usize> {
        self.shape@
    }

    /// The buffer is there.
    pub open spec fn present(&self) -> bool {
        self.buffer is Some
    }

    /// The contents of the buffer, where it is there.
    pub open spec fn values(&self) -> Seq<T> {
        self.buffer->0@
    }

    /// A buffer that is there has the cell's shape.
    pub open spec fn wf(&self) -> bool {
        &&& size(self.shape@) <= usize::MAX
        &&& self.buffer matches Some(t) ==> t.wf() && t.dims() == self.shape@
    }

    /// Whether a buffer that is there has the cell's shape.
    pub fn is_wf(&self) -> (r: bool)
        ensures
            r == self.wf(),
    {
        if checked_size(&self.shape).is_none() {
            return false;
        }
        match &self.buffer {
            Some(t) => t.is_wf() && same_shape(&t.shape, &self.shape),
            None => true,
        }
    }

    /// A cell of the given shape: a buffer of zeros, to be overwritten.
    pub fn new(shape: &Vec<usize>) -> (r: Self)
        requires
            size(shape@) <= usize::MAX,
        ensures
            r.wf(),
            r.dims() == shape@,
            r.present(),
            r.overwrite,
            forall|i: int| 0 <= i < r.values().len() ==> zero_value(#[trigger] r.values()[i]),
    {
        GradientCell {
            shape: copy_shape(shape),
            buffer: Some(Tensor::zeros(shape)),
            overwrite: true,
        }
    }

    /// The shape of the buffer, present or not.
    pub fn shape(&self) -> (r: &Vec<usize>)
        ensures
            r@ == self.dims(),
    {
        &self.shape
    }

    /// The buffer, or `None` where the cell tracks no gradient.
    pub fn gradient(&self) -> (r: Option<&Tensor<T>>)
        ensures
            r is Some <==> self.present(),
            r matches Some(t) ==> *t == self.buffer->0,
    {
        self.buffer.as_ref()
    }

    /// The buffer of a cell that tracks a gradient.
    pub fn tensor(&self) -> (r: &Tensor<T>)
        requires
            self.present(),
        ensures
            *r == self.buffer->0,
    {
        self.buffer.as_ref().unwrap()
    }

    /// Whether the next write replaces the contents.
    pub fn can_overwrite(&self) -> (r: bool)
        ensures
            r == self.overwrite,
    {
        self.overwrite
    }

    /// Sets whether the next write replaces the contents.
    pub fn set_overwrite(&mut self, overwrite: bool)
        ensures
            final(self).overwrite == overwrite,
            final(self).shape == old(self).shape,
            final(self).buffer == old(self).buffer,
    {
        self.overwrite = overwrite;
    }

    /// Drops the buffer: the cell tracks no gradient.
    pub fn no_grad(&mut self)
        ensures
            !final(self).present(),
            final(self).shape == old(self).shape,
            final(self).overwrite == old(self).overwrite,
    {
        self.buffer = None;
    }

    /// Gives the cell a buffer of zeros of its shape.
    pub fn with_grad(&mut self)
        requires
            old(self).wf(),
        ensures
            final(self).wf(),
            final(self).present(),
            final(self).shape == old(self).shape,
            final(self).overwrite == old(self).overwrite,
            final(self).values().len() == size(old(self).dims()),
            forall|i: int|
                0 <= i < final(self).values().len() ==> zero_value(
                    #[trigger] final(self).values()[i],
                ),
    {
        self.buffer = Some(Tensor::zeros(&self.shape));
    }

    /// Replaces the contents by `seed`, as the node that starts a traversal
    /// does. The flag is as it was.
    pub fn seed(&mut self, seed: Tensor<T>)
        requires
            old(self).wf(),
            seed.wf(),
            seed.dims() == old(self).dims(),
        ensures
            final(self).wf(),
            final(self).shape == old(self).shape,
            final(self).overwrite == old(self).overwrite,
            final(self).buffer == Some(seed),
    {
        self.buffer = Some(seed);
    }

    /// Writes the contribution `c` by the rule of the first write: it replaces
    /// the contents where the flag is set, and is added to them where it is
    /// not. The flag is cleared.
    pub fn push(&mut self, c: &Tensor<T>)
        requires
            old(self).wf(),
            old(self).present(),
            c.wf(),
            c.dims() == old(self).dims(),
        ensures
            final(self).wf(),
            pushed(*old(self), *c, *final(self)),
    {
        if self.overwrite {
            self.buffer = Some(c.copy());
            self.overwrite = false;
        } else {
            self.accumulate(c);
        }
    }

    /// Adds the contribution `c` to the contents, whatever the flag says, and
    /// leaves the flag as it is.
    pub fn accumulate(&mut self, c: &Tensor<T>)
        requires
            old(self).wf(),
            old(self).present(),
            c.wf(),
            c.dims() == old(self).dims(),
        ensures
            final(self).wf(),
            accumulated(*old(self), *c, *final(self)),
    {
        let sum = Tensor::zip(self.tensor(), c, T::add);
        self.buffer = Some(sum);
    }
}

/// The rule of the first write, over three writes to one cell.
///
/// A write to a cell whose flag is set replaces the contents and clears the
/// flag. The next write finds the flag cleared and adds to what the first one
/// left. Once the flag is set again, a write replaces the contents again.
pub proof fn lemma_first_write_replaces<T: Scalar>(
    start: GradientCell<T>,
    first: Tensor<T>,
    once: GradientCell<T>,
    second: Tensor<T>,
    twice: GradientCell<T>,
    third: Tensor<T>,
    last: GradientCell<T>,
)
    requires
        start.overwrite,
        pushed(start, first, once),
        pushed(once, second, twice),
        pushed(GradientCell { overwrite: true, ..twice }, third, last),
    ensures
        once.values() == first@,
        !once.overwrite,
        added(first@, second@, twice.values()),
        !twice.overwrite,
        last.values() == third@,
        !last.overwrite,
{
}

/// A write that adds whatever the flag says leaves the flag alone, so the
/// rule of the first write goes on from where it was.
pub proof fn lemma_accumulate_keeps_flag<T: Scalar>(
    before: GradientCell<T>,
    c: Tensor<T>,
    after: GradientCell<T>,
    next: Tensor<T>,
    last: GradientCell<T>,
)
    requires
        accumulated(before, c, after),
        pushed(after, next, last),
    ensures
        after.overwrite == before.overwrite,
        added(before.values(), c@, after.values()),
        before.overwrite ==> last.values() == next@,
        !before.overwrite ==> added(after.values(), next@, last.values()),
{
}

/// A write that finds the flag set replaces the gradient by the share, and
/// clears the flag.
pub proof fn lemma_received_replaces<T: Scalar>(
    before: GradientCell<T>,
    after: GradientCell<T>,
    share: spec_fn(Tensor<T>) -> bool,
)
    requires
        received(before, after, share),
        before.overwrite,
    ensures
        !after.overwrite,
        exists|c: Tensor<T>| #[trigger] share(c) && after.values() == c@,
{
    let c = choose|c: Tensor<T>| share(c) && #[trigger] pushed(before, c, after);
    assert(share(c) && after.values() == c@);
}

/// A write that finds the flag cleared adds the share to the gradient, and
/// leaves the flag cleared.
pub proof fn lemma_received_adds<T: Scalar>(
    before: GradientCell<T>,
    after: GradientCell<T>,
    share: spec_fn(Tensor<T>) -> bool,
)
    requires
        received(before, after, share),
        !before.overwrite,
    ensures
        !after.overwrite,
        exists|c: Tensor<T>| #[trigger] share(c) && added(before.values(), c@, after.values()),
{
    let c = choose|c: Tensor<T>| share(c) && #[trigger] pushed(before, c, after);
    assert(share(c) && added(before.values(), c@, after.values()));
}

/// The rule of the first write, over three calls of a `backward` that goes by
/// it.
///
/// The first call finds the operand's flag set, and replaces the operand's
/// gradient by the operand's share. The second call follows with the flag as
/// the first left it, and adds the share to what the first left. Then the flag
/// is set again and nothing else is touched; the third call replaces the
/// gradient again.
pub proof fn lemma_received_in_turn<T: Scalar>(
    start: GradientCell<T>,
    first: spec_fn(Tensor<T>) -> bool,
    once: GradientCell<T>,
    second: spec_fn(Tensor<T>) -> bool,
    twice: GradientCell<T>,
    third: spec_fn(Tensor<T>) -> bool,
    last: GradientCell<T>,
)
    requires
        start.overwrite,
        received(start, once, first),
        received(once, twice, second),
        received(GradientCell { overwrite: true, ..twice }, last, third),
    ensures
        exists|c: Tensor<T>| #[trigger] first(c) && once.values() == c@,
        exists|c: Tensor<T>| #[trigger] second(c) && added(once.values(), c@, twice.values()),
        exists|c: Tensor<T>| #[trigger] third(c) && last.values() == c@,
{
    lemma_received_replaces(start, once, first);
    lemma_received_adds(once, twice, second);
    lemma_received_replaces(GradientCell { overwrite: true, ..twice }, last, third);
}

/// A write that adds whatever the flag says adds the share to the gradient and
/// leaves the flag as it was, set or not.
pub proof fn lemma_gained_adds<T: Scalar>(
    before: GradientCell<T>,
    after: GradientCell<T>,
    share: spec_fn(Tensor<T>) -> bool,
)
    requires
        gained(before, after, share),
    ensures
        after.overwrite == before.overwrite,
        exists|c: Tensor<T>| #[trigger] share(c) && added(before.values(), c@, after.values()),
{
    let c = choose|c: Tensor<T>| share(c) && #[trigger] accumulated(before, c, after);
    assert(share(c) && added(before.values(), c@, after.values()));
}

/// Over a single-valued scalar, and for a share that is one tensor's worth of
/// values, a write by the rule of the first write leaves one gradient.
pub proof fn lemma_received_single_valued<T: Scalar>(
    before: GradientCell<T>,
    after1: GradientCell<T>,
    after2: GradientCell<T>,
    share: spec_fn(Tensor<T>) -> bool,
)
    requires
        single_valued::<T>(),
        forall|c1: Tensor<T>, c2: Tensor<T>|
            #[trigger] share(c1) && #[trigger] share(c2) ==> c1@ == c2@,
        received(before, after1, share),
        received(before, after2, share),
    ensures
        after1.values() == after2.values(),
        after1.overwrite == after2.overwrite,
{
    let c1 = choose|c: Tensor<T>| share(c) && #[trigger] pushed(before, c, after1);
    let c2 = choose|c: Tensor<T>| share(c) && #[trigger] pushed(before, c, after2);
    assert(c1@ == c2@);
    if !before.overwrite {
        assert(after1.values() =~= after2.values());
    }
}

/// Over a single-valued scalar, and for a share that is one tensor's worth of
/// values, a write that adds leaves one gradient.
pub proof fn lemma_gained_single_valued<T: Scalar>(
    before: GradientCell<T>,
    after1: GradientCell<T>,
    after2: GradientCell<T>,
    share: spec_fn(Tensor<T>) -> bool,
)
    requires
        single_valued::<T>(),
        forall|c1: Tensor<T>, c2: Tensor<T>|
            #[trigger] share(c1) && #[trigger] share(c2) ==> c1@ == c2@,
        gained(before, after1, share),
        gained(before, after2, share),
    ensures
        after1.values() == after2.values(),
        after1.overwrite == after2.overwrite,
{
    let c1 = choose|c: Tensor<T>| share(c) && #[trigger] accumulated(before, c, after1);
    let c2 = choose|c: Tensor<T>| share(c) && #[trigger] accumulated(before, c, after2);
    assert(c1@ == c2@);
    assert(after1.values() =~= after2.values());
}

} // verus!
