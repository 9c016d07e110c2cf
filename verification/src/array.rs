//! The construction and inspection protocol shared by all column kinds.

use vstd::prelude::*;

verus! {

/// A column of rows, stored in packed columnar form.
///
/// An array consumes rows of its [`Array::Item`] type; [`Array::rows`] is
/// the mathematical model of the stored rows, one [`Array::Model`] per row,
/// in insertion order. Nested column kinds implement this same protocol, so
/// list-of-list, list-of-struct and struct-of-list need no special cases.
pub trait Array: Sized {
    /// The row type consumed by this column kind.
    type Item;

    /// The mathematical model of one row.
    type Model;

    /// The model of one row value.
    spec fn item_model(item: Self::Item) -> Self::Model;

    /// Structural well-formedness: established by construction, preserved by
    /// append.
    spec fn wf(&self) -> bool;

    /// The stored rows.
    spec fn rows(&self) -> Seq<Self::Model>;

    /// The empty column.
    fn empty() -> (r: Self)
        ensures
            r.wf(),
            r.rows() == Seq::<Self::Model>::empty(),
    ;

    /// Appends one row at the end of the column.
    fn push_row(&mut self, item: Self::Item)
        requires
            old(self).wf(),
        ensures
            final(self).wf(),
            final(self).rows() == old(self).rows().push(Self::item_model(item)),
    ;

    /// The number of stored rows.
    fn len(&self) -> (r: usize)
        requires
            self.wf(),
        ensures
            r as nat == self.rows().len(),
    ;
}

/// The models of a sequence of rows, in order.
pub open spec fn models<A: Array>(items: Seq<A::Item>) -> Seq<A::Model> {
    items.map_values(|item: A::Item| A::item_model(item))
}

/// Bulk construction from a finite sequence of rows. Appending the rows one
/// at a time to an empty column gives the same result.
pub fn from_rows<A: Array>(items: Vec<A::Item>) -> (r: A)
    ensures
        r.wf(),
        r.rows() == models::<A>(items@),
{
    let mut r = A::empty();
    extend_rows(&mut r, items);
    proof {
        assert(Seq::<A::Model>::empty() + models::<A>(items@) =~= models::<A>(items@));
    }
    r
}

/// Incremental append of a finite sequence of rows; the result is the same
/// as bulk construction over the concatenation of the prior input and
/// `items`.
pub fn extend_rows<A: Array>(array: &mut A, items: Vec<A::Item>)
    requires
        old(array).wf(),
    ensures
        final(array).wf(),
        final(array).rows() == old(array).rows() + models::<A>(items@),
{
    let ghost all = items@;
    let mut items = items;
    while items.len() > 0
        invariant
            array.wf(),
            items@.len() <= all.len(),
            items@ == all.subrange(all.len() - items@.len(), all.len() as int),
            array.rows() == old(array).rows() + models::<A>(
                all.subrange(0, all.len() - items@.len()),
            ),
        decreases items@.len(),
    {
        let ghost done = all.len() - items@.len();
        let item = items.remove(0);
        proof {
            assert(item == all[done]);
            assert(items@ =~= all.subrange(done + 1, all.len() as int));
        }
        array.push_row(item);
        proof {
            assert(all.subrange(0, done + 1) =~= all.subrange(0, done).push(all[done]));
            assert(models::<A>(all.subrange(0, done).push(all[done])) =~= models::<A>(
                all.subrange(0, done),
            ).push(A::item_model(all[done])));
        }
    }
    proof {
        assert(all.subrange(0, all.len() as int) =~= all);
    }
}

} // verus!
