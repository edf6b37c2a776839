//! Reading lists: item by item, up to the first item that cannot be read.

use vstd::prelude::*;
use crate::error::ErrorView;

verus! {

/// What a list of items stands for, item by item, or the error of the first
/// item that stands for nothing.
pub open spec fn decoded_list<A, B>(
    items: Seq<A>,
    decoded: spec_fn(A) -> Result<B, ErrorView>,
) -> Result<Seq<B>, ErrorView>
    decreases items.len(),
{
    if items.len() == 0 {
        Ok(Seq::empty())
    } else {
        match decoded_list(items.drop_last(), decoded) {
            Err(e) => Err(e),
            Ok(done) => match decoded(items.last()) {
                Ok(x) => Ok(done.push(x)),
                Err(e) => Err(e),
            },
        }
    }
}

/// An error among the first items is the error of the whole list.
pub proof fn lemma_list_error<A, B>(
    items: Seq<A>,
    decoded: spec_fn(A) -> Result<B, ErrorView>,
    n: int,
)
    requires
        0 <= n <= items.len(),
        decoded_list(items.take(n), decoded) is Err,
    ensures
        decoded_list(items, decoded) == decoded_list(items.take(n), decoded),
    decreases items.len() - n,
{
    if n == items.len() {
        assert(items.take(n) =~= items);
    } else {
        assert(items.take(n + 1).drop_last() =~= items.take(n));
        lemma_list_error(items, decoded, n + 1);
    }
}

/// One more item that stands for something extends what the list stands
/// for; one that stands for nothing ends the reading with its error.
pub proof fn lemma_list_step<A, B>(
    items: Seq<A>,
    decoded: spec_fn(A) -> Result<B, ErrorView>,
    n: int,
    done: Seq<B>,
)
    requires
        0 <= n < items.len(),
        decoded_list(items.take(n), decoded) == Ok::<Seq<B>, ErrorView>(done),
    ensures
        decoded_list(items.take(n + 1), decoded) == match decoded(items[n]) {
            Ok(x) => Ok::<Seq<B>, ErrorView>(done.push(x)),
            Err(e) => Err::<Seq<B>, ErrorView>(e),
        },
        decoded(items[n]) is Err ==> decoded_list(items, decoded) == Err::<Seq<B>, ErrorView>(
            decoded(items[n])->Err_0,
        ),
{
    assert(items.take(n + 1).drop_last() =~= items.take(n));
    assert(items.take(n + 1).last() == items[n]);
    if decoded(items[n]) is Err {
        lemma_list_error(items, decoded, n + 1);
    }
}

} // verus!
