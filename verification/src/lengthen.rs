//! Templates that are written from left to right.

use crate::ir::ResultV;
use vstd::prelude::*;

verus! {

/// One text begins with another.
#[verifier::opaque]
pub open spec fn begins(head: Seq<char>, text: Seq<char>) -> bool {
    head.is_prefix_of(text)
}

/// A text begins with itself.
pub broadcast proof fn begins_with_itself(text: Seq<char>)
    ensures
        #[trigger] begins(text, text),
{
    reveal(begins);
}

/// The beginning of a beginning is a beginning.
pub broadcast proof fn beginnings_nest(a: Seq<char>, b: Seq<char>, c: Seq<char>)
    requires
        #[trigger] begins(a, b),
        #[trigger] begins(b, c),
    ensures
        begins(a, c),
{
    reveal(begins);
    assert(c.take(a.len() as int) =~= b.take(a.len() as int));
}

proof fn a_sum_begins(a: Seq<char>, b: Seq<char>)
    ensures
        begins(a, a + b),
{
    reveal(begins);
    assert((a + b).take(a.len() as int) =~= a);
}

/// Text behind the template leaves its beginning.
pub broadcast proof fn more_template(result: ResultV, text: Seq<char>)
    ensures
        begins(result.template, (#[trigger] result.with_template(text)).template),
{
    a_sum_begins(result.template, text);
}

/// Text behind both templates leaves their beginnings.
pub broadcast proof fn more_of_both(result: ResultV, text: Seq<char>)
    ensures
        begins(result.template, (#[trigger] result.with_both(text)).template),
        begins(result.closed, result.with_both(text).closed),
{
    a_sum_begins(result.template, text);
    a_sum_begins(result.closed, text);
}

/// Text behind the closed template leaves its beginning.
pub broadcast proof fn more_closed(result: ResultV, text: Seq<char>)
    ensures
        begins(result.closed, (#[trigger] result.with_closed(text)).closed),
{
    a_sum_begins(result.closed, text);
}

/// The templates of a child leave the beginnings.
pub broadcast proof fn more_of_a_child(result: ResultV, child: ResultV)
    ensures
        begins(result.template, (#[trigger] result.with_child_template(child)).template),
        begins(result.closed, result.with_child_template(child).closed),
{
    a_sum_begins(result.template, child.template);
    a_sum_begins(result.closed, child.template);
    a_sum_begins(result.closed, child.closed);
}

pub broadcast group group_lengthen {
    begins_with_itself,
    beginnings_nest,
    more_template,
    more_of_both,
    more_closed,
    more_of_a_child,
}

/// The templates of `after` begin with those of `before`.
pub open spec fn lengthens(before: ResultV, after: ResultV) -> bool {
    begins(before.template, after.template) && begins(before.closed, after.closed)
}

} // verus!
