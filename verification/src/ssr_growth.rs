//! Steps of a server render: what was asked for and written stays.

use crate::ssr::{PartV, RequestV, SsrContextV, SsrResultV};
use vstd::prelude::*;

verus! {

/// What `before` has asked for, `after` has asked for too and under the same
/// number.
#[verifier::opaque]
pub open spec fn asks_more(before: SsrContextV, after: SsrContextV) -> bool {
    &&& after.hydratable == before.hydratable
    &&& after.source == before.source
    &&& before.requests.is_prefix_of(after.requests)
}

/// What stands in `before` stands first in `after`, which is a result of the
/// same element.
#[verifier::opaque]
pub open spec fn writes_more(before: SsrResultV, after: SsrResultV) -> bool {
    &&& after.span == before.span
    &&& after.spread_element == before.spread_element
    &&& after.exprs == before.exprs
    &&& before.parts.is_prefix_of(after.parts)
}

/// No request leaves the requests.
pub broadcast proof fn nothing_is_asked(ctx: SsrContextV)
    ensures
        #[trigger] asks_more(ctx, ctx),
{
    reveal(asks_more);
}

/// What stays through two steps stays through both.
pub broadcast proof fn requests_add_up(a: SsrContextV, b: SsrContextV, c: SsrContextV)
    requires
        #[trigger] asks_more(a, b),
        #[trigger] asks_more(b, c),
    ensures
        asks_more(a, c),
{
    reveal(asks_more);
    let n = a.requests.len() as int;
    assert(c.requests.take(n) =~= b.requests.take(n));
}

/// A request leaves those before it.
pub broadcast proof fn a_request_is_asked(ctx: SsrContextV, request: RequestV)
    ensures
        asks_more(ctx, #[trigger] ctx.with_request(request)),
{
    reveal(asks_more);
}

/// No part leaves the parts.
pub broadcast proof fn nothing_is_written(result: SsrResultV)
    ensures
        #[trigger] writes_more(result, result),
{
    reveal(writes_more);
}

/// What stays through two steps stays through both.
pub broadcast proof fn parts_add_up(a: SsrResultV, b: SsrResultV, c: SsrResultV)
    requires
        #[trigger] writes_more(a, b),
        #[trigger] writes_more(b, c),
    ensures
        writes_more(a, c),
{
    reveal(writes_more);
    let n = a.parts.len() as int;
    assert(c.parts.take(n) =~= b.parts.take(n));
}

/// A part leaves those before it.
pub broadcast proof fn a_part_is_written(result: SsrResultV, part: PartV)
    ensures
        writes_more(result, #[trigger] result.with_part(part)),
{
    reveal(writes_more);
}

/// A child leaves the parts before it.
pub broadcast proof fn a_child_is_written(result: SsrResultV, child: SsrResultV)
    ensures
        writes_more(result, #[trigger] result.merged(child)),
{
    reveal(writes_more);
    assert(result.merged(child).parts.take(result.parts.len() as int) =~= result.parts);
}

pub broadcast group group_server_growth {
    nothing_is_asked,
    requests_add_up,
    a_request_is_asked,
    nothing_is_written,
    parts_add_up,
    a_part_is_written,
    a_child_is_written,
}

} // verus!
