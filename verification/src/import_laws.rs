//! The order in which the helpers are imported.

use crate::imports::{
    any_marked, behind_last, first_at, first_at_is, followers_moved, fronted, inserts_last, marked,
    only, template_leads, walkers_first, Mark,
};
use crate::ir::ImportV;
use vstd::prelude::*;

verus! {

/// No two imports have one name.
pub open spec fn are_distinct(list: Seq<ImportV>) -> bool {
    forall|i: int, j: int|
        0 <= i < j < list.len() ==> (#[trigger] list[i]).0 != (#[trigger] list[j]).0
}

/// Where a helper stands among those that walk over a hydrated document.
pub open spec fn rank(name: Seq<char>) -> int {
    if name == "template"@ {
        0
    } else if name == "getNextElement"@ {
        1
    } else if name == "getNextMatch"@ {
        2
    } else if name == "NoHydration"@ {
        3
    } else if name == "getNextMarker"@ {
        4
    } else {
        5
    }
}

/// The ranks do not fall, and none is above this one.
pub open spec fn rises_to(list: Seq<ImportV>, top: int) -> bool {
    &&& forall|i: int| 0 <= i < list.len() ==> rank((#[trigger] list[i]).0) <= top
    &&& forall|i: int, j: int|
        0 <= i < j < list.len() ==> rank((#[trigger] list[i]).0) <= rank((#[trigger] list[j]).0)
}

proof fn names_have_their_ranks()
    ensures
        rank("template"@) == 0,
        rank("getNextElement"@) == 1,
        rank("getNextMatch"@) == 2,
        rank("NoHydration"@) == 3,
        rank("getNextMarker"@) == 4,
{
    reveal_strlit("template");
    reveal_strlit("getNextElement");
    reveal_strlit("getNextMatch");
    reveal_strlit("NoHydration");
    reveal_strlit("getNextMarker");
    assert("getNextElement"@.len() == 14);
    assert("getNextMatch"@.len() == 12);
    assert("NoHydration"@.len() == 11);
    assert("getNextMarker"@.len() == 13);
    assert("template"@.len() == 8);
}

proof fn one_is_fronted(front: Seq<ImportV>, rest: Seq<ImportV>, name: Seq<char>, top: int)
    requires
        rises_to(front, top),
        rank(name) == top + 1,
        are_distinct(rest),
    ensures
        rises_to(fronted(front, rest, name).0, top + 1),
        are_distinct(fronted(front, rest, name).1),
        forall|i: int|
            0 <= i < fronted(front, rest, name).1.len() ==> (#[trigger] fronted(
                front,
                rest,
                name,
            ).1[i]).0 != name && rest.contains(fronted(front, rest, name).1[i]),
{
    first_at_is(rest, name);
    let parts = fronted(front, rest, name);
    if let Some(at) = first_at(rest, name) {
        let at = at as int;
        assert forall|i: int| 0 <= i < parts.1.len() implies (#[trigger] parts.1[i]).0 != name
            && rest.contains(parts.1[i]) by {
            if i < at {
                assert(parts.1[i] == rest[i]);
            } else {
                assert(parts.1[i] == rest[i + 1]);
                assert(rest[at].0 != rest[i + 1].0);
            }
        }
        assert forall|i: int, j: int| 0 <= i < j < parts.1.len() implies (#[trigger] parts.1[i]).0
            != (#[trigger] parts.1[j]).0 by {
            let a = if i < at {
                i
            } else {
                i + 1
            };
            let b = if j < at {
                j
            } else {
                j + 1
            };
            assert(parts.1[i] == rest[a] && parts.1[j] == rest[b]);
        }
    } else {
        assert(parts.0 =~= front);
        assert forall|i: int| 0 <= i < parts.1.len() implies (#[trigger] parts.1[i]).0 != name
            && rest.contains(parts.1[i]) by {
            assert(parts.1[i] == rest[i]);
        }
    }
}

proof fn others_stay(list: Seq<ImportV>)
    requires
        template_leads(list),
    ensures
        only(list, Mark::Template, false, seq![], seq![]) == if list.len() > 0 && list[0].0
            == "template"@ {
            list.skip(1)
        } else {
            list
        },
    decreases list.len(),
{
    if list.len() > 0 {
        let front = list.drop_last();
        assert forall|i: int| 0 < i < front.len() implies (#[trigger] front[i]).0
            != "template"@ by {
            assert(list[i] == front[i]);
        }
        others_stay(front);
        let rest = only(list, Mark::Template, false, seq![], seq![]);
        if list.len() == 1 {
            assert(front =~= seq![]);
            assert(only(front, Mark::Template, false, seq![], seq![]) =~= seq![]);
            if list[0].0 == "template"@ {
                assert(rest =~= list.skip(1));
            } else {
                assert(rest =~= list);
            }
        } else {
            assert(front[0] == list[0]);
            assert(list[list.len() - 1].0 != "template"@);
            if list[0].0 == "template"@ {
                assert(rest =~= list.skip(1));
            } else {
                assert(rest =~= list);
            }
        }
    } else {
        assert(only(list, Mark::Template, false, seq![], seq![]) =~= list);
    }
}

/// Where the next match is searched for, the helpers that walk over the document
/// come first, in the order in which they are used; where it is not, nothing
/// moves.
pub proof fn walkers_come_first(list: Seq<ImportV>)
    requires
        are_distinct(list),
        template_leads(list),
    ensures
        first_at(list, "getNextMatch"@) is None ==> walkers_first(list) == list,
        first_at(list, "getNextMatch"@) is Some ==> rises_to(walkers_first(list), 5),
{
    reveal(walkers_first);
    if first_at(list, "getNextMatch"@) is Some {
        first_at_is(list, "getNextMatch"@);
        names_have_their_ranks();
        others_stay(list);
        let front = if list[0].0 == "template"@ {
            seq![list[0]]
        } else {
            seq![]
        };
        let rest = only(list, Mark::Template, false, seq![], seq![]);
        assert(are_distinct(rest));
        assert forall|i: int| 0 <= i < rest.len() implies (#[trigger] rest[i]).0 != "template"@ by {
        }
        let a = fronted(front, rest, "getNextElement"@);
        one_is_fronted(front, rest, "getNextElement"@, 0);
        let b = fronted(a.0, a.1, "getNextMatch"@);
        one_is_fronted(a.0, a.1, "getNextMatch"@, 1);
        let c = fronted(b.0, b.1, "NoHydration"@);
        one_is_fronted(b.0, b.1, "NoHydration"@, 2);
        let d = fronted(c.0, c.1, "getNextMarker"@);
        one_is_fronted(c.0, c.1, "getNextMarker"@, 3);
        let all = d.0 + d.1;
        assert forall|i: int| 0 <= i < d.1.len() implies rank((#[trigger] d.1[i]).0) == 5 by {
            let k = choose|k: int| 0 <= k < c.1.len() && c.1[k] == d.1[i];
            let l = choose|l: int| 0 <= l < b.1.len() && b.1[l] == c.1[k];
            let m = choose|m: int| 0 <= m < a.1.len() && a.1[m] == b.1[l];
            let n = choose|n: int| 0 <= n < rest.len() && rest[n] == a.1[m];
            assert(rest[n].0 != "template"@);
        }
        assert forall|i: int| 0 <= i < all.len() implies rank((#[trigger] all[i]).0) <= 5 by {}
        assert forall|i: int, j: int| 0 <= i < j < all.len() implies rank((#[trigger] all[i]).0)
            <= rank((#[trigger] all[j]).0) by {
            if j < d.0.len() {
                assert(all[i] == d.0[i] && all[j] == d.0[j]);
            } else {
                assert(all[j] == d.1[j - d.0.len()]);
            }
        }
    }
}

/// An import of the module of the browser that the base module has too.
pub open spec fn is_of_the_dom(import: ImportV, dom_module: Seq<char>, base_module: Seq<char>) -> bool {
    import.2 == dom_module && dom_module != base_module && (import.0 == "insert"@ || import.0
        == "use"@)
}

proof fn only_has_its_mark(
    list: Seq<ImportV>,
    mark: Mark,
    with: bool,
    dom_module: Seq<char>,
    base_module: Seq<char>,
)
    ensures
        forall|i: int|
            0 <= i < only(list, mark, with, dom_module, base_module).len() ==> marked(
                #[trigger] only(list, mark, with, dom_module, base_module)[i],
                mark,
                dom_module,
                base_module,
            ) == with,
    decreases list.len(),
{
    if list.len() > 0 {
        only_has_its_mark(list.drop_last(), mark, with, dom_module, base_module);
        let before = only(list.drop_last(), mark, with, dom_module, base_module);
        let all = only(list, mark, with, dom_module, base_module);
        assert forall|i: int| 0 <= i < all.len() implies marked(
            #[trigger] all[i],
            mark,
            dom_module,
            base_module,
        ) == with by {
            if i < before.len() {
                assert(all[i] == before[i]);
            }
        }
    }
}

/// Where two modules have an `insert`, that of the browser comes last, and
/// `insertNode` comes before `memo`.
pub proof fn inserts_of_the_dom_come_last(
    list: Seq<ImportV>,
    dom_module: Seq<char>,
    base_module: Seq<char>,
)
    ensures
        ({
            let out = inserts_last(list, dom_module, base_module);
            &&& forall|i: int, j: int|
                0 <= i < j < out.len() && is_of_the_dom(
                    #[trigger] out[i],
                    dom_module,
                    base_module,
                ) ==> is_of_the_dom(#[trigger] out[j], dom_module, base_module)
            &&& first_at(out, "insertNode"@) matches Some(node) ==> (first_at(out, "memo"@) matches
                Some(memo) ==> node < memo)
        }),
{
    reveal(inserts_last);
    reveal_strlit("insert");
    reveal_strlit("use");
    reveal_strlit("memo");
    reveal_strlit("insertNode");
    assert("insert"@.len() == 6);
    assert("use"@.len() == 3);
    assert("memo"@.len() == 4);
    assert("insertNode"@.len() == 10);
    let no = only(list, Mark::DomInsert, false, dom_module, base_module);
    let yes = only(list, Mark::DomInsert, true, dom_module, base_module);
    only_has_its_mark(list, Mark::DomInsert, false, dom_module, base_module);
    only_has_its_mark(list, Mark::DomInsert, true, dom_module, base_module);
    let moved = no + yes;
    assert forall|i: int, j: int|
        0 <= i < j < moved.len() && is_of_the_dom(
            #[trigger] moved[i],
            dom_module,
            base_module,
        ) implies is_of_the_dom(#[trigger] moved[j], dom_module, base_module) by {
        if i < no.len() {
            assert(moved[i] == no[i]);
        } else {
            assert(moved[j] == yes[j - no.len()]);
        }
    }
    first_at_is(moved, "memo"@);
    first_at_is(moved, "insertNode"@);
    let out = inserts_last(list, dom_module, base_module);
    first_at_is(out, "memo"@);
    first_at_is(out, "insertNode"@);
    if let (Some(memo), Some(node)) = (first_at(moved, "memo"@), first_at(moved, "insertNode"@)) {
        if memo < node {
            assert(out[memo as int] == moved[node as int]);
            assert(out[node as int] == moved[memo as int]);
            assert forall|k: int| 0 <= k <= memo implies (#[trigger] out[k]).0 != "memo"@ by {
                if k < memo {
                    assert(out[k] == moved[k]);
                }
            }
            assert(moved[memo as int].0 == "memo"@);
            assert(!is_of_the_dom(moved[node as int], dom_module, base_module));
            assert(!is_of_the_dom(moved[memo as int], dom_module, base_module));
            assert forall|i: int, j: int|
                0 <= i < j < out.len() && is_of_the_dom(
                    #[trigger] out[i],
                    dom_module,
                    base_module,
                ) implies is_of_the_dom(#[trigger] out[j], dom_module, base_module) by {
                assert(out[i] == moved[i]);
                if j == memo {
                    assert(is_of_the_dom(moved[j], dom_module, base_module));
                } else if j == node {
                    assert(is_of_the_dom(moved[j], dom_module, base_module));
                } else {
                    assert(out[j] == moved[j]);
                }
            }
        } else {
            assert(memo != node) by {
                assert(moved[memo as int].0 != moved[node as int].0);
            }
        }
    }
}

proof fn none_is_behind_the_last(list: Seq<ImportV>, mark: Mark)
    ensures
        any_marked(list, mark, seq![], seq![]) ==> behind_last(list, mark, seq![], seq![])
            <= list.len() && forall|k: int|
            behind_last(list, mark, seq![], seq![]) <= k < list.len() ==> !marked(
                #[trigger] list[k],
                mark,
                seq![],
                seq![],
            ),
    decreases list.len(),
{
    let none = Seq::<char>::empty();
    if any_marked(list, mark, none, none) && list.len() > 0 && !marked(
        list.last(),
        mark,
        none,
        none,
    ) {
        let front = list.drop_last();
        let w = choose|w: int| 0 <= w < list.len() && marked(#[trigger] list[w], mark, none, none);
        assert(front[w] == list[w]);
        none_is_behind_the_last(front, mark);
        assert forall|k: int|
            behind_last(list, mark, none, none) <= k < list.len() implies !marked(
            #[trigger] list[k],
            mark,
            none,
            none,
        ) by {
            if k < front.len() {
                assert(front[k] == list[k]);
            }
        }
    }
}

/// Some import has this name.
pub open spec fn imports(list: Seq<ImportV>, name: Seq<char>) -> bool {
    exists|i: int| 0 <= i < list.len() && (#[trigger] list[i]).0 == name
}

/// Where elements are created and set by the universal renderer and nothing else
/// of the browser than an attribute is set in an effect, `setAttribute` and
/// `effect` come behind the helpers that make an element.
pub proof fn what_sets_comes_behind_what_makes(list: Seq<ImportV>)
    ensures
        ({
            let out = followers_moved(list);
            let moves = (imports(list, "setProp"@) || imports(list, "createElement"@)) && imports(
                list,
                "setAttribute"@,
            ) && imports(list, "effect"@) && !imports(list, "style"@) && !imports(
                list,
                "setStyleProperty"@,
            ) && !imports(list, "className"@) && !imports(list, "addEventListener"@) && !imports(
                list,
                "delegateEvents"@,
            );
            &&& !moves ==> out == list
            &&& moves ==> forall|i: int, j: int|
                0 <= i < out.len() && 0 <= j < out.len() && ((#[trigger] out[i]).0 == "setProp"@
                    || out[i].0 == "createElement"@) && ((#[trigger] out[j]).0 == "setAttribute"@
                    || out[j].0 == "effect"@) ==> i < j
        }),
{
    reveal(followers_moved);
    let none = Seq::<char>::empty();
    first_at_is(list, "setAttribute"@);
    first_at_is(list, "effect"@);
    assert(any_marked(list, Mark::Maker, none, none) <==> (imports(list, "setProp"@) || imports(
        list,
        "createElement"@,
    ))) by {
        if any_marked(list, Mark::Maker, none, none) {
            let i = choose|i: int|
                0 <= i < list.len() && marked(#[trigger] list[i], Mark::Maker, none, none);
            assert(list[i].0 == "setProp"@ || list[i].0 == "createElement"@);
        }
        if imports(list, "setProp"@) {
            let i = choose|i: int| 0 <= i < list.len() && (#[trigger] list[i]).0 == "setProp"@;
            assert(marked(list[i], Mark::Maker, none, none));
        }
        if imports(list, "createElement"@) {
            let i = choose|i: int|
                0 <= i < list.len() && (#[trigger] list[i]).0 == "createElement"@;
            assert(marked(list[i], Mark::Maker, none, none));
        }
    }
    if any_marked(list, Mark::Keeper, none, none) {
        let i = choose|i: int|
            0 <= i < list.len() && marked(#[trigger] list[i], Mark::Keeper, none, none);
        assert(list[i].0 == list[i].0);
    } else {
        assert forall|i: int| 0 <= i < list.len() implies !marked(
            #[trigger] list[i],
            Mark::Keeper,
            none,
            none,
        ) by {}
    }
    if any_marked(list, Mark::Maker, none, none) && first_at(list, "setAttribute"@) is Some
        && first_at(list, "effect"@) is Some && !any_marked(list, Mark::Keeper, none, none) {
        let moved = only(list, Mark::Follower, true, none, none);
        let kept = only(list, Mark::Follower, false, none, none);
        only_has_its_mark(list, Mark::Follower, true, none, none);
        only_has_its_mark(list, Mark::Follower, false, none, none);
        let at = behind_last(kept, Mark::Maker, none, none) as int;
        none_is_behind_the_last(kept, Mark::Maker);
        names_of_makers_and_followers();
        only_holds_the_makers(list);
        let out = kept.take(at) + moved + kept.skip(at);
        assert forall|i: int, j: int|
            0 <= i < out.len() && 0 <= j < out.len() && ((#[trigger] out[i]).0 == "setProp"@
                || out[i].0 == "createElement"@) && ((#[trigger] out[j]).0 == "setAttribute"@
                || out[j].0 == "effect"@) implies i < j by {
            if i >= at && i < at + moved.len() {
                assert(out[i] == moved[i - at]);
                assert(marked(moved[i - at], Mark::Follower, none, none));
            } else if i >= at {
                assert(out[i] == kept[i - moved.len()]);
                assert(marked(kept[i - moved.len()], Mark::Maker, none, none));
            }
            if j < at {
                assert(out[j] == kept[j]);
                assert(!marked(kept[j], Mark::Follower, none, none));
            }
        }
    }
}

proof fn names_of_makers_and_followers()
    ensures
        forall|name: Seq<char>|
            #![trigger rank(name)]
            name == "setProp"@ || name == "createElement"@ ==> name != "setAttribute"@ && name
                != "effect"@,
        "setProp"@ != "setAttribute"@,
        "setProp"@ != "effect"@,
        "createElement"@ != "setAttribute"@,
        "createElement"@ != "effect"@,
{
    reveal_strlit("setProp");
    reveal_strlit("createElement");
    reveal_strlit("setAttribute");
    reveal_strlit("effect");
    assert("setProp"@.len() == 7);
    assert("createElement"@.len() == 13);
    assert("setAttribute"@.len() == 12);
    assert("effect"@.len() == 6);
}

proof fn only_holds_the_makers(list: Seq<ImportV>)
    ensures
        any_marked(list, Mark::Maker, seq![], seq![]) ==> any_marked(
            only(list, Mark::Follower, false, seq![], seq![]),
            Mark::Maker,
            seq![],
            seq![],
        ),
    decreases list.len(),
{
    let none = Seq::<char>::empty();
    names_of_makers_and_followers();
    if any_marked(list, Mark::Maker, none, none) {
        let front = list.drop_last();
        let before = only(front, Mark::Follower, false, none, none);
        let all = only(list, Mark::Follower, false, none, none);
        if marked(list.last(), Mark::Maker, none, none) {
            assert(all[all.len() - 1] == list.last());
        } else {
            let w = choose|w: int|
                0 <= w < list.len() && marked(#[trigger] list[w], Mark::Maker, none, none);
            assert(front[w] == list[w]);
            only_holds_the_makers(front);
            let k = choose|k: int|
                0 <= k < before.len() && marked(#[trigger] before[k], Mark::Maker, none, none);
            assert(all[k] == before[k]);
        }
    }
}

} // verus!
