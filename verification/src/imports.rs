//! The order in which the helpers of a file are imported.

use crate::ir::{HelperImport, ImportV};
use crate::outside::same;
use crate::vocabulary::contains;
use crate::text::texts;
use vstd::prelude::*;

verus! {

// ---------------------------------------------------------------------------
// Lists of imports
// ---------------------------------------------------------------------------

pub open spec fn import_values(items: Seq<HelperImport>) -> Seq<ImportV> {
    items.map_values(|i: HelperImport| i@)
}

/// Helpers that are moved together.
#[derive(Copy, Clone, PartialEq, Eq, Structural, Debug)]
pub enum Mark {
    Template,
    /// Helpers that make elements of the universal renderer.
    Maker,
    /// Helpers that follow the makers.
    Follower,
    /// Helpers beside which followers stay where they are.
    Keeper,
    /// Insertions of a DOM renderer with a module of its own.
    DomInsert,
}

pub open spec fn marked(
    import: ImportV,
    mark: Mark,
    dom_module: Seq<char>,
    base_module: Seq<char>,
) -> bool {
    let name = import.0;
    match mark {
        Mark::Template => name == "template"@,
        Mark::Maker => name == "setProp"@ || name == "createElement"@,
        Mark::Follower => name == "setAttribute"@ || name == "effect"@,
        Mark::Keeper => name == "style"@ || name == "setStyleProperty"@ || name == "className"@
            || name == "addEventListener"@ || name == "delegateEvents"@,
        Mark::DomInsert => import.2 == dom_module && import.2 != base_module && (name
            == "insert"@ || name == "use"@),
    }
}

fn has_mark(import: &HelperImport, mark: Mark, dom_module: &str, base_module: &str) -> (yes: bool)
    ensures
        yes == marked(import@, mark, dom_module@, base_module@),
{
    let name = import.imported.as_str();
    let module = import.module.as_str();
    match mark {
        Mark::Template => same(name, "template"),
        Mark::Maker => same(name, "setProp") || same(name, "createElement"),
        Mark::Follower => same(name, "setAttribute") || same(name, "effect"),
        Mark::Keeper => same(name, "style") || same(name, "setStyleProperty") || same(
            name,
            "className",
        ) || same(name, "addEventListener") || same(name, "delegateEvents"),
        Mark::DomInsert => same(module, dom_module) && !same(module, base_module) && (same(
            name,
            "insert",
        ) || same(name, "use")),
    }
}

/// The imports that have a mark, or those that have not, in their order.
pub open spec fn only(
    list: Seq<ImportV>,
    mark: Mark,
    with: bool,
    dom_module: Seq<char>,
    base_module: Seq<char>,
) -> Seq<ImportV>
    decreases list.len(),
{
    if list.len() == 0 {
        seq![]
    } else {
        let before = only(list.drop_last(), mark, with, dom_module, base_module);
        if marked(list.last(), mark, dom_module, base_module) == with {
            before.push(list.last())
        } else {
            before
        }
    }
}

/// Some import has a mark.
pub open spec fn any_marked(
    list: Seq<ImportV>,
    mark: Mark,
    dom_module: Seq<char>,
    base_module: Seq<char>,
) -> bool {
    exists|i: int| 0 <= i < list.len() && marked(#[trigger] list[i], mark, dom_module, base_module)
}

/// The position of the first import of this name.
pub open spec fn first_at(list: Seq<ImportV>, name: Seq<char>) -> Option<nat>
    decreases list.len(),
{
    if list.len() == 0 {
        None
    } else {
        match first_at(list.drop_last(), name) {
            Some(at) => Some(at),
            None => if list.last().0 == name {
                Some((list.len() - 1) as nat)
            } else {
                None
            },
        }
    }
}

/// Behind the last import that has a mark; behind all where there is none.
pub open spec fn behind_last(
    list: Seq<ImportV>,
    mark: Mark,
    dom_module: Seq<char>,
    base_module: Seq<char>,
) -> nat
    decreases list.len(),
{
    if any_marked(list, mark, dom_module, base_module) {
        if list.len() == 0 || marked(list.last(), mark, dom_module, base_module) {
            list.len()
        } else {
            behind_last(list.drop_last(), mark, dom_module, base_module)
        }
    } else {
        list.len()
    }
}

/// The first import of this name, drawn out of the rest.
pub open spec fn drawn(list: Seq<ImportV>, name: Seq<char>) -> (Seq<ImportV>, Seq<ImportV>) {
    match first_at(list, name) {
        Some(at) => (seq![list[at as int]], list.remove(at as int)),
        None => (seq![], list),
    }
}

/// Where the first import of a name stands, it has the name and none before it
/// has; where there is none, no import has it.
pub proof fn first_at_is(list: Seq<ImportV>, name: Seq<char>)
    ensures
        match first_at(list, name) {
            Some(at) => at < list.len() && list[at as int].0 == name && forall|k: int|
                0 <= k < at ==> (#[trigger] list[k]).0 != name,
            None => forall|k: int| 0 <= k < list.len() ==> (#[trigger] list[k]).0 != name,
        },
    decreases list.len(),
{
    if list.len() > 0 {
        first_at_is(list.drop_last(), name);
        let front = list.drop_last();
        assert forall|k: int| 0 <= k < front.len() implies #[trigger] list[k] == front[k] by {}
    }
}

fn first_index(list: &Vec<HelperImport>, name: &str) -> (found: Option<usize>)
    ensures
        match found {
            Some(at) => at < list.len() && first_at(import_values(list@), name@) == Some(at as nat),
            None => first_at(import_values(list@), name@) is None,
        },
{
    proof {
        first_at_is(import_values(list@), name@);
    }
    let mut i: usize = 0;
    while i < list.len()
        invariant
            i <= list.len(),
            forall|k: int| 0 <= k < i ==> (#[trigger] import_values(list@)[k]).0 != name@,
        decreases list.len() - i,
    {
        proof {
            first_at_is(import_values(list@), name@);
            assert(import_values(list@)[i as int] == list@[i as int]@);
        }
        if same(list[i].imported.as_str(), name) {
            return Some(i);
        }
        i = i + 1;
    }
    None
}

fn any_with_mark(list: &Vec<HelperImport>, mark: Mark, dom_module: &str, base_module: &str) -> (yes:
    bool)
    ensures
        yes == any_marked(import_values(list@), mark, dom_module@, base_module@),
{
    let mut i: usize = 0;
    while i < list.len()
        invariant
            i <= list.len(),
            forall|k: int|
                0 <= k < i ==> !marked(
                    #[trigger] import_values(list@)[k],
                    mark,
                    dom_module@,
                    base_module@,
                ),
        decreases list.len() - i,
    {
        proof {
            assert(import_values(list@)[i as int] == list@[i as int]@);
        }
        if has_mark(&list[i], mark, dom_module, base_module) {
            return true;
        }
        i = i + 1;
    }
    false
}

/// A copy of an import.
fn copied_import(import: &HelperImport) -> (copy: HelperImport)
    ensures
        copy@ == import@,
{
    HelperImport {
        imported: import.imported.clone(),
        local: import.local.clone(),
        module: import.module.clone(),
    }
}

/// The imports that have a mark, and those that have not.
fn divided(list: &Vec<HelperImport>, mark: Mark, dom_module: &str, base_module: &str) -> (parts: (
    Vec<HelperImport>,
    Vec<HelperImport>,
))
    ensures
        import_values(parts.0@) == only(
            import_values(list@),
            mark,
            true,
            dom_module@,
            base_module@,
        ),
        import_values(parts.1@) == only(
            import_values(list@),
            mark,
            false,
            dom_module@,
            base_module@,
        ),
{
    let ghost all = import_values(list@);
    let mut yes: Vec<HelperImport> = Vec::new();
    let mut no: Vec<HelperImport> = Vec::new();
    let mut i: usize = 0;
    proof {
        assert(import_values(yes@) =~= seq![]);
        assert(import_values(no@) =~= seq![]);
    }
    while i < list.len()
        invariant
            i <= list.len(),
            all == import_values(list@),
            import_values(yes@) == only(
                all.take(i as int),
                mark,
                true,
                dom_module@,
                base_module@,
            ),
            import_values(no@) == only(
                all.take(i as int),
                mark,
                false,
                dom_module@,
                base_module@,
            ),
        decreases list.len() - i,
    {
        let item = copied_import(&list[i]);
        let ghost value = item@;
        let ghost yes0 = yes@;
        let ghost no0 = no@;
        proof {
            assert(all.take(i + 1).drop_last() =~= all.take(i as int));
            assert(all.take(i + 1).last() == value);
        }
        if has_mark(&list[i], mark, dom_module, base_module) {
            yes.push(item);
            proof {
                assert(import_values(yes@) =~= import_values(yes0).push(value));
            }
        } else {
            no.push(item);
            proof {
                assert(import_values(no@) =~= import_values(no0).push(value));
            }
        }
        i = i + 1;
    }
    proof {
        assert(all.take(all.len() as int) =~= all);
    }
    (yes, no)
}

fn reversed(list: Vec<HelperImport>) -> (back: Vec<HelperImport>)
    ensures
        import_values(back@) == import_values(list@).reverse(),
{
    let mut back: Vec<HelperImport> = Vec::new();
    let mut i: usize = list.len();
    while i > 0
        invariant
            i <= list.len(),
            back@.len() == list@.len() - i,
            forall|k: int|
                0 <= k < back@.len() ==> (#[trigger] back@[k])@ == list@[list@.len() - 1 - k]@,
        decreases i,
    {
        i = i - 1;
        back.push(copied_import(&list[i]));
    }
    proof {
        assert(import_values(back@) =~= import_values(list@).reverse());
    }
    back
}

fn append(list: &mut Vec<HelperImport>, more: Vec<HelperImport>)
    ensures
        import_values(final(list)@) == import_values(old(list)@) + import_values(more@),
{
    let mut more = more;
    let ghost added = more@;
    list.append(&mut more);
    proof {
        assert(import_values(list@) =~= import_values(old(list)@) + import_values(added));
    }
}

// ---------------------------------------------------------------------------
// Steps of the order
// ---------------------------------------------------------------------------

/// The first import of a name goes behind `front`, out of `rest`.
pub open spec fn fronted(front: Seq<ImportV>, rest: Seq<ImportV>, name: Seq<char>) -> (
    Seq<ImportV>,
    Seq<ImportV>,
) {
    let parts = drawn(rest, name);
    (front + parts.0, parts.1)
}

/// When hydrating a document, the helpers that walk it come first.
#[verifier::opaque]
pub open spec fn walkers_first(list: Seq<ImportV>) -> Seq<ImportV> {
    if first_at(list, "getNextMatch"@) is None {
        list
    } else {
        let front = if list[0].0 == "template"@ {
            seq![list[0]]
        } else {
            seq![]
        };
        let rest = only(list, Mark::Template, false, seq![], seq![]);
        let a = fronted(front, rest, "getNextElement"@);
        let b = fronted(a.0, a.1, "getNextMatch"@);
        let c = fronted(b.0, b.1, "NoHydration"@);
        let d = fronted(c.0, c.1, "getNextMarker"@);
        d.0 + d.1
    }
}

fn bring_front(front: &mut Vec<HelperImport>, rest: &mut Vec<HelperImport>, name: &str)
    ensures
        (import_values(final(front)@), import_values(final(rest)@)) == fronted(
            import_values(old(front)@),
            import_values(old(rest)@),
            name@,
        ),
{
    match first_index(rest, name) {
        Some(at) => {
            let item = rest.remove(at);
            front.push(item);
            proof {
                assert(import_values(front@) =~= import_values(old(front)@) + seq![
                    import_values(old(rest)@)[at as int],
                ]);
                assert(import_values(rest@) =~= import_values(old(rest)@).remove(at as int));
            }
        },
        None => {
            proof {
                assert(import_values(front@) =~= import_values(old(front)@) + seq![]);
            }
        },
    }
}

fn put_walkers_first(list: Vec<HelperImport>) -> (ordered: Vec<HelperImport>)
    ensures
        import_values(ordered@) == walkers_first(import_values(list@)),
{
    proof {
        reveal(walkers_first);
        first_at_is(import_values(list@), "getNextMatch"@);
        reveal_strlit("");
        assert(""@ =~= seq![]);
    }
    if first_index(&list, "getNextMatch").is_none() {
        return list;
    }
    let mut front: Vec<HelperImport> = Vec::new();
    if same(list[0].imported.as_str(), "template") {
        front.push(copied_import(&list[0]));
    }
    proof {
        let all = import_values(list@);
        assert(all[0] == list@[0]@);
        assert(import_values(front@) =~= if all[0].0 == "template"@ {
            seq![all[0]]
        } else {
            seq![]
        });
    }
    let (_templates, mut rest) = divided(&list, Mark::Template, "", "");
    bring_front(&mut front, &mut rest, "getNextElement");
    bring_front(&mut front, &mut rest, "getNextMatch");
    bring_front(&mut front, &mut rest, "NoHydration");
    bring_front(&mut front, &mut rest, "getNextMarker");
    append(&mut front, rest);
    front
}

/// The order where all helpers come from one module: `template` first, then the
/// last registered first; `createComponent` goes before `insert` where there
/// is nothing else.
#[verifier::opaque]
pub open spec fn plain_order(list: Seq<ImportV>, universal: bool) -> Seq<ImportV> {
    let kept = if universal {
        only(list, Mark::Template, false, seq![], seq![])
    } else {
        list
    };
    let parts = drawn(kept, "template"@);
    let turned = parts.0 + parts.1.reverse();
    let swapped = if turned.len() == 3 && turned[0].0 == "template"@ && turned[1].0 == "insert"@
        && turned[2].0 == "createComponent"@ {
        seq![turned[0], turned[2], turned[1]]
    } else {
        turned
    };
    walkers_first(swapped)
}

/// The order where all helpers come from one module.
pub fn order_helpers(list: Vec<HelperImport>, universal: bool) -> (ordered: Vec<HelperImport>)
    ensures
        import_values(ordered@) == plain_order(import_values(list@), universal),
{
    proof {
        reveal(plain_order);
        reveal_strlit("");
        assert(""@ =~= seq![]);
    }
    let mut rest = if universal {
        let (_templates, rest) = divided(&list, Mark::Template, "", "");
        rest
    } else {
        list
    };
    let mut turned: Vec<HelperImport> = Vec::new();
    proof {
        assert(import_values(turned@) =~= seq![]);
    }
    let ghost kept = import_values(rest@);
    bring_front(&mut turned, &mut rest, "template");
    proof {
        assert(import_values(turned@) =~= drawn(kept, "template"@).0);
    }
    append(&mut turned, reversed(rest));
    let ghost value = import_values(turned@);
    if turned.len() == 3 && same(turned[0].imported.as_str(), "template") && same(
        turned[1].imported.as_str(),
        "insert",
    ) && same(turned[2].imported.as_str(), "createComponent") {
        let item = turned.remove(1);
        turned.push(item);
        proof {
            assert(import_values(turned@) =~= seq![value[0], value[2], value[1]]);
        }
    }
    put_walkers_first(turned)
}

/// Two helpers of the name `insert` come from different modules.
pub open spec fn inserts_collide(list: Seq<ImportV>) -> bool {
    exists|i: int, j: int|
        0 <= i < list.len() && 0 <= j < list.len() && (#[trigger] list[i]).0 == "insert"@ && (
        #[trigger] list[j]).0 == "insert"@ && list[i].2 != list[j].2
}

fn insert_collision(list: &Vec<HelperImport>) -> (yes: bool)
    ensures
        yes == inserts_collide(import_values(list@)),
{
    let ghost all = import_values(list@);
    let mut first: Option<usize> = None;
    let mut i: usize = 0;
    while i < list.len()
        invariant
            i <= list.len(),
            all == import_values(list@),
            match first {
                None => forall|k: int| 0 <= k < i ==> (#[trigger] all[k]).0 != "insert"@,
                Some(at) => at < i && all[at as int].0 == "insert"@ && forall|k: int|
                    0 <= k < i && (#[trigger] all[k]).0 == "insert"@ ==> all[k].2
                        == all[at as int].2,
            },
        decreases list.len() - i,
    {
        proof {
            assert(all[i as int] == list@[i as int]@);
        }
        if same(list[i].imported.as_str(), "insert") {
            match first {
                Some(at) => {
                    proof {
                        assert(all[at as int] == list@[at as int]@);
                    }
                    if !same(list[i].module.as_str(), list[at].module.as_str()) {
                        return true;
                    }
                },
                None => {
                    first = Some(i);
                },
            }
        }
        i = i + 1;
    }
    false
}

/// Insertions of the DOM renderer go to the end, and `insertNode` before
/// `memo`.
#[verifier::opaque]
pub open spec fn inserts_last(
    list: Seq<ImportV>,
    dom_module: Seq<char>,
    base_module: Seq<char>,
) -> Seq<ImportV> {
    let moved = only(list, Mark::DomInsert, false, dom_module, base_module) + only(
        list,
        Mark::DomInsert,
        true,
        dom_module,
        base_module,
    );
    match (first_at(moved, "memo"@), first_at(moved, "insertNode"@)) {
        (Some(memo), Some(node)) => if memo < node {
            moved.update(memo as int, moved[node as int]).update(
                node as int,
                moved[memo as int],
            )
        } else {
            moved
        },
        _ => moved,
    }
}

fn put_inserts_last(list: Vec<HelperImport>, dom_module: &str, base_module: &str) -> (ordered: Vec<
    HelperImport,
>)
    ensures
        import_values(ordered@) == inserts_last(
            import_values(list@),
            dom_module@,
            base_module@,
        ),
{
    proof {
        reveal(inserts_last);
    }
    let (tail, mut moved) = divided(&list, Mark::DomInsert, dom_module, base_module);
    append(&mut moved, tail);
    let ghost value = import_values(moved@);
    if let Some(memo) = first_index(&moved, "memo") {
        if let Some(node) = first_index(&moved, "insertNode") {
            if memo < node {
                let a = copied_import(&moved[memo]);
                let b = copied_import(&moved[node]);
                moved.set(memo, b);
                moved.set(node, a);
                proof {
                    assert(import_values(moved@) =~= value.update(
                        memo as int,
                        value[node as int],
                    ).update(node as int, value[memo as int]));
                }
            }
        }
    }
    moved
}

/// `setAttribute` and `effect` go behind the helpers that make elements of the
/// universal renderer.
#[verifier::opaque]
pub open spec fn followers_moved(list: Seq<ImportV>) -> Seq<ImportV> {
    let none = Seq::<char>::empty();
    if any_marked(list, Mark::Maker, none, none) && first_at(list, "setAttribute"@) is Some
        && first_at(list, "effect"@) is Some && !any_marked(list, Mark::Keeper, none, none) {
        let moved = only(list, Mark::Follower, true, none, none);
        let kept = only(list, Mark::Follower, false, none, none);
        let at = behind_last(kept, Mark::Maker, none, none) as int;
        kept.take(at) + moved + kept.skip(at)
    } else {
        list
    }
}

proof fn behind_last_is(
    list: Seq<ImportV>,
    mark: Mark,
    dom_module: Seq<char>,
    base_module: Seq<char>,
    at: int,
)
    requires
        0 <= at < list.len(),
        marked(list[at], mark, dom_module, base_module),
        forall|k: int|
            at < k < list.len() ==> !marked(#[trigger] list[k], mark, dom_module, base_module),
    ensures
        behind_last(list, mark, dom_module, base_module) == at + 1,
    decreases list.len(),
{
    assert(any_marked(list, mark, dom_module, base_module));
    if at + 1 < list.len() {
        let front = list.drop_last();
        assert(front[at] == list[at]);
        assert forall|k: int| at < k < front.len() implies !marked(
            #[trigger] front[k],
            mark,
            dom_module,
            base_module,
        ) by {
            assert(front[k] == list[k]);
        }
        behind_last_is(front, mark, dom_module, base_module, at);
    }
}

fn last_maker(list: &Vec<HelperImport>) -> (at: usize)
    ensures
        at <= list.len(),
        at == behind_last(import_values(list@), Mark::Maker, seq![], seq![]),
{
    let ghost all = import_values(list@);
    proof {
        reveal_strlit("");
        assert(""@ =~= seq![]);
    }
    let mut i: usize = list.len();
    while i > 0
        invariant
            i <= list.len(),
            all == import_values(list@),
            ""@ == Seq::<char>::empty(),
            forall|k: int|
                i <= k < all.len() ==> !marked(#[trigger] all[k], Mark::Maker, seq![], seq![]),
        decreases i,
    {
        proof {
            assert(all[i - 1] == list@[i - 1]@);
        }
        if has_mark(&list[i - 1], Mark::Maker, "", "") {
            proof {
                behind_last_is(all, Mark::Maker, seq![], seq![], i - 1);
            }
            return i;
        }
        i = i - 1;
    }
    list.len()
}

fn move_followers(list: Vec<HelperImport>) -> (ordered: Vec<HelperImport>)
    ensures
        import_values(ordered@) == followers_moved(import_values(list@)),
{
    proof {
        reveal(followers_moved);
        reveal_strlit("");
        assert(""@ =~= Seq::<char>::empty());
    }
    if any_with_mark(&list, Mark::Maker, "", "") && first_index(&list, "setAttribute").is_some()
        && first_index(&list, "effect").is_some() && !any_with_mark(&list, Mark::Keeper, "", "") {
        let (moved, mut kept) = divided(&list, Mark::Follower, "", "");
        let at: usize = last_maker(&kept);
        let ghost value = import_values(kept@);
        let tail = kept.split_off(at);
        proof {
            assert(import_values(kept@) =~= value.take(at as int));
            assert(import_values(tail@) =~= value.skip(at as int));
        }
        append(&mut kept, moved);
        append(&mut kept, tail);
        kept
    } else {
        list
    }
}

/// The order where helpers come from several modules.
#[verifier::opaque]
pub open spec fn mixed_order(
    list: Seq<ImportV>,
    dom_module: Seq<char>,
    base_module: Seq<char>,
) -> Seq<ImportV> {
    let turned = only(list, Mark::Template, true, dom_module, base_module) + only(
        list,
        Mark::Template,
        false,
        dom_module,
        base_module,
    ).reverse();
    let parted = if inserts_collide(list) {
        inserts_last(turned, dom_module, base_module)
    } else {
        turned
    };
    walkers_first(followers_moved(parted))
}

/// The order where helpers come from several modules.
pub fn order_mixed_helpers(list: Vec<HelperImport>, dom_module: &str, base_module: &str) -> (ordered:
    Vec<HelperImport>)
    ensures
        import_values(ordered@) == mixed_order(
            import_values(list@),
            dom_module@,
            base_module@,
        ),
{
    proof {
        reveal(mixed_order);
    }
    let (mut turned, rest) = divided(&list, Mark::Template, dom_module, base_module);
    append(&mut turned, reversed(rest));
    let parted = if insert_collision(&list) {
        put_inserts_last(turned, dom_module, base_module)
    } else {
        turned
    };
    put_walkers_first(move_followers(parted))
}

// ---------------------------------------------------------------------------
// Imports that are there already
// ---------------------------------------------------------------------------

/// The imports whose local names are new, with the names that are then taken.
pub open spec fn new_imports(list: Seq<ImportV>, taken: Seq<Seq<char>>) -> (
    Seq<ImportV>,
    Seq<Seq<char>>,
)
    decreases list.len(),
{
    if list.len() == 0 {
        (seq![], taken)
    } else {
        let before = new_imports(list.drop_last(), taken);
        let import = list.last();
        if before.1.contains(import.1) {
            before
        } else {
            (before.0.push(import), before.1.push(import.1))
        }
    }
}

/// The imports whose local names are not taken.
pub fn without_taken(list: Vec<HelperImport>, taken: Vec<String>) -> (added: Vec<HelperImport>)
    ensures
        import_values(added@) == new_imports(import_values(list@), texts(taken@)).0,
{
    let ghost all = import_values(list@);
    let ghost given = texts(taken@);
    let mut names = taken;
    let mut added: Vec<HelperImport> = Vec::new();
    let mut i: usize = 0;
    proof {
        assert(import_values(added@) =~= seq![]);
    }
    while i < list.len()
        invariant
            i <= list.len(),
            all == import_values(list@),
            (import_values(added@), texts(names@)) == new_imports(all.take(i as int), given),
        decreases list.len() - i,
    {
        let ghost added0 = added@;
        let ghost names0 = names@;
        proof {
            assert(all.take(i + 1).drop_last() =~= all.take(i as int));
            assert(all.take(i + 1).last() == list@[i as int]@);
        }
        if !contains(&names, list[i].local.as_str()) {
            let item = copied_import(&list[i]);
            let local = list[i].local.clone();
            proof {
                assert(import_values(added@.push(item)) =~= import_values(added0).push(item@));
                assert(texts(names@.push(local)) =~= texts(names0).push(local@));
            }
            added.push(item);
            names.push(local);
        }
        i = i + 1;
    }
    proof {
        assert(all.take(all.len() as int) =~= all);
    }
    added
}

// ---------------------------------------------------------------------------
// Laws
// ---------------------------------------------------------------------------

/// How often an import is in a list.
pub open spec fn count(list: Seq<ImportV>, import: ImportV) -> nat
    decreases list.len(),
{
    if list.len() == 0 {
        0
    } else {
        count(list.drop_last(), import) + if list.last() == import {
            1nat
        } else {
            0
        }
    }
}

proof fn count_concat(a: Seq<ImportV>, b: Seq<ImportV>, import: ImportV)
    ensures
        count(a + b, import) == count(a, import) + count(b, import),
    decreases b.len(),
{
    if b.len() == 0 {
        assert(a + b =~= a);
    } else {
        assert((a + b).drop_last() =~= a + b.drop_last());
        count_concat(a, b.drop_last(), import);
    }
}

proof fn count_one(a: ImportV, import: ImportV)
    ensures
        count(seq![a], import) == if a == import {
            1nat
        } else {
            0
        },
{
    assert(seq![a].drop_last() =~= seq![]);
    reveal_with_fuel(count, 2);
}

proof fn count_reverse(list: Seq<ImportV>, import: ImportV)
    ensures
        count(list.reverse(), import) == count(list, import),
    decreases list.len(),
{
    if list.len() > 0 {
        let front = list.drop_last();
        assert(list.reverse() =~= seq![list.last()] + front.reverse());
        count_concat(seq![list.last()], front.reverse(), import);
        count_one(list.last(), import);
        count_reverse(front, import);
    }
}

proof fn count_only(
    list: Seq<ImportV>,
    mark: Mark,
    dom_module: Seq<char>,
    base_module: Seq<char>,
    import: ImportV,
)
    ensures
        count(only(list, mark, true, dom_module, base_module), import) + count(
            only(list, mark, false, dom_module, base_module),
            import,
        ) == count(list, import),
    decreases list.len(),
{
    if list.len() > 0 {
        count_only(list.drop_last(), mark, dom_module, base_module, import);
        let yes = only(list.drop_last(), mark, true, dom_module, base_module);
        let no = only(list.drop_last(), mark, false, dom_module, base_module);
        assert(yes.push(list.last()).drop_last() =~= yes);
        assert(no.push(list.last()).drop_last() =~= no);
    }
}

proof fn count_split(list: Seq<ImportV>, at: int, import: ImportV)
    requires
        0 <= at <= list.len(),
    ensures
        count(list, import) == count(list.take(at), import) + count(list.skip(at), import),
{
    assert(list =~= list.take(at) + list.skip(at));
    count_concat(list.take(at), list.skip(at), import);
}

proof fn count_remove(list: Seq<ImportV>, at: int, import: ImportV)
    requires
        0 <= at < list.len(),
    ensures
        count(list.remove(at), import) + count(seq![list[at]], import) == count(list, import),
{
    let head = list.take(at);
    let tail = list.skip(at + 1);
    assert(list.remove(at) =~= head + tail);
    assert(list =~= head + seq![list[at]] + tail);
    count_concat(head, tail, import);
    count_concat(head, seq![list[at]], import);
    count_concat(head + seq![list[at]], tail, import);
}

proof fn count_update(list: Seq<ImportV>, at: int, new: ImportV, import: ImportV)
    requires
        0 <= at < list.len(),
    ensures
        count(list.update(at, new), import) + count(seq![list[at]], import) == count(list, import)
            + count(seq![new], import),
{
    let head = list.take(at);
    let tail = list.skip(at + 1);
    assert(list.update(at, new) =~= head + seq![new] + tail);
    assert(list =~= head + seq![list[at]] + tail);
    count_concat(head, seq![new], import);
    count_concat(head + seq![new], tail, import);
    count_concat(head, seq![list[at]], import);
    count_concat(head + seq![list[at]], tail, import);
}

proof fn count_fronted(
    front: Seq<ImportV>,
    rest: Seq<ImportV>,
    name: Seq<char>,
    import: ImportV,
)
    ensures
        ({
            let parts = fronted(front, rest, name);
            count(parts.0, import) + count(parts.1, import) == count(front, import) + count(
                rest,
                import,
            )
        }),
{
    first_at_is(rest, name);
    match first_at(rest, name) {
        Some(at) => {
            count_remove(rest, at as int, import);
            count_concat(front, seq![rest[at as int]], import);
        },
        None => {
            assert(front + Seq::<ImportV>::empty() =~= front);
        },
    }
}

/// At most the first import is that of `template`.
pub open spec fn template_leads(list: Seq<ImportV>) -> bool {
    forall|i: int| 0 < i < list.len() ==> (#[trigger] list[i]).0 != "template"@
}

proof fn only_template(list: Seq<ImportV>, dom_module: Seq<char>, base_module: Seq<char>)
    requires
        template_leads(list),
    ensures
        only(list, Mark::Template, true, dom_module, base_module) == if list.len() > 0 && list[0].0
            == "template"@ {
            seq![list[0]]
        } else {
            seq![]
        },
    decreases list.len(),
{
    if list.len() > 0 {
        let front = list.drop_last();
        assert(template_leads(front)) by {
            assert forall|i: int| 0 < i < front.len() implies (#[trigger] front[i]).0
                != "template"@ by {
                assert(list[i] == front[i]);
            }
        }
        only_template(front, dom_module, base_module);
        if list.len() == 1 {
            assert(front =~= seq![]);
        } else {
            assert(list[list.len() - 1].0 != "template"@);
        }
    }
}

proof fn count_walkers_first(list: Seq<ImportV>, import: ImportV)
    requires
        first_at(list, "getNextMatch"@) is None || template_leads(list),
    ensures
        count(walkers_first(list), import) == count(list, import),
{
    reveal(walkers_first);
    if first_at(list, "getNextMatch"@) is Some {
        first_at_is(list, "getNextMatch"@);
        let front = if list[0].0 == "template"@ {
            seq![list[0]]
        } else {
            seq![]
        };
        let rest = only(list, Mark::Template, false, seq![], seq![]);
        only_template(list, seq![], seq![]);
        count_only(list, Mark::Template, seq![], seq![], import);
        let a = fronted(front, rest, "getNextElement"@);
        count_fronted(front, rest, "getNextElement"@, import);
        let b = fronted(a.0, a.1, "getNextMatch"@);
        count_fronted(a.0, a.1, "getNextMatch"@, import);
        let c = fronted(b.0, b.1, "NoHydration"@);
        count_fronted(b.0, b.1, "NoHydration"@, import);
        let d = fronted(c.0, c.1, "getNextMarker"@);
        count_fronted(c.0, c.1, "getNextMarker"@, import);
        count_concat(d.0, d.1, import);
    }
}

/// At most one import is that of `template`.
pub open spec fn one_template(list: Seq<ImportV>) -> bool {
    forall|i: int, j: int|
        0 <= i < j < list.len() ==> !((#[trigger] list[i]).0 == "template"@ && (
        #[trigger] list[j]).0 == "template"@)
}

proof fn plain_counts(list: Seq<ImportV>, import: ImportV)
    ensures
        ({
            let parts = drawn(list, "template"@);
            let turned = parts.0 + parts.1.reverse();
            &&& count(turned, import) == count(list, import)
            &&& turned.len() == 3 ==> count(seq![turned[0], turned[2], turned[1]], import) == count(
                list,
                import,
            )
        }),
{
    let parts = drawn(list, "template"@);
    let turned = parts.0 + parts.1.reverse();
    first_at_is(list, "template"@);
    assert(Seq::<ImportV>::empty() + parts.0 =~= parts.0);
    count_fronted(seq![], list, "template"@, import);
    count_concat(parts.0, parts.1.reverse(), import);
    count_reverse(parts.1, import);
    if turned.len() == 3 {
        let mid = turned.update(1, turned[2]);
        assert(seq![turned[0], turned[2], turned[1]] =~= mid.update(2, turned[1]));
        count_update(turned, 1, turned[2], import);
        count_update(mid, 2, turned[1], import);
    }
}

/// The order of helpers from one module has each of them as often as before.
pub proof fn plain_order_keeps(list: Seq<ImportV>, import: ImportV)
    requires
        first_at(list, "getNextMatch"@) is None || one_template(list),
    ensures
        count(plain_order(list, false), import) == count(list, import),
{
    reveal(plain_order);
    let parts = drawn(list, "template"@);
    let turned = parts.0 + parts.1.reverse();
    let swapped = if turned.len() == 3 && turned[0].0 == "template"@ && turned[1].0 == "insert"@
        && turned[2].0 == "createComponent"@ {
        seq![turned[0], turned[2], turned[1]]
    } else {
        turned
    };
    plain_counts(list, import);
    if one_template(list) {
        first_at_is(list, "template"@);
        assert forall|i: int| 0 < i < turned.len() implies (#[trigger] turned[i]).0
            != "template"@ by {
            if parts.0.len() == 0 {
                assert(turned[i] == list[list.len() - 1 - i]);
            } else {
                let at = first_at(list, "template"@)->0 as int;
                let k = parts.1.len() - i;
                assert(turned[i] == parts.1[k]);
                if k < at {
                    assert(parts.1[k] == list[k]);
                } else {
                    assert(parts.1[k] == list[k + 1]);
                    assert(list[at].0 == "template"@);
                }
            }
        }
        assert(template_leads(swapped)) by {
            if swapped != turned {
                assert(turned[1].0 != "template"@ && turned[2].0 != "template"@);
            }
        }
    } else {
        first_at_is(swapped, "getNextMatch"@);
        first_at_is(list, "getNextMatch"@);
        if let Some(at) = first_at(swapped, "getNextMatch"@) {
            let found = swapped[at as int];
            plain_counts(list, found);
            count_is_in(swapped, at as int);
            counted_is_in(list, found);
        }
    }
    count_walkers_first(swapped, import);
}

proof fn count_inserts_last(
    list: Seq<ImportV>,
    dom_module: Seq<char>,
    base_module: Seq<char>,
    import: ImportV,
)
    ensures
        count(inserts_last(list, dom_module, base_module), import) == count(list, import),
{
    reveal(inserts_last);
    let yes = only(list, Mark::DomInsert, true, dom_module, base_module);
    let no = only(list, Mark::DomInsert, false, dom_module, base_module);
    let moved = no + yes;
    count_only(list, Mark::DomInsert, dom_module, base_module, import);
    count_concat(no, yes, import);
    first_at_is(moved, "memo"@);
    first_at_is(moved, "insertNode"@);
    if let (Some(memo), Some(node)) = (first_at(moved, "memo"@), first_at(moved, "insertNode"@)) {
        if memo < node {
            let mid = moved.update(memo as int, moved[node as int]);
            count_update(moved, memo as int, moved[node as int], import);
            count_update(mid, node as int, moved[memo as int], import);
        }
    }
}

proof fn behind_last_fits(
    list: Seq<ImportV>,
    mark: Mark,
    dom_module: Seq<char>,
    base_module: Seq<char>,
)
    ensures
        behind_last(list, mark, dom_module, base_module) <= list.len(),
    decreases list.len(),
{
    if list.len() > 0 {
        behind_last_fits(list.drop_last(), mark, dom_module, base_module);
    }
}

proof fn count_followers_moved(list: Seq<ImportV>, import: ImportV)
    ensures
        count(followers_moved(list), import) == count(list, import),
{
    reveal(followers_moved);
    let none = Seq::<char>::empty();
    let moved = only(list, Mark::Follower, true, none, none);
    let kept = only(list, Mark::Follower, false, none, none);
    let at = behind_last(kept, Mark::Maker, none, none) as int;
    behind_last_fits(kept, Mark::Maker, none, none);
    count_only(list, Mark::Follower, none, none, import);
    count_split(kept, at, import);
    count_concat(kept.take(at), moved, import);
    count_concat(kept.take(at) + moved, kept.skip(at), import);
}

proof fn only_is_from(
    list: Seq<ImportV>,
    mark: Mark,
    with: bool,
    dom_module: Seq<char>,
    base_module: Seq<char>,
    at: int,
)
    requires
        0 <= at < only(list, mark, with, dom_module, base_module).len(),
    ensures
        ({
            let found = only(list, mark, with, dom_module, base_module)[at];
            marked(found, mark, dom_module, base_module) == with && exists|k: int|
                at <= k < list.len() && #[trigger] list[k] == found
        }),
    decreases list.len(),
{
    let front = list.drop_last();
    let before = only(front, mark, with, dom_module, base_module);
    if at < before.len() {
        only_is_from(front, mark, with, dom_module, base_module, at);
        let k = choose|k: int| at <= k < front.len() && #[trigger] front[k] == before[at];
        assert(list[k] == before[at]);
    } else {
        only_fits(front, mark, with, dom_module, base_module);
        assert(list[list.len() - 1] == list.last());
    }
}

proof fn only_fits(
    list: Seq<ImportV>,
    mark: Mark,
    with: bool,
    dom_module: Seq<char>,
    base_module: Seq<char>,
)
    ensures
        only(list, mark, with, dom_module, base_module).len() <= list.len(),
    decreases list.len(),
{
    if list.len() > 0 {
        only_fits(list.drop_last(), mark, with, dom_module, base_module);
    }
}

proof fn only_leads(
    list: Seq<ImportV>,
    mark: Mark,
    with: bool,
    dom_module: Seq<char>,
    base_module: Seq<char>,
)
    requires
        template_leads(list),
    ensures
        template_leads(only(list, mark, with, dom_module, base_module)),
{
    let part = only(list, mark, with, dom_module, base_module);
    assert forall|i: int| 0 < i < part.len() implies (#[trigger] part[i]).0 != "template"@ by {
        only_is_from(list, mark, with, dom_module, base_module, i);
    }
}

proof fn few_templates(list: Seq<ImportV>, dom_module: Seq<char>, base_module: Seq<char>)
    requires
        one_template(list),
    ensures
        only(list, Mark::Template, true, dom_module, base_module).len() <= 1,
    decreases list.len(),
{
    if list.len() > 0 {
        let front = list.drop_last();
        assert(one_template(front)) by {
            assert forall|i: int, j: int| 0 <= i < j < front.len() implies !((
            #[trigger] front[i]).0 == "template"@ && (#[trigger] front[j]).0 == "template"@) by {
                assert(list[i] == front[i] && list[j] == front[j]);
            }
        }
        few_templates(front, dom_module, base_module);
        let before = only(front, Mark::Template, true, dom_module, base_module);
        if list.last().0 == "template"@ && before.len() > 0 {
            only_is_from(front, Mark::Template, true, dom_module, base_module, 0);
            let k = choose|k: int| 0 <= k < front.len() && #[trigger] front[k] == before[0];
            assert(list[k] == before[0]);
            assert(list[list.len() - 1].0 == "template"@);
        }
    }
}

proof fn inserts_last_leads(
    list: Seq<ImportV>,
    dom_module: Seq<char>,
    base_module: Seq<char>,
)
    requires
        template_leads(list),
    ensures
        template_leads(inserts_last(list, dom_module, base_module)),
{
    reveal(inserts_last);
    reveal_strlit("template");
    reveal_strlit("insert");
    reveal_strlit("use");
    reveal_strlit("memo");
    reveal_strlit("insertNode");
    assert("insert"@.len() == 6 && "use"@.len() == 3 && "template"@.len() == 8);
    let yes = only(list, Mark::DomInsert, true, dom_module, base_module);
    let no = only(list, Mark::DomInsert, false, dom_module, base_module);
    let moved = no + yes;
    only_leads(list, Mark::DomInsert, false, dom_module, base_module);
    assert(template_leads(moved)) by {
        assert forall|i: int| 0 < i < moved.len() implies (#[trigger] moved[i]).0
            != "template"@ by {
            if i >= no.len() {
                only_is_from(list, Mark::DomInsert, true, dom_module, base_module, i - no.len());
                assert(moved[i] == yes[i - no.len()]);
            } else {
                assert(moved[i] == no[i]);
            }
        }
    }
    first_at_is(moved, "memo"@);
    first_at_is(moved, "insertNode"@);
    assert("memo"@.len() == 4 && "template"@.len() == 8 && "insertNode"@.len() == 10);
}

proof fn followers_moved_leads(list: Seq<ImportV>)
    requires
        template_leads(list),
    ensures
        template_leads(followers_moved(list)),
{
    reveal(followers_moved);
    reveal_strlit("template");
    reveal_strlit("setAttribute");
    reveal_strlit("effect");
    assert("setAttribute"@.len() == 12 && "effect"@.len() == 6 && "template"@.len() == 8);
    let none = Seq::<char>::empty();
    let moved = only(list, Mark::Follower, true, none, none);
    let kept = only(list, Mark::Follower, false, none, none);
    let at = behind_last(kept, Mark::Maker, none, none) as int;
    behind_last_fits(kept, Mark::Maker, none, none);
    behind_last_starts(kept, Mark::Maker, none, none);
    only_leads(list, Mark::Follower, false, none, none);
    let all = kept.take(at) + moved + kept.skip(at);
    assert forall|i: int| 0 < i < all.len() implies (#[trigger] all[i]).0 != "template"@ by {
        if i < at {
            assert(all[i] == kept[i]);
        } else if i < at + moved.len() {
            only_is_from(list, Mark::Follower, true, none, none, i - at);
            assert(all[i] == moved[i - at]);
        } else {
            assert(all[i] == kept[i - moved.len()]);
        }
    }
}

proof fn behind_last_starts(
    list: Seq<ImportV>,
    mark: Mark,
    dom_module: Seq<char>,
    base_module: Seq<char>,
)
    ensures
        list.len() > 0 ==> behind_last(list, mark, dom_module, base_module) > 0,
    decreases list.len(),
{
    if list.len() > 0 && any_marked(list, mark, dom_module, base_module) {
        let front = list.drop_last();
        behind_last_starts(front, mark, dom_module, base_module);
        let k = choose|k: int|
            0 <= k < list.len() && marked(#[trigger] list[k], mark, dom_module, base_module);
        if k < front.len() {
            assert(front[k] == list[k]);
        }
    }
}

/// The order of helpers from several modules has each of them as often as
/// before.
pub proof fn mixed_order_keeps(
    list: Seq<ImportV>,
    dom_module: Seq<char>,
    base_module: Seq<char>,
    import: ImportV,
)
    requires
        first_at(list, "getNextMatch"@) is None || one_template(list),
    ensures
        count(mixed_order(list, dom_module, base_module), import) == count(list, import),
{
    reveal(mixed_order);
    let yes = only(list, Mark::Template, true, dom_module, base_module);
    let no = only(list, Mark::Template, false, dom_module, base_module);
    let turned = yes + no.reverse();
    let parted = if inserts_collide(list) {
        inserts_last(turned, dom_module, base_module)
    } else {
        turned
    };
    let moved = followers_moved(parted);
    mixed_counts(list, dom_module, base_module, import);
    if one_template(list) {
        few_templates(list, dom_module, base_module);
        assert forall|i: int| 0 < i < turned.len() implies (#[trigger] turned[i]).0
            != "template"@ by {
            let k = no.len() - 1 - (i - yes.len());
            assert(turned[i] == no[k]);
            only_is_from(list, Mark::Template, false, dom_module, base_module, k);
        }
        inserts_last_leads(turned, dom_module, base_module);
        followers_moved_leads(parted);
    } else {
        first_at_is(moved, "getNextMatch"@);
        first_at_is(list, "getNextMatch"@);
        if let Some(at) = first_at(moved, "getNextMatch"@) {
            let found = moved[at as int];
            mixed_counts(list, dom_module, base_module, found);
            count_is_in(moved, at as int);
            counted_is_in(list, found);
        }
    }
    count_walkers_first(moved, import);
}

proof fn mixed_counts(
    list: Seq<ImportV>,
    dom_module: Seq<char>,
    base_module: Seq<char>,
    import: ImportV,
)
    ensures
        ({
            let turned = only(list, Mark::Template, true, dom_module, base_module) + only(
                list,
                Mark::Template,
                false,
                dom_module,
                base_module,
            ).reverse();
            let parted = if inserts_collide(list) {
                inserts_last(turned, dom_module, base_module)
            } else {
                turned
            };
            count(followers_moved(parted), import) == count(list, import)
        }),
{
    let yes = only(list, Mark::Template, true, dom_module, base_module);
    let no = only(list, Mark::Template, false, dom_module, base_module);
    let turned = yes + no.reverse();
    count_only(list, Mark::Template, dom_module, base_module, import);
    count_concat(yes, no.reverse(), import);
    count_reverse(no, import);
    let parted = if inserts_collide(list) {
        inserts_last(turned, dom_module, base_module)
    } else {
        turned
    };
    count_inserts_last(turned, dom_module, base_module, import);
    count_followers_moved(parted, import);
}

proof fn count_is_in(list: Seq<ImportV>, at: int)
    requires
        0 <= at < list.len(),
    ensures
        count(list, list[at]) > 0,
    decreases list.len(),
{
    if at + 1 < list.len() {
        count_is_in(list.drop_last(), at);
    }
}

proof fn counted_is_in(list: Seq<ImportV>, import: ImportV)
    requires
        count(list, import) > 0,
    ensures
        exists|i: int| 0 <= i < list.len() && #[trigger] list[i] == import,
    decreases list.len(),
{
    if list.last() == import {
        assert(list[list.len() - 1] == import);
    } else {
        counted_is_in(list.drop_last(), import);
        let i = choose|i: int|
            0 <= i < list.drop_last().len() && #[trigger] list.drop_last()[i] == import;
        assert(list[i] == import);
    }
}

/// No local name is imported twice, and none that is taken.
pub proof fn new_imports_differ(list: Seq<ImportV>, taken: Seq<Seq<char>>)
    ensures
        ({
            let added = new_imports(list, taken).0;
            &&& forall|i: int|
                0 <= i < added.len() ==> !taken.contains((#[trigger] added[i]).1)
            &&& forall|i: int, j: int|
                0 <= i < j < added.len() ==> (#[trigger] added[i]).1 != (#[trigger] added[j]).1
        }),
{
    new_imports_hold(list, taken);
}

proof fn new_imports_hold(list: Seq<ImportV>, taken: Seq<Seq<char>>)
    ensures
        ({
            let (added, names) = new_imports(list, taken);
            &&& names.len() == taken.len() + added.len()
            &&& forall|k: int| 0 <= k < taken.len() ==> #[trigger] names[k] == taken[k]
            &&& forall|i: int|
                0 <= i < added.len() ==> (#[trigger] added[i]).1 == names[taken.len() + i]
            &&& forall|i: int|
                0 <= i < added.len() ==> !taken.contains((#[trigger] added[i]).1)
            &&& forall|i: int, j: int|
                0 <= i < j < added.len() ==> (#[trigger] added[i]).1 != (#[trigger] added[j]).1
        }),
    decreases list.len(),
{
    if list.len() > 0 {
        new_imports_hold(list.drop_last(), taken);
        let (added, names) = new_imports(list.drop_last(), taken);
        let import = list.last();
        if !names.contains(import.1) {
            assert forall|k: int| 0 <= k < taken.len() implies taken[k] != import.1 by {
                assert(names[k] == taken[k]);
            }
            assert forall|i: int| 0 <= i < added.len() implies (#[trigger] added[i]).1
                != import.1 by {
                assert(names[taken.len() + i] == added[i].1);
            }
        }
    }
}

} // verus!
