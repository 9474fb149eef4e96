//! The names of a program: those bound at its top level, those that describe a
//! statement, and those that are still free.

use crate::ast::Span;
use crate::make::copied;
use crate::marker::{span_text, stretch_of, trimmed_is};
use crate::outside::same;
use crate::refresh_tree::{
    Declaration, Declarator, Exported, Pattern, Stmt,
};
use crate::text::{decimal, decimal_injective, decimal_text, joined, texts, trim};
use std::rc::Rc;
use vstd::prelude::*;

verus! {

/// A list of texts with one more.
pub proof fn texts_push(items: Seq<String>, item: String)
    ensures
        texts(items.push(item)) == texts(items).push(item@),
{
    assert(texts(items.push(item)) =~= texts(items).push(item@));
}

/// Whether a list holds a text.
pub fn holds(items: &Vec<String>, text: &str) -> (yes: bool)
    ensures
        yes == texts(items@).contains(text@),
{
    let mut i: usize = 0;
    while i < items.len()
        invariant
            i <= items.len(),
            forall|k: int| 0 <= k < i ==> #[trigger] texts(items@)[k] != text@,
        decreases items.len() - i,
    {
        if same(items[i].as_str(), text) {
            proof {
                assert(texts(items@)[i as int] == text@);
            }
            return true;
        }
        i = i + 1;
    }
    false
}

// ---------------------------------------------------------------------------
// Top-level names
// ---------------------------------------------------------------------------

/// The names that a pattern binds.
pub open spec fn pattern_names(pattern: Pattern) -> Seq<Seq<char>> {
    match pattern {
        Pattern::Ident(name) => seq![name@],
        Pattern::Opaque { names, .. } => texts(names@),
    }
}

/// The names that the first `n` declarators bind.
pub open spec fn declared(declarators: Seq<Declarator>, n: nat) -> Seq<Seq<char>>
    decreases n,
{
    if n == 0 {
        Seq::empty()
    } else {
        declared(declarators, (n - 1) as nat) + pattern_names(declarators[n - 1].pattern)
    }
}

/// The list of a name that may be missing.
pub open spec fn optional_name(name: Option<String>) -> Seq<Seq<char>> {
    match name {
        Some(name) => seq![name@],
        None => Seq::empty(),
    }
}

/// The names that a statement binds where it stands.
pub open spec fn bound_names(stmt: Stmt) -> Seq<Seq<char>> {
    match stmt {
        Stmt::Import { locals, .. } => texts(locals@),
        Stmt::Variables(variables) => declared(
            variables.declarators@,
            variables.declarators@.len(),
        ),
        Stmt::Function(function) => optional_name(function.name),
        Stmt::Class(class) => optional_name(class.name),
        Stmt::ExportNamed { declaration: Some(declaration), .. } => match declaration {
            Declaration::Variables(variables) => declared(
                variables.declarators@,
                variables.declarators@.len(),
            ),
            Declaration::Function(function) => optional_name(function.name),
            Declaration::Class(class) => optional_name(class.name),
            Declaration::Node { .. } => Seq::empty(),
        },
        Stmt::ExportDefault { exported, .. } => match exported {
            Exported::Function(function) => optional_name(function.name),
            Exported::Class(class) => optional_name(class.name),
            _ => Seq::empty(),
        },
        _ => Seq::empty(),
    }
}

/// The names that the first `n` statements bind.
pub open spec fn top_level_names(body: Seq<Rc<Stmt>>, n: nat) -> Seq<Seq<char>>
    decreases n,
{
    if n == 0 {
        Seq::empty()
    } else {
        top_level_names(body, (n - 1) as nat) + bound_names(*body[n - 1])
    }
}

/// Adds the names of a list.
fn collect_all(names: &mut Vec<String>, more: &Vec<String>)
    ensures
        texts(final(names)@) == texts(old(names)@) + texts(more@),
{
    let mut i: usize = 0;
    while i < more.len()
        invariant
            i <= more.len(),
            texts(names@) == texts(old(names)@) + texts(more@).take(i as int),
        decreases more.len() - i,
    {
        let name = more[i].clone();
        proof {
            texts_push(names@, name);
        }
        names.push(name);
        i = i + 1;
        proof {
            assert(texts(names@) =~= texts(old(names)@) + texts(more@).take(i as int));
        }
    }
    proof {
        assert(texts(more@).take(more@.len() as int) =~= texts(more@));
    }
}

/// Adds the names that declarators bind.
fn collect_names_from_declarators(names: &mut Vec<String>, declarators: &Vec<Declarator>)
    ensures
        texts(final(names)@) == texts(old(names)@) + declared(declarators@, declarators@.len()),
{
    let mut i: usize = 0;
    while i < declarators.len()
        invariant
            i <= declarators.len(),
            texts(names@) == texts(old(names)@) + declared(declarators@, i as nat),
        decreases declarators.len() - i,
    {
        match &declarators[i].pattern {
            Pattern::Ident(name) => {
                let name = name.clone();
                proof {
                    texts_push(names@, name);
                }
                names.push(name);
            },
            Pattern::Opaque { names: bound, .. } => collect_all(names, bound),
        }
        i = i + 1;
        proof {
            assert(texts(names@) =~= texts(old(names)@) + declared(declarators@, i as nat));
        }
    }
}

/// Adds a name where there is one.
fn collect_name(names: &mut Vec<String>, name: &Option<String>)
    ensures
        texts(final(names)@) == texts(old(names)@) + optional_name(*name),
{
    if let Some(name) = name {
        let name = name.clone();
        proof {
            texts_push(names@, name);
        }
        names.push(name);
    }
    proof {
        assert(texts(names@) =~= texts(old(names)@) + optional_name(*name));
    }
}

/// Adds the names that a statement binds.
pub fn collect_names_from_statement(names: &mut Vec<String>, stmt: &Stmt)
    ensures
        texts(final(names)@) == texts(old(names)@) + bound_names(*stmt),
{
    match stmt {
        Stmt::Import { locals, .. } => collect_all(names, locals),
        Stmt::Variables(variables) => collect_names_from_declarators(names, &variables.declarators),
        Stmt::Function(function) => collect_name(names, &function.name),
        Stmt::Class(class) => collect_name(names, &class.name),
        Stmt::ExportNamed { declaration: Some(declaration), .. } => match declaration {
            Declaration::Variables(variables) => collect_names_from_declarators(
                names,
                &variables.declarators,
            ),
            Declaration::Function(function) => collect_name(names, &function.name),
            Declaration::Class(class) => collect_name(names, &class.name),
            Declaration::Node { .. } => {},
        },
        Stmt::ExportDefault { exported, .. } => match exported {
            Exported::Function(function) => collect_name(names, &function.name),
            Exported::Class(class) => collect_name(names, &class.name),
            _ => {},
        },
        _ => {},
    }
    proof {
        if bound_names(*stmt).len() == 0 {
            assert(texts(old(names)@) + bound_names(*stmt) =~= texts(old(names)@));
        }
    }
}

/// The names bound at the top level of a program: by imports, variables,
/// functions and classes, exported or not.
pub fn collect_top_level_names(body: &Vec<Rc<Stmt>>) -> (names: Vec<String>)
    ensures
        texts(names@) == top_level_names(body@, body@.len()),
{
    let mut names: Vec<String> = Vec::new();
    proof {
        assert(texts(names@) =~= Seq::<Seq<char>>::empty());
    }
    let mut i: usize = 0;
    while i < body.len()
        invariant
            i <= body.len(),
            texts(names@) == top_level_names(body@, i as nat),
        decreases body.len() - i,
    {
        collect_names_from_statement(&mut names, &body[i]);
        i = i + 1;
    }
    names
}

// ---------------------------------------------------------------------------
// Descriptive names
// ---------------------------------------------------------------------------

/// A name, or `template` where there is none.
pub open spec fn or_template(name: Option<String>) -> Seq<char> {
    match name {
        Some(name) => name@,
        None => "template"@,
    }
}

/// The first name of these declarators that is no pattern, from `from` on; or
/// `template`.
pub open spec fn first_variable(declarators: Seq<Declarator>, from: nat) -> Seq<char>
    decreases declarators.len() - from,
{
    if from >= declarators.len() {
        "template"@
    } else {
        match declarators[from as int].pattern {
            Pattern::Ident(name) => name@,
            Pattern::Opaque { .. } => first_variable(declarators, from + 1),
        }
    }
}

/// The name that describes what a statement makes: that of its function or of
/// its first variable, exported or not; else `template`.
pub open spec fn descriptive_name(stmt: Stmt) -> Seq<char> {
    match stmt {
        Stmt::Function(function) => or_template(function.name),
        Stmt::Variables(variables) => first_variable(variables.declarators@, 0),
        Stmt::ExportNamed { declaration: Some(declaration), .. } => match declaration {
            Declaration::Function(function) => or_template(function.name),
            Declaration::Variables(variables) => first_variable(variables.declarators@, 0),
            _ => "template"@,
        },
        Stmt::ExportDefault { exported: Exported::Function(function), .. } => or_template(
            function.name,
        ),
        _ => "template"@,
    }
}

fn name_or_template(name: &Option<String>) -> (text: String)
    ensures
        text@ == or_template(*name),
{
    match name {
        Some(name) => name.clone(),
        None => copied("template"),
    }
}

fn first_declared(declarators: &Vec<Declarator>) -> (text: String)
    ensures
        text@ == first_variable(declarators@, 0),
{
    let mut i: usize = 0;
    while i < declarators.len()
        invariant
            i <= declarators.len(),
            first_variable(declarators@, 0) == first_variable(declarators@, i as nat),
        decreases declarators.len() - i,
    {
        if let Pattern::Ident(name) = &declarators[i].pattern {
            return name.clone();
        }
        i = i + 1;
    }
    copied("template")
}

/// The name that describes what a statement makes.
pub fn get_descriptive_name_from_statement(stmt: &Stmt) -> (name: String)
    ensures
        name@ == descriptive_name(*stmt),
{
    match stmt {
        Stmt::Function(function) => name_or_template(&function.name),
        Stmt::Variables(variables) => first_declared(&variables.declarators),
        Stmt::ExportNamed { declaration: Some(declaration), .. } => match declaration {
            Declaration::Function(function) => name_or_template(&function.name),
            Declaration::Variables(variables) => first_declared(&variables.declarators),
            _ => copied("template"),
        },
        Stmt::ExportDefault { exported: Exported::Function(function), .. } => name_or_template(
            &function.name,
        ),
        _ => copied("template"),
    }
}

// ---------------------------------------------------------------------------
// Patterns of names
// ---------------------------------------------------------------------------

/// The name begins with an ASCII capital.
pub open spec fn component_ish(name: Seq<char>) -> bool {
    name.len() > 0 && 'A' <= name[0] && name[0] <= 'Z'
}

/// The name begins with an ASCII capital or an underscore.
pub open spec fn component_pattern(name: Seq<char>) -> bool {
    component_ish(name) || (name.len() > 0 && name[0] == '_')
}

pub fn is_component_ish_name(name: &str) -> (yes: bool)
    ensures
        yes == component_ish(name@),
{
    if name.unicode_len() == 0 {
        return false;
    }
    let first = name.get_char(0);
    'A' <= first && first <= 'Z'
}

pub fn is_component_name_pattern(name: &str) -> (yes: bool)
    ensures
        yes == component_pattern(name@),
{
    if name.unicode_len() == 0 {
        return false;
    }
    let first = name.get_char(0);
    ('A' <= first && first <= 'Z') || first == '_'
}

// ---------------------------------------------------------------------------
// Free names
// ---------------------------------------------------------------------------

/// The name with a number behind it.
pub open spec fn numbered(base: Seq<char>, i: nat) -> Seq<char> {
    base + "_"@ + decimal(i)
}

/// `i` is the least number whose name is free.
pub open spec fn is_least_free(base: Seq<char>, taken: Seq<Seq<char>>, i: nat) -> bool {
    &&& !taken.contains(numbered(base, i))
    &&& forall|j: nat| j < i ==> #[trigger] taken.contains(numbered(base, j))
}

/// The name with the least number that is not taken.
pub open spec fn free_name(base: Seq<char>, taken: Seq<Seq<char>>) -> Seq<char> {
    numbered(base, choose|i: nat| is_least_free(base, taken, i))
}

/// Two numbers behind one name give two names.
pub proof fn numbered_injective(base: Seq<char>, i: nat, j: nat)
    requires
        numbered(base, i) == numbered(base, j),
    ensures
        i == j,
{
    let head = base + "_"@;
    assert(numbered(base, i).skip(head.len() as int) =~= decimal(i));
    assert(numbered(base, j).skip(head.len() as int) =~= decimal(j));
    decimal_injective(i, j);
}

/// Of more numbers than names are taken, one is free.
proof fn some_number_is_free(base: Seq<char>, taken: Seq<Seq<char>>)
    ensures
        !(forall|j: nat| j <= taken.len() ==> #[trigger] taken.contains(numbered(base, j))),
{
    if forall|j: nat| j <= taken.len() ==> #[trigger] taken.contains(numbered(base, j)) {
        let names = Seq::new((taken.len() + 1) as nat, |j: int| numbered(base, j as nat));
        assert(names.no_duplicates()) by {
            assert forall|i: int, j: int|
                0 <= i < names.len() && 0 <= j < names.len() && i != j implies names[i]
                != names[j] by {
                if names[i] == names[j] {
                    numbered_injective(base, i as nat, j as nat);
                }
            }
        }
        assert(names.to_set().subset_of(taken.to_set())) by {
            assert forall|name: Seq<char>| names.to_set().contains(name) implies #[trigger] taken.to_set().contains(
            name) by {
                let j = choose|j: int| 0 <= j < names.len() && names[j] == name;
                assert(taken.contains(numbered(base, j as nat)));
            }
        }
        names.unique_seq_to_set();
        vstd::seq_lib::seq_to_set_is_finite(taken);
        taken.lemma_cardinality_of_set();
        vstd::set_lib::lemma_len_subset(names.to_set(), taken.to_set());
        assert(false);
    }
}

proof fn least_free_from(base: Seq<char>, taken: Seq<Seq<char>>, from: nat) -> (least: nat)
    requires
        from <= taken.len(),
        forall|j: nat| j < from ==> #[trigger] taken.contains(numbered(base, j)),
    ensures
        is_least_free(base, taken, least),
    decreases taken.len() - from,
{
    if !taken.contains(numbered(base, from)) {
        from
    } else if from == taken.len() {
        some_number_is_free(base, taken);
        from
    } else {
        least_free_from(base, taken, from + 1)
    }
}

/// A free name is not taken.
pub proof fn free_name_is_free(base: Seq<char>, taken: Seq<Seq<char>>)
    ensures
        !taken.contains(free_name(base, taken)),
{
    let least = least_free_from(base, taken, 0);
    assert(is_least_free(base, taken, least));
}

/// Finds a name that is not taken, and takes it.
pub fn generate_unique_name(base: &str, taken: &mut Vec<String>) -> (name: String)
    ensures
        name@ == free_name(base@, texts(old(taken)@)),
        !texts(old(taken)@).contains(name@),
        texts(final(taken)@) == texts(old(taken)@).push(name@),
{
    let ghost before = texts(taken@);
    let head = joined(base, "_");
    let mut i: usize = 0;
    let limit: usize = taken.len();
    let mut name = joined(head.as_str(), decimal_text(i).as_str());
    while holds(taken, name.as_str())
        invariant
            texts(taken@) == before,
            taken@ == old(taken)@,
            limit == taken@.len(),
            head@ == base@ + "_"@,
            name@ == numbered(base@, i as nat),
            i <= limit,
            forall|j: nat| j < i ==> #[trigger] before.contains(numbered(base@, j)),
        decreases limit - i,
    {
        proof {
            if i == limit {
                assert forall|j: nat| j <= before.len() implies #[trigger] before.contains(
                    numbered(base@, j),
                ) by {}
                some_number_is_free(base@, before);
            }
        }
        i = i + 1;
        name = joined(head.as_str(), decimal_text(i).as_str());
    }
    proof {
        let least = choose|k: nat| is_least_free(base@, before, k);
        assert(is_least_free(base@, before, i as nat));
        if least < i {
            assert(before.contains(numbered(base@, least)));
        }
        if i < least {
            assert(before.contains(numbered(base@, i as nat)));
        }
    }
    let kept = name.clone();
    proof {
        texts_push(taken@, kept);
    }
    taken.push(kept);
    name
}

// ---------------------------------------------------------------------------
// Comments
// ---------------------------------------------------------------------------

/// A comment: where its inside stands, and where the node that it is attached
/// to begins.
#[derive(Clone, Copy, Debug, PartialEq, Eq, Structural)]
pub struct Comment {
    pub attached_to: u32,
    pub content: Span,
}

/// The comment is `@refresh jsx-skip`.
pub open spec fn is_skip(source: Seq<char>, comment: Comment) -> bool {
    match span_text(source, comment.content) {
        Some(text) => trim(text) == "@refresh jsx-skip"@,
        None => false,
    }
}

/// A comment attached to the node that begins at `start` is `@refresh
/// jsx-skip`.
pub open spec fn is_skipped(source: Seq<char>, comments: Seq<Comment>, start: u32) -> bool {
    exists|i: int|
        0 <= i < comments.len() && (#[trigger] comments[i]).attached_to == start && is_skip(
            source,
            comments[i],
        )
}

/// Whether the node that begins at `start` is to be left alone.
pub fn should_skip_jsx(start: u32, comments: &Vec<Comment>, source: &Vec<char>) -> (skip: bool)
    ensures
        skip == is_skipped(source@, comments@, start),
{
    let mut i: usize = 0;
    while i < comments.len()
        invariant
            i <= comments.len(),
            forall|k: int|
                0 <= k < i ==> !((#[trigger] comments@[k]).attached_to == start && is_skip(
                    source@,
                    comments@[k],
                )),
        decreases comments.len() - i,
    {
        let comment = comments[i];
        if comment.attached_to == start {
            if let Some((from, to)) = stretch_of(source, comment.content) {
                if trimmed_is(source, from, to, "@refresh jsx-skip") {
                    proof {
                        assert(comments@[i as int].attached_to == start);
                    }
                    return true;
                }
            }
        }
        i = i + 1;
    }
    false
}

/// The statement can hold an expression.
pub open spec fn may_contain_jsx(stmt: Stmt) -> bool {
    !(stmt is Import) && !(stmt is Bare)
}

pub fn statement_may_contain_jsx(stmt: &Stmt) -> (yes: bool)
    ensures
        yes == may_contain_jsx(*stmt),
{
    match stmt {
        Stmt::Import { .. } => false,
        Stmt::Bare(_) => false,
        _ => true,
    }
}

} // verus!
