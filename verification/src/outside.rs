//! What the library takes on trust from other crates and from `std`.
//!
//! Every item here is a thin call into code that is not verified together with
//! this crate.  Each contract says, over mathematical values, what that code
//! documents or shows.

use crate::ast::StaticTextValue;
use crate::ir::StaticTextV;
use crate::text::{ascii_lower, texts};
use indexmap::IndexSet;
use oxc_allocator::Allocator;
use oxc_parser::Parser;
use oxc_span::SourceType;
use rustc_hash::{FxBuildHasher, FxHashMap, FxHashSet};
use std::rc::Rc;
use vstd::prelude::*;

verus! {

/// `rustc_hash::FxBuildHasher`, carried through as the hasher of the
/// collections below.
#[verifier::external_type_specification]
#[verifier::external_body]
pub struct ExFxBuildHasher(FxBuildHasher);

/// `indexmap::IndexSet`, a set that remembers the order of insertion.
#[verifier::external_type_specification]
#[verifier::external_body]
#[verifier::reject_recursive_types(T)]
#[verifier::reject_recursive_types(S)]
pub struct ExIndexSet<T, S>(IndexSet<T, S>);

/// The strings of an insertion-ordered set, oldest first.
pub uninterp spec fn ordered_texts(set: IndexSet<String, FxBuildHasher>) -> Seq<Seq<char>>;

/// The triples of an insertion-ordered set, oldest first.
pub uninterp spec fn ordered_triples(
    set: IndexSet<(String, String, String), FxBuildHasher>,
) -> Seq<(Seq<char>, Seq<char>, Seq<char>)>;

/// The entries of a hash map from strings to numbers.
pub uninterp spec fn counts_of(map: FxHashMap<String, usize>) -> Map<Seq<char>, usize>;

/// The entries of a hash map from pairs of strings to strings.
pub uninterp spec fn aliases_of(map: FxHashMap<(String, String), String>) -> Map<
    (Seq<char>, Seq<char>),
    Seq<char>,
>;

/// The sequence with `item` appended, unless it is there already.
pub open spec fn with_item<T>(items: Seq<T>, item: T) -> Seq<T> {
    if items.contains(item) {
        items
    } else {
        items.push(item)
    }
}

/// `IndexSet::with_hasher`: a new set holds nothing.
#[verifier::external_body]
pub(crate) fn new_texts() -> (set: IndexSet<String, FxBuildHasher>)
    ensures
        ordered_texts(set) == Seq::<Seq<char>>::empty(),
{
    IndexSet::with_hasher(FxBuildHasher)
}

/// `IndexSet::insert`: an item that is new goes to the end; one that is there
/// leaves the set as it was.
#[verifier::external_body]
pub(crate) fn insert_text(set: &mut IndexSet<String, FxBuildHasher>, item: String) -> (added: bool)
    ensures
        ordered_texts(*final(set)) == with_item(ordered_texts(*old(set)), item@),
        added == !ordered_texts(*old(set)).contains(item@),
{
    set.insert(item)
}

/// `IndexSet::iter`: the items, cloned, in insertion order.
#[verifier::external_body]
pub(crate) fn texts_in_order(set: &IndexSet<String, FxBuildHasher>) -> (items: Vec<String>)
    ensures
        items@.map_values(|s: String| s@) == ordered_texts(*set),
{
    set.iter().cloned().collect()
}

/// `IndexSet::with_hasher`: a new set holds nothing.
#[verifier::external_body]
pub(crate) fn new_triples() -> (set: IndexSet<(String, String, String), FxBuildHasher>)
    ensures
        ordered_triples(set) == Seq::<(Seq<char>, Seq<char>, Seq<char>)>::empty(),
{
    IndexSet::with_hasher(FxBuildHasher)
}

/// `IndexSet::insert`, as for strings.
#[verifier::external_body]
pub(crate) fn insert_triple(
    set: &mut IndexSet<(String, String, String), FxBuildHasher>,
    item: (String, String, String),
) -> (added: bool)
    ensures
        ordered_triples(*final(set)) == with_item(
            ordered_triples(*old(set)),
            (item.0@, item.1@, item.2@),
        ),
        added == !ordered_triples(*old(set)).contains((item.0@, item.1@, item.2@)),
{
    set.insert(item)
}

/// `IndexSet::iter`: the items, cloned, in insertion order.
#[verifier::external_body]
pub(crate) fn triples_in_order(set: &IndexSet<(String, String, String), FxBuildHasher>) -> (items:
    Vec<(String, String, String)>)
    ensures
        items@.map_values(|t: (String, String, String)| (t.0@, t.1@, t.2@)) == ordered_triples(
            *set,
        ),
{
    set.iter().cloned().collect()
}

/// `FxHashMap::default`: a new map has no entry.
#[verifier::external_body]
pub(crate) fn new_counts() -> (map: FxHashMap<String, usize>)
    ensures
        counts_of(map).dom() == Set::<Seq<char>>::empty(),
{
    FxHashMap::default()
}

/// `FxHashMap::get` on a map of numbers, the number copied.
#[verifier::external_body]
pub(crate) fn get_count(map: &FxHashMap<String, usize>, key: &str) -> (count: Option<usize>)
    ensures
        count == (if counts_of(*map).dom().contains(key@) {
            Some(counts_of(*map)[key@])
        } else {
            None
        }),
{
    map.get(key).copied()
}

/// `FxHashMap::insert` on a map of numbers: the key now maps to the number.
#[verifier::external_body]
pub(crate) fn set_count(map: &mut FxHashMap<String, usize>, key: String, count: usize)
    ensures
        counts_of(*final(map)) == counts_of(*old(map)).insert(key@, count),
{
    map.insert(key, count);
}

/// `FxHashMap::default`: a new map has no entry.
#[verifier::external_body]
pub(crate) fn new_aliases() -> (map: FxHashMap<(String, String), String>)
    ensures
        aliases_of(map).dom() == Set::<(Seq<char>, Seq<char>)>::empty(),
{
    FxHashMap::default()
}

/// `FxHashMap::get` on a map of names, the name cloned.
#[verifier::external_body]
pub(crate) fn get_alias(map: &FxHashMap<(String, String), String>, key: &(String, String)) -> (name:
    Option<String>)
    ensures
        match name {
            Some(name) => aliases_of(*map).dom().contains((key.0@, key.1@))
                && name@ == aliases_of(*map)[(key.0@, key.1@)],
            None => !aliases_of(*map).dom().contains((key.0@, key.1@)),
        },
{
    map.get(key).cloned()
}

/// `FxHashMap::insert` on a map of names: the key now maps to the name.
#[verifier::external_body]
pub(crate) fn set_alias(
    map: &mut FxHashMap<(String, String), String>,
    key: (String, String),
    name: String,
)
    ensures
        aliases_of(*final(map)) == aliases_of(*old(map)).insert((key.0@, key.1@), name@),
{
    map.insert(key, name);
}

/// The entries of a hash map from symbols to the values of constants.
pub uninterp spec fn constants_of(map: FxHashMap<u32, StaticTextValue>) -> Map<u32, StaticTextV>;

/// `FxHashMap::default`: a new map has no entry.
#[verifier::external_body]
pub(crate) fn new_constants() -> (map: FxHashMap<u32, StaticTextValue>)
    ensures
        constants_of(map).dom() == Set::<u32>::empty(),
{
    FxHashMap::default()
}

/// `FxHashMap::get` on a map of constants.
#[verifier::external_body]
pub(crate) fn get_constant(map: &FxHashMap<u32, StaticTextValue>, symbol: u32) -> (value: Option<
    &StaticTextValue,
>)
    ensures
        match value {
            Some(value) => constants_of(*map).dom().contains(symbol) && value@ == constants_of(
                *map,
            )[symbol],
            None => !constants_of(*map).dom().contains(symbol),
        },
{
    map.get(&symbol)
}

/// `FxHashMap::insert` on a map of constants.
#[verifier::external_body]
pub(crate) fn set_constant(
    map: &mut FxHashMap<u32, StaticTextValue>,
    symbol: u32,
    value: StaticTextValue,
)
    ensures
        constants_of(*final(map)) == constants_of(*old(map)).insert(symbol, value@),
{
    map.insert(symbol, value);
}

/// `oxc_syntax::identifier::is_identifier_name`: whether a text is an
/// identifier name of the language.
pub uninterp spec fn identifier_name(text: Seq<char>) -> bool;

/// Calls `oxc_syntax::identifier::is_identifier_name`.
#[verifier::external_body]
pub(crate) fn is_identifier_name(text: &str) -> (yes: bool)
    ensures
        yes == identifier_name(text@),
{
    oxc_syntax::identifier::is_identifier_name(text)
}

/// The words that the language reserves, everywhere or in some places.
pub open spec fn reserved_keyword(text: Seq<char>) -> bool {
    text == "let"@ || text == "static"@ || text == "implements"@ || text == "interface"@
        || text == "package"@ || text == "private"@ || text == "protected"@ || text == "public"@
        || text == "await"@ || text == "break"@ || text == "case"@ || text == "catch"@
        || text == "class"@ || text == "const"@ || text == "continue"@ || text == "debugger"@
        || text == "default"@ || text == "delete"@ || text == "do"@ || text == "else"@
        || text == "enum"@ || text == "export"@ || text == "extends"@ || text == "false"@
        || text == "finally"@ || text == "for"@ || text == "function"@ || text == "if"@
        || text == "import"@ || text == "in"@ || text == "instanceof"@ || text == "new"@
        || text == "null"@ || text == "return"@ || text == "super"@ || text == "switch"@
        || text == "this"@ || text == "throw"@ || text == "true"@ || text == "try"@
        || text == "typeof"@ || text == "var"@ || text == "void"@ || text == "while"@
        || text == "with"@ || text == "yield"@
}

/// Calls `oxc_syntax::keyword::is_reserved_keyword`: whether a text is one of
/// the reserved words.
#[verifier::external_body]
pub(crate) fn is_reserved_keyword(text: &str) -> (yes: bool)
    ensures
        yes == reserved_keyword(text@),
{
    oxc_syntax::keyword::is_reserved_keyword(text)
}

/// `==` of `std` on string slices: equal when the characters are.
#[verifier::external_body]
pub(crate) fn same(left: &str, right: &str) -> (equal: bool)
    ensures
        equal == (left@ == right@),
{
    left == right
}

/// `String::push` of `std`.
#[verifier::external_body]
pub(crate) fn push_char(text: &mut String, c: char)
    ensures
        final(text)@ == old(text)@.push(c),
{
    text.push(c)
}

/// `Rc::clone` of `std`: another handle on the same value.
#[verifier::external_body]
pub(crate) fn share<T>(value: &Rc<T>) -> (shared: Rc<T>)
    ensures
        shared == *value,
{
    Rc::clone(value)
}

/// `char::is_uppercase` of `std`: the character has the Unicode property
/// `Uppercase`.
pub uninterp spec fn uppercase(c: char) -> bool;

/// Calls `char::is_uppercase` of `std`.  Of the ASCII characters, the letters
/// `A` to `Z` have the property.
#[verifier::external_body]
pub(crate) fn is_uppercase(c: char) -> (yes: bool)
    ensures
        c <= '\u{7f}' ==> yes == ('A' <= c && c <= 'Z'),
        c > '\u{7f}' ==> yes == uppercase(c),
{
    c.is_uppercase()
}

/// The first character of `char::to_lowercase` of `std`.
pub uninterp spec fn lowercase_first(c: char) -> char;

/// Calls `char::to_lowercase` of `std`, which yields at least one character,
/// and takes the first.  Of the ASCII characters, the letters `A` to `Z` become
/// `a` to `z`, and the others stay.
#[verifier::external_body]
pub(crate) fn lowercase(c: char) -> (lower: char)
    ensures
        c <= '\u{7f}' ==> lower == ascii_lower(c),
        c > '\u{7f}' ==> lower == lowercase_first(c),
{
    c.to_lowercase().next().unwrap()
}

/// `oxc_span::SourceType`: the dialect of a source file, carried through.
#[verifier::external_type_specification]
#[verifier::external_body]
pub struct ExSourceType(SourceType);

/// `oxc_span::SourceType::tsx`: TypeScript with JSX.  Nothing is stated of the
/// value, which the library only hands on.
pub assume_specification[ SourceType::tsx ]() -> SourceType
;

/// A complaint of the parser: its message, and the stretches of the source, by
/// offset and length in bytes, that it points at.
#[derive(Debug)]
pub struct Diagnostic {
    pub message: String,
    pub labels: Vec<(usize, usize)>,
}

/// What came of parsing a source: whether the parser gave up, its complaints,
/// and the insides of the comments that it met, in their order.
#[derive(Debug)]
pub struct Report {
    pub panicked: bool,
    pub diagnostics: Vec<Diagnostic>,
    pub comments: Vec<String>,
}

/// The value of a `Report`.
pub ghost struct ReportV {
    pub panicked: bool,
    pub diagnostics: Seq<(Seq<char>, Seq<(usize, usize)>)>,
    pub comments: Seq<Seq<char>>,
}

impl View for Report {
    type V = ReportV;

    open spec fn view(&self) -> ReportV {
        ReportV {
            panicked: self.panicked,
            diagnostics: self.diagnostics@.map_values(
                |d: Diagnostic| (d.message@, d.labels@),
            ),
            comments: texts(self.comments@),
        }
    }
}

/// What `oxc_parser::Parser::parse` says of a source in a dialect.
pub uninterp spec fn parse_report(source: Seq<char>, source_type: SourceType) -> ReportV;

/// Calls `oxc_parser::Parser::parse`, and hands on whether it gave up, what it
/// complained of, and the text at the content span of each comment of the
/// program.  The rest of the program is not kept.
#[verifier::external_body]
pub(crate) fn parse(source: &str, source_type: SourceType) -> (report: Report)
    ensures
        report@ == parse_report(source@, source_type),
{
    let allocator = Allocator::default();
    let parsed = Parser::new(&allocator, source, source_type).parse();
    let mut diagnostics = Vec::new();
    for error in &parsed.errors {
        let mut labels = Vec::new();
        for label in error.labels.iter().flatten() {
            labels.push((label.offset(), label.len()));
        }
        diagnostics.push(Diagnostic { message: error.to_string(), labels });
    }
    let mut comments = Vec::new();
    for comment in &parsed.program.comments {
        comments.push(comment.content_span().source_text(source).to_string());
    }
    Report { panicked: parsed.panicked, diagnostics, comments }
}

/// The strings of a hash set.
pub uninterp spec fn set_of(set: FxHashSet<String>) -> Set<Seq<char>>;

/// `FxHashSet::default`: a new set holds nothing.
#[verifier::external_body]
pub(crate) fn new_set() -> (set: FxHashSet<String>)
    ensures
        set_of(set) == Set::<Seq<char>>::empty(),
{
    FxHashSet::default()
}

/// `FxHashSet::insert`.
#[verifier::external_body]
pub(crate) fn insert_member(set: &mut FxHashSet<String>, item: String) -> (added: bool)
    ensures
        set_of(*final(set)) == set_of(*old(set)).insert(item@),
        added == !set_of(*old(set)).contains(item@),
{
    set.insert(item)
}

} // verus!
