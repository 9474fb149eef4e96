//! The words of the platform: which tags, attributes and events are special.

use crate::outside::same;
use crate::text::texts;
use vstd::prelude::*;

verus! {

/// The tables that the transforms consult.
#[derive(Debug, Default)]
pub struct Vocabulary {
    /// Attributes that are written under another name.
    pub aliases: Vec<(String, String)>,
    /// Tags that are always closed.
    pub always_close: Vec<String>,
    pub block_elements: Vec<String>,
    pub inline_elements: Vec<String>,
    pub void_elements: Vec<String>,
    pub svg_elements: Vec<String>,
    /// Attributes that set the content of an element.
    pub child_properties: Vec<String>,
    /// Attributes that are set as properties.
    pub properties: Vec<String>,
    /// Properties that have another name on a tag.
    pub prop_aliases: Vec<PropAlias>,
    /// The namespaces of prefixes such as `xlink`.
    pub svg_namespaces: Vec<(String, String)>,
    /// Events that are delegated.
    pub delegated_events: Vec<String>,
}

/// On `tag`, the property `name` is called `alias`.
#[derive(Debug)]
pub struct PropAlias {
    pub name: String,
    pub tag: String,
    pub alias: String,
}

/// The first entry of a table under `key`.
pub open spec fn entry(table: Seq<(String, String)>, key: Seq<char>) -> Option<Seq<char>>
    decreases table.len(),
{
    if table.len() == 0 {
        None
    } else if table[0].0@ == key {
        Some(table[0].1@)
    } else {
        entry(table.skip(1), key)
    }
}

/// The first alias of a property on a tag.
pub open spec fn prop_alias(table: Seq<PropAlias>, name: Seq<char>, tag: Seq<char>) -> Option<
    Seq<char>,
>
    decreases table.len(),
{
    if table.len() == 0 {
        None
    } else if table[0].name@ == name && table[0].tag@ == tag {
        Some(table[0].alias@)
    } else {
        prop_alias(table.skip(1), name, tag)
    }
}

/// Whether `item` is one of `items`.
pub fn contains(items: &Vec<String>, item: &str) -> (found: bool)
    ensures
        found == texts(items@).contains(item@),
{
    let mut i: usize = 0;
    while i < items.len()
        invariant
            i <= items.len(),
            forall|k: int| 0 <= k < i ==> #[trigger] items@[k]@ != item@,
        decreases items.len() - i,
    {
        if same(items[i].as_str(), item) {
            proof {
                assert(texts(items@)[i as int] == item@);
            }
            return true;
        }
        i = i + 1;
    }
    proof {
        assert forall|k: int| 0 <= k < items@.len() implies texts(items@)[k] != item@ by {
            assert(items@[k]@ != item@);
        }
    }
    false
}

/// The first entry of a table under `key`.
pub fn lookup<'a>(table: &'a Vec<(String, String)>, key: &str) -> (value: Option<&'a str>)
    ensures
        match value {
            Some(value) => entry(table@, key@) == Some(value@),
            None => entry(table@, key@) is None,
        },
{
    let mut i: usize = 0;
    proof {
        assert(table@.skip(0) =~= table@);
    }
    while i < table.len()
        invariant
            i <= table.len(),
            entry(table@.skip(i as int), key@) == entry(table@, key@),
        decreases table.len() - i,
    {
        proof {
            assert(table@.skip(i as int)[0] == table@[i as int]);
            assert(table@.skip(i as int).skip(1) =~= table@.skip(i + 1));
        }
        if same(table[i].0.as_str(), key) {
            return Some(table[i].1.as_str());
        }
        i = i + 1;
    }
    None
}

impl Vocabulary {
    pub open spec fn is_void(self, tag: Seq<char>) -> bool {
        texts(self.void_elements@).contains(tag)
    }

    pub open spec fn is_svg(self, tag: Seq<char>) -> bool {
        texts(self.svg_elements@).contains(tag)
    }

    pub open spec fn is_child_property(self, key: Seq<char>) -> bool {
        texts(self.child_properties@).contains(key)
    }

    pub open spec fn is_property(self, key: Seq<char>) -> bool {
        texts(self.properties@).contains(key)
    }

    /// The name under which an attribute is written.
    pub open spec fn written(self, key: Seq<char>) -> Seq<char> {
        match entry(self.aliases@, key) {
            Some(alias) => alias,
            None => key,
        }
    }

    /// The name of a property on a tag.
    pub open spec fn property_name(self, key: Seq<char>, tag: Seq<char>) -> Seq<char> {
        match prop_alias(self.prop_aliases@, key, tag) {
            Some(alias) => alias,
            None => key,
        }
    }

    pub fn void(&self, tag: &str) -> (yes: bool)
        ensures
            yes == self.is_void(tag@),
    {
        contains(&self.void_elements, tag)
    }

    pub fn svg(&self, tag: &str) -> (yes: bool)
        ensures
            yes == self.is_svg(tag@),
    {
        contains(&self.svg_elements, tag)
    }

    pub fn child_property(&self, key: &str) -> (yes: bool)
        ensures
            yes == self.is_child_property(key@),
    {
        contains(&self.child_properties, key)
    }

    pub fn property(&self, key: &str) -> (yes: bool)
        ensures
            yes == self.is_property(key@),
    {
        contains(&self.properties, key)
    }

    /// The name under which an attribute is written.
    pub fn written_name<'a>(&'a self, key: &'a str) -> (name: &'a str)
        ensures
            name@ == self.written(key@),
    {
        match lookup(&self.aliases, key) {
            Some(alias) => alias,
            None => key,
        }
    }

    /// The name of a property on a tag.
    pub fn get_prop_alias<'a>(&'a self, key: &'a str, tag: &str) -> (name: &'a str)
        ensures
            name@ == self.property_name(key@, tag@),
    {
        let mut i: usize = 0;
        proof {
            assert(self.prop_aliases@.skip(0) =~= self.prop_aliases@);
        }
        while i < self.prop_aliases.len()
            invariant
                i <= self.prop_aliases.len(),
                prop_alias(self.prop_aliases@.skip(i as int), key@, tag@) == prop_alias(
                    self.prop_aliases@,
                    key@,
                    tag@,
                ),
            decreases self.prop_aliases.len() - i,
        {
            proof {
                assert(self.prop_aliases@.skip(i as int)[0] == self.prop_aliases@[i as int]);
                assert(self.prop_aliases@.skip(i as int).skip(1) =~= self.prop_aliases@.skip(
                    i + 1,
                ));
            }
            let row = &self.prop_aliases[i];
            if same(row.name.as_str(), key) && same(row.tag.as_str(), tag) {
                return row.alias.as_str();
            }
            i = i + 1;
        }
        key
    }
}

} // verus!
