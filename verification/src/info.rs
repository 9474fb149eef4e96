//! What a node is told of the place at which it stands.

use crate::copy::copied_texts;
use crate::ir::{copied_option, opt};
use crate::make::copied;
use crate::options::TransformOptions;
use crate::text::texts;
use crate::vocabulary::{contains, Vocabulary};
use vstd::prelude::*;

verus! {

/// Additional info passed during transform.
#[derive(Debug, Default)]
pub struct TransformInfo {
    pub top_level: bool,
    pub last_element: bool,
    pub skip_id: bool,
    pub component_child: bool,
    pub fragment_child: bool,
    /// Path from root element to this element, such as `firstChild`, `nextSibling`.
    pub path: Vec<String>,
    /// The root element variable name.
    pub root_id: Option<String>,
    /// Preallocated element id.
    pub forced_id: Option<String>,
    /// Tags that should stay closed while walking nested omission rules.
    pub to_be_closed: Option<Vec<String>>,
    /// When hydrating `html`, the tag that the next match is searched for.
    pub match_tag: Option<String>,
}

/// The value of a `TransformInfo`.
pub ghost struct InfoV {
    pub top_level: bool,
    pub last_element: bool,
    pub skip_id: bool,
    pub component_child: bool,
    pub fragment_child: bool,
    pub path: Seq<Seq<char>>,
    pub root_id: Option<Seq<char>>,
    pub forced_id: Option<Seq<char>>,
    pub to_be_closed: Option<Set<Seq<char>>>,
    pub match_tag: Option<Seq<char>>,
}

/// The tags of a list.
pub open spec fn tag_set(tags: Seq<String>) -> Set<Seq<char>> {
    Set::new(|tag: Seq<char>| texts(tags).contains(tag))
}

pub open spec fn option_tags(tags: Option<Vec<String>>) -> Option<Set<Seq<char>>> {
    match tags {
        None => None,
        Some(tags) => Some(tag_set(tags@)),
    }
}

impl View for TransformInfo {
    type V = InfoV;

    open spec fn view(&self) -> InfoV {
        InfoV {
            top_level: self.top_level,
            last_element: self.last_element,
            skip_id: self.skip_id,
            component_child: self.component_child,
            fragment_child: self.fragment_child,
            path: texts(self.path@),
            root_id: opt(self.root_id),
            forced_id: opt(self.forced_id),
            to_be_closed: option_tags(self.to_be_closed),
            match_tag: opt(self.match_tag),
        }
    }
}

fn copied_tags(tags: &Option<Vec<String>>) -> (copy: Option<Vec<String>>)
    ensures
        option_tags(copy) == option_tags(*tags),
{
    match tags {
        None => None,
        Some(tags) => Some(copied_texts(tags)),
    }
}

proof fn tag_set_push(tags: Seq<String>, tag: String)
    ensures
        tag_set(tags.push(tag)) == tag_set(tags).insert(tag@),
{
    assert(texts(tags.push(tag)) =~= texts(tags).push(tag@));
    assert forall|t: Seq<char>|
        #[trigger] tag_set(tags.push(tag)).contains(t) == tag_set(tags).insert(tag@).contains(t) by {
        let all = texts(tags).push(tag@);
        if texts(tags).contains(t) {
            let k = choose|k: int| 0 <= k < texts(tags).len() && texts(tags)[k] == t;
            assert(all[k] == t);
        }
        if t == tag@ {
            assert(all[texts(tags).len() as int] == t);
        }
        if all.contains(t) {
            let k = choose|k: int| 0 <= k < all.len() && all[k] == t;
            if k < texts(tags).len() {
                assert(texts(tags)[k] == t);
            }
        }
    }
    assert(tag_set(tags.push(tag)) =~= tag_set(tags).insert(tag@));
}

/// Adds tags to a list.
fn push_tags(tags: &mut Vec<String>, more: &Vec<String>)
    ensures
        tag_set(final(tags)@) == tag_set(old(tags)@).union(tag_set(more@)),
{
    let mut i: usize = 0;
    while i < more.len()
        invariant
            i <= more.len(),
            tag_set(tags@) == tag_set(old(tags)@).union(tag_set(more@.take(i as int))),
        decreases more.len() - i,
    {
        proof {
            tag_set_push(tags@, more@[i as int]);
            tag_set_push(more@.take(i as int), more@[i as int]);
            assert(more@.take(i as int).push(more@[i as int]) =~= more@.take(i + 1));
        }
        let tag = more[i].clone();
        tags.push(tag);
        proof {
            assert(tag_set(tags@) =~= tag_set(old(tags)@).union(tag_set(more@.take(i + 1))));
        }
        i = i + 1;
    }
    proof {
        assert(more@.take(more@.len() as int) =~= more@);
    }
}

impl InfoV {
    /// An element with this tag gets its closing tag.
    pub open spec fn closes(self, tag: Seq<char>, options: TransformOptions) -> bool {
        !self.last_element || !options.omit_last_closing_tag || (self.to_be_closed matches Some(tags)
            && (!options.omit_nested_closing_tags || tags.contains(tag)))
    }

    /// The tags that stay closed below an element with this tag.
    pub open spec fn closed_below(
        self,
        tag: Seq<char>,
        options: TransformOptions,
        vocabulary: Vocabulary,
    ) -> Option<Set<Seq<char>>> {
        if self.closes(tag, options) {
            let tags = match self.to_be_closed {
                Some(tags) => tags,
                None => tag_set(vocabulary.always_close@),
            };
            let more = tags.insert(tag);
            Some(
                if texts(vocabulary.inline_elements@).contains(tag) {
                    more.union(tag_set(vocabulary.block_elements@))
                } else {
                    more
                },
            )
        } else {
            self.to_be_closed
        }
    }

    /// What the children of an element are told.
    pub open spec fn below(
        self,
        tag: Seq<char>,
        id: Option<Seq<char>>,
        options: TransformOptions,
        vocabulary: Vocabulary,
    ) -> InfoV {
        InfoV {
            root_id: if id is Some {
                id
            } else {
                self.root_id
            },
            path: if id is Some {
                seq![]
            } else {
                self.path
            },
            top_level: false,
            forced_id: None,
            to_be_closed: self.closed_below(tag, options, vocabulary),
            match_tag: None,
            ..self
        }
    }
}

impl TransformInfo {
    pub fn duplicate(&self) -> (copy: TransformInfo)
        ensures
            copy@ == self@,
    {
        TransformInfo {
            top_level: self.top_level,
            last_element: self.last_element,
            skip_id: self.skip_id,
            component_child: self.component_child,
            fragment_child: self.fragment_child,
            path: copied_texts(&self.path),
            root_id: copied_option(&self.root_id),
            forced_id: copied_option(&self.forced_id),
            to_be_closed: copied_tags(&self.to_be_closed),
            match_tag: copied_option(&self.match_tag),
        }
    }

    /// An element with this tag gets its closing tag.
    pub fn should_close_tag(&self, tag: &str, options: &TransformOptions) -> (yes: bool)
        ensures
            yes == self@.closes(tag@, *options),
    {
        !self.last_element || !options.omit_last_closing_tag || match &self.to_be_closed {
            Some(tags) => !options.omit_nested_closing_tags || contains(tags, tag),
            None => false,
        }
    }

    fn child_to_be_closed(
        &self,
        tag: &str,
        options: &TransformOptions,
        vocabulary: &Vocabulary,
    ) -> (tags: Option<Vec<String>>)
        ensures
            option_tags(tags) == self@.closed_below(tag@, *options, *vocabulary),
    {
        if self.should_close_tag(tag, options) {
            let mut tags = match &self.to_be_closed {
                Some(tags) => copied_texts(tags),
                None => copied_texts(&vocabulary.always_close),
            };
            let own = copied(tag);
            proof {
                tag_set_push(tags@, own);
            }
            tags.push(own);
            if contains(&vocabulary.inline_elements, tag) {
                push_tags(&mut tags, &vocabulary.block_elements);
            }
            Some(tags)
        } else {
            copied_tags(&self.to_be_closed)
        }
    }

    /// What the children of an element are told.
    pub fn for_children(
        &self,
        tag: &str,
        id: &Option<String>,
        options: &TransformOptions,
        vocabulary: &Vocabulary,
    ) -> (info: TransformInfo)
        ensures
            info@ == self@.below(tag@, opt(*id), *options, *vocabulary),
    {
        let path = if id.is_some() {
            let path: Vec<String> = Vec::new();
            proof {
                assert(texts(path@) =~= seq![]);
            }
            path
        } else {
            copied_texts(&self.path)
        };
        let info = TransformInfo {
            top_level: false,
            last_element: self.last_element,
            skip_id: self.skip_id,
            component_child: self.component_child,
            fragment_child: self.fragment_child,
            path,
            root_id: if id.is_some() {
                copied_option(id)
            } else {
                copied_option(&self.root_id)
            },
            forced_id: None,
            to_be_closed: self.child_to_be_closed(tag, options, vocabulary),
            match_tag: None,
        };
        info
    }
}

} // verus!
