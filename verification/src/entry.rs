//! Entries and their classification.

use vstd::prelude::*;
use crate::address::{Address, DIGEST_SEED, mix, mix_text, digest_word, digest_text};

verus! {

/// Classification tag of an entry.
#[derive(Debug, PartialEq, Eq, Hash)]
pub enum EntryType {
    AgentId,
    Deletion,
    App(String),
    Dna,
    ChainHeader,
    Key,
    Link,
    Migration,
    LinkList,
}

impl EntryType {
    /// The number that stands for the variant in a digest.
    pub open spec fn tag(&self) -> u64 {
        match self {
            EntryType::AgentId => 0,
            EntryType::Deletion => 1,
            EntryType::App(_) => 2,
            EntryType::Dna => 3,
            EntryType::ChainHeader => 4,
            EntryType::Key => 5,
            EntryType::Link => 6,
            EntryType::Migration => 7,
            EntryType::LinkList => 8,
        }
    }

    /// The name of an application-defined type; empty for the system types.
    pub open spec fn name(&self) -> Seq<char> {
        match self {
            EntryType::App(s) => s@,
            _ => Seq::empty(),
        }
    }

    /// Two tags denote the same type: same variant, and for application
    /// types the same name.
    pub open spec fn same(&self, other: &EntryType) -> bool {
        self.tag() == other.tag() && self.name() == other.name()
    }

    pub open spec fn mix_into(&self, acc: u64) -> u64 {
        mix_text(mix(acc, self.tag()), self.name())
    }

    fn tag_number(&self) -> (r: u64)
        ensures
            r == self.tag(),
    {
        match self {
            EntryType::AgentId => 0,
            EntryType::Deletion => 1,
            EntryType::App(_) => 2,
            EntryType::Dna => 3,
            EntryType::ChainHeader => 4,
            EntryType::Key => 5,
            EntryType::Link => 6,
            EntryType::Migration => 7,
            EntryType::LinkList => 8,
        }
    }

    /// Whether `self` and `other` denote the same type.
    pub fn matches(&self, other: &EntryType) -> (r: bool)
        ensures
            r == self.same(other),
    {
        match (self, other) {
            (EntryType::App(a), EntryType::App(b)) => *a == *b,
            _ => self.tag_number() == other.tag_number(),
        }
    }

    pub fn digest_into(&self, acc: u64) -> (r: u64)
        ensures
            r == self.mix_into(acc),
    {
        let h: u64 = digest_word(acc, self.tag_number());
        match self {
            EntryType::App(s) => digest_text(h, s),
            _ => {
                let empty = String::new();
                digest_text(h, &empty)
            },
        }
    }
}

impl Clone for EntryType {
    fn clone(&self) -> (r: Self)
        ensures
            r == *self,
    {
        match self {
            EntryType::AgentId => EntryType::AgentId,
            EntryType::Deletion => EntryType::Deletion,
            EntryType::App(s) => EntryType::App(s.clone()),
            EntryType::Dna => EntryType::Dna,
            EntryType::ChainHeader => EntryType::ChainHeader,
            EntryType::Key => EntryType::Key,
            EntryType::Link => EntryType::Link,
            EntryType::Migration => EntryType::Migration,
            EntryType::LinkList => EntryType::LinkList,
        }
    }
}

/// A piece of content recorded on a chain.
#[derive(Debug, PartialEq, Eq)]
pub struct Entry {
    pub entry_type: EntryType,
    pub content: String,
}

impl Entry {
    pub fn new(entry_type: &EntryType, content: &String) -> (r: Entry)
        ensures
            r.entry_type == *entry_type,
            r.content == *content,
    {
        Entry { entry_type: entry_type.clone(), content: content.clone() }
    }

    /// The address that the entry's content determines.
    pub open spec fn spec_address(&self) -> Address {
        Address { digest: mix_text(self.entry_type.mix_into(DIGEST_SEED), self.content@) }
    }

    pub fn address(&self) -> (a: Address)
        ensures
            a == self.spec_address(),
    {
        Address { digest: digest_text(self.entry_type.digest_into(DIGEST_SEED), &self.content) }
    }
}

impl Clone for Entry {
    fn clone(&self) -> (r: Self)
        ensures
            r == *self,
    {
        Entry { entry_type: self.entry_type.clone(), content: self.content.clone() }
    }
}

/// How an entry stands with respect to later changes.
#[derive(Clone, Copy, Debug, PartialEq, Eq, Structural)]
pub enum CrudStatus {
    Live,
    Rejected,
    Deleted,
    Modified,
    Locked,
}

/// An entry together with the metadata that the network layer resolved
/// for it.
#[derive(Debug, PartialEq, Eq)]
pub struct EntryWithMeta {
    pub entry: Entry,
    pub crud_status: CrudStatus,
    pub maybe_crud_link: Option<Address>,
}

impl Clone for EntryWithMeta {
    fn clone(&self) -> (r: Self)
        ensures
            r == *self,
    {
        EntryWithMeta {
            entry: self.entry.clone(),
            crud_status: self.crud_status,
            maybe_crud_link: self.maybe_crud_link,
        }
    }
}

} // verus!
