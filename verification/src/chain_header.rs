//! Chain headers: the records that link an agent's chain together.

use vstd::prelude::*;
use crate::address::{Address, DIGEST_SEED, mix, mix_text, mix_link, digest_word, digest_text, digest_link};
use crate::entry::EntryType;

verus! {

/// One step of a chain. It points back at the header before it, whatever
/// that one's type, and at the latest earlier header of its own type.
#[derive(Debug, PartialEq, Eq)]
pub struct ChainHeader {
    pub entry_type: EntryType,
    pub timestamp: String,
    pub link: Option<Address>,
    pub entry_address: Address,
    pub entry_signature: String,
    pub link_same_type: Option<Address>,
}

impl ChainHeader {
    pub fn new(
        entry_type: &EntryType,
        timestamp: &String,
        link: Option<Address>,
        entry_address: &Address,
        entry_signature: &String,
        link_same_type: Option<Address>,
    ) -> (r: ChainHeader)
        ensures
            r == (ChainHeader {
                entry_type: *entry_type,
                timestamp: *timestamp,
                link,
                entry_address: *entry_address,
                entry_signature: *entry_signature,
                link_same_type,
            }),
    {
        ChainHeader {
            entry_type: entry_type.clone(),
            timestamp: timestamp.clone(),
            link,
            entry_address: *entry_address,
            entry_signature: entry_signature.clone(),
            link_same_type,
        }
    }

    pub fn entry_type(&self) -> (r: &EntryType)
        ensures
            *r == self.entry_type,
    {
        &self.entry_type
    }

    pub fn timestamp(&self) -> (r: &String)
        ensures
            *r == self.timestamp,
    {
        &self.timestamp
    }

    pub fn link(&self) -> (r: Option<Address>)
        ensures
            r == self.link,
    {
        self.link
    }

    pub fn entry_address(&self) -> (r: &Address)
        ensures
            *r == self.entry_address,
    {
        &self.entry_address
    }

    pub fn entry_signature(&self) -> (r: &String)
        ensures
            *r == self.entry_signature,
    {
        &self.entry_signature
    }

    pub fn link_same_type(&self) -> (r: Option<Address>)
        ensures
            r == self.link_same_type,
    {
        self.link_same_type
    }

    /// The header's own address: a digest of all of its fields. It is
    /// computed, never stored in the header.
    pub open spec fn spec_address(&self) -> Address {
        let h0 = self.entry_type.mix_into(DIGEST_SEED);
        let h1 = mix_text(h0, self.timestamp@);
        let h2 = mix_link(h1, self.link);
        let h3 = mix(h2, self.entry_address.digest);
        let h4 = mix_text(h3, self.entry_signature@);
        Address { digest: mix_link(h4, self.link_same_type) }
    }

    pub fn address(&self) -> (a: Address)
        ensures
            a == self.spec_address(),
    {
        let h0: u64 = self.entry_type.digest_into(DIGEST_SEED);
        let h1: u64 = digest_text(h0, &self.timestamp);
        let h2: u64 = digest_link(h1, &self.link);
        let h3: u64 = digest_word(h2, self.entry_address.digest);
        let h4: u64 = digest_text(h3, &self.entry_signature);
        Address { digest: digest_link(h4, &self.link_same_type) }
    }
}

impl Clone for ChainHeader {
    fn clone(&self) -> (r: Self)
        ensures
            r == *self,
    {
        ChainHeader {
            entry_type: self.entry_type.clone(),
            timestamp: self.timestamp.clone(),
            link: self.link,
            entry_address: self.entry_address,
            entry_signature: self.entry_signature.clone(),
            link_same_type: self.link_same_type,
        }
    }
}

} // verus!
