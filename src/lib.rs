//! Replays a chat export into a live chat service, exactly once per message.
//!
//! The library holds the decisions of the migration: parsing timestamps,
//! rendering message text, the deduplication ledger, the attachment cache,
//! channel provisioning and the per-channel replay state machine. The driver
//! that performs network and database work lives outside it and hands results
//! back as plain values.

pub mod archive;
pub mod cache;
pub mod discord;
pub mod ledger;
pub mod number;
pub mod provision;
pub mod render;
pub mod replay;
pub mod slack;
pub mod text;

use vstd::prelude::*;

verus! {

/// A stored file: its number, its source URL and its bytes.
#[derive(Debug, Clone, PartialEq, Eq)]
pub struct File {
    id: u64,
    url: String,
    blob: Vec<u8>,
}

pub struct StoredFileView {
    pub id: nat,
    pub url: Seq<char>,
    pub blob: Seq<u8>,
}

impl View for File {
    type V = StoredFileView;

    closed spec fn view(&self) -> StoredFileView {
        StoredFileView { id: self.id as nat, url: self.url@, blob: self.blob@ }
    }
}

impl File {
    pub fn new(id: u64, url: String, blob: Vec<u8>) -> (r: File)
        ensures
            r@ == (StoredFileView { id: id as nat, url: url@, blob: blob@ }),
    {
        File { id, url, blob }
    }

    pub fn id(&self) -> (r: u64)
        ensures
            r as nat == self@.id,
    {
        self.id
    }

    pub fn url(&self) -> (r: &str)
        ensures
            r@ == self@.url,
    {
        self.url.as_str()
    }

    pub fn blob(&self) -> (r: &Vec<u8>)
        ensures
            r@ == self@.blob,
    {
        &self.blob
    }
}

} // verus!
