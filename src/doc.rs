//! Catalog entries: what the remote search reports of one item.
use vstd::prelude::*;
use crate::text::{clone_strings, concat};

verus! {

/// One entry of the remote catalog. `number` is its position in the whole
/// catalog, counted from 1 (0 until the client assigns it).
pub struct Doc {
    pub number: usize,
    pub identifier: String,
    pub subject: Vec<String>,
    pub description: String,
    pub downloads: u64,
}

/// `d` with its position set to `n`.
pub open spec fn with_number(d: Doc, n: usize) -> Doc {
    Doc {
        number: n,
        identifier: d.identifier,
        subject: d.subject,
        description: d.description,
        downloads: d.downloads,
    }
}

/// The file name of the record of the item `identifier`.
pub open spec fn record_file_name(identifier: Seq<char>) -> Seq<char> {
    identifier + ".md"@
}

impl Doc {
    /// An entry not yet placed in the catalog (its position is 0).
    pub fn new(identifier: String, subject: Vec<String>, description: String, downloads: u64) -> (r: Doc)
        ensures
            r.number == 0,
            r.identifier == identifier,
            r.subject == subject,
            r.description == description,
            r.downloads == downloads,
    {
        Doc { number: 0, identifier, subject, description, downloads }
    }

    pub fn get_number(&self) -> (r: usize)
        ensures
            r == self.number,
    {
        self.number
    }

    pub fn set_number(&mut self, number: usize)
        ensures
            *final(self) == with_number(*old(self), number),
    {
        self.number = number;
    }

    pub fn get_identifier(&self) -> (r: &str)
        ensures
            r@ == self.identifier@,
    {
        self.identifier.as_str()
    }

    pub fn get_subject(&self) -> (r: Vec<String>)
        ensures
            r@ == self.subject@,
    {
        clone_strings(&self.subject)
    }

    pub fn get_description(&self) -> (r: &str)
        ensures
            r@ == self.description@,
    {
        self.description.as_str()
    }

    /// The name of the file that holds this item's record.
    pub fn get_filename(&self) -> (r: String)
        ensures
            r@ == record_file_name(self.identifier@),
    {
        concat(self.identifier.as_str(), ".md")
    }

    pub fn get_downloads(&self) -> (r: u64)
        ensures
            r == self.downloads,
    {
        self.downloads
    }
}

} // verus!
