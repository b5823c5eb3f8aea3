//! The tar container and its gzipped form, read in memory through the `tar`
//! and `flate2` crates.
//!
//! Nothing in this file is proved: each item states what the crates' code
//! does, and the rest of the library is verified against these statements.
//! Where a crate reports an error, the wrapper hands on the error's words,
//! as its `Display` impl writes them.

use vstd::prelude::*;
use crate::text::lines_of;

verus! {

/// The path names of the entries of the tar stream `bytes`, in the order of
/// the stream, or the crate's words on why reading the stream fails before
/// its end mark. A name that is not UTF-8 is given with replacement
/// characters.
pub uninterp spec fn tar_names(bytes: Seq<u8>) -> Result<Seq<Seq<char>>, Seq<char>>;

/// As [`tar_names`], for a tar stream that is read through a gzip decoder.
pub uninterp spec fn tar_gz_names(bytes: Seq<u8>) -> Result<Seq<Seq<char>>, Seq<char>>;

/// A list of names, or the words of an error, as a mathematical value.
pub open spec fn names_or_words(r: Result<Vec<String>, String>) -> Result<
    Seq<Seq<char>>,
    Seq<char>,
> {
    match r {
        Ok(names) => Ok(lines_of(names@)),
        Err(e) => Err(e@),
    }
}

/// Walks `tar::Archive::entries` over `bytes` and collects
/// `Entry::path_bytes` of every entry as text. The first entry that cannot
/// be read ends the walk with the crate's words.
#[verifier::external_body]
pub(crate) fn tar_entry_names(bytes: &[u8]) -> (r: Result<Vec<String>, String>)
    ensures
        names_or_words(r) == tar_names(bytes@),
{
    let mut archive = tar::Archive::new(bytes);
    let mut names = Vec::new();
    let entries = match archive.entries() {
        Ok(entries) => entries,
        Err(e) => return Err(e.to_string()),
    };
    for entry in entries {
        match entry {
            Ok(entry) => names.push(String::from_utf8_lossy(&entry.path_bytes()).into_owned()),
            Err(e) => return Err(e.to_string()),
        }
    }
    Ok(names)
}

/// As [`tar_entry_names`], with `flate2::read::GzDecoder` between the bytes
/// and the tar reader.
#[verifier::external_body]
pub(crate) fn tar_gz_entry_names(bytes: &[u8]) -> (r: Result<Vec<String>, String>)
    ensures
        names_or_words(r) == tar_gz_names(bytes@),
{
    let mut archive = tar::Archive::new(flate2::read::GzDecoder::new(bytes));
    let mut names = Vec::new();
    let entries = match archive.entries() {
        Ok(entries) => entries,
        Err(e) => return Err(e.to_string()),
    };
    for entry in entries {
        match entry {
            Ok(entry) => names.push(String::from_utf8_lossy(&entry.path_bytes()).into_owned()),
            Err(e) => return Err(e.to_string()),
        }
    }
    Ok(names)
}

} // verus!
