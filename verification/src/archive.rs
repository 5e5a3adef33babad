//! Reading entries of zip archives.
use vstd::prelude::*;
use vstd::string::*;

verus! {

use crate::text::opt_view;

/// A reader over bytes in memory.
#[verifier::external_type_specification]
#[verifier::external_body]
#[verifier::reject_recursive_types(T)]
pub struct ExCursor<T>(std::io::Cursor<T>);

/// An open zip archive.
#[verifier::external_type_specification]
#[verifier::external_body]
#[verifier::reject_recursive_types(R)]
pub struct ExZipArchive<R>(zip::ZipArchive<R>);

/// The bytes that an archive was opened from.
pub uninterp spec fn archive_bytes(a: zip::ZipArchive<std::io::Cursor<Vec<u8>>>) -> Seq<u8>;

/// Whether `zip::ZipArchive::new` opens the bytes as an archive.
pub uninterp spec fn archive_valid(bytes: Seq<u8>) -> bool;

/// How many entries `zip::ZipArchive::len` counts in the archive made of the bytes.
pub uninterp spec fn archive_len(bytes: Seq<u8>) -> nat;

/// The name of an entry, where `zip::ZipArchive::by_index` can open it.
pub uninterp spec fn entry_name(bytes: Seq<u8>, i: nat) -> Option<Seq<char>>;

/// The text of an entry that `zip::ZipArchive::by_index` can open, where reading it succeeds
/// and gives UTF-8.
pub uninterp spec fn entry_text(bytes: Seq<u8>, i: nat) -> Option<Seq<char>>;

/// What `zip::ZipArchive::by_name` finds: `None` where it opens no entry of that name, and
/// else the text of the entry, where reading it succeeds and gives UTF-8.
pub uninterp spec fn named_text(bytes: Seq<u8>, name: Seq<char>) -> Option<Option<Seq<char>>>;


/// `zip::ZipArchive::new` opens an archive. Whether it does depends on the bytes alone.
#[verifier::external_body]
pub(crate) fn open_archive(bytes: Vec<u8>) -> (r: Option<zip::ZipArchive<std::io::Cursor<Vec<u8>>>>)
    ensures
        r is Some <==> archive_valid(bytes@),
        r matches Some(a) ==> archive_bytes(a) == bytes@,
{
    zip::ZipArchive::new(std::io::Cursor::new(bytes)).ok()
}

/// `zip::ZipArchive::len` counts the entries of the archive.
#[verifier::external_body]
pub(crate) fn count_entries(a: &zip::ZipArchive<std::io::Cursor<Vec<u8>>>) -> (r: usize)
    ensures
        r == archive_len(archive_bytes(*a)),
{
    a.len()
}

/// `zip::ZipArchive::by_index` opens an entry, of which `name` gives the name. It fails on
/// some entries, an encrypted one among them. The archive stays as it is.
#[verifier::external_body]
pub(crate) fn name_at(a: &mut zip::ZipArchive<std::io::Cursor<Vec<u8>>>, i: usize) -> (r: Option<
    String,
>)
    ensures
        archive_bytes(*final(a)) == archive_bytes(*old(a)),
        opt_view(r) == entry_name(archive_bytes(*old(a)), i as nat),
{
    match a.by_index(i) {
        Ok(f) => Some(f.name().to_owned()),
        Err(_) => None,
    }
}

/// `zip::ZipArchive::by_index` opens an entry, which is then read to the end as text.
/// Opening it or reading it may fail. The archive stays as it is.
#[verifier::external_body]
pub(crate) fn text_at(a: &mut zip::ZipArchive<std::io::Cursor<Vec<u8>>>, i: usize) -> (r: Option<
    String,
>)
    ensures
        archive_bytes(*final(a)) == archive_bytes(*old(a)),
        opt_view(r) == entry_text(archive_bytes(*old(a)), i as nat),
{
    match a.by_index(i) {
        Ok(f) => std::io::read_to_string(f).ok(),
        Err(_) => None,
    }
}

/// `zip::ZipArchive::by_name` opens the entry of a name, which is then read to the end as
/// text. Opening it or reading it may fail. The archive stays as it is.
#[verifier::external_body]
pub(crate) fn text_named(
    a: &mut zip::ZipArchive<std::io::Cursor<Vec<u8>>>,
    name: &str,
) -> (r: Option<Option<String>>)
    ensures
        archive_bytes(*final(a)) == archive_bytes(*old(a)),
        r is Some <==> named_text(archive_bytes(*old(a)), name@) is Some,
        r matches Some(t) ==> Some(opt_view(t)) == named_text(archive_bytes(*old(a)), name@),
{
    match a.by_name(name) {
        Ok(f) => Some(std::io::read_to_string(f).ok()),
        Err(_) => None,
    }
}

}
