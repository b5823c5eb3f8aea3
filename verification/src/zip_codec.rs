//! The zip container, read and written in memory through the `zip` crate.
//!
//! Nothing in this file is proved: each item states what the crate's code
//! does, and the rest of the library is verified against these statements.
//! Where the crate reports an error, the wrapper hands on the error's words,
//! as its `Display` impl writes them.

use vstd::prelude::*;
use std::io::Cursor;
use std::io::Read;
use std::io::Write;
use zip::read::ZipArchive;
use zip::write::FileOptions;
use zip::write::ZipWriter;

verus! {

/// `std::io::Cursor`, an in-memory reader and writer; nothing is known of
/// its inside.
#[verifier::external_type_specification]
#[verifier::external_body]
#[verifier::reject_recursive_types(T)]
pub struct ExCursor<T>(Cursor<T>);

/// `zip::read::ZipArchive`, an opened zip file.
#[verifier::external_type_specification]
#[verifier::external_body]
#[verifier::reject_recursive_types(R)]
pub struct ExZipArchive<R>(ZipArchive<R>);

/// A zip file under construction in memory: a `zip::write::ZipWriter` over
/// a byte buffer, with the `zip::write::FileOptions` that every entry is
/// started with. Nothing is known of its inside but what the names below
/// say of it.
#[verifier::external_body]
pub struct ZipSink {
    inner: ZipWriter<Cursor<Vec<u8>>>,
    options: FileOptions,
}

/// The bytes that an opened archive reads from.
pub uninterp spec fn zip_source(archive: ZipArchive<Cursor<Vec<u8>>>) -> Seq<u8>;

/// The number of entries in the central directory of `bytes`, or the
/// crate's words on why `bytes` cannot be opened as a zip file.
pub uninterp spec fn zip_count(bytes: Seq<u8>) -> Result<nat, Seq<char>>;

/// Whether opening entry `index` of the zip file `bytes` with an empty
/// password is turned down as a wrong password.
pub uninterp spec fn zip_refuses_empty_password(bytes: Seq<u8>, index: nat) -> bool;

/// The name of entry `index` of the zip file `bytes`, or the crate's words
/// on why `ZipArchive::by_index` does not open that entry.
pub uninterp spec fn zip_name(bytes: Seq<u8>, index: nat) -> Result<Seq<char>, Seq<char>>;

/// The unpacked content of entry `index` of the zip file `bytes`, or the
/// crate's words on why `ZipArchive::by_index` does not open that entry or
/// why its data cannot be read to the end.
pub uninterp spec fn zip_payload(bytes: Seq<u8>, index: nat) -> Result<Seq<u8>, Seq<char>>;

/// The entries that a writer has taken so far, each with its name and the
/// content written to it, in the order in which they were started.
pub uninterp spec fn zip_written(writer: ZipSink) -> Seq<(Seq<char>, Seq<u8>)>;

/// `None` where the writer would start an entry called `name`; else the
/// crate's words on why it would not.
pub uninterp spec fn zip_start_refusal(writer: ZipSink, name: Seq<char>) -> Option<Seq<char>>;

/// `None` where the writer would take `data` for the entry started last;
/// else the crate's words on why it would not.
pub uninterp spec fn zip_write_refusal(writer: ZipSink, data: Seq<u8>) -> Option<Seq<char>>;

/// `None` where the writer would finish its file; else the crate's words
/// on why it would not.
pub uninterp spec fn zip_finish_refusal(writer: ZipSink) -> Option<Seq<char>>;

/// The most that the crate lets an entry hold without the 64-bit extension
/// of the format: 4 GiB - 1 bytes.
pub open spec fn entry_limit() -> nat {
    0xffff_ffff
}

/// The size up to which the content of an entry is known to stay within
/// [`entry_limit`] when packed: 2 GiB - 1 bytes. The crate closes an entry
/// only if its packed form is within [`entry_limit`], and notes that the
/// packed form can be slightly larger than the content: the deflate backend
/// stores a block as it is where packing would expand it, at a cost of a
/// few bytes for the block. Half the limit leaves far more room than that.
pub open spec fn small_limit() -> nat {
    0x7fff_ffff
}

/// Whether the writer would start an entry of any name and would finish its
/// file as it stands. Both close the entry that is open, and that is the
/// one step at which the crate refuses, for an entry that is too large
/// when packed: it cuts a long name short and moves to the 64-bit end
/// record for many entries without refusing.
pub open spec fn zip_ready(writer: ZipSink) -> bool {
    &&& zip_finish_refusal(writer) is None
    &&& forall|name: Seq<char>| #[trigger] zip_start_refusal(writer, name) is None
}

/// The crate's words for content beyond [`entry_limit`].
pub open spec fn too_large() -> Seq<char> {
    "Large file option has not been set"@
}

/// The count `n`, as [`zip_count`] gives it for a file that opens.
pub open spec fn counted(n: nat) -> Result<nat, Seq<char>> {
    Ok(n)
}

/// Whether `bytes` are a zip file of exactly `entries`: it opens, it has as
/// many entries, and entry `i` opens without a password under the name and
/// with the content of `entries[i]`.
pub open spec fn zip_holds(bytes: Seq<u8>, entries: Seq<(Seq<char>, Seq<u8>)>) -> bool {
    &&& zip_count(bytes) == counted(entries.len())
    &&& forall|i: int|
        0 <= i < entries.len() ==> {
            &&& !zip_refuses_empty_password(bytes, i as nat)
            &&& zip_name(bytes, i as nat) == Ok::<Seq<char>, Seq<char>>((#[trigger] entries[i]).0)
            &&& zip_payload(bytes, i as nat) == Ok::<Seq<u8>, Seq<char>>(entries[i].1)
        }
}

/// The room that an entry takes in a zip file, reckoned generously: eight
/// bytes for every character of its name, its content, and 128 bytes for
/// its headers.
pub open spec fn entry_weight(entry: (Seq<char>, Seq<u8>)) -> nat {
    8 * entry.0.len() + entry.1.len() + 128
}

/// The room that `entries` take together.
pub open spec fn total_weight(entries: Seq<(Seq<char>, Seq<u8>)>) -> nat
    decreases entries.len(),
{
    if entries.len() == 0 {
        0
    } else {
        total_weight(entries.drop_last()) + entry_weight(entries.last())
    }
}

/// The limits within which the format does without its 64-bit extension,
/// which counts entries in 16 bits, name lengths in 16 bits and sizes and
/// offsets in 32. The limits stay well below: at most 65535 entries, names
/// of fewer than 16384 characters, and a total weight under 2 GiB.
pub open spec fn zip_fits(entries: Seq<(Seq<char>, Seq<u8>)>) -> bool {
    &&& entries.len() <= 65535
    &&& forall|i: int| 0 <= i < entries.len() ==> (#[trigger] entries[i]).0.len() < 16384
    &&& total_weight(entries) < 0x8000_0000
}

/// Whether `bytes` show the mark of the 64-bit locator where the crate
/// looks for it when it opens a file without comment: in the four bytes
/// that stand 20 bytes before the end record, which is the last 22 bytes.
/// The crate then reads the file by its 64-bit records, whether the file
/// was written with them or not.
pub open spec fn shows_locator(bytes: Seq<u8>) -> bool {
    let at = bytes.len() - 42;
    &&& bytes.len() >= 42
    &&& bytes[at] == 0x50
    &&& bytes[at + 1] == 0x4b
    &&& bytes[at + 2] == 0x06
    &&& bytes[at + 3] == 0x07
}

/// Whether `name` holds neither U+0006 nor U+0007, the characters whose
/// bytes end the mark of the 64-bit locator.
pub open spec fn is_unmarked(name: Seq<char>) -> bool {
    forall|k: int| 0 <= k < name.len() ==> name[k] != '\u{6}' && name[k] != '\u{7}'
}

/// Entries whose finished file is known not to show the mark of the 64-bit
/// locator. The 20 bytes before the end record are the end of the
/// directory record of the last entry: the end of its name and, before a
/// name of fewer than 20 bytes, the fixed fields in front of it. Of those
/// fields only the offset of the entry in the file can hold the mark, which
/// as a number is 0x07064b50; every other place for the mark puts its last
/// two bytes, or the last one, into the name. So the entries are within
/// [`zip_fits`], no name holds U+0006 or U+0007, and the total weight is
/// under 56 MiB, which keeps every offset below that number even if packing
/// should double the content.
pub open spec fn zip_plain(entries: Seq<(Seq<char>, Seq<u8>)>) -> bool {
    &&& zip_fits(entries)
    &&& forall|i: int| 0 <= i < entries.len() ==> is_unmarked((#[trigger] entries[i]).0)
    &&& total_weight(entries) < 0x0380_0000
}

/// What is known of the bytes `bytes` of a finished file that was written
/// from `entries`. Within the limits of [`zip_fits`] they are a zip file of
/// exactly these entries unless they show the mark of the 64-bit locator,
/// and for the entries of [`zip_plain`] they do not show it.
pub open spec fn reads_back(bytes: Seq<u8>, entries: Seq<(Seq<char>, Seq<u8>)>) -> bool {
    &&& zip_fits(entries) && !shows_locator(bytes) ==> zip_holds(bytes, entries)
    &&& zip_plain(entries) ==> !shows_locator(bytes)
}

/// Opens `bytes` as a zip file with `ZipArchive::new`, which reads the
/// central directory. It succeeds exactly on the inputs for which
/// [`zip_count`] is a number, and the archive then reads from those bytes;
/// else it hands on the crate's words.
#[verifier::external_body]
pub(crate) fn zip_open(bytes: Vec<u8>) -> (r: Result<ZipArchive<Cursor<Vec<u8>>>, String>)
    ensures
        r is Ok <==> zip_count(bytes@) is Ok,
        r matches Ok(a) ==> zip_source(a) == bytes@,
        r matches Err(e) ==> (zip_count(bytes@) matches Err(words) && words == e@),
{
    match ZipArchive::new(Cursor::new(bytes)) {
        Ok(archive) => Ok(archive),
        Err(e) => Err(e.to_string()),
    }
}

/// `ZipArchive::len`: the number of entries in the central directory.
#[verifier::external_body]
pub(crate) fn zip_len(archive: &ZipArchive<Cursor<Vec<u8>>>) -> (r: usize)
    ensures
        zip_count(zip_source(*archive)) == counted(r as nat),
{
    archive.len()
}

/// `ZipArchive::by_index_decrypt` with an empty password, reduced to a
/// yes or no: `false` when the crate reports a wrong password, `true` when
/// the entry opens or the crate reports an error of another kind. The
/// archive is not changed by looking.
///
/// `ZipArchive::by_index` fails an internal check on exactly the entries for
/// which this call reports a wrong password although the entry is not marked
/// as encrypted, so it is only ever called after this has said `true`.
#[verifier::external_body]
pub(crate) fn zip_probe(archive: &mut ZipArchive<Cursor<Vec<u8>>>, index: usize) -> (r: bool)
    ensures
        zip_source(*final(archive)) == zip_source(*old(archive)),
        r == !zip_refuses_empty_password(zip_source(*old(archive)), index as nat),
{
    match archive.by_index_decrypt(index, &[]) {
        Ok(Ok(_)) => true,
        Ok(Err(_)) => false,
        Err(_) => true,
    }
}

/// `ZipArchive::by_index` followed by `ZipFile::name`: the stored name of
/// entry `index`, or the crate's words when the entry cannot be opened.
#[verifier::external_body]
pub(crate) fn zip_entry_name(archive: &mut ZipArchive<Cursor<Vec<u8>>>, index: usize) -> (r: Result<
    String,
    String,
>)
    requires
        !zip_refuses_empty_password(zip_source(*old(archive)), index as nat),
    ensures
        zip_source(*final(archive)) == zip_source(*old(archive)),
        zip_name(zip_source(*old(archive)), index as nat) == match r {
            Ok(name) => Ok::<Seq<char>, Seq<char>>(name@),
            Err(e) => Err::<Seq<char>, Seq<char>>(e@),
        },
{
    match archive.by_index(index) {
        Ok(file) => Ok(file.name().to_string()),
        Err(e) => Err(e.to_string()),
    }
}

/// `ZipArchive::by_index` followed by reading the entry to its end: the
/// unpacked content of entry `index`, or the words of the step that failed.
#[verifier::external_body]
pub(crate) fn zip_entry_data(archive: &mut ZipArchive<Cursor<Vec<u8>>>, index: usize) -> (r: Result<
    Vec<u8>,
    String,
>)
    requires
        !zip_refuses_empty_password(zip_source(*old(archive)), index as nat),
    ensures
        zip_source(*final(archive)) == zip_source(*old(archive)),
        zip_payload(zip_source(*old(archive)), index as nat) == match r {
            Ok(data) => Ok::<Seq<u8>, Seq<char>>(data@),
            Err(e) => Err::<Seq<u8>, Seq<char>>(e@),
        },
{
    let mut data = Vec::new();
    match archive.by_index(index) {
        Ok(mut file) => match file.read_to_end(&mut data) {
            Ok(_) => Ok(data),
            Err(e) => Err(e.to_string()),
        },
        Err(e) => Err(e.to_string()),
    }
}

/// `ZipWriter::new` over an empty in-memory buffer, together with
/// `FileOptions::default` for the entries to come: a writer that holds no
/// entry yet. It would start any entry, and it would finish as the empty
/// file that it is.
#[verifier::external_body]
pub(crate) fn zip_writer_new() -> (r: ZipSink)
    ensures
        zip_written(r) == Seq::<(Seq<char>, Seq<u8>)>::empty(),
        zip_ready(r),
{
    ZipSink { inner: ZipWriter::new(Cursor::new(Vec::new())), options: FileOptions::default() }
}

/// `ZipWriter::start_file` with the writer's options. It succeeds exactly
/// where [`zip_start_refusal`] is `None`, and hands on the crate's words
/// where it is not. After success the writer holds one more entry, named
/// `name` and still empty, and takes for it any content up to
/// [`entry_limit`], the most that the crate lets an entry hold; more it
/// turns down with the words of [`too_large`]. With the new entry still
/// empty the writer would start any further entry and would finish.
#[verifier::external_body]
pub(crate) fn zip_start_file(writer: &mut ZipSink, name: &str) -> (r: Result<(), String>)
    ensures
        zip_start_refusal(*old(writer), name@) == match r {
            Ok(_) => None::<Seq<char>>,
            Err(e) => Some(e@),
        },
        r is Ok ==> zip_written(*final(writer)) == zip_written(*old(writer)).push(
            (name@, Seq::<u8>::empty()),
        ),
        r is Ok ==> forall|data: Seq<u8>|
            #[trigger] zip_write_refusal(*final(writer), data) == (if data.len() <= entry_limit() {
                None::<Seq<char>>
            } else {
                Some(too_large())
            }),
        r is Ok ==> zip_ready(*final(writer)),
{
    match writer.inner.start_file(name, writer.options) {
        Ok(()) => Ok(()),
        Err(e) => Err(e.to_string()),
    }
}

/// `Write::write_all` on a `ZipWriter`. It succeeds exactly where
/// [`zip_write_refusal`] is `None`, and hands on the crate's words where it
/// is not. Content that is not empty has then been added to the end of the
/// entry started last; empty content is always taken and changes nothing.
/// While the entry holds no more than [`small_limit`], the writer would
/// start any further entry and would finish.
#[verifier::external_body]
pub(crate) fn zip_write_all(writer: &mut ZipSink, data: &[u8]) -> (r: Result<(), String>)
    ensures
        zip_write_refusal(*old(writer), data@) == match r {
            Ok(_) => None::<Seq<char>>,
            Err(e) => Some(e@),
        },
        data@.len() == 0 ==> r is Ok,
        r is Ok && data@.len() == 0 ==> zip_written(*final(writer)) == zip_written(*old(writer)),
        r is Ok && data@.len() == 0 ==> zip_ready(*final(writer)) == zip_ready(*old(writer)),
        r is Ok && data@.len() > 0 && zip_written(*old(writer)).last().1.len() + data@.len()
            <= small_limit() ==> zip_ready(*final(writer)),
        r is Ok && data@.len() > 0 ==> zip_written(*old(writer)).len() > 0 && zip_written(
            *final(writer),
        ) == zip_written(*old(writer)).update(
            zip_written(*old(writer)).len() - 1,
            (zip_written(*old(writer)).last().0, zip_written(*old(writer)).last().1 + data@),
        ),
{
    match writer.inner.write_all(data) {
        Ok(()) => Ok(()),
        Err(e) => Err(e.to_string()),
    }
}

/// `ZipWriter::finish`: closes the last entry, writes the central directory
/// and the end record, and hands back the finished file's bytes. It
/// succeeds exactly where [`zip_finish_refusal`] is `None`, and hands on the
/// crate's words where it is not. The bytes hold time stamps and are not
/// named. What is claimed of them is [`reads_back`]: within the limits of
/// [`zip_fits`], `ZipArchive::new` and `ZipArchive::by_index` give every
/// entry back with its name and its content, in the order taken and
/// without a password, unless the bytes show the mark of the 64-bit locator
/// in front of the end record; and the mark does not show for the entries
/// of [`zip_plain`].
#[verifier::external_body]
pub(crate) fn zip_finish(writer: &mut ZipSink) -> (r: Result<Vec<u8>, String>)
    ensures
        zip_finish_refusal(*old(writer)) == match r {
            Ok(_) => None::<Seq<char>>,
            Err(e) => Some(e@),
        },
        r matches Ok(bytes) ==> reads_back(bytes@, zip_written(*old(writer))),
{
    match writer.inner.finish() {
        Ok(cursor) => Ok(cursor.into_inner()),
        Err(e) => Err(e.to_string()),
    }
}

} // verus!
