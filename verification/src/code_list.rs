//! The list of the datasets of a database: a zipped table with one line for
//! each dataset, its code and its title.

use std::io::Cursor;
use vstd::prelude::*;
use vstd::string::{StrSliceExecFns, StringExecFns};
use zip::read::ZipArchive;
use zip::result::ZipError;
use crate::types::Code;
use crate::Error;

verus! {

/// An archive of the `zip` crate, opened for reading.
#[verifier::external_type_specification]
#[verifier::external_body]
#[verifier::reject_recursive_types(R)]
pub struct ExZipArchive<R>(ZipArchive<R>);

/// A cursor of `std::io` over bytes in memory.
#[verifier::external_type_specification]
#[verifier::external_body]
#[verifier::reject_recursive_types(T)]
pub struct ExCursor<T>(Cursor<T>);

/// The error of the `zip` crate.
#[verifier::external_type_specification]
#[verifier::external_body]
pub struct ExZipError(ZipError);

/// The error of `std::io`.
#[verifier::external_type_specification]
#[verifier::external_body]
pub struct ExIoError(std::io::Error);

/// What `ZipArchive::new` makes of bytes: nothing where they are no archive,
/// else the files of the archive.
pub uninterp spec fn opened(bytes: Seq<u8>) -> Option<Seq<Option<Seq<char>>>>;

/// The files of an archive, in their order: the text of each file that can
/// be read as text, and nothing for one that cannot.
pub uninterp spec fn files(archive: ZipArchive<Cursor<Vec<u8>>>) -> Seq<Option<Seq<char>>>;

/// The records that the `csv` crate reads from a text whose first line is a
/// header, each taken as a pair of strings; for a record that cannot be
/// taken so, the words of the crate's error stand in its place.
pub uninterp spec fn records_of(text: Seq<char>) -> Seq<Result<(Seq<char>, Seq<char>), Seq<char>>>;

/// Calls `ZipArchive::new` of the `zip` crate on the bytes, which reads the
/// directory of the archive. It fails where the bytes are no archive.
#[verifier::external_body]
fn open_archive(bytes: Vec<u8>) -> (archive: Result<ZipArchive<Cursor<Vec<u8>>>, ZipError>)
    ensures
        archive matches Ok(found) ==> opened(bytes@) == Some(files(found)),
        archive is Err ==> opened(bytes@) is None,
{
    ZipArchive::new(Cursor::new(bytes))
}

/// Calls `ZipArchive::len` of the `zip` crate: the number of files in the
/// archive.
#[verifier::external_body]
fn file_count(archive: &ZipArchive<Cursor<Vec<u8>>>) -> (count: usize)
    ensures
        count == files(*archive).len(),
{
    archive.len()
}

/// Calls `ZipArchive::by_index` of the `zip` crate and `read_to_string` on
/// the file that it hands out, which appends the text of the file to `text`.
/// The archive holds what it held. Where the file cannot be had or is no
/// text, the call fails and nothing is said of `text`.
#[verifier::external_body]
fn read_file(archive: &mut ZipArchive<Cursor<Vec<u8>>>, index: usize, text: &mut String) -> (read:
    Result<(), std::io::Error>)
    ensures
        files(*final(archive)) == files(*old(archive)),
        read is Ok <==> index < files(*old(archive)).len() && files(*old(archive))[index as int] is Some,
        read is Ok ==> final(text)@ == old(text)@ + files(*old(archive))[index as int]->0,
{
    match archive.by_index(index) {
        Ok(mut file) => std::io::Read::read_to_string(&mut file, text).map(|_| ()),
        Err(error) => Err(std::io::Error::from(error)),
    }
}

/// Calls `Reader::from_reader` and `Reader::deserialize` of the `csv` crate
/// on the text, and collects the records, each as a pair of strings or as
/// the words of the error that the crate gave for it.
#[verifier::external_body]
fn read_records(text: &str) -> (records: Vec<Result<(String, String), String>>)
    ensures
        rows(records@) == records_of(text@),
{
    let mut reader = csv::Reader::from_reader(text.as_bytes());
    reader.deserialize::<(String, String)>().map(|record| record.map_err(|error| error.to_string())).collect()
}

/// What a record holds, or the words of the error for a record that could
/// not be read.
pub open spec fn row(record: Result<(String, String), String>) -> Result<
    (Seq<char>, Seq<char>),
    Seq<char>,
> {
    match record {
        Ok(pair) => Ok((pair.0@, pair.1@)),
        Err(words) => Err(words@),
    }
}

/// What the records hold.
pub open spec fn rows(records: Seq<Result<(String, String), String>>) -> Seq<
    Result<(Seq<char>, Seq<char>), Seq<char>>,
> {
    records.map_values(|record: Result<(String, String), String>| row(record))
}

/// All files can be read as text.
pub open spec fn all_text(found: Seq<Option<Seq<char>>>) -> bool {
    forall|i: int| 0 <= i < found.len() ==> (#[trigger] found[i]) is Some
}

/// The texts of the files, one after the other.
pub open spec fn together(found: Seq<Option<Seq<char>>>) -> Seq<char>
    decreases found.len(),
{
    if found.len() == 0 {
        Seq::empty()
    } else {
        together(found.drop_last()) + found.last()->0
    }
}

/// The text that an archive unfolds to: the texts of its files one after the
/// other, if the bytes are an archive and every file in it is text.
pub open spec fn unzipped(bytes: Seq<u8>) -> Option<Seq<char>> {
    match opened(bytes) {
        Some(found) => if all_text(found) {
            Some(together(found))
        } else {
            None
        },
        None => None,
    }
}

/// Unfolds an archive into one text. Bytes that are no archive, and a file
/// that cannot be read as text, are failures of parsing.
pub fn unzip(bytes: Vec<u8>) -> (text: Result<String, Error>)
    ensures
        text is Ok <==> unzipped(bytes@) is Some,
        text matches Ok(all) ==> Some(all@) == unzipped(bytes@),
        text matches Err(error) ==> error is ParsingFailed,
{
    match open_archive(bytes) {
        Ok(found) => {
            let mut archive = found;
            let ghost held = files(archive);
            let count = file_count(&archive);
            let mut all = String::new();
            let mut index: usize = 0;
            while index < count
                invariant
                    index <= count,
                    count == held.len(),
                    opened(bytes@) == Some(held),
                    files(archive) == held,
                    all_text(held.take(index as int)),
                    all@ == together(held.take(index as int)),
                decreases count - index,
            {
                match read_file(&mut archive, index, &mut all) {
                    Ok(_) => {
                        assert(held.take(index + 1).drop_last() =~= held.take(index as int));
                    },
                    Err(error) => {
                        assert(held[index as int] is None);
                        return Err(Error::ParsingFailed(error.to_string()));
                    },
                }
                index = index + 1;
            }
            assert(held.take(count as int) =~= held);
            Ok(all)
        },
        Err(error) => Err(Error::ParsingFailed(error.to_string())),
    }
}

/// The one `/` of the text stands at this place.
pub open spec fn slash_at(text: Seq<char>, at: int) -> bool {
    &&& 0 <= at < text.len()
    &&& text[at] == '/'
    &&& forall|i: int| 0 <= i < text.len() && i != at ==> text[i] != '/'
}

/// The two codes that a full code is made of: what stands before its one
/// `/`, and what stands behind it.
pub open spec fn halves(text: Seq<char>) -> Option<(Seq<char>, Seq<char>)> {
    if exists|at: int| slash_at(text, at) {
        let at = choose|at: int| slash_at(text, at);
        Some((text.take(at), text.skip(at + 1)))
    } else {
        None
    }
}

/// Splits a full code into the code of the database and the code of the
/// dataset. A text with no `/` or with more than one is no full code.
pub fn split_code(code: &str) -> (parts: Option<(String, String)>)
    ensures
        match parts {
            Some(pair) => halves(code@) == Some((pair.0@, pair.1@)),
            None => halves(code@) is None,
        },
{
    let length = code.unicode_len();
    let mut at: usize = 0;
    while at < length && code.get_char(at) != '/'
        invariant
            at <= length,
            length == code@.len(),
            forall|i: int| 0 <= i < at ==> code@[i] != '/',
        decreases length - at,
    {
        at = at + 1;
    }
    if at == length {
        assert forall|i: int| !slash_at(code@, i) by {}
        return None;
    }
    let mut rest: usize = at + 1;
    while rest < length && code.get_char(rest) != '/'
        invariant
            at < rest <= length,
            length == code@.len(),
            forall|i: int| at < i < rest ==> code@[i] != '/',
        decreases length - rest,
    {
        rest = rest + 1;
    }
    if rest < length {
        assert forall|i: int| !slash_at(code@, i) by {
            if slash_at(code@, i) {
                assert(code@[at as int] == '/');
                assert(code@[rest as int] == '/');
            }
        }
        return None;
    }
    proof {
        assert(slash_at(code@, at as int));
        let chosen = choose|i: int| slash_at(code@, i);
        assert(chosen == at);
    }
    let database = String::from_str(code.substring_char(0, at));
    let dataset = String::from_str(code.substring_char(at + 1, length));
    Some((database, dataset))
}

/// What is said of a line whose code is no full code.
pub open spec fn invalid_code() -> Seq<char> {
    "Invalid format for dataset codes in unzipped code list."@
}

/// The line can be read and its code is a full code.
pub open spec fn sound(line: Result<(Seq<char>, Seq<char>), Seq<char>>) -> bool {
    line matches Ok(pair) && halves(pair.0) is Some
}

/// The first `upto` lines can be read and their codes are full codes.
pub open spec fn sound_upto(lines: Seq<Result<(Seq<char>, Seq<char>), Seq<char>>>, upto: int) -> bool {
    forall|k: int| 0 <= k < upto ==> sound(#[trigger] lines[k])
}

/// The entry says what the line says: the two halves of its code, and its
/// title.
pub open spec fn entry_of(line: Result<(Seq<char>, Seq<char>), Seq<char>>, entry: Code) -> bool {
    line matches Ok(pair) && halves(pair.0) == Some((entry.database_code@, entry.dataset_code@))
        && entry.name@ == pair.1
}

/// Every entry says what its line says.
pub open spec fn entries_of(
    lines: Seq<Result<(Seq<char>, Seq<char>), Seq<char>>>,
    entries: Seq<Code>,
) -> bool {
    &&& entries.len() == lines.len()
    &&& forall|k: int| 0 <= k < lines.len() ==> entry_of(#[trigger] lines[k], entries[k])
}

/// The failure that a line calls for: a failure of parsing, with the words
/// of the reader's error for a line that could not be read, and with the
/// words of `invalid_code` for a line whose code is no full code.
pub open spec fn failure_of(line: Result<(Seq<char>, Seq<char>), Seq<char>>, error: Error) -> bool {
    error matches Error::ParsingFailed(message) && message@ == match line {
        Ok(_) => invalid_code(),
        Err(words) => words,
    }
}

/// The error is the failure of the first line that is not sound.
pub open spec fn first_failure(
    lines: Seq<Result<(Seq<char>, Seq<char>), Seq<char>>>,
    error: Error,
) -> bool {
    exists|k: int|
        0 <= k < lines.len() && sound_upto(lines, k) && !sound(#[trigger] lines[k]) && failure_of(
            lines[k],
            error,
        )
}

/// Turns the records of the table into entries of the list, one for each
/// record and in their order. The first record that could not be read, or
/// whose code is no full code, ends the work as a failure of parsing: with
/// the words of the reader's error for the former, and for the latter with
/// the words of `invalid_code`.
pub fn codes_from(records: Vec<Result<(String, String), String>>) -> (list: Result<Vec<Code>, Error>)
    ensures
        list is Ok <==> sound_upto(rows(records@), records@.len() as int),
        list matches Ok(entries) ==> entries_of(rows(records@), entries@),
        list matches Err(error) ==> first_failure(rows(records@), error),
{
    let ghost lines = rows(records@);
    let mut entries: Vec<Code> = Vec::new();
    let mut k: usize = 0;
    while k < records.len()
        invariant
            k <= records.len(),
            lines == rows(records@),
            sound_upto(lines, k as int),
            entries@.len() == k,
            forall|j: int| 0 <= j < k ==> entry_of(#[trigger] lines[j], entries@[j]),
        decreases records.len() - k,
    {
        match &records[k] {
            Ok(pair) => {
                match split_code(pair.0.as_str()) {
                    Some(parts) => {
                        entries.push(
                            Code {
                                dataset_code: parts.1,
                                database_code: parts.0,
                                name: pair.1.clone(),
                            },
                        );
                    },
                    None => {
                        let error = Error::ParsingFailed(
                            String::from_str(
                                "Invalid format for dataset codes in unzipped code list.",
                            ),
                        );
                        assert(!sound(lines[k as int]) && failure_of(lines[k as int], error));
                        return Err(error);
                    },
                }
            },
            Err(words) => {
                let error = Error::ParsingFailed(words.clone());
                assert(!sound(lines[k as int]) && failure_of(lines[k as int], error));
                return Err(error);
            },
        }
        k = k + 1;
    }
    Ok(entries)
}

/// Reads the list of the datasets of a database from the bytes that the
/// service sent: unfolds the archive, reads the table in it and turns each
/// of its records into an entry. Where the archive unfolds, the first record
/// that is not sound decides the failure, as in `codes_from`.
pub fn decode_codes(bytes: Vec<u8>) -> (list: Result<Vec<Code>, Error>)
    ensures
        list is Ok <==> (unzipped(bytes@) matches Some(text) && sound_upto(
            records_of(text),
            records_of(text).len() as int,
        )),
        list matches Ok(entries) ==> entries_of(records_of(unzipped(bytes@)->0), entries@),
        list matches Err(error) ==> error is ParsingFailed && (unzipped(bytes@) matches Some(text)
            ==> first_failure(records_of(text), error)),
{
    match unzip(bytes) {
        Ok(text) => {
            let records = read_records(text.as_str());
            codes_from(records)
        },
        Err(error) => Err(error),
    }
}

} // verus!
