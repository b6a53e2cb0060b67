use vstd::prelude::*;

use crate::text::{concat, ends_with, has_suffix};

verus! {

/// The names of the entries of a zip archive, in archive order, or the text
/// of the error met while reading its directory.
pub uninterp spec fn archive_names_of(archive: Seq<u8>) -> Result<Seq<Seq<char>>, Seq<char>>;

/// The decompressed contents of entry `index` of a zip archive, or the text of
/// the error met while reading it.
pub uninterp spec fn archive_entry_of(archive: Seq<u8>, index: int) -> Result<Seq<u8>, Seq<char>>;

/// Relies on zip's `ZipArchive::new` and `ZipArchive::file_names`: the entry
/// names in central-directory order, or the error's text; both depend on the
/// bytes alone.
#[verifier::external_body]
fn read_entry_names(archive: &Vec<u8>) -> (r: Result<Vec<String>, String>)
    ensures
        match r {
            Ok(names) => archive_names_of(archive@) == Ok::<Seq<Seq<char>>, Seq<char>>(
                names@.map_values(|n: String| n@),
            ),
            Err(e) => archive_names_of(archive@) == Err::<Seq<Seq<char>>, Seq<char>>(e@),
        },
{
    match zip::ZipArchive::new(std::io::Cursor::new(archive.as_slice())) {
        Ok(a) => Ok(a.file_names().map(|n| n.to_string()).collect()),
        Err(e) => Err(e.to_string()),
    }
}

/// Relies on zip's `ZipArchive::by_index` and the entry's `Read`: the entry's
/// decompressed bytes, or the error's text; both depend on the bytes alone.
#[verifier::external_body]
fn read_entry(archive: &Vec<u8>, index: usize) -> (r: Result<Vec<u8>, String>)
    ensures
        match r {
            Ok(data) => archive_entry_of(archive@, index as int) == Ok::<Seq<u8>, Seq<char>>(
                data@,
            ),
            Err(e) => archive_entry_of(archive@, index as int) == Err::<Seq<u8>, Seq<char>>(e@),
        },
{
    let mut a = match zip::ZipArchive::new(std::io::Cursor::new(archive.as_slice())) {
        Ok(a) => a,
        Err(e) => return Err(e.to_string()),
    };
    let mut entry = match a.by_index(index) {
        Ok(f) => f,
        Err(e) => return Err(e.to_string()),
    };
    let mut data = Vec::new();
    match std::io::Read::read_to_end(&mut entry, &mut data) {
        Ok(_) => Ok(data),
        Err(e) => Err(e.to_string()),
    }
}

/// An entry name that holds the conversion binary.
pub open spec fn is_binary_name(name: Seq<char>) -> bool {
    has_suffix(name, "pandoc"@) || has_suffix(name, "pandoc.exe"@)
}

/// The first index from `k` on whose name holds the binary.
pub open spec fn first_binary_from(names: Seq<Seq<char>>, k: int) -> Option<int>
    decreases names.len() - k,
{
    if k < 0 || k >= names.len() {
        None
    } else if is_binary_name(names[k]) {
        Some(k)
    } else {
        first_binary_from(names, k + 1)
    }
}

pub open spec fn not_found_message() -> Seq<char> {
    "Pandoc binary not found in downloaded archive"@
}

/// The binary that installing from `archive` writes, or why there is none:
/// the contents of the first entry whose name ends in the executable's name.
pub open spec fn extraction(archive: Seq<u8>) -> Result<Seq<u8>, Seq<char>> {
    match archive_names_of(archive) {
        Err(e) => Err("Failed to read zip archive: "@ + e),
        Ok(names) => match first_binary_from(names, 0) {
            None => Err(not_found_message()),
            Some(i) => match archive_entry_of(archive, i) {
                Ok(data) => Ok(data),
                Err(e) => Err("Failed to read zip entry: "@ + e),
            },
        },
    }
}

/// The index of the first name that holds the binary.
pub fn find_binary_entry(names: &Vec<String>) -> (r: Option<usize>)
    ensures
        match r {
            Some(i) => first_binary_from(names@.map_values(|n: String| n@), 0) == Some(i as int),
            None => first_binary_from(names@.map_values(|n: String| n@), 0) is None,
        },
{
    let ghost view = names@.map_values(|n: String| n@);
    let mut k: usize = 0;
    while k < names.len()
        invariant
            k <= names@.len(),
            view == names@.map_values(|n: String| n@),
            first_binary_from(view, 0) == first_binary_from(view, k as int),
        decreases names@.len() - k,
    {
        assert(view[k as int] == names@[k as int]@);
        if ends_with(names[k].as_str(), "pandoc") || ends_with(names[k].as_str(), "pandoc.exe") {
            return Some(k);
        }
        k = k + 1;
    }
    None
}

/// Takes the binary out of a downloaded archive.
pub fn extract_binary(archive: &Vec<u8>) -> (r: Result<Vec<u8>, String>)
    ensures
        match r {
            Ok(data) => extraction(archive@) == Ok::<Seq<u8>, Seq<char>>(data@),
            Err(e) => extraction(archive@) == Err::<Seq<u8>, Seq<char>>(e@),
        },
{
    let names = match read_entry_names(archive) {
        Ok(names) => names,
        Err(e) => {
            return Err(concat("Failed to read zip archive: ", e.as_str()));
        },
    };
    match find_binary_entry(&names) {
        None => Err(String::from_str("Pandoc binary not found in downloaded archive")),
        Some(i) => match read_entry(archive, i) {
            Ok(data) => Ok(data),
            Err(e) => Err(concat("Failed to read zip entry: ", e.as_str())),
        },
    }
}

} // verus!
