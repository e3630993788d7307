//! Reading a save package's entries: finding an entry by name and taking the
//! party from `SaveInfo.json`, with `globals.lsf` as the fallback.
use vstd::prelude::*;
use vstd::utf8::{decode_utf8, valid_utf8};
use crate::error::SaveError;
use crate::json::{json_document, parse_json};
use crate::lsf::Resource;
use crate::models::PartyData;
use crate::party::{extract_party, party_of};
use crate::scanner::{party_from_save_info, save_info_party};
use crate::text::{chars_of, contains, find_in, lowercase, owned, to_lower, utf8_text};

verus! {

/// The first index whose name, lowercased, contains `wanted` lowercased.
pub open spec fn first_matching_entry(names: Seq<String>, wanted: Seq<char>, i: int) -> Option<int>
    decreases names.len() - i,
{
    if i < 0 || i >= names.len() {
        None
    } else if contains(lowercase(names[i]@), lowercase(wanted)) {
        Some(i)
    } else {
        first_matching_entry(names, wanted, i + 1)
    }
}

/// The first entry of a package whose name contains `wanted`, ignoring case
/// (as both are lowercased by `str::to_lowercase`).
pub fn find_package_file(names: &Vec<String>, wanted: &str) -> (r: Option<usize>)
    ensures
        match r {
            Some(i) => first_matching_entry(names@, wanted@, 0) == Some(i as int),
            None => first_matching_entry(names@, wanted@, 0) is None,
        },
{
    let w = to_lower(wanted);
    let wc = chars_of(w.as_str());
    let mut i: usize = 0;
    while i < names.len()
        invariant
            i <= names.len(),
            wc@ == lowercase(wanted@),
            first_matching_entry(names@, wanted@, 0) == first_matching_entry(names@, wanted@, i as int),
        decreases names.len() - i,
    {
        let n = to_lower(names[i].as_str());
        let nc = chars_of(n.as_str());
        if find_in(&nc, &wc, 0).is_some() {
            return Some(i);
        }
        i = i + 1;
    }
    None
}

/// The party from the `SaveInfo.json` entry of a package: missing entry, read
/// error, non-UTF-8 text and unreadable JSON each give their error.
pub open spec fn save_info_outcome(entry: Option<Result<Vec<u8>, String>>, r: Result<PartyData, SaveError>) -> bool {
    match entry {
        None => r matches Err(SaveError::FileNotFound(n)) && n@ == "SaveInfo.json"@,
        Some(Err(e)) => r matches Err(SaveError::Package(m)) && m@ == e@,
        Some(Ok(bytes)) => if !valid_utf8(bytes@) {
            r matches Err(SaveError::Utf8(_))
        } else {
            match json_document(decode_utf8(bytes@)) {
                Ok(doc) => r matches Ok(p) && p@ == save_info_party(doc),
                Err(msg) => r matches Err(SaveError::Other(m)) && m@ == msg,
            }
        },
    }
}

/// The party listed in the `SaveInfo.json` entry of a package, given the
/// entry's bytes (or the error reading them), or nothing when there is no such entry.
pub fn extract_party_from_save_info(entry: Option<Result<Vec<u8>, String>>) -> (r: Result<PartyData, SaveError>)
    ensures
        save_info_outcome(entry, r),
{
    let data = match entry {
        None => {
            return Err(SaveError::FileNotFound(owned("SaveInfo.json")));
        },
        Some(Err(e)) => {
            return Err(SaveError::Package(e));
        },
        Some(Ok(bytes)) => bytes,
    };
    let text = match utf8_text(data) {
        Ok(t) => t,
        Err(e) => {
            return Err(SaveError::Utf8(e));
        },
    };
    match parse_json(text.as_str()) {
        Ok(doc) => Ok(party_from_save_info(&doc)),
        Err(msg) => Err(SaveError::Other(msg)),
    }
}

/// The party of a save: from `SaveInfo.json` when that succeeds, else from the
/// `globals.lsf` resource (or its loading error). The globals are only needed
/// when the first source failed; without them that failure is reported as
/// `globals.lsf was not loaded`.
pub fn load_party_from_save(
    save_info: Result<PartyData, SaveError>,
    globals: Option<Result<Resource, SaveError>>,
) -> (r: Result<PartyData, SaveError>)
    ensures
        save_info is Ok ==> r == save_info,
        save_info is Err ==> match globals {
            Some(Ok(res)) => r matches Ok(p) && p@ == party_of(res.regions),
            Some(Err(e)) => r == Err::<PartyData, SaveError>(e),
            None => r matches Err(SaveError::Other(m)) && m@ == "globals.lsf was not loaded"@,
        },
{
    match save_info {
        Ok(data) => Ok(data),
        Err(_) => match globals {
            Some(Ok(resource)) => match extract_party(&resource) {
                Ok(p) => Ok(p),
                Err(e) => Err(SaveError::Other(e)),
            },
            Some(Err(e)) => Err(e),
            None => {
                proof {
                    reveal_strlit("globals.lsf was not loaded");
                }
                Err(SaveError::Other(owned("globals.lsf was not loaded")))
            },
        },
    }
}

/// The entry to read for the LSF file `file_name` (such as `meta.lsf`): the
/// first whose name contains it, ignoring case; `FileNotFound` when none does.
pub fn find_lsf_entry(names: &Vec<String>, file_name: &str) -> (r: Result<usize, SaveError>)
    ensures
        match first_matching_entry(names@, file_name@, 0) {
            Some(i) => r == Ok::<usize, SaveError>(i as usize),
            None => r matches Err(SaveError::FileNotFound(n)) && n@ == file_name@,
        },
{
    match find_package_file(names, file_name) {
        Some(i) => Ok(i),
        None => Err(SaveError::FileNotFound(owned(file_name))),
    }
}

} // verus!
