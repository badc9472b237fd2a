//! The zip collaborator: random access to named members of an archive held
//! in memory.
//!
//! An archive's contents are a mapping from member names to member bytes,
//! and beside it the set of names whose bytes read back whole (a member can
//! be listed yet fail to decompress). Both are fixed by the archive value,
//! so what the collaborator parses out of the archive bytes, and what it
//! hands back for a name, are stated over them and nothing else.

use vstd::prelude::*;

use crate::frame::{spec_loadable, spec_loaded_from, spec_readable_name, ImageData};

verus! {

#[verifier::external_type_specification]
#[verifier::external_body]
#[verifier::reject_recursive_types(R)]
pub struct ExZipArchive<R>(zip::ZipArchive<R>);

#[verifier::external_type_specification]
#[verifier::external_body]
pub struct ExZipError(zip::result::ZipError);

#[verifier::external_type_specification]
#[verifier::external_body]
#[verifier::reject_recursive_types(T)]
pub struct ExCursor<T>(std::io::Cursor<T>);

/// What an open archive holds: each member's bytes under its name.
pub uninterp spec fn zip_members(ar: zip::ZipArchive<std::io::Cursor<Vec<u8>>>) -> Map<
    Seq<char>,
    Seq<u8>,
>;

/// The member names whose bytes read back whole: reading a held name can
/// still fail on corrupt compressed data, and which names do is fixed by the
/// archive value.
pub uninterp spec fn zip_readable(ar: zip::ZipArchive<std::io::Cursor<Vec<u8>>>) -> Set<Seq<char>>;

/// What the collaborator parses out of a byte string: the archive's
/// member mapping, or nothing for bytes it rejects; a fixed function of the
/// bytes alone.
pub uninterp spec fn spec_zip_parse(data: Seq<u8>) -> Option<Map<Seq<char>, Seq<u8>>>;

/// Relies on zip::ZipArchive::new: it parses the archive's directory out of
/// the bytes alone, and the archive it returns holds the members so parsed;
/// only a listed name can read back.
#[verifier::external_body]
pub fn zip_open(data: Vec<u8>) -> (r: Result<
    zip::ZipArchive<std::io::Cursor<Vec<u8>>>,
    zip::result::ZipError,
>)
    ensures
        r is Ok <==> spec_zip_parse(data@) is Some,
        r matches Ok(ar) ==> zip_members(ar) == spec_zip_parse(data@)->Some_0 && zip_readable(ar)
            <= zip_members(ar).dom(),
{
    zip::ZipArchive::new(std::io::Cursor::new(data))
}

/// Relies on zip::ZipArchive::file_names: every member's name, once each, in
/// an order the collaborator does not promise.
#[verifier::external_body]
pub fn zip_file_names(ar: &zip::ZipArchive<std::io::Cursor<Vec<u8>>>) -> (r: Vec<String>)
    ensures
        forall|i: int| 0 <= i < r@.len() ==> zip_members(*ar).dom().contains(#[trigger] r@[i]@),
        forall|n: Seq<char>|
            #[trigger] zip_members(*ar).dom().contains(n) ==> exists|i: int|
                0 <= i < r@.len() && r@[i]@ == n,
        forall|i: int, j: int| 0 <= i < j < r@.len() ==> r@[i]@ != r@[j]@,
{
    ar.file_names().map(|s| s.to_string()).collect()
}

/// Relies on zip::ZipArchive::by_name and std::io::Read::read_to_end: the
/// bytes of the named member, succeeding exactly for the readable names; the
/// archive's contents and readable names are left as they stand.
#[verifier::external_body]
pub fn zip_read_member(
    ar: &mut zip::ZipArchive<std::io::Cursor<Vec<u8>>>,
    name: &str,
) -> (r: Result<Vec<u8>, zip::result::ZipError>)
    ensures
        zip_members(*final(ar)) == zip_members(*old(ar)),
        zip_readable(*final(ar)) == zip_readable(*old(ar)),
        r is Ok <==> zip_readable(*old(ar)).contains(name@),
        r matches Ok(v) ==> zip_members(*old(ar)).dom().contains(name@) && v@ == zip_members(
            *old(ar),
        )[name@],
{
    let mut file = ar.by_name(name)?;
    let mut out: Vec<u8> = Vec::new();
    std::io::Read::read_to_end(&mut file, &mut out)?;
    Ok(out)
}

/// How the zip collaborator tells files from directories: a name is a
/// directory's exactly when its last character is a separator.
pub open spec fn spec_zip_file_name(name: Seq<char>) -> bool {
    name.len() == 0 || (name.last() != '/' && name.last() != '\\')
}

/// Whether a member name names a file rather than a directory.
pub fn zip_is_file_name(name: &str) -> (r: bool)
    ensures
        r == spec_zip_file_name(name@),
{
    let n: usize = name.unicode_len();
    if n == 0 {
        return true;
    }
    let last: char = name.get_char(n - 1);
    last != '/' && last != '\\'
}

/// Read the named member's bytes when the caller's test accepts the name;
/// nothing comes back only when the test refused or the member does not read
/// back.
pub fn read_to_end_when<F: FnOnce(&str) -> bool>(
    ar: &mut zip::ZipArchive<std::io::Cursor<Vec<u8>>>,
    name: &str,
    when: F,
) -> (r: Option<Vec<u8>>)
    requires
        call_requires(when, (name,)),
    ensures
        zip_members(*final(ar)) == zip_members(*old(ar)),
        zip_readable(*final(ar)) == zip_readable(*old(ar)),
        r matches Some(v) ==> call_ensures(when, (name,), true) && zip_members(
            *old(ar),
        ).dom().contains(name@) && v@ == zip_members(*old(ar))[name@],
        r is None ==> !zip_readable(*old(ar)).contains(name@) || call_ensures(
            when,
            (name,),
            false,
        ),
{
    if when(name) {
        match zip_read_member(ar, name) {
            Ok(v) => Some(v),
            Err(_) => None,
        }
    } else {
        None
    }
}

/// Read the named member's bytes exactly when it is a file whose name the
/// decode collaborator recognizes as an image and whose bytes read back.
pub fn read_to_end_when_image(
    ar: &mut zip::ZipArchive<std::io::Cursor<Vec<u8>>>,
    name: &str,
) -> (r: Option<Vec<u8>>)
    ensures
        zip_members(*final(ar)) == zip_members(*old(ar)),
        zip_readable(*final(ar)) == zip_readable(*old(ar)),
        r is Some <==> spec_zip_file_name(name@) && spec_readable_name(name@) && zip_readable(
            *old(ar),
        ).contains(name@),
        r matches Some(v) ==> zip_members(*old(ar)).dom().contains(name@) && v@ == zip_members(
            *old(ar),
        )[name@],
{
    if zip_is_file_name(name) && ImageData::can_read(name) {
        match zip_read_member(ar, name) {
            Ok(v) => Some(v),
            Err(_) => None,
        }
    } else {
        None
    }
}

/// Whether one named member yields an image: a file name the decoder
/// recognizes, whose bytes read back and decode.
pub open spec fn spec_member_yields(
    ar: zip::ZipArchive<std::io::Cursor<Vec<u8>>>,
    name: Seq<char>,
) -> bool {
    &&& spec_zip_file_name(name)
    &&& spec_readable_name(name)
    &&& zip_readable(ar).contains(name)
    &&& zip_members(ar).dom().contains(name)
    &&& spec_loadable(zip_members(ar)[name])
}

/// Load the named member as an image, consuming the archive: an image comes
/// back exactly when the member yields one, and it decodes from the member's
/// bytes.
pub fn load_image(
    ar: zip::ZipArchive<std::io::Cursor<Vec<u8>>>,
    name: &str,
) -> (r: Option<ImageData>)
    ensures
        r is Some <==> spec_member_yields(ar, name@),
        r matches Some(img) ==> spec_loaded_from(img, zip_members(ar)[name@]),
{
    let mut archive = ar;
    load_image_with_ref(&mut archive, name)
}

/// Load the named member as an image: an image comes back exactly when the
/// member yields one, and it decodes from the member's bytes.
pub fn load_image_with_ref(
    ar: &mut zip::ZipArchive<std::io::Cursor<Vec<u8>>>,
    name: &str,
) -> (r: Option<ImageData>)
    ensures
        zip_members(*final(ar)) == zip_members(*old(ar)),
        zip_readable(*final(ar)) == zip_readable(*old(ar)),
        r is Some <==> spec_member_yields(*old(ar), name@),
        r matches Some(img) ==> spec_loaded_from(img, zip_members(*old(ar))[name@]),
{
    match read_to_end_when_image(ar, name) {
        Some(bytes) => {
            match ImageData::load_from_memory(bytes.as_slice()) {
                Ok(img) => Some(img),
                Err(_) => None,
            }
        },
        None => None,
    }
}

/// Load the first member of the given names that yields an image, in the
/// order given: an image comes back exactly when some listed name yields
/// one; it decodes from the first such name's bytes, every earlier name
/// yielding none.
pub fn search_images_in_order(
    ar: &mut zip::ZipArchive<std::io::Cursor<Vec<u8>>>,
    names: &Vec<String>,
) -> (r: Option<ImageData>)
    ensures
        zip_members(*final(ar)) == zip_members(*old(ar)),
        zip_readable(*final(ar)) == zip_readable(*old(ar)),
        r is Some <==> exists|i: int|
            0 <= i < names@.len() && spec_member_yields(*old(ar), #[trigger] names@[i]@),
        r matches Some(img) ==> exists|i: int|
            {
                &&& 0 <= i < names@.len()
                &&& spec_member_yields(*old(ar), #[trigger] names@[i]@)
                &&& spec_loaded_from(img, zip_members(*old(ar))[names@[i]@])
                &&& forall|j: int|
                    0 <= j < i ==> !spec_member_yields(*old(ar), #[trigger] names@[j]@)
            },
{
    let n: usize = names.len();
    let mut i: usize = 0;
    while i < n
        invariant
            n == names@.len(),
            i <= n,
            zip_members(*ar) == zip_members(*old(ar)),
            zip_readable(*ar) == zip_readable(*old(ar)),
            forall|j: int| 0 <= j < i ==> !spec_member_yields(*old(ar), #[trigger] names@[j]@),
        decreases n - i,
    {
        if let Some(img) = load_image_with_ref(ar, names[i].as_str()) {
            proof {
                assert(spec_member_yields(*old(ar), names@[i as int]@));
            }
            return Some(img);
        }
        i = i + 1;
    }
    None
}

} // verus!
