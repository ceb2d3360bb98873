//! From a downloaded archive to the font files that are to be written.

use vstd::prelude::*;
use vstd::string::*;
use std::io::Cursor;
use std::io::Read;
use zip::ZipArchive;
use zip::read::ZipFile;
use zip::result::ZipError;
use crate::error::InstallError;
use crate::text::ends_with;
use crate::text::has_suffix;

verus! {

#[verifier::external_type_specification]
#[verifier::external_body]
#[verifier::reject_recursive_types(R)]
pub struct ExZipArchive<R>(ZipArchive<R>);

#[verifier::external_type_specification]
#[verifier::external_body]
pub struct ExZipFile<'a>(ZipFile<'a>);

#[verifier::external_type_specification]
#[verifier::external_body]
pub struct ExZipError(ZipError);

#[verifier::external_type_specification]
#[verifier::external_body]
#[verifier::reject_recursive_types(T)]
pub struct ExCursor<T>(Cursor<T>);

/// The entries of an opened archive, in index order. An entry is `None`
/// where the archive cannot hand it out. Otherwise it is a pair: the path
/// stored for the entry, if that path stays inside the directory it is
/// unpacked to, and the decompressed content, if it can be read in full.
pub uninterp spec fn archive_entries(archive: ZipArchive<Cursor<Vec<u8>>>) -> Seq<
    Option<(Option<Seq<char>>, Option<Seq<u8>>)>,
>;

/// The entries of the archive that the bytes hold, or `None` where the
/// bytes are not an archive that can be opened.
pub uninterp spec fn parsed_archive(bytes: Seq<u8>) -> Option<
    Seq<Option<(Option<Seq<char>>, Option<Seq<u8>>)>>,
>;

/// `zip::ZipArchive::new` on the bytes in memory. Claimed: whether it
/// succeeds, and what the opened archive holds, depend on the bytes alone.
#[verifier::external_body]
fn open_archive(bytes: Vec<u8>) -> (r: Result<ZipArchive<Cursor<Vec<u8>>>, ZipError>)
    ensures
        match r {
            Ok(archive) => parsed_archive(bytes@) == Some(archive_entries(archive)),
            Err(_) => parsed_archive(bytes@) is None,
        },
{
    ZipArchive::new(Cursor::new(bytes))
}

/// `zip::ZipArchive::len`: the number of entries.
#[verifier::external_body]
fn archive_len(archive: &ZipArchive<Cursor<Vec<u8>>>) -> (n: usize)
    ensures
        n == archive_entries(*archive).len(),
{
    archive.len()
}

/// The path stored for an archive entry, if it stays inside the directory
/// that the archive is unpacked to.
pub uninterp spec fn file_path(file: ZipFile) -> Option<Seq<char>>;

/// The decompressed content of an archive entry that has not been read
/// yet, if it can be read in full.
pub uninterp spec fn file_content(file: ZipFile) -> Option<Seq<u8>>;

/// `zip::ZipArchive::by_index_decrypt` with an empty password, so that an
/// entry that needs a password is an error. Claimed: the archive holds
/// what it held; the call fails exactly where the entry cannot be handed
/// out (an index past the end included); otherwise it gives the entry.
#[verifier::external_body]
fn open_entry<'a>(archive: &'a mut ZipArchive<Cursor<Vec<u8>>>, index: usize) -> (r: Result<
    ZipFile<'a>,
    ZipError,
>)
    ensures
        archive_entries(*final(archive)) == archive_entries(*old(archive)),
        index >= archive_entries(*old(archive)).len() ==> r is Err,
        index < archive_entries(*old(archive)).len() ==> match r {
            Ok(file) => archive_entries(*old(archive))[index as int] == Some(
                (file_path(file), file_content(file)),
            ),
            Err(_) => archive_entries(*old(archive))[index as int] is None,
        },
{
    match archive.by_index_decrypt(index, &[])? {
        Ok(file) => Ok(file),
        Err(_) => Err(ZipError::UnsupportedArchive(ZipError::PASSWORD_REQUIRED)),
    }
}

/// `zip::read::ZipFile::enclosed_name`, as text.
#[verifier::external_body]
fn entry_path(file: &ZipFile) -> (r: Option<String>)
    ensures
        match r {
            Some(path) => file_path(*file) == Some(path@),
            None => file_path(*file) is None,
        },
{
    match file.enclosed_name() {
        Some(path) => Some(path.to_string_lossy().into_owned()),
        None => None,
    }
}

/// `read_to_end` on a `zip::read::ZipFile` that has not been read yet.
/// Claimed: it gives the decompressed content where that can be read in
/// full, and fails otherwise.
#[verifier::external_body]
fn entry_data(file: &mut ZipFile) -> (r: Result<Vec<u8>, ZipError>)
    ensures
        match r {
            Ok(data) => file_content(*old(file)) == Some(data@),
            Err(_) => file_content(*old(file)) is None,
        },
{
    let mut data = Vec::new();
    match file.read_to_end(&mut data) {
        Ok(_) => Ok(data),
        Err(e) => Err(ZipError::Io(e)),
    }
}

/// The text that `zip::result::ZipError` displays.
#[verifier::external_body]
fn zip_error_text(error: &ZipError) -> (text: String) {
    format!("{}", error)
}

/// Where the latest release of the fonts is published.
pub open spec fn release_base() -> Seq<char> {
    "https://github.com/ryanoasis/nerd-fonts/releases/latest/download/"@
}

/// The address from which the archive named `asset_name` is downloaded.
pub fn download_url(asset_name: &str) -> (url: String)
    ensures
        url@ == release_base() + asset_name@,
{
    String::from_str("https://github.com/ryanoasis/nerd-fonts/releases/latest/download/").concat(
        asset_name,
    )
}

/// The part of a path after its last `/`: empty for a path that ends in one.
pub open spec fn base_name(path: Seq<char>) -> Seq<char>
    decreases path.len(),
{
    if path.len() == 0 || path.last() == '/' {
        Seq::empty()
    } else {
        base_name(path.drop_last()).push(path.last())
    }
}

/// A file name with one of the two font extensions, in lower case.
pub open spec fn is_font_name(name: Seq<char>) -> bool {
    ends_with(name, ".ttf"@) || ends_with(name, ".otf"@)
}

/// The name under which an archive entry is installed, if it is installed:
/// the base name of its path, where that is a font file name.
pub open spec fn font_target(path: Seq<char>) -> Option<Seq<char>> {
    if is_font_name(base_name(path)) {
        Some(base_name(path))
    } else {
        None
    }
}

proof fn lemma_base_name(path: Seq<char>, start: int)
    requires
        0 <= start <= path.len(),
        forall|k: int| start <= k < path.len() ==> path[k] != '/',
        start == 0 || path[start - 1] == '/',
    ensures
        base_name(path) == path.subrange(start, path.len() as int),
    decreases path.len(),
{
    if path.len() == 0 || start == path.len() {
        assert(path.subrange(start, path.len() as int) =~= Seq::<char>::empty());
    } else {
        lemma_base_name(path.drop_last(), start);
        assert(path.subrange(start, path.len() as int) =~= path.drop_last().subrange(
            start,
            path.len() - 1,
        ).push(path.last()));
    }
}

/// Whether a file name ends in `.ttf` or `.otf`.
pub fn is_font_file(name: &str) -> (r: bool)
    ensures
        r == is_font_name(name@),
{
    has_suffix(name, ".ttf") || has_suffix(name, ".otf")
}

/// The file name under which the entry stored at `path` is installed, or
/// `None` for an entry that is skipped.
pub fn font_file_name(path: &str) -> (r: Option<String>)
    ensures
        match r {
            Some(name) => font_target(path@) == Some(name@),
            None => font_target(path@) is None,
        },
{
    let n: usize = path.unicode_len();
    let mut start: usize = n;
    while start > 0 && path.get_char(start - 1) != '/'
        invariant
            start <= n,
            n == path@.len(),
            forall|k: int| start <= k < n ==> path@[k] != '/',
        decreases start,
    {
        start -= 1;
    }
    proof {
        lemma_base_name(path@, start as int);
    }
    let base = path.substring_char(start, n);
    if is_font_file(base) {
        Some(String::from_str(base))
    } else {
        None
    }
}

/// A font file taken out of an archive.
#[derive(Clone, Debug, PartialEq, Eq)]
pub struct FontFile {
    /// The file name inside the font directory.
    pub name: String,
    pub data: Vec<u8>,
}

/// What came out of an archive: the font files up to the first entry that
/// failed, and that failure.
#[derive(Clone, Debug, PartialEq, Eq)]
pub struct Extraction {
    pub files: Vec<FontFile>,
    pub failure: Option<InstallError>,
}

/// An `Extraction` as mathematical values.
pub struct ExtractionModel {
    pub files: Seq<(Seq<char>, Seq<u8>)>,
    pub failed: bool,
}

impl View for Extraction {
    type V = ExtractionModel;

    open spec fn view(&self) -> ExtractionModel {
        ExtractionModel {
            files: self.files@.map_values(|f: FontFile| (f.name@, f.data@)),
            failed: self.failure is Some,
        }
    }
}

/// One more entry after `before`: nothing changes once an entry has failed;
/// an entry that cannot be handed out fails; an entry without an enclosed
/// path, or whose path names no font file, is skipped; a font file is added
/// with its content, or fails where the content cannot be read.
pub open spec fn extraction_step(
    before: ExtractionModel,
    entry: Option<(Option<Seq<char>>, Option<Seq<u8>>)>,
) -> ExtractionModel {
    if before.failed {
        before
    } else {
        match entry {
            None => ExtractionModel { files: before.files, failed: true },
            Some((None, _)) => before,
            Some((Some(path), content)) => match font_target(path) {
                None => before,
                Some(name) => match content {
                    None => ExtractionModel { files: before.files, failed: true },
                    Some(data) => ExtractionModel {
                        files: before.files.push((name, data)),
                        failed: false,
                    },
                },
            },
        }
    }
}

/// The extraction of a whole archive, entry by entry in index order.
pub open spec fn extraction_of(
    entries: Seq<Option<(Option<Seq<char>>, Option<Seq<u8>>)>>,
) -> ExtractionModel
    decreases entries.len(),
{
    if entries.len() == 0 {
        ExtractionModel { files: Seq::empty(), failed: false }
    } else {
        extraction_step(extraction_of(entries.drop_last()), entries.last())
    }
}

/// An extraction holds at most one file for each entry, and each under a
/// font file name.
pub proof fn lemma_extracted_names(entries: Seq<Option<(Option<Seq<char>>, Option<Seq<u8>>)>>)
    ensures
        extraction_of(entries).files.len() <= entries.len(),
        forall|i: int|
            0 <= i < extraction_of(entries).files.len() ==> is_font_name(
                (#[trigger] extraction_of(entries).files[i]).0,
            ),
    decreases entries.len(),
{
    if entries.len() > 0 {
        lemma_extracted_names(entries.drop_last());
    }
}

fn installed_name(file: &ZipFile) -> (r: Option<String>)
    ensures
        match r {
            Some(name) => file_path(*file) matches Some(path) && font_target(path) == Some(name@),
            None => file_path(*file) matches Some(path) ==> font_target(path) is None,
        },
{
    match entry_path(file) {
        Some(path) => font_file_name(path.as_str()),
        None => None,
    }
}

/// Takes the font files out of an opened archive.
pub fn extract_from(archive: &mut ZipArchive<Cursor<Vec<u8>>>) -> (r: Extraction)
    ensures
        archive_entries(*final(archive)) == archive_entries(*old(archive)),
        r@ == extraction_of(archive_entries(*old(archive))),
        r.failure matches Some(e) ==> e is Archive,
{
    let ghost entries = archive_entries(*archive);
    let n: usize = archive_len(archive);
    let mut files: Vec<FontFile> = Vec::new();
    let mut failure: Option<InstallError> = None;
    let mut i: usize = 0;
    proof {
        assert((Extraction { files, failure })@.files =~= Seq::empty());
        assert(entries.subrange(0, 0) =~= Seq::empty());
    }
    while i < n && failure.is_none()
        invariant
            i <= n,
            n == entries.len(),
            archive_entries(*archive) == entries,
            failure matches Some(e) ==> e is Archive,
            (Extraction { files, failure })@ == extraction_of(entries.subrange(0, i as int)),
        decreases n - i,
    {
        let ghost before = (Extraction { files, failure })@;
        proof {
            assert(entries.subrange(0, i + 1).drop_last() =~= entries.subrange(0, i as int));
            assert(entries.subrange(0, i + 1).last() == entries[i as int]);
        }
        match open_entry(archive, i) {
            Err(e) => {
                failure = Some(InstallError::Archive(zip_error_text(&e)));
            },
            Ok(mut file) => {
                match installed_name(&file) {
                    None => {},
                    Some(name) => {
                        match entry_data(&mut file) {
                            Err(e) => {
                                failure = Some(InstallError::Archive(zip_error_text(&e)));
                            },
                            Ok(data) => {
                                files.push(FontFile { name, data });
                                assert((Extraction { files, failure })@.files =~= before.files.push(
                                    (name@, data@),
                                ));
                            },
                        }
                    },
                }
            },
        }
        assert((Extraction { files, failure })@.files =~= extraction_step(
            before,
            entries[i as int],
        ).files);
        i += 1;
    }
    proof {
        lemma_extraction_stops(entries, i as int);
    }
    Extraction { files, failure }
}

proof fn lemma_extraction_stops(
    entries: Seq<Option<(Option<Seq<char>>, Option<Seq<u8>>)>>,
    k: int,
)
    requires
        0 <= k <= entries.len(),
        k == entries.len() || extraction_of(entries.subrange(0, k)).failed,
    ensures
        extraction_of(entries) == extraction_of(entries.subrange(0, k)),
    decreases entries.len() - k,
{
    if k == entries.len() {
        assert(entries.subrange(0, k) =~= entries);
    } else {
        assert(entries.subrange(0, k + 1).drop_last() =~= entries.subrange(0, k));
        lemma_extraction_stops(entries, k + 1);
    }
}

/// Opens the archive that `bytes` hold and takes the font files out of it.
/// Bytes that are no archive give no file and a failure.
pub fn extract_fonts(bytes: Vec<u8>) -> (r: Extraction)
    ensures
        r@ == match parsed_archive(bytes@) {
            Some(entries) => extraction_of(entries),
            None => (ExtractionModel { files: Seq::empty(), failed: true }),
        },
        r.failure matches Some(e) ==> e is Archive,
{
    match open_archive(bytes) {
        Ok(mut archive) => extract_from(&mut archive),
        Err(e) => {
            let r = Extraction {
                files: Vec::new(),
                failure: Some(InstallError::Archive(zip_error_text(&e))),
            };
            assert(r@.files =~= Seq::empty());
            r
        },
    }
}

} // verus!
