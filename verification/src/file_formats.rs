//! The file formats the composer can open and save, and how a format is
//! guessed from a file name's extension.
use vstd::prelude::*;

verus! {

/// What `std::path::Path::extension` gives for a path: the part of the last
/// component after its last `.`, if there is one and the component does not
/// only start with it.
pub uninterp spec fn path_extension_of(path: Seq<char>) -> Option<Seq<char>>;

/// What `unicase::eq` answers for two strings: whether they are equal when
/// case is ignored (Unicode case folding, or ASCII case when both are ASCII).
pub uninterp spec fn caseless_eq(a: Seq<char>, b: Seq<char>) -> bool;

pub open spec fn is_ascii_str(s: Seq<char>) -> bool {
    forall|i: int| 0 <= i < s.len() ==> (s[i] as u32) < 128
}

pub open spec fn ascii_lower(c: char) -> int {
    if 65 <= (c as u32) <= 90 {
        (c as u32) + 32
    } else {
        c as u32 as int
    }
}

/// Equality of two strings when ASCII letters are compared without case.
pub open spec fn ascii_caseless_eq(a: Seq<char>, b: Seq<char>) -> bool {
    a.len() == b.len() && forall|i: int| 0 <= i < a.len() ==> ascii_lower(a[i]) == ascii_lower(b[i])
}

/// Calls `std::path::Path::extension` on `path` and views the extension as a
/// `str` (`OsStr::to_str`, which cannot fail for a part of a `str`).
#[verifier::external_body]
fn path_extension(path: &str) -> (r: Option<&str>)
    ensures
        match r {
            Some(ext) => path_extension_of(path@) == Some(ext@),
            None => path_extension_of(path@) is None,
        },
{
    match std::path::Path::new(path).extension() {
        Some(ext) => ext.to_str(),
        None => None,
    }
}

/// Calls `unicase::eq`. Its result is `UniCase::new(a) == UniCase::new(b)`;
/// when both strings are ASCII that is `str::eq_ignore_ascii_case`, and it is
/// symmetric. For other strings it compares Unicode case foldings, which this
/// contract only names.
#[verifier::external_body]
fn unicase_eq(a: &str, b: &str) -> (r: bool)
    ensures
        r == caseless_eq(a@, b@),
        r == caseless_eq(b@, a@),
        is_ascii_str(a@) && is_ascii_str(b@) ==> (r == ascii_caseless_eq(a@, b@)),
{
    unicase::eq(a, b)
}

/// A file format the composer knows.
#[derive(Clone, Copy, Debug, PartialEq, Eq, Structural, PartialOrd, Ord, Hash)]
#[non_exhaustive]
pub enum FileFormat {
    Cem,
    Nec,
}

/// All formats, in declaration order.
pub open spec fn all_formats() -> Seq<FileFormat> {
    seq![FileFormat::Cem, FileFormat::Nec]
}

impl FileFormat {
    /// The file extensions of the format, canonical one first.
    pub open spec fn extensions(self) -> Seq<Seq<char>> {
        match self {
            FileFormat::Cem => seq!["cem"@],
            FileFormat::Nec => seq!["nec"@],
        }
    }

    pub open spec fn display_name_spec(self) -> Seq<char> {
        match self {
            FileFormat::Cem => "CEM Project File"@,
            FileFormat::Nec => "NEC File"@,
        }
    }

    /// Whether one of the format's extensions equals `ext` when case is
    /// ignored.
    pub open spec fn has_extension(self, ext: Seq<char>) -> bool {
        exists|i: int| 0 <= i < self.extensions().len() && caseless_eq(#[trigger] self.extensions()[i], ext)
    }

    /// Whether one of the format's extensions equals `ext` when ASCII letters
    /// are compared without case.
    pub open spec fn has_ascii_extension(self, ext: Seq<char>) -> bool {
        exists|i: int|
            0 <= i < self.extensions().len() && ascii_caseless_eq(#[trigger] self.extensions()[i], ext)
    }

    /// All formats, in declaration order.
    pub fn iter() -> (r: Vec<FileFormat>)
        ensures
            r@ == all_formats(),
    {
        let r = vec![FileFormat::Cem, FileFormat::Nec];
        assert(r@ =~= all_formats());
        r
    }

    /// The file extensions of the format, canonical one first.
    pub fn file_extensions(&self) -> (r: &'static [&'static str])
        ensures
            r@.len() == self.extensions().len(),
            forall|i: int| 0 <= i < r@.len() ==> #[trigger] r@[i]@ == self.extensions()[i],
            r@.len() == 1,
            *self == FileFormat::Cem ==> r@[0]@ == "cem"@,
            *self == FileFormat::Nec ==> r@[0]@ == "nec"@,
    {
        match self {
            FileFormat::Cem => &["cem"],
            FileFormat::Nec => &["nec"],
        }
    }

    /// A name to show to users.
    pub fn display_name(&self) -> (r: &'static str)
        ensures
            r@ == self.display_name_spec(),
    {
        match self {
            FileFormat::Cem => "CEM Project File",
            FileFormat::Nec => "NEC File",
        }
    }

    /// Whether files of this format can be opened: all formats can.
    pub fn can_open(&self) -> (r: bool)
        ensures
            r,
    {
        match self {
            FileFormat::Cem => true,
            FileFormat::Nec => true,
        }
    }

    /// Whether files can be saved in this format: only project files.
    pub fn can_save(&self) -> (r: bool)
        ensures
            r == (*self == FileFormat::Cem),
    {
        matches!(self, FileFormat::Cem)
    }

    /// The extension that files of this format are saved with.
    pub fn canonical_file_extension(&self) -> (r: &'static str)
        ensures
            r@ == self.extensions()[0],
    {
        let extensions = self.file_extensions();
        extensions[0]
    }
}

/// The first format among `formats` that has `ext` as an extension.
pub open spec fn first_with_extension(formats: Seq<FileFormat>, ext: Seq<char>) -> Option<FileFormat>
    decreases formats.len(),
{
    if formats.len() == 0 {
        None
    } else if formats[0].has_extension(ext) {
        Some(formats[0])
    } else {
        first_with_extension(formats.drop_first(), ext)
    }
}

/// The first format among `formats` that has `ext` as an extension when
/// ASCII letters are compared without case.
pub open spec fn first_with_ascii_extension(formats: Seq<FileFormat>, ext: Seq<char>) -> Option<
    FileFormat,
>
    decreases formats.len(),
{
    if formats.len() == 0 {
        None
    } else if formats[0].has_ascii_extension(ext) {
        Some(formats[0])
    } else {
        first_with_ascii_extension(formats.drop_first(), ext)
    }
}

proof fn lemma_extensions_ascii(format: FileFormat)
    ensures
        forall|k: int|
            0 <= k < format.extensions().len() ==> is_ascii_str(#[trigger] format.extensions()[k]),
{
    reveal_strlit("cem");
    reveal_strlit("nec");
}

/// The format a file with the given extension is opened as: the first format,
/// in declaration order, one of whose extensions equals `ext` when case is
/// ignored. For an ASCII extension that is the first format one of whose
/// extensions equals it when ASCII letters are compared without case.
pub fn file_format_for_extension(ext: &str) -> (r: Option<FileFormat>)
    ensures
        r == first_with_extension(all_formats(), ext@),
        is_ascii_str(ext@) ==> r == first_with_ascii_extension(all_formats(), ext@),
        is_ascii_str(ext@) ==> r == if ascii_caseless_eq(ext@, "cem"@) {
            Some(FileFormat::Cem)
        } else if ascii_caseless_eq(ext@, "nec"@) {
            Some(FileFormat::Nec)
        } else {
            None
        },
{
    proof {
        if is_ascii_str(ext@) {
            law_ascii_extension_lookup(ext@);
        }
    }
    let formats = FileFormat::iter();
    let mut i: usize = 0;
    assert(all_formats().skip(0) =~= all_formats());
    while i < formats.len()
        invariant
            formats@ == all_formats(),
            i <= formats@.len(),
            first_with_extension(all_formats(), ext@) == first_with_extension(
                all_formats().skip(i as int),
                ext@,
            ),
            is_ascii_str(ext@) ==> first_with_ascii_extension(all_formats(), ext@)
                == first_with_ascii_extension(all_formats().skip(i as int), ext@),
            is_ascii_str(ext@) ==> first_with_ascii_extension(all_formats(), ext@) == if ascii_caseless_eq(ext@, "cem"@) {
                Some(FileFormat::Cem)
            } else if ascii_caseless_eq(ext@, "nec"@) {
                Some(FileFormat::Nec)
            } else {
                None
            },
        decreases formats@.len() - i,
    {
        let format = formats[i];
        let extensions = format.file_extensions();
        let mut j: usize = 0;
        let mut found = false;
        proof {
            lemma_extensions_ascii(format);
        }
        while j < extensions.len()
            invariant
                extensions@.len() == format.extensions().len(),
                forall|k: int| 0 <= k < extensions@.len() ==> #[trigger] extensions@[k]@ == format.extensions()[k],
                j <= extensions@.len(),
                found == exists|k: int| 0 <= k < j && caseless_eq(#[trigger] format.extensions()[k], ext@),
                forall|k: int|
                    0 <= k < format.extensions().len() ==> is_ascii_str(#[trigger] format.extensions()[k]),
                is_ascii_str(ext@) ==> (found == exists|k: int|
                    0 <= k < j && ascii_caseless_eq(#[trigger] format.extensions()[k], ext@)),
            decreases extensions@.len() - j,
        {
            let same = unicase_eq(extensions[j], ext);
            assert(extensions@[j as int]@ == format.extensions()[j as int]);
            if same {
                found = true;
            }
            j = j + 1;
        }
        assert(all_formats().skip(i as int)[0] == format);
        assert(all_formats().skip(i as int).drop_first() =~= all_formats().skip(i + 1));
        if found {
            return Some(format);
        }
        i = i + 1;
    }
    assert(all_formats().skip(i as int).len() == 0);
    None
}

/// An extension of a format, written in any ASCII case, finds that format.
pub proof fn law_extension_in_any_ascii_case_finds_format(format: FileFormat, i: int, ext: Seq<char>)
    requires
        0 <= i < format.extensions().len(),
        ascii_caseless_eq(format.extensions()[i], ext),
    ensures
        is_ascii_str(ext),
        first_with_ascii_extension(all_formats(), ext) == Some(format),
{
    reveal_strlit("cem");
    reveal_strlit("nec");
    let lit = format.extensions()[i];
    assert forall|k: int| 0 <= k < ext.len() implies (ext[k] as u32) < 128 by {
        assert(ascii_lower(ext[k]) == ascii_lower(lit[k]));
    }
    let formats = all_formats();
    assert(formats[0] == FileFormat::Cem);
    assert(formats.drop_first() =~= seq![FileFormat::Nec]);
    match format {
        FileFormat::Cem => {
            assert(formats[0].has_ascii_extension(ext));
        },
        FileFormat::Nec => {
            assert(ascii_lower(ext[0]) == ascii_lower('n'));
            assert(!ascii_caseless_eq(FileFormat::Cem.extensions()[0], ext));
            assert(!formats[0].has_ascii_extension(ext));
            assert(formats.drop_first()[0].has_ascii_extension(ext));
            assert(first_with_ascii_extension(formats.drop_first(), ext) == Some(FileFormat::Nec));
        },
    }
}

/// The known extensions, without case for ASCII letters: an ASCII extension
/// finds the project format exactly when it is `cem`, the NEC format exactly
/// when it is `nec`, and no format otherwise.
pub proof fn law_ascii_extension_lookup(ext: Seq<char>)
    requires
        is_ascii_str(ext),
    ensures
        first_with_ascii_extension(all_formats(), ext) == if ascii_caseless_eq(ext, "cem"@) {
            Some(FileFormat::Cem)
        } else if ascii_caseless_eq(ext, "nec"@) {
            Some(FileFormat::Nec)
        } else {
            None
        },
{
    reveal_strlit("cem");
    reveal_strlit("nec");
    reveal_with_fuel(first_with_ascii_extension, 3);
    let formats = all_formats();
    assert(formats[0] == FileFormat::Cem);
    assert(formats.drop_first() =~= seq![FileFormat::Nec]);
    assert(formats.drop_first().drop_first() =~= Seq::<FileFormat>::empty());
    let cem = FileFormat::Cem.extensions();
    let nec = FileFormat::Nec.extensions();
    assert(FileFormat::Cem.has_ascii_extension(ext) == exists|i: int|
        0 <= i < cem.len() && ascii_caseless_eq(#[trigger] cem[i], ext));
    if ascii_caseless_eq(ext, "cem"@) {
        assert(ascii_caseless_eq(cem[0], ext));
    } else {
        assert forall|i: int| 0 <= i < cem.len() implies !ascii_caseless_eq(#[trigger] cem[i], ext) by {
            if ascii_caseless_eq(cem[i], ext) {
                assert(ascii_caseless_eq(ext, "cem"@));
            }
        }
        assert(!formats[0].has_ascii_extension(ext));
        if ascii_caseless_eq(ext, "nec"@) {
            assert(ascii_caseless_eq(nec[0], ext));
            assert(formats.drop_first()[0].has_ascii_extension(ext));
        } else {
            assert forall|i: int| 0 <= i < nec.len() implies !ascii_caseless_eq(#[trigger] nec[i], ext) by {
                if ascii_caseless_eq(nec[i], ext) {
                    assert(ascii_caseless_eq(ext, "nec"@));
                }
            }
            assert(!formats.drop_first()[0].has_ascii_extension(ext));
        }
    }
}

/// Guesses a file's format from the extension of its path. A path without
/// an extension, or with one that no format has, gives `None`.
pub fn guess_file_format_from_path(path: &str) -> (r: Option<FileFormat>)
    ensures
        r == match path_extension_of(path@) {
            Some(ext) => first_with_extension(all_formats(), ext),
            None => None,
        },
        match path_extension_of(path@) {
            Some(ext) => is_ascii_str(ext) ==> r == if ascii_caseless_eq(ext, "cem"@) {
                Some(FileFormat::Cem)
            } else if ascii_caseless_eq(ext, "nec"@) {
                Some(FileFormat::Nec)
            } else {
                None
            },
            None => r is None,
        },
{
    match path_extension(path) {
        Some(ext) => file_format_for_extension(ext),
        None => None,
    }
}

} // verus!
