//! Which of the files of an export are media, and which are noise.

use vstd::prelude::*;
use crate::text::text_equals;

verus! {

/// A file that the walk over the export came upon.
#[derive(Debug)]
pub struct CandidatePath {
    /// The path of the file.
    pub path: String,
    /// The name of the file without its extension.
    pub stem: String,
    /// The extension of the file, without the dot, where it has one.
    pub extension: Option<String>,
    /// The name of the folder that holds the file.
    pub containing_dir: String,
}

/// A `CandidatePath` as a mathematical value.
pub struct CandidateView {
    pub path: Seq<char>,
    pub stem: Seq<char>,
    pub extension: Option<Seq<char>>,
    pub containing_dir: Seq<char>,
}

impl View for CandidatePath {
    type V = CandidateView;

    open spec fn view(&self) -> CandidateView {
        CandidateView {
            path: self.path@,
            stem: self.stem@,
            extension: match self.extension {
                Some(text) => Some(text@),
                None => None,
            },
            containing_dir: self.containing_dir@,
        }
    }
}

/// Whether `extension` is that of a picture or a film: one of the listed
/// extensions, all in lower case or all in upper case.
pub open spec fn is_media_extension(extension: Seq<char>) -> bool {
    ||| extension == "jpg"@
    ||| extension == "JPG"@
    ||| extension == "png"@
    ||| extension == "PNG"@
    ||| extension == "mp4"@
    ||| extension == "MP4"@
    ||| extension == "mov"@
    ||| extension == "MOV"@
    ||| extension == "gif"@
    ||| extension == "GIF"@
}

/// Whether a file is media: it has an extension, and the extension is listed.
pub open spec fn of_interest(candidate: CandidateView) -> bool {
    match candidate.extension {
        Some(extension) => is_media_extension(extension),
        None => false,
    }
}

/// Whether `extension` is that of a picture or a film.
pub fn media_extension(extension: &str) -> (listed: bool)
    ensures
        listed == is_media_extension(extension@),
{
    text_equals(extension, "jpg") || text_equals(extension, "JPG") || text_equals(extension, "png")
        || text_equals(extension, "PNG") || text_equals(extension, "mp4") || text_equals(
        extension,
        "MP4",
    ) || text_equals(extension, "mov") || text_equals(extension, "MOV") || text_equals(
        extension,
        "gif",
    ) || text_equals(extension, "GIF")
}

/// Whether `entry` is a picture or a film. A file without an extension is not.
pub fn is_of_interest(entry: &CandidatePath) -> (wanted: bool)
    ensures
        wanted == of_interest(entry@),
{
    match &entry.extension {
        None => false,
        Some(extension) => media_extension(extension.as_str()),
    }
}

} // verus!
