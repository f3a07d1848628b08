//! The wrapping formats, and how content is told to be of one of them.

use vstd::prelude::*;
use vstd::slice::slice_subrange;
use crate::text::same_text;

verus! {

/// How an input is wrapped. The tag is worked out anew from the content at each inspection,
/// never from a file's name.
#[derive(Clone, Copy, Debug, PartialEq, Eq, Structural)]
pub enum WrappedFormat {
    Zip,
    Xz,
    Tar,
    Gzip,
    Bzip2,
    Rar,
    Base64,
    Unsupported,
}

impl WrappedFormat {
    /// An archive bundles many named entries and is unpacked into a directory.
    pub open spec fn spec_is_archive(self) -> bool {
        self is Zip || self is Tar || self is Rar
    }

    /// A compressor wraps one stream, which is decoded into one file.
    pub open spec fn spec_is_compressor(self) -> bool {
        self is Xz || self is Gzip || self is Bzip2
    }

    /// The name that the format goes by.
    pub open spec fn spec_name(self) -> Seq<char> {
        match self {
            WrappedFormat::Zip => "zip"@,
            WrappedFormat::Xz => "xz"@,
            WrappedFormat::Tar => "tar"@,
            WrappedFormat::Gzip => "gzip"@,
            WrappedFormat::Bzip2 => "bzip2"@,
            WrappedFormat::Rar => "rar"@,
            WrappedFormat::Base64 => "base64"@,
            WrappedFormat::Unsupported => "unsupported"@,
        }
    }

    /// The name that the format goes by.
    pub fn name(self) -> (name: &'static str)
        ensures
            name@ == self.spec_name(),
    {
        match self {
            WrappedFormat::Zip => "zip",
            WrappedFormat::Xz => "xz",
            WrappedFormat::Tar => "tar",
            WrappedFormat::Gzip => "gzip",
            WrappedFormat::Bzip2 => "bzip2",
            WrappedFormat::Rar => "rar",
            WrappedFormat::Base64 => "base64",
            WrappedFormat::Unsupported => "unsupported",
        }
    }

    /// Whether the format is an archive of many entries.
    #[verifier::when_used_as_spec(spec_is_archive)]
    pub fn is_archive(self) -> (b: bool)
        ensures
            b == self.spec_is_archive(),
    {
        match self {
            WrappedFormat::Zip | WrappedFormat::Tar | WrappedFormat::Rar => true,
            _ => false,
        }
    }

    /// Whether the format compresses a single stream.
    #[verifier::when_used_as_spec(spec_is_compressor)]
    pub fn is_compressor(self) -> (b: bool)
        ensures
            b == self.spec_is_compressor(),
    {
        match self {
            WrappedFormat::Xz | WrappedFormat::Gzip | WrappedFormat::Bzip2 => true,
            _ => false,
        }
    }
}

/// How many bytes from the start of the content take part in telling its format.
pub const SNIFF_WINDOW: usize = 2048;

/// The format that a MIME type stands for. Rar archives go by two MIME types; Base64 has none,
/// as it is never told from content.
pub open spec fn spec_format_of_mime(mime: Seq<char>) -> WrappedFormat {
    if mime == "application/zip"@ {
        WrappedFormat::Zip
    } else if mime == "application/x-xz"@ {
        WrappedFormat::Xz
    } else if mime == "application/x-tar"@ {
        WrappedFormat::Tar
    } else if mime == "application/gzip"@ {
        WrappedFormat::Gzip
    } else if mime == "application/x-bzip"@ {
        WrappedFormat::Bzip2
    } else if mime == "application/vnd.rar"@ || mime == "application/x-rar-compressed"@ {
        WrappedFormat::Rar
    } else {
        WrappedFormat::Unsupported
    }
}

/// The format that the MIME type `mime` stands for.
pub fn format_of_mime(mime: &str) -> (format: WrappedFormat)
    ensures
        format == spec_format_of_mime(mime@),
{
    if same_text(mime, "application/zip") {
        WrappedFormat::Zip
    } else if same_text(mime, "application/x-xz") {
        WrappedFormat::Xz
    } else if same_text(mime, "application/x-tar") {
        WrappedFormat::Tar
    } else if same_text(mime, "application/gzip") {
        WrappedFormat::Gzip
    } else if same_text(mime, "application/x-bzip") {
        WrappedFormat::Bzip2
    } else if same_text(mime, "application/vnd.rar") || same_text(
        mime,
        "application/x-rar-compressed",
    ) {
        WrappedFormat::Rar
    } else {
        WrappedFormat::Unsupported
    }
}

/// Each of the seven known MIME types stands for its own format: none of them is shadowed by
/// another.
pub proof fn lemma_known_mime_types()
    ensures
        spec_format_of_mime("application/zip"@) == WrappedFormat::Zip,
        spec_format_of_mime("application/x-xz"@) == WrappedFormat::Xz,
        spec_format_of_mime("application/x-tar"@) == WrappedFormat::Tar,
        spec_format_of_mime("application/gzip"@) == WrappedFormat::Gzip,
        spec_format_of_mime("application/x-bzip"@) == WrappedFormat::Bzip2,
        spec_format_of_mime("application/vnd.rar"@) == WrappedFormat::Rar,
        spec_format_of_mime("application/x-rar-compressed"@) == WrappedFormat::Rar,
{
    reveal_strlit("application/zip");
    reveal_strlit("application/x-xz");
    reveal_strlit("application/x-tar");
    reveal_strlit("application/gzip");
    reveal_strlit("application/x-bzip");
    reveal_strlit("application/vnd.rar");
    reveal_strlit("application/x-rar-compressed");
    assert("application/zip"@.len() == 15);
    assert("application/x-xz"@.len() == 16);
    assert("application/x-tar"@.len() == 17);
    assert("application/gzip"@.len() == 16);
    assert("application/x-bzip"@.len() == 18);
    assert("application/vnd.rar"@.len() == 19);
    assert("application/x-rar-compressed"@.len() == 28);
    assert("application/gzip"@[12] == 'g');
    assert("application/x-xz"@[12] == 'x');
}

/// Calls `tree_magic::from_u8`, which walks its tree of MIME types and returns the most
/// specific one whose magic rules match `head`. Besides the rules it was built with it reads
/// those installed on the machine, so which type comes back is not a function of the bytes
/// alone and nothing is claimed of it.
#[verifier::external_body]
fn sniff_mime(head: &[u8]) -> (mime: String) {
    tree_magic::from_u8(head)
}

/// The part of `content` that takes part in telling its format: its first `SNIFF_WINDOW`
/// bytes, or all of it where it is shorter.
pub open spec fn spec_sniff_window(content: Seq<u8>) -> Seq<u8> {
    content.subrange(
        0,
        if content.len() > SNIFF_WINDOW {
            SNIFF_WINDOW as int
        } else {
            content.len() as int
        },
    )
}

/// The part of `content` that is handed to the sniffer.
///
/// The window is that of `tree_magic` itself: told to look at a file, it loads the first 2048
/// bytes and no more. The signatures of the formats known here all stand within it: those of
/// zip, xz, gzip, bzip2 and rar at the very start, that of tar at offset 257.
pub fn sniff_window(content: &[u8]) -> (head: &[u8])
    ensures
        head@ == spec_sniff_window(content@),
{
    if content.len() > SNIFF_WINDOW {
        slice_subrange(content, 0, SNIFF_WINDOW)
    } else {
        assert(content@.subrange(0, content@.len() as int) =~= content@);
        content
    }
}

/// The format of `content`: that of the MIME type which the sniffer finds for
/// `sniff_window(content)`. Text is never taken for Base64 here: that format is tried only for
/// an item that names no file.
pub fn classify(content: &[u8]) -> (format: WrappedFormat)
    ensures
        format != WrappedFormat::Base64,
{
    let head = sniff_window(content);
    let mime = sniff_mime(head);
    format_of_mime(mime.as_str())
}

} // verus!
