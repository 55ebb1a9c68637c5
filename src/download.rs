//! Naming of downloaded files.

use vstd::prelude::*;

verus! {

/// The file name used when the URL's last path segment is empty or absent.
pub const FALLBACK_NAME: &'static str = "tmp.bin";

/// Errors of a download.
pub enum DownloadError {
    /// The URI is malformed or empty.
    Malformed,
    /// Requesting the URI failed.
    UriGet,
    /// Reading the content of the response failed.
    Content,
    /// Creating the local file failed.
    CreateFile(String),
    /// Saving the content to the local file failed.
    SaveFile(String),
}

impl DownloadError {
    /// A sentence that says what went wrong.
    pub fn message(&self) -> (r: String)
        ensures
            r@ == match self {
                DownloadError::Malformed => "download URI is malformed or empty"@,
                DownloadError::UriGet => "requesting URI failed"@,
                DownloadError::Content => "reading content from response failed"@,
                DownloadError::CreateFile(n) => "failed creating file "@ + n@,
                DownloadError::SaveFile(n) => "failed writing file "@ + n@,
            },
    {
        match self {
            DownloadError::Malformed => "download URI is malformed or empty".to_owned(),
            DownloadError::UriGet => "requesting URI failed".to_owned(),
            DownloadError::Content => "reading content from response failed".to_owned(),
            DownloadError::CreateFile(n) => "failed creating file ".to_owned().concat(n.as_str()),
            DownloadError::SaveFile(n) => "failed writing file ".to_owned().concat(n.as_str()),
        }
    }
}

/// The local path of a download: the directory, a slash, the tag, then the
/// URL's last path segment, or the fallback name where that is empty or
/// absent.
pub open spec fn download_path_spec(
    local_dir: Seq<char>,
    name_prefix: Seq<char>,
    last_segment: Option<&str>,
) -> Seq<char> {
    let name = match last_segment {
        Some(s) => if s@.len() > 0 {
            s@
        } else {
            FALLBACK_NAME@
        },
        None => FALLBACK_NAME@,
    };
    local_dir + seq!['/'] + name_prefix + name
}

/// Where a file downloaded into `local_dir` under the tag `name_prefix` is
/// stored, given the last path segment of the URL it came from.
pub fn download_path(local_dir: &str, name_prefix: &str, last_segment: Option<&str>) -> (r:
    String)
    ensures
        r@ == download_path_spec(local_dir@, name_prefix@, last_segment),
{
    let name: &str = match last_segment {
        Some(s) => if s.is_empty() {
            FALLBACK_NAME
        } else {
            s
        },
        None => FALLBACK_NAME,
    };
    let mut path = local_dir.to_owned();
    path.push('/');
    let path = path.concat(name_prefix).concat(name);
    path
}

} // verus!
