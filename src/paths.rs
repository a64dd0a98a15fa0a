use crate::error::SplitError;
use crate::naming::{split_file_name, split_name};
use async_std::path::Path;
use vstd::prelude::*;

verus! {

/// The file stem of `path` (its file name without the final extension), as
/// text; `None` where there is none.
pub uninterp spec fn file_stem_of(path: Seq<char>) -> Option<Seq<char>>;

/// The extension of `path`'s file name, as text; `None` where there is none.
pub uninterp spec fn extension_of(path: Seq<char>) -> Option<Seq<char>>;

/// `path` with its file name replaced by `name`, as text; `None` where the
/// result is not text.
pub uninterp spec fn with_file_name_of(path: Seq<char>, name: Seq<char>) -> Option<Seq<char>>;

/// The text held by an optional string.
pub open spec fn text_of(o: Option<String>) -> Option<Seq<char>> {
    match o {
        Some(s) => Some(s@),
        None => None,
    }
}

/// Relies on async_std::path::Path::file_stem, converted to text.
#[verifier::external_body]
fn file_stem(path: &str) -> (r: Option<String>)
    ensures
        text_of(r) == file_stem_of(path@),
{
    Path::new(path).file_stem().and_then(|s| s.to_str()).map(|s| s.to_string())
}

/// Relies on async_std::path::Path::extension, converted to text; as its
/// documentation states, a file name without an embedded `.` has none.
#[verifier::external_body]
fn extension(path: &str) -> (r: Option<String>)
    ensures
        text_of(r) == extension_of(path@),
        !path@.contains('.') ==> r is None,
{
    Path::new(path).extension().and_then(|s| s.to_str()).map(|s| s.to_string())
}

/// Relies on async_std::path::Path::with_file_name, converted to text.
#[verifier::external_body]
fn with_file_name(path: &str, name: &str) -> (r: Option<String>)
    ensures
        text_of(r) == with_file_name_of(path@, name@),
{
    Path::new(path).with_file_name(name).into_os_string().into_string().ok()
}

/// Where segment `number` of the video at `video` is written: beside the
/// video, named after its stem and extension.
pub open spec fn output_path_of(video: Seq<char>, number: u64) -> Option<Seq<char>> {
    match (file_stem_of(video), extension_of(video)) {
        (Some(stem), Some(ext)) => with_file_name_of(video, split_name(stem, ext, number)),
        _ => None,
    }
}

/// The path that segment `number` of `video` is written to.
pub fn output_path(video: &str, number: u64) -> (res: Result<String, SplitError>)
    ensures
        match res {
            Ok(p) => output_path_of(video@, number) == Some(p@),
            Err(e) => output_path_of(video@, number) is None && e == SplitError::BadFilename,
        },
        !video@.contains('.') ==> res == Err::<String, SplitError>(SplitError::BadFilename),
{
    let stem = match file_stem(video) {
        Some(s) => s,
        None => return Err(SplitError::BadFilename),
    };
    let ext = match extension(video) {
        Some(e) => e,
        None => return Err(SplitError::BadFilename),
    };
    let name = split_file_name(stem.as_str(), ext.as_str(), number);
    match with_file_name(video, name.as_str()) {
        Some(p) => Ok(p),
        None => Err(SplitError::BadFilename),
    }
}

/// The video inferred from the info file at `info`: the info file's stem, in
/// the same directory.
pub open spec fn inferred_video_of(info: Seq<char>) -> Option<Seq<char>> {
    match file_stem_of(info) {
        Some(stem) => with_file_name_of(info, stem),
        None => None,
    }
}

/// The reference video: `video` where given, else the one inferred from `info`.
pub open spec fn video_path_of(info: Seq<char>, video: Option<Seq<char>>) -> Option<Seq<char>> {
    match video {
        Some(v) => Some(v),
        None => inferred_video_of(info),
    }
}

/// The reference video: `video` where given, else `info`'s stem beside it.
pub fn video_path(info: &str, video: Option<String>) -> (res: Result<String, SplitError>)
    ensures
        match res {
            Ok(p) => video_path_of(info@, text_of(video)) == Some(p@),
            Err(e) => video_path_of(info@, text_of(video)) is None && e == SplitError::BadFilename,
        },
        video is Some ==> res == Ok::<String, SplitError>(video->Some_0),
{
    match video {
        Some(v) => Ok(v),
        None => {
            let stem = match file_stem(info) {
                Some(s) => s,
                None => return Err(SplitError::BadFilename),
            };
            match with_file_name(info, stem.as_str()) {
                Some(p) => Ok(p),
                None => Err(SplitError::BadFilename),
            }
        },
    }
}

} // verus!
