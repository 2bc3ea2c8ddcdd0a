//! Where reports go: the naming of report files and the rule for files that
//! are already there.

use std::path::Path;
use std::path::PathBuf;
use vstd::prelude::*;

verus! {

/// `std::path::PathBuf`, an owned file-system path. What one holds goes by
/// the name `path_bytes`.
#[verifier::external_type_specification]
#[verifier::external_body]
pub struct ExPathBuf(PathBuf);

/// The bytes that a path holds, as `OsStr::as_encoded_bytes` of std gives
/// them.
pub uninterp spec fn path_bytes(path: PathBuf) -> Seq<u8>;

/// The bytes of the path that `Path::join` of std makes of a directory that
/// holds the bytes `directory` and of the relative or absolute path `name`.
pub uninterp spec fn joined_path(directory: Seq<u8>, name: Seq<char>) -> Seq<u8>;

/// The bytes of the path that `Path::with_extension` of std makes of a path
/// that holds the bytes `path` and of `extension`.
pub uninterp spec fn path_with_extension(path: Seq<u8>, extension: Seq<char>) -> Seq<u8>;

/// Whether `c` separates the components of a path on some platform.
pub open spec fn is_path_separator(c: char) -> bool {
    c == '/' || c == '\\'
}

/// The extension of every report file.
pub open spec fn report_extension() -> Seq<char> {
    seq!['c', 's', 'v']
}

/// The bytes of the path of a report file: the file `basename` in the
/// directory that holds the bytes `directory`, with the extension of
/// report files in place of whatever extension `basename` ends in.
pub open spec fn report_path(directory: Seq<u8>, basename: Seq<char>) -> Seq<u8> {
    path_with_extension(joined_path(directory, basename), report_extension())
}

/// `std::path::Path`, the borrowed form that a `PathBuf` dereferences to.
/// Nothing is known here of what is inside one.
#[verifier::external_type_specification]
#[verifier::external_body]
pub struct ExPath(Path);

/// `String::push_str` of std: appends a string slice to the end of a string.
pub assume_specification[ String::push_str ](s: &mut String, string: &str)
    ensures
        final(s)@ == old(s)@ + string@,
;

/// How reports are written.
#[derive(Debug)]
pub struct ReporterConfiguration {
    /// Stands before the name of the report in the name of its file.
    pub file_prefix: String,
    /// The directory that the report files are written to.
    pub output_directory: PathBuf,
    /// Whether a report file that is already there is written over.
    pub overwrite: bool,
}

/// How the attempt to create a report file, on condition that none of that
/// name is there yet, ended.
#[derive(Clone, Copy, Debug, PartialEq, Eq, Structural)]
pub enum CreateAttempt {
    /// The file was created.
    Created,
    /// A file of that name is already there.
    AlreadyExists,
    /// The attempt failed for another reason.
    Failed,
}

/// What to do after the attempt to create a report file.
#[derive(Clone, Copy, Debug, PartialEq, Eq, Structural)]
pub enum CreateResolution {
    /// Write to the file that was created.
    Proceed,
    /// Open the file that is there and write over it.
    Overwrite,
    /// Give up: the file is there and is not to be written over.
    RefuseExisting,
    /// Give up: the attempt failed.
    Fail,
}

impl ReporterConfiguration {
    /// What to do after `attempt`: a file that is already there is written
    /// over when `overwrite` is set and is a reason to give up when it is not.
    pub open spec fn resolution(&self, attempt: CreateAttempt) -> CreateResolution {
        match attempt {
            CreateAttempt::Created => CreateResolution::Proceed,
            CreateAttempt::AlreadyExists => if self.overwrite {
                CreateResolution::Overwrite
            } else {
                CreateResolution::RefuseExisting
            },
            CreateAttempt::Failed => CreateResolution::Fail,
        }
    }

    /// A configuration with the given parts.
    #[must_use]
    pub fn new(file_prefix: String, output_directory: PathBuf, overwrite: bool) -> (configuration:
        ReporterConfiguration)
        ensures
            configuration.file_prefix == file_prefix,
            configuration.output_directory == output_directory,
            configuration.overwrite == overwrite,
    {
        ReporterConfiguration { file_prefix, output_directory, overwrite }
    }

    /// The configuration of one who asks for nothing more than a directory:
    /// no prefix, and no file that is already there is written over.
    #[must_use]
    pub fn in_directory(output_directory: PathBuf) -> (configuration: ReporterConfiguration)
        ensures
            configuration.file_prefix@ == Seq::<char>::empty(),
            configuration.output_directory == output_directory,
            !configuration.overwrite,
    {
        ReporterConfiguration { file_prefix: String::new(), output_directory, overwrite: false }
    }

    /// The name of the file of the report `short_name`, without directory
    /// and extension: the prefix followed by the name of the report.
    pub fn basename(&self, short_name: &str) -> (name: String)
        ensures
            name@ == self.file_prefix@ + short_name@,
    {
        let mut name = self.file_prefix.clone();
        name.push_str(short_name);
        name
    }

    /// The path of the file of the report `short_name`: its basename, in the
    /// output directory, with the extension `csv`.
    pub fn generate_filename(&self, short_name: &str) -> (path: PathBuf)
        ensures
            path_bytes(path) == report_path(
                path_bytes(self.output_directory),
                self.file_prefix@ + short_name@,
            ),
    {
        let name = self.basename(short_name);
        let path = joined(&self.output_directory, &name);
        proof {
            reveal_strlit("csv");
            assert("csv"@ =~= report_extension());
        }
        with_extension(&path, "csv")
    }

    /// What to do after the attempt to create a report file.
    pub fn resolve_create(&self, attempt: CreateAttempt) -> (resolution: CreateResolution)
        ensures
            resolution == self.resolution(attempt),
    {
        match attempt {
            CreateAttempt::Created => CreateResolution::Proceed,
            CreateAttempt::AlreadyExists => if self.overwrite {
                CreateResolution::Overwrite
            } else {
                CreateResolution::RefuseExisting
            },
            CreateAttempt::Failed => CreateResolution::Fail,
        }
    }
}

/// `Path::join` of std: a new path, `name` adjoined to `directory`. The
/// claim is that what the new path holds is determined by what `directory`
/// holds and by the text of `name`; it goes by the name `joined_path`.
#[verifier::external_body]
fn joined(directory: &PathBuf, name: &String) -> (path: PathBuf)
    ensures
        path_bytes(path) == joined_path(path_bytes(*directory), name@),
{
    directory.join(name)
}

/// `Path::with_extension` of std: a new path, like `path` but with
/// `extension` as its extension. It panics when the extension holds a path
/// separator, which the precondition rules out. The claim is that what the
/// new path holds is determined by what `path` holds and by the text of
/// `extension`; it goes by the name `path_with_extension`.
#[verifier::external_body]
fn with_extension(path: &PathBuf, extension: &str) -> (replaced: PathBuf)
    requires
        forall|i: int| 0 <= i < extension@.len() ==> !is_path_separator(#[trigger] extension@[i]),
    ensures
        path_bytes(replaced) == path_with_extension(path_bytes(*path), extension@),
{
    path.with_extension(extension)
}

} // verus!
