//! Decisions taken when a version section is patched into a binary.
//!
//! The binary is inspected and rewritten by outside tools; this module
//! decides what to ask of them: the output file name, and whether the section
//! is replaced or the binary copied unchanged.

use vstd::prelude::*;

use crate::codec::{encoded_len, is_encoding, valid_buffer_size, MEMBER_COUNT};
use crate::error::Error;
use crate::link_section::LinkSection;
use crate::report::SectionInfo;
use vstd::string::StringExecFns;

verus! {

/// A filesystem path, carried through unchanged.
#[verifier::external_type_specification]
#[verifier::external_body]
pub struct ExPathBuf(std::path::PathBuf);

/// Relies on `str::strip_suffix`: when `s` ends with `suffix`, the part of
/// `s` before it; otherwise nothing.
#[verifier::external_body]
fn strip_suffix_str<'a>(s: &'a str, suffix: &str) -> (r: Option<&'a str>)
    ensures
        r is Some <==> ends_with(s@, suffix@),
        r matches Some(b) ==> b@ == s@.subrange(0, s@.len() - suffix@.len()),
{
    s.strip_suffix(suffix)
}

/// `s` ends with `suffix`.
pub open spec fn ends_with(s: Seq<char>, suffix: Seq<char>) -> bool {
    suffix.len() <= s.len() && s.subrange(s.len() - suffix.len(), s.len() as int) == suffix
}

/// The default output name for a binary called `input`: the name without
/// the platform's executable suffix, then `.bin`, then the suffix again
/// (`prog` becomes `prog.bin`, `prog.exe` becomes `prog.bin.exe`).
pub open spec fn default_output_name(input: Seq<char>, suffix: Seq<char>) -> Seq<char> {
    let base = if ends_with(input, suffix) {
        input.subrange(0, input.len() - suffix.len())
    } else {
        input
    };
    base + seq!['.', 'b', 'i', 'n'] + suffix
}

/// Name used when the input's file name is unknown.
pub open spec fn fallback_name() -> Seq<char> {
    seq!['o', 'u', 't', 'p', 'u', 't']
}

/// Builds the default output name for a binary called `input_name`.
pub fn default_output_name_for(input_name: &str, exe_suffix: &str) -> (r: String)
    ensures
        r@ == default_output_name(input_name@, exe_suffix@),
{
    let base = match strip_suffix_str(input_name, exe_suffix) {
        Some(b) => b,
        None => input_name,
    };
    let mut name = String::from_str(base);
    name.append(".bin");
    name.append(exe_suffix);
    proof {
        reveal_strlit(".bin");
    }
    assert(name@ =~= default_output_name(input_name@, exe_suffix@));
    name
}

/// Builder for patching a version section into a binary.
#[must_use]
pub struct UpdateSectionCommand {
    /// The section contents to write.
    pub link_section: LinkSection,
    /// The binary to patch.
    pub bin_path: std::path::PathBuf,
    /// Custom output file name, for a destination that is a directory.
    pub new_name: Option<String>,
}

/// What to do with the input binary.
pub enum PatchPlan {
    /// Replace the section's contents with `bytes`; `warn_writable` asks for a
    /// warning that the section is mapped writable.
    Replace { bytes: Vec<u8>, warn_writable: bool },
    /// The binary has no such section: copy it unchanged, with a warning.
    CopyUnchanged,
}

impl LinkSection {
    /// Starts patching the binary at `binary_path`.
    pub fn patch_into(self, binary_path: std::path::PathBuf) -> (r: UpdateSectionCommand)
        ensures
            r.link_section == self,
            r.bin_path == binary_path,
            r.new_name is None,
    {
        UpdateSectionCommand { link_section: self, bin_path: binary_path, new_name: None }
    }
}

impl UpdateSectionCommand {
    /// Sets a custom file name for the output binary; only valid when the
    /// destination is a directory.
    pub fn with_filename(self, name: &str) -> (r: Self)
        ensures
            r.new_name matches Some(n) && n@ == name@,
            r.link_section == self.link_section,
            r.bin_path == self.bin_path,
    {
        UpdateSectionCommand { new_name: Some(String::from_str(name)), ..self }
    }

    /// The file name to create inside a destination directory, or `None` when
    /// the destination is itself the output file.
    ///
    /// For a directory, the custom name if one was set, else the default name
    /// derived from the input's file name (`input_name`, or `output` when
    /// it is unknown). For a file, a custom name contradicts the destination
    /// and is an error.
    pub fn output_file_name(&self, dest_is_dir: bool, input_name: Option<&str>, exe_suffix: &str) -> (r: Result<Option<String>, Error>)
        ensures
            dest_is_dir ==> (r matches Ok(Some(n)) && n@ == match self.new_name {
                Some(c) => c@,
                None => default_output_name(
                    match input_name {
                        Some(o) => o@,
                        None => fallback_name(),
                    },
                    exe_suffix@,
                ),
            }),
            !dest_is_dir && self.new_name is Some ==> r == Err::<Option<String>, Error>(
                Error::FilenameWithFilePath,
            ),
            !dest_is_dir && self.new_name is None ==> r == Ok::<Option<String>, Error>(None),
    {
        if dest_is_dir {
            match &self.new_name {
                Some(n) => Ok(Some(n.clone())),
                None => {
                    let input = match input_name {
                        Some(o) => o,
                        None => "output",
                    };
                    proof {
                        reveal_strlit("output");
                    }
                    assert(input@ =~= match input_name {
                        Some(o) => o@,
                        None => fallback_name(),
                    });
                    Ok(Some(default_output_name_for(input, exe_suffix)))
                },
            }
        } else if self.new_name.is_some() {
            Err(Error::FilenameWithFilePath)
        } else {
            Ok(None)
        }
    }

    /// Decides how to produce the output from what the binary's section
    /// looks like.
    ///
    /// When the section is absent the binary is copied unchanged, which is a
    /// success. When it is present its actual size governs the buffer: the
    /// selected data is encoded at that size, and a writable section earns a
    /// warning.
    pub fn plan(&self, info: Option<SectionInfo>, collected: &[Option<String>; MEMBER_COUNT]) -> (r:
        Result<PatchPlan, Error>)
        ensures
            info is None ==> r matches Ok(PatchPlan::CopyUnchanged),
            info matches Some(i) ==> ({
                let ls = self.link_section;
                let data = ls.selected(collected@);
                &&& !ls.any_enabled() ==> r == Err::<PatchPlan, Error>(Error::NothingEnabled)
                &&& ls.any_enabled() && !valid_buffer_size(i.size as int) ==> r == Err::<
                    PatchPlan,
                    Error,
                >(Error::InvalidBufferSize { size: i.size })
                &&& ls.any_enabled() && valid_buffer_size(i.size as int) ==> (r is Ok <==> encoded_len(
                    data,
                ) <= i.size)
                &&& r matches Ok(PatchPlan::Replace { bytes, warn_writable }) ==> is_encoding(
                    bytes@,
                    data,
                    i.size as int,
                ) && warn_writable == i.is_writable
                &&& r is Ok ==> r matches Ok(PatchPlan::Replace { .. })
            }),
    {
        match info {
            None => Ok(PatchPlan::CopyUnchanged),
            Some(i) => {
                let ls = self.link_section.copy_settings().with_buffer_size(i.size);
                assert(ls.selected(collected@) =~= self.link_section.selected(collected@));
                match ls.build_section_bytes(collected, None) {
                    Ok(bytes) => Ok(PatchPlan::Replace { bytes, warn_writable: i.is_writable }),
                    Err(e) => Err(e),
                }
            },
        }
    }
}

impl LinkSection {
    /// A copy of the builder's settings.
    pub fn copy_settings(&self) -> (r: LinkSection)
        ensures
            r == *self,
    {
        LinkSection {
            include_git_sha: self.include_git_sha,
            include_git_describe: self.include_git_describe,
            include_git_branch: self.include_git_branch,
            include_git_commit_timestamp: self.include_git_commit_timestamp,
            include_git_commit_date: self.include_git_commit_date,
            include_git_commit_msg: self.include_git_commit_msg,
            include_build_timestamp: self.include_build_timestamp,
            include_build_date: self.include_build_date,
            fail_on_error: self.fail_on_error,
            custom: match &self.custom {
                Some(s) => Some(s.clone()),
                None => None,
            },
            buffer_size: self.buffer_size,
        }
    }
}

/// Where the LLVM tools live, and whether commands are only shown.
pub struct LlvmTools {
    /// Directory holding `llvm-readobj` and `llvm-objcopy`.
    pub bin_dir: std::path::PathBuf,
    /// Show commands instead of running the ones that write.
    pub dry_run: bool,
}

impl LlvmTools {
    /// Uses the LLVM tools in `bin_dir`.
    pub fn new(bin_dir: std::path::PathBuf) -> (r: Self)
        ensures
            r.bin_dir == bin_dir,
            !r.dry_run,
    {
        LlvmTools { bin_dir, dry_run: false }
    }

    /// Sets the dry-run flag: commands are shown, and those that write are
    /// not run.
    pub fn set_dry_run(&mut self, v: bool)
        ensures
            final(self).dry_run == v,
            final(self).bin_dir == old(self).bin_dir,
    {
        self.dry_run = v;
    }
}

} // verus!
