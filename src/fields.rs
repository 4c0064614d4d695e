//! Named readers for each member of a section buffer.

use vstd::prelude::*;

use crate::codec::{decode_spec, decodes_cleanly, opt_str_bytes, Decoded, Member, BUFFER_SIZE};

verus! {

/// Returns the source-control revision id, if the buffer holds it.
pub fn git_sha(buffer: &[u8; BUFFER_SIZE]) -> (r: Option<&str>)
    requires
        decodes_cleanly(buffer@, Member::GitSha.spec_index() as int),
    ensures
        Decoded::Ok(opt_str_bytes(r)) == decode_spec(buffer@, Member::GitSha.spec_index() as int),
{
    Member::GitSha.get_from_buffer(buffer)
}

/// Returns the descriptive tag of the revision, if the buffer holds it.
pub fn git_describe(buffer: &[u8; BUFFER_SIZE]) -> (r: Option<&str>)
    requires
        decodes_cleanly(buffer@, Member::GitDescribe.spec_index() as int),
    ensures
        Decoded::Ok(opt_str_bytes(r)) == decode_spec(buffer@, Member::GitDescribe.spec_index() as int),
{
    Member::GitDescribe.get_from_buffer(buffer)
}

/// Returns the branch name, if the buffer holds it.
pub fn git_branch(buffer: &[u8; BUFFER_SIZE]) -> (r: Option<&str>)
    requires
        decodes_cleanly(buffer@, Member::GitBranch.spec_index() as int),
    ensures
        Decoded::Ok(opt_str_bytes(r)) == decode_spec(buffer@, Member::GitBranch.spec_index() as int),
{
    Member::GitBranch.get_from_buffer(buffer)
}

/// Returns the commit timestamp (RFC 3339), if the buffer holds it.
pub fn git_commit_timestamp(buffer: &[u8; BUFFER_SIZE]) -> (r: Option<&str>)
    requires
        decodes_cleanly(buffer@, Member::GitCommitTimestamp.spec_index() as int),
    ensures
        Decoded::Ok(opt_str_bytes(r)) == decode_spec(buffer@, Member::GitCommitTimestamp.spec_index() as int),
{
    Member::GitCommitTimestamp.get_from_buffer(buffer)
}

/// Returns the commit date (YYYY-MM-DD), if the buffer holds it.
pub fn git_commit_date(buffer: &[u8; BUFFER_SIZE]) -> (r: Option<&str>)
    requires
        decodes_cleanly(buffer@, Member::GitCommitDate.spec_index() as int),
    ensures
        Decoded::Ok(opt_str_bytes(r)) == decode_spec(buffer@, Member::GitCommitDate.spec_index() as int),
{
    Member::GitCommitDate.get_from_buffer(buffer)
}

/// Returns the first line of the commit message, if the buffer holds it.
pub fn git_commit_msg(buffer: &[u8; BUFFER_SIZE]) -> (r: Option<&str>)
    requires
        decodes_cleanly(buffer@, Member::GitCommitMsg.spec_index() as int),
    ensures
        Decoded::Ok(opt_str_bytes(r)) == decode_spec(buffer@, Member::GitCommitMsg.spec_index() as int),
{
    Member::GitCommitMsg.get_from_buffer(buffer)
}

/// Returns the build timestamp (RFC 3339), if the buffer holds it.
pub fn build_timestamp(buffer: &[u8; BUFFER_SIZE]) -> (r: Option<&str>)
    requires
        decodes_cleanly(buffer@, Member::BuildTimestamp.spec_index() as int),
    ensures
        Decoded::Ok(opt_str_bytes(r)) == decode_spec(buffer@, Member::BuildTimestamp.spec_index() as int),
{
    Member::BuildTimestamp.get_from_buffer(buffer)
}

/// Returns the build date (YYYY-MM-DD), if the buffer holds it.
pub fn build_date(buffer: &[u8; BUFFER_SIZE]) -> (r: Option<&str>)
    requires
        decodes_cleanly(buffer@, Member::BuildDate.spec_index() as int),
    ensures
        Decoded::Ok(opt_str_bytes(r)) == decode_spec(buffer@, Member::BuildDate.spec_index() as int),
{
    Member::BuildDate.get_from_buffer(buffer)
}

/// Returns the application-specific string, if the buffer holds it.
pub fn custom(buffer: &[u8; BUFFER_SIZE]) -> (r: Option<&str>)
    requires
        decodes_cleanly(buffer@, Member::Custom.spec_index() as int),
    ensures
        Decoded::Ok(opt_str_bytes(r)) == decode_spec(buffer@, Member::Custom.spec_index() as int),
{
    Member::Custom.get_from_buffer(buffer)
}

} // verus!
