//! Embeds small, versioned metadata strings into a binary's reserved data
//! section and reads them back.
//!
//! The library has these parts:
//! - `codec`: the fixed-size section buffer format, its encoder and decoder,
//!   and the laws relating them; `fields` reads each member by name;
//! - `report`: recognition of an object-dump report and lookup of a named
//!   section's size and writability in it, over the byte operations of `text`;
//! - `link_section` and `patch`: the builders that choose which members to
//!   embed, and the decisions taken when a binary is patched;
//! - `commit_msg` and `artifact`: shortening a commit message, and naming the
//!   variables that locate an artifact dependency's binary;
//! - `error`: the error type of building and patching.
//!
//! Running external tools, reading files, the environment and the clock are
//! left to the caller, which hands the library plain values.

pub mod artifact;
pub mod codec;
pub mod commit_msg;
pub mod error;
pub mod fields;
pub mod link_section;
pub mod patch;
pub mod report;
pub mod text;

pub use codec::{
    build_section_buffer, header_size, Member, SectionError, SectionTooLarge, BUFFER_SIZE,
    MEMBER_COUNT,
};
pub use error::Error;
pub use link_section::LinkSection;
pub use patch::{LlvmTools, PatchPlan, UpdateSectionCommand};
pub use report::{BinaryFormat, ReportError, SectionInfo};
pub use fields::{
    build_date, build_timestamp, custom, git_branch, git_commit_date, git_commit_msg,
    git_commit_timestamp, git_describe, git_sha,
};
