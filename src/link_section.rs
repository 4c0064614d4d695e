//! Choosing which members go into a version section, and building its bytes.

use vstd::prelude::*;

use crate::codec::{
    build_section_buffer, encoded_len, is_encoding, valid_buffer_size, BUFFER_SIZE, MEMBER_COUNT,
};
use crate::error::Error;

verus! {

/// Builder that selects the members of a version section.
///
/// The values themselves (source-control data, build time) are collected
/// elsewhere and handed to [`LinkSection::build_section_bytes`]; the builder
/// decides which of them are embedded.
#[must_use]
pub struct LinkSection {
    pub include_git_sha: bool,
    pub include_git_describe: bool,
    pub include_git_branch: bool,
    pub include_git_commit_timestamp: bool,
    pub include_git_commit_date: bool,
    pub include_git_commit_msg: bool,
    pub include_build_timestamp: bool,
    pub include_build_date: bool,
    pub fail_on_error: bool,
    pub custom: Option<String>,
    pub buffer_size: Option<usize>,
}

impl LinkSection {
    /// Whether the member at index `i` is selected.
    pub open spec fn includes_index(&self, i: int) -> bool {
        if i == 0 {
            self.include_git_sha
        } else if i == 1 {
            self.include_git_describe
        } else if i == 2 {
            self.include_git_branch
        } else if i == 3 {
            self.include_git_commit_timestamp
        } else if i == 4 {
            self.include_git_commit_date
        } else if i == 5 {
            self.include_git_commit_msg
        } else if i == 6 {
            self.include_build_timestamp
        } else if i == 7 {
            self.include_build_date
        } else if i == 8 {
            self.custom is Some
        } else {
            false
        }
    }

    /// Some source-control member is selected.
    pub open spec fn spec_any_git_enabled(&self) -> bool {
        self.include_git_sha || self.include_git_describe || self.include_git_branch
            || self.include_git_commit_timestamp || self.include_git_commit_date
            || self.include_git_commit_msg
    }

    /// Some build-time member is selected.
    pub open spec fn spec_any_build_time_enabled(&self) -> bool {
        self.include_build_timestamp || self.include_build_date
    }

    /// Some member at all is selected.
    pub open spec fn any_enabled(&self) -> bool {
        self.spec_any_git_enabled() || self.spec_any_build_time_enabled() || self.custom is Some
    }

    /// The member data to embed: each collected value whose member is
    /// selected, and the custom string in its own slot.
    pub open spec fn selected(&self, collected: Seq<Option<String>>) -> Seq<Option<String>> {
        Seq::new(
            MEMBER_COUNT as nat,
            |i: int|
                if i == MEMBER_COUNT - 1 {
                    self.custom
                } else if self.includes_index(i) {
                    collected[i]
                } else {
                    None
                },
        )
    }

    /// The buffer size used: the one set on the builder, else the one given
    /// by the environment, else the default.
    pub open spec fn spec_effective_buffer_size(&self, env_buffer_size: Option<usize>) -> usize {
        match self.buffer_size {
            Some(n) => n,
            None => match env_buffer_size {
                Some(n) => n,
                None => BUFFER_SIZE,
            },
        }
    }

    /// Creates a builder with nothing selected.
    pub fn new() -> (r: Self)
        ensures
            !r.any_enabled(),
            !r.fail_on_error,
            r.buffer_size is None,
    {
        LinkSection {
            include_git_sha: false,
            include_git_describe: false,
            include_git_branch: false,
            include_git_commit_timestamp: false,
            include_git_commit_date: false,
            include_git_commit_msg: false,
            include_build_timestamp: false,
            include_build_date: false,
            fail_on_error: false,
            custom: None,
            buffer_size: None,
        }
    }

    /// Selects the source-control revision id.
    pub fn with_git_sha(self) -> (r: Self)
        ensures
            r == (LinkSection { include_git_sha: true, ..self }),
    {
        LinkSection { include_git_sha: true, ..self }
    }

    /// Selects the descriptive tag of the revision.
    pub fn with_git_describe(self) -> (r: Self)
        ensures
            r == (LinkSection { include_git_describe: true, ..self }),
    {
        LinkSection { include_git_describe: true, ..self }
    }

    /// Selects the branch name.
    pub fn with_git_branch(self) -> (r: Self)
        ensures
            r == (LinkSection { include_git_branch: true, ..self }),
    {
        LinkSection { include_git_branch: true, ..self }
    }

    /// Selects the commit timestamp (RFC 3339).
    pub fn with_git_commit_timestamp(self) -> (r: Self)
        ensures
            r == (LinkSection { include_git_commit_timestamp: true, ..self }),
    {
        LinkSection { include_git_commit_timestamp: true, ..self }
    }

    /// Selects the commit date (YYYY-MM-DD).
    pub fn with_git_commit_date(self) -> (r: Self)
        ensures
            r == (LinkSection { include_git_commit_date: true, ..self }),
    {
        LinkSection { include_git_commit_date: true, ..self }
    }

    /// Selects the first line of the commit message.
    pub fn with_git_commit_msg(self) -> (r: Self)
        ensures
            r == (LinkSection { include_git_commit_msg: true, ..self }),
    {
        LinkSection { include_git_commit_msg: true, ..self }
    }

    /// Selects every source-control member.
    pub fn with_all_git(self) -> (r: Self)
        ensures
            r == (LinkSection {
                include_git_sha: true,
                include_git_describe: true,
                include_git_branch: true,
                include_git_commit_timestamp: true,
                include_git_commit_date: true,
                include_git_commit_msg: true,
                ..self
            }),
    {
        LinkSection {
            include_git_sha: true,
            include_git_describe: true,
            include_git_branch: true,
            include_git_commit_timestamp: true,
            include_git_commit_date: true,
            include_git_commit_msg: true,
            ..self
        }
    }

    /// Selects the build timestamp (RFC 3339, UTC).
    pub fn with_build_timestamp(self) -> (r: Self)
        ensures
            r == (LinkSection { include_build_timestamp: true, ..self }),
    {
        LinkSection { include_build_timestamp: true, ..self }
    }

    /// Selects the build date (YYYY-MM-DD, UTC).
    pub fn with_build_date(self) -> (r: Self)
        ensures
            r == (LinkSection { include_build_date: true, ..self }),
    {
        LinkSection { include_build_date: true, ..self }
    }

    /// Selects both build-time members.
    pub fn with_all_build_time(self) -> (r: Self)
        ensures
            r == (LinkSection { include_build_timestamp: true, include_build_date: true, ..self }),
    {
        LinkSection { include_build_timestamp: true, include_build_date: true, ..self }
    }

    /// Makes failures to collect source-control data fatal instead of
    /// skipping the member with a warning.
    pub fn fail_on_error(self) -> (r: Self)
        ensures
            r == (LinkSection { fail_on_error: true, ..self }),
    {
        LinkSection { fail_on_error: true, ..self }
    }

    /// Sets the application-specific string.
    pub fn with_custom(self, s: &str) -> (r: Self)
        ensures
            r.custom matches Some(c) && c@ == s@,
            r == (LinkSection { custom: r.custom, ..self }),
    {
        LinkSection { custom: Some(String::from_str(s)), ..self }
    }

    /// Sets the buffer size, which must match the size of the section in the
    /// binary.
    pub fn with_buffer_size(self, size: usize) -> (r: Self)
        ensures
            r == (LinkSection { buffer_size: Some(size), ..self }),
    {
        LinkSection { buffer_size: Some(size), ..self }
    }

    /// Whether the member at index `i` is selected.
    pub fn wants(&self, i: usize) -> (r: bool)
        ensures
            r == self.includes_index(i as int),
    {
        if i == 0 {
            self.include_git_sha
        } else if i == 1 {
            self.include_git_describe
        } else if i == 2 {
            self.include_git_branch
        } else if i == 3 {
            self.include_git_commit_timestamp
        } else if i == 4 {
            self.include_git_commit_date
        } else if i == 5 {
            self.include_git_commit_msg
        } else if i == 6 {
            self.include_build_timestamp
        } else if i == 7 {
            self.include_build_date
        } else if i == 8 {
            self.custom.is_some()
        } else {
            false
        }
    }

    /// Whether any source-control member is selected.
    pub fn any_git_enabled(&self) -> (r: bool)
        ensures
            r == self.spec_any_git_enabled(),
    {
        self.include_git_sha || self.include_git_describe || self.include_git_branch
            || self.include_git_commit_timestamp || self.include_git_commit_date
            || self.include_git_commit_msg
    }

    /// Whether any build-time member is selected.
    pub fn any_build_time_enabled(&self) -> (r: bool)
        ensures
            r == self.spec_any_build_time_enabled(),
    {
        self.include_build_timestamp || self.include_build_date
    }

    /// Checks that some member is selected.
    pub fn check_enabled(&self) -> (r: Result<(), Error>)
        ensures
            r is Ok <==> self.any_enabled(),
            r matches Err(e) ==> e == Error::NothingEnabled,
    {
        if !self.any_git_enabled() && !self.any_build_time_enabled() && self.custom.is_none() {
            Err(Error::NothingEnabled)
        } else {
            Ok(())
        }
    }

    /// The buffer size used: the one set on the builder, else
    /// `env_buffer_size` (read from the environment by the caller), else the
    /// default.
    pub fn effective_buffer_size(&self, env_buffer_size: Option<usize>) -> (r: usize)
        ensures
            r == self.spec_effective_buffer_size(env_buffer_size),
    {
        match self.buffer_size {
            Some(n) => n,
            None => match env_buffer_size {
                Some(n) => n,
                None => BUFFER_SIZE,
            },
        }
    }

    /// The value for slot `i`: the collected one when its member is selected.
    fn pick(&self, i: usize, value: &Option<String>) -> (r: Option<String>)
        ensures
            r == (if self.includes_index(i as int) {
                *value
            } else {
                None
            }),
    {
        if self.wants(i) {
            clone_opt(value)
        } else {
            None
        }
    }

    /// Builds the section bytes from the collected member values.
    ///
    /// `collected[i]` is the value gathered for member `i` (the custom slot is
    /// taken from the builder); only selected members are embedded. Fails when
    /// nothing is selected, when the buffer size is outside the format's range,
    /// and when the data does not fit.
    pub fn build_section_bytes(
        self,
        collected: &[Option<String>; MEMBER_COUNT],
        env_buffer_size: Option<usize>,
    ) -> (r: Result<Vec<u8>, Error>)
        ensures
            !self.any_enabled() ==> r == Err::<Vec<u8>, Error>(Error::NothingEnabled),
            ({
                let size = self.spec_effective_buffer_size(env_buffer_size);
                let data = self.selected(collected@);
                &&& self.any_enabled() && !valid_buffer_size(size as int) ==> r == Err::<
                    Vec<u8>,
                    Error,
                >(Error::InvalidBufferSize { size })
                &&& self.any_enabled() && valid_buffer_size(size as int) ==> (r is Ok <==> encoded_len(
                    data,
                ) <= size)
                &&& r matches Ok(b) ==> is_encoding(b@, data, size as int)
                &&& r matches Err(Error::SectionTooLarge { needed, max }) ==> max == size && size
                    < needed <= encoded_len(data)
            }),
    {
        self.check_enabled()?;
        let size = self.effective_buffer_size(env_buffer_size);
        if size <= 32 || size > 65535 {
            return Err(Error::InvalidBufferSize { size });
        }
        let member_data: [Option<String>; MEMBER_COUNT] = [
            self.pick(0, &collected[0]),
            self.pick(1, &collected[1]),
            self.pick(2, &collected[2]),
            self.pick(3, &collected[3]),
            self.pick(4, &collected[4]),
            self.pick(5, &collected[5]),
            self.pick(6, &collected[6]),
            self.pick(7, &collected[7]),
            clone_opt(&self.custom),
        ];
        assert(member_data@ =~= self.selected(collected@));
        match build_section_buffer(&member_data, size) {
            Ok(b) => Ok(b),
            Err(e) => Err(Error::SectionTooLarge { needed: e.needed, max: e.max }),
        }
    }
}

/// A copy of an optional string.
fn clone_opt(v: &Option<String>) -> (r: Option<String>)
    ensures
        r == *v,
{
    match v {
        Some(s) => Some(s.clone()),
        None => None,
    }
}

} // verus!
