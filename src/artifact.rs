//! Names of the environment variables under which the build tool announces
//! an artifact dependency's binary.

use heck::ToShoutySnakeCase;
use vstd::prelude::*;

use vstd::string::StringExecFns;

verus! {

/// What heck's upper snake case makes of `s`.
pub uninterp spec fn shouty_snake_of(s: Seq<char>) -> Seq<char>;

/// Relies on heck's `ToShoutySnakeCase::to_shouty_snake_case` for `str`
/// (`my-dep` becomes `MY_DEP`); its result depends on the characters alone.
#[verifier::external_body]
fn shouty_snake(s: &str) -> (r: String)
    ensures
        r@ == shouty_snake_of(s@),
{
    s.to_shouty_snake_case()
}

/// `CARGO_BIN_FILE_`
pub open spec fn file_var_prefix() -> Seq<char> {
    seq!['C', 'A', 'R', 'G', 'O', '_', 'B', 'I', 'N', '_', 'F', 'I', 'L', 'E', '_']
}

/// `CARGO_BIN_DIR_`
pub open spec fn dir_var_prefix() -> Seq<char> {
    seq!['C', 'A', 'R', 'G', 'O', '_', 'B', 'I', 'N', '_', 'D', 'I', 'R', '_']
}

/// The variables that may locate binary `bin` of artifact dependency `dep`,
/// in the order they are tried.
pub struct ArtifactEnvVars {
    /// `CARGO_BIN_FILE_<DEP>_<bin>`: the named binary.
    pub file: String,
    /// `CARGO_BIN_FILE_<DEP>`: the dependency's default binary.
    pub default_file: String,
    /// `CARGO_BIN_DIR_<DEP>`: the directory holding the binaries.
    pub dir: String,
}

/// Names the variables for binary `bin_name` of dependency `dep_name`: the
/// dependency in upper snake case, the binary name as given.
pub fn artifact_env_vars(dep_name: &str, bin_name: &str) -> (r: ArtifactEnvVars)
    ensures
        r.file@ == file_var_prefix() + shouty_snake_of(dep_name@) + seq!['_'] + bin_name@,
        r.default_file@ == file_var_prefix() + shouty_snake_of(dep_name@),
        r.dir@ == dir_var_prefix() + shouty_snake_of(dep_name@),
{
    let dep_upper = shouty_snake(dep_name);
    let mut default_file = String::from_str("CARGO_BIN_FILE_");
    default_file.append(dep_upper.as_str());
    let mut file = String::from_str("CARGO_BIN_FILE_");
    file.append(dep_upper.as_str());
    file.append("_");
    file.append(bin_name);
    let mut dir = String::from_str("CARGO_BIN_DIR_");
    dir.append(dep_upper.as_str());
    proof {
        reveal_strlit("CARGO_BIN_FILE_");
        reveal_strlit("CARGO_BIN_DIR_");
        reveal_strlit("_");
    }
    assert(file@ =~= file_var_prefix() + shouty_snake_of(dep_name@) + seq!['_'] + bin_name@);
    assert(default_file@ =~= file_var_prefix() + shouty_snake_of(dep_name@));
    assert(dir@ =~= dir_var_prefix() + shouty_snake_of(dep_name@));
    ArtifactEnvVars { file, default_file, dir }
}

} // verus!
