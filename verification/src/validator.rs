//! The validator's command-line face: its banner and usage text. Argument
//! parsing and command dispatch stay with the embedding program.

use vstd::prelude::*;
use vstd::string::StringExecFns;

verus! {

/// Everything of the banner that comes before the version.
pub open spec fn banner_head() -> Seq<char> {
    "\n\n      _ __  _   _ _ __ ___\n     | '_ \\| | | | '_ \\ _ \\\n     | | | | |_| | | | | | |\n     |_| |_|\\__, |_| |_| |_|\n            |___/\n\n             (validator - version "@
}

/// Everything of the banner that comes after the version.
pub open spec fn banner_tail() -> Seq<char> {
    ")\n\n    "@
}

/// The whole banner for a given version string.
pub open spec fn banner_spec(version: Seq<char>) -> Seq<char> {
    banner_head() + version + banner_tail()
}

/// The startup banner, with the build's version filled in.
pub fn banner(version: &str) -> (r: String)
    ensures
        r@ == banner_spec(version@),
{
    let mut s = String::from_str(
        "\n\n      _ __  _   _ _ __ ___\n     | '_ \\| | | | '_ \\ _ \\\n     | | | | |_| | | | | | |\n     |_| |_|\\__, |_| |_| |_|\n            |___/\n\n             (validator - version ",
    );
    s.append(version);
    s.append(")\n\n    ");
    s
}

/// The trailing line of the usage text.
pub open spec fn usage_tail() -> Seq<char> {
    "usage: --help to see available options.\n\n"@
}

/// What is printed when no known command was given: the banner followed by a
/// pointer to `--help`.
pub fn usage(version: &str) -> (r: String)
    ensures
        r@ == banner_spec(version@) + usage_tail(),
{
    let mut s = banner(version);
    s.append("usage: --help to see available options.\n\n");
    s
}

} // verus!
