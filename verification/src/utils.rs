//! Small helpers shared by the scanner and the resolver.

use vstd::prelude::*;
use vstd::string::*;

verus! {

/// Name under which this program introduces itself to remote services.
pub const PACKAGE_NAME: &'static str = "ria";

/// Version announced together with [`PACKAGE_NAME`].
pub const PACKAGE_VERSION: &'static str = "0.1.0";

/// Contact address appended to the user agent.
pub const PACKAGE_CONTACT: &'static str = " (https://github.com/jeremyandrews/ria)";

/// Whether a directory entry of this name is skipped by the scanner: its name
/// begins with a dot.
pub open spec fn hidden_name(name: Seq<char>) -> bool {
    name.len() > 0 && name[0] == '.'
}

/// Skip files and directories that start with ".".
pub fn is_hidden(name: &str) -> (hidden: bool)
    ensures
        hidden == hidden_name(name@),
{
    if name.is_empty() {
        false
    } else {
        name.get_char(0) == '.'
    }
}

/// The text of the user agent: name, a slash, version, and the contact address.
pub open spec fn user_agent_text() -> Seq<char> {
    PACKAGE_NAME@ + seq!['/'] + PACKAGE_VERSION@ + PACKAGE_CONTACT@
}

/// Builds the user agent from the package name and version.
pub fn build_user_agent() -> (agent: String)
    ensures
        agent@ == user_agent_text(),
{
    let mut agent = String::from_str(PACKAGE_NAME);
    agent.append("/");
    agent.append(PACKAGE_VERSION);
    agent.append(PACKAGE_CONTACT);
    proof {
        reveal_strlit("/");
    }
    agent
}

} // verus!
