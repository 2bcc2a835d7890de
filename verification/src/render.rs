//! The placeholder substitutor: expands `{current_version}` and
//! `{new_version}` tokens into literal version text.

use vstd::prelude::*;

use crate::text::replace_all;
use crate::text::spec_replace_all;
use crate::version::version_text;
use crate::version::Version;

verus! {

/// Holds the two versions whose text replaces the placeholder tokens.
pub struct Placeholders {
    pub current_version: Version,
    pub new_version: Version,
}

/// The literal token that expands to the current version's text.
pub open spec fn current_token() -> Seq<char> {
    "{current_version}"@
}

/// The literal token that expands to the new version's text.
pub open spec fn new_token() -> Seq<char> {
    "{new_version}"@
}

/// A template with both tokens expanded: every `{current_version}` becomes
/// `cur`, then every `{new_version}` becomes `newv`. Expansion is textual
/// and not recursive.
pub open spec fn spec_render(template: Seq<char>, cur: Seq<char>, newv: Seq<char>) -> Seq<char> {
    spec_replace_all(spec_replace_all(template, current_token(), cur), new_token(), newv)
}

impl Placeholders {
    pub open spec fn wf(self) -> bool {
        self.current_version@.wf() && self.new_version@.wf()
    }

    /// The text of the current version, as substituted for its token.
    pub open spec fn current_text(self) -> Seq<char> {
        version_text(self.current_version@)
    }

    /// The text of the new version, as substituted for its token.
    pub open spec fn new_text(self) -> Seq<char> {
        version_text(self.new_version@)
    }

    /// Expands every placeholder token in `s`.
    pub fn replace(&self, s: &str) -> (r: String)
        ensures
            r@ == spec_render(s@, self.current_text(), self.new_text()),
    {
        let cur = self.current_version.to_version_string();
        let newv = self.new_version.to_version_string();
        proof {
            reveal_strlit("{current_version}");
            reveal_strlit("{new_version}");
        }
        let r1 = replace_all(s, "{current_version}", cur.as_str());
        let r2 = replace_all(r1.as_str(), "{new_version}", newv.as_str());
        r2
    }
}

} // verus!
