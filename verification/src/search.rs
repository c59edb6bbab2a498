//! Registry search results and the texts shown for them.

use vstd::prelude::*;
use vstd::string::StringExecFns;

verus! {

/// One flake found by a registry search.
pub struct SearchResult {
    pub org: String,
    pub project: String,
    pub description: Option<String>,
    pub tags: Option<Vec<String>>,
}

impl SearchResult {
    /// The result's display name, `org/project`.
    pub fn name(&self) -> (r: String)
        ensures
            r@ == self.org@ + "/"@ + self.project@,
    {
        let mut s = String::new();
        s.append(self.org.as_str());
        s.append("/");
        s.append(self.project.as_str());
        proof {
            assert(s@ =~= self.org@ + "/"@ + self.project@);
        }
        s
    }

    /// The web address of the result's flake page on the given host.
    pub fn url(&self, host: &str) -> (r: String)
        ensures
            r@ == host@ + "/flake/"@ + self.org@ + "/"@ + self.project@,
    {
        let mut s = String::new();
        s.append(host);
        s.append("/flake/");
        s.append(self.org.as_str());
        s.append("/");
        s.append(self.project.as_str());
        proof {
            assert(s@ =~= host@ + "/flake/"@ + self.org@ + "/"@ + self.project@);
        }
        s
    }
}

} // verus!
