//! Links into the project's repository, and what a file dialog was opened for.
use vstd::prelude::*;
use vstd::string::*;

verus! {

/// What the file dialog was opened for.
#[derive(Clone, Copy, Debug, PartialEq, Eq, Structural)]
pub enum FileDialogAction {
    Open,
    SaveAs,
}

/// Links into a GitHub repository.
#[derive(Clone, Debug)]
pub struct GithubUrls {
    /// The repository's URL, without a trailing slash.
    pub repository: String,
}

impl GithubUrls {
    /// The links of the repository at `repository`.
    pub fn new(repository: String) -> (r: Self)
        ensures
            r.repository@ == repository@,
    {
        GithubUrls { repository }
    }

    fn with_suffix(&self, suffix: &str) -> (r: String)
        ensures
            r@ == self.repository@ + suffix@,
    {
        let mut url = String::from_str(self.repository.as_str());
        url.append(suffix);
        url
    }

    /// The license file on the main branch.
    pub fn license(&self) -> (r: String)
        ensures
            r@ == self.repository@ + "/blob/main/LICENSE"@,
    {
        self.with_suffix("/blob/main/LICENSE")
    }

    /// The issue tracker.
    pub fn issues(&self) -> (r: String)
        ensures
            r@ == self.repository@ + "/issues"@,
    {
        self.with_suffix("/issues")
    }

    /// The documentation directory on the main branch.
    pub fn documentation(&self) -> (r: String)
        ensures
            r@ == self.repository@ + "/blob/main/doc"@,
    {
        self.with_suffix("/blob/main/doc")
    }

    /// The releases page.
    pub fn release_notes(&self) -> (r: String)
        ensures
            r@ == self.repository@ + "/releases"@,
    {
        self.with_suffix("/releases")
    }

    /// The page of the commit `hash`.
    pub fn commit(&self, hash: &str) -> (r: String)
        ensures
            r@ == self.repository@ + "/commit/"@ + hash@,
    {
        let mut url = self.with_suffix("/commit/");
        url.append(hash);
        url
    }

    /// The tree of the branch `branch`.
    pub fn branch(&self, branch: &str) -> (r: String)
        ensures
            r@ == self.repository@ + "/tree/"@ + branch@,
    {
        let mut url = self.with_suffix("/tree/");
        url.append(branch);
        url
    }
}

} // verus!
