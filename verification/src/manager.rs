//! The package managers that commands are translated between.

use crate::text::{same_chars, to_chars};
use vstd::prelude::*;

verus! {

/// A package manager. The set is closed: a name outside it stands for no
/// manager at all.
#[derive(Clone, Copy, Debug, PartialEq, Eq, Structural)]
pub enum PackageManager {
    Npm,
    Pnpm,
    Yarn,
    Bun,
}

impl PackageManager {
    /// The manager's name, which is also the verb that its commands start
    /// with.
    pub open spec fn name_chars(self) -> Seq<char> {
        match self {
            PackageManager::Npm => "npm"@,
            PackageManager::Pnpm => "pnpm"@,
            PackageManager::Yarn => "yarn"@,
            PackageManager::Bun => "bun"@,
        }
    }

    /// What a command starts with when it asks this manager to run a package
    /// without installing it, the separating space included.
    pub open spec fn runner_chars(self) -> Seq<char> {
        match self {
            PackageManager::Npm => "npx "@,
            PackageManager::Pnpm => "pnpx "@,
            PackageManager::Yarn => "yarn dlx "@,
            PackageManager::Bun => "bunx "@,
        }
    }

    /// The manager that bears a name, if any does.
    pub open spec fn named(name: Seq<char>) -> Option<PackageManager> {
        if name == "npm"@ {
            Some(PackageManager::Npm)
        } else if name == "pnpm"@ {
            Some(PackageManager::Pnpm)
        } else if name == "yarn"@ {
            Some(PackageManager::Yarn)
        } else if name == "bun"@ {
            Some(PackageManager::Bun)
        } else {
            None
        }
    }

    /// The manager's name.
    pub fn name(self) -> (r: &'static str)
        ensures
            r@ == self.name_chars(),
    {
        match self {
            PackageManager::Npm => "npm",
            PackageManager::Pnpm => "pnpm",
            PackageManager::Yarn => "yarn",
            PackageManager::Bun => "bun",
        }
    }

    /// The start of the manager's runner commands.
    pub fn runner(self) -> (r: &'static str)
        ensures
            r@ == self.runner_chars(),
    {
        match self {
            PackageManager::Npm => "npx ",
            PackageManager::Pnpm => "pnpx ",
            PackageManager::Yarn => "yarn dlx ",
            PackageManager::Bun => "bunx ",
        }
    }

    /// The manager that bears the given characters as its name.
    pub fn from_chars(name: &Vec<char>) -> (r: Option<PackageManager>)
        ensures
            r == Self::named(name@),
    {
        if same_chars(name, &to_chars("npm")) {
            Some(PackageManager::Npm)
        } else if same_chars(name, &to_chars("pnpm")) {
            Some(PackageManager::Pnpm)
        } else if same_chars(name, &to_chars("yarn")) {
            Some(PackageManager::Yarn)
        } else if same_chars(name, &to_chars("bun")) {
            Some(PackageManager::Bun)
        } else {
            None
        }
    }

    /// The manager that bears the given name; `None` for any other text.
    pub fn from_name(name: &str) -> (r: Option<PackageManager>)
        ensures
            r == Self::named(name@),
    {
        Self::from_chars(&to_chars(name))
    }
}

/// Every manager is found again by its name, so no two managers share one.
pub proof fn lemma_named_by_own_name(m: PackageManager)
    ensures
        PackageManager::named(m.name_chars()) == Some(m),
{
    reveal_strlit("npm");
    reveal_strlit("pnpm");
    reveal_strlit("yarn");
    reveal_strlit("bun");
    assert("npm"@.len() == 3);
    assert("pnpm"@.len() == 4);
    assert("bun"@.len() == 3);
    assert("yarn"@.len() == 4);
    assert("npm"@[0] == 'n');
    assert("bun"@[0] == 'b');
    assert("pnpm"@[0] == 'p');
    assert("yarn"@[0] == 'y');
}

/// A name belongs to the manager that `named` gives for it, and to no other.
pub proof fn lemma_named_is_name(name: Seq<char>, m: PackageManager)
    ensures
        PackageManager::named(name) == Some(m) <==> name == m.name_chars(),
{
    lemma_named_by_own_name(m);
}

} // verus!
