//! The table of subcommands that change their name when a command moves
//! between npm and one of the other package managers.

use crate::manager::PackageManager;
use crate::text::{copy_chars, same_chars, to_chars};
use vstd::prelude::*;

verus! {

/// One line of the table: a subcommand of the source and what stands for it
/// at the target.
pub struct Mapping {
    pub subcommand: Vec<char>,
    pub replacement: Vec<char>,
}

/// The lines of a table as plain values.
pub open spec fn lines(v: Seq<Mapping>) -> Seq<(Seq<char>, Seq<char>)> {
    Seq::new(v.len(), |i: int| (v[i].subcommand@, v[i].replacement@))
}

/// The table for commands of one manager. For npm it says what each
/// subcommand is called by the others; for each of the others, what it is
/// called by npm.
pub open spec fn standard_rules(m: PackageManager) -> Seq<(Seq<char>, Seq<char>)> {
    match m {
        PackageManager::Npm => seq![
            ("install"@, "add"@),
            ("i"@, "add"@),
            ("uninstall"@, "remove"@),
            ("run"@, "run"@),
            ("start"@, "start"@),
            ("test"@, "test"@),
            ("build"@, "build"@),
        ],
        _ => seq![
            ("add"@, "install"@),
            ("remove"@, "uninstall"@),
            ("run"@, "run"@),
            ("start"@, "start"@),
            ("test"@, "test"@),
            ("build"@, "build"@),
        ],
    }
}

/// What the lines from position `k` on give for a subcommand: the
/// replacement of the first line that names it, and the subcommand itself
/// where no line does.
pub open spec fn replacement_from(
    rules: Seq<(Seq<char>, Seq<char>)>,
    k: int,
    subcommand: Seq<char>,
) -> Seq<char>
    decreases rules.len() - k,
{
    if k < 0 || k >= rules.len() {
        subcommand
    } else if rules[k].0 == subcommand {
        rules[k].1
    } else {
        replacement_from(rules, k + 1, subcommand)
    }
}

/// What a table gives for a subcommand. The lookup is total: a subcommand
/// that the table does not name stands for itself.
pub open spec fn replacement(rules: Seq<(Seq<char>, Seq<char>)>, subcommand: Seq<char>) -> Seq<
    char,
> {
    replacement_from(rules, 0, subcommand)
}

/// The tables of all four managers. A value of this type always holds the
/// standard tables.
pub struct TranslationMappings {
    npm: Vec<Mapping>,
    pnpm: Vec<Mapping>,
    yarn: Vec<Mapping>,
    bun: Vec<Mapping>,
}

impl TranslationMappings {
    /// The lines that the table holds for a manager.
    pub closed spec fn rules(self, m: PackageManager) -> Seq<(Seq<char>, Seq<char>)> {
        match m {
            PackageManager::Npm => lines(self.npm@),
            PackageManager::Pnpm => lines(self.pnpm@),
            PackageManager::Yarn => lines(self.yarn@),
            PackageManager::Bun => lines(self.bun@),
        }
    }

    #[verifier::type_invariant]
    spec fn holds_standard_rules(self) -> bool {
        forall|m: PackageManager| self.rules(m) == standard_rules(m)
    }

    /// What the table gives for a subcommand of the manager `from`.
    pub fn lookup(&self, from: PackageManager, subcommand: &Vec<char>) -> (r: Vec<char>)
        ensures
            r@ == replacement(standard_rules(from), subcommand@),
    {
        proof {
            use_type_invariant(self);
            assert(self.rules(from) == standard_rules(from));
        }
        let table = match from {
            PackageManager::Npm => &self.npm,
            PackageManager::Pnpm => &self.pnpm,
            PackageManager::Yarn => &self.yarn,
            PackageManager::Bun => &self.bun,
        };
        let ghost rules = lines(table@);
        assert(rules == standard_rules(from));
        let mut k: usize = 0;
        while k < table.len()
            invariant
                k <= table.len(),
                rules == lines(table@),
                rules == standard_rules(from),
                replacement_from(rules, k as int, subcommand@) == replacement(rules, subcommand@),
            decreases table.len() - k,
        {
            if same_chars(&table[k].subcommand, subcommand) {
                return copy_chars(&table[k].replacement);
            }
            k += 1;
        }
        copy_chars(subcommand)
    }
}

fn line(subcommand: &str, replacement: &str) -> (r: Mapping)
    ensures
        r.subcommand@ == subcommand@,
        r.replacement@ == replacement@,
{
    Mapping { subcommand: to_chars(subcommand), replacement: to_chars(replacement) }
}

fn rules_toward_npm() -> (r: Vec<Mapping>)
    ensures
        lines(r@) == standard_rules(PackageManager::Pnpm),
{
    let mut r: Vec<Mapping> = Vec::new();
    r.push(line("add", "install"));
    r.push(line("remove", "uninstall"));
    r.push(line("run", "run"));
    r.push(line("start", "start"));
    r.push(line("test", "test"));
    r.push(line("build", "build"));
    assert(lines(r@) =~= standard_rules(PackageManager::Pnpm));
    r
}

fn rules_from_npm() -> (r: Vec<Mapping>)
    ensures
        lines(r@) == standard_rules(PackageManager::Npm),
{
    let mut r: Vec<Mapping> = Vec::new();
    r.push(line("install", "add"));
    r.push(line("i", "add"));
    r.push(line("uninstall", "remove"));
    r.push(line("run", "run"));
    r.push(line("start", "start"));
    r.push(line("test", "test"));
    r.push(line("build", "build"));
    assert(lines(r@) =~= standard_rules(PackageManager::Npm));
    r
}

/// Builds the tables of all four managers.
pub fn create_translation_mappings() -> (r: TranslationMappings)
    ensures
        forall|m: PackageManager| r.rules(m) == standard_rules(m),
{
    TranslationMappings {
        npm: rules_from_npm(),
        pnpm: rules_toward_npm(),
        yarn: rules_toward_npm(),
        bun: rules_toward_npm(),
    }
}

} // verus!
