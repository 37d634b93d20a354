//! The translation engine: decides whether a line of text is a command of
//! one package manager and, if so, how another package manager says it.

use crate::manager::{lemma_named_by_own_name, PackageManager};
use crate::mappings::{replacement, standard_rules, TranslationMappings};
use crate::text::{
    append_chars, contains, copy_chars, from_chars, has_prefix, has_substring, join_from, joined,
    remove_all, same_chars, slice_chars, split_whitespace, starts_with, to_chars, tokens, trim,
    trimmed, views, without,
};
use vstd::prelude::*;

verus! {

/// The text of an optional string.
pub open spec fn text_of(r: Option<String>) -> Option<Seq<char>> {
    match r {
        Some(s) => Some(s@),
        None => None,
    }
}

/// The text of an optional list of characters.
pub open spec fn chars_of(r: Option<Vec<char>>) -> Option<Seq<char>> {
    match r {
        Some(s) => Some(s@),
        None => None,
    }
}

/// Nothing for empty arguments; else a space and the arguments.
pub open spec fn spaced(args: Seq<char>) -> Seq<char> {
    if args.len() == 0 {
        args
    } else {
        " "@ + args
    }
}

/// What runner commands start with at the target. A target that is no
/// package manager gets npm's form.
pub open spec fn runner_prefix(pm: Seq<char>) -> Seq<char> {
    match PackageManager::named(pm) {
        Some(m) => m.runner_chars(),
        None => "npx "@,
    }
}

/// The target's runner command for the given arguments.
pub open spec fn runner_command(pm: Seq<char>, args: Seq<char>) -> Seq<char> {
    runner_prefix(pm) + args
}

/// The starts of runner commands, each with the package manager that owns
/// it, in the order in which a command is held against them.
pub open spec fn runner_forms() -> Seq<(Seq<char>, PackageManager)> {
    seq![
        ("npx "@, PackageManager::Npm),
        ("pnpx "@, PackageManager::Pnpm),
        ("pnpm dlx "@, PackageManager::Pnpm),
        ("bunx "@, PackageManager::Bun),
        ("yarn dlx "@, PackageManager::Yarn),
    ]
}

/// The rewrite by the first runner form from position `k` on that the
/// command starts with and that another manager than the target owns: the
/// target's runner form, then the rest of the command as it stands.
pub open spec fn runner_rewrite_from(command: Seq<char>, target: Seq<char>, k: int) -> Option<
    Seq<char>,
>
    decreases runner_forms().len() - k,
{
    if k < 0 || k >= runner_forms().len() {
        None
    } else if has_prefix(command, runner_forms()[k].0) && target != runner_forms()[k].1.name_chars() {
        Some(runner_command(target, command.skip(runner_forms()[k].0.len() as int)))
    } else {
        runner_rewrite_from(command, target, k + 1)
    }
}

/// The rewrite of a runner command for the target, if the command is one
/// and is not the target's own.
pub open spec fn runner_rewrite(command: Seq<char>, target: Seq<char>) -> Option<Seq<char>> {
    runner_rewrite_from(command, target, 0)
}

/// The package managers in the order in which a command's verb is held
/// against their names.
pub open spec fn verbs() -> Seq<PackageManager> {
    seq![PackageManager::Npm, PackageManager::Pnpm, PackageManager::Yarn, PackageManager::Bun]
}

/// Whether both names are package managers and exactly one of them is npm.
pub open spec fn crosses_npm(from: Seq<char>, to: Seq<char>) -> bool {
    ||| from == "npm"@ && (to == "pnpm"@ || to == "yarn"@ || to == "bun"@)
    ||| (from == "pnpm"@ || from == "yarn"@ || from == "bun"@) && to == "npm"@
}

/// What the target calls a subcommand of the source.
pub open spec fn translated_subcommand(from: Seq<char>, to: Seq<char>, subcommand: Seq<char>) -> Seq<
    char,
> {
    if from == "npm"@ && (to == "pnpm"@ || to == "yarn"@ || to == "bun"@) {
        if subcommand == "install"@ || subcommand == "i"@ {
            "add"@
        } else if subcommand == "uninstall"@ {
            "remove"@
        } else {
            subcommand
        }
    } else if (from == "pnpm"@ || from == "yarn"@ || from == "bun"@) && to == "npm"@ {
        if subcommand == "add"@ {
            "install"@
        } else if subcommand == "remove"@ {
            "uninstall"@
        } else {
            subcommand
        }
    } else {
        subcommand
    }
}

/// Whether a subcommand of the source names a script of the user: yarn
/// runs any subcommand that is none of its own four as a script.
pub open spec fn is_yarn_script(from: Seq<char>, subcommand: Seq<char>) -> bool {
    &&& from == "yarn"@
    &&& subcommand != "add"@
    &&& subcommand != "remove"@
    &&& subcommand != "install"@
    &&& subcommand != "uninstall"@
}

/// Whether the arguments ask for a global install.
pub open spec fn has_global_flag(args: Seq<char>) -> bool {
    has_substring(args, "-g"@) || has_substring(args, "--global"@)
}

/// The arguments with the global flags taken out, the long one first, and
/// the white space around the rest removed.
pub open spec fn without_global_flag(args: Seq<char>) -> Seq<char> {
    trimmed(without(without(args, "--global"@), "-g"@))
}

/// The command at the target without regard to global flags.
pub open spec fn plain_form(to: Seq<char>, subcommand: Seq<char>, args: Seq<char>) -> Seq<char> {
    to + " "@ + subcommand + spaced(args)
}

/// The target's own way to install globally. A target that is no package
/// manager has none and gets the plain form, flags and all.
pub open spec fn global_form(to: Seq<char>, subcommand: Seq<char>, args: Seq<char>) -> Seq<char> {
    match PackageManager::named(to) {
        Some(PackageManager::Npm) => "npm install -g"@ + spaced(without_global_flag(args)),
        Some(PackageManager::Pnpm) => "pnpm add -g"@ + spaced(without_global_flag(args)),
        Some(PackageManager::Yarn) => "yarn global add"@ + spaced(without_global_flag(args)),
        Some(PackageManager::Bun) => "bun add -g"@ + spaced(without_global_flag(args)),
        None => plain_form(to, subcommand, args),
    }
}

/// The rewrite of a command of the source for the target: the second word
/// is the subcommand, the words after it are the arguments. A command of
/// fewer than two words has none.
pub open spec fn subcommand_rewrite(command: Seq<char>, from: Seq<char>, to: Seq<char>) -> Option<
    Seq<char>,
> {
    let parts = tokens(command);
    if parts.len() < 2 {
        None
    } else {
        let subcommand = parts[1];
        let args = joined(parts.skip(2));
        if is_yarn_script(from, subcommand) && to != "yarn"@ {
            Some(to + " run "@ + subcommand + spaced(args))
        } else if has_global_flag(args) {
            Some(global_form(to, translated_subcommand(from, to, subcommand), args))
        } else {
            Some(plain_form(to, translated_subcommand(from, to, subcommand), args))
        }
    }
}

/// The rewrite by the first package manager from position `k` on whose
/// name, followed by a space, the command starts with and that is not the
/// target.
pub open spec fn verb_rewrite_from(command: Seq<char>, target: Seq<char>, k: int) -> Option<
    Seq<char>,
>
    decreases verbs().len() - k,
{
    if k < 0 || k >= verbs().len() {
        None
    } else if has_prefix(command, verbs()[k].name_chars() + " "@) && target != verbs()[
        k
    ].name_chars() {
        subcommand_rewrite(command, verbs()[k].name_chars(), target)
    } else {
        verb_rewrite_from(command, target, k + 1)
    }
}

/// The rewrite of a package manager's command for the target, if the
/// command is one and is not the target's own.
pub open spec fn verb_rewrite(command: Seq<char>, target: Seq<char>) -> Option<Seq<char>> {
    verb_rewrite_from(command, target, 0)
}

/// The translation of a line of text for the target: the line is trimmed,
/// then read as a runner command, and only if that gives nothing as a
/// package manager's command.
pub open spec fn translation(command: Seq<char>, target: Seq<char>) -> Option<Seq<char>> {
    match runner_rewrite(trimmed(command), target) {
        Some(r) => Some(r),
        None => verb_rewrite(trimmed(command), target),
    }
}

/// In the standard tables a subcommand has the replacement that
/// `translated_subcommand` states, wherever a command moves between npm and
/// another package manager.
pub proof fn lemma_tables_state_the_rules(
    from: PackageManager,
    to: PackageManager,
    subcommand: Seq<char>,
)
    requires
        (from == PackageManager::Npm) != (to == PackageManager::Npm),
    ensures
        crosses_npm(from.name_chars(), to.name_chars()),
        replacement(standard_rules(from), subcommand) == translated_subcommand(
            from.name_chars(),
            to.name_chars(),
            subcommand,
        ),
{
    lemma_named_by_own_name(from);
    lemma_named_by_own_name(to);
    lemma_named_by_own_name(PackageManager::Npm);
    reveal_with_fuel(crate::mappings::replacement_from, 8);
}

fn is_text(s: &Vec<char>, word: &str) -> (r: bool)
    ensures
        r == (s@ == word@),
{
    same_chars(s, &to_chars(word))
}

fn append_text(head: &mut Vec<char>, tail: &str)
    ensures
        final(head)@ == old(head)@ + tail@,
{
    append_chars(head, &to_chars(tail));
}

fn append_spaced(head: &mut Vec<char>, args: &Vec<char>)
    ensures
        final(head)@ == old(head)@ + spaced(args@),
{
    if args.len() > 0 {
        let ghost before = head@;
        head.push(' ');
        append_chars(head, args);
        proof {
            reveal_strlit(" ");
            assert(" "@ =~= seq![' ']);
            assert(head@ =~= before + (" "@ + args@));
        }
    } else {
        assert(head@ + args@ =~= head@);
    }
}

fn into_text(r: Option<Vec<char>>) -> (s: Option<String>)
    ensures
        text_of(s) == chars_of(r),
{
    match r {
        Some(v) => Some(from_chars(&v)),
        None => None,
    }
}

fn runner_form(k: usize) -> (r: (&'static str, PackageManager))
    requires
        k < 5,
    ensures
        (r.0@, r.1) == runner_forms()[k as int],
{
    if k == 0 {
        ("npx ", PackageManager::Npm)
    } else if k == 1 {
        ("pnpx ", PackageManager::Pnpm)
    } else if k == 2 {
        ("pnpm dlx ", PackageManager::Pnpm)
    } else if k == 3 {
        ("bunx ", PackageManager::Bun)
    } else {
        ("yarn dlx ", PackageManager::Yarn)
    }
}

fn verb(k: usize) -> (r: PackageManager)
    requires
        k < 4,
    ensures
        r == verbs()[k as int],
{
    if k == 0 {
        PackageManager::Npm
    } else if k == 1 {
        PackageManager::Pnpm
    } else if k == 2 {
        PackageManager::Yarn
    } else {
        PackageManager::Bun
    }
}

fn runner_command_chars(pm: &Vec<char>, args: &Vec<char>) -> (r: Vec<char>)
    ensures
        r@ == runner_command(pm@, args@),
{
    let prefix = match PackageManager::from_chars(pm) {
        Some(m) => m.runner(),
        None => "npx ",
    };
    let mut r = to_chars(prefix);
    append_chars(&mut r, args);
    r
}

fn runners_chars(command: &Vec<char>, target: &Vec<char>) -> (r: Option<Vec<char>>)
    ensures
        chars_of(r) == runner_rewrite(command@, target@),
{
    let mut k: usize = 0;
    while k < 5
        invariant
            k <= 5,
            runner_forms().len() == 5,
            runner_rewrite_from(command@, target@, k as int) == runner_rewrite(command@, target@),
        decreases 5 - k,
    {
        let (prefix, owner) = runner_form(k);
        let p = to_chars(prefix);
        if starts_with(command, &p) && !is_text(target, owner.name()) {
            let args = slice_chars(command, p.len(), command.len());
            return Some(runner_command_chars(target, &args));
        }
        k += 1;
    }
    None
}

fn translate_subcommand(
    from: &Vec<char>,
    to: &Vec<char>,
    subcommand: &Vec<char>,
    translations: &TranslationMappings,
) -> (r: Vec<char>)
    ensures
        r@ == translated_subcommand(from@, to@, subcommand@),
{
    match (PackageManager::from_chars(from), PackageManager::from_chars(to)) {
        (Some(f), Some(t)) => {
            let from_npm = matches!(f, PackageManager::Npm);
            let to_npm = matches!(t, PackageManager::Npm);
            proof {
                crate::manager::lemma_named_is_name(from@, f);
                crate::manager::lemma_named_is_name(to@, t);
                lemma_named_by_own_name(PackageManager::Npm);
                lemma_named_by_own_name(PackageManager::Pnpm);
                lemma_named_by_own_name(PackageManager::Yarn);
                lemma_named_by_own_name(PackageManager::Bun);
            }
            if from_npm != to_npm {
                proof {
                    lemma_tables_state_the_rules(f, t, subcommand@);
                }
                translations.lookup(f, subcommand)
            } else {
                copy_chars(subcommand)
            }
        },
        _ => {
            proof {
                lemma_named_by_own_name(PackageManager::Npm);
                lemma_named_by_own_name(PackageManager::Pnpm);
                lemma_named_by_own_name(PackageManager::Yarn);
                lemma_named_by_own_name(PackageManager::Bun);
            }
            copy_chars(subcommand)
        },
    }
}

fn is_yarn_script_chars(from: &Vec<char>, subcommand: &Vec<char>) -> (r: bool)
    ensures
        r == is_yarn_script(from@, subcommand@),
{
    is_text(from, "yarn") && !is_text(subcommand, "add") && !is_text(subcommand, "remove")
        && !is_text(subcommand, "install") && !is_text(subcommand, "uninstall")
}

fn plain_form_chars(to: &Vec<char>, subcommand: &Vec<char>, args: &Vec<char>) -> (r: Vec<char>)
    ensures
        r@ == plain_form(to@, subcommand@, args@),
{
    let mut r = copy_chars(to);
    append_text(&mut r, " ");
    append_chars(&mut r, subcommand);
    append_spaced(&mut r, args);
    r
}

fn global_form_chars(to: &Vec<char>, subcommand: &Vec<char>, args: &Vec<char>) -> (r: Vec<char>)
    ensures
        r@ == global_form(to@, subcommand@, args@),
{
    let start = match PackageManager::from_chars(to) {
        Some(PackageManager::Npm) => "npm install -g",
        Some(PackageManager::Pnpm) => "pnpm add -g",
        Some(PackageManager::Yarn) => "yarn global add",
        Some(PackageManager::Bun) => "bun add -g",
        None => {
            return plain_form_chars(to, subcommand, args);
        },
    };
    let long_flag = to_chars("--global");
    let short_flag = to_chars("-g");
    let clean = trim(&remove_all(&remove_all(args, &long_flag), &short_flag));
    let mut r = to_chars(start);
    append_spaced(&mut r, &clean);
    r
}

fn rewrite_chars(
    command: &Vec<char>,
    from: &Vec<char>,
    to: &Vec<char>,
    translations: &TranslationMappings,
) -> (r: Option<Vec<char>>)
    ensures
        chars_of(r) == subcommand_rewrite(command@, from@, to@),
{
    let parts = split_whitespace(command);
    assert(views(parts@).len() == parts@.len());
    if parts.len() < 2 {
        return None;
    }
    let subcommand = &parts[1];
    assert(views(parts@)[1] == subcommand@);
    let args = join_from(&parts, 2);
    if is_yarn_script_chars(from, subcommand) && !is_text(to, "yarn") {
        let mut r = copy_chars(to);
        append_text(&mut r, " run ");
        append_chars(&mut r, subcommand);
        append_spaced(&mut r, &args);
        return Some(r);
    }
    let translated = translate_subcommand(from, to, subcommand, translations);
    if contains(&args, &to_chars("-g")) || contains(&args, &to_chars("--global")) {
        Some(global_form_chars(to, &translated, &args))
    } else {
        Some(plain_form_chars(to, &translated, &args))
    }
}

fn verbs_chars(command: &Vec<char>, target: &Vec<char>, translations: &TranslationMappings) -> (r:
    Option<Vec<char>>)
    ensures
        chars_of(r) == verb_rewrite(command@, target@),
{
    let mut k: usize = 0;
    while k < 4
        invariant
            k <= 4,
            verbs().len() == 4,
            verb_rewrite_from(command@, target@, k as int) == verb_rewrite(command@, target@),
        decreases 4 - k,
    {
        let from = to_chars(verb(k).name());
        let mut pattern = copy_chars(&from);
        append_text(&mut pattern, " ");
        if starts_with(command, &pattern) && !same_chars(target, &from) {
            return rewrite_chars(command, &from, target, translations);
        }
        k += 1;
    }
    None
}

/// The target's runner command for the given arguments: the target's runner
/// form, then the arguments as they stand.
pub fn get_runner_command(pm: &str, args: &str) -> (r: String)
    ensures
        r@ == runner_command(pm@, args@),
{
    from_chars(&runner_command_chars(&to_chars(pm), &to_chars(args)))
}

/// Rewrites a runner command for the preferred package manager. Gives
/// nothing where the command starts with no runner form, or with one of the
/// preferred package manager itself.
pub fn check_and_translate_runners(command: &str, preferred_pm: &str) -> (r: Option<String>)
    ensures
        text_of(r) == runner_rewrite(command@, preferred_pm@),
{
    into_text(runners_chars(&to_chars(command), &to_chars(preferred_pm)))
}

/// Rewrites a command of the package manager `from_pm` for `to_pm`. Gives
/// nothing where the command has fewer than two words.
pub fn translate_to_preferred_pm(
    command: &str,
    from_pm: &str,
    to_pm: &str,
    translations: &TranslationMappings,
) -> (r: Option<String>)
    ensures
        text_of(r) == subcommand_rewrite(command@, from_pm@, to_pm@),
{
    into_text(
        rewrite_chars(&to_chars(command), &to_chars(from_pm), &to_chars(to_pm), translations),
    )
}

/// Rewrites a package manager's command for the preferred package manager.
/// Gives nothing where the command starts with no package manager's name,
/// or with that of the preferred one.
pub fn check_and_translate_package_managers(command: &str, preferred_pm: &str) -> (r: Option<
    String,
>)
    ensures
        text_of(r) == verb_rewrite(command@, preferred_pm@),
{
    let translations = crate::mappings::create_translation_mappings();
    into_text(verbs_chars(&to_chars(command), &to_chars(preferred_pm), &translations))
}

/// Translates a line of text for the preferred package manager, or gives
/// nothing where the line is no command that needs it.
pub fn translate_command(command: &str, preferred_pm: &str) -> (r: Option<String>)
    ensures
        text_of(r) == translation(command@, preferred_pm@),
{
    let line = trim(&to_chars(command));
    let target = to_chars(preferred_pm);
    match runners_chars(&line, &target) {
        Some(r) => Some(from_chars(&r)),
        None => {
            let translations = crate::mappings::create_translation_mappings();
            into_text(verbs_chars(&line, &target, &translations))
        },
    }
}

} // verus!
