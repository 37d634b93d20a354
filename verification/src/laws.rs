//! What holds of the translation engine as a whole.

use crate::manager::{lemma_named_by_own_name, PackageManager};
use crate::text::{
    has_prefix, has_substring, is_space, is_word, joined, lemma_joined_append, lemma_joined_ends,
    lemma_occurs_in_rest, lemma_occurs_within, lemma_prefix_chars, lemma_tokens_of_joined,
    lemma_tokens_of_text_with_word, lemma_tokens_of_trimmed, lemma_trimmed_end_is_start,
    lemma_trimmed_is_start, lemma_without_absent, lemma_without_at_start,
    lemma_word_len_before_space, lemma_word_len_bounds, occurs_at, tokens, trimmed, trimmed_end,
    trimmed_start, without, word_len,
};
use crate::translate::{
    global_form, has_global_flag, is_yarn_script, plain_form, runner_command, runner_forms,
    runner_rewrite, runner_rewrite_from, spaced, subcommand_rewrite, translated_subcommand,
    translation, verb_rewrite, verb_rewrite_from, verbs, without_global_flag,
};
use vstd::prelude::*;

verus! {

/// The names and runner forms, character by character.
pub proof fn lemma_forms_spelled()
    ensures
        "npm"@ == seq!['n', 'p', 'm'],
        "pnpm"@ == seq!['p', 'n', 'p', 'm'],
        "yarn"@ == seq!['y', 'a', 'r', 'n'],
        "bun"@ == seq!['b', 'u', 'n'],
        "npx "@ == seq!['n', 'p', 'x', ' '],
        "pnpx "@ == seq!['p', 'n', 'p', 'x', ' '],
        "pnpm dlx "@ == seq!['p', 'n', 'p', 'm', ' ', 'd', 'l', 'x', ' '],
        "bunx "@ == seq!['b', 'u', 'n', 'x', ' '],
        "yarn dlx "@ == seq!['y', 'a', 'r', 'n', ' ', 'd', 'l', 'x', ' '],
        " "@ == seq![' '],
{
    reveal_strlit("npm");
    reveal_strlit("pnpm");
    reveal_strlit("yarn");
    reveal_strlit("bun");
    reveal_strlit("npx ");
    reveal_strlit("pnpx ");
    reveal_strlit("pnpm dlx ");
    reveal_strlit("bunx ");
    reveal_strlit("yarn dlx ");
    reveal_strlit(" ");
    assert("npm"@ =~= seq!['n', 'p', 'm']);
    assert("pnpm"@ =~= seq!['p', 'n', 'p', 'm']);
    assert("yarn"@ =~= seq!['y', 'a', 'r', 'n']);
    assert("bun"@ =~= seq!['b', 'u', 'n']);
    assert("npx "@ =~= seq!['n', 'p', 'x', ' ']);
    assert("pnpx "@ =~= seq!['p', 'n', 'p', 'x', ' ']);
    assert("pnpm dlx "@ =~= seq!['p', 'n', 'p', 'm', ' ', 'd', 'l', 'x', ' ']);
    assert("bunx "@ =~= seq!['b', 'u', 'n', 'x', ' ']);
    assert("yarn dlx "@ =~= seq!['y', 'a', 'r', 'n', ' ', 'd', 'l', 'x', ' ']);
    assert(" "@ =~= seq![' ']);
}

/// A text that begins with a runner form or with a package manager's name
/// and a space begins with the first letter of that package manager's
/// name.
proof fn lemma_first_letters(s: Seq<char>)
    ensures
        forall|j: int|
            0 <= j < runner_forms().len() && has_prefix(s, #[trigger] runner_forms()[j].0) ==> s.len()
                > 0 && s[0] == runner_forms()[j].1.name_chars()[0],
        forall|j: int|
            0 <= j < verbs().len() && has_prefix(s, #[trigger] verbs()[j].name_chars() + " "@)
                ==> s.len() > 0 && s[0] == verbs()[j].name_chars()[0],
{
    lemma_forms_spelled();
    assert forall|j: int|
        0 <= j < runner_forms().len() && has_prefix(s, #[trigger] runner_forms()[j].0) implies s.len()
        > 0 && s[0] == runner_forms()[j].1.name_chars()[0] by {
        lemma_prefix_chars(s, runner_forms()[j].0);
    }
    assert forall|j: int|
        0 <= j < verbs().len() && has_prefix(
            s,
            #[trigger] verbs()[j].name_chars() + " "@,
        ) implies s.len() > 0 && s[0] == verbs()[j].name_chars()[0] by {
        lemma_prefix_chars(s, verbs()[j].name_chars() + " "@);
    }
}

/// No two package managers' names begin with the same letter.
proof fn lemma_first_letter_names(a: PackageManager, b: PackageManager)
    ensures
        a.name_chars()[0] == b.name_chars()[0] ==> a == b,
        a.name_chars().len() > 0,
        !is_space(a.name_chars()[0]),
{
    lemma_forms_spelled();
}

/// A command that is already in a package manager's own runner form is
/// left alone when that package manager is the target.
pub proof fn lemma_own_runner_form_is_kept(command: Seq<char>, k: int)
    requires
        0 <= k < runner_forms().len(),
        has_prefix(command, runner_forms()[k].0),
    ensures
        translation(command, runner_forms()[k].1.name_chars()) is None,
{
    let owner = runner_forms()[k].1;
    let target = owner.name_chars();
    lemma_first_letters(command);
    lemma_first_letter_names(owner, owner);
    lemma_trimmed_is_start(command);
    let line = trimmed(command);
    assert(line[0] == command[0]);
    lemma_first_letters(line);
    assert forall|j: int| 0 <= j < runner_forms().len() implies !(has_prefix(
        line,
        #[trigger] runner_forms()[j].0,
    ) && target != runner_forms()[j].1.name_chars()) by {
        lemma_first_letter_names(runner_forms()[j].1, owner);
    }
    assert forall|j: int| 0 <= j < verbs().len() implies !(has_prefix(
        line,
        #[trigger] verbs()[j].name_chars() + " "@,
    ) && target != verbs()[j].name_chars()) by {
        lemma_first_letter_names(verbs()[j], owner);
    }
    lemma_no_match_no_rewrite(line, target);
}

/// Where no runner form and no verb applies, there is no translation.
proof fn lemma_no_match_no_rewrite(line: Seq<char>, target: Seq<char>)
    requires
        forall|j: int|
            0 <= j < runner_forms().len() ==> !(has_prefix(line, #[trigger] runner_forms()[j].0)
                && target != runner_forms()[j].1.name_chars()),
        forall|j: int|
            0 <= j < verbs().len() ==> !(has_prefix(line, #[trigger] verbs()[j].name_chars() + " "@)
                && target != verbs()[j].name_chars()),
    ensures
        runner_rewrite(line, target) is None,
        verb_rewrite(line, target) is None,
{
    reveal_with_fuel(runner_rewrite_from, 6);
    reveal_with_fuel(verb_rewrite_from, 5);
    assert(runner_forms().len() == 5);
    assert(verbs().len() == 4);
    let _ = runner_forms()[0];
    let _ = runner_forms()[1];
    let _ = runner_forms()[2];
    let _ = runner_forms()[3];
    let _ = runner_forms()[4];
    let _ = verbs()[0];
    let _ = verbs()[1];
    let _ = verbs()[2];
    let _ = verbs()[3];
}

/// Every runner form stands for the same thing: a command in the runner
/// form of one package manager becomes, for any target but that package
/// manager itself, the target's runner form followed by the same
/// arguments.
pub proof fn lemma_runner_forms_are_equivalent(k: int, args: Seq<char>, target: Seq<char>)
    requires
        0 <= k < runner_forms().len(),
        target != runner_forms()[k].1.name_chars(),
    ensures
        runner_rewrite(runner_forms()[k].0 + args, target) == Some(runner_command(target, args)),
{
    lemma_forms_spelled();
    let form = runner_forms()[k].0;
    let command = form + args;
    assert(command.subrange(0, 0 + form.len() as int) =~= form);
    assert(command.skip(form.len() as int) =~= args);
    assert forall|j: int| 0 <= j < k implies !has_prefix(command, #[trigger] runner_forms()[j].0) by {
        if has_prefix(command, runner_forms()[j].0) {
            lemma_prefix_chars(command, runner_forms()[j].0);
            assert(command[0] == form[0]);
            assert(command[3] == form[3]);
        }
    }
    reveal_with_fuel(runner_rewrite_from, 6);
    let _ = runner_forms()[0];
    let _ = runner_forms()[1];
    let _ = runner_forms()[2];
    let _ = runner_forms()[3];
    let _ = runner_forms()[4];
}

/// The name of a package manager alone, with no subcommand after it, is
/// never rewritten, whatever the target.
pub proof fn lemma_bare_verb_is_kept(m: PackageManager, target: Seq<char>)
    ensures
        translation(m.name_chars(), target) is None,
{
    lemma_forms_spelled();
    let name = m.name_chars();
    assert(trimmed_start(name) == name);
    assert(trimmed_end(name) == name);
    assert(trimmed(name) == name);
    assert forall|j: int| 0 <= j < runner_forms().len() implies !has_prefix(
        name,
        #[trigger] runner_forms()[j].0,
    ) by {
        if has_prefix(name, runner_forms()[j].0) {
            lemma_prefix_chars(name, runner_forms()[j].0);
        }
    }
    assert forall|j: int| 0 <= j < verbs().len() implies !has_prefix(
        name,
        #[trigger] verbs()[j].name_chars() + " "@,
    ) by {
        if has_prefix(name, verbs()[j].name_chars() + " "@) {
            lemma_prefix_chars(name, verbs()[j].name_chars() + " "@);
        }
    }
    lemma_no_match_no_rewrite(name, target);
}

/// A text that begins with a runner form or with a package manager's name
/// and a space, and that does not end in white space, has two words or
/// more.
proof fn lemma_matched_line_has_two_words(line: Seq<char>, p: Seq<char>)
    requires
        has_prefix(line, p),
        p.len() >= 2,
        !is_space(p[0]),
        is_space(p.last()),
        line.len() > 0,
        !is_space(line.last()),
    ensures
        tokens(line).len() >= 2,
{
    lemma_prefix_chars(line, p);
    let n = word_len(line) as int;
    lemma_word_len_bounds(line);
    lemma_word_len_before_space(line, p.len() - 1);
    let rest = line.skip(n);
    assert(rest[rest.len() - 1] == line.last());
    lemma_tokens_of_text_with_word(rest, rest.len() - 1);
}

/// A line of fewer than two words is never rewritten, whatever the target:
/// a verb alone, or a runner alone, is no command to translate.
pub proof fn lemma_single_word_is_kept(command: Seq<char>, target: Seq<char>)
    requires
        tokens(command).len() < 2,
    ensures
        translation(command, target) is None,
{
    lemma_forms_spelled();
    let line = trimmed(command);
    lemma_tokens_of_trimmed(command);
    lemma_trimmed_end_is_start(trimmed_start(command));
    assert forall|j: int| 0 <= j < runner_forms().len() implies !has_prefix(
        line,
        #[trigger] runner_forms()[j].0,
    ) by {
        if has_prefix(line, runner_forms()[j].0) {
            lemma_matched_line_has_two_words(line, runner_forms()[j].0);
        }
    }
    assert forall|j: int| 0 <= j < verbs().len() implies !has_prefix(
        line,
        #[trigger] verbs()[j].name_chars() + " "@,
    ) by {
        if has_prefix(line, verbs()[j].name_chars() + " "@) {
            lemma_matched_line_has_two_words(line, verbs()[j].name_chars() + " "@);
        }
    }
    lemma_no_match_no_rewrite(line, target);
}

/// The target's runner command begins with the first letter of the
/// target's name.
proof fn lemma_runner_command_first_letter(target: PackageManager, args: Seq<char>)
    ensures
        runner_command(target.name_chars(), args).len() > 0,
        runner_command(target.name_chars(), args)[0] == target.name_chars()[0],
{
    lemma_forms_spelled();
    lemma_named_by_own_name(target);
}

/// The rewrite of a package manager's command begins with the first letter
/// of the target's name.
proof fn lemma_subcommand_rewrite_first_letter(
    line: Seq<char>,
    from: Seq<char>,
    target: PackageManager,
)
    requires
        subcommand_rewrite(line, from, target.name_chars()) is Some,
    ensures
        subcommand_rewrite(line, from, target.name_chars())->0.len() > 0,
        subcommand_rewrite(line, from, target.name_chars())->0[0] == target.name_chars()[0],
{
    lemma_forms_spelled();
    lemma_named_by_own_name(target);
    reveal_strlit("npm install -g");
    reveal_strlit("pnpm add -g");
    reveal_strlit("yarn global add");
    reveal_strlit("bun add -g");
    let to = target.name_chars();
    let parts = tokens(line);
    let subcommand = parts[1];
    let args = joined(parts.skip(2));
    let translated = translated_subcommand(from, to, subcommand);
    assert((to + " run "@ + subcommand + spaced(args))[0] == to[0]);
    assert(plain_form(to, translated, args)[0] == to[0]);
    assert(global_form(to, translated, args)[0] == to[0]);
}

/// A translation for a package manager begins with the first letter of
/// that package manager's name.
proof fn lemma_translation_first_letter(command: Seq<char>, target: PackageManager)
    requires
        translation(command, target.name_chars()) is Some,
    ensures
        translation(command, target.name_chars())->0.len() > 0,
        translation(command, target.name_chars())->0[0] == target.name_chars()[0],
{
    let line = trimmed(command);
    let to = target.name_chars();
    reveal_with_fuel(runner_rewrite_from, 6);
    reveal_with_fuel(verb_rewrite_from, 5);
    assert(runner_forms().len() == 5);
    assert(verbs().len() == 4);
    assert forall|args: Seq<char>|
        (#[trigger] runner_command(to, args)).len() > 0 && runner_command(to, args)[0] == to[0] by {
        lemma_runner_command_first_letter(target, args);
    }
    assert forall|from: Seq<char>| (#[trigger] subcommand_rewrite(line, from, to)) is Some implies {
        &&& subcommand_rewrite(line, from, to)->0.len() > 0
        &&& subcommand_rewrite(line, from, to)->0[0] == to[0]
    } by {
        lemma_subcommand_rewrite_first_letter(line, from, target);
    }
}

/// A translation is final: what a line was translated to for a package
/// manager is not translated again for the same package manager. So the
/// watch does not answer its own rewrite with another.
pub proof fn lemma_translation_is_final(command: Seq<char>, target: PackageManager)
    requires
        translation(command, target.name_chars()) is Some,
    ensures
        translation(translation(command, target.name_chars())->0, target.name_chars()) is None,
{
    let to = target.name_chars();
    let first = translation(command, to)->0;
    lemma_translation_first_letter(command, target);
    lemma_first_letter_names(target, target);
    lemma_trimmed_is_start(first);
    let line = trimmed(first);
    assert(line[0] == first[0]);
    lemma_first_letters(line);
    assert forall|j: int| 0 <= j < runner_forms().len() implies !(has_prefix(
        line,
        #[trigger] runner_forms()[j].0,
    ) && to != runner_forms()[j].1.name_chars()) by {
        lemma_first_letter_names(runner_forms()[j].1, target);
    }
    assert forall|j: int| 0 <= j < verbs().len() implies !(has_prefix(
        line,
        #[trigger] verbs()[j].name_chars() + " "@,
    ) && to != verbs()[j].name_chars()) by {
        lemma_first_letter_names(verbs()[j], target);
    }
    lemma_no_match_no_rewrite(line, to);
}

/// The subcommand that installs packages, or removes them: `install` and
/// `uninstall` at npm, `add` and `remove` at the others.
pub open spec fn install_verb(m: PackageManager, uninstall: bool) -> Seq<char> {
    if m == PackageManager::Npm {
        if uninstall {
            "uninstall"@
        } else {
            "install"@
        }
    } else {
        if uninstall {
            "remove"@
        } else {
            "add"@
        }
    }
}

/// The command by which a package manager installs, or removes, the given
/// packages.
pub open spec fn install_command(
    m: PackageManager,
    uninstall: bool,
    packages: Seq<Seq<char>>,
) -> Seq<char> {
    command_of(m, install_verb(m, uninstall), packages)
}

/// The subcommands that install and remove, character by character.
proof fn lemma_install_verbs_spelled()
    ensures
        "install"@ == seq!['i', 'n', 's', 't', 'a', 'l', 'l'],
        "uninstall"@ == seq!['u', 'n', 'i', 'n', 's', 't', 'a', 'l', 'l'],
        "add"@ == seq!['a', 'd', 'd'],
        "remove"@ == seq!['r', 'e', 'm', 'o', 'v', 'e'],
        "i"@ == seq!['i'],
{
    reveal_strlit("install");
    reveal_strlit("uninstall");
    reveal_strlit("add");
    reveal_strlit("remove");
    reveal_strlit("i");
    assert("install"@ =~= seq!['i', 'n', 's', 't', 'a', 'l', 'l']);
    assert("uninstall"@ =~= seq!['u', 'n', 'i', 'n', 's', 't', 'a', 'l', 'l']);
    assert("add"@ =~= seq!['a', 'd', 'd']);
    assert("remove"@ =~= seq!['r', 'e', 'm', 'o', 'v', 'e']);
    assert("i"@ =~= seq!['i']);
}

/// Two parts joined are the first, a space and the second.
proof fn lemma_joined_pair(a: Seq<char>, b: Seq<char>)
    ensures
        joined(seq![a, b]) == a + seq![' '] + b,
{
    let pair = seq![a, b];
    let single = pair.drop_last();
    assert(single.len() == 1);
    assert(single[0] == a);
    assert(joined(single) == a);
    assert(pair.last() == b);
}

/// The command of a package manager with the given subcommand and
/// arguments, single spaces between them.
pub open spec fn command_of(from: PackageManager, subcommand: Seq<char>, args: Seq<Seq<char>>) -> Seq<
    char,
> {
    joined(seq![from.name_chars(), subcommand] + args)
}

/// Whether a command of words is in one of the two runner forms that start
/// with a package manager's name: `pnpm dlx` or `yarn dlx` with something
/// to run.
pub open spec fn is_dlx(from: PackageManager, subcommand: Seq<char>, args: Seq<Seq<char>>) -> bool {
    &&& from == PackageManager::Pnpm || from == PackageManager::Yarn
    &&& subcommand == "dlx"@
    &&& args.len() > 0
}

/// A command written as words with single spaces is read as it was
/// written: its second word is the subcommand, the words after it are the
/// arguments, and unless it is in a runner form its translation for any
/// target but its own package manager is the rewrite of that subcommand
/// with those arguments.
pub proof fn lemma_command_of_words(
    from: PackageManager,
    subcommand: Seq<char>,
    args: Seq<Seq<char>>,
    target: Seq<char>,
)
    requires
        is_word(subcommand),
        forall|i: int| 0 <= i < args.len() ==> is_word(#[trigger] args[i]),
        target != from.name_chars(),
        !is_dlx(from, subcommand, args),
    ensures
        tokens(command_of(from, subcommand, args)) == seq![from.name_chars(), subcommand] + args,
        tokens(command_of(from, subcommand, args)).len() >= 2,
        tokens(command_of(from, subcommand, args))[1] == subcommand,
        tokens(command_of(from, subcommand, args)).skip(2) == args,
        translation(command_of(from, subcommand, args), target) == subcommand_rewrite(
            command_of(from, subcommand, args),
            from.name_chars(),
            target,
        ),
{
    lemma_forms_spelled();
    reveal_strlit("dlx");
    lemma_named_by_own_name(from);
    let name = from.name_chars();
    let head = seq![name, subcommand];
    let parts = head + args;
    let command = joined(parts);
    assert(is_word(name));
    assert forall|i: int| 0 <= i < parts.len() implies is_word(#[trigger] parts[i]) by {
        if i >= 2 {
            assert(parts[i] == args[i - 2]);
        }
    }
    // The command as a text.
    lemma_joined_ends(parts);
    lemma_tokens_of_joined(parts);
    lemma_joined_append(head, args);
    lemma_joined_pair(name, subcommand);
    let start = name + seq![' '] + subcommand;
    assert(command.len() >= start.len());
    assert forall|i: int| 0 <= i < start.len() implies command[i] == start[i] by {}
    if args.len() > 0 {
        assert(command[start.len() as int] == ' ');
    } else {
        assert(command =~= start);
    }
    assert(!is_space(command[0]));
    assert(!is_space(command.last()));
    assert(trimmed_start(command) == command);
    assert(trimmed_end(command) == command);
    assert(trimmed(command) == command);
    assert(tokens(command).skip(2) =~= args);
    // No runner form stands at its start.
    assert forall|j: int| 0 <= j < runner_forms().len() implies !has_prefix(
        command,
        #[trigger] runner_forms()[j].0,
    ) by {
        let form = runner_forms()[j].0;
        if has_prefix(command, form) {
            lemma_prefix_chars(command, form);
            assert(command[0] == form[0]);
            assert(command[2] == form[2]);
            assert(command[3] == form[3]);
            if form.len() > 5 {
                let n = name.len() as int;
                assert(n == 4);
                assert(command[4] == form[4]);
                assert(command[5] == form[5]);
                assert(command[6] == form[6]);
                assert(command[7] == form[7]);
                assert(command[8] == form[8]);
                assert(is_space(command[8]));
                if subcommand.len() < 3 {
                    assert(is_space(command[5 + subcommand.len() as int]));
                } else if subcommand.len() > 3 {
                    assert(command[8] == subcommand[3]);
                } else {
                    assert(subcommand =~= "dlx"@);
                }
            }
        }
    }
    reveal_with_fuel(runner_rewrite_from, 6);
    assert(runner_forms().len() == 5);
    assert(runner_rewrite(command, target) is None);
    // Its verb is the source's name and no other.
    assert forall|j: int| 0 <= j < verbs().len() && verbs()[j] != from implies !has_prefix(
        command,
        #[trigger] verbs()[j].name_chars() + " "@,
    ) by {
        if has_prefix(command, verbs()[j].name_chars() + " "@) {
            lemma_prefix_chars(command, verbs()[j].name_chars() + " "@);
            assert(command[0] == (verbs()[j].name_chars() + " "@)[0]);
        }
    }
    assert(has_prefix(command, name + " "@));
    reveal_with_fuel(verb_rewrite_from, 5);
    assert(verbs().len() == 4);
    assert(verb_rewrite(command, target) == subcommand_rewrite(command, name, target));
}

/// The plain form of a command is the command of its words.
proof fn lemma_plain_form_of_words(to: PackageManager, subcommand: Seq<char>, args: Seq<Seq<char>>)
    requires
        forall|i: int| 0 <= i < args.len() ==> is_word(#[trigger] args[i]),
    ensures
        plain_form(to.name_chars(), subcommand, joined(args)) == command_of(to, subcommand, args),
{
    lemma_forms_spelled();
    let head = seq![to.name_chars(), subcommand];
    lemma_joined_append(head, args);
    lemma_joined_pair(to.name_chars(), subcommand);
    assert(plain_form(to.name_chars(), subcommand, joined(args)) =~= joined(head + args));
}

/// An install command of one package manager is translated to the install
/// command of the other for the same packages, wherever one of the two is
/// npm and no package looks like a global flag.
pub proof fn lemma_install_translated(
    from: PackageManager,
    to: PackageManager,
    uninstall: bool,
    packages: Seq<Seq<char>>,
)
    requires
        (from == PackageManager::Npm) != (to == PackageManager::Npm),
        forall|i: int| 0 <= i < packages.len() ==> is_word(#[trigger] packages[i]),
        !has_global_flag(joined(packages)),
    ensures
        translation(install_command(from, uninstall, packages), to.name_chars()) == Some(
            install_command(to, uninstall, packages),
        ),
{
    lemma_forms_spelled();
    lemma_install_verbs_spelled();
    reveal_strlit("dlx");
    lemma_named_by_own_name(from);
    lemma_named_by_own_name(to);
    let sub = install_verb(from, uninstall);
    lemma_command_of_words(from, sub, packages, to.name_chars());
    lemma_plain_form_of_words(to, install_verb(to, uninstall), packages);
}

/// A script of the user that yarn runs by its bare name is run by the
/// others with `run`: `yarn build` becomes `npm run build`, arguments
/// kept.
pub proof fn lemma_yarn_script_gets_run(
    to: PackageManager,
    script: Seq<char>,
    args: Seq<Seq<char>>,
)
    requires
        to != PackageManager::Yarn,
        is_word(script),
        is_yarn_script("yarn"@, script),
        forall|i: int| 0 <= i < args.len() ==> is_word(#[trigger] args[i]),
        !is_dlx(PackageManager::Yarn, script, args),
    ensures
        translation(command_of(PackageManager::Yarn, script, args), to.name_chars()) == Some(
            joined(seq![to.name_chars(), "run"@, script] + args),
        ),
{
    lemma_forms_spelled();
    reveal_strlit(" run ");
    reveal_strlit("run");
    lemma_named_by_own_name(to);
    let target = to.name_chars();
    lemma_command_of_words(PackageManager::Yarn, script, args, target);
    let head = seq![target, "run"@, script];
    lemma_joined_append(head, args);
    lemma_joined_pair(target, "run"@);
    assert(head.drop_last() =~= seq![target, "run"@]);
    assert(joined(head) == target + seq![' '] + "run"@ + seq![' '] + script);
    assert(target + " run "@ + script =~= joined(head));
    assert(target + " run "@ + script + spaced(joined(args)) =~= joined(head + args));
}

/// Round trip: an npm command that installs or removes packages,
/// translated for another package manager and from there back for npm, is
/// the command that it was.
pub proof fn lemma_install_round_trip(
    other: PackageManager,
    uninstall: bool,
    packages: Seq<Seq<char>>,
)
    requires
        other != PackageManager::Npm,
        forall|i: int| 0 <= i < packages.len() ==> is_word(#[trigger] packages[i]),
        !has_global_flag(joined(packages)),
    ensures
        translation(install_command(PackageManager::Npm, uninstall, packages), other.name_chars())
            is Some,
        translation(
            translation(
                install_command(PackageManager::Npm, uninstall, packages),
                other.name_chars(),
            )->0,
            "npm"@,
        ) == Some(install_command(PackageManager::Npm, uninstall, packages)),
{
    lemma_install_translated(PackageManager::Npm, other, uninstall, packages);
    lemma_install_translated(other, PackageManager::Npm, uninstall, packages);
}

/// The flag that asks for a global install, short or long.
pub open spec fn global_flag(long: bool) -> Seq<char> {
    if long {
        "--global"@
    } else {
        "-g"@
    }
}

/// What a package manager's global install starts with.
pub open spec fn global_start(to: PackageManager) -> Seq<char> {
    match to {
        PackageManager::Npm => "npm install -g"@,
        PackageManager::Pnpm => "pnpm add -g"@,
        PackageManager::Yarn => "yarn global add"@,
        PackageManager::Bun => "bun add -g"@,
    }
}

/// The flags, character by character.
proof fn lemma_flags_spelled()
    ensures
        "-g"@ == seq!['-', 'g'],
        "--global"@ == seq!['-', '-', 'g', 'l', 'o', 'b', 'a', 'l'],
        occurs_at("--global"@, 1, "-g"@),
{
    reveal_strlit("-g");
    reveal_strlit("--global");
    assert("-g"@ =~= seq!['-', 'g']);
    assert("--global"@ =~= seq!['-', '-', 'g', 'l', 'o', 'b', 'a', 'l']);
    assert("--global"@.subrange(1, 3) =~= "-g"@);
}

/// Of a flag followed by packages none of which holds the letters of a
/// flag, taking the flags out leaves the packages.
proof fn lemma_flag_taken_out(long: bool, packages: Seq<Seq<char>>)
    requires
        forall|i: int| 0 <= i < packages.len() ==> is_word(#[trigger] packages[i]),
        !has_substring(joined(packages), "-g"@),
    ensures
        has_global_flag(joined(seq![global_flag(long)] + packages)),
        without_global_flag(joined(seq![global_flag(long)] + packages)) == joined(packages),
{
    lemma_flags_spelled();
    let flag = global_flag(long);
    let rest = joined(packages);
    let args = joined(seq![flag] + packages);
    let tail = if packages.len() == 0 {
        Seq::<char>::empty()
    } else {
        seq![' '] + rest
    };
    lemma_joined_append(seq![flag], packages);
    assert(joined(seq![flag]) == flag);
    assert(args == flag + tail);
    // The flag is there.
    assert(args.subrange(0, 0 + flag.len() as int) =~= flag);
    assert(occurs_at(args, 0, flag));
    if long {
        lemma_occurs_within(args, 0, flag, 1, "-g"@);
    }
    assert(has_substring(args, "-g"@));
    // Behind the flag there is none.
    assert forall|i: int| !occurs_at(tail, i, "-g"@) by {
        if occurs_at(tail, i, "-g"@) {
            assert(tail.subrange(i, i + 2)[0] == '-');
            if i >= 1 {
                lemma_occurs_in_rest(seq![' '], rest, i, "-g"@);
            }
        }
    }
    assert forall|i: int| !occurs_at(tail, i, "--global"@) by {
        if occurs_at(tail, i, "--global"@) {
            lemma_occurs_within(tail, i, "--global"@, 1, "-g"@);
        }
    }
    lemma_without_absent(tail, "-g"@);
    lemma_without_absent(tail, "--global"@);
    // So taking the flags out leaves what is behind the flag.
    if long {
        lemma_without_at_start(flag, tail);
        assert(without(args, "--global"@) == tail);
    } else {
        assert forall|i: int| !occurs_at(args, i, "--global"@) by {
            if occurs_at(args, i, "--global"@) {
                lemma_occurs_within(args, i, "--global"@, 1, "-g"@);
                assert(args.subrange(i + 1, i + 1 + 2)[0] == '-');
                lemma_occurs_in_rest(flag, tail, i + 1, "-g"@);
            }
        }
        lemma_without_absent(args, "--global"@);
        lemma_without_at_start(flag, tail);
        assert(without(without(args, "--global"@), "-g"@) == tail);
    }
    assert(without(without(args, "--global"@), "-g"@) == tail);
    // And trimming takes the space before the packages.
    if packages.len() > 0 {
        lemma_joined_ends(packages);
        assert(is_word(packages[0]));
        assert(is_word(packages.last()));
        lemma_prefix_chars(rest, packages[0]);
        assert(tail.skip(1) =~= rest);
        assert(!is_space(rest[0]));
        assert(trimmed_start(rest) == rest);
        assert(trimmed_start(tail) == rest);
        assert(trimmed_end(rest) == rest);
    } else {
        assert(rest.len() == 0);
    }
}

/// A global install is said in the target's own way: a command whose
/// arguments are a global flag and packages becomes the target's global
/// install of those packages, whatever its subcommand was, unless the
/// subcommand is a script that yarn runs. No package may hold the letters
/// of a flag.
pub proof fn lemma_global_install_translated(
    from: PackageManager,
    to: PackageManager,
    subcommand: Seq<char>,
    long: bool,
    packages: Seq<Seq<char>>,
)
    requires
        from != to,
        is_word(subcommand),
        !is_yarn_script(from.name_chars(), subcommand),
        subcommand != "dlx"@,
        forall|i: int| 0 <= i < packages.len() ==> is_word(#[trigger] packages[i]),
        !has_substring(joined(packages), "-g"@),
    ensures
        translation(
            command_of(from, subcommand, seq![global_flag(long)] + packages),
            to.name_chars(),
        ) == Some(global_start(to) + spaced(joined(packages))),
{
    lemma_forms_spelled();
    lemma_flags_spelled();
    lemma_named_by_own_name(from);
    lemma_named_by_own_name(to);
    let flag = global_flag(long);
    let args = seq![flag] + packages;
    assert(is_word(flag));
    assert forall|i: int| 0 <= i < args.len() implies is_word(#[trigger] args[i]) by {
        if i >= 1 {
            assert(args[i] == packages[i - 1]);
        }
    }
    lemma_command_of_words(from, subcommand, args, to.name_chars());
    lemma_flag_taken_out(long, packages);
}

} // verus!
