//! Parsing of configured hook command strings.
//!
//! A command string is split by a deliberately naive grammar: the text up
//! to the first space is the executable; the remainder is split on single
//! spaces into arguments. No quoting or escaping is honoured, and
//! consecutive spaces produce empty argument tokens.

use crate::errors::StoreError;
use crate::store::composite_key_spec;
use crate::store::config_entries;
use crate::store::entries_view;
use crate::store::get_config_entries;
use crate::store::normalized_key;
use vstd::prelude::*;

verus! {

/// The index of the first space in `s`, or `s.len()` if there is none.
pub open spec fn space_index(s: Seq<char>) -> int
    decreases s.len(),
{
    if s.len() == 0 {
        0
    } else if s[0] == ' ' {
        0
    } else {
        1 + space_index(s.drop_first())
    }
}

/// `s` split on single spaces: the maximal list of space-free (possibly
/// empty) tokens whose join with single spaces is `s`. Never empty.
pub open spec fn split_spaces(s: Seq<char>) -> Seq<Seq<char>>
    decreases s.len(),
{
    let i = space_index(s);
    if 0 <= i < s.len() {
        seq![s.take(i)] + split_spaces(s.skip(i + 1))
    } else {
        seq![s]
    }
}

/// The executable part of a command string: everything before the first
/// space, or the whole string if it has no space.
pub open spec fn command_exec(s: Seq<char>) -> Seq<char> {
    s.take(space_index(s))
}

/// The argument list of a command string: empty if the string has no
/// space, otherwise the remainder after the first space split on single
/// spaces.
pub open spec fn command_args(s: Seq<char>) -> Seq<Seq<char>> {
    if space_index(s) == s.len() {
        Seq::empty()
    } else {
        split_spaces(s.skip(space_index(s) + 1))
    }
}

/// A position with no space before it and a space at it is `space_index`.
pub proof fn lemma_space_index_unique(s: Seq<char>, i: int)
    requires
        0 <= i <= s.len(),
        forall|j: int| 0 <= j < i ==> s[j] != ' ',
        i < s.len() ==> s[i] == ' ',
    ensures
        space_index(s) == i,
    decreases s.len(),
{
    if s.len() == 0 {
    } else if s[0] == ' ' {
        assert(i == 0);
    } else {
        assert(i > 0);
        assert forall|j: int| 0 <= j < i - 1 implies s.drop_first()[j] != ' ' by {
            assert(s.drop_first()[j] == s[j + 1]);
        }
        assert(i - 1 < s.drop_first().len() ==> s.drop_first()[i - 1] == ' ');
        lemma_space_index_unique(s.drop_first(), i - 1);
    }
}

/// One parsed hook command: an executable name and its arguments.
#[derive(Debug, Clone)]
pub struct CommandSpec {
    pub program: String,
    pub args: Vec<String>,
}

impl CommandSpec {
    /// The parsed command agrees with the grammar on the command string `s`.
    pub open spec fn parses(&self, s: Seq<char>) -> bool {
        &&& self.program@ == command_exec(s)
        &&& self.args.deep_view() == command_args(s)
    }
}

/// Finds the first space at or after `from`, or `s@.len()` if none is
/// there.
fn find_space(s: &str, from: usize, n: usize) -> (r: usize)
    requires
        n == s@.len(),
        from <= n,
    ensures
        from <= r <= n,
        forall|j: int| from <= j < r ==> s@[j] != ' ',
        r < n ==> s@[r as int] == ' ',
{
    let mut i = from;
    while i < n
        invariant
            from <= i <= n,
            n == s@.len(),
            forall|j: int| from <= j < i ==> s@[j] != ' ',
        decreases n - i,
    {
        if s.get_char(i) == ' ' {
            return i;
        }
        i = i + 1;
    }
    i
}

/// Splits `s` on single spaces, producing the token list of
/// `split_spaces(s@)`.
fn split_on_spaces(s: &str) -> (r: Vec<String>)
    ensures
        r.deep_view() == split_spaces(s@),
{
    let n = s.unicode_len();
    let mut tokens: Vec<String> = Vec::new();
    let mut start: usize = 0;
    proof {
        assert(s@.skip(0) =~= s@);
        assert(tokens.deep_view() =~= Seq::<Seq<char>>::empty());
    }
    loop
        invariant
            start <= n,
            n == s@.len(),
            tokens.deep_view() + split_spaces(s@.skip(start as int)) == split_spaces(s@),
        decreases n - start,
    {
        let sp = find_space(s, start, n);
        let token = s.substring_char(start, sp).to_owned();
        proof {
            let rest = s@.skip(start as int);
            assert forall|j: int| 0 <= j < sp - start implies rest[j] != ' ' by {
                assert(rest[j] == s@[start + j]);
            }
            assert(sp - start < rest.len() ==> rest[sp - start] == ' ');
            lemma_space_index_unique(rest, sp - start);
            assert(token@ =~= rest.take(sp - start));
        }
        let ghost prev = tokens.deep_view();
        if sp == n {
            tokens.push(token);
            proof {
                let rest = s@.skip(start as int);
                assert(split_spaces(rest) == seq![rest]);
                assert(token@ =~= rest);
                assert(tokens.deep_view() =~= prev + seq![token@]);
                assert(tokens.deep_view() =~= split_spaces(s@));
            }
            return tokens;
        }
        tokens.push(token);
        proof {
            let rest = s@.skip(start as int);
            assert(split_spaces(rest) == seq![rest.take(sp - start)] + split_spaces(
                rest.skip(sp - start + 1),
            ));
            assert(rest.skip(sp - start + 1) =~= s@.skip(sp + 1));
            assert(tokens.deep_view() =~= prev + seq![token@]);
            assert(tokens.deep_view() + split_spaces(s@.skip(sp + 1)) =~= split_spaces(s@));
        }
        start = sp + 1;
    }
}

/// How many of a list of per-command outcomes are successes.
pub open spec fn count_true(s: Seq<bool>) -> int
    decreases s.len(),
{
    if s.len() == 0 {
        0
    } else {
        count_true(s.drop_last()) + if s.last() {
            1int
        } else {
            0int
        }
    }
}

/// Folds per-command launch outcomes into the hook run's result: one
/// success marker for each command that ran. Every configured command is
/// attempted, in order, whatever became of the ones before it; a failed
/// launch is reported on the spot and yields no marker.
pub fn success_markers(outcomes: &Vec<bool>) -> (r: Vec<()>)
    ensures
        r@.len() == count_true(outcomes@),
{
    let mut r: Vec<()> = Vec::new();
    let mut i: usize = 0;
    while i < outcomes.len()
        invariant
            i <= outcomes@.len(),
            r@.len() == count_true(outcomes@.take(i as int)),
        decreases outcomes@.len() - i,
    {
        if outcomes[i] {
            r.push(());
        }
        proof {
            assert(outcomes@.take(i + 1).drop_last() =~= outcomes@.take(i as int));
            assert(outcomes@.take(i + 1).last() == outcomes@[i as int]);
        }
        i = i + 1;
    }
    proof {
        assert(outcomes@.take(outcomes@.len() as int) =~= outcomes@);
    }
    r
}

/// Parses one configured command string: the text up to the first space is
/// the executable; with no space the argument list is empty; otherwise the
/// remainder is split on single spaces. Quoting is not honoured.
pub fn parse_command(cmd: &str) -> (r: CommandSpec)
    ensures
        r.parses(cmd@),
{
    let n = cmd.unicode_len();
    let sp = find_space(cmd, 0, n);
    proof {
        lemma_space_index_unique(cmd@, sp as int);
    }
    let program = cmd.substring_char(0, sp).to_owned();
    proof {
        assert(program@ =~= command_exec(cmd@));
    }
    if sp == n {
        let r = CommandSpec { program, args: Vec::new() };
        proof {
            assert(r.args.deep_view() =~= command_args(cmd@));
        }
        r
    } else {
        let rest = cmd.substring_char(sp + 1, n);
        let args = split_on_spaces(rest);
        proof {
            assert(rest@ =~= cmd@.skip(sp + 1));
        }
        CommandSpec { program, args }
    }
}

/// Fetches the commands registered for `repo_name` under `config_key` and
/// parses each, in insertion order. Fails only where the store itself
/// fails; a repository with nothing registered yields the empty list.
pub fn hook_commands(config: &git2::Config, repo_name: &str, config_key: &str) -> (r: Result<
    Vec<CommandSpec>,
    StoreError,
>)
    ensures
        r matches Ok(v) ==> {
            let cmds = entries_view(
                config_entries(*config),
                normalized_key(composite_key_spec(repo_name@, config_key@)),
            );
            v@.len() == cmds.len() && (forall|i: int| 0 <= i < cmds.len() ==> v@[i].parses(cmds[i]))
        },
        r matches Err(e) ==> e.is_backend(),
{
    let entries = get_config_entries(config, repo_name, config_key)?;
    let mut out: Vec<CommandSpec> = Vec::new();
    let mut i: usize = 0;
    while i < entries.len()
        invariant
            i <= entries@.len(),
            out@.len() == i,
            entries.deep_view() == entries_view(
                config_entries(*config),
                normalized_key(composite_key_spec(repo_name@, config_key@)),
            ),
            forall|j: int| 0 <= j < i ==> out@[j].parses(entries.deep_view()[j]),
        decreases entries@.len() - i,
    {
        let parsed = parse_command(entries[i].as_str());
        out.push(parsed);
        i = i + 1;
    }
    Ok(out)
}

} // verus!
