//! Classification of the argument list.
//!
//! The arguments are scanned once, left to right. Each token is an option
//! (`-i`, `--ignore-environment`, `-u NAME`, `--unset NAME`), an assignment
//! (`NAME=VALUE`), or the start of the child's command line. From that start on,
//! every token belongs to the command line verbatim. A token that starts with
//! `-` but is not one of the recognised options is not an error: it starts the
//! command line, like any other plain token.
use vstd::prelude::*;
use crate::text::{find_char, same_text};

verus! {

/// Edits to apply to the environment handed to the child.
#[derive(Debug, PartialEq, Eq)]
pub struct EnvironmentModification {
    /// Start from an empty environment instead of the inherited one.
    pub clear_env: bool,
    /// Names to remove, in the order they were given.
    pub unset_vars: Vec<String>,
    /// Pairs to set, in the order they were given; a later pair for the same
    /// name overrides an earlier one when applied.
    pub set_vars: Vec<(String, String)>,
}

/// Mathematical value of an [`EnvironmentModification`].
pub struct EnvEdits {
    pub clear_env: bool,
    pub unset_vars: Seq<Seq<char>>,
    pub set_vars: Seq<(Seq<char>, Seq<char>)>,
}

/// Why an argument list could not be classified.
#[derive(Debug, PartialEq, Eq)]
pub enum ParseError {
    /// `-u` or `--unset` (the option as given) was the last token.
    MissingArgument(String),
    /// An assignment token with nothing before its first `=`.
    MalformedAssignment(String),
    /// The tokens ran out before a command was found.
    NoCommand,
}

/// Mathematical value of a [`ParseError`].
pub enum ParseFailure {
    MissingArgument(Seq<char>),
    MalformedAssignment(Seq<char>),
    NoCommand,
}

/// The characters of each string.
pub open spec fn strings_view(v: Seq<String>) -> Seq<Seq<char>> {
    v.map_values(|s: String| s@)
}

/// The characters of each name and value.
pub open spec fn pairs_view(v: Seq<(String, String)>) -> Seq<(Seq<char>, Seq<char>)> {
    v.map_values(|p: (String, String)| (p.0@, p.1@))
}

impl View for EnvironmentModification {
    type V = EnvEdits;

    open spec fn view(&self) -> EnvEdits {
        EnvEdits {
            clear_env: self.clear_env,
            unset_vars: strings_view(self.unset_vars@),
            set_vars: pairs_view(self.set_vars@),
        }
    }
}

impl View for ParseError {
    type V = ParseFailure;

    open spec fn view(&self) -> ParseFailure {
        match self {
            ParseError::MissingArgument(s) => ParseFailure::MissingArgument(s@),
            ParseError::MalformedAssignment(s) => ParseFailure::MalformedAssignment(s@),
            ParseError::NoCommand => ParseFailure::NoCommand,
        }
    }
}

/// What a successful classification yields: the edits and the command line.
pub type Classified = (EnvEdits, Seq<Seq<char>>);

/// Leaves the environment as it is.
pub open spec fn no_edits() -> EnvEdits {
    EnvEdits { clear_env: false, unset_vars: Seq::empty(), set_vars: Seq::empty() }
}

/// Clears the environment.
pub open spec fn clear_edit() -> EnvEdits {
    EnvEdits { clear_env: true, unset_vars: Seq::empty(), set_vars: Seq::empty() }
}

/// Removes one name.
pub open spec fn unset_edit(name: Seq<char>) -> EnvEdits {
    EnvEdits { clear_env: false, unset_vars: seq![name], set_vars: Seq::empty() }
}

/// Sets one name to one value.
pub open spec fn set_edit(name: Seq<char>, value: Seq<char>) -> EnvEdits {
    EnvEdits { clear_env: false, unset_vars: Seq::empty(), set_vars: seq![(name, value)] }
}

/// The edits of `a` followed by those of `b`.
pub open spec fn combine(a: EnvEdits, b: EnvEdits) -> EnvEdits {
    EnvEdits {
        clear_env: a.clear_env || b.clear_env,
        unset_vars: a.unset_vars + b.unset_vars,
        set_vars: a.set_vars + b.set_vars,
    }
}

/// The edits `a` put in front of an outcome; failures pass through.
pub open spec fn prefixed(
    a: EnvEdits,
    r: Result<Classified, ParseFailure>,
) -> Result<Classified, ParseFailure> {
    match r {
        Ok((m, c)) => Ok((combine(a, m), c)),
        Err(e) => Err(e),
    }
}

/// `-i` or `--ignore-environment`.
pub open spec fn is_ignore_flag(t: Seq<char>) -> bool {
    t == "-i"@ || t == "--ignore-environment"@
}

/// `-u` or `--unset`.
pub open spec fn is_unset_flag(t: Seq<char>) -> bool {
    t == "-u"@ || t == "--unset"@
}

/// `k` is the position of the first `=` in `t`.
pub open spec fn is_first_equals(t: Seq<char>, k: int) -> bool {
    0 <= k < t.len() && t[k] == '=' && !t.take(k).contains('=')
}

/// The position of the first `=` in `t`, for a token that holds one.
pub open spec fn first_equals(t: Seq<char>) -> int {
    choose|k: int| is_first_equals(t, k)
}

/// The name of an assignment token: what comes before its first `=`.
pub open spec fn assigned_name(t: Seq<char>) -> Seq<char> {
    t.take(first_equals(t))
}

/// The value of an assignment token: what comes after its first `=`.
pub open spec fn assigned_value(t: Seq<char>) -> Seq<char> {
    t.skip(first_equals(t) + 1)
}

/// A token that is read as an assignment.
pub open spec fn is_assignment(t: Seq<char>) -> bool {
    !is_ignore_flag(t) && !is_unset_flag(t) && t.contains('=')
}

/// An assignment token with a non-empty name.
pub open spec fn is_valid_assignment(t: Seq<char>) -> bool {
    is_assignment(t) && first_equals(t) > 0
}

/// A token that starts the command line when it is met in option position.
pub open spec fn is_plain(t: Seq<char>) -> bool {
    !is_ignore_flag(t) && !is_unset_flag(t) && !t.contains('=')
}

/// The classification of an argument list.
pub open spec fn classify(args: Seq<Seq<char>>) -> Result<Classified, ParseFailure>
    decreases args.len(),
{
    if args.len() == 0 {
        Err(ParseFailure::NoCommand)
    } else {
        let t = args[0];
        if is_ignore_flag(t) {
            prefixed(clear_edit(), classify(args.drop_first()))
        } else if is_unset_flag(t) {
            if args.len() == 1 {
                Err(ParseFailure::MissingArgument(t))
            } else {
                prefixed(unset_edit(args[1]), classify(args.skip(2)))
            }
        } else if t.contains('=') {
            if first_equals(t) == 0 {
                Err(ParseFailure::MalformedAssignment(t))
            } else {
                prefixed(
                    set_edit(assigned_name(t), assigned_value(t)),
                    classify(args.drop_first()),
                )
            }
        } else {
            Ok((no_edits(), args))
        }
    }
}

/// The value of an exec outcome of [`parse_args`].
pub open spec fn outcome_view(
    r: Result<(EnvironmentModification, Vec<String>), ParseError>,
) -> Result<Classified, ParseFailure> {
    match r {
        Ok((m, c)) => Ok((m@, strings_view(c@))),
        Err(e) => Err(e@),
    }
}

/// There is only one first `=`.
pub proof fn lemma_first_equals(t: Seq<char>, k: int)
    requires
        is_first_equals(t, k),
    ensures
        first_equals(t) == k,
{
    let j = first_equals(t);
    assert(is_first_equals(t, j));
    if j < k {
        assert(t.take(k)[j] == '=');
    } else if k < j {
        assert(t.take(j)[k] == '=');
    }
}

/// Adding no edits changes nothing.
pub proof fn lemma_combine_no_edits(a: EnvEdits)
    ensures
        combine(a, no_edits()) == a,
{
    assert(combine(a, no_edits()).unset_vars =~= a.unset_vars);
    assert(combine(a, no_edits()).set_vars =~= a.set_vars);
}

/// Putting `b` and then `a` in front is putting `a` followed by `b` in front.
pub proof fn lemma_prefixed_prefixed(a: EnvEdits, b: EnvEdits, r: Result<Classified, ParseFailure>)
    ensures
        prefixed(a, prefixed(b, r)) == prefixed(combine(a, b), r),
{
    if let Ok((m, c)) = r {
        assert(combine(a, combine(b, m)).unset_vars =~= combine(combine(a, b), m).unset_vars);
        assert(combine(a, combine(b, m)).set_vars =~= combine(combine(a, b), m).set_vars);
    }
}

/// Splits the argument list into environment edits and the child's command line.
pub fn parse_args(args: &[String]) -> (r: Result<(EnvironmentModification, Vec<String>), ParseError>)
    ensures
        outcome_view(r) == classify(strings_view(args@)),
        r is Ok ==> (r->Ok_0).1@.len() > 0,
{
    let ghost argv = strings_view(args@);
    let mut env_mod = EnvironmentModification {
        clear_env: false,
        unset_vars: Vec::new(),
        set_vars: Vec::new(),
    };
    proof {
        assert(env_mod@.unset_vars =~= Seq::empty());
        assert(env_mod@.set_vars =~= Seq::empty());
        assert(argv.skip(0) =~= argv);
        lemma_combine_no_edits(no_edits());
    }
    let n = args.len();
    let mut i: usize = 0;
    while i < n
        invariant
            n == args@.len(),
            argv == strings_view(args@),
            i <= n,
            prefixed(env_mod@, classify(argv.skip(i as int))) == classify(argv),
        decreases n - i,
    {
        let ghost before = env_mod@;
        let ghost rest = argv.skip(i as int);
        assert(rest[0] == args@[i as int]@);
        let arg = args[i].as_str();
        if same_text(arg, "-i") || same_text(arg, "--ignore-environment") {
            env_mod.clear_env = true;
            proof {
                assert(rest.drop_first() =~= argv.skip(i + 1));
                assert(env_mod@.unset_vars =~= combine(before, clear_edit()).unset_vars);
                assert(env_mod@.set_vars =~= combine(before, clear_edit()).set_vars);
                lemma_prefixed_prefixed(before, clear_edit(), classify(argv.skip(i + 1)));
            }
            i = i + 1;
        } else if same_text(arg, "-u") || same_text(arg, "--unset") {
            if i + 1 >= n {
                return Err(ParseError::MissingArgument(arg.to_owned()));
            }
            env_mod.unset_vars.push(args[i + 1].clone());
            proof {
                assert(rest[1] == args@[i + 1]@);
                assert(rest.skip(2) =~= argv.skip(i + 2));
                assert(env_mod@.unset_vars =~= combine(before, unset_edit(rest[1])).unset_vars);
                assert(env_mod@.set_vars =~= combine(before, unset_edit(rest[1])).set_vars);
                lemma_prefixed_prefixed(before, unset_edit(rest[1]), classify(argv.skip(i + 2)));
            }
            i = i + 2;
        } else {
            match find_char(arg, '=') {
                Some(k) => {
                    proof {
                        lemma_first_equals(arg@, k as int);
                    }
                    if k == 0 {
                        return Err(ParseError::MalformedAssignment(arg.to_owned()));
                    }
                    let len = arg.unicode_len();
                    let name = arg.substring_char(0, k).to_owned();
                    let value = arg.substring_char(k + 1, len).to_owned();
                    let ghost edit = set_edit(assigned_name(arg@), assigned_value(arg@));
                    env_mod.set_vars.push((name, value));
                    proof {
                        assert(rest.drop_first() =~= argv.skip(i + 1));
                        assert(name@ =~= assigned_name(arg@));
                        assert(value@ =~= assigned_value(arg@));
                        assert(env_mod@.unset_vars =~= combine(before, edit).unset_vars);
                        assert(env_mod@.set_vars =~= combine(before, edit).set_vars);
                        lemma_prefixed_prefixed(before, edit, classify(argv.skip(i + 1)));
                    }
                    i = i + 1;
                },
                None => {
                    let mut command: Vec<String> = Vec::new();
                    let mut j: usize = i;
                    while j < n
                        invariant
                            n == args@.len(),
                            argv == strings_view(args@),
                            i <= j <= n,
                            strings_view(command@) == argv.subrange(i as int, j as int),
                        decreases n - j,
                    {
                        let ghost prev = command@;
                        let s = args[j].clone();
                        command.push(s);
                        assert(command@ == prev.push(s));
                        assert(strings_view(command@) =~= strings_view(prev).push(argv[j as int]));
                        assert(strings_view(command@) =~= argv.subrange(i as int, j + 1));
                        j = j + 1;
                    }
                    proof {
                        assert(argv.subrange(i as int, n as int) =~= rest);
                        lemma_combine_no_edits(env_mod@);
                    }
                    return Ok((env_mod, command));
                },
            }
        }
    }
    proof {
        assert(argv.skip(i as int) =~= Seq::<Seq<char>>::empty());
    }
    Err(ParseError::NoCommand)
}

} // verus!
