//! Turning command-line tokens into a search configuration, and running a configured
//! search over a text body.
use vstd::prelude::*;

use crate::matcher::{search, search_case_insensitive, search_case_insensitive_spec, search_spec};
use crate::text::chars_of;

verus! {

/// What one search is asked to do.
#[derive(Debug)]
pub struct Config {
    pub query: String,
    pub file_path: String,
    pub ignore_case: bool,
}

/// Why a search could not be configured or run.
#[derive(Debug)]
pub enum GrepError {
    /// Fewer than two positional arguments were given.
    MissingArguments,
    /// The text body could not be read; holds the reader's own message.
    IoError(String),
}

/// A token is a flag when it starts with `-`.
pub open spec fn is_flag(token: Seq<char>) -> bool {
    token.len() > 0 && token[0] == '-'
}

/// The one flag that has a meaning: `-i`, to ignore case.
pub open spec fn is_ignore_case_flag(token: Seq<char>) -> bool {
    token == seq!['-', 'i']
}

/// Some token of `flags` is exactly `-i`.
pub open spec fn has_ignore_case_flag(flags: Seq<Seq<char>>) -> bool {
    exists|i: int| 0 <= i < flags.len() && is_ignore_case_flag(#[trigger] flags[i])
}

/// The text of the message for the missing-arguments error.
pub open spec fn missing_arguments_message() -> Seq<char> {
    seq![
        'n', 'o', 't', ' ', 'e', 'n', 'o', 'u', 'g', 'h', ' ', 'a', 'r', 'g', 'u', 'm', 'e', 'n',
        't', 's',
    ]
}

impl GrepError {
    /// The message that tells a user what went wrong.
    pub fn message(&self) -> (r: String)
        ensures
            match self {
                GrepError::MissingArguments => r@ == missing_arguments_message(),
                GrepError::IoError(m) => r@ == m@,
            },
    {
        match self {
            GrepError::MissingArguments => {
                let r = String::from_str("not enough arguments");
                proof {
                    reveal_strlit("not enough arguments");
                    assert(r@ =~= missing_arguments_message());
                }
                r
            },
            GrepError::IoError(m) => m.clone(),
        }
    }
}

/// Whether `token` starts with `-`.
pub fn token_is_flag(token: &str) -> (r: bool)
    ensures
        r == is_flag(token@),
{
    token.unicode_len() > 0 && token.get_char(0) == '-'
}

/// Whether `token` is exactly `-i`.
pub fn token_is_ignore_case_flag(token: &str) -> (r: bool)
    ensures
        r == is_ignore_case_flag(token@),
{
    let cs = chars_of(token);
    let r = cs.len() == 2 && cs[0] == '-' && cs[1] == 'i';
    proof {
        if r {
            assert(cs@ =~= seq!['-', 'i']);
        }
    }
    r
}

/// Sorts command-line tokens into flags (those that start with `-`) and positional
/// inputs (all others), each kept in its order.
pub fn split_args(args: &[String]) -> (r: (Vec<String>, Vec<String>))
    ensures
        r.0.deep_view() == args.deep_view().filter(|t: Seq<char>| is_flag(t)),
        r.1.deep_view() == args.deep_view().filter(|t: Seq<char>| !is_flag(t)),
{
    let ghost all = args.deep_view();
    let mut flags: Vec<String> = Vec::new();
    let mut inputs: Vec<String> = Vec::new();
    let mut k: usize = 0;
    proof {
        reveal(Seq::filter);
        assert(all.take(0) =~= Seq::<Seq<char>>::empty());
    }
    while k < args.len()
        invariant
            all == args.deep_view(),
            k <= args.len(),
            flags.deep_view() == all.take(k as int).filter(|t: Seq<char>| is_flag(t)),
            inputs.deep_view() == all.take(k as int).filter(|t: Seq<char>| !is_flag(t)),
        decreases args.len() - k,
    {
        proof {
            reveal(Seq::filter);
            assert(all.take(k + 1).drop_last() =~= all.take(k as int));
        }
        let ghost old_flags = flags.deep_view();
        let ghost old_inputs = inputs.deep_view();
        if token_is_flag(args[k].as_str()) {
            flags.push(args[k].clone());
            assert(flags.deep_view() =~= old_flags.push(all[k as int]));
        } else {
            inputs.push(args[k].clone());
            assert(inputs.deep_view() =~= old_inputs.push(all[k as int]));
        }
        k += 1;
    }
    assert(all.take(k as int) =~= all);
    (flags, inputs)
}

impl Config {
    /// Builds the configuration from the flag tokens, the positional inputs and the value
    /// of the `IGNORE_CASE` environment variable, if it is set. The query and the file path
    /// are the first two inputs; case is ignored when the variable is set, whatever its
    /// value, or when some flag is exactly `-i`.
    pub fn build(flags: &[String], inputs: &[String], ignore_case_var: Option<&str>) -> (r:
        Result<Config, GrepError>)
        ensures
            r is Err <==> inputs.len() < 2,
            r is Err ==> r->Err_0 is MissingArguments,
            r matches Ok(c) ==> {
                &&& c.query@ == inputs[0]@
                &&& c.file_path@ == inputs[1]@
                &&& c.ignore_case == (ignore_case_var is Some || has_ignore_case_flag(
                    flags.deep_view(),
                ))
            },
    {
        if inputs.len() < 2 {
            return Err(GrepError::MissingArguments);
        }
        let query = inputs[0].clone();
        let file_path = inputs[1].clone();
        let mut ignore_case = ignore_case_var.is_some();
        let ghost fl = flags.deep_view();
        let mut k: usize = 0;
        while k < flags.len()
            invariant
                fl == flags.deep_view(),
                k <= flags.len(),
                ignore_case == (ignore_case_var is Some || exists|i: int|
                    0 <= i < k && is_ignore_case_flag(#[trigger] fl[i])),
            decreases flags.len() - k,
        {
            assert(fl[k as int] == flags[k as int]@);
            if token_is_ignore_case_flag(flags[k].as_str()) {
                ignore_case = true;
            }
            k += 1;
        }
        Ok(Config { query, file_path, ignore_case })
    }
}

/// The lines of `contents` that match the configured query, by the configured mode.
pub fn search_with(config: &Config, contents: &str) -> (r: Vec<String>)
    ensures
        r.deep_view() == if config.ignore_case {
            search_case_insensitive_spec(config.query@, contents@)
        } else {
            search_spec(config.query@, contents@)
        },
{
    if config.ignore_case {
        search_case_insensitive(config.query.as_str(), contents)
    } else {
        search(config.query.as_str(), contents)
    }
}

} // verus!
