//! Resolving the secret flag from its three sources.
use vstd::prelude::*;
use crate::quiz::Flag;
use crate::text::{trim_end, trimmed_end};

verus! {

/// The flag that the sources give: the environment variable's value when it
/// is set (even to the empty string), else the flag file's contents without
/// trailing whitespace when the file could be read, else the literal.
pub open spec fn resolved_flag(
    env_value: Option<Seq<char>>,
    file_contents: Option<Seq<char>>,
    fallback: Seq<char>,
) -> Seq<char> {
    match env_value {
        Some(v) => v,
        None => match file_contents {
            Some(c) => trimmed_end(c),
            None => fallback,
        },
    }
}

/// A set environment variable wins over the file, and with neither source
/// the literal is used.
pub proof fn lemma_flag_precedence(
    env_value: Option<Seq<char>>,
    file_contents: Option<Seq<char>>,
    fallback: Seq<char>,
)
    ensures
        env_value is Some ==> resolved_flag(env_value, file_contents, fallback) == env_value->Some_0,
        env_value is None && file_contents is None ==> resolved_flag(env_value, file_contents, fallback) == fallback,
{
}

pub open spec fn option_view(o: Option<String>) -> Option<Seq<char>> {
    match o {
        Some(s) => Some(s@),
        None => None,
    }
}

impl Flag {
    /// Resolves the flag. `env_value` is the value of the variable named by
    /// `self.env`, if set; `file_contents` is what the file at `self.file`
    /// holds, if it could be read.
    pub fn resolve(&self, env_value: Option<String>, file_contents: Option<String>) -> (r: String)
        ensures
            r@ == resolved_flag(option_view(env_value), option_view(file_contents), self.static_str@),
    {
        match env_value {
            Some(v) => v,
            None => match file_contents {
                Some(c) => trim_end(c.as_str()),
                None => self.static_str.clone(),
            },
        }
    }
}

} // verus!
