//! Splitting an input line into a command name and its arguments.
use vstd::prelude::*;
use crate::text::{all_blank, is_all_blank, texts};
use vstd::string::StrSliceExecFns;

verus! {

/// The words that POSIX shell word splitting makes of a line, or `None`
/// where the line cannot be split (an unterminated quote or escape).
pub uninterp spec fn shell_words(line: Seq<char>) -> Option<Seq<Seq<char>>>;

/// Relies on `shlex::split`: word splitting with single and double quotes and
/// backslash escapes, `None` on erroneous input.
#[verifier::external_body]
fn split_words(line: &str) -> (r: Option<Vec<String>>)
    ensures
        r is Some <==> shell_words(line@) is Some,
        r is Some ==> texts(r->0@) == shell_words(line@)->0,
{
    shlex::split(line)
}

/// The command that a sequence of words makes: none where there is no
/// word or the first word is empty; else the first word and the rest.
pub open spec fn command_of(w: Seq<Seq<char>>) -> Option<(Seq<char>, Seq<Seq<char>>)> {
    if w.len() == 0 || w[0].len() == 0 {
        None
    } else {
        Some((w[0], w.drop_first()))
    }
}

/// What `parse_input` yields for a line: nothing for a blank line or an
/// unsplittable line; else the command that its words make.
pub open spec fn parsed(line: Seq<char>) -> Option<(Seq<char>, Seq<Seq<char>>)> {
    if all_blank(line) {
        None
    } else {
        match shell_words(line) {
            None => None,
            Some(w) => command_of(w),
        }
    }
}

/// Takes the command name and its arguments out of split words.
pub fn command_of_words(words: Vec<String>) -> (r: Option<(String, Vec<String>)>)
    ensures
        r is None <==> command_of(texts(words@)) is None,
        r is Some ==> (r->0).0@ == (command_of(texts(words@))->0).0,
        r is Some ==> texts((r->0).1@) == (command_of(texts(words@))->0).1,
{
    let mut words = words;
    if words.len() == 0 {
        return None;
    }
    let ghost all = words@;
    let name = words.remove(0);
    proof {
        assert(texts(all)[0] == name@);
        assert(texts(words@) =~= texts(all).drop_first());
    }
    if name.as_str().unicode_len() == 0 {
        return None;
    }
    Some((name, words))
}

/// Splits `input` into a command name and its arguments.
pub fn parse_input(input: &str) -> (r: Option<(String, Vec<String>)>)
    ensures
        r is None <==> parsed(input@) is None,
        r is Some ==> (r->0).0@ == (parsed(input@)->0).0,
        r is Some ==> texts((r->0).1@) == (parsed(input@)->0).1,
        r is Some ==> (r->0).0@.len() > 0,
{
    if is_all_blank(input) {
        return None;
    }
    match split_words(input) {
        None => None,
        Some(words) => command_of_words(words),
    }
}

/// A line of whitespace alone never yields a command.
pub proof fn lemma_blank_line_yields_nothing(line: Seq<char>)
    requires
        all_blank(line),
    ensures
        parsed(line) is None,
{
}

} // verus!
