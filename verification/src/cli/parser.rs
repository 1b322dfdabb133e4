//! Splitting a line of input into the name of a command and its arguments.

use std::str::Chars;
use vstd::prelude::*;
use vstd::std_specs::iter::IteratorSpec;

verus! {

/// A command as it was typed: its name and the words after it.
#[derive(Debug)]
pub struct Function {
    pub name: String,
    pub args: Vec<String>,
}

/// Why a line is no command.
#[derive(Debug)]
pub struct CLIError {
    pub message: String,
}

/// The words of `text`: what stands between its spaces, before the first and
/// after the last. A text with `n` spaces has `n + 1` words, some of them
/// empty where spaces meet or stand at an end.
pub open spec fn split_words(text: Seq<char>) -> Seq<Seq<char>>
    decreases text.len(),
{
    if text.len() == 0 {
        seq![Seq::empty()]
    } else {
        let before = split_words(text.drop_last());
        if text.last() == ' ' {
            before.push(Seq::empty())
        } else {
            before.update(before.len() - 1, before.last().push(text.last()))
        }
    }
}

/// The words with one space between each two of them.
pub open spec fn join_words(words: Seq<Seq<char>>) -> Seq<char>
    decreases words.len(),
{
    if words.len() == 0 {
        Seq::empty()
    } else if words.len() == 1 {
        words[0]
    } else {
        join_words(words.drop_last()) + seq![' '] + words.last()
    }
}

/// Splitting undoes joining: a text has at least one word, none of its words
/// holds a space, and the words joined by spaces are the text again.
pub proof fn lemma_split_words(text: Seq<char>)
    ensures
        split_words(text).len() >= 1,
        forall|i: int, j: int|
            0 <= i < split_words(text).len() && 0 <= j < split_words(text)[i].len()
                ==> split_words(text)[i][j] != ' ',
        join_words(split_words(text)) == text,
    decreases text.len(),
{
    if text.len() == 0 {
    } else {
        let before = split_words(text.drop_last());
        lemma_split_words(text.drop_last());
        let words = split_words(text);
        if text.last() == ' ' {
            assert(words.drop_last() =~= before);
        } else {
            if before.len() > 1 {
                assert(words.drop_last() =~= before.drop_last());
            }
            assert(text.drop_last().push(text.last()) =~= text);
        }
    }
}

/// Splits a line at its spaces. The first word is the name of the command,
/// the others are its arguments. Every line has a first word, if only the
/// empty one, so the result is never an error.
pub fn parse_function(chars: Chars<'_>) -> (result: Result<Function, CLIError>)
    requires
        chars.decrease() is Some,
    ensures
        result matches Ok(function) && function.name@ == split_words(chars.remaining())[0]
            && function.args.deep_view() == split_words(chars.remaining()).drop_first(),
{
    let ghost text = chars.remaining();
    let mut chars = chars;
    let mut words: Vec<String> = Vec::new();
    let mut current_string = String::new();
    let ghost mut at: int = 0;
    loop
        invariant_except_break
            0 <= at <= text.len(),
            chars.remaining() == text.skip(at),
            chars.decrease() is Some,
            words.deep_view().push(current_string@) == split_words(text.take(at)),
        ensures
            words.deep_view() == split_words(text),
        decreases chars.decrease()->0,
    {
        match chars.next() {
            Some(' ') => {
                words.push(current_string);
                current_string = String::new();
                proof {
                    assert(text.take(at + 1).drop_last() =~= text.take(at));
                    at = at + 1;
                }
                continue ;
            },
            Some(char) => {
                current_string.push(char);
                proof {
                    assert(text.take(at + 1).drop_last() =~= text.take(at));
                    at = at + 1;
                }
            },
            None => {
                words.push(current_string);
                proof {
                    assert(text.take(at) =~= text);
                }
                break ;
            },
        };
    }
    proof {
        lemma_split_words(text);
    }
    let name = words.remove(0);
    Ok(Function { name, args: words })
}

} // verus!
