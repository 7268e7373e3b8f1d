//! Command-line options and the choice of where the text comes from.

use vstd::prelude::*;
use crate::literal::QuoteFormat;

verus! {

/// The options the program is run with.
#[derive(Debug, PartialEq, Eq)]
pub struct Args {
    /// Quoting style of the literal.
    pub format: QuoteFormat,
    /// Read the text from the system clipboard.
    pub clipboard: bool,
    /// File to read, given by option.
    pub file: Option<String>,
    /// File to read, given as a positional argument.
    pub file_path: Option<String>,
}

/// Where the text to format is read from.
#[derive(Debug, PartialEq, Eq)]
pub enum InputSource {
    Clipboard,
    File(String),
    /// Standard input, which is a pipe or a file.
    Piped,
    /// The interactive line editor.
    Keyboard,
}

/// The file named by the options, the option before the positional argument.
pub open spec fn named_file(args: Args) -> Option<Seq<char>> {
    match args.file {
        Some(f) => Some(f@),
        None => match args.file_path {
            Some(f) => Some(f@),
            None => None,
        },
    }
}

/// Picks the input source: the clipboard when asked for, else a named file,
/// else standard input when it is not a terminal, else the line editor.
pub fn choose_input_source(args: &Args, stdin_is_terminal: bool) -> (r: InputSource)
    ensures
        args.clipboard ==> r == InputSource::Clipboard,
        !args.clipboard && named_file(*args) is Some ==> r is File && r->File_0@ == named_file(*args)->0,
        !args.clipboard && named_file(*args) is None && !stdin_is_terminal ==> r == InputSource::Piped,
        !args.clipboard && named_file(*args) is None && stdin_is_terminal ==> r == InputSource::Keyboard,
{
    if args.clipboard {
        InputSource::Clipboard
    } else if let Some(f) = &args.file {
        InputSource::File(f.clone())
    } else if let Some(f) = &args.file_path {
        InputSource::File(f.clone())
    } else if !stdin_is_terminal {
        InputSource::Piped
    } else {
        InputSource::Keyboard
    }
}

} // verus!
