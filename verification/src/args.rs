//! The command line: `[--mode <text>] [--speed <number>] <file>`.

use crate::speed::{parse_speed, speed_of};
use vstd::prelude::*;

verus! {

/// How the canvas is to be shown.
#[derive(Debug)]
pub struct Config {
    /// The display mode, kept as it was written.
    pub mode: String,
    /// The number of frames in a second.
    pub speed: u8,
}

/// What a `Config` holds, as mathematical values.
pub struct ConfigView {
    pub mode: Seq<char>,
    pub speed: u8,
}

impl View for Config {
    type V = ConfigView;

    open spec fn view(&self) -> ConfigView {
        ConfigView { mode: self.mode@, speed: self.speed }
    }
}

impl Default for Config {
    /// No mode and speed 0.
    fn default() -> (config: Config)
        ensures
            config@ == (ConfigView { mode: Seq::empty(), speed: 0 }),
    {
        Config { mode: String::new(), speed: 0 }
    }
}

/// What the command line left open, and the parser filled in.
#[derive(Clone, Copy, Debug, PartialEq, Eq, Structural)]
pub enum Warning {
    /// `--mode` was the last word: the mode is empty.
    MissingMode,
    /// `--speed` was the last word: the speed is read from an empty text.
    MissingSpeed,
    /// What stood for the speed writes none: the speed is 0.
    InvalidSpeed,
}

impl Warning {
    /// The words in which the warning is told.
    pub open spec fn text(self) -> Seq<char> {
        match self {
            Warning::MissingMode => "Provide arguments for mode"@,
            Warning::MissingSpeed => "Provide arguments for speed"@,
            Warning::InvalidSpeed => "Provide a number as speed"@,
        }
    }

    /// The words in which the warning is told.
    pub fn message(self) -> (message: &'static str)
        ensures
            message@ == self.text(),
    {
        match self {
            Warning::MissingMode => "Provide arguments for mode",
            Warning::MissingSpeed => "Provide arguments for speed",
            Warning::InvalidSpeed => "Provide a number as speed",
        }
    }
}

/// What a command line says.
#[derive(Debug)]
pub struct ParsedArgs {
    /// The path of the text to show; empty where the command line names none.
    pub file: String,
    pub config: Config,
    /// The warnings, in the order in which they arose.
    pub warnings: Vec<Warning>,
}

/// What a `ParsedArgs` holds, as mathematical values.
pub struct ParsedView {
    pub file: Seq<char>,
    pub config: ConfigView,
    pub warnings: Seq<Warning>,
}

impl View for ParsedArgs {
    type V = ParsedView;

    open spec fn view(&self) -> ParsedView {
        ParsedView { file: self.file@, config: self.config@, warnings: self.warnings@ }
    }
}

/// The word that announces the mode.
pub open spec fn mode_flag() -> Seq<char> {
    "--mode"@
}

/// The word that announces the speed.
pub open spec fn speed_flag() -> Seq<char> {
    "--speed"@
}

impl ParsedView {
    /// What an empty command line says.
    pub open spec fn initial() -> ParsedView {
        ParsedView {
            file: Seq::empty(),
            config: ConfigView { mode: Seq::empty(), speed: 0 },
            warnings: Seq::empty(),
        }
    }

    /// A word that is no flag and no flag's value names the file.
    pub open spec fn with_file(self, word: Seq<char>) -> ParsedView {
        ParsedView { file: word, ..self }
    }

    /// `--mode` takes the word that follows it; where none follows, the mode
    /// is empty and a warning is due.
    pub open spec fn with_mode(self, value: Option<Seq<char>>) -> ParsedView {
        match value {
            Some(word) => ParsedView {
                config: ConfigView { mode: word, ..self.config },
                ..self
            },
            None => ParsedView {
                config: ConfigView { mode: Seq::empty(), ..self.config },
                warnings: self.warnings.push(Warning::MissingMode),
                ..self
            },
        }
    }

    /// `--speed` reads the word that follows it as a speed; where none
    /// follows, a warning is due and the empty text is read.  Where what is
    /// read writes no speed, the speed is 0 and a warning is due.
    pub open spec fn with_speed(self, value: Option<Seq<char>>) -> ParsedView {
        let (word, warnings) = match value {
            Some(word) => (word, self.warnings),
            None => (Seq::empty(), self.warnings.push(Warning::MissingSpeed)),
        };
        match speed_of(word) {
            Some(speed) => ParsedView {
                config: ConfigView { speed, ..self.config },
                warnings,
                ..self
            },
            None => ParsedView {
                config: ConfigView { speed: 0, ..self.config },
                warnings: warnings.push(Warning::InvalidSpeed),
                ..self
            },
        }
    }
}

/// The word after the one at `at`, if there is one.
pub open spec fn following(args: Seq<Seq<char>>, at: nat) -> Option<Seq<char>> {
    if at + 1 < args.len() {
        Some(args[at as int + 1])
    } else {
        None
    }
}

/// What the words from `at` on add to what the words before them said.  A
/// flag takes the next word as its value, whatever that word is; every other
/// word names the file, so that the last of them stays.
pub open spec fn parse_from(args: Seq<Seq<char>>, at: nat, so_far: ParsedView) -> ParsedView
    decreases args.len() + 1 - at,
{
    if at >= args.len() {
        so_far
    } else if args[at as int] == mode_flag() {
        parse_from(args, at + 2, so_far.with_mode(following(args, at)))
    } else if args[at as int] == speed_flag() {
        parse_from(args, at + 2, so_far.with_speed(following(args, at)))
    } else {
        parse_from(args, at + 1, so_far.with_file(args[at as int]))
    }
}

/// What a command line says, every word of it counted, the first too.
pub open spec fn parsed(args: Seq<Seq<char>>) -> ParsedView {
    parse_from(args, 0, ParsedView::initial())
}

/// Whether a word is one of the two flags.
pub open spec fn is_flag(word: Seq<char>) -> bool {
    word == mode_flag() || word == speed_flag()
}

/// Where no word from `at` on is a flag, the last word names the file and
/// nothing else changes.
proof fn plain_words_from(args: Seq<Seq<char>>, at: nat, so_far: ParsedView)
    requires
        forall|i: int| at <= i < args.len() ==> !is_flag(#[trigger] args[i]),
    ensures
        parse_from(args, at, so_far) == if at < args.len() {
            so_far.with_file(args.last())
        } else {
            so_far
        },
    decreases args.len() - at,
{
    if at < args.len() {
        assert(!is_flag(args[at as int]));
        plain_words_from(args, at + 1, so_far.with_file(args[at as int]));
    }
}

/// On a command line without flags the last word names the file, and the
/// mode, the speed and the warnings are those of the empty command line.
pub proof fn plain_words_name_the_file(args: Seq<Seq<char>>)
    requires
        forall|i: int| 0 <= i < args.len() ==> !is_flag(#[trigger] args[i]),
    ensures
        parsed(args) == if args.len() > 0 {
            ParsedView::initial().with_file(args.last())
        } else {
            ParsedView::initial()
        },
{
    plain_words_from(args, 0, ParsedView::initial());
}

/// Reads the command line.  Nothing makes it fail: what is missing or
/// misspelt is filled in, and `warnings` says so.
pub fn parse_args(args: Vec<String>) -> (result: ParsedArgs)
    ensures
        result@ == parsed(args.deep_view()),
{
    let ghost words = args.deep_view();
    let mode_word: String = "--mode".to_owned();
    let speed_word: String = "--speed".to_owned();
    let mut result = ParsedArgs { file: String::new(), config: Config::default(), warnings: Vec::new() };
    assert(result@ =~= ParsedView::initial());
    let n: usize = args.len();
    let mut i: usize = 0;
    while i < n
        invariant
            i <= n,
            n == args@.len(),
            words == args.deep_view(),
            mode_word@ == mode_flag(),
            speed_word@ == speed_flag(),
            parse_from(words, i as nat, result@) == parsed(words),
        decreases n - i,
    {
        let word: &String = &args[i];
        let ghost before = result@;
        assert(word@ == words[i as int]);
        let is_mode: bool = *word == mode_word;
        let is_speed: bool = *word == speed_word;
        if is_mode || is_speed {
            let has_value: bool = i + 1 < n;
            assert(has_value ==> args[i + 1]@ == words[i + 1]);
            if is_mode {
                if has_value {
                    result.config.mode = args[i + 1].clone();
                } else {
                    result.warnings.push(Warning::MissingMode);
                    result.config.mode = String::new();
                }
                assert(result@ =~= before.with_mode(following(words, i as nat)));
            } else {
                let value: Option<u8> = if has_value {
                    parse_speed(args[i + 1].as_str())
                } else {
                    proof {
                        reveal_strlit("");
                        assert(""@ =~= Seq::<char>::empty());
                    }
                    result.warnings.push(Warning::MissingSpeed);
                    parse_speed("")
                };
                match value {
                    Some(speed) => {
                        result.config.speed = speed;
                    },
                    None => {
                        result.warnings.push(Warning::InvalidSpeed);
                        result.config.speed = 0;
                    },
                }
                assert(result@ =~= before.with_speed(following(words, i as nat)));
            }
            assert(!has_value ==> parse_from(words, (i + 2) as nat, result@) == parse_from(
                words,
                n as nat,
                result@,
            ));
            i = if has_value {
                i + 2
            } else {
                n
            };
        } else {
            result.file = word.clone();
            assert(result@ =~= before.with_file(words[i as int]));
            i += 1;
        }
    }
    result
}

} // verus!
