//! The options of a render, as the command line gives them.
//!
//! An option is one argument: `-f` asks for a quick preview, `-s` and `-b`
//! are followed at once by the number of samples per pixel and of bounces per
//! path, and `-@` by the name of the output.

use crate::scene::lexer::{chars_of, Token};
use crate::scene::number::{count_of, parse_count};
use crate::{BOUNCE_AMOUNT, SAMPLES};
use vstd::prelude::*;
use vstd::slice::{slice_subrange, slice_to_vec};

verus! {

/// What one argument asks for. `T` is the type of a name's text.
#[derive(Debug, PartialEq, Eq)]
pub enum Setting<T> {
    /// Render a quick preview.
    Fast,
    /// Take this many samples per pixel.
    Samples(usize),
    /// Follow every path for at most this many bounces.
    Bounces(usize),
    /// Write the frame under this name.
    Output(T),
    /// Nothing: the argument is no option.
    Unknown,
}

/// How a render is to be made. `T` is the type of a name's text.
#[derive(Debug, PartialEq, Eq)]
pub struct OptionsOf<T> {
    pub fast: bool,
    pub samples: usize,
    pub max_bounce: usize,
    pub output: T,
}

/// The options as a program holds them.
pub type Options = OptionsOf<Token>;

impl View for Setting<Token> {
    type V = Setting<Seq<char>>;

    open spec fn view(&self) -> Setting<Seq<char>> {
        match self {
            Setting::Fast => Setting::Fast,
            Setting::Samples(n) => Setting::Samples(*n),
            Setting::Bounces(n) => Setting::Bounces(*n),
            Setting::Output(name) => Setting::Output(name@),
            Setting::Unknown => Setting::Unknown,
        }
    }
}

impl View for Options {
    type V = OptionsOf<Seq<char>>;

    open spec fn view(&self) -> OptionsOf<Seq<char>> {
        OptionsOf {
            fast: self.fast,
            samples: self.samples,
            max_bounce: self.max_bounce,
            output: self.output@,
        }
    }
}

/// Tells whether `arg` begins with a dash and `letter`.
pub open spec fn has_flag(arg: Seq<char>, letter: char) -> bool {
    arg.len() >= 2 && arg[0] == '-' && arg[1] == letter
}

/// How an argument reads, or `None` where a number is asked for and what
/// follows the flag is none. What follows `-f` is not read.
pub open spec fn setting_of(arg: Seq<char>) -> Option<Setting<Seq<char>>> {
    if has_flag(arg, 'f') {
        Some(Setting::Fast)
    } else if has_flag(arg, 's') {
        match count_of(arg.skip(2)) {
            Some(n) => Some(Setting::Samples(n)),
            None => None,
        }
    } else if has_flag(arg, 'b') {
        match count_of(arg.skip(2)) {
            Some(n) => Some(Setting::Bounces(n)),
            None => None,
        }
    } else if has_flag(arg, '@') {
        Some(Setting::Output(arg.skip(2)))
    } else {
        Some(Setting::Unknown)
    }
}

/// The options with one setting changed. Settings that are unknown change
/// nothing.
pub open spec fn with_setting(options: OptionsOf<Seq<char>>, setting: Setting<Seq<char>>) -> OptionsOf<
    Seq<char>,
> {
    match setting {
        Setting::Fast => OptionsOf { fast: true, ..options },
        Setting::Samples(n) => OptionsOf { samples: n, ..options },
        Setting::Bounces(n) => OptionsOf { max_bounce: n, ..options },
        Setting::Output(name) => OptionsOf { output: name, ..options },
        Setting::Unknown => options,
    }
}

/// The options of a render that is given none: a full render of 100 samples
/// per pixel and 10 bounces per path, written as `out`.
pub open spec fn default_options() -> OptionsOf<Seq<char>> {
    OptionsOf { fast: false, samples: SAMPLES, max_bounce: BOUNCE_AMOUNT, output: "out"@ }
}

/// Reads one argument.
pub fn setting(arg: &str) -> (found: Option<Setting<Token>>)
    ensures
        match found {
            Some(s) => setting_of(arg@) == Some(s@),
            None => setting_of(arg@) is None,
        },
{
    let chars = chars_of(arg);
    if chars.len() < 2 || chars[0] != '-' {
        return Some(Setting::Unknown);
    }
    let rest = slice_subrange(chars.as_slice(), 2, chars.len());
    proof {
        assert(rest@ == arg@.skip(2));
    }
    let letter = chars[1];
    if letter == 'f' {
        Some(Setting::Fast)
    } else if letter == 's' {
        match parse_count(rest) {
            Some(n) => Some(Setting::Samples(n)),
            None => None,
        }
    } else if letter == 'b' {
        match parse_count(rest) {
            Some(n) => Some(Setting::Bounces(n)),
            None => None,
        }
    } else if letter == '@' {
        Some(Setting::Output(slice_to_vec(rest)))
    } else {
        Some(Setting::Unknown)
    }
}

impl OptionsOf<Token> {
    /// The options of a render that is given none.
    pub fn new() -> (options: Options)
        ensures
            options@ == default_options(),
    {
        OptionsOf {
            fast: false,
            samples: SAMPLES,
            max_bounce: BOUNCE_AMOUNT,
            output: chars_of("out"),
        }
    }

    /// Changes one setting.
    pub fn with(self, setting: Setting<Token>) -> (options: Options)
        ensures
            options@ == with_setting(self@, setting@),
    {
        match setting {
            Setting::Fast => OptionsOf { fast: true, ..self },
            Setting::Samples(n) => OptionsOf { samples: n, ..self },
            Setting::Bounces(n) => OptionsOf { max_bounce: n, ..self },
            Setting::Output(name) => OptionsOf { output: name, ..self },
            Setting::Unknown => self,
        }
    }
}

/// A later setting of the same kind replaces an earlier one, and settings of
/// different kinds do not touch each other: applied in either order they give
/// the same options.
pub proof fn lemma_settings_are_independent(
    options: OptionsOf<Seq<char>>,
    a: Setting<Seq<char>>,
    b: Setting<Seq<char>>,
)
    ensures
        with_setting(with_setting(options, a), a) == with_setting(options, a),
        same_kind(a, b) ==> with_setting(with_setting(options, a), b) == with_setting(options, b),
        !same_kind(a, b) ==> with_setting(with_setting(options, a), b) == with_setting(
            with_setting(options, b),
            a,
        ),
{
}

/// Tells whether two settings change the same option.
pub open spec fn same_kind(a: Setting<Seq<char>>, b: Setting<Seq<char>>) -> bool {
    match (a, b) {
        (Setting::Fast, Setting::Fast) => true,
        (Setting::Samples(_), Setting::Samples(_)) => true,
        (Setting::Bounces(_), Setting::Bounces(_)) => true,
        (Setting::Output(_), Setting::Output(_)) => true,
        (Setting::Unknown, Setting::Unknown) => true,
        _ => false,
    }
}

} // verus!
