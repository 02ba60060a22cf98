//! Arguments of the performance display.
use vstd::prelude::*;
use vstd::string::{StrSliceExecFns, StringExecFns};

use crate::consumer::source::{Source, SourceView};
use crate::stream::Format;
use crate::text::same_text;

verus! {

/// What the arguments ask for.
#[derive(Clone, Debug, PartialEq)]
pub struct Args {
    /// Where the stream comes from.
    pub source: Source,
    /// Encoding of the stream.
    pub format: Format,
    /// Start the capture program as well?
    pub spawn: bool,
    /// Path of a calibration profile.
    pub profile: Option<String>,
    /// Path of a mapping.
    pub mapping: Option<String>,
    /// Part of the name of a MIDI port to connect to.
    pub midi_port: Option<String>,
}

/// Arguments by their characters.
pub struct ArgsView {
    pub source: SourceView,
    pub format: Format,
    pub spawn: bool,
    pub profile: Option<Seq<char>>,
    pub mapping: Option<Seq<char>>,
    pub midi_port: Option<Seq<char>>,
}

/// An optional text by its characters.
pub open spec fn optional_text(text: Option<String>) -> Option<Seq<char>> {
    match text {
        Some(text) => Some(text@),
        None => None,
    }
}

impl View for Args {
    type V = ArgsView;

    open spec fn view(&self) -> ArgsView {
        ArgsView {
            source: self.source@,
            format: self.format,
            spawn: self.spawn,
            profile: optional_text(self.profile),
            mapping: optional_text(self.mapping),
            midi_port: optional_text(self.midi_port),
        }
    }
}

/// What no arguments ask for.
pub open spec fn default_args() -> ArgsView {
    ArgsView {
        source: SourceView::Stdin,
        format: Format::Postcard,
        spawn: false,
        profile: None,
        mapping: None,
        midi_port: None,
    }
}

impl Default for Args {
    fn default() -> (r: Args)
        ensures
            r@ == default_args(),
    {
        Args {
            source: Source::Stdin,
            format: Format::Postcard,
            spawn: false,
            profile: None,
            mapping: None,
            midi_port: None,
        }
    }
}

/// Why arguments make no sense.
#[derive(Clone, Debug, PartialEq, Eq)]
pub enum ParseError {
    MissingValue { flag: &'static str },
    InvalidFormat(String),
    ConflictingSources,
    UnknownFlag(String),
    UnexpectedArgument(String),
    NonUtf8Argument,
}

/// An error by its characters.
pub enum ParseErrorView {
    MissingValue { flag: Seq<char> },
    InvalidFormat(Seq<char>),
    ConflictingSources,
    UnknownFlag(Seq<char>),
    UnexpectedArgument(Seq<char>),
    NonUtf8Argument,
}

impl View for ParseError {
    type V = ParseErrorView;

    open spec fn view(&self) -> ParseErrorView {
        match self {
            ParseError::MissingValue { flag } => ParseErrorView::MissingValue { flag: flag@ },
            ParseError::InvalidFormat(value) => ParseErrorView::InvalidFormat(value@),
            ParseError::ConflictingSources => ParseErrorView::ConflictingSources,
            ParseError::UnknownFlag(flag) => ParseErrorView::UnknownFlag(flag@),
            ParseError::UnexpectedArgument(arg) => ParseErrorView::UnexpectedArgument(arg@),
            ParseError::NonUtf8Argument => ParseErrorView::NonUtf8Argument,
        }
    }
}

impl ParseError {
    /// The message for the user.
    pub open spec fn message_text(self) -> Seq<char> {
        match self {
            ParseError::MissingValue { flag } => "missing value for "@ + flag@,
            ParseError::InvalidFormat(value) => {
                "invalid --format '"@ + value@ + "', expected postcard or json"@
            },
            ParseError::ConflictingSources => "only one of --tcp or --pipe may be specified"@,
            ParseError::UnknownFlag(flag) => "unknown flag "@ + flag@,
            ParseError::UnexpectedArgument(arg) => "unexpected argument "@ + arg@,
            ParseError::NonUtf8Argument => "arguments must be valid UTF-8"@,
        }
    }

    /// The message for the user.
    pub fn message(&self) -> (r: String)
        ensures
            r@ == self.message_text(),
    {
        match self {
            ParseError::MissingValue { flag } => "missing value for ".to_owned().concat(flag),
            ParseError::InvalidFormat(value) => {
                "invalid --format '".to_owned().concat(value.as_str()).concat("', expected postcard or json")
            },
            ParseError::ConflictingSources => "only one of --tcp or --pipe may be specified".to_owned(),
            ParseError::UnknownFlag(flag) => "unknown flag ".to_owned().concat(flag.as_str()),
            ParseError::UnexpectedArgument(arg) => "unexpected argument ".to_owned().concat(arg.as_str()),
            ParseError::NonUtf8Argument => "arguments must be valid UTF-8".to_owned(),
        }
    }
}

/// Does `text` look like a flag?
pub open spec fn is_flag(text: Seq<char>) -> bool {
    text.len() > 0 && text[0] == '-'
}

fn looks_like_flag(text: &str) -> (r: bool)
    ensures
        r == is_flag(text@),
{
    text.unicode_len() > 0 && text.get_char(0) == '-'
}

/// A raw argument; `None` for one that is no UTF-8.
pub type RawArg = Option<Seq<char>>;

/// The value that follows a flag.
pub open spec fn flag_value(rest: Seq<RawArg>, flag: Seq<char>) -> Result<Seq<char>, ParseErrorView> {
    if rest.len() == 0 {
        Err(ParseErrorView::MissingValue { flag })
    } else {
        match rest[0] {
            None => Err(ParseErrorView::NonUtf8Argument),
            Some(value) => if is_flag(value) {
                Err(ParseErrorView::MissingValue { flag })
            } else {
                Ok(value)
            },
        }
    }
}

/// What some arguments ask for, and the source other than standard input that
/// they named, if they named one.
pub struct ParsingView {
    pub args: ArgsView,
    pub named: Option<SourceView>,
}

/// The arguments with a source chosen. Standard input may be chosen any time;
/// two different other sources conflict, whatever was chosen between them.
pub open spec fn with_source(so_far: ParsingView, source: SourceView) -> Result<ParsingView, ParseErrorView> {
    if source is Stdin {
        Ok(ParsingView { args: ArgsView { source, ..so_far.args }, ..so_far })
    } else if so_far.named is Some && so_far.named != Some(source) {
        Err(ParseErrorView::ConflictingSources)
    } else {
        Ok(ParsingView { args: ArgsView { source, ..so_far.args }, named: Some(source) })
    }
}

/// The format that `value` names.
pub open spec fn format_named(value: Seq<char>) -> Result<Format, ParseErrorView> {
    if value == "postcard"@ {
        Ok(Format::Postcard)
    } else if value == "json"@ {
        Ok(Format::Json)
    } else {
        Err(ParseErrorView::InvalidFormat(value))
    }
}

/// The arguments after the first one of `raw`, and how many of `raw` it took.
pub open spec fn first_argument(raw: Seq<RawArg>, so_far: ParsingView) -> Result<(ParsingView, int), ParseErrorView> {
    let args = so_far.args;
    match raw[0] {
        None => Err(ParseErrorView::NonUtf8Argument),
        Some(arg) => {
            let value = flag_value(raw.skip(1), arg);
            if arg == "--stdin"@ {
                match with_source(so_far, SourceView::Stdin) {
                    Ok(after) => Ok((after, 1)),
                    Err(error) => Err(error),
                }
            } else if arg == "--spawn"@ {
                Ok((ParsingView { args: ArgsView { spawn: true, ..args }, ..so_far }, 1))
            } else if arg == "--tcp"@ || arg == "--pipe"@ {
                match value {
                    Ok(text) => match with_source(
                        so_far,
                        if arg == "--tcp"@ {
                            SourceView::Tcp(text)
                        } else {
                            SourceView::Pipe(text)
                        },
                    ) {
                        Ok(after) => Ok((after, 2)),
                        Err(error) => Err(error),
                    },
                    Err(error) => Err(error),
                }
            } else if arg == "--format"@ {
                match value {
                    Ok(text) => match format_named(text) {
                        Ok(format) => Ok((ParsingView { args: ArgsView { format, ..args }, ..so_far }, 2)),
                        Err(error) => Err(error),
                    },
                    Err(error) => Err(error),
                }
            } else if arg == "--profile"@ || arg == "--mapping"@ || arg == "--midi-port"@ {
                match value {
                    Ok(text) => Ok(
                        (
                            ParsingView {
                                args: if arg == "--profile"@ {
                                    ArgsView { profile: Some(text), ..args }
                                } else if arg == "--mapping"@ {
                                    ArgsView { mapping: Some(text), ..args }
                                } else {
                                    ArgsView { midi_port: Some(text), ..args }
                                },
                                ..so_far
                            },
                            2,
                        ),
                    ),
                    Err(error) => Err(error),
                }
            } else if is_flag(arg) {
                Err(ParseErrorView::UnknownFlag(arg))
            } else {
                Err(ParseErrorView::UnexpectedArgument(arg))
            }
        },
    }
}

/// What `raw` asks for beyond what was asked for so far, from the first
/// argument to the last. The first fault decides.
pub open spec fn arguments_after(raw: Seq<RawArg>, so_far: ParsingView) -> Result<ArgsView, ParseErrorView>
    decreases raw.len(),
{
    if raw.len() == 0 {
        Ok(so_far.args)
    } else {
        match first_argument(raw, so_far) {
            Ok((after, taken)) => arguments_after(
                raw.skip(
                    if taken == 1 {
                        1
                    } else {
                        2
                    },
                ),
                after,
            ),
            Err(error) => Err(error),
        }
    }
}

/// What `raw` asks for beyond `args`.
pub open spec fn arguments(raw: Seq<RawArg>, args: ArgsView) -> Result<ArgsView, ParseErrorView> {
    arguments_after(raw, ParsingView { args, named: None })
}

/// Raw arguments by their characters.
pub open spec fn raw_view(raw: Seq<Option<String>>) -> Seq<RawArg> {
    raw.map_values(|arg: Option<String>| optional_text(arg))
}

fn next_value(raw: &Vec<Option<String>>, at: usize, flag: &'static str) -> (r: Result<String, ParseError>)
    requires
        at <= raw@.len(),
    ensures
        match r {
            Ok(value) => flag_value(raw_view(raw@).skip(at as int), flag@) == Ok::<_, ParseErrorView>(value@)
                && at < raw@.len(),
            Err(error) => flag_value(raw_view(raw@).skip(at as int), flag@) == Err::<Seq<char>, _>(error@),
        },
{
    if at == raw.len() {
        return Err(ParseError::MissingValue { flag });
    }
    assert(raw_view(raw@).skip(at as int)[0] == optional_text(raw@[at as int]));
    match &raw[at] {
        None => Err(ParseError::NonUtf8Argument),
        Some(value) => {
            if looks_like_flag(value.as_str()) {
                Err(ParseError::MissingValue { flag })
            } else {
                Ok(value.clone())
            }
        },
    }
}

/// What the arguments ask for so far.
struct Parsing {
    args: Args,
    /// The source other than standard input that was named.
    named: Option<Source>,
}

impl View for Parsing {
    type V = ParsingView;

    closed spec fn view(&self) -> ParsingView {
        ParsingView {
            args: self.args@,
            named: match self.named {
                Some(source) => Some(source@),
                None => None,
            },
        }
    }
}

fn set_source(parsed: &mut Parsing, source: Source) -> (r: Result<(), ParseError>)
    ensures
        match r {
            Ok(_) => with_source(old(parsed)@, source@) == Ok::<_, ParseErrorView>(final(parsed)@),
            Err(error) => with_source(old(parsed)@, source@) == Err::<ParsingView, _>(error@),
        },
{
    if let Source::Stdin = source {
        parsed.args.source = source;
        return Ok(());
    }
    if let Some(before) = &parsed.named {
        if !before.same(&source) {
            return Err(ParseError::ConflictingSources);
        }
    }
    parsed.named = Some(source.duplicate());
    parsed.args.source = source;
    Ok(())
}

fn parse_format(value: &str) -> (r: Result<Format, ParseError>)
    ensures
        match r {
            Ok(format) => format_named(value@) == Ok::<_, ParseErrorView>(format),
            Err(error) => format_named(value@) == Err::<Format, _>(error@),
        },
{
    if same_text(value, "postcard") {
        Ok(Format::Postcard)
    } else if same_text(value, "json") {
        Ok(Format::Json)
    } else {
        Err(ParseError::InvalidFormat(value.to_owned()))
    }
}

impl Parsing {
    /// Take in the argument at `at`. Returns how many arguments it took.
    fn parse_one(&mut self, raw: &Vec<Option<String>>, at: usize) -> (r: Result<usize, ParseError>)
        requires
            at < raw@.len(),
        ensures
            match r {
                Ok(taken) => first_argument(raw_view(raw@).skip(at as int), old(self)@) == Ok::<_, ParseErrorView>(
                    (final(self)@, taken as int),
                ) && 1 <= taken <= 2 && at + taken <= raw@.len(),
                Err(error) => first_argument(raw_view(raw@).skip(at as int), old(self)@) == Err::<(ParsingView, int), _>(
                    error@,
                ),
            },
    {
        proof {
            assert(raw_view(raw@).skip(at as int)[0] == optional_text(raw@[at as int]));
            assert(raw_view(raw@).skip(at as int).skip(1) =~= raw_view(raw@).skip(at + 1));
            lemma_flags_differ();
        }
        let total: usize = raw.len();
        assert(at + 1 <= total);
        let arg = match &raw[at] {
            Some(arg) => arg.as_str(),
            None => {
                return Err(ParseError::NonUtf8Argument);
            },
        };
        if same_text(arg, "--stdin") {
            match set_source(self, Source::Stdin) {
                Ok(_) => Ok(1),
                Err(error) => Err(error),
            }
        } else if same_text(arg, "--spawn") {
            self.args.spawn = true;
            Ok(1)
        } else if same_text(arg, "--tcp") {
            match next_value(raw, at + 1, "--tcp") {
                Ok(addr) => match set_source(self, Source::Tcp(addr)) {
                    Ok(_) => Ok(2),
                    Err(error) => Err(error),
                },
                Err(error) => Err(error),
            }
        } else if same_text(arg, "--pipe") {
            match next_value(raw, at + 1, "--pipe") {
                Ok(name) => match set_source(self, Source::Pipe(name)) {
                    Ok(_) => Ok(2),
                    Err(error) => Err(error),
                },
                Err(error) => Err(error),
            }
        } else if same_text(arg, "--format") {
            match next_value(raw, at + 1, "--format") {
                Ok(value) => match parse_format(value.as_str()) {
                    Ok(format) => {
                        self.args.format = format;
                        Ok(2)
                    },
                    Err(error) => Err(error),
                },
                Err(error) => Err(error),
            }
        } else if same_text(arg, "--profile") {
            match next_value(raw, at + 1, "--profile") {
                Ok(path) => {
                    self.args.profile = Some(path);
                    Ok(2)
                },
                Err(error) => Err(error),
            }
        } else if same_text(arg, "--mapping") {
            match next_value(raw, at + 1, "--mapping") {
                Ok(path) => {
                    self.args.mapping = Some(path);
                    Ok(2)
                },
                Err(error) => Err(error),
            }
        } else if same_text(arg, "--midi-port") {
            match next_value(raw, at + 1, "--midi-port") {
                Ok(name) => {
                    self.args.midi_port = Some(name);
                    Ok(2)
                },
                Err(error) => Err(error),
            }
        } else if looks_like_flag(arg) {
            Err(ParseError::UnknownFlag(arg.to_owned()))
        } else {
            Err(ParseError::UnexpectedArgument(arg.to_owned()))
        }
    }

}

impl Args {
    /// What the arguments ask for. An argument that is no UTF-8 is given as
    /// `None`.
    pub fn parse_from(raw: &Vec<Option<String>>) -> (r: Result<Args, ParseError>)
        ensures
            match r {
                Ok(args) => arguments(raw_view(raw@), default_args()) == Ok::<_, ParseErrorView>(args@),
                Err(error) => arguments(raw_view(raw@), default_args()) == Err::<ArgsView, _>(error@),
            },
    {
        let mut parsed = Parsing { args: Args::default(), named: None };
        let mut at: usize = 0;
        let ghost all = raw_view(raw@);
        proof {
            assert(all.skip(0) =~= all);
        }
        while at < raw.len()
            invariant
                at <= raw@.len(),
                all == raw_view(raw@),
                arguments(all, default_args()) == arguments_after(all.skip(at as int), parsed@),
            decreases raw@.len() - at,
        {
            match parsed.parse_one(raw, at) {
                Ok(taken) => {
                    proof {
                        assert(all.skip(at as int).skip(taken as int) =~= all.skip(at + taken));
                    }
                    at = at + taken;
                },
                Err(error) => {
                    return Err(error);
                },
            }
        }
        Ok(parsed.args)
    }
}

/// No two of the flags are the same.
proof fn lemma_flags_differ()
    ensures
        "--tcp"@ != "--pipe"@,
        "--profile"@ != "--mapping"@,
        "--profile"@ != "--midi-port"@,
        "--mapping"@ != "--midi-port"@,
        "--tcp"@ != "--stdin"@,
        "--tcp"@ != "--spawn"@,
{
    reveal_strlit("--tcp");
    reveal_strlit("--pipe");
    reveal_strlit("--profile");
    reveal_strlit("--mapping");
    reveal_strlit("--midi-port");
    reveal_strlit("--stdin");
    reveal_strlit("--spawn");
    assert("--tcp"@.len() == 5 && "--pipe"@.len() == 6 && "--stdin"@.len() == 7);
    assert("--profile"@[2] == 'p' && "--mapping"@[2] == 'm' && "--midi-port"@[3] == 'i' && "--mapping"@[3] == 'a');
    assert("--midi-port"@[2] == 'm');
}

/// The name of a format.
pub fn format_label(format: Format) -> (r: &'static str)
    ensures
        r@ == match format {
            Format::Postcard => "postcard"@,
            Format::Json => "json"@,
        },
{
    match format {
        Format::Postcard => "postcard",
        Format::Json => "json",
    }
}

/// How a source is shown.
pub fn source_label(source: &Source) -> (r: String)
    ensures
        r@ == match source@ {
            SourceView::Stdin => "stdin"@,
            SourceView::Tcp(addr) => "tcp: "@ + addr,
            SourceView::Pipe(name) => "pipe: "@ + name,
        },
{
    match source {
        Source::Stdin => "stdin".to_owned(),
        Source::Tcp(addr) => "tcp: ".to_owned().concat(addr.as_str()),
        Source::Pipe(name) => "pipe: ".to_owned().concat(name.as_str()),
    }
}

/// The label of a format is the name that selects it.
pub proof fn format_labels_select(format: Format)
    ensures
        format_named(
            match format {
                Format::Postcard => "postcard"@,
                Format::Json => "json"@,
            },
        ) == Ok::<_, ParseErrorView>(format),
{
    reveal_strlit("postcard");
    reveal_strlit("json");
    assert("postcard"@.len() != "json"@.len());
}

/// Once a source other than standard input was named, arguments that go
/// through read from it or from standard input.
pub proof fn one_other_source_at_most(raw: Seq<RawArg>, so_far: ParsingView, source: SourceView)
    requires
        so_far.named == Some(source),
        so_far.args.source is Stdin || so_far.args.source == source,
    ensures
        arguments_after(raw, so_far) matches Ok(args) ==> args.source is Stdin || args.source == source,
    decreases raw.len(),
{
    if raw.len() > 0 {
        if let Ok((after, taken)) = first_argument(raw, so_far) {
            one_other_source_at_most(
                raw.skip(
                    if taken == 1 {
                        1
                    } else {
                        2
                    },
                ),
                after,
                source,
            );
        }
    }
}

/// A source is shown by its kind and its address.
pub proof fn sources_are_shown_by_address(source: Source, r: String)
    requires
        call_ensures(source_label, (&source,), r),
    ensures
        source is Stdin ==> r@ == "stdin"@,
        source matches Source::Tcp(addr) ==> r@ == "tcp: "@ + addr@,
        source matches Source::Pipe(name) ==> r@ == "pipe: "@ + name@,
{
}

} // verus!
