//! Reading `--help` output: the description, subcommands, options and examples
//! that a command line tool prints about itself.
use std::collections::VecDeque;
use vstd::prelude::*;
use crate::command_knowledge::models::{ApplicationRecord, CommandIndexResult};
use crate::commands::ports::opt_text;
use crate::paths::{file_name, file_stem, path_file_name, path_file_stem, plain_path};
use crate::text::{
    alphanumeric, contains, contains_str, eq_ignore_ascii_case, eq_ignore_case, equals_str,
    first_whitespace, first_ws_from, has_char, is_alphanumeric, is_ws, lines, lines_of, lower,
    lowercase, seqs_of, skip_chars, slice_chars, split, split_on, starts_with, starts_with_str,
    string_of, take, take_chars, concat_chars, copy_strings, join, join_strings, owned, string_seqs, trim, trim_chars, trim_end_char, trim_end_matching,
    whitespace_pair, ws_pair_from,
};

verus! {

/// Reads the help output of one kind of command line tool.
pub trait CommandParser {
    /// The help texts this parser reads without cutting inside a character.
    spec fn reads_safely(&self, output: Seq<char>) -> bool;

    /// How well this parser fits the application (the highest score wins).
    fn score(&self, application: &ApplicationRecord) -> u8;

    /// Reads the help output of the command `command_path` of the application.
    fn parse(&self, command_path: &Vec<String>, output: &str) -> ParsedCommandHelp
        requires
            self.reads_safely(output@),
    ;
}

/// What a help text says about a command.
#[derive(Clone, Debug)]
pub struct ParsedCommandHelp {
    pub description: Option<String>,
    pub subcommands: Vec<ParsedSubcommand>,
    pub options: Vec<ParsedOption>,
    pub examples: Vec<String>,
}

/// A subcommand listed in a help text.
#[derive(Clone, Debug)]
pub struct ParsedSubcommand {
    pub name: String,
    pub description: Option<String>,
}

/// An option listed in a help text.
#[derive(Clone, Debug)]
pub struct ParsedOption {
    pub name: String,
    pub short_name: Option<String>,
    pub description: Option<String>,
    pub takes_value: bool,
}

/// The part of a help text that a line belongs to.
#[derive(Clone, Copy, Debug)]
pub enum HelpSection {
    Unknown,
    Commands,
    Options,
    Examples,
}

/// A subcommand, as characters.
pub struct SubcommandSpec {
    pub name: Seq<char>,
    pub description: Option<Seq<char>>,
}

/// An option, as characters.
pub struct OptionSpec {
    pub name: Seq<char>,
    pub short_name: Option<Seq<char>>,
    pub description: Option<Seq<char>>,
    pub takes_value: bool,
}

/// A parsed help text, as characters.
pub struct HelpSpec {
    pub description: Option<Seq<char>>,
    pub subcommands: Seq<SubcommandSpec>,
    pub options: Seq<OptionSpec>,
    pub examples: Seq<Seq<char>>,
}

pub open spec fn opt_chars(o: Option<String>) -> Option<Seq<char>> {
    match o {
        Some(s) => Some(s@),
        None => None,
    }
}

pub open spec fn opt_vec_chars(o: Option<Vec<char>>) -> Option<Seq<char>> {
    match o {
        Some(s) => Some(s@),
        None => None,
    }
}

impl View for ParsedSubcommand {
    type V = SubcommandSpec;

    open spec fn view(&self) -> SubcommandSpec {
        SubcommandSpec { name: self.name@, description: opt_chars(self.description) }
    }
}

impl View for ParsedOption {
    type V = OptionSpec;

    open spec fn view(&self) -> OptionSpec {
        OptionSpec {
            name: self.name@,
            short_name: opt_chars(self.short_name),
            description: opt_chars(self.description),
            takes_value: self.takes_value,
        }
    }
}

pub fn copy_string(s: &String) -> (r: String)
    ensures
        r@ == s@,
{
    s.clone()
}

pub fn copy_opt_string(s: &Option<String>) -> (r: Option<String>)
    ensures
        opt_chars(r) == opt_chars(*s),
{
    match s {
        Some(t) => Some(t.clone()),
        None => None,
    }
}

pub fn copy_subcommand(s: &ParsedSubcommand) -> (r: ParsedSubcommand)
    ensures
        r@ == s@,
{
    ParsedSubcommand { name: copy_string(&s.name), description: copy_opt_string(&s.description) }
}

pub open spec fn subcommand_views(v: Seq<ParsedSubcommand>) -> Seq<SubcommandSpec> {
    v.map_values(|x: ParsedSubcommand| x@)
}

pub open spec fn option_views(v: Seq<ParsedOption>) -> Seq<OptionSpec> {
    v.map_values(|x: ParsedOption| x@)
}

pub open spec fn string_views(v: Seq<String>) -> Seq<Seq<char>> {
    v.map_values(|x: String| x@)
}

impl View for ParsedCommandHelp {
    type V = HelpSpec;

    open spec fn view(&self) -> HelpSpec {
        HelpSpec {
            description: opt_chars(self.description),
            subcommands: subcommand_views(self.subcommands@),
            options: option_views(self.options@),
            examples: string_views(self.examples@),
        }
    }
}

/// The heading a line stands for, if any: the line trimmed, trailing colons
/// dropped, compared without regard to ASCII case.
pub open spec fn section_of(line: Seq<char>) -> Option<HelpSection> {
    let n = lower(trim_end_char(trim(line), ':'));
    if n == "commands"@ || n == "subcommands"@ || n == "available commands"@ || n
        == "available subcommands"@ || n == "management commands"@ || n == "common commands"@ {
        Some(HelpSection::Commands)
    } else if n == "options"@ || n == "flags"@ || n == "global options"@ || n
        == "global flags"@ {
        Some(HelpSection::Options)
    } else if n == "examples"@ || n == "example"@ {
        Some(HelpSection::Examples)
    } else if contains(n, "common"@) && contains(n, "commands"@) {
        Some(HelpSection::Commands)
    } else if contains(n, "available"@) && contains(n, "commands"@) {
        Some(HelpSection::Commands)
    } else {
        None
    }
}

/// A trimmed line that can serve as the description of a command.
pub open spec fn is_description_line(t: Seq<char>) -> bool {
    t.len() > 0 && !starts_with(lower(t), "usage:"@) && section_of(t) is None
}

/// The words of a line as a heading: the line trimmed, trailing colons
/// dropped, in ASCII lower case.
pub open spec fn heading_words(line: Seq<char>) -> Seq<char> {
    lower(trim_end_char(trim(line), ':'))
}

/// A heading line switches the section the lines after it are read in:
/// `Options`, `Flags`, `Global options` and `Global flags` open the options;
/// `Commands`, `Subcommands`, `Available commands`, `Available subcommands`,
/// `Management commands` and `Common commands` the subcommands; `Examples`
/// and `Example` the examples (with or without colons, in any ASCII case).
pub proof fn headings_open_their_sections(line: Seq<char>, rest: Seq<Seq<char>>, section: HelpSection, acc: HelpSpec)
    ensures
        ({
            let w = heading_words(line);
            w == "options"@ || w == "flags"@ || w == "global options"@ || w == "global flags"@
        }) ==> read_lines(seq![line] + rest, section, acc) == read_lines(rest, HelpSection::Options, acc),
        ({
            let w = heading_words(line);
            w == "commands"@ || w == "subcommands"@ || w == "available commands"@ || w == "available subcommands"@
                || w == "management commands"@ || w == "common commands"@
        }) ==> read_lines(seq![line] + rest, section, acc) == read_lines(rest, HelpSection::Commands, acc),
        (heading_words(line) == "examples"@ || heading_words(line) == "example"@) ==> read_lines(
            seq![line] + rest,
            section,
            acc,
        ) == read_lines(rest, HelpSection::Examples, acc),
{
    let ls = seq![line] + rest;
    assert(ls[0] == line);
    assert(ls.drop_first() =~= rest);
    reveal_strlit("options");
    reveal_strlit("flags");
    reveal_strlit("global options");
    reveal_strlit("global flags");
    reveal_strlit("commands");
    reveal_strlit("subcommands");
    reveal_strlit("available commands");
    reveal_strlit("available subcommands");
    reveal_strlit("management commands");
    reveal_strlit("common commands");
    reveal_strlit("examples");
    reveal_strlit("example");
    assert("options"@.len() == 7);
    assert("flags"@.len() == 5);
    assert("global options"@.len() == 14);
    assert("global flags"@.len() == 12);
    assert("commands"@.len() == 8);
    assert("subcommands"@.len() == 11);
    assert("available commands"@.len() == 18);
    assert("available subcommands"@.len() == 21);
    assert("management commands"@.len() == 19);
    assert("common commands"@.len() == 15);
    assert("examples"@.len() == 8);
    assert("example"@.len() == 7);
    assert("options"@[0] != "example"@[0]);
    assert("commands"@[0] != "examples"@[0]);
}

/// The first description line among `ls`, trimmed, cut to 512 characters.
pub open spec fn first_description(ls: Seq<Seq<char>>) -> Option<Seq<char>>
    decreases ls.len(),
{
    if ls.len() == 0 {
        None
    } else if is_description_line(trim(ls[0])) {
        Some(take(trim(ls[0]), 512))
    } else {
        first_description(ls.drop_first())
    }
}

/// A name and a description, cut where two whitespace characters follow each
/// other, or else at the first whitespace character.
pub open spec fn split_name_desc(line: Seq<char>) -> Option<(Seq<char>, Option<Seq<char>>)> {
    match ws_pair_from(line, 0) {
        Some(k) => name_desc(trim(line.take(k)), trim(line.skip(k))),
        None => match first_ws_from(line, 0) {
            Some(j) => name_desc(trim(line.take(j)), trim(line.skip(j + 1))),
            None => name_desc(trim(line), seq![]),
        },
    }
}

/// A non-empty name with a description that is kept when not empty, cut to 512 characters.
pub open spec fn name_desc(name: Seq<char>, d: Seq<char>) -> Option<(Seq<char>, Option<Seq<char>>)> {
    if name.len() > 0 {
        Some(
            (
                name,
                if d.len() > 0 {
                    Some(take(d, 512))
                } else {
                    None
                },
            ),
        )
    } else {
        None
    }
}

/// The cut of `split_name_desc` lands on a character boundary: where two
/// whitespace characters follow each other, the first of them is ASCII (else
/// the cut, made by byte offset, lands inside that character).
pub open spec fn split_safe(line: Seq<char>) -> bool {
    match ws_pair_from(line, 0) {
        Some(k) => (line[k] as u32) < 128,
        None => true,
    }
}

/// A word that names a command: letters, digits, `-`, `_` and `:` only.
pub open spec fn is_command_word(name: Seq<char>) -> bool {
    &&& !name.contains(',')
    &&& !name.contains('[')
    &&& !name.contains('<')
    &&& !name.contains('>')
    &&& forall|i: int|
        0 <= i < name.len() ==> (alphanumeric(#[trigger] name[i]) || name[i] == '-' || name[i]
            == '_' || name[i] == ':')
}

pub open spec fn starts_with_dash(t: Seq<char>) -> bool {
    t.len() > 0 && t[0] == '-'
}

/// The subcommand a line of a command list names, if any.
pub open spec fn subcommand_of(line: Seq<char>) -> Option<SubcommandSpec> {
    let t = trim(line);
    if t.len() == 0 || t[0] == '-' {
        None
    } else {
        match split_name_desc(t) {
            Some((name, d)) => if is_command_word(name) {
                Some(SubcommandSpec { name, description: d })
            } else {
                None
            },
            None => None,
        }
    }
}

/// The name of an option spelling: its text before the first whitespace or `=`.
pub open spec fn spelling_end(t: Seq<char>, k: int) -> int
    decreases t.len() - k,
{
    if k < 0 || k >= t.len() {
        t.len() as int
    } else if is_ws(t[k]) || t[k] == '=' {
        k
    } else {
        spelling_end(t, k + 1)
    }
}

pub open spec fn spelling_name(token: Seq<char>) -> Seq<char> {
    trim(token.take(spelling_end(token, 0)))
}

/// An option spelling that announces a value.
pub open spec fn spelling_takes_value(token: Seq<char>) -> bool {
    token.contains('<') || token.contains('=') || contains(token, " VALUE"@) || contains(
        token,
        " value"@,
    ) || contains(token, " FILE"@) || contains(token, " file"@)
}

/// The long name, short name and value flag gathered from the spellings read so far.
pub struct SpellingAcc {
    pub long: Option<Seq<char>>,
    pub short: Option<Seq<char>>,
    pub takes_value: bool,
}

pub open spec fn read_spellings(pieces: Seq<Seq<char>>, acc: SpellingAcc) -> SpellingAcc
    decreases pieces.len(),
{
    if pieces.len() == 0 {
        acc
    } else {
        let token = trim(pieces[0]);
        let name = spelling_name(token);
        let next = if name.len() == 0 {
            acc
        } else {
            SpellingAcc {
                long: if starts_with(name, "--"@) {
                    Some(name)
                } else {
                    acc.long
                },
                short: if !starts_with(name, "--"@) && starts_with_dash(name) {
                    Some(name)
                } else {
                    acc.short
                },
                takes_value: acc.takes_value || spelling_takes_value(token),
            }
        };
        read_spellings(pieces.drop_first(), next)
    }
}

/// The option a line names, if any: the comma-separated spellings before the
/// description, the long one preferred as the name.
pub open spec fn option_of(line: Seq<char>) -> Option<OptionSpec> {
    let t = trim(line);
    if !starts_with_dash(t) {
        None
    } else {
        match split_name_desc(t) {
            Some((names, d)) => {
                let acc = read_spellings(
                    split(names, ','),
                    SpellingAcc { long: None, short: None, takes_value: false },
                );
                match acc.long {
                    Some(l) => Some(
                        OptionSpec {
                            name: l,
                            short_name: acc.short,
                            description: d,
                            takes_value: acc.takes_value,
                        },
                    ),
                    None => match acc.short {
                        Some(s) => Some(
                            OptionSpec {
                                name: s,
                                short_name: acc.short,
                                description: d,
                                takes_value: acc.takes_value,
                            },
                        ),
                        None => None,
                    },
                }
            },
            None => None,
        }
    }
}

/// The section after a line: its heading, or the section it stood in.
pub open spec fn next_section(line: Seq<char>, section: HelpSection) -> HelpSection {
    match section_of(line) {
        Some(s) => s,
        None => section,
    }
}

/// What a line that is no heading adds to the parsed help, in a section.
pub open spec fn read_line(acc: HelpSpec, line: Seq<char>, section: HelpSection) -> HelpSpec {
    match section {
        HelpSection::Commands => match subcommand_of(line) {
            Some(s) => HelpSpec { subcommands: acc.subcommands.push(s), ..acc },
            None => acc,
        },
        HelpSection::Examples => {
            let t = trim(line);
            if t.len() > 0 && t.last() != ':' {
                HelpSpec { examples: acc.examples.push(take(t, 1024)), ..acc }
            } else {
                acc
            }
        },
        _ => match option_of(line) {
            Some(o) => HelpSpec { options: acc.options.push(o), ..acc },
            None => acc,
        },
    }
}

pub open spec fn read_lines(ls: Seq<Seq<char>>, section: HelpSection, acc: HelpSpec) -> HelpSpec
    decreases ls.len(),
{
    if ls.len() == 0 {
        acc
    } else {
        match section_of(ls[0]) {
            Some(s) => read_lines(ls.drop_first(), s, acc),
            None => read_lines(ls.drop_first(), section, read_line(acc, ls[0], section)),
        }
    }
}

/// The help text as the generic parser reads it.
pub open spec fn generic_help(output: Seq<char>) -> HelpSpec {
    read_lines(
        lines(output),
        HelpSection::Unknown,
        HelpSpec {
            description: first_description(lines(output)),
            subcommands: seq![],
            options: seq![],
            examples: seq![],
        },
    )
}

/// A line that is no heading is cut safely in its section.
pub open spec fn line_safe(line: Seq<char>, section: HelpSection) -> bool {
    let t = trim(line);
    match section_of(line) {
        Some(_) => true,
        None => match section {
            HelpSection::Commands => (t.len() > 0 && t[0] != '-') ==> split_safe(t),
            HelpSection::Examples => true,
            _ => starts_with_dash(t) ==> split_safe(t),
        },
    }
}

pub open spec fn lines_safe(ls: Seq<Seq<char>>, section: HelpSection) -> bool
    decreases ls.len(),
{
    if ls.len() == 0 {
        true
    } else {
        line_safe(ls[0], section) && lines_safe(ls.drop_first(), next_section(ls[0], section))
    }
}

/// The generic parser reads the help text without cutting inside a character.
pub open spec fn generic_help_safe(output: Seq<char>) -> bool {
    lines_safe(lines(output), HelpSection::Unknown)
}

/// The parser that reads help texts of any tool.
pub struct GenericParser;

impl GenericParser {
    pub fn new() -> (r: Self) {
        GenericParser
    }

    /// The name a tool is known by, from the file stem of its path, the file
    /// name of its path and its recorded name: the first of them there is, in
    /// ASCII lower case.
    pub open spec fn tool_name_of_parts(stem: Option<Seq<char>>, name: Option<Seq<char>>, recorded: Seq<char>) -> Seq<char> {
        match stem {
            Some(s) => lower(s),
            None => match name {
                Some(n) => lower(n),
                None => lower(recorded),
            },
        }
    }

    /// The name a tool is known by, where its path is plain (see `plain_path`).
    pub open spec fn tool_name(application: ApplicationRecord) -> Seq<char> {
        Self::tool_name_of_parts(file_stem(application.path@), file_name(application.path@), application.name@)
    }

    /// Whether a tool is the one named `expected`: by its recorded name up to
    /// ASCII case, or by the name its path gives (see `tool_name_of_parts`).
    pub open spec fn matches_tool_parts(recorded: Seq<char>, stem: Option<Seq<char>>, name: Option<Seq<char>>, expected: Seq<char>) -> bool {
        eq_ignore_case(recorded, expected) || Self::tool_name_of_parts(stem, name, recorded) == expected
    }

    /// Whether a tool is the one named `expected`, where its path is plain.
    pub open spec fn matches_tool(application: ApplicationRecord, expected: Seq<char>) -> bool {
        Self::matches_tool_parts(application.name@, file_stem(application.path@), file_name(application.path@), expected)
    }

    /// The score of a parser for the tool named `tool`: 100 for the tool whose
    /// recorded name or path (given by the file stem and file name this
    /// platform reads from it) names it, else 0 (see `matches_tool_parts`).
    pub fn tool_score(recorded: &str, stem: Option<String>, file_name: Option<String>, tool: &str) -> (r: u8)
        ensures
            r == (if Self::matches_tool_parts(recorded@, opt_text(stem), opt_text(file_name), tool@) {
                100u8
            } else {
                0u8
            }),
    {
        let name = crate::text::chars_of(recorded);
        let wanted = crate::text::chars_of(tool);
        if eq_ignore_ascii_case(&name, &wanted) {
            return 100;
        }
        let known = Self::tool_name_from(stem, file_name, recorded);
        if crate::text::equal_chars(&crate::text::chars_of(known.as_str()), &wanted) {
            100
        } else {
            0
        }
    }

    /// The name a tool is known by, given the file stem and file name of its
    /// path as this platform reads them (see `tool_name_of_parts`).
    pub fn tool_name_from(stem: Option<String>, name: Option<String>, recorded: &str) -> (r: String)
        ensures
            r@ == Self::tool_name_of_parts(opt_text(stem), opt_text(name), recorded@),
    {
        let chars = match stem {
            Some(s) => crate::text::chars_of(s.as_str()),
            None => match name {
                Some(n) => crate::text::chars_of(n.as_str()),
                None => crate::text::chars_of(recorded),
            },
        };
        string_of(&lowercase(&chars))
    }

    /// The score of a parser for the tool named `tool` on an application, its
    /// path read as this platform reads paths (see `tool_score`); on a plain
    /// path, by `matches_tool`.
    fn application_score(application: &ApplicationRecord, tool: &str) -> (r: u8)
        ensures
            exists|stem: Option<Seq<char>>, name: Option<Seq<char>>|
                r == (if #[trigger] Self::matches_tool_parts(application.name@, stem, name, tool@) {
                    100u8
                } else {
                    0u8
                }),
            plain_path(application.path@) ==> r == (if Self::matches_tool(*application, tool@) {
                100u8
            } else {
                0u8
            }),
    {
        let stem = path_file_stem(application.path.as_str());
        let name = path_file_name(application.path.as_str());
        let ghost (s1, n1) = (opt_text(stem), opt_text(name));
        let r = Self::tool_score(application.name.as_str(), stem, name, tool);
        assert(r == (if Self::matches_tool_parts(application.name@, s1, n1, tool@) {
            100u8
        } else {
            0u8
        }));
        r
    }

    fn section_name(&self, line: &Vec<char>) -> (r: Option<HelpSection>)
        ensures
            r == section_of(line@),
    {
        let t = trim_chars(line);
        let stripped = trim_end_matching(&t, ':');
        let n = lowercase(&stripped);
        if equals_str(&n, "commands") || equals_str(&n, "subcommands") || equals_str(
            &n,
            "available commands",
        ) || equals_str(&n, "available subcommands") || equals_str(&n, "management commands")
            || equals_str(&n, "common commands") {
            Some(HelpSection::Commands)
        } else if equals_str(&n, "options") || equals_str(&n, "flags") || equals_str(
            &n,
            "global options",
        ) || equals_str(&n, "global flags") {
            Some(HelpSection::Options)
        } else if equals_str(&n, "examples") || equals_str(&n, "example") {
            Some(HelpSection::Examples)
        } else if contains_str(&n, "common") && contains_str(&n, "commands") {
            Some(HelpSection::Commands)
        } else if contains_str(&n, "available") && contains_str(&n, "commands") {
            Some(HelpSection::Commands)
        } else {
            None
        }
    }

    fn parse_description(&self, ls: &Vec<Vec<char>>) -> (r: Option<Vec<char>>)
        ensures
            opt_vec_chars(r) == first_description(seqs_of(ls@)),
    {
        let mut i: usize = 0;
        assert(seqs_of(ls@).skip(0) =~= seqs_of(ls@));
        while i < ls.len()
            invariant
                i <= ls.len(),
                first_description(seqs_of(ls@)) == first_description(seqs_of(ls@).skip(i as int)),
            decreases ls.len() - i,
        {
            let t = trim_chars(&ls[i]);
            assert(seqs_of(ls@).skip(i as int)[0] == ls@[i as int]@);
            assert(seqs_of(ls@).skip(i as int).drop_first() =~= seqs_of(ls@).skip(i + 1));
            let low = lowercase(&t);
            if t.len() > 0 && !starts_with_str(&low, "usage:") && self.section_name(&t).is_none() {
                return Some(take_chars(&t, 512));
            }
            i = i + 1;
        }
        None
    }

    fn split_name_description(&self, line: &Vec<char>) -> (r: Option<(Vec<char>, Option<Vec<char>>)>)
        requires
            split_safe(line@),
        ensures
            match split_name_desc(line@) {
                Some((n, d)) => r is Some && r.unwrap().0@ == n && opt_vec_chars(r.unwrap().1) == d,
                None => r is None,
            },
    {
        let (name, rest) = match whitespace_pair(line) {
            Some(k) => {
                let head = take_chars(line, k);
                let tail = skip_chars(line, k);
                (trim_chars(&head), trim_chars(&tail))
            },
            None => match first_whitespace(line) {
                Some(j) => {
                    let head = take_chars(line, j);
                    let tail = skip_chars(line, j + 1);
                    (trim_chars(&head), trim_chars(&tail))
                },
                None => {
                    assert(trim(Seq::<char>::empty()) =~= Seq::<char>::empty());
                    (trim_chars(line), Vec::new())
                },
            },
        };
        if name.len() == 0 {
            return None;
        }
        let description = if rest.len() > 0 {
            Some(take_chars(&rest, 512))
        } else {
            None
        };
        Some((name, description))
    }

    fn is_command_name(&self, name: &Vec<char>) -> (r: bool)
        ensures
            r == is_command_word(name@),
    {
        if has_char(name, ',') || has_char(name, '[') || has_char(name, '<') || has_char(
            name,
            '>',
        ) {
            return false;
        }
        let mut i: usize = 0;
        while i < name.len()
            invariant
                i <= name.len(),
                forall|j: int|
                    0 <= j < i ==> (alphanumeric(#[trigger] name@[j]) || name@[j] == '-'
                        || name@[j] == '_' || name@[j] == ':'),
            decreases name.len() - i,
        {
            let c = name[i];
            if !(is_alphanumeric(c) || c == '-' || c == '_' || c == ':') {
                return false;
            }
            i = i + 1;
        }
        true
    }

    fn parse_subcommand(&self, line: &Vec<char>) -> (r: Option<ParsedSubcommand>)
        requires
            ({
                let t = trim(line@);
                (t.len() > 0 && t[0] != '-') ==> split_safe(t)
            }),
        ensures
            match subcommand_of(line@) {
                Some(s) => r is Some && r->0@ == s,
                None => r is None,
            },
    {
        let t = trim_chars(line);
        if t.len() == 0 || t[0] == '-' {
            return None;
        }
        match self.split_name_description(&t) {
            Some((name, description)) => {
                if !self.is_command_name(&name) {
                    return None;
                }
                let d = match description {
                    Some(d) => Some(string_of(&d)),
                    None => None,
                };
                Some(ParsedSubcommand { name: string_of(&name), description: d })
            },
            None => None,
        }
    }

    fn spelling_name_of(token: &Vec<char>) -> (r: Vec<char>)
        ensures
            r@ == spelling_name(token@),
    {
        let mut k: usize = 0;
        while k < token.len() && !(crate::text::is_whitespace(token[k]) || token[k] == '=')
            invariant
                k <= token.len(),
                spelling_end(token@, 0) == spelling_end(token@, k as int),
            decreases token.len() - k,
        {
            k = k + 1;
        }
        let head = take_chars(token, k);
        assert(token@.take(token@.len() as int) =~= token@);
        assert(head@ == token@.take(spelling_end(token@, 0)));
        trim_chars(&head)
    }

    fn spelling_has_value(token: &Vec<char>) -> (r: bool)
        ensures
            r == spelling_takes_value(token@),
    {
        has_char(token, '<') || has_char(token, '=') || contains_str(token, " VALUE")
            || contains_str(token, " value") || contains_str(token, " FILE") || contains_str(
            token,
            " file",
        )
    }

    fn parse_option(&self, line: &Vec<char>) -> (r: Option<ParsedOption>)
        requires
            starts_with_dash(trim(line@)) ==> split_safe(trim(line@)),
        ensures
            match option_of(line@) {
                Some(o) => r is Some && r->0@ == o,
                None => r is None,
            },
    {
        let t = trim_chars(line);
        if !(t.len() > 0 && t[0] == '-') {
            return None;
        }
        let (names, description) = match self.split_name_description(&t) {
            Some(pair) => pair,
            None => {
                return None;
            },
        };
        let pieces = split_on(&names, ',');
        let mut long_name: Option<Vec<char>> = None;
        let mut short_name: Option<Vec<char>> = None;
        let mut takes_value = false;
        let ghost all = seqs_of(pieces@);
        let ghost start = SpellingAcc { long: None, short: None, takes_value: false };
        let mut i: usize = 0;
        assert(all.skip(0) =~= all);
        while i < pieces.len()
            invariant
                i <= pieces.len(),
                all == seqs_of(pieces@),
                read_spellings(all, start) == read_spellings(
                    all.skip(i as int),
                    SpellingAcc {
                        long: opt_vec_chars(long_name),
                        short: opt_vec_chars(short_name),
                        takes_value,
                    },
                ),
            decreases pieces.len() - i,
        {
            let token = trim_chars(&pieces[i]);
            assert(all.skip(i as int)[0] == pieces@[i as int]@);
            assert(all.skip(i as int).drop_first() =~= all.skip(i + 1));
            let name = Self::spelling_name_of(&token);
            if name.len() > 0 {
                takes_value = takes_value || Self::spelling_has_value(&token);
                if starts_with_str(&name, "--") {
                    long_name = Some(name);
                } else if name.len() > 0 && name[0] == '-' {
                    short_name = Some(name);
                }
            }
            i = i + 1;
        }
        assert(all.skip(pieces.len() as int) =~= Seq::<Seq<char>>::empty());
        let d = match description {
            Some(d) => Some(string_of(&d)),
            None => None,
        };
        let short = match &short_name {
            Some(s) => Some(string_of(s)),
            None => None,
        };
        match long_name {
            Some(l) => Some(
                ParsedOption {
                    name: string_of(&l),
                    short_name: short,
                    description: d,
                    takes_value,
                },
            ),
            None => match short_name {
                Some(s) => Some(
                    ParsedOption {
                        name: string_of(&s),
                        short_name: short,
                        description: d,
                        takes_value,
                    },
                ),
                None => None,
            },
        }
    }

    /// Reads a help text: the first plain line is the description; headings
    /// open the command, option and example sections; option lines before any
    /// heading count as options.
    pub fn parse_help(&self, output: &str) -> (r: ParsedCommandHelp)
        requires
            generic_help_safe(output@),
        ensures
            r@ == generic_help(output@),
    {
        let text = crate::text::chars_of(output);
        let ls = lines_of(&text);
        let ghost all = seqs_of(ls@);
        let description = self.parse_description(&ls);
        let mut parsed = ParsedCommandHelp {
            description: match description {
                Some(d) => Some(string_of(&d)),
                None => None,
            },
            subcommands: Vec::new(),
            options: Vec::new(),
            examples: Vec::new(),
        };
        let mut section = HelpSection::Unknown;
        let mut i: usize = 0;
        assert(all.skip(0) =~= all);
        assert(parsed@ == HelpSpec {
            description: first_description(all),
            subcommands: seq![],
            options: seq![],
            examples: seq![],
        }) by {
            assert(subcommand_views(parsed.subcommands@) =~= seq![]);
            assert(option_views(parsed.options@) =~= seq![]);
            assert(string_views(parsed.examples@) =~= seq![]);
        }
        while i < ls.len()
            invariant
                i <= ls.len(),
                all == seqs_of(ls@),
                all == lines(output@),
                generic_help(output@) == read_lines(all.skip(i as int), section, parsed@),
                lines_safe(all.skip(i as int), section),
            decreases ls.len() - i,
        {
            let line = &ls[i];
            assert(all.skip(i as int)[0] == line@);
            assert(all.skip(i as int).drop_first() =~= all.skip(i + 1));
            match self.section_name(line) {
                Some(next) => {
                    section = next;
                },
                None => {
                    let ghost before = parsed@;
                    match section {
                        HelpSection::Commands => {
                            if let Some(subcommand) = self.parse_subcommand(line) {
                                let ghost s = subcommand@;
                                parsed.subcommands.push(subcommand);
                                assert(subcommand_views(parsed.subcommands@) =~= before.subcommands.push(s));
                            }
                        },
                        HelpSection::Examples => {
                            let example = trim_chars(line);
                            if example.len() > 0 && example[example.len() - 1] != ':' {
                                let cut = take_chars(&example, 1024);
                                parsed.examples.push(string_of(&cut));
                                assert(string_views(parsed.examples@) =~= before.examples.push(cut@));
                            }
                        },
                        _ => {
                            if let Some(option) = self.parse_option(line) {
                                let ghost o = option@;
                                parsed.options.push(option);
                                assert(option_views(parsed.options@) =~= before.options.push(o));
                            }
                        },
                    }
                    assert(parsed@ == read_line(before, line@, section));
                },
            }
            i = i + 1;
        }
        parsed
    }
}

impl CommandParser for GenericParser {
    open spec fn reads_safely(&self, output: Seq<char>) -> bool {
        generic_help_safe(output)
    }

    fn score(&self, application: &ApplicationRecord) -> (r: u8)
        ensures
            r == 1,
    {
        1
    }

    fn parse(&self, command_path: &Vec<String>, output: &str) -> (r: ParsedCommandHelp)
        ensures
            r@ == generic_help(output@),
    {
        self.parse_help(output)
    }
}

/// The parser for `docker`.
pub struct DockerParser {
    generic: GenericParser,
}

impl DockerParser {
    pub fn new() -> (r: Self) {
        DockerParser { generic: GenericParser::new() }
    }
}

impl CommandParser for DockerParser {
    open spec fn reads_safely(&self, output: Seq<char>) -> bool {
        generic_help_safe(output)
    }

    /// 100 for the tool whose recorded name, or whose path's file stem (else
    /// file name) as this platform reads it, is `docker` up to ASCII case; else 0.
    fn score(&self, application: &ApplicationRecord) -> (r: u8)
        ensures
            plain_path(application.path@) ==> r == (if GenericParser::matches_tool(*application, "docker"@) {
                100u8
            } else {
                0u8
            }),
            exists|stem: Option<Seq<char>>, name: Option<Seq<char>>|
                r == (if #[trigger] GenericParser::matches_tool_parts(application.name@, stem, name, "docker"@) {
                    100u8
                } else {
                    0u8
                }),
            eq_ignore_case(application.name@, "docker"@) ==> r == 100,
            r == 100 || r == 0,
    {
        GenericParser::application_score(application, "docker")
    }

    fn parse(&self, command_path: &Vec<String>, output: &str) -> (r: ParsedCommandHelp)
        ensures
            r@ == generic_help(output@),
    {
        self.generic.parse_help(output)
    }
}

/// The parser for `git`.
pub struct GitParser {
    generic: GenericParser,
}

impl GitParser {
    pub fn new() -> (r: Self) {
        GitParser { generic: GenericParser::new() }
    }
}

impl CommandParser for GitParser {
    open spec fn reads_safely(&self, output: Seq<char>) -> bool {
        generic_help_safe(output)
    }

    /// 100 for the tool whose recorded name, or whose path's file stem (else
    /// file name) as this platform reads it, is `git` up to ASCII case; else 0.
    fn score(&self, application: &ApplicationRecord) -> (r: u8)
        ensures
            plain_path(application.path@) ==> r == (if GenericParser::matches_tool(*application, "git"@) {
                100u8
            } else {
                0u8
            }),
            exists|stem: Option<Seq<char>>, name: Option<Seq<char>>|
                r == (if #[trigger] GenericParser::matches_tool_parts(application.name@, stem, name, "git"@) {
                    100u8
                } else {
                    0u8
                }),
            eq_ignore_case(application.name@, "git"@) ==> r == 100,
            r == 100 || r == 0,
    {
        GenericParser::application_score(application, "git")
    }

    fn parse(&self, command_path: &Vec<String>, output: &str) -> (r: ParsedCommandHelp)
        ensures
            r@ == generic_help(output@),
    {
        self.generic.parse_help(output)
    }
}

/// The parser for `cargo`.
pub struct CargoParser {
    generic: GenericParser,
}

impl CargoParser {
    pub fn new() -> (r: Self) {
        CargoParser { generic: GenericParser::new() }
    }
}

impl CommandParser for CargoParser {
    open spec fn reads_safely(&self, output: Seq<char>) -> bool {
        generic_help_safe(output)
    }

    /// 100 for the tool whose recorded name, or whose path's file stem (else
    /// file name) as this platform reads it, is `cargo` up to ASCII case; else 0.
    fn score(&self, application: &ApplicationRecord) -> (r: u8)
        ensures
            plain_path(application.path@) ==> r == (if GenericParser::matches_tool(*application, "cargo"@) {
                100u8
            } else {
                0u8
            }),
            exists|stem: Option<Seq<char>>, name: Option<Seq<char>>|
                r == (if #[trigger] GenericParser::matches_tool_parts(application.name@, stem, name, "cargo"@) {
                    100u8
                } else {
                    0u8
                }),
            eq_ignore_case(application.name@, "cargo"@) ==> r == 100,
            r == 100 || r == 0,
    {
        GenericParser::application_score(application, "cargo")
    }

    fn parse(&self, command_path: &Vec<String>, output: &str) -> (r: ParsedCommandHelp)
        ensures
            r@ == generic_help(output@),
    {
        self.generic.parse_help(output)
    }
}

/// A heading of the pnpm help text, trimmed, trailing colons dropped, in lower case.
pub open spec fn pnpm_heading(line: Seq<char>) -> Seq<char> {
    lower(trim_end_char(trim(line), ':'))
}

/// A heading that opens one of pnpm's command groups.
pub open spec fn opens_command_group(line: Seq<char>) -> bool {
    let n = pnpm_heading(line);
    n == "manage your dependencies"@ || n == "review your dependencies"@ || n
        == "run your scripts"@ || n == "other"@
}

/// A heading that ends pnpm's command groups.
pub open spec fn closes_command_group(line: Seq<char>) -> bool {
    let n = pnpm_heading(line);
    n == "options"@ || n == "usage"@ || n == "flags"@ || n == "global options"@
}

/// Command names and description, cut only where two whitespace characters follow each other.
pub open spec fn split_command_desc(line: Seq<char>) -> Option<(Seq<char>, Option<Seq<char>>)> {
    match ws_pair_from(line, 0) {
        Some(k) => name_desc(trim(line.take(k)), trim(line.skip(k))),
        None => None,
    }
}

/// The command words among comma-separated names, each with the shared description.
pub open spec fn named_subcommands(
    pieces: Seq<Seq<char>>,
    d: Option<Seq<char>>,
) -> Seq<SubcommandSpec>
    decreases pieces.len(),
{
    if pieces.len() == 0 {
        seq![]
    } else {
        let name = trim(pieces[0]);
        let rest = named_subcommands(pieces.drop_first(), d);
        if is_command_word(name) {
            seq![SubcommandSpec { name, description: d }] + rest
        } else {
            rest
        }
    }
}

/// The subcommands one line of a pnpm command group lists.
pub open spec fn group_line_subcommands(line: Seq<char>) -> Seq<SubcommandSpec> {
    let t = trim(line);
    if t.len() == 0 || t[0] == '-' {
        seq![]
    } else {
        match split_command_desc(t) {
            Some((names, d)) => named_subcommands(split(names, ','), d),
            None => seq![],
        }
    }
}

/// Appends the subcommands whose names were not seen yet, recording their names.
pub open spec fn add_new_subcommands(
    out: Seq<SubcommandSpec>,
    seen: Seq<Seq<char>>,
    subs: Seq<SubcommandSpec>,
) -> (Seq<SubcommandSpec>, Seq<Seq<char>>)
    decreases subs.len(),
{
    if subs.len() == 0 {
        (out, seen)
    } else if seen.contains(subs[0].name) {
        add_new_subcommands(out, seen, subs.drop_first())
    } else {
        add_new_subcommands(out.push(subs[0]), seen.push(subs[0].name), subs.drop_first())
    }
}

pub open spec fn read_command_groups(
    ls: Seq<Seq<char>>,
    in_group: bool,
    out: Seq<SubcommandSpec>,
    seen: Seq<Seq<char>>,
) -> Seq<SubcommandSpec>
    decreases ls.len(),
{
    if ls.len() == 0 {
        out
    } else if opens_command_group(ls[0]) {
        read_command_groups(ls.drop_first(), true, out, seen)
    } else if closes_command_group(ls[0]) {
        read_command_groups(ls.drop_first(), false, out, seen)
    } else if in_group {
        let next = add_new_subcommands(out, seen, group_line_subcommands(ls[0]));
        read_command_groups(ls.drop_first(), true, next.0, next.1)
    } else {
        read_command_groups(ls.drop_first(), false, out, seen)
    }
}

/// The pnpm help text: the generic reading with repeated subcommands dropped,
/// and the subcommands of pnpm's command groups added once each.
pub open spec fn pnpm_help(output: Seq<char>) -> HelpSpec {
    let g = generic_help(output);
    let kept = add_new_subcommands(seq![], seq![], g.subcommands);
    HelpSpec {
        subcommands: read_command_groups(lines(output), false, kept.0, kept.1),
        ..g
    }
}

pub open spec fn group_lines_safe(ls: Seq<Seq<char>>, in_group: bool) -> bool
    decreases ls.len(),
{
    if ls.len() == 0 {
        true
    } else if opens_command_group(ls[0]) {
        group_lines_safe(ls.drop_first(), true)
    } else if closes_command_group(ls[0]) {
        group_lines_safe(ls.drop_first(), false)
    } else {
        let t = trim(ls[0]);
        (in_group && t.len() > 0 && t[0] != '-' ==> split_safe(t)) && group_lines_safe(
            ls.drop_first(),
            in_group,
        )
    }
}

/// The pnpm parser reads the help text without cutting inside a character.
pub open spec fn pnpm_help_safe(output: Seq<char>) -> bool {
    generic_help_safe(output) && group_lines_safe(lines(output), false)
}

/// The parser for `pnpm`, whose help lists commands under its own group headings.
pub struct PnpmParser {
    generic: GenericParser,
}

impl PnpmParser {
    pub fn new() -> (r: Self) {
        PnpmParser { generic: GenericParser::new() }
    }

    fn heading(line: &Vec<char>) -> (r: Vec<char>)
        ensures
            r@ == pnpm_heading(line@),
    {
        let t = trim_chars(line);
        let stripped = trim_end_matching(&t, ':');
        lowercase(&stripped)
    }

    fn is_command_section(&self, line: &Vec<char>) -> (r: bool)
        ensures
            r == opens_command_group(line@),
    {
        let n = Self::heading(line);
        equals_str(&n, "manage your dependencies") || equals_str(&n, "review your dependencies")
            || equals_str(&n, "run your scripts") || equals_str(&n, "other")
    }

    fn is_stop_section(&self, line: &Vec<char>) -> (r: bool)
        ensures
            r == closes_command_group(line@),
    {
        let n = Self::heading(line);
        equals_str(&n, "options") || equals_str(&n, "usage") || equals_str(&n, "flags")
            || equals_str(&n, "global options")
    }

    fn split_command_description(&self, line: &Vec<char>) -> (r: Option<(Vec<char>, Option<Vec<char>>)>)
        requires
            split_safe(line@),
        ensures
            match split_command_desc(line@) {
                Some((n, d)) => r is Some && r.unwrap().0@ == n && opt_vec_chars(r.unwrap().1) == d,
                None => r is None,
            },
    {
        let k = match whitespace_pair(line) {
            Some(k) => k,
            None => {
                return None;
            },
        };
        let head = take_chars(line, k);
        let tail = skip_chars(line, k);
        let names = trim_chars(&head);
        let rest = trim_chars(&tail);
        if names.len() == 0 {
            return None;
        }
        let description = if rest.len() > 0 {
            Some(take_chars(&rest, 512))
        } else {
            None
        };
        Some((names, description))
    }

    fn parse_subcommands(&self, line: &Vec<char>) -> (r: Vec<ParsedSubcommand>)
        requires
            ({
                let t = trim(line@);
                (t.len() > 0 && t[0] != '-') ==> split_safe(t)
            }),
        ensures
            subcommand_views(r@) == group_line_subcommands(line@),
    {
        let t = trim_chars(line);
        if t.len() == 0 || t[0] == '-' {
            let r: Vec<ParsedSubcommand> = Vec::new();
            assert(subcommand_views(r@) =~= seq![]);
            return r;
        }
        let (names, description) = match self.split_command_description(&t) {
            Some(pair) => pair,
            None => {
                let r: Vec<ParsedSubcommand> = Vec::new();
                assert(subcommand_views(r@) =~= seq![]);
                return r;
            },
        };
        let pieces = split_on(&names, ',');
        let ghost all = seqs_of(pieces@);
        let ghost d = opt_vec_chars(description);
        let mut found: Vec<ParsedSubcommand> = Vec::new();
        let mut i: usize = 0;
        assert(all.skip(0) =~= all);
        assert(subcommand_views(found@) + named_subcommands(all, d) =~= named_subcommands(all, d));
        while i < pieces.len()
            invariant
                i <= pieces.len(),
                all == seqs_of(pieces@),
                d == opt_vec_chars(description),
                group_line_subcommands(line@) == named_subcommands(all, d),
                named_subcommands(all, d) == subcommand_views(found@) + named_subcommands(
                    all.skip(i as int),
                    d,
                ),
            decreases pieces.len() - i,
        {
            let name = trim_chars(&pieces[i]);
            assert(all.skip(i as int)[0] == pieces@[i as int]@);
            assert(all.skip(i as int).drop_first() =~= all.skip(i + 1));
            let ghost before = subcommand_views(found@);
            if self.generic.is_command_name(&name) {
                let desc = match &description {
                    Some(text) => Some(string_of(text)),
                    None => None,
                };
                let sub = ParsedSubcommand { name: string_of(&name), description: desc };
                let ghost sv = sub@;
                found.push(sub);
                assert(subcommand_views(found@) =~= before.push(sv));
                assert(before + (seq![sv] + named_subcommands(all.skip(i + 1), d)) =~= before.push(
                    sv,
                ) + named_subcommands(all.skip(i + 1), d));
            }
            i = i + 1;
        }
        assert(all.skip(pieces.len() as int) =~= Seq::<Seq<char>>::empty());
        assert(subcommand_views(found@) + seq![] =~= subcommand_views(found@));
        found
    }

    fn seen_name(seen: &Vec<Vec<char>>, name: &Vec<char>) -> (r: bool)
        ensures
            r == seqs_of(seen@).contains(name@),
    {
        let mut i: usize = 0;
        while i < seen.len()
            invariant
                i <= seen.len(),
                forall|j: int| 0 <= j < i ==> seqs_of(seen@)[j] != name@,
            decreases seen.len() - i,
        {
            if crate::text::equal_chars(&seen[i], name) {
                assert(seqs_of(seen@)[i as int] == name@);
                return true;
            }
            i = i + 1;
        }
        false
    }

    fn add_new(
        out: &mut Vec<ParsedSubcommand>,
        seen: &mut Vec<Vec<char>>,
        subs: Vec<ParsedSubcommand>,
    )
        ensures
            add_new_subcommands(subcommand_views(old(out)@), seqs_of(old(seen)@), subcommand_views(subs@))
                == (subcommand_views(final(out)@), seqs_of(final(seen)@)),
    {
        let ghost all = subcommand_views(subs@);
        let ghost target = add_new_subcommands(subcommand_views(out@), seqs_of(seen@), all);
        let mut i: usize = 0;
        assert(all.skip(0) =~= all);
        while i < subs.len()
            invariant
                i <= subs.len(),
                all == subcommand_views(subs@),
                target == add_new_subcommands(subcommand_views(out@), seqs_of(seen@), all.skip(i as int)),
            decreases subs.len() - i,
        {
            let sub = &subs[i];
            assert(all.skip(i as int)[0] == sub@);
            assert(all.skip(i as int).drop_first() =~= all.skip(i + 1));
            let name = crate::text::chars_of(sub.name.as_str());
            if !Self::seen_name(seen, &name) {
                let ghost before_out = subcommand_views(out@);
                let ghost before_seen = seqs_of(seen@);
                out.push(copy_subcommand(sub));
                seen.push(name);
                assert(subcommand_views(out@) =~= before_out.push(sub@));
                assert(seqs_of(seen@) =~= before_seen.push(sub@.name));
            }
            i = i + 1;
        }
        assert(all.skip(subs.len() as int) =~= Seq::<SubcommandSpec>::empty());
    }

    fn parse_pnpm(&self, output: &str) -> (r: ParsedCommandHelp)
        requires
            pnpm_help_safe(output@),
        ensures
            r@ == pnpm_help(output@),
    {
        let mut parsed = self.generic.parse_help(output);
        let ghost g = parsed@;
        let mut generic_subcommands: Vec<ParsedSubcommand> = Vec::new();
        std::mem::swap(&mut generic_subcommands, &mut parsed.subcommands);
        let mut subcommands: Vec<ParsedSubcommand> = Vec::new();
        let mut seen: Vec<Vec<char>> = Vec::new();
        assert(subcommand_views(subcommands@) =~= seq![]);
        assert(seqs_of(seen@) =~= seq![]);
        assert(subcommand_views(generic_subcommands@) =~= g.subcommands);
        Self::add_new(&mut subcommands, &mut seen, generic_subcommands);
        let text = crate::text::chars_of(output);
        let ls = lines_of(&text);
        let ghost all = seqs_of(ls@);
        let mut in_group = false;
        let mut i: usize = 0;
        assert(all.skip(0) =~= all);
        while i < ls.len()
            invariant
                i <= ls.len(),
                all == seqs_of(ls@),
                all == lines(output@),
                pnpm_help(output@).subcommands == read_command_groups(
                    all.skip(i as int),
                    in_group,
                    subcommand_views(subcommands@),
                    seqs_of(seen@),
                ),
                group_lines_safe(all.skip(i as int), in_group),
            decreases ls.len() - i,
        {
            let line = &ls[i];
            assert(all.skip(i as int)[0] == line@);
            assert(all.skip(i as int).drop_first() =~= all.skip(i + 1));
            if self.is_command_section(line) {
                in_group = true;
            } else if self.is_stop_section(line) {
                in_group = false;
            } else if in_group {
                let found = self.parse_subcommands(line);
                Self::add_new(&mut subcommands, &mut seen, found);
            }
            i = i + 1;
        }
        parsed.subcommands = subcommands;
        parsed
    }
}

impl CommandParser for PnpmParser {
    open spec fn reads_safely(&self, output: Seq<char>) -> bool {
        pnpm_help_safe(output)
    }

    /// 100 for the tool whose recorded name, or whose path's file stem (else
    /// file name) as this platform reads it, is `pnpm` up to ASCII case; else 0.
    fn score(&self, application: &ApplicationRecord) -> (r: u8)
        ensures
            plain_path(application.path@) ==> r == (if GenericParser::matches_tool(*application, "pnpm"@) {
                100u8
            } else {
                0u8
            }),
            exists|stem: Option<Seq<char>>, name: Option<Seq<char>>|
                r == (if #[trigger] GenericParser::matches_tool_parts(application.name@, stem, name, "pnpm"@) {
                    100u8
                } else {
                    0u8
                }),
            eq_ignore_case(application.name@, "pnpm"@) ==> r == 100,
            r == 100 || r == 0,
    {
        GenericParser::application_score(application, "pnpm")
    }

    fn parse(&self, command_path: &Vec<String>, output: &str) -> (r: ParsedCommandHelp)
        ensures
            r@ == pnpm_help(output@),
    {
        self.parse_pnpm(output)
    }
}

/// The kind of parser chosen for an application.
#[derive(Clone, Copy, Debug)]
pub enum ParserKind {
    Docker,
    Git,
    Cargo,
    Pnpm,
    Generic,
}

/// The parser with the highest score; among equal scores the later one in the
/// order docker, git, cargo, pnpm, generic (the generic parser scores 1, the
/// others 100 for their own tool and 0 otherwise).
pub open spec fn parser_kind_for(application: ApplicationRecord) -> ParserKind {
    if GenericParser::matches_tool(application, "pnpm"@) {
        ParserKind::Pnpm
    } else if GenericParser::matches_tool(application, "cargo"@) {
        ParserKind::Cargo
    } else if GenericParser::matches_tool(application, "git"@) {
        ParserKind::Git
    } else if GenericParser::matches_tool(application, "docker"@) {
        ParserKind::Docker
    } else {
        ParserKind::Generic
    }
}

/// Picks the parser for an application: the last of the best-scoring parsers.
/// Where the path is not plain (see `plain_path`) the scores go by this
/// platform's reading of it; a recorded name `pnpm` picks the pnpm parser
/// whatever the path.
pub fn parser_for(application: &ApplicationRecord) -> (r: ParserKind)
    ensures
        plain_path(application.path@) ==> r == parser_kind_for(*application),
        eq_ignore_case(application.name@, "pnpm"@) ==> r == ParserKind::Pnpm,
{
    let scores: [u8; 5] = [
        DockerParser::new().score(application),
        GitParser::new().score(application),
        CargoParser::new().score(application),
        PnpmParser::new().score(application),
        GenericParser::new().score(application),
    ];
    let mut best: usize = 0;
    let mut i: usize = 1;
    while i < 5
        invariant
            1 <= i <= 5,
            best < i,
            forall|j: int| 0 <= j < i ==> scores[j] <= scores[best as int],
            forall|j: int| best < j < i ==> scores[j] < scores[best as int],
        decreases 5 - i,
    {
        if scores[i] >= scores[best] {
            best = i;
        }
        i = i + 1;
    }
    if best == 0 {
        ParserKind::Docker
    } else if best == 1 {
        ParserKind::Git
    } else if best == 2 {
        ParserKind::Cargo
    } else if best == 3 {
        ParserKind::Pnpm
    } else {
        ParserKind::Generic
    }
}

/// The help texts the chosen parser reads without cutting inside a character.
pub open spec fn kind_reads_safely(kind: ParserKind, output: Seq<char>) -> bool {
    match kind {
        ParserKind::Pnpm => pnpm_help_safe(output),
        _ => generic_help_safe(output),
    }
}

/// What the chosen parser reads from a help text.
pub open spec fn kind_help(kind: ParserKind, output: Seq<char>) -> HelpSpec {
    match kind {
        ParserKind::Pnpm => pnpm_help(output),
        _ => generic_help(output),
    }
}

/// Reads a help text with the parser of the given kind.
pub fn parse_with(kind: ParserKind, command_path: &Vec<String>, output: &str) -> (r: ParsedCommandHelp)
    requires
        kind_reads_safely(kind, output@),
    ensures
        r@ == kind_help(kind, output@),
{
    match kind {
        ParserKind::Docker => DockerParser::new().parse(command_path, output),
        ParserKind::Git => GitParser::new().parse(command_path, output),
        ParserKind::Cargo => CargoParser::new().parse(command_path, output),
        ParserKind::Pnpm => PnpmParser::new().parse(command_path, output),
        ParserKind::Generic => GenericParser::new().parse(command_path, output),
    }
}

/// The cut of a line lands on a character boundary (executable form).
pub fn cuts_safely(t: &Vec<char>) -> (r: bool)
    ensures
        r == split_safe(t@),
{
    match whitespace_pair(t) {
        Some(k) => (t[k] as u32) < 128,
        None => true,
    }
}

/// Whether the generic parser reads a help text without cutting inside a character.
pub fn generic_help_is_safe(output: &str) -> (r: bool)
    ensures
        r == generic_help_safe(output@),
{
    let text = crate::text::chars_of(output);
    let ls = lines_of(&text);
    let ghost all = seqs_of(ls@);
    let parser = GenericParser::new();
    let mut section = HelpSection::Unknown;
    let mut i: usize = 0;
    assert(all.skip(0) =~= all);
    while i < ls.len()
        invariant
            i <= ls.len(),
            all == seqs_of(ls@),
            generic_help_safe(output@) == lines_safe(all.skip(i as int), section),
        decreases ls.len() - i,
    {
        let line = &ls[i];
        assert(all.skip(i as int)[0] == line@);
        assert(all.skip(i as int).drop_first() =~= all.skip(i + 1));
        match parser.section_name(line) {
            Some(next) => {
                section = next;
            },
            None => {
                let t = trim_chars(line);
                let needs_cut = match section {
                    HelpSection::Commands => t.len() > 0 && t[0] != '-',
                    HelpSection::Examples => false,
                    _ => t.len() > 0 && t[0] == '-',
                };
                if needs_cut && !cuts_safely(&t) {
                    return false;
                }
            },
        }
        i = i + 1;
    }
    true
}

/// Whether the pnpm parser reads a help text without cutting inside a character.
pub fn pnpm_help_is_safe(output: &str) -> (r: bool)
    ensures
        r == pnpm_help_safe(output@),
{
    if !generic_help_is_safe(output) {
        return false;
    }
    let text = crate::text::chars_of(output);
    let ls = lines_of(&text);
    let ghost all = seqs_of(ls@);
    let parser = PnpmParser::new();
    let mut in_group = false;
    let mut i: usize = 0;
    assert(all.skip(0) =~= all);
    while i < ls.len()
        invariant
            i <= ls.len(),
            all == seqs_of(ls@),
            group_lines_safe(lines(output@), false) == group_lines_safe(all.skip(i as int), in_group),
        decreases ls.len() - i,
    {
        let line = &ls[i];
        assert(all.skip(i as int)[0] == line@);
        assert(all.skip(i as int).drop_first() =~= all.skip(i + 1));
        if parser.is_command_section(line) {
            in_group = true;
        } else if parser.is_stop_section(line) {
            in_group = false;
        } else {
            let t = trim_chars(line);
            if in_group && t.len() > 0 && t[0] != '-' && !cuts_safely(&t) {
                return false;
            }
        }
        i = i + 1;
    }
    true
}

/// Whether the chosen parser reads a help text without cutting inside a character.
pub fn reads_safely(kind: ParserKind, output: &str) -> (r: bool)
    ensures
        r == kind_reads_safely(kind, output@),
{
    match kind {
        ParserKind::Pnpm => pnpm_help_is_safe(output),
        _ => generic_help_is_safe(output),
    }
}

/// The name a command is stored under: the application's name, then the path
/// of subcommands, separated by spaces.
pub open spec fn command_name_of(application: ApplicationRecord, path: Seq<Seq<char>>) -> Seq<char> {
    if path.len() == 0 {
        application.name@
    } else {
        application.name@ + " "@ + join(path, " "@)
    }
}

pub fn command_name(application: &ApplicationRecord, command_path: &Vec<String>) -> (r: String)
    ensures
        r@ == command_name_of(*application, string_seqs(command_path@)),
{
    if command_path.len() == 0 {
        return application.name.clone();
    }
    let name = crate::text::chars_of(application.name.as_str());
    let space = crate::text::chars_of(" ");
    let joined = join_strings(command_path, " ");
    let head = concat_chars(&name, &space);
    let all = concat_chars(&head, &joined);
    string_of(&all)
}

/// The argument lists tried to get help for a command: `--help`, `help`, `-h`
/// after its path of subcommands.
pub open spec fn help_attempts_of(path: Seq<Seq<char>>) -> Seq<Seq<Seq<char>>> {
    seq![path.push("--help"@), path.push("help"@), path.push("-h"@)]
}

pub open spec fn paths_of(v: Seq<Vec<String>>) -> Seq<Seq<Seq<char>>> {
    v.map_values(|p: Vec<String>| string_seqs(p@))
}

pub fn help_attempts(command_path: &Vec<String>) -> (r: Vec<Vec<String>>)
    ensures
        paths_of(r@) == help_attempts_of(string_seqs(command_path@)),
{
    let ghost path = string_seqs(command_path@);
    let mut long_help = copy_strings(command_path);
    long_help.push(owned("--help"));
    assert(string_seqs(long_help@) =~= path.push("--help"@));
    let mut help = copy_strings(command_path);
    help.push(owned("help"));
    assert(string_seqs(help@) =~= path.push("help"@));
    let mut short_help = copy_strings(command_path);
    short_help.push(owned("-h"));
    assert(string_seqs(short_help@) =~= path.push("-h"@));
    let mut attempts: Vec<Vec<String>> = Vec::new();
    attempts.push(long_help);
    attempts.push(help);
    attempts.push(short_help);
    assert(paths_of(attempts@) =~= help_attempts_of(path));
    attempts
}

/// Output that reads like help: it mentions usage, options, commands or examples.
pub open spec fn looks_like_help_text(output: Seq<char>) -> bool {
    let l = lower(output);
    contains(l, "usage:"@) || contains(l, "options:"@) || contains(l, "commands:"@) || contains(
        l,
        "subcommands:"@,
    ) || contains(l, "examples:"@) || contains(l, "available commands"@)
}

pub fn looks_like_help(output: &str) -> (r: bool)
    ensures
        r == looks_like_help_text(output@),
{
    let text = crate::text::chars_of(output);
    let l = lowercase(&text);
    contains_str(&l, "usage:") || contains_str(&l, "options:") || contains_str(&l, "commands:")
        || contains_str(&l, "subcommands:") || contains_str(&l, "examples:") || contains_str(
        &l,
        "available commands",
    )
}

/// What indexing an application's own help page counts: the application, its
/// own command and each subcommand the help lists, and each example; without
/// a help page, the application alone.
pub fn overview_counts(parsed: Option<&ParsedCommandHelp>) -> (r: CommandIndexResult)
    requires
        parsed matches Some(p) ==> p.subcommands@.len() < usize::MAX,
    ensures
        r.applications == 1,
        parsed is None ==> r.commands == 0 && r.examples == 0,
        parsed matches Some(p) ==> r.commands == p.subcommands@.len() + 1 && r.examples == p.examples@.len(),
{
    match parsed {
        Some(p) => CommandIndexResult { applications: 1, commands: p.subcommands.len() + 1, examples: p.examples.len() },
        None => CommandIndexResult { applications: 1, commands: 0, examples: 0 },
    }
}

/// The deepest path of subcommands that indexing follows.
pub const MAX_INDEX_DEPTH: usize = 4;

/// The next command to index: the first queued path within the depth limit whose
/// name (its words joined by spaces) was not visited yet; it is marked visited.
/// Returns the path, the rest of the queue and the visited names.
pub open spec fn walk_next(
    queue: Seq<Seq<Seq<char>>>,
    visited: Seq<Seq<char>>,
    max_depth: nat,
) -> (Option<Seq<Seq<char>>>, Seq<Seq<Seq<char>>>, Seq<Seq<char>>)
    decreases queue.len(),
{
    if queue.len() == 0 {
        (None, queue, visited)
    } else {
        let p = queue[0];
        let key = join(p, " "@);
        if p.len() > max_depth || visited.contains(key) {
            walk_next(queue.drop_first(), visited, max_depth)
        } else {
            (Some(p), queue.drop_first(), visited.push(key))
        }
    }
}

/// The paths of the subcommands of a command.
pub open spec fn child_paths(path: Seq<Seq<char>>, subs: Seq<SubcommandSpec>) -> Seq<Seq<Seq<char>>> {
    subs.map_values(|s: SubcommandSpec| path.push(s.name))
}

/// The breadth-first walk over an application's commands: a queue of paths of
/// subcommands still to read and the names of those already read. The names
/// are kept in a `Vec` without repeats rather than a `HashSet<String>`, whose
/// hashing vstd does not model for `String` keys.
pub struct CommandWalk {
    queue: VecDeque<Vec<String>>,
    visited: Vec<Vec<char>>,
    max_depth: usize,
}

impl CommandWalk {
    pub closed spec fn queued(&self) -> Seq<Seq<Seq<char>>> {
        paths_of(self.queue@)
    }

    pub closed spec fn visited_names(&self) -> Seq<Seq<char>> {
        seqs_of(self.visited@)
    }

    pub closed spec fn depth_limit(&self) -> nat {
        self.max_depth as nat
    }

    /// A walk that starts at the application itself (the empty path).
    pub fn new() -> (r: Self)
        ensures
            r.queued() == seq![Seq::<Seq<char>>::empty()],
            r.visited_names() == Seq::<Seq<char>>::empty(),
            r.depth_limit() == MAX_INDEX_DEPTH,
    {
        let mut queue: VecDeque<Vec<String>> = VecDeque::new();
        let root: Vec<String> = Vec::new();
        queue.push_back(root);
        let r = CommandWalk { queue, visited: Vec::new(), max_depth: MAX_INDEX_DEPTH };
        assert(r.queued() =~= seq![Seq::<Seq<char>>::empty()]) by {
            assert(string_seqs(root@) =~= Seq::<Seq<char>>::empty());
        }
        assert(r.visited_names() =~= Seq::<Seq<char>>::empty());
        r
    }

    fn was_visited(&self, key: &Vec<char>) -> (r: bool)
        ensures
            r == self.visited_names().contains(key@),
    {
        let mut i: usize = 0;
        while i < self.visited.len()
            invariant
                i <= self.visited.len(),
                forall|j: int| 0 <= j < i ==> seqs_of(self.visited@)[j] != key@,
            decreases self.visited.len() - i,
        {
            if crate::text::equal_chars(&self.visited[i], key) {
                assert(seqs_of(self.visited@)[i as int] == key@);
                return true;
            }
            i = i + 1;
        }
        false
    }

    /// Takes the next path to read off the queue (see `walk_next`).
    pub fn next_path(&mut self) -> (r: Option<Vec<String>>)
        ensures
            walk_next(old(self).queued(), old(self).visited_names(), old(self).depth_limit()) == (
                match r {
                    Some(p) => Some(string_seqs(p@)),
                    None => None::<Seq<Seq<char>>>,
                },
                final(self).queued(),
                final(self).visited_names(),
            ),
            final(self).depth_limit() == old(self).depth_limit(),
    {
        let ghost target = walk_next(self.queued(), self.visited_names(), self.depth_limit());
        while self.queue.len() > 0
            invariant
                target == walk_next(self.queued(), self.visited_names(), self.depth_limit()),
                target == walk_next(old(self).queued(), old(self).visited_names(), old(self).depth_limit()),
                self.depth_limit() == old(self).depth_limit(),
            decreases self.queue.len(),
        {
            let ghost q = self.queued();
            let path = match self.queue.pop_front() {
                Some(p) => p,
                None => {
                    return None;
                },
            };
            assert(self.queued() =~= q.drop_first());
            assert(string_seqs(path@) == q[0]);
            let key = join_strings(&path, " ");
            assert(q[0].len() == path@.len());
            if path.len() <= self.max_depth && !self.was_visited(&key) {
                let ghost v = self.visited_names();
                assert(!v.contains(join(q[0], " "@)));
                assert(walk_next(q, v, self.depth_limit()) == (
                    Some(q[0]),
                    q.drop_first(),
                    v.push(join(q[0], " "@)),
                ));
                self.visited.push(key);
                assert(self.visited_names() =~= v.push(key@));
                return Some(path);
            }
        }
        None
    }

    /// Queues the subcommands of a command just read, unless it is at the depth
    /// limit; returns the queued paths.
    pub fn push_children(&mut self, command_path: &Vec<String>, parsed: &ParsedCommandHelp) -> (r: Vec<Vec<String>>)
        ensures
            command_path.len() < old(self).depth_limit() ==> paths_of(r@) == child_paths(
                string_seqs(command_path@),
                parsed@.subcommands,
            ),
            command_path.len() >= old(self).depth_limit() ==> r@.len() == 0,
            final(self).queued() == old(self).queued() + paths_of(r@),
            final(self).visited_names() == old(self).visited_names(),
            final(self).depth_limit() == old(self).depth_limit(),
    {
        let mut children: Vec<Vec<String>> = Vec::new();
        if command_path.len() >= self.max_depth {
            assert(paths_of(children@) =~= Seq::<Seq<Seq<char>>>::empty());
            assert(self.queued() + paths_of(children@) =~= self.queued());
            return children;
        }
        let ghost path = string_seqs(command_path@);
        let ghost subs = parsed@.subcommands;
        let ghost q0 = self.queued();
        let mut i: usize = 0;
        while i < parsed.subcommands.len()
            invariant
                i <= parsed.subcommands.len(),
                path == string_seqs(command_path@),
                subs == parsed@.subcommands,
                paths_of(children@) =~= child_paths(path, subs.take(i as int)),
                self.queued() =~= q0 + paths_of(children@),
                self.visited_names() == old(self).visited_names(),
                self.depth_limit() == old(self).depth_limit(),
            decreases parsed.subcommands.len() - i,
        {
            let mut child = copy_strings(command_path);
            child.push(parsed.subcommands[i].name.clone());
            assert(string_seqs(child@) =~= path.push(subs[i as int].name));
            let queued_child = copy_strings(&child);
            let ghost before_children = paths_of(children@);
            let ghost before_queue = self.queued();
            self.queue.push_back(queued_child);
            children.push(child);
            assert(paths_of(children@) =~= before_children.push(path.push(subs[i as int].name)));
            assert(self.queued() =~= before_queue.push(path.push(subs[i as int].name)));
            assert(subs.take(i + 1) =~= subs.take(i as int).push(subs[i as int]));
            i = i + 1;
        }
        assert(subs.take(parsed.subcommands.len() as int) =~= subs);
        children
    }
}

/// The walk never reads a command twice: the path it hands out was not
/// visited before, lies within the depth limit, and is marked visited; when it
/// hands out nothing, the visited names stay as they were.
pub proof fn walk_reads_each_command_once(
    queue: Seq<Seq<Seq<char>>>,
    visited: Seq<Seq<char>>,
    max_depth: nat,
)
    ensures
        ({
            let (next, rest, seen) = walk_next(queue, visited, max_depth);
            &&& next matches Some(p) ==> !visited.contains(join(p, " "@)) && p.len() <= max_depth
                && seen == visited.push(join(p, " "@))
            &&& next is None ==> seen == visited && rest.len() == 0
            &&& rest.len() < queue.len() || queue.len() == 0
        }),
    decreases queue.len(),
{
    if queue.len() > 0 {
        walk_reads_each_command_once(queue.drop_first(), visited, max_depth);
    }
}

/// What a help command printed, as indexed: its output, or its error output
/// when the output is blank, trimmed; none when that is empty.
pub open spec fn help_text_of(stdout: Seq<char>, stderr: Seq<char>) -> Option<Seq<char>> {
    let data = if crate::text::trim(stdout).len() == 0 { stdout + stderr } else { stdout };
    if crate::text::trim(data).len() > 0 {
        Some(crate::text::trim(data))
    } else {
        None
    }
}

/// What a help command printed, as indexed (see `help_text_of`).
pub fn help_output(stdout: &str, stderr: &str) -> (r: Option<String>)
    ensures
        match help_text_of(stdout@, stderr@) {
            Some(t) => r matches Some(s) && s@ == t,
            None => r is None,
        },
{
    let out = crate::text::chars_of(stdout);
    let t = crate::text::trim_chars(&out);
    let data = if t.len() == 0 {
        let err = crate::text::chars_of(stderr);
        crate::text::concat_chars(&out, &err)
    } else {
        out
    };
    let trimmed = crate::text::trim_chars(&data);
    if trimmed.len() > 0 {
        Some(crate::text::string_of(&trimmed))
    } else {
        None
    }
}

/// The title of the example at `index` (counted from zero) of a command: `Example <index + 1>`.
pub fn example_title(index: usize) -> (r: String)
    requires
        index < usize::MAX,
    ensures
        r@ == "Example "@ + crate::commands::system::decimal((index + 1) as nat),
{
    let number = crate::commands::system::decimal_text((index as u64) + 1);
    crate::text::concat_str("Example ", number.as_str())
}

} // verus!
