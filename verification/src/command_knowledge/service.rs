//! Decisions of the command knowledge service: which application a command
//! line runs, and when a query is worth indexing that application for.
use vstd::prelude::*;
use crate::command_knowledge::models::CommandAutocompleteSuggestion;
use crate::commands::ports::opt_text;
use crate::paths::{file_name, file_stem, path_file_name, path_file_stem, plain_path};
use crate::text::{
    chars_of, concat_chars, equals_str, is_whitespace, is_ws, lower, lowercase, owned, seqs_of,
    starts_with, starts_with_chars, string_of, trim, trim_chars,
};

verus! {

/// The first word of a command line, read the way a shell reads it: a
/// backslash takes the next character as it is, quotes group characters
/// (and are dropped), unquoted whitespace ends the word.
pub open spec fn token_from(s: Seq<char>, token: Seq<char>, quote: Option<char>, escaped: bool) -> Seq<char>
    decreases s.len(),
{
    if s.len() == 0 {
        token
    } else {
        let c = s[0];
        let rest = s.drop_first();
        if escaped {
            token_from(rest, token.push(c), quote, false)
        } else if c == '\\' {
            token_from(rest, token, quote, true)
        } else if quote is Some {
            if c == quote->0 {
                token_from(rest, token, None, false)
            } else {
                token_from(rest, token.push(c), quote, false)
            }
        } else if c == '\'' || c == '"' {
            token_from(rest, token, Some(c), false)
        } else if is_ws(c) {
            token
        } else {
            token_from(rest, token.push(c), None, false)
        }
    }
}

pub open spec fn first_token_of(command_line: Seq<char>) -> Seq<char> {
    token_from(trim(command_line), seq![], None, false)
}

/// The application a command line runs, given its first word and that word's
/// file stem and file name: the stem, else the file name, else the word itself,
/// or `unknown` when that is blank.
pub open spec fn application_of_parts(token: Seq<char>, stem: Option<Seq<char>>, name: Option<Seq<char>>) -> Seq<char> {
    let n = match stem {
        Some(s) => s,
        None => match name {
            Some(x) => x,
            None => token,
        },
    };
    if trim(n).len() == 0 {
        "unknown"@
    } else {
        n
    }
}

/// The application a command line runs, where its first word is a plain path
/// (see `plain_path`).
pub open spec fn application_of(command_line: Seq<char>) -> Seq<char> {
    let token = first_token_of(command_line);
    application_of_parts(token, file_stem(token), file_name(token))
}

/// The application named by a first word, given its file stem and file name
/// as this platform reads them (see `application_of_parts`).
pub fn application_from_parts(token: &Vec<char>, stem: Option<String>, name: Option<String>) -> (r: String)
    ensures
        r@ == application_of_parts(token@, opt_text(stem), opt_text(name)),
{
    let chosen = match stem {
        Some(s) => chars_of(s.as_str()),
        None => match name {
            Some(n) => chars_of(n.as_str()),
            None => token.clone(),
        },
    };
    let trimmed = trim_chars(&chosen);
    if trimmed.len() == 0 {
        owned("unknown")
    } else {
        string_of(&chosen)
    }
}

/// Reads the application out of a command line.
pub struct CommandLineParser<'a> {
    command_line: &'a str,
}

impl<'a> CommandLineParser<'a> {
    pub fn new(command_line: &'a str) -> (r: Self)
        ensures
            r.line() == command_line@,
    {
        CommandLineParser { command_line }
    }

    pub closed spec fn line(&self) -> Seq<char> {
        self.command_line@
    }

    /// The application this command line runs: from its first word's file
    /// stem and file name as this platform reads them; on a plain path,
    /// `application_of`.
    pub fn application_name(&self) -> (r: String)
        ensures
            plain_path(first_token_of(self.line())) ==> r@ == application_of(self.line()),
            exists|stem: Option<Seq<char>>, name: Option<Seq<char>>|
                r@ == #[trigger] application_of_parts(first_token_of(self.line()), stem, name),
    {
        let token = self.first_token();
        let text = string_of(&token);
        let stem = path_file_stem(text.as_str());
        let name = path_file_name(text.as_str());
        let ghost (s1, n1) = (opt_text(stem), opt_text(name));
        let r = application_from_parts(&token, stem, name);
        assert(r@ == application_of_parts(first_token_of(self.line()), s1, n1));
        r
    }

    pub fn first_token(&self) -> (r: Vec<char>)
        ensures
            r@ == first_token_of(self.line()),
    {
        let text = chars_of(self.command_line);
        let line = trim_chars(&text);
        let mut token: Vec<char> = Vec::new();
        let mut quote: Option<char> = None;
        let mut escaped = false;
        let mut i: usize = 0;
        assert(line@.skip(0) =~= line@);
        while i < line.len()
            invariant
                i <= line.len(),
                line@ == trim(self.line()),
                first_token_of(self.line()) == token_from(line@.skip(i as int), token@, quote, escaped),
            decreases line.len() - i,
        {
            let c = line[i];
            assert(line@.skip(i as int)[0] == c);
            assert(line@.skip(i as int).drop_first() =~= line@.skip(i + 1));
            if escaped {
                token.push(c);
                escaped = false;
            } else if c == '\\' {
                escaped = true;
            } else if quote.is_some() {
                let q = quote.unwrap();
                if c == q {
                    quote = None;
                } else {
                    token.push(c);
                }
            } else if c == '\'' || c == '"' {
                quote = Some(c);
            } else if is_whitespace(c) {
                return token;
            } else {
                token.push(c);
            }
            i = i + 1;
        }
        assert(line@.skip(line.len() as int) =~= Seq::<char>::empty());
        token
    }
}

/// How many bytes UTF-8 takes for a character.
pub open spec fn utf8_width(c: char) -> nat {
    if (c as u32) < 0x80 {
        1
    } else if (c as u32) < 0x800 {
        2
    } else if (c as u32) < 0x10000 {
        3
    } else {
        4
    }
}

/// The UTF-8 length of a string (`str::len`).
pub open spec fn byte_len(s: Seq<char>) -> nat
    decreases s.len(),
{
    if s.len() == 0 {
        0
    } else {
        utf8_width(s[0]) + byte_len(s.drop_first())
    }
}

/// A name worth indexing: not `unknown` and at least two bytes long.
pub open spec fn names_an_application(name: Seq<char>) -> bool {
    name != "unknown"@ && byte_len(name) >= 2
}

pub fn is_indexable_name(name: &Vec<char>) -> (r: bool)
    ensures
        r == names_an_application(name@),
{
    if equals_str(name, "unknown") {
        return false;
    }
    if name.len() == 0 {
        return false;
    }
    if name.len() == 1 {
        assert(name@.drop_first() =~= Seq::<char>::empty());
        assert(byte_len(name@) == utf8_width(name@[0]) + byte_len(name@.drop_first()));
        return (name[0] as u32) >= 0x80;
    }
    assert(byte_len(name@.drop_first()) >= 1) by {
        assert(name@.drop_first()[0] == name@[1]);
    }
    true
}

/// A suggestion already starts with the application's name and a space.
pub open spec fn covered_by(lines: Seq<Seq<char>>, name: Seq<char>) -> bool {
    exists|i: int| 0 <= i < lines.len() && starts_with(lower(#[trigger] lines[i]), name + " "@)
}

pub open spec fn suggestion_lines(s: Seq<CommandAutocompleteSuggestion>) -> Seq<Seq<char>> {
    s.map_values(|x: CommandAutocompleteSuggestion| x.command_line@)
}

/// Whether the application `name` (in lower case) should be indexed for a
/// query: it names an application, no suggestion starts with it yet, and it
/// was not indexed for a query before (`indexed` records the names already
/// handled).
pub open spec fn should_index_name(name: Seq<char>, lines: Seq<Seq<char>>, indexed: Seq<Seq<char>>) -> bool {
    names_an_application(name) && !covered_by(lines, name) && !indexed.contains(name)
}

/// Whether a query should trigger indexing its application, where its first
/// word is a plain path.
pub open spec fn should_index(query: Seq<char>, lines: Seq<Seq<char>>, indexed: Seq<Seq<char>>) -> bool {
    should_index_name(lower(application_of(query)), lines, indexed)
}

/// The decision on the application `app` that a query names: the answer is
/// `should_index_name` of its lower-case name, and when it is yes that name is
/// recorded.
pub open spec fn index_decision(
    app: Seq<char>,
    lines: Seq<Seq<char>>,
    before: Seq<Seq<char>>,
    after: Seq<Seq<char>>,
    r: bool,
) -> bool {
    &&& r == should_index_name(lower(app), lines, before)
    &&& r ==> after == before.push(lower(app))
}

/// Decides whether the application a query names should be indexed now, and
/// records it as handled when so. The application is read from the query's
/// first word as this platform reads paths (see `CommandLineParser::application_name`).
pub fn should_index_for_autocomplete(
    query: &str,
    suggestions: &Vec<CommandAutocompleteSuggestion>,
    indexed: &mut Vec<Vec<char>>,
) -> (r: bool)
    ensures
        plain_path(first_token_of(query@)) ==> index_decision(
            application_of(query@),
            suggestion_lines(suggestions@),
            seqs_of(old(indexed)@),
            seqs_of(final(indexed)@),
            r,
        ),
        exists|app: Seq<char>|
            #[trigger] index_decision(
                app,
                suggestion_lines(suggestions@),
                seqs_of(old(indexed)@),
                seqs_of(final(indexed)@),
                r,
            ) && (exists|stem: Option<Seq<char>>, name: Option<Seq<char>>|
                app == #[trigger] application_of_parts(first_token_of(query@), stem, name)),
        !r ==> final(indexed)@ == old(indexed)@,
{
    let parser = CommandLineParser::new(query);
    let app = parser.application_name();
    should_index_application(app.as_str(), suggestions, indexed)
}

/// Decides whether the application `app` a query names should be indexed now
/// (see `index_decision`), and records its lower-case name as handled when so.
#[verifier::loop_isolation(false)]
pub fn should_index_application(
    app: &str,
    suggestions: &Vec<CommandAutocompleteSuggestion>,
    indexed: &mut Vec<Vec<char>>,
) -> (r: bool)
    ensures
        index_decision(app@, suggestion_lines(suggestions@), seqs_of(old(indexed)@), seqs_of(final(indexed)@), r),
        !r ==> final(indexed)@ == old(indexed)@,
{
    let ghost a = app@;
    let ghost before = seqs_of(indexed@);
    let app_chars = chars_of(app);
    let name = lowercase(&app_chars);
    if !is_indexable_name(&name) {
        assert(index_decision(a, suggestion_lines(suggestions@), before, seqs_of(indexed@), false));
        return false;
    }
    let space = chars_of(" ");
    let prefix = concat_chars(&name, &space);
    let ghost lines = suggestion_lines(suggestions@);
    let mut i: usize = 0;
    while i < suggestions.len()
        invariant
            i <= suggestions.len(),
            lines == suggestion_lines(suggestions@),
            prefix@ == name@ + " "@,
            name@ == lower(a),
            forall|j: int| 0 <= j < i ==> !starts_with(lower(#[trigger] lines[j]), prefix@),
        decreases suggestions.len() - i,
    {
        let line = chars_of(suggestions[i].command_line.as_str());
        let low = lowercase(&line);
        if starts_with_chars(&low, &prefix) {
            assert(lines[i as int] == line@);
            assert(starts_with(lower(lines[i as int]), lower(a) + " "@));
            assert(covered_by(lines, lower(a)));
            assert(index_decision(a, lines, before, seqs_of(indexed@), false));
            return false;
        }
        i = i + 1;
    }
    let mut k: usize = 0;
    while k < indexed.len()
        invariant
            k <= indexed.len(),
            name@ == lower(a),
            before == seqs_of(indexed@),
            forall|j: int| 0 <= j < k ==> seqs_of(indexed@)[j] != name@,
        decreases indexed.len() - k,
    {
        if crate::text::equal_chars(&indexed[k], &name) {
            assert(seqs_of(indexed@)[k as int] == name@);
            assert(before.contains(lower(a)));
            assert(index_decision(a, lines, before, seqs_of(indexed@), false));
            return false;
        }
        k = k + 1;
    }
    indexed.push(name);
    assert(seqs_of(indexed@) =~= before.push(lower(a)));
    assert(index_decision(a, lines, before, seqs_of(indexed@), true));
    true
}

/// A query triggers indexing of its application at most once: once the
/// application's name is recorded, a query naming it (with any suggestions)
/// no longer does.
pub proof fn query_indexes_application_once(
    name: Seq<char>,
    lines: Seq<Seq<char>>,
    later_lines: Seq<Seq<char>>,
    indexed: Seq<Seq<char>>,
)
    requires
        should_index_name(name, lines, indexed),
    ensures
        !should_index_name(name, later_lines, indexed.push(name)),
{
    assert(indexed.push(name)[indexed.len() as int] == name);
}

} // verus!
