//! The applications that start with the user session: how an entry is
//! described, how its status is read, and which entries may be edited.
//!
//! Reading the registry, the startup folders and the version resources of
//! executables is left to the caller, which hands the values it read to the
//! functions here.
use vstd::prelude::*;
use crate::models::{is_error, CommandError};
use crate::paths::{named_components, simple_relative_path};
use crate::terminal::models::Platform;
use crate::text::{
    chars_less, chars_lt, chars_of, concat_str, contains, contains_str, eq_ignore_ascii_case,
    eq_ignore_case, equals_str, is_digit, is_lowercase, is_uppercase, lemma_chars_lt_asym,
    lemma_chars_lt_trans, lowercase_char, owned, split, split_on, split_whitespace, starts_with,
    starts_with_str, string_of, to_lowercase, trim, trim_chars, unicode_lower, uppercase, words,
};

verus! {

/// An application that starts with the user session.
#[derive(Clone, Debug)]
pub struct StartupApp {
    pub name: String,
    pub publisher: String,
    pub icon_data_url: Option<String>,
    pub status: String,
    pub impact: String,
    pub startup_type: String,
    pub source: String,
    pub command: String,
    pub path: String,
    /// The registry value that holds the command, for registry entries.
    pub value_name: Option<String>,
}

/// A new command for a registry startup entry.
#[derive(Clone, Debug)]
pub struct StartupCommandUpdateRequest {
    pub source: String,
    pub value_name: String,
    pub command: String,
}

/// The registry hive of a startup entry.
#[derive(Clone, Copy, Debug, PartialEq, Eq, Structural)]
pub enum RegistryHive {
    CurrentUser,
    LocalMachine,
}

/// A registry value to set: the key under a hive, the value's name and its text.
#[derive(Clone, Debug)]
pub struct RegistryWrite {
    pub hive: RegistryHive,
    pub key_path: String,
    pub value_name: String,
    pub value: String,
}

/// What the version resource of an executable says, as the caller read it.
#[derive(Clone, Debug)]
pub struct FileDetails {
    pub file_description: Option<String>,
    pub product_name: Option<String>,
    pub company_name: Option<String>,
    pub icon_data_url: Option<String>,
}

/// The startup component. It holds no state.
pub struct StartupManager;

/// The key of the registry startup entries under either hive.
pub open spec fn run_key() -> Seq<char> {
    "Software\\Microsoft\\Windows\\CurrentVersion\\Run"@
}

/// The executable a command starts: the quoted part of a command that starts
/// with a quote, else its first word (the trimmed command when it has none).
pub open spec fn executable_path_of(command: Seq<char>) -> Seq<char> {
    let t = trim(command);
    if t.len() > 0 && t[0] == '"' {
        split(t.drop_first(), '"')[0]
    } else if words(t).len() > 0 {
        words(t)[0]
    } else {
        t
    }
}

/// `_` read as a space.
pub open spec fn underscores_as_spaces(s: Seq<char>) -> Seq<char> {
    s.map_values(|c: char| if c == '_' { ' ' } else { c })
}

/// The characters with a space put before every uppercase letter that follows
/// a lowercase letter or a digit.
pub open spec fn split_words(s: Seq<char>) -> Seq<char>
    decreases s.len(),
{
    if s.len() == 0 {
        s
    } else {
        let rest = split_words(s.drop_last());
        let c = s.last();
        if s.len() >= 2 && (lowercase_char(s[s.len() - 2]) || is_digit(s[s.len() - 2])) && uppercase(c) {
            rest.push(' ').push(c)
        } else {
            rest.push(c)
        }
    }
}

/// A name written for reading: `_` as spaces, words split at case changes, trimmed.
pub open spec fn spaced_name_of(value: Seq<char>) -> Seq<char> {
    trim(split_words(underscores_as_spaces(value)))
}

/// The value of an environment variable: that of the first variable of the
/// snapshot whose name matches, ignoring ASCII case as Windows does.
pub open spec fn env_lookup(vars: Seq<(String, String)>, name: Seq<char>) -> Option<Seq<char>>
    decreases vars.len(),
{
    if vars.len() == 0 {
        None
    } else if eq_ignore_case(vars[0].0@, name) {
        Some(vars[0].1@)
    } else {
        env_lookup(vars.drop_first(), name)
    }
}

/// The first position of `c` in `s`.
pub open spec fn position_of(s: Seq<char>, c: char) -> Option<int>
    decreases s.len(),
{
    if s.len() == 0 {
        None
    } else if s[0] == c {
        Some(0)
    } else {
        match position_of(s.drop_first(), c) {
            Some(i) => Some(i + 1),
            None => None,
        }
    }
}

pub proof fn lemma_position_of(s: Seq<char>, c: char)
    ensures
        match position_of(s, c) {
            Some(i) => 0 <= i < s.len() && s[i] == c && forall|j: int| 0 <= j < i ==> s[j] != c,
            None => forall|j: int| 0 <= j < s.len() ==> s[j] != c,
        },
    decreases s.len(),
{
    if s.len() > 0 {
        lemma_position_of(s.drop_first(), c);
        assert forall|j: int| 0 < j < s.len() implies s[j] == s.drop_first()[j - 1] by {}
    }
}

/// `%NAME%` references replaced by the variables' values. A reference to an
/// unknown variable is kept (closed with `%` when the text ended first), and
/// `%%` stands for `%`.
pub open spec fn expand_vars(s: Seq<char>, vars: Seq<(String, String)>) -> Seq<char>
    decreases s.len(),
{
    if s.len() == 0 {
        s
    } else if s[0] != '%' {
        seq![s[0]] + expand_vars(s.drop_first(), vars)
    } else {
        let rest = s.drop_first();
        proof {
            lemma_position_of(rest, '%');
        }
        let (name, after) = match position_of(rest, '%') {
            Some(i) => (rest.take(i), rest.skip(i + 1)),
            None => (rest, Seq::<char>::empty()),
        };
        let piece = if name.len() == 0 {
            seq!['%']
        } else {
            match env_lookup(vars, name) {
                Some(v) => v,
                None => seq!['%'] + name + seq!['%'],
            }
        };
        piece + expand_vars(after, vars)
    }
}

/// How much an application slows the start of the session, guessed from its command.
pub open spec fn impact_of(command: Seq<char>) -> Seq<char> {
    let l = unicode_lower(command);
    if contains(l, "teams"@) || contains(l, "discord"@) || contains(l, "steam"@) || contains(
        l,
        "adobe"@,
    ) {
        "High"@
    } else if contains(l, "onedrive"@) || contains(l, "update"@) || contains(l, "helper"@)
        || contains(l, "launcher"@) {
        "Medium"@
    } else {
        "Low"@
    }
}

/// The impact of a startup command, by the words its lower-case text
/// (`str::to_lowercase`) contains: `teams`, `discord`, `steam` or `adobe` make
/// it `High`; else `onedrive`, `update`, `helper` or `launcher` make it
/// `Medium`; anything else is `Low`.
pub proof fn impact_follows_the_words_of_the_command(command: Seq<char>)
    ensures
        ({
            let l = unicode_lower(command);
            contains(l, "steam"@) || contains(l, "teams"@) || contains(l, "adobe"@) || contains(l, "discord"@)
        }) ==> impact_of(command) == "High"@,
        ({
            let l = unicode_lower(command);
            !(contains(l, "steam"@) || contains(l, "teams"@) || contains(l, "adobe"@) || contains(l, "discord"@))
                && (contains(l, "onedrive"@) || contains(l, "update"@) || contains(l, "helper"@) || contains(l, "launcher"@))
        }) ==> impact_of(command) == "Medium"@,
        ({
            let l = unicode_lower(command);
            !(contains(l, "steam"@) || contains(l, "teams"@) || contains(l, "adobe"@) || contains(l, "discord"@)
                || contains(l, "onedrive"@) || contains(l, "update"@) || contains(l, "helper"@) || contains(l, "launcher"@))
        }) ==> impact_of(command) == "Low"@,
{
}

/// Whether a path component can name a publisher: no drive and not a program files folder.
pub open spec fn names_publisher(c: Seq<char>) -> bool {
    !(c.len() > 0 && c.last() == ':') && !eq_ignore_case(c, "program files"@) && !eq_ignore_case(
        c,
        "program files (x86)"@,
    )
}

/// The publisher read from a path's components: the first, among those that
/// are valid Unicode, that can name one.
pub open spec fn publisher_of_components(cs: Seq<Option<Seq<char>>>) -> Seq<char>
    decreases cs.len(),
{
    if cs.len() == 0 {
        "Unknown publisher"@
    } else {
        match cs[0] {
            Some(c) => if names_publisher(c) {
                c
            } else {
                publisher_of_components(cs.drop_first())
            },
            None => publisher_of_components(cs.drop_first()),
        }
    }
}

pub open spec fn opt_texts(v: Seq<Option<String>>) -> Seq<Option<Seq<char>>> {
    v.map_values(|o: Option<String>| match o {
        Some(s) => Some(s@),
        None => None,
    })
}

/// The status of an entry from the first byte of its approval value: `3` disables it.
pub open spec fn status_of_flag(flag: Option<u8>) -> Seq<char> {
    if flag == Some(3u8) {
        "Disabled"@
    } else {
        "Enabled"@
    }
}

/// Whether a task of a packaged application starts with the session.
pub open spec fn is_startup_task(task: Seq<char>) -> bool {
    let l = unicode_lower(task);
    contains(l, "startup"@) || contains(l, "start"@) || contains(l, "autostart"@) || l
        == "microsoftdefender"@ || l == "cmdpalstartup"@ || l == "webviewhoststartupid"@
}

/// Whether a packaged startup task is disabled.
pub open spec fn packaged_disabled(
    state: u32,
    last_disabled_time: Option<u64>,
    user_enabled_startup_once: Option<u32>,
    show_notification: Option<u32>,
) -> bool {
    state == 1 || (state != 2 && (last_disabled_time is Some || user_enabled_startup_once == Some(
        1u32,
    ))) || show_notification == Some(1u32)
}

/// The name shown for a packaged application's task.
pub open spec fn packaged_name_of(package: Seq<char>, task: Seq<char>) -> Seq<char> {
    if contains(package, "WhatsAppDesktop"@) {
        "WhatsApp"@
    } else if starts_with(package, "Microsoft.6365217CE6EB4"@) {
        "Microsoft Defender"@
    } else if starts_with(package, "Microsoft.CommandPalette"@) {
        "Command Palette"@
    } else if starts_with(package, "Microsoft.MicrosoftOfficeHub"@) {
        "Microsoft 365 Copilot"@
    } else if starts_with(package, "Microsoft.WindowsTerminal"@) {
        "Terminal"@
    } else if starts_with(package, "Microsoft.YourPhone"@) {
        "Phone Link"@
    } else if starts_with(package, "MicrosoftWindows.CrossDevice"@) {
        "Mobile devices"@
    } else if starts_with(package, "MSTeams"@) {
        "Microsoft Teams"@
    } else {
        spaced_name_of(task)
    }
}

/// The publisher shown for a packaged application.
pub open spec fn packaged_publisher_of(package: Seq<char>) -> Seq<char> {
    if contains(package, "WhatsAppDesktop"@) {
        "WhatsApp Inc."@
    } else if starts_with(package, "MicrosoftWindows.CrossDevice"@) {
        "Microsoft Windows"@
    } else if starts_with(package, "Microsoft."@) || starts_with(package, "MicrosoftWindows."@)
        || starts_with(package, "MSTeams"@) {
        "Microsoft Corporation"@
    } else {
        "Unknown publisher"@
    }
}

/// `a` is listed strictly before `b`: its name in lower case sorts first.
pub open spec fn app_before(a: StartupApp, b: StartupApp) -> bool {
    chars_lt(unicode_lower(a.name@), unicode_lower(b.name@))
}

/// No application is listed after one it comes strictly before.
pub open spec fn apps_sorted(s: Seq<StartupApp>) -> bool {
    forall|i: int, j: int| 0 <= i < j < s.len() ==> !app_before(#[trigger] s[j], #[trigger] s[i])
}

/// Where a stable insertion puts `x`: before the first application it comes strictly before.
pub open spec fn app_slot(s: Seq<StartupApp>, x: StartupApp, k: int) -> int
    decreases s.len() - k,
{
    if k < 0 || k >= s.len() {
        s.len() as int
    } else if app_before(x, s[k]) {
        k
    } else {
        app_slot(s, x, k + 1)
    }
}

/// The applications in listing order, ties kept in their given order.
pub open spec fn app_order(s: Seq<StartupApp>) -> Seq<StartupApp>
    decreases s.len(),
{
    if s.len() == 0 {
        s
    } else {
        let sorted = app_order(s.drop_last());
        sorted.insert(app_slot(sorted, s.last(), 0), s.last())
    }
}

proof fn lemma_app_slot_bounds(s: Seq<StartupApp>, x: StartupApp, k: int)
    requires
        0 <= k <= s.len(),
    ensures
        k <= app_slot(s, x, k) <= s.len(),
        forall|i: int| k <= i < app_slot(s, x, k) ==> !app_before(x, #[trigger] s[i]),
        app_slot(s, x, k) < s.len() ==> app_before(x, s[app_slot(s, x, k)]),
    decreases s.len() - k,
{
    if k < s.len() && !app_before(x, s[k]) {
        lemma_app_slot_bounds(s, x, k + 1);
    }
}

proof fn lemma_app_insert_sorted(s: Seq<StartupApp>, x: StartupApp)
    requires
        apps_sorted(s),
    ensures
        apps_sorted(s.insert(app_slot(s, x, 0), x)),
{
    lemma_app_slot_bounds(s, x, 0);
    let p = app_slot(s, x, 0);
    let t = s.insert(p, x);
    assert forall|i: int, j: int| 0 <= i < j < t.len() implies !app_before(#[trigger] t[j], #[trigger] t[i]) by {
        if i < p && j == p {
            lemma_chars_lt_asym(unicode_lower(x.name@), unicode_lower(s[i].name@));
        } else if i == p && j > p {
            if app_before(t[j], x) {
                if p < s.len() {
                    lemma_chars_lt_trans(unicode_lower(s[j - 1].name@), unicode_lower(x.name@), unicode_lower(s[p].name@));
                    if j - 1 == p {
                        lemma_chars_lt_asym(unicode_lower(s[p].name@), unicode_lower(x.name@));
                    }
                }
            }
        } else if i < p && j > p {
            assert(t[i] == s[i] && t[j] == s[j - 1]);
        } else if j < p {
            assert(t[i] == s[i] && t[j] == s[j]);
        } else {
            assert(t[i] == s[i - 1] && t[j] == s[j - 1]);
        }
    }
}

/// Listing orders the applications by their lower-case names and keeps exactly the same applications.
pub proof fn app_order_is_sorted_permutation(s: Seq<StartupApp>)
    ensures
        apps_sorted(app_order(s)),
        app_order(s).to_multiset() == s.to_multiset(),
        app_order(s).len() == s.len(),
    decreases s.len(),
{
    broadcast use vstd::seq_lib::to_multiset_insert;
    if s.len() > 0 {
        let sorted = app_order(s.drop_last());
        app_order_is_sorted_permutation(s.drop_last());
        lemma_app_insert_sorted(sorted, s.last());
        lemma_app_slot_bounds(sorted, s.last(), 0);
        vstd::seq_lib::to_multiset_build(s.drop_last(), s.last());
        assert(s.drop_last().push(s.last()) =~= s);
    }
}

/// The entry made from a startup command: its executable with the variables
/// expanded, named and published as the file's version resource says (else
/// by `fallback_name` and the path), its impact guessed from the command.
pub open spec fn is_command_app(
    app: StartupApp,
    fallback_name: Seq<char>,
    command: Seq<char>,
    startup_type: Seq<char>,
    source: Seq<char>,
    status: Seq<char>,
    value_name: Option<String>,
    vars: Seq<(String, String)>,
    details: FileDetails,
    components: Seq<Option<Seq<char>>>,
) -> bool {
    &&& app.path@ == expand_vars(executable_path_of(command), vars)
    &&& app.name@ == match details.file_description {
        Some(d) => d@,
        None => match details.product_name {
            Some(p) => p@,
            None => spaced_name_of(fallback_name),
        },
    }
    &&& app.publisher@ == match details.company_name {
        Some(c) => c@,
        None => publisher_of_components(components),
    }
    &&& app.icon_data_url == details.icon_data_url
    &&& app.status@ == status
    &&& app.impact@ == impact_of(command)
    &&& app.startup_type@ == startup_type
    &&& app.source@ == source
    &&& app.command@ == command
    &&& app.value_name == value_name
}

/// The components of a path as `std::path::Path::components` splits it on
/// this platform, each as text when it is valid Unicode. How a path splits
/// depends on the platform (drive prefixes and `\\` exist on Windows only), so
/// the result is stated only for simple relative paths, which every platform
/// splits into their `/`-separated pieces.
#[verifier::external_body]
fn path_components(path: &str) -> (r: Vec<Option<String>>)
    ensures
        simple_relative_path(path@) ==> opt_texts(r@) == named_components(split(path@, '/')),
{
    std::path::Path::new(path)
        .components()
        .map(|component| component.as_os_str().to_str().map(|text| text.to_string()))
        .collect()
}

impl StartupManager {
    pub fn new() -> (r: Self) {
        StartupManager
    }

    /// Checks a request to change the command of a startup entry and says
    /// which registry value to set to what. Only registry entries can be edited,
    /// only on Windows, and only to a command that is not blank; the command is
    /// stored trimmed.
    pub fn update_command(&self, request: StartupCommandUpdateRequest, platform: Platform) -> (r: Result<RegistryWrite, CommandError>)
        ensures
            platform != Platform::Windows ==> (r matches Err(e) && is_error(
                e,
                "settingsFailed"@,
                "startup command editing is only available on Windows"@,
            )),
            platform == Platform::Windows && trim(request.command@).len() == 0 ==> (r matches Err(e)
                && is_error(e, "settingsFailed"@, "startup command cannot be empty"@)),
            platform == Platform::Windows && trim(request.command@).len() > 0 && request.source@
                != "HKCU Run"@ && request.source@ != "HKLM Run"@ ==> (r matches Err(e) && is_error(
                e,
                "settingsFailed"@,
                "only registry startup entries can be edited"@,
            )),
            platform == Platform::Windows && trim(request.command@).len() > 0 && (request.source@
                == "HKCU Run"@ || request.source@ == "HKLM Run"@) ==> (r matches Ok(w) && w.hive == (
            if request.source@ == "HKCU Run"@ {
                RegistryHive::CurrentUser
            } else {
                RegistryHive::LocalMachine
            }) && w.key_path@ == run_key() && w.value_name@ == request.value_name@ && w.value@
                == trim(request.command@)),
    {
        if platform != Platform::Windows {
            return Err(CommandError::settings_failed("startup command editing is only available on Windows"));
        }
        let text = chars_of(request.command.as_str());
        let command = trim_chars(&text);
        if command.len() == 0 {
            return Err(CommandError::settings_failed("startup command cannot be empty"));
        }
        let source = chars_of(request.source.as_str());
        let hive = if equals_str(&source, "HKCU Run") {
            RegistryHive::CurrentUser
        } else if equals_str(&source, "HKLM Run") {
            RegistryHive::LocalMachine
        } else {
            return Err(CommandError::settings_failed("only registry startup entries can be edited"));
        };
        Ok(RegistryWrite {
            hive,
            key_path: owned("Software\\Microsoft\\Windows\\CurrentVersion\\Run"),
            value_name: request.value_name,
            value: string_of(&command),
        })
    }

    /// The executable a command starts.
    pub fn executable_path(command: &str) -> (r: String)
        ensures
            r@ == executable_path_of(command@),
    {
        let text = chars_of(command);
        let t = trim_chars(&text);
        if t.len() > 0 && t[0] == '"' {
            let mut rest: Vec<char> = Vec::new();
            let mut k: usize = 1;
            while k < t.len()
                invariant
                    1 <= k <= t.len(),
                    rest@ =~= t@.subrange(1, k as int),
                decreases t.len() - k,
            {
                rest.push(t[k]);
                k = k + 1;
            }
            assert(rest@ =~= t@.drop_first());
            let parts = split_on(&rest, '"');
            assert(parts@[0]@ == split(rest@, '"')[0]);
            return string_of(&parts[0]);
        }
        let ws = split_whitespace(&t);
        if ws.len() > 0 {
            assert(ws@[0]@ == words(t@)[0]);
            string_of(&ws[0])
        } else {
            string_of(&t)
        }
    }

    /// A name written for reading: `_` as spaces, words split at case changes, trimmed.
    pub fn spaced_name(value: &str) -> (r: String)
        ensures
            r@ == spaced_name_of(value@),
    {
        let v = chars_of(value);
        let ghost s = underscores_as_spaces(v@);
        let mut out: Vec<char> = Vec::new();
        let mut previous_lower = false;
        let mut k: usize = 0;
        while k < v.len()
            invariant
                k <= v.len(),
                s == underscores_as_spaces(v@),
                out@ == split_words(s.take(k as int)),
                previous_lower == (k >= 1 && (lowercase_char(s[k - 1]) || is_digit(s[k - 1]))),
            decreases v.len() - k,
        {
            let c = if v[k] == '_' {
                ' '
            } else {
                v[k]
            };
            assert(s[k as int] == c);
            assert(s.take(k + 1).drop_last() =~= s.take(k as int));
            assert(s.take(k + 1).last() == c);
            if previous_lower && is_uppercase(c) {
                out.push(' ');
            }
            previous_lower = is_lowercase(c) || ('0' <= c && c <= '9');
            out.push(c);
            k = k + 1;
        }
        assert(s.take(v@.len() as int) =~= s);
        let t = trim_chars(&out);
        string_of(&t)
    }

    /// The value of an environment variable in the snapshot `vars`.
    fn lookup_var(vars: &Vec<(String, String)>, name: &Vec<char>) -> (r: Option<String>)
        ensures
            match env_lookup(vars@, name@) {
                Some(v) => r matches Some(s) && s@ == v,
                None => r is None,
            },
    {
        let mut k: usize = 0;
        assert(vars@.skip(0) =~= vars@);
        while k < vars.len()
            invariant
                k <= vars.len(),
                env_lookup(vars@, name@) == env_lookup(vars@.skip(k as int), name@),
            decreases vars.len() - k,
        {
            assert(vars@.skip(k as int)[0] == vars@[k as int]);
            assert(vars@.skip(k as int).drop_first() =~= vars@.skip(k + 1));
            let key = chars_of(vars[k].0.as_str());
            if eq_ignore_ascii_case(&key, name) {
                return Some(vars[k].1.clone());
            }
            k = k + 1;
        }
        None
    }

    /// `value` with its `%NAME%` references replaced by the values in the
    /// environment snapshot `vars` (see `expand_vars`).
    #[verifier::rlimit(100)]
    #[verifier::spinoff_prover]
    pub fn expand_environment_variables(value: &str, vars: &Vec<(String, String)>) -> (r: String)
        ensures
            r@ == expand_vars(value@, vars@),
    {
        let v = chars_of(value);
        let mut out: Vec<char> = Vec::new();
        let mut k: usize = 0;
        assert(v@.skip(0) =~= v@);
        while k < v.len()
            invariant
                k <= v.len(),
                out@ + expand_vars(v@.skip(k as int), vars@) == expand_vars(v@, vars@),
            decreases v.len() - k,
        {
            let ghost s = v@.skip(k as int);
            let c = v[k];
            assert(s[0] == c);
            if c != '%' {
                assert(s.drop_first() =~= v@.skip(k + 1));
                out.push(c);
                k = k + 1;
                assert(out@ + expand_vars(v@.skip(k as int), vars@) =~= expand_vars(v@, vars@));
            } else {
                let ghost rest = s.drop_first();
                let mut name: Vec<char> = Vec::new();
                let mut j: usize = k + 1;
                assert(rest =~= v@.skip(k + 1));
                while j < v.len() && v[j] != '%'
                    invariant
                        k < j <= v.len(),
                        rest == v@.skip(k + 1),
                        name@ =~= v@.subrange(k + 1, j as int),
                        position_of(rest, '%') == match position_of(v@.skip(j as int), '%') {
                            Some(i) => Some(i + (j - k - 1)),
                            None => None,
                        },
                    decreases v.len() - j,
                {
                    assert(v@.skip(j as int)[0] == v@[j as int]);
                    assert(v@.skip(j as int).drop_first() =~= v@.skip(j + 1));
                    name.push(v[j]);
                    j = j + 1;
                }
                let closed = j < v.len();
                proof {
                    if closed {
                        assert(v@.skip(j as int)[0] == v@[j as int]);
                        assert(position_of(v@.skip(j as int), '%') == Some(0int));
                        assert(position_of(rest, '%') == Some(j - k - 1));
                        assert(rest.take(j - k - 1) =~= name@);
                        assert(rest.skip(j - k) =~= v@.skip(j + 1));
                    } else {
                        assert(v@.skip(j as int).len() == 0);
                        assert(position_of(rest, '%') is None);
                        assert(rest =~= name@);
                    }
                }
                let ghost before = out@;
                let ghost after_s = if closed { v@.skip(j + 1) } else { Seq::<char>::empty() };
                let ghost piece = if name@.len() == 0 {
                    seq!['%']
                } else {
                    match env_lookup(vars@, name@) {
                        Some(x) => x,
                        None => seq!['%'] + name@ + seq!['%'],
                    }
                };
                assert(expand_vars(s, vars@) == piece + expand_vars(after_s, vars@));
                if name.len() == 0 {
                    out.push('%');
                } else {
                    match Self::lookup_var(vars, &name) {
                        Some(val) => {
                            let vc = chars_of(val.as_str());
                            let mut m: usize = 0;
                            while m < vc.len()
                                invariant
                                    m <= vc.len(),
                                    out@ =~= before + vc@.take(m as int),
                                decreases vc.len() - m,
                            {
                                out.push(vc[m]);
                                m = m + 1;
                            }
                            assert(vc@.take(vc@.len() as int) =~= vc@);
                        },
                        None => {
                            out.push('%');
                            let mut m: usize = 0;
                            while m < name.len()
                                invariant
                                    m <= name.len(),
                                    out@ =~= before + seq!['%'] + name@.take(m as int),
                                decreases name.len() - m,
                            {
                                out.push(name[m]);
                                m = m + 1;
                            }
                            assert(name@.take(name@.len() as int) =~= name@);
                            out.push('%');
                        },
                    }
                }
                k = if closed {
                    j + 1
                } else {
                    j
                };
                assert(out@ =~= before + piece);
                assert(v@.skip(k as int) =~= after_s);
                assert(out@ + expand_vars(v@.skip(k as int), vars@) =~= expand_vars(v@, vars@));
            }
        }
        assert(v@.skip(v@.len() as int) =~= Seq::<char>::empty());
        assert(out@ + Seq::<char>::empty() =~= out@);
        string_of(&out)
    }

    /// How much an application slows the start of the session.
    pub fn impact(command: &str) -> (r: String)
        ensures
            r@ == impact_of(command@),
    {
        let lower = to_lowercase(command);
        let l = chars_of(lower.as_str());
        if contains_str(&l, "teams") || contains_str(&l, "discord") || contains_str(&l, "steam")
            || contains_str(&l, "adobe") {
            return owned("High");
        }
        if contains_str(&l, "onedrive") || contains_str(&l, "update") || contains_str(&l, "helper")
            || contains_str(&l, "launcher") {
            return owned("Medium");
        }
        owned("Low")
    }

    /// The publisher read from a path's components (see `publisher_of_components`).
    pub fn publisher_from_components(components: &Vec<Option<String>>) -> (r: String)
        ensures
            r@ == publisher_of_components(opt_texts(components@)),
    {
        let ghost cs = opt_texts(components@);
        let mut k: usize = 0;
        assert(cs.skip(0) =~= cs);
        while k < components.len()
            invariant
                k <= components.len(),
                cs == opt_texts(components@),
                publisher_of_components(cs) == publisher_of_components(cs.skip(k as int)),
            decreases components.len() - k,
        {
            assert(cs.skip(k as int)[0] == cs[k as int]);
            assert(cs.skip(k as int).drop_first() =~= cs.skip(k + 1));
            if let Some(text) = &components[k] {
                let c = chars_of(text.as_str());
                let drive = c.len() > 0 && c[c.len() - 1] == ':';
                proof {
                    if c@.len() > 0 {
                        assert(c@.last() == c@[c@.len() - 1]);
                    }
                }
                let pf = chars_of("program files");
                let pf86 = chars_of("program files (x86)");
                if !drive && !eq_ignore_ascii_case(&c, &pf) && !eq_ignore_ascii_case(&c, &pf86) {
                    return text.clone();
                }
            }
            k = k + 1;
        }
        owned("Unknown publisher")
    }

    /// The publisher guessed from a path, from its components on this platform;
    /// for a simple relative path, from its `/`-separated pieces.
    pub fn path_publisher(path: &str) -> (r: String)
        ensures
            exists|cs: Seq<Option<Seq<char>>>| r@ == publisher_of_components(cs),
            simple_relative_path(path@) ==> r@ == publisher_of_components(
                named_components(split(path@, '/')),
            ),
    {
        let components = path_components(path);
        Self::publisher_from_components(&components)
    }

    /// The status of an entry from the first byte of its approval value.
    pub fn status_from_flag(flag: Option<u8>) -> (r: String)
        ensures
            r@ == status_of_flag(flag),
    {
        match flag {
            Some(3u8) => owned("Disabled"),
            _ => owned("Enabled"),
        }
    }

    /// Whether a file of a startup folder is its `desktop.ini`, which is no application.
    pub fn is_desktop_ini(file_name: &str) -> (r: bool)
        ensures
            r == eq_ignore_case(file_name@, "desktop.ini"@),
    {
        let n = chars_of(file_name);
        let d = chars_of("desktop.ini");
        eq_ignore_ascii_case(&n, &d)
    }

    /// Whether a task of a packaged application starts with the session.
    pub fn is_packaged_startup_task(task: &str) -> (r: bool)
        ensures
            r == is_startup_task(task@),
    {
        let lower = to_lowercase(task);
        let l = chars_of(lower.as_str());
        contains_str(&l, "startup") || contains_str(&l, "start") || contains_str(&l, "autostart")
            || equals_str(&l, "microsoftdefender") || equals_str(&l, "cmdpalstartup")
            || equals_str(&l, "webviewhoststartupid")
    }

    /// The status of a packaged startup task from its registry values.
    pub fn packaged_status(
        state: u32,
        last_disabled_time: Option<u64>,
        user_enabled_startup_once: Option<u32>,
        show_notification: Option<u32>,
    ) -> (r: String)
        ensures
            r@ == if packaged_disabled(state, last_disabled_time, user_enabled_startup_once, show_notification) {
                "Disabled"@
            } else {
                "Enabled"@
            },
    {
        let once = match user_enabled_startup_once {
            Some(v) => v == 1,
            None => false,
        };
        let notify = match show_notification {
            Some(v) => v == 1,
            None => false,
        };
        if state == 1 || (state != 2 && (last_disabled_time.is_some() || once)) || notify {
            owned("Disabled")
        } else {
            owned("Enabled")
        }
    }

    /// The name shown for a packaged application's task.
    pub fn packaged_name(package: &str, task: &str) -> (r: String)
        ensures
            r@ == packaged_name_of(package@, task@),
    {
        let p = chars_of(package);
        if contains_str(&p, "WhatsAppDesktop") {
            return owned("WhatsApp");
        }
        if starts_with_str(&p, "Microsoft.6365217CE6EB4") {
            return owned("Microsoft Defender");
        }
        if starts_with_str(&p, "Microsoft.CommandPalette") {
            return owned("Command Palette");
        }
        if starts_with_str(&p, "Microsoft.MicrosoftOfficeHub") {
            return owned("Microsoft 365 Copilot");
        }
        if starts_with_str(&p, "Microsoft.WindowsTerminal") {
            return owned("Terminal");
        }
        if starts_with_str(&p, "Microsoft.YourPhone") {
            return owned("Phone Link");
        }
        if starts_with_str(&p, "MicrosoftWindows.CrossDevice") {
            return owned("Mobile devices");
        }
        if starts_with_str(&p, "MSTeams") {
            return owned("Microsoft Teams");
        }
        Self::spaced_name(task)
    }

    /// The publisher shown for a packaged application.
    pub fn packaged_publisher(package: &str) -> (r: String)
        ensures
            r@ == packaged_publisher_of(package@),
    {
        let p = chars_of(package);
        if contains_str(&p, "WhatsAppDesktop") {
            return owned("WhatsApp Inc.");
        }
        if starts_with_str(&p, "MicrosoftWindows.CrossDevice") {
            return owned("Microsoft Windows");
        }
        if starts_with_str(&p, "Microsoft.") || starts_with_str(&p, "MicrosoftWindows.")
            || starts_with_str(&p, "MSTeams") {
            return owned("Microsoft Corporation");
        }
        owned("Unknown publisher")
    }

    /// The entry of a packaged application's startup task.
    pub fn packaged_app(package: &str, task: &str, status: String) -> (r: StartupApp)
        ensures
            r.name@ == packaged_name_of(package@, task@),
            r.publisher@ == packaged_publisher_of(package@),
            r.icon_data_url is None,
            r.status@ == status@,
            r.impact@ == "Low"@,
            r.startup_type@ == "Startup Task"@,
            r.source@ == "Packaged app"@,
            r.command@ == package@ + seq!['!'] + task@,
            r.path@.len() == 0,
            r.value_name is None,
    {
        let with_bang = concat_str(package, "!");
        let command = concat_str(with_bang.as_str(), task);
        proof {
            reveal_strlit("!");
        }
        StartupApp {
            publisher: Self::packaged_publisher(package),
            icon_data_url: None,
            status,
            impact: owned("Low"),
            startup_type: owned("Startup Task"),
            source: owned("Packaged app"),
            command,
            path: String::new(),
            value_name: None,
            name: Self::packaged_name(package, task),
        }
    }

    /// The file a startup command runs, with its variables expanded.
    pub fn startup_path(command: &str, vars: &Vec<(String, String)>) -> (r: String)
        ensures
            r@ == expand_vars(executable_path_of(command@), vars@),
    {
        let exe = Self::executable_path(command);
        Self::expand_environment_variables(exe.as_str(), vars)
    }

    /// The entry made from a startup command (see `is_command_app`); `details`
    /// are what the version resource of the command's file says.
    pub fn app_from_command(
        name: &str,
        command: String,
        startup_type: &str,
        source: &str,
        status: String,
        value_name: Option<String>,
        vars: &Vec<(String, String)>,
        details: FileDetails,
    ) -> (r: StartupApp)
        ensures
                exists|cs: Seq<Option<Seq<char>>>| is_command_app(
                r,
                name@,
                command@,
                startup_type@,
                source@,
                status@,
                value_name,
                vars@,
                details,
                cs,
            ),
            simple_relative_path(expand_vars(executable_path_of(command@), vars@)) ==> is_command_app(
                r,
                name@,
                command@,
                startup_type@,
                source@,
                status@,
                value_name,
                vars@,
                details,
                named_components(split(expand_vars(executable_path_of(command@), vars@), '/')),
            ),
    {
        let path = Self::startup_path(command.as_str(), vars);
        let components = path_components(path.as_str());
        let ghost cs = opt_texts(components@);
        let display = match &details.file_description {
            Some(d) => d.clone(),
            None => match &details.product_name {
                Some(p) => p.clone(),
                None => Self::spaced_name(name),
            },
        };
        let publisher = match &details.company_name {
            Some(c) => c.clone(),
            None => Self::publisher_from_components(&components),
        };
        let impact = Self::impact(command.as_str());
        let r = StartupApp {
            publisher,
            icon_data_url: details.icon_data_url,
            status,
            impact,
            startup_type: owned(startup_type),
            source: owned(source),
            command,
            path,
            value_name,
            name: display,
        };
        assert(is_command_app(r, name@, r.command@, startup_type@, source@, r.status@, r.value_name, vars@, details, cs));
        r
    }

    fn app_comes_before(a: &StartupApp, b: &StartupApp) -> (r: bool)
        ensures
            r == app_before(*a, *b),
    {
        let la = to_lowercase(a.name.as_str());
        let lb = to_lowercase(b.name.as_str());
        let ca = chars_of(la.as_str());
        let cb = chars_of(lb.as_str());
        chars_less(&ca, &cb)
    }

    /// Lists the applications by their lower-case names; ties keep their order.
    pub fn sort_apps(apps: Vec<StartupApp>) -> (r: Vec<StartupApp>)
        ensures
            r@ == app_order(apps@),
    {
        let ghost all = apps@;
        let mut pending = apps;
        let mut out: Vec<StartupApp> = Vec::new();
        let mut k: usize = 0;
        let n = pending.len();
        while pending.len() > 0
            invariant
                n == all.len(),
                k + pending@.len() == n,
                pending@ == all.skip(k as int),
                out@ == app_order(all.take(k as int)),
            decreases pending.len(),
        {
            let a = pending.remove(0);
            assert(a == all[k as int]);
            assert(pending@ =~= all.skip(k + 1));
            assert(all.take(k + 1).drop_last() =~= all.take(k as int));
            let ghost sorted = out@;
            let mut p: usize = 0;
            while p < out.len() && !Self::app_comes_before(&a, &out[p])
                invariant
                    p <= out.len(),
                    sorted == out@,
                    app_slot(sorted, a, 0) == app_slot(sorted, a, p as int),
                decreases out.len() - p,
            {
                p = p + 1;
            }
            out.insert(p, a);
            k = k + 1;
        }
        assert(all.take(all.len() as int) =~= all);
        out
    }

    /// The startup applications, given the entries read from the registry, the
    /// startup folders and the packaged applications: all of them, listed by
    /// their lower-case names.
    pub fn apps(&self, entries: Vec<StartupApp>) -> (r: Result<Vec<StartupApp>, CommandError>)
        ensures
            r matches Ok(v) && v@ == app_order(entries@),
    {
        Ok(Self::sort_apps(entries))
    }
}

} // verus!
