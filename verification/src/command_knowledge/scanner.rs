//! Finding the applications installed on the search path: which files are
//! executables, what they are called, which one a name means, and what their
//! `--version` output says.
use vstd::prelude::*;
use std::time::Duration;
use crate::command_knowledge::models::NewApplicationRecord;
use crate::commands::ports::opt_text;
use crate::models::CommandError;
use crate::terminal::models::Platform;
use crate::text::{
    chars_of, concat_chars, eq_ignore_ascii_case, eq_ignore_case, equal_chars, lines, lines_of,
    lower, lowercase, seqs_of, split, split_on, string_of, take, take_chars, trim, trim_chars,
};

verus! {

/// The application scanner: it lists the applications of the search path.
pub trait ApplicationScanner {
    fn scan(&self) -> Result<Vec<NewApplicationRecord>, CommandError>;
}

/// The duration of the given number of milliseconds (`Duration::from_millis`).
pub uninterp spec fn millis_duration(millis: u64) -> Duration;

#[verifier::external_body]
fn duration_from_millis(millis: u64) -> (r: Duration)
    ensures
        r == millis_duration(millis),
{
    Duration::from_millis(millis)
}

/// Scans the search path; a program's `--version` is waited for no longer than the timeout.
pub struct InstalledApplicationScanner {
    pub version_timeout: Duration,
}

/// An executable file found on the search path, as the caller read it.
pub struct ExecutableFile {
    /// The path shown: the canonical path when it can be had.
    pub display_path: String,
    pub file_name: Option<String>,
    pub file_stem: Option<String>,
}

/// The name an executable is known by: on Windows its stem (else its file
/// name), elsewhere its file name; its path when it has none.
pub open spec fn application_name_of(f: ExecutableFile, platform: Platform) -> Seq<char> {
    if platform == Platform::Windows {
        match f.file_stem {
            Some(s) => s@,
            None => match f.file_name {
                Some(n) => n@,
                None => f.display_path@,
            },
        }
    } else {
        match f.file_name {
            Some(n) => n@,
            None => f.display_path@,
        }
    }
}

/// Whether an executable answers to a name, ignoring ASCII case: by its
/// application name or by its file name.
pub open spec fn answers_to(f: ExecutableFile, platform: Platform, name: Seq<char>) -> bool {
    eq_ignore_case(application_name_of(f, platform), name) || match f.file_name {
        Some(n) => eq_ignore_case(n@, name),
        None => false,
    }
}

/// The first executable, in search order, that answers to a name.
pub open spec fn first_answering(fs: Seq<ExecutableFile>, platform: Platform, name: Seq<char>) -> Option<int>
    decreases fs.len(),
{
    if fs.len() == 0 {
        None
    } else if answers_to(fs[0], platform, name) {
        Some(0)
    } else {
        match first_answering(fs.drop_first(), platform, name) {
            Some(i) => Some(i + 1),
            None => None,
        }
    }
}

/// The first non-blank line of what a program printed for `--version`
/// (its output, or its error output when the output is blank), trimmed and
/// cut to 512 characters.
pub open spec fn version_of(stdout: Seq<char>, stderr: Seq<char>) -> Option<Seq<char>> {
    let data = if trim(stdout).len() == 0 { stdout + stderr } else { stdout };
    match first_nonblank(lines(data)) {
        Some(l) => Some(take(trim(l), 512)),
        None => None,
    }
}

/// The first line that is not blank.
pub open spec fn first_nonblank(ls: Seq<Seq<char>>) -> Option<Seq<char>>
    decreases ls.len(),
{
    if ls.len() == 0 {
        None
    } else if trim(ls[0]).len() > 0 {
        Some(ls[0])
    } else {
        first_nonblank(ls.drop_first())
    }
}

/// The extensions that make a file executable on Windows: those of `PATHEXT`
/// (trimmed, in upper case, blanks left out), else `.COM`, `.EXE`, `.BAT` and `.CMD`.
pub open spec fn executable_extensions_of(pathext: Option<Seq<char>>) -> Seq<Seq<char>> {
    match pathext {
        Some(p) => upper_items(split(p, ';')),
        None => seq![".COM"@, ".EXE"@, ".BAT"@, ".CMD"@],
    }
}

/// ASCII upper case.
pub open spec fn ascii_upper(s: Seq<char>) -> Seq<char> {
    s.map_values(|c: char| if 'a' <= c && c <= 'z' { ((c as u32) - 32) as char } else { c })
}

pub open spec fn upper_items(ps: Seq<Seq<char>>) -> Seq<Seq<char>>
    decreases ps.len(),
{
    if ps.len() == 0 {
        Seq::empty()
    } else if trim(ps.last()).len() > 0 {
        upper_items(ps.drop_last()).push(ascii_upper(trim(ps.last())))
    } else {
        upper_items(ps.drop_last())
    }
}

/// The database file: under the local application data folder on Windows,
/// under `~/Library/Application Support` on macOS, else under the XDG data
/// folder (or `~/.local/share`).
pub open spec fn database_path_of(
    platform: Platform,
    local_app_data: Option<Seq<char>>,
    home: Option<Seq<char>>,
    xdg_data_home: Option<Seq<char>>,
    sep: char,
) -> Option<Seq<char>> {
    let base = if platform == Platform::Windows {
        local_app_data
    } else if platform == Platform::MacOs {
        match home {
            Some(h) => Some(crate::paths::path_join(crate::paths::path_join(h, "Library"@, sep), "Application Support"@, sep)),
            None => None,
        }
    } else {
        match xdg_data_home {
            Some(x) => Some(x),
            None => match home {
                Some(h) => Some(crate::paths::path_join(crate::paths::path_join(h, ".local"@, sep), "share"@, sep)),
                None => None,
            },
        }
    };
    match base {
        Some(b) => Some(crate::paths::path_join(crate::paths::path_join(b, "Matrix Process Manager"@, sep), "command-knowledge.sqlite"@, sep)),
        None => None,
    }
}

/// The command knowledge database.
pub struct CommandKnowledgeDatabase;

impl CommandKnowledgeDatabase {
    /// Where the database file lives (see `database_path_of`), or the error
    /// when the folder it belongs in is unknown.
    pub fn database_path(
        platform: Platform,
        local_app_data: Option<&str>,
        home: Option<&str>,
        xdg_data_home: Option<&str>,
        sep: char,
    ) -> (r: Result<String, CommandError>)
        ensures
            match database_path_of(
                platform,
                match local_app_data { Some(s) => Some(s@), None => None },
                match home { Some(s) => Some(s@), None => None },
                match xdg_data_home { Some(s) => Some(s@), None => None },
                sep,
            ) {
                Some(p) => r matches Ok(s) && s@ == p,
                None => r matches Err(e) && crate::models::is_error(
                    e,
                    "terminalFailed"@,
                    "application data directory is unavailable"@,
                ),
            },
    {
        let base: Option<String> = if platform == Platform::Windows {
            match local_app_data {
                Some(s) => Some(crate::text::owned(s)),
                None => None,
            }
        } else if platform == Platform::MacOs {
            match home {
                Some(h) => {
                    let library = crate::paths::join_path(h, "Library", sep);
                    Some(crate::paths::join_path(library.as_str(), "Application Support", sep))
                },
                None => None,
            }
        } else {
            match xdg_data_home {
                Some(x) => Some(crate::text::owned(x)),
                None => match home {
                    Some(h) => {
                        let local = crate::paths::join_path(h, ".local", sep);
                        Some(crate::paths::join_path(local.as_str(), "share", sep))
                    },
                    None => None,
                },
            }
        };
        match base {
            Some(b) => {
                let folder = crate::paths::join_path(b.as_str(), "Matrix Process Manager", sep);
                Ok(crate::paths::join_path(folder.as_str(), "command-knowledge.sqlite", sep))
            },
            None => Err(CommandError::terminal_failed("application data directory is unavailable")),
        }
    }
}

/// The schema migration of the command knowledge database.
pub struct CommandKnowledgeMigration;

impl CommandKnowledgeMigration {
    /// The statement that adds a column to a table when the table's columns
    /// (as its table information lists them) do not hold it yet.
    pub fn add_column_statement(
        table: &str,
        column: &str,
        definition: &str,
        columns: &Vec<String>,
    ) -> (r: Option<String>)
        ensures
            (exists|i: int| 0 <= i < columns@.len() && #[trigger] columns@[i]@ == column@) ==> r is None,
            !(exists|i: int| 0 <= i < columns@.len() && #[trigger] columns@[i]@ == column@) ==> (r matches Some(s)
                && s@ == "alter table "@ + table@ + " add column "@ + column@ + " "@ + definition@),
    {
        let c = chars_of(column);
        let mut k: usize = 0;
        while k < columns.len()
            invariant
                k <= columns.len(),
                c@ == column@,
                forall|i: int| 0 <= i < k ==> columns@[i]@ != column@,
            decreases columns.len() - k,
        {
            let name = chars_of(columns[k].as_str());
            if equal_chars(&name, &c) {
                return None;
            }
            k = k + 1;
        }
        let a = crate::text::concat_str("alter table ", table);
        let b = crate::text::concat_str(a.as_str(), " add column ");
        let d = crate::text::concat_str(b.as_str(), column);
        let e = crate::text::concat_str(d.as_str(), " ");
        Some(crate::text::concat_str(e.as_str(), definition))
    }

    /// The statement that lists a table's columns.
    pub fn table_info_statement(table: &str) -> (r: String)
        ensures
            r@ == "pragma table_info("@ + table@ + ")"@,
    {
        let a = crate::text::concat_str("pragma table_info(", table);
        crate::text::concat_str(a.as_str(), ")")
    }
}

impl InstalledApplicationScanner {
    /// A scanner that waits 800 milliseconds for a program's version.
    pub fn new() -> (r: Self)
        ensures
            r.version_timeout == millis_duration(800),
    {
        InstalledApplicationScanner { version_timeout: duration_from_millis(800) }
    }

    /// A scanner with the given version timeout.
    pub fn with_version_timeout(version_timeout: Duration) -> (r: Self)
        ensures
            r.version_timeout == version_timeout,
    {
        InstalledApplicationScanner { version_timeout }
    }

    /// The name an executable is known by (see `application_name_of`).
    pub fn application_name(&self, file: &ExecutableFile, platform: Platform) -> (r: String)
        ensures
            r@ == application_name_of(*file, platform),
    {
        if platform == Platform::Windows {
            match &file.file_stem {
                Some(s) => return s.clone(),
                None => {},
            }
        }
        match &file.file_name {
            Some(n) => n.clone(),
            None => file.display_path.clone(),
        }
    }

    fn name_matches(&self, file: &ExecutableFile, platform: Platform, name: &Vec<char>) -> (r: bool)
        ensures
            r == answers_to(*file, platform, name@),
    {
        let app = self.application_name(file, platform);
        let a = chars_of(app.as_str());
        if eq_ignore_ascii_case(&a, name) {
            return true;
        }
        match &file.file_name {
            Some(n) => {
                let nv = chars_of(n.as_str());
                eq_ignore_ascii_case(&nv, name)
            },
            None => false,
        }
    }

    /// The position, among the executables of the search path in order, of the
    /// first one that answers to `name`.
    pub fn find_by_name(&self, name: &str, files: &Vec<ExecutableFile>, platform: Platform) -> (r: Option<usize>)
        ensures
            match first_answering(files@, platform, name@) {
                Some(i) => r == Some(i as usize),
                None => r is None,
            },
    {
        let nv = chars_of(name);
        let mut k: usize = 0;
        assert(files@.skip(0) =~= files@);
        while k < files.len()
            invariant
                k <= files.len(),
                nv@ == name@,
                first_answering(files@, platform, name@) == match first_answering(files@.skip(k as int), platform, name@) {
                    Some(i) => Some(i + k),
                    None => None,
                },
            decreases files.len() - k,
        {
            assert(files@.skip(k as int)[0] == files@[k as int]);
            assert(files@.skip(k as int).drop_first() =~= files@.skip(k + 1));
            if self.name_matches(&files[k], platform, &nv) {
                return Some(k);
            }
            k = k + 1;
        }
        None
    }

    /// The record of a found executable: its name, its path shown, and its version.
    pub fn application_record(&self, file: &ExecutableFile, platform: Platform, version: Option<String>) -> (r: NewApplicationRecord)
        ensures
            r.name@ == application_name_of(*file, platform),
            r.path@ == file.display_path@,
            opt_text(r.version) == opt_text(version),
    {
        NewApplicationRecord {
            name: self.application_name(file, platform),
            path: file.display_path.clone(),
            version,
        }
    }

    /// The version a program printed for `--version` (see `version_of`).
    pub fn version_from_output(&self, stdout: &str, stderr: &str) -> (r: Option<String>)
        ensures
            opt_text(r) == version_of(stdout@, stderr@),
    {
        let out = chars_of(stdout);
        let t = trim_chars(&out);
        let data = if t.len() == 0 {
            let err = chars_of(stderr);
            concat_chars(&out, &err)
        } else {
            out
        };
        let all = lines_of(&data);
        let ghost ls = seqs_of(all@);
        assert(data@ == if trim(stdout@).len() == 0 { stdout@ + stderr@ } else { stdout@ });
        assert(ls == lines(data@));
        let mut k: usize = 0;
        assert(ls.skip(0) =~= ls);
        while k < all.len()
            invariant
                k <= all.len(),
                ls == seqs_of(all@),
                ls == lines(if trim(stdout@).len() == 0 { stdout@ + stderr@ } else { stdout@ }),
                first_nonblank(ls) == first_nonblank(ls.skip(k as int)),
            decreases all.len() - k,
        {
            assert(ls.skip(k as int)[0] == all@[k as int]@);
            assert(ls.skip(k as int).drop_first() =~= ls.skip(k + 1));
            let line = trim_chars(&all[k]);
            if line.len() > 0 {
                assert(first_nonblank(ls.skip(k as int)) == Some(all@[k as int]@));
                let cut = take_chars(&line, 512);
                return Some(string_of(&cut));
            }
            k = k + 1;
        }
        None
    }

    /// The executables to record, in order: the first of each path once the
    /// paths are normalized (see `normalized_path`).
    pub fn unique_files(&self, normalized: &Vec<String>) -> (r: Vec<usize>)
        ensures
            r@.map_values(|x: usize| x as int) == first_occurrences(texts(normalized@)),
    {
        let ghost keys = texts(normalized@);
        let mut kept: Vec<usize> = Vec::new();
        let mut k: usize = 0;
        while k < normalized.len()
            invariant
                k <= normalized.len(),
                keys == texts(normalized@),
                kept@.map_values(|x: usize| x as int) == first_occurrences(keys.take(k as int)),
            decreases normalized.len() - k,
        {
            let current = chars_of(normalized[k].as_str());
            assert(keys[k as int] == normalized@[k as int]@);
            let mut seen = false;
            let mut j: usize = 0;
            while j < k
                invariant
                    j <= k < normalized.len(),
                    keys == texts(normalized@),
                    current@ == keys[k as int],
                    seen == exists|m: int| 0 <= m < j && keys[m] == keys[k as int],
                decreases k - j,
            {
                let other = chars_of(normalized[j].as_str());
                assert(keys[j as int] == normalized@[j as int]@);
                if equal_chars(&other, &current) {
                    seen = true;
                }
                j = j + 1;
            }
            proof {
                let t = keys.take(k + 1);
                assert(t.drop_last() =~= keys.take(k as int));
                assert(t.last() == keys[k as int]);
                if seen {
                    let m = choose|m: int| 0 <= m < k && keys[m] == keys[k as int];
                    assert(t.drop_last()[m] == keys[k as int]);
                } else {
                    assert(!t.drop_last().contains(t.last()));
                }
            }
            if !seen {
                let ghost before = kept@.map_values(|x: usize| x as int);
                kept.push(k);
                assert(kept@.map_values(|x: usize| x as int) =~= before.push(k as int));
            }
            k = k + 1;
        }
        assert(keys.take(normalized@.len() as int) =~= keys);
        kept
    }
}

/// The positions of the first occurrence of each key, in order.
pub open spec fn first_occurrences(keys: Seq<Seq<char>>) -> Seq<int>
    decreases keys.len(),
{
    if keys.len() == 0 {
        Seq::empty()
    } else if keys.drop_last().contains(keys.last()) {
        first_occurrences(keys.drop_last())
    } else {
        first_occurrences(keys.drop_last()).push(keys.len() - 1)
    }
}

pub open spec fn texts(v: Seq<String>) -> Seq<Seq<char>> {
    v.map_values(|s: String| s@)
}

/// Whether a file is executable on Windows: its extension, with a dot and in
/// upper case, is one of the executable extensions (see `executable_extensions_of`).
pub fn is_windows_executable(extension: Option<&str>, pathext: Option<&str>) -> (r: bool)
    ensures
        match extension {
            Some(e) => r == executable_extensions_of(match pathext {
                Some(p) => Some(p@),
                None => None,
            }).contains(ascii_upper(seq!['.'] + e@)),
            None => !r,
        },
{
    let e = match extension {
        Some(e) => e,
        None => {
            return false;
        },
    };
    let mut dotted: Vec<char> = Vec::new();
    dotted.push('.');
    let ev = chars_of(e);
    let key = upper_chars(&concat_chars(&dotted, &ev));
    assert(dotted@ =~= seq!['.']);
    let exts = executable_extensions(pathext);
    let ghost all = executable_extensions_of(match pathext {
        Some(p) => Some(p@),
        None => None,
    });
    assert(key@ == ascii_upper(seq!['.'] + e@));
    let mut k: usize = 0;
    while k < exts.len()
        invariant
            k <= exts.len(),
            all == exts@.map_values(|s: String| s@),
            key@ == ascii_upper(seq!['.'] + e@),
            extension == Some(e),
            all == executable_extensions_of(match pathext {
                Some(p) => Some(p@),
                None => None,
            }),
            forall|i: int| 0 <= i < k ==> exts@[i]@ != key@,
        decreases exts.len() - k,
    {
        let x = chars_of(exts[k].as_str());
        assert(all[k as int] == exts@[k as int]@);
        if equal_chars(&x, &key) {
            assert(all.contains(key@));
            return true;
        }
        k = k + 1;
    }
    proof {
        let all = executable_extensions_of(match pathext {
            Some(p) => Some(p@),
            None => None,
        });
        if all.contains(key@) {
            let i = choose|i: int| 0 <= i < all.len() && all[i] == key@;
            assert(exts@[i]@ == all[i]);
        }
    }
    false
}

/// Whether a Unix file mode lets anyone execute the file.
pub fn is_unix_executable(mode: u32) -> (r: bool)
    ensures
        r == (mode & 0o111u32 != 0),
{
    mode & 0o111 != 0
}

fn upper_chars(v: &Vec<char>) -> (r: Vec<char>)
    ensures
        r@ == ascii_upper(v@),
{
    let mut out: Vec<char> = Vec::new();
    let mut k: usize = 0;
    while k < v.len()
        invariant
            k <= v.len(),
            out@ =~= ascii_upper(v@.take(k as int)),
        decreases v.len() - k,
    {
        let c = v[k];
        if 'a' <= c && c <= 'z' {
            let u: u32 = (c as u32) - 32;
            let b: u8 = u as u8;
            out.push(b as char);
        } else {
            out.push(c);
        }
        assert(v@.take(k + 1) =~= v@.take(k as int).push(c));
        k = k + 1;
    }
    assert(v@.take(v@.len() as int) =~= v@);
    out
}

/// The executable extensions (see `executable_extensions_of`).
pub fn executable_extensions(pathext: Option<&str>) -> (r: Vec<String>)
    ensures
        r@.map_values(|s: String| s@) == executable_extensions_of(match pathext {
            Some(p) => Some(p@),
            None => None,
        }),
{
    match pathext {
        Some(p) => {
            let text = chars_of(p);
            let pieces = split_on(&text, ';');
            let ghost ps = seqs_of(pieces@);
            let mut out: Vec<String> = Vec::new();
            let mut k: usize = 0;
            while k < pieces.len()
                invariant
                    k <= pieces.len(),
                    ps == seqs_of(pieces@),
                    ps == split(p@, ';'),
                    out@.map_values(|s: String| s@) == upper_items(ps.take(k as int)),
                decreases pieces.len() - k,
            {
                assert(ps.take(k + 1).drop_last() =~= ps.take(k as int));
                assert(ps.take(k + 1).last() == pieces@[k as int]@);
                let t = trim_chars(&pieces[k]);
                if t.len() > 0 {
                    let ghost before = out@.map_values(|s: String| s@);
                    let u = upper_chars(&t);
                    out.push(string_of(&u));
                    assert(out@.map_values(|s: String| s@) =~= before.push(ascii_upper(t@)));
                }
                k = k + 1;
            }
            assert(ps.take(ps.len() as int) =~= ps);
            out
        },
        None => {
            let mut out: Vec<String> = Vec::new();
            out.push(crate::text::owned(".COM"));
            out.push(crate::text::owned(".EXE"));
            out.push(crate::text::owned(".BAT"));
            out.push(crate::text::owned(".CMD"));
            assert(out@.map_values(|s: String| s@) =~= seq![".COM"@, ".EXE"@, ".BAT"@, ".CMD"@]);
            out
        },
    }
}

/// A path as compared when looking for repeats: in ASCII lower case on Windows.
pub fn normalized_path(canonical: &str, platform: Platform) -> (r: String)
    ensures
        platform == Platform::Windows ==> r@ == lower(canonical@),
        platform != Platform::Windows ==> r@ == canonical@,
{
    if platform == Platform::Windows {
        let v = chars_of(canonical);
        string_of(&lowercase(&v))
    } else {
        crate::text::owned(canonical)
    }
}

} // verus!
