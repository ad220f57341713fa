//! Docker: the commands run for the user's actions, and what their output says.
use vstd::prelude::*;
use crate::models::{
    is_error, CommandError, DockerAvailability, DockerContainer, DockerDashboard, DockerImage,
};
use crate::commands::ports::opt_text;
use crate::text::{
    chars_of, eq_ignore_ascii_case, eq_ignore_case, equal_chars, equals_str, index_of,
    index_of_char, lines, lines_of, owned, seqs_of, skip_chars, slice_chars, split, split_on,
    string_of, trim, trim_chars,
};

verus! {

/// How running a program went, as the caller saw it.
pub enum ProcessOutcome {
    /// The program ran and exited.
    Exited { success: bool, stdout: String, stderr: String },
    /// The program could not be started; `not_found` when it is not installed.
    SpawnFailed { not_found: bool, message: String },
}

/// What a JSON text holds as a string under `key` at its top level: `None`
/// when the text is no JSON value, `Some(None)` when it holds no string there.
pub uninterp spec fn json_string_at(text: Seq<char>, key: Seq<char>) -> Option<Option<Seq<char>>>;

pub open spec fn opt_opt_text(o: Option<Option<String>>) -> Option<Option<Seq<char>>> {
    match o {
        Some(Some(s)) => Some(Some(s@)),
        Some(None) => Some(None),
        None => None,
    }
}

/// Reads `text` as JSON (`serde_json::from_str::<serde_json::Value>`) and, when
/// it is JSON, the string it holds under `key` (`Value::get` then
/// `Value::as_str`). The result is named by `json_string_at`.
#[verifier::external_body]
fn json_string_field(text: &str, key: &str) -> (r: Option<Option<String>>)
    ensures
        opt_opt_text(r) == json_string_at(text@, key@),
{
    serde_json::from_str::<serde_json::Value>(text).ok().map(
        |value| value.get(key).and_then(|item| item.as_str()).map(|item| item.to_string()),
    )
}

/// The string a JSON line holds under `key`, empty when it holds none.
pub open spec fn field_text(line: Seq<char>, key: Seq<char>) -> Seq<char> {
    match json_string_at(line, key) {
        Some(Some(s)) => s,
        _ => Seq::empty(),
    }
}

/// The value of the first `key=value` label, among the comma-separated
/// `labels`, whose key is `key` and whose value is not empty.
pub open spec fn label_value_in(pieces: Seq<Seq<char>>, key: Seq<char>) -> Option<Seq<char>>
    decreases pieces.len(),
{
    if pieces.len() == 0 {
        None
    } else {
        let p = pieces[0];
        match index_of(p, '=') {
            Some(i) => if p.take(i) == key && p.skip(i + 1).len() > 0 {
                Some(p.skip(i + 1))
            } else {
                label_value_in(pieces.drop_first(), key)
            },
            None => label_value_in(pieces.drop_first(), key),
        }
    }
}

pub open spec fn label_value_of(labels: Seq<char>, key: Seq<char>) -> Option<Seq<char>> {
    label_value_in(split(labels, ','), key)
}

/// The container a line of `docker ps --format "{{json .}}"` describes, when it is JSON.
pub open spec fn is_container_of_line(c: DockerContainer, line: Seq<char>) -> bool {
    let labels = field_text(line, "Labels"@);
    &&& c.id@ == field_text(line, "ID"@)
    &&& c.name@ == field_text(line, "Names"@)
    &&& c.image@ == field_text(line, "Image"@)
    &&& opt_text(c.parent_name) == label_value_of(labels, "com.docker.compose.project"@)
    &&& opt_text(c.service_name) == label_value_of(labels, "com.docker.compose.service"@)
    &&& c.state@ == field_text(line, "State"@)
    &&& c.status@ == field_text(line, "Status"@)
    &&& c.ports@ == field_text(line, "Ports"@)
    &&& c.created@ == field_text(line, "CreatedAt"@)
    &&& c.running == eq_ignore_case(field_text(line, "State"@), "running"@)
}

/// A container's state is the text the line holds under the key `State`, and
/// it is running exactly when that state is `running` up to ASCII case; its
/// status is the text under `Status`, which is no part of either.
pub proof fn container_state_comes_from_the_state_key(c: DockerContainer, line: Seq<char>)
    requires
        is_container_of_line(c, line),
    ensures
        c.state@ == field_text(line, "State"@),
        c.running <==> eq_ignore_case(c.state@, "running"@),
        c.status@ == field_text(line, "Status"@),
        c.id@ == field_text(line, "ID"@) && c.name@ == field_text(line, "Names"@) && c.image@ == field_text(line, "Image"@),
        c.ports@ == field_text(line, "Ports"@) && c.created@ == field_text(line, "CreatedAt"@),
{
}

/// The image a line of `docker images --format "{{json .}}"` describes, when it is JSON.
pub open spec fn is_image_of_line(i: DockerImage, line: Seq<char>) -> bool {
    &&& i.id@ == field_text(line, "ID"@)
    &&& i.repository@ == field_text(line, "Repository"@)
    &&& i.tag@ == field_text(line, "Tag"@)
    &&& i.size@ == field_text(line, "Size"@)
    &&& i.created@ == field_text(line, "CreatedSince"@)
}

/// An image's fields are the texts its line holds under `ID`, `Repository`,
/// `Tag`, `Size` and `CreatedSince`.
pub proof fn image_fields_come_from_their_keys(i: DockerImage, line: Seq<char>)
    requires
        is_image_of_line(i, line),
    ensures
        i.id@ == field_text(line, "ID"@) && i.repository@ == field_text(line, "Repository"@),
        i.tag@ == field_text(line, "Tag"@) && i.size@ == field_text(line, "Size"@),
        i.created@ == field_text(line, "CreatedSince"@),
{
}

/// The lines of an output that are JSON (those a listing shows, in order).
pub open spec fn json_lines(ls: Seq<Seq<char>>) -> Seq<Seq<char>>
    decreases ls.len(),
{
    if ls.len() == 0 {
        Seq::empty()
    } else if json_string_at(ls.last(), "State"@) is Some {
        json_lines(ls.drop_last()).push(ls.last())
    } else {
        json_lines(ls.drop_last())
    }
}

/// The lines of an output that are JSON, tested under the key `ID`.
pub open spec fn json_lines_by_id(ls: Seq<Seq<char>>) -> Seq<Seq<char>>
    decreases ls.len(),
{
    if ls.len() == 0 {
        Seq::empty()
    } else if json_string_at(ls.last(), "ID"@) is Some {
        json_lines_by_id(ls.drop_last()).push(ls.last())
    } else {
        json_lines_by_id(ls.drop_last())
    }
}

/// The text of a finished `docker` command: its trimmed output when it
/// succeeded, else an error with its trimmed error output (or why it did not start).
pub open spec fn docker_text_of(o: ProcessOutcome) -> Result<Seq<char>, Seq<char>> {
    match o {
        ProcessOutcome::Exited { success, stdout, stderr } => if success {
            Ok(trim(stdout@))
        } else {
            Err(trim(stderr@))
        },
        ProcessOutcome::SpawnFailed { not_found, message } => Err(message@),
    }
}

/// The value of a label (see `label_value_of`).
pub fn docker_label_value(labels: &str, key: &str) -> (r: Option<String>)
    ensures
        opt_text(r) == label_value_of(labels@, key@),
{
    let text = chars_of(labels);
    let keyv = chars_of(key);
    let pieces = split_on(&text, ',');
    let ghost ps = seqs_of(pieces@);
    let mut k: usize = 0;
    assert(ps.skip(0) =~= ps);
    while k < pieces.len()
        invariant
            k <= pieces.len(),
            ps == seqs_of(pieces@),
            ps == split(labels@, ','),
            keyv@ == key@,
            label_value_in(ps, key@) == label_value_in(ps.skip(k as int), key@),
        decreases pieces.len() - k,
    {
        assert(ps.skip(k as int)[0] == pieces@[k as int]@);
        assert(ps.skip(k as int).drop_first() =~= ps.skip(k + 1));
        let p = &pieces[k];
        match index_of_char(p, '=') {
            Some(i) => {
                let n = p.len();
                let name = slice_chars(p, 0, i);
                let value = skip_chars(p, i + 1);
                assert(name@ =~= p@.take(i as int));
                if equal_chars(&name, &keyv) && value.len() > 0 {
                    return Some(string_of(&value));
                }
            },
            None => {},
        }
        k = k + 1;
    }
    None
}

fn field(line: &str, key: &str) -> (r: String)
    ensures
        r@ == field_text(line@, key@),
{
    match json_string_field(line, key) {
        Some(Some(s)) => s,
        _ => String::new(),
    }
}

/// The container a JSON line describes, or `None` when the line is no JSON.
pub fn container_from_line(line: &str) -> (r: Option<DockerContainer>)
    ensures
        json_string_at(line@, "State"@) is None ==> r is None,
        json_string_at(line@, "State"@) is Some ==> (r matches Some(c) && is_container_of_line(c, line@)),
{
    let state = match json_string_field(line, "State") {
        None => {
            return None;
        },
        Some(Some(s)) => s,
        Some(None) => String::new(),
    };
    let labels = field(line, "Labels");
    let state_chars = chars_of(state.as_str());
    let running_word = chars_of("running");
    let running = eq_ignore_ascii_case(&state_chars, &running_word);
    Some(DockerContainer {
        id: field(line, "ID"),
        name: field(line, "Names"),
        image: field(line, "Image"),
        parent_name: docker_label_value(labels.as_str(), "com.docker.compose.project"),
        service_name: docker_label_value(labels.as_str(), "com.docker.compose.service"),
        state,
        status: field(line, "Status"),
        ports: field(line, "Ports"),
        created: field(line, "CreatedAt"),
        running,
    })
}

/// The image a JSON line describes, or `None` when the line is no JSON.
pub fn image_from_line(line: &str) -> (r: Option<DockerImage>)
    ensures
        json_string_at(line@, "ID"@) is None ==> r is None,
        json_string_at(line@, "ID"@) is Some ==> (r matches Some(i) && is_image_of_line(i, line@)),
{
    let id = match json_string_field(line, "ID") {
        None => {
            return None;
        },
        Some(Some(s)) => s,
        Some(None) => String::new(),
    };
    Some(DockerImage {
        id,
        repository: field(line, "Repository"),
        tag: field(line, "Tag"),
        size: field(line, "Size"),
        created: field(line, "CreatedSince"),
    })
}

/// The containers listed in the output of `docker ps -a --format "{{json .}}"`, in order.
pub fn containers_from_output(text: &str) -> (r: Vec<DockerContainer>)
    ensures
        r@.len() == json_lines(lines(text@)).len(),
        forall|i: int| 0 <= i < r@.len() ==> is_container_of_line(#[trigger] r@[i], json_lines(lines(text@))[i]),
{
    let t = chars_of(text);
    let all = lines_of(&t);
    let mut out: Vec<DockerContainer> = Vec::new();
    let mut k: usize = 0;
    while k < all.len()
        invariant
            k <= all.len(),
            seqs_of(all@) == lines(text@),
            out@.len() == json_lines(seqs_of(all@).take(k as int)).len(),
            forall|i: int| 0 <= i < out@.len() ==> is_container_of_line(#[trigger] out@[i], json_lines(seqs_of(all@).take(k as int))[i]),
        decreases all.len() - k,
    {
        assert(seqs_of(all@).take(k + 1).drop_last() =~= seqs_of(all@).take(k as int));
        assert(seqs_of(all@).take(k + 1).last() == all@[k as int]@);
        let line = string_of(&all[k]);
        match container_from_line(line.as_str()) {
            Some(c) => {
                out.push(c);
            },
            None => {},
        }
        k = k + 1;
    }
    assert(seqs_of(all@).take(all@.len() as int) =~= seqs_of(all@));
    out
}

/// The images listed in the output of `docker images --format "{{json .}}"`, in order.
pub fn images_from_output(text: &str) -> (r: Vec<DockerImage>)
    ensures
        r@.len() == json_lines_by_id(lines(text@)).len(),
        forall|i: int| 0 <= i < r@.len() ==> is_image_of_line(#[trigger] r@[i], json_lines_by_id(lines(text@))[i]),
{
    let t = chars_of(text);
    let all = lines_of(&t);
    let mut out: Vec<DockerImage> = Vec::new();
    let mut k: usize = 0;
    while k < all.len()
        invariant
            k <= all.len(),
            seqs_of(all@) == lines(text@),
            out@.len() == json_lines_by_id(seqs_of(all@).take(k as int)).len(),
            forall|i: int| 0 <= i < out@.len() ==> is_image_of_line(#[trigger] out@[i], json_lines_by_id(seqs_of(all@).take(k as int))[i]),
        decreases all.len() - k,
    {
        assert(seqs_of(all@).take(k + 1).drop_last() =~= seqs_of(all@).take(k as int));
        assert(seqs_of(all@).take(k + 1).last() == all@[k as int]@);
        let line = string_of(&all[k]);
        match image_from_line(line.as_str()) {
            Some(i) => {
                out.push(i);
            },
            None => {},
        }
        k = k + 1;
    }
    assert(seqs_of(all@).take(all@.len() as int) =~= seqs_of(all@));
    out
}

/// The arguments of `docker` for an action on a container; fails for an
/// action that is not offered.
pub fn container_action_args(container_id: &str, action: &str) -> (r: Result<Vec<String>, CommandError>)
    ensures
        action@ == "start"@ ==> (r matches Ok(a) && a@.map_values(|s: String| s@) == seq!["start"@, container_id@]),
        action@ == "stop"@ ==> (r matches Ok(a) && a@.map_values(|s: String| s@) == seq!["stop"@, container_id@]),
        action@ == "restart"@ ==> (r matches Ok(a) && a@.map_values(|s: String| s@) == seq!["restart"@, container_id@]),
        action@ == "remove"@ ==> (r matches Ok(a) && a@.map_values(|s: String| s@) == seq!["rm"@, container_id@]),
        action@ == "forceRemove"@ ==> (r matches Ok(a) && a@.map_values(|s: String| s@) == seq!["rm"@, "-f"@, container_id@]),
        action@ != "start"@ && action@ != "stop"@ && action@ != "restart"@ && action@ != "remove"@ && action@ != "forceRemove"@
            ==> (r matches Err(e) && is_error(e, "dockerFailed"@, "unsupported Docker container action"@)),
{
    let a = chars_of(action);
    proof {
        reveal_strlit("start");
        reveal_strlit("stop");
        reveal_strlit("restart");
        reveal_strlit("remove");
        reveal_strlit("forceRemove");
        assert("forceRemove"@.len() == 11);
        assert("start"@.len() == 5);
        assert("forceRemove"@ != "start"@);
    }
    let command = if equals_str(&a, "start") {
        "start"
    } else if equals_str(&a, "stop") {
        "stop"
    } else if equals_str(&a, "restart") {
        "restart"
    } else if equals_str(&a, "remove") || equals_str(&a, "forceRemove") {
        "rm"
    } else {
        return Err(CommandError::docker_failed("unsupported Docker container action"));
    };
    let force = equals_str(&a, "forceRemove");
    let mut args: Vec<String> = Vec::new();
    args.push(owned(command));
    if force {
        args.push(owned("-f"));
    }
    args.push(owned(container_id));
    proof {
        let m = args@.map_values(|s: String| s@);
        if force {
            assert(action@ == "forceRemove"@);
            assert(action@ != "start"@);
            assert(command@ == "rm"@);
            assert(m.len() == 3 && m[0] == command@ && m[1] == "-f"@ && m[2] == container_id@);
            assert(m =~= seq!["rm"@, "-f"@, container_id@]);
        } else {
            assert(m.len() == 2 && m[0] == command@ && m[1] == container_id@);
            assert(m =~= seq![command@, container_id@]);
        }
    }
    Ok(args)
}

/// The text of a finished `docker` command, or the error it reported (see `docker_text_of`).
pub fn docker_text(outcome: ProcessOutcome) -> (r: Result<String, CommandError>)
    ensures
        match docker_text_of(outcome) {
            Ok(t) => r matches Ok(s) && s@ == t,
            Err(m) => r matches Err(e) && e.code@ == "dockerFailed"@ && e.message@ == m,
        },
{
    match outcome {
        ProcessOutcome::Exited { success, stdout, stderr } => {
            if success {
                let c = chars_of(stdout.as_str());
                Ok(string_of(&trim_chars(&c)))
            } else {
                let c = chars_of(stderr.as_str());
                let m = string_of(&trim_chars(&c));
                Err(CommandError::docker_failed(m.as_str()))
            }
        },
        ProcessOutcome::SpawnFailed { not_found, message } => Err(CommandError::docker_failed(message.as_str())),
    }
}

/// Whether Docker is installed, from how `docker --version` went: installed
/// when it succeeded (its trimmed output is the version), not installed when
/// it failed or is missing; any other failure to start it is an error.
pub fn docker_availability(outcome: ProcessOutcome) -> (r: Result<DockerAvailability, CommandError>)
    ensures
        match outcome {
            ProcessOutcome::Exited { success, stdout, stderr } => r matches Ok(a) && a.installed == success
                && opt_text(a.version) == if success { Some(trim(stdout@)) } else { None },
            ProcessOutcome::SpawnFailed { not_found, message } => if not_found {
                r matches Ok(a) && !a.installed && a.version is None
            } else {
                r matches Err(e) && e.code@ == "dockerFailed"@ && e.message@ == message@
            },
        },
{
    match outcome {
        ProcessOutcome::Exited { success, stdout, stderr } => {
            if success {
                let c = chars_of(stdout.as_str());
                Ok(DockerAvailability { installed: true, version: Some(string_of(&trim_chars(&c))) })
            } else {
                Ok(DockerAvailability { installed: false, version: None })
            }
        },
        ProcessOutcome::SpawnFailed { not_found, message } => {
            if not_found {
                Ok(DockerAvailability { installed: false, version: None })
            } else {
                Err(CommandError::docker_failed(message.as_str()))
            }
        },
    }
}

/// The dashboard: without Docker, an error saying so; without its daemon, the
/// daemon's error; else the containers and images listed.
pub fn docker_dashboard(
    availability: DockerAvailability,
    server_version: Result<String, CommandError>,
    containers: Vec<DockerContainer>,
    images: Vec<DockerImage>,
) -> (r: DockerDashboard)
    ensures
        !availability.installed ==> !r.installed && !r.running && r.version is None && r.server_version
            is None && opt_text(r.error) == Some("Docker CLI is not installed."@) && r.containers@.len()
            == 0 && r.images@.len() == 0,
        availability.installed && server_version is Err ==> r.installed && !r.running && opt_text(r.version)
            == opt_text(availability.version) && r.server_version is None && opt_text(r.error) == Some(
            server_version->Err_0.message@,
        ) && r.containers@.len() == 0 && r.images@.len() == 0,
        availability.installed && server_version is Ok ==> r.installed && r.running && opt_text(r.version)
            == opt_text(availability.version) && opt_text(r.server_version) == Some(
            server_version->Ok_0@,
        ) && r.error is None && r.containers@ == containers@ && r.images@ == images@,
{
    if !availability.installed {
        return DockerDashboard {
            installed: false,
            running: false,
            version: None,
            server_version: None,
            error: Some(owned("Docker CLI is not installed.")),
            containers: Vec::new(),
            images: Vec::new(),
        };
    }
    match server_version {
        Err(e) => DockerDashboard {
            installed: true,
            running: false,
            version: availability.version,
            server_version: None,
            error: Some(e.message),
            containers: Vec::new(),
            images: Vec::new(),
        },
        Ok(v) => DockerDashboard {
            installed: true,
            running: true,
            version: availability.version,
            server_version: Some(v),
            error: None,
            containers,
            images,
        },
    }
}

} // verus!
