//! SSH key pairs: which file names may be created, how `ssh-keygen` is run,
//! and what a public key file says.
use vstd::prelude::*;
use crate::models::{is_error, CommandError, SshKeyGenerationRequest, SshKeyInfo};
use crate::commands::ports::opt_text;
use crate::paths::{file_stem, join_path, path_file_stem, path_join, plain_path};
use crate::text::{
    chars_less, chars_lt, chars_of, equals_str, is_ascii_alnum, is_ascii_alphanumeric, join,
    lemma_chars_lt_asym, lemma_chars_lt_trans, owned, seqs_of, split_whitespace, string_of,
    to_lowercase, trim, trim_chars, unicode_lower, words,
};

verus! {

/// A file name for a new key: trimmed, not empty, not `.` or `..`, without
/// path separators, made of ASCII letters, digits, `_`, `-` and `.` only.
pub open spec fn valid_key_file_name(t: Seq<char>) -> bool {
    &&& t.len() > 0
    &&& !t.contains('/')
    &&& !t.contains('\\')
    &&& t != "."@
    &&& t != ".."@
    &&& forall|i: int| 0 <= i < t.len() ==> is_ascii_alnum(#[trigger] t[i]) || t[i] == '_' || t[i] == '-' || t[i] == '.'
}

/// The key types that can be created.
pub open spec fn key_type_of(k: Seq<char>) -> Option<Seq<char>> {
    if k == "ed25519"@ {
        Some("ed25519"@)
    } else if k == "rsa"@ {
        Some("rsa"@)
    } else {
        None
    }
}

/// The arguments of `ssh-keygen` that create a key of type `key_type` at
/// `private_path` with `comment` and no passphrase (4096 bits for RSA).
pub open spec fn keygen_args_of(key_type: Seq<char>, private_path: Seq<char>, comment: Seq<char>) -> Seq<Seq<char>> {
    seq!["-t"@, key_type, "-f"@, private_path, "-C"@, trim(comment), "-N"@, Seq::empty()] + if key_type == "rsa"@ {
        seq!["-b"@, "4096"@]
    } else {
        Seq::empty()
    }
}

/// The file name with its extension replaced by `pub` (`Path::with_extension`);
/// a name without a stem is kept as it is.
pub open spec fn public_key_name(name: Seq<char>) -> Seq<char> {
    match file_stem(name) {
        Some(stem) => stem + ".pub"@,
        None => name,
    }
}

/// Where a new key goes and how it is made.
pub struct SshKeyPlan {
    pub private_path: String,
    pub public_path: String,
    pub args: Vec<String>,
}

/// A key's description read from its public key file (`public_text`) and
/// what the caller found about its files.
pub open spec fn is_key_info(
    info: SshKeyInfo,
    public_text: Seq<char>,
    public_path: Seq<char>,
    private_path: Seq<char>,
    private_name: Option<Seq<char>>,
    private_exists: bool,
    fingerprint_output: Option<Seq<char>>,
    modified_at: Option<Seq<char>>,
) -> bool {
    let key = trim(public_text);
    let ws = words(key);
    &&& info.public_key@ == key
    &&& info.name@ == match private_name {
        Some(n) => n,
        None => "unknown"@,
    }
    &&& info.key_type@ == if ws.len() > 0 { ws[0] } else { "unknown"@ }
    &&& opt_text(info.comment) == if ws.len() > 2 { Some(join(ws.skip(2), " "@)) } else { None }
    &&& info.public_key_path@ == public_path
    &&& opt_text(info.private_key_path) == if private_exists { Some(private_path) } else { None }
    &&& info.has_private_key == private_exists
    &&& opt_text(info.fingerprint) == match fingerprint_output {
        Some(o) => if trim(o).len() > 0 { Some(trim(o)) } else { None },
        None => None,
    }
    &&& opt_text(info.modified_at) == modified_at
}

/// `a` is listed strictly before `b`: its name in lower case sorts first.
pub open spec fn key_before(a: SshKeyInfo, b: SshKeyInfo) -> bool {
    chars_lt(unicode_lower(a.name@), unicode_lower(b.name@))
}

/// No key is listed after one it comes strictly before.
pub open spec fn keys_sorted(s: Seq<SshKeyInfo>) -> bool {
    forall|i: int, j: int| 0 <= i < j < s.len() ==> !key_before(#[trigger] s[j], #[trigger] s[i])
}

/// Where a stable insertion puts `x`: before the first key it comes strictly before.
pub open spec fn key_slot(s: Seq<SshKeyInfo>, x: SshKeyInfo, k: int) -> int
    decreases s.len() - k,
{
    if k < 0 || k >= s.len() {
        s.len() as int
    } else if key_before(x, s[k]) {
        k
    } else {
        key_slot(s, x, k + 1)
    }
}

/// The keys in listing order, ties kept in their given order.
pub open spec fn key_order(s: Seq<SshKeyInfo>) -> Seq<SshKeyInfo>
    decreases s.len(),
{
    if s.len() == 0 {
        s
    } else {
        let sorted = key_order(s.drop_last());
        sorted.insert(key_slot(sorted, s.last(), 0), s.last())
    }
}

proof fn lemma_key_slot_bounds(s: Seq<SshKeyInfo>, x: SshKeyInfo, k: int)
    requires
        0 <= k <= s.len(),
    ensures
        k <= key_slot(s, x, k) <= s.len(),
        forall|i: int| k <= i < key_slot(s, x, k) ==> !key_before(x, #[trigger] s[i]),
        key_slot(s, x, k) < s.len() ==> key_before(x, s[key_slot(s, x, k)]),
    decreases s.len() - k,
{
    if k < s.len() && !key_before(x, s[k]) {
        lemma_key_slot_bounds(s, x, k + 1);
    }
}

proof fn lemma_key_insert_sorted(s: Seq<SshKeyInfo>, x: SshKeyInfo)
    requires
        keys_sorted(s),
    ensures
        keys_sorted(s.insert(key_slot(s, x, 0), x)),
{
    lemma_key_slot_bounds(s, x, 0);
    let p = key_slot(s, x, 0);
    let t = s.insert(p, x);
    assert forall|i: int, j: int| 0 <= i < j < t.len() implies !key_before(#[trigger] t[j], #[trigger] t[i]) by {
        if i < p && j == p {
            lemma_chars_lt_asym(unicode_lower(x.name@), unicode_lower(s[i].name@));
        } else if i == p && j > p {
            if key_before(t[j], x) {
                if p < s.len() {
                    lemma_chars_lt_trans(unicode_lower(s[j - 1].name@), unicode_lower(x.name@), unicode_lower(s[p].name@));
                    if j - 1 == p {
                        lemma_chars_lt_asym(unicode_lower(s[p].name@), unicode_lower(x.name@));
                    }
                }
            }
        } else if i < p && j > p {
            assert(t[i] == s[i] && t[j] == s[j - 1]);
        } else if j < p {
            assert(t[i] == s[i] && t[j] == s[j]);
        } else {
            assert(t[i] == s[i - 1] && t[j] == s[j - 1]);
        }
    }
}

/// Listing orders the keys by their lower-case names and keeps exactly the same keys.
pub proof fn key_order_is_sorted_permutation(s: Seq<SshKeyInfo>)
    ensures
        keys_sorted(key_order(s)),
        key_order(s).to_multiset() == s.to_multiset(),
        key_order(s).len() == s.len(),
    decreases s.len(),
{
    broadcast use vstd::seq_lib::to_multiset_insert;
    if s.len() > 0 {
        let sorted = key_order(s.drop_last());
        key_order_is_sorted_permutation(s.drop_last());
        lemma_key_insert_sorted(sorted, s.last());
        lemma_key_slot_bounds(sorted, s.last(), 0);
        vstd::seq_lib::to_multiset_build(s.drop_last(), s.last());
        assert(s.drop_last().push(s.last()) =~= s);
    }
}

/// The file name of a new key, trimmed, or the error for a name that may not be used.
pub fn sanitize_ssh_key_file_name(file_name: &str) -> (r: Result<String, CommandError>)
    ensures
        valid_key_file_name(trim(file_name@)) ==> (r matches Ok(n) && n@ == trim(file_name@)),
        !valid_key_file_name(trim(file_name@)) ==> (r matches Err(e) && is_error(
            e,
            "sshKeyFailed"@,
            "invalid SSH key file name"@,
        )),
{
    let text = chars_of(file_name);
    let t = trim_chars(&text);
    let ok = t.len() > 0 && !equals_str(&t, ".") && !equals_str(&t, "..");
    let mut k: usize = 0;
    let mut allowed = true;
    let mut has_slash = false;
    let mut has_backslash = false;
    while k < t.len()
        invariant
            k <= t.len(),
            allowed == forall|i: int| 0 <= i < k ==> is_ascii_alnum(#[trigger] t@[i]) || t@[i] == '_' || t@[i] == '-' || t@[i] == '.',
            has_slash == exists|i: int| 0 <= i < k && t@[i] == '/',
            has_backslash == exists|i: int| 0 <= i < k && t@[i] == '\\',
        decreases t.len() - k,
    {
        let c = t[k];
        if !(is_ascii_alphanumeric(c) || c == '_' || c == '-' || c == '.') {
            allowed = false;
        }
        if c == '/' {
            has_slash = true;
        }
        if c == '\\' {
            has_backslash = true;
        }
        k = k + 1;
    }
    proof {
        if has_slash {
            let i = choose|i: int| 0 <= i < t@.len() && t@[i] == '/';
            assert(t@.contains('/'));
        }
        if t@.contains('/') {
            let i = choose|i: int| 0 <= i < t@.len() && t@[i] == '/';
            assert(has_slash);
        }
        if t@.contains('\\') {
            let i = choose|i: int| 0 <= i < t@.len() && t@[i] == '\\';
            assert(has_backslash);
        }
    }
    if !ok || has_slash || has_backslash || !allowed {
        return Err(CommandError::ssh_key_failed("invalid SSH key file name"));
    }
    Ok(string_of(&t))
}

/// The key type to create, or the error for one that cannot be created.
pub fn ssh_key_type(key_type: &str) -> (r: Result<&'static str, CommandError>)
    ensures
        match key_type_of(key_type@) {
            Some(k) => r matches Ok(t) && t@ == k,
            None => r matches Err(e) && is_error(e, "sshKeyFailed"@, "unsupported SSH key type"@),
        },
{
    let k = chars_of(key_type);
    if equals_str(&k, "ed25519") {
        Ok("ed25519")
    } else if equals_str(&k, "rsa") {
        Ok("rsa")
    } else {
        Err(CommandError::ssh_key_failed("unsupported SSH key type"))
    }
}

/// The arguments of `ssh-keygen` for a new key (see `keygen_args_of`).
pub fn ssh_keygen_args(key_type: &str, private_path: &str, comment: &str) -> (r: Vec<String>)
    ensures
        r@.map_values(|s: String| s@) == keygen_args_of(key_type@, private_path@, comment@),
{
    let c = chars_of(comment);
    let trimmed = trim_chars(&c);
    let mut args: Vec<String> = Vec::new();
    args.push(owned("-t"));
    args.push(owned(key_type));
    args.push(owned("-f"));
    args.push(owned(private_path));
    args.push(owned("-C"));
    args.push(string_of(&trimmed));
    args.push(owned("-N"));
    args.push(String::new());
    let kt = chars_of(key_type);
    if equals_str(&kt, "rsa") {
        args.push(owned("-b"));
        args.push(owned("4096"));
    }
    assert(args@.map_values(|s: String| s@) =~= keygen_args_of(key_type@, private_path@, comment@));
    args
}

/// Where a requested key goes in the `.ssh` folder and how `ssh-keygen` makes
/// it; fails for a file name that may not be used or a type that cannot be
/// created. The public key is the private key's path with the extension `pub`.
pub fn plan_ssh_key(request: &SshKeyGenerationRequest, ssh_dir: &str, separator: char) -> (r: Result<SshKeyPlan, CommandError>)
    ensures
        !valid_key_file_name(trim(request.file_name@)) ==> (r matches Err(e) && is_error(
            e,
            "sshKeyFailed"@,
            "invalid SSH key file name"@,
        )),
        valid_key_file_name(trim(request.file_name@)) && key_type_of(request.key_type@) is None ==> (
        r matches Err(e) && is_error(e, "sshKeyFailed"@, "unsupported SSH key type"@)),
        valid_key_file_name(trim(request.file_name@)) && key_type_of(request.key_type@) is Some ==> (r matches Ok(plan) && plan.private_path@ == path_join(
            ssh_dir@,
            trim(request.file_name@),
            separator,
        ) && plan.public_path@ == path_join(
            ssh_dir@,
            public_key_name(trim(request.file_name@)),
            separator,
        ) && plan.args@.map_values(|s: String| s@) == keygen_args_of(
            key_type_of(request.key_type@)->0,
            plan.private_path@,
            request.comment@,
        )),
{
    let file_name = match sanitize_ssh_key_file_name(request.file_name.as_str()) {
        Ok(n) => n,
        Err(e) => {
            return Err(e);
        },
    };
    let key_type = match ssh_key_type(request.key_type.as_str()) {
        Ok(k) => k,
        Err(e) => {
            return Err(e);
        },
    };
    let private_path = join_path(ssh_dir, file_name.as_str(), separator);
    assert(plain_path(file_name@)) by {
        let t = file_name@;
        assert(!t.contains(':')) by {
            if t.contains(':') {
                let i = choose|i: int| 0 <= i < t.len() && t[i] == ':';
                assert(is_ascii_alnum(t[i]) || t[i] == '_' || t[i] == '-' || t[i] == '.');
            }
        }
        if t.len() >= 2 && t[0] == '/' {
            assert(t.contains('/'));
        }
    }
    let public_name = match path_file_stem(file_name.as_str()) {
        Some(stem) => crate::text::concat_str(stem.as_str(), ".pub"),
        None => file_name.clone(),
    };
    let public_path = join_path(ssh_dir, public_name.as_str(), separator);
    let args = ssh_keygen_args(key_type, private_path.as_str(), request.comment.as_str());
    Ok(SshKeyPlan { private_path, public_path, args })
}

/// Refuses to make a key over an existing one.
pub fn check_new_key(private_exists: bool, public_exists: bool) -> (r: Result<(), CommandError>)
    ensures
        r is Ok <==> !private_exists && !public_exists,
        r matches Err(e) ==> is_error(e, "sshKeyFailed"@, "SSH key already exists"@),
{
    if private_exists || public_exists {
        Err(CommandError::ssh_key_failed("SSH key already exists"))
    } else {
        Ok(())
    }
}

/// A key's description (see `is_key_info`). The paths, whether the private key
/// exists, the output of `ssh-keygen -lf` and the modification time are what
/// the caller found.
pub fn ssh_key_info(
    public_text: &str,
    public_path: String,
    private_path: String,
    private_name: Option<String>,
    private_exists: bool,
    fingerprint_output: Option<String>,
    modified_at: Option<String>,
) -> (r: SshKeyInfo)
    ensures
        is_key_info(
            r,
            public_text@,
            public_path@,
            private_path@,
            opt_text(private_name),
            private_exists,
            opt_text(fingerprint_output),
            opt_text(modified_at),
        ),
{
    let text = chars_of(public_text);
    let key = trim_chars(&text);
    let ws = split_whitespace(&key);
    assert(seqs_of(ws@) == words(key@));
    let key_type = if ws.len() > 0 {
        string_of(&ws[0])
    } else {
        owned("unknown")
    };
    let comment = if ws.len() > 2 {
        let mut rest: Vec<String> = Vec::new();
        let mut k: usize = 2;
        while k < ws.len()
            invariant
                2 <= k <= ws.len(),
                rest@.map_values(|s: String| s@) =~= seqs_of(ws@).subrange(2, k as int),
            decreases ws.len() - k,
        {
            let ghost before = rest@.map_values(|s: String| s@);
            let piece = string_of(&ws[k]);
            rest.push(piece);
            assert(rest@.map_values(|s: String| s@) =~= before.push(ws@[k as int]@));
            k = k + 1;
        }
        assert(seqs_of(ws@).subrange(2, ws@.len() as int) =~= words(key@).skip(2));
        let joined = crate::text::join_strings(&rest, " ");
        assert(crate::text::string_seqs(rest@) =~= rest@.map_values(|s: String| s@));
        Some(string_of(&joined))
    } else {
        None
    };
    let fingerprint = match &fingerprint_output {
        Some(o) => {
            let oc = chars_of(o.as_str());
            let t = trim_chars(&oc);
            if t.len() > 0 {
                Some(string_of(&t))
            } else {
                None
            }
        },
        None => None,
    };
    let name = match private_name {
        Some(n) => n,
        None => owned("unknown"),
    };
    SshKeyInfo {
        name,
        key_type,
        public_key_path: public_path,
        private_key_path: if private_exists {
            Some(private_path)
        } else {
            None
        },
        public_key: string_of(&key),
        fingerprint,
        comment,
        modified_at,
        has_private_key: private_exists,
    }
}

fn key_comes_before(a: &SshKeyInfo, b: &SshKeyInfo) -> (r: bool)
    ensures
        r == key_before(*a, *b),
{
    let la = to_lowercase(a.name.as_str());
    let lb = to_lowercase(b.name.as_str());
    let ca = chars_of(la.as_str());
    let cb = chars_of(lb.as_str());
    chars_less(&ca, &cb)
}

/// Lists the keys by their lower-case names; ties keep their order.
pub fn sort_keys(keys: Vec<SshKeyInfo>) -> (r: Vec<SshKeyInfo>)
    ensures
        r@ == key_order(keys@),
{
    let ghost all = keys@;
    let mut pending = keys;
    let mut out: Vec<SshKeyInfo> = Vec::new();
    let mut k: usize = 0;
    let n = pending.len();
    while pending.len() > 0
        invariant
            n == all.len(),
            k + pending@.len() == n,
            pending@ == all.skip(k as int),
            out@ == key_order(all.take(k as int)),
        decreases pending.len(),
    {
        let a = pending.remove(0);
        assert(a == all[k as int]);
        assert(pending@ =~= all.skip(k + 1));
        assert(all.take(k + 1).drop_last() =~= all.take(k as int));
        let ghost sorted = out@;
        let mut p: usize = 0;
        while p < out.len() && !key_comes_before(&a, &out[p])
            invariant
                p <= out.len(),
                sorted == out@,
                key_slot(sorted, a, 0) == key_slot(sorted, a, p as int),
            decreases out.len() - p,
        {
            p = p + 1;
        }
        out.insert(p, a);
        k = k + 1;
    }
    assert(all.take(all.len() as int) =~= all);
    out
}

} // verus!
