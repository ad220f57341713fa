//! Listing a Docker registry: its address, the pages of its catalog, and the
//! order in which repositories and tags are shown.
use vstd::prelude::*;
use crate::models::{is_error, CommandError};
use crate::text::{
    chars_less, chars_lt, chars_of, concat_str, contains, contains_str, equal_chars,
    index_of, index_of_char, lemma_chars_lt_asym, lemma_chars_lt_trans, owned, seqs_of,
    skip_chars, slice_chars, split, split_on, starts_with, starts_with_str, string_of, trim,
    trim_chars, trim_end_char, trim_end_matching,
};

verus! {

broadcast use {vstd::seq_lib::to_multiset_insert, vstd::seq_lib::group_to_multiset_ensures};

/// The address of a registry: trimmed, without trailing `/`, with `https://`
/// added when it names no scheme; none for a blank one.
pub open spec fn registry_base(registry: Seq<char>) -> Option<Seq<char>> {
    let r = trim_end_char(trim(registry), '/');
    if r.len() == 0 {
        None
    } else if starts_with(r, "http://"@) || starts_with(r, "https://"@) {
        Some(r)
    } else {
        Some("https://"@ + r)
    }
}

/// The first comma-separated link of a `Link` header marked `rel="next"`.
pub open spec fn next_link(pieces: Seq<Seq<char>>) -> Option<Seq<char>>
    decreases pieces.len(),
{
    if pieces.len() == 0 {
        None
    } else if contains(pieces[0], "rel=\"next\""@) {
        Some(pieces[0])
    } else {
        next_link(pieces.drop_first())
    }
}

/// The target between `<` and `>` of the `rel="next"` link of a `Link` header.
pub open spec fn next_target(link: Seq<char>) -> Option<Seq<char>> {
    match next_link(split(link, ',')) {
        Some(p) => match index_of(p, '<') {
            Some(i) => {
                let after = p.skip(i + 1);
                match index_of(after, '>') {
                    Some(j) => Some(after.take(j)),
                    None => None,
                }
            },
            None => None,
        },
        None => None,
    }
}

/// The address of the next page: the `rel="next"` target, made absolute
/// against `base` when it is a path.
pub open spec fn next_url_of(base: Seq<char>, link: Seq<char>) -> Option<Seq<char>> {
    match next_target(link) {
        Some(t) => Some(
            if starts_with(t, "http://"@) || starts_with(t, "https://"@) {
                t
            } else if t.len() > 0 && t[0] == '/' {
                base + t
            } else {
                base + seq!['/'] + t
            },
        ),
        None => None,
    }
}

/// No name sorts before one listed ahead of it.
pub open spec fn names_sorted(s: Seq<Seq<char>>) -> bool {
    forall|i: int, j: int| 0 <= i < j < s.len() ==> !chars_lt(#[trigger] s[j], #[trigger] s[i])
}

/// Each name sorts strictly before the ones listed after it.
pub open spec fn names_strictly_sorted(s: Seq<Seq<char>>) -> bool {
    forall|i: int, j: int| 0 <= i < j < s.len() ==> chars_lt(#[trigger] s[i], #[trigger] s[j])
}

pub open spec fn texts(v: Seq<String>) -> Seq<Seq<char>> {
    v.map_values(|s: String| s@)
}

/// Two different names: one sorts before the other.
pub proof fn lemma_chars_lt_total(a: Seq<char>, b: Seq<char>)
    requires
        a != b,
    ensures
        chars_lt(a, b) || chars_lt(b, a),
    decreases a.len(),
{
    if a.len() > 0 && b.len() > 0 && a[0] == b[0] {
        assert(a.drop_first() != b.drop_first()) by {
            if a.drop_first() == b.drop_first() {
                assert(a =~= seq![a[0]] + a.drop_first());
                assert(b =~= seq![b[0]] + b.drop_first());
            }
        }
        lemma_chars_lt_total(a.drop_first(), b.drop_first());
    } else if a.len() == 0 && b.len() == 0 {
        assert(a =~= b);
    } else if a.len() > 0 && b.len() > 0 {
        let x = a[0];
        let y = b[0];
        assert(x != y);
        vstd::utf8::char_u32_cast(x, x as u32);
        vstd::utf8::char_u32_cast(y, y as u32);
        assert((x as u32) != (y as u32));
    }
}

/// The address of a registry (see `registry_base`), or the error for a blank one.
pub fn registry_base_url(registry: &str) -> (r: Result<String, CommandError>)
    ensures
        match registry_base(registry@) {
            Some(b) => r matches Ok(u) && u@ == b,
            None => r matches Err(e) && is_error(e, "dockerFailed"@, "registry URL is required"@),
        },
{
    let text = chars_of(registry);
    let t = trim_chars(&text);
    let r = trim_end_matching(&t, '/');
    if r.len() == 0 {
        return Err(CommandError::docker_failed("registry URL is required"));
    }
    let rs = string_of(&r);
    if starts_with_str(&r, "http://") || starts_with_str(&r, "https://") {
        Ok(rs)
    } else {
        Ok(concat_str("https://", rs.as_str()))
    }
}

/// The address of the first page of a registry's catalog.
pub fn catalog_url(base_url: &str) -> (r: String)
    ensures
        r@ == base_url@ + "/v2/_catalog?n=100"@,
{
    concat_str(base_url, "/v2/_catalog?n=100")
}

/// The address of a repository's tag list.
pub fn tags_url(base_url: &str, repository: &str) -> (r: String)
    ensures
        r@ == base_url@ + "/v2/"@ + repository@ + "/tags/list"@,
{
    let a = concat_str(base_url, "/v2/");
    let b = concat_str(a.as_str(), repository);
    concat_str(b.as_str(), "/tags/list")
}

/// The user name to send, trimmed, when a user name or a password was given.
pub fn basic_auth_user(username: &str, password: &str) -> (r: Option<String>)
    ensures
        (trim(username@).len() > 0 || password@.len() > 0) ==> (r matches Some(u) && u@ == trim(username@)),
        !(trim(username@).len() > 0 || password@.len() > 0) ==> r is None,
{
    let u = chars_of(username);
    let t = trim_chars(&u);
    let p = chars_of(password);
    if t.len() > 0 || p.len() > 0 {
        Some(string_of(&t))
    } else {
        None
    }
}

/// The error for a request the registry refused.
pub fn registry_failure(status: &str, message: &str) -> (r: CommandError)
    ensures
        is_error(r, "dockerFailed"@, "registry request failed: "@ + status@ + " "@ + message@),
{
    let a = concat_str("registry request failed: ", status);
    let b = concat_str(a.as_str(), " ");
    let c = concat_str(b.as_str(), message);
    CommandError::docker_failed(c.as_str())
}

/// The address of the next page named by a `Link` header (see `next_url_of`).
pub fn next_url(base_url: &str, link: &str) -> (r: Option<String>)
    ensures
        match next_url_of(base_url@, link@) {
            Some(u) => r matches Some(s) && s@ == u,
            None => r is None,
        },
{
    let text = chars_of(link);
    let pieces = split_on(&text, ',');
    let ghost ps = seqs_of(pieces@);
    let mut k: usize = 0;
    assert(ps.skip(0) =~= ps);
    while k < pieces.len() && !contains_str(&pieces[k], "rel=\"next\"")
        invariant
            k <= pieces.len(),
            ps == seqs_of(pieces@),
            ps == split(link@, ','),
            next_link(ps) == next_link(ps.skip(k as int)),
        decreases pieces.len() - k,
    {
        assert(ps.skip(k as int)[0] == pieces@[k as int]@);
        assert(ps.skip(k as int).drop_first() =~= ps.skip(k + 1));
        k = k + 1;
    }
    if k >= pieces.len() {
        assert(ps.skip(k as int).len() == 0);
        return None;
    }
    assert(ps.skip(k as int)[0] == pieces@[k as int]@);
    let p = &pieces[k];
    assert(next_link(ps) == Some(p@));
    let i = match index_of_char(p, '<') {
        Some(i) => i,
        None => {
            return None;
        },
    };
    let after = skip_chars(p, i + 1);
    let j = match index_of_char(&after, '>') {
        Some(j) => j,
        None => {
            return None;
        },
    };
    let target = slice_chars(&after, 0, j);
    assert(target@ =~= after@.take(j as int));
    let t = string_of(&target);
    if starts_with_str(&target, "http://") || starts_with_str(&target, "https://") {
        Some(t)
    } else if target.len() > 0 && target[0] == '/' {
        Some(concat_str(base_url, t.as_str()))
    } else {
        let with_slash = concat_str(base_url, "/");
        proof {
            reveal_strlit("/");
        }
        assert(with_slash@ == base_url@ + seq!['/']);
        Some(concat_str(with_slash.as_str(), t.as_str()))
    }
}

/// The repositories in order, each once.
pub fn sorted_unique(names: Vec<String>) -> (r: Vec<String>)
    ensures
        names_strictly_sorted(texts(r@)),
        texts(r@).to_set() == texts(names@).to_set(),
{
    let ghost all = texts(names@);
    let mut out: Vec<String> = Vec::new();
    let mut k: usize = 0;
    assert(texts(out@) =~= Seq::<Seq<char>>::empty());
    assert(all.take(0) =~= Seq::<Seq<char>>::empty());
    while k < names.len()
        invariant
            k <= names.len(),
            all == texts(names@),
            names_strictly_sorted(texts(out@)),
            texts(out@).to_set() == all.take(k as int).to_set(),
        decreases names.len() - k,
    {
        let x = chars_of(names[k].as_str());
        let ghost s = texts(out@);
        let mut p: usize = 0;
        while p < out.len() && chars_less(&chars_of(out[p].as_str()), &x)
            invariant
                p <= out.len(),
                s == texts(out@),
                k < names@.len(),
                x@ == names@[k as int]@,
                forall|i: int| 0 <= i < p ==> chars_lt(#[trigger] s[i], x@),
            decreases out.len() - p,
        {
            p = p + 1;
        }
        assert(all.take(k + 1) =~= all.take(k as int).push(x@));
        proof {
            all.take(k as int).lemma_push_to_set_commute(x@);
        }
        let same = p < out.len() && equal_chars(&chars_of(out[p].as_str()), &x);
        if same {
            proof {
                assert(s[p as int] == x@);
                assert(all.take(k as int).to_set().contains(x@)) by {
                    assert(s.to_set().contains(s[p as int]));
                }
                assert(all.take(k + 1).to_set() =~= all.take(k as int).to_set().insert(x@));
            }
        } else {
            let item = names[k].clone();
            out.insert(p, item);
            proof {
                let t = texts(out@);
                assert(t =~= s.insert(p as int, x@));
                if p < s.len() {
                    assert(s[p as int] != x@);
                    lemma_chars_lt_total(s[p as int], x@);
                    assert(chars_lt(x@, s[p as int]));
                }
                assert forall|i: int, j: int| 0 <= i < j < t.len() implies chars_lt(#[trigger] t[i], #[trigger] t[j]) by {
                    if j < p {
                        assert(t[i] == s[i] && t[j] == s[j]);
                    } else if j == p {
                        assert(t[i] == s[i]);
                    } else if i == p {
                        assert(t[j] == s[j - 1]);
                        if j - 1 > p {
                            lemma_chars_lt_trans(x@, s[p as int], s[j - 1]);
                        }
                    } else if i < p {
                        assert(t[i] == s[i] && t[j] == s[j - 1]);
                    } else {
                        assert(t[i] == s[i - 1] && t[j] == s[j - 1]);
                    }
                }
                assert(t.to_set() =~= s.to_set().insert(x@)) by {
                    assert forall|y: Seq<char>| t.to_set().contains(y) <==> s.to_set().insert(x@).contains(y) by {
                        if t.to_set().contains(y) {
                            let i = choose|i: int| 0 <= i < t.len() && t[i] == y;
                            if i < p {
                                assert(s[i] == y);
                            } else if i > p {
                                assert(s[i - 1] == y);
                            }
                        }
                        if s.to_set().contains(y) {
                            let i = choose|i: int| 0 <= i < s.len() && s[i] == y;
                            if i < p {
                                assert(t[i] == y);
                            } else {
                                assert(t[i + 1] == y);
                            }
                        }
                        if y == x@ {
                            assert(t[p as int] == y);
                        }
                    }
                }
                assert(all.take(k + 1).to_set() =~= all.take(k as int).to_set().insert(x@));
            }
        }
        k = k + 1;
    }
    assert(all.take(names@.len() as int) =~= all);
    out
}

/// The tags in order, repeats kept.
pub fn sorted_tags(tags: Vec<String>) -> (r: Vec<String>)
    ensures
        names_sorted(texts(r@)),
        texts(r@).to_multiset() == texts(tags@).to_multiset(),
{
    let ghost all = texts(tags@);
    let mut out: Vec<String> = Vec::new();
    let mut k: usize = 0;
    assert(texts(out@) =~= Seq::<Seq<char>>::empty());
    assert(all.take(0) =~= Seq::<Seq<char>>::empty());
    while k < tags.len()
        invariant
            k <= tags.len(),
            all == texts(tags@),
            names_sorted(texts(out@)),
            texts(out@).to_multiset() == all.take(k as int).to_multiset(),
        decreases tags.len() - k,
    {
        let x = chars_of(tags[k].as_str());
        let ghost s = texts(out@);
        let mut p: usize = 0;
        while p < out.len() && !chars_less(&x, &chars_of(out[p].as_str()))
            invariant
                p <= out.len(),
                s == texts(out@),
                k < tags@.len(),
                x@ == tags@[k as int]@,
                forall|i: int| 0 <= i < p ==> !chars_lt(x@, #[trigger] s[i]),
            decreases out.len() - p,
        {
            p = p + 1;
        }
        let item = tags[k].clone();
        out.insert(p, item);
        proof {
            let t = texts(out@);
            assert(t =~= s.insert(p as int, x@));
            assert forall|i: int, j: int| 0 <= i < j < t.len() implies !chars_lt(#[trigger] t[j], #[trigger] t[i]) by {
                if j < p {
                    assert(t[i] == s[i] && t[j] == s[j]);
                } else if j == p {
                    assert(t[i] == s[i]);
                    lemma_chars_lt_asym(x@, s[i]);
                    if chars_lt(x@, s[i]) {
                    } else if x@ != s[i] {
                        lemma_chars_lt_total(x@, s[i]);
                    }
                } else if i == p {
                    assert(t[j] == s[j - 1]);
                    if chars_lt(s[j - 1], x@) {
                        if p < s.len() {
                            assert(chars_lt(x@, s[p as int]));
                            lemma_chars_lt_trans(s[j - 1], x@, s[p as int]);
                            if j - 1 > p {
                            } else {
                                lemma_chars_lt_asym(s[p as int], s[p as int]);
                            }
                        }
                    }
                } else if i < p {
                    assert(t[i] == s[i] && t[j] == s[j - 1]);
                } else {
                    assert(t[i] == s[i - 1] && t[j] == s[j - 1]);
                }
            }
            assert(all.take(k + 1) =~= all.take(k as int).push(x@));
            vstd::seq_lib::to_multiset_build(all.take(k as int), x@);
        }
        k = k + 1;
    }
    assert(all.take(tags@.len() as int) =~= all);
    out
}

} // verus!
