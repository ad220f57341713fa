//! Ranking stored commands against what is typed at the prompt.
use vstd::prelude::*;
use crate::command_knowledge::indexer::{copy_opt_string, copy_string, opt_chars};
use crate::command_knowledge::models::CommandAutocompleteSuggestion;
use crate::text::{
    chars_less, chars_lt, chars_of, contains, contains_chars, is_whitespace, is_ws,
    lemma_chars_lt_asym, lemma_chars_lt_trans, lower, lowercase, owned,
    split_whitespace, seqs_of, starts_with, starts_with_chars, string_of, trim, trim_chars, words,
};

verus! {

broadcast use vstd::seq_lib::to_multiset_insert;

/// A stored command with its usage counts, as read for ranking.
#[derive(Clone, Debug)]
pub struct CommandAutocompleteCandidate {
    pub command_id: i64,
    pub command_line: String,
    pub description: Option<String>,
    pub usage_count: i64,
    pub usage_last_used_at: Option<String>,
}

impl CommandAutocompleteCandidate {
    pub fn last_used_at(&self) -> (r: Option<String>)
        ensures
            opt_chars(r) == opt_chars(self.usage_last_used_at),
    {
        copy_opt_string(&self.usage_last_used_at)
    }
}

/// A suggestion as values: everything but the examples, arguments and options,
/// which ranking leaves empty.
pub struct SuggestionView {
    pub command_id: i64,
    pub command_line: Seq<char>,
    pub label: Seq<char>,
    pub icon: Seq<char>,
    pub description: Option<Seq<char>>,
    pub usage_count: i64,
    pub score: i64,
    pub last_used_at: Option<Seq<char>>,
    pub frequently_used: bool,
    pub recently_used: bool,
}

pub open spec fn suggestion_view(s: CommandAutocompleteSuggestion) -> SuggestionView {
    SuggestionView {
        command_id: s.command_id,
        command_line: s.command_line@,
        label: s.label@,
        icon: s.icon@,
        description: opt_chars(s.description),
        usage_count: s.usage_count,
        score: s.score,
        last_used_at: opt_chars(s.last_used_at),
        frequently_used: s.frequently_used,
        recently_used: s.recently_used,
    }
}

pub open spec fn suggestion_views(v: Seq<CommandAutocompleteSuggestion>) -> Seq<SuggestionView> {
    v.map_values(|s: CommandAutocompleteSuggestion| suggestion_view(s))
}

/// The word of the command line under the last word of a query of several
/// words, or else the whole command line.
pub open spec fn label_of(command_line: Seq<char>, query: Seq<char>) -> Seq<char> {
    let q = words(query);
    let c = words(command_line);
    if q.len() > 1 && c.len() >= q.len() {
        c[q.len() - 1]
    } else {
        command_line
    }
}

/// The last word of the query, or the query itself when it has none.
pub open spec fn last_word(query: Seq<char>) -> Seq<char> {
    let q = words(query);
    if q.len() > 0 {
        q.last()
    } else {
        query
    }
}

/// The first index at or after `pos` that holds `c`.
pub open spec fn index_from(s: Seq<char>, pos: int, c: char) -> Option<int>
    decreases s.len() - pos,
{
    if pos < 0 || pos >= s.len() {
        None
    } else if s[pos] == c {
        Some(pos)
    } else {
        index_from(s, pos + 1, c)
    }
}

/// Matches the non-whitespace characters of the query, in order, against the
/// candidate from `pos` on: 6 points for a character found right where the
/// last match ended, 2 for one found further on; `None` when one is missing.
pub open spec fn fuzzy_from(cand: Seq<char>, pos: int, q: Seq<char>, acc: int) -> Option<int>
    decreases q.len(),
{
    if q.len() == 0 {
        Some(acc)
    } else if is_ws(q[0]) {
        fuzzy_from(cand, pos, q.drop_first(), acc)
    } else {
        match index_from(cand, pos, q[0]) {
            Some(j) => fuzzy_from(
                cand,
                j + 1,
                q.drop_first(),
                acc + if j == pos {
                    6int
                } else {
                    2int
                },
            ),
            None => None,
        }
    }
}

pub open spec fn fuzzy(cand: Seq<char>, q: Seq<char>) -> Option<int> {
    fuzzy_from(cand, 0, q, 0)
}

/// How well the command line matches the (normalized) query, before usage counts.
pub open spec fn match_score(command_line: Seq<char>, query: Seq<char>) -> Option<int> {
    let line = lower(command_line);
    let label = lower(label_of(command_line, query));
    if starts_with(line, query) {
        Some(140)
    } else if starts_with(label, last_word(query)) {
        Some(120)
    } else if contains(line, query) {
        Some(80)
    } else {
        fuzzy(line, query)
    }
}

/// The most characters a query may have: the fuzzy score then fits an `i64`.
pub const MAX_QUERY_CHARS: u64 = 0x1000_0000_0000_0000;

/// A candidate can be scored without overflow.
pub open spec fn scorable(c: CommandAutocompleteCandidate) -> bool {
    c.usage_count * 3 >= i64::MIN
}

/// The suggestion made of a candidate: match score, plus three points per use
/// (at most 100 uses count), plus 25 when it was used before.
pub open spec fn suggestion_for(c: CommandAutocompleteCandidate, query: Seq<char>) -> Option<SuggestionView> {
    match match_score(c.command_line@, query) {
        Some(m) => {
            let usage = if c.usage_count < 100 {
                c.usage_count
            } else {
                100
            };
            let recent = if c.usage_last_used_at is Some {
                25int
            } else {
                0int
            };
            Some(
                SuggestionView {
                    command_id: c.command_id,
                    command_line: c.command_line@,
                    label: label_of(c.command_line@, query),
                    icon: "bi-terminal"@,
                    description: opt_chars(c.description),
                    usage_count: c.usage_count,
                    score: (m + usage * 3 + recent) as i64,
                    last_used_at: opt_chars(c.usage_last_used_at),
                    frequently_used: c.usage_count >= 5,
                    recently_used: c.usage_last_used_at is Some,
                },
            )
        },
        None => None,
    }
}

pub fn index_of_char_from(s: &Vec<char>, pos: usize, c: char) -> (r: Option<usize>)
    requires
        pos <= s.len(),
    ensures
        r matches Some(j) ==> index_from(s@, pos as int, c) == Some(j as int) && j < s.len(),
        r is None ==> index_from(s@, pos as int, c) is None,
{
    let mut j: usize = pos;
    while j < s.len()
        invariant
            pos <= j <= s.len(),
            index_from(s@, pos as int, c) == index_from(s@, j as int, c),
        decreases s.len() - j,
    {
        if s[j] == c {
            return Some(j);
        }
        j = j + 1;
    }
    None
}

pub proof fn lemma_fuzzy_bound(cand: Seq<char>, pos: int, q: Seq<char>, acc: int)
    ensures
        fuzzy_from(cand, pos, q, acc) matches Some(v) ==> acc <= v <= acc + 6 * q.len(),
    decreases q.len(),
{
    if q.len() > 0 {
        if is_ws(q[0]) {
            lemma_fuzzy_bound(cand, pos, q.drop_first(), acc);
        } else {
            match index_from(cand, pos, q[0]) {
                Some(j) => {
                    let step = if j == pos {
                        6int
                    } else {
                        2int
                    };
                    lemma_fuzzy_bound(cand, j + 1, q.drop_first(), acc + step);
                },
                None => {},
            }
        }
    }
}

pub fn fuzzy_score(candidate: &Vec<char>, query: &Vec<char>) -> (r: Option<i64>)
    requires
        query.len() <= MAX_QUERY_CHARS,
    ensures
        match fuzzy(candidate@, query@) {
            Some(v) => r == Some(v as i64),
            None => r is None,
        },
{
    let mut score: i64 = 0;
    let mut pos: usize = 0;
    let mut i: usize = 0;
    assert(query@.skip(0) =~= query@);
    while i < query.len()
        invariant
            i <= query.len() <= MAX_QUERY_CHARS,
            pos <= candidate.len(),
            0 <= score <= 6 * i,
            fuzzy(candidate@, query@) == fuzzy_from(candidate@, pos as int, query@.skip(i as int), score as int),
        decreases query.len() - i,
    {
        let c = query[i];
        assert(query@.skip(i as int)[0] == c);
        assert(query@.skip(i as int).drop_first() =~= query@.skip(i + 1));
        if !is_whitespace(c) {
            match index_of_char_from(candidate, pos, c) {
                Some(j) => {
                    if j == pos {
                        score = score + 6;
                    } else {
                        score = score + 2;
                    }
                    pos = j + 1;
                },
                None => {
                    return None;
                },
            }
        }
        i = i + 1;
    }
    assert(query@.skip(query.len() as int) =~= Seq::<char>::empty());
    Some(score)
}

pub fn label_for_query(command_line: &Vec<char>, query: &Vec<char>) -> (r: Vec<char>)
    ensures
        r@ == label_of(command_line@, query@),
{
    let q = split_whitespace(query);
    let c = split_whitespace(command_line);
    if q.len() > 1 && c.len() >= q.len() {
        assert(seqs_of(c@)[q.len() - 1] == c@[q.len() - 1]@);
        c[q.len() - 1].clone()
    } else {
        command_line.clone()
    }
}

pub fn score_candidate(candidate: CommandAutocompleteCandidate, query: &Vec<char>) -> (r: Option<CommandAutocompleteSuggestion>)
    requires
        query.len() <= MAX_QUERY_CHARS,
        scorable(candidate),
    ensures
        match suggestion_for(candidate, query@) {
            Some(v) => r matches Some(s) && suggestion_view(s) == v && s.examples@.len() == 0
                && s.arguments@.len() == 0 && s.options@.len() == 0,
            None => r is None,
        },
{
    let line_chars = chars_of(candidate.command_line.as_str());
    let line = lowercase(&line_chars);
    let label = label_for_query(&line_chars, query);
    let label_lower = lowercase(&label);
    let q = split_whitespace(query);
    let last: Vec<char> = if q.len() > 0 {
        assert(seqs_of(q@).last() == q@[q.len() - 1]@);
        q[q.len() - 1].clone()
    } else {
        query.clone()
    };
    let prefix_score: i64 = if starts_with_chars(&line, query) {
        140
    } else if starts_with_chars(&label_lower, &last) {
        120
    } else if contains_chars(&line, query) {
        80
    } else {
        match fuzzy_score(&line, query) {
            Some(v) => {
                proof {
                    lemma_fuzzy_bound(line@, 0, query@, 0);
                }
                v
            },
            None => {
                return None;
            },
        }
    };
    let usage: i64 = if candidate.usage_count < 100 {
        candidate.usage_count
    } else {
        100
    };
    let usage_score: i64 = usage * 3;
    let last_used_at = candidate.last_used_at();
    let recent_score: i64 = if last_used_at.is_some() {
        25
    } else {
        0
    };
    let frequently_used = candidate.usage_count >= 5;
    let recently_used = last_used_at.is_some();
    Some(
        CommandAutocompleteSuggestion {
            command_id: candidate.command_id,
            command_line: candidate.command_line,
            label: string_of(&label),
            icon: owned("bi-terminal"),
            description: candidate.description,
            examples: Vec::new(),
            arguments: Vec::new(),
            options: Vec::new(),
            usage_count: candidate.usage_count,
            score: prefix_score + usage_score + recent_score,
            last_used_at,
            frequently_used,
            recently_used,
        },
    )
}

/// `Option<String>` order: `None` first, then the strings in order.
pub open spec fn opt_lt(a: Option<Seq<char>>, b: Option<Seq<char>>) -> bool {
    match (a, b) {
        (None, Some(_)) => true,
        (Some(x), Some(y)) => chars_lt(x, y),
        _ => false,
    }
}

/// `a` ranks strictly before `b`: a higher score, then more uses, then a later
/// last use, then the command line that sorts first.
pub open spec fn ranks_before(a: SuggestionView, b: SuggestionView) -> bool {
    ||| a.score > b.score
    ||| a.score == b.score && a.usage_count > b.usage_count
    ||| a.score == b.score && a.usage_count == b.usage_count && opt_lt(b.last_used_at, a.last_used_at)
    ||| a.score == b.score && a.usage_count == b.usage_count && a.last_used_at == b.last_used_at
        && chars_lt(a.command_line, b.command_line)
}

/// No suggestion ranks strictly before one listed ahead of it.
pub open spec fn ranked(s: Seq<SuggestionView>) -> bool {
    forall|i: int, j: int| 0 <= i < j < s.len() ==> !ranks_before(#[trigger] s[j], #[trigger] s[i])
}

/// Where a stable insertion puts `x`: before the first entry it ranks strictly before.
pub open spec fn insert_position(s: Seq<SuggestionView>, x: SuggestionView, k: int) -> int
    decreases s.len() - k,
{
    if k < 0 || k >= s.len() {
        s.len() as int
    } else if ranks_before(x, s[k]) {
        k
    } else {
        insert_position(s, x, k + 1)
    }
}

/// The suggestions in ranking order, ties kept in their given order.
pub open spec fn rank_order(s: Seq<SuggestionView>) -> Seq<SuggestionView>
    decreases s.len(),
{
    if s.len() == 0 {
        s
    } else {
        let sorted = rank_order(s.drop_last());
        sorted.insert(insert_position(sorted, s.last(), 0), s.last())
    }
}

pub proof fn lemma_opt_lt_trans(a: Option<Seq<char>>, b: Option<Seq<char>>, c: Option<Seq<char>>)
    requires
        opt_lt(a, b),
        opt_lt(b, c),
    ensures
        opt_lt(a, c),
{
    match (a, b, c) {
        (Some(x), Some(y), Some(z)) => lemma_chars_lt_trans(x, y, z),
        _ => {},
    }
}

pub proof fn lemma_ranks_before_asym(a: SuggestionView, b: SuggestionView)
    ensures
        !(ranks_before(a, b) && ranks_before(b, a)),
{
    lemma_chars_lt_asym(a.command_line, b.command_line);
    match (a.last_used_at, b.last_used_at) {
        (Some(x), Some(y)) => lemma_chars_lt_asym(x, y),
        _ => {},
    }
}

pub proof fn lemma_ranks_before_trans(a: SuggestionView, b: SuggestionView, c: SuggestionView)
    requires
        ranks_before(a, b),
        ranks_before(b, c),
    ensures
        ranks_before(a, c),
{
    if a.score == b.score && b.score == c.score && a.usage_count == b.usage_count && b.usage_count
        == c.usage_count {
        if opt_lt(b.last_used_at, a.last_used_at) && opt_lt(c.last_used_at, b.last_used_at) {
            lemma_opt_lt_trans(c.last_used_at, b.last_used_at, a.last_used_at);
        } else if a.last_used_at == b.last_used_at && b.last_used_at == c.last_used_at {
            lemma_chars_lt_trans(a.command_line, b.command_line, c.command_line);
        }
    }
}

proof fn lemma_insert_position_bounds(s: Seq<SuggestionView>, x: SuggestionView, k: int)
    requires
        0 <= k <= s.len(),
    ensures
        k <= insert_position(s, x, k) <= s.len(),
        forall|i: int| k <= i < insert_position(s, x, k) ==> !ranks_before(x, #[trigger] s[i]),
        insert_position(s, x, k) < s.len() ==> ranks_before(x, s[insert_position(s, x, k)]),
    decreases s.len() - k,
{
    if k < s.len() && !ranks_before(x, s[k]) {
        lemma_insert_position_bounds(s, x, k + 1);
    }
}

/// Inserting at the stable position keeps a ranked list ranked.
pub proof fn lemma_insert_keeps_ranked(s: Seq<SuggestionView>, x: SuggestionView)
    requires
        ranked(s),
    ensures
        ranked(s.insert(insert_position(s, x, 0), x)),
{
    lemma_insert_position_bounds(s, x, 0);
    let p = insert_position(s, x, 0);
    let t = s.insert(p, x);
    assert forall|i: int, j: int| 0 <= i < j < t.len() implies !ranks_before(#[trigger] t[j], #[trigger] t[i]) by {
        if i < p && j == p {
            lemma_ranks_before_asym(x, s[i]);
        } else if i == p && j > p {
            if ranks_before(t[j], x) {
                if p < s.len() {
                    lemma_ranks_before_trans(s[j - 1], x, s[p]);
                    if j - 1 == p {
                        lemma_ranks_before_asym(s[p], x);
                    }
                }
            }
        } else if i < p && j > p {
            assert(t[i] == s[i] && t[j] == s[j - 1]);
        } else if j < p {
            assert(t[i] == s[i] && t[j] == s[j]);
        } else {
            assert(t[i] == s[i - 1] && t[j] == s[j - 1]);
        }
    }
}

/// Ranking orders the suggestions and keeps exactly the same suggestions.
pub proof fn rank_order_is_ranked_permutation(s: Seq<SuggestionView>)
    ensures
        ranked(rank_order(s)),
        rank_order(s).to_multiset() == s.to_multiset(),
        rank_order(s).len() == s.len(),
    decreases s.len(),
{
    if s.len() > 0 {
        let sorted = rank_order(s.drop_last());
        rank_order_is_ranked_permutation(s.drop_last());
        lemma_insert_keeps_ranked(sorted, s.last());
        lemma_insert_position_bounds(sorted, s.last(), 0);
        vstd::seq_lib::to_multiset_build(s.drop_last(), s.last());
        assert(s.drop_last().push(s.last()) =~= s);
    }
}

/// Among suggestions with the same score and the same number of uses, the
/// one used more recently comes first: a later listed suggestion was last used
/// no later (its timestamp is not greater as text) than an earlier one, and
/// one never used comes after one that was used.
pub proof fn more_recent_use_ranks_first(
    cands: Seq<CommandAutocompleteCandidate>,
    query: Seq<char>,
    limit: nat,
    i: int,
    j: int,
)
    requires
        0 <= i < j < autocomplete_of(cands, query, limit).len(),
        autocomplete_of(cands, query, limit)[i].score == autocomplete_of(cands, query, limit)[j].score,
        autocomplete_of(cands, query, limit)[i].usage_count == autocomplete_of(cands, query, limit)[j].usage_count,
    ensures
        autocomplete_of(cands, query, limit)[i].last_used_at is None
            ==> autocomplete_of(cands, query, limit)[j].last_used_at is None,
        forall|x: Seq<char>, y: Seq<char>|
            autocomplete_of(cands, query, limit)[i].last_used_at == Some(x)
                && autocomplete_of(cands, query, limit)[j].last_used_at == Some(y) ==> !chars_lt(x, y),
{
    let q = normalized_query(query);
    let all = rank_order(suggestions_for(cands, q));
    rank_order_is_ranked_permutation(suggestions_for(cands, q));
    let r = autocomplete_of(cands, query, limit);
    assert(r[i] == all[i] && r[j] == all[j]);
    assert(!ranks_before(all[j], all[i]));
}

/// The suggestions come in ranking order: a higher score first; for equal
/// scores, more uses first; then the later last use; then the command line
/// that sorts first. There are at most `clamp_limit(limit)` of them, and none
/// for a blank query.
pub proof fn suggestions_come_best_first(
    cands: Seq<CommandAutocompleteCandidate>,
    query: Seq<char>,
    limit: nat,
)
    ensures
        autocomplete_of(cands, query, limit).len() <= clamp_limit(limit),
        normalized_query(query).len() == 0 ==> autocomplete_of(cands, query, limit).len() == 0,
        forall|i: int, j: int|
            0 <= i < j < autocomplete_of(cands, query, limit).len() ==> {
                let a = #[trigger] autocomplete_of(cands, query, limit)[i];
                let b = #[trigger] autocomplete_of(cands, query, limit)[j];
                &&& a.score >= b.score
                &&& a.score == b.score ==> a.usage_count >= b.usage_count
                &&& a.score == b.score && a.usage_count == b.usage_count && a.last_used_at == b.last_used_at
                    ==> !chars_lt(b.command_line, a.command_line)
            },
{
    let q = normalized_query(query);
    let all = rank_order(suggestions_for(cands, q));
    rank_order_is_ranked_permutation(suggestions_for(cands, q));
    let r = autocomplete_of(cands, query, limit);
    assert forall|i: int, j: int| 0 <= i < j < r.len() implies {
        let a = #[trigger] r[i];
        let b = #[trigger] r[j];
        &&& a.score >= b.score
        &&& a.score == b.score ==> a.usage_count >= b.usage_count
        &&& a.score == b.score && a.usage_count == b.usage_count && a.last_used_at == b.last_used_at
            ==> !chars_lt(b.command_line, a.command_line)
    } by {
        assert(r[i] == all[i] && r[j] == all[j]);
        assert(!ranks_before(all[j], all[i]));
    }
}

/// The suggestions made from the candidates, in the candidates' order.
pub open spec fn suggestions_for(cands: Seq<CommandAutocompleteCandidate>, query: Seq<char>) -> Seq<SuggestionView>
    decreases cands.len(),
{
    if cands.len() == 0 {
        seq![]
    } else {
        let rest = suggestions_for(cands.drop_last(), query);
        match suggestion_for(cands.last(), query) {
            Some(v) => rest.push(v),
            None => rest,
        }
    }
}

/// How many suggestions a request may return: `limit` held between 1 and 20.
pub open spec fn clamp_limit(limit: nat) -> nat {
    if limit < 1 {
        1
    } else if limit > 20 {
        20
    } else {
        limit
    }
}

/// The query as ranking reads it: trimmed, in ASCII lower case.
pub open spec fn normalized_query(query: Seq<char>) -> Seq<char> {
    lower(trim(query))
}

/// The suggestions for a query: none for a blank query; else the best
/// `clamp_limit(limit)` of the scored candidates in ranking order.
pub open spec fn autocomplete_of(
    cands: Seq<CommandAutocompleteCandidate>,
    query: Seq<char>,
    limit: nat,
) -> Seq<SuggestionView> {
    let q = normalized_query(query);
    if q.len() == 0 {
        seq![]
    } else {
        let all = rank_order(suggestions_for(cands, q));
        if all.len() <= clamp_limit(limit) {
            all
        } else {
            all.take(clamp_limit(limit) as int)
        }
    }
}

fn insert_ranked(out: &mut Vec<CommandAutocompleteSuggestion>, s: CommandAutocompleteSuggestion) -> (k: usize)
    ensures
        k == insert_position(suggestion_views(old(out)@), suggestion_view(s), 0),
        k <= old(out)@.len(),
        final(out)@ == old(out)@.insert(k as int, s),
        suggestion_views(final(out)@) == suggestion_views(old(out)@).insert(k as int, suggestion_view(s)),
{
    let ghost sv = suggestion_views(out@);
    let ghost x = suggestion_view(s);
    let mut k: usize = 0;
    while k < out.len() && !suggestion_ranks_before(&s, &out[k])
        invariant
            k <= out.len(),
            sv == suggestion_views(out@),
            x == suggestion_view(s),
            insert_position(sv, x, 0) == insert_position(sv, x, k as int),
        decreases out.len() - k,
    {
        k = k + 1;
    }
    out.insert(k, s);
    assert(suggestion_views(out@) =~= sv.insert(k as int, x));
    k
}

fn suggestion_ranks_before(a: &CommandAutocompleteSuggestion, b: &CommandAutocompleteSuggestion) -> (r: bool)
    ensures
        r == ranks_before(suggestion_view(*a), suggestion_view(*b)),
{
    if a.score != b.score {
        return a.score > b.score;
    }
    if a.usage_count != b.usage_count {
        return a.usage_count > b.usage_count;
    }
    if opt_chars_less(&b.last_used_at, &a.last_used_at) {
        return true;
    }
    if !opt_chars_equal(&a.last_used_at, &b.last_used_at) {
        return false;
    }
    let av = chars_of(a.command_line.as_str());
    let bv = chars_of(b.command_line.as_str());
    chars_less(&av, &bv)
}

fn opt_chars_less(x: &Option<String>, y: &Option<String>) -> (r: bool)
    ensures
        r == opt_lt(opt_chars(*x), opt_chars(*y)),
{
    match (x, y) {
        (None, Some(_)) => true,
        (Some(p), Some(q)) => {
            let pv = chars_of(p.as_str());
            let qv = chars_of(q.as_str());
            chars_less(&pv, &qv)
        },
        _ => false,
    }
}

fn opt_chars_equal(x: &Option<String>, y: &Option<String>) -> (r: bool)
    ensures
        r == (opt_chars(*x) == opt_chars(*y)),
{
    match (x, y) {
        (None, None) => true,
        (Some(p), Some(q)) => {
            let pv = chars_of(p.as_str());
            let qv = chars_of(q.as_str());
            crate::text::equal_chars(&pv, &qv)
        },
        _ => false,
    }
}

/// Ranks candidates for a query (see `autocomplete_of`). The examples,
/// arguments and options of the suggestions are left empty.
pub fn rank_candidates(candidates: Vec<CommandAutocompleteCandidate>, query: &str, limit: usize) -> (r: Vec<CommandAutocompleteSuggestion>)
    requires
        query@.len() <= MAX_QUERY_CHARS,
        forall|i: int| 0 <= i < candidates.len() ==> scorable(#[trigger] candidates@[i]),
    ensures
        suggestion_views(r@) == autocomplete_of(candidates@, query@, limit as nat),
        forall|i: int| 0 <= i < r.len() ==> (#[trigger] r@[i]).examples@.len() == 0
            && r@[i].arguments@.len() == 0 && r@[i].options@.len() == 0,
{
    let text = chars_of(query);
    let trimmed = trim_chars(&text);
    let q = lowercase(&trimmed);
    let mut out: Vec<CommandAutocompleteSuggestion> = Vec::new();
    if q.len() == 0 {
        assert(suggestion_views(out@) =~= seq![]);
        return out;
    }
    assert(trim(query@).len() <= query@.len()) by {
        lemma_trim_len(query@);
    }
    let ghost cands = candidates@;
    let mut rest = candidates;
    let mut taken: Vec<CommandAutocompleteCandidate> = Vec::new();
    assert(cands.take(0) =~= seq![]);
    assert(suggestion_views(out@) =~= rank_order(suggestions_for(cands.take(0), q@)));
    let mut i: usize = 0;
    let n = rest.len();
    while rest.len() > 0
        invariant
            q@ == normalized_query(query@),
            q.len() <= MAX_QUERY_CHARS,
            i + rest.len() == n,
            n == cands.len(),
            rest@ == cands.skip(i as int),
            forall|j: int| 0 <= j < cands.len() ==> scorable(#[trigger] cands[j]),
            suggestion_views(out@) == rank_order(suggestions_for(cands.take(i as int), q@)),
            forall|j: int| 0 <= j < out.len() ==> (#[trigger] out@[j]).examples@.len() == 0
                && out@[j].arguments@.len() == 0 && out@[j].options@.len() == 0,
        decreases rest.len(),
    {
        let c = rest.remove(0);
        assert(c == cands[i as int]);
        assert(rest@ =~= cands.skip(i + 1));
        assert(cands.take(i + 1).drop_last() =~= cands.take(i as int));
        let ghost old_out = out@;
        let ghost prev = suggestions_for(cands.take(i as int), q@);
        assert(cands.take(i + 1).last() == c);
        proof {
            match suggestion_for(c, q@) {
                Some(v) => {
                    assert(prev.push(v).drop_last() =~= prev);
                    assert(suggestions_for(cands.take(i + 1), q@) == prev.push(v));
                },
                None => {
                    assert(suggestions_for(cands.take(i + 1), q@) == prev);
                },
            }
        }
        match score_candidate(c, &q) {
            Some(s) => {
                let k = insert_ranked(&mut out, s);
                assert forall|j: int| 0 <= j < out.len() implies (#[trigger] out@[j]).examples@.len() == 0
                    && out@[j].arguments@.len() == 0 && out@[j].options@.len() == 0 by {
                    if j < k {
                        assert(out@[j] == old_out[j]);
                    } else if j > k {
                        assert(out@[j] == old_out[j - 1]);
                    }
                }
            },
            None => {},
        }
        i = i + 1;
    }
    assert(cands.take(n as int) =~= cands);
    let cap: usize = if limit < 1 {
        1
    } else if limit > 20 {
        20
    } else {
        limit
    };
    if out.len() > cap {
        out.truncate(cap);
        assert(suggestion_views(out@) =~= rank_order(suggestions_for(cands, q@)).take(cap as int));
    }
    out
}

pub proof fn lemma_trim_len(s: Seq<char>)
    ensures
        trim(s).len() <= s.len(),
{
    lemma_trim_start_len(s);
    lemma_trim_end_len(crate::text::trim_start(s));
}

proof fn lemma_trim_start_len(s: Seq<char>)
    ensures
        crate::text::trim_start(s).len() <= s.len(),
    decreases s.len(),
{
    if s.len() > 0 && is_ws(s[0]) {
        lemma_trim_start_len(s.drop_first());
    }
}

proof fn lemma_trim_end_len(s: Seq<char>)
    ensures
        crate::text::trim_end(s).len() <= s.len(),
    decreases s.len(),
{
    if s.len() > 0 && is_ws(s.last()) {
        lemma_trim_end_len(s.drop_last());
    }
}

/// The icon shown for a command: by its first word, in ASCII lower case.
pub open spec fn icon_of(command_line: Seq<char>) -> Seq<char> {
    let w = words(command_line);
    let first = if w.len() > 0 {
        lower(w[0])
    } else {
        seq![]
    };
    if first == "docker"@ {
        "bi-box-seam"@
    } else if first == "git"@ {
        "bi-git"@
    } else if first == "cargo"@ {
        "bi-box"@
    } else if first == "pnpm"@ || first == "npm"@ || first == "node"@ {
        "bi-node-plus"@
    } else {
        "bi-terminal"@
    }
}

pub fn icon_for_command(command_line: &str) -> (r: String)
    ensures
        r@ == icon_of(command_line@),
{
    let text = chars_of(command_line);
    let w = split_whitespace(&text);
    let first: Vec<char> = if w.len() > 0 {
        assert(seqs_of(w@)[0] == w@[0]@);
        lowercase(&w[0])
    } else {
        Vec::new()
    };
    if crate::text::equals_str(&first, "docker") {
        owned("bi-box-seam")
    } else if crate::text::equals_str(&first, "git") {
        owned("bi-git")
    } else if crate::text::equals_str(&first, "cargo") {
        owned("bi-box")
    } else if crate::text::equals_str(&first, "pnpm") || crate::text::equals_str(&first, "npm")
        || crate::text::equals_str(&first, "node") {
        owned("bi-node-plus")
    } else {
        owned("bi-terminal")
    }
}

} // verus!
