//! The flat `KEY=VALUE` env-file format: parsing (`parse_env_file`) and the
//! `server.env` rendering that the bootstrap persists.
use vstd::prelude::*;
use crate::env_map::{entry_view, pairs_view, has_key, keys_unique, lemma_pairs_to_map_insert_at, lemma_pairs_to_map_push, pairs_to_map, EnvMap};
use crate::text::{is_trimmed, is_white_space, lemma_trim_of_trimmed, lemma_trim_is_trimmed, is_first_idx, is_end_idx, first_idx, end_idx, lemma_first_idx_is, lemma_first_idx_exists, lemma_end_idx_exists, not_white_space, trim_start_spec, chars_lt, lemma_chars_lt_irreflexive, lemma_chars_lt_total, lemma_chars_lt_transitive, str_lt, find_char, find_spec, lemma_find_at, lemma_find_none, trim, trim_spec};

verus! {

broadcast use vstd::seq::group_seq_axioms, vstd::map::group_map_axioms;

/// The lines of `s`, split at each `'\n'`. A trailing newline yields a final
/// empty line, which the parser skips like any blank line (so the result is
/// the same as with `str::lines`, whose `'\r'` stripping `trim` subsumes).
pub open spec fn split_lines(s: Seq<char>) -> Seq<Seq<char>>
    decreases s.len(),
{
    match find_spec(s, '\n') {
        Some(i) => seq![s.subrange(0, i)] + split_lines(s.subrange(i + 1, s.len() as int)),
        None => seq![s],
    }
}

/// The entry that one line contributes: none for a blank line, a line whose
/// trimmed text starts with `#`, a line without `=` or one that starts with
/// `=`; otherwise the trimmed text before the first `=` and the trimmed text
/// after it.
pub open spec fn line_entry(line: Seq<char>) -> Option<(Seq<char>, Seq<char>)> {
    let t = trim_spec(line);
    if t.len() == 0 || t[0] == '#' {
        None
    } else {
        match find_spec(t, '=') {
            None => None,
            Some(eq) => if eq == 0 {
                None
            } else {
                Some((trim_spec(t.subrange(0, eq)), trim_spec(t.subrange(eq + 1, t.len() as int))))
            },
        }
    }
}

/// The map that a sequence of lines denotes: each entry in turn, a later
/// entry replacing an earlier one with the same key.
pub open spec fn env_of_lines(lines: Seq<Seq<char>>) -> Map<Seq<char>, Seq<char>>
    decreases lines.len(),
{
    if lines.len() == 0 {
        Map::empty()
    } else {
        let m = env_of_lines(lines.drop_last());
        match line_entry(lines.last()) {
            Some(kv) => m.insert(kv.0, kv.1),
            None => m,
        }
    }
}

/// What `parse_env_file` returns for `content`.
pub open spec fn parse_env_spec(content: Seq<char>) -> Map<Seq<char>, Seq<char>> {
    env_of_lines(split_lines(content))
}

proof fn lemma_split_at_newline(s: Seq<char>, start: int, i: int)
    requires
        0 <= start <= i < s.len(),
        s[i] == '\n',
        forall|j: int| start <= j < i ==> s[j] != '\n',
    ensures
        split_lines(s.subrange(start, s.len() as int)) == seq![s.subrange(start, i)] + split_lines(
            s.subrange(i + 1, s.len() as int),
        ),
{
    let u = s.subrange(start, s.len() as int);
    assert forall|j: int| 0 <= j < i - start implies u[j] != '\n' by {
        assert(u[j] == s[j + start]);
    }
    lemma_find_at(u, '\n', i - start);
    assert(u.subrange(0, i - start) =~= s.subrange(start, i));
    assert(u.subrange(i - start + 1, u.len() as int) =~= s.subrange(i + 1, s.len() as int));
}

proof fn lemma_split_last(s: Seq<char>, start: int)
    requires
        0 <= start <= s.len(),
        forall|j: int| start <= j < s.len() ==> s[j] != '\n',
    ensures
        split_lines(s.subrange(start, s.len() as int)) == seq![s.subrange(start, s.len() as int)],
{
    let u = s.subrange(start, s.len() as int);
    assert forall|j: int| 0 <= j < u.len() implies u[j] != '\n' by {
        assert(u[j] == s[j + start]);
    }
    lemma_find_none(u, '\n');
}

/// Adds the entry of one line to `env`.
fn add_line(env: &mut EnvMap, line: &str)
    requires
        old(env).wf(),
    ensures
        final(env).wf(),
        final(env)@ == match line_entry(line@) {
            Some(kv) => old(env)@.insert(kv.0, kv.1),
            None => old(env)@,
        },
{
    let t = trim(line);
    let n = t.unicode_len();
    if n == 0 {
        return;
    }
    if t.get_char(0) == '#' {
        return;
    }
    match find_char(t, '=') {
        None => {},
        Some(eq) => {
            if eq != 0 {
                let key = trim(t.substring_char(0, eq)).to_owned();
                let value = trim(t.substring_char(eq + 1, n)).to_owned();
                env.insert(key, value);
            }
        },
    }
}

/// Parses a flat `KEY=VALUE` env file. Blank lines and lines starting with
/// `#` are skipped, as are lines without `=` and lines starting with `=`;
/// keys and values are trimmed, and a later line wins over an earlier one.
pub fn parse_env_file(content: &str) -> (env: EnvMap)
    ensures
        env.wf(),
        env@ == parse_env_spec(content@),
{
    let n = content.unicode_len();
    let mut env = EnvMap::new();
    let mut start: usize = 0;
    let mut i: usize = 0;
    let ghost mut done: Seq<Seq<char>> = seq![];
    assert(content@.subrange(0, n as int) =~= content@);
    assert(done + split_lines(content@) =~= split_lines(content@));
    while i < n
        invariant
            n == content@.len(),
            start <= i <= n,
            env.wf(),
            env@ == env_of_lines(done),
            split_lines(content@) == done + split_lines(content@.subrange(start as int, n as int)),
            forall|j: int| start <= j < i ==> content@[j] != '\n',
        decreases n - i,
    {
        if content.get_char(i) == '\n' {
            let line = content.substring_char(start, i);
            proof {
                lemma_split_at_newline(content@, start as int, i as int);
                let nd = done.push(line@);
                assert(nd.drop_last() =~= done);
                assert(split_lines(content@) =~= nd + split_lines(
                    content@.subrange(i + 1, n as int),
                ));
            }
            add_line(&mut env, line);
            proof {
                done = done.push(line@);
            }
            start = i + 1;
        }
        i = i + 1;
    }
    let line = content.substring_char(start, n);
    proof {
        lemma_split_last(content@, start as int);
        let nd = done.push(line@);
        assert(nd.drop_last() =~= done);
        assert(split_lines(content@) =~= nd);
    }
    add_line(&mut env, line);
    env
}

// ---------------------------------------------------------------------------
// Rendering `server.env`
// ---------------------------------------------------------------------------

/// The comment line that opens a persisted `server.env`.
pub open spec fn env_file_header() -> Seq<char> {
    "# Auto-generated by OmniRoute bootstrap"@
}

/// `KEY=VALUE` for one entry.
pub open spec fn entry_text(kv: (Seq<char>, Seq<char>)) -> Seq<char> {
    kv.0 + seq!['='] + kv.1
}

/// Each entry on a line of its own, each line ended by `'\n'`.
pub open spec fn entries_text(s: Seq<(Seq<char>, Seq<char>)>) -> Seq<char>
    decreases s.len(),
{
    if s.len() == 0 {
        seq![]
    } else {
        entry_text(s[0]) + seq!['\n'] + entries_text(s.drop_first())
    }
}

/// The file: the header line, an empty line, then the entries, each line
/// ended by `'\n'` (the header, `""`, the entries and a final `""`, joined
/// with `"\n"`).
pub open spec fn render_spec(s: Seq<(Seq<char>, Seq<char>)>) -> Seq<char> {
    env_file_header() + seq!['\n', '\n'] + entries_text(s)
}

/// The keys of `s` strictly increase.
pub open spec fn sorted_by_key(s: Seq<(Seq<char>, Seq<char>)>) -> bool {
    forall|i: int, j: int| 0 <= i < j < s.len() ==> chars_lt(#[trigger] s[i].0, #[trigger] s[j].0)
}

/// `text` is the rendering of `m`: its entries sorted by key.
pub open spec fn is_rendering_of(text: Seq<char>, m: Map<Seq<char>, Seq<char>>) -> bool {
    exists|s: Seq<(Seq<char>, Seq<char>)>|
        #![trigger render_spec(s)]
        sorted_by_key(s) && keys_unique(s) && pairs_to_map(s) == m && text == render_spec(s)
}

/// Rendering one more entry appends its line.
pub proof fn lemma_entries_text_push(s: Seq<(Seq<char>, Seq<char>)>, x: (Seq<char>, Seq<char>))
    ensures
        entries_text(s.push(x)) == entries_text(s) + entry_text(x) + seq!['\n'],
    decreases s.len(),
{
    if s.len() == 0 {
        assert(s.push(x).drop_first() =~= s);
        assert(entries_text(s.push(x)) =~= entry_text(x) + seq!['\n']);
    } else {
        lemma_entries_text_push(s.drop_first(), x);
        assert(s.push(x).drop_first() =~= s.drop_first().push(x));
        assert(entries_text(s.push(x)) =~= entries_text(s) + entry_text(x) + seq!['\n']);
    }
}

/// The entries of `env`, sorted by key.
fn sorted_entries(env: &EnvMap) -> (r: Vec<(String, String)>)
    requires
        env.wf(),
    ensures
        sorted_by_key(pairs_view(r@)),
        keys_unique(pairs_view(r@)),
        pairs_to_map(pairs_view(r@)) == env@,
{
    let entries = env.entries();
    let ghost src = env.pairs();
    let n = entries.len();
    let mut sorted: Vec<(String, String)> = Vec::new();
    let mut i: usize = 0;
    assert(src.take(0) =~= Seq::<(Seq<char>, Seq<char>)>::empty());
    assert(pairs_view(sorted@) =~= Seq::<
        (Seq<char>, Seq<char>),
    >::empty());
    while i < n
        invariant
            n == entries@.len(),
            src == env.pairs(),
            src == pairs_view(entries@),
            keys_unique(src),
            i <= n,
            sorted_by_key(pairs_view(sorted@)),
            keys_unique(pairs_view(sorted@)),
            pairs_to_map(pairs_view(sorted@)) == pairs_to_map(
                src.take(i as int),
            ),
            forall|k: Seq<char>|
                #[trigger] has_key(pairs_view(sorted@), k)
                    == has_key(src.take(i as int), k),
        decreases n - i,
    {
        let ghost sv = pairs_view(sorted@);
        let key = &entries[i].0;
        let mut p: usize = 0;
        while p < sorted.len() && str_lt(sorted[p].0.as_str(), key.as_str())
            invariant
                p <= sorted@.len(),
                sv == pairs_view(sorted@),
                forall|q: int| 0 <= q < p ==> chars_lt(#[trigger] sv[q].0, key@),
            decreases sorted@.len() - p,
        {
            p = p + 1;
        }
        let kv = (key.clone(), entries[i].1.clone());
        let ghost x = entry_view(kv);
        assert(x == src[i as int]);
        sorted.insert(p, kv);
        proof {
            let t = pairs_view(sorted@);
            assert(t =~= sv.insert(p as int, x));
            // the new key is fresh
            assert(!has_key(src.take(i as int), x.0)) by {
                if has_key(src.take(i as int), x.0) {
                    let j = choose|j: int| 0 <= j < i && #[trigger] src.take(i as int)[j].0 == x.0;
                    assert(src[j].0 == src[i as int].0);
                }
            }
            assert(!has_key(sv, x.0));
            lemma_pairs_to_map_insert_at(sv, p as int, x.0, x.1);
            assert(src.take(i + 1) =~= src.take(i as int).push(x));
            assert(keys_unique(src.take(i as int))) by {
                assert forall|a: int, b: int|
                    0 <= a < src.take(i as int).len() && 0 <= b < src.take(i as int).len() && a
                        != b implies #[trigger] src.take(i as int)[a].0
                    != #[trigger] src.take(i as int)[b].0 by {
                    assert(src[a].0 != src[b].0);
                }
            }
            lemma_pairs_to_map_push(src.take(i as int), x.0, x.1);
            // ordering around the insertion point
            if p < sv.len() {
                assert(!chars_lt(sv[p as int].0, x.0));
                assert(sv[p as int].0 != x.0) by {
                    assert(has_key(sv, sv[p as int].0));
                }
                lemma_chars_lt_total(sv[p as int].0, x.0);
            }
            assert forall|a: int, b: int| 0 <= a < b < t.len() implies chars_lt(
                #[trigger] t[a].0,
                #[trigger] t[b].0,
            ) by {
                if b < p {
                    assert(chars_lt(sv[a].0, sv[b].0));
                } else if b == p {
                    assert(chars_lt(sv[a].0, x.0));
                } else if a < p {
                    assert(chars_lt(sv[a].0, x.0));
                    assert(chars_lt(x.0, sv[p as int].0));
                    if b - 1 > p {
                        assert(chars_lt(sv[p as int].0, sv[b - 1].0));
                        lemma_chars_lt_transitive(x.0, sv[p as int].0, sv[b - 1].0);
                    }
                    lemma_chars_lt_transitive(sv[a].0, x.0, sv[b - 1].0);
                } else if a == p {
                    if b - 1 > p {
                        assert(chars_lt(sv[p as int].0, sv[b - 1].0));
                        lemma_chars_lt_transitive(x.0, sv[p as int].0, sv[b - 1].0);
                    }
                } else {
                    assert(chars_lt(sv[a - 1].0, sv[b - 1].0));
                }
            }
            assert forall|k: Seq<char>| #[trigger] has_key(t, k) == has_key(src.take(i + 1), k) by {
                assert(pairs_to_map(t).dom().contains(k) == has_key(t, k));
                assert(pairs_to_map(src.take(i + 1)).dom().contains(k) == has_key(
                    src.take(i + 1),
                    k,
                ));
            }
        }
        i = i + 1;
    }
    assert(src.take(n as int) =~= src);
    sorted
}

/// Renders the persisted `server.env`: the header comment, an empty line,
/// then one `KEY=VALUE` line per entry, sorted by key, each line ended by a
/// newline.
pub fn render_env_file(env: &EnvMap) -> (r: String)
    requires
        env.wf(),
    ensures
        is_rendering_of(r@, env@),
{
    let sorted = sorted_entries(env);
    let ghost sv = pairs_view(sorted@);
    let mut out = "# Auto-generated by OmniRoute bootstrap".to_owned();
    proof {
        reveal_strlit("\n\n");
    }
    out.append("\n\n");
    proof {
        reveal_strlit("=");
        reveal_strlit("\n");
        assert(sv.take(0) =~= Seq::<(Seq<char>, Seq<char>)>::empty());
        assert(out@ =~= render_spec(sv.take(0)));
    }
    let n = sorted.len();
    let mut j: usize = 0;
    while j < n
        invariant
            n == sorted@.len(),
            sv == pairs_view(sorted@),
            j <= n,
            out@ == render_spec(sv.take(j as int)),
            "="@ == seq!['='],
            "\n"@ == seq!['\n'],
        decreases n - j,
    {
        out.append(sorted[j].0.as_str());
        out.append("=");
        out.append(sorted[j].1.as_str());
        out.append("\n");
        proof {
            assert(sv.take(j + 1) =~= sv.take(j as int).push(sv[j as int]));
            lemma_entries_text_push(sv.take(j as int), sv[j as int]);
            assert(out@ =~= render_spec(sv.take(j + 1)));
        }
        j = j + 1;
    }
    assert(sv.take(n as int) =~= sv);
    assert(sorted_by_key(sv) && keys_unique(sv) && pairs_to_map(sv) == env@ && out@ == render_spec(sv));
    out
}

// ---------------------------------------------------------------------------
// What is persisted is read back
// ---------------------------------------------------------------------------

/// `c` does not occur in `s`.
pub open spec fn no_char(s: Seq<char>, c: char) -> bool {
    forall|i: int| 0 <= i < s.len() ==> s[i] != c
}

/// An entry that a `KEY=VALUE` line carries through a write and a read
/// unchanged: a non-empty trimmed key that neither starts with `#` nor holds
/// `=` or a newline, and a trimmed value without a newline.
pub open spec fn env_file_safe_entry(k: Seq<char>, v: Seq<char>) -> bool {
    &&& k.len() > 0
    &&& is_trimmed(k)
    &&& k[0] != '#'
    &&& no_char(k, '=')
    &&& no_char(k, '\n')
    &&& is_trimmed(v)
    &&& no_char(v, '\n')
}

/// Every entry of `m` is safe to persist.
pub open spec fn env_file_safe(m: Map<Seq<char>, Seq<char>>) -> bool {
    forall|k: Seq<char>| #[trigger] m.contains_key(k) ==> env_file_safe_entry(k, m[k])
}

proof fn lemma_split_concat(a: Seq<char>, b: Seq<char>)
    requires
        no_char(a, '\n'),
    ensures
        split_lines(a + seq!['\n'] + b) == seq![a] + split_lines(b),
{
    let u = a + seq!['\n'] + b;
    lemma_find_at(u, '\n', a.len() as int);
    assert(u.subrange(0, a.len() as int) =~= a);
    assert(u.subrange(a.len() + 1int, u.len() as int) =~= b);
}

proof fn lemma_split_lines_empty()
    ensures
        split_lines(Seq::<char>::empty()) == seq![Seq::<char>::empty()],
{
    lemma_find_none(Seq::<char>::empty(), '\n');
}

proof fn lemma_entry_text_no_newline(kv: (Seq<char>, Seq<char>))
    requires
        env_file_safe_entry(kv.0, kv.1),
    ensures
        no_char(entry_text(kv), '\n'),
{
    let t = entry_text(kv);
    assert forall|i: int| 0 <= i < t.len() implies t[i] != '\n' by {
        if i < kv.0.len() {
            assert(t[i] == kv.0[i]);
        } else if i > kv.0.len() {
            assert(t[i] == kv.1[i - kv.0.len() - 1]);
        }
    }
}

/// The texts of the entries of `s`.
pub open spec fn entry_texts(s: Seq<(Seq<char>, Seq<char>)>) -> Seq<Seq<char>> {
    s.map_values(|kv: (Seq<char>, Seq<char>)| entry_text(kv))
}

proof fn lemma_split_entries(s: Seq<(Seq<char>, Seq<char>)>)
    requires
        forall|i: int| 0 <= i < s.len() ==> env_file_safe_entry(#[trigger] s[i].0, s[i].1),
    ensures
        split_lines(entries_text(s)) == entry_texts(s).push(Seq::<char>::empty()),
    decreases s.len(),
{
    if s.len() == 0 {
        lemma_split_lines_empty();
        assert(entry_texts(s).push(Seq::<char>::empty()) =~= seq![Seq::<char>::empty()]);
    } else {
        let rest = s.drop_first();
        assert forall|i: int| 0 <= i < rest.len() implies env_file_safe_entry(
            #[trigger] rest[i].0,
            rest[i].1,
        ) by {
            assert(rest[i] == s[i + 1]);
        }
        lemma_split_entries(rest);
        assert(env_file_safe_entry(s[0].0, s[0].1));
        lemma_entry_text_no_newline(s[0]);
        lemma_split_concat(entry_text(s[0]), entries_text(rest));
        assert(entry_texts(s).push(Seq::<char>::empty()) =~= seq![entry_text(s[0])] + entry_texts(
            rest,
        ).push(Seq::<char>::empty()));
    }
}

proof fn lemma_line_entry_of_text(kv: (Seq<char>, Seq<char>))
    requires
        env_file_safe_entry(kv.0, kv.1),
    ensures
        line_entry(entry_text(kv)) == Some(kv),
{
    let k = kv.0;
    let v = kv.1;
    let t = entry_text(kv);
    assert(t[0] == k[0]);
    assert(!is_white_space('='));
    if v.len() > 0 {
        assert(t.last() == v.last());
    } else {
        assert(t.last() == '=');
    }
    lemma_trim_of_trimmed(t);
    assert forall|j: int| 0 <= j < k.len() implies t[j] != '=' by {
        assert(t[j] == k[j]);
    }
    lemma_find_at(t, '=', k.len() as int);
    assert(t.subrange(0, k.len() as int) =~= k);
    assert(t.subrange(k.len() + 1int, t.len() as int) =~= v);
    lemma_trim_of_trimmed(k);
    lemma_trim_of_trimmed(v);
}

proof fn lemma_line_entry_empty()
    ensures
        line_entry(Seq::<char>::empty()) is None,
{
    lemma_trim_of_trimmed(Seq::<char>::empty());
}

proof fn lemma_header_facts()
    ensures
        no_char(env_file_header(), '\n'),
        line_entry(env_file_header()) is None,
{
    reveal_strlit("# Auto-generated by OmniRoute bootstrap");
    let h = env_file_header();
    assert(h[0] == '#');
    assert(h.last() == 'p');
    lemma_trim_of_trimmed(h);
}

proof fn lemma_env_of_lines_entries(p: Seq<Seq<char>>, s: Seq<(Seq<char>, Seq<char>)>)
    requires
        env_of_lines(p) == Map::<Seq<char>, Seq<char>>::empty(),
        keys_unique(s),
        forall|i: int| 0 <= i < s.len() ==> env_file_safe_entry(#[trigger] s[i].0, s[i].1),
    ensures
        env_of_lines(p + entry_texts(s)) == pairs_to_map(s),
    decreases s.len(),
{
    if s.len() == 0 {
        assert(p + entry_texts(s) =~= p);
        assert(pairs_to_map(s) =~= Map::<Seq<char>, Seq<char>>::empty());
    } else {
        let init = s.drop_last();
        let x = s.last();
        assert(keys_unique(init)) by {
            assert forall|a: int, b: int|
                0 <= a < init.len() && 0 <= b < init.len() && a != b implies #[trigger] init[a].0
                != #[trigger] init[b].0 by {
                assert(s[a].0 != s[b].0);
            }
        }
        assert forall|i: int| 0 <= i < init.len() implies env_file_safe_entry(
            #[trigger] init[i].0,
            init[i].1,
        ) by {
            assert(init[i] == s[i]);
        }
        lemma_env_of_lines_entries(p, init);
        assert(!has_key(init, x.0)) by {
            if has_key(init, x.0) {
                let j = choose|j: int| 0 <= j < init.len() && #[trigger] init[j].0 == x.0;
                assert(s[j].0 != s[s.len() - 1].0);
            }
        }
        lemma_pairs_to_map_push(init, x.0, x.1);
        assert(init.push(x) =~= s);
        let l = p + entry_texts(s);
        assert(l.drop_last() =~= p + entry_texts(init));
        assert(l.last() == entry_text(x));
        assert(env_file_safe_entry(s[s.len() - 1].0, s[s.len() - 1].1));
        lemma_line_entry_of_text(x);
    }
}

/// A rendering of entries that are safe to persist parses back to them.
pub proof fn lemma_parse_render(s: Seq<(Seq<char>, Seq<char>)>)
    requires
        keys_unique(s),
        forall|i: int| 0 <= i < s.len() ==> env_file_safe_entry(#[trigger] s[i].0, s[i].1),
    ensures
        parse_env_spec(render_spec(s)) == pairs_to_map(s),
{
    let h = env_file_header();
    let e = entries_text(s);
    lemma_header_facts();
    assert(render_spec(s) =~= h + seq!['\n'] + (Seq::<char>::empty() + seq!['\n'] + e));
    lemma_split_concat(h, Seq::<char>::empty() + seq!['\n'] + e);
    lemma_split_concat(Seq::<char>::empty(), e);
    lemma_split_entries(s);
    let pre = seq![h, Seq::<char>::empty()];
    let lines = split_lines(render_spec(s));
    assert(lines =~= (pre + entry_texts(s)).push(Seq::<char>::empty()));
    lemma_line_entry_empty();
    assert(lines.drop_last() =~= pre + entry_texts(s));
    assert(pre.drop_last() =~= seq![h]);
    assert(seq![h].drop_last() =~= Seq::<Seq<char>>::empty());
    assert(env_of_lines(Seq::<Seq<char>>::empty()) == Map::<Seq<char>, Seq<char>>::empty());
    assert(seq![h].last() == h);
    assert(env_of_lines(seq![h]) == Map::<Seq<char>, Seq<char>>::empty());
    assert(pre.last() == Seq::<char>::empty());
    assert(env_of_lines(pre) == Map::<Seq<char>, Seq<char>>::empty());
    lemma_env_of_lines_entries(pre, s);
}

/// What is written to `server.env` is what a later start reads back: for a
/// map whose entries are safe to persist (as every map that
/// `parse_env_file` returns is, see `lemma_parse_is_safe`), parsing its
/// rendering gives the map itself.
pub proof fn lemma_env_file_roundtrip(m: Map<Seq<char>, Seq<char>>, text: Seq<char>)
    requires
        env_file_safe(m),
        is_rendering_of(text, m),
    ensures
        parse_env_spec(text) == m,
{
    let s = choose|s: Seq<(Seq<char>, Seq<char>)>|
        #![trigger render_spec(s)]
        sorted_by_key(s) && keys_unique(s) && pairs_to_map(s) == m && text == render_spec(s);
    assert forall|i: int| 0 <= i < s.len() implies env_file_safe_entry(#[trigger] s[i].0, s[i].1) by {
        crate::env_map::lemma_pairs_to_map_at(s, i);
        assert(m.contains_key(s[i].0));
    }
    lemma_parse_render(s);
}

proof fn lemma_subrange_no_char(s: Seq<char>, c: char, a: int, b: int)
    requires
        no_char(s, c),
        0 <= a <= b <= s.len(),
    ensures
        no_char(s.subrange(a, b), c),
{
    assert forall|i: int| 0 <= i < b - a implies s.subrange(a, b)[i] != c by {
        assert(s.subrange(a, b)[i] == s[a + i]);
    }
}

proof fn lemma_trim_no_char(s: Seq<char>, c: char)
    requires
        no_char(s, c),
    ensures
        no_char(trim_spec(s), c),
{
    let p = not_white_space();
    lemma_first_idx_exists(s, p);
    let a = first_idx(s, p);
    lemma_subrange_no_char(s, c, a, s.len() as int);
    let t = trim_start_spec(s);
    lemma_end_idx_exists(t, p);
    lemma_subrange_no_char(t, c, 0, end_idx(t, p));
}

/// The trim of a string whose first character is not white space starts
/// with that character.
proof fn lemma_trim_keeps_first(s: Seq<char>)
    requires
        s.len() > 0,
        !is_white_space(s[0]),
    ensures
        trim_spec(s).len() > 0,
        trim_spec(s)[0] == s[0],
{
    let p = not_white_space();
    assert(is_first_idx(s, p, 0));
    lemma_first_idx_is(s, p, 0);
    assert(trim_start_spec(s) =~= s);
    lemma_end_idx_exists(s, p);
    let e = end_idx(s, p);
    if e == 0 {
        assert(!p(s[0]));
    }
}

proof fn lemma_line_entry_safe(line: Seq<char>)
    requires
        no_char(line, '\n'),
    ensures
        line_entry(line) matches Some(kv) ==> env_file_safe_entry(kv.0, kv.1),
{
    let t = trim_spec(line);
    lemma_trim_no_char(line, '\n');
    lemma_trim_is_trimmed(line);
    if t.len() > 0 && t[0] != '#' {
        if let Some(eq) = find_spec(t, '=') {
            if eq != 0 {
                lemma_first_idx_exists(t, crate::text::equals_char('='));
                let u = t.subrange(0, eq);
                let w = t.subrange(eq + 1, t.len() as int);
                assert(u[0] == t[0]);
                lemma_trim_keeps_first(u);
                assert forall|i: int| 0 <= i < u.len() implies u[i] != '=' by {
                    assert(u[i] == t[i]);
                }
                lemma_subrange_no_char(t, '\n', 0, eq);
                lemma_subrange_no_char(t, '\n', eq + 1, t.len() as int);
                lemma_trim_no_char(u, '=');
                lemma_trim_no_char(u, '\n');
                lemma_trim_no_char(w, '\n');
                lemma_trim_is_trimmed(u);
                lemma_trim_is_trimmed(w);
            }
        }
    }
}

proof fn lemma_split_lines_no_newline(s: Seq<char>)
    ensures
        forall|i: int| 0 <= i < split_lines(s).len() ==> no_char(#[trigger] split_lines(s)[i], '\n'),
    decreases s.len(),
{
    lemma_first_idx_exists(s, crate::text::equals_char('\n'));
    match find_spec(s, '\n') {
        Some(i) => {
            let rest = s.subrange(i + 1, s.len() as int);
            lemma_split_lines_no_newline(rest);
            let first = s.subrange(0, i);
            assert forall|j: int| 0 <= j < first.len() implies first[j] != '\n' by {
                assert(first[j] == s[j]);
            }
            assert forall|j: int| 0 <= j < split_lines(s).len() implies no_char(
                #[trigger] split_lines(s)[j],
                '\n',
            ) by {
                if j > 0 {
                    assert(split_lines(s)[j] == split_lines(rest)[j - 1]);
                }
            }
        },
        None => {},
    }
}

proof fn lemma_env_of_lines_safe(lines: Seq<Seq<char>>)
    requires
        forall|i: int| 0 <= i < lines.len() ==> no_char(#[trigger] lines[i], '\n'),
    ensures
        env_file_safe(env_of_lines(lines)),
    decreases lines.len(),
{
    if lines.len() > 0 {
        let init = lines.drop_last();
        assert forall|i: int| 0 <= i < init.len() implies no_char(#[trigger] init[i], '\n') by {
            assert(init[i] == lines[i]);
        }
        lemma_env_of_lines_safe(init);
        assert(no_char(lines[lines.len() - 1], '\n'));
        lemma_line_entry_safe(lines.last());
    }
}

/// Every map that `parse_env_file` returns is safe to persist.
pub proof fn lemma_parse_is_safe(content: Seq<char>)
    ensures
        env_file_safe(parse_env_spec(content)),
{
    lemma_split_lines_no_newline(content);
    lemma_env_of_lines_safe(split_lines(content));
}

} // verus!
