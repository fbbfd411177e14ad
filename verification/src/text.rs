//! Character-level text helpers shared by the parsers and renderers of the
//! library: Unicode white space, trimming, searching, comparison and decimal
//! formatting, each with a specification over `Seq<char>`.
use vstd::prelude::*;

verus! {

broadcast use vstd::seq::group_seq_axioms;

// ---------------------------------------------------------------------------
// White space
// ---------------------------------------------------------------------------

/// The Unicode `White_Space` property, the set of characters that `str::trim`
/// and `char::is_whitespace` treat as white space.
pub open spec fn is_white_space(c: char) -> bool {
    ||| '\u{09}' <= c && c <= '\u{0D}'
    ||| c == ' '
    ||| c == '\u{85}'
    ||| c == '\u{A0}'
    ||| c == '\u{1680}'
    ||| '\u{2000}' <= c && c <= '\u{200A}'
    ||| c == '\u{2028}'
    ||| c == '\u{2029}'
    ||| c == '\u{202F}'
    ||| c == '\u{205F}'
    ||| c == '\u{3000}'
}

/// Whether `c` is Unicode white space.
pub fn is_whitespace(c: char) -> (r: bool)
    ensures
        r == is_white_space(c),
{
    ('\u{09}' <= c && c <= '\u{0D}') || c == ' ' || c == '\u{85}' || c == '\u{A0}' || c
        == '\u{1680}' || ('\u{2000}' <= c && c <= '\u{200A}') || c == '\u{2028}' || c
        == '\u{2029}' || c == '\u{202F}' || c == '\u{205F}' || c == '\u{3000}'
}

/// The property of not being white space.
pub open spec fn not_white_space() -> spec_fn(char) -> bool {
    |c: char| !is_white_space(c)
}

/// The property of being the character `ch`.
pub open spec fn equals_char(ch: char) -> spec_fn(char) -> bool {
    |c: char| c == ch
}

// ---------------------------------------------------------------------------
// First / last positions of characters with a property
// ---------------------------------------------------------------------------

/// `i` is the position of the first character of `s` satisfying `p`, or
/// `s.len()` when there is none.
pub open spec fn is_first_idx(s: Seq<char>, p: spec_fn(char) -> bool, i: int) -> bool {
    &&& 0 <= i <= s.len()
    &&& i < s.len() ==> p(s[i])
    &&& forall|j: int| 0 <= j < i ==> !p(#[trigger] s[j])
}

/// The position of the first character of `s` satisfying `p` (`s.len()`
/// when none does).
pub open spec fn first_idx(s: Seq<char>, p: spec_fn(char) -> bool) -> int {
    choose|i: int| is_first_idx(s, p, i)
}

/// `e` is one past the last character of `s` satisfying `p`, or `0` when
/// there is none.
pub open spec fn is_end_idx(s: Seq<char>, p: spec_fn(char) -> bool, e: int) -> bool {
    &&& 0 <= e <= s.len()
    &&& e > 0 ==> p(s[e - 1])
    &&& forall|j: int| e <= j < s.len() ==> !p(#[trigger] s[j])
}

/// One past the last character of `s` satisfying `p` (`0` when none does).
pub open spec fn end_idx(s: Seq<char>, p: spec_fn(char) -> bool) -> int {
    choose|e: int| is_end_idx(s, p, e)
}

/// `first_idx` is a first position.
pub proof fn lemma_first_idx_exists(s: Seq<char>, p: spec_fn(char) -> bool)
    ensures
        is_first_idx(s, p, first_idx(s, p)),
    decreases s.len(),
{
    if s.len() == 0 {
        assert(is_first_idx(s, p, 0));
    } else {
        let t = s.drop_last();
        lemma_first_idx_exists(t, p);
        assert(forall|j: int| 0 <= j < t.len() ==> #[trigger] s[j] == t[j]);
        let k = first_idx(t, p);
        if k < t.len() {
            assert(is_first_idx(s, p, k));
        } else if p(s.last()) {
            assert(is_first_idx(s, p, t.len() as int));
        } else {
            assert(is_first_idx(s, p, s.len() as int));
        }
    }
}

/// The first position is unique.
pub proof fn lemma_first_idx_is(s: Seq<char>, p: spec_fn(char) -> bool, k: int)
    requires
        is_first_idx(s, p, k),
    ensures
        first_idx(s, p) == k,
{
    lemma_first_idx_exists(s, p);
    let f = first_idx(s, p);
    if f < k {
        assert(!p(s[f]));
    } else if k < f {
        assert(!p(s[k]));
    }
}

/// `end_idx` is an end position.
pub proof fn lemma_end_idx_exists(s: Seq<char>, p: spec_fn(char) -> bool)
    ensures
        is_end_idx(s, p, end_idx(s, p)),
    decreases s.len(),
{
    if s.len() == 0 {
        assert(is_end_idx(s, p, 0));
    } else {
        let t = s.drop_first();
        lemma_end_idx_exists(t, p);
        assert(forall|j: int| 1 <= j < s.len() ==> #[trigger] s[j] == t[j - 1]);
        let k = end_idx(t, p);
        if k > 0 {
            assert(is_end_idx(s, p, k + 1));
        } else if p(s[0]) {
            assert(is_end_idx(s, p, 1));
        } else {
            assert forall|j: int| 0 <= j < s.len() implies !p(#[trigger] s[j]) by {
                if j > 0 {
                    assert(s[j] == t[j - 1]);
                }
            }
            assert(is_end_idx(s, p, 0));
        }
    }
}

/// The end position is unique.
pub proof fn lemma_end_idx_is(s: Seq<char>, p: spec_fn(char) -> bool, k: int)
    requires
        is_end_idx(s, p, k),
    ensures
        end_idx(s, p) == k,
{
    lemma_end_idx_exists(s, p);
    let e = end_idx(s, p);
    if e < k {
        assert(!p(s[k - 1]));
    } else if k < e {
        assert(!p(s[e - 1]));
    }
}

// ---------------------------------------------------------------------------
// Trimming
// ---------------------------------------------------------------------------

/// `s` without its leading white space.
pub open spec fn trim_start_spec(s: Seq<char>) -> Seq<char> {
    s.subrange(first_idx(s, not_white_space()), s.len() as int)
}

/// `s` without its trailing white space.
pub open spec fn trim_end_spec(s: Seq<char>) -> Seq<char> {
    s.subrange(0, end_idx(s, not_white_space()))
}

/// `s` without leading and trailing white space, as `str::trim` returns it.
pub open spec fn trim_spec(s: Seq<char>) -> Seq<char> {
    trim_end_spec(trim_start_spec(s))
}

/// Neither the first nor the last character of `s` is white space.
pub open spec fn is_trimmed(s: Seq<char>) -> bool {
    s.len() > 0 ==> (!is_white_space(s[0]) && !is_white_space(s.last()))
}

/// A string that is already trimmed is its own trim.
pub proof fn lemma_trim_of_trimmed(s: Seq<char>)
    requires
        is_trimmed(s),
    ensures
        trim_spec(s) == s,
{
    if s.len() == 0 {
        lemma_first_idx_exists(s, not_white_space());
        assert(trim_start_spec(s) =~= s);
        lemma_end_idx_exists(s, not_white_space());
        assert(trim_end_spec(s) =~= s);
    } else {
        assert(is_first_idx(s, not_white_space(), 0));
        lemma_first_idx_is(s, not_white_space(), 0);
        assert(trim_start_spec(s) =~= s);
        assert(is_end_idx(s, not_white_space(), s.len() as int));
        lemma_end_idx_is(s, not_white_space(), s.len() as int);
        assert(trim_end_spec(s) =~= s);
    }
}

/// The trim of any string is trimmed.
pub proof fn lemma_trim_is_trimmed(s: Seq<char>)
    ensures
        is_trimmed(trim_spec(s)),
{
    let p = not_white_space();
    lemma_first_idx_exists(s, p);
    let a = first_idx(s, p);
    let t = trim_start_spec(s);
    lemma_end_idx_exists(t, p);
    let e = end_idx(t, p);
    if e > 0 {
        assert(a < s.len());
        assert(t[0] == s[a]);
    }
}

/// Removes leading and trailing Unicode white space, as `str::trim` does.
pub fn trim(s: &str) -> (r: &str)
    ensures
        r@ == trim_spec(s@),
{
    let n = s.unicode_len();
    let ghost p = not_white_space();
    let mut a: usize = 0;
    while a < n && is_whitespace(s.get_char(a))
        invariant
            n == s@.len(),
            a <= n,
            p == not_white_space(),
            forall|j: int| 0 <= j < a ==> !p(#[trigger] s@[j]),
        decreases n - a,
    {
        a = a + 1;
    }
    proof {
        assert(is_first_idx(s@, p, a as int));
        lemma_first_idx_is(s@, p, a as int);
    }
    let mut e: usize = n;
    while e > a && is_whitespace(s.get_char(e - 1))
        invariant
            n == s@.len(),
            a <= e <= n,
            p == not_white_space(),
            forall|j: int| e <= j < n ==> !p(#[trigger] s@[j]),
        decreases e - a,
    {
        e = e - 1;
    }
    proof {
        let t = trim_start_spec(s@);
        assert(t =~= s@.subrange(a as int, n as int));
        assert(is_end_idx(t, p, e - a)) by {
            assert forall|j: int| e - a <= j < t.len() implies !p(#[trigger] t[j]) by {
                assert(t[j] == s@[j + a]);
            }
            if e - a > 0 {
                assert(t[e - a - 1] == s@[e - 1]);
            }
        }
        lemma_end_idx_is(t, p, e - a);
        assert(trim_spec(s@) =~= s@.subrange(a as int, e as int));
    }
    s.substring_char(a, e)
}

/// The view of an optional string slice.
pub open spec fn opt_str_view(o: Option<&str>) -> Option<Seq<char>> {
    match o {
        Some(s) => Some(s@),
        None => None,
    }
}

/// The view of an optional string.
pub open spec fn opt_string_view(o: Option<String>) -> Option<Seq<char>> {
    match o {
        Some(s) => Some(s@),
        None => None,
    }
}

/// The trimmed text of `o`, unless it is absent or blank.
pub open spec fn nonblank_spec(o: Option<Seq<char>>) -> Option<Seq<char>> {
    match o {
        Some(s) => if trim_spec(s).len() > 0 {
            Some(trim_spec(s))
        } else {
            None
        },
        None => None,
    }
}

/// The trimmed text of `o`, unless it is absent or blank (how the shell
/// reads optional settings from the environment).
pub fn nonblank(o: Option<&str>) -> (r: Option<&str>)
    ensures
        opt_str_view(r) == nonblank_spec(opt_str_view(o)),
{
    match o {
        Some(s) => {
            let t = trim(s);
            if t.unicode_len() > 0 {
                Some(t)
            } else {
                None
            }
        },
        None => None,
    }
}

// ---------------------------------------------------------------------------
// Searching
// ---------------------------------------------------------------------------

/// Position of the first occurrence of `c` in `s`, as `str::find` with a
/// `char` pattern reports it (counted in characters).
pub open spec fn find_spec(s: Seq<char>, c: char) -> Option<int> {
    let i = first_idx(s, equals_char(c));
    if 0 <= i < s.len() {
        Some(i)
    } else {
        None
    }
}

/// A first occurrence of `c` at `k` is what `find_spec` gives.
pub proof fn lemma_find_at(s: Seq<char>, c: char, k: int)
    requires
        0 <= k < s.len(),
        s[k] == c,
        forall|j: int| 0 <= j < k ==> s[j] != c,
    ensures
        find_spec(s, c) == Some(k),
{
    assert(is_first_idx(s, equals_char(c), k));
    lemma_first_idx_is(s, equals_char(c), k);
}

/// Without `c` in `s`, `find_spec` gives nothing.
pub proof fn lemma_find_none(s: Seq<char>, c: char)
    requires
        forall|j: int| 0 <= j < s.len() ==> s[j] != c,
    ensures
        find_spec(s, c) is None,
{
    assert(is_first_idx(s, equals_char(c), s.len() as int));
    lemma_first_idx_is(s, equals_char(c), s.len() as int);
}

/// The position of the first `c` in `s`, in characters.
pub fn find_char(s: &str, c: char) -> (r: Option<usize>)
    ensures
        r matches Some(i) ==> find_spec(s@, c) == Some(i as int),
        r is None ==> find_spec(s@, c) is None,
{
    let n = s.unicode_len();
    let mut i: usize = 0;
    while i < n
        invariant
            n == s@.len(),
            i <= n,
            forall|j: int| 0 <= j < i ==> s@[j] != c,
        decreases n - i,
    {
        if s.get_char(i) == c {
            proof {
                lemma_find_at(s@, c, i as int);
            }
            return Some(i);
        }
        i = i + 1;
    }
    proof {
        lemma_find_none(s@, c);
    }
    None
}

// ---------------------------------------------------------------------------
// Ordering and equality
// ---------------------------------------------------------------------------

/// Lexicographic order on code points. For Rust strings this is the order
/// of `String`'s `Ord`, since UTF-8 preserves the order of code points.
pub open spec fn chars_lt(a: Seq<char>, b: Seq<char>) -> bool
    decreases a.len(),
{
    if a.len() == 0 {
        b.len() > 0
    } else if b.len() == 0 {
        false
    } else if a[0] < b[0] {
        true
    } else if a[0] == b[0] {
        chars_lt(a.drop_first(), b.drop_first())
    } else {
        false
    }
}

/// No string is before itself.
pub proof fn lemma_chars_lt_irreflexive(a: Seq<char>)
    ensures
        !chars_lt(a, a),
    decreases a.len(),
{
    if a.len() > 0 {
        lemma_chars_lt_irreflexive(a.drop_first());
    }
}

/// Of two different strings, one is before the other.
pub proof fn lemma_chars_lt_total(a: Seq<char>, b: Seq<char>)
    ensures
        a != b ==> (chars_lt(a, b) || chars_lt(b, a)),
        !(chars_lt(a, b) && chars_lt(b, a)),
    decreases a.len(),
{
    if a.len() > 0 && b.len() > 0 {
        lemma_chars_lt_total(a.drop_first(), b.drop_first());
        if a[0] == b[0] && a.drop_first() == b.drop_first() {
            assert(a =~= seq![a[0]] + a.drop_first());
            assert(b =~= seq![b[0]] + b.drop_first());
        }

    } else if a.len() == 0 && b.len() == 0 {
        assert(a =~= b);
    }
}

/// The order of strings is transitive.
pub proof fn lemma_chars_lt_transitive(a: Seq<char>, b: Seq<char>, c: Seq<char>)
    requires
        chars_lt(a, b),
        chars_lt(b, c),
    ensures
        chars_lt(a, c),
    decreases a.len(),
{
    if a.len() > 0 && b.len() > 0 && c.len() > 0 && a[0] == b[0] && b[0] == c[0] {
        lemma_chars_lt_transitive(a.drop_first(), b.drop_first(), c.drop_first());
    }
}

/// Whether `a` comes strictly before `b` in code-point order.
pub fn str_lt(a: &str, b: &str) -> (r: bool)
    ensures
        r == chars_lt(a@, b@),
{
    let n = a.unicode_len();
    let m = b.unicode_len();
    let mut i: usize = 0;
    assert(a@.subrange(0, n as int) =~= a@);
    assert(b@.subrange(0, m as int) =~= b@);
    while i < n && i < m
        invariant
            n == a@.len(),
            m == b@.len(),
            i <= n,
            i <= m,
            chars_lt(a@, b@) == chars_lt(a@.subrange(i as int, n as int), b@.subrange(i as int, m as int)),
        decreases n - i,
    {
        let x = a.get_char(i);
        let y = b.get_char(i);
        proof {
            let sa = a@.subrange(i as int, n as int);
            let sb = b@.subrange(i as int, m as int);
            assert(sa.drop_first() =~= a@.subrange(i + 1, n as int));
            assert(sb.drop_first() =~= b@.subrange(i + 1, m as int));
        }
        if x < y {
            return true;
        }
        if x != y {
            return false;
        }
        i = i + 1;
    }
    i == n && i < m
}

/// Whether `a` and `b` hold the same characters.
pub fn str_eq(a: &str, b: &str) -> (r: bool)
    ensures
        r == (a@ == b@),
{
    let n = a.unicode_len();
    let m = b.unicode_len();
    if n != m {
        return false;
    }
    let mut i: usize = 0;
    while i < n
        invariant
            n == a@.len(),
            m == b@.len(),
            n == m,
            i <= n,
            forall|j: int| 0 <= j < i ==> a@[j] == b@[j],
        decreases n - i,
    {
        if a.get_char(i) != b.get_char(i) {
            return false;
        }
        i = i + 1;
    }
    assert(a@ =~= b@);
    true
}

// ---------------------------------------------------------------------------
// Decimal numbers
// ---------------------------------------------------------------------------

/// The decimal digit for `d` (`0 <= d < 10`).
pub open spec fn digit_char(d: int) -> char {
    (d + 48) as char
}

/// `n` in decimal, without leading zeros, as `Display` writes it.
pub open spec fn decimal_spec(n: nat) -> Seq<char>
    decreases n,
{
    if n < 10 {
        seq![digit_char(n as int)]
    } else {
        decimal_spec(n / 10).push(digit_char((n % 10) as int))
    }
}

fn digit_str(d: u64) -> (r: &'static str)
    requires
        d < 10,
    ensures
        r@ == seq![digit_char(d as int)],
{
    if d == 0 {
        proof { reveal_strlit("0"); }
        "0"
    } else if d == 1 {
        proof { reveal_strlit("1"); }
        "1"
    } else if d == 2 {
        proof { reveal_strlit("2"); }
        "2"
    } else if d == 3 {
        proof { reveal_strlit("3"); }
        "3"
    } else if d == 4 {
        proof { reveal_strlit("4"); }
        "4"
    } else if d == 5 {
        proof { reveal_strlit("5"); }
        "5"
    } else if d == 6 {
        proof { reveal_strlit("6"); }
        "6"
    } else if d == 7 {
        proof { reveal_strlit("7"); }
        "7"
    } else if d == 8 {
        proof { reveal_strlit("8"); }
        "8"
    } else {
        proof { reveal_strlit("9"); }
        "9"
    }
}

/// `n` in decimal.
pub fn decimal(n: u64) -> (r: String)
    ensures
        r@ == decimal_spec(n as nat),
    decreases n,
{
    if n < 10 {
        digit_str(n).to_owned()
    } else {
        let mut r = decimal(n / 10);
        r.append(digit_str(n % 10));
        r
    }
}

/// `c` is one of `0-9`.
pub open spec fn is_digit(c: char) -> bool {
    '0' <= c && c <= '9'
}

/// The value of a string of decimal digits.
pub open spec fn digits_value(s: Seq<char>) -> nat
    decreases s.len(),
{
    if s.len() == 0 {
        0
    } else {
        (digits_value(s.drop_last()) * 10 + (s.last() as int - 48)) as nat
    }
}

/// `s` without a leading `+`.
pub open spec fn sign_stripped(s: Seq<char>) -> Seq<char> {
    if s.len() > 0 && s[0] == '+' {
        s.drop_first()
    } else {
        s
    }
}

/// Every character of `s` is a decimal digit.
pub open spec fn all_digits(s: Seq<char>) -> bool {
    forall|i: int| 0 <= i < s.len() ==> is_digit(#[trigger] s[i])
}

/// What `str::parse::<u64>` returns: an optional `+` followed by one or more
/// decimal digits whose value fits in a `u64`; `None` for anything else.
pub open spec fn parse_u64_spec(s: Seq<char>) -> Option<u64> {
    let body = sign_stripped(s);
    if body.len() == 0 || !all_digits(body) {
        None
    } else if digits_value(body) <= u64::MAX {
        Some(digits_value(body) as u64)
    } else {
        None
    }
}

proof fn lemma_digits_value_prefix(s: Seq<char>, k: int)
    requires
        0 <= k <= s.len(),
        forall|i: int| 0 <= i < s.len() ==> is_digit(#[trigger] s[i]),
    ensures
        digits_value(s) >= digits_value(s.take(k)),
    decreases s.len(),
{
    if k < s.len() {
        let t = s.drop_last();
        assert forall|i: int| 0 <= i < t.len() implies is_digit(#[trigger] t[i]) by {
            assert(t[i] == s[i]);
        }
        lemma_digits_value_prefix(t, k);
        assert(t.take(k) =~= s.take(k));
        assert(is_digit(s[s.len() - 1]));
    } else {
        assert(s.take(k) =~= s);
    }
}

/// Parses `s` as `str::parse::<u64>` does.
pub fn parse_u64(s: &str) -> (r: Option<u64>)
    ensures
        r == parse_u64_spec(s@),
{
    let n = s.unicode_len();
    let start: usize = if n > 0 && s.get_char(0) == '+' {
        1
    } else {
        0
    };
    let ghost body = sign_stripped(s@);
    assert(body =~= s@.subrange(start as int, n as int));
    if start == n {
        return None;
    }
    let mut acc: u64 = 0;
    let mut i: usize = start;
    assert(body.take(0) =~= Seq::<char>::empty());
    while i < n
        invariant
            n == s@.len(),
            start <= i <= n,
            start < n,
            body == s@.subrange(start as int, n as int),
            body == sign_stripped(s@),
            forall|j: int| 0 <= j < i - start ==> is_digit(#[trigger] body[j]),
            acc as nat == digits_value(body.take(i - start)),
        decreases n - i,
    {
        let c = s.get_char(i);
        assert(c == body[i - start]);
        if !('0' <= c && c <= '9') {
            assert(!is_digit(body[i - start]));
            return None;
        }
        let d = (c as u32 - 48) as u64;
        assert(body.take(i - start + 1).drop_last() =~= body.take(i - start));
        assert(body.take(i - start + 1).last() == c);
        assert(d == c as int - 48);
        assert(digits_value(body.take(i - start + 1)) == acc * 10 + d);
        if acc > (u64::MAX - d) / 10 {
            proof {
                assert(acc * 10 + d > u64::MAX) by (nonlinear_arith)
                    requires
                        acc > (u64::MAX - d) / 10,
                        d <= 9,
                ;
                if all_digits(body) {
                    lemma_digits_value_prefix(body, i - start + 1);
                    assert(digits_value(body) > u64::MAX);
                } else {
                    let j = choose|j: int| 0 <= j < body.len() && !is_digit(#[trigger] body[j]);
                    assert(!is_digit(body[j]));
                }
            }
            return None;
        }
        acc = acc * 10 + d;
        i = i + 1;
    }
    assert(body.take(n - start) =~= body);
    Some(acc)
}

// ---------------------------------------------------------------------------
// Substrings
// ---------------------------------------------------------------------------

/// `needle` occurs in `hay`.
pub open spec fn contains_spec(hay: Seq<char>, needle: Seq<char>) -> bool {
    exists|i: int| 0 <= i && i + needle.len() <= hay.len() && #[trigger] hay.subrange(i, i + needle.len()) == needle
}

/// Whether `needle` occurs in `hay`, as `str::contains` with a string pattern.
pub fn contains_str(hay: &str, needle: &str) -> (r: bool)
    ensures
        r == contains_spec(hay@, needle@),
{
    let n = hay.unicode_len();
    let m = needle.unicode_len();
    if m > n {
        proof {
            assert forall|i: int| 0 <= i && i + needle@.len() <= hay@.len() implies #[trigger] hay@.subrange(i, i + needle@.len()) != needle@ by {}
        }
        return false;
    }
    let last = n - m;
    let mut i: usize = 0;
    loop
        invariant
            n == hay@.len(),
            m == needle@.len(),
            last == n - m,
            i <= last,
            forall|j: int| 0 <= j < i ==> #[trigger] hay@.subrange(j, j + m) != needle@,
        ensures
            forall|j: int| 0 <= j <= last ==> #[trigger] hay@.subrange(j, j + m) != needle@,
        decreases last - i,
    {
        if str_eq(hay.substring_char(i, i + m), needle) {
            return true;
        }
        if i == last {
            break;
        }
        i = i + 1;
    }
    false
}

} // verus!
