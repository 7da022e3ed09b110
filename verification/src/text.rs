//! Text utilities: guess normalization and command reading.
//!
//! Two guesses count as the same word when they agree after dropping leading
//! and trailing whitespace and folding ASCII letters to one case.  Interior
//! whitespace and punctuation stay significant: the comparison is a plain
//! equality of the normalized character sequences, not a natural-language
//! match.
//!
//! The same whitespace machinery also reads the transports' command lines:
//! a prefix test for the command word and the extraction of its
//! whitespace-separated argument.

use vstd::prelude::*;

verus! {

/// The whitespace characters that normalization strips from a guess's ends.
pub open spec fn is_ws_char(c: char) -> bool {
    c == ' ' || c == '\t' || c == '\n' || c == '\r'
}

/// ASCII case folding, as a character code: the uppercase letters (codes 65
/// to 90) map to their lowercase counterparts, every other character to
/// itself.
pub open spec fn folded_code(c: char) -> u32 {
    if 65 <= c as u32 && c as u32 <= 90 {
        (c as u32 + 32) as u32
    } else {
        c as u32
    }
}

/// Length of the whitespace run at the front of `s`.
pub open spec fn ws_prefix_len(s: Seq<char>) -> nat
    decreases s.len(),
{
    if s.len() > 0 && is_ws_char(s[0]) {
        1 + ws_prefix_len(s.drop_first())
    } else {
        0
    }
}

/// Length of the whitespace run at the back of `s`.
pub open spec fn ws_suffix_len(s: Seq<char>) -> nat
    decreases s.len(),
{
    if s.len() > 0 && is_ws_char(s.last()) {
        1 + ws_suffix_len(s.drop_last())
    } else {
        0
    }
}

/// `s` without its leading and trailing whitespace.
pub open spec fn trimmed(s: Seq<char>) -> Seq<char> {
    if ws_prefix_len(s) == s.len() {
        Seq::empty()
    } else {
        s.subrange(ws_prefix_len(s) as int, s.len() - ws_suffix_len(s))
    }
}

/// The canonical form a guess is compared by: outer whitespace dropped, then
/// every character folded to its lowercase code.
pub open spec fn normalized(s: Seq<char>) -> Seq<u32> {
    trimmed(s).map_values(|c: char| folded_code(c))
}

/// Whether two guesses name the same word: equality of normalized forms.
pub open spec fn guesses_match(a: Seq<char>, b: Seq<char>) -> bool {
    normalized(a) == normalized(b)
}

/// The whitespace prefix is indeed a whitespace run: no longer than `s`,
/// all whitespace, and ended by a non-whitespace character if anything
/// follows it.
proof fn lemma_ws_prefix_props(s: Seq<char>)
    ensures
        ws_prefix_len(s) <= s.len(),
        forall|j: int| 0 <= j < ws_prefix_len(s) ==> is_ws_char(#[trigger] s[j]),
        ws_prefix_len(s) < s.len() ==> !is_ws_char(s[ws_prefix_len(s) as int]),
    decreases s.len(),
{
    if s.len() > 0 && is_ws_char(s[0]) {
        lemma_ws_prefix_props(s.drop_first());
        assert forall|j: int| 0 <= j < ws_prefix_len(s) implies is_ws_char(#[trigger] s[j]) by {
            if j > 0 {
                assert(s.drop_first()[j - 1] == s[j]);
            }
        }
        if ws_prefix_len(s) < s.len() {
            assert(s.drop_first()[ws_prefix_len(s) - 1] == s[ws_prefix_len(s) as int]);
        }
    }
}

/// The whitespace prefix length is the unique `i` such that everything
/// before `i` is whitespace and `i` is either the end or a non-whitespace
/// character.
proof fn lemma_ws_prefix_char(s: Seq<char>, i: int)
    requires
        0 <= i <= s.len(),
        forall|j: int| 0 <= j < i ==> is_ws_char(#[trigger] s[j]),
        i == s.len() || !is_ws_char(s[i]),
    ensures
        ws_prefix_len(s) == i,
    decreases s.len(),
{
    if s.len() > 0 && is_ws_char(s[0]) {
        assert(i >= 1);
        lemma_ws_prefix_char(s.drop_first(), i - 1);
    }
}

/// The whitespace suffix is indeed a whitespace run: no longer than `s`,
/// all whitespace, and preceded by a non-whitespace character if anything
/// comes before it.
proof fn lemma_ws_suffix_props(s: Seq<char>)
    ensures
        ws_suffix_len(s) <= s.len(),
        forall|j: int| s.len() - ws_suffix_len(s) <= j < s.len() ==> is_ws_char(#[trigger] s[j]),
        ws_suffix_len(s) < s.len() ==> !is_ws_char(s[s.len() - ws_suffix_len(s) - 1]),
    decreases s.len(),
{
    if s.len() > 0 && is_ws_char(s.last()) {
        lemma_ws_suffix_props(s.drop_last());
        assert forall|j: int| s.len() - ws_suffix_len(s) <= j < s.len() implies is_ws_char(
            #[trigger] s[j],
        ) by {
            if j < s.len() - 1 {
                assert(s.drop_last()[j] == s[j]);
            }
        }
        if ws_suffix_len(s) < s.len() {
            assert(s.drop_last()[s.len() - ws_suffix_len(s) - 1] == s[s.len() - ws_suffix_len(s)
                - 1]);
        }
    }
}

/// The whitespace suffix length is the unique `k` such that everything from
/// `s.len() - k` on is whitespace and what precedes it, if anything, is not
/// whitespace.
proof fn lemma_ws_suffix_char(s: Seq<char>, k: int)
    requires
        0 <= k <= s.len(),
        forall|j: int| s.len() - k <= j < s.len() ==> is_ws_char(#[trigger] s[j]),
        k == s.len() || !is_ws_char(s[s.len() - k - 1]),
    ensures
        ws_suffix_len(s) == k,
    decreases s.len(),
{
    if s.len() > 0 && is_ws_char(s.last()) {
        assert(k >= 1);
        lemma_ws_suffix_char(s.drop_last(), k - 1);
    }
}

/// Length of the run of non-whitespace characters at the front of `s`.
pub open spec fn nonws_prefix_len(s: Seq<char>) -> nat
    decreases s.len(),
{
    if s.len() > 0 && !is_ws_char(s[0]) {
        1 + nonws_prefix_len(s.drop_first())
    } else {
        0
    }
}

/// The non-whitespace prefix length is the unique `i` such that everything
/// before `i` is non-whitespace and `i` is either the end or a whitespace
/// character.
proof fn lemma_nonws_prefix_char(s: Seq<char>, i: int)
    requires
        0 <= i <= s.len(),
        forall|j: int| 0 <= j < i ==> !is_ws_char(#[trigger] s[j]),
        i == s.len() || is_ws_char(s[i]),
    ensures
        nonws_prefix_len(s) == i,
    decreases s.len(),
{
    if s.len() > 0 && !is_ws_char(s[0]) {
        assert(i >= 1);
        lemma_nonws_prefix_char(s.drop_first(), i - 1);
    }
}

/// `s` begins with `pat`.
pub open spec fn starts_with(s: Seq<char>, pat: Seq<char>) -> bool {
    pat.len() <= s.len() && s.subrange(0, pat.len() as int) == pat
}

/// The second whitespace-separated token of `s`, if `s` holds one: the
/// argument of a command line such as a game code or a guessed word.
pub open spec fn second_token(s: Seq<char>) -> Option<Seq<char>> {
    let i0 = ws_prefix_len(s) as int;
    let j0 = i0 + nonws_prefix_len(s.skip(i0));
    let i1 = j0 + ws_prefix_len(s.skip(j0));
    let j1 = i1 + nonws_prefix_len(s.skip(i1));
    if i1 < s.len() {
        Some(s.subrange(i1, j1))
    } else {
        None
    }
}

/// Whether the text `s` begins with the command word `pat`.
pub fn text_starts_with(s: &str, pat: &str) -> (r: bool)
    ensures
        r == starts_with(s@, pat@),
{
    let n = pat.unicode_len();
    let m = s.unicode_len();
    if m < n {
        return false;
    }
    let mut i: usize = 0;
    while i < n
        invariant
            n == pat@.len(),
            n <= s@.len(),
            i <= n,
            forall|j: int| 0 <= j < i ==> s@[j] == pat@[j],
        decreases n - i,
    {
        if s.get_char(i) != pat.get_char(i) {
            proof {
                assert(s@.subrange(0, n as int)[i as int] != pat@[i as int]);
            }
            return false;
        }
        i = i + 1;
    }
    proof {
        assert(s@.subrange(0, n as int) =~= pat@);
    }
    true
}

/// The second whitespace-separated token of the text `s`, if any.
pub fn read_second_token(s: &str) -> (r: Option<String>)
    ensures
        match r {
            Some(t) => second_token(s@) == Some(t@),
            None => second_token(s@) is None,
        },
{
    let n = s.unicode_len();
    let mut i0: usize = 0;
    while i0 < n && is_ws(s.get_char(i0))
        invariant
            n == s@.len(),
            i0 <= n,
            forall|j: int| 0 <= j < i0 ==> is_ws_char(#[trigger] s@[j]),
        decreases n - i0,
    {
        i0 = i0 + 1;
    }
    let mut j0: usize = i0;
    while j0 < n && !is_ws(s.get_char(j0))
        invariant
            n == s@.len(),
            i0 <= j0 <= n,
            forall|j: int| i0 <= j < j0 ==> !is_ws_char(#[trigger] s@[j]),
        decreases n - j0,
    {
        j0 = j0 + 1;
    }
    let mut i1: usize = j0;
    while i1 < n && is_ws(s.get_char(i1))
        invariant
            n == s@.len(),
            j0 <= i1 <= n,
            forall|j: int| j0 <= j < i1 ==> is_ws_char(#[trigger] s@[j]),
        decreases n - i1,
    {
        i1 = i1 + 1;
    }
    let mut j1: usize = i1;
    while j1 < n && !is_ws(s.get_char(j1))
        invariant
            n == s@.len(),
            i1 <= j1 <= n,
            forall|j: int| i1 <= j < j1 ==> !is_ws_char(#[trigger] s@[j]),
        decreases n - j1,
    {
        j1 = j1 + 1;
    }
    proof {
        lemma_ws_prefix_char(s@, i0 as int);
        assert forall|j: int| 0 <= j < j0 - i0 implies !is_ws_char(
            #[trigger] s@.skip(i0 as int)[j],
        ) by {
            assert(s@.skip(i0 as int)[j] == s@[i0 + j]);
        }
        lemma_nonws_prefix_char(s@.skip(i0 as int), j0 - i0);
        assert forall|j: int| 0 <= j < i1 - j0 implies is_ws_char(
            #[trigger] s@.skip(j0 as int)[j],
        ) by {
            assert(s@.skip(j0 as int)[j] == s@[j0 + j]);
        }
        lemma_ws_prefix_char(s@.skip(j0 as int), i1 - j0);
        assert forall|j: int| 0 <= j < j1 - i1 implies !is_ws_char(
            #[trigger] s@.skip(i1 as int)[j],
        ) by {
            assert(s@.skip(i1 as int)[j] == s@[i1 + j]);
        }
        lemma_nonws_prefix_char(s@.skip(i1 as int), j1 - i1);
    }
    if i1 == n {
        return None;
    }
    let token = s.substring_char(i1, j1).to_owned();
    Some(token)
}

/// Characters with the same folded code are both whitespace or neither:
/// whitespace characters fold to themselves and are nothing's fold image.
proof fn lemma_folded_keeps_ws(x: char, y: char)
    requires
        folded_code(x) == folded_code(y),
    ensures
        is_ws_char(x) <==> is_ws_char(y),
{
}

/// Matching is case-insensitive: two guesses whose characters agree up to
/// ASCII case fold always match.
pub proof fn lemma_match_ignores_ascii_case(a: Seq<char>, b: Seq<char>)
    requires
        a.len() == b.len(),
        forall|i: int| 0 <= i < a.len() ==> folded_code(#[trigger] a[i]) == folded_code(b[i]),
    ensures
        guesses_match(a, b),
{
    assert forall|i: int| 0 <= i < a.len() implies is_ws_char(#[trigger] a[i]) == is_ws_char(
        b[i],
    ) by {
        lemma_folded_keeps_ws(a[i], b[i]);
    }
    lemma_ws_prefix_props(a);
    lemma_ws_suffix_props(a);
    let p = ws_prefix_len(a) as int;
    let q = ws_suffix_len(a) as int;
    assert forall|j: int| 0 <= j < p implies is_ws_char(#[trigger] b[j]) by {
        assert(is_ws_char(a[j]));
    }
    assert(p == b.len() || !is_ws_char(b[p]));
    lemma_ws_prefix_char(b, p);
    assert forall|j: int| b.len() - q <= j < b.len() implies is_ws_char(#[trigger] b[j]) by {
        assert(is_ws_char(a[j]));
    }
    assert(q == b.len() || !is_ws_char(b[b.len() - q - 1]));
    lemma_ws_suffix_char(b, q);
    if p == a.len() {
        assert(normalized(a) =~= normalized(b));
    } else {
        assert forall|i: int| 0 <= i < a.len() - p - q implies normalized(a)[i] == normalized(
            b,
        )[i] by {
            assert(trimmed(a)[i] == a[p + i]);
            assert(trimmed(b)[i] == b[p + i]);
        }
        assert(normalized(a) =~= normalized(b));
    }
}

/// Matching trims whitespace: padding a guess with leading and trailing
/// whitespace never changes what it matches.
pub proof fn lemma_match_ignores_outer_whitespace(s: Seq<char>, pre: Seq<char>, post: Seq<char>)
    requires
        forall|i: int| 0 <= i < pre.len() ==> is_ws_char(#[trigger] pre[i]),
        forall|i: int| 0 <= i < post.len() ==> is_ws_char(#[trigger] post[i]),
    ensures
        guesses_match(pre + s + post, s),
{
    let t = pre + s + post;
    assert(t.len() == pre.len() + s.len() + post.len());
    assert forall|j: int| 0 <= j < pre.len() implies t[j] == pre[j] by {}
    assert forall|j: int| 0 <= j < s.len() implies t[pre.len() + j] == s[j] by {}
    assert forall|j: int| 0 <= j < post.len() implies t[pre.len() + s.len() + j] == post[j] by {}
    lemma_ws_prefix_props(s);
    lemma_ws_suffix_props(s);
    let p = ws_prefix_len(s) as int;
    let q = ws_suffix_len(s) as int;
    if p == s.len() {
        lemma_ws_suffix_char(s, s.len() as int);
        assert forall|j: int| 0 <= j < t.len() implies is_ws_char(#[trigger] t[j]) by {
            if j < pre.len() {
                assert(t[j] == pre[j]);
            } else if j < pre.len() + s.len() {
                assert(t[j] == s[j - pre.len()]);
            } else {
                assert(t[j] == post[j - pre.len() - s.len()]);
            }
        }
        lemma_ws_prefix_char(t, t.len() as int);
        assert(normalized(t) =~= normalized(s));
    } else {
        if q == s.len() {
            assert(is_ws_char(s[p]));
            assert(false);
        }
        lemma_ws_prefix_char(t, pre.len() + p);
        lemma_ws_suffix_char(t, post.len() + q);
        assert(trimmed(t) == t.subrange(pre.len() + p, t.len() - post.len() - q));
        assert forall|i: int| 0 <= i < s.len() - p - q implies trimmed(t)[i] == trimmed(s)[i] by {
            assert(trimmed(t)[i] == t[pre.len() + p + i]);
            assert(t[pre.len() + p + i] == s[p + i]);
            assert(trimmed(s)[i] == s[p + i]);
        }
        assert(trimmed(t) =~= trimmed(s));
        assert(normalized(t) =~= normalized(s));
    }
}

/// Whether `c` is one of the whitespace characters normalization strips.
fn is_ws(c: char) -> (r: bool)
    ensures
        r == is_ws_char(c),
{
    c == ' ' || c == '\t' || c == '\n' || c == '\r'
}

/// The folded (lowercase) code of `c`.
fn fold_char(c: char) -> (r: u32)
    ensures
        r == folded_code(c),
{
    let code = c as u32;
    if 65 <= code && code <= 90 {
        code + 32
    } else {
        code
    }
}

/// Bounds of `s` with its outer whitespace dropped:
/// `s@.subrange(r.0, r.1)` is `trimmed(s@)`.
fn trim_bounds(s: &str) -> (r: (usize, usize))
    ensures
        r.0 <= r.1 <= s@.len(),
        trimmed(s@) == s@.subrange(r.0 as int, r.1 as int),
{
    let n = s.unicode_len();
    let mut start: usize = 0;
    while start < n && is_ws(s.get_char(start))
        invariant
            n == s@.len(),
            start <= n,
            forall|j: int| 0 <= j < start ==> is_ws_char(#[trigger] s@[j]),
        decreases n - start,
    {
        start = start + 1;
    }
    proof {
        lemma_ws_prefix_char(s@, start as int);
    }
    if start == n {
        proof {
            assert(trimmed(s@) =~= s@.subrange(0, 0));
        }
        return (0, 0);
    }
    let mut end: usize = n;
    while is_ws(s.get_char(end - 1))
        invariant
            n == s@.len(),
            start < n,
            !is_ws_char(s@[start as int]),
            start + 1 <= end <= n,
            forall|j: int| end <= j < n ==> is_ws_char(#[trigger] s@[j]),
        decreases end,
    {
        end = end - 1;
    }
    proof {
        lemma_ws_suffix_char(s@, n - end);
    }
    (start, end)
}

/// Whether two guess texts agree after trimming outer whitespace and folding
/// ASCII case.
pub fn guess_texts_match(a: &str, b: &str) -> (r: bool)
    ensures
        r == guesses_match(a@, b@),
{
    let (a0, a1) = trim_bounds(a);
    let (b0, b1) = trim_bounds(b);
    if a1 - a0 != b1 - b0 {
        proof {
            assert(normalized(a@).len() != normalized(b@).len());
        }
        return false;
    }
    let len = a1 - a0;
    let mut i: usize = 0;
    while i < len
        invariant
            len == a1 - a0 == b1 - b0,
            a0 <= a1 <= a@.len(),
            b0 <= b1 <= b@.len(),
            trimmed(a@) == a@.subrange(a0 as int, a1 as int),
            trimmed(b@) == b@.subrange(b0 as int, b1 as int),
            i <= len,
            forall|j: int|
                0 <= j < i ==> folded_code(#[trigger] a@[a0 + j]) == folded_code(b@[b0 + j]),
        decreases len - i,
    {
        let ca = a.get_char(a0 + i);
        let cb = b.get_char(b0 + i);
        if fold_char(ca) != fold_char(cb) {
            proof {
                assert(trimmed(a@)[i as int] == a@[a0 + i]);
                assert(trimmed(b@)[i as int] == b@[b0 + i]);
                assert(normalized(a@)[i as int] != normalized(b@)[i as int]);
            }
            return false;
        }
        i = i + 1;
    }
    proof {
        assert forall|j: int| 0 <= j < len implies normalized(a@)[j] == normalized(b@)[j] by {
            assert(trimmed(a@)[j] == a@[a0 + j]);
            assert(trimmed(b@)[j] == b@[b0 + j]);
        }
        assert(normalized(a@) =~= normalized(b@));
    }
    true
}

} // verus!
