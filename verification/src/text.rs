//! Character-level text handling: Unicode whitespace, trimming, splitting.
use vstd::prelude::*;

verus! {

/// Unicode `White_Space`, the property that `char::is_whitespace` and
/// `str::trim` go by.
pub open spec fn is_white_space(c: char) -> bool {
    let u = c as u32;
    ||| u == 0x20
    ||| 0x09 <= u <= 0x0D
    ||| u == 0x85
    ||| u == 0xA0
    ||| u == 0x1680
    ||| 0x2000 <= u <= 0x200A
    ||| u == 0x2028
    ||| u == 0x2029
    ||| u == 0x202F
    ||| u == 0x205F
    ||| u == 0x3000
}

/// Whether `c` is whitespace (as `char::is_whitespace`).
pub fn is_whitespace(c: char) -> (r: bool)
    ensures
        r == is_white_space(c),
{
    let u = c as u32;
    u == 0x20 || (0x09 <= u && u <= 0x0D) || u == 0x85 || u == 0xA0 || u == 0x1680 || (0x2000
        <= u && u <= 0x200A) || u == 0x2028 || u == 0x2029 || u == 0x202F || u == 0x205F || u
        == 0x3000
}

/// Number of whitespace characters at the start of `s`.
pub open spec fn leading_ws(s: Seq<char>) -> nat
    decreases s.len(),
{
    if s.len() > 0 && is_white_space(s[0]) {
        1 + leading_ws(s.drop_first())
    } else {
        0
    }
}

/// Number of whitespace characters at the end of `s`.
pub open spec fn trailing_ws(s: Seq<char>) -> nat
    decreases s.len(),
{
    if s.len() > 0 && is_white_space(s.last()) {
        1 + trailing_ws(s.drop_last())
    } else {
        0
    }
}

/// `s` without its leading whitespace (as `str::trim_start`).
pub open spec fn trim_start(s: Seq<char>) -> Seq<char> {
    s.skip(leading_ws(s) as int)
}

/// `s` without its trailing whitespace (as `str::trim_end`).
pub open spec fn trim_end(s: Seq<char>) -> Seq<char> {
    s.take(s.len() - trailing_ws(s))
}

/// `s` without leading or trailing whitespace (as `str::trim`).
pub open spec fn trim(s: Seq<char>) -> Seq<char> {
    trim_end(trim_start(s))
}

/// Index of the first character of `s` that satisfies `p`, or `s.len()`.
pub open spec fn first_index(s: Seq<char>, p: spec_fn(char) -> bool) -> nat
    decreases s.len(),
{
    if s.len() == 0 {
        0
    } else if p(s[0]) {
        0
    } else {
        1 + first_index(s.drop_first(), p)
    }
}

/// The whitespace predicate.
pub open spec fn white_space() -> spec_fn(char) -> bool {
    |c: char| is_white_space(c)
}

/// The predicate of one character.
pub open spec fn is_char(x: char) -> spec_fn(char) -> bool {
    |c: char| c == x
}

proof fn lemma_leading_ws_step(s: Seq<char>, a: int)
    requires
        0 <= a < s.len(),
        is_white_space(s[a]),
    ensures
        leading_ws(s.skip(a)) == 1 + leading_ws(s.skip(a + 1)),
{
    assert(s.skip(a).drop_first() =~= s.skip(a + 1));
}

proof fn lemma_trailing_ws_step(s: Seq<char>, b: int)
    requires
        0 < b <= s.len(),
        is_white_space(s[b - 1]),
    ensures
        trailing_ws(s.take(b)) == 1 + trailing_ws(s.take(b - 1)),
{
    assert(s.take(b).drop_last() =~= s.take(b - 1));
}

proof fn lemma_first_index_step(s: Seq<char>, p: spec_fn(char) -> bool, a: int)
    requires
        0 <= a < s.len(),
        !p(s[a]),
    ensures
        first_index(s.skip(a), p) == 1 + first_index(s.skip(a + 1), p),
{
    assert(s.skip(a).drop_first() =~= s.skip(a + 1));
}

/// The first index is within `s`, no earlier character satisfies `p`, and the
/// one there (if any) does.
pub proof fn lemma_first_index(s: Seq<char>, p: spec_fn(char) -> bool)
    ensures
        first_index(s, p) <= s.len(),
        forall|j: int| 0 <= j < first_index(s, p) ==> !p(#[trigger] s[j]),
        first_index(s, p) < s.len() ==> p(s[first_index(s, p) as int]),
    decreases s.len(),
{
    if s.len() > 0 && !p(s[0]) {
        lemma_first_index(s.drop_first(), p);
        assert forall|j: int| 0 <= j < first_index(s, p) implies !p(#[trigger] s[j]) by {
            if j > 0 {
                assert(s[j] == s.drop_first()[j - 1]);
            }
        }
    }
}

/// The leading whitespace lies within `s`, and what follows it is not whitespace.
pub proof fn lemma_leading_ws(s: Seq<char>)
    ensures
        leading_ws(s) <= s.len(),
        forall|j: int| 0 <= j < leading_ws(s) ==> is_white_space(#[trigger] s[j]),
        leading_ws(s) < s.len() ==> !is_white_space(s[leading_ws(s) as int]),
    decreases s.len(),
{
    if s.len() > 0 && is_white_space(s[0]) {
        lemma_leading_ws(s.drop_first());
        assert forall|j: int| 0 <= j < leading_ws(s) implies is_white_space(#[trigger] s[j]) by {
            if j > 0 {
                assert(s[j] == s.drop_first()[j - 1]);
            }
        }
    }
}

/// Splitting off a word makes what is left shorter.
pub proof fn lemma_split_whitespace_step(s: Seq<char>)
    requires
        trim_start(s).len() > 0,
    ensures
        trim_start(s).skip(first_index(trim_start(s), white_space()) as int).len() < s.len(),
        first_index(trim_start(s), white_space()) >= 1,
{
    lemma_leading_ws(s);
    let t = trim_start(s);
    lemma_first_index(t, white_space());
    assert(t[0] == s[leading_ws(s) as int]);
}

/// The words of `s`, as `str::split_whitespace` yields them.
pub open spec fn split_whitespace(s: Seq<char>) -> Seq<Seq<char>>
    decreases s.len(),
{
    let t = trim_start(s);
    if t.len() == 0 {
        Seq::empty()
    } else {
        let w = first_index(t, white_space());
        proof {
            lemma_split_whitespace_step(s);
        }
        seq![t.take(w as int)] + split_whitespace(t.skip(w as int))
    }
}

/// The index after the whitespace that starts at `pos`.
fn skip_whitespace(s: &[char], pos: usize) -> (a: usize)
    requires
        pos <= s.len(),
    ensures
        pos <= a <= s.len(),
        trim_start(s@.skip(pos as int)) == s@.skip(a as int),
        a < s.len() ==> !is_white_space(s@[a as int]),
{
    let n = s.len();
    let ghost u = s@.skip(pos as int);
    let mut a: usize = pos;
    assert(s@.skip(pos as int).skip(0) =~= s@.skip(pos as int));
    while a < n && is_whitespace(s[a])
        invariant
            pos <= a <= n,
            n == s.len(),
            u == s@.skip(pos as int),
            leading_ws(u) == (a - pos) + leading_ws(s@.skip(a as int)),
        decreases n - a,
    {
        assert(s@.skip(a as int).drop_first() =~= s@.skip(a + 1));
        a = a + 1;
    }
    assert(trim_start(u) =~= s@.skip(a as int));
    a
}

/// The end of the word that starts at `a`.
fn word_end(s: &[char], a: usize) -> (b: usize)
    requires
        a <= s.len(),
    ensures
        a <= b <= s.len(),
        first_index(s@.skip(a as int), white_space()) == b - a,
{
    let n = s.len();
    let mut b: usize = a;
    let ghost t = s@.skip(a as int);
    assert(t.skip(0) =~= t);
    while b < n && !is_whitespace(s[b])
        invariant
            a <= b <= n,
            n == s.len(),
            t == s@.skip(a as int),
            first_index(t, white_space()) == (b - a) + first_index(s@.skip(b as int), white_space()),
        decreases n - b,
    {
        assert(s@.skip(b as int).drop_first() =~= s@.skip(b + 1));
        b = b + 1;
    }
    b
}

/// The bounds of the words of `s`: word `i` is `s[r[i].0..r[i].1]`.
pub fn split_whitespace_bounds(s: &[char]) -> (r: Vec<(usize, usize)>)
    ensures
        r@.len() == split_whitespace(s@).len(),
        forall|i: int| 0 <= i < r@.len() ==> (#[trigger] r@[i]).0 <= r@[i].1 <= s@.len(),
        forall|i: int| 0 <= i < r@.len() ==> s@.subrange(r@[i].0 as int, r@[i].1 as int) == #[trigger] split_whitespace(s@)[i],
{
    let n = s.len();
    let mut r: Vec<(usize, usize)> = Vec::new();
    let ghost mut words: Seq<Seq<char>> = Seq::empty();
    let mut pos: usize = 0;
    assert(s@.skip(0) =~= s@);
    assert(words + split_whitespace(s@) =~= split_whitespace(s@));
    while pos < n
        invariant
            n == s.len(),
            pos <= n,
            r@.len() == words.len(),
            forall|i: int| 0 <= i < r@.len() ==> (#[trigger] r@[i]).0 <= r@[i].1 <= s@.len(),
            forall|i: int| 0 <= i < r@.len() ==> s@.subrange(r@[i].0 as int, r@[i].1 as int) == #[trigger] words[i],
            split_whitespace(s@) == words + split_whitespace(s@.skip(pos as int)),
        decreases n - pos,
    {
        let ghost u = s@.skip(pos as int);
        let a = skip_whitespace(s, pos);
        if a == n {
            proof {
                assert(s@.skip(n as int).len() == 0);
                assert(split_whitespace(u) =~= Seq::<Seq<char>>::empty());
                assert(s@.skip(n as int) =~= Seq::<char>::empty());
                assert(split_whitespace(s@.skip(n as int)) =~= Seq::<Seq<char>>::empty());
            }
            pos = n;
        } else {
            let b = word_end(s, a);
            let ghost t = s@.skip(a as int);
            proof {
                lemma_split_whitespace_step(u);
                assert(t.take((b - a) as int) =~= s@.subrange(a as int, b as int));
                assert(t.skip((b - a) as int) =~= s@.skip(b as int));
                assert(split_whitespace(u) == seq![s@.subrange(a as int, b as int)] + split_whitespace(s@.skip(b as int)));
                assert(words + split_whitespace(u) =~= words.push(s@.subrange(a as int, b as int)) + split_whitespace(s@.skip(b as int)));
            }
            let ghost old_r = r@;
            let ghost old_words = words;
            r.push((a, b));
            proof {
                words = words.push(s@.subrange(a as int, b as int));
                assert forall|i: int| 0 <= i < r@.len() implies (#[trigger] r@[i]).0 <= r@[i].1 <= s@.len()
                    && s@.subrange(r@[i].0 as int, r@[i].1 as int) == words[i] by {
                    if i < old_r.len() {
                        assert(r@[i] == old_r[i]);
                        assert(words[i] == old_words[i]);
                    } else {
                        assert(r@[i] == (a, b));
                    }
                }
            }
            pos = b;
        }
    }
    assert(s@.skip(n as int) =~= Seq::<char>::empty());
    assert(split_whitespace(s@.skip(n as int)) =~= Seq::<Seq<char>>::empty());
    assert(split_whitespace(s@) =~= words);
    r
}

/// The characters of a string.
pub fn chars_of(s: &str) -> (r: Vec<char>)
    ensures
        r@ == s@,
{
    let mut r: Vec<char> = Vec::new();
    for c in it: s.chars()
        invariant
            r@ == it.seq().take(it.index()),
            it.seq() == s@,
    {
        r.push(c);
    }
    r
}

/// Calls `String::push`.
/// Claimed: the character is appended.
#[verifier::external_body]
fn push_char(s: &mut String, c: char)
    ensures
        final(s)@ == old(s)@.push(c),
{
    s.push(c);
}

/// A string holding the given characters.
pub fn string_from_chars(cs: &[char]) -> (r: String)
    ensures
        r@ == cs@,
{
    let mut r = String::new();
    let mut i: usize = 0;
    while i < cs.len()
        invariant
            i <= cs.len(),
            r@ == cs@.take(i as int),
        decreases cs.len() - i,
    {
        push_char(&mut r, cs[i]);
        i = i + 1;
        assert(r@ =~= cs@.take(i as int));
    }
    assert(cs@.take(cs.len() as int) =~= cs@);
    r
}

/// The bounds `(a, b)` of `s` trimmed: `trim(s) == s[a..b]`.
pub fn trim_bounds(s: &[char]) -> (r: (usize, usize))
    ensures
        r.0 <= r.1 <= s.len(),
        trim(s@) == s@.subrange(r.0 as int, r.1 as int),
        trim_start(s@) == s@.skip(r.0 as int),
{
    let mut a: usize = 0;
    assert(s@.skip(0) =~= s@);
    while a < s.len() && is_whitespace(s[a])
        invariant
            a <= s.len(),
            leading_ws(s@) == a + leading_ws(s@.skip(a as int)),
        decreases s.len() - a,
    {
        proof {
            lemma_leading_ws_step(s@, a as int);
        }
        a = a + 1;
    }
    proof {
        assert(s@.skip(0) =~= s@);
    }
    let ghost t = s@.skip(a as int);
    let mut b: usize = s.len();
    assert(t.take(t.len() as int) =~= t);
    while b > a && is_whitespace(s[b - 1])
        invariant
            a <= b <= s.len(),
            t == s@.skip(a as int),
            trailing_ws(t) == (s.len() - b) + trailing_ws(t.take(b - a)),
        decreases b,
    {
        proof {
            lemma_trailing_ws_step(t, (b - a) as int);
        }
        b = b - 1;
    }
    proof {
        assert(t.take(t.len() as int) =~= t);
        assert(t.take(b - a) =~= s@.subrange(a as int, b as int));
        assert(trim_end(t) =~= t.take(b - a));
    }
    (a, b)
}

/// Index of the first whitespace character of `s`, or `s.len()`.
pub fn find_whitespace(s: &[char]) -> (r: usize)
    ensures
        r == first_index(s@, white_space()),
        r <= s.len(),
{
    let mut i: usize = 0;
    assert(s@.skip(0) =~= s@);
    while i < s.len() && !is_whitespace(s[i])
        invariant
            i <= s.len(),
            first_index(s@, white_space()) == i + first_index(s@.skip(i as int), white_space()),
        decreases s.len() - i,
    {
        proof {
            lemma_first_index_step(s@, white_space(), i as int);
        }
        i = i + 1;
    }
    proof {
        assert(s@.skip(0) =~= s@);
    }
    i
}

/// Index of the first occurrence of `x` in `s`, or `s.len()`.
pub fn find_char(s: &[char], x: char) -> (r: usize)
    ensures
        r == first_index(s@, is_char(x)),
        r <= s.len(),
{
    let mut i: usize = 0;
    assert(s@.skip(0) =~= s@);
    while i < s.len() && s[i] != x
        invariant
            i <= s.len(),
            first_index(s@, is_char(x)) == i + first_index(s@.skip(i as int), is_char(x)),
        decreases s.len() - i,
    {
        proof {
            lemma_first_index_step(s@, is_char(x), i as int);
        }
        i = i + 1;
    }
    proof {
        assert(s@.skip(0) =~= s@);
    }
    i
}

/// Whether `s` holds the same characters as `t`.
pub fn chars_eq(s: &[char], t: &str) -> (r: bool)
    ensures
        r == (s@ == t@),
{
    let tc = chars_of(t);
    if s.len() != tc.len() {
        assert(s@.len() != t@.len());
        return false;
    }
    let mut i: usize = 0;
    while i < s.len()
        invariant
            i <= s.len(),
            s.len() == tc@.len(),
            tc@ == t@,
            forall|j: int| 0 <= j < i ==> s@[j] == tc@[j],
        decreases s.len() - i,
    {
        if s[i] != tc[i] {
            assert(s@[i as int] != t@[i as int]);
            return false;
        }
        i = i + 1;
    }
    assert(s@ =~= tc@);
    true
}

} // verus!
