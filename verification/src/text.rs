//! Character-level helpers shared by the scanner and the schema.

use vstd::prelude::*;

verus! {

/// Whether `c` carries the Unicode `White_Space` property, which is what
/// `char::is_whitespace` documents that it tests.
pub open spec fn is_space(c: char) -> bool {
    ||| c == '\t'
    ||| c == '\n'
    ||| c == '\u{0B}'
    ||| c == '\u{0C}'
    ||| c == '\r'
    ||| c == ' '
    ||| c == '\u{85}'
    ||| c == '\u{A0}'
    ||| c == '\u{1680}'
    ||| ('\u{2000}' <= c && c <= '\u{200A}')
    ||| c == '\u{2028}'
    ||| c == '\u{2029}'
    ||| c == '\u{202F}'
    ||| c == '\u{205F}'
    ||| c == '\u{3000}'
}

pub fn is_space_char(c: char) -> (r: bool)
    ensures
        r == is_space(c),
{
    c == '\t' || c == '\n' || c == '\u{0B}' || c == '\u{0C}' || c == '\r' || c == ' ' || c
        == '\u{85}' || c == '\u{A0}' || c == '\u{1680}' || ('\u{2000}' <= c && c <= '\u{200A}')
        || c == '\u{2028}' || c == '\u{2029}' || c == '\u{202F}' || c == '\u{205F}' || c
        == '\u{3000}'
}

/// Appends one character, as `String::push` documents.
#[verifier::external_body]
pub(crate) fn push_char(s: &mut String, c: char)
    ensures
        final(s)@ == old(s)@.push(c),
{
    s.push(c);
}

/// The characters of `s`, in order.
pub fn chars_of(s: &str) -> (r: Vec<char>)
    ensures
        r@ == s@,
{
    broadcast use vstd::string::axiom_spec_iter;

    let mut r: Vec<char> = Vec::new();
    for c in it: s.chars()
        invariant
            r@ == it.seq().take(it.index() as int),
    {
        r.push(c);
        assert(r@ =~= it.seq().take(it.index() + 1));
    }
    assert(r@ =~= s@);
    r
}

/// The string made of the characters `cs[from..to]`.
pub fn string_of(cs: &Vec<char>, from: usize, to: usize) -> (r: String)
    requires
        from <= to <= cs@.len(),
    ensures
        r@ == cs@.subrange(from as int, to as int),
{
    let mut r = String::new();
    let mut i = from;
    while i < to
        invariant
            from <= i <= to <= cs@.len(),
            r@ == cs@.subrange(from as int, i as int),
        decreases to - i,
    {
        push_char(&mut r, cs[i]);
        i = i + 1;
        assert(r@ =~= cs@.subrange(from as int, i as int));
    }
    r
}

/// The decimal digit for a value below 10.
pub open spec fn decimal_digit(d: int) -> char {
    (48 + d) as char
}

/// The decimal notation of a number, without leading zeros.
pub open spec fn decimal_of(n: nat) -> Seq<char>
    decreases n,
{
    if n < 10 {
        seq![decimal_digit(n as int)]
    } else {
        decimal_of(n / 10).push(decimal_digit((n % 10) as int))
    }
}

fn digit_char(d: u64) -> (c: char)
    requires
        d < 10,
    ensures
        c == decimal_digit(d as int),
{
    if d == 0 {
        '0'
    } else if d == 1 {
        '1'
    } else if d == 2 {
        '2'
    } else if d == 3 {
        '3'
    } else if d == 4 {
        '4'
    } else if d == 5 {
        '5'
    } else if d == 6 {
        '6'
    } else if d == 7 {
        '7'
    } else if d == 8 {
        '8'
    } else {
        '9'
    }
}

/// The decimal notation of `n`, as `u64`'s `Display` writes it.
pub fn decimal_text(n: u64) -> (r: String)
    ensures
        r@ == decimal_of(n as nat),
    decreases n,
{
    if n < 10 {
        let mut s = String::new();
        push_char(&mut s, digit_char(n));
        s
    } else {
        let mut s = decimal_text(n / 10);
        push_char(&mut s, digit_char(n % 10));
        s
    }
}

/// `s` without its leading whitespace, as `str::trim_start` gives it.
pub open spec fn trim_start_of(s: Seq<char>) -> Seq<char>
    decreases s.len(),
{
    if s.len() > 0 && is_space(s[0]) {
        trim_start_of(s.drop_first())
    } else {
        s
    }
}

/// `s` without its trailing whitespace, as `str::trim_end` gives it.
pub open spec fn trim_end_of(s: Seq<char>) -> Seq<char>
    decreases s.len(),
{
    if s.len() > 0 && is_space(s.last()) {
        trim_end_of(s.drop_last())
    } else {
        s
    }
}

/// `s` without leading and trailing whitespace, as `str::trim` gives it.
pub open spec fn trim_of(s: Seq<char>) -> Seq<char> {
    trim_end_of(trim_start_of(s))
}

pub open spec fn starts_with(s: Seq<char>, prefix: Seq<char>) -> bool {
    prefix.len() <= s.len() && s.take(prefix.len() as int) == prefix
}

/// The index of the first non-whitespace character of `cs[from..]`, or its
/// end.
pub fn skip_spaces(cs: &Vec<char>, from: usize) -> (k: usize)
    requires
        from <= cs@.len(),
    ensures
        from <= k <= cs@.len(),
        trim_start_of(cs@.skip(from as int)) == cs@.skip(k as int),
        k < cs@.len() ==> !is_space(cs@[k as int]),
        forall|j: int| from <= j < k ==> is_space(#[trigger] cs@[j]),
{
    let mut k = from;
    while k < cs.len() && is_space_char(cs[k])
        invariant
            from <= k <= cs@.len(),
            trim_start_of(cs@.skip(from as int)) == trim_start_of(cs@.skip(k as int)),
            forall|j: int| from <= j < k ==> is_space(#[trigger] cs@[j]),
        decreases cs@.len() - k,
    {
        assert(cs@.skip(k as int).drop_first() =~= cs@.skip(k + 1));
        k = k + 1;
    }
    k
}

/// The end of `cs[from..to]` once its trailing whitespace is dropped.
pub fn trailing_space_start(cs: &Vec<char>, from: usize, to: usize) -> (k: usize)
    requires
        from <= to <= cs@.len(),
    ensures
        from <= k <= to,
        trim_end_of(cs@.subrange(from as int, to as int)) == cs@.subrange(from as int, k as int),
{
    let mut k = to;
    while k > from && is_space_char(cs[k - 1])
        invariant
            from <= k <= to <= cs@.len(),
            trim_end_of(cs@.subrange(from as int, to as int)) == trim_end_of(
                cs@.subrange(from as int, k as int),
            ),
        decreases k,
    {
        assert(cs@.subrange(from as int, k as int).drop_last() =~= cs@.subrange(
            from as int,
            k - 1,
        ));
        k = k - 1;
    }
    k
}

/// The characters of `cs[from..to]` without surrounding whitespace.
pub fn trimmed_range(cs: &Vec<char>, from: usize, to: usize) -> (r: String)
    requires
        from <= to <= cs@.len(),
    ensures
        r@ == trim_of(cs@.subrange(from as int, to as int)),
{
    let part = string_of(cs, from, to);
    let pc = chars_of(part.as_str());
    let start = skip_spaces(&pc, 0);
    let end = trailing_space_start(&pc, start, pc.len());
    assert(pc@.skip(0) =~= pc@);
    assert(pc@.skip(start as int) =~= pc@.subrange(start as int, pc@.len() as int));
    string_of(&pc, start, end)
}

/// `s` without surrounding whitespace, as `str::trim` gives it.
pub fn trim_text(s: &str) -> (r: String)
    ensures
        r@ == trim_of(s@),
{
    let cs = chars_of(s);
    assert(cs@.subrange(0, cs@.len() as int) =~= cs@);
    trimmed_range(&cs, 0, cs.len())
}

/// `s` without leading whitespace, as `str::trim_start` gives it.
pub fn trim_start_text(s: &str) -> (r: String)
    ensures
        r@ == trim_start_of(s@),
{
    let cs = chars_of(s);
    let start = skip_spaces(&cs, 0);
    assert(cs@.skip(0) =~= cs@);
    assert(cs@.skip(start as int) =~= cs@.subrange(start as int, cs@.len() as int));
    string_of(&cs, start, cs.len())
}

/// Whether `s` begins with `prefix`.
pub fn starts_with_text(s: &str, prefix: &str) -> (r: bool)
    ensures
        r == starts_with(s@, prefix@),
{
    let cs = chars_of(s);
    let ps = chars_of(prefix);
    if ps.len() > cs.len() {
        assert(prefix@.len() > s@.len());
        assert(!starts_with(s@, prefix@));
        return false;
    }
    let mut i: usize = 0;
    while i < ps.len()
        invariant
            cs@ == s@,
            ps@ == prefix@,
            ps@.len() <= cs@.len(),
            i <= ps@.len(),
            forall|j: int| 0 <= j < i ==> cs@[j] == ps@[j],
        decreases ps@.len() - i,
    {
        if cs[i] != ps[i] {
            assert(cs@.take(ps@.len() as int)[i as int] != ps@[i as int]);
            assert(cs@.take(ps@.len() as int) != ps@);
            return false;
        }
        i = i + 1;
    }
    assert(cs@.take(ps@.len() as int) =~= ps@);
    true
}

/// Whether two texts are equal.
pub fn same_text(a: &str, b: &str) -> (r: bool)
    ensures
        r == (a@ == b@),
{
    let x = String::from_str(a);
    let y = String::from_str(b);
    x == y
}

/// Whether `pat` occurs in `s` at index `k`.
pub open spec fn occurs_at(s: Seq<char>, pat: Seq<char>, k: int) -> bool {
    0 <= k && k + pat.len() <= s.len() && s.subrange(k, k + pat.len()) == pat
}

/// The first index at or after `k` where `pat` occurs in `s`.
pub open spec fn find_from(s: Seq<char>, pat: Seq<char>, k: int) -> Option<int>
    decreases s.len() + 1 - k,
{
    if k < 0 || k + pat.len() > s.len() {
        None
    } else if occurs_at(s, pat, k) {
        Some(k)
    } else {
        find_from(s, pat, k + 1)
    }
}

pub proof fn lemma_find_from(s: Seq<char>, pat: Seq<char>, k: int)
    ensures
        find_from(s, pat, k) matches Some(j) ==> k <= j && occurs_at(s, pat, j),
    decreases s.len() + 1 - k,
{
    if !(k < 0 || k + pat.len() > s.len()) && !occurs_at(s, pat, k) {
        lemma_find_from(s, pat, k + 1);
    }
}

pub proof fn lemma_find_from_complete(s: Seq<char>, pat: Seq<char>, k: int, j: int)
    requires
        0 <= k <= j,
        occurs_at(s, pat, j),
    ensures
        find_from(s, pat, k) is Some,
    decreases j - k,
{
    if !occurs_at(s, pat, k) {
        lemma_find_from_complete(s, pat, k + 1, j);
    }
}

/// The index of the last occurrence of `c` in `s`, if any.
pub open spec fn last_index_of(s: Seq<char>, c: char) -> Option<int>
    decreases s.len(),
{
    if s.len() == 0 {
        None
    } else if s.last() == c {
        Some(s.len() - 1)
    } else {
        last_index_of(s.drop_last(), c)
    }
}

/// What follows the last `c` in `s`, or all of `s`: the first item of
/// `str::rsplit(c)`.
pub open spec fn after_last(s: Seq<char>, c: char) -> Seq<char> {
    match last_index_of(s, c) {
        Some(k) => s.skip(k + 1),
        None => s,
    }
}

pub proof fn lemma_last_index_of(s: Seq<char>, c: char)
    ensures
        last_index_of(s, c) matches Some(k) ==> 0 <= k < s.len() && s[k] == c,
    decreases s.len(),
{
    if s.len() > 0 && s.last() != c {
        lemma_last_index_of(s.drop_last(), c);
    }
}

/// The first occurrence of `pat` in `cs` at or after `from`.
pub fn find_text(cs: &Vec<char>, pat: &Vec<char>, from: usize) -> (r: Option<usize>)
    requires
        from <= cs@.len(),
    ensures
        match r {
            Some(k) => find_from(cs@, pat@, from as int) == Some(k as int) && k + pat@.len() <= cs@.len(),
            None => find_from(cs@, pat@, from as int) is None,
        },
{
    proof {
        lemma_find_from(cs@, pat@, from as int);
    }
    let mut k = from;
    while k < cs.len() && pat.len() <= cs.len() - k
        invariant
            from <= k <= cs@.len(),
            find_from(cs@, pat@, from as int) == find_from(cs@, pat@, k as int),
        decreases cs@.len() - k,
    {
        let mut j: usize = 0;
        let mut matched = true;
        while j < pat.len()
            invariant
                k + pat@.len() <= cs@.len(),
                k + pat@.len() <= cs.len(),
                j <= pat@.len(),
                matched ==> forall|t: int| 0 <= t < j ==> cs@[k + t] == pat@[t],
                !matched ==> !occurs_at(cs@, pat@, k as int),
            decreases pat@.len() - j,
        {
            if cs[k + j] != pat[j] {
                matched = false;
                assert(cs@.subrange(k as int, k + pat@.len())[j as int] != pat@[j as int]);
            }
            j = j + 1;
        }
        if matched {
            assert(cs@.subrange(k as int, k + pat@.len()) =~= pat@);
            return Some(k);
        }
        k = k + 1;
    }
    if k == cs.len() && pat.len() == 0 {
        assert(cs@.subrange(k as int, k as int) =~= pat@);
        return Some(k);
    }
    None
}

/// The index of the last `c` in `cs`, if any.
pub fn last_index_of_char(cs: &Vec<char>, c: char) -> (r: Option<usize>)
    ensures
        match r {
            Some(k) => last_index_of(cs@, c) == Some(k as int),
            None => last_index_of(cs@, c) is None,
        },
{
    let mut i = cs.len();
    assert(cs@.take(cs@.len() as int) =~= cs@);
    while i > 0
        invariant
            i <= cs@.len(),
            last_index_of(cs@, c) == last_index_of(cs@.take(i as int), c),
        decreases i,
    {
        assert(cs@.take(i as int).drop_last() =~= cs@.take(i - 1));
        if cs[i - 1] == c {
            return Some(i - 1);
        }
        i = i - 1;
    }
    None
}

/// What follows the last `c` in `s`, or all of `s`.
pub fn after_last_text(s: &str, c: char) -> (r: String)
    ensures
        r@ == after_last(s@, c),
{
    let cs = chars_of(s);
    proof {
        lemma_last_index_of(cs@, c);
    }
    match last_index_of_char(&cs, c) {
        Some(k) => {
            assert(k < cs.len());
            assert(cs@.skip(k + 1) =~= cs@.subrange(k + 1, cs@.len() as int));
            string_of(&cs, k + 1, cs.len())
        },
        None => {
            assert(cs@.subrange(0, cs@.len() as int) =~= cs@);
            string_of(&cs, 0, cs.len())
        },
    }
}

pub proof fn lemma_map_push<A, B>(s: Seq<A>, x: A, f: spec_fn(A) -> B)
    ensures
        s.push(x).map_values(f) == s.map_values(f).push(f(x)),
{
    assert(s.push(x).map_values(f) =~= s.map_values(f).push(f(x)));
}

pub proof fn lemma_map_concat<A, B>(s: Seq<A>, t: Seq<A>, f: spec_fn(A) -> B)
    ensures
        (s + t).map_values(f) == s.map_values(f) + t.map_values(f),
{
    assert((s + t).map_values(f) =~= s.map_values(f) + t.map_values(f));
}

} // verus!
