//! Character-level helpers on strings, each with its specification.

use vstd::prelude::*;

verus! {

/// `String::push` of std: appends one character.
#[verifier::external_body]
pub(crate) fn push_char(s: &mut String, c: char)
    ensures
        final(s)@ == old(s)@.push(c),
{
    s.push(c);
}

/// The characters of `s`, in order.
pub fn chars_of(s: &str) -> (v: Vec<char>)
    ensures
        v@ == s@,
{
    let mut v: Vec<char> = Vec::new();
    for c in it: s.chars()
        invariant
            v@ == it.seq().take(it.index()),
    {
        v.push(c);
    }
    v
}


/// The characters of `s` from `from` (inclusive) to `to` (exclusive).
pub fn substring(s: &[char], from: usize, to: usize) -> (r: String)
    requires
        from <= to <= s@.len(),
    ensures
        r@ == s@.subrange(from as int, to as int),
{
    let mut r = String::new();
    let mut i = from;
    while i < to
        invariant
            from <= i <= to <= s@.len(),
            r@ == s@.subrange(from as int, i as int),
        decreases to - i,
    {
        push_char(&mut r, s[i]);
        assert(s@.subrange(from as int, i + 1) == s@.subrange(from as int, i as int).push(s@[i as int]));
        i = i + 1;
    }
    r
}

/// The decimal digit for `d < 10`.
pub open spec fn digit_char(d: nat) -> char {
    if d == 0 { '0' }
    else if d == 1 { '1' }
    else if d == 2 { '2' }
    else if d == 3 { '3' }
    else if d == 4 { '4' }
    else if d == 5 { '5' }
    else if d == 6 { '6' }
    else if d == 7 { '7' }
    else if d == 8 { '8' }
    else { '9' }
}

/// The decimal numeral of `n`, without sign or leading zeros.
pub open spec fn decimal(n: nat) -> Seq<char>
    decreases n,
{
    if n < 10 {
        seq![digit_char(n)]
    } else {
        decimal(n / 10).push(digit_char(n % 10))
    }
}

pub(crate) fn digit_of(d: u64) -> (c: char)
    requires
        d < 10,
    ensures
        c == digit_char(d as nat),
{
    if d == 0 { '0' }
    else if d == 1 { '1' }
    else if d == 2 { '2' }
    else if d == 3 { '3' }
    else if d == 4 { '4' }
    else if d == 5 { '5' }
    else if d == 6 { '6' }
    else if d == 7 { '7' }
    else if d == 8 { '8' }
    else { '9' }
}

/// Appends the decimal numeral of `n` to `s`.
pub fn push_decimal(s: &mut String, n: u64)
    ensures
        final(s)@ == old(s)@ + decimal(n as nat),
    decreases n,
{
    if n < 10 {
        push_char(s, digit_of(n));
    } else {
        push_decimal(s, n / 10);
        push_char(s, digit_of(n % 10));
    }
}

/// The Unicode `White_Space` property, which `char::is_whitespace` tests.
pub open spec fn is_white_space(c: char) -> bool {
    let u = c as u32;
    (0x9 <= u <= 0xd) || u == 0x20 || u == 0x85 || u == 0xa0 || u == 0x1680
        || (0x2000 <= u <= 0x200a) || u == 0x2028 || u == 0x2029 || u == 0x202f
        || u == 0x205f || u == 0x3000
}

/// Whether `c` has the Unicode `White_Space` property.
pub fn white_space(c: char) -> (b: bool)
    ensures
        b == is_white_space(c),
{
    let u = c as u32;
    (0x9 <= u && u <= 0xd) || u == 0x20 || u == 0x85 || u == 0xa0 || u == 0x1680
        || (0x2000 <= u && u <= 0x200a) || u == 0x2028 || u == 0x2029 || u == 0x202f
        || u == 0x205f || u == 0x3000
}

/// `s` without its trailing white space.
pub open spec fn trim_end(s: Seq<char>) -> Seq<char>
    decreases s.len(),
{
    if s.len() > 0 && is_white_space(s.last()) {
        trim_end(s.drop_last())
    } else {
        s
    }
}

/// White space after index `k` makes no difference to the trimmed text.
pub proof fn lemma_trim_end_prefix(s: Seq<char>, k: int)
    requires
        0 <= k <= s.len(),
        forall|j: int| k <= j < s.len() ==> is_white_space(#[trigger] s[j]),
    ensures
        trim_end(s) == trim_end(s.take(k)),
    decreases s.len() - k,
{
    if k < s.len() {
        assert(s.drop_last() =~= s.take(s.len() - 1));
        lemma_trim_end_prefix(s.take(s.len() - 1), k);
        assert(s.take(s.len() - 1).take(k) =~= s.take(k));
    } else {
        assert(s.take(k) =~= s);
    }
}

/// The characters of `s` without trailing white space (`str::trim_end`).
pub fn trim_end_of(s: &[char]) -> (r: String)
    ensures
        r@ == trim_end(s@),
{
    let mut k = s.len();
    while k > 0 && white_space(s[k - 1])
        invariant
            k <= s@.len(),
            forall|j: int| k <= j < s@.len() ==> is_white_space(#[trigger] s@[j]),
        decreases k,
    {
        k = k - 1;
    }
    proof {
        lemma_trim_end_prefix(s@, k as int);
        let t = s@.take(k as int);
        assert(t.len() == 0 || !is_white_space(t.last()));
    }
    substring(s, 0, k)
}

/// The index of the first `c` in `s` at or after `from`, if any.
pub open spec fn find_from(s: Seq<char>, c: char, from: int) -> Option<int>
    decreases s.len() - from,
{
    if from >= s.len() || from < 0 {
        None
    } else if s[from] == c {
        Some(from)
    } else {
        find_from(s, c, from + 1)
    }
}

/// The line of `s` that ends before index `end`: without a final carriage return.
pub open spec fn strip_cr(line: Seq<char>) -> Seq<char> {
    if line.len() > 0 && line.last() == '\r' {
        line.drop_last()
    } else {
        line
    }
}

/// The lines of `s[from..]`, as `str::lines` gives them: split after each `\n`,
/// the `\n` and a `\r` just before it dropped, and no empty last line.
pub open spec fn lines_from(s: Seq<char>, from: int) -> Seq<Seq<char>>
    decreases s.len() - from,
{
    if from < 0 || from >= s.len() {
        seq![]
    } else {
        match find_from(s, '\n', from) {
            None => seq![s.subrange(from, s.len() as int)],
            Some(i) => {
                proof {
                    lemma_find_from_bounds(s, '\n', from);
                }
                seq![strip_cr(s.subrange(from, i))] + lines_from(s, i + 1)
            },
        }
    }
}

/// The lines of `s` (`str::lines`).
pub open spec fn lines(s: Seq<char>) -> Seq<Seq<char>> {
    lines_from(s, 0)
}

pub proof fn lemma_find_from_bounds(s: Seq<char>, c: char, from: int)
    ensures
        find_from(s, c, from) matches Some(i) ==> from <= i < s.len() && s[i] == c
            && forall|j: int| from <= j < i ==> s[j] != c,
        from >= 0 && find_from(s, c, from) is None ==> forall|j: int|
            from <= j < s.len() ==> s[j] != c,
    decreases s.len() - from,
{
    if from >= 0 && from < s.len() && s[from] != c {
        lemma_find_from_bounds(s, c, from + 1);
    }
}

/// The first `limit` lines of `s` (`str::lines` followed by `take`).
pub fn first_lines(s: &[char], limit: usize) -> (r: Vec<String>)
    ensures
        r@.map_values(|l: String| l@) == lines(s@).take(
            if limit <= lines(s@).len() { limit as int } else { lines(s@).len() as int },
        ),
{
    let mut r: Vec<String> = Vec::new();
    let n = s.len();
    let mut from: usize = 0;
    let ghost total = lines(s@);
    proof {
        lemma_lines_len(s@, 0);
    }
    while from < n && r.len() < limit
        invariant
            n == s@.len(),
            from <= n,
            r.len() <= limit,
            total == lines(s@),
            lines_from(s@, 0) == r@.map_values(|l: String| l@) + lines_from(s@, from as int),
        decreases n - from,
    {
        let mut i = from;
        while i < n && s[i] != '\n'
            invariant
                from <= i <= n,
                n == s@.len(),
                forall|j: int| from <= j < i ==> s@[j] != '\n',
            decreases n - i,
        {
            i = i + 1;
        }
        proof {
            lemma_find_from_is(s@, '\n', from as int, i as int);
        }
        let ghost old_r = r@.map_values(|l: String| l@);
        if i == n {
            r.push(substring(s, from, n));
            from = n;
        } else {
            let end = if i > from && s[i - 1] == '\r' { i - 1 } else { i };
            let line = substring(s, from, end);
            proof {
                assert(line@ == strip_cr(s@.subrange(from as int, i as int)));
            }
            r.push(line);
            from = i + 1;
        }
        proof {
            assert(r@.map_values(|l: String| l@) =~= old_r.push(r@.last()@));
            assert(lines_from(s@, 0) =~= r@.map_values(|l: String| l@) + lines_from(s@, from as int));
        }
    }
    proof {
        let m = r@.map_values(|l: String| l@);
        if from >= n {
            assert(lines_from(s@, from as int) =~= Seq::<Seq<char>>::empty());
            assert(total =~= m);
        } else {
            assert(total.take(limit as int) =~= m);
        }
        lemma_lines_len(s@, from as int);
    }
    r
}

proof fn lemma_find_from_is(s: Seq<char>, c: char, from: int, i: int)
    requires
        0 <= from <= i <= s.len(),
        forall|j: int| from <= j < i ==> s[j] != c,
        i == s.len() || s[i] == c,
    ensures
        i == s.len() ==> find_from(s, c, from) is None,
        i < s.len() ==> find_from(s, c, from) == Some(i),
    decreases i - from,
{
    if from < i {
        lemma_find_from_is(s, c, from + 1, i);
    }
}

proof fn lemma_lines_len(s: Seq<char>, from: int)
    ensures
        lines_from(s, from).len() <= if from < 0 || from >= s.len() { 0 } else { s.len() - from },
    decreases s.len() - from,
{
    if from >= 0 && from < s.len() {
        lemma_find_from_bounds(s, '\n', from);
        if let Some(i) = find_from(s, '\n', from) {
            lemma_lines_len(s, i + 1);
        }
    }
}


/// `str::lines` never gives more lines than the text has characters.
pub proof fn lemma_lines_bounded(s: Seq<char>)
    ensures
        lines(s).len() <= s.len(),
{
    lemma_lines_len(s, 0);
}

} // verus!
