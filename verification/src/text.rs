//! Character-level text operations with exact specifications over `Seq<char>`.

use vstd::prelude::*;
use vstd::std_specs::iter::IteratorSpec;
use vstd::string::*;

verus! {

/// `String::push` appends one character at the end of the string and changes
/// nothing before it.
pub assume_specification[ String::push ](s: &mut String, ch: char)
    ensures
        final(s)@ == old(s)@.push(ch),
;

/// `pat` occurs in `s` starting at index `at`.
pub open spec fn matches_at(s: Seq<char>, at: int, pat: Seq<char>) -> bool {
    0 <= at && at + pat.len() <= s.len() && s.subrange(at, at + pat.len()) == pat
}

/// The first index at or after `from` at which `pat` occurs in `s`.
pub open spec fn find_from(s: Seq<char>, pat: Seq<char>, from: int) -> Option<int>
    decreases s.len() - pat.len() - from + 1,
{
    if from < 0 || from + pat.len() > s.len() {
        None
    } else if matches_at(s, from, pat) {
        Some(from)
    } else {
        find_from(s, pat, from + 1)
    }
}

/// The index of the first occurrence of `pat` in `s`.
pub open spec fn find(s: Seq<char>, pat: Seq<char>) -> Option<int> {
    find_from(s, pat, 0)
}

/// `pat` occurs somewhere in `s`.
pub open spec fn contains(s: Seq<char>, pat: Seq<char>) -> bool {
    find(s, pat) is Some
}

/// `find_from` returns the least matching index at or after `from`, and
/// `None` exactly when there is none.
pub proof fn lemma_find_from(s: Seq<char>, pat: Seq<char>, from: int)
    requires
        0 <= from,
    ensures
        match find_from(s, pat, from) {
            Some(i) => from <= i && matches_at(s, i, pat) && forall|j: int|
                from <= j < i ==> !matches_at(s, j, pat),
            None => forall|j: int| from <= j ==> !matches_at(s, j, pat),
        },
    decreases s.len() - pat.len() - from + 1,
{
    if from + pat.len() > s.len() {
    } else if matches_at(s, from, pat) {
    } else {
        lemma_find_from(s, pat, from + 1);
    }
}

/// An index that matches, with no match between `from` and it, is what
/// `find_from` returns.
pub proof fn lemma_find_from_is(s: Seq<char>, pat: Seq<char>, from: int, at: int)
    requires
        0 <= from <= at,
        matches_at(s, at, pat),
        forall|j: int| from <= j < at ==> !matches_at(s, j, pat),
    ensures
        find_from(s, pat, from) == Some(at),
    decreases at - from,
{
    if from < at {
        lemma_find_from_is(s, pat, from + 1, at);
    }
}

/// The characters of `s`, in order.
pub fn chars_of(s: &str) -> (out: Vec<char>)
    ensures
        out@ == s@,
{
    let mut out: Vec<char> = Vec::new();
    let mut it = s.chars();
    loop
        invariant
            out@ + it.remaining() == s@,
            it.decrease() is Some,
        ensures
            out@ == s@,
        decreases it.decrease()->0,
    {
        match it.next() {
            Some(c) => {
                out.push(c);
            },
            None => {
                assert(out@ + it.remaining() =~= out@);
                break ;
            },
        }
    }
    out
}

/// The string made of the characters `v[from..to]`.
pub fn string_of(v: &Vec<char>, from: usize, to: usize) -> (out: String)
    requires
        from <= to <= v.len(),
    ensures
        out@ == v@.subrange(from as int, to as int),
{
    let mut out = String::new();
    let mut i: usize = from;
    while i < to
        invariant
            from <= i <= to <= v.len(),
            out@ == v@.subrange(from as int, i as int),
        decreases to - i,
    {
        out.push(v[i]);
        i += 1;
        assert(out@ =~= v@.subrange(from as int, i as int));
    }
    out
}

/// Whether `pat` occurs in `s` at index `at`.
pub fn occurs_at(s: &Vec<char>, at: usize, pat: &Vec<char>) -> (found: bool)
    ensures
        found == matches_at(s@, at as int, pat@),
{
    if at > s.len() || pat.len() > s.len() - at {
        return false;
    }
    let mut k: usize = 0;
    while k < pat.len()
        invariant
            at + pat.len() <= s.len(),
            k <= pat.len(),
            forall|j: int| 0 <= j < k ==> s@[at + j] == pat@[j],
        decreases pat.len() - k,
    {
        if s[at + k] != pat[k] {
            assert(s@.subrange(at as int, at + pat.len())[k as int] != pat@[k as int]);
            return false;
        }
        k += 1;
    }
    assert(s@.subrange(at as int, at + pat.len()) =~= pat@);
    true
}

/// The index of the first occurrence of `pat` in `s` at or after `from`.
pub fn find_in(s: &Vec<char>, pat: &Vec<char>, from: usize) -> (found: Option<usize>)
    ensures
        match found {
            Some(i) => find_from(s@, pat@, from as int) == Some(i as int) && from <= i && i
                + pat.len() <= s.len(),
            None => find_from(s@, pat@, from as int) is None,
        },
{
    let mut i: usize = from;
    while i <= s.len() && pat.len() <= s.len() - i
        invariant
            from <= i,
            find_from(s@, pat@, from as int) == find_from(s@, pat@, i as int),
        decreases s.len() - i,
    {
        if occurs_at(s, i, pat) {
            return Some(i);
        }
        proof {
            if pat.len() == 0 {
                assert(s@.subrange(i as int, i as int) =~= pat@);
            }
        }
        i += 1;
    }
    None
}

/// The line feed, as a one-character pattern.
pub open spec fn newline() -> Seq<char> {
    seq!['\n']
}

/// `line` without one trailing carriage return.
pub open spec fn strip_cr(line: Seq<char>) -> Seq<char> {
    if line.len() > 0 && line.last() == '\r' {
        line.drop_last()
    } else {
        line
    }
}

/// The lines of `s` from index `from` on. A line ends at a line feed; a
/// carriage return directly before that line feed belongs to the line ending.
/// The last line needs no line feed, and an empty rest holds no line.
pub open spec fn lines_from(s: Seq<char>, from: int) -> Seq<Seq<char>>
    decreases s.len() - from,
{
    if from < 0 || from >= s.len() {
        Seq::empty()
    } else {
        let end = find_from(s, newline(), from);
        if end is Some && from <= end->0 < s.len() {
            seq![strip_cr(s.subrange(from, end->0))] + lines_from(s, end->0 + 1)
        } else {
            seq![s.subrange(from, s.len() as int)]
        }
    }
}

/// The lines of `s`.
pub open spec fn lines(s: Seq<char>) -> Seq<Seq<char>> {
    lines_from(s, 0)
}

/// `parts` written one after another with `sep` between neighbours.
pub open spec fn join(parts: Seq<Seq<char>>, sep: Seq<char>) -> Seq<char>
    decreases parts.len(),
{
    if parts.len() == 0 {
        Seq::empty()
    } else if parts.len() == 1 {
        parts[0]
    } else {
        join(parts.drop_last(), sep) + sep + parts.last()
    }
}

/// The characters with the Unicode property `White_Space`.
pub open spec fn is_space(c: char) -> bool {
    let n = c as u32;
    ||| 0x09 <= n <= 0x0d
    ||| n == 0x20
    ||| n == 0x85
    ||| n == 0xa0
    ||| n == 0x1680
    ||| 0x2000 <= n <= 0x200a
    ||| n == 0x2028
    ||| n == 0x2029
    ||| n == 0x202f
    ||| n == 0x205f
    ||| n == 0x3000
}

/// `s` without its leading white space.
pub open spec fn trim_start(s: Seq<char>) -> Seq<char>
    decreases s.len(),
{
    if s.len() > 0 && is_space(s[0]) {
        trim_start(s.drop_first())
    } else {
        s
    }
}

/// `s` without its trailing white space.
pub open spec fn trim_end(s: Seq<char>) -> Seq<char>
    decreases s.len(),
{
    if s.len() > 0 && is_space(s.last()) {
        trim_end(s.drop_last())
    } else {
        s
    }
}

/// `s` without leading and trailing white space.
pub open spec fn trim(s: Seq<char>) -> Seq<char> {
    trim_end(trim_start(s))
}

/// The decimal digit for `d`, for `d` below ten.
pub open spec fn digit(d: nat) -> char {
    (48 + d) as u8 as char
}

/// `n` in decimal notation, without leading zeros.
pub open spec fn decimal(n: nat) -> Seq<char>
    decreases n,
{
    if n < 10 {
        seq![digit(n)]
    } else {
        decimal(n / 10).push(digit(n % 10))
    }
}

/// `n` in decimal notation, with a minus sign when negative.
pub open spec fn decimal_signed(n: int) -> Seq<char> {
    if n < 0 {
        seq!['-'] + decimal((-n) as nat)
    } else {
        decimal(n as nat)
    }
}

/// Whether `c` is white space.
pub fn is_whitespace(c: char) -> (r: bool)
    ensures
        r == is_space(c),
{
    let n: u32 = c as u32;
    (0x09 <= n && n <= 0x0d) || n == 0x20 || n == 0x85 || n == 0xa0 || n == 0x1680 || (0x2000 <= n
        && n <= 0x200a) || n == 0x2028 || n == 0x2029 || n == 0x202f || n == 0x205f || n == 0x3000
}

/// The lines of `s`, each as a string of its own.
pub fn split_lines(s: &str) -> (out: Vec<String>)
    ensures
        out.deep_view() == lines(s@),
{
    let chars = chars_of(s);
    let nl: Vec<char> = vec!['\n'];
    let mut out: Vec<String> = Vec::new();
    let mut start: usize = 0;
    assert(nl@ =~= newline());
    assert(out.deep_view() =~= Seq::<Seq<char>>::empty());
    while start < chars.len()
        invariant
            chars@ == s@,
            nl@ == newline(),
            start <= chars.len(),
            lines(s@) == out.deep_view() + lines_from(s@, start as int),
        decreases chars.len() - start,
    {
        let ghost before = out.deep_view();
        proof {
            lemma_find_from(s@, newline(), start as int);
        }
        match find_in(&chars, &nl, start) {
            Some(end) => {
                let stop: usize = if end > start && chars[end - 1] == '\r' {
                    end - 1
                } else {
                    end
                };
                let line = string_of(&chars, start, stop);
                assert(line@ =~= strip_cr(s@.subrange(start as int, end as int)));
                out.push(line);
                assert(out.deep_view() =~= before.push(line@));
                assert(before + (seq![line@] + lines_from(s@, end + 1)) =~= before.push(line@)
                    + lines_from(s@, end + 1));
                start = end + 1;
            },
            None => {
                let line = string_of(&chars, start, chars.len());
                out.push(line);
                assert(out.deep_view() =~= before.push(line@));
                assert(lines_from(s@, chars.len() as int) =~= Seq::<Seq<char>>::empty());
                assert(before + seq![line@] =~= before.push(line@) + Seq::<Seq<char>>::empty());
                start = chars.len();
            },
        }
    }
    assert(lines_from(s@, start as int) =~= Seq::<Seq<char>>::empty());
    assert(out.deep_view() + Seq::<Seq<char>>::empty() =~= out.deep_view());
    out
}

/// `parts` written one after another with `sep` between neighbours.
pub fn join_with(parts: &Vec<String>, sep: &str) -> (out: String)
    ensures
        out@ == join(parts.deep_view(), sep@),
{
    let mut out = String::new();
    let mut i: usize = 0;
    while i < parts.len()
        invariant
            i <= parts.len(),
            out@ == join(parts.deep_view().take(i as int), sep@),
        decreases parts.len() - i,
    {
        let ghost prefix = parts.deep_view().take(i as int);
        let ghost next = parts.deep_view().take(i + 1);
        assert(next.drop_last() =~= prefix);
        assert(next.last() == parts@[i as int]@);
        if i > 0 {
            out.append(sep);
        }
        out.append(parts[i].as_str());
        proof {
            if i == 0 {
                assert(out@ =~= parts@[0]@);
            }
        }
        i += 1;
    }
    assert(parts.deep_view().take(parts.len() as int) =~= parts.deep_view());
    out
}

/// `s` without leading and trailing white space.
pub fn trimmed(s: &str) -> (out: String)
    ensures
        out@ == trim(s@),
{
    let chars = chars_of(s);
    let mut from: usize = 0;
    assert(chars@.subrange(0, chars.len() as int) =~= chars@);
    while from < chars.len() && is_whitespace(chars[from])
        invariant
            from <= chars.len(),
            trim_start(chars@) == trim_start(chars@.subrange(from as int, chars.len() as int)),
        decreases chars.len() - from,
    {
        assert(chars@.subrange(from as int, chars.len() as int).drop_first() =~= chars@.subrange(
            from + 1,
            chars.len() as int,
        ));
        from += 1;
    }
    let mut to: usize = chars.len();
    while to > from && is_whitespace(chars[to - 1])
        invariant
            from <= to <= chars.len(),
            trim_start(chars@) == chars@.subrange(from as int, chars.len() as int),
            trim(chars@) == trim_end(chars@.subrange(from as int, to as int)),
        decreases to - from,
    {
        assert(chars@.subrange(from as int, to as int).drop_last() =~= chars@.subrange(
            from as int,
            to - 1,
        ));
        to -= 1;
    }
    string_of(&chars, from, to)
}

/// `n` in decimal notation.
pub fn decimal_of(n: u64) -> (out: String)
    ensures
        out@ == decimal(n as nat),
    decreases n,
{
    let d: u8 = (n % 10) as u8;
    let c: char = (48u8 + d) as char;
    if n < 10 {
        let mut out = String::new();
        out.push(c);
        assert(out@ =~= seq![digit(n as nat)]);
        out
    } else {
        let mut out = decimal_of(n / 10);
        out.push(c);
        out
    }
}

/// `n` in decimal notation, with a minus sign when negative.
pub fn decimal_of_signed(n: i64) -> (out: String)
    ensures
        out@ == decimal_signed(n as int),
{
    if n < 0 {
        let magnitude: u64 = if n == i64::MIN {
            9223372036854775808u64
        } else {
            (-n) as u64
        };
        let digits = decimal_of(magnitude);
        let mut out = String::new();
        out.push('-');
        out.append(digits.as_str());
        assert(out@ =~= seq!['-'] + decimal((-n) as nat));
        out
    } else {
        decimal_of(n as u64)
    }
}

/// Whether `a` and `b` hold the same characters.
pub fn same(a: &str, b: &str) -> (r: bool)
    ensures
        r == (a@ == b@),
{
    let mut x = a.chars();
    let mut y = b.chars();
    let ghost mut done: Seq<char> = Seq::empty();
    loop
        invariant
            done + x.remaining() == a@,
            done + y.remaining() == b@,
            x.decrease() is Some,
            y.decrease() is Some,
        decreases x.decrease()->0,
    {
        let ghost xs = x.remaining();
        let ghost ys = y.remaining();
        match x.next() {
            Some(c) => {
                match y.next() {
                    Some(d) => {
                        if c != d {
                            assert(a@[done.len() as int] == c);
                            assert(b@[done.len() as int] == d);
                            return false;
                        }
                        proof {
                            assert(done.push(c) + x.remaining() =~= done + xs);
                            assert(done.push(c) + y.remaining() =~= done + ys);
                            done = done.push(c);
                        }
                    },
                    None => {
                        assert(a@.len() != b@.len());
                        return false;
                    },
                }
            },
            None => {
                match y.next() {
                    Some(d) => {
                        assert(a@.len() != b@.len());
                        return false;
                    },
                    None => {
                        assert(xs =~= ys);
                        return true;
                    },
                }
            },
        }
    }
}

/// The characters `v[from..to]`.
pub fn slice(v: &Vec<char>, from: usize, to: usize) -> (out: Vec<char>)
    requires
        from <= to <= v.len(),
    ensures
        out@ == v@.subrange(from as int, to as int),
{
    let mut out: Vec<char> = Vec::new();
    let mut i: usize = from;
    while i < to
        invariant
            from <= i <= to <= v.len(),
            out@ == v@.subrange(from as int, i as int),
        decreases to - i,
    {
        out.push(v[i]);
        i += 1;
        assert(out@ =~= v@.subrange(from as int, i as int));
    }
    out
}

/// Where `pat` does not occur in `s`, it occurs at no index.
pub proof fn lemma_not_contained(s: Seq<char>, pat: Seq<char>)
    requires
        !contains(s, pat),
    ensures
        forall|j: int| !matches_at(s, j, pat),
{
    lemma_find_from(s, pat, 0);
}

/// The text between two fixed parts.
pub open spec fn framed(before: Seq<char>, inner: Seq<char>, after: Seq<char>) -> Seq<char> {
    before + inner + after
}

/// `a` followed by `b`.
pub fn chain(a: &str, b: &str) -> (out: String)
    ensures
        out@ == a@ + b@,
{
    let mut out = String::new();
    out.append(a);
    out.append(b);
    assert(out@ =~= a@ + b@);
    out
}

/// `before`, `inner` and `after` in one string.
pub fn frame(before: &str, inner: &str, after: &str) -> (out: String)
    ensures
        out@ == framed(before@, inner@, after@),
{
    let mut out = String::new();
    out.append(before);
    out.append(inner);
    out.append(after);
    assert(out@ =~= framed(before@, inner@, after@));
    out
}

/// `s` without the characters `c` at its end.
pub open spec fn without_trailing(s: Seq<char>, c: char) -> Seq<char>
    decreases s.len(),
{
    if s.len() > 0 && s.last() == c {
        without_trailing(s.drop_last(), c)
    } else {
        s
    }
}

/// `s` without the characters `c` at its end.
pub fn strip_trailing(s: &str, c: char) -> (out: String)
    ensures
        out@ == without_trailing(s@, c),
{
    let chars = chars_of(s);
    let mut to: usize = chars.len();
    assert(chars@.subrange(0, to as int) =~= chars@);
    while to > 0 && chars[to - 1] == c
        invariant
            to <= chars.len(),
            without_trailing(chars@, c) == without_trailing(chars@.subrange(0, to as int), c),
        decreases to,
    {
        assert(chars@.subrange(0, to as int).drop_last() =~= chars@.subrange(0, to - 1));
        to -= 1;
    }
    string_of(&chars, 0, to)
}

/// `s` without its leading white space.
pub fn trimmed_start(s: &str) -> (out: String)
    ensures
        out@ == trim_start(s@),
{
    let chars = chars_of(s);
    let mut from: usize = 0;
    assert(chars@.subrange(0, chars.len() as int) =~= chars@);
    while from < chars.len() && is_whitespace(chars[from])
        invariant
            from <= chars.len(),
            trim_start(chars@) == trim_start(chars@.subrange(from as int, chars.len() as int)),
        decreases chars.len() - from,
    {
        assert(chars@.subrange(from as int, chars.len() as int).drop_first() =~= chars@.subrange(
            from + 1,
            chars.len() as int,
        ));
        from += 1;
    }
    string_of(&chars, from, chars.len())
}

/// Whether `s` begins with `prefix`.
pub fn starts_with(s: &str, prefix: &str) -> (out: bool)
    ensures
        out == prefix@.is_prefix_of(s@),
{
    let chars = chars_of(s);
    let lead = chars_of(prefix);
    occurs_at(&chars, 0, &lead)
}

/// What follows `prefix` in `s`, where `s` begins with it.
pub fn after_prefix(s: &str, prefix: &str) -> (out: Option<String>)
    ensures
        match out {
            Some(rest) => prefix@.is_prefix_of(s@) && rest@ == s@.subrange(
                prefix@.len() as int,
                s@.len() as int,
            ),
            None => !prefix@.is_prefix_of(s@),
        },
{
    let chars = chars_of(s);
    let lead = chars_of(prefix);
    if occurs_at(&chars, 0, &lead) {
        Some(string_of(&chars, lead.len(), chars.len()))
    } else {
        None
    }
}

} // verus!
