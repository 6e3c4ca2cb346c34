//! Character-level text utilities shared by the parsers: whitespace, trimming,
//! splitting on a separator, line splitting and string equality, each stated
//! over `Seq<char>`.
use vstd::prelude::*;

verus! {

broadcast use vstd::string::group_string_axioms;

/// The Unicode `White_Space` property, which is what `char::is_whitespace` tests.
pub open spec fn is_ws(c: char) -> bool {
    let u = c as u32;
    ||| 0x9 <= u <= 0xd
    ||| u == 0x20
    ||| u == 0x85
    ||| u == 0xa0
    ||| u == 0x1680
    ||| 0x2000 <= u <= 0x200a
    ||| u == 0x2028
    ||| u == 0x2029
    ||| u == 0x202f
    ||| u == 0x205f
    ||| u == 0x3000
}

pub fn is_whitespace(c: char) -> (b: bool)
    ensures
        b == is_ws(c),
{
    let u = c as u32;
    (0x9 <= u && u <= 0xd) || u == 0x20 || u == 0x85 || u == 0xa0 || u == 0x1680 || (0x2000 <= u
        && u <= 0x200a) || u == 0x2028 || u == 0x2029 || u == 0x202f || u == 0x205f || u == 0x3000
}

/// `s` without its leading whitespace.
pub open spec fn trim_start(s: Seq<char>) -> Seq<char>
    decreases s.len(),
{
    if s.len() > 0 && is_ws(s[0]) {
        trim_start(s.drop_first())
    } else {
        s
    }
}

/// `s` without its trailing whitespace.
pub open spec fn trim_end(s: Seq<char>) -> Seq<char>
    decreases s.len(),
{
    if s.len() > 0 && is_ws(s.last()) {
        trim_end(s.drop_last())
    } else {
        s
    }
}

/// `s` without leading and trailing whitespace (what `str::trim` returns).
pub open spec fn trim(s: Seq<char>) -> Seq<char> {
    trim_end(trim_start(s))
}

/// `s` without its trailing occurrences of `c` (what `str::trim_end_matches(c)` returns).
pub open spec fn trim_end_char(s: Seq<char>, c: char) -> Seq<char>
    decreases s.len(),
{
    if s.len() > 0 && s.last() == c {
        trim_end_char(s.drop_last(), c)
    } else {
        s
    }
}

/// The pieces of `s` between occurrences of `sep`, processed left to right:
/// `cur` is the piece being read and `acc` the pieces already complete.
pub open spec fn split_from(s: Seq<char>, sep: char, cur: Seq<char>, acc: Seq<Seq<char>>) -> Seq<
    Seq<char>,
>
    decreases s.len(),
{
    if s.len() == 0 {
        acc.push(cur)
    } else if s[0] == sep {
        split_from(s.drop_first(), sep, Seq::empty(), acc.push(cur))
    } else {
        split_from(s.drop_first(), sep, cur.push(s[0]), acc)
    }
}

/// What `str::split(sep)` yields: always at least one piece.
pub open spec fn split_on(s: Seq<char>, sep: char) -> Seq<Seq<char>> {
    split_from(s, sep, Seq::empty(), Seq::empty())
}

/// A line that ended with a line feed loses one trailing carriage return.
pub open spec fn strip_cr(s: Seq<char>) -> Seq<char> {
    if s.len() > 0 && s.last() == '\r' {
        s.drop_last()
    } else {
        s
    }
}

/// The lines of `s` read left to right, as `str::lines` yields them: split at
/// each `'\n'`, a `"\r\n"` ending counts as one line ending, and a final line
/// ending adds no empty line.
pub open spec fn lines_from(s: Seq<char>, cur: Seq<char>, acc: Seq<Seq<char>>) -> Seq<Seq<char>>
    decreases s.len(),
{
    if s.len() == 0 {
        if cur.len() == 0 {
            acc
        } else {
            acc.push(cur)
        }
    } else if s[0] == '\n' {
        lines_from(s.drop_first(), Seq::empty(), acc.push(strip_cr(cur)))
    } else {
        lines_from(s.drop_first(), cur.push(s[0]), acc)
    }
}

pub open spec fn lines(s: Seq<char>) -> Seq<Seq<char>> {
    lines_from(s, Seq::empty(), Seq::empty())
}

/// The pieces joined with `sep` between consecutive ones.
pub open spec fn join(pieces: Seq<Seq<char>>, sep: Seq<char>) -> Seq<char>
    decreases pieces.len(),
{
    if pieces.len() == 0 {
        Seq::empty()
    } else if pieces.len() == 1 {
        pieces[0]
    } else {
        join(pieces.drop_last(), sep) + sep + pieces.last()
    }
}

/// Whether `s` begins with `prefix`.
pub open spec fn has_prefix(s: Seq<char>, prefix: Seq<char>) -> bool {
    prefix.len() <= s.len() && s.subrange(0, prefix.len() as int) == prefix
}

/// Whether `s` ends with `suffix`.
pub open spec fn has_suffix(s: Seq<char>, suffix: Seq<char>) -> bool {
    suffix.len() <= s.len() && s.subrange(s.len() - suffix.len(), s.len() as int) == suffix
}

/// Whether `needle` occurs in `s` at index `i`.
pub open spec fn occurs_at(s: Seq<char>, needle: Seq<char>, i: int) -> bool {
    0 <= i && i + needle.len() <= s.len() && s.subrange(i, i + needle.len()) == needle
}

/// Whether `needle` occurs anywhere in `s` (what `str::contains` tests).
pub open spec fn contains_seq(s: Seq<char>, needle: Seq<char>) -> bool {
    exists|i: int| occurs_at(s, needle, i)
}

/// The code of `c` once upper-cased, where it is an ASCII lower-case letter.
pub open spec fn ascii_upper_code(c: char) -> u32 {
    if 97 <= (c as u32) <= 122 {
        (c as u32 - 32) as u32
    } else {
        c as u32
    }
}

/// The code of `c` once lower-cased, where it is an ASCII upper-case letter.
pub open spec fn ascii_lower_code(c: char) -> u32 {
    if 65 <= (c as u32) <= 90 {
        (c as u32 + 32) as u32
    } else {
        c as u32
    }
}

/// Whether `s` equals `target` once its ASCII letters are upper-cased. For a
/// `target` of ASCII capitals and punctuation this is what
/// `s.to_uppercase() == target` tests: no other character upper-cases to an
/// ASCII capital among A, D, N, O, R, T.
pub open spec fn eq_upper(s: Seq<char>, target: Seq<char>) -> bool {
    s.len() == target.len() && forall|i: int|
        0 <= i < s.len() ==> ascii_upper_code(#[trigger] s[i]) == target[i] as u32
}

/// Whether `s` begins with `prefix` once its ASCII letters are lower-cased.
pub open spec fn has_prefix_lower(s: Seq<char>, prefix: Seq<char>) -> bool {
    prefix.len() <= s.len() && forall|i: int|
        0 <= i < prefix.len() ==> ascii_lower_code(#[trigger] s[i]) == prefix[i] as u32
}

pub fn upper_code(c: char) -> (r: u32)
    ensures
        r == ascii_upper_code(c),
{
    let u = c as u32;
    if 97 <= u && u <= 122 {
        u - 32
    } else {
        u
    }
}

pub fn lower_code(c: char) -> (r: u32)
    ensures
        r == ascii_lower_code(c),
{
    let u = c as u32;
    if 65 <= u && u <= 90 {
        u + 32
    } else {
        u
    }
}

/// Whether `s` equals `target` once its ASCII letters are upper-cased.
pub fn equals_upper(s: &Vec<char>, target: &str) -> (r: bool)
    ensures
        r == eq_upper(s@, target@),
{
    let t = chars_of(target);
    if s.len() != t.len() {
        return false;
    }
    let mut i: usize = 0;
    while i < s.len()
        invariant
            s@.len() == t@.len(),
            t@ == target@,
            i <= s.len(),
            forall|j: int| 0 <= j < i ==> ascii_upper_code(#[trigger] s@[j]) == t@[j] as u32,
        decreases s.len() - i,
    {
        if upper_code(s[i]) != t[i] as u32 {
            return false;
        }
        i += 1;
    }
    true
}

/// Whether `s` begins with `prefix` once its ASCII letters are lower-cased.
pub fn starts_with_lower(s: &Vec<char>, prefix: &str) -> (r: bool)
    ensures
        r == has_prefix_lower(s@, prefix@),
{
    let p = chars_of(prefix);
    if p.len() > s.len() {
        return false;
    }
    let mut i: usize = 0;
    while i < p.len()
        invariant
            p@ == prefix@,
            p@.len() <= s@.len(),
            i <= p.len(),
            forall|j: int| 0 <= j < i ==> ascii_lower_code(#[trigger] s@[j]) == p@[j] as u32,
        decreases p.len() - i,
    {
        if lower_code(s[i]) != p[i] as u32 {
            return false;
        }
        i += 1;
    }
    true
}

/// The characters of `s`, in order.
pub fn chars_of(s: &str) -> (v: Vec<char>)
    ensures
        v@ == s@,
{
    let mut v: Vec<char> = Vec::new();
    for c in it: s.chars()
        invariant
            v@ == it.seq().take(it.index() as int),
    {
        v.push(c);
    }
    v
}

/// Collects characters into a `String` (std's `FromIterator<char>` for `String`).
#[verifier::external_body]
pub(crate) fn string_from_chars(v: Vec<char>) -> (s: String)
    ensures
        s@ == v@,
{
    String::from_iter(v)
}

/// A copy of `s` as an owned `String`.
pub fn to_owned_string(s: &str) -> (r: String)
    ensures
        r@ == s@,
{
    s.to_owned()
}

/// The characters of `v` from `lo` up to `hi`.
pub fn sub_chars(v: &Vec<char>, lo: usize, hi: usize) -> (r: Vec<char>)
    requires
        lo <= hi <= v.len(),
    ensures
        r@ == v@.subrange(lo as int, hi as int),
{
    let mut r: Vec<char> = Vec::new();
    let mut k = lo;
    while k < hi
        invariant
            lo <= k <= hi <= v.len(),
            r@ == v@.subrange(lo as int, k as int),
        decreases hi - k,
    {
        r.push(v[k]);
        k += 1;
        assert(r@ =~= v@.subrange(lo as int, k as int));
    }
    r
}

/// The `String` made of the characters of `v` from `lo` up to `hi`.
pub fn substring(v: &Vec<char>, lo: usize, hi: usize) -> (r: String)
    requires
        lo <= hi <= v.len(),
    ensures
        r@ == v@.subrange(lo as int, hi as int),
{
    string_from_chars(sub_chars(v, lo, hi))
}

/// Whether two character sequences are equal.
pub fn chars_equal(a: &Vec<char>, b: &Vec<char>) -> (r: bool)
    ensures
        r == (a@ == b@),
{
    if a.len() != b.len() {
        return false;
    }
    let mut i: usize = 0;
    while i < a.len()
        invariant
            a.len() == b.len(),
            i <= a.len(),
            forall|j: int| 0 <= j < i ==> a@[j] == b@[j],
        decreases a.len() - i,
    {
        if a[i] != b[i] {
            return false;
        }
        i += 1;
    }
    assert(a@ =~= b@);
    true
}

/// Whether two strings hold the same characters.
pub fn str_equal(a: &str, b: &str) -> (r: bool)
    ensures
        r == (a@ == b@),
{
    let va = chars_of(a);
    let vb = chars_of(b);
    chars_equal(&va, &vb)
}

proof fn lemma_trim_start_skip(s: Seq<char>, k: int)
    requires
        0 <= k <= s.len(),
        forall|j: int| 0 <= j < k ==> is_ws(#[trigger] s[j]),
    ensures
        trim_start(s) == trim_start(s.skip(k)),
    decreases k,
{
    if k > 0 {
        assert(s.drop_first() =~= s.skip(1));
        lemma_trim_start_skip(s.drop_first(), k - 1);
        assert(s.drop_first().skip(k - 1) =~= s.skip(k));
    } else {
        assert(s.skip(0) =~= s);
    }
}

proof fn lemma_trim_end_take(s: Seq<char>, k: int)
    requires
        0 <= k <= s.len(),
        forall|j: int| k <= j < s.len() ==> is_ws(#[trigger] s[j]),
    ensures
        trim_end(s) == trim_end(s.take(k)),
    decreases s.len() - k,
{
    if k < s.len() {
        lemma_trim_end_take(s.drop_last(), k);
        assert(s.drop_last().take(k) =~= s.take(k));
    } else {
        assert(s.take(k) =~= s);
    }
}

/// `v` without leading and trailing whitespace.
pub fn trim_chars(v: &Vec<char>) -> (r: Vec<char>)
    ensures
        r@ == trim(v@),
{
    let mut lo: usize = 0;
    while lo < v.len() && is_whitespace(v[lo])
        invariant
            lo <= v.len(),
            forall|j: int| 0 <= j < lo ==> is_ws(#[trigger] v@[j]),
        decreases v.len() - lo,
    {
        lo += 1;
    }
    let mut hi: usize = v.len();
    while hi > lo && is_whitespace(v[hi - 1])
        invariant
            lo <= hi <= v.len(),
            forall|j: int| hi <= j < v.len() ==> is_ws(#[trigger] v@[j]),
        decreases hi,
    {
        hi -= 1;
    }
    proof {
        lemma_trim_start_skip(v@, lo as int);
        let t = v@.skip(lo as int);
        assert(trim_start(t) == t);
        lemma_trim_end_take(t, hi - lo);
        assert(t.take(hi - lo) =~= v@.subrange(lo as int, hi as int));
        let u = t.take(hi - lo);
        assert(trim_end(u) == u);
    }
    sub_chars(v, lo, hi)
}

/// `s` without leading and trailing whitespace.
pub fn trim_str(s: &str) -> (r: String)
    ensures
        r@ == trim(s@),
{
    let v = chars_of(s);
    string_from_chars(trim_chars(&v))
}

/// The pieces of `v` between occurrences of `sep`.
pub fn split_chars(v: &Vec<char>, sep: char) -> (r: Vec<Vec<char>>)
    ensures
        r@.len() == split_on(v@, sep).len(),
        forall|i: int| 0 <= i < r@.len() ==> #[trigger] r@[i]@ == split_on(v@, sep)[i],
{
    let mut acc: Vec<Vec<char>> = Vec::new();
    let mut cur: Vec<char> = Vec::new();
    let mut i: usize = 0;
    let ghost views: Seq<Seq<char>> = Seq::empty();
    assert(v@.skip(0) =~= v@);
    assert(cur@ =~= Seq::<char>::empty());
    while i < v.len()
        invariant
            i <= v.len(),
            views.len() == acc@.len(),
            forall|k: int| 0 <= k < acc@.len() ==> #[trigger] acc@[k]@ == views[k],
            split_from(v@.skip(i as int), sep, cur@, views) == split_on(v@, sep),
        decreases v.len() - i,
    {
        assert(v@.skip(i as int).drop_first() =~= v@.skip(i + 1));
        if v[i] == sep {
            proof {
                views = views.push(cur@);
            }
            acc.push(cur);
            cur = Vec::new();
            assert(cur@ =~= Seq::<char>::empty());
        } else {
            cur.push(v[i]);
        }
        i += 1;
    }
    proof {
        views = views.push(cur@);
    }
    acc.push(cur);
    assert(v@.skip(i as int) =~= Seq::<char>::empty());
    acc
}

/// The lines of `v` as `str::lines` yields them.
pub fn lines_chars(v: &Vec<char>) -> (r: Vec<Vec<char>>)
    ensures
        r@.len() == lines(v@).len(),
        forall|i: int| 0 <= i < r@.len() ==> #[trigger] r@[i]@ == lines(v@)[i],
{
    let mut acc: Vec<Vec<char>> = Vec::new();
    let mut cur: Vec<char> = Vec::new();
    let mut i: usize = 0;
    let ghost views: Seq<Seq<char>> = Seq::empty();
    assert(v@.skip(0) =~= v@);
    assert(cur@ =~= Seq::<char>::empty());
    while i < v.len()
        invariant
            i <= v.len(),
            views.len() == acc@.len(),
            forall|k: int| 0 <= k < acc@.len() ==> #[trigger] acc@[k]@ == views[k],
            lines_from(v@.skip(i as int), cur@, views) == lines(v@),
        decreases v.len() - i,
    {
        assert(v@.skip(i as int).drop_first() =~= v@.skip(i + 1));
        if v[i] == '\n' {
            let ghost c0 = cur@;
            let mut line = cur;
            if line.len() > 0 && line[line.len() - 1] == '\r' {
                line.pop();
            }
            assert(line@ =~= strip_cr(c0));
            proof {
                views = views.push(line@);
            }
            acc.push(line);
            cur = Vec::new();
            assert(cur@ =~= Seq::<char>::empty());
        } else {
            cur.push(v[i]);
        }
        i += 1;
    }
    assert(v@.skip(i as int) =~= Seq::<char>::empty());
    if cur.len() > 0 {
        proof {
            views = views.push(cur@);
        }
        acc.push(cur);
    }
    acc
}

/// `s` without its trailing occurrences of `c`.
pub fn trim_end_matches_char(s: &str, c: char) -> (r: String)
    ensures
        r@ == trim_end_char(s@, c),
{
    let v = chars_of(s);
    let mut hi = v.len();
    assert(v@.take(hi as int) =~= v@);
    while hi > 0 && v[hi - 1] == c
        invariant
            hi <= v@.len(),
            trim_end_char(v@.take(hi as int), c) == trim_end_char(v@, c),
        decreases hi,
    {
        assert(v@.take(hi as int).drop_last() =~= v@.take(hi - 1));
        hi -= 1;
    }
    assert(v@.take(hi as int) =~= v@.subrange(0, hi as int));
    substring(&v, 0, hi)
}

/// `s` with every occurrence of `c` removed.
pub open spec fn remove_char(s: Seq<char>, c: char) -> Seq<char>
    decreases s.len(),
{
    if s.len() == 0 {
        s
    } else if s.last() == c {
        remove_char(s.drop_last(), c)
    } else {
        remove_char(s.drop_last(), c).push(s.last())
    }
}

/// `s` with every occurrence of `c` removed (`s.replace(c, "")`).
pub fn remove_all(s: &str, c: char) -> (r: String)
    ensures
        r@ == remove_char(s@, c),
{
    let v = chars_of(s);
    let mut out: Vec<char> = Vec::new();
    let mut k: usize = 0;
    assert(v@.take(0) =~= Seq::<char>::empty());
    while k < v.len()
        invariant
            k <= v@.len(),
            out@ == remove_char(v@.take(k as int), c),
        decreases v@.len() - k,
    {
        assert(v@.take(k + 1).drop_last() =~= v@.take(k as int));
        if v[k] != c {
            out.push(v[k]);
        }
        k += 1;
    }
    assert(v@.take(k as int) =~= v@);
    string_from_chars(out)
}

/// `s` with every occurrence of `from` replaced by `to`.
pub open spec fn replace_char(s: Seq<char>, from: char, to: char) -> Seq<char> {
    Seq::new(s.len(), |i: int| if s[i] == from { to } else { s[i] })
}

/// `s` with every occurrence of `from` replaced by `to` (`s.replace(from, to)`).
pub fn replace_all(s: &str, from: char, to: char) -> (r: String)
    ensures
        r@ == replace_char(s@, from, to),
{
    let v = chars_of(s);
    let mut out: Vec<char> = Vec::new();
    let mut k: usize = 0;
    while k < v.len()
        invariant
            k <= v@.len(),
            out@ == replace_char(v@, from, to).take(k as int),
        decreases v@.len() - k,
    {
        if v[k] == from {
            out.push(to);
        } else {
            out.push(v[k]);
        }
        k += 1;
        assert(out@ =~= replace_char(v@, from, to).take(k as int));
    }
    assert(replace_char(v@, from, to).take(k as int) =~= replace_char(v@, from, to));
    string_from_chars(out)
}

/// The decimal digits of `n`.
pub open spec fn nat_digits(n: nat) -> Seq<char>
    decreases n,
{
    if n < 10 {
        seq![(48 + n) as char]
    } else {
        nat_digits(n / 10).push((48 + n % 10) as char)
    }
}

/// `n` written in decimal, with a minus sign when negative.
pub open spec fn int_decimal(n: int) -> Seq<char> {
    if n < 0 {
        seq!['-'] + nat_digits((-n) as nat)
    } else {
        nat_digits(n as nat)
    }
}

fn digit_char(d: u64) -> (c: char)
    requires
        d < 10,
    ensures
        c == (48 + d) as char,
{
    let b: u8 = 48u8 + (d as u8);
    b as char
}

fn push_digits(m: u64, out: &mut Vec<char>)
    ensures
        final(out)@ == old(out)@ + nat_digits(m as nat),
    decreases m,
{
    if m >= 10 {
        push_digits(m / 10, out);
        out.push(digit_char(m % 10));
        assert(final(out)@ =~= old(out)@ + nat_digits(m as nat));
    } else {
        out.push(digit_char(m));
        assert(final(out)@ =~= old(out)@ + nat_digits(m as nat));
    }
}

/// `n` written in decimal (what `n.to_string()` gives).
pub fn i64_to_decimal(n: i64) -> (r: String)
    ensures
        r@ == int_decimal(n as int),
{
    let mut out: Vec<char> = Vec::new();
    if n < 0 {
        out.push('-');
        let wide: i128 = n as i128;
        let mag: u64 = (-wide) as u64;
        push_digits(mag, &mut out);
        assert(out@ =~= seq!['-'] + nat_digits((-(n as int)) as nat));
    } else {
        push_digits(n as u64, &mut out);
        assert(out@ =~= nat_digits(n as nat));
    }
    string_from_chars(out)
}

} // verus!

verus! {

proof fn lemma_join_push_char(acc: Seq<Seq<char>>, x: Seq<char>, c: char, sep: Seq<char>)
    ensures
        join(acc.push(x.push(c)), sep) == join(acc.push(x), sep).push(c),
{
    let a1 = acc.push(x.push(c));
    let a0 = acc.push(x);
    if acc.len() > 0 {
        assert(a1.drop_last() =~= acc);
        assert(a0.drop_last() =~= acc);
        assert(join(a1, sep) == join(acc, sep) + sep + x.push(c));
        assert(join(a0, sep) == join(acc, sep) + sep + x);
        assert(join(acc, sep) + sep + x.push(c) =~= (join(acc, sep) + sep + x).push(c));
    }
}

proof fn lemma_split_from_joins(s: Seq<char>, sep: char, cur: Seq<char>, acc: Seq<Seq<char>>)
    requires
        !cur.contains(sep),
        forall|i: int| 0 <= i < acc.len() ==> !(#[trigger] acc[i]).contains(sep),
    ensures
        join(split_from(s, sep, cur, acc), seq![sep]) == join(acc.push(cur), seq![sep]) + s,
        forall|i: int|
            0 <= i < split_from(s, sep, cur, acc).len() ==> !(#[trigger] split_from(s, sep, cur, acc)[i]).contains(
                sep,
            ),
    decreases s.len(),
{
    if s.len() == 0 {
        assert(join(acc.push(cur), seq![sep]) + s =~= join(acc.push(cur), seq![sep]));
        assert forall|i: int| 0 <= i < acc.push(cur).len() implies !(#[trigger] acc.push(cur)[i]).contains(sep) by {
            if i < acc.len() {
                assert(acc.push(cur)[i] == acc[i]);
            }
        }
    } else if s[0] == sep {
        let acc2 = acc.push(cur);
        assert forall|i: int| 0 <= i < acc2.len() implies !(#[trigger] acc2[i]).contains(sep) by {
            if i < acc.len() {
                assert(acc2[i] == acc[i]);
            }
        }
        assert(!Seq::<char>::empty().contains(sep));
        lemma_split_from_joins(s.drop_first(), sep, Seq::empty(), acc2);
        let a3 = acc2.push(Seq::<char>::empty());
        assert(a3.drop_last() =~= acc2);
        assert(join(a3, seq![sep]) == join(acc2, seq![sep]) + seq![sep] + Seq::<char>::empty());
        assert(join(acc2, seq![sep]) + seq![sep] + Seq::<char>::empty() + s.drop_first() =~= join(
            acc2,
            seq![sep],
        ) + s);
    } else {
        let cur2 = cur.push(s[0]);
        assert(!cur2.contains(sep)) by {
            if cur2.contains(sep) {
                let j = choose|j: int| 0 <= j < cur2.len() && cur2[j] == sep;
                if j < cur.len() {
                    assert(cur[j] == sep);
                }
            }
        }
        lemma_split_from_joins(s.drop_first(), sep, cur2, acc);
        lemma_join_push_char(acc, cur, s[0], seq![sep]);
        assert(join(acc.push(cur), seq![sep]).push(s[0]) + s.drop_first() =~= join(acc.push(cur), seq![sep])
            + s);
    }
}

/// The pieces that `split_on` gives, joined again by the separator, are the
/// text itself, and no piece holds the separator.
pub proof fn lemma_split_on_joins(s: Seq<char>, sep: char)
    ensures
        join(split_on(s, sep), seq![sep]) == s,
        forall|i: int| 0 <= i < split_on(s, sep).len() ==> !(#[trigger] split_on(s, sep)[i]).contains(sep),
{
    assert(!Seq::<char>::empty().contains(sep));
    lemma_split_from_joins(s, sep, Seq::empty(), Seq::empty());
    assert(Seq::<Seq<char>>::empty().push(Seq::<char>::empty()) =~= seq![Seq::<char>::empty()]);
    assert(Seq::<char>::empty() + s =~= s);
}

} // verus!
