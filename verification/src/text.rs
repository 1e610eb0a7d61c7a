//! Text primitives shared by the rest of the crate.
//!
//! Every string is reasoned about through its view, a `Seq<char>`. The
//! functions here give exact meanings to substring search, pattern removal,
//! trimming and word splitting, and implement them over `Vec<char>`.

use vstd::prelude::*;

verus! {

/// `p` occurs in `s` starting at index `i`.
pub open spec fn occurs_at(s: Seq<char>, p: Seq<char>, i: int) -> bool {
    0 <= i && i + p.len() <= s.len() && s.subrange(i, i + p.len()) == p
}

/// `p` occurs somewhere in `s`.
pub open spec fn contains(s: Seq<char>, p: Seq<char>) -> bool {
    exists|i: int| occurs_at(s, p, i)
}

/// `s` begins with `p`.
pub open spec fn has_prefix(s: Seq<char>, p: Seq<char>) -> bool {
    occurs_at(s, p, 0)
}

/// `s` ends with `p`.
pub open spec fn has_suffix(s: Seq<char>, p: Seq<char>) -> bool {
    occurs_at(s, p, s.len() - p.len())
}

/// `s` with every occurrence of `p` deleted, scanning from the left and
/// never letting two deleted occurrences overlap. An empty pattern deletes
/// nothing.
pub open spec fn remove_all(s: Seq<char>, p: Seq<char>) -> Seq<char>
    decreases s.len(),
{
    if p.len() == 0 || s.len() < p.len() {
        s
    } else if has_prefix(s, p) {
        remove_all(s.skip(p.len() as int), p)
    } else {
        seq![s[0]] + remove_all(s.skip(1), p)
    }
}

/// The characters with the Unicode `White_Space` property.
pub open spec fn is_whitespace(c: char) -> bool {
    let u = c as u32;
    (0x09 <= u <= 0x0d) || u == 0x20 || u == 0x85 || u == 0xa0 || u == 0x1680 || (0x2000 <= u
        <= 0x200a) || u == 0x2028 || u == 0x2029 || u == 0x202f || u == 0x205f || u == 0x3000
}

/// Number of leading whitespace characters of `s`.
pub open spec fn leading_whitespace(s: Seq<char>) -> nat
    decreases s.len(),
{
    if s.len() > 0 && is_whitespace(s[0]) {
        1 + leading_whitespace(s.skip(1))
    } else {
        0
    }
}

/// Number of trailing whitespace characters of `s`.
pub open spec fn trailing_whitespace(s: Seq<char>) -> nat
    decreases s.len(),
{
    if s.len() > 0 && is_whitespace(s.last()) {
        1 + trailing_whitespace(s.drop_last())
    } else {
        0
    }
}

/// `s` without its leading whitespace.
pub open spec fn trim_start(s: Seq<char>) -> Seq<char> {
    s.skip(leading_whitespace(s) as int)
}

/// `s` without its leading and trailing whitespace.
pub open spec fn trim(s: Seq<char>) -> Seq<char> {
    let t = trim_start(s);
    t.take(t.len() - trailing_whitespace(t))
}

/// Length of the first run of non-whitespace characters of `s`.
pub open spec fn word_len(s: Seq<char>) -> nat
    decreases s.len(),
{
    if s.len() > 0 && !is_whitespace(s[0]) {
        1 + word_len(s.skip(1))
    } else {
        0
    }
}

/// The maximal runs of non-whitespace characters of `s`, in order.
pub open spec fn words(s: Seq<char>) -> Seq<Seq<char>>
    decreases s.len(),
{
    if s.len() == 0 {
        Seq::empty()
    } else if is_whitespace(s[0]) {
        words(s.skip(1))
    } else {
        let n = word_len(s);
        if 0 < n <= s.len() {
            seq![s.take(n as int)] + words(s.skip(n as int))
        } else {
            Seq::empty()
        }
    }
}

/// The first `n` characters of `s`, or all of `s` when it is shorter.
pub open spec fn prefix(s: Seq<char>, n: nat) -> Seq<char> {
    if n <= s.len() {
        s.take(n as int)
    } else {
        s
    }
}

/// The pieces joined with `sep` between consecutive ones.
pub open spec fn join(pieces: Seq<Seq<char>>, sep: Seq<char>) -> Seq<char>
    decreases pieces.len(),
{
    if pieces.len() == 0 {
        Seq::empty()
    } else if pieces.len() == 1 {
        pieces[0]
    } else {
        join(pieces.drop_last(), sep) + sep + pieces.last()
    }
}

/// The views of a vector of strings.
pub open spec fn views(v: Seq<String>) -> Seq<Seq<char>> {
    Seq::new(v.len(), |i: int| v[i]@)
}

/// A whitespace prefix of length `k` that stops at a non-whitespace character
/// or at the end is the whole leading whitespace.
proof fn lemma_leading_whitespace_is(s: Seq<char>, k: nat)
    requires
        k <= s.len(),
        forall|i: int| 0 <= i < k ==> is_whitespace(#[trigger] s[i]),
        k < s.len() ==> !is_whitespace(s[k as int]),
    ensures
        leading_whitespace(s) == k,
    decreases s.len(),
{
    if k > 0 {
        let r = s.skip(1);
        assert forall|i: int| 0 <= i < k - 1 implies is_whitespace(#[trigger] r[i]) by {
            assert(r[i] == s[i + 1]);
        }
        if k < s.len() {
            assert(r[k - 1] == s[k as int]);
        }
        lemma_leading_whitespace_is(r, (k - 1) as nat);
    }
}

/// A whitespace suffix of length `k` that stops at a non-whitespace character
/// or at the start is the whole trailing whitespace.
proof fn lemma_trailing_whitespace_is(s: Seq<char>, k: nat)
    requires
        k <= s.len(),
        forall|i: int| s.len() - k <= i < s.len() ==> is_whitespace(#[trigger] s[i]),
        k < s.len() ==> !is_whitespace(s[s.len() - k - 1]),
    ensures
        trailing_whitespace(s) == k,
    decreases s.len(),
{
    if k > 0 {
        let r = s.drop_last();
        assert forall|i: int| r.len() - (k - 1) <= i < r.len() implies is_whitespace(
            #[trigger] r[i],
        ) by {
            assert(r[i] == s[i]);
        }
        if k < s.len() {
            assert(r[r.len() - (k - 1) - 1] == s[s.len() - k - 1]);
        }
        lemma_trailing_whitespace_is(r, (k - 1) as nat);
    }
}

/// A run of `k` non-whitespace characters that stops at whitespace or at the
/// end is the first word.
proof fn lemma_word_len_is(s: Seq<char>, k: nat)
    requires
        k <= s.len(),
        forall|i: int| 0 <= i < k ==> !is_whitespace(#[trigger] s[i]),
        k < s.len() ==> is_whitespace(s[k as int]),
    ensures
        word_len(s) == k,
    decreases s.len(),
{
    if k > 0 {
        let r = s.skip(1);
        assert forall|i: int| 0 <= i < k - 1 implies !is_whitespace(#[trigger] r[i]) by {
            assert(r[i] == s[i + 1]);
        }
        if k < s.len() {
            assert(r[k - 1] == s[k as int]);
        }
        lemma_word_len_is(r, (k - 1) as nat);
    }
}


/// `String::push` appends one character to the end of the string.
pub assume_specification[ String::push ](s: &mut String, c: char)
    ensures
        final(s)@ == old(s)@.push(c),
;

/// What `str::to_lowercase` returns for a string with the given characters.
pub uninterp spec fn lowercase(s: Seq<char>) -> Seq<char>;

/// `str::to_lowercase`: the Unicode lowercase form of `s`, a function of its
/// characters alone.
#[verifier::external_body]
pub(crate) fn to_lowercase(s: &str) -> (r: String)
    ensures
        r@ == lowercase(s@),
{
    s.to_lowercase()
}

/// The characters of `s` as a vector.
pub fn to_chars(s: &str) -> (v: Vec<char>)
    ensures
        v@ == s@,
{
    let mut v: Vec<char> = Vec::new();
    for c in it: s.chars()
        invariant
            v@ == it.seq().take(it.index() as int),
    {
        v.push(c);
    }
    v
}

/// The string made of `v[from..to]`.
pub fn from_chars_range(v: &Vec<char>, from: usize, to: usize) -> (s: String)
    requires
        from <= to <= v.len(),
    ensures
        s@ == v@.subrange(from as int, to as int),
{
    let mut s = String::new();
    let mut i: usize = from;
    while i < to
        invariant
            from <= i <= to <= v.len(),
            s@ == v@.subrange(from as int, i as int),
        decreases to - i,
    {
        s.push(v[i]);
        i = i + 1;
        assert(s@ =~= v@.subrange(from as int, i as int));
    }
    s
}

/// The string made of the characters of `v`.
pub fn from_chars(v: &Vec<char>) -> (s: String)
    ensures
        s@ == v@,
{
    let s = from_chars_range(v, 0, v.len());
    assert(v@.subrange(0, v.len() as int) =~= v@);
    s
}

/// Whether `c` has the Unicode `White_Space` property.
pub fn is_whitespace_char(c: char) -> (b: bool)
    ensures
        b == is_whitespace(c),
{
    let u: u32 = c as u32;
    (0x09 <= u && u <= 0x0d) || u == 0x20 || u == 0x85 || u == 0xa0 || u == 0x1680 || (0x2000
        <= u && u <= 0x200a) || u == 0x2028 || u == 0x2029 || u == 0x202f || u == 0x205f || u
        == 0x3000
}

/// Whether `p` occurs in `s` at index `i`.
pub fn matches_at(s: &Vec<char>, p: &Vec<char>, i: usize) -> (b: bool)
    ensures
        b == occurs_at(s@, p@, i as int),
{
    if p.len() > s.len() || i > s.len() - p.len() {
        return false;
    }
    let mut j: usize = 0;
    while j < p.len()
        invariant
            j <= p.len(),
            i + p.len() <= s.len(),
            forall|k: int| 0 <= k < j ==> s@[i + k] == p@[k],
        decreases p.len() - j,
    {
        if s[i + j] != p[j] {
            assert(s@.subrange(i as int, i + p.len())[j as int] == s@[i + j]);
            return false;
        }
        j = j + 1;
    }
    assert(s@.subrange(i as int, i + p.len()) =~= p@);
    true
}

/// Whether `p` occurs somewhere in `s`.
pub fn find(s: &Vec<char>, p: &Vec<char>) -> (b: bool)
    ensures
        b == contains(s@, p@),
{
    if p.len() > s.len() {
        return false;
    }
    let last: usize = s.len() - p.len();
    let mut i: usize = 0;
    loop
        invariant
            i <= last,
            last == s.len() - p.len(),
            forall|k: int| 0 <= k < i ==> !occurs_at(s@, p@, k),
        decreases last - i,
    {
        if matches_at(s, p, i) {
            return true;
        }
        if i == last {
            return false;
        }
        i = i + 1;
    }
}

/// Whether `p` occurs somewhere in `s`.
pub fn str_contains(s: &str, p: &str) -> (b: bool)
    ensures
        b == contains(s@, p@),
{
    let sv = to_chars(s);
    let pv = to_chars(p);
    find(&sv, &pv)
}

/// Whether `s` begins with `p`.
pub fn str_starts_with(s: &str, p: &str) -> (b: bool)
    ensures
        b == has_prefix(s@, p@),
{
    let sv = to_chars(s);
    let pv = to_chars(p);
    matches_at(&sv, &pv, 0)
}

/// Whether `s` ends with `p`.
pub fn str_ends_with(s: &str, p: &str) -> (b: bool)
    ensures
        b == has_suffix(s@, p@),
{
    let sv = to_chars(s);
    let pv = to_chars(p);
    if pv.len() > sv.len() {
        return false;
    }
    matches_at(&sv, &pv, sv.len() - pv.len())
}

proof fn lemma_remove_all_short(s: Seq<char>, p: Seq<char>)
    requires
        0 < s.len() < p.len(),
    ensures
        remove_all(s, p) == seq![s[0]] + remove_all(s.skip(1), p),
{
    assert(s =~= seq![s[0]] + s.skip(1));
}

/// `s` with every occurrence of `p` deleted.
pub fn strip_all(s: &Vec<char>, p: &Vec<char>) -> (out: Vec<char>)
    ensures
        out@ == remove_all(s@, p@),
{
    let mut out: Vec<char> = Vec::new();
    let mut i: usize = 0;
    assert(s@.skip(0) =~= s@);
    while i < s.len()
        invariant
            i <= s.len(),
            out@ + remove_all(s@.skip(i as int), p@) == remove_all(s@, p@),
        decreases s.len() - i,
    {
        let ghost rest = s@.skip(i as int);
        if p.len() > 0 && matches_at(s, p, i) {
            proof {
                assert(rest.subrange(0, p.len() as int) =~= s@.subrange(i as int, i + p.len()));
                assert(rest.skip(p.len() as int) =~= s@.skip(i + p.len()));
            }
            i = i + p.len();
        } else {
            proof {
                assert(rest.skip(1) =~= s@.skip(i + 1));
                assert(rest[0] == s@[i as int]);
                if p.len() == 0 {
                    assert(rest =~= seq![rest[0]] + rest.skip(1));
                } else if rest.len() < p.len() {
                    lemma_remove_all_short(rest, p@);
                } else {
                    assert(rest.subrange(0, p.len() as int) =~= s@.subrange(
                        i as int,
                        i + p.len(),
                    ));
                }
                assert(remove_all(rest, p@) == seq![rest[0]] + remove_all(rest.skip(1), p@));
                assert(out@.push(s@[i as int]) + remove_all(s@.skip(i + 1), p@) =~= out@
                    + remove_all(rest, p@));
            }
            out.push(s[i]);
            i = i + 1;
        }
    }
    assert(out@ + remove_all(s@.skip(i as int), p@) =~= out@);
    out
}

/// `s` with every occurrence of `p` deleted.
pub fn str_remove_all(s: &str, p: &str) -> (r: String)
    ensures
        r@ == remove_all(s@, p@),
{
    let sv = to_chars(s);
    let pv = to_chars(p);
    let out = strip_all(&sv, &pv);
    from_chars(&out)
}

/// The bounds of `s` without its leading and trailing whitespace.
pub fn trim_bounds(s: &Vec<char>) -> (r: (usize, usize))
    ensures
        r.0 <= r.1 <= s.len(),
        s@.subrange(r.0 as int, r.1 as int) == trim(s@),
{
    let mut start: usize = 0;
    while start < s.len() && is_whitespace_char(s[start])
        invariant
            start <= s.len(),
            forall|i: int| 0 <= i < start ==> is_whitespace(#[trigger] s@[i]),
        decreases s.len() - start,
    {
        start = start + 1;
    }
    proof {
        lemma_leading_whitespace_is(s@, start as nat);
    }
    let ghost t = s@.skip(start as int);
    let mut end: usize = s.len();
    while end > start && is_whitespace_char(s[end - 1])
        invariant
            start <= end <= s.len(),
            t == s@.skip(start as int),
            forall|i: int| end - start <= i < t.len() ==> is_whitespace(#[trigger] t[i]),
        decreases end,
    {
        end = end - 1;
    }
    proof {
        lemma_trailing_whitespace_is(t, (s.len() - end) as nat);
        assert(t.take(t.len() - (s.len() - end)) =~= s@.subrange(start as int, end as int));
    }
    (start, end)
}

/// `s` without its leading and trailing whitespace.
pub fn str_trim(s: &str) -> (r: String)
    ensures
        r@ == trim(s@),
{
    let sv = to_chars(s);
    let (start, end) = trim_bounds(&sv);
    from_chars_range(&sv, start, end)
}

/// The whitespace-separated words of `s`, in order.
pub fn split_words(s: &str) -> (out: Vec<String>)
    ensures
        views(out@) == words(s@),
{
    let sv = to_chars(s);
    let mut out: Vec<String> = Vec::new();
    let mut i: usize = 0;
    assert(sv@.skip(0) =~= sv@);
    assert(views(out@) =~= Seq::<Seq<char>>::empty());
    while i < sv.len()
        invariant
            i <= sv.len(),
            sv@ == s@,
            views(out@) + words(sv@.skip(i as int)) == words(sv@),
        decreases sv.len() - i,
    {
        let ghost rest = sv@.skip(i as int);
        if is_whitespace_char(sv[i]) {
            proof {
                assert(rest[0] == sv@[i as int]);
                assert(rest.skip(1) =~= sv@.skip(i + 1));
            }
            i = i + 1;
        } else {
            let mut j: usize = i + 1;
            while j < sv.len() && !is_whitespace_char(sv[j])
                invariant
                    i < j <= sv.len(),
                    rest == sv@.skip(i as int),
                    forall|k: int| 0 <= k < j - i ==> !is_whitespace(#[trigger] rest[k]),
                decreases sv.len() - j,
            {
                j = j + 1;
            }
            let word = from_chars_range(&sv, i, j);
            proof {
                lemma_word_len_is(rest, (j - i) as nat);
                assert(rest.take(j - i) =~= sv@.subrange(i as int, j as int));
                assert(rest.skip(j - i) =~= sv@.skip(j as int));
                assert(views(out@.push(word)) =~= views(out@) + seq![word@]);
                assert(views(out@.push(word)) + words(sv@.skip(j as int)) =~= views(out@) + words(
                    rest,
                ));
            }
            out.push(word);
            i = j;
        }
    }
    assert(views(out@) + words(sv@.skip(i as int)) =~= views(out@));
    out
}

/// The first `n` characters of `s`, or all of `s` when it is shorter.
pub fn take_chars(s: &str, n: usize) -> (r: String)
    ensures
        r@ == prefix(s@, n as nat),
{
    let sv = to_chars(s);
    if n <= sv.len() {
        let r = from_chars_range(&sv, 0, n);
        assert(sv@.subrange(0, n as int) =~= sv@.take(n as int));
        r
    } else {
        from_chars(&sv)
    }
}

/// The pieces joined with `sep` between consecutive ones.
pub fn join_with(pieces: &Vec<String>, sep: &str) -> (r: String)
    ensures
        r@ == join(views(pieces@), sep@),
{
    let mut r = String::new();
    let mut i: usize = 0;
    assert(views(pieces@).take(0) =~= Seq::<Seq<char>>::empty());
    while i < pieces.len()
        invariant
            i <= pieces.len(),
            r@ == join(views(pieces@).take(i as int), sep@),
        decreases pieces.len() - i,
    {
        let ghost before = views(pieces@).take(i as int);
        let ghost after = views(pieces@).take(i + 1);
        proof {
            assert(after.drop_last() =~= before);
            assert(after.last() == pieces@[i as int]@);
        }
        if i > 0 {
            r.append(sep);
        } else {
            assert(r@ + pieces@[i as int]@ =~= pieces@[i as int]@);
        }
        r.append(pieces[i].as_str());
        i = i + 1;
    }
    assert(views(pieces@).take(i as int) =~= views(pieces@));
    r
}


/// Whether two strings hold the same characters.
pub fn str_equals(a: &str, b: &str) -> (r: bool)
    ensures
        r == (a@ == b@),
{
    let av = to_chars(a);
    let bv = to_chars(b);
    if av.len() != bv.len() {
        return false;
    }
    let r = matches_at(&av, &bv, 0);
    assert(av@.subrange(0, bv@.len() as int) =~= av@);
    r
}

/// Whether `s` has no character.
pub fn str_is_empty(s: &str) -> (r: bool)
    ensures
        r == (s@.len() == 0),
{
    s.unicode_len() == 0
}


/// The decimal digit for a value below 10.
pub open spec fn decimal_digit(d: nat) -> char {
    if d == 0 {
        '0'
    } else if d == 1 {
        '1'
    } else if d == 2 {
        '2'
    } else if d == 3 {
        '3'
    } else if d == 4 {
        '4'
    } else if d == 5 {
        '5'
    } else if d == 6 {
        '6'
    } else if d == 7 {
        '7'
    } else if d == 8 {
        '8'
    } else {
        '9'
    }
}

/// A natural number in decimal, without leading zeros.
pub open spec fn decimal_digits(n: nat) -> Seq<char>
    decreases n,
{
    if n < 10 {
        seq![decimal_digit(n)]
    } else {
        decimal_digits(n / 10).push(decimal_digit(n % 10))
    }
}

/// An integer in decimal, with a minus sign where it is negative.
pub open spec fn decimal(i: int) -> Seq<char> {
    if i < 0 {
        seq!['-'] + decimal_digits((-i) as nat)
    } else {
        decimal_digits(i as nat)
    }
}

fn decimal_char(d: u64) -> (c: char)
    requires
        d < 10,
    ensures
        c == decimal_digit(d as nat),
{
    if d == 0 {
        '0'
    } else if d == 1 {
        '1'
    } else if d == 2 {
        '2'
    } else if d == 3 {
        '3'
    } else if d == 4 {
        '4'
    } else if d == 5 {
        '5'
    } else if d == 6 {
        '6'
    } else if d == 7 {
        '7'
    } else if d == 8 {
        '8'
    } else {
        '9'
    }
}

/// Appends a natural number in decimal.
pub fn append_decimal(out: &mut String, value: u64)
    ensures
        final(out)@ == old(out)@ + decimal_digits(value as nat),
{
    let mut low: Vec<char> = Vec::new();
    let mut n: u64 = value;
    assert(decimal_digits(n as nat) + low@.reverse() =~= decimal_digits(value as nat));
    while n >= 10
        invariant
            decimal_digits(value as nat) == decimal_digits(n as nat) + low@.reverse(),
        decreases n,
    {
        let d = decimal_char(n % 10);
        proof {
            assert(low@.push(d).reverse() =~= seq![d] + low@.reverse());
            assert(decimal_digits((n / 10) as nat).push(d) + low@.reverse() =~= decimal_digits(
                (n / 10) as nat,
            ) + (seq![d] + low@.reverse()));
        }
        low.push(d);
        n = n / 10;
    }
    let ghost start = out@;
    out.push(decimal_char(n));
    let mut k: usize = low.len();
    assert(low@.reverse().take(0) =~= Seq::<char>::empty());
    assert(out@ =~= start + (decimal_digits(n as nat) + low@.reverse().take(0)));
    while k > 0
        invariant
            k <= low.len(),
            out@ == start + (decimal_digits(n as nat) + low@.reverse().take(low.len() - k)),
        decreases k,
    {
        k = k - 1;
        proof {
            let r = low@.reverse();
            let j = low.len() - k - 1;
            assert(r[j] == low@[k as int]);
            assert(r.take(j + 1) =~= r.take(j).push(r[j]));
            assert(start + (decimal_digits(n as nat) + r.take(j + 1)) =~= (start + (decimal_digits(
                n as nat,
            ) + r.take(j))).push(r[j]));
        }
        out.push(low[k]);
    }
    assert(low@.reverse().take(low.len() as int) =~= low@.reverse());
}

/// An integer in decimal.
pub fn integer_to_string(value: i64) -> (s: String)
    ensures
        s@ == decimal(value as int),
{
    let mut s = String::new();
    if value < 0 {
        s.push('-');
        let magnitude: u64 = if value == i64::MIN {
            9223372036854775808u64
        } else {
            (0 - value) as u64
        };
        append_decimal(&mut s, magnitude);
    } else {
        append_decimal(&mut s, value as u64);
        assert(s@ =~= decimal(value as int));
    }
    s
}


/// `s` with every occurrence of `p` replaced by `w`, scanning from the left
/// and never letting two replaced occurrences overlap. An empty pattern
/// replaces nothing.
pub open spec fn replaced(s: Seq<char>, p: Seq<char>, w: Seq<char>) -> Seq<char>
    decreases s.len(),
{
    if p.len() == 0 || s.len() < p.len() {
        s
    } else if has_prefix(s, p) {
        w + replaced(s.skip(p.len() as int), p, w)
    } else {
        seq![s[0]] + replaced(s.skip(1), p, w)
    }
}

proof fn lemma_replaced_short(s: Seq<char>, p: Seq<char>, w: Seq<char>)
    requires
        0 < s.len() < p.len(),
    ensures
        replaced(s, p, w) == seq![s[0]] + replaced(s.skip(1), p, w),
{
    assert(s =~= seq![s[0]] + s.skip(1));
}

/// `s` with every occurrence of `p` replaced by `w`.
pub fn replace_all(s: &Vec<char>, p: &Vec<char>, w: &Vec<char>) -> (out: Vec<char>)
    ensures
        out@ == replaced(s@, p@, w@),
{
    let mut out: Vec<char> = Vec::new();
    let mut i: usize = 0;
    assert(s@.skip(0) =~= s@);
    while i < s.len()
        invariant
            i <= s.len(),
            out@ + replaced(s@.skip(i as int), p@, w@) == replaced(s@, p@, w@),
        decreases s.len() - i,
    {
        let ghost rest = s@.skip(i as int);
        let ghost before = out@;
        if p.len() > 0 && matches_at(s, p, i) {
            proof {
                assert(rest.subrange(0, p.len() as int) =~= s@.subrange(i as int, i + p.len()));
                assert(rest.skip(p.len() as int) =~= s@.skip(i + p.len()));
            }
            let mut j: usize = 0;
            while j < w.len()
                invariant
                    j <= w.len(),
                    out@ == before + w@.take(j as int),
                decreases w.len() - j,
            {
                out.push(w[j]);
                j = j + 1;
                assert(out@ =~= before + w@.take(j as int));
            }
            proof {
                assert(w@.take(w.len() as int) =~= w@);
                assert(out@ + replaced(s@.skip(i + p.len()), p@, w@) =~= before + replaced(
                    rest,
                    p@,
                    w@,
                ));
            }
            i = i + p.len();
        } else {
            proof {
                assert(rest.skip(1) =~= s@.skip(i + 1));
                assert(rest[0] == s@[i as int]);
                if p.len() == 0 {
                    assert(rest =~= seq![rest[0]] + rest.skip(1));
                } else if rest.len() < p.len() {
                    lemma_replaced_short(rest, p@, w@);
                } else {
                    assert(rest.subrange(0, p.len() as int) =~= s@.subrange(
                        i as int,
                        i + p.len(),
                    ));
                }
                assert(replaced(rest, p@, w@) == seq![rest[0]] + replaced(rest.skip(1), p@, w@));
                assert(out@.push(s@[i as int]) + replaced(s@.skip(i + 1), p@, w@) =~= out@
                    + replaced(rest, p@, w@));
            }
            out.push(s[i]);
            i = i + 1;
        }
    }
    assert(out@ + replaced(s@.skip(i as int), p@, w@) =~= out@);
    out
}

/// `s` with every occurrence of `p` replaced by `w`.
pub fn str_replace(s: &str, p: &str, w: &str) -> (r: String)
    ensures
        r@ == replaced(s@, p@, w@),
{
    let sv = to_chars(s);
    let pv = to_chars(p);
    let wv = to_chars(w);
    let out = replace_all(&sv, &pv, &wv);
    from_chars(&out)
}

/// The number of characters before the first line feed of `s`, or the
/// length of `s` when it has none.
pub open spec fn line_len(s: Seq<char>) -> nat
    decreases s.len(),
{
    if s.len() > 0 && s[0] != '\n' {
        1 + line_len(s.skip(1))
    } else {
        0
    }
}

/// A line without the carriage return that stood before its line feed.
pub open spec fn without_return(line: Seq<char>) -> Seq<char> {
    if line.len() > 0 && line.last() == '\r' {
        line.drop_last()
    } else {
        line
    }
}

/// The lines of `s`: the pieces between line feeds, without the line feed
/// and without a carriage return just before it. A line feed at the very end
/// opens no further line.
pub open spec fn lines(s: Seq<char>) -> Seq<Seq<char>>
    decreases s.len(),
{
    if s.len() == 0 {
        Seq::empty()
    } else {
        let n = line_len(s);
        if n < s.len() {
            seq![without_return(s.take(n as int))] + lines(s.skip(n as int + 1))
        } else {
            seq![s]
        }
    }
}

proof fn lemma_line_len_is(s: Seq<char>, k: nat)
    requires
        k <= s.len(),
        forall|i: int| 0 <= i < k ==> #[trigger] s[i] != '\n',
        k < s.len() ==> s[k as int] == '\n',
    ensures
        line_len(s) == k,
    decreases s.len(),
{
    if k > 0 {
        let r = s.skip(1);
        assert forall|i: int| 0 <= i < k - 1 implies #[trigger] r[i] != '\n' by {
            assert(r[i] == s[i + 1]);
        }
        if k < s.len() {
            assert(r[k - 1] == s[k as int]);
        }
        lemma_line_len_is(r, (k - 1) as nat);
    }
}

/// The lines of `s`.
pub fn split_lines(s: &str) -> (out: Vec<String>)
    ensures
        views(out@) == lines(s@),
{
    let sv = to_chars(s);
    let mut out: Vec<String> = Vec::new();
    let mut i: usize = 0;
    assert(sv@.skip(0) =~= sv@);
    assert(views(out@) =~= Seq::<Seq<char>>::empty());
    while i < sv.len()
        invariant
            i <= sv.len(),
            sv@ == s@,
            views(out@) + lines(sv@.skip(i as int)) == lines(sv@),
        decreases sv.len() - i,
    {
        let ghost rest = sv@.skip(i as int);
        let mut j: usize = i;
        while j < sv.len() && sv[j] != '\n'
            invariant
                i <= j <= sv.len(),
                rest == sv@.skip(i as int),
                forall|k: int| 0 <= k < j - i ==> #[trigger] rest[k] != '\n',
            decreases sv.len() - j,
        {
            j = j + 1;
        }
        proof {
            lemma_line_len_is(rest, (j - i) as nat);
            assert(rest.take(j - i) =~= sv@.subrange(i as int, j as int));
        }
        if j < sv.len() {
            let end: usize = if j > i && sv[j - 1] == '\r' {
                j - 1
            } else {
                j
            };
            let line = from_chars_range(&sv, i, end);
            proof {
                let whole = sv@.subrange(i as int, j as int);
                if j > i && sv@[j - 1] == '\r' {
                    assert(whole.last() == sv@[j - 1]);
                    assert(whole.drop_last() =~= sv@.subrange(i as int, end as int));
                }
                assert(line@ == without_return(whole));
                assert(rest.skip(j - i + 1) =~= sv@.skip(j + 1));
                assert(views(out@.push(line)) =~= views(out@) + seq![line@]);
                assert(views(out@.push(line)) + lines(sv@.skip(j + 1)) =~= views(out@) + lines(
                    rest,
                ));
            }
            out.push(line);
            i = j + 1;
        } else {
            let line = from_chars_range(&sv, i, j);
            proof {
                assert(sv@.subrange(i as int, j as int) =~= rest);
                assert(views(out@.push(line)) =~= views(out@) + seq![line@]);
                assert(sv@.skip(j as int) =~= Seq::<char>::empty());
                assert(views(out@.push(line)) + lines(sv@.skip(j as int)) =~= views(out@) + lines(
                    rest,
                ));
            }
            out.push(line);
            i = j;
        }
    }
    assert(views(out@) + lines(sv@.skip(i as int)) =~= views(out@));
    out
}

/// `s` without the characters `c` at its end.
pub open spec fn without_trailing(s: Seq<char>, c: char) -> Seq<char>
    decreases s.len(),
{
    if s.len() > 0 && s.last() == c {
        without_trailing(s.drop_last(), c)
    } else {
        s
    }
}

/// `s` without the characters `c` at its end.
pub fn trim_end_matches(s: &str, c: char) -> (r: String)
    ensures
        r@ == without_trailing(s@, c),
{
    let sv = to_chars(s);
    let mut end: usize = sv.len();
    assert(sv@.take(end as int) =~= sv@);
    while end > 0 && sv[end - 1] == c
        invariant
            end <= sv.len(),
            without_trailing(sv@, c) == without_trailing(sv@.take(end as int), c),
        decreases end,
    {
        proof {
            assert(sv@.take(end as int).last() == sv@[end - 1]);
            assert(sv@.take(end as int).drop_last() =~= sv@.take(end - 1));
        }
        end = end - 1;
    }
    proof {
        if end > 0 {
            assert(sv@.take(end as int).last() == sv@[end - 1]);
        }
        assert(sv@.subrange(0, end as int) =~= sv@.take(end as int));
    }
    from_chars_range(&sv, 0, end)
}


/// The character is one of the ten digits.
pub open spec fn is_digit(c: char) -> bool {
    '0' <= c && c <= '9'
}

/// Every character is a digit.
pub open spec fn all_digits(s: Seq<char>) -> bool {
    forall|i: int| 0 <= i < s.len() ==> is_digit(#[trigger] s[i])
}

/// The number that a sequence of digits writes.
pub open spec fn digits_value(s: Seq<char>) -> nat
    decreases s.len(),
{
    if s.len() == 0 {
        0
    } else {
        digits_value(s.drop_last()) * 10 + ((s.last() as u32 - '0' as u32) as nat)
    }
}

/// The integer that a text writes: digits, with a plus or minus sign in
/// front if one likes, and nothing else. A text without a digit writes no
/// integer.
pub open spec fn integer_of(s: Seq<char>) -> Option<int> {
    let signed = s.len() > 0 && (s[0] == '-' || s[0] == '+');
    let body = if signed {
        s.skip(1)
    } else {
        s
    };
    if body.len() == 0 || !all_digits(body) {
        None
    } else if signed && s[0] == '-' {
        Some(-(digits_value(body) as int))
    } else {
        Some(digits_value(body) as int)
    }
}

/// The 32-bit integer that a text writes; none where the integer does not
/// fit.
pub open spec fn i32_of(s: Seq<char>) -> Option<i32> {
    match integer_of(s) {
        Some(v) => if i32::MIN <= v <= i32::MAX {
            Some(v as i32)
        } else {
            None
        },
        None => None,
    }
}

/// The 32-bit integer that a text writes.
pub fn parse_i32(text: &str) -> (r: Option<i32>)
    ensures
        r == i32_of(text@),
{
    let chars = to_chars(text);
    if chars.len() == 0 {
        return None;
    }
    let negative = chars[0] == '-';
    let start: usize = if chars[0] == '-' || chars[0] == '+' {
        1
    } else {
        0
    };
    if start == chars.len() {
        assert(chars@.skip(1).len() == 0);
        return None;
    }
    let ghost body = chars@.skip(start as int);
    assert(chars@.skip(0) =~= chars@);
    let mut value: i64 = 0;
    let mut over: bool = false;
    let mut i: usize = start;
    assert(body.take(0) =~= Seq::<char>::empty());
    while i < chars.len()
        invariant
            start <= i <= chars.len(),
            chars@ == text@,
            chars@.len() > 0,
            start == if chars@[0] == '-' || chars@[0] == '+' {
                1usize
            } else {
                0usize
            },
            body == chars@.skip(start as int),
            start == 0 ==> body == chars@,
            all_digits(body.take(i - start)),
            !over ==> 0 <= value <= 2147483648 && value == digits_value(body.take(i - start)),
            over ==> digits_value(body.take(i - start)) > 2147483648,
        decreases chars.len() - i,
    {
        let c = chars[i];
        proof {
            assert(body[i - start] == c);
            assert(body.take(i - start + 1).drop_last() =~= body.take(i - start));
            assert(body.take(i - start + 1).last() == c);
        }
        if !('0' <= c && c <= '9') {
            assert(!is_digit(body[i - start]));
            return None;
        }
        proof {
            assert forall|j: int| 0 <= j < i - start + 1 implies is_digit(
                #[trigger] body.take(i - start + 1)[j],
            ) by {
                if j < i - start {
                    assert(body.take(i - start)[j] == body.take(i - start + 1)[j]);
                }
            }
        }
        let d: i64 = (c as u32 - '0' as u32) as i64;
        if !over {
            let next = value * 10 + d;
            if next > 2147483648 {
                over = true;
            } else {
                value = next;
            }
        }
        i = i + 1;
    }
    assert(body.take(i - start) =~= body);
    if over {
        None
    } else if negative {
        Some((0 - value) as i32)
    } else if value > 2147483647 {
        None
    } else {
        Some(value as i32)
    }
}

} // verus!
