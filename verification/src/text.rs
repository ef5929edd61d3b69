//! Character-level text operations shared by the statement builders.
//!
//! Strings are modelled by their character sequences (`String::view`). The
//! spec functions here say what `str::split`, `str::trim`, `str::trim_matches`,
//! `str::contains` and joining compute, and the executable functions compute
//! exactly that.
use vstd::prelude::*;

verus! {

pub assume_specification[ String::push ](s: &mut String, ch: char)
    ensures
        final(s)@ == old(s)@.push(ch),
;

/// Unicode `White_Space`, as `char::is_whitespace` tests it.
pub open spec fn is_white(c: char) -> bool {
    let u = c as u32;
    ||| u == 0x20
    ||| 0x09 <= u <= 0x0d
    ||| u == 0x85
    ||| u == 0xa0
    ||| u == 0x1680
    ||| 0x2000 <= u <= 0x200a
    ||| u == 0x2028
    ||| u == 0x2029
    ||| u == 0x202f
    ||| u == 0x205f
    ||| u == 0x3000
}

/// The characters that a trim removes: white space, and commas too where `commas` holds.
pub open spec fn trimmable(c: char, commas: bool) -> bool {
    is_white(c) || (commas && c == ',')
}

pub open spec fn trim_start(s: Seq<char>, commas: bool) -> Seq<char>
    decreases s.len(),
{
    if s.len() > 0 && trimmable(s[0], commas) {
        trim_start(s.drop_first(), commas)
    } else {
        s
    }
}

pub open spec fn trim_end(s: Seq<char>, commas: bool) -> Seq<char>
    decreases s.len(),
{
    if s.len() > 0 && trimmable(s.last(), commas) {
        trim_end(s.drop_last(), commas)
    } else {
        s
    }
}

/// `str::trim` (without commas) and `str::trim_matches(|c| c.is_whitespace() || c == ',')` (with them).
pub open spec fn trim(s: Seq<char>, commas: bool) -> Seq<char> {
    trim_end(trim_start(s, commas), commas)
}

/// `str::split` on one character: the pieces between the separators, in order.
/// There is always at least one piece.
pub open spec fn split(s: Seq<char>, sep: char) -> Seq<Seq<char>>
    decreases s.len(),
{
    if s.len() == 0 {
        seq![Seq::<char>::empty()]
    } else {
        let init = split(s.drop_last(), sep);
        if s.last() == sep {
            init.push(Seq::<char>::empty())
        } else {
            init.update(init.len() - 1, init.last().push(s.last()))
        }
    }
}

/// The pieces one after the other.
pub open spec fn concat(ps: Seq<Seq<char>>) -> Seq<char>
    decreases ps.len(),
{
    if ps.len() == 0 {
        Seq::<char>::empty()
    } else {
        concat(ps.drop_last()) + ps.last()
    }
}

/// The pieces with `sep` between each two of them.
pub open spec fn join(ps: Seq<Seq<char>>, sep: Seq<char>) -> Seq<char>
    decreases ps.len(),
{
    if ps.len() == 0 {
        Seq::<char>::empty()
    } else if ps.len() == 1 {
        ps[0]
    } else {
        join(ps.drop_last(), sep) + sep + ps.last()
    }
}

/// `t` occurs in `s` as a contiguous part.
pub open spec fn has_infix(s: Seq<char>, t: Seq<char>) -> bool {
    exists|i: int| 0 <= i && i + t.len() <= s.len() && #[trigger] s.subrange(i, i + t.len()) == t
}

/// The decimal digits of `n`, as `usize::to_string` writes them.
pub open spec fn decimal(n: nat) -> Seq<char>
    decreases n,
{
    if n < 10 {
        seq![digit_char(n)]
    } else {
        decimal(n / 10).push(digit_char(n % 10))
    }
}

pub open spec fn digit_char(d: nat) -> char {
    if d == 0 { '0' }
    else if d == 1 { '1' }
    else if d == 2 { '2' }
    else if d == 3 { '3' }
    else if d == 4 { '4' }
    else if d == 5 { '5' }
    else if d == 6 { '6' }
    else if d == 7 { '7' }
    else if d == 8 { '8' }
    else { '9' }
}

/// The character sequences of a vector of character vectors.
pub open spec fn char_seqs(v: Seq<Vec<char>>) -> Seq<Seq<char>> {
    v.map_values(|p: Vec<char>| p@)
}

/// Splitting at one separator splits each side on its own.
pub proof fn lemma_split_around(x: Seq<char>, y: Seq<char>, sep: char)
    ensures
        split(x + seq![sep] + y, sep) == split(x, sep) + split(y, sep),
    decreases y.len(),
{
    let s = x + seq![sep] + y;
    lemma_split_nonempty(x, sep);
    if y.len() == 0 {
        assert(s.drop_last() =~= x);
        assert(split(x, sep) + split(y, sep) =~= split(x, sep).push(Seq::<char>::empty()));
    } else {
        lemma_split_around(x, y.drop_last(), sep);
        lemma_split_nonempty(y.drop_last(), sep);
        assert(s.drop_last() =~= x + seq![sep] + y.drop_last());
        let a = split(x, sep);
        let b = split(y.drop_last(), sep);
        if y.last() == sep {
            assert((a + b).push(Seq::<char>::empty()) =~= a + b.push(Seq::<char>::empty()));
        } else {
            assert((a + b).update((a + b).len() - 1, (a + b).last().push(y.last())) =~= a + b.update(
                b.len() - 1,
                b.last().push(y.last()),
            ));
        }
    }
}

/// A separator-free head joins the first piece of what follows it.
pub proof fn lemma_split_prefix(h: Seq<char>, x: Seq<char>, sep: char)
    requires
        !h.contains(sep),
    ensures
        split(h + x, sep) == split(x, sep).update(0, h + split(x, sep)[0]),
    decreases x.len(),
{
    lemma_split_nonempty(x, sep);
    if x.len() == 0 {
        assert(h + x =~= h);
        lemma_split_without_sep(h, sep);
        assert(split(x, sep) =~= seq![Seq::<char>::empty()]);
        assert(h + Seq::<char>::empty() =~= h);
        assert(split(x, sep).update(0, h + split(x, sep)[0]) =~= seq![h]);
    } else {
        lemma_split_prefix(h, x.drop_last(), sep);
        lemma_split_nonempty(x.drop_last(), sep);
        assert((h + x).drop_last() =~= h + x.drop_last());
        assert((h + x).last() == x.last());
        let b = split(x.drop_last(), sep);
        let hb = b.update(0, h + b[0]);
        if x.last() == sep {
            assert(hb.push(Seq::<char>::empty()) =~= b.push(Seq::<char>::empty()).update(
                0,
                h + b.push(Seq::<char>::empty())[0],
            ));
        } else {
            let nb = b.update(b.len() - 1, b.last().push(x.last()));
            if b.len() == 1 {
                assert((h + b[0]).push(x.last()) =~= h + b[0].push(x.last()));
                assert(hb.update(hb.len() - 1, hb.last().push(x.last())) =~= nb.update(0, h + nb[0]));
            } else {
                assert(hb.update(hb.len() - 1, hb.last().push(x.last())) =~= nb.update(0, h + nb[0]));
            }
        }
    }
}

/// A text without the separator is one piece.
pub proof fn lemma_split_without_sep(s: Seq<char>, sep: char)
    requires
        !s.contains(sep),
    ensures
        split(s, sep) == seq![s],
    decreases s.len(),
{
    if s.len() == 0 {
        assert(s =~= Seq::<char>::empty());
        assert(split(s, sep) =~= seq![s]);
    } else {
        assert(!s.drop_last().contains(sep)) by {
            if s.drop_last().contains(sep) {
                let j = choose|j: int| 0 <= j < s.drop_last().len() && s.drop_last()[j] == sep;
                assert(s[j] == sep);
            }
        }
        lemma_split_without_sep(s.drop_last(), sep);
        assert(s.last() != sep) by {
            assert(s[s.len() - 1] == s.last());
        }
        assert(s.drop_last().push(s.last()) =~= s);
        let init = split(s.drop_last(), sep);
        assert(init.update(0, s) =~= seq![s]);
    }
}

/// What a trim keeps is part of what it was given.
pub proof fn lemma_trim_lacks(s: Seq<char>, commas: bool, c: char)
    requires
        !s.contains(c),
    ensures
        !trim(s, commas).contains(c),
{
    lemma_trim_start_lacks(s, commas, c);
    lemma_trim_end_lacks(trim_start(s, commas), commas, c);
}

proof fn lemma_trim_start_lacks(s: Seq<char>, commas: bool, c: char)
    requires
        !s.contains(c),
    ensures
        !trim_start(s, commas).contains(c),
    decreases s.len(),
{
    if s.len() > 0 && trimmable(s[0], commas) {
        assert(!s.drop_first().contains(c)) by {
            if s.drop_first().contains(c) {
                let j = choose|j: int| 0 <= j < s.drop_first().len() && s.drop_first()[j] == c;
                assert(s[j + 1] == c);
            }
        }
        lemma_trim_start_lacks(s.drop_first(), commas, c);
    }
}

proof fn lemma_trim_end_lacks(s: Seq<char>, commas: bool, c: char)
    requires
        !s.contains(c),
    ensures
        !trim_end(s, commas).contains(c),
    decreases s.len(),
{
    if s.len() > 0 && trimmable(s.last(), commas) {
        assert(!s.drop_last().contains(c)) by {
            if s.drop_last().contains(c) {
                let j = choose|j: int| 0 <= j < s.drop_last().len() && s.drop_last()[j] == c;
                assert(s[j] == c);
            }
        }
        lemma_trim_end_lacks(s.drop_last(), commas, c);
    }
}

/// A character of a concatenation is a character of one of its parts.
pub proof fn lemma_concat_contains(a: Seq<char>, b: Seq<char>, c: char)
    ensures
        (a + b).contains(c) <==> (a.contains(c) || b.contains(c)),
{
    if (a + b).contains(c) {
        let i = choose|i: int| 0 <= i < (a + b).len() && (a + b)[i] == c;
        if i < a.len() {
            assert(a[i] == c);
        } else {
            assert(b[i - a.len()] == c);
        }
    }
    if a.contains(c) {
        let i = choose|i: int| 0 <= i < a.len() && a[i] == c;
        assert((a + b)[i] == c);
    }
    if b.contains(c) {
        let i = choose|i: int| 0 <= i < b.len() && b[i] == c;
        assert((a + b)[a.len() + i] == c);
    }
}

/// The characters of `s`, in order.
pub fn chars_of(s: &str) -> (v: Vec<char>)
    ensures
        v@ == s@,
{
    let mut v: Vec<char> = Vec::new();
    for c in it: s.chars()
        invariant
            v@ == it.seq().take(it.index() as int),
            it.seq() == s@,
    {
        v.push(c);
    }
    v
}

/// A `String` holding the characters `v`.
pub fn string_of(v: &Vec<char>) -> (s: String)
    ensures
        s@ == v@,
{
    let mut s = String::new();
    let mut i: usize = 0;
    while i < v.len()
        invariant
            i <= v.len(),
            s@ == v@.take(i as int),
        decreases v.len() - i,
    {
        s.push(v[i]);
        assert(v@.take(i + 1) =~= v@.take(i as int).push(v@[i as int]));
        i += 1;
    }
    assert(v@.take(v.len() as int) =~= v@);
    s
}

/// Appends the characters `v` to `s`.
pub fn push_chars(s: &mut String, v: &Vec<char>)
    ensures
        final(s)@ == old(s)@ + v@,
{
    let mut i: usize = 0;
    while i < v.len()
        invariant
            i <= v.len(),
            s@ == old(s)@ + v@.take(i as int),
        decreases v.len() - i,
    {
        s.push(v[i]);
        assert(v@.take(i + 1) =~= v@.take(i as int).push(v@[i as int]));
        i += 1;
    }
    assert(v@.take(v.len() as int) =~= v@);
}

pub fn is_white_char(c: char) -> (b: bool)
    ensures
        b == is_white(c),
{
    let u = c as u32;
    u == 0x20 || (0x09 <= u && u <= 0x0d) || u == 0x85 || u == 0xa0 || u == 0x1680 || (0x2000 <= u
        && u <= 0x200a) || u == 0x2028 || u == 0x2029 || u == 0x202f || u == 0x205f || u == 0x3000
}

pub fn is_trimmable(c: char, commas: bool) -> (b: bool)
    ensures
        b == trimmable(c, commas),
{
    is_white_char(c) || (commas && c == ',')
}

proof fn lemma_trim_start_step(s: Seq<char>, lo: int, commas: bool)
    requires
        0 <= lo < s.len(),
        trimmable(s[lo], commas),
    ensures
        trim_start(s.subrange(lo, s.len() as int), commas) == trim_start(
            s.subrange(lo + 1, s.len() as int),
            commas,
        ),
{
    assert(s.subrange(lo, s.len() as int).drop_first() =~= s.subrange(lo + 1, s.len() as int));
}

proof fn lemma_trim_end_step(s: Seq<char>, lo: int, hi: int, commas: bool)
    requires
        0 <= lo < hi <= s.len(),
        trimmable(s[hi - 1], commas),
    ensures
        trim_end(s.subrange(lo, hi), commas) == trim_end(s.subrange(lo, hi - 1), commas),
{
    assert(s.subrange(lo, hi).drop_last() =~= s.subrange(lo, hi - 1));
}

/// `v` without its leading and trailing trimmable characters.
pub fn trimmed(v: &Vec<char>, commas: bool) -> (r: Vec<char>)
    ensures
        r@ == trim(v@, commas),
{
    let n = v.len();
    let mut lo: usize = 0;
    assert(v@.subrange(0, n as int) =~= v@);
    while lo < n && is_trimmable(v[lo], commas)
        invariant
            lo <= n == v.len(),
            trim_start(v@, commas) == trim_start(v@.subrange(lo as int, n as int), commas),
        decreases n - lo,
    {
        proof {
            lemma_trim_start_step(v@, lo as int, commas);
        }
        lo += 1;
    }
    assert(trim_start(v@, commas) == v@.subrange(lo as int, n as int));
    let mut hi: usize = n;
    while hi > lo && is_trimmable(v[hi - 1], commas)
        invariant
            lo <= hi <= n == v.len(),
            trim(v@, commas) == trim_end(v@.subrange(lo as int, hi as int), commas),
        decreases hi,
    {
        proof {
            lemma_trim_end_step(v@, lo as int, hi as int, commas);
        }
        hi -= 1;
    }
    let mut r: Vec<char> = Vec::new();
    let mut i: usize = lo;
    while i < hi
        invariant
            lo <= i <= hi <= n == v.len(),
            r@ == v@.subrange(lo as int, i as int),
        decreases hi - i,
    {
        r.push(v[i]);
        assert(v@.subrange(lo as int, i + 1) =~= v@.subrange(lo as int, i as int).push(v@[i as int]));
        i += 1;
    }
    r
}

proof fn lemma_split_step(s: Seq<char>, i: int, sep: char)
    requires
        0 <= i < s.len(),
    ensures
        split(s.take(i + 1), sep) == (if s[i] == sep {
            split(s.take(i), sep).push(Seq::<char>::empty())
        } else {
            let init = split(s.take(i), sep);
            init.update(init.len() - 1, init.last().push(s[i]))
        }),
{
    assert(s.take(i + 1).drop_last() =~= s.take(i));
}

pub proof fn lemma_split_nonempty(s: Seq<char>, sep: char)
    ensures
        split(s, sep).len() >= 1,
    decreases s.len(),
{
    if s.len() > 0 {
        lemma_split_nonempty(s.drop_last(), sep);
    }
}

/// The pieces of `v` between the occurrences of `sep`.
pub fn split_chars(v: &Vec<char>, sep: char) -> (pieces: Vec<Vec<char>>)
    ensures
        char_seqs(pieces@) == split(v@, sep),
{
    let mut pieces: Vec<Vec<char>> = Vec::new();
    let mut cur: Vec<char> = Vec::new();
    let mut i: usize = 0;
    assert(v@.take(0) =~= Seq::<char>::empty());
    while i < v.len()
        invariant
            i <= v.len(),
            char_seqs(pieces@).push(cur@) == split(v@.take(i as int), sep),
        decreases v.len() - i,
    {
        proof {
            lemma_split_step(v@, i as int, sep);
            lemma_split_nonempty(v@.take(i as int), sep);
        }
        let ghost before = char_seqs(pieces@);
        if v[i] == sep {
            pieces.push(cur);
            cur = Vec::new();
            assert(char_seqs(pieces@) =~= before.push(split(v@.take(i as int), sep).last()));
        } else {
            cur.push(v[i]);
        }
        assert(char_seqs(pieces@).push(cur@) =~= split(v@.take(i + 1), sep));
        i += 1;
    }
    pieces.push(cur);
    assert(v@.take(v.len() as int) =~= v@);
    pieces
}

/// What `str::to_lowercase` returns for `s`: its Unicode lowercase mapping.
pub uninterp spec fn lowercase(s: Seq<char>) -> Seq<char>;

/// Calls `str::to_lowercase`; the result is `lowercase` of the argument.
#[verifier::external_body]
pub(crate) fn to_lowercase(s: &str) -> (r: String)
    ensures
        r@ == lowercase(s@),
{
    s.to_lowercase()
}

/// Whether `t` occurs in `s`.
pub fn contains_text(s: &Vec<char>, t: &Vec<char>) -> (r: bool)
    ensures
        r == has_infix(s@, t@),
{
    if t.len() > s.len() {
        return false;
    }
    let mut i: usize = 0;
    let last = s.len() - t.len();
    while i <= last
        invariant
            last == s.len() - t.len(),
            t.len() <= s.len(),
            i <= last + 1,
            forall|j: int| 0 <= j < i ==> #[trigger] s@.subrange(j, j + t.len()) != t@,
        decreases last + 1 - i,
    {
        let mut k: usize = 0;
        let mut same = true;
        while k < t.len()
            invariant
                i + t.len() <= s.len(),
                k <= t.len(),
                same == (forall|m: int| 0 <= m < k ==> s@[i + m] == t@[m]),
            decreases t.len() - k,
        {
            if s[i + k] != t[k] {
                same = false;
            }
            k += 1;
        }
        if same {
            assert(s@.subrange(i as int, i + t.len()) =~= t@);
            return true;
        }
        assert(s@.subrange(i as int, i + t.len()) != t@) by {
            let m = choose|m: int| 0 <= m < t.len() && s@[i + m] != t@[m];
            assert(s@.subrange(i as int, i + t.len())[m] == s@[i + m]);
        }
        i += 1;
    }
    assert(!has_infix(s@, t@)) by {
        if has_infix(s@, t@) {
            let j = choose|j: int| 0 <= j && j + t@.len() <= s@.len() && #[trigger] s@.subrange(j, j + t@.len()) == t@;
            assert(s@.subrange(j, j + t.len()) != t@);
        }
    }
    false
}

} // verus!
