//! Character-sequence helpers shared by the rest of the library.

use vstd::prelude::*;

verus! {

/// `String::push` from std: appends one character.
#[verifier::external_body]
pub(crate) fn push_char(s: &mut String, c: char)
    ensures
        final(s)@ == old(s)@.push(c),
{
    s.push(c)
}

/// The characters of a string slice, collected into a vector.
pub fn chars_of(s: &str) -> (v: Vec<char>)
    ensures
        v@ == s@,
{
    let mut v: Vec<char> = Vec::new();
    for c in it: s.chars()
        invariant
            v@ == it.seq().take(it.index() as int),
    {
        v.push(c);
    }
    v
}

} // verus!

verus! {

/// The ASCII digit for a value below ten.
pub open spec fn digit_char(d: int) -> char {
    (d + 48) as char
}

/// Whether a character is one of the ASCII digits `0`..=`9`.
pub open spec fn is_digit_char(c: char) -> bool {
    '0' <= c && c <= '9'
}

/// The shortest decimal notation of a natural number, most significant digit first.
pub open spec fn decimal(n: nat) -> Seq<char>
    decreases n,
{
    if n < 10 {
        seq![digit_char(n as int)]
    } else {
        decimal(n / 10).push(digit_char((n % 10) as int))
    }
}

/// Appends the decimal notation of `n` to `out`.
pub fn push_decimal(out: &mut String, n: u32)
    ensures
        final(out)@ == old(out)@ + decimal(n as nat),
    decreases n,
{
    if n >= 10 {
        push_decimal(out, n / 10);
    }
    let d: u8 = (n % 10) as u8;
    let c: char = (48u8 + d) as char;
    push_char(out, c);
    assert(out@ =~= old(out)@ + decimal(n as nat));
}

} // verus!

verus! {

/// The value of a character sequence read as decimal digits.
pub open spec fn chars_value(s: Seq<char>) -> nat
    decreases s.len(),
{
    if s.len() == 0 {
        0
    } else {
        chars_value(s.drop_last()) * 10 + (s.last() as int - 48) as nat
    }
}

/// Every character of a sequence is an ASCII digit.
pub open spec fn all_digits(s: Seq<char>) -> bool {
    forall|i: int| 0 <= i < s.len() ==> is_digit_char(#[trigger] s[i])
}

/// The decimal notation is a non-empty run of digits that reads back as the number.
pub proof fn lemma_decimal(n: nat)
    ensures
        decimal(n).len() >= 1,
        all_digits(decimal(n)),
        chars_value(decimal(n)) == n,
    decreases n,
{
    let d = (n % 10) as int;
    assert(digit_char(d) as int == d + 48);
    if n >= 10 {
        lemma_decimal(n / 10);
        let s = decimal(n);
        assert(s.drop_last() =~= decimal(n / 10));
        assert(s.last() == digit_char(d));
        assert(n == (n / 10) * 10 + (n % 10)) by (nonlinear_arith);
    } else {
        assert(decimal(n).drop_last() =~= Seq::<char>::empty());
        assert(chars_value(Seq::<char>::empty()) == 0);
    }
}

/// Distinct numbers have distinct decimal notations.
pub proof fn lemma_decimal_injective(a: nat, b: nat)
    requires
        decimal(a) == decimal(b),
    ensures
        a == b,
{
    lemma_decimal(a);
    lemma_decimal(b);
}

/// A run of digits followed by a separator that is not a digit can be split off uniquely.
pub proof fn lemma_split_digits(d1: Seq<char>, r1: Seq<char>, d2: Seq<char>, r2: Seq<char>, sep: char)
    requires
        all_digits(d1),
        all_digits(d2),
        !is_digit_char(sep),
        d1 + seq![sep] + r1 == d2 + seq![sep] + r2,
    ensures
        d1 == d2,
        r1 == r2,
{
    let l = d1 + seq![sep] + r1;
    let r = d2 + seq![sep] + r2;
    if d1.len() < d2.len() {
        assert(l[d1.len() as int] == sep);
        assert(r[d1.len() as int] == d2[d1.len() as int]);
        assert(false);
    } else if d2.len() < d1.len() {
        assert(r[d2.len() as int] == sep);
        assert(l[d2.len() as int] == d1[d2.len() as int]);
        assert(false);
    }
    assert(d1 =~= l.take(d1.len() as int));
    assert(d2 =~= r.take(d2.len() as int));
    assert(r1 =~= l.skip(d1.len() as int + 1));
    assert(r2 =~= r.skip(d2.len() as int + 1));
}

} // verus!

verus! {

/// Position of the first occurrence of `c` in `s`, or the length of `s` when absent.
pub open spec fn index_of(s: Seq<char>, c: char) -> nat
    decreases s.len(),
{
    if s.len() == 0 {
        0
    } else if s[0] == c {
        0
    } else {
        1 + index_of(s.drop_first(), c)
    }
}

/// The part of `s` before the first `c` (all of `s` when there is none).
pub open spec fn before_first(s: Seq<char>, c: char) -> Seq<char> {
    s.take(index_of(s, c) as int)
}

/// `s` without any trailing `c`.
pub open spec fn trim_end_char(s: Seq<char>, c: char) -> Seq<char>
    decreases s.len(),
{
    if s.len() > 0 && s.last() == c {
        trim_end_char(s.drop_last(), c)
    } else {
        s
    }
}

/// The longest suffix of `s` that holds no `c`.
pub open spec fn last_run(s: Seq<char>, c: char) -> Seq<char>
    decreases s.len(),
{
    if s.len() == 0 || s.last() == c {
        Seq::<char>::empty()
    } else {
        last_run(s.drop_last(), c).push(s.last())
    }
}

/// The first occurrence is where the scan for it stops.
pub proof fn lemma_index_of(s: Seq<char>, c: char, i: int)
    requires
        0 <= i <= s.len(),
        forall|k: int| 0 <= k < i ==> s[k] != c,
        i == s.len() || s[i] == c,
    ensures
        index_of(s, c) == i,
    decreases i,
{
    if i > 0 {
        lemma_index_of(s.drop_first(), c, i - 1);
    }
}

/// The position of the first `c` in `v`, or `v.len()`.
pub fn find_char(v: &Vec<char>, c: char) -> (i: usize)
    ensures
        i == index_of(v@, c),
        i <= v@.len(),
{
    let mut i: usize = 0;
    while i < v.len() && v[i] != c
        invariant
            i <= v@.len(),
            forall|k: int| 0 <= k < i ==> v@[k] != c,
        decreases v@.len() - i,
    {
        i = i + 1;
    }
    proof {
        lemma_index_of(v@, c, i as int);
    }
    i
}

/// Moves `end` back over trailing `c`s: `v[..result]` is `v[..end]` with them trimmed.
pub fn trim_end_position(v: &Vec<char>, end: usize, c: char) -> (e: usize)
    requires
        end <= v@.len(),
    ensures
        e <= end,
        v@.take(e as int) == trim_end_char(v@.take(end as int), c),
{
    let mut e = end;
    while e > 0 && v[e - 1] == c
        invariant
            e <= end <= v@.len(),
            trim_end_char(v@.take(e as int), c) == trim_end_char(v@.take(end as int), c),
        decreases e,
    {
        assert(v@.take(e as int).drop_last() =~= v@.take(e - 1));
        e = e - 1;
    }
    proof {
        if e > 0 {
            assert(v@.take(e as int).last() == v@[e - 1]);
        }
    }
    e
}

/// The start of the run of non-`c` characters that ends at `end`.
pub fn run_start(v: &Vec<char>, end: usize, c: char) -> (s: usize)
    requires
        end <= v@.len(),
    ensures
        s <= end,
        v@.subrange(s as int, end as int) == last_run(v@.take(end as int), c),
        forall|k: int| s <= k < end ==> v@[k] != c,
{
    let mut s = end;
    assert(v@.subrange(end as int, end as int) =~= Seq::<char>::empty());
    while s > 0 && v[s - 1] != c
        invariant
            s <= end <= v@.len(),
            last_run(v@.take(end as int), c) == last_run(v@.take(s as int), c) + v@.subrange(
                s as int,
                end as int,
            ),
            forall|k: int| s <= k < end ==> v@[k] != c,
        decreases s,
    {
        assert(v@.take(s as int).drop_last() =~= v@.take(s - 1));
        assert(v@.take(s as int).last() == v@[s - 1]);
        assert(v@.subrange(s - 1, end as int) =~= seq![v@[s - 1]] + v@.subrange(
            s as int,
            end as int,
        ));
        s = s - 1;
    }
    proof {
        if s > 0 {
            assert(v@.take(s as int).last() == v@[s - 1]);
        }
        assert(last_run(v@.take(s as int), c) == Seq::<char>::empty());
        assert(last_run(v@.take(end as int), c) =~= v@.subrange(s as int, end as int));
    }
    s
}

} // verus!

verus! {

/// Whether `v[from..to]` spells `word`.
pub fn segment_is(v: &Vec<char>, from: usize, to: usize, word: &Vec<char>) -> (b: bool)
    requires
        from <= to <= v@.len(),
    ensures
        b == (v@.subrange(from as int, to as int) == word@),
{
    if to - from != word.len() {
        return false;
    }
    let mut i: usize = 0;
    while i < word.len()
        invariant
            from <= to <= v@.len(),
            to - from == word@.len(),
            i <= word@.len(),
            forall|k: int| 0 <= k < i ==> v@[from + k] == word@[k],
        decreases word@.len() - i,
    {
        if v[from + i] != word[i] {
            assert(v@.subrange(from as int, to as int)[i as int] != word@[i as int]);
            return false;
        }
        i = i + 1;
    }
    assert(v@.subrange(from as int, to as int) =~= word@);
    true
}

/// Whether a string slice spells `word`.
pub fn str_is(s: &str, word: &Vec<char>) -> (b: bool)
    ensures
        b == (s@ == word@),
{
    let v = chars_of(s);
    assert(v@.subrange(0, v@.len() as int) =~= v@);
    segment_is(&v, 0, v.len(), word)
}

} // verus!

verus! {

/// Unicode white space, as `char::is_whitespace` decides it.
pub open spec fn is_whitespace(c: char) -> bool {
    ||| '\u{9}' <= c && c <= '\u{d}'
    ||| c == ' '
    ||| c == '\u{85}'
    ||| c == '\u{a0}'
    ||| c == '\u{1680}'
    ||| '\u{2000}' <= c && c <= '\u{200a}'
    ||| c == '\u{2028}'
    ||| c == '\u{2029}'
    ||| c == '\u{202f}'
    ||| c == '\u{205f}'
    ||| c == '\u{3000}'
}

pub fn is_whitespace_exec(c: char) -> (b: bool)
    ensures
        b == is_whitespace(c),
{
    ('\u{9}' <= c && c <= '\u{d}') || c == ' ' || c == '\u{85}' || c == '\u{a0}' || c == '\u{1680}'
        || ('\u{2000}' <= c && c <= '\u{200a}') || c == '\u{2028}' || c == '\u{2029}' || c
        == '\u{202f}' || c == '\u{205f}' || c == '\u{3000}'
}

/// `s` without leading white space.
pub open spec fn trim_start(s: Seq<char>) -> Seq<char>
    decreases s.len(),
{
    if s.len() > 0 && is_whitespace(s[0]) {
        trim_start(s.drop_first())
    } else {
        s
    }
}

/// Whether `s` begins with `p`.
pub open spec fn starts_with(s: Seq<char>, p: Seq<char>) -> bool {
    p.len() <= s.len() && s.take(p.len() as int) == p
}

/// The position of the first character at or after `from` that is not white space.
pub fn skip_whitespace(v: &Vec<char>, from: usize) -> (i: usize)
    requires
        from <= v@.len(),
    ensures
        from <= i <= v@.len(),
        v@.skip(i as int) == trim_start(v@.skip(from as int)),
        forall|k: int| from <= k < i ==> is_whitespace(#[trigger] v@[k]),
{
    let mut i = from;
    while i < v.len() && is_whitespace_exec(v[i])
        invariant
            from <= i <= v@.len(),
            trim_start(v@.skip(i as int)) == trim_start(v@.skip(from as int)),
            forall|k: int| from <= k < i ==> is_whitespace(#[trigger] v@[k]),
        decreases v@.len() - i,
    {
        assert(v@.skip(i as int).drop_first() =~= v@.skip(i + 1));
        i = i + 1;
    }
    proof {
        if i < v@.len() {
            assert(v@.skip(i as int)[0] == v@[i as int]);
        }
    }
    i
}

/// Whether `v[from..]` begins with `p`.
pub fn starts_with_at(v: &Vec<char>, from: usize, p: &Vec<char>) -> (b: bool)
    requires
        from <= v@.len(),
    ensures
        b == starts_with(v@.skip(from as int), p@),
{
    if v.len() - from < p.len() {
        return false;
    }
    let r = segment_is(v, from, from + p.len(), p);
    assert(v@.skip(from as int).take(p@.len() as int) =~= v@.subrange(from as int, from + p@.len()));
    r
}

} // verus!

verus! {

/// The pieces of `s` between occurrences of `c`, as `str::split` gives them: always at
/// least one piece, empty pieces kept.
pub open spec fn split_on(s: Seq<char>, c: char) -> Seq<Seq<char>>
    decreases s.len(),
{
    let i = index_of(s, c);
    if i >= s.len() {
        seq![s]
    } else {
        seq![s.take(i as int)] + split_on(s.skip(i as int + 1), c)
    }
}

/// Copies `v[from..to]`.
pub fn copy_range(v: &Vec<char>, from: usize, to: usize) -> (r: Vec<char>)
    requires
        from <= to <= v@.len(),
    ensures
        r@ == v@.subrange(from as int, to as int),
{
    let mut r: Vec<char> = Vec::new();
    let mut i = from;
    while i < to
        invariant
            from <= i <= to <= v@.len(),
            r@ == v@.subrange(from as int, i as int),
        decreases to - i,
    {
        r.push(v[i]);
        i = i + 1;
    }
    r
}

/// The views of a list of character vectors.
pub open spec fn vecs_view(s: Seq<Vec<char>>) -> Seq<Seq<char>> {
    s.map_values(|x: Vec<char>| x@)
}

/// Splits `v` at every `c`, as `str::split` does.
pub fn split_chars(v: &Vec<char>, c: char) -> (r: Vec<Vec<char>>)
    ensures
        vecs_view(r@) == split_on(v@, c),
{
    let mut r: Vec<Vec<char>> = Vec::new();
    let mut start: usize = 0;
    assert(v@.skip(0) =~= v@);
    loop
        invariant
            start <= v@.len(),
            split_on(v@, c) == vecs_view(r@) + split_on(v@.skip(start as int), c),
        decreases v@.len() - start,
    {
        let mut i = start;
        while i < v.len() && v[i] != c
            invariant
                start <= i <= v@.len(),
                forall|k: int| start <= k < i ==> v@[k] != c,
            decreases v@.len() - i,
        {
            i = i + 1;
        }
        let ghost t = v@.skip(start as int);
        proof {
            lemma_index_of(t, c, i - start);
        }
        let piece = copy_range(v, start, i);
        assert(piece@ =~= t.take(i - start));
        let ghost before = vecs_view(r@);
        r.push(piece);
        assert(vecs_view(r@) =~= before + seq![piece@]);
        if i == v.len() {
            assert(split_on(t, c) == seq![t]);
            assert(t.take(i - start) =~= t);
            assert(split_on(v@, c) =~= vecs_view(r@));
            return r;
        }
        assert(t.skip(i - start + 1) =~= v@.skip(i + 1));
        assert(split_on(t, c) == seq![t.take(i - start)] + split_on(t.skip(i - start + 1), c));
        assert(split_on(v@, c) =~= vecs_view(r@) + split_on(v@.skip(i + 1), c));
        start = i + 1;
    }
}

/// Whether `p` occurs in `s` (the empty sequence occurs everywhere).
pub open spec fn contains_seq(s: Seq<char>, p: Seq<char>) -> bool {
    exists|i: int| 0 <= i && i + p.len() <= s.len() && #[trigger] s.subrange(i, i + p.len()) == p
}

/// Whether `p` occurs in `v`.
pub fn contains_chars(v: &Vec<char>, p: &Vec<char>) -> (b: bool)
    ensures
        b == contains_seq(v@, p@),
{
    if p.len() > v.len() {
        return false;
    }
    let last = v.len() - p.len();
    let mut i: usize = 0;
    loop
        invariant
            last + p@.len() == v@.len(),
            v@.len() <= usize::MAX,
            i <= last,
            forall|k: int| 0 <= k < i ==> #[trigger] v@.subrange(k, k + p@.len()) != p@,
        ensures
            forall|k: int| 0 <= k <= last ==> #[trigger] v@.subrange(k, k + p@.len()) != p@,
        decreases last - i,
    {
        if segment_is(v, i, i + p.len(), p) {
            return true;
        }
        if i == last {
            break;
        }
        i = i + 1;
    }
    assert forall|k: int| 0 <= k && k + p@.len() <= v@.len() implies #[trigger] v@.subrange(k, k + p@.len()) != p@ by {}
    false
}

/// `s` with `to` before, between and after all of its characters: what replacing the
/// empty pattern gives.
pub open spec fn interleave(s: Seq<char>, to: Seq<char>) -> Seq<char>
    decreases s.len(),
{
    if s.len() == 0 {
        to
    } else {
        to + seq![s[0]] + interleave(s.drop_first(), to)
    }
}

/// `s` with every non-overlapping occurrence of `from`, found from the left, replaced by
/// `to`, as `str::replace` does.
pub open spec fn replace_all(s: Seq<char>, from: Seq<char>, to: Seq<char>) -> Seq<char>
    decreases s.len(),
{
    if from.len() == 0 {
        interleave(s, to)
    } else if s.len() < from.len() {
        s
    } else if s.take(from.len() as int) == from {
        to + replace_all(s.skip(from.len() as int), from, to)
    } else {
        seq![s[0]] + replace_all(s.drop_first(), from, to)
    }
}

/// Appends the characters of `w` to `out`.
pub fn push_chars(out: &mut String, w: &Vec<char>)
    ensures
        final(out)@ == old(out)@ + w@,
{
    let mut i: usize = 0;
    while i < w.len()
        invariant
            i <= w@.len(),
            out@ == old(out)@ + w@.take(i as int),
        decreases w@.len() - i,
    {
        push_char(out, w[i]);
        i = i + 1;
        assert(out@ =~= old(out)@ + w@.take(i as int));
    }
    assert(w@.take(w@.len() as int) =~= w@);
}

/// `v` with every occurrence of `from` replaced by `to`, as `str::replace` does.
pub fn replace_chars(v: &Vec<char>, from: &Vec<char>, to: &Vec<char>) -> (r: String)
    ensures
        r@ == replace_all(v@, from@, to@),
{
    let mut out = String::new();
    if from.len() == 0 {
        push_chars(&mut out, to);
        let mut i: usize = 0;
        assert(v@.skip(0) =~= v@);
        while i < v.len()
            invariant
                from@.len() == 0,
                i <= v@.len(),
                replace_all(v@, from@, to@) == out@ + interleave(v@.skip(i as int), to@).skip(
                    to@.len() as int,
                ),
                interleave(v@.skip(i as int), to@).take(to@.len() as int) == to@,
            decreases v@.len() - i,
        {
            let ghost t = v@.skip(i as int);
            assert(t.drop_first() =~= v@.skip(i + 1));
            assert(interleave(t, to@) == to@ + seq![t[0]] + interleave(t.drop_first(), to@));
            assert(interleave(t.drop_first(), to@).take(to@.len() as int) == to@) by {
                let u = t.drop_first();
                if u.len() == 0 {
                    assert(to@.take(to@.len() as int) =~= to@);
                } else {
                    assert((to@ + seq![u[0]] + interleave(u.drop_first(), to@)).take(to@.len() as int) =~= to@);
                }
            }
            assert(interleave(t, to@).skip(to@.len() as int) =~= seq![t[0]] + interleave(t.drop_first(), to@));
            push_char(&mut out, v[i]);
            push_chars(&mut out, to);
            let ghost u = interleave(v@.skip(i + 1), to@);
            assert(u =~= u.take(to@.len() as int) + u.skip(to@.len() as int));
            i = i + 1;
        }
        let ghost e = v@.skip(i as int);
        assert(e.len() == 0);
        assert(interleave(e, to@) == to@);
        assert(to@.skip(to@.len() as int) =~= Seq::<char>::empty());
        assert(out@ =~= replace_all(v@, from@, to@));
        return out;
    }
    let mut i: usize = 0;
    assert(v@.skip(0) =~= v@);
    while v.len() - i >= from.len()
        invariant
            from@.len() > 0,
            i <= v@.len(),
            replace_all(v@, from@, to@) == out@ + replace_all(v@.skip(i as int), from@, to@),
        decreases v@.len() - i,
    {
        let ghost t = v@.skip(i as int);
        if starts_with_at(v, i, from) {
            assert(t.take(from@.len() as int) == from@);
            assert(t.skip(from@.len() as int) =~= v@.skip(i + from@.len()));
            push_chars(&mut out, to);
            i = i + from.len();
        } else {
            assert(t.drop_first() =~= v@.skip(i + 1));
            push_char(&mut out, v[i]);
            i = i + 1;
        }
    }
    let ghost rest = v@.skip(i as int);
    assert(replace_all(rest, from@, to@) == rest);
    let tail = copy_range(v, i, v.len());
    assert(tail@ =~= rest);
    push_chars(&mut out, &tail);
    out
}

} // verus!

verus! {

/// The map that a list of (key, value) pairs spells, later pairs winning.
pub open spec fn pairs_map(s: Seq<(Seq<char>, Seq<char>)>) -> Map<Seq<char>, Seq<char>>
    decreases s.len(),
{
    if s.len() == 0 {
        Map::empty()
    } else {
        pairs_map(s.drop_last()).insert(s.last().0, s.last().1)
    }
}

/// The views of a list of string pairs.
pub open spec fn pairs_view(s: Seq<(String, String)>) -> Seq<(Seq<char>, Seq<char>)> {
    s.map_values(|p: (String, String)| (p.0@, p.1@))
}

/// No key occurs twice.
pub open spec fn distinct_keys(s: Seq<(Seq<char>, Seq<char>)>) -> bool {
    forall|i: int, j: int| 0 <= i < j < s.len() ==> s[i].0 != s[j].0
}

/// A key is in the map exactly when some pair has it.
pub proof fn lemma_pairs_map_keys(s: Seq<(Seq<char>, Seq<char>)>, k: Seq<char>)
    ensures
        pairs_map(s).contains_key(k) <==> exists|i: int| 0 <= i < s.len() && s[i].0 == k,
    decreases s.len(),
{
    if s.len() > 0 {
        lemma_pairs_map_keys(s.drop_last(), k);
        if pairs_map(s).contains_key(k) && k != s.last().0 {
            let i = choose|i: int| 0 <= i < s.drop_last().len() && s.drop_last()[i].0 == k;
            assert(s[i].0 == k);
        }
        if exists|i: int| 0 <= i < s.len() && s[i].0 == k {
            let i = choose|i: int| 0 <= i < s.len() && s[i].0 == k;
            if i < s.len() - 1 {
                assert(s.drop_last()[i].0 == k);
            }
        }
    }
}

} // verus!
