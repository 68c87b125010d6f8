//! Reading memory figures out of `/proc/self/status` and cgroup `memory.stat` texts.

use vstd::prelude::*;
use crate::text::{
    all_digits, chars_of, chars_value, is_digit_char, is_whitespace, is_whitespace_exec,
    split_chars, split_on, starts_with, starts_with_at, vecs_view,
};

verus! {

/// The lines of a text, as `str::lines` gives them: split at `\n`, a `\r` before a `\n`
/// dropped, no line after a final `\n`.
pub open spec fn text_lines(s: Seq<char>) -> Seq<Seq<char>> {
    let pieces = split_on(s, '\n');
    pieces.drop_last().map_values(|l: Seq<char>| strip_cr(l)) + (if pieces.last().len() == 0 {
        Seq::<Seq<char>>::empty()
    } else {
        seq![pieces.last()]
    })
}

/// A line without the `\r` that ends it, if any.
pub open spec fn strip_cr(l: Seq<char>) -> Seq<char> {
    if l.len() > 0 && l.last() == '\r' {
        l.drop_last()
    } else {
        l
    }
}

/// The length of the run of non-white-space characters that `s` begins with.
pub open spec fn word_len(s: Seq<char>) -> nat
    decreases s.len(),
{
    if s.len() == 0 || is_whitespace(s[0]) {
        0
    } else {
        1 + word_len(s.drop_first())
    }
}

/// The white-space separated words of `s`, as `str::split_whitespace` gives them.
pub open spec fn words(s: Seq<char>) -> Seq<Seq<char>>
    decreases s.len(),
{
    if s.len() == 0 {
        Seq::empty()
    } else if is_whitespace(s[0]) {
        words(s.drop_first())
    } else {
        let n = word_len(s);
        proof {
            lemma_word_len_bound(s);
        }
        if n == 0 {
            Seq::empty()
        } else {
            seq![s.take(n as int)] + words(s.skip(n as int))
        }
    }
}

/// What `u64`'s `FromStr` reads from a text: an optional `+` followed by one or more
/// decimal digits whose value fits a `u64`.
pub open spec fn spec_parse_u64(s: Seq<char>) -> Option<u64> {
    let d = if s.len() > 0 && s[0] == '+' {
        s.drop_first()
    } else {
        s
    };
    if d.len() == 0 || !all_digits(d) || chars_value(d) > u64::MAX {
        None
    } else {
        Some(chars_value(d) as u64)
    }
}

/// The second word of a line read as a `u64`, or 0 when it is missing or not a number.
pub open spec fn spec_field_value(line: Seq<char>) -> u64 {
    let w = words(line);
    if w.len() < 2 {
        0
    } else {
        match spec_parse_u64(w[1]) {
            Some(v) => v,
            None => 0,
        }
    }
}

/// The field value of the last line that starts with `key`, or 0 when none does.
pub open spec fn last_keyed_value(lines: Seq<Seq<char>>, key: Seq<char>) -> u64
    decreases lines.len(),
{
    if lines.len() == 0 {
        0
    } else if starts_with(lines.last(), key) {
        spec_field_value(lines.last())
    } else {
        last_keyed_value(lines.drop_last(), key)
    }
}

/// A word is no longer than the text it begins.
pub proof fn lemma_word_len_bound(s: Seq<char>)
    ensures
        word_len(s) <= s.len(),
    decreases s.len(),
{
    if s.len() > 0 && !is_whitespace(s[0]) {
        lemma_word_len_bound(s.drop_first());
    }
}

/// The next word of `v` at or after `from`: its bounds, with the words after it.
pub fn next_word(v: &Vec<char>, from: usize) -> (res: Option<(usize, usize)>)
    requires
        from <= v@.len(),
    ensures
        match res {
            None => words(v@.skip(from as int)).len() == 0,
            Some((s, e)) => {
                &&& from <= s < e <= v@.len()
                &&& words(v@.skip(from as int)).len() > 0
                &&& words(v@.skip(from as int))[0] == v@.subrange(s as int, e as int)
                &&& words(v@.skip(e as int)) == words(v@.skip(from as int)).drop_first()
            },
        },
{
    let mut i = from;
    while i < v.len() && is_whitespace_exec(v[i])
        invariant
            from <= i <= v@.len(),
            words(v@.skip(i as int)) == words(v@.skip(from as int)),
        decreases v@.len() - i,
    {
        assert(v@.skip(i as int).drop_first() =~= v@.skip(i + 1));
        i = i + 1;
    }
    if i == v.len() {
        assert(v@.skip(i as int).len() == 0);
        return None;
    }
    let start = i;
    let ghost t = v@.skip(start as int);
    assert(t[0] == v@[start as int]);
    while i < v.len() && !is_whitespace_exec(v[i])
        invariant
            start <= i <= v@.len(),
            t == v@.skip(start as int),
            word_len(t) == (i - start) + word_len(v@.skip(i as int)),
        decreases v@.len() - i,
    {
        assert(v@.skip(i as int).drop_first() =~= v@.skip(i + 1));
        assert(v@.skip(i as int)[0] == v@[i as int]);
        i = i + 1;
    }
    proof {
        if i < v@.len() {
            assert(v@.skip(i as int)[0] == v@[i as int]);
        }
        assert(word_len(v@.skip(i as int)) == 0);
        assert(t.take((i - start) as int) =~= v@.subrange(start as int, i as int));
        assert(t.skip((i - start) as int) =~= v@.skip(i as int));
    }
    Some((start, i))
}

proof fn lemma_chars_value_prefix(s: Seq<char>, k: int)
    requires
        0 <= k <= s.len(),
        all_digits(s),
    ensures
        chars_value(s.take(k)) <= chars_value(s),
    decreases s.len(),
{
    if k < s.len() {
        assert(s.drop_last().take(k) =~= s.take(k));
        lemma_chars_value_prefix(s.drop_last(), k);
        assert(is_digit_char(s.last()));
    } else {
        assert(s.take(k) =~= s);
    }
}

/// Reads `v[from..to]` as `u64`'s `FromStr` does.
pub fn parse_u64_range(v: &Vec<char>, from: usize, to: usize) -> (res: Option<u64>)
    requires
        from <= to <= v@.len(),
    ensures
        res == spec_parse_u64(v@.subrange(from as int, to as int)),
{
    let ghost s = v@.subrange(from as int, to as int);
    let mut i = from;
    if i < to && v[i] == '+' {
        i = i + 1;
    }
    let ghost d = v@.subrange(i as int, to as int);
    assert(d =~= (if s.len() > 0 && s[0] == '+' { s.drop_first() } else { s }));
    if i == to {
        return None;
    }
    let start = i;
    let mut value: u64 = 0;
    let mut overflow = false;
    while i < to
        invariant
            start <= i <= to <= v@.len(),
            d == v@.subrange(start as int, to as int),
            s == v@.subrange(from as int, to as int),
            d == (if s.len() > 0 && s[0] == '+' { s.drop_first() } else { s }),
            d.len() > 0,
            all_digits(d.take(i - start)),
            !overflow ==> value == chars_value(d.take(i - start)),
            overflow ==> chars_value(d.take(i - start)) > u64::MAX,
        decreases to - i,
    {
        let c = v[i];
        if !('0' <= c && c <= '9') {
            assert(!is_digit_char(d[i - start]));
            return None;
        }
        let ghost p = d.take(i - start);
        let ghost q = d.take(i - start + 1);
        assert(q.drop_last() =~= p);
        assert(q.last() == c);
        assert(chars_value(q) == chars_value(p) * 10 + (c as int - 48));
        assert(all_digits(q)) by {
            assert forall|k: int| 0 <= k < q.len() implies is_digit_char(#[trigger] q[k]) by {
                if k < p.len() {
                    assert(q[k] == p[k]);
                }
            }
        }
        let digit: u64 = ((c as u32) - 48) as u64;
        if !overflow {
            match value.checked_mul(10) {
                Some(m) => match m.checked_add(digit) {
                    Some(n) => {
                        value = n;
                    },
                    None => {
                        overflow = true;
                    },
                },
                None => {
                    overflow = true;
                },
            }
        }
        i = i + 1;
    }
    assert(d.take(i - start) =~= d);
    if overflow {
        None
    } else {
        Some(value)
    }
}

} // verus!

verus! {

/// The second word of `line` read as a `u64`, or 0 when it is missing or not a number.
pub fn field_value(line: &Vec<char>) -> (v: u64)
    ensures
        v == spec_field_value(line@),
{
    assert(line@.skip(0) =~= line@);
    match next_word(line, 0) {
        None => 0,
        Some((_, e1)) => match next_word(line, e1) {
            None => 0,
            Some((s2, e2)) => {
                assert(words(line@)[1] == words(line@).drop_first()[0]);
                match parse_u64_range(line, s2, e2) {
                    Some(v) => v,
                    None => 0,
                }
            },
        },
    }
}

/// The lines of a text, as `str::lines` gives them.
pub fn lines_of(text: &str) -> (r: Vec<Vec<char>>)
    ensures
        vecs_view(r@) == text_lines(text@),
{
    let v = chars_of(text);
    let pieces = split_chars(&v, '\n');
    let ghost pv = vecs_view(pieces@);
    assert(pv.len() >= 1);
    let mut r: Vec<Vec<char>> = Vec::new();
    let mut i: usize = 0;
    assert(pieces@.len() == pv.len());
    let n_pieces = pieces.len() - 1;
    while i < n_pieces
        invariant
            pv == vecs_view(pieces@),
            pv == split_on(text@, '\n'),
            pv.len() >= 1,
            i <= n_pieces,
            n_pieces + 1 == pieces@.len(),
            vecs_view(r@) == pv.drop_last().take(i as int).map_values(|l: Seq<char>| strip_cr(l)),
        decreases pieces@.len() - i,
    {
        let p = &pieces[i];
        let n = p.len();
        let line = if n > 0 && p[n - 1] == '\r' {
            crate::text::copy_range(p, 0, n - 1)
        } else {
            crate::text::copy_range(p, 0, n)
        };
        assert(pv[i as int] == p@);
        assert(line@ =~= strip_cr(p@));
        let ghost before = vecs_view(r@);
        r.push(line);
        assert(vecs_view(r@) =~= before.push(line@));
        assert(pv.drop_last().take(i + 1).map_values(|l: Seq<char>| strip_cr(l)) =~= pv.drop_last().take(i as int).map_values(|l: Seq<char>| strip_cr(l)).push(strip_cr(pv[i as int])));
        i = i + 1;
    }
    assert(pv.drop_last().take(i as int) =~= pv.drop_last());
    let last = &pieces[i];
    assert(pv.last() == last@);
    if last.len() > 0 {
        let ghost before = vecs_view(r@);
        let c = crate::text::copy_range(last, 0, last.len());
        assert(c@ =~= last@);
        r.push(c);
        assert(vecs_view(r@) =~= before + seq![pv.last()]);
    } else {
        assert(vecs_view(r@) =~= vecs_view(r@) + Seq::<Seq<char>>::empty());
    }
    r
}

/// The field value of the last line that starts with `key`, or 0 when none does.
pub fn last_keyed(lines: &Vec<Vec<char>>, key: &Vec<char>) -> (v: u64)
    ensures
        v == last_keyed_value(vecs_view(lines@), key@),
{
    let ghost lv = vecs_view(lines@);
    let mut value: u64 = 0;
    let mut i: usize = 0;
    while i < lines.len()
        invariant
            i <= lines@.len(),
            lv == vecs_view(lines@),
            value == last_keyed_value(lv.take(i as int), key@),
        decreases lines@.len() - i,
    {
        let ghost t = lv.take(i + 1);
        assert(t.drop_last() =~= lv.take(i as int));
        assert(t.last() == lines@[i as int]@);
        assert(lines@[i as int]@.skip(0) =~= lines@[i as int]@);
        if starts_with_at(&lines[i], 0, key) {
            value = field_value(&lines[i]);
        }
        i = i + 1;
    }
    assert(lv.take(i as int) =~= lv);
    value
}

/// `VmRSS:`
pub open spec fn vm_rss_key() -> Seq<char> {
    seq!['V', 'm', 'R', 'S', 'S', ':']
}

/// `RssAnon:`
pub open spec fn rss_anon_key() -> Seq<char> {
    seq!['R', 's', 's', 'A', 'n', 'o', 'n', ':']
}

/// `RssFile:`
pub open spec fn rss_file_key() -> Seq<char> {
    seq!['R', 's', 's', 'F', 'i', 'l', 'e', ':']
}

/// `anon `
pub open spec fn anon_key() -> Seq<char> {
    seq!['a', 'n', 'o', 'n', ' ']
}

/// `file `
pub open spec fn file_key() -> Seq<char> {
    seq!['f', 'i', 'l', 'e', ' ']
}

/// The memory figures of a process, in KiB.
#[derive(Debug, Clone, Copy, PartialEq, Eq)]
pub struct ProcessMemory {
    pub rss_kb: u64,
    pub anon_kb: u64,
    pub file_kb: u64,
}

/// The memory figures of a cgroup, in bytes.
#[derive(Debug, Clone, Copy, PartialEq, Eq)]
pub struct CgroupMemory {
    pub anon_bytes: u64,
    pub file_bytes: u64,
}

/// Reads the resident set (`VmRSS:`), its anonymous part (`RssAnon:`) and its
/// file-backed part (`RssFile:`) out of a `/proc/<pid>/status` text; each is the
/// value of the last line with that key, 0 when there is none or it is unreadable.
pub fn process_memory(status: &str) -> (m: ProcessMemory)
    ensures
        m.rss_kb == last_keyed_value(text_lines(status@), vm_rss_key()),
        m.anon_kb == last_keyed_value(text_lines(status@), rss_anon_key()),
        m.file_kb == last_keyed_value(text_lines(status@), rss_file_key()),
{
    let lines = lines_of(status);
    let k1: Vec<char> = vec!['V', 'm', 'R', 'S', 'S', ':'];
    let k2: Vec<char> = vec!['R', 's', 's', 'A', 'n', 'o', 'n', ':'];
    let k3: Vec<char> = vec!['R', 's', 's', 'F', 'i', 'l', 'e', ':'];
    assert(k1@ =~= vm_rss_key());
    assert(k2@ =~= rss_anon_key());
    assert(k3@ =~= rss_file_key());
    ProcessMemory {
        rss_kb: last_keyed(&lines, &k1),
        anon_kb: last_keyed(&lines, &k2),
        file_kb: last_keyed(&lines, &k3),
    }
}

/// Reads the anonymous (`anon `) and file-backed (`file `) memory out of a cgroup
/// `memory.stat` text; each is the value of the last line with that key, 0 when there
/// is none or it is unreadable.
pub fn cgroup_memory(stat: &str) -> (m: CgroupMemory)
    ensures
        m.anon_bytes == last_keyed_value(text_lines(stat@), anon_key()),
        m.file_bytes == last_keyed_value(text_lines(stat@), file_key()),
{
    let lines = lines_of(stat);
    let k1: Vec<char> = vec!['a', 'n', 'o', 'n', ' '];
    let k2: Vec<char> = vec!['f', 'i', 'l', 'e', ' '];
    assert(k1@ =~= anon_key());
    assert(k2@ =~= file_key());
    CgroupMemory { anon_bytes: last_keyed(&lines, &k1), file_bytes: last_keyed(&lines, &k2) }
}

} // verus!
