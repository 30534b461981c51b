//! Text as sequences of characters: conversions between strings and
//! character vectors, searching, replacing, line splitting and trimming.

use vstd::prelude::*;
use vstd::string::StringExecFns;

verus! {

/// `String::push` appends the given character to the end of the string.
pub assume_specification[ String::push ](s: &mut String, c: char)
    ensures
        final(s)@ == old(s)@.push(c),
;

/// The characters of `s`, in order.
pub fn to_chars(s: &str) -> (v: Vec<char>)
    ensures
        v@ == s@,
{
    broadcast use vstd::string::group_string_axioms;

    let mut v: Vec<char> = Vec::new();
    for c in it: s.chars()
        invariant
            it.seq() == s@,
            v@ == s@.take(it.index() as int),
    {
        v.push(c);
    }
    assert(s@.take(s@.len() as int) == s@);
    v
}

/// The string made of the characters of `v`, in order.
pub fn from_chars(v: &Vec<char>) -> (s: String)
    ensures
        s@ == v@,
{
    let mut s = String::new();
    let mut i: usize = 0;
    while i < v.len()
        invariant
            i <= v.len(),
            s@ == v@.take(i as int),
        decreases v.len() - i,
    {
        s.push(v[i]);
        i += 1;
    }
    assert(v@.take(v@.len() as int) == v@);
    s
}

/// Whether `c` has the Unicode `White_Space` property.
pub open spec fn is_whitespace(c: char) -> bool {
    let n = c as u32;
    ||| 0x09 <= n <= 0x0D
    ||| n == 0x20
    ||| n == 0x85
    ||| n == 0xA0
    ||| n == 0x1680
    ||| 0x2000 <= n <= 0x200A
    ||| n == 0x2028
    ||| n == 0x2029
    ||| n == 0x202F
    ||| n == 0x205F
    ||| n == 0x3000
}

/// Whether `c` is whitespace.
pub fn char_is_whitespace(c: char) -> (b: bool)
    ensures
        b == is_whitespace(c),
{
    let n: u32 = c as u32;
    (0x09 <= n && n <= 0x0D) || n == 0x20 || n == 0x85 || n == 0xA0 || n == 0x1680 || (0x2000 <= n
        && n <= 0x200A) || n == 0x2028 || n == 0x2029 || n == 0x202F || n == 0x205F || n == 0x3000
}

/// `c` with an ASCII capital letter replaced by its small letter.
pub open spec fn ascii_lower(c: char) -> char {
    if 'A' <= c <= 'Z' {
        ((c as u8) + 32) as char
    } else {
        c
    }
}

/// `c` as a small letter, where it is an ASCII capital letter.
pub fn char_ascii_lower(c: char) -> (r: char)
    ensures
        r == ascii_lower(c),
{
    let n: u32 = c as u32;
    if 0x41 <= n && n <= 0x5A {
        let b: u8 = n as u8;
        (b + 32) as char
    } else {
        c
    }
}

/// `s` with every ASCII capital letter replaced by its small letter.
pub open spec fn lowercase(s: Seq<char>) -> Seq<char> {
    s.map_values(|c: char| ascii_lower(c))
}

/// `v` with small letters for its ASCII capital letters.
pub fn chars_lowercase(v: &Vec<char>) -> (r: Vec<char>)
    ensures
        r@ == lowercase(v@),
{
    let mut r: Vec<char> = Vec::new();
    let mut i: usize = 0;
    while i < v.len()
        invariant
            i <= v.len(),
            r@ == lowercase(v@).take(i as int),
        decreases v.len() - i,
    {
        r.push(char_ascii_lower(v[i]));
        i += 1;
    }
    assert(lowercase(v@).take(v@.len() as int) == lowercase(v@));
    r
}

/// The characters of `v` from index `from` up to, not including, index `to`.
pub fn slice(v: &Vec<char>, from: usize, to: usize) -> (r: Vec<char>)
    requires
        from <= to <= v.len(),
    ensures
        r@ == v@.subrange(from as int, to as int),
{
    let mut r: Vec<char> = Vec::new();
    let mut i: usize = from;
    while i < to
        invariant
            from <= i <= to <= v.len(),
            r@ == v@.subrange(from as int, i as int),
        decreases to - i,
    {
        r.push(v[i]);
        i += 1;
    }
    r
}

/// Appends the characters of `src` to `dst`.
pub fn append(dst: &mut Vec<char>, src: &Vec<char>)
    ensures
        final(dst)@ == old(dst)@ + src@,
{
    let mut i: usize = 0;
    while i < src.len()
        invariant
            i <= src.len(),
            dst@ == old(dst)@ + src@.take(i as int),
        decreases src.len() - i,
    {
        dst.push(src[i]);
        i += 1;
    }
    assert(src@.take(src@.len() as int) == src@);
}

/// Whether two character vectors hold the same text.
pub fn same(a: &Vec<char>, b: &Vec<char>) -> (r: bool)
    ensures
        r == (a@ == b@),
{
    if a.len() != b.len() {
        return false;
    }
    let mut i: usize = 0;
    while i < a.len()
        invariant
            i <= a.len(),
            a.len() == b.len(),
            a@.take(i as int) == b@.take(i as int),
        decreases a.len() - i,
    {
        if a[i] != b[i] {
            return false;
        }
        assert(a@.take(i + 1) == a@.take(i as int).push(a@[i as int]));
        assert(b@.take(i + 1) == b@.take(i as int).push(b@[i as int]));
        i += 1;
    }
    assert(a@.take(a@.len() as int) == a@);
    assert(b@.take(b@.len() as int) == b@);
    true
}

/// Whether `o` stands in `c` at position `i`.
pub open spec fn occurs_at(c: Seq<char>, o: Seq<char>, i: int) -> bool {
    0 <= i && i + o.len() <= c.len() && c.subrange(i, i + o.len()) == o
}

/// Whether `o` stands somewhere in `c`.
pub open spec fn contains(c: Seq<char>, o: Seq<char>) -> bool {
    exists|i: int| occurs_at(c, o, i)
}

/// Whether `i` is the leftmost position at which `o` stands in `c`.
pub open spec fn is_first_occurrence(c: Seq<char>, o: Seq<char>, i: int) -> bool {
    occurs_at(c, o, i) && forall|j: int| j < i ==> !occurs_at(c, o, j)
}

/// The leftmost position at which `o` stands in `c`, where there is one.
pub open spec fn first_occurrence(c: Seq<char>, o: Seq<char>) -> int {
    choose|i: int| is_first_occurrence(c, o, i)
}

/// Whether `o` stands in `c` at exactly one position.
pub open spec fn occurs_once(c: Seq<char>, o: Seq<char>) -> bool {
    exists|i: int| occurs_at(c, o, i) && forall|j: int| occurs_at(c, o, j) ==> j == i
}

/// `c` with `n` put in place of the `len` characters at position `i`.
pub open spec fn splice(c: Seq<char>, i: int, len: int, n: Seq<char>) -> Seq<char> {
    c.take(i) + n + c.skip(i + len)
}

/// `c` with the leftmost occurrence of `o` replaced by `n`; `c` itself where
/// `o` does not occur.
pub open spec fn replace_first(c: Seq<char>, o: Seq<char>, n: Seq<char>) -> Seq<char> {
    if contains(c, o) {
        splice(c, first_occurrence(c, o), o.len() as int, n)
    } else {
        c
    }
}

/// The part of `c` from `from` on, with every occurrence of the non-empty `o`
/// replaced by `n`, scanning from left to right without overlap.
pub open spec fn replace_from(c: Seq<char>, o: Seq<char>, n: Seq<char>, from: int) -> Seq<char>
    recommends
        o.len() > 0,
        0 <= from,
    decreases c.len() - from,
{
    if o.len() == 0 || from < 0 || from + o.len() > c.len() {
        c.skip(from)
    } else if occurs_at(c, o, from) {
        n + replace_from(c, o, n, from + o.len())
    } else {
        seq![c[from]] + replace_from(c, o, n, from + 1)
    }
}

/// `c` with every occurrence of the non-empty `o` replaced by `n`, scanning
/// from left to right without overlap.
pub open spec fn replace_all(c: Seq<char>, o: Seq<char>, n: Seq<char>) -> Seq<char>
    recommends
        o.len() > 0,
{
    replace_from(c, o, n, 0)
}

/// A first occurrence is the one that `first_occurrence` names.
pub proof fn lemma_first_occurrence(c: Seq<char>, o: Seq<char>, i: int)
    requires
        is_first_occurrence(c, o, i),
    ensures
        contains(c, o),
        first_occurrence(c, o) == i,
{
    let k = first_occurrence(c, o);
    assert(is_first_occurrence(c, o, k));
    if k < i {
        assert(!occurs_at(c, o, k));
    }
    if i < k {
        assert(!occurs_at(c, o, i));
    }
}

/// Whether `o` stands in `c` at position `i`.
pub fn matches_at(c: &Vec<char>, o: &Vec<char>, i: usize) -> (b: bool)
    ensures
        b == occurs_at(c@, o@, i as int),
{
    if o.len() > c.len() || i > c.len() - o.len() {
        return false;
    }
    let mut j: usize = 0;
    while j < o.len()
        invariant
            j <= o.len(),
            i + o.len() <= c.len(),
            forall|k: int| 0 <= k < j ==> c@[i + k] == o@[k],
        decreases o.len() - j,
    {
        if c[i + j] != o[j] {
            assert(c@.subrange(i as int, i + o.len())[j as int] == c@[i + j]);
            return false;
        }
        j += 1;
    }
    assert(c@.subrange(i as int, i + o.len()) =~= o@);
    true
}

/// The leftmost position at or after `start` at which `o` stands in `c`.
pub fn find_from(c: &Vec<char>, o: &Vec<char>, start: usize) -> (r: Option<usize>)
    ensures
        match r {
            Some(i) => start <= i && occurs_at(c@, o@, i as int) && forall|j: int|
                start <= j < i ==> !occurs_at(c@, o@, j),
            None => forall|j: int| start <= j ==> !occurs_at(c@, o@, j),
        },
{
    if o.len() > c.len() {
        return None;
    }
    let last: usize = c.len() - o.len();
    let mut i: usize = start;
    while i <= last
        invariant
            start <= i,
            last == c.len() - o.len(),
            forall|j: int| start <= j < i ==> !occurs_at(c@, o@, j),
        decreases last + 1 - i,
    {
        if matches_at(c, o, i) {
            return Some(i);
        }
        if i == last {
            return None;
        }
        i += 1;
    }
    None
}

/// `c` with the leftmost occurrence of `o` replaced by `n`.
pub fn replace_first_in(c: &Vec<char>, o: &Vec<char>, n: &Vec<char>) -> (r: Vec<char>)
    ensures
        r@ == replace_first(c@, o@, n@),
{
    match find_from(c, o, 0) {
        Some(i) => {
            proof {
                lemma_first_occurrence(c@, o@, i as int);
            }
            let mut r = slice(c, 0, i);
            append(&mut r, n);
            let rest = slice(c, i + o.len(), c.len());
            append(&mut r, &rest);
            assert(r@ == splice(c@, i as int, o@.len() as int, n@));
            r
        },
        None => {
            let r = slice(c, 0, c.len());
            assert(r@ == c@);
            r
        },
    }
}

/// `c` with every occurrence of `o` replaced by `n`, from left to right.
pub fn replace_all_in(c: &Vec<char>, o: &Vec<char>, n: &Vec<char>) -> (r: Vec<char>)
    requires
        o@.len() > 0,
    ensures
        r@ == replace_all(c@, o@, n@),
{
    let mut r: Vec<char> = Vec::new();
    let mut i: usize = 0;
    while i < c.len() && o.len() <= c.len() - i
        invariant
            i <= c.len(),
            o@.len() > 0,
            r@ + replace_from(c@, o@, n@, i as int) == replace_all(c@, o@, n@),
        decreases c.len() - i,
    {
        if matches_at(c, o, i) {
            assert(r@ + n@ + replace_from(c@, o@, n@, i + o@.len()) == r@ + (n@ + replace_from(
                c@,
                o@,
                n@,
                i + o@.len(),
            )));
            append(&mut r, n);
            i += o.len();
        } else {
            assert(r@.push(c@[i as int]) + replace_from(c@, o@, n@, i + 1) == r@ + (seq![
                c@[i as int],
            ] + replace_from(c@, o@, n@, i + 1)));
            r.push(c[i]);
            i += 1;
        }
    }
    let rest = slice(c, i, c.len());
    append(&mut r, &rest);
    r
}

/// The texts that a vector of character vectors holds.
pub open spec fn texts(v: Seq<Vec<char>>) -> Seq<Seq<char>> {
    v.map_values(|l: Vec<char>| l@)
}

/// The number of characters from `from` on that come before the next line
/// feed, or before the end of `s`.
pub open spec fn line_len(s: Seq<char>, from: int) -> nat
    decreases s.len() - from,
{
    if from < 0 || from >= s.len() || s[from] == '\n' {
        0
    } else {
        1 + line_len(s, from + 1)
    }
}

/// `s` without one carriage return at its end.
pub open spec fn strip_cr(s: Seq<char>) -> Seq<char> {
    if s.len() > 0 && s.last() == '\r' {
        s.drop_last()
    } else {
        s
    }
}

/// The lines of the part of `s` that starts at `from`.
pub open spec fn lines_from(s: Seq<char>, from: int) -> Seq<Seq<char>>
    decreases s.len() - from,
{
    if from < 0 || from >= s.len() {
        Seq::empty()
    } else {
        let end = from + line_len(s, from);
        if end >= s.len() {
            seq![s.subrange(from, s.len() as int)]
        } else {
            seq![strip_cr(s.subrange(from, end))] + lines_from(s, end + 1)
        }
    }
}

/// The lines of `s`. A line ends at a line feed, or at the end of `s`; the
/// line feed, and a carriage return directly before it, belong to no line.
/// Nothing follows a line feed that ends `s`.
pub open spec fn lines(s: Seq<char>) -> Seq<Seq<char>> {
    lines_from(s, 0)
}

/// The number of whitespace characters of `s` from `from` on, up to the first
/// character of another kind.
pub open spec fn leading_whitespace(s: Seq<char>, from: int) -> nat
    decreases s.len() - from,
{
    if from < 0 || from >= s.len() || !is_whitespace(s[from]) {
        0
    } else {
        1 + leading_whitespace(s, from + 1)
    }
}

/// The number of whitespace characters of `s` directly before `upto`.
pub open spec fn trailing_whitespace(s: Seq<char>, upto: int) -> nat
    decreases upto,
{
    if upto <= 0 || upto > s.len() || !is_whitespace(s[upto - 1]) {
        0
    } else {
        1 + trailing_whitespace(s, upto - 1)
    }
}

/// `s` without the whitespace at its start and at its end.
pub open spec fn trim(s: Seq<char>) -> Seq<char> {
    let start = leading_whitespace(s, 0) as int;
    if start >= s.len() {
        Seq::empty()
    } else {
        s.subrange(start, s.len() - trailing_whitespace(s, s.len() as int))
    }
}

/// The number of characters of `s` from `from` on that are no whitespace, up
/// to the first whitespace character.
pub open spec fn word_len(s: Seq<char>, from: int) -> nat
    decreases s.len() - from,
{
    if from < 0 || from >= s.len() || is_whitespace(s[from]) {
        0
    } else {
        1 + word_len(s, from + 1)
    }
}

/// The words of the part of `s` that starts at `from`.
pub open spec fn words_from(s: Seq<char>, from: int) -> Seq<Seq<char>>
    decreases s.len() - from,
{
    if from < 0 || from >= s.len() {
        Seq::empty()
    } else if is_whitespace(s[from]) {
        words_from(s, from + 1)
    } else {
        let end = from + word_len(s, from);
        if end >= s.len() {
            seq![s.subrange(from, s.len() as int)]
        } else {
            seq![s.subrange(from, end)] + words_from(s, end)
        }
    }
}

/// The words of `s`: its longest runs of characters that are no whitespace.
pub open spec fn words(s: Seq<char>) -> Seq<Seq<char>> {
    words_from(s, 0)
}

/// The texts of `parts` in order, with `sep` between each two.
pub open spec fn join(parts: Seq<Seq<char>>, sep: Seq<char>) -> Seq<char>
    decreases parts.len(),
{
    if parts.len() == 0 {
        Seq::empty()
    } else if parts.len() == 1 {
        parts[0]
    } else {
        join(parts.drop_last(), sep) + sep + parts.last()
    }
}

/// The words of `s` with one space between each two.
pub open spec fn normalize_whitespace(s: Seq<char>) -> Seq<char> {
    join(words(s), seq![' '])
}

/// The lines of `c`.
pub fn split_lines(c: &Vec<char>) -> (r: Vec<Vec<char>>)
    ensures
        texts(r@) == lines(c@),
{
    let mut r: Vec<Vec<char>> = Vec::new();
    let mut pos: usize = 0;
    assert(texts(r@) + lines_from(c@, 0) =~= lines(c@));
    while pos < c.len()
        invariant
            pos <= c.len(),
            texts(r@) + lines_from(c@, pos as int) == lines(c@),
        decreases c.len() - pos,
    {
        let mut end: usize = pos;
        while end < c.len() && c[end] != '\n'
            invariant
                pos <= end <= c.len(),
                line_len(c@, pos as int) == (end - pos) + line_len(c@, end as int),
            decreases c.len() - end,
        {
            end += 1;
        }
        let ghost before = texts(r@);
        let ghost rest = lines_from(c@, pos as int);
        if end >= c.len() {
            let line = slice(c, pos, c.len());
            r.push(line);
            assert(texts(r@) =~= before.push(line@));
            assert(rest =~= seq![line@]);
            assert(before.push(line@) =~= before + rest);
            pos = c.len();
            assert(texts(r@) + lines_from(c@, pos as int) =~= texts(r@));
        } else {
            let mut stop: usize = end;
            if stop > pos && c[stop - 1] == '\r' {
                stop -= 1;
            }
            let line = slice(c, pos, stop);
            assert(line@ == strip_cr(c@.subrange(pos as int, end as int))) by {
                let whole = c@.subrange(pos as int, end as int);
                if whole.len() > 0 && whole.last() == '\r' {
                    assert(whole.drop_last() =~= c@.subrange(pos as int, end - 1));
                }
            }
            r.push(line);
            assert(texts(r@) =~= before.push(line@));
            assert(rest == seq![line@] + lines_from(c@, end + 1));
            assert(before.push(line@) + lines_from(c@, end + 1) =~= before + rest);
            pos = end + 1;
        }
    }
    assert(texts(r@) + lines_from(c@, pos as int) =~= texts(r@));
    r
}

/// `s` without the whitespace at its start and at its end.
pub fn trim_chars(s: &Vec<char>) -> (r: Vec<char>)
    ensures
        r@ == trim(s@),
{
    let len: usize = s.len();
    let mut start: usize = 0;
    while start < len && char_is_whitespace(s[start])
        invariant
            start <= len,
            len == s.len(),
            leading_whitespace(s@, 0) == start + leading_whitespace(s@, start as int),
        decreases len - start,
    {
        start += 1;
    }
    if start >= len {
        return Vec::new();
    }
    let mut end: usize = len;
    while char_is_whitespace(s[end - 1])
        invariant
            start < end <= len,
            len == s.len(),
            !is_whitespace(s@[start as int]),
            trailing_whitespace(s@, len as int) == (len - end) + trailing_whitespace(
                s@,
                end as int,
            ),
        decreases end,
    {
        end -= 1;
    }
    slice(s, start, end)
}

/// Whether two texts are equal once the whitespace at their ends is set aside.
pub fn same_trimmed(a: &Vec<char>, b: &Vec<char>) -> (r: bool)
    ensures
        r == (trim(a@) == trim(b@)),
{
    let ta = trim_chars(a);
    let tb = trim_chars(b);
    same(&ta, &tb)
}

/// The last part of a join follows the separator, if any part came before it.
pub proof fn lemma_join_push(parts: Seq<Seq<char>>, sep: Seq<char>, last: Seq<char>)
    ensures
        join(parts.push(last), sep) == if parts.len() == 0 {
            last
        } else {
            join(parts, sep) + sep + last
        },
{
    assert(parts.push(last).drop_last() =~= parts);
}

/// The words of `s` with one space between each two.
pub fn normalize_chars(s: &Vec<char>) -> (r: Vec<char>)
    ensures
        r@ == normalize_whitespace(s@),
{
    let len: usize = s.len();
    let mut r: Vec<char> = Vec::new();
    let ghost mut done: Seq<Seq<char>> = Seq::empty();
    let mut first: bool = true;
    let mut pos: usize = 0;
    assert(done + words_from(s@, 0) =~= words(s@));
    while pos < len
        invariant
            pos <= len,
            len == s.len(),
            first == (done.len() == 0),
            done + words_from(s@, pos as int) == words(s@),
            r@ == join(done, seq![' ']),
        decreases len - pos,
    {
        if char_is_whitespace(s[pos]) {
            pos += 1;
        } else {
            let mut end: usize = pos;
            while end < len && !char_is_whitespace(s[end])
                invariant
                    pos <= end <= len,
                    len == s.len(),
                    word_len(s@, pos as int) == (end - pos) + word_len(s@, end as int),
                decreases len - end,
            {
                end += 1;
            }
            let word = slice(s, pos, end);
            proof {
                lemma_join_push(done, seq![' '], word@);
                assert(words_from(s@, pos as int) =~= seq![word@] + words_from(s@, end as int));
                assert(done.push(word@) + words_from(s@, end as int) =~= done + words_from(
                    s@,
                    pos as int,
                ));
            }
            if !first {
                r.push(' ');
                assert(r@ == join(done, seq![' ']) + seq![' ']);
            }
            append(&mut r, &word);
            proof {
                done = done.push(word@);
            }
            first = false;
            pos = end;
        }
    }
    assert(done + words_from(s@, pos as int) =~= done);
    r
}

/// The texts of `parts` from index `from` up to, not including, index `to`,
/// with `sep` between each two.
pub fn join_range(parts: &Vec<Vec<char>>, from: usize, to: usize, sep: &Vec<char>) -> (r: Vec<
    char,
>)
    requires
        from <= to <= parts.len(),
    ensures
        r@ == join(texts(parts@).subrange(from as int, to as int), sep@),
{
    let mut r: Vec<char> = Vec::new();
    let mut k: usize = from;
    while k < to
        invariant
            from <= k <= to <= parts.len(),
            r@ == join(texts(parts@).subrange(from as int, k as int), sep@),
        decreases to - k,
    {
        proof {
            let sofar = texts(parts@).subrange(from as int, k as int);
            lemma_join_push(sofar, sep@, parts@[k as int]@);
            assert(sofar.push(parts@[k as int]@) =~= texts(parts@).subrange(
                from as int,
                k + 1,
            ));
        }
        if k > from {
            append(&mut r, sep);
        }
        append(&mut r, &parts[k]);
        k += 1;
    }
    r
}

/// Whether `s` begins with `p`.
pub open spec fn starts_with(s: Seq<char>, p: Seq<char>) -> bool {
    p.len() <= s.len() && s.take(p.len() as int) == p
}

/// Whether `s` ends with `p`.
pub open spec fn ends_with(s: Seq<char>, p: Seq<char>) -> bool {
    p.len() <= s.len() && s.skip(s.len() - p.len()) == p
}

/// Whether `s` begins with `p`.
pub fn has_prefix(s: &Vec<char>, p: &Vec<char>) -> (b: bool)
    ensures
        b == starts_with(s@, p@),
{
    let b = matches_at(s, p, 0);
    assert(s@.take(p@.len() as int) =~= s@.subrange(0, p@.len() as int));
    b
}

/// Whether `s` ends with `p`.
pub fn has_suffix(s: &Vec<char>, p: &Vec<char>) -> (b: bool)
    ensures
        b == ends_with(s@, p@),
{
    if p.len() > s.len() {
        return false;
    }
    let at: usize = s.len() - p.len();
    let b = matches_at(s, p, at);
    assert(s@.skip(s@.len() - p@.len()) =~= s@.subrange(at as int, at + p@.len()));
    b
}

/// Whether `a` comes before `b` in lexicographic order: at the first place
/// where they differ `a` has the smaller character, or `a` ends there and `b`
/// goes on.
pub open spec fn precedes(a: Seq<char>, b: Seq<char>) -> bool {
    exists|k: int|
        0 <= k <= a.len() && k < b.len() && #[trigger] a.take(k) == b.take(k) && (k < a.len()
            ==> a[k] < b[k])
}

/// The text of an optional string.
pub open spec fn opt_text(o: Option<String>) -> Option<Seq<char>> {
    match o {
        Some(s) => Some(s@),
        None => None,
    }
}

/// The texts of the strings `v`.
pub open spec fn strings_view(v: Seq<String>) -> Seq<Seq<char>> {
    v.map_values(|s: String| s@)
}

/// `a` followed by `b`.
pub fn combine(a: &str, b: &str) -> (r: String)
    ensures
        r@ == a@ + b@,
{
    let mut r = a.to_owned();
    r.append(b);
    r
}

/// The strings `parts` in order, with `sep` between each two.
pub fn join_strings(parts: &Vec<String>, sep: &str) -> (r: String)
    ensures
        r@ == join(strings_view(parts@), sep@),
{
    let mut r = String::new();
    let mut k: usize = 0;
    assert(strings_view(parts@).take(0) =~= Seq::<Seq<char>>::empty());
    while k < parts.len()
        invariant
            k <= parts.len(),
            r@ == join(strings_view(parts@).take(k as int), sep@),
        decreases parts.len() - k,
    {
        proof {
            let sofar = strings_view(parts@).take(k as int);
            lemma_join_push(sofar, sep@, parts@[k as int]@);
            assert(sofar.push(parts@[k as int]@) =~= strings_view(parts@).take(k + 1));
        }
        if k > 0 {
            r.append(sep);
        }
        r.append(parts[k].as_str());
        k += 1;
    }
    assert(strings_view(parts@).take(parts@.len() as int) =~= strings_view(parts@));
    r
}

/// The character for the decimal digit `d`.
pub open spec fn digit(d: int) -> char {
    ((48 + d) as u8) as char
}

/// `n` in decimal digits, without leading zeros.
pub open spec fn decimal(n: nat) -> Seq<char>
    decreases n,
{
    if n < 10 {
        seq![digit(n as int)]
    } else {
        decimal(n / 10).push(digit((n % 10) as int))
    }
}

/// `n` in decimal digits, with a minus sign where it is negative.
pub open spec fn signed_decimal(n: int) -> Seq<char> {
    if n < 0 {
        seq!['-'] + decimal((-n) as nat)
    } else {
        decimal(n as nat)
    }
}

/// `n` in decimal digits, with zeros in front where it has fewer than
/// `width` digits.
pub open spec fn padded_decimal(n: nat, width: nat) -> Seq<char> {
    let digits = decimal(n);
    if digits.len() >= width {
        digits
    } else {
        Seq::new((width - digits.len()) as nat, |i: int| '0') + digits
    }
}

/// Appends `n` in decimal digits to `out`.
pub fn push_decimal(out: &mut Vec<char>, n: u128)
    ensures
        final(out)@ == old(out)@ + decimal(n as nat),
    decreases n,
{
    if n >= 10 {
        push_decimal(out, n / 10);
    }
    let d: u8 = (n % 10) as u8;
    out.push((48 + d) as char);
    assert(final(out)@ =~= old(out)@ + decimal(n as nat));
}

/// `n` in decimal digits.
pub fn decimal_text(n: u128) -> (r: Vec<char>)
    ensures
        r@ == decimal(n as nat),
{
    let mut r: Vec<char> = Vec::new();
    push_decimal(&mut r, n);
    r
}

/// `n` in decimal digits, with a minus sign where it is negative.
pub fn signed_decimal_text(n: i64) -> (r: Vec<char>)
    ensures
        r@ == signed_decimal(n as int),
{
    let mut r: Vec<char> = Vec::new();
    if n < 0 {
        r.push('-');
        let magnitude: u128 = (-(n as i128)) as u128;
        push_decimal(&mut r, magnitude);
    } else {
        push_decimal(&mut r, n as u128);
    }
    r
}

/// `n` in decimal digits, with zeros in front up to `width` digits.
pub fn padded_decimal_text(n: u128, width: usize) -> (r: Vec<char>)
    ensures
        r@ == padded_decimal(n as nat, width as nat),
{
    let digits = decimal_text(n);
    let mut r: Vec<char> = Vec::new();
    if digits.len() < width {
        let zeros: usize = width - digits.len();
        let mut k: usize = 0;
        while k < zeros
            invariant
                k <= zeros,
                r@ == Seq::new(k as nat, |i: int| '0'),
            decreases zeros - k,
        {
            r.push('0');
            assert(r@ =~= Seq::new((k + 1) as nat, |i: int| '0'));
            k += 1;
        }
    }
    append(&mut r, &digits);
    r
}

/// Whether `x` has the smaller code point.
pub fn char_less(x: char, y: char) -> (b: bool)
    ensures
        b == (x < y),
{
    (x as u32) < (y as u32)
}

/// Whether `a` comes before `b` in lexicographic order.
pub fn comes_before(a: &Vec<char>, b: &Vec<char>) -> (r: bool)
    ensures
        r == precedes(a@, b@),
{
    let mut i: usize = 0;
    while i < a.len() && i < b.len()
        invariant
            i <= a.len(),
            i <= b.len(),
            a@.take(i as int) == b@.take(i as int),
        decreases a.len() - i,
    {
        if a[i] != b[i] {
            let less = char_less(a[i], b[i]);
            proof {
                if less {
                    assert(a@.take(i as int) == b@.take(i as int));
                } else {
                    assert forall|k: int|
                        0 <= k <= a@.len() && k < b@.len() && #[trigger] a@.take(k) == b@.take(k)
                            && (k < a@.len() ==> a@[k] < b@[k]) implies false by {
                        if k > i {
                            assert(a@.take(k)[i as int] == b@.take(k)[i as int]);
                        } else if k < i {
                            assert(a@.take(i as int)[k] == b@.take(i as int)[k]);
                        }
                    }
                }
            }
            return less;
        }
        assert(a@.take(i + 1) =~= a@.take(i as int).push(a@[i as int]));
        assert(b@.take(i + 1) =~= b@.take(i as int).push(b@[i as int]));
        i += 1;
    }
    let shorter = a.len() < b.len();
    proof {
        if !shorter {
            assert forall|k: int|
                0 <= k <= a@.len() && k < b@.len() && #[trigger] a@.take(k) == b@.take(k) && (k
                    < a@.len() ==> a@[k] < b@[k]) implies false by {
                assert(a@.take(i as int)[k] == b@.take(i as int)[k]);
            }
        }
    }
    shorter
}

/// The words of `s`, in order.
pub fn split_words(s: &Vec<char>) -> (r: Vec<Vec<char>>)
    ensures
        texts(r@) == words(s@),
{
    let len: usize = s.len();
    let mut r: Vec<Vec<char>> = Vec::new();
    let mut pos: usize = 0;
    assert(texts(r@) + words_from(s@, 0) =~= words(s@));
    while pos < len
        invariant
            pos <= len,
            len == s.len(),
            texts(r@) + words_from(s@, pos as int) == words(s@),
        decreases len - pos,
    {
        if char_is_whitespace(s[pos]) {
            pos += 1;
        } else {
            let mut end: usize = pos;
            while end < len && !char_is_whitespace(s[end])
                invariant
                    pos <= end <= len,
                    len == s.len(),
                    word_len(s@, pos as int) == (end - pos) + word_len(s@, end as int),
                decreases len - end,
            {
                end += 1;
            }
            let ghost before = texts(r@);
            let word = slice(s, pos, end);
            r.push(word);
            assert(texts(r@) =~= before.push(word@));
            assert(words_from(s@, pos as int) =~= seq![word@] + words_from(s@, end as int));
            assert(before.push(word@) + words_from(s@, end as int) =~= before + words_from(
                s@,
                pos as int,
            ));
            pos = end;
        }
    }
    assert(texts(r@) + words_from(s@, pos as int) =~= texts(r@));
    r
}

/// Two texts that agree in their first `k` characters are equal, or one of
/// them comes before the other.
proof fn lemma_compare_from(a: Seq<char>, b: Seq<char>, k: int)
    requires
        0 <= k <= a.len(),
        k <= b.len(),
        a.take(k) == b.take(k),
    ensures
        a == b || precedes(a, b) || precedes(b, a),
    decreases a.len() - k,
{
    if k == a.len() {
        if k == b.len() {
            assert(a.take(k) =~= a);
            assert(b.take(k) =~= b);
        } else {
            assert(a.take(k) == b.take(k));
        }
    } else if k == b.len() {
        assert(b.take(k) == a.take(k));
    } else if a[k] == b[k] {
        assert(a.take(k + 1) =~= a.take(k).push(a[k]));
        assert(b.take(k + 1) =~= b.take(k).push(b[k]));
        lemma_compare_from(a, b, k + 1);
    } else if a[k] < b[k] {
        assert(a.take(k) == b.take(k));
    } else {
        assert(b.take(k) == a.take(k));
    }
}

/// Of two different texts one comes before the other.
pub proof fn lemma_precedes_total(a: Seq<char>, b: Seq<char>)
    ensures
        a == b || precedes(a, b) || precedes(b, a),
{
    assert(a.take(0) =~= b.take(0));
    lemma_compare_from(a, b, 0);
}

/// A text that comes before another does not come after it; no text comes
/// before itself.
pub proof fn lemma_precedes_asymmetric(a: Seq<char>, b: Seq<char>)
    requires
        precedes(a, b),
    ensures
        !precedes(b, a),
        a != b,
{
    let k = choose|k: int|
        0 <= k <= a.len() && k < b.len() && #[trigger] a.take(k) == b.take(k) && (k < a.len()
            ==> a[k] < b[k]);
    if precedes(b, a) {
        let j = choose|j: int|
            0 <= j <= b.len() && j < a.len() && #[trigger] b.take(j) == a.take(j) && (j < b.len()
                ==> b[j] < a[j]);
        if j < k {
            assert(a.take(k)[j] == b.take(k)[j]);
        } else if k < j {
            assert(b.take(j)[k] == a.take(j)[k]);
        }
    }
    if a == b {
        assert(k < a.len());
    }
}

/// What comes before a text that comes before a third comes before the
/// third.
pub proof fn lemma_precedes_transitive(a: Seq<char>, b: Seq<char>, c: Seq<char>)
    requires
        precedes(a, b),
        precedes(b, c),
    ensures
        precedes(a, c),
{
    let k = choose|k: int|
        0 <= k <= a.len() && k < b.len() && #[trigger] a.take(k) == b.take(k) && (k < a.len()
            ==> a[k] < b[k]);
    let j = choose|j: int|
        0 <= j <= b.len() && j < c.len() && #[trigger] b.take(j) == c.take(j) && (j < b.len()
            ==> b[j] < c[j]);
    let m = if k <= j {
        k
    } else {
        j
    };
    assert(a.take(m) =~= c.take(m)) by {
        assert forall|i: int| 0 <= i < m implies a[i] == c[i] by {
            assert(a.take(k)[i] == b.take(k)[i]);
            assert(b.take(j)[i] == c.take(j)[i]);
        }
    }
    if m < a.len() {
        if k < j {
            assert(b.take(j)[k] == c.take(j)[k]);
        } else if j < k {
            assert(a.take(k)[j] == b.take(k)[j]);
        }
    }
    assert(0 <= m <= a.len() && m < c.len() && a.take(m) == c.take(m) && (m < a.len() ==> a[m]
        < c[m]));
}


/// Where the lines of the part of `s` that starts at `from` stand in `s`:
/// for each line the position of its first character and the position after
/// its last one.
pub open spec fn line_spans_from(s: Seq<char>, from: int) -> Seq<(int, int)>
    decreases s.len() - from,
{
    if from < 0 || from >= s.len() {
        Seq::empty()
    } else {
        let end = from + line_len(s, from);
        if end >= s.len() {
            seq![(from, s.len() as int)]
        } else if end > from && s[end - 1] == '\r' {
            seq![(from, end - 1)] + line_spans_from(s, end + 1)
        } else {
            seq![(from, end)] + line_spans_from(s, end + 1)
        }
    }
}

/// Where the lines of `s` stand in `s`.
pub open spec fn line_spans(s: Seq<char>) -> Seq<(int, int)> {
    line_spans_from(s, 0)
}

/// What the spans `v` hold.
pub open spec fn spans_view(v: Seq<(usize, usize)>) -> Seq<(int, int)> {
    v.map_values(|p: (usize, usize)| (p.0 as int, p.1 as int))
}

/// A line ends within the text.
pub proof fn lemma_line_len_bound(s: Seq<char>, from: int)
    requires
        0 <= from <= s.len(),
    ensures
        from + line_len(s, from) <= s.len(),
    decreases s.len() - from,
{
    if from < s.len() && s[from] != '\n' {
        lemma_line_len_bound(s, from + 1);
    }
}

/// The spans of the lines from `from` on name these lines: there is one
/// span for each line, it lies within the text and holds the line, and the
/// spans follow one another with at least one character between them.
pub proof fn lemma_line_spans_from(s: Seq<char>, from: int)
    requires
        0 <= from,
    ensures
        line_spans_from(s, from).len() == lines_from(s, from).len(),
        forall|i: int|
            0 <= i < line_spans_from(s, from).len() ==> {
                let span = #[trigger] line_spans_from(s, from)[i];
                &&& from <= span.0 <= span.1 <= s.len()
                &&& lines_from(s, from)[i] == s.subrange(span.0, span.1)
            },
        forall|i: int, j: int|
            0 <= i < j < line_spans_from(s, from).len() ==> (#[trigger] line_spans_from(
                s,
                from,
            )[i]).1 < (#[trigger] line_spans_from(s, from)[j]).0,
    decreases s.len() - from,
{
    if from < s.len() {
        lemma_line_len_bound(s, from);
        let end = from + line_len(s, from);
        if end < s.len() {
            lemma_line_spans_from(s, end + 1);
            let rest = line_spans_from(s, end + 1);
            let spans = line_spans_from(s, from);
            let whole = s.subrange(from, end);
            let stop = if end > from && s[end - 1] == '\r' {
                end - 1
            } else {
                end
            };
            assert(spans == seq![(from, stop)] + rest);
            assert(strip_cr(whole) == s.subrange(from, stop)) by {
                if whole.len() > 0 && whole.last() == '\r' {
                    assert(whole.drop_last() =~= s.subrange(from, end - 1));
                }
            }
            assert forall|i: int| 0 <= i < spans.len() implies {
                let span = #[trigger] spans[i];
                &&& from <= span.0 <= span.1 <= s.len()
                &&& lines_from(s, from)[i] == s.subrange(span.0, span.1)
            } by {
                if i > 0 {
                    assert(spans[i] == rest[i - 1]);
                    assert(lines_from(s, from)[i] == lines_from(s, end + 1)[i - 1]);
                }
            }
            assert forall|i: int, j: int| 0 <= i < j < spans.len() implies (#[trigger] spans[i]).1
                < (#[trigger] spans[j]).0 by {
                assert(spans[j] == rest[j - 1]);
                if i > 0 {
                    assert(spans[i] == rest[i - 1]);
                }
            }
        }
    }
}

/// Whether a line ending, a line feed alone or after a carriage return, is
/// all that stands in `s` from `from` up to `to`.
pub open spec fn line_ending_between(s: Seq<char>, from: int, to: int) -> bool {
    ||| to == from + 1 && s[from] == '\n'
    ||| to == from + 2 && s[from] == '\r' && s[from + 1] == '\n'
}

/// Between each line and the next nothing stands but a line ending.
pub proof fn lemma_line_spans_adjoin(s: Seq<char>, from: int)
    requires
        0 <= from,
    ensures
        forall|i: int|
            0 <= i && i + 1 < line_spans_from(s, from).len() ==> line_ending_between(
                s,
                (#[trigger] line_spans_from(s, from)[i]).1,
                line_spans_from(s, from)[i + 1].0,
            ),
    decreases s.len() - from,
{
    if from < s.len() {
        lemma_line_len_bound(s, from);
        lemma_line_end(s, from);
        let end = from + line_len(s, from);
        if end < s.len() {
            lemma_line_spans_adjoin(s, end + 1);
            lemma_line_spans_from(s, end + 1);
            let rest = line_spans_from(s, end + 1);
            let spans = line_spans_from(s, from);
            let stop = if end > from && s[end - 1] == '\r' {
                end - 1
            } else {
                end
            };
            assert(spans == seq![(from, stop)] + rest);
            assert forall|i: int| 0 <= i && i + 1 < spans.len() implies line_ending_between(
                s,
                (#[trigger] spans[i]).1,
                spans[i + 1].0,
            ) by {
                assert(spans[i + 1] == rest[i]);
                if i > 0 {
                    assert(spans[i] == rest[i - 1]);
                } else {
                    assert(rest.len() > 0);
                    assert(rest[0].0 == end + 1) by {
                        lemma_line_len_bound(s, end + 1);
                    }
                }
            }
        }
    }
}

/// A line feed stands where a line ends before the end of the text.
pub proof fn lemma_line_end(s: Seq<char>, from: int)
    requires
        0 <= from <= s.len(),
    ensures
        from + line_len(s, from) < s.len() ==> s[from + line_len(s, from)] == '\n',
    decreases s.len() - from,
{
    if from < s.len() && s[from] != '\n' {
        lemma_line_end(s, from + 1);
    }
}

/// Where the lines of `c` stand in `c`.
pub fn line_spans_of(c: &Vec<char>) -> (r: Vec<(usize, usize)>)
    ensures
        spans_view(r@) == line_spans(c@),
{
    let mut r: Vec<(usize, usize)> = Vec::new();
    let mut pos: usize = 0;
    assert(spans_view(r@) + line_spans_from(c@, 0) =~= line_spans(c@));
    while pos < c.len()
        invariant
            pos <= c.len(),
            spans_view(r@) + line_spans_from(c@, pos as int) == line_spans(c@),
        decreases c.len() - pos,
    {
        let mut end: usize = pos;
        while end < c.len() && c[end] != '\n'
            invariant
                pos <= end <= c.len(),
                line_len(c@, pos as int) == (end - pos) + line_len(c@, end as int),
            decreases c.len() - end,
        {
            end += 1;
        }
        let ghost before = spans_view(r@);
        let ghost rest = line_spans_from(c@, pos as int);
        if end >= c.len() {
            r.push((pos, c.len()));
            assert(spans_view(r@) =~= before.push((pos as int, c@.len() as int)));
            assert(before.push((pos as int, c@.len() as int)) =~= before + rest);
            pos = c.len();
            assert(spans_view(r@) + line_spans_from(c@, pos as int) =~= spans_view(r@));
        } else {
            let mut stop: usize = end;
            if stop > pos && c[stop - 1] == '\r' {
                stop -= 1;
            }
            r.push((pos, stop));
            assert(spans_view(r@) =~= before.push((pos as int, stop as int)));
            assert(rest == seq![(pos as int, stop as int)] + line_spans_from(c@, end + 1));
            assert(before.push((pos as int, stop as int)) + line_spans_from(c@, end + 1)
                =~= before + rest);
            pos = end + 1;
        }
    }
    assert(spans_view(r@) + line_spans_from(c@, pos as int) =~= spans_view(r@));
    r
}

} // verus!
