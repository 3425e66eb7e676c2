//! Character-level text operations on `str`: splitting on a separator,
//! dropping a character, trimming white space and breaking into lines,
//! each proved against a specification over `Seq<char>`.
use vstd::prelude::*;

verus! {

/// The character views of a sequence of strings.
pub open spec fn texts(v: Seq<String>) -> Seq<Seq<char>> {
    v.map_values(|x: String| x@)
}

/// The fields of `s` between the occurrences of `sep`, in order, as
/// `str::split` with a one-character pattern yields them: one more field
/// than there are separators, empty fields included.
pub open spec fn split_fields(s: Seq<char>, sep: char) -> Seq<Seq<char>>
    decreases s.len(),
{
    if s.len() == 0 {
        seq![Seq::<char>::empty()]
    } else {
        let init = split_fields(s.drop_last(), sep);
        if s.last() == sep {
            init.push(Seq::<char>::empty())
        } else {
            init.update(init.len() - 1, init.last().push(s.last()))
        }
    }
}

/// Splitting always yields at least one field.
pub proof fn lemma_split_nonempty(s: Seq<char>, sep: char)
    ensures
        split_fields(s, sep).len() >= 1,
    decreases s.len(),
{
    if s.len() > 0 {
        lemma_split_nonempty(s.drop_last(), sep);
    }
}

/// Splits `s` at every occurrence of `sep`.
pub fn split_on(s: &str, sep: char) -> (parts: Vec<String>)
    ensures
        texts(parts@) == split_fields(s@, sep),
{
    broadcast use vstd::string::group_string_axioms;

    let len = s.unicode_len();
    let mut parts: Vec<String> = Vec::new();
    let mut start: usize = 0;
    let mut i: usize = 0;
    assert(s@.take(0) =~= Seq::<char>::empty());
    assert(texts(parts@).push(s@.subrange(0, 0)) =~= seq![Seq::<char>::empty()]);
    for c in it: s.chars()
        invariant
            it.seq() == s@,
            len == s@.len(),
            i == it.index(),
            start <= i <= len,
            split_fields(s@.take(i as int), sep) == texts(parts@).push(
                s@.subrange(start as int, i as int),
            ),
    {
        let ghost before = texts(parts@);
        assert(s@.take(i + 1).drop_last() =~= s@.take(i as int));
        assert(s@.take(i + 1).last() == c);
        if c == sep {
            let field = s.substring_char(start, i).to_owned();
            parts.push(field);
            assert(texts(parts@) =~= before.push(s@.subrange(start as int, i as int)));
            start = i + 1;
            assert(s@.subrange(start as int, i + 1) =~= Seq::<char>::empty());
        } else {
            assert(s@.subrange(start as int, i + 1) =~= s@.subrange(start as int, i as int).push(c));
            assert(before.push(s@.subrange(start as int, i as int)).update(
                before.len() as int,
                s@.subrange(start as int, i as int).push(c),
            ) =~= before.push(s@.subrange(start as int, i + 1)));
        }
        i = i + 1;
    }
    let ghost before = texts(parts@);
    let last = s.substring_char(start, len).to_owned();
    parts.push(last);
    assert(s@.take(len as int) =~= s@);
    assert(texts(parts@) =~= before.push(s@.subrange(start as int, len as int)));
    parts
}

} // verus!

verus! {

/// The characters of `s`, in order.
pub fn chars_of(s: &str) -> (v: Vec<char>)
    ensures
        v@ == s@,
{
    broadcast use vstd::string::group_string_axioms;

    let len = s.unicode_len();
    let mut v: Vec<char> = Vec::new();
    for c in it: s.chars()
        invariant
            it.seq() == s@,
            len == s@.len(),
            v@ == s@.take(it.index() as int),
    {
        assert(s@.take(it.index() + 1) =~= s@.take(it.index() as int).push(c));
        v.push(c);
    }
    assert(s@.take(len as int) =~= s@);
    v
}

/// `s` with every occurrence of `c` taken out, the other characters kept in order.
pub open spec fn without_char(s: Seq<char>, c: char) -> Seq<char>
    decreases s.len(),
{
    if s.len() == 0 {
        Seq::<char>::empty()
    } else {
        let init = without_char(s.drop_last(), c);
        if s.last() == c {
            init
        } else {
            init.push(s.last())
        }
    }
}

/// A copy of `s` with every `c` removed (`str::replace(c, "")` for one character).
pub fn remove_char(s: &str, c: char) -> (out: String)
    ensures
        out@ == without_char(s@, c),
{
    let v = chars_of(s);
    let len = v.len();
    let mut out = String::new();
    let mut start: usize = 0;
    let mut i: usize = 0;
    assert(s@.take(0) =~= Seq::<char>::empty());
    assert(out@ + s@.subrange(0, 0) =~= Seq::<char>::empty());
    while i < len
        invariant
            v@ == s@,
            len == s@.len(),
            start <= i <= len,
            without_char(s@.take(i as int), c) == out@ + s@.subrange(start as int, i as int),
        decreases len - i,
    {
        assert(s@.take(i + 1).drop_last() =~= s@.take(i as int));
        if v[i] == c {
            let piece = s.substring_char(start, i);
            out.append(piece);
            start = i + 1;
            assert(out@ + s@.subrange(start as int, i + 1) =~= out@);
        } else {
            assert(s@.subrange(start as int, i + 1) =~= s@.subrange(start as int, i as int).push(
                v@[i as int],
            ));
        }
        i = i + 1;
    }
    let piece = s.substring_char(start, len);
    out.append(piece);
    assert(s@.take(len as int) =~= s@);
    out
}

/// Unicode `White_Space`, the property that `char::is_whitespace` tests.
pub open spec fn is_white_space(c: char) -> bool {
    ||| '\u{9}' <= c <= '\u{d}'
    ||| c == ' '
    ||| c == '\u{85}'
    ||| c == '\u{a0}'
    ||| c == '\u{1680}'
    ||| '\u{2000}' <= c <= '\u{200a}'
    ||| c == '\u{2028}'
    ||| c == '\u{2029}'
    ||| c == '\u{202f}'
    ||| c == '\u{205f}'
    ||| c == '\u{3000}'
}

/// Whether `c` is Unicode white space.
pub fn white_space(c: char) -> (b: bool)
    ensures
        b == is_white_space(c),
{
    ('\u{9}' <= c && c <= '\u{d}') || c == ' ' || c == '\u{85}' || c == '\u{a0}' || c
        == '\u{1680}' || ('\u{2000}' <= c && c <= '\u{200a}') || c == '\u{2028}' || c
        == '\u{2029}' || c == '\u{202f}' || c == '\u{205f}' || c == '\u{3000}'
}

/// `s` without its leading white space.
pub open spec fn trim_start(s: Seq<char>) -> Seq<char>
    decreases s.len(),
{
    if s.len() > 0 && is_white_space(s[0]) {
        trim_start(s.drop_first())
    } else {
        s
    }
}

/// `s` without its trailing white space.
pub open spec fn trim_end(s: Seq<char>) -> Seq<char>
    decreases s.len(),
{
    if s.len() > 0 && is_white_space(s.last()) {
        trim_end(s.drop_last())
    } else {
        s
    }
}

/// `s` without leading and trailing white space, as `str::trim` gives it.
pub open spec fn trimmed(s: Seq<char>) -> Seq<char> {
    trim_end(trim_start(s))
}

/// A copy of `s` with leading and trailing white space removed.
pub fn trim(s: &str) -> (out: String)
    ensures
        out@ == trimmed(s@),
{
    let v = chars_of(s);
    let len = v.len();
    let mut a: usize = 0;
    assert(s@.skip(0) =~= s@);
    while a < len && white_space(v[a])
        invariant
            v@ == s@,
            len == s@.len(),
            a <= len,
            trim_start(s@) == trim_start(s@.skip(a as int)),
        decreases len - a,
    {
        assert(s@.skip(a as int).drop_first() =~= s@.skip(a + 1));
        a = a + 1;
    }
    let mut b: usize = len;
    assert(s@.skip(a as int) =~= s@.subrange(a as int, len as int));
    while b > a && white_space(v[b - 1])
        invariant
            v@ == s@,
            len == s@.len(),
            a <= b <= len,
            trim_start(s@) == s@.subrange(a as int, len as int),
            trimmed(s@) == trim_end(s@.subrange(a as int, b as int)),
        decreases b - a,
    {
        assert(s@.subrange(a as int, b as int).drop_last() =~= s@.subrange(a as int, b - 1));
        b = b - 1;
    }
    s.substring_char(a, b).to_owned()
}

} // verus!

verus! {

/// `l` without one carriage return at its end, if it has one.
pub open spec fn strip_cr(l: Seq<char>) -> Seq<char> {
    if l.len() > 0 && l.last() == '\r' {
        l.drop_last()
    } else {
        l
    }
}

/// The lines of `s` as `str::lines` gives them: the text between line
/// feeds, a carriage return just before a line feed dropped, and no empty
/// line after a final line feed.
pub open spec fn lines_of(s: Seq<char>) -> Seq<Seq<char>> {
    let f = split_fields(s, '\n');
    let body = f.take(f.len() - 1).map_values(|l: Seq<char>| strip_cr(l));
    if f.last().len() == 0 {
        body
    } else {
        body.push(f.last())
    }
}

/// The lines of `s`.
pub fn lines(s: &str) -> (out: Vec<String>)
    ensures
        texts(out@) == lines_of(s@),
{
    let parts = split_on(s, '\n');
    proof {
        lemma_split_nonempty(s@, '\n');
    }
    let ghost f = split_fields(s@, '\n');
    let n = parts.len();
    let mut out: Vec<String> = Vec::new();
    let mut k: usize = 0;
    while k + 1 < n
        invariant
            texts(parts@) == f,
            f == split_fields(s@, '\n'),
            n == parts.len(),
            n >= 1,
            k + 1 <= n,
            texts(out@) == f.take(k as int).map_values(|l: Seq<char>| strip_cr(l)),
        decreases n - k,
    {
        let part = parts[k].as_str();
        assert(part@ == f[k as int]);
        let m = part.unicode_len();
        let line = if m > 0 && part.get_char(m - 1) == '\r' {
            part.substring_char(0, m - 1).to_owned()
        } else {
            part.to_owned()
        };
        assert(line@ == strip_cr(f[k as int])) by {
            if m > 0 {
                assert(part@.subrange(0, m - 1) =~= part@.drop_last());
            }
        }
        let ghost before = texts(out@);
        out.push(line);
        assert(texts(out@) =~= before.push(line@));
        assert(f.take(k + 1).map_values(|l: Seq<char>| strip_cr(l)) =~= f.take(
            k as int,
        ).map_values(|l: Seq<char>| strip_cr(l)).push(strip_cr(f[k as int])));
        k = k + 1;
    }
    let last = parts[n - 1].as_str();
    assert(last@ == f.last());
    if last.unicode_len() > 0 {
        let ghost before = texts(out@);
        out.push(last.to_owned());
        assert(texts(out@) =~= before.push(f.last()));
    }
    out
}

/// Whether some line of `s` is exactly `target`.
pub fn has_line(s: &str, target: &str) -> (b: bool)
    ensures
        b == lines_of(s@).contains(target@),
{
    let ls = lines(s);
    let wanted = target.to_owned();
    let n = ls.len();
    let mut i: usize = 0;
    while i < n
        invariant
            texts(ls@) == lines_of(s@),
            n == ls.len(),
            wanted@ == target@,
            i <= n,
            forall|j: int| 0 <= j < i ==> lines_of(s@)[j] != target@,
        decreases n - i,
    {
        assert(texts(ls@)[i as int] == ls@[i as int]@);
        if ls[i] == wanted {
            assert(lines_of(s@)[i as int] == target@);
            return true;
        }
        i = i + 1;
    }
    assert(!lines_of(s@).contains(target@)) by {
        if lines_of(s@).contains(target@) {
            let j = choose|j: int| 0 <= j < lines_of(s@).len() && lines_of(s@)[j] == target@;
            assert(texts(ls@)[j] == ls@[j]@);
        }
    }
    false
}

} // verus!

verus! {

/// Text without the separator is a single field.
pub proof fn lemma_split_single(a: Seq<char>, sep: char)
    requires
        !a.contains(sep),
    ensures
        split_fields(a, sep) == seq![a],
    decreases a.len(),
{
    if a.len() == 0 {
        assert(a =~= Seq::<char>::empty());
        assert(split_fields(a, sep) =~= seq![a]);
    } else {
        let init = a.drop_last();
        assert(!init.contains(sep)) by {
            if init.contains(sep) {
                let j = choose|j: int| 0 <= j < init.len() && init[j] == sep;
                assert(a[j] == sep);
            }
        }
        lemma_split_single(init, sep);
        assert(a.last() != sep) by {
            assert(a[a.len() - 1] == a.last());
        }
        assert(init.push(a.last()) =~= a);
        assert(split_fields(a, sep) == seq![init].update(0, init.push(a.last())));
        assert(seq![init].update(0, init.push(a.last())) =~= seq![a]);
    }
}

/// A leading field without the separator comes off first.
pub proof fn lemma_split_prefix(a: Seq<char>, b: Seq<char>, sep: char)
    requires
        !a.contains(sep),
    ensures
        split_fields(a + seq![sep] + b, sep) == seq![a] + split_fields(b, sep),
    decreases b.len(),
{
    if b.len() == 0 {
        lemma_split_single(a, sep);
        assert((a + seq![sep] + b).drop_last() =~= a);
        assert(split_fields(a + seq![sep] + b, sep) =~= seq![a] + split_fields(b, sep));
    } else {
        let s = a + seq![sep] + b;
        assert(s.drop_last() =~= a + seq![sep] + b.drop_last());
        assert(s.last() == b.last());
        lemma_split_prefix(a, b.drop_last(), sep);
        lemma_split_nonempty(b.drop_last(), sep);
        let rest = split_fields(b.drop_last(), sep);
        if b.last() == sep {
            assert((seq![a] + rest).push(Seq::<char>::empty()) =~= seq![a] + rest.push(
                Seq::<char>::empty(),
            ));
        } else {
            assert((seq![a] + rest).update(rest.len() as int, rest.last().push(b.last()))
                =~= seq![a] + rest.update(rest.len() - 1, rest.last().push(b.last())));
        }
    }
}

/// Adding text never takes fields away.
pub proof fn lemma_split_grows(s: Seq<char>, t: Seq<char>, sep: char)
    ensures
        split_fields(s + t, sep).len() >= split_fields(s, sep).len(),
    decreases t.len(),
{
    if t.len() > 0 {
        assert((s + t).drop_last() =~= s + t.drop_last());
        lemma_split_grows(s, t.drop_last(), sep);
    } else {
        assert(s + t =~= s);
    }
}

/// Text with a separator in it has at least two fields.
pub proof fn lemma_split_two(a: Seq<char>, b: Seq<char>, sep: char)
    ensures
        split_fields(a + seq![sep] + b, sep).len() >= 2,
{
    lemma_split_nonempty(a, sep);
    assert((a + seq![sep]).drop_last() =~= a);
    lemma_split_grows(a + seq![sep], b, sep);
}

/// Trimming the end leaves a prefix.
pub proof fn lemma_trim_end_prefix(s: Seq<char>)
    ensures
        trim_end(s).len() <= s.len(),
        trim_end(s) == s.take(trim_end(s).len() as int),
    decreases s.len(),
{
    if s.len() > 0 && is_white_space(s.last()) {
        lemma_trim_end_prefix(s.drop_last());
        assert(s.drop_last().take(trim_end(s).len() as int) =~= s.take(trim_end(s).len() as int));
    } else {
        assert(s.take(s.len() as int) =~= s);
    }
}

/// What `trim_end` leaves ends in a character that is not white space.
pub proof fn lemma_trim_end_last(s: Seq<char>)
    ensures
        trim_end(s).len() > 0 ==> !is_white_space(trim_end(s).last()),
    decreases s.len(),
{
    if s.len() > 0 && is_white_space(s.last()) {
        lemma_trim_end_last(s.drop_last());
    }
}

/// What `trim_start` leaves begins with a character that is not white space.
pub proof fn lemma_trim_start_first(s: Seq<char>)
    ensures
        trim_start(s).len() > 0 ==> !is_white_space(trim_start(s)[0]),
    decreases s.len(),
{
    if s.len() > 0 && is_white_space(s[0]) {
        lemma_trim_start_first(s.drop_first());
    }
}

/// Text that begins with a character that is not white space keeps its start.
pub proof fn lemma_trim_start_kept(s: Seq<char>)
    requires
        s.len() > 0,
        !is_white_space(s[0]),
    ensures
        trim_start(s) == s,
{
}

/// Trimming the end of `a + b` only touches `b` when `a` ends in a
/// character that is not white space.
pub proof fn lemma_trim_end_append(a: Seq<char>, b: Seq<char>)
    requires
        a.len() > 0,
        !is_white_space(a.last()),
    ensures
        trim_end(a + b) == a + trim_end(b),
    decreases b.len(),
{
    if b.len() == 0 {
        assert(a + b =~= a);
        assert(a + trim_end(b) =~= a);
    } else {
        assert((a + b).last() == b.last());
        if is_white_space(b.last()) {
            assert((a + b).drop_last() =~= a + b.drop_last());
            lemma_trim_end_append(a, b.drop_last());
        }
    }
}

/// Dropping a character from text that ends in it.
pub proof fn lemma_without_char_last(s: Seq<char>, c: char)
    ensures
        without_char(s + seq![c], c) == without_char(s, c),
{
    assert((s + seq![c]).drop_last() =~= s);
}

/// A prefix of text without `c` is without `c`.
pub proof fn lemma_prefix_lacks(s: Seq<char>, k: int, c: char)
    requires
        0 <= k <= s.len(),
        !s.contains(c),
    ensures
        !s.take(k).contains(c),
{
    if s.take(k).contains(c) {
        let j = choose|j: int| 0 <= j < s.take(k).len() && s.take(k)[j] == c;
        assert(s[j] == c);
    }
}

} // verus!

verus! {

/// Text without `c` loses nothing when `c` is dropped.
pub proof fn lemma_without_absent(s: Seq<char>, c: char)
    requires
        !s.contains(c),
    ensures
        without_char(s, c) == s,
    decreases s.len(),
{
    if s.len() > 0 {
        lemma_prefix_lacks(s, s.len() - 1, c);
        assert(s.take(s.len() - 1) =~= s.drop_last());
        lemma_without_absent(s.drop_last(), c);
        assert(s[s.len() - 1] != c);
        assert(s.drop_last().push(s.last()) =~= s);
    }
}

/// Trimming text whose first and last characters are not white space,
/// followed by more text, only trims the end of what follows.
pub proof fn lemma_trimmed_after(a: Seq<char>, b: Seq<char>)
    requires
        a.len() > 0,
        !is_white_space(a[0]),
        !is_white_space(a.last()),
    ensures
        trimmed(a + b) == a + trim_end(b),
{
    assert((a + b)[0] == a[0]);
    lemma_trim_start_kept(a + b);
    lemma_trim_end_append(a, b);
}

} // verus!
