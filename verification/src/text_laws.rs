//! Laws that say what the text operations are for, independently of how
//! their specifications are written: splitting loses nothing, trimming
//! removes only white space from the ends, and records written one per line
//! read back as lines.
use vstd::prelude::*;

use crate::text::{
    is_white_space, lemma_split_nonempty, lemma_split_single, without_char, lemma_split_prefix, lemma_trim_end_last,
    lemma_trim_end_prefix, lemma_trim_start_first, lines_of, split_fields, strip_cr, trim_end,
    trim_start, trimmed,
};

verus! {

/// The fields joined back together, with `sep` between each two.
pub open spec fn join_fields(f: Seq<Seq<char>>, sep: char) -> Seq<char>
    decreases f.len(),
{
    if f.len() == 0 {
        Seq::empty()
    } else if f.len() == 1 {
        f[0]
    } else {
        join_fields(f.drop_last(), sep) + seq![sep] + f.last()
    }
}

/// Splitting loses nothing and cuts at every separator: no field holds the
/// separator, and joining the fields with it gives back the text.
pub proof fn law_split_join(s: Seq<char>, sep: char)
    ensures
        join_fields(split_fields(s, sep), sep) == s,
        forall|i: int|
            0 <= i < split_fields(s, sep).len() ==> !(#[trigger] split_fields(s, sep)[i]).contains(
                sep,
            ),
    decreases s.len(),
{
    if s.len() == 0 {
        assert(s =~= Seq::<char>::empty());
        assert forall|i: int| 0 <= i < split_fields(s, sep).len() implies !(#[trigger] split_fields(
            s,
            sep,
        )[i]).contains(sep) by {
            assert(split_fields(s, sep)[i] =~= Seq::<char>::empty());
        }
    } else {
        let init = s.drop_last();
        let c = s.last();
        let g = split_fields(init, sep);
        law_split_join(init, sep);
        lemma_split_nonempty(init, sep);
        assert(s =~= init.push(c));
        if c == sep {
            let f = g.push(Seq::<char>::empty());
            assert(f.drop_last() =~= g);
            assert(join_fields(f, sep) =~= init + seq![sep] + Seq::<char>::empty());
            assert forall|i: int| 0 <= i < f.len() implies !(#[trigger] f[i]).contains(sep) by {
                if i < g.len() {
                    assert(f[i] == g[i]);
                } else {
                    assert(f[i] =~= Seq::<char>::empty());
                }
            }
        } else {
            let n = g.len();
            let f = g.update(n - 1, g.last().push(c));
            if n == 1 {
                assert(join_fields(f, sep) == f[0]);
                assert(f[0] =~= s);
            } else {
                assert(f.drop_last() =~= g.drop_last());
                assert(join_fields(f, sep) =~= (join_fields(g.drop_last(), sep) + seq![sep]
                    + g.last()).push(c));
            }
            assert forall|i: int| 0 <= i < f.len() implies !(#[trigger] f[i]).contains(sep) by {
                if i < n - 1 {
                    assert(f[i] == g[i]);
                } else {
                    let x = g.last().push(c);
                    assert(f[i] == x);
                    assert(!g[n - 1].contains(sep));
                    if x.contains(sep) {
                        let j = choose|j: int| 0 <= j < x.len() && x[j] == sep;
                        if j < x.len() - 1 {
                            assert(g[n - 1][j] == sep);
                        }
                    }
                }
            }
        }
    }
}

/// Records written one per line, each closed by a line feed.
pub open spec fn record_text(rs: Seq<Seq<char>>) -> Seq<char>
    decreases rs.len(),
{
    if rs.len() == 0 {
        Seq::empty()
    } else {
        rs[0] + seq!['\n'] + record_text(rs.drop_first())
    }
}

/// A record that can stand on a line of its own: no line feed in it, and
/// no carriage return at its end.
pub open spec fn is_plain_record(r: Seq<char>) -> bool {
    &&& !r.contains('\n')
    &&& !(r.len() > 0 && r.last() == '\r')
}

proof fn lemma_record_fields(rs: Seq<Seq<char>>)
    requires
        forall|i: int| 0 <= i < rs.len() ==> is_plain_record(#[trigger] rs[i]),
    ensures
        split_fields(record_text(rs), '\n') == rs.push(Seq::<char>::empty()),
    decreases rs.len(),
{
    if rs.len() == 0 {
        assert(split_fields(record_text(rs), '\n') =~= rs.push(Seq::<char>::empty()));
    } else {
        let rest = rs.drop_first();
        assert forall|i: int| 0 <= i < rest.len() implies is_plain_record(#[trigger] rest[i]) by {
            assert(rest[i] == rs[i + 1]);
        }
        lemma_record_fields(rest);
        assert(is_plain_record(rs[0]));
        lemma_split_prefix(rs[0], record_text(rest), '\n');
        assert(seq![rs[0]] + rest.push(Seq::<char>::empty()) =~= rs.push(Seq::<char>::empty()));
    }
}

/// Records written one per line read back as exactly those lines.
pub proof fn law_lines_of_records(rs: Seq<Seq<char>>)
    requires
        forall|i: int| 0 <= i < rs.len() ==> is_plain_record(#[trigger] rs[i]),
    ensures
        lines_of(record_text(rs)) == rs,
{
    lemma_record_fields(rs);
    let f = rs.push(Seq::<char>::empty());
    assert(f.take(f.len() - 1) =~= rs);
    assert forall|i: int| 0 <= i < rs.len() implies strip_cr(#[trigger] rs[i]) == rs[i] by {
        assert(is_plain_record(rs[i]));
    }
    assert(rs.map_values(|l: Seq<char>| strip_cr(l)) =~= rs);
}

/// White space is exactly the Unicode `White_Space` code points: tab to
/// carriage return, space, U+0085, U+00A0, U+1680, U+2000 to U+200A,
/// U+2028, U+2029, U+202F, U+205F and U+3000.
pub proof fn law_white_space_code_points(c: char)
    ensures
        is_white_space(c) <==> {
            let n = c as u32;
            ||| 9 <= n <= 13
            ||| n == 32
            ||| n == 0x85
            ||| n == 0xa0
            ||| n == 0x1680
            ||| 0x2000 <= n <= 0x200a
            ||| n == 0x2028
            ||| n == 0x2029
            ||| n == 0x202f
            ||| n == 0x205f
            ||| n == 0x3000
        },
{
}

/// No visible ASCII character is white space; tab, line feed, carriage
/// return and space are.
pub proof fn law_white_space_ascii(c: char)
    ensures
        '!' <= c <= '~' ==> !is_white_space(c),
        is_white_space(' '),
        is_white_space('\t'),
        is_white_space('\n'),
        is_white_space('\r'),
{
}

proof fn lemma_trim_start_suffix(s: Seq<char>)
    ensures
        trim_start(s).len() <= s.len(),
        trim_start(s) == s.skip(s.len() - trim_start(s).len()),
        forall|k: int| 0 <= k < s.len() - trim_start(s).len() ==> is_white_space(#[trigger] s[k]),
    decreases s.len(),
{
    if s.len() > 0 && is_white_space(s[0]) {
        let r = s.drop_first();
        lemma_trim_start_suffix(r);
        assert(r.skip(r.len() - trim_start(r).len()) =~= s.skip(s.len() - trim_start(s).len()));
        assert forall|k: int| 0 <= k < s.len() - trim_start(s).len() implies is_white_space(
            #[trigger] s[k],
        ) by {
            if k > 0 {
                assert(s[k] == r[k - 1]);
            }
        }
    } else {
        assert(s.skip(0) =~= s);
    }
}

proof fn lemma_trim_end_rest(s: Seq<char>)
    ensures
        forall|k: int| trim_end(s).len() <= k < s.len() ==> is_white_space(#[trigger] s[k]),
    decreases s.len(),
{
    if s.len() > 0 && is_white_space(s.last()) {
        let r = s.drop_last();
        lemma_trim_end_rest(r);
        lemma_trim_end_prefix(r);
        assert forall|k: int| trim_end(s).len() <= k < s.len() implies is_white_space(
            #[trigger] s[k],
        ) by {
            if k < s.len() - 1 {
                assert(s[k] == r[k]);
            }
        }
    }
}

/// Trimming keeps one unbroken piece of the text and removes only white
/// space, from the two ends: the piece neither starts nor ends with white
/// space, and everything before and after it is white space.
pub proof fn law_trimmed_shape(s: Seq<char>)
    ensures
        exists|i: int|
            #![trigger s.subrange(i, i + trimmed(s).len())]
            0 <= i && i + trimmed(s).len() <= s.len() && trimmed(s) == s.subrange(
                i,
                i + trimmed(s).len(),
            ) && (forall|k: int| 0 <= k < i ==> is_white_space(#[trigger] s[k])) && (forall|k: int|
                i + trimmed(s).len() <= k < s.len() ==> is_white_space(#[trigger] s[k])),
        trimmed(s).len() > 0 ==> !is_white_space(trimmed(s)[0]) && !is_white_space(
            trimmed(s).last(),
        ),
{
    let u = trim_start(s);
    let t = trim_end(u);
    lemma_trim_start_suffix(s);
    lemma_trim_end_prefix(u);
    lemma_trim_end_rest(u);
    lemma_trim_end_last(u);
    lemma_trim_start_first(s);
    let i = s.len() - u.len();
    assert(t =~= s.subrange(i, i + t.len()));
    assert forall|k: int| i + t.len() <= k < s.len() implies is_white_space(#[trigger] s[k]) by {
        assert(s[k] == u[k - i]);
    }
    if t.len() > 0 {
        assert(t[0] == u[0]);
    }
    assert(trimmed(s) == t);
    assert(forall|k: int| 0 <= k < i ==> is_white_space(#[trigger] s[k]));
    assert(0 <= i && i + t.len() <= s.len() && t == s.subrange(i, i + t.len()));
}

/// Removing a character keeps every other character, in order, and only those.
pub proof fn law_without_char(s: Seq<char>, c: char)
    ensures
        without_char(s, c) == s.filter(|x: char| x != c),
        !without_char(s, c).contains(c),
    decreases s.len(),
{
    let pred = |x: char| x != c;
    reveal(Seq::filter);
    if s.len() > 0 {
        law_without_char(s.drop_last(), c);
        assert(s.filter(pred) == if pred(s.last()) {
            s.drop_last().filter(pred).push(s.last())
        } else {
            s.drop_last().filter(pred)
        });
    }
    let w = without_char(s, c);
    if w.contains(c) {
        let j = choose|j: int| 0 <= j < w.len() && w[j] == c;
        s.lemma_filter_pred(|x: char| x != c, j);
    }
}

/// Records written one per line, each closed by a carriage return and a line feed.
pub open spec fn crlf_record_text(rs: Seq<Seq<char>>) -> Seq<char>
    decreases rs.len(),
{
    if rs.len() == 0 {
        Seq::empty()
    } else {
        rs[0] + seq!['\r', '\n'] + crlf_record_text(rs.drop_first())
    }
}

proof fn lemma_crlf_fields(rs: Seq<Seq<char>>)
    requires
        forall|i: int| 0 <= i < rs.len() ==> is_plain_record(#[trigger] rs[i]),
    ensures
        split_fields(crlf_record_text(rs), '\n') == rs.map_values(|r: Seq<char>| r + seq!['\r']).push(
            Seq::<char>::empty(),
        ),
    decreases rs.len(),
{
    if rs.len() == 0 {
        assert(split_fields(crlf_record_text(rs), '\n') =~= rs.map_values(
            |r: Seq<char>| r + seq!['\r'],
        ).push(Seq::<char>::empty()));
    } else {
        let rest = rs.drop_first();
        assert forall|i: int| 0 <= i < rest.len() implies is_plain_record(#[trigger] rest[i]) by {
            assert(rest[i] == rs[i + 1]);
        }
        lemma_crlf_fields(rest);
        let head = rs[0] + seq!['\r'];
        assert(is_plain_record(rs[0]));
        assert(!head.contains('\n')) by {
            if head.contains('\n') {
                let j = choose|j: int| 0 <= j < head.len() && head[j] == '\n';
                if j < rs[0].len() {
                    assert(rs[0][j] == '\n');
                }
            }
        }
        assert(crlf_record_text(rs) =~= head + seq!['\n'] + crlf_record_text(rest));
        lemma_split_prefix(head, crlf_record_text(rest), '\n');
        assert(seq![head] + rest.map_values(|r: Seq<char>| r + seq!['\r']).push(
            Seq::<char>::empty(),
        ) =~= rs.map_values(|r: Seq<char>| r + seq!['\r']).push(Seq::<char>::empty()));
    }
}

/// Records written one per line with carriage return and line feed read
/// back as exactly those lines: the carriage returns are dropped.
pub proof fn law_lines_of_crlf_records(rs: Seq<Seq<char>>)
    requires
        forall|i: int| 0 <= i < rs.len() ==> is_plain_record(#[trigger] rs[i]),
    ensures
        lines_of(crlf_record_text(rs)) == rs,
{
    lemma_crlf_fields(rs);
    let m = rs.map_values(|r: Seq<char>| r + seq!['\r']);
    let f = m.push(Seq::<char>::empty());
    assert(f.take(f.len() - 1) =~= m);
    assert forall|i: int| 0 <= i < rs.len() implies strip_cr(#[trigger] m[i]) == rs[i] by {
        assert((rs[i] + seq!['\r']).drop_last() =~= rs[i]);
    }
    assert(m.map_values(|l: Seq<char>| strip_cr(l)) =~= rs);
}

proof fn lemma_record_text_append(rs: Seq<Seq<char>>, tail: Seq<char>)
    requires
        forall|i: int| 0 <= i < rs.len() ==> is_plain_record(#[trigger] rs[i]),
        !tail.contains('\n'),
    ensures
        split_fields(record_text(rs) + tail, '\n') == rs.push(tail),
    decreases rs.len(),
{
    if rs.len() == 0 {
        assert(record_text(rs) + tail =~= tail);
        lemma_split_single(tail, '\n');
        assert(rs.push(tail) =~= seq![tail]);
    } else {
        let rest = rs.drop_first();
        assert forall|i: int| 0 <= i < rest.len() implies is_plain_record(#[trigger] rest[i]) by {
            assert(rest[i] == rs[i + 1]);
        }
        lemma_record_text_append(rest, tail);
        assert(is_plain_record(rs[0]));
        assert(record_text(rs) + tail =~= rs[0] + seq!['\n'] + (record_text(rest) + tail));
        lemma_split_prefix(rs[0], record_text(rest) + tail, '\n');
        assert(seq![rs[0]] + rest.push(tail) =~= rs.push(tail));
    }
}

/// A last line without a closing line feed is still a line, taken as it
/// stands, carriage return and all.
pub proof fn law_lines_of_open_last(rs: Seq<Seq<char>>, last: Seq<char>)
    requires
        forall|i: int| 0 <= i < rs.len() ==> is_plain_record(#[trigger] rs[i]),
        !last.contains('\n'),
        last.len() > 0,
    ensures
        lines_of(record_text(rs) + last) == rs.push(last),
{
    lemma_record_text_append(rs, last);
    let f = rs.push(last);
    assert(f.take(f.len() - 1) =~= rs);
    assert forall|i: int| 0 <= i < rs.len() implies strip_cr(#[trigger] rs[i]) == rs[i] by {
        assert(is_plain_record(rs[i]));
    }
    assert(rs.map_values(|l: Seq<char>| strip_cr(l)) =~= rs);
}

} // verus!
