//! Tolerant scanning of loosely structured markup: tag values and lines.
use vstd::prelude::*;
use crate::text::{is_space, space, string_of};

verus! {

/// `pat` stands in `s` at index `i`.
pub open spec fn occurs_at(s: Seq<char>, pat: Seq<char>, i: int) -> bool {
    0 <= i && i + pat.len() <= s.len() && s.subrange(i, i + pat.len()) == pat
}

/// The index of the first `c` in `s` at or after `i`, or `s.len()` if none.
pub open spec fn next_index_of(s: Seq<char>, c: char, i: int) -> int
    decreases s.len() - i,
{
    if i < 0 || i >= s.len() {
        s.len() as int
    } else if s[i] == c {
        i
    } else {
        next_index_of(s, c, i + 1)
    }
}

pub proof fn lemma_next_index_bounds(s: Seq<char>, c: char, i: int)
    requires
        0 <= i <= s.len(),
    ensures
        i <= next_index_of(s, c, i) <= s.len(),
        next_index_of(s, c, i) < s.len() ==> s[next_index_of(s, c, i)] == c,
        forall|j: int| i <= j < next_index_of(s, c, i) ==> s[j] != c,
    decreases s.len() - i,
{
    if i < s.len() && s[i] != c {
        lemma_next_index_bounds(s, c, i + 1);
    }
}

/// A match of `open`, a body free of `close[0]`, and `close` starts at `i`.
pub open spec fn match_at(s: Seq<char>, open: Seq<char>, close: Seq<char>, i: int) -> bool {
    occurs_at(s, open, i) && occurs_at(s, close, next_index_of(s, close[0], i + open.len()))
}

/// The bodies of the successive non-overlapping matches of `open`, a body
/// free of `close[0]`, and `close`, searched from `i` on: what the pattern
/// `open([^c]*)close` (with `c` the first character of `close`) captures.
pub open spec fn captures_from(s: Seq<char>, open: Seq<char>, close: Seq<char>, i: int) -> Seq<
    Seq<char>,
>
    decreases s.len() - i,
{
    if i < 0 || i >= s.len() || open.len() == 0 || close.len() == 0 {
        Seq::empty()
    } else if match_at(s, open, close, i) {
        let j = next_index_of(s, close[0], i + open.len());
        let e = j + close.len();
        if e > i {
            seq![s.subrange(i + open.len(), j)] + captures_from(s, open, close, e)
        } else {
            Seq::empty()
        }
    } else {
        captures_from(s, open, close, i + 1)
    }
}

/// Whether `pat` stands in `s` at `i`.
pub fn occurs(s: &Vec<char>, pat: &Vec<char>, i: usize) -> (r: bool)
    ensures
        r == occurs_at(s@, pat@, i as int),
{
    if i > s.len() || pat.len() > s.len() - i {
        return false;
    }
    let mut k: usize = 0;
    while k < pat.len()
        invariant
            i + pat.len() <= s.len(),
            k <= pat.len(),
            forall|j: int| 0 <= j < k ==> s@[i + j] == pat@[j],
        decreases pat.len() - k,
    {
        if s[i + k] != pat[k] {
            assert(s@.subrange(i as int, i + pat.len())[k as int] != pat@[k as int]);
            return false;
        }
        k = k + 1;
    }
    assert(s@.subrange(i as int, i + pat.len()) =~= pat@);
    true
}

/// The index of the first `c` in `s` at or after `i`, or `s.len()`.
pub fn index_of_from(s: &Vec<char>, c: char, i: usize) -> (r: usize)
    requires
        i <= s.len(),
    ensures
        r == next_index_of(s@, c, i as int),
{
    let mut k = i;
    while k < s.len() && s[k] != c
        invariant
            i <= k <= s.len(),
            next_index_of(s@, c, k as int) == next_index_of(s@, c, i as int),
        decreases s.len() - k,
    {
        k = k + 1;
    }
    k
}

/// The bodies captured by `open([^c]*)close` in `s`, in order (`c` being the
/// first character of `close`).
pub fn find_all(s: &Vec<char>, open: &Vec<char>, close: &Vec<char>) -> (r: Vec<String>)
    requires
        open.len() > 0,
        close.len() > 0,
    ensures
        r@.map_values(|x: String| x@) == captures_from(s@, open@, close@, 0),
{
    let mut out: Vec<String> = Vec::new();
    let mut i: usize = 0;
    while i < s.len()
        invariant
            open.len() > 0,
            close.len() > 0,
            out@.map_values(|x: String| x@) + captures_from(s@, open@, close@, i as int)
                == captures_from(s@, open@, close@, 0),
        decreases s.len() - i,
    {
        let ghost old_out = out@.map_values(|x: String| x@);
        if occurs(s, open, i) {
            let j = index_of_from(s, close[0], i + open.len());
            proof {
                lemma_next_index_bounds(s@, close@[0], i + open.len());
            }
            if occurs(s, close, j) {
                let mut body: Vec<char> = Vec::new();
                let start = i + open.len();
                for k in start..j
                    invariant
                        start <= j <= s.len(),
                        body@ == s@.subrange(start as int, k as int),
                {
                    body.push(s[k]);
                }
                out.push(string_of(&body));
                proof {
                    assert(out@.map_values(|x: String| x@) =~= old_out.push(body@));
                    let rest = captures_from(s@, open@, close@, (j + close.len()) as int);
                    assert(captures_from(s@, open@, close@, i as int) == seq![body@] + rest);
                    assert(old_out.push(body@) + rest =~= old_out + (seq![body@] + rest));
                }
                i = j + close.len();
            } else {
                i = i + 1;
            }
        } else {
            i = i + 1;
        }
    }
    assert(out@.map_values(|x: String| x@) + Seq::<Seq<char>>::empty() =~= out@.map_values(
        |x: String| x@,
    ));
    out
}


proof fn lemma_next_index_is(s: Seq<char>, c: char, i: int, k: int)
    requires
        0 <= i <= k <= s.len(),
        forall|j: int| i <= j < k ==> s[j] != c,
        k < s.len() ==> s[k] == c,
    ensures
        next_index_of(s, c, i) == k,
    decreases k - i,
{
    if i < k {
        lemma_next_index_is(s, c, i + 1, k);
    }
}

/// `l` without one trailing '\r'.
pub open spec fn strip_cr(l: Seq<char>) -> Seq<char> {
    if l.len() > 0 && l.last() == '\r' {
        l.drop_last()
    } else {
        l
    }
}

/// The lines of `s` as `str::lines` gives them: `s` is cut after each '\n';
/// a piece that ended in '\n' loses it, and then one '\r' before it; a last
/// piece without '\n' stays as it is.
pub open spec fn lines_of(s: Seq<char>) -> Seq<Seq<char>>
    decreases s.len(),
{
    if s.len() == 0 {
        Seq::empty()
    } else {
        let k = next_index_of(s, '\n', 0);
        if k < 0 || k >= s.len() {
            seq![s]
        } else {
            seq![strip_cr(s.take(k))] + lines_of(s.subrange(k + 1, s.len() as int))
        }
    }
}

/// The lines of `s` (see `lines_of`).
pub fn split_lines(s: &Vec<char>) -> (r: Vec<Vec<char>>)
    ensures
        r@.map_values(|l: Vec<char>| l@) == lines_of(s@),
{
    let mut out: Vec<Vec<char>> = Vec::new();
    let mut cur: Vec<char> = Vec::new();
    let mut start: usize = 0;
    let n = s.len();
    assert(s@.subrange(0, n as int) =~= s@);
    assert(out@.map_values(|l: Vec<char>| l@) + lines_of(s@) =~= lines_of(s@));
    for i in 0..n
        invariant
            n == s.len(),
            start <= i,
            cur@ == s@.subrange(start as int, i as int),
            forall|j: int| start <= j < i ==> s@[j] != '\n',
            out@.map_values(|l: Vec<char>| l@) + lines_of(s@.subrange(start as int, n as int))
                == lines_of(s@),
    {
        if s[i] == '\n' {
            let ghost t = s@.subrange(start as int, n as int);
            let ghost old_out = out@.map_values(|l: Vec<char>| l@);
            proof {
                lemma_next_index_is(t, '\n', 0, i - start);
                assert(t.take(i - start) =~= cur@);
                assert(t.subrange(i - start + 1, t.len() as int) =~= s@.subrange(
                    i + 1,
                    n as int,
                ));
            }
            let line = if cur.len() > 0 && cur[cur.len() - 1] == '\r' {
                let mut c2 = cur;
                c2.pop();
                c2
            } else {
                cur
            };
            out.push(line);
            proof {
                assert(out@.map_values(|l: Vec<char>| l@) =~= old_out.push(strip_cr(t.take(i - start))));
                let rest = lines_of(s@.subrange(i + 1, n as int));
                assert(old_out.push(strip_cr(t.take(i - start))) + rest =~= old_out + (seq![
                    strip_cr(t.take(i - start)),
                ] + rest));
            }
            cur = Vec::new();
            start = i + 1;
        } else {
            cur.push(s[i]);
        }
    }
    if start < n {
        let ghost t = s@.subrange(start as int, n as int);
        let ghost old_out = out@.map_values(|l: Vec<char>| l@);
        proof {
            lemma_next_index_is(t, '\n', 0, t.len() as int);
        }
        out.push(cur);
        proof {
            assert(out@.map_values(|l: Vec<char>| l@) =~= old_out + seq![t]);
        }
    } else {
        assert(out@.map_values(|l: Vec<char>| l@) + Seq::<Seq<char>>::empty() =~= out@.map_values(
            |l: Vec<char>| l@,
        ));
    }
    out
}

/// The index of the first character of `l` at or after `i` that is not white space.
pub open spec fn skip_spaces(l: Seq<char>, i: int) -> int
    decreases l.len() - i,
{
    if 0 <= i < l.len() && is_space(l[i]) {
        skip_spaces(l, i + 1)
    } else {
        i
    }
}

/// `pat` stands somewhere in `l` at or after `i`.
pub open spec fn occurs_from(l: Seq<char>, pat: Seq<char>, i: int) -> bool {
    exists|j: int| i <= j && occurs_at(l, pat, j)
}

pub open spec fn file_open() -> Seq<char> {
    "<file name=\""@
}

pub open spec fn mp3_original() -> Seq<char> {
    ".mp3\" source=\"original\">"@
}

pub open spec fn file_close() -> Seq<char> {
    "</file>"@
}

/// The line that opens the record of an original MP3 file: white space, then
/// `<file name="`, and later `.mp3" source="original">`.
pub open spec fn is_block_start(l: Seq<char>) -> bool {
    let k = skip_spaces(l, 0);
    k >= 1 && occurs_at(l, file_open(), k) && occurs_from(l, mp3_original(), k + file_open().len())
}

/// The line that closes a file record: white space, then `</file>`.
pub open spec fn is_block_end(l: Seq<char>) -> bool {
    let k = skip_spaces(l, 0);
    k >= 1 && occurs_at(l, file_close(), k)
}

/// The lines of `ls` up to the first one that closes a record, included.
pub open spec fn lines_to_end(ls: Seq<Seq<char>>) -> Seq<Seq<char>>
    decreases ls.len(),
{
    if ls.len() == 0 {
        ls
    } else if is_block_end(ls[0]) {
        seq![ls[0]]
    } else {
        seq![ls[0]] + lines_to_end(ls.drop_first())
    }
}

/// The lines of the first original MP3 record in `ls`: from the line that
/// opens it to the line that closes it (or to the last line).
pub open spec fn block_of(ls: Seq<Seq<char>>) -> Seq<Seq<char>>
    decreases ls.len(),
{
    if ls.len() == 0 {
        ls
    } else if is_block_start(ls[0]) {
        lines_to_end(ls)
    } else {
        block_of(ls.drop_first())
    }
}

/// The lines of `ls` joined with nothing between them.
pub open spec fn joined(ls: Seq<Seq<char>>) -> Seq<char>
    decreases ls.len(),
{
    if ls.len() == 0 {
        Seq::empty()
    } else {
        ls[0] + joined(ls.drop_first())
    }
}

/// The text of the first original MP3 record of a file listing: its lines,
/// joined.
pub open spec fn mp3_block(doc: Seq<char>) -> Seq<char> {
    joined(block_of(lines_of(doc)))
}

fn skip_spaces_exec(l: &Vec<char>) -> (r: usize)
    ensures
        r == skip_spaces(l@, 0),
{
    let mut k: usize = 0;
    while k < l.len() && space(l[k])
        invariant
            k <= l.len(),
            skip_spaces(l@, k as int) == skip_spaces(l@, 0),
        decreases l.len() - k,
    {
        k = k + 1;
    }
    k
}

fn occurs_anywhere_from(l: &Vec<char>, pat: &Vec<char>, i: usize) -> (r: bool)
    ensures
        r == occurs_from(l@, pat@, i as int),
{
    if i > l.len() {
        assert forall|k: int| i <= k implies !occurs_at(l@, pat@, k) by {}
        return false;
    }
    let mut j = i;
    while j < l.len()
        invariant
            i <= j <= l.len(),
            forall|k: int| i <= k < j ==> !occurs_at(l@, pat@, k),
        decreases l.len() - j,
    {
        if occurs(l, pat, j) {
            return true;
        }
        j = j + 1;
    }
    if occurs(l, pat, j) {
        return true;
    }
    assert forall|k: int| i <= k implies !occurs_at(l@, pat@, k) by {
        if k > j {
            assert(k + pat@.len() > l@.len());
        }
    }
    false
}

fn block_start(l: &Vec<char>, open: &Vec<char>, mp3: &Vec<char>) -> (r: bool)
    requires
        open@ == file_open(),
        mp3@ == mp3_original(),
    ensures
        r == is_block_start(l@),
{
    let k = skip_spaces_exec(l);
    if k == 0 {
        return false;
    }
    let found = occurs(l, open, k);
    if !found {
        return false;
    }
    let n = l.len();
    assert(k + open@.len() <= n);
    occurs_anywhere_from(l, mp3, k + open.len())
}

fn block_end(l: &Vec<char>, close: &Vec<char>) -> (r: bool)
    requires
        close@ == file_close(),
    ensures
        r == is_block_end(l@),
{
    let k = skip_spaces_exec(l);
    k >= 1 && occurs(l, close, k)
}

proof fn lemma_joined_push(ls: Seq<Seq<char>>, l: Seq<char>)
    ensures
        joined(ls.push(l)) == joined(ls) + l,
    decreases ls.len(),
{
    if ls.len() == 0 {
        assert(ls.push(l).drop_first() =~= Seq::<Seq<char>>::empty());
        assert(ls.push(l)[0] == l);
        assert(joined(ls.push(l).drop_first()) == Seq::<char>::empty());
        assert(joined(ls.push(l)) == l + Seq::<char>::empty());
        assert(l + Seq::<char>::empty() =~= l);
        assert(Seq::<char>::empty() + l =~= l);
    } else {
        assert(ls.push(l).drop_first() =~= ls.drop_first().push(l));
        assert(ls.push(l)[0] == ls[0]);
        assert(joined(ls.push(l)) == ls[0] + joined(ls.drop_first().push(l)));
        lemma_joined_push(ls.drop_first(), l);
        assert(ls[0] + (joined(ls.drop_first()) + l) =~= (ls[0] + joined(ls.drop_first())) + l);
    }
}

/// The text of the first original MP3 record of a file listing (see `mp3_block`).
pub fn find_mp3_block(doc: &Vec<char>) -> (r: Vec<char>)
    ensures
        r@ == mp3_block(doc@),
{
    let open = crate::text::chars_of("<file name=\"");
    let mp3 = crate::text::chars_of(".mp3\" source=\"original\">");
    let close = crate::text::chars_of("</file>");
    let lines = split_lines(doc);
    let ghost ls = lines@.map_values(|l: Vec<char>| l@);
    let mut text: Vec<char> = Vec::new();
    let mut in_block = false;
    let mut m: usize = 0;
    let ghost taken: Seq<Seq<char>> = Seq::empty();
    assert(ls.skip(0) =~= ls);
    while m < lines.len()
        invariant_except_break
            !in_block ==> block_of(ls) == block_of(ls.skip(m as int)),
            in_block ==> block_of(ls) == taken + lines_to_end(ls.skip(m as int)),
        invariant
            m <= lines.len(),
            ls == lines@.map_values(|l: Vec<char>| l@),
            ls == lines_of(doc@),
            open@ == file_open(),
            mp3@ == mp3_original(),
            close@ == file_close(),
            text@ == joined(taken),
            !in_block ==> taken.len() == 0,
        ensures
            text@ == joined(block_of(ls)),
        decreases lines.len() - m,
    {
        let ghost rest = ls.skip(m as int);
        assert(rest.drop_first() =~= ls.skip(m as int + 1));
        assert(rest[0] == lines@[m as int]@);
        if !in_block && block_start(&lines[m], &open, &mp3) {
            in_block = true;
            proof {
                assert(taken + lines_to_end(rest) =~= lines_to_end(rest));
            }
        }
        if in_block {
            let ghost before = taken;
            let l = &lines[m];
            let mut k: usize = 0;
            while k < l.len()
                invariant
                    k <= l.len(),
                    text@ == joined(before) + l@.take(k as int),
                decreases l.len() - k,
            {
                text.push(l[k]);
                assert(l@.take(k as int + 1) =~= l@.take(k as int).push(l@[k as int]));
                assert(text@ =~= joined(before) + l@.take(k as int + 1));
                k = k + 1;
            }
            proof {
                assert(l@.take(l@.len() as int) =~= l@);
                taken = before.push(l@);
                lemma_joined_push(before, l@);
            }
            if block_end(&lines[m], &close) {
                proof {
                    assert(block_of(ls) == before + seq![rest[0]]);
                    assert(taken =~= before + seq![rest[0]]);
                }
                break;
            }
            proof {
                assert(before + lines_to_end(rest) =~= taken + lines_to_end(rest.drop_first()));
            }
        }
        m = m + 1;
        proof {
            if m == lines.len() {
                assert(ls.skip(m as int) =~= Seq::<Seq<char>>::empty());
                if in_block {
                    assert(taken + Seq::<Seq<char>>::empty() =~= taken);
                }
            }
        }
    }
    text
}

} // verus!
