//! Slugs and excerpts.
use vstd::prelude::*;
use crate::mp3metadata::{parse_whole, whole_value};
use crate::text::{chars_of, collapse, collapse_runs, string_of, trim, trimmed};

verus! {

/// What `str::to_lowercase` returns for the given characters.
pub uninterp spec fn lowercase_of(s: Seq<char>) -> Seq<char>;

/// A character that may stand in a slug: `[a-z0-9-]`.
pub open spec fn is_slug_char(c: char) -> bool {
    ('a' <= c && c <= 'z') || ('0' <= c && c <= '9') || c == '-'
}

/// Relies on `str::to_lowercase`: the result depends on the characters alone,
/// and lowercase ASCII letters, digits and '-' are their own lowercase forms.
#[verifier::external_body]
fn lowercase(s: &str) -> (r: String)
    ensures
        r@ == lowercase_of(s@),
        (forall|i: int| 0 <= i < s@.len() ==> is_slug_char(#[trigger] s@[i])) ==> r@ == s@,
{
    s.to_lowercase()
}

/// The slug character for one (already lowercased) character: ASCII letters
/// and digits stay, accented vowels and 'ñ' lose their accent, anything else
/// becomes '-'.
pub open spec fn slug_char(c: char) -> char {
    if ('a' <= c && c <= 'z') || ('0' <= c && c <= '9') {
        c
    } else if c == 'á' || c == 'ä' || c == 'à' || c == 'â' {
        'a'
    } else if c == 'é' || c == 'ë' || c == 'è' || c == 'ê' {
        'e'
    } else if c == 'í' || c == 'ï' || c == 'ì' || c == 'î' {
        'i'
    } else if c == 'ó' || c == 'ö' || c == 'ò' || c == 'ô' {
        'o'
    } else if c == 'ú' || c == 'ü' || c == 'ù' || c == 'û' {
        'u'
    } else if c == 'ñ' {
        'n'
    } else {
        '-'
    }
}

fn slug_ch(c: char) -> (r: char)
    ensures
        r == slug_char(c),
{
    if ('a' <= c && c <= 'z') || ('0' <= c && c <= '9') {
        c
    } else if c == 'á' || c == 'ä' || c == 'à' || c == 'â' {
        'a'
    } else if c == 'é' || c == 'ë' || c == 'è' || c == 'ê' {
        'e'
    } else if c == 'í' || c == 'ï' || c == 'ì' || c == 'î' {
        'i'
    } else if c == 'ó' || c == 'ö' || c == 'ò' || c == 'ô' {
        'o'
    } else if c == 'ú' || c == 'ü' || c == 'ù' || c == 'û' {
        'u'
    } else if c == 'ñ' {
        'n'
    } else {
        '-'
    }
}

/// `s` without one leading '-' and then without one trailing '-'.
pub open spec fn strip_dash(s: Seq<char>) -> Seq<char> {
    let a = if s.len() > 0 && s[0] == '-' {
        s.drop_first()
    } else {
        s
    };
    if a.len() > 0 && a.last() == '-' {
        a.drop_last()
    } else {
        a
    }
}

/// The slug of an already lowercased text: each character mapped by
/// `slug_char`, runs of '-' collapsed, one '-' stripped at each end.
pub open spec fn slug_from_lowercase(s: Seq<char>) -> Seq<char> {
    strip_dash(collapse_runs(s.map_values(|c: char| slug_char(c)), '-'))
}

/// The slug of a title.
pub open spec fn slug_text(title: Seq<char>) -> Seq<char> {
    slug_from_lowercase(lowercase_of(title))
}

/// `s` is empty or matches `^[a-z0-9]+(-[a-z0-9]+)*$`.
pub open spec fn is_slug(s: Seq<char>) -> bool {
    &&& forall|i: int| 0 <= i < s.len() ==> is_slug_char(#[trigger] s[i])
    &&& s.len() > 0 ==> s[0] != '-' && s.last() != '-'
    &&& forall|i: int| 0 <= i < s.len() - 1 ==> !(#[trigger] s[i] == '-' && s[i + 1] == '-')
}

proof fn lemma_collapse(s: Seq<char>, d: char)
    ensures
        s.len() > 0 ==> collapse_runs(s, d).len() > 0 && collapse_runs(s, d).last() == s.last(),
        (forall|i: int| 0 <= i < s.len() ==> is_slug_char(#[trigger] s[i])) ==> (forall|i: int|
            0 <= i < collapse_runs(s, d).len() ==> is_slug_char(#[trigger] collapse_runs(s, d)[i])),
        forall|i: int|
            0 <= i < collapse_runs(s, d).len() - 1 ==> !(#[trigger] collapse_runs(s, d)[i] == d
                && collapse_runs(s, d)[i + 1] == d),
    decreases s.len(),
{
    if s.len() > 0 {
        let init = s.drop_last();
        lemma_collapse(init, d);
        let c = collapse_runs(init, d);
        if (forall|i: int| 0 <= i < s.len() ==> is_slug_char(#[trigger] s[i])) {
            assert forall|i: int| 0 <= i < init.len() implies is_slug_char(#[trigger] init[i]) by {
                assert(init[i] == s[i]);
            }
        }
        if !(s.last() == d && s.len() >= 2 && s[s.len() - 2] == d) {
            let r = c.push(s.last());
            assert forall|i: int| 0 <= i < r.len() - 1 implies !(#[trigger] r[i] == d && r[i + 1] == d) by {
                if i == c.len() - 1 {
                    assert(c.last() == init.last());
                }
            }
        }
    }
}

proof fn lemma_collapse_fixed(s: Seq<char>, d: char)
    requires
        forall|i: int| 0 <= i < s.len() - 1 ==> !(#[trigger] s[i] == d && s[i + 1] == d),
    ensures
        collapse_runs(s, d) == s,
    decreases s.len(),
{
    if s.len() > 0 {
        let init = s.drop_last();
        assert forall|i: int| 0 <= i < init.len() - 1 implies !(#[trigger] init[i] == d && init[i + 1] == d) by {
            assert(init[i] == s[i] && init[i + 1] == s[i + 1]);
        }
        lemma_collapse_fixed(init, d);
        assert(init.push(s.last()) =~= s);
    }
}

/// Whatever the lowercased title, its slug has the shape of a slug.
pub proof fn lemma_slug_shape(s: Seq<char>)
    ensures
        is_slug(slug_from_lowercase(s)),
{
    let m = s.map_values(|c: char| slug_char(c));
    assert forall|i: int| 0 <= i < m.len() implies is_slug_char(#[trigger] m[i]) by {}
    lemma_collapse(m, '-');
    let c = collapse_runs(m, '-');
    let a = if c.len() > 0 && c[0] == '-' {
        c.drop_first()
    } else {
        c
    };
    assert(a.len() > 0 ==> a[0] != '-') by {
        if c.len() > 0 && c[0] == '-' && a.len() > 0 {
            assert(a[0] == c[1]);
        }
    }
    assert forall|i: int| 0 <= i < a.len() - 1 implies !(#[trigger] a[i] == '-' && a[i + 1] == '-') by {
        if c.len() > 0 && c[0] == '-' {
            assert(a[i] == c[i + 1] && a[i + 1] == c[i + 2]);
        }
    }
    let b = strip_dash(c);
    if a.len() > 0 && a.last() == '-' {
        assert(b == a.drop_last());
        if b.len() > 0 {
            assert(b.last() == a[a.len() - 2]);
            assert(b[0] == a[0]);
        }
        assert forall|i: int| 0 <= i < b.len() - 1 implies !(#[trigger] b[i] == '-' && b[i + 1] == '-') by {
            assert(b[i] == a[i] && b[i + 1] == a[i + 1]);
        }
    }
    assert forall|i: int| 0 <= i < b.len() implies is_slug_char(#[trigger] b[i]) by {
        if c.len() > 0 && c[0] == '-' {
            assert(b[i] == c[i + 1]);
        } else {
            assert(b[i] == c[i]);
        }
    }
}

/// A slug is its own slug.
pub proof fn lemma_slug_fixed(s: Seq<char>)
    requires
        is_slug(s),
    ensures
        slug_from_lowercase(s) == s,
{
    let m = s.map_values(|c: char| slug_char(c));
    assert(m =~= s);
    lemma_collapse_fixed(s, '-');
}

/// Slugifying a slug gives it back: slugifying twice gives what slugifying
/// once gives.
pub proof fn lemma_slug_idempotent(s: Seq<char>)
    ensures
        slug_from_lowercase(slug_from_lowercase(s)) == slug_from_lowercase(s),
{
    lemma_slug_shape(s);
    lemma_slug_fixed(slug_from_lowercase(s));
}

/// The slug of a title: lowercased, each character mapped by `slug_char`,
/// runs of '-' collapsed, and one '-' stripped at each end. The result has the
/// shape of a slug, and a slug is returned unchanged, so slugifying twice
/// gives what slugifying once gives.
pub fn get_slug(title: &str) -> (r: String)
    ensures
        r@ == slug_text(title@),
        is_slug(r@),
        is_slug(title@) ==> r@ == title@,
{
    let lower = lowercase(title);
    let cs = chars_of(lower.as_str());
    let mut mapped: Vec<char> = Vec::new();
    let n = cs.len();
    for i in 0..n
        invariant
            n == cs.len(),
            mapped@ == cs@.take(i as int).map_values(|c: char| slug_char(c)),
    {
        mapped.push(slug_ch(cs[i]));
        assert(mapped@ =~= cs@.take(i as int + 1).map_values(|c: char| slug_char(c)));
    }
    assert(cs@.take(n as int) =~= cs@);
    let c = collapse(&mapped, '-');
    let start: usize = if c.len() > 0 && c[0] == '-' {
        1
    } else {
        0
    };
    let end: usize = if c.len() > start && c[c.len() - 1] == '-' {
        c.len() - 1
    } else {
        c.len()
    };
    let mut out: Vec<char> = Vec::new();
    for i in start..end
        invariant
            start <= end <= c.len(),
            out@ == c@.subrange(start as int, i as int),
    {
        out.push(c[i]);
    }
    proof {
        let a = if c@.len() > 0 && c@[0] == '-' {
            c@.drop_first()
        } else {
            c@
        };
        assert(a =~= c@.subrange(start as int, c@.len() as int));
        assert(out@ =~= strip_dash(c@));
        lemma_slug_shape(lower@);
        if is_slug(title@) {
            lemma_slug_fixed(title@);
        }
    }
    string_of(&out)
}


/// Number of words an excerpt keeps.
pub const EXCERPT_LENGTH: usize = 55;

/// A character that separates words: space, newline or tab.
pub open spec fn is_gap(c: char) -> bool {
    c == ' ' || c == '\n' || c == '\t'
}

/// How many word separators `s` holds.
pub open spec fn gap_count(s: Seq<char>) -> nat
    decreases s.len(),
{
    if s.len() == 0 {
        0
    } else {
        gap_count(s.drop_last()) + if is_gap(s.last()) {
            1nat
        } else {
            0nat
        }
    }
}

/// `s` with each run of spaces, of newlines and of tabs made a single one.
pub open spec fn cleaned(s: Seq<char>) -> Seq<char> {
    collapse_runs(collapse_runs(collapse_runs(s, ' '), '\n'), '\t')
}

/// The longest prefix of `s` that holds fewer than `n` separators: what comes
/// before the `n`-th separator.
pub open spec fn words_prefix(s: Seq<char>, n: nat) -> Seq<char>
    decreases s.len(),
{
    if s.len() == 0 || gap_count(s) < n {
        s
    } else {
        words_prefix(s.drop_last(), n)
    }
}

/// The first `n` words of `content`: when the cleaned text has at least `n`
/// separators, its part before the `n`-th one, trimmed; else the whole text,
/// trimmed.
pub open spec fn first_words(content: Seq<char>, n: nat) -> Seq<char> {
    if gap_count(cleaned(content)) < n {
        trimmed(content)
    } else {
        trimmed(words_prefix(cleaned(content), n))
    }
}

proof fn lemma_gap_step(s: Seq<char>, i: int)
    requires
        0 <= i < s.len(),
    ensures
        gap_count(s.take(i + 1)) == gap_count(s.take(i)) + if is_gap(s[i]) {
            1nat
        } else {
            0nat
        },
{
    assert(s.take(i + 1).drop_last() =~= s.take(i));
}

proof fn lemma_gap_mono(s: Seq<char>, i: int, j: int)
    requires
        0 <= i <= j <= s.len(),
    ensures
        gap_count(s.take(i)) <= gap_count(s.take(j)),
    decreases j - i,
{
    if i < j {
        lemma_gap_mono(s, i, j - 1);
        lemma_gap_step(s, j - 1);
    }
}

proof fn lemma_words_prefix(s: Seq<char>, n: nat, p: int)
    requires
        0 <= p <= s.len(),
        gap_count(s.take(p)) < n,
        p < s.len() ==> gap_count(s.take(p + 1)) >= n,
    ensures
        words_prefix(s, n) == s.take(p),
    decreases s.len(),
{
    if p == s.len() {
        assert(s.take(p) =~= s);
    } else {
        lemma_gap_mono(s, p + 1, s.len() as int);
        assert(s.take(s.len() as int) =~= s);
        let t = s.drop_last();
        assert(t.take(p) =~= s.take(p));
        if p < t.len() {
            assert(t.take(p + 1) =~= s.take(p + 1));
        }
        lemma_words_prefix(t, n, p);
    }
}

proof fn lemma_words_prefix_zero(s: Seq<char>)
    ensures
        words_prefix(s, 0) == Seq::<char>::empty(),
    decreases s.len(),
{
    if s.len() > 0 {
        lemma_words_prefix_zero(s.drop_last());
    }
}

/// The first `number` words of `content` (see `first_words`).
pub fn get_first_words(content: &str, number: usize) -> (r: String)
    ensures
        r@ == first_words(content@, number as nat),
{
    let cs = chars_of(content);
    let c1 = collapse(&cs, ' ');
    let c2 = collapse(&c1, '\n');
    let c = collapse(&c2, '\t');
    let mut cut: Option<usize> = None;
    if number == 0 {
        cut = Some(0);
        proof {
            lemma_words_prefix_zero(c@);
            assert(c@.take(0) =~= Seq::<char>::empty());
        }
    } else {
        let mut count: usize = 0;
        let mut i: usize = 0;
        assert(c@.take(c@.len() as int) =~= c@);
        while i < c.len()
            invariant_except_break
                cut is None,
            invariant
                i <= c.len(),
                count == gap_count(c@.take(i as int)),
                count < number,
                c@.take(c@.len() as int) == c@,
            ensures
                cut is None ==> gap_count(c@) < number,
                cut matches Some(p) ==> p <= c.len() && words_prefix(c@, number as nat) == c@.take(
                    p as int,
                ) && gap_count(c@) >= number,
            decreases c.len() - i,
        {
            proof {
                lemma_gap_step(c@, i as int);
            }
            if c[i] == ' ' || c[i] == '\n' || c[i] == '\t' {
                if count + 1 == number {
                    cut = Some(i);
                    proof {
                        lemma_words_prefix(c@, number as nat, i as int);
                        lemma_gap_mono(c@, i as int + 1, c@.len() as int);
                        assert(c@.take(c@.len() as int) =~= c@);
                    }
                    break;
                }
                count = count + 1;
            }
            i = i + 1;
        }
    }
    match cut {
        None => {
            let t = trim(&cs);
            string_of(&t)
        },
        Some(p) => {
            let mut head: Vec<char> = Vec::new();
            for k in 0..p
                invariant
                    p <= c.len(),
                    head@ == c@.take(k as int),
            {
                head.push(c[k]);
                assert(head@ =~= c@.take(k as int + 1));
            }
            let t = trim(&head);
            string_of(&t)
        },
    }
}

/// The excerpt of a text: its first `EXCERPT_LENGTH` words.
pub fn get_excerpt(content: &str) -> (r: String)
    ensures
        r@ == first_words(content@, EXCERPT_LENGTH as nat),
{
    get_first_words(content, EXCERPT_LENGTH)
}


/// What `chrono` gives for a date written `YYYY-MM-DD`: the seconds from the
/// epoch to its midnight (UTC), or `None` where it reads no valid date.
pub uninterp spec fn day_start_of(s: Seq<char>) -> Option<int>;

/// Relies on `NaiveDate::from_str` and `NaiveDateTime::timestamp`: the
/// midnight of a `YYYY-MM-DD` date in seconds since the epoch, a function
/// of the text alone.
#[verifier::external_body]
fn day_start(ymd: &str) -> (r: Option<i64>)
    ensures
        r matches Some(t) ==> day_start_of(ymd@) == Some(t as int),
        r is None ==> day_start_of(ymd@) is None,
{
    match ymd.parse::<chrono::NaiveDate>() {
        Ok(d) => Some(d.and_time(chrono::NaiveTime::MIN).and_utc().timestamp()),
        Err(_) => None,
    }
}

/// The characters of `s` that can be part of a date: digits and '-'.
pub open spec fn date_chars(s: Seq<char>) -> Seq<char>
    decreases s.len(),
{
    if s.len() == 0 {
        s
    } else if ('0' <= s.last() && s.last() <= '9') || s.last() == '-' {
        date_chars(s.drop_last()).push(s.last())
    } else {
        date_chars(s.drop_last())
    }
}

/// The seconds since the epoch of the midnight of a date written
/// `YYYY-MM-DD` (other characters, such as quotes, are ignored); `None`
/// where no valid date, or one before the epoch, is written.
pub open spec fn unix_day(ymd: Seq<char>) -> Option<u64> {
    match day_start_of(date_chars(ymd)) {
        Some(t) => if 0 <= t <= u64::MAX {
            Some(t as u64)
        } else {
            None
        },
        None => None,
    }
}

/// The midnight of a date in seconds since the epoch (see `unix_day`).
pub fn get_unix_time(ymd: &str) -> (r: Option<u64>)
    ensures
        r == unix_day(ymd@),
{
    let cs = chars_of(ymd);
    let mut kept: Vec<char> = Vec::new();
    for i in 0..cs.len()
        invariant
            kept@ == date_chars(cs@.take(i as int)),
    {
        let c = cs[i];
        assert(cs@.take(i as int + 1).drop_last() =~= cs@.take(i as int));
        if ('0' <= c && c <= '9') || c == '-' {
            kept.push(c);
        }
    }
    assert(cs@.take(cs@.len() as int) =~= cs@);
    let text = string_of(&kept);
    match day_start(text.as_str()) {
        Some(t) => if t >= 0 {
            Some(t as u64)
        } else {
            None
        },
        None => None,
    }
}


/// What `chrono` writes as `%Y-%m-%d` for the UTC day of `secs` seconds
/// since the epoch, or `None` where it has no such date.
pub uninterp spec fn day_text_of(secs: int) -> Option<Seq<char>>;

/// Relies on `DateTime::<Utc>::from_timestamp` and `format("%Y-%m-%d")`: the
/// day of an instant, a function of the instant alone.
#[verifier::external_body]
fn day_text(secs: i64) -> (r: Option<String>)
    ensures
        r matches Some(t) ==> day_text_of(secs as int) == Some(t@),
        r is None ==> day_text_of(secs as int) is None,
{
    match chrono::DateTime::<chrono::Utc>::from_timestamp(secs, 0) {
        Some(d) => Some(d.format("%Y-%m-%d").to_string()),
        None => None,
    }
}

/// The day, written `YYYY-MM-DD`, of a modification time given in seconds
/// since the epoch (a fraction is ignored); `None` where the text is no such
/// number or the instant has no date.
pub fn get_date(mtime: &str) -> (r: Option<String>)
    ensures
        r matches Some(t) ==> whole_value(mtime@) matches Some(n) && n <= i64::MAX && day_text_of(
            n as int,
        ) == Some(t@),
        r is None ==> whole_value(mtime@) is None || whole_value(mtime@)->0 > i64::MAX || day_text_of(
            whole_value(mtime@)->0 as int,
        ) is None,
{
    match parse_whole(mtime) {
        Some(n) => if n > i64::MAX as u64 {
            None
        } else {
            day_text(n as i64)
        },
        None => None,
    }
}

} // verus!
