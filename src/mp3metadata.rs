//! Technical metadata of an item's audio file, read from its file listing.
use vstd::prelude::*;
use crate::scan::{captures_from, find_all, find_mp3_block, mp3_block};
use crate::text::{chars_of, string_of};

verus! {

/// The opening tag `<tag>`.
pub open spec fn open_tag(tag: Seq<char>) -> Seq<char> {
    "<"@ + tag + ">"@
}

/// The closing tag `</tag>`.
pub open spec fn close_tag(tag: Seq<char>) -> Seq<char> {
    "</"@ + tag + ">"@
}

/// Every value written `<tag>value</tag>` in `xml`, in order; a value holds no '<'.
pub open spec fn tag_values(xml: Seq<char>, tag: Seq<char>) -> Seq<Seq<char>> {
    captures_from(xml, open_tag(tag), close_tag(tag), 0)
}

/// The first value of `tag` in `xml`, or the empty text.
pub open spec fn first_value(xml: Seq<char>, tag: Seq<char>) -> Seq<char> {
    if tag_values(xml, tag).len() > 0 {
        tag_values(xml, tag)[0]
    } else {
        Seq::empty()
    }
}

/// The names given as `<file name="name" source="original">` in `xml`.
pub open spec fn file_names(xml: Seq<char>) -> Seq<Seq<char>> {
    captures_from(xml, "<file name=\""@, "\" source=\"original\">"@, 0)
}

/// The value of a decimal number such as `123` or `123.45`, without its
/// fraction; `None` for anything else.
pub open spec fn whole_part(s: Seq<char>) -> Option<nat> {
    let k = crate::scan::next_index_of(s, '.', 0);
    let int_part = s.take(k);
    let frac = if k < s.len() {
        s.subrange(k + 1, s.len() as int)
    } else {
        Seq::empty()
    };
    if int_part.len() > 0 && all_digits(int_part) && all_digits(frac) {
        Some(digits_value(int_part))
    } else {
        None
    }
}

pub open spec fn all_digits(s: Seq<char>) -> bool {
    forall|i: int| 0 <= i < s.len() ==> '0' <= #[trigger] s[i] <= '9'
}

/// The value of a string of decimal digits.
pub open spec fn digits_value(s: Seq<char>) -> nat
    decreases s.len(),
{
    if s.len() == 0 {
        0
    } else {
        digits_value(s.drop_last()) * 10 + (s.last() as nat - '0' as nat) as nat
    }
}

/// `whole_part(s)` where it fits a `u64`.
pub open spec fn whole_value(s: Seq<char>) -> Option<u64> {
    match whole_part(s) {
        Some(v) => if v <= u64::MAX {
            Some(v as u64)
        } else {
            None
        },
        None => None,
    }
}

/// `whole_part(s)` where it fits a `u64`, else 0.
pub open spec fn number_or_zero(s: Seq<char>) -> u64 {
    match whole_value(s) {
        Some(v) => v,
        None => 0,
    }
}

/// `whole_part(s)` where it fits a `u64`, else 0.
pub fn whole_number(s: &str) -> (r: u64)
    ensures
        r == number_or_zero(s@),
{
    match parse_whole(s) {
        Some(v) => v,
        None => 0,
    }
}

/// The whole part of a decimal number that fits a `u64` (see `whole_part`).
pub fn parse_whole(s: &str) -> (r: Option<u64>)
    ensures
        r == whole_value(s@),
{
    let cs = chars_of(s);
    let n = cs.len();
    let k = crate::scan::index_of_from(&cs, '.', 0);
    proof {
        crate::scan::lemma_next_index_bounds(cs@, '.', 0);
    }
    let ghost int_part = cs@.take(k as int);
    if k == 0 {
        return None;
    }
    let mut i: usize = 0;
    while i < k
        invariant
            i <= k <= n == cs.len(),
            cs@ == s@,
            k == crate::scan::next_index_of(s@, '.', 0),
            int_part == cs@.take(k as int),
            forall|t: int| 0 <= t < i ==> '0' <= #[trigger] cs@[t] <= '9',
        decreases k - i,
    {
        if !('0' <= cs[i] && cs[i] <= '9') {
            assert(int_part[i as int] == cs@[i as int]);
            assert(!all_digits(int_part));
            assert(whole_part(s@) is None);
            return None;
        }
        i = i + 1;
    }
    assert(all_digits(int_part)) by {
        assert forall|t: int| 0 <= t < int_part.len() implies '0' <= #[trigger] int_part[t] <= '9' by {
            assert(int_part[t] == cs@[t]);
        }
    }
    if k < n {
        let ghost frac = cs@.subrange(k + 1, n as int);
        let mut j: usize = k + 1;
        while j < n
            invariant
                k < j <= n == cs.len(),
                cs@ == s@,
                k == crate::scan::next_index_of(s@, '.', 0),
                all_digits(int_part),
                int_part == cs@.take(k as int),
                frac == cs@.subrange(k + 1, n as int),
                forall|t: int| k < t < j ==> '0' <= #[trigger] cs@[t] <= '9',
            decreases n - j,
        {
            if !('0' <= cs[j] && cs[j] <= '9') {
                assert(frac[j - k - 1] == cs@[j as int]);
                assert(!all_digits(frac));
                assert(whole_part(s@) is None);
                return None;
            }
            j = j + 1;
        }
        assert forall|t: int| 0 <= t < frac.len() implies '0' <= #[trigger] frac[t] <= '9' by {
            assert(frac[t] == cs@[k + 1 + t]);
        }
    }
    let mut v: u64 = 0;
    let mut i: usize = 0;
    while i < k
        invariant
            i <= k <= n == cs.len(),
            cs@ == s@,
            k == crate::scan::next_index_of(s@, '.', 0),
            int_part == cs@.take(k as int),
            all_digits(int_part),
            v == digits_value(int_part.take(i as int)),
        decreases k - i,
    {
        let c = cs[i];
        assert(int_part[i as int] == c);
        assert(int_part.take(i as int + 1).drop_last() =~= int_part.take(i as int));
        let d = (c as u32 - '0' as u32) as u64;
        if v > (u64::MAX - d) / 10 {
            proof {
                lemma_digits_grow(int_part, i as int + 1);
                assert(digits_value(int_part.take(i as int + 1)) == v * 10 + d);
                assert(v * 10 + d > u64::MAX) by (nonlinear_arith)
                    requires
                        v > (u64::MAX - d) / 10,
                        d <= 9,
                ;
            }
            return None;
        }
        v = v * 10 + d;
        i = i + 1;
    }
    assert(int_part.take(k as int) =~= int_part);
    Some(v)
}

proof fn lemma_digits_grow(s: Seq<char>, i: int)
    requires
        0 <= i <= s.len(),
        all_digits(s),
    ensures
        digits_value(s.take(i)) <= digits_value(s),
    decreases s.len() - i,
{
    if i < s.len() {
        lemma_digits_grow(s, i + 1);
        assert(s.take(i + 1).drop_last() =~= s.take(i));
    } else {
        assert(s.take(i) =~= s);
    }
}

/// The characters of `<tag>` or, with `closing`, of `</tag>`.
fn tag_chars(tag: &str, closing: bool) -> (r: Vec<char>)
    ensures
        !closing ==> r@ == open_tag(tag@),
        closing ==> r@ == close_tag(tag@),
{
    let mut v = if closing {
        chars_of("</")
    } else {
        chars_of("<")
    };
    let t = chars_of(tag);
    let gt = chars_of(">");
    let ghost v0 = v@;
    for i in 0..t.len()
        invariant
            v@ == v0 + t@.take(i as int),
    {
        v.push(t[i]);
        assert(v@ =~= v0 + t@.take(i as int + 1));
    }
    assert(t@.take(t@.len() as int) =~= t@);
    let ghost v1 = v@;
    for i in 0..gt.len()
        invariant
            v@ == v1 + gt@.take(i as int),
    {
        v.push(gt[i]);
        assert(v@ =~= v1 + gt@.take(i as int + 1));
    }
    assert(gt@.take(gt@.len() as int) =~= gt@);
    v
}

/// Every value of `tag` in `xml` (see `tag_values`).
pub fn extract_tag(xml: &Vec<char>, tag: &str) -> (r: Vec<String>)
    ensures
        r@.map_values(|x: String| x@) == tag_values(xml@, tag@),
{
    let open = tag_chars(tag, false);
    let close = tag_chars(tag, true);
    proof {
        reveal_strlit("<");
        reveal_strlit("</");
    }
    find_all(xml, &open, &close)
}

/// The first value of `tag` in `xml`, or the empty text.
fn first_value_of(xml: &Vec<char>, tag: &str) -> (r: String)
    ensures
        r@ == first_value(xml@, tag@),
{
    let values = extract_tag(xml, tag);
    if values.len() > 0 {
        assert(values@.map_values(|x: String| x@)[0] == values@[0]@);
        values[0].clone()
    } else {
        string_of(&Vec::new())
    }
}

/// The technical metadata of an original MP3 file, as text.
pub struct Mp3Metadata {
    pub filename: String,
    pub mtime: String,
    pub size: String,
    pub length: String,
    pub title: String,
    pub creator: String,
    pub album: String,
    pub track: String,
    pub artist: String,
    pub genre: String,
    pub comment: String,
}

impl Mp3Metadata {
    /// Reads the record of the original MP3 file out of an item's file
    /// listing: `None` when the listing holds no such record (or the record
    /// names no file); else the file's name and the first value of each tag
    /// in the record, empty where the tag is missing.
    pub fn new(content: &str) -> (r: Option<Mp3Metadata>)
        ensures
            r is None <==> mp3_block(content@).len() == 0 || file_names(mp3_block(content@)).len()
                == 0,
            r matches Some(m) ==> {
                let t = mp3_block(content@);
                &&& m.filename@ == file_names(t)[0]
                &&& m.mtime@ == first_value(t, "mtime"@)
                &&& m.size@ == first_value(t, "size"@)
                &&& m.length@ == first_value(t, "length"@)
                &&& m.title@ == first_value(t, "title"@)
                &&& m.creator@ == first_value(t, "creator"@)
                &&& m.album@ == first_value(t, "album"@)
                &&& m.track@ == first_value(t, "track"@)
                &&& m.artist@ == first_value(t, "artist"@)
                &&& m.genre@ == first_value(t, "genre"@)
                &&& m.comment@ == first_value(t, "comment"@)
            },
    {
        let doc = chars_of(content);
        let text = find_mp3_block(&doc);
        if text.len() == 0 {
            return None;
        }
        let open = chars_of("<file name=\"");
        let close = chars_of("\" source=\"original\">");
        proof {
            reveal_strlit("<file name=\"");
            reveal_strlit("\" source=\"original\">");
        }
        let names = find_all(&text, &open, &close);
        if names.len() == 0 {
            return None;
        }
        assert(names@.map_values(|x: String| x@)[0] == names@[0]@);
        let filename = names[0].clone();
        Some(
            Mp3Metadata {
                filename,
                mtime: first_value_of(&text, "mtime"),
                size: first_value_of(&text, "size"),
                length: first_value_of(&text, "length"),
                title: first_value_of(&text, "title"),
                creator: first_value_of(&text, "creator"),
                album: first_value_of(&text, "album"),
                track: first_value_of(&text, "track"),
                artist: first_value_of(&text, "artist"),
                genre: first_value_of(&text, "genre"),
                comment: first_value_of(&text, "comment"),
            },
        )
    }

    /// Every value of `tag` in `xml`.
    pub fn get(tag: &str, xml: &str) -> (r: Vec<String>)
        ensures
            r@.map_values(|x: String| x@) == tag_values(xml@, tag@),
    {
        extract_tag(&chars_of(xml), tag)
    }

    /// The first value of `tag` in `xml`, or the empty text.
    pub fn get_value(tag: &str, xml: &str) -> (r: String)
        ensures
            r@ == first_value(xml@, tag@),
    {
        first_value_of(&chars_of(xml), tag)
    }

    /// The modification time, in seconds since the epoch (0 if unreadable).
    pub fn mtime_secs(&self) -> (r: u64)
        ensures
            r == number_or_zero(self.mtime@),
    {
        whole_number(self.mtime.as_str())
    }

    /// The size in bytes (0 if unreadable).
    pub fn size_bytes(&self) -> (r: u64)
        ensures
            r == number_or_zero(self.size@),
    {
        whole_number(self.size.as_str())
    }

    /// The duration in whole seconds (0 if unreadable).
    pub fn length_secs(&self) -> (r: u64)
        ensures
            r == number_or_zero(self.length@),
    {
        whole_number(self.length.as_str())
    }
}

} // verus!
