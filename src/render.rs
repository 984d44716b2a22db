//! What the render pipeline computes besides the templates: Markdown,
//! output paths, and the text filters.
use vstd::prelude::*;
use crate::site::{Layout, Post};
use crate::text::{chars_of, concat, string_of};

verus! {

/// What `comrak::markdown_to_html` returns for the given Markdown with the
/// default options.
pub uninterp spec fn html_of_markdown(md: Seq<char>) -> Seq<char>;

/// Relies on `comrak::markdown_to_html` with default options: the HTML of a
/// Markdown text, which depends on the text alone.
#[verifier::external_body]
pub(crate) fn markdown_html(md: &str) -> (r: String)
    ensures
        r@ == html_of_markdown(md@),
{
    comrak::markdown_to_html(md, &comrak::Options::default())
}

/// `path` without one leading '/' and then without one trailing '/'.
pub open spec fn cleaned_path(path: Seq<char>) -> Seq<char> {
    let a = if path.len() > 0 && path[0] == '/' {
        path.drop_first()
    } else {
        path
    };
    if a.len() > 0 && a.last() == '/' {
        a.drop_last()
    } else {
        a
    }
}

/// A path without a slash at either end.
pub fn clean_path(path: &str) -> (r: String)
    ensures
        r@ == cleaned_path(path@),
{
    let cs = chars_of(path);
    let start: usize = if cs.len() > 0 && cs[0] == '/' {
        1
    } else {
        0
    };
    let end: usize = if cs.len() > start && cs[cs.len() - 1] == '/' {
        cs.len() - 1
    } else {
        cs.len()
    };
    let mut out: Vec<char> = Vec::new();
    for i in start..end
        invariant
            start <= end <= cs.len(),
            out@ == cs@.subrange(start as int, i as int),
    {
        out.push(cs[i]);
    }
    proof {
        let a = if cs@.len() > 0 && cs@[0] == '/' {
            cs@.drop_first()
        } else {
            cs@
        };
        assert(a =~= cs@.subrange(start as int, cs@.len() as int));
        assert(out@ =~= cleaned_path(cs@));
    }
    string_of(&out)
}

/// The directory the site is written to: `public`, or `public/baseurl`.
pub open spec fn public_dir_of(public: Seq<char>, baseurl: Seq<char>) -> Seq<char> {
    if baseurl.len() == 0 {
        public
    } else {
        public + "/"@ + baseurl
    }
}

pub fn public_dir(public: &str, baseurl: &str) -> (r: String)
    ensures
        r@ == public_dir_of(public@, baseurl@),
{
    if baseurl.is_empty() {
        String::from_str(public)
    } else {
        let mut d = String::from_str(public);
        d.append("/");
        d.append(baseurl);
        d
    }
}

/// The site's path prefix: empty, or the base URL starting with '/'.
pub open spec fn site_url_of(baseurl: Seq<char>) -> Seq<char> {
    if baseurl.len() == 0 {
        Seq::empty()
    } else if baseurl[0] == '/' {
        baseurl
    } else {
        "/"@ + baseurl
    }
}

pub fn site_url(baseurl: &str) -> (r: String)
    ensures
        r@ == site_url_of(baseurl@),
{
    let cs = chars_of(baseurl);
    if cs.len() == 0 {
        string_of(&cs)
    } else if cs[0] == '/' {
        String::from_str(baseurl)
    } else {
        concat("/", baseurl)
    }
}

/// The file a rendered page is written to: `base/endpoint/filename`, the
/// endpoint left out when empty and the file name `index.html` by default,
/// with the slashes at the ends of `base` and `endpoint` removed.
pub open spec fn output_path_of(base: Seq<char>, endpoint: Seq<char>, filename: Option<Seq<char>>) -> Seq<char> {
    let f = match filename {
        Some(f) => f,
        None => "index.html"@,
    };
    if cleaned_path(endpoint).len() == 0 {
        cleaned_path(base) + "/"@ + f
    } else {
        cleaned_path(base) + "/"@ + cleaned_path(endpoint) + "/"@ + f
    }
}

pub fn output_path(base: &str, endpoint: &str, filename: Option<&str>) -> (r: String)
    ensures
        r@ == output_path_of(
            base@,
            endpoint@,
            match filename {
                Some(f) => Some(f@),
                None => None,
            },
        ),
{
    let b = clean_path(base);
    let e = clean_path(endpoint);
    let mut out = b;
    out.append("/");
    if !e.as_str().is_empty() {
        out.append(e.as_str());
        out.append("/");
    }
    match filename {
        Some(f) => out.append(f),
        None => out.append("index.html"),
    }
    out
}

/// Where the audio file `filename` of item `identifier` is published.
pub fn audio_url(identifier: &str, filename: &str) -> (r: String)
    ensures
        r@ == "https://archive.org/download/"@ + identifier@ + "/"@ + filename@,
{
    let mut u = String::from_str("https://archive.org/download/");
    u.append(identifier);
    u.append("/");
    u.append(filename);
    u
}

/// The positions, in order, of the podcast documents among the first `n` of `posts`.
pub open spec fn podcast_positions(posts: Seq<Post>, n: int) -> Seq<usize>
    decreases n,
{
    if n <= 0 {
        Seq::empty()
    } else if posts[n - 1].layout == Layout::Podcast {
        podcast_positions(posts, n - 1).push((n - 1) as usize)
    } else {
        podcast_positions(posts, n - 1)
    }
}

/// The positions of the podcast documents among `posts`: what the feed lists.
pub fn podcast_indices(posts: &Vec<Post>) -> (r: Vec<usize>)
    ensures
        r@ == podcast_positions(posts@, posts@.len() as int),
{
    let mut out: Vec<usize> = Vec::new();
    for i in 0..posts.len()
        invariant
            out@ == podcast_positions(posts@, i as int),
    {
        if posts[i].layout == Layout::Podcast {
            out.push(i);
        }
    }
    out
}

/// `s` without markup: every character from a '<' to the next '>' (both
/// included) is dropped.
pub open spec fn stripped(s: Seq<char>, inside: bool) -> Seq<char>
    decreases s.len(),
{
    if s.len() == 0 {
        s
    } else if s[0] == '<' {
        stripped(s.drop_first(), true)
    } else if s[0] == '>' {
        stripped(s.drop_first(), false)
    } else if inside {
        stripped(s.drop_first(), true)
    } else {
        seq![s[0]] + stripped(s.drop_first(), false)
    }
}

/// The template filter that removes markup from a text.
pub fn striptags(value: String) -> (r: String)
    ensures
        r@ == stripped(value@, false),
{
    let cs = chars_of(value.as_str());
    let mut data: Vec<char> = Vec::new();
    let mut inside = false;
    assert(cs@.skip(0) =~= cs@);
    for i in 0..cs.len()
        invariant
            data@ + stripped(cs@.skip(i as int), inside) == stripped(cs@, false),
    {
        let c = cs[i];
        let ghost before = data@;
        proof {
            assert(cs@.skip(i as int).drop_first() =~= cs@.skip(i as int + 1));
        }
        if c == '<' {
            inside = true;
        } else if c == '>' {
            inside = false;
        } else if !inside {
            data.push(c);
            assert(before + (seq![c] + stripped(cs@.skip(i as int + 1), false)) =~= data@ + stripped(
                cs@.skip(i as int + 1),
                false,
            ));
        }
    }
    assert(cs@.skip(cs@.len() as int) =~= Seq::<char>::empty());
    assert(data@ + Seq::<char>::empty() =~= data@);
    string_of(&data)
}

/// The template filter that keeps the first `length` characters of a text.
pub fn truncate(value: &str, length: usize) -> (r: String)
    ensures
        r@ == if value@.len() <= length {
            value@
        } else {
            value@.take(length as int)
        },
{
    let cs = chars_of(value);
    if cs.len() <= length {
        return String::from_str(value);
    }
    let mut out: Vec<char> = Vec::new();
    for i in 0..length
        invariant
            length < cs.len(),
            out@ == cs@.take(i as int),
    {
        out.push(cs[i]);
        assert(out@ =~= cs@.take(i as int + 1));
    }
    string_of(&out)
}


/// The ordering key of a document: its date, undated documents last.
pub open spec fn date_key(p: Post) -> int {
    match p.date {
        Some(d) => d as int,
        None => -1,
    }
}

/// Document `x` comes before document `y` of `posts`: it is newer, or as new
/// and listed first.
pub open spec fn comes_before(posts: Seq<Post>, x: usize, y: usize) -> bool {
    date_key(posts[x as int]) > date_key(posts[y as int]) || (date_key(posts[x as int]) == date_key(
        posts[y as int],
    ) && x < y)
}

/// `order` lists each position of `posts` once, newest first; documents of
/// the same date keep the order they had.
pub open spec fn is_newest_first(posts: Seq<Post>, order: Seq<usize>) -> bool {
    &&& order.len() == posts.len()
    &&& forall|k: int| 0 <= k < order.len() ==> #[trigger] order[k] < posts.len()
    &&& forall|a: int, b: int|
        0 <= a < b < order.len() ==> comes_before(posts, #[trigger] order[a], #[trigger] order[b])
}

fn newer(p: &Post, q: &Post) -> (r: bool)
    ensures
        r == (date_key(*p) > date_key(*q)),
{
    match (p.date, q.date) {
        (Some(a), Some(b)) => a > b,
        (Some(_), None) => true,
        _ => false,
    }
}

/// The positions of `posts` in the order the site lists them: newest first,
/// undated last, documents of the same date in the order given.
pub fn newest_first(posts: &Vec<Post>) -> (r: Vec<usize>)
    ensures
        is_newest_first(posts@, r@),
{
    let mut out: Vec<usize> = Vec::new();
    let n = posts.len();
    for i in 0..n
        invariant
            n == posts.len(),
            out.len() == i,
            forall|k: int| 0 <= k < out@.len() ==> #[trigger] out@[k] < i,
            forall|a: int, b: int|
                0 <= a < b < out@.len() ==> comes_before(posts@, #[trigger] out@[a], #[trigger] out@[b]),
    {
        let mut pos: usize = 0;
        while pos < out.len() && !newer(&posts[i], &posts[out[pos]])
            invariant
                n == posts.len(),
                i < n,
                out.len() == i,
                pos <= out.len(),
                forall|k: int| 0 <= k < out@.len() ==> #[trigger] out@[k] < i,
                forall|k: int| 0 <= k < pos ==> comes_before(posts@, #[trigger] out@[k], i),
            decreases out.len() - pos,
        {
            pos = pos + 1;
        }
        let ghost old_out = out@;
        proof {
            if pos < out.len() {
                assert forall|k: int| pos <= k < old_out.len() implies comes_before(
                    posts@,
                    i,
                    #[trigger] old_out[k],
                ) by {
                    if k > pos {
                        assert(comes_before(posts@, old_out[pos as int], old_out[k]));
                    }
                }
            }
        }
        out.insert(pos, i);
        proof {
            let nw = out@;
            assert(nw == old_out.insert(pos as int, i));
            assert forall|k: int| 0 <= k < nw.len() implies #[trigger] nw[k] < i + 1 by {
                if k < pos {
                    assert(nw[k] == old_out[k]);
                } else if k > pos {
                    assert(nw[k] == old_out[k - 1]);
                }
            }
            assert forall|a: int, b: int| 0 <= a < b < nw.len() implies comes_before(
                posts@,
                #[trigger] nw[a],
                #[trigger] nw[b],
            ) by {
                if b < pos {
                    assert(nw[a] == old_out[a] && nw[b] == old_out[b]);
                } else if b == pos {
                    assert(nw[a] == old_out[a]);
                } else if a < pos {
                    assert(nw[a] == old_out[a] && nw[b] == old_out[b - 1]);
                } else if a == pos {
                    assert(nw[b] == old_out[b - 1]);
                } else {
                    assert(nw[a] == old_out[a - 1] && nw[b] == old_out[b - 1]);
                }
            }
        }
    }
    out
}

} // verus!
