//! The remote catalog client: search and download addresses, and paging.
use vstd::prelude::*;
use crate::doc::{Doc, with_number};
use crate::text::{decimal, decimal_string};

verus! {

/// Page size of catalog searches.
pub const PAGESIZE: usize = 200;

/// Order in which the catalog is requested, by publication date.
pub enum SortOrder {
    Ascending,
    Descending,
}

/// The sort key sent for `order`.
pub open spec fn sort_key(order: SortOrder) -> Seq<char> {
    match order {
        SortOrder::Ascending => "publicdate asc"@,
        SortOrder::Descending => "publicdate desc"@,
    }
}

/// The subject clause of a search: present only for a non-empty subject.
pub open spec fn subject_filter(subject: Option<String>) -> Seq<char> {
    match subject {
        Some(s) => if s@.len() > 0 {
            "AND subject:("@ + s@ + ")"@
        } else {
            Seq::empty()
        },
        None => Seq::empty(),
    }
}

/// The fields a search asks for.
pub open spec fn search_fields() -> Seq<char> {
    "fl[]=description&fl[]=downloads&fl[]=identifier&fl[]=item_size&fl[]=name&fl[]=publicdate&fl[]=publisher&fl[]=subject&fl[]=title"@
}

/// The address of one page of the search for the audio items of `creator`
/// published since `since`.
pub open spec fn search_url(
    creator: Seq<char>,
    subject: Option<String>,
    since: Seq<char>,
    rows: nat,
    page: nat,
    order: SortOrder,
) -> Seq<char> {
    "https://archive.org/advancedsearch.php?q=creator:("@ + creator + ") AND date:["@ + since
        + " TO 9999-12-31] AND mediatype:(audio) AND format:(VBR MP3) "@ + subject_filter(subject)
        + " &"@ + search_fields() + "&sort[]="@ + sort_key(order) + "&output=json&rows="@
        + decimal(rows) + "&page="@ + decimal(page)
}

/// The address of a document of item `identifier`: `suffix` is `_files.xml`
/// or `_meta.xml`.
pub open spec fn download_url(identifier: Seq<char>, suffix: Seq<char>) -> Seq<char> {
    "https://archive.org/download/"@ + identifier + "/"@ + identifier + suffix
}

/// A client of the catalog of one creator.
pub struct ArchiveOrg {
    pub creator: String,
    pub link: String,
    pub subject: Option<String>,
}

impl ArchiveOrg {
    pub fn new(creator: &str, link: &str, subject: Option<String>) -> (r: ArchiveOrg)
        ensures
            r.creator@ == creator@,
            r.link@ == link@,
            r.subject == subject,
    {
        ArchiveOrg { creator: String::from_str(creator), link: String::from_str(link), subject }
    }

    /// The address of page `page` of this creator's catalog.
    pub fn page_url(&self, since: &str, page: usize, order: SortOrder) -> (r: String)
        ensures
            r@ == search_url(self.creator@, self.subject, since@, PAGESIZE as nat, page as nat, order),
    {
        let mut u = String::from_str("https://archive.org/advancedsearch.php?q=creator:(");
        u.append(self.creator.as_str());
        u.append(") AND date:[");
        u.append(since);
        u.append(" TO 9999-12-31] AND mediatype:(audio) AND format:(VBR MP3) ");
        match &self.subject {
            Some(s) => {
                if s.as_str().is_empty() {
                    proof {
                        assert(u@ + Seq::<char>::empty() =~= u@);
                    }
                } else {
                    u.append("AND subject:(");
                    u.append(s.as_str());
                    u.append(")");
                    proof {
                        let b = u@.take(u@.len() - (("AND subject:("@ + s@ + ")"@).len()));
                        assert(b + ("AND subject:("@ + s@ + ")"@) =~= b + "AND subject:("@ + s@ + ")"@);
                    }
                }
            },
            None => {
                proof {
                    assert(u@ + Seq::<char>::empty() =~= u@);
                }
            },
        }
        u.append(" &");
        u.append("fl[]=description&fl[]=downloads&fl[]=identifier&fl[]=item_size&fl[]=name&fl[]=publicdate&fl[]=publisher&fl[]=subject&fl[]=title");
        u.append("&sort[]=");
        match order {
            SortOrder::Ascending => u.append("publicdate asc"),
            SortOrder::Descending => u.append("publicdate desc"),
        }
        u.append("&output=json&rows=");
        let rows = decimal_string(PAGESIZE as u64);
        u.append(rows.as_str());
        u.append("&page=");
        let p = decimal_string(page as u64);
        u.append(p.as_str());
        u
    }

    /// The address of the file listing of item `identifier`.
    pub fn files_url(identifier: &str) -> (r: String)
        ensures
            r@ == download_url(identifier@, "_files.xml"@),
    {
        let mut u = String::from_str("https://archive.org/download/");
        u.append(identifier);
        u.append("/");
        u.append(identifier);
        u.append("_files.xml");
        u
    }

    /// The address of the metadata document of item `identifier`.
    pub fn meta_url(identifier: &str) -> (r: String)
        ensures
            r@ == download_url(identifier@, "_meta.xml"@),
    {
        let mut u = String::from_str("https://archive.org/download/");
        u.append(identifier);
        u.append("/");
        u.append(identifier);
        u.append("_meta.xml");
        u
    }
}


/// The entries of page `page` with their positions in the whole catalog:
/// entry `i` of the page gets `(page - 1) * size + i + 1`.
pub open spec fn page_entries(docs: Seq<Doc>, page: nat, size: nat) -> Seq<Doc> {
    Seq::new(docs.len(), |i: int| with_number(docs[i], ((page - 1) * size + i + 1) as usize))
}

/// The state of a paging run after a page arrives, from (next page, entries
/// so far, finished): a page longer than `size` ends the run and is dropped;
/// otherwise its entries are added, and the run goes on to the next page
/// while `start + size < num_found` and that page's positions fit a `usize`.
pub open spec fn pager_step(
    page: nat,
    entries: Seq<Doc>,
    size: nat,
    num_found: nat,
    start: nat,
    docs: Seq<Doc>,
) -> (nat, Seq<Doc>, bool) {
    if docs.len() > size {
        (page, entries, true)
    } else {
        let more = start + size < num_found && (page + 1) * size <= usize::MAX;
        (if more {
            page + 1
        } else {
            page
        }, entries + page_entries(docs, page, size), !more)
    }
}

/// Collects a whole catalog page by page. The caller asks for `next_page`,
/// fetches it, and hands over what came back.
pub struct Paginator {
    pub page_size: usize,
    pub page: usize,
    pub entries: Vec<Doc>,
    pub done: bool,
}

impl Paginator {
    /// (next page, entries so far, finished).
    pub open spec fn model(&self) -> (nat, Seq<Doc>, bool) {
        (self.page as nat, self.entries@, self.done)
    }

    pub open spec fn wf(&self) -> bool {
        &&& self.page_size > 0
        &&& self.page >= 1
        &&& self.page * self.page_size <= usize::MAX
    }

    /// A run that has fetched nothing yet and will ask for page 1.
    pub fn new(page_size: usize) -> (r: Paginator)
        requires
            page_size > 0,
        ensures
            r.wf(),
            r.page_size == page_size,
            r.model() == (1nat, Seq::<Doc>::empty(), false),
    {
        Paginator { page_size, page: 1, entries: Vec::new(), done: false }
    }

    /// The page to fetch next, or `None` once the run is over.
    pub fn next_page(&self) -> (r: Option<usize>)
        ensures
            r == if self.done {
                None
            } else {
                Some(self.page)
            },
    {
        if self.done {
            None
        } else {
            Some(self.page)
        }
    }

    /// Takes the page that was asked for: what the catalog reported as the
    /// total (`num_found`), the offset of the page (`start`) and its entries.
    pub fn on_page(&mut self, num_found: u64, start: u64, docs: Vec<Doc>)
        requires
            old(self).wf(),
            !old(self).done,
        ensures
            final(self).wf(),
            final(self).page_size == old(self).page_size,
            final(self).model() == pager_step(
                old(self).page as nat,
                old(self).entries@,
                old(self).page_size as nat,
                num_found as nat,
                start as nat,
                docs@,
            ),
    {
        let size = self.page_size;
        if docs.len() > size {
            self.done = true;
            return;
        }
        proof {
            assert((self.page - 1) * size + size == self.page * size) by (nonlinear_arith);
        }
        let cur = self.page * size;
        let base = cur - size;
        let ghost old_entries = self.entries@;
        let mut docs = docs;
        let ghost all = docs@;
        let n = docs.len();
        let mut i: usize = 0;
        while i < n
            invariant
                n == all.len() <= size,
                base + size <= usize::MAX,
                base == (self.page - 1) * size,
                i <= n,
                docs@ == all.subrange(i as int, n as int),
                self.entries@ == old_entries + page_entries(all, self.page as nat, size as nat).take(
                    i as int,
                ),
                self.wf(),
                self.page_size == size,
                !self.done,
                cur == self.page * size,
                self.page == old(self).page,
                old_entries == old(self).entries@,
            decreases n - i,
        {
            let mut d = docs.remove(0);
            d.set_number(base + i + 1);
            self.entries.push(d);
            proof {
                assert(docs@ =~= all.subrange(i as int + 1, n as int));
                assert(self.entries@ =~= old_entries + page_entries(all, self.page as nat, size as nat).take(
                    i as int + 1,
                ));
            }
            i = i + 1;
        }
        assert(page_entries(all, self.page as nat, size as nat).take(n as int) =~= page_entries(
            all,
            self.page as nat,
            size as nat,
        ));
        let more = (start as u128) + (size as u128) < (num_found as u128) && size <= usize::MAX - cur;
        proof {
            assert((self.page + 1) * size == cur + size) by (nonlinear_arith)
                requires
                    cur == self.page * size,
            ;
        }
        assert(more == ((start as nat) + size < num_found as nat && (self.page + 1) * size <= usize::MAX));
        let ghost old_page = self.page;
        let ghost added = self.entries@;
        assert(added == old_entries + page_entries(all, old_page as nat, size as nat));
        if more {
            proof {
                assert(self.page + 1 <= (self.page + 1) * size) by (nonlinear_arith)
                    requires
                        size >= 1,
                ;
            }
            self.page = self.page + 1;
        } else {
            self.done = true;
        }
        assert(self.model() == pager_step(old_page as nat, old_entries, size as nat, num_found as nat, start as nat, all));
    }

    /// The page asked for could not be had: the run ends with what it has.
    pub fn on_failure(&mut self)
        ensures
            final(self).page_size == old(self).page_size,
            final(self).model() == (old(self).page as nat, old(self).entries@, true),
    {
        self.done = true;
    }
}

/// The reply of a catalog of entries `catalog` to a request for page `page`
/// with `size` entries a page.
pub open spec fn mock_page(catalog: Seq<Doc>, size: nat, page: nat) -> Seq<Doc> {
    let k = catalog.len() as int;
    let lo = if (page - 1) * size <= k {
        (page - 1) * size
    } else {
        k
    };
    let hi = if page * size <= k {
        (page * size) as int
    } else {
        k
    };
    catalog.subrange(lo as int, hi as int)
}

/// A paging run against the catalog `catalog` after `n` requests (none once it
/// is finished).
pub open spec fn mock_run(catalog: Seq<Doc>, size: nat, n: nat) -> (nat, Seq<Doc>, bool)
    decreases n,
{
    if n == 0 {
        (1nat, Seq::<Doc>::empty(), false)
    } else {
        let prev = mock_run(catalog, size, (n - 1) as nat);
        if prev.2 {
            prev
        } else {
            pager_step(
                prev.0,
                prev.1,
                size,
                catalog.len(),
                ((prev.0 - 1) * size) as nat,
                mock_page(catalog, size, prev.0),
            )
        }
    }
}

/// The entries of `catalog` with positions 1, 2, ... in order.
pub open spec fn numbered(catalog: Seq<Doc>) -> Seq<Doc> {
    Seq::new(catalog.len(), |i: int| with_number(catalog[i], (i + 1) as usize))
}

proof fn lemma_run_prefix(catalog: Seq<Doc>, size: nat, j: nat)
    requires
        size > 0,
        j * size < catalog.len(),
        catalog.len() + size <= usize::MAX,
    ensures
        mock_run(catalog, size, j) == ((j + 1) as nat, numbered(catalog.take((j * size) as int)), false),
    decreases j,
{
    if j == 0 {
        assert(0 * size == 0);
        assert(numbered(catalog.take(0)) =~= Seq::<Doc>::empty());
    } else {
        let pj = (j - 1) as nat;
        assert(pj * size < j * size) by (nonlinear_arith)
            requires
                pj + 1 == j,
                size > 0,
        ;
        lemma_run_prefix(catalog, size, pj);
        let docs = mock_page(catalog, size, j);
        assert(j * size == pj * size + size) by (nonlinear_arith)
            requires
                pj + 1 == j,
        ;
        assert((j + 1) * size == j * size + size) by (nonlinear_arith);
        assert(docs =~= catalog.subrange((pj * size) as int, (j * size) as int));
        let prev = mock_run(catalog, size, pj);
        assert(prev.0 == j && !prev.2);
        assert(mock_run(catalog, size, j) == pager_step(j, prev.1, size, catalog.len(), (pj * size) as nat, docs));
        assert(docs.len() == size);
        assert((pj * size) as nat + size < catalog.len());
        assert((j + 1) * size <= usize::MAX);
        assert(mock_run(catalog, size, j).0 == j + 1);
        assert(mock_run(catalog, size, j).2 == false);
        assert(mock_run(catalog, size, j).1 == prev.1 + page_entries(docs, j, size));
        assert(numbered(catalog.take((pj * size) as int)) + page_entries(docs, j, size) =~= numbered(
            catalog.take((j * size) as int),
        ));
    }
}

/// Paging through a catalog of `k > 0` entries, `size` to a page, takes
/// exactly `ceil(k / size)` requests and yields every entry once, in
/// catalog order, numbered 1 to `k`.
pub proof fn lemma_pagination_complete(catalog: Seq<Doc>, size: nat)
    requires
        size > 0,
        catalog.len() > 0,
        catalog.len() + size <= usize::MAX,
    ensures
        ({
            let n = ((catalog.len() + size - 1) as int / size as int) as nat;
            &&& n >= 1
            &&& !mock_run(catalog, size, (n - 1) as nat).2
            &&& mock_run(catalog, size, n).2
            &&& mock_run(catalog, size, n).1 == numbered(catalog)
        }),
{
    let k = catalog.len();
    let n = ((k + size - 1) as int / size as int) as nat;
    assert(n >= 1 && (n - 1) * size < k && k <= n * size) by (nonlinear_arith)
        requires
            n == (k + size - 1) as int / size as int,
            size > 0,
            k > 0,
    ;
    let m = (n - 1) as nat;
    lemma_run_prefix(catalog, size, m);
    assert(n * size == m * size + size) by (nonlinear_arith)
        requires
            m + 1 == n,
    ;
    let docs = mock_page(catalog, size, n);
    assert(docs =~= catalog.subrange((m * size) as int, k as int));
    assert(numbered(catalog.take((m * size) as int)) + page_entries(docs, n, size) =~= numbered(catalog));
}

} // verus!
