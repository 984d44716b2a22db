use podsite::archive::{ArchiveOrg, Paginator, SortOrder, PAGESIZE};
use podsite::doc::Doc;

fn catalog(k: usize) -> Vec<Doc> {
    (0..k).map(|i| Doc::new(format!("item-{}", i), vec![], String::new(), i as u64)).collect()
}

fn page_of(all: &[Doc], size: usize, page: usize) -> Vec<Doc> {
    let lo = ((page - 1) * size).min(all.len());
    let hi = (page * size).min(all.len());
    all[lo..hi]
        .iter()
        .map(|d| Doc::new(d.identifier.clone(), d.subject.clone(), d.description.clone(), d.downloads))
        .collect()
}

fn run(k: usize, size: usize) -> (Vec<Doc>, usize) {
    let all = catalog(k);
    let mut p = Paginator::new(size);
    let mut requests = 0;
    while let Some(page) = p.next_page() {
        requests += 1;
        let docs = page_of(&all, size, page);
        p.on_page(k as u64, ((page - 1) * size) as u64, docs);
    }
    (p.entries, requests)
}

#[test]
fn pagination_is_complete() {
    for (k, size) in [(450, 200), (400, 200), (1, 200), (7, 3), (9, 3)] {
        let (entries, requests) = run(k, size);
        assert_eq!(requests, (k + size - 1) / size);
        assert_eq!(entries.len(), k);
        for (i, d) in entries.iter().enumerate() {
            assert_eq!(d.get_number(), i + 1);
            assert_eq!(d.get_identifier(), format!("item-{}", i));
        }
    }
}

#[test]
fn empty_catalog_takes_one_request() {
    let (entries, requests) = run(0, PAGESIZE);
    assert_eq!(requests, 1);
    assert!(entries.is_empty());
}

#[test]
fn failed_page_ends_the_run() {
    let mut p = Paginator::new(2);
    p.on_page(5, 0, catalog(2));
    assert_eq!(p.next_page(), Some(2));
    p.on_failure();
    assert_eq!(p.next_page(), None);
    assert_eq!(p.entries.len(), 2);
}

#[test]
fn oversized_page_is_dropped() {
    let mut p = Paginator::new(2);
    p.on_page(5, 0, catalog(3));
    assert_eq!(p.next_page(), None);
    assert!(p.entries.is_empty());
}

#[test]
fn search_address() {
    let c = ArchiveOrg::new("Papá Friki", "papafriki", None);
    let u = c.page_url("1970-01-01", 2, SortOrder::Ascending);
    assert_eq!(
        u,
        "https://archive.org/advancedsearch.php?q=creator:(Papá Friki) AND date:[1970-01-01 TO 9999-12-31] AND mediatype:(audio) AND format:(VBR MP3)  &fl[]=description&fl[]=downloads&fl[]=identifier&fl[]=item_size&fl[]=name&fl[]=publicdate&fl[]=publisher&fl[]=subject&fl[]=title&sort[]=publicdate asc&output=json&rows=200&page=2"
    );
    let c = ArchiveOrg::new("X", "x", Some("linux".to_string()));
    let u = c.page_url("2022-12-01", 10, SortOrder::Descending);
    assert!(u.contains("format:(VBR MP3) AND subject:(linux) &fl[]="));
    assert!(u.ends_with("&sort[]=publicdate desc&output=json&rows=200&page=10"));
    let c = ArchiveOrg::new("X", "x", Some(String::new()));
    assert!(!c.page_url("a", 1, SortOrder::Ascending).contains("subject:("));
}

#[test]
fn download_addresses() {
    assert_eq!(ArchiveOrg::files_url("ep1"), "https://archive.org/download/ep1/ep1_files.xml");
    assert_eq!(ArchiveOrg::meta_url("ep1"), "https://archive.org/download/ep1/ep1_meta.xml");
}

#[test]
fn doc_accessors() {
    let mut d = Doc::new("ep1".to_string(), vec!["linux".to_string()], "d".to_string(), 5);
    assert_eq!(d.get_number(), 0);
    d.set_number(3);
    assert_eq!(d.get_number(), 3);
    assert_eq!(d.get_filename(), "ep1.md");
    assert_eq!(d.get_subject(), vec!["linux".to_string()]);
    assert_eq!(d.get_description(), "d");
    assert_eq!(d.get_downloads(), 5);
}
