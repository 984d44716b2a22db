use podsite::doc::Doc;
use podsite::episode::{Episode, Metadata as EpisodeMetadata, VERSION};
use podsite::front::{compose_document, split_document, FrontMatter};
use podsite::metadata::Metadata;
use podsite::mp3metadata::Mp3Metadata;
use podsite::sync::{create_entry, plan_entry, LocalRecord, Plan};

fn mp3(title: &str, comment: &str) -> Mp3Metadata {
    Mp3Metadata {
        filename: "a.mp3".to_string(),
        mtime: "1000".to_string(),
        size: "2048".to_string(),
        length: "61.5".to_string(),
        title: title.to_string(),
        creator: String::new(),
        album: String::new(),
        track: String::new(),
        artist: String::new(),
        genre: String::new(),
        comment: comment.to_string(),
    }
}

fn meta(description: &str) -> Metadata {
    Metadata { identifier: "ep42".to_string(), description: description.to_string() }
}

fn doc(identifier: &str, downloads: u64) -> Doc {
    Doc::new(identifier.to_string(), vec!["linux".to_string()], String::new(), downloads)
}

#[test]
fn merge_title_falls_back_to_identifier() {
    let e = Episode::combine(&doc("ep42", 1), &meta("Body"), &mp3("", ""));
    assert_eq!(e.metadata.title, "ep42");
    assert_eq!(e.get_slug(), "ep42");
}

#[test]
fn merge_title_from_audio_tags() {
    let e = Episode::combine(&doc("ep42", 1), &meta("Body"), &mp3("Real Title", ""));
    assert_eq!(e.metadata.title, "Real Title");
    assert_eq!(e.get_slug(), "real-title");
}

#[test]
fn merge_excerpt_precedence() {
    let e = Episode::combine(&doc("ep42", 1), &meta("First line\nSecond line"), &mp3("", "Tagged"));
    assert_eq!(e.metadata.excerpt, "Tagged");
    let e = Episode::combine(&doc("ep42", 1), &meta("First line\nSecond line"), &mp3("", ""));
    assert_eq!(e.metadata.excerpt, "First line");
    assert_eq!(e.content, "First line\nSecond line");
    assert_eq!(e.metadata.mtime, 1000);
    assert_eq!(e.metadata.size, 2048);
    assert_eq!(e.metadata.length, 61);
    assert_eq!(e.metadata.version, VERSION);
    assert_eq!(e.get_filename(), "episodes/ep42.md");
}

fn stored(version: usize, downloads: u64) -> Episode {
    let mut e = Episode::combine(&doc("ep1", downloads), &meta("Body"), &mp3("T", ""));
    e.metadata.version = version;
    e
}

#[test]
fn old_layout_is_rewritten() {
    match plan_entry(&doc("ep1", 7), LocalRecord::Present(stored(0, 7))) {
        Plan::Persist(e) => {
            assert_eq!(e.get_version(), VERSION);
            assert_eq!(e.get_downloads(), 7);
        },
        _ => panic!("a record of layout 0 must be written again"),
    }
}

#[test]
fn changed_downloads_are_written() {
    match plan_entry(&doc("ep1", 9), LocalRecord::Present(stored(VERSION, 7))) {
        Plan::Persist(e) => assert_eq!(e.get_downloads(), 9),
        _ => panic!("changed downloads must be written"),
    }
}

#[test]
fn fresh_record_is_kept() {
    assert!(matches!(plan_entry(&doc("ep1", 7), LocalRecord::Present(stored(VERSION, 7))), Plan::Keep));
    assert!(matches!(plan_entry(&doc("ep1", 7), LocalRecord::Unreadable), Plan::Skip));
    assert!(matches!(plan_entry(&doc("ep1", 7), LocalRecord::Absent), Plan::Fetch));
}

#[test]
fn second_run_writes_nothing() {
    let d = doc("ep1", 12);
    let after = match plan_entry(&d, LocalRecord::Present(stored(0, 3))) {
        Plan::Persist(e) => e,
        _ => panic!("first run must write"),
    };
    assert!(matches!(plan_entry(&d, LocalRecord::Present(after)), Plan::Keep));
    let created = create_entry(&d, Some(meta("Body")), Some(mp3("", ""))).unwrap();
    assert!(matches!(plan_entry(&d, LocalRecord::Present(created)), Plan::Keep));
}

#[test]
fn creation_needs_both_fetches() {
    let d = doc("ep1", 1);
    assert!(create_entry(&d, None, Some(mp3("", ""))).is_none());
    assert!(create_entry(&d, Some(meta("x")), None).is_none());
    assert!(create_entry(&d, Some(meta("x")), Some(mp3("", ""))).is_some());
}

#[test]
fn end_to_end_new_entry() {
    let d = doc("show-1", 10);
    let meta_doc = "<metadata><identifier>show-1</identifier><description>&lt;p&gt;Hello&lt;/p&gt;</description></metadata>";
    let files_doc = "<files>\n  <file name=\"a.mp3\" source=\"original\">\n    <mtime>1000</mtime>\n    <title></title>\n    <comment></comment>\n  </file>\n</files>\n";
    let mut notified = 0;
    let mut written = Vec::new();
    match plan_entry(&d, LocalRecord::Absent) {
        Plan::Fetch => {
            let m = Metadata::new(meta_doc);
            let a = Mp3Metadata::new(files_doc);
            if let Some(e) = create_entry(&d, m, a) {
                written.push(e);
                notified += 1;
            }
        },
        _ => panic!("a new entry must be fetched"),
    }
    assert_eq!(written.len(), 1);
    assert_eq!(notified, 1);
    let e = &written[0];
    assert_eq!(e.metadata.title, "show-1");
    assert_eq!(e.get_slug(), "show-1");
    assert_eq!(e.metadata.excerpt, "Hello");
    assert_eq!(e.get_downloads(), 10);
    assert_eq!(e.metadata.filename, "a.mp3");
    assert_eq!(e.metadata.mtime, 1000);
}

fn bare(slug: &str, excerpt: &str) -> EpisodeMetadata {
    EpisodeMetadata {
        version: 1,
        number: 1,
        identifier: "ep1".to_string(),
        title: "Título Uno".to_string(),
        subject: vec![],
        downloads: 0,
        filename: "a.mp3".to_string(),
        mtime: 0,
        size: 0,
        length: 0,
        excerpt: excerpt.to_string(),
        slug: slug.to_string(),
    }
}

#[test]
fn reading_fills_slug_and_excerpt() {
    let front = FrontMatter { matter: String::new(), content: "one two three".to_string(), excerpt: None };
    let (e, save) = Episode::from_parts(bare("", ""), front);
    assert!(save);
    assert_eq!(e.get_slug(), "titulo-uno");
    assert_eq!(e.metadata.excerpt, "one two three");
    let front = FrontMatter { matter: String::new(), content: "body".to_string(), excerpt: Some("Marked".to_string()) };
    let (e, save) = Episode::from_parts(bare("s", ""), front);
    assert!(save);
    assert_eq!(e.metadata.excerpt, "Marked");
    let front = FrontMatter { matter: String::new(), content: "body".to_string(), excerpt: None };
    let (e, save) = Episode::from_parts(bare("s", "kept"), front);
    assert!(!save);
    assert_eq!(e.metadata.excerpt, "kept");
}

#[test]
fn documents_split_and_compose() {
    let text = compose_document("title: x\n", "Body text\n");
    assert_eq!(text, "---\ntitle: x\n---\nBody text\n");
    let parts = split_document(&text);
    assert_eq!(parts.matter, "title: x");
    assert_eq!(parts.content, "Body text");
}

#[test]
fn episode_post() {
    let e = stored(1, 4);
    let p = e.get_post();
    assert_eq!(p.date, Some(1000));
    assert!(p.content.contains("<p>Body</p>"));
    assert_eq!(p.downloads, 4);
}
