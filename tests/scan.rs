use podsite::metadata::Metadata;
use podsite::mp3metadata::{whole_number, Mp3Metadata};

const FILES: &str = r#"<?xml version="1.0" encoding="UTF-8"?>
<files>
  <file name="cover.jpg" source="original">
    <mtime>900</mtime>
    <size>12</size>
  </file>
  <file name="show-1.mp3" source="original">
    <mtime>1000</mtime>
    <size>5242880</size>
    <length>1834.52</length>
    <title>Real Title</title>
    <creator>Papa Friki</creator>
    <album>Podcast</album>
    <track>7</track>
    <artist>Lorenzo</artist>
    <genre>Podcast</genre>
    <comment>A comment</comment>
  </file>
  <file name="show-1.ogg" source="derivative">
    <title>Other</title>
  </file>
</files>
"#;

#[test]
fn audio_block_is_isolated() {
    let m = Mp3Metadata::new(FILES).unwrap();
    assert_eq!(m.filename, "show-1.mp3");
    assert_eq!(m.mtime, "1000");
    assert_eq!(m.size, "5242880");
    assert_eq!(m.length, "1834.52");
    assert_eq!(m.title, "Real Title");
    assert_eq!(m.creator, "Papa Friki");
    assert_eq!(m.track, "7");
    assert_eq!(m.comment, "A comment");
    assert_eq!(m.mtime_secs(), 1000);
    assert_eq!(m.size_bytes(), 5242880);
    assert_eq!(m.length_secs(), 1834);
}

#[test]
fn no_audio_block_gives_none() {
    let doc = "<files>\n  <file name=\"cover.jpg\" source=\"original\">\n  </file>\n</files>\n";
    assert!(Mp3Metadata::new(doc).is_none());
    assert!(Mp3Metadata::new("").is_none());
}

#[test]
fn missing_tags_are_empty() {
    let doc = "  <file name=\"a.mp3\" source=\"original\">\r\n    <mtime>1000</mtime>\r\n  </file>\r\n";
    let m = Mp3Metadata::new(doc).unwrap();
    assert_eq!(m.filename, "a.mp3");
    assert_eq!(m.mtime, "1000");
    assert_eq!(m.title, "");
    assert_eq!(m.comment, "");
}

#[test]
fn tag_values_in_order() {
    let xml = "<a>1</a> <a>x<b></a> <a>2</a><a></a>";
    let v = Metadata::get("a", xml);
    assert_eq!(v, vec!["1".to_string(), "2".to_string(), "".to_string()]);
    assert_eq!(Mp3Metadata::get("a", xml).len(), 3);
    assert_eq!(Mp3Metadata::get_value("missing", xml), "");
    assert_eq!(Mp3Metadata::get_value("a", xml), "1");
}

#[test]
fn descriptive_metadata_is_decoded() {
    let doc = "<metadata>\n<identifier>show-1</identifier>\n<description>&lt;p&gt;Hello &amp; welcome&lt;/p&gt;</description>\n</metadata>";
    let m = Metadata::new(doc).unwrap();
    assert_eq!(m.identifier, "show-1");
    assert_eq!(m.description.trim(), "Hello & welcome");
}

#[test]
fn descriptive_metadata_needs_both_tags() {
    assert!(Metadata::new("<identifier>x</identifier>").is_none());
    assert!(Metadata::new("<description>x</description>").is_none());
}

#[test]
fn numbers_are_read() {
    assert_eq!(whole_number("42"), 42);
    assert_eq!(whole_number("42.9"), 42);
    assert_eq!(whole_number("x42"), 0);
    assert_eq!(whole_number(""), 0);
    assert_eq!(whole_number("18446744073709551615"), u64::MAX);
    assert_eq!(whole_number("18446744073709551616"), 0);
}
