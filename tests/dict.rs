use rtfcre::{Dictionary, Entry};

#[test]
fn entry_new_keeps_fields() {
    let e = Entry::new("TEFT", "test", Some("a note"));
    assert_eq!(e.steno, "TEFT");
    assert_eq!(e.translation, "test");
    assert_eq!(e.comment(), Some("a note".to_string()));
    let bare = Entry::new("TEFT", "test", None);
    assert_eq!(bare.comment(), None);
}

#[test]
fn entry_write_renders_rtf() {
    let mut out = String::new();
    Entry::new("TEFGT", "{^ing}", Some("inversion")).write(&mut out);
    assert_eq!(out, "{\\*\\cxs TEFGT}{\\*\\cxplvrortho}\\cxds ing{\\*\\cxcomment inversion}\n");
    let mut plain = String::new();
    Entry::new("TEFT", "test", None).write(&mut plain);
    assert_eq!(plain, "{\\*\\cxs TEFT}test\n");
}

#[test]
fn dictionary_add_lookup_remove() {
    let mut d = Dictionary::new("Test");
    d.add_entry("KAT".to_string(), "cat".to_string(), None);
    d.add_entry("KAT/KAT".to_string(), "cat cat".to_string(), Some("twice".to_string()));
    assert_eq!(d.len(), 2);
    assert!(d.contains_key("KAT"));
    assert_eq!(d.lookup("KAT"), Some("cat".to_string()));
    assert_eq!(d.longest_key, 2);
    d.remove_entry("KAT/KAT".to_string());
    assert_eq!(d.len(), 1);
    assert_eq!(d.longest_key, 1);
    assert!(!d.contains_key("KAT/KAT"));
    assert_eq!(d.lookup("KAT/KAT"), None);
}

#[test]
fn dictionary_reverse_lookup() {
    let mut d = Dictionary::new("Test");
    d.add_entry("TEFGT".to_string(), "testing".to_string(), None);
    d.add_entry("TEFT/-G".to_string(), "testing".to_string(), None);
    d.add_entry("TEFT".to_string(), "test".to_string(), None);
    assert_eq!(d.rev_lookup("testing"), Some(vec!["TEFGT".to_string(), "TEFT/-G".to_string()]));
    d.add_entry("TEFGT".to_string(), "tested".to_string(), None);
    assert_eq!(d.rev_lookup("testing"), Some(vec!["TEFT/-G".to_string()]));
    assert_eq!(d.rev_lookup("nothing"), None);
}

#[test]
fn dictionary_write_and_clear() {
    let mut d = Dictionary::new("Test");
    d.add_entry("TEFGT".to_string(), "testing".to_string(), Some("inversion".to_string()));
    let mut out = String::new();
    d.write(&mut out);
    assert_eq!(
        out,
        "{\\rtf1\\ansi{\\*\\cxrev100}\\cxdict{\\*\\cxsystem Test}{\\stylesheet{\\s0 Normal;\\s1 Contin;}}\n{\\*\\cxs TEFGT}testing{\\*\\cxcomment inversion}\n}\n"
    );
    d.clear();
    assert_eq!(d.len(), 0);
    assert_eq!(d.longest_key, 0);
    assert!(d.entry("TEFGT").is_none());
}

#[test]
fn written_dictionary_reads_back() {
    let mut d = Dictionary::new("Test");
    d.add_entry("-G".to_string(), "{^ing}".to_string(), None);
    d.add_entry("KAT".to_string(), "cat".to_string(), Some("animal".to_string()));
    let mut out = String::new();
    d.write(&mut out);
    let back = rtfcre::parse_rtf(&out).expect("parses");
    assert_eq!(back.len(), 2);
    assert_eq!(back.lookup("-G"), Some("{^ing}".to_string()));
    assert_eq!(back.entry("KAT").unwrap().comment(), Some("animal".to_string()));
}

#[test]
fn re_adding_an_outline_keeps_its_place() {
    let mut d = Dictionary::new("Test");
    d.add_entry("A".to_string(), "a".to_string(), None);
    d.add_entry("B".to_string(), "b".to_string(), None);
    d.add_entry("A".to_string(), "again".to_string(), None);
    assert_eq!(d.len(), 2);
    let keys: Vec<String> = d.entries.keys().cloned().collect();
    assert_eq!(keys, vec!["A".to_string(), "B".to_string()]);
    assert_eq!(d.lookup("A"), Some("again".to_string()));
    let mut out = String::new();
    d.write(&mut out);
    assert!(out.find("{\\*\\cxs A}again").unwrap() < out.find("{\\*\\cxs B}b").unwrap());
}

#[test]
fn removing_absent_outline_changes_nothing() {
    let mut d = Dictionary::new("Test");
    d.add_entry("A".to_string(), "a".to_string(), None);
    d.remove_entry("Z".to_string());
    assert_eq!(d.len(), 1);
    assert_eq!(d.lookup("A"), Some("a".to_string()));
}

#[test]
fn dictionary_debug_lists_entries() {
    let mut d = Dictionary::new("Test");
    d.add_entry("KAT".to_string(), "cat".to_string(), None);
    assert!(format!("{:?}", d).contains("KAT"));
}
