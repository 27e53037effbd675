use wasm_loader::path::{file_stem, is_guest_binary};
use wasm_loader::source::{notices, DirectoryEntry, LoadStatus};

fn entry(path: &str, canonical: Option<&str>, contents: Option<&[u8]>) -> DirectoryEntry {
    DirectoryEntry {
        path: path.to_string(),
        canonical: canonical.map(|p| p.to_string()),
        contents: contents.map(|b| b.to_vec()),
    }
}

#[test]
fn guest_binary_has_the_wasm_extension() {
    assert!(is_guest_binary("hello.wasm"));
    assert!(is_guest_binary("/opt/guests/hello.wasm"));
    assert!(is_guest_binary("relative/dir/a.b.wasm"));
    assert!(is_guest_binary("dir.d/x.wasm"));
}

#[test]
fn other_extensions_are_no_guest_binaries() {
    assert!(!is_guest_binary("hello.txt"));
    assert!(!is_guest_binary("hello.wat"));
    assert!(!is_guest_binary("hello.wasm.bak"));
    assert!(!is_guest_binary("hello.WASM"));
    assert!(!is_guest_binary("hello.wasmx"));
    assert!(!is_guest_binary("hello.was"));
    assert!(!is_guest_binary("hello"));
    assert!(!is_guest_binary("wasm"));
    assert!(!is_guest_binary("dir.wasm/hello"));
}

#[test]
fn a_leading_dot_starts_no_extension() {
    assert!(!is_guest_binary(".wasm"));
    assert!(!is_guest_binary("/opt/guests/.wasm"));
    assert!(is_guest_binary("/opt/guests/..wasm"));
    assert!(is_guest_binary(".hidden.wasm"));
}

#[test]
fn a_path_without_file_name_is_no_guest_binary() {
    assert!(!is_guest_binary(""));
    assert!(!is_guest_binary("/"));
    assert!(!is_guest_binary("dir/"));
    assert!(!is_guest_binary("."));
    assert!(!is_guest_binary(".."));
    assert!(!is_guest_binary("dir/.."));
    assert!(!is_guest_binary("hello.wasm/"));
}

#[test]
fn file_stem_strips_directory_and_extension() {
    assert_eq!(file_stem("/opt/guests/hello.wasm"), Some("hello".to_string()));
    assert_eq!(file_stem("hello.wasm"), Some("hello".to_string()));
    assert_eq!(file_stem("a/b/c.d/name.tar.gz"), Some("name.tar".to_string()));
    assert_eq!(file_stem("/opt/guests/hello"), Some("hello".to_string()));
}

#[test]
fn file_stem_keeps_a_leading_dot() {
    assert_eq!(file_stem("/home/user/.profile"), Some(".profile".to_string()));
    assert_eq!(file_stem(".hidden.wasm"), Some(".hidden".to_string()));
    assert_eq!(file_stem("name."), Some("name".to_string()));
    assert_eq!(file_stem("..wasm"), Some(".".to_string()));
}

#[test]
fn file_stem_of_a_path_without_file_name_is_none() {
    assert_eq!(file_stem(""), None);
    assert_eq!(file_stem("/"), None);
    assert_eq!(file_stem("dir/"), None);
    assert_eq!(file_stem("."), None);
    assert_eq!(file_stem(".."), None);
    assert_eq!(file_stem("/opt/.."), None);
}

#[test]
fn file_stem_counts_characters_not_bytes() {
    assert_eq!(file_stem("/gäste/grüße.wasm"), Some("grüße".to_string()));
    assert!(is_guest_binary("/gäste/grüße.wasm"));
    assert!(!is_guest_binary("/gäste/grüße.wäsm"));
}

#[test]
fn module_name_is_the_stem_of_the_canonical_path() {
    let e = entry("guests/link.wasm", Some("/srv/modules/real.bin"), Some(b"x"));
    assert_eq!(e.module_name(), Some("real".to_string()));
    let e = entry("guests/hello.wasm", Some("/srv/guests/hello.wasm"), Some(b"x"));
    assert_eq!(e.module_name(), Some("hello".to_string()));
}

#[test]
fn module_name_needs_a_candidate() {
    let e = entry("guests/hello.txt", Some("/srv/guests/hello.txt"), Some(b"x"));
    assert_eq!(e.module_name(), None);
    let e = entry("guests/hello.wasm", None, Some(b"x"));
    assert_eq!(e.module_name(), None);
    let e = entry("guests/hello.wasm", Some("/srv/guests/hello.wasm"), None);
    assert_eq!(e.module_name(), None);
    let e = entry("guests/hello.wasm", Some("/"), Some(b"x"));
    assert_eq!(e.module_name(), None);
}

#[test]
fn notice_names_module_and_path() {
    let e = entry("guests/hello.wasm", Some("/srv/guests/hello.wasm"), Some(b"x"));
    assert_eq!(
        e.notice(),
        Some("register wasm module hello /srv/guests/hello.wasm".to_string())
    );
    let e = entry("guests/hello.txt", Some("/srv/guests/hello.txt"), Some(b"x"));
    assert_eq!(e.notice(), None);
}

#[test]
fn notices_list_the_registered_entries_in_order() {
    let entries = vec![
        entry("guests/b.wasm", Some("/srv/guests/b.wasm"), Some(b"x")),
        entry("guests/notes.txt", Some("/srv/guests/notes.txt"), Some(b"x")),
        entry("guests/a.wasm", Some("/srv/guests/a.wasm"), Some(b"x")),
        entry("guests/c.wasm", Some("/srv/guests/c.wasm"), Some(b"x")),
        entry("guests/d.wasm", Some("/srv/elsewhere/e.wasm"), Some(b"x")),
    ];
    let report = vec![
        LoadStatus::Registered,
        LoadStatus::Ignored,
        LoadStatus::Kept,
        LoadStatus::Rejected,
        LoadStatus::Registered,
    ];
    assert_eq!(
        notices(&entries, &report),
        vec![
            "register wasm module b /srv/guests/b.wasm".to_string(),
            "register wasm module e /srv/elsewhere/e.wasm".to_string(),
        ]
    );
}

#[test]
fn notices_of_an_empty_load_are_empty() {
    assert_eq!(notices(&Vec::new(), &Vec::new()), Vec::<String>::new());
    let entries = vec![entry("guests/a.wasm", Some("/srv/guests/a.wasm"), Some(b"x"))];
    assert_eq!(notices(&entries, &vec![LoadStatus::Rejected]), Vec::<String>::new());
}

#[test]
fn notices_pass_over_what_has_no_counterpart() {
    let entries = vec![
        entry("guests/a.wasm", Some("/srv/guests/a.wasm"), Some(b"x")),
        entry("guests/b.wasm", Some("/srv/guests/b.wasm"), Some(b"x")),
    ];
    assert_eq!(
        notices(&entries, &vec![LoadStatus::Registered]),
        vec!["register wasm module a /srv/guests/a.wasm".to_string()]
    );
    assert_eq!(
        notices(
            &entries[..1].to_vec(),
            &vec![LoadStatus::Registered, LoadStatus::Registered, LoadStatus::Registered]
        ),
        vec!["register wasm module a /srv/guests/a.wasm".to_string()]
    );
    assert_eq!(
        notices(&vec![entry("n.txt", None, None)], &vec![LoadStatus::Registered]),
        Vec::<String>::new()
    );
}
