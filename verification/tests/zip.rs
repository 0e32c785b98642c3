use installer::util::zip::{unzip_file, unzip_to, ArchiveEntry, EntryKind, EntryPlan};

fn entry(name: &str, unix_mode: Option<u32>) -> ArchiveEntry {
    ArchiveEntry { name: name.to_string(), sanitized_name: name.to_string(), unix_mode }
}

fn plan(kind: EntryKind, path: &str, parent: &str, mode: Option<u32>) -> EntryPlan {
    EntryPlan { kind, path: path.to_string(), parent: parent.to_string(), mode }
}

#[test]
fn zip_unzip_to_success() {
    let entries = vec![entry("test_folder/", None), entry("test_folder/hello_world.txt", None)];
    assert_eq!(
        vec![
            plan(EntryKind::Directory, "another/folder/test_folder/", "another/folder/test_folder", None),
            plan(
                EntryKind::File,
                "another/folder/test_folder/hello_world.txt",
                "another/folder/test_folder",
                None
            ),
        ],
        unzip_to("another/folder", &entries)
    );
}

#[test]
fn unzip_of_an_empty_archive() {
    assert!(unzip_to("prod/jdk/11", &Vec::new()).is_empty());
}

#[test]
fn unzip_keeps_permissions() {
    assert_eq!(
        plan(EntryKind::File, "prod/jdk/11/jdk-11/bin/java", "prod/jdk/11/jdk-11/bin", Some(0o755)),
        unzip_file("prod/jdk/11", &entry("jdk-11/bin/java", Some(0o755)))
    );
    assert_eq!(
        plan(EntryKind::Directory, "prod/jdk/11/jdk-11/", "prod/jdk/11/jdk-11", Some(0o40755)),
        unzip_file("prod/jdk/11", &entry("jdk-11/", Some(0o40755)))
    );
}

#[test]
fn unzip_goes_by_the_sanitized_name() {
    let unsafe_entry = ArchiveEntry {
        name: "../../etc/passwd".to_string(),
        sanitized_name: "etc/passwd".to_string(),
        unix_mode: None,
    };
    assert_eq!(
        plan(EntryKind::File, "prod/etc/passwd", "prod/etc", None),
        unzip_file("prod", &unsafe_entry)
    );
    let top = entry("README", None);
    assert_eq!(plan(EntryKind::File, "prod/README", "prod", None), unzip_file("prod", &top));
    let nameless = entry("", None);
    assert_eq!(plan(EntryKind::File, "/", "", None), unzip_file("", &nameless));
}
