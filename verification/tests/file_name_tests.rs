use media_sorter::file_name::extension_of;

#[test]
fn plain_extension_is_found() {
    assert_eq!(extension_of("photo.jpg"), Some("jpg".to_string()));
    assert_eq!(extension_of("clip.MOV"), Some("MOV".to_string()));
}

#[test]
fn last_dot_wins() {
    assert_eq!(extension_of("archive.tar.gz"), Some("gz".to_string()));
    assert_eq!(extension_of("a.b.c"), Some("c".to_string()));
}

#[test]
fn no_dot_means_no_extension() {
    assert_eq!(extension_of("noext"), None);
    assert_eq!(extension_of(""), None);
}

#[test]
fn hidden_files_have_no_extension() {
    assert_eq!(extension_of(".hidden"), None);
    assert_eq!(extension_of(".gitignore"), None);
}

#[test]
fn trailing_dot_gives_empty_extension() {
    assert_eq!(extension_of("trailing."), Some("".to_string()));
}
