use media_sorter::classify::{classify, Category};

#[test]
fn photo_extensions_lowercase() {
    assert_eq!(classify("jpg"), Some(Category::Photos));
    assert_eq!(classify("jpeg"), Some(Category::Photos));
    assert_eq!(classify("png"), Some(Category::Photos));
}

#[test]
fn video_extensions_lowercase() {
    assert_eq!(classify("mov"), Some(Category::Videos));
    assert_eq!(classify("mp4"), Some(Category::Videos));
    assert_eq!(classify("avi"), Some(Category::Videos));
    assert_eq!(classify("mkv"), Some(Category::Videos));
    assert_eq!(classify("mpg"), Some(Category::Videos));
}

#[test]
fn classification_is_case_insensitive() {
    assert_eq!(classify("JPG"), Some(Category::Photos));
    assert_eq!(classify("JpEg"), Some(Category::Photos));
    assert_eq!(classify("PnG"), Some(Category::Photos));
    assert_eq!(classify("MoV"), Some(Category::Videos));
    assert_eq!(classify("MP4"), Some(Category::Videos));
    assert_eq!(classify("Avi"), Some(Category::Videos));
    assert_eq!(classify("mKv"), Some(Category::Videos));
    assert_eq!(classify("MPG"), Some(Category::Videos));
}

#[test]
fn other_extensions_are_unrecognized() {
    assert_eq!(classify("txt"), None);
    assert_eq!(classify("gif"), None);
    assert_eq!(classify(""), None);
    assert_eq!(classify("jpg "), None);
    assert_eq!(classify("jpgg"), None);
    assert_eq!(classify("mp"), None);
}
