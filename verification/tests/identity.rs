use dedup::os::{FileLinkBackend, LinkMetadata};
use dedup::record::digest_eq;

#[test]
fn index_words_combine_into_the_extent_id() {
    let meta = LinkMetadata::from_index_parts(9, 0x0000_0001, 0x0000_0002);
    assert_eq!(meta.get_storage_uid(), 9);
    assert_eq!(meta.get_file_id(), 0x1_0000_0002);
    let (storage, file) = meta.get_file_uid();
    assert_eq!(storage, 9);
    assert_eq!(file, 0x1_0000_0002);
}

#[test]
fn same_file_means_same_volume_and_extent() {
    let a = LinkMetadata::new(1, 10);
    let b = LinkMetadata::new(1, 10);
    let c = LinkMetadata::new(1, 11);
    let d = LinkMetadata::new(2, 10);
    assert!(a.same_file(&b));
    assert!(a.same_storage(&c));
    assert!(!a.same_file(&c));
    assert!(!a.same_storage(&d));
    assert!(!a.same_file(&d));
}

#[test]
fn digest_equality_is_byte_for_byte() {
    let mut a = [0u8; 32];
    let b = [0u8; 32];
    assert!(digest_eq(&a, &b));
    a[31] = 1;
    assert!(!digest_eq(&a, &b));
}
