use gphoto_sort::naming::{
    decimal_text, incremented_variant, join_path, variant_file_name, Destination,
};
use std::path::Path;

#[test]
fn test_fn_incr() {
    let path = Path::new("/archive/Google Drive/Google Photos/2001/04/IMG_2001_04_03_12345.jpg");
    let file_stem = path.file_stem().unwrap().to_str().unwrap();
    let file_ext = path.extension().unwrap().to_str().unwrap();
    let mut pb = Destination::new(
        path.parent().unwrap().to_str().unwrap(),
        path.file_name().unwrap().to_str().unwrap(),
    );
    assert_eq!(
        pb.path_text(),
        "/archive/Google Drive/Google Photos/2001/04/IMG_2001_04_03_12345.jpg"
    );

    incremented_variant(&mut pb, file_stem, file_ext, 0);
    assert_eq!(
        pb.path_text(),
        "/archive/Google Drive/Google Photos/2001/04/IMG_2001_04_03_12345.jpg"
    );

    incremented_variant(&mut pb, file_stem, file_ext, 1);
    assert_eq!(
        pb.path_text(),
        "/archive/Google Drive/Google Photos/2001/04/IMG_2001_04_03_12345-1.jpg"
    );

    incremented_variant(&mut pb, file_stem, file_ext, 2);
    assert_eq!(
        pb.path_text(),
        "/archive/Google Drive/Google Photos/2001/04/IMG_2001_04_03_12345-2.jpg"
    );
}

#[test]
fn variant_zero_keeps_a_name_that_is_not_the_base_name() {
    let mut dst = Destination::new("/a/b", "something else");
    incremented_variant(&mut dst, "img_1234", "jpg", 0);
    assert_eq!(dst.dir, "/a/b");
    assert_eq!(dst.file_name, "something else");
    incremented_variant(&mut dst, "img_1234", "jpg", 1);
    assert_eq!(dst.dir, "/a/b");
    assert_eq!(dst.file_name, "img_1234-1.jpg");
}

#[test]
fn numerals_are_decimal_without_leading_zeros() {
    assert_eq!(decimal_text(0), "0");
    assert_eq!(decimal_text(7), "7");
    assert_eq!(decimal_text(10), "10");
    assert_eq!(decimal_text(909), "909");
    assert_eq!(decimal_text(1000), "1000");
    assert_eq!(decimal_text(1234567890), "1234567890");
    assert_eq!(decimal_text(usize::MAX), format!("{}", usize::MAX));
}

#[test]
fn variant_names_put_the_number_before_the_extension() {
    assert_eq!(variant_file_name("IMG_1234", "jpg", 0), "IMG_1234.jpg");
    assert_eq!(variant_file_name("IMG_1234", "jpg", 1), "IMG_1234-1.jpg");
    assert_eq!(variant_file_name("IMG_1234", "jpg", 1000), "IMG_1234-1000.jpg");
    assert_eq!(variant_file_name("a.b", "MOV", 12), "a.b-12.MOV");
    assert_eq!(variant_file_name("", "", 0), ".");
}

#[test]
fn variant_names_are_all_different() {
    let mut seen = std::collections::HashSet::new();
    for variant in 0..=1000 {
        assert!(seen.insert(variant_file_name("IMG_1", "jpg", variant)));
    }
    assert_eq!(seen.len(), 1001);
}

#[test]
fn paths_are_joined_with_a_slash() {
    assert_eq!(join_path("/dest/2013/04", "IMG_1.jpg"), "/dest/2013/04/IMG_1.jpg");
    assert_eq!(join_path("", "x"), "/x");
    assert_eq!(Destination::new("d", "n").path_text(), "d/n");
}
