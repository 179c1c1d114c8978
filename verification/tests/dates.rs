use gphoto_sort::dates::{
    extract_bucket, extract_year_month, year_month_from_groups, YEAR_DATE_RE,
};

fn pair(year: &str, month: &str) -> Option<(String, String)> {
    Some((String::from(year), String::from(month)))
}

#[test]
fn test_extra_year_date() {
    let unprefix_re = YEAR_DATE_RE;

    assert_eq!(
        extract_year_month(unprefix_re, "My Album", "IMG_2013_04_02").unwrap(),
        pair("2013", "04")
    );
    assert_eq!(
        extract_year_month(unprefix_re, "My Album", "VID_2014_05_02").unwrap(),
        pair("2014", "05")
    );
    assert_eq!(
        extract_year_month(unprefix_re, "My Album", "mvimg_2014_05_02").unwrap(),
        pair("2014", "05")
    );
    assert_eq!(
        extract_year_month(unprefix_re, "My Album", "2014_12_31").unwrap(),
        pair("2014", "12")
    );
    assert_eq!(
        extract_year_month(unprefix_re, "2020-14-17", "IMG_0004-edited(17)").unwrap(),
        pair("2020", "14")
    );
    assert_eq!(
        extract_year_month(unprefix_re, "2021-13-17 #2", "IMG_0004-edited(17)").unwrap(),
        pair("2021", "13")
    );
}

#[test]
fn dated_file_name_gives_its_bucket() {
    let bucket = extract_bucket("Google Photos", "IMG_2013_04_02_0001").unwrap().unwrap();
    assert_eq!(bucket.year, "2013");
    assert_eq!(bucket.month, "04");
}

#[test]
fn undated_file_takes_the_bucket_of_its_folder() {
    let bucket = extract_bucket("2020-14-17", "IMG_0004-edited(17)").unwrap().unwrap();
    assert_eq!(bucket.year, "2020");
    assert_eq!(bucket.month, "14");
}

#[test]
fn file_name_wins_over_folder_name() {
    let bucket = extract_bucket("2013-03-16 #2", "VID_20190807_101112").unwrap().unwrap();
    assert_eq!(bucket.year, "2019");
    assert_eq!(bucket.month, "08");
}

#[test]
fn album_named_by_date_buckets_any_file() {
    let bucket = extract_bucket("2013-03-16 #2", "IMG_0003-edited(1)").unwrap().unwrap();
    assert_eq!(bucket.year, "2013");
    assert_eq!(bucket.month, "03");
}

#[test]
fn no_date_anywhere_gives_no_bucket() {
    assert!(extract_bucket("My Album", "IMG_0004").unwrap().is_none());
    assert!(extract_bucket("", "").unwrap().is_none());
    assert!(extract_bucket("holiday 2013", "picture-2013-04-02").unwrap().is_none());
}

#[test]
fn separators_are_optional_and_may_differ() {
    assert_eq!(
        extract_year_month(YEAR_DATE_RE, "x", "20130402").unwrap(),
        pair("2013", "04")
    );
    assert_eq!(
        extract_year_month(YEAR_DATE_RE, "x", "2013-04_02 late").unwrap(),
        pair("2013", "04")
    );
    assert_eq!(
        extract_year_month(YEAR_DATE_RE, "x", "Img_2013_0402").unwrap(),
        pair("2013", "04")
    );
}

#[test]
fn unknown_prefix_is_no_date() {
    assert_eq!(extract_year_month(YEAR_DATE_RE, "x", "PIC_2013_04_02").unwrap(), None);
    assert_eq!(extract_year_month(YEAR_DATE_RE, "x", "2013_4_2").unwrap(), None);
}

#[test]
fn same_question_same_bucket() {
    let first = extract_year_month(YEAR_DATE_RE, "2021-13-17 #2", "IMG_2013_04_02").unwrap();
    let second = extract_year_month(YEAR_DATE_RE, "2021-13-17 #2", "IMG_2013_04_02").unwrap();
    assert_eq!(first, second);
    assert_eq!(first, pair("2013", "04"));
}

#[test]
fn rejected_pattern_is_an_error() {
    let failed = extract_year_month("(unclosed", "My Album", "IMG_2013_04_02");
    assert!(failed.is_err());
    assert!(!failed.unwrap_err().message.is_empty());
}

#[test]
fn pattern_without_year_and_month_groups_finds_nothing() {
    assert_eq!(extract_year_month("^(IMG)_", "IMG_1", "IMG_2013_04_02").unwrap(), None);
}

#[test]
fn groups_that_took_no_part_give_no_bucket() {
    let whole = Some(String::from("ab"));
    let groups = Some(vec![whole.clone(), None, Some(String::from("a")), None]);
    assert_eq!(year_month_from_groups(&groups), None);
    let groups = Some(vec![whole.clone(), None, Some(String::from("a")), Some(String::from("b"))]);
    assert_eq!(year_month_from_groups(&groups), pair("a", "b"));
    let groups = Some(vec![whole, None, Some(String::from("a"))]);
    assert_eq!(year_month_from_groups(&groups), None);
    assert_eq!(year_month_from_groups(&None), None);
}

#[test]
fn library_pattern_is_accepted_for_any_names() {
    for (dir, stem) in [("", ""), ("My Album", "IMG_0004"), ("2020-14-17", "x"), ("\n", "é")] {
        assert!(extract_bucket(dir, stem).is_ok());
        assert!(extract_year_month(YEAR_DATE_RE, dir, stem).is_ok());
    }
}

#[test]
fn rejected_pattern_is_rejected_for_any_names() {
    for (dir, stem) in [("", ""), ("2020-14-17", "IMG_2013_04_02")] {
        assert!(extract_year_month("[", dir, stem).is_err());
        assert!(extract_year_month("(?P<year>", dir, stem).is_err());
    }
}
