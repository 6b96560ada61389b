use wnfs_fuse::paths::{into_segments, push_segment};

#[test]
fn splits_on_slash() {
    assert_eq!(into_segments("a/b".to_string()), vec!["a".to_string(), "b".to_string()]);
    assert_eq!(
        into_segments("docs/notes/today".to_string()),
        vec!["docs".to_string(), "notes".to_string(), "today".to_string()]
    );
}

#[test]
fn empty_path_is_one_empty_segment() {
    assert_eq!(into_segments(String::new()), vec![String::new()]);
}

#[test]
fn leading_and_trailing_slashes_make_empty_segments() {
    assert_eq!(into_segments("/a".to_string()), vec!["".to_string(), "a".to_string()]);
    assert_eq!(into_segments("a/".to_string()), vec!["a".to_string(), "".to_string()]);
    assert_eq!(
        into_segments("/a/".to_string()),
        vec!["".to_string(), "a".to_string(), "".to_string()]
    );
    assert_eq!(into_segments("//".to_string()), vec![String::new(); 3]);
}

#[test]
fn push_segment_appends_one_name() {
    let base = vec!["a".to_string(), "b".to_string()];
    let longer = push_segment(&base, "c");
    assert_eq!(longer, vec!["a".to_string(), "b".to_string(), "c".to_string()]);
    assert_eq!(base.len(), 2);
}
