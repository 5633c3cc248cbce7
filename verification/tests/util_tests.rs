use reb::ident::gen_id;
use reb::paths::{paths_with_any_extension, paths_with_extension};

#[test]
fn extension_filter_keeps_matches_in_order() {
    let paths = vec![
        "posts/a.reb".to_string(),
        "posts/img.png".to_string(),
        "posts/2019/b.reb".to_string(),
        "reb".to_string(),
        "notes.txt".to_string(),
    ];
    let kept = paths_with_extension(&paths, ".reb");
    assert_eq!(kept, vec!["posts/a.reb".to_string(), "posts/2019/b.reb".to_string()]);
}

#[test]
fn extension_filter_empty_when_nothing_matches() {
    let paths = vec!["a.png".to_string(), "b.txt".to_string()];
    assert_eq!(paths_with_extension(&paths, ".reb"), Vec::<String>::new());
}

#[test]
fn any_extension_filter_takes_several() {
    let paths = vec![
        "a.png".to_string(),
        "b.reb".to_string(),
        "c.jpg".to_string(),
        "d.gif".to_string(),
    ];
    let exts = vec![".png".to_string(), ".jpg".to_string()];
    let kept = paths_with_any_extension(&paths, &exts);
    assert_eq!(kept, vec!["a.png".to_string(), "c.jpg".to_string()]);
}

#[test]
fn generated_id_is_eight_alphanumerics() {
    for _ in 0..16 {
        let id = gen_id();
        assert_eq!(id.len(), 8);
        assert!(id.chars().all(|c| c.is_ascii_alphanumeric()));
    }
}
