use std::path::{Path, PathBuf};
use path_clean::PathClean;
use holium_utils::repo_paths::{absolute_path, to_relative_path_to_project_root, PathError};

/// What the standard library gives for the same question.
fn std_relative(tested: &str, current_dir: &str, root: &str) -> Option<String> {
    let p = PathBuf::from(tested);
    let abs = if p.is_absolute() { p } else { PathBuf::from(current_dir).join(p) }.clean();
    abs.strip_prefix(Path::new(root)).ok().map(|s| s.to_str().unwrap().to_string())
}

#[test]
fn absolute_paths_are_joined_and_cleaned() {
    assert_eq!(absolute_path("data/x.json", "/home/u/proj"), "/home/u/proj/data/x.json");
    assert_eq!(absolute_path("/a/../b/", "/x"), "/b");
    assert_eq!(absolute_path("./a//b/.", "/x/"), "/x/a/b");
    assert_eq!(absolute_path("..", "/"), "/");
    assert_eq!(absolute_path("", "/x/y"), "/x/y");
}

#[test]
fn paths_inside_the_project_are_made_relative() {
    assert_eq!(to_relative_path_to_project_root("data/x.json", "/home/u/proj", "/home/u/proj"), Ok("data/x.json".to_string()));
    assert_eq!(to_relative_path_to_project_root("/home/u/proj", "/x", "/home/u/proj"), Ok("".to_string()));
    assert_eq!(to_relative_path_to_project_root("sub/../y", "/home/u/proj/a", "/home/u/proj/"), Ok("a/y".to_string()));
    assert_eq!(to_relative_path_to_project_root("x", "/r", "/"), Ok("r/x".to_string()));
}

#[test]
fn paths_outside_the_project_are_refused() {
    assert_eq!(to_relative_path_to_project_root("../other", "/home/u/proj", "/home/u/proj"), Err(PathError::UnsecureFilePath));
    // components are compared, not characters
    assert_eq!(to_relative_path_to_project_root("/home/u/projects/a", "/", "/home/u/proj"), Err(PathError::UnsecureFilePath));
    assert_eq!(to_relative_path_to_project_root("a", "/home", "/home/u/proj"), Err(PathError::UnsecureFilePath));
    assert_eq!(PathError::UnsecureFilePath.message(), "file path outside the project directory");
    assert_eq!(PathError::NonUnicodeFilePath.message(), "invalid unicode characters in the file path");
}

#[test]
fn relative_paths_agree_with_the_standard_library() {
    let cases = [
        ("data/x.json", "/home/u/proj", "/home/u/proj"),
        ("../other", "/home/u/proj", "/home/u/proj"),
        ("/home/u/proj", "/x", "/home/u/proj"),
        ("a/./b//c/", "/home/u/proj", "/home/u/proj/"),
        ("/home/u/projects/a", "/", "/home/u/proj"),
        ("x", "/r", "/"),
        ("q", "/home//u/./proj", "/home/u/proj"),
        ("x", "/r", "/r/./"),
        ("x", "/r", "./r"),
    ];
    for (tested, cur, root) in cases.iter() {
        assert_eq!(to_relative_path_to_project_root(tested, cur, root).ok(), std_relative(tested, cur, root), "{} {} {}", tested, cur, root);
    }
}

#[test]
fn relative_paths_lead_back_to_their_location() {
    for (tested, cur, root) in [("data/x.json", "/home/u/proj", "/home/u/proj"), ("../b/c", "/r/a", "/r/")].iter() {
        let rel = to_relative_path_to_project_root(tested, cur, root).unwrap();
        let abs = absolute_path(tested, cur);
        assert_eq!(Path::new(root).join(&rel).components().collect::<Vec<_>>(), Path::new(&abs).components().collect::<Vec<_>>());
    }
}

#[test]
fn relative_paths_stay_inside_the_project() {
    for (tested, cur, root) in [("data/../x.json", "/home/u/proj", "/home/u/proj"), ("/home/u/proj/./a//b", "/", "/home/u/proj")].iter() {
        let rel = to_relative_path_to_project_root(tested, cur, root).unwrap();
        assert!(Path::new(&rel).components().all(|c| matches!(c, std::path::Component::Normal(_))));
    }
}
