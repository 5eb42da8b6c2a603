use std::path::Path;

use my_claw::paths::{
    extension_of, file_name_of, file_stem_of, has_parent_part, lies_within, names_of, parent_of,
    path_join, starts_at_root,
};

const SAMPLES: [&str; 22] = [
    "", "/", ".", "..", "a", "a/", "/a", "a/b", "a//b", "a/./b", "./a", "a/.", "a/..", "../a",
    "/a/b.txt", "a.b.c", ".hidden", "a/.hidden.x", "b.", "a/b/c/", "//a", "dir.d/file",
];

fn same(found: Option<String>, expected: Option<&Path>) {
    assert_eq!(found.as_deref().map(Path::new), expected);
}

#[test]
fn paths_are_taken_apart() {
    for s in SAMPLES {
        let p = Path::new(s);
        assert_eq!(starts_at_root(s), p.is_absolute(), "{s:?}");
        same(file_name_of(s), p.file_name().map(Path::new));
        same(file_stem_of(s), p.file_stem().map(Path::new));
        same(extension_of(s), p.extension().map(Path::new));
        assert_eq!(
            has_parent_part(s),
            p.components().any(|c| c == std::path::Component::ParentDir),
            "{s:?}"
        );
        let names: Vec<String> = p
            .components()
            .filter_map(|c| match c {
                std::path::Component::Normal(name) => Some(name.to_str().unwrap().to_string()),
                std::path::Component::ParentDir => Some("..".to_string()),
                _ => None,
            })
            .collect();
        assert_eq!(names_of(s), names, "{s:?}");
    }
}

#[test]
fn parents_are_found() {
    for s in ["", "/", "a", "/a", "a/b", "/a/b.txt", "a/b/c", "dir.d/file"] {
        same(parent_of(s), Path::new(s).parent());
    }
}

#[test]
fn paths_are_joined() {
    for base in SAMPLES {
        for part in SAMPLES {
            assert_eq!(
                path_join(base, part),
                Path::new(base).join(part).to_str().unwrap(),
                "{base:?} {part:?}"
            );
        }
    }
}

#[test]
fn paths_lie_within_others() {
    for base in ["/work", "/work/a", "/", "work", "/work/"] {
        for p in ["/work", "/work/a", "/workspace", "/work/a/b", "work/x", "/other"] {
            assert_eq!(lies_within(base, p), Path::new(p).starts_with(base), "{base:?} {p:?}");
        }
    }
}
