use codex_toolkit::marketplace_destination::marketplace_staging_root;
use codex_toolkit::marketplace_source::{
    is_github_shorthand_segment, looks_like_github_shorthand, looks_like_local_path,
    looks_like_manifest_url, non_empty_ref, normalize_git_url, safe_marketplace_dir_name,
    split_source_ref,
};
use codex_toolkit::path::{LocalPath, PathComponent};
use std::path::{Component, Path};

fn local_path(text: &str) -> LocalPath {
    let components = Path::new(text)
        .components()
        .map(|component| match component {
            Component::RootDir => PathComponent::RootDir,
            Component::CurDir => PathComponent::CurDir,
            Component::ParentDir => PathComponent::ParentDir,
            Component::Normal(name) => PathComponent::Normal(name.as_encoded_bytes().to_vec()),
            Component::Prefix(prefix) => {
                PathComponent::Prefix(prefix.as_os_str().as_encoded_bytes().to_vec())
            }
        })
        .collect();
    LocalPath { components }
}

const PATHS: [&str; 9] = ["", "/", "a", "/a", "/a/b", "./a", "../a", "a/..", "/a/b/c"];

#[test]
fn parents_and_names_agree_with_the_standard_library() {
    for text in PATHS {
        let path = Path::new(text);
        let expected = path.parent().map(|parent| local_path(parent.to_str().unwrap()));
        assert_eq!(local_path(text).parent(), expected, "{text}");
        let name = path.file_name().map(|name| name.as_encoded_bytes().to_vec());
        assert_eq!(local_path(text).file_name(), name, "{text}");
        assert_eq!(local_path(text).is_absolute(), path.is_absolute(), "{text}");
        assert_eq!(local_path(text).duplicate(), local_path(text));
    }
}

#[test]
fn lying_in_a_directory_agrees_with_the_standard_library() {
    for text in PATHS {
        for base in PATHS {
            assert_eq!(
                local_path(text).starts_with(&local_path(base)),
                Path::new(text).starts_with(base),
                "{text} {base}"
            );
        }
    }
}

#[test]
fn prefixes_come_before_the_root() {
    let drive = PathComponent::Prefix(b"C:".to_vec());
    let rooted = LocalPath { components: vec![drive, PathComponent::RootDir] };
    assert!(rooted.is_absolute());
    let relative = LocalPath { components: vec![PathComponent::Prefix(b"C:".to_vec())] };
    assert!(!relative.is_absolute());
    assert_eq!(relative.parent(), None);
}

#[test]
fn names_of_marketplaces_become_names_of_directories() {
    for (name, expected) in [
        ("debug", Some("debug")),
        ("a b/c", Some("a-b-c")),
        ("../up", Some("-up")),
        (".hidden.", Some("hidden")),
        ("a.b_c-D9", Some("a.b_c-D9")),
        ("größe", Some("gr--e")),
        ("", None),
        (".", None),
        ("..", None),
        ("...", None),
    ] {
        assert_eq!(safe_marketplace_dir_name(name).as_deref(), expected, "{name}");
    }
}

#[test]
fn parts_of_sources() {
    assert_eq!(split_source_ref("a/b#c#d"), ("a/b#c".to_string(), Some("d".to_string())));
    assert_eq!(split_source_ref("a/b@c"), ("a/b".to_string(), Some("c".to_string())));
    assert_eq!(split_source_ref("x://a@b"), ("x://a@b".to_string(), None));
    assert_eq!(split_source_ref("git@h:r"), ("git@h:r".to_string(), None));
    assert_eq!(split_source_ref("git@h"), ("git".to_string(), Some("h".to_string())));
    assert_eq!(non_empty_ref(" x "), Some("x".to_string()));
    assert_eq!(non_empty_ref("  "), None);
    assert_eq!(normalize_git_url("https://github.com/o/r/"), "https://github.com/o/r.git");
    assert_eq!(normalize_git_url("http://github.com/o/r/"), "http://github.com/o/r");
    assert!(looks_like_local_path("~/x"));
    assert!(!looks_like_local_path("~x"));
    assert!(looks_like_manifest_url("https://e.com/marketplace.json"));
    assert!(!looks_like_manifest_url("ssh://e.com/marketplace.json"));
    assert!(looks_like_github_shorthand("a/b"));
    assert!(!looks_like_github_shorthand("a/b/c"));
    assert!(!looks_like_github_shorthand("a"));
    assert!(is_github_shorthand_segment("a.b-c_9"));
    assert!(!is_github_shorthand_segment(""));
    assert!(!is_github_shorthand_segment("ä"));
}

#[test]
fn sources_are_staged_below_the_install_root() {
    let root = local_path("/home/plugins");
    let staging = marketplace_staging_root(&root);
    assert_eq!(staging, local_path("/home/plugins/.staging"));
    assert!(staging.starts_with(&root));
}
