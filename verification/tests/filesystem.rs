use resource_paths::error::ResourceError;
use resource_paths::machine::Pull;
use resource_paths::resolver::{ResourcePaths, ResourcePathsIter};
use resource_paths::resource::Resource;
use rustix::fs::{Mode, OFlags};

fn strings(items: &[&str]) -> Vec<String> {
    items.iter().map(|item| String::from(*item)).collect()
}

fn pairs(items: &[(&str, &str)]) -> Vec<(String, String)> {
    items
        .iter()
        .map(|(pattern, target)| (String::from(*pattern), String::from(*target)))
        .collect()
}

fn expected_resources(resources: &[(&str, &str)]) -> Vec<Resource> {
    resources
        .iter()
        .map(|(path, target)| Resource::new(String::from(*path), String::from(*target)))
        .collect()
}

fn setup_test_dirs() -> tempfile::TempDir {
    let temp = tempfile::tempdir().unwrap();
    for dir in ["src-tauri", "src", "src/assets", "src/assets/icons", "src/empty"] {
        rustix::fs::mkdir(temp.path().join(dir), Mode::from_raw_mode(0o755)).unwrap();
    }
    for file in [
        "src-tauri/tauri.conf.json",
        "src-tauri/some-other-json.json",
        "src-tauri/Cargo.toml",
        "src-tauri/Tauri.toml",
        "src-tauri/build.rs",
        "src/assets/javascript.svg",
        "src/assets/tauri.svg",
        "src/assets/rust.svg",
        "src/index.html",
        "src/style.css",
        "src/script.js",
    ] {
        rustix::fs::open(
            temp.path().join(file),
            OFlags::CREATE | OFlags::WRONLY,
            Mode::from_raw_mode(0o644),
        )
        .unwrap();
    }
    rustix::process::chdir(temp.path().join("src-tauri")).unwrap();
    temp
}

fn pull_all(mut iter: ResourcePathsIter) -> Vec<Result<Resource, ResourceError>> {
    let mut items = Vec::new();
    loop {
        match iter.next_within(1000) {
            Pull::Item(item) => items.push(item),
            Pull::Pending => {}
            Pull::Finished => return items,
        }
    }
}

fn files(items: Vec<Result<Resource, ResourceError>>) -> Vec<Resource> {
    items.into_iter().flatten().collect()
}

#[test]
fn resource_paths_iter_slice_allow_walk() {
    let _temp = setup_test_dirs();

    let patterns = strings(&[
        "../src/script.js",
        "../src/assets",
        "../src/index.html",
        "*.toml",
        "*.conf.json",
    ]);
    let resources = files(pull_all(ResourcePaths::new(&patterns, true).iter()));

    let expected = expected_resources(&[
        ("../src/script.js", "_up_/src/script.js"),
        (
            "../src/assets/javascript.svg",
            "_up_/src/assets/javascript.svg",
        ),
        ("../src/assets/tauri.svg", "_up_/src/assets/tauri.svg"),
        ("../src/assets/rust.svg", "_up_/src/assets/rust.svg"),
        ("../src/index.html", "_up_/src/index.html"),
        ("Cargo.toml", "Cargo.toml"),
        ("Tauri.toml", "Tauri.toml"),
        ("tauri.conf.json", "tauri.conf.json"),
    ]);

    assert_eq!(resources.len(), expected.len());
    for resource in expected {
        if !resources.contains(&resource) {
            panic!("{resource:?} was expected but not found in {resources:?}");
        }
    }
}

#[test]
fn resource_paths_iter_slice_no_walk() {
    let _temp = setup_test_dirs();

    let patterns = strings(&[
        "../src/script.js",
        "../src/assets",
        "../src/index.html",
        "*.toml",
        "*.conf.json",
    ]);
    let resources = files(pull_all(ResourcePaths::new(&patterns, false).iter()));

    let expected = expected_resources(&[
        ("../src/script.js", "_up_/src/script.js"),
        ("../src/index.html", "_up_/src/index.html"),
        ("Cargo.toml", "Cargo.toml"),
        ("Tauri.toml", "Tauri.toml"),
        ("tauri.conf.json", "tauri.conf.json"),
    ]);

    assert_eq!(resources.len(), expected.len());
    for resource in expected {
        if !resources.contains(&resource) {
            panic!("{resource:?} was expected but not found in {resources:?}");
        }
    }
}

#[test]
fn resource_paths_iter_map_allow_walk() {
    let _temp = setup_test_dirs();

    let patterns = pairs(&[
        ("../src/script.js", "main.js"),
        ("../src/assets", ""),
        ("../src/index.html", "frontend/index.html"),
        ("*.toml", ""),
        ("*.conf.json", ""),
    ]);
    let resources = files(pull_all(ResourcePaths::from_map(&patterns, true).iter()));

    let expected = expected_resources(&[
        ("../src/script.js", "main.js"),
        ("../src/assets/javascript.svg", "javascript.svg"),
        ("../src/assets/tauri.svg", "tauri.svg"),
        ("../src/assets/rust.svg", "rust.svg"),
        ("../src/index.html", "frontend/index.html"),
        ("Cargo.toml", "Cargo.toml"),
        ("Tauri.toml", "Tauri.toml"),
        ("tauri.conf.json", "tauri.conf.json"),
    ]);

    assert_eq!(resources.len(), expected.len());
    for resource in expected {
        if !resources.contains(&resource) {
            panic!("{resource:?} was expected but not found in {resources:?}");
        }
    }
}

#[test]
fn resource_paths_iter_map_no_walk() {
    let _temp = setup_test_dirs();

    let patterns = pairs(&[
        ("../src/script.js", "main.js"),
        ("../src/assets", ""),
        ("../src/index.html", "frontend/index.html"),
        ("*.toml", ""),
        ("*.conf.json", ""),
    ]);
    let resources = files(pull_all(ResourcePaths::from_map(&patterns, false).iter()));

    let expected = expected_resources(&[
        ("../src/script.js", "main.js"),
        ("../src/index.html", "frontend/index.html"),
        ("Cargo.toml", "Cargo.toml"),
        ("Tauri.toml", "Tauri.toml"),
        ("tauri.conf.json", "tauri.conf.json"),
    ]);

    assert_eq!(resources.len(), expected.len());
    for resource in expected {
        if !resources.contains(&resource) {
            panic!("{resource:?} was expected but not found in {resources:?}");
        }
    }
}

#[test]
fn patterns_come_out_in_their_order() {
    let _temp = setup_test_dirs();

    let patterns = strings(&["../src/script.js", "../src/assets", "*.toml"]);
    let resources = files(pull_all(ResourcePaths::new(&patterns, true).iter()));

    assert_eq!(resources.len(), 6);
    assert_eq!(
        resources[0],
        Resource::new(String::from("../src/script.js"), String::from("_up_/src/script.js"))
    );
    let mut walked: Vec<(String, String)> = resources[1..4]
        .iter()
        .map(|found| (String::from(found.path()), String::from(found.target())))
        .collect();
    walked.sort();
    assert_eq!(
        walked,
        pairs(&[
            ("../src/assets/javascript.svg", "_up_/src/assets/javascript.svg"),
            ("../src/assets/rust.svg", "_up_/src/assets/rust.svg"),
            ("../src/assets/tauri.svg", "_up_/src/assets/tauri.svg"),
        ])
    );
    assert_eq!(
        resources[4..],
        expected_resources(&[("Cargo.toml", "Cargo.toml"), ("Tauri.toml", "Tauri.toml")])[..]
    );
}

#[test]
fn a_directory_pattern_without_permission_yields_one_failure() {
    let _temp = setup_test_dirs();

    let patterns = strings(&["../src/assets"]);
    let items = pull_all(ResourcePaths::new(&patterns, false).iter());

    assert_eq!(items.len(), 1);
    match &items[0] {
        Err(ResourceError::DirectoryNotAllowed(path)) => assert_eq!(path, "../src/assets"),
        other => panic!("unexpected {other:?}"),
    }
}

#[test]
fn a_non_empty_override_lands_every_walked_file_on_one_target() {
    let _temp = setup_test_dirs();

    let patterns = pairs(&[("../src/assets", "bundle/all.svg")]);
    let resources = files(pull_all(ResourcePaths::from_map(&patterns, true).iter()));

    assert_eq!(resources.len(), 3);
    for found in &resources {
        assert_eq!(found.target(), "bundle/all.svg");
        assert!(found.path().starts_with("../src/assets/"));
    }
}

#[test]
fn an_empty_override_discards_the_directories_of_walked_files() {
    let _temp = setup_test_dirs();

    let patterns = pairs(&[("../src", "")]);
    let mut found: Vec<(String, String)> = files(pull_all(
        ResourcePaths::from_map(&patterns, true).iter(),
    ))
    .iter()
    .map(|found| (String::from(found.path()), String::from(found.target())))
    .collect();
    found.sort();

    assert_eq!(
        found,
        pairs(&[
            ("../src/assets/javascript.svg", "javascript.svg"),
            ("../src/assets/rust.svg", "rust.svg"),
            ("../src/assets/tauri.svg", "tauri.svg"),
            ("../src/index.html", "index.html"),
            ("../src/script.js", "script.js"),
            ("../src/style.css", "style.css"),
        ])
    );
}

#[test]
fn every_directory_pattern_is_walked() {
    let _temp = setup_test_dirs();

    let patterns = strings(&["../src/assets", "../src/empty", "../src/assets"]);
    let resources = files(pull_all(ResourcePaths::new(&patterns, true).iter()));

    assert_eq!(resources.len(), 6);
    for found in &resources {
        assert!(found.path().starts_with("../src/assets/"));
    }
}

#[test]
fn a_glob_that_matches_nothing_yields_nothing() {
    let _temp = setup_test_dirs();

    let patterns = strings(&["*.nothing", "build.rs"]);
    let items = pull_all(ResourcePaths::new(&patterns, true).iter());

    assert_eq!(items.len(), 1);
    match &items[0] {
        Ok(found) => assert_eq!(
            found,
            &Resource::new(String::from("build.rs"), String::from("build.rs"))
        ),
        other => panic!("unexpected {other:?}"),
    }
}

#[test]
fn a_glob_walks_the_directories_that_it_matches() {
    let _temp = setup_test_dirs();

    let patterns = strings(&["../src/a*"]);
    let mut paths: Vec<String> = files(pull_all(ResourcePaths::new(&patterns, true).iter()))
        .iter()
        .map(|found| String::from(found.path()))
        .collect();
    paths.sort();

    assert_eq!(
        paths,
        strings(&[
            "../src/assets/javascript.svg",
            "../src/assets/rust.svg",
            "../src/assets/tauri.svg",
        ])
    );
}

#[test]
fn a_directory_among_glob_matches_ends_the_pattern_without_permission() {
    let _temp = setup_test_dirs();

    let patterns = strings(&["../src/*", "Cargo.toml"]);
    let items = pull_all(ResourcePaths::new(&patterns, false).iter());

    assert_eq!(items.len(), 2);
    match &items[0] {
        Err(ResourceError::DirectoryNotAllowed(path)) => assert_eq!(path, "../src/assets"),
        other => panic!("unexpected {other:?}"),
    }
    match &items[1] {
        Ok(found) => assert_eq!(found.path(), "Cargo.toml"),
        other => panic!("unexpected {other:?}"),
    }
}

#[test]
fn a_malformed_glob_yields_its_failure_between_the_others() {
    let _temp = setup_test_dirs();

    let patterns = strings(&["build.rs", "***", "Cargo.toml"]);
    let items = pull_all(ResourcePaths::new(&patterns, true).iter());

    assert_eq!(items.len(), 3);
    assert!(matches!(&items[0], Ok(found) if found.path() == "build.rs"));
    assert!(matches!(&items[1], Err(ResourceError::GlobSyntax(_))));
    assert!(matches!(&items[2], Ok(found) if found.path() == "Cargo.toml"));
}

#[test]
fn paths_alone_are_the_paths_of_the_resources() {
    let _temp = setup_test_dirs();

    let patterns = strings(&["../src/script.js", "*.toml"]);
    let mut paths = ResourcePaths::new(&patterns, true);
    let mut found = Vec::new();
    loop {
        match paths.next() {
            Pull::Item(item) => found.push(item.unwrap()),
            Pull::Pending => {}
            Pull::Finished => break,
        }
    }

    assert_eq!(found, strings(&["../src/script.js", "Cargo.toml", "Tauri.toml"]));
}

#[test]
fn absolute_patterns_keep_their_root() {
    let temp = setup_test_dirs();

    let root = String::from(temp.path().to_str().unwrap());
    let patterns = vec![format!("{root}/src/./index.html")];
    let resources = files(pull_all(ResourcePaths::new(&patterns, true).iter()));

    assert_eq!(resources.len(), 1);
    assert_eq!(resources[0].path(), format!("{root}/src/index.html"));
    assert_eq!(resources[0].target(), format!("_root_{root}/src/index.html"));
}

#[test]
fn concrete_scenario() {
    let temp = tempfile::tempdir().unwrap();
    for dir in ["app", "src", "src/assets"] {
        rustix::fs::mkdir(temp.path().join(dir), Mode::from_raw_mode(0o755)).unwrap();
    }
    for file in [
        "app/Cargo.toml",
        "app/Tauri.toml",
        "src/assets/a.svg",
        "src/assets/b.svg",
        "src/script.js",
    ] {
        rustix::fs::open(
            temp.path().join(file),
            OFlags::CREATE | OFlags::WRONLY,
            Mode::from_raw_mode(0o644),
        )
        .unwrap();
    }
    rustix::process::chdir(temp.path().join("app")).unwrap();

    let patterns = strings(&["../src/script.js", "../src/assets", "*.toml"]);
    let items = pull_all(ResourcePaths::new(&patterns, true).iter());
    assert!(items.iter().all(|item| item.is_ok()));
    let resources = files(items);

    let a_first = expected_resources(&[
        ("../src/script.js", "_up_/src/script.js"),
        ("../src/assets/a.svg", "_up_/src/assets/a.svg"),
        ("../src/assets/b.svg", "_up_/src/assets/b.svg"),
        ("Cargo.toml", "Cargo.toml"),
        ("Tauri.toml", "Tauri.toml"),
    ]);
    let b_first = expected_resources(&[
        ("../src/script.js", "_up_/src/script.js"),
        ("../src/assets/b.svg", "_up_/src/assets/b.svg"),
        ("../src/assets/a.svg", "_up_/src/assets/a.svg"),
        ("Cargo.toml", "Cargo.toml"),
        ("Tauri.toml", "Tauri.toml"),
    ]);
    assert!(resources == a_first || resources == b_first);
}

#[test]
fn a_bounded_pull_stops_at_its_limit() {
    let _temp = setup_test_dirs();

    let patterns = strings(&["../src/empty", "Cargo.toml"]);
    let mut iter = ResourcePaths::new(&patterns, true).iter();
    assert!(matches!(iter.next_within(0), Pull::Pending));
    assert!(matches!(iter.next_within(1), Pull::Pending));
    assert!(matches!(iter.next_within(2), Pull::Pending));
    match iter.next_within(1000) {
        Pull::Item(Ok(found)) => assert_eq!(found.path(), "Cargo.toml"),
        other => panic!("unexpected {other:?}"),
    }
    assert!(matches!(iter.next_within(1000), Pull::Finished));
    assert!(matches!(iter.next_within(0), Pull::Pending));
    assert!(matches!(iter.next_within(1), Pull::Finished));
}

#[test]
fn mapped_patterns_come_out_in_the_order_given() {
    let _temp = setup_test_dirs();

    let patterns = pairs(&[
        ("tauri.conf.json", "z.json"),
        ("*.toml", ""),
        ("build.rs", "a.rs"),
    ]);
    let resources = files(pull_all(ResourcePaths::from_map(&patterns, false).iter()));

    assert_eq!(
        resources,
        expected_resources(&[
            ("tauri.conf.json", "z.json"),
            ("Cargo.toml", "Cargo.toml"),
            ("Tauri.toml", "Tauri.toml"),
            ("build.rs", "a.rs"),
        ])
    );
}

#[test]
fn a_walk_failure_from_the_filesystem_is_handed_on() {
    let _temp = setup_test_dirs();

    let patterns = strings(&["../src/assets", "Cargo.toml"]);
    let mut iter = ResourcePaths::new(&patterns, true).iter();
    assert!(matches!(iter.next(), Pull::Pending));
    assert!(matches!(iter.accept_probe(true), Pull::Pending));
    let failure = match walkdir::WalkDir::new("../src/missing").into_iter().next() {
        Some(Err(failure)) => failure,
        _ => panic!("a walk below a missing directory was expected to fail"),
    };
    match iter.accept_entry(Some(Err(failure))) {
        Pull::Item(Err(ResourceError::Walk(failure))) => {
            assert_eq!(failure.path(), Some(std::path::Path::new("../src/missing")))
        }
        other => panic!("unexpected {other:?}"),
    }
    match iter.next_within(1000) {
        Pull::Item(Ok(found)) => assert_eq!(found.path(), "Cargo.toml"),
        other => panic!("unexpected {other:?}"),
    }
}
