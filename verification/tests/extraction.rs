use ptr_plugins::error::Error;
use ptr_plugins::extract::{
    find_library, plan_extraction, plan_step, split_path, under, ArchiveEntry, ExtractStep,
};

fn file(name: &str) -> ArchiveEntry {
    ArchiveEntry { name: name.to_string(), is_dir: false }
}

fn dir(name: &str) -> ArchiveEntry {
    ArchiveEntry { name: name.to_string(), is_dir: true }
}

fn write(dir: &str, path: &str) -> ExtractStep {
    ExtractStep::WriteFile { dir: dir.to_string(), path: path.to_string() }
}

fn strings(items: &[&str]) -> Vec<String> {
    items.iter().map(|s| s.to_string()).collect()
}

#[test]
fn wrapper_directories_are_left_out() {
    let entries = vec![file("wrapper/bin/plugin.dll"), file("wrapper/bin/plugin.json")];
    let plan = plan_extraction(&entries, "foo").unwrap();
    assert_eq!(plan.library, 0);
    assert_eq!(plan.steps, vec![write("foo", "foo/plugin.dll"), write("foo", "foo/plugin.json")]);
    for step in &plan.steps {
        if let ExtractStep::WriteFile { path, .. } = step {
            assert!(!path.contains("wrapper"));
        }
    }
}

#[test]
fn archive_without_wrapper() {
    let entries = vec![file("plugin.json"), file("plugin.dll"), dir("Images/"), file("Images/a.png")];
    let plan = plan_extraction(&entries, "foo").unwrap();
    assert_eq!(plan.library, 1);
    assert_eq!(
        plan.steps,
        vec![
            write("foo", "foo/plugin.json"),
            write("foo", "foo/plugin.dll"),
            ExtractStep::MakeDir { path: "foo/Images".to_string() },
            write("foo/Images", "foo/Images/a.png"),
        ]
    );
}

#[test]
fn entries_outside_the_root_are_skipped() {
    let entries = vec![
        dir("wrapper/"),
        file("README.md"),
        dir("wrapper/bin/"),
        file("wrapper/bin/plugin.dll"),
        file("wrapper/binary/other.dll"),
        file("wrapper/bin/sub/dep.dll"),
    ];
    let plan = plan_extraction(&entries, "foo").unwrap();
    assert_eq!(plan.library, 3);
    assert_eq!(
        plan.steps,
        vec![
            ExtractStep::Skip { name: "wrapper/".to_string() },
            ExtractStep::Skip { name: "README.md".to_string() },
            ExtractStep::MakeDir { path: "foo".to_string() },
            write("foo", "foo/plugin.dll"),
            ExtractStep::Skip { name: "wrapper/binary/other.dll".to_string() },
            write("foo/sub", "foo/sub/dep.dll"),
        ]
    );
}

#[test]
fn the_first_library_fixes_the_root() {
    let entries = vec![file("a/x.dll"), file("b/y.dll")];
    let plan = plan_extraction(&entries, "p").unwrap();
    assert_eq!(plan.library, 0);
    assert_eq!(
        plan.steps,
        vec![write("p", "p/x.dll"), ExtractStep::Skip { name: "b/y.dll".to_string() }]
    );
}

#[test]
fn archive_without_library_is_malformed() {
    let entries = vec![file("wrapper/plugin.json"), dir("wrapper/"), file("plugin.DLL"), file("dll")];
    assert_eq!(plan_extraction(&entries, "foo"), Err(Error::MalformedArchive));
    assert_eq!(plan_extraction(&Vec::new(), "foo"), Err(Error::MalformedArchive));
}

#[test]
fn library_is_found_by_its_extension() {
    assert_eq!(find_library(&vec![file("a.txt"), file("b.dll.txt"), file("c/d.dll")]), Some(2));
    assert_eq!(find_library(&vec![dir("x.dll/"), file(".dll")]), Some(1));
    assert_eq!(find_library(&vec![file("a.txt")]), None);
}

#[test]
fn paths_split_at_slashes() {
    assert_eq!(split_path("wrapper/bin/plugin.dll"), strings(&["wrapper", "bin", "plugin.dll"]));
    assert_eq!(split_path("wrapper/bin/"), strings(&["wrapper", "bin"]));
    assert_eq!(split_path("/a//b/"), strings(&["a", "b"]));
    assert_eq!(split_path("plugin.dll"), strings(&["plugin.dll"]));
    assert_eq!(split_path(""), Vec::<String>::new());
    assert_eq!(split_path("///"), Vec::<String>::new());
    assert_eq!(split_path("ä/ö"), strings(&["ä", "ö"]));
}

#[test]
fn below_means_component_by_component() {
    assert!(under(&strings(&[]), &strings(&["a"])));
    assert!(under(&strings(&["a"]), &strings(&["a"])));
    assert!(under(&strings(&["a", "b"]), &strings(&["a", "b", "c"])));
    assert!(!under(&strings(&["a", "b"]), &strings(&["a"])));
    assert!(!under(&strings(&["a", "b"]), &strings(&["a", "bc", "d"])));
}

#[test]
fn one_step_for_one_entry() {
    let root = strings(&["w"]);
    assert_eq!(plan_step(&root, "foo", &file("w/a/b.txt")), write("foo/a", "foo/a/b.txt"));
    assert_eq!(
        plan_step(&root, "foo", &dir("w/a/")),
        ExtractStep::MakeDir { path: "foo/a".to_string() }
    );
    assert_eq!(plan_step(&root, "foo", &file("w")), write("", "foo"));
    assert_eq!(
        plan_step(&root, "foo", &file("v/a")),
        ExtractStep::Skip { name: "v/a".to_string() }
    );
}
