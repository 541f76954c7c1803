use ai_memory::page::{MemoryError, PagePath};
use ai_memory::paths::{file_name_of, has_extension, join, parent, strip_root};
use std::path::Path;

const SAMPLES: [&str; 24] = [
    "",
    ".",
    "..",
    "/",
    "//",
    "a",
    "a/",
    "a/.",
    "a/..",
    "./a",
    "./a/b.md",
    "/a",
    "/a/b.md",
    "/a//b.md",
    "/a/./b.md",
    "/a/b.md/",
    "/a/b.md/.",
    "/a/.md",
    "/a/..md",
    "/a/x.tar.sh",
    "/a/.hidden/c.md",
    "/a/../b.md",
    "a/b/c",
    "/a/b/ü.md",
];

#[test]
fn names_are_those_of_the_operating_system() {
    for s in SAMPLES {
        let p = Path::new(s);
        let name = p.file_name().map(|n| n.to_string_lossy().into_owned());
        assert_eq!(file_name_of(s), name, "{s}");
        for ext in ["md", "sh"] {
            let want = p.extension().is_some_and(|e| e == ext);
            assert_eq!(has_extension(s, ext), want, "{s}");
        }
    }
}

#[test]
fn parents_are_those_of_the_operating_system() {
    for s in SAMPLES {
        let want = Path::new(s)
            .parent()
            .map(|p| p.to_string_lossy().into_owned());
        assert_eq!(parent(s), want, "{s}");
    }
}

#[test]
fn stripping_is_that_of_the_operating_system() {
    for root in SAMPLES {
        for s in SAMPLES {
            let want = Path::new(s)
                .strip_prefix(root)
                .ok()
                .map(|p| p.to_string_lossy().into_owned());
            assert_eq!(strip_root(root, s), want, "{root} of {s}");
        }
    }
}

#[test]
fn joining_is_that_of_the_operating_system() {
    for base in SAMPLES {
        for sub in ["x", "x/y.md", "/abs", ""] {
            let want = Path::new(base).join(sub);
            assert_eq!(join(base, sub), want.to_string_lossy(), "{base} {sub}");
        }
    }
}

#[test]
fn stripping_undoes_joining() {
    let joined = join("/srv/wiki", "concepts/a.md");
    assert_eq!(joined, "/srv/wiki/concepts/a.md");
    assert_eq!(strip_root("/srv/wiki", &joined).unwrap(), "concepts/a.md");
    for root in ["", "/", "/srv/", "srv//", ".", "..", "a/."] {
        let joined = join(root, "b/./c.md");
        assert_eq!(strip_root(root, &joined).unwrap(), "b/./c.md", "{root}");
    }
}

#[test]
fn page_paths_are_relative_and_never_lead_upwards() {
    for good in ["a.md", "a/b.md", ".hidden/b.md", "..a/b.md"] {
        let page = PagePath::new(good.to_string()).unwrap();
        assert_eq!(page.as_str(), good);
        assert_eq!(page.clone().as_str(), good);
    }
    for bad in ["", "/a.md", "../a.md", "a/../b.md", "a/.."] {
        match PagePath::new(bad.to_string()) {
            Err(MemoryError::InvalidPagePath(given)) => {
                assert_eq!(given, bad);
                let e = MemoryError::InvalidPagePath(given);
                assert_eq!(e.message(), format!("invalid page path: {bad}"));
            }
            Ok(_) => panic!("{bad} is no page"),
        }
    }
}
