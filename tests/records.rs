use factgen::depends::Comparator;
use factgen::error::{ErrorKind, IngestError};
use factgen::ingest::{aggregate, Outcome};
use factgen::record::{build_package, ControlMap};
use factgen::scan::{is_archive_path, select_archives};
use factgen::stanza::read_control;
use rayon::iter::{IntoParallelIterator, ParallelIterator};

fn control(fields: &[(&str, &str)], long: Option<&str>, files: &[&str]) -> ControlMap {
    ControlMap {
        fields: fields
            .iter()
            .map(|(k, v)| (k.to_string(), v.to_string()))
            .collect(),
        long_description: long.map(|s| s.to_string()),
        files: files.iter().map(|s| s.to_string()).collect(),
    }
}

#[test]
fn builds_a_full_record() {
    let cm = control(
        &[
            ("Package", "hello"),
            ("Version", "2.10-2"),
            ("Architecture", "amd64"),
            ("Maintainer", "Someone <a@b.c>"),
            ("Installed-Size", "280"),
            ("Depends", "libc6 (>= 2.14)"),
            ("Section", "devel"),
            ("Multi-Arch", "foreign"),
            ("Homepage", "https://example.org"),
            ("X-Unknown", "ignored"),
            ("Description", "short"),
        ],
        Some("long text\nmore"),
        &["./usr/bin/hello", "./usr/share/doc"],
    );
    let p = build_package(cm).unwrap();
    assert_eq!(p.name, "hello");
    assert_eq!(p.version, "2.10-2");
    assert_eq!(p.architecture.as_deref(), Some("amd64"));
    assert_eq!(p.maintainer.as_deref(), Some("Someone <a@b.c>"));
    assert_eq!(p.section.as_deref(), Some("devel"));
    assert_eq!(p.multi_arch.as_deref(), Some("foreign"));
    assert_eq!(p.homepage.as_deref(), Some("https://example.org"));
    assert_eq!(p.description.as_deref(), Some("long text\nmore"));
    assert_eq!(p.source, None);
    assert_eq!(p.replaces, None);
    assert_eq!(p.original_maintainer, None);
    assert_eq!(p.files, vec!["./usr/bin/hello", "./usr/share/doc"]);
    assert_eq!(p.depends.len(), 1);
    assert_eq!(p.depends[0].alternatives, vec!["libc6"]);
    let c = p.depends[0].constraints[0].as_ref().unwrap();
    assert_eq!(c.comparator, Comparator::LaterOrEqual);
    assert_eq!(c.version, "2.14");
}

#[test]
fn description_needs_the_description_field() {
    let cm = control(&[("Package", "a"), ("Version", "1")], Some("orphan"), &[]);
    let p = build_package(cm).unwrap();
    assert_eq!(p.description, None);
    assert!(p.depends.is_empty());
}

#[test]
fn missing_package_is_reported_first() {
    let e = build_package(control(&[("Depends", "x (~ 1)")], None, &[])).unwrap_err();
    match e {
        IngestError::MissingRequiredField(t) => assert_eq!(t, "Package"),
        other => panic!("unexpected {:?}", other),
    }
}

#[test]
fn missing_version_is_reported() {
    let e = build_package(control(&[("Package", "a")], None, &[])).unwrap_err();
    assert_eq!(e.kind(), ErrorKind::MissingRequiredField);
    assert_eq!(e.detail(), "Version");
}

#[test]
fn bad_depends_fails_the_record() {
    let cm = control(&[("Package", "a"), ("Version", "1"), ("Depends", "b (>=1)")], None, &[]);
    let e = build_package(cm).unwrap_err();
    assert_eq!(e.kind(), ErrorKind::InvalidConstraint);
    assert_eq!(e.detail(), ">=1");
}

#[test]
fn archive_extension() {
    assert!(is_archive_path("pool/main/a/apt_2.0_amd64.deb"));
    assert!(is_archive_path("x.deb"));
    assert!(is_archive_path("dir.d/.hidden.deb"));
    assert!(!is_archive_path("pool/.deb"));
    assert!(!is_archive_path(".deb"));
    assert!(!is_archive_path("pool/a.deb.gz"));
    assert!(!is_archive_path("pool/a.DEB"));
    assert!(!is_archive_path("a.deb/readme"));
    assert!(!is_archive_path(""));
}

#[test]
fn selection_is_a_set_of_walked_archives() {
    let walk1: Vec<String> = ["r/a.deb", "r/b.txt", "r/s/c.deb", "r/s"]
        .iter()
        .map(|s| s.to_string())
        .collect();
    let mut walk2 = walk1.clone();
    walk2.reverse();
    let mut s1 = select_archives(walk1);
    let mut s2 = select_archives(walk2);
    assert_eq!(s2, vec!["r/s/c.deb", "r/a.deb"]);
    s1.sort();
    s2.sort();
    assert_eq!(s1, s2);
    assert_eq!(s1, vec!["r/a.deb", "r/s/c.deb"]);
}

fn outcomes(n: usize, bad: &[usize]) -> Vec<Outcome> {
    (0..n)
        .map(|i| {
            let path = format!("pool/p{}.deb", i);
            let res = if bad.contains(&i) {
                Err(IngestError::MalformedArchive("bad header".to_string()))
            } else {
                build_package(control(&[("Package", &format!("p{}", i)), ("Version", "1")], None, &[]))
            };
            (path, res)
        })
        .collect()
}

#[test]
fn every_archive_is_accounted_for() {
    let os = outcomes(10, &[1, 4, 9]);
    let r = aggregate(os);
    assert_eq!(r.succeeded(), 7);
    assert_eq!(r.failed(), 3);
    assert_eq!(r.succeeded() + r.failed(), 10);
    let failed: Vec<&str> = r.failures.iter().map(|f| f.0.as_str()).collect();
    assert_eq!(failed, vec!["pool/p1.deb", "pool/p4.deb", "pool/p9.deb"]);
    assert_eq!(r.packages[0].name, "p0");
    assert_eq!(r.packages[6].name, "p8");
}

#[test]
fn accounting_ignores_completion_order() {
    let mut os = outcomes(8, &[0, 7]);
    os.reverse();
    let r = aggregate(os);
    assert_eq!(r.succeeded(), 6);
    assert_eq!(r.failed(), 2);
}

#[test]
fn empty_run() {
    let r = aggregate(Vec::new());
    assert_eq!(r.succeeded(), 0);
    assert_eq!(r.failed(), 0);
    assert!(r.distinct_causes().is_empty());
}

#[test]
fn distinct_causes_are_listed_once() {
    let mut os = outcomes(3, &[0, 2]);
    os.push((
        "pool/q.deb".to_string(),
        build_package(control(&[("Package", "q")], None, &[])),
    ));
    let r = aggregate(os);
    assert_eq!(
        r.distinct_causes(),
        vec![ErrorKind::MalformedArchive, ErrorKind::MissingRequiredField]
    );
}

#[test]
fn reads_a_control_stanza() {
    let text = b"Package: hello\nVersion: 2.10-2\nDepends: libc6 (>= 2.14)\nDescription: greets\n more about it\n .\n and more\nX-Extra: 1\n";
    let cm = read_control(&text[..], vec!["./usr/bin/hello".to_string()]).unwrap();
    let fields: Vec<(&str, &str)> = cm
        .fields
        .iter()
        .map(|(k, v)| (k.as_str(), v.as_str()))
        .collect();
    assert_eq!(
        fields,
        vec![
            ("Package", "hello"),
            ("Version", "2.10-2"),
            ("Depends", "libc6 (>= 2.14)"),
            ("Description", "greets"),
            ("X-Extra", "1"),
        ]
    );
    assert_eq!(cm.long_description.as_deref(), Some("more about it\n.\nand more"));
    assert_eq!(cm.files, vec!["./usr/bin/hello"]);
    let p = build_package(cm).unwrap();
    assert_eq!(p.name, "hello");
    assert_eq!(p.description.as_deref(), Some("more about it\n.\nand more"));
}

#[test]
fn stanza_without_version_is_refused() {
    let e = read_control(&b"Package: a\n"[..], Vec::new()).unwrap_err();
    assert_eq!(e.kind(), ErrorKind::MissingRequiredField);
    assert_eq!(e.detail(), "Version");
    let e = read_control(&b"Version: 1\n"[..], Vec::new()).unwrap_err();
    assert_eq!(e.detail(), "Package");
}

#[test]
fn malformed_stanza_is_refused() {
    let e = read_control(&b" continuation first\n"[..], Vec::new()).unwrap_err();
    assert_eq!(e.kind(), ErrorKind::MalformedArchive);
    let e = read_control(&b"Package: a\npackage: b\nVersion: 1\n"[..], Vec::new()).unwrap_err();
    assert_eq!(e.kind(), ErrorKind::MalformedArchive);
}

#[test]
fn accounting_is_the_same_for_any_pool_size() {
    let n = 200;
    let bad: Vec<usize> = (0..n).filter(|i| i % 7 == 3).collect();
    let mut seen: Option<(Vec<String>, Vec<String>)> = None;
    for workers in [1, 2, 8] {
        let pool = rayon::ThreadPoolBuilder::new()
            .num_threads(workers)
            .build()
            .unwrap();
        let os: Vec<Outcome> = pool.install(|| {
            (0..n)
                .into_par_iter()
                .map(|i| {
                    let depends = if bad.contains(&i) { "x (>=1)" } else { "x (>= 1)" };
                    let name = format!("p{}", i);
                    let cm = control(&[("Package", &name), ("Version", "1"), ("Depends", depends)], None, &[]);
                    (format!("pool/{}.deb", name), build_package(cm))
                })
                .collect()
        });
        let r = aggregate(os);
        assert_eq!(r.failed(), bad.len());
        assert_eq!(r.succeeded(), n - bad.len());
        assert_eq!(r.succeeded() + r.failed(), n);
        let mut names: Vec<String> = r.packages.iter().map(|p| p.name.clone()).collect();
        let mut failed: Vec<String> = r.failures.iter().map(|f| f.0.clone()).collect();
        names.sort();
        failed.sort();
        match &seen {
            Some((n0, f0)) => {
                assert_eq!(&names, n0);
                assert_eq!(&failed, f0);
            }
            None => seen = Some((names, failed)),
        }
    }
}

#[test]
fn package_and_version_are_found_in_any_case() {
    let cm = read_control(&b"package: a\nVERSION: 1\nsource: s\n"[..], Vec::new()).unwrap();
    let p = build_package(cm).unwrap();
    assert_eq!(p.name, "a");
    assert_eq!(p.version, "1");
    assert_eq!(p.source, None);
}
