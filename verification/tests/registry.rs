use poetry::add::git::GitProvider;
use poetry::add::package_format::{FilePath, Git, Named, PackageFormat, Packages};
use poetry::add::provider::{Info, ProjectResp};
use poetry::add::pypi::{dedupe, requests_for, PyPi, Request};
use poetry::document::{DependencyMetadata, GitSource, Versioned};
use poetry::error::PoetryError;
use poetry::version::Version;

fn text(s: &str) -> String {
    s.to_string()
}

fn named(name: &str) -> Named {
    Named { name: text(name), constraint: None }
}

fn answer(name: &str, version: &str) -> ProjectResp {
    ProjectResp { info: Info { name: text(name), version: text(version) } }
}

fn version(major: u64, minor: u64, patch: u64) -> DependencyMetadata {
    DependencyMetadata::Versioned(Versioned {
        version: Version { major, minor, patch, pre: text(""), build: text("") },
    })
}

fn lookup(name: &str) -> Request {
    Request {
        url: format!("https://pypi.org/pypi/{}/json", name),
        host: text("pypi.org"),
        accept: text("application/json"),
    }
}

fn index() -> PyPi {
    PyPi { output: text("/tmp/out") }
}

#[test]
fn lookup_of_one_package() {
    let request = PyPi::request("requests");
    assert_eq!(request.url, "https://pypi.org/pypi/requests/json");
    assert_eq!(request.host, "pypi.org");
    assert_eq!(request.accept, "application/json");
    assert_eq!(PyPi::request("").url, "https://pypi.org/pypi//json");
}

#[test]
fn batch_asks_once_for_each_distinct_name() {
    let batch = vec![
        named("numpy"),
        Named { name: text("requests"), constraint: Some(text("2")) },
        Named { name: text("numpy"), constraint: Some(text("1")) },
        named("Numpy"),
    ];
    assert_eq!(index().requests(&batch), vec![lookup("numpy"), lookup("requests"), lookup("Numpy")]);
    assert_eq!(index().requests(&Vec::new()), Vec::<Request>::new());
}

#[test]
fn dedupe_keeps_first_occurrences() {
    let list = vec![text("b"), text("a"), text("b"), text("c"), text("a")];
    assert_eq!(dedupe(&list), vec!["b", "a", "c"]);
    assert_eq!(dedupe(&Vec::new()), Vec::<String>::new());
    assert_eq!(requests_for(&vec![text("a"), text("a")]), vec![lookup("a"), lookup("a")]);
}

#[test]
fn answer_resolves_to_the_version_it_reports() {
    let batch = vec![named("requests")];
    assert_eq!(
        index().resolve(&batch, vec![answer("requests", "2.31.0")]),
        Ok(vec![version(2, 31, 0)])
    );
}

#[test]
fn version_is_read_with_its_tags() {
    let batch = vec![named("a"), named("b"), named("c")];
    let answers = vec![
        answer("a", "1.0.0-alpha.1"),
        answer("b", "0.0.1+build.5"),
        answer("c", "18446744073709551615.2.3-rc.1+exp.sha.5114f85"),
    ];
    let tagged = |major: u64, minor: u64, patch: u64, pre: &str, build: &str| {
        DependencyMetadata::Versioned(Versioned {
            version: Version { major, minor, patch, pre: text(pre), build: text(build) },
        })
    };
    assert_eq!(
        index().resolve(&batch, answers),
        Ok(vec![
            tagged(1, 0, 0, "alpha.1", ""),
            tagged(0, 0, 1, "", "build.5"),
            tagged(18446744073709551615, 2, 3, "rc.1", "exp.sha.5114f85"),
        ])
    );
}

#[test]
fn constraint_plays_no_part_in_the_resolution() {
    let batch = vec![Named { name: text("requests"), constraint: Some(text("<2")) }];
    assert_eq!(
        index().resolve(&batch, vec![answer("requests", "2.31.0")]),
        Ok(vec![version(2, 31, 0)])
    );
}

#[test]
fn one_unreadable_version_fails_the_batch() {
    let batch = vec![named("a"), named("b"), named("c")];
    for bad in 0..3 {
        let mut answers = vec![answer("a", "1.0.0"), answer("b", "2.0.0"), answer("c", "3.0.0")];
        answers[bad].info.version = text("not-a-version");
        let name = answers[bad].info.name.clone();
        assert_eq!(
            index().resolve(&batch, answers),
            Err(PoetryError::InvalidVersionResolved { name, version: text("not-a-version") })
        );
    }
}

#[test]
fn first_unreadable_version_is_reported() {
    let batch = vec![named("a"), named("b"), named("c")];
    let answers = vec![answer("a", "1.0.0"), answer("b", "1.0"), answer("c", "")];
    assert_eq!(
        index().resolve(&batch, answers),
        Err(PoetryError::InvalidVersionResolved { name: text("b"), version: text("1.0") })
    );
}

#[test]
fn versions_that_are_none() {
    let batch = vec![named("a")];
    for bad in ["", "1", "1.2", "01.2.3", "1.2.3-", "1.2.3+", "v1.2.3", " 1.2.3", "1.2.3 ", "^1.2.3"] {
        assert_eq!(
            index().resolve(&batch, vec![answer("a", bad)]),
            Err(PoetryError::InvalidVersionResolved { name: text("a"), version: text(bad) })
        );
    }
}

#[test]
fn error_names_the_package_as_the_index_does() {
    let batch = vec![named("requests")];
    assert_eq!(
        index().resolve(&batch, vec![answer("Requests", "latest")]),
        Err(PoetryError::InvalidVersionResolved { name: text("Requests"), version: text("latest") })
    );
}

#[test]
fn index_must_answer_every_lookup() {
    let batch = vec![named("a"), named("b"), named("a")];
    let missing = PoetryError::ReqwestError {
        message: text("the package index did not answer every lookup"),
    };
    assert_eq!(index().resolve(&batch, vec![answer("a", "1.0.0")]), Err(missing));
    let surplus = vec![answer("a", "1.0.0"), answer("b", "1.0.0"), answer("a", "1.0.0")];
    assert!(matches!(index().resolve(&batch, surplus), Err(PoetryError::ReqwestError { .. })));
    assert!(matches!(
        index().resolve(&Vec::new(), vec![answer("a", "bad")]),
        Err(PoetryError::ReqwestError { .. })
    ));
    assert_eq!(
        index().resolve(&batch, vec![answer("a", "1.0.0"), answer("b", "2.0.0")]),
        Ok(vec![version(1, 0, 0), version(2, 0, 0)])
    );
    assert_eq!(index().resolve(&Vec::new(), Vec::new()), Ok(Vec::new()));
}

#[test]
fn versioned_takes_the_parsed_version_or_names_the_text() {
    let read = Version { major: 1, minor: 2, patch: 3, pre: text(""), build: text("") };
    assert_eq!(PyPi::versioned(answer("a", "whatever"), Some(read)), Ok(version(1, 2, 3)));
    assert_eq!(
        PyPi::versioned(answer("a", "1.2.3"), None),
        Err(PoetryError::InvalidVersionResolved { name: text("a"), version: text("1.2.3") })
    );
}

#[test]
fn repositories_resolve_to_address_and_revision() {
    let provider = GitProvider { output: text("/tmp/out") };
    let gits = vec![
        Git { name: text("repo"), url: text("https://h/o/repo#main"), revision: Some(text("main")) },
        Git { name: text("other"), url: text("git@h:o/other.git"), revision: None },
    ];
    assert_eq!(
        provider.resolve(gits),
        vec![
            DependencyMetadata::Git(GitSource {
                url: text("https://h/o/repo#main"),
                revision: Some(text("main")),
            }),
            DependencyMetadata::Git(GitSource { url: text("git@h:o/other.git"), revision: None }),
        ]
    );
    assert_eq!(provider.resolve(Vec::new()), Vec::new());
}

fn mixed() -> Packages {
    Packages {
        packages: vec![
            PackageFormat::Git(Git {
                name: text("repo"),
                url: text("https://h/o/repo"),
                revision: None,
            }),
            PackageFormat::Named(named("numpy")),
            PackageFormat::FilePath(FilePath { file_path: text("f") }),
            PackageFormat::Named(named("requests")),
            PackageFormat::Named(named("numpy")),
        ],
    }
}

#[test]
fn names_stand_in_the_order_of_the_resolution() {
    assert_eq!(mixed().names(), vec!["numpy", "requests", "repo"]);
    assert_eq!(mixed().requests(), vec![lookup("numpy"), lookup("requests")]);
    assert_eq!(Packages { packages: Vec::new() }.names(), Vec::<String>::new());
}

#[test]
fn resolution_puts_the_index_before_the_repositories() {
    let answers = vec![answer("numpy", "1.26.4"), answer("requests", "2.31.0")];
    assert_eq!(
        mixed().resolve("/tmp/out", answers),
        Ok(vec![
            version(1, 26, 4),
            version(2, 31, 0),
            DependencyMetadata::Git(GitSource { url: text("https://h/o/repo"), revision: None }),
        ])
    );
}

#[test]
fn failure_of_the_index_fails_the_resolution() {
    let answers = vec![answer("numpy", "1.26.4"), answer("requests", "x")];
    assert_eq!(
        mixed().resolve("/tmp/out", answers),
        Err(PoetryError::InvalidVersionResolved { name: text("requests"), version: text("x") })
    );
    assert!(matches!(
        mixed().resolve("/tmp/out", Vec::new()),
        Err(PoetryError::ReqwestError { .. })
    ));
}
