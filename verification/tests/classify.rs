use poetry::add::package_format::{
    is_valid_name, FilePath, Folder, Git, Named, PackageFormat, Packages,
};
use poetry::add::url::{count_parts, is_readable, GitUrl, NormalUrl, Scheme};
use poetry::error::PoetryError;
use poetry::text::{chars, equal, split};

fn text(s: &str) -> String {
    s.to_string()
}

fn unknown(s: &str) -> PoetryError {
    PoetryError::UnknownPackageFormat { format: text(s) }
}

#[test]
fn bare_name_is_named_without_constraint() {
    assert_eq!(
        PackageFormat::try_from(&text("numpy")),
        Ok(PackageFormat::Named(Named { name: text("numpy"), constraint: None }))
    );
}

#[test]
fn name_with_version_is_named_with_constraint() {
    assert_eq!(
        PackageFormat::try_from(&text("numpy@1.2.3")),
        Ok(PackageFormat::Named(Named { name: text("numpy"), constraint: Some(text("1.2.3")) }))
    );
}

#[test]
fn name_with_range_keeps_the_range_as_written() {
    assert_eq!(
        Named::try_from(&text("requests@>=2.0, <3")),
        Ok(Named { name: text("requests"), constraint: Some(text(">=2.0, <3")) })
    );
}

#[test]
fn third_segment_is_unknown_format() {
    assert_eq!(PackageFormat::try_from(&text("numpy@1.2.3@x")), Err(unknown("numpy@1.2.3@x")));
    assert_eq!(Named::try_from(&text("numpy@1.2.3@")), Err(unknown("numpy@1.2.3@")));
}

#[test]
fn repository_with_revision() {
    let r = PackageFormat::try_from(&text("https://github.com/org/repo.git#main"));
    match r {
        Ok(PackageFormat::Git(git)) => {
            assert_eq!(git.name, "repo");
            assert!(git.url.contains("org/repo"));
            assert_eq!(git.url, "https://github.com/org/repo.git#main");
            assert_eq!(git.revision, Some(text("main")));
        }
        other => panic!("not a repository: {:?}", other),
    }
}

#[test]
fn repository_without_revision() {
    assert_eq!(
        Git::try_from(&text("https://github.com/org/repo.git")),
        Ok(Git { name: text("repo"), url: text("https://github.com/org/repo.git"), revision: None })
    );
}

#[test]
fn repository_with_empty_revision() {
    assert_eq!(
        Git::try_from(&text("https://github.com/org/repo#")),
        Ok(Git {
            name: text("repo"),
            url: text("https://github.com/org/repo#"),
            revision: Some(text("")),
        })
    );
}

#[test]
fn repository_in_every_recognized_form() {
    for address in [
        "http://example.com/org/repo",
        "https://example.com/org/repo",
        "git://example.com/org/repo",
        "ssh://git@example.com/org/repo",
        "git+ssh://git@example.com/org/repo",
        "git@example.com:org/repo.git",
    ] {
        match PackageFormat::try_from(&text(address)) {
            Ok(PackageFormat::Git(git)) => {
                assert_eq!(git.name, "repo");
                assert_eq!(git.url, address);
                assert_eq!(git.revision, None);
            }
            other => panic!("{} is not a repository: {:?}", address, other),
        }
    }
}

#[test]
fn second_hash_is_unknown_format() {
    let s = "https://github.com/org/repo.git#main#again";
    assert_eq!(PackageFormat::try_from(&text(s)), Err(unknown(s)));
    assert_eq!(Git::try_from(&text(s)), Err(unknown(s)));
}

#[test]
fn unsupported_scheme_is_unknown_format() {
    for s in ["ftp://example.com/org/repo", "ftps://example.com/org/repo", "file:///org/repo"] {
        assert_eq!(PackageFormat::try_from(&text(s)), Err(unknown(s)));
    }
}

#[test]
fn invalid_constraint_is_its_own_error() {
    assert_eq!(
        PackageFormat::try_from(&text("numpy@not-a-version")),
        Err(PoetryError::InvalidVersionConstraint {
            name: text("numpy"),
            version: text("not-a-version"),
        })
    );
}

#[test]
fn empty_constraint_is_invalid() {
    assert_eq!(
        Named::try_from(&text("numpy@")),
        Err(PoetryError::InvalidVersionConstraint { name: text("numpy"), version: text("") })
    );
}

#[test]
fn invalid_constraint_comes_before_the_third_segment() {
    assert_eq!(
        Named::try_from(&text("numpy@bad@x")),
        Err(PoetryError::InvalidVersionConstraint { name: text("numpy"), version: text("bad") })
    );
}

#[test]
fn empty_text_is_unknown_format() {
    assert_eq!(PackageFormat::try_from(&text("")), Err(unknown("")));
    assert_eq!(Named::try_from(&text("")), Err(unknown("")));
    assert_eq!(Git::try_from(&text("")), Err(unknown("")));
}

#[test]
fn invalid_name_is_unknown_format() {
    for s in ["@1.0", "./local", "a/b", "..", "-numpy", "numpy-", "num py", "numpy!", "naïve"] {
        assert_eq!(PackageFormat::try_from(&text(s)), Err(unknown(s)));
    }
}

#[test]
fn names_of_the_index() {
    for name in ["numpy", "scikit-learn", "zope.interface", "typing_extensions", "a", "7zip", "Py3"] {
        assert!(is_valid_name(name), "{}", name);
    }
    for name in ["", "-", ".", "_x", "x_", "a b", "a@b", "a/b", "é"] {
        assert!(!is_valid_name(name), "{}", name);
    }
}

#[test]
fn addresses_that_the_parser_cannot_read_are_unknown_format() {
    for s in [
        "ssh://host/?x",
        "ssh://host/a/..",
        "ssh:a",
        "https://dev.azure.com/a",
        "https://dev.azure.com/a/b",
    ] {
        assert_eq!(PackageFormat::try_from(&text(s)), Err(unknown(s)));
        assert_eq!(Git::try_from(&text(s)), Err(unknown(s)));
    }
}

#[test]
fn addresses_of_a_host_with_organizations() {
    assert_eq!(
        Git::try_from(&text("https://user@dev.azure.com/org/project/_git/repo")),
        Ok(Git {
            name: text("repo"),
            url: text("https://user@dev.azure.com/org/project/_git/repo"),
            revision: None,
        })
    );
    assert_eq!(
        Git::try_from(&text("git@ssh.dev.azure.com:v3/Org/Proj/Repo")),
        Ok(Git {
            name: text("Repo"),
            url: text("git@ssh.dev.azure.com:v3/Org/Proj/Repo"),
            revision: None,
        })
    );
}

#[test]
fn repository_comes_before_name() {
    // As a name this would have the invalid constraint `example.com:org/repo`.
    match PackageFormat::try_from(&text("git@example.com:org/repo")) {
        Ok(PackageFormat::Git(git)) => assert_eq!(git.name, "repo"),
        other => panic!("not a repository: {:?}", other),
    }
}

#[test]
fn no_text_is_a_file_or_a_folder() {
    for s in ["", "numpy", "./dist/pkg.whl", "/tmp/project", "https://github.com/org/repo"] {
        assert_eq!(FilePath::try_from(&text(s)), Err(unknown(s)));
        assert_eq!(Folder::try_from(&text(s)), Err(unknown(s)));
    }
}

#[test]
fn named_from_segments_follows_the_grammar() {
    let value = text("numpy@1");
    let one = vec![text("numpy")];
    let two = vec![text("numpy"), text("1")];
    let three = vec![text("numpy"), text("1"), text("x")];
    assert_eq!(
        Named::from_segments(&value, &one, false),
        Ok(Named { name: text("numpy"), constraint: None })
    );
    assert_eq!(
        Named::from_segments(&value, &two, true),
        Ok(Named { name: text("numpy"), constraint: Some(text("1")) })
    );
    assert_eq!(
        Named::from_segments(&value, &two, false),
        Err(PoetryError::InvalidVersionConstraint { name: text("numpy"), version: text("1") })
    );
    assert_eq!(Named::from_segments(&value, &three, true), Err(unknown("numpy@1")));
    assert_eq!(Named::from_segments(&value, &Vec::new(), true), Err(unknown("numpy@1")));
    assert_eq!(Named::from_segments(&value, &vec![text("")], true), Err(unknown("numpy@1")));
}

#[test]
fn git_from_segments_follows_the_grammar() {
    let value = text("u#r");
    let url = |scheme: Scheme| Some(GitUrl { name: text("repo"), scheme });
    let one = vec![text("u")];
    let two = vec![text("u"), text("r")];
    let three = vec![text("u"), text("r"), text("s")];
    for scheme in [Scheme::Http, Scheme::Https, Scheme::Git, Scheme::Ssh, Scheme::GitSsh] {
        assert_eq!(
            Git::from_segments(&value, &one, url(scheme)),
            Ok(Git { name: text("repo"), url: text("u#r"), revision: None })
        );
        assert_eq!(
            Git::from_segments(&value, &two, url(scheme)),
            Ok(Git { name: text("repo"), url: text("u#r"), revision: Some(text("r")) })
        );
        assert_eq!(Git::from_segments(&value, &three, url(scheme)), Err(unknown("u#r")));
        assert_eq!(Git::from_segments(&value, &Vec::new(), url(scheme)), Err(unknown("u#r")));
    }
    for scheme in [Scheme::File, Scheme::Ftp, Scheme::Ftps, Scheme::Unspecified] {
        assert_eq!(Git::from_segments(&value, &one, url(scheme)), Err(unknown("u#r")));
    }
    assert_eq!(Git::from_segments(&value, &one, None), Err(unknown("u#r")));
}

#[test]
fn list_is_classified_in_order() {
    let list = vec![text("numpy"), text("https://github.com/org/repo.git#main"), text("requests@2")];
    let packages = Packages::try_from(&list).unwrap();
    assert_eq!(
        packages.packages,
        vec![
            PackageFormat::Named(Named { name: text("numpy"), constraint: None }),
            PackageFormat::Git(Git {
                name: text("repo"),
                url: text("https://github.com/org/repo.git#main"),
                revision: Some(text("main")),
            }),
            PackageFormat::Named(Named { name: text("requests"), constraint: Some(text("2")) }),
        ]
    );
}

#[test]
fn list_fails_with_its_first_error() {
    let list = vec![text("numpy"), text("a@b@c"), text("x@@"), text("")];
    assert_eq!(
        Packages::try_from(&list),
        Err(PoetryError::InvalidVersionConstraint { name: text("a"), version: text("b") })
    );
    let list = vec![text("numpy"), text(""), text("a@b")];
    assert_eq!(Packages::try_from(&list), Err(unknown("")));
    assert_eq!(Packages::try_from(&Vec::new()), Ok(Packages { packages: Vec::new() }));
}

#[test]
fn partition_keeps_order_within_each_kind() {
    let named = |s: &str| Named { name: text(s), constraint: None };
    let git = |s: &str| Git { name: text(s), url: text(s), revision: None };
    let packages = Packages {
        packages: vec![
            PackageFormat::Git(git("g1")),
            PackageFormat::Named(named("n1")),
            PackageFormat::FilePath(FilePath { file_path: text("f") }),
            PackageFormat::Named(named("n2")),
            PackageFormat::Folder(Folder { folder_path: text("d") }),
            PackageFormat::Git(git("g2")),
        ],
    };
    let (nameds, gits) = packages.partition();
    assert_eq!(nameds, vec![named("n1"), named("n2")]);
    assert_eq!(gits, vec![git("g1"), git("g2")]);
}

#[test]
fn split_cuts_at_every_separator() {
    assert_eq!(split("a@b@c", '@'), vec!["a", "b", "c"]);
    assert_eq!(split("abc", '@'), vec!["abc"]);
    assert_eq!(split("", '@'), vec![""]);
    assert_eq!(split("@", '@'), vec!["", ""]);
    assert_eq!(split("a@", '@'), vec!["a", ""]);
    assert_eq!(split("@a", '@'), vec!["", "a"]);
    assert_eq!(split("a@@b", '@'), vec!["a", "", "b"]);
    assert_eq!(split("é#ü", '#'), vec!["é", "ü"]);
}

#[test]
fn chars_and_equal() {
    assert_eq!(chars("aé"), vec!['a', 'é']);
    assert_eq!(chars(""), Vec::<char>::new());
    assert!(equal("ssh", "ssh"));
    assert!(equal("", ""));
    assert!(!equal("ssh", "ssH"));
    assert!(!equal("ssh", "sshx"));
}

#[test]
fn parts_of_a_path() {
    assert_eq!(count_parts(""), 0);
    assert_eq!(count_parts("/"), 1);
    assert_eq!(count_parts("a"), 1);
    assert_eq!(count_parts("a/b"), 2);
    assert_eq!(count_parts("a/b/"), 2);
    assert_eq!(count_parts("/a/b/c"), 4);
    assert_eq!(count_parts("//"), 2);
}

#[test]
fn readable_normal_forms() {
    let url = |scheme: &str, host: Option<&str>, path: &str| {
        Some(NormalUrl { scheme: text(scheme), host: host.map(text), path: text(path) })
    };
    assert!(is_readable(&None));
    assert!(is_readable(&url("https", Some("github.com"), "/org/repo")));
    assert!(is_readable(&url("https", Some("github.com"), "/")));
    assert!(is_readable(&url("ssh", Some("github.com"), "/a")));
    assert!(!is_readable(&url("ssh", Some("github.com"), "/")));
    assert!(!is_readable(&url("ssh", None, "a")));
    assert!(!is_readable(&url("ssh", Some("github.com"), "")));
    assert!(is_readable(&url("file", None, "/")));
    assert!(!is_readable(&url("https", Some("dev.azure.com"), "/a/b")));
    assert!(is_readable(&url("https", Some("dev.azure.com"), "/a/b/c")));
    assert!(!is_readable(&url("https", Some("ssh.dev.azure.com"), "/a/b")));
    assert!(!is_readable(&url("ssh", Some("ssh.dev.azure.com"), "/v3/Org")));
    assert!(is_readable(&url("ssh", Some("ssh.dev.azure.com"), "/v3/Org/Proj")));
    assert!(is_readable(&url("http", Some("dev.azure.com"), "/a")));
    assert!(is_readable(&url("https", Some("Dev.azure.com"), "/a")));
}
