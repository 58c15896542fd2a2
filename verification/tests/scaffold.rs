use poetry::add::Options as AddOptions;
use poetry::document::{Poetry, PyProject, Tool};
use poetry::error::{IoErrorKind, PoetryError};
use poetry::init::license::{write_decimal, Kind, License, LicenseFormatOptions};
use poetry::init::{bare_project, license_from_options, sanity_checks, Options, PathState};

fn text(s: &str) -> String {
    s.to_string()
}

fn options(license: Option<Kind>) -> Options {
    Options {
        path: text("/tmp/demo"),
        name: text("demo"),
        description: text("a demonstration"),
        author: text("Ada"),
        license,
    }
}

#[test]
fn project_can_stand_where_nothing_is() {
    assert_eq!(sanity_checks(&options(None), PathState::Missing), Ok(()));
}

#[test]
fn project_can_stand_in_an_empty_directory() {
    assert_eq!(sanity_checks(&options(None), PathState::Directory { empty: true }), Ok(()));
}

#[test]
fn project_cannot_stand_on_a_file() {
    assert_eq!(
        sanity_checks(&options(None), PathState::NotDirectory),
        Err(PoetryError::IoError {
            kind: IoErrorKind::InvalidData,
            message: text("`/tmp/demo` is not a directory"),
        })
    );
}

#[test]
fn project_cannot_stand_in_a_directory_with_entries() {
    assert_eq!(
        sanity_checks(&options(None), PathState::Directory { empty: false }),
        Err(PoetryError::IoError {
            kind: IoErrorKind::DirectoryNotEmpty,
            message: text("`/tmp/demo` is not an empty directory"),
        })
    );
}

#[test]
fn first_manifest_of_a_project() {
    let expected = |license: Option<&str>| PyProject {
        tool: Tool {
            poetry: Poetry {
                name: text("demo"),
                version: text("0.1.0"),
                description: text("a demonstration"),
                license: license.map(text),
                authors: None,
                maintainers: None,
                readme: None,
                url: None,
                repository: None,
                documentation: None,
                dependency: None,
            },
        },
    };
    assert_eq!(bare_project(&options(None)), expected(None));
    assert_eq!(bare_project(&options(Some(Kind::Mit))), expected(Some("MIT")));
    assert_eq!(bare_project(&options(Some(Kind::Apache2))), expected(Some("Apache-2.0")));
}

#[test]
fn license_identifiers() {
    assert_eq!(Kind::Mit.to_string(), "MIT");
    assert_eq!(Kind::Apache2.to_string(), "Apache-2.0");
}

#[test]
fn license_by_identifier_in_any_case() {
    for id in ["mit", "MIT", "Mit", "mIt"] {
        assert_eq!(Kind::try_from(text(id)), Ok(Kind::Mit));
    }
    for id in ["apache-2.0", "Apache-2.0", "APACHE-2.0"] {
        assert_eq!(Kind::try_from(text(id)), Ok(Kind::Apache2));
    }
}

#[test]
fn unknown_license_keeps_the_identifier_as_written() {
    for id in ["", "GPL", "mit ", "apache", "Apache 2.0", "apache-2"] {
        assert_eq!(Kind::try_from(text(id)), Err(PoetryError::UnknownLicense { license: text(id) }));
    }
}

#[test]
fn license_from_lowercase() {
    assert_eq!(Kind::from_lowercase("mit", text("MIT")), Ok(Kind::Mit));
    assert_eq!(Kind::from_lowercase("apache-2.0", text("x")), Ok(Kind::Apache2));
    assert_eq!(
        Kind::from_lowercase("MIT", text("MIT")),
        Err(PoetryError::UnknownLicense { license: text("MIT") })
    );
}

#[test]
fn options_with_every_default() {
    let options = AddOptions::with_defaults(vec![text("numpy")], None, None, None, None, text("/p"));
    assert_eq!(
        options,
        AddOptions {
            deps: vec![text("numpy")],
            group: text("main"),
            dev: false,
            extras: Vec::new(),
            dry_run: false,
            working_directory: text("/p"),
        }
    );
}

#[test]
fn options_as_given() {
    let options = AddOptions::with_defaults(
        Vec::new(),
        Some(text("docs")),
        Some(true),
        Some(vec![text("security")]),
        Some(true),
        text("."),
    );
    assert_eq!(
        options,
        AddOptions {
            deps: Vec::new(),
            group: text("docs"),
            dev: true,
            extras: vec![text("security")],
            dry_run: true,
            working_directory: text("."),
        }
    );
    let options = AddOptions::with_defaults(Vec::new(), None, Some(false), None, Some(false), text("."));
    assert!(!options.dev && !options.dry_run);
}

#[test]
fn license_text_is_filled_in() {
    let license = |unfilled: Kind, year: i32| License {
        unfilled,
        fmt_options: LicenseFormatOptions { name: text("Ada Lovelace"), year },
    };
    let mit = license(Kind::Mit, 2024).to_string();
    assert!(mit.starts_with("MIT License\n\nCopyright (c) 2024 Ada Lovelace\n\nPermission is hereby"));
    assert!(mit.ends_with("DEALINGS IN THE\nSOFTWARE.\n"));
    let apache = license(Kind::Apache2, 1999).to_string();
    assert!(apache.starts_with("Copyright 1999 Ada Lovelace\n\nLicensed under the Apache License"));
    assert!(apache.ends_with("limitations under the License.\n"));
}

#[test]
fn integers_in_decimal() {
    for n in [0, 7, 10, 99, 100, 2024, -1, -10, -2024, i32::MAX, i32::MIN, 1000000007] {
        let mut out = text("y=");
        write_decimal(n, &mut out);
        assert_eq!(out, format!("y={}", n));
    }
}

#[test]
fn license_of_a_new_project() {
    assert_eq!(license_from_options(&options(None), 2024), None);
    let mit = license_from_options(&options(Some(Kind::Mit)), 2024).unwrap();
    assert!(mit.contains("Copyright (c) 2024 demo\n"));
    let apache = license_from_options(&options(Some(Kind::Apache2)), -44).unwrap();
    assert!(apache.starts_with("Copyright -44 demo\n"));
}
