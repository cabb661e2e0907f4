use pipenv_uv::errors::ParseError;
use pipenv_uv::pipenv::{Pipenv, PipenvRequirements};

#[test]
fn test_set_py_version() {
    let mut pipenv = Pipenv { python_version: "".to_string(), allow_prereleases: None };

    pipenv.set_py_version("python_version = \"3.8\"").unwrap();
    assert_eq!(pipenv.python_version, "3.8");
}

#[test]
fn test_set_prereleases_status() {
    let mut pipenv = Pipenv { python_version: "".to_string(), allow_prereleases: None };

    pipenv.set_prereleases_status("allow_prereleases = true").unwrap();
    assert_eq!(pipenv.allow_prereleases.unwrap(), "true");
}

#[test]
fn test_set_py_version_without_separator_is_malformed() {
    let mut pipenv = Pipenv { python_version: "".to_string(), allow_prereleases: None };

    let r = pipenv.set_py_version("python_version");
    assert_eq!(r, Err(ParseError::MalformedLine));
    assert_eq!(pipenv.python_version, "");
}

#[test]
fn test_new_pipenv_is_empty() {
    let pipenv: Pipenv = PipenvRequirements::new();
    assert_eq!(pipenv.python_version, "");
    assert!(pipenv.allow_prereleases.is_none());
}
