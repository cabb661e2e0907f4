use pipenv_uv::package::{Package, UVPackage};

#[test]
fn test_as_uv_with_extras() {
    let package = Package {
        name: "requests".to_string(),
        version: "==2.25.1".to_string(),
        index: None,
        extras: Some(vec!["socks".to_string()]),
        is_dev: false,
    };

    let expected = r#""requests[socks]==2.25.1""#;
    let result = package.as_uv();
    assert_eq!(result, expected);
}

#[test]
fn test_state_source() {
    let package = Package {
        name: "requests".to_string(),
        version: "2.25.1".to_string(),
        index: Some("pypi".to_string()),
        extras: None,
        is_dev: false,
    };

    let expected = "requests = {index=\"pypi\"}".to_string();
    assert_eq!(package.state_source(), expected);
}

#[test]
fn test_as_uv_star_version_suppressed() {
    let package = Package {
        name: "flask".to_string(),
        version: "*".to_string(),
        index: None,
        extras: None,
        is_dev: false,
    };

    assert_eq!(package.as_uv(), "\"flask\"");
}

#[test]
fn test_as_uv_two_extras_in_order() {
    let package = Package {
        name: "uvicorn".to_string(),
        version: ">=0.14.0".to_string(),
        index: None,
        extras: Some(vec!["standard".to_string(), "watch".to_string()]),
        is_dev: false,
    };

    assert_eq!(package.as_uv(), "\"uvicorn[standard,watch]>=0.14.0\"");
}
