use pipenv_uv::errors::ParseError;
use pipenv_uv::pipenv_content::PipenvUVInterface;
use pipenv_uv::processors::{parse_lines, parse_package, parse_packages_block, parse_pipenv_block,
    parse_source_block, process_previous_buffer, BufferResultEnum};

#[test]
fn test_parse_source_block() {
    let source_block = vec![
        String::from("name = \"pypi\""),
        String::from("url = \"https://pypi.org/simple\""),
        String::from("verify_ssl = \"true\""),
    ];

    let source = parse_source_block(&source_block).unwrap();

    assert_eq!(source.name, "pypi");
    assert_eq!(source.url, "https://pypi.org/simple");
    assert_eq!(source.verify_ssl.unwrap(), "true");
}

#[test]
fn test_parse_pipenv_block() {
    let pipenv_block = vec![
        String::from("python_version = \"3.8\""),
        String::from("allow_prereleases = true"),
    ];

    let pipenv = parse_pipenv_block(&pipenv_block).unwrap();

    assert_eq!(pipenv.python_version, "3.8");
    assert_eq!(pipenv.allow_prereleases.unwrap(), "true");
}

#[test]
fn test_parse_package() {
    let package_line = String::from("requests = {version=\">=2.25.1\", extras=[socks]}");

    let package = parse_package(&package_line, false);

    assert_eq!(package.name, "requests");
    assert_eq!(package.version, ">=2.25.1");
    assert_eq!(package.extras.unwrap(), vec!["socks".to_string()]);
}

#[test]
fn test_parse_packages_block() {
    let packages_block = vec![
        String::from("requests = \">=2.25.1\""),
        String::from("requests = {version=\">=2.25.1\", extras=[socks]}"),
    ];

    let packages = parse_packages_block(&packages_block, false);

    assert_eq!(packages.len(), 2);
}

#[test]
fn test_parse_package_bare_name() {
    let package = parse_package("  requests  ", true);

    assert_eq!(package.name, "requests");
    assert_eq!(package.version, "");
    assert!(package.index.is_none());
    assert!(package.extras.is_none());
    assert!(package.is_dev);
}

#[test]
fn test_parse_package_with_index() {
    let package = parse_package("tool = {version=\"==1.2\", index=\"corp\"}", false);

    assert_eq!(package.name, "tool");
    assert_eq!(package.version, "==1.2");
    assert_eq!(package.index.unwrap(), "corp");
    assert!(package.extras.is_none());
}

#[test]
fn test_parse_package_quoted_extras() {
    let package = parse_package("requests = {extras=[\"socks\",\"security\"]}", false);

    // no version pattern in the map: the whole braced token is the version
    assert_eq!(package.version, "{extras=[\"socks\",\"security\"]}");
    assert_eq!(
        package.extras.unwrap(),
        vec!["socks".to_string(), "security".to_string()]
    );
}

#[test]
fn test_parse_package_extras_with_space_not_captured() {
    // a space inside the bracketed list does not fit the extras pattern
    let package = parse_package("requests = {version=\"==2.0\", extras=[socks, asyncio]}", false);

    assert_eq!(package.version, "==2.0");
    assert!(package.extras.is_none());
}

#[test]
fn test_parse_source_block_missing_url() {
    let source_block = vec![String::from("name = \"pypi\"")];

    assert!(matches!(parse_source_block(&source_block), Err(ParseError::MissingField)));
}

#[test]
fn test_parse_source_block_malformed_line() {
    let source_block = vec![String::from("name = \"pypi\""), String::from("no separator here")];

    assert!(matches!(parse_source_block(&source_block), Err(ParseError::MalformedLine)));
}

#[test]
fn test_parse_pipenv_block_missing_python_version() {
    let pipenv_block = vec![String::from("allow_prereleases = true")];

    assert!(matches!(parse_pipenv_block(&pipenv_block), Err(ParseError::MissingField)));
}

#[test]
fn test_process_previous_buffer_unknown_block() {
    let buffer = vec![String::from("whatever = 1")];

    let r = process_previous_buffer("scripts", &buffer).unwrap();
    assert!(matches!(r, BufferResultEnum::Unknown));
}

#[test]
fn test_parse_lines_end_to_end() {
    let lines = vec![
        String::from("[packages]"),
        String::from("requests = {version=\">=2.25.1\", extras=[socks]}"),
        String::from("flask = \"*\""),
        String::from("[dev-packages]"),
        String::from("black = \"==24.0\""),
    ];

    let content = parse_lines(&lines).unwrap();
    let out = content.export();

    let expected = "[project]\nname = \"type-your-project-name-here\"\nversion = \"0.1.0\"\ndescription = \"Add your description here\"\nreadme = \"README.md\"\nrequires-python = \"\"\ndependencies = [\n\t\"requests[socks]>=2.25.1\",\n\t\"flask\",\n]\n\n[dependency-groups]\ndev = [\n\t\"black==24.0\",\n]\n\n";
    assert_eq!(out, expected);
}

#[test]
fn test_parse_lines_flushes_final_buffer() {
    // the last block has no trailing header and must still be dispatched
    let lines = vec![
        String::from("[source]"),
        String::from("name = \"pypi\""),
        String::from("url = \"https://pypi.org/simple\""),
    ];

    let content = parse_lines(&lines).unwrap();

    assert_eq!(content.sources.len(), 1);
    assert_eq!(content.sources[0].name, "pypi");
    assert_eq!(content.sources[0].url, "https://pypi.org/simple");
}

#[test]
fn test_parse_lines_settings_lines_outside_blocks() {
    let lines = vec![
        String::from("python_version = \"3.12\""),
        String::from("allow_prereleases = false"),
        String::from("[packages]"),
        String::from("# a comment line"),
        String::from(""),
        String::from("httpx = \"==0.27\""),
    ];

    let content = parse_lines(&lines).unwrap();

    assert_eq!(content.pipenv.python_version, "3.12");
    assert_eq!(content.pipenv.allow_prereleases.unwrap(), "false");
    assert_eq!(content.packages.len(), 1);
    assert_eq!(content.packages[0].name, "httpx");
    assert_eq!(content.packages[0].version, "==0.27");
}

#[test]
fn test_parse_lines_propagates_block_errors() {
    let lines = vec![
        String::from("[source]"),
        String::from("name = \"pypi\""),
        String::from("[packages]"),
    ];

    // the source block misses its url: fatal, no document
    assert!(parse_lines(&lines).is_err());
}
