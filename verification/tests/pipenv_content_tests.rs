use pipenv_uv::package::Package;
use pipenv_uv::pipenv::Pipenv;
use pipenv_uv::pipenv_content::{PipenvContent, PipenvUVInterface};
use pipenv_uv::source::{Source, UVSource};

#[test]
fn test_export_project_part() {
    let packages = vec![
        Package {
            name: "requests".to_string(),
            version: "2.25.1".to_string(),
            index: None,
            extras: None,
            is_dev: false,
        },
        Package {
            name: "uvicorn".to_string(),
            version: "0.14.0".to_string(),
            index: None,
            extras: None,
            is_dev: true,
        },
    ];

    let pipenv = Pipenv {
        python_version: "3.8".to_string(),
        allow_prereleases: Some("true".to_string()),
    };

    let sources = vec![Source {
        name: "pypi".to_string(),
        url: "https://pypi.org/simple".to_string(),
        verify_ssl: Some("true".to_string()),
    }];

    let pipenv_content = PipenvContent { packages, pipenv, sources };

    let (_, dev_packages, indexed_packages) = pipenv_content._export_project_part();

    assert_eq!(dev_packages.len(), 1);
    assert_eq!(indexed_packages.len(), 0);
}

#[test]
fn test_prepare_dev_dependencies() {
    let packages = vec![
        Package {
            name: "requests".to_string(),
            version: "==2.25.1".to_string(),
            index: None,
            extras: None,
            is_dev: true,
        },
        Package {
            name: "uvicorn".to_string(),
            version: "==0.14.0".to_string(),
            index: None,
            extras: None,
            is_dev: true,
        },
    ];

    let pipenv_content = PipenvContent {
        packages,
        pipenv: Pipenv {
            python_version: "3.8".to_string(),
            allow_prereleases: Some("true".to_string()),
        },
        sources: vec![],
    };

    let packages_dup: Vec<&Package> = pipenv_content.packages.iter().collect();

    let lines = pipenv_content._prepare_dev_dependencies(packages_dup);

    assert_eq!(
        lines,
        "[dependency-groups]\ndev = [\n\t\"requests==2.25.1\",\n\t\"uvicorn==0.14.0\",\n]\n"
    );
}

#[test]
fn test_prepare_sources() {
    let sources = vec![Source {
        name: "pypi".to_string(),
        url: "https://pypi.org/simple".to_string(),
        verify_ssl: Some("true".to_string()),
    }];

    let pipenv_content = PipenvContent {
        packages: vec![],
        pipenv: Pipenv {
            python_version: "3.8".to_string(),
            allow_prereleases: Some("true".to_string()),
        },
        sources,
    };
    let packages_dup: Vec<&Package> = pipenv_content.packages.iter().collect();

    let lines = pipenv_content._prepare_sources(packages_dup);

    assert_eq!(lines.lines().count(), 5);
}

#[test]
fn test_source_as_uv_ignores_verify_ssl() {
    let with_ssl = Source {
        name: "pypi".to_string(),
        url: "https://pypi.org/simple".to_string(),
        verify_ssl: Some("true".to_string()),
    };
    let without_ssl = Source {
        name: "pypi".to_string(),
        url: "https://pypi.org/simple".to_string(),
        verify_ssl: None,
    };

    assert_eq!(with_ssl.as_uv(), without_ssl.as_uv());
    assert_eq!(
        with_ssl.as_uv(),
        "name = \"pypi\"\nurl = \"https://pypi.org/simple\"\nexplicit = true"
    );
}

#[test]
fn test_indexed_package_reaches_sources_table() {
    let packages = vec![
        Package {
            name: "internal_tool".to_string(),
            version: ">=1.0".to_string(),
            index: Some("corp".to_string()),
            extras: None,
            is_dev: false,
        },
        Package {
            name: "debugger".to_string(),
            version: "*".to_string(),
            index: Some("corp".to_string()),
            extras: None,
            is_dev: true,
        },
    ];
    let sources = vec![Source {
        name: "corp".to_string(),
        url: "https://corp.example/simple".to_string(),
        verify_ssl: None,
    }];
    let pipenv_content = PipenvContent {
        packages,
        pipenv: Pipenv { python_version: "3.11".to_string(), allow_prereleases: None },
        sources,
    };

    let out = pipenv_content.export();

    // the non-dev indexed package appears in the source-mapping table
    assert!(out.contains("[tool.uv.sources]\ninternal_tool = {index=\"corp\"}\n"));
    // the dev indexed package does not
    assert!(!out.contains("debugger = {index="));
}
