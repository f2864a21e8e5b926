use rff::config::Config;
use rff::error::AppError;
use rff::fs::walker::FileWalker;
use std::io::Write;
use std::path::{Path, PathBuf};
use tempfile::{Builder, TempDir};

fn test_config(dir: &TempDir, all: bool) -> Config {
    Config {
        root: dir.path().to_string_lossy().into_owned(),
        all,
        multi: false,
        height: None,
        editor: "nano".into(),
    }
}

fn make_dir(parent: &Path, name: &str) -> PathBuf {
    let d = Builder::new()
        .prefix(name)
        .rand_bytes(0)
        .keep(true)
        .tempdir_in(parent)
        .unwrap();
    d.path().to_path_buf()
}

fn make_file(parent: &Path, name: &str, contents: &[u8]) {
    let mut f = Builder::new()
        .prefix(name)
        .rand_bytes(0)
        .keep(true)
        .tempfile_in(parent)
        .unwrap();
    f.write_all(contents).unwrap();
}

#[test]
fn respects_gitignore() -> Result<(), AppError> {
    let dir = TempDir::new().unwrap();

    make_file(dir.path(), ".gitignore", b"target/\n*.log\n");

    // Ignored files
    let target = make_dir(dir.path(), "target");
    make_file(&target, "debug.rs", b"");
    make_file(dir.path(), "app.log", b"");

    // Visible file
    let src = make_dir(dir.path(), "src");
    make_file(&src, "main.rs", b"");

    let cfg = test_config(&dir, false);
    let mut paths: Vec<String> = FileWalker::new(&cfg)
        .into_paths()
        .collect::<Result<Vec<_>, _>>()?;

    paths.sort();

    assert_eq!(paths, vec!["src/main.rs".to_string()]);
    Ok(())
}

#[test]
fn includes_ignored_when_all() -> Result<(), AppError> {
    let dir = TempDir::new().unwrap();

    make_file(dir.path(), ".gitignore", b"target/\n");
    let target = make_dir(dir.path(), "target");
    make_file(&target, "debug.rs", b"");
    let src = make_dir(dir.path(), "src");
    make_file(&src, "lib.rs", b"");

    let cfg = test_config(&dir, true);
    let paths: Vec<String> = FileWalker::new(&cfg)
        .into_paths()
        .collect::<Result<Vec<_>, _>>()?;

    let expected = ["src/lib.rs", "target/debug.rs"];
    for exp in expected {
        assert!(paths.contains(&exp.to_string()));
    }
    Ok(())
}

#[test]
fn skips_hidden_by_default() -> Result<(), AppError> {
    let dir = TempDir::new().unwrap();

    let cache = make_dir(dir.path(), ".cache");
    make_file(&cache, "secret.txt", b"");
    make_file(dir.path(), "README.md", b"");

    let cfg = test_config(&dir, false);
    let paths: Vec<String> = FileWalker::new(&cfg)
        .into_paths()
        .collect::<Result<Vec<_>, _>>()?;

    assert_eq!(paths, vec!["README.md".to_string()]);
    Ok(())
}

#[test]
fn emits_only_regular_files_relative() -> Result<(), AppError> {
    let dir = TempDir::new().unwrap();

    let src = make_dir(dir.path(), "src");
    make_file(&src, "mod.rs", b"");
    make_dir(dir.path(), "assets");

    let cfg = test_config(&dir, true);
    let paths: Vec<String> = FileWalker::new(&cfg)
        .into_paths()
        .collect::<Result<Vec<_>, _>>()?;

    assert_eq!(paths, vec!["src/mod.rs".to_string()]);
    Ok(())
}

#[test]
fn all_mode_surfaces_hidden_and_ignored() -> Result<(), AppError> {
    let dir = TempDir::new().unwrap();

    make_file(dir.path(), ".gitignore", b"target/\n*.log\n");
    let target = make_dir(dir.path(), "target");
    make_file(&target, "debug.rs", b"");
    make_file(dir.path(), "app.log", b"");
    let src = make_dir(dir.path(), "src");
    make_file(&src, "main.rs", b"");
    let cache = make_dir(dir.path(), ".cache");
    make_file(&cache, "secret.txt", b"");

    let cfg = test_config(&dir, true);
    let paths: Vec<String> = FileWalker::new(&cfg)
        .into_paths()
        .collect::<Result<Vec<_>, _>>()?;

    for exp in ["target/debug.rs", "src/main.rs", "app.log", ".cache/secret.txt", ".gitignore"] {
        assert!(paths.contains(&exp.to_string()));
    }
    Ok(())
}

#[test]
fn nested_ignore_file_applies() -> Result<(), AppError> {
    let dir = TempDir::new().unwrap();

    let src = make_dir(dir.path(), "src");
    make_file(&src, ".gitignore", b"gen.rs\n");
    make_file(&src, "gen.rs", b"");
    make_file(&src, "lib.rs", b"");

    let cfg = test_config(&dir, false);
    let mut paths: Vec<String> = FileWalker::new(&cfg)
        .into_paths()
        .collect::<Result<Vec<_>, _>>()?;
    paths.sort();

    assert_eq!(paths, vec!["src/lib.rs".to_string()]);
    Ok(())
}

#[test]
fn empty_root_yields_nothing() {
    let dir = TempDir::new().unwrap();
    let cfg = test_config(&dir, false);
    let w = FileWalker::new(&cfg);
    let paths: Vec<Result<String, AppError>> = w.into_paths().collect();
    assert!(paths.is_empty());
}
