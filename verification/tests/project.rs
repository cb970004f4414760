use antman::downloader::{crate_downloader_config, DownloaderConfig, Span};
use antman::handler::find_crate_root_path;
use antman::krate::{LIB_TA, MAIN_TA};
use antman::project::{
    create_project_plan, manifest_text, ProjectError, ProjectType, GITIGNORE_CONTENT,
    LIB_CONTENT, MAIN_CONTENT,
};
use antman::utils::get_antc_path;

#[test]
fn bin_manifest_text() {
    assert_eq!(manifest_text("demo", false), "[package]\nname = \"demo\"\nversion = \"0.1.0\"\n");
}

#[test]
fn lib_manifest_text_has_lib_table() {
    assert_eq!(
        manifest_text("demo", true),
        "[package]\nname = \"demo\"\nversion = \"0.1.0\"\n\n[lib]\nname = \"demo\"\nversion = \"0.1.0\"\n"
    );
}

#[test]
fn manifest_text_parses_back() {
    let text = manifest_text("we\"ird name", true);
    let doc: toml_edit::DocumentMut = text.parse().unwrap();
    assert_eq!(doc["package"]["name"].as_str(), Some("we\"ird name"));
    assert_eq!(doc["lib"]["version"].as_str(), Some("0.1.0"));
}

#[test]
fn bin_project_files() {
    let f = create_project_plan("demo", "bin").unwrap();
    assert_eq!(f.manifest, manifest_text("demo", false));
    assert_eq!(f.source_file, MAIN_TA);
    assert_eq!(f.source_content, MAIN_CONTENT);
    assert_eq!(f.gitignore, GITIGNORE_CONTENT);
    assert_eq!(MAIN_CONTENT, "func main() -> i32 {\n    0i32\n}");
}

#[test]
fn lib_project_files() {
    let f = create_project_plan("demo", "lib").unwrap();
    assert_eq!(f.manifest, manifest_text("demo", true));
    assert_eq!(f.source_file, LIB_TA);
    assert_eq!(f.source_content, LIB_CONTENT);
}

#[test]
fn unknown_project_kind_is_refused() {
    match create_project_plan("demo", "dylib") {
        Err(ProjectError::InvalidKind(k)) => assert_eq!(k, "dylib"),
        Ok(_) => panic!("accepted an unknown kind"),
    }
    assert!(create_project_plan("demo", "").is_err());
    assert!(create_project_plan("demo", "Bin").is_err());
}

#[test]
fn project_type_kind_name() {
    assert_eq!(ProjectType { bin: true, lib: false }.kind_name(), "bin");
    assert_eq!(ProjectType { bin: false, lib: true }.kind_name(), "lib");
}

#[test]
fn default_downloader_config() {
    let c = DownloaderConfig::default();
    assert_eq!(c.max_concurrent_downloads, 8);
    assert_eq!((c.timeout.as_secs(), c.timeout.subsec_nanos()), (30, 0));
    assert_eq!(c.user_agent.as_deref(), Some("Mozilla/5.0 (compatible; Downloader/1.0)"));
    assert_eq!(c.retry_attempts, 5);
    assert_eq!((c.retry_delay.as_secs(), c.retry_delay.subsec_nanos()), (1, 0));
    let k = crate_downloader_config();
    assert_eq!(k.max_concurrent_downloads, 12);
    assert!(k.user_agent.unwrap().contains("Edg/140.0.0.0"));
    assert_eq!(k.retry_attempts, 5);
}

fn attempts_until_give_up(config: &DownloaderConfig) -> u32 {
    let mut attempt = 1;
    loop {
        match config.retry_after_failure(attempt) {
            None => return attempt,
            Some(next) => attempt = next,
        }
    }
}

#[test]
fn failing_download_is_tried_retry_attempts_times() {
    let mut c = DownloaderConfig::default();
    assert_eq!(attempts_until_give_up(&c), 5);
    c.retry_attempts = 0;
    assert_eq!(attempts_until_give_up(&c), 1);
    c.retry_attempts = 1;
    assert_eq!(attempts_until_give_up(&c), 1);
    assert_eq!(c.retry_after_failure(u32::MAX), None);
}

#[test]
fn root_is_nearest_dir_with_manifest() {
    let r = find_crate_root_path("/a/b/c".to_string(), |p: &str| p == "/a");
    assert_eq!(r.as_deref(), Some("/a"));
    let here = find_crate_root_path("/a/b".to_string(), |p: &str| p == "/a/b" || p == "/a");
    assert_eq!(here.as_deref(), Some("/a/b"));
    let rel = find_crate_root_path("x/y".to_string(), |p: &str| p.is_empty());
    assert_eq!(rel.as_deref(), Some(""));
}

#[test]
fn no_root_without_manifest() {
    assert_eq!(find_crate_root_path("/a/b".to_string(), |_p: &str| false), None);
    assert_eq!(find_crate_root_path("".to_string(), |_p: &str| false), None);
}

#[test]
fn antc_path_precedence() {
    let never = || -> Option<String> { panic!("looked beside the executable") };
    assert_eq!(get_antc_path(Some("env".to_string()), Some("cfg".to_string()), never), Some("env".to_string()));
    assert_eq!(get_antc_path(None, Some("cfg".to_string()), never), Some("cfg".to_string()));
    assert_eq!(get_antc_path(None, None, || Some("exe".to_string())), Some("exe".to_string()));
    assert_eq!(get_antc_path(None, None, || None), None);
}

#[test]
fn span_keeps_subsecond_part() {
    let s = Span::from_parts(2, 500_000_000).unwrap();
    assert_eq!((s.as_secs(), s.subsec_nanos()), (2, 500_000_000));
    assert!(Span::from_parts(0, 1_000_000_000).is_none());
    assert_eq!(Span::from_secs(7), Span::from_parts(7, 0).unwrap());
    let mut c = DownloaderConfig::default();
    c.retry_delay = Span::from_parts(0, 250_000_000).unwrap();
    assert_eq!(c.retry_delay.subsec_nanos(), 250_000_000);
}
