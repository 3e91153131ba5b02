use codetrackr::extension::{
    asset_name, binary_name, find_asset, get_env, server_command, target_triple, Architecture,
    BinaryStep, CodeTrackrExtension, Os, ServerSettings,
};

fn env(pairs: &[(&str, &str)]) -> Vec<(String, String)> {
    pairs.iter().map(|(k, v)| (k.to_string(), v.to_string())).collect()
}

#[test]
fn target_triples_and_assets() {
    assert_eq!(target_triple(Os::Linux, Architecture::X8664), "x86_64-unknown-linux-gnu");
    assert_eq!(target_triple(Os::Mac, Architecture::Aarch64), "aarch64-apple-darwin");
    assert_eq!(target_triple(Os::Windows, Architecture::X86), "x86-pc-windows-msvc");
    assert_eq!(asset_name(Os::Mac, Architecture::X8664), "codetrackr-ls-x86_64-apple-darwin");
    assert_eq!(binary_name(Os::Windows), "codetrackr-ls.exe");
    assert_eq!(binary_name(Os::Linux), "codetrackr-ls");
    assert_eq!(binary_name(Os::Mac), "codetrackr-ls");
}

#[test]
fn find_asset_takes_the_first_match() {
    let names = vec!["a".to_string(), "b".to_string(), "b".to_string()];
    assert_eq!(find_asset(&names, "b"), Some(1));
    assert_eq!(find_asset(&names, "c"), None);
    assert_eq!(find_asset(&[], "a"), None);
}

#[test]
fn get_env_first_entry_wins_and_empty_is_unset() {
    let e = env(&[("A", "1"), ("B", ""), ("A", "2"), ("B", "3")]);
    assert_eq!(get_env(&e, "A"), Some("1".to_string()));
    assert_eq!(get_env(&e, "B"), None);
    assert_eq!(get_env(&e, "C"), None);
}

#[test]
fn server_settings_defaults() {
    let s = ServerSettings::from_shell_env(&env(&[("CODETRACKR_BASE_URL", "")]));
    assert_eq!(s.api_key, "");
    assert_eq!(s.base_url, "https://codetrackr.fly.dev");
    let s = ServerSettings::from_shell_env(&env(&[
        ("CODETRACKR_API_KEY", "k"),
        ("CODETRACKR_BASE_URL", "http://localhost:8080"),
    ]));
    assert_eq!(s.api_key, "k");
    assert_eq!(s.base_url, "http://localhost:8080");
}

#[test]
fn server_command_passes_settings() {
    let s = ServerSettings { api_key: "k".to_string(), base_url: "u".to_string() };
    let c = server_command("/bin/ls".to_string(), s);
    assert_eq!(c.command, "/bin/ls");
    assert!(c.args.is_empty());
    assert_eq!(
        c.env,
        vec![
            ("CODETRACKR_API_KEY".to_string(), "k".to_string()),
            ("CODETRACKR_BASE_URL".to_string(), "u".to_string())
        ]
    );
}

fn step_path(s: BinaryStep) -> Option<String> {
    match s {
        BinaryStep::Use(p) => Some(p),
        _ => None,
    }
}

#[test]
fn extension_caches_the_binary_path() {
    let mut e = CodeTrackrExtension::new();
    assert!(matches!(e.first_step(), BinaryStep::SearchPath));
    assert_eq!(e.finish_install(Err("no release".to_string())), Err("no release".to_string()));
    assert!(e.cached_binary_path.is_none());
    assert!(matches!(e.first_step(), BinaryStep::SearchPath));
    assert_eq!(
        e.finish_install(Ok("/x/codetrackr-ls".to_string())),
        Ok("/x/codetrackr-ls".to_string())
    );
    assert_eq!(step_path(e.first_step()), Some("/x/codetrackr-ls".to_string()));
    assert_eq!(e.finish_install(Err("later".to_string())), Err("later".to_string()));
    assert_eq!(step_path(e.first_step()), Some("/x/codetrackr-ls".to_string()));
}

#[test]
fn path_search_comes_before_download() {
    assert_eq!(
        step_path(CodeTrackrExtension::after_path_search(Some("/usr/bin/codetrackr-ls".to_string()))),
        Some("/usr/bin/codetrackr-ls".to_string())
    );
    assert!(matches!(CodeTrackrExtension::after_path_search(None), BinaryStep::Download));
}
