use benito_core::dev_paths::{bundled_openclaw_prompts_dir, repo_ai_prompts_dir, DirPath};
use benito_core::whisper_engine::{
    is_loaded, load_engine, load_engine_from_path, new_handle, transcribe_pcm_i16,
    transcribe_wav_file, EngineError, TranscriptionResult,
};

fn path(anchor: &str, names: &[&str]) -> DirPath {
    DirPath {
        anchor: anchor.as_bytes().to_vec(),
        names: names.iter().map(|n| n.as_bytes().to_vec()).collect(),
    }
}

fn written(p: &DirPath) -> String {
    let names: Vec<String> =
        p.names.iter().map(|n| String::from_utf8(n.clone()).unwrap()).collect();
    format!("{}{}", String::from_utf8(p.anchor.clone()).unwrap(), names.join("/"))
}

#[test]
fn bundle_places_are_tried_in_order() {
    let dir = path("/", &["opt", "app"]);
    let places = [
        "/opt/app/Benito/agent/prompts",
        "/opt/app/prompts",
        "/opt/app/ai",
        "/opt/app/src/Benito/agent/prompts",
    ];
    for first in 0..4 {
        let found = bundled_openclaw_prompts_dir(&dir, |p: &DirPath| {
            places[first..].contains(&written(p).as_str())
        });
        assert_eq!(found.map(|p| written(&p)), Some(places[first].to_string()));
    }
    assert_eq!(bundled_openclaw_prompts_dir(&dir, |_: &DirPath| false), None);
}

#[test]
fn nearest_source_tree_wins() {
    let cwd = path("/", &["home", "me", "repo", "deep"]);
    let found = repo_ai_prompts_dir(&cwd, |p: &DirPath| {
        let text = written(p);
        text == "/home/me/repo/src/Benito/agent/prompts" || text == "/src/Benito/agent/prompts"
    });
    assert_eq!(
        found.map(|p| written(&p)),
        Some("/home/me/repo/src/Benito/agent/prompts".to_string())
    );
}

#[test]
fn working_directory_itself_is_tried_first() {
    let cwd = path("", &["repo"]);
    let found = repo_ai_prompts_dir(&cwd, |_: &DirPath| true);
    assert_eq!(found.map(|p| written(&p)), Some("repo/src/Benito/agent/prompts".to_string()));
}

#[test]
fn search_goes_up_to_the_root() {
    let cwd = path("/", &["a", "b"]);
    let found =
        repo_ai_prompts_dir(&cwd, |p: &DirPath| written(p) == "/src/Benito/agent/prompts");
    assert_eq!(found.map(|p| written(&p)), Some("/src/Benito/agent/prompts".to_string()));
}

#[test]
fn search_goes_no_more_than_eight_up() {
    let eight = path("/", &["1", "2", "3", "4", "5", "6", "7", "8"]);
    let nine = path("/", &["0", "1", "2", "3", "4", "5", "6", "7", "8"]);
    let at_root = |p: &DirPath| written(p) == "/src/Benito/agent/prompts";
    assert!(repo_ai_prompts_dir(&eight, at_root).is_some());
    assert!(repo_ai_prompts_dir(&nine, at_root).is_none());
}

#[test]
fn disabled_engine_loads_and_hears_nothing() {
    let handle = new_handle();
    let model = path("", &["model.bin"]);
    assert!(!is_loaded(&handle));
    assert_eq!(load_engine(&handle, &model, true, Some("gpu")), Err(EngineError::Disabled));
    assert!(matches!(load_engine_from_path(&model), Err(EngineError::Disabled)));
    assert_eq!(
        transcribe_pcm_i16(&handle, &[1, 2, 3], Some("en"), None),
        Ok(TranscriptionResult {
            text: String::new(),
            avg_logprob: None,
            segments_accepted: 0,
            segments_total: 0,
        })
    );
    assert_eq!(
        transcribe_wav_file(&handle, &model, None, None),
        Err("whisper-rs disabled: requires libclang for whisper-rs-sys build".to_string())
    );
    assert!(!is_loaded(&handle));
    assert_eq!(
        EngineError::Disabled.message(),
        "whisper-rs disabled: requires libclang for whisper-rs-sys build"
    );
}

#[test]
fn new_engine_handle_is_empty_and_unlocked() {
    let handle = new_handle();
    assert!(handle.try_lock().is_some());
    assert!(handle.lock().is_none());
    for n in 0..3 {
        let refused = load_engine(&handle, &path("", &["model.bin"]), n == 1, None);
        assert_eq!(refused, Err(EngineError::Disabled));
        assert!(handle.lock().is_none());
    }
}
