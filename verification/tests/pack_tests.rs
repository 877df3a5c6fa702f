use gmod_wstool::steam::pack::{
    admit_file, archive_name_of, classify_file, default_ignores, is_ignored, pack_ignores,
    user_ignores, FileAction, PackArchive,
};

fn strings(v: &[&str]) -> Vec<String> {
    v.iter().map(|s| s.to_string()).collect()
}

#[test]
fn defaults_come_first() {
    let defaults = strings(&["*thumbs.db", "*desktop.ini", ".git*", ".ds_store", "*/.ds_store"]);
    assert_eq!(default_ignores(), defaults);
    let all = pack_ignores(Some("{\"ignore\": [\"*.PSD\", 5, \"Docs/*\"]}"));
    let mut expected = defaults.clone();
    expected.extend(strings(&["*.psd", "docs/*"]));
    assert_eq!(all, expected);
    assert_eq!(pack_ignores(None), defaults);
}

#[test]
fn user_ignores_need_an_ignore_array() {
    assert!(user_ignores(None).is_empty());
    assert!(user_ignores(Some("not json")).is_empty());
    assert!(user_ignores(Some("{\"title\": \"x\"}")).is_empty());
    assert!(user_ignores(Some("{\"ignore\": \"*.psd\"}")).is_empty());
    assert!(user_ignores(Some("[\"*.psd\"]")).is_empty());
    assert_eq!(user_ignores(Some("{\"ignore\": [\"A\", null, \"B\"]}")), strings(&["a", "b"]));
}

#[test]
fn archive_names_use_forward_slashes_and_lower_case() {
    assert_eq!(archive_name_of("Lua\\Autorun\\Init.LUA"), "lua/autorun/init.lua");
    assert_eq!(archive_name_of("materials/a.vmt"), "materials/a.vmt");
}

#[test]
fn wildcards_follow_wildmatch() {
    let patterns = default_ignores();
    assert!(is_ignored(&patterns, "materials/thumbs.db"));
    assert!(is_ignored(&patterns, ".gitignore"));
    assert!(is_ignored(&patterns, "sub/.ds_store"));
    assert!(!is_ignored(&patterns, "sub/.gitignore"));
    assert!(!is_ignored(&patterns, "lua/init.lua"));
    assert!(is_ignored(&strings(&["lua/?.lua"]), "lua/a.lua"));
    assert!(!is_ignored(&strings(&["lua/?.lua"]), "lua/ab.lua"));
    assert!(!is_ignored(&vec![], "anything"));
}

#[test]
fn classify_files() {
    let patterns = pack_ignores(Some("{\"ignore\": [\"*.psd\"]}"));
    assert!(matches!(classify_file("addon.json", &patterns), FileAction::Metadata));
    assert!(matches!(classify_file("ADDON.JSON", &patterns), FileAction::Metadata));
    assert!(matches!(classify_file("art\\Cover.PSD", &patterns), FileAction::Ignored));
    match classify_file("Lua\\autorun\\x.lua", &patterns) {
        FileAction::Candidate(name) => assert_eq!(name, "lua/autorun/x.lua"),
        _ => panic!("expected a candidate"),
    }
}

#[test]
fn whitelist_refusal_names_the_file() {
    assert_eq!(admit_file("lua/a.lua".to_string(), true), Ok("lua/a.lua".to_string()));
    assert_eq!(
        admit_file("bin/x.exe".to_string(), false),
        Err("File bin/x.exe is not allowed, add it to ignore list".to_string())
    );
}

#[test]
fn empty_archive_is_refused() {
    let archive = PackArchive::new("My Addon", 76561197960287930, "me");
    assert_eq!(archive.len(), 0);
    match archive.finish() {
        Err(e) => assert_eq!(e, "No files to pack (everything was ignored or the folder is empty)."),
        Ok(_) => panic!("expected an error"),
    }
}

#[test]
fn archive_holds_added_files() {
    let mut archive = PackArchive::new("My Addon", 76561197960287930, "me");
    archive.add_file("lua/a.lua".to_string(), b"print(1)".to_vec());
    archive.add_file("lua/b.lua".to_string(), vec![]);
    assert_eq!(archive.len(), 2);
    let builder = archive.finish().ok().expect("files were added");
    let mut bytes = Vec::new();
    builder.write_to(&mut bytes).expect("written to memory");
    let files = gma_lite::read(&bytes[..]).expect("readable archive");
    let names: Vec<&str> = files.iter().map(|f| f.name.as_str()).collect();
    assert_eq!(names, vec!["lua/a.lua", "lua/b.lua"]);
    assert_eq!(files[0].content, b"print(1)".to_vec());
}

#[test]
fn star_matches_every_name() {
    let star = strings(&["*"]);
    for name in ["", "a", "lua/autorun/x.lua", ".hidden"] {
        assert!(is_ignored(&star, name));
    }
}

#[test]
fn only_the_ignore_key_counts() {
    assert!(user_ignores(Some("{\"ignores\": [\"*.psd\"]}")).is_empty());
    assert_eq!(user_ignores(Some("{\"ignore\": [\"*.PSD\"]}")), strings(&["*.psd"]));
}
