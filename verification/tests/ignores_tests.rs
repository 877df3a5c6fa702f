use gmod_wstool::ignores;
use gmod_wstool::ignores::{clean, get, seed, to_storage_string, IgnoreStore, STORAGE_KEY};

fn strings(v: &[&str]) -> Vec<String> {
    v.iter().map(|s| s.to_string()).collect()
}

#[test]
fn set_trims_lowercases_and_drops_blank() {
    let mut store = IgnoreStore::new();
    ignores::set(&mut store, strings(&["  *.PSD ", "", "   ", "Maps/*.VMF", "\tÉTÉ\n"]));
    assert_eq!(get(&store), strings(&["*.psd", "maps/*.vmf", "été"]));
}

#[test]
fn clean_keeps_order() {
    assert_eq!(clean(&strings(&["B", "a", "C"])), strings(&["b", "a", "c"]));
    assert!(clean(&vec![]).is_empty());
}

#[test]
fn seed_reads_stored_json_as_is() {
    let mut store = IgnoreStore::new();
    seed(&mut store, Some("[\"A.txt\", \" b \"]".to_string()));
    assert_eq!(get(&store), strings(&["A.txt", " b "]));
}

#[test]
fn seed_ignores_missing_or_bad_text() {
    let mut store = IgnoreStore::new();
    ignores::set(&mut store, strings(&["x"]));
    seed(&mut store, None);
    assert_eq!(get(&store), strings(&["x"]));
    seed(&mut store, Some("not json".to_string()));
    assert_eq!(get(&store), strings(&["x"]));
    seed(&mut store, Some("{\"a\": 1}".to_string()));
    assert_eq!(get(&store), strings(&["x"]));
}

#[test]
fn storage_string_is_json_list() {
    let mut store = IgnoreStore::new();
    assert_eq!(to_storage_string(&store), "[]");
    ignores::set(&mut store, strings(&["*.psd", "a\"b"]));
    assert_eq!(to_storage_string(&store), "[\"*.psd\",\"a\\\"b\"]");
    let mut other = IgnoreStore::new();
    seed(&mut other, Some(to_storage_string(&store)));
    assert_eq!(get(&other), get(&store));
    assert_eq!(STORAGE_KEY, "ignore_patterns");
}

#[test]
fn setting_the_current_patterns_changes_nothing() {
    let mut store = IgnoreStore::new();
    ignores::set(&mut store, strings(&[" *.PSD", "Maps/*.vmf ", "", "ÉTÉ"]));
    let before = get(&store);
    let text = to_storage_string(&store);
    let current = get(&store);
    ignores::set(&mut store, current);
    assert_eq!(get(&store), before);
    assert_eq!(to_storage_string(&store), text);
}
