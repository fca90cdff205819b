use shipyard::run::{ScriptInput, StoredRunSettings};
use shipyard::ship::{load_settings, save_script, script_path, upgrade_scripts, DEFAULT_SCRIPT, LEGACY_DEFAULT_SCRIPT};

#[test]
fn provides_a_conservative_default_script() {
    let (settings, added) = load_settings(&StoredRunSettings::default(), "script-1");
    assert_eq!(settings.scripts.len(), 1);
    assert_eq!(settings.default_script_id.as_deref(), Some("script-1"));
    assert_eq!(added, Some(("script-1".to_owned(), "script-1.sh".to_owned())));
    assert!(DEFAULT_SCRIPT.contains("SHIPYARD_SOURCE_SHA"));
    assert!(DEFAULT_SCRIPT.contains("SHIPYARD_TARGET_WORKTREE_PATH"));
}

#[test]
fn default_script_checks_for_conflicts_before_merging() {
    let check = DEFAULT_SCRIPT.find("merge-tree --write-tree").unwrap();
    let merge = DEFAULT_SCRIPT.find("merge --no-edit").unwrap();
    assert!(check < merge);
    assert!(DEFAULT_SCRIPT.starts_with("#!/bin/zsh\nset -euo pipefail\n"));
    assert!(!LEGACY_DEFAULT_SCRIPT.contains("merge-tree"));
}

#[test]
fn upgrades_the_unchanged_legacy_default_script() {
    let (original, _) = load_settings(&StoredRunSettings::default(), "script-1");
    let id = original.default_script_id.clone().unwrap();
    let (saved, _, _) = save_script(
        &original,
        &ScriptInput {
            id: Some(id.clone()),
            label: "Merge into default branch".to_owned(),
            content: LEGACY_DEFAULT_SCRIPT.to_owned(),
            make_default: true,
        },
        "unused",
    )
    .unwrap();
    let (reloaded, added) = load_settings(&saved, "script-2");
    assert!(added.is_none());
    assert_eq!(script_path(&reloaded, "script-2", &id).2.unwrap(), "script-1.sh");

    let (contents, rewrite) = upgrade_scripts(&vec![LEGACY_DEFAULT_SCRIPT.to_owned(), "#!/bin/zsh\necho custom\n".to_owned()]);
    assert!(contents[0].contains("merge-tree --write-tree"));
    assert_eq!(contents[0], DEFAULT_SCRIPT);
    assert_eq!(contents[1], "#!/bin/zsh\necho custom\n");
    assert_eq!(rewrite, vec![true, false]);
}

#[test]
fn a_changed_legacy_script_is_kept() {
    let edited = format!("{LEGACY_DEFAULT_SCRIPT}echo done\n");
    let (contents, rewrite) = upgrade_scripts(&vec![edited.clone(), DEFAULT_SCRIPT.to_owned()]);
    assert_eq!(contents, vec![edited, DEFAULT_SCRIPT.to_owned()]);
    assert_eq!(rewrite, vec![false, false]);
}
