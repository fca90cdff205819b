use shipyard::open::{
    delete_application, save_application, stored_application, ApplicationKind, OpenApplicationInput,
    StoredOpenSettings,
};
use shipyard::run::{delete_script, save_script, script_path, ScriptInput, StoredRunSettings};

fn editor_input(id: Option<&str>, label: &str, make_default: bool) -> OpenApplicationInput {
    OpenApplicationInput {
        id: id.map(String::from),
        label: label.to_string(),
        kind: ApplicationKind::Editor,
        app_path: "/Applications/Zed.app".to_string(),
        make_default,
    }
}

#[test]
fn saved_application_reads_back() {
    let empty = StoredOpenSettings::default();
    let saved = save_application(&empty, &editor_input(None, "  Zed  ", false), "/Applications/Zed.app", "application-7")
        .unwrap();
    assert_eq!(saved.default_application_id.as_deref(), Some("application-7"));
    let app = stored_application(&saved, "application-7").unwrap();
    assert_eq!(app.label, "Zed");
    assert_eq!(app.app_path, "/Applications/Zed.app");
    assert_eq!(app.kind, ApplicationKind::Editor);

    let edited = save_application(&saved, &editor_input(Some("application-7"), "Zed Preview", false), "/Applications/Zed Preview.app", "unused")
        .unwrap();
    assert_eq!(edited.applications.len(), 1);
    let app = stored_application(&edited, "application-7").unwrap();
    assert_eq!(app.label, "Zed Preview");
    assert_eq!(app.app_path, "/Applications/Zed Preview.app");
}

#[test]
fn application_edits_need_a_label_and_a_stored_entry() {
    let empty = StoredOpenSettings::default();
    assert_eq!(
        save_application(&empty, &editor_input(None, "   ", false), "/Applications/Zed.app", "application-1").unwrap_err(),
        "application label is required"
    );
    assert_eq!(
        save_application(&empty, &editor_input(Some("missing"), "Zed", false), "/Applications/Zed.app", "application-1")
            .unwrap_err(),
        "application not found"
    );
}

#[test]
fn deleted_application_is_gone_and_the_default_moves_on() {
    let empty = StoredOpenSettings::default();
    let one = save_application(&empty, &editor_input(None, "Zed", true), "/Applications/Zed.app", "application-1").unwrap();
    let two = save_application(&one, &editor_input(None, "Code", false), "/Applications/Code.app", "application-2").unwrap();
    assert_eq!(two.default_application_id.as_deref(), Some("application-1"));
    let after = delete_application(&two, "application-1").unwrap();
    assert_eq!(after.applications.len(), 1);
    assert_eq!(after.default_application_id.as_deref(), Some("application-2"));
    assert!(stored_application(&after, "application-1").is_err());
    assert_eq!(delete_application(&after, "application-1").unwrap_err(), "application not found");
}

fn script_input(id: Option<&str>, label: &str, content: &str, make_default: bool) -> ScriptInput {
    ScriptInput { id: id.map(String::from), label: label.to_string(), content: content.to_string(), make_default }
}

#[test]
fn saved_script_reads_back() {
    let empty = StoredRunSettings::default();
    let (settings, id, file) = save_script(&empty, &script_input(None, " Dev ", "npm run dev", false), "script-9").unwrap();
    assert_eq!(id, "script-9");
    assert_eq!(file, "script-9.sh");
    assert_eq!(settings.default_script_id.as_deref(), Some("script-9"));
    assert_eq!(settings.scripts[0].label, "Dev");
    assert_eq!(script_path(&settings, "script-9").unwrap(), "script-9.sh");
}

#[test]
fn script_edits_need_a_label_content_and_a_stored_entry() {
    let empty = StoredRunSettings::default();
    assert_eq!(
        save_script(&empty, &script_input(None, " ", "npm test", false), "script-1").unwrap_err(),
        "script label is required"
    );
    assert_eq!(
        save_script(&empty, &script_input(None, "Test", "\n\t", false), "script-1").unwrap_err(),
        "script content is required"
    );
    assert_eq!(
        save_script(&empty, &script_input(Some("script-x"), "Test", "npm test", false), "script-1").unwrap_err(),
        "run script not found"
    );
}

#[test]
fn deleted_script_is_gone() {
    let empty = StoredRunSettings::default();
    let (one, _, _) = save_script(&empty, &script_input(None, "Dev", "npm run dev", false), "script-1").unwrap();
    let (two, _, _) = save_script(&one, &script_input(None, "Test", "npm test", true), "script-2").unwrap();
    assert_eq!(two.default_script_id.as_deref(), Some("script-2"));
    let (after, file) = delete_script(&two, "script-2").unwrap();
    assert_eq!(file, "script-2.sh");
    assert_eq!(after.scripts.len(), 1);
    assert_eq!(after.default_script_id.as_deref(), Some("script-1"));
    assert_eq!(script_path(&after, "script-2").unwrap_err(), "run script not found");
}
