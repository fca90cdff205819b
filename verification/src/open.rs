//! The applications a checkout can be opened in, as the user configured them.
//!
//! Reading and writing the settings file, checking the file system and
//! starting the application are left to the caller; this module holds the
//! rules.
use crate::external::{chars_of, string_of};
use crate::paths::{extension, extension_of};
use crate::text::{chars_eq, decimal, decimal_of, push_chars, push_str, trim, trim_chars};
use vstd::prelude::*;

verus! {

/// What an application is used for.
#[derive(Clone, Copy, Debug, PartialEq, Eq, Structural)]
pub enum ApplicationKind {
    Editor,
    Terminal,
}

/// An application as stored in the settings.
#[derive(Clone, Debug)]
pub struct StoredOpenApplication {
    pub id: String,
    pub label: String,
    pub kind: ApplicationKind,
    pub app_path: String,
}

/// The settings as stored.
#[derive(Clone, Debug, Default)]
pub struct StoredOpenSettings {
    pub default_application_id: Option<String>,
    pub applications: Vec<StoredOpenApplication>,
}

/// An application as shown to the user, with whether it can be used now.
#[derive(Clone, Debug)]
pub struct OpenApplication {
    pub id: String,
    pub label: String,
    pub kind: ApplicationKind,
    pub app_path: String,
    pub available: bool,
}

/// The settings as shown to the user.
#[derive(Clone, Debug, Default)]
pub struct OpenSettings {
    pub default_application_id: Option<String>,
    pub applications: Vec<OpenApplication>,
}

/// An application the user adds or edits.
#[derive(Clone, Debug)]
pub struct OpenApplicationInput {
    pub id: Option<String>,
    pub label: String,
    pub kind: ApplicationKind,
    pub app_path: String,
    pub make_default: bool,
}

/// A request to open a checkout in a configured application.
#[derive(Clone, Debug)]
pub struct OpenRequest {
    pub application_id: String,
    pub project_id: String,
    pub checkout_path: String,
}

/// How starting the application went.
#[derive(Clone, Debug)]
pub enum LaunchOutcome {
    /// The launcher could not be started; the system's message.
    NotStarted(String),
    /// The launcher ran; whether it succeeded, and what it wrote to its error output.
    Finished { success: bool, stderr: String },
}

pub struct AppView {
    pub id: Seq<char>,
    pub label: Seq<char>,
    pub kind: ApplicationKind,
    pub app_path: Seq<char>,
}

pub struct SettingsView {
    pub default_application_id: Option<Seq<char>>,
    pub applications: Seq<AppView>,
}

pub open spec fn opt_view(o: Option<String>) -> Option<Seq<char>> {
    match o {
        Some(s) => Some(s@),
        None => None,
    }
}

impl View for StoredOpenApplication {
    type V = AppView;

    open spec fn view(&self) -> AppView {
        AppView { id: self.id@, label: self.label@, kind: self.kind, app_path: self.app_path@ }
    }
}

impl View for StoredOpenSettings {
    type V = SettingsView;

    open spec fn view(&self) -> SettingsView {
        SettingsView {
            default_application_id: opt_view(self.default_application_id),
            applications: self.applications@.map_values(|a: StoredOpenApplication| a@),
        }
    }
}

impl StoredOpenApplication {
    pub fn copy(&self) -> (r: Self)
        ensures
            r@ == self@,
    {
        StoredOpenApplication {
            id: self.id.clone(),
            label: self.label.clone(),
            kind: self.kind,
            app_path: self.app_path.clone(),
        }
    }
}

/// A copy of an optional text.
pub fn copy_opt(o: &Option<String>) -> (r: Option<String>)
    ensures
        opt_view(r) == opt_view(*o),
        r is Some == o is Some,
{
    match o {
        Some(s) => Some(s.clone()),
        None => None,
    }
}

pub open spec fn apps_view(v: Seq<StoredOpenApplication>) -> Seq<AppView> {
    v.map_values(|a: StoredOpenApplication| a@)
}

/// The settings as shown: every stored application, in order, with its
/// availability (`available[i]` for application `i`).
pub fn load_settings(stored: &StoredOpenSettings, available: &Vec<bool>) -> (r: OpenSettings)
    requires
        available.len() == stored.applications.len(),
    ensures
        opt_view(r.default_application_id) == opt_view(stored.default_application_id),
        r.applications.len() == stored.applications.len(),
        forall|i: int| 0 <= i < r.applications.len() ==> {
            let a = #[trigger] r.applications@[i];
            let s = stored.applications@[i];
            a.id@ == s.id@ && a.label@ == s.label@ && a.kind == s.kind && a.app_path@ == s.app_path@
                && a.available == available@[i]
        },
{
    let mut applications: Vec<OpenApplication> = Vec::new();
    let mut i: usize = 0;
    while i < stored.applications.len()
        invariant
            i <= stored.applications.len(),
            available.len() == stored.applications.len(),
            applications.len() == i,
            forall|k: int| 0 <= k < i ==> {
                let a = #[trigger] applications@[k];
                let s = stored.applications@[k];
                a.id@ == s.id@ && a.label@ == s.label@ && a.kind == s.kind && a.app_path@
                    == s.app_path@ && a.available == available@[k]
            },
        decreases stored.applications.len() - i,
    {
        let s = &stored.applications[i];
        applications.push(
            OpenApplication {
                id: s.id.clone(),
                label: s.label.clone(),
                kind: s.kind,
                app_path: s.app_path.clone(),
                available: available[i],
            },
        );
        i = i + 1;
    }
    let default_application_id = match &stored.default_application_id {
        Some(id) => Some(id.clone()),
        None => None,
    };
    OpenSettings { default_application_id, applications }
}

/// Whether a path names an application bundle by its extension (`.app`).
pub fn has_app_extension(path: &str) -> (r: bool)
    ensures
        r == (extension(path@) == Some("app"@)),
{
    let text = chars_of(path);
    match extension_of(&text) {
        Some(ext) => chars_eq(&ext, &chars_of("app")),
        None => false,
    }
}

/// The message for a path that is not a usable application bundle.
pub fn not_an_application(path: &str) -> (r: String)
    ensures
        r@ == path@ + " is not an available macOS .app bundle"@,
{
    let mut v = chars_of(path);
    push_str(&mut v, " is not an available macOS .app bundle");
    string_of(&v)
}

pub open spec fn label_error() -> Seq<char> {
    "application label is required"@
}

/// A label must hold more than whitespace.
pub fn validate_label(label: &str) -> (r: Result<(), String>)
    ensures
        r is Ok <==> trim(label@).len() > 0,
        r matches Err(e) ==> e@ == label_error(),
{
    let text = chars_of(label);
    if trim_chars(&text).len() == 0 {
        Err(String::from_str("application label is required"))
    } else {
        Ok(())
    }
}

/// The identifier of a new application made at this time (in nanoseconds).
pub fn new_id(timestamp: u128) -> (r: String)
    ensures
        r@ == "application-"@ + decimal(timestamp as nat),
{
    let mut v = chars_of("application-");
    let d = decimal_of(timestamp);
    push_chars(&mut v, &d);
    string_of(&v)
}

pub open spec fn has_id(apps: Seq<AppView>, id: Seq<char>) -> bool {
    exists|i: int| 0 <= i < apps.len() && (#[trigger] apps[i]).id == id
}

pub open spec fn first_with_id(apps: Seq<AppView>, id: Seq<char>, i: int) -> bool {
    0 <= i < apps.len() && apps[i].id == id && forall|j: int| 0 <= j < i ==> (#[trigger] apps[j]).id != id
}

fn position_of(apps: &Vec<StoredOpenApplication>, id: &String) -> (r: Option<usize>)
    ensures
        match r {
            Some(i) => first_with_id(apps_view(apps@), id@, i as int),
            None => !has_id(apps_view(apps@), id@),
        },
{
    let mut i: usize = 0;
    while i < apps.len()
        invariant
            i <= apps.len(),
            forall|j: int| 0 <= j < i ==> (#[trigger] apps_view(apps@)[j]).id != id@,
        decreases apps.len() - i,
    {
        if apps[i].id == *id {
            return Some(i);
        }
        i = i + 1;
    }
    None
}

proof fn lemma_first_with_id_unique(apps: Seq<AppView>, id: Seq<char>, i: int)
    requires
        first_with_id(apps, id, i),
    ensures
        (choose|k: int| first_with_id(apps, id, k)) == i,
{
    let k = choose|k: int| first_with_id(apps, id, k);
    assert(first_with_id(apps, id, k));
    if k < i {
        assert(apps[k].id != id);
    } else if i < k {
        assert(apps[i].id != id);
    }
}

/// The identifier an added or edited application is saved under.
pub open spec fn saved_id(input: OpenApplicationInput, fresh_id: Seq<char>) -> Seq<char> {
    match input.id {
        Some(id) => id@,
        None => fresh_id,
    }
}

/// The settings after a successful save: the entry with the identifier
/// replaced, or a new entry added at the end; and the default updated.
pub open spec fn saved(settings: SettingsView, input: OpenApplicationInput, app_path: Seq<char>, fresh_id: Seq<char>) -> SettingsView {
    let id = saved_id(input, fresh_id);
    let entry = AppView { id: id, label: trim(input.label@), kind: input.kind, app_path: app_path };
    SettingsView {
        applications: match input.id {
            Some(given) => settings.applications.update(
                choose|i: int| first_with_id(settings.applications, given@, i),
                entry,
            ),
            None => settings.applications.push(entry),
        },
        default_application_id: if input.make_default || settings.default_application_id is None {
            Some(id)
        } else {
            settings.default_application_id
        },
    }
}

pub open spec fn not_found() -> Seq<char> {
    "application not found"@
}

/// The settings after adding or editing an application: the label must hold
/// more than whitespace; an edit must name a stored application; the entry
/// with that identifier is replaced (its label trimmed, `app_path` as
/// validated), or a new one under `fresh_id` is added at the end; it becomes
/// the default when asked for or when there was none.
pub fn save_application(
    settings: &StoredOpenSettings,
    input: &OpenApplicationInput,
    app_path: &str,
    fresh_id: &str,
) -> (r: Result<StoredOpenSettings, String>)
    ensures
        r matches Err(e) ==> e@ == if trim(input.label@).len() == 0 {
            label_error()
        } else {
            not_found()
        },
        r is Ok <==> trim(input.label@).len() > 0 && match input.id {
            Some(id) => has_id(settings@.applications, id@),
            None => true,
        },
        r matches Ok(s) ==> s@ == saved(settings@, *input, app_path@, fresh_id@),
{
    validate_label(input.label.as_str())?;
    let mut applications: Vec<StoredOpenApplication> = Vec::new();
    let mut i: usize = 0;
    while i < settings.applications.len()
        invariant
            i <= settings.applications.len(),
            apps_view(applications@) =~= apps_view(settings.applications@).subrange(0, i as int),
        decreases settings.applications.len() - i,
    {
        let ghost before = apps_view(applications@);
        let copy = settings.applications[i].copy();
        applications.push(copy);
        assert(apps_view(applications@) =~= before.push(copy@));
        i = i + 1;
    }
    assert(apps_view(applications@) =~= settings@.applications);
    let label = trim_chars(&chars_of(input.label.as_str()));
    let (id, position) = match &input.id {
        Some(given) => {
            match position_of(&applications, given) {
                Some(p) => (given.clone(), Some(p)),
                None => return Err(String::from_str("application not found")),
            }
        },
        None => (String::from_str(fresh_id), None),
    };
    let entry = StoredOpenApplication {
        id: id.clone(),
        label: string_of(&label),
        kind: input.kind,
        app_path: String::from_str(app_path),
    };
    let ghost before = apps_view(applications@);
    match position {
        Some(p) => {
            applications.set(p, entry);
            assert(apps_view(applications@) =~= before.update(p as int, entry@));
            proof {
                lemma_first_with_id_unique(settings@.applications, id@, p as int);
            }
        },
        None => {
            applications.push(entry);
            assert(apps_view(applications@) =~= before.push(entry@));
        },
    }
    let default_application_id = if input.make_default || settings.default_application_id.is_none() {
        Some(id)
    } else {
        copy_opt(&settings.default_application_id)
    };
    Ok(StoredOpenSettings { default_application_id, applications })
}

/// The applications other than those with identifier `id`, in order.
pub open spec fn without_id(apps: Seq<AppView>, id: Seq<char>) -> Seq<AppView>
    decreases apps.len(),
{
    if apps.len() == 0 {
        Seq::empty()
    } else if apps.last().id == id {
        without_id(apps.drop_last(), id)
    } else {
        without_id(apps.drop_last(), id).push(apps.last())
    }
}

proof fn lemma_without_id_len(apps: Seq<AppView>, id: Seq<char>)
    ensures
        without_id(apps, id).len() <= apps.len(),
        without_id(apps, id).len() == apps.len() <==> !has_id(apps, id),
    decreases apps.len(),
{
    if apps.len() > 0 {
        lemma_without_id_len(apps.drop_last(), id);
        if has_id(apps.drop_last(), id) {
            let i = choose|i: int| 0 <= i < apps.drop_last().len() && (#[trigger] apps.drop_last()[i]).id == id;
            assert(apps[i] == apps.drop_last()[i]);
        }
        if has_id(apps, id) && apps.last().id != id {
            let i = choose|i: int| 0 <= i < apps.len() && (#[trigger] apps[i]).id == id;
            assert(apps.drop_last()[i] == apps[i]);
        }
    }
}

/// The settings after removing application `id`: an error when no stored
/// application has it; otherwise every application with it is removed, and
/// when it was the default, the first remaining application (if any)
/// becomes the default.
pub fn delete_application(settings: &StoredOpenSettings, id: &str) -> (r: Result<StoredOpenSettings, String>)
    ensures
        r is Err <==> !has_id(settings@.applications, id@),
        r matches Err(e) ==> e@ == not_found(),
        r matches Ok(s) ==> {
            &&& s@.applications == without_id(settings@.applications, id@)
            &&& s@.default_application_id == if settings@.default_application_id == Some(id@) {
                if s@.applications.len() > 0 {
                    Some(s@.applications[0].id)
                } else {
                    None
                }
            } else {
                settings@.default_application_id
            }
        },
{
    let target = String::from_str(id);
    let ghost all = apps_view(settings.applications@);
    let mut applications: Vec<StoredOpenApplication> = Vec::new();
    let mut i: usize = 0;
    while i < settings.applications.len()
        invariant
            i <= settings.applications.len(),
            all == apps_view(settings.applications@),
            target@ == id@,
            apps_view(applications@) == without_id(all.subrange(0, i as int), id@),
        decreases settings.applications.len() - i,
    {
        assert(all.subrange(0, i + 1).drop_last() =~= all.subrange(0, i as int));
        assert(all.subrange(0, i + 1).last() == settings.applications@[i as int]@);
        if settings.applications[i].id != target {
            let ghost before = apps_view(applications@);
            let copy = settings.applications[i].copy();
            applications.push(copy);
            assert(apps_view(applications@) =~= before.push(copy@));
        }
        i = i + 1;
    }
    assert(all.subrange(0, settings.applications.len() as int) =~= all);
    proof {
        lemma_without_id_len(all, id@);
    }
    if applications.len() == settings.applications.len() {
        return Err(String::from_str("application not found"));
    }
    let is_default = match &settings.default_application_id {
        Some(d) => *d == target,
        None => false,
    };
    let default_application_id = if is_default {
        if applications.len() > 0 {
            Some(applications[0].id.clone())
        } else {
            None
        }
    } else {
        copy_opt(&settings.default_application_id)
    };
    Ok(StoredOpenSettings { default_application_id, applications })
}

/// The stored application with identifier `id`, the first if several.
pub fn stored_application(settings: &StoredOpenSettings, id: &str) -> (r: Result<StoredOpenApplication, String>)
    ensures
        r is Err <==> !has_id(settings@.applications, id@),
        r matches Ok(a) ==> exists|i: int| first_with_id(settings@.applications, id@, i) && a@ == settings@.applications[i],
        r matches Err(e) ==> e@ == "application not found; configure it in Settings \u{2192} Open"@,
{
    let target = String::from_str(id);
    match position_of(&settings.applications, &target) {
        Some(i) => {
            let a = settings.applications[i].copy();
            assert(apps_view(settings.applications@)[i as int] == settings.applications@[i as int]@);
            assert(first_with_id(settings@.applications, id@, i as int) && a@ == settings@.applications[i as int]);
            Ok(a)
        },
        None => Err(String::from_str("application not found; configure it in Settings \u{2192} Open")),
    }
}

/// What opening a checkout comes to, given how starting the application went.
pub fn open_checkout(application: &StoredOpenApplication, checkout_path: &str, launch: &LaunchOutcome) -> (r: Result<(), String>)
    ensures
        match launch {
            LaunchOutcome::NotStarted(e) => r matches Err(m) && m@ == "could not start macOS Open: "@ + e@,
            LaunchOutcome::Finished { success, stderr } => if *success {
                r is Ok
            } else {
                r matches Err(m) && m@ == application.label@ + " could not open "@ + checkout_path@ + ": "@ + trim(stderr@)
            },
        },
{
    match launch {
        LaunchOutcome::NotStarted(e) => {
            let mut v = chars_of("could not start macOS Open: ");
            push_str(&mut v, e.as_str());
            Err(string_of(&v))
        },
        LaunchOutcome::Finished { success, stderr } => {
            if *success {
                Ok(())
            } else {
                let mut v = chars_of(application.label.as_str());
                push_str(&mut v, " could not open ");
                push_str(&mut v, checkout_path);
                push_str(&mut v, ": ");
                let detail = trim_chars(&chars_of(stderr.as_str()));
                push_chars(&mut v, &detail);
                Err(string_of(&v))
            }
        },
    }
}

proof fn lemma_first_with_id_exists(apps: Seq<AppView>, id: Seq<char>)
    requires
        has_id(apps, id),
    ensures
        exists|i: int| first_with_id(apps, id, i),
    decreases apps.len(),
{
    let q = apps.drop_last();
    if has_id(q, id) {
        lemma_first_with_id_exists(q, id);
        let i = choose|i: int| first_with_id(q, id, i);
        assert forall|j: int| 0 <= j < i implies (#[trigger] apps[j]).id != id by {
            assert(apps[j] == q[j]);
        }
        assert(first_with_id(apps, id, i));
    } else {
        let n = apps.len() - 1;
        let k = choose|k: int| 0 <= k < apps.len() && (#[trigger] apps[k]).id == id;
        if k < n {
            assert(q[k] == apps[k]);
        }
        assert forall|j: int| 0 <= j < n implies (#[trigger] apps[j]).id != id by {
            assert(apps[j] == q[j]);
        }
        assert(first_with_id(apps, id, n));
    }
}

/// A saved application is found again under its identifier (the one it was
/// edited under, or the fresh one it was added under), with the trimmed label,
/// its kind and the validated path; it is the default when asked to be.
pub proof fn law_saved_application_reads_back(settings: SettingsView, input: OpenApplicationInput, app_path: Seq<char>, fresh_id: Seq<char>)
    requires
        match input.id {
            Some(id) => has_id(settings.applications, id@),
            None => !has_id(settings.applications, fresh_id),
        },
    ensures
        ({
            let s = saved(settings, input, app_path, fresh_id);
            let id = saved_id(input, fresh_id);
            &&& exists|i: int| first_with_id(s.applications, id, i)
                && s.applications[i] == (AppView { id: id, label: trim(input.label@), kind: input.kind, app_path: app_path })
            &&& input.make_default ==> s.default_application_id == Some(id)
        }),
{
    let s = saved(settings, input, app_path, fresh_id);
    let id = saved_id(input, fresh_id);
    match input.id {
        Some(given) => {
            lemma_first_with_id_exists(settings.applications, given@);
            let i = choose|i: int| first_with_id(settings.applications, given@, i);
            assert forall|j: int| 0 <= j < i implies (#[trigger] s.applications[j]).id != id by {
                assert(s.applications[j] == settings.applications[j]);
            }
            assert(first_with_id(s.applications, id, i));
        },
        None => {
            let n = settings.applications.len() as int;
            assert forall|j: int| 0 <= j < n implies (#[trigger] s.applications[j]).id != id by {
                assert(s.applications[j] == settings.applications[j]);
            }
            assert(first_with_id(s.applications, id, n));
        },
    }
}

proof fn lemma_without_id_members(apps: Seq<AppView>, id: Seq<char>)
    ensures
        forall|j: int| 0 <= j < without_id(apps, id).len() ==> (#[trigger] without_id(apps, id)[j]).id != id,
    decreases apps.len(),
{
    if apps.len() > 0 {
        lemma_without_id_members(apps.drop_last(), id);
        let k = without_id(apps.drop_last(), id);
        assert forall|j: int| 0 <= j < without_id(apps, id).len() implies (#[trigger] without_id(apps, id)[j]).id != id by {
            if j < k.len() {
                assert(without_id(apps, id)[j] == k[j]);
            }
        }
    }
}

/// A deleted application is gone: no application has its identifier any more.
pub proof fn law_deleted_application_is_gone(apps: Seq<AppView>, id: Seq<char>)
    ensures
        !has_id(without_id(apps, id), id),
{
    lemma_without_id_members(apps, id);
}

} // verus!
