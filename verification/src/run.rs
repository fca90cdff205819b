//! The scripts a project can run in a terminal, as the user configured them,
//! and the names under which they are stored.
//!
//! Reading and writing the files and running the terminal are left to the
//! caller; this module holds the rules.
use crate::external::{chars_of, sha256, sha256_digest, string_of};
use crate::text::{decimal, decimal_of, hex, hex_of, push_chars, push_str, trim, trim_chars};
use vstd::prelude::*;
use vstd::string::StringSliceAdditionalSpecFns;

verus! {

/// A script's entry in the stored settings.
#[derive(Clone, Debug)]
pub struct StoredRunScript {
    pub id: String,
    pub label: String,
    pub file_name: String,
}

/// The stored settings of one scope of one project.
#[derive(Clone, Debug, Default)]
pub struct StoredRunSettings {
    pub default_script_id: Option<String>,
    pub scripts: Vec<StoredRunScript>,
}

/// A script as shown to the user.
#[derive(Clone, Debug)]
pub struct RunScript {
    pub id: String,
    pub label: String,
    pub file_name: String,
    pub file_path: String,
    pub content: String,
}

/// The settings as shown to the user.
#[derive(Clone, Debug, Default)]
pub struct RunSettings {
    pub default_script_id: Option<String>,
    pub scripts: Vec<RunScript>,
}

/// A script the user adds or edits.
#[derive(Clone, Debug)]
pub struct ScriptInput {
    pub id: Option<String>,
    pub label: String,
    pub content: String,
    pub make_default: bool,
}

/// A request to run a script in a checkout.
#[derive(Clone, Debug)]
pub struct RunRequest {
    pub project_id: String,
    pub script_id: String,
    pub working_directory: String,
}

/// The identifier of a run that has started.
#[derive(Clone, Debug)]
pub struct RunStarted {
    pub run_id: String,
}

/// The size of a terminal, in characters.
#[derive(Clone, Copy, Debug)]
pub struct TerminalSize {
    pub columns: u16,
    pub rows: u16,
}

pub struct ScriptView {
    pub id: Seq<char>,
    pub label: Seq<char>,
    pub file_name: Seq<char>,
}

pub struct StoredView {
    pub default_script_id: Option<Seq<char>>,
    pub scripts: Seq<ScriptView>,
}

pub open spec fn opt_view(o: Option<String>) -> Option<Seq<char>> {
    match o {
        Some(s) => Some(s@),
        None => None,
    }
}

impl View for StoredRunScript {
    type V = ScriptView;

    open spec fn view(&self) -> ScriptView {
        ScriptView { id: self.id@, label: self.label@, file_name: self.file_name@ }
    }
}

impl View for StoredRunSettings {
    type V = StoredView;

    open spec fn view(&self) -> StoredView {
        StoredView {
            default_script_id: opt_view(self.default_script_id),
            scripts: scripts_view(self.scripts@),
        }
    }
}

pub open spec fn scripts_view(v: Seq<StoredRunScript>) -> Seq<ScriptView> {
    v.map_values(|s: StoredRunScript| s@)
}

impl StoredRunScript {
    pub fn copy(&self) -> (r: Self)
        ensures
            r@ == self@,
    {
        StoredRunScript { id: self.id.clone(), label: self.label.clone(), file_name: self.file_name.clone() }
    }
}

fn copy_opt(o: &Option<String>) -> (r: Option<String>)
    ensures
        opt_view(r) == opt_view(*o),
        r is Some == o is Some,
{
    match o {
        Some(s) => Some(s.clone()),
        None => None,
    }
}

pub fn copy_scripts(v: &Vec<StoredRunScript>) -> (r: Vec<StoredRunScript>)
    ensures
        scripts_view(r@) == scripts_view(v@),
{
    let mut r: Vec<StoredRunScript> = Vec::new();
    let mut i: usize = 0;
    while i < v.len()
        invariant
            i <= v.len(),
            scripts_view(r@) =~= scripts_view(v@).subrange(0, i as int),
        decreases v.len() - i,
    {
        let ghost before = scripts_view(r@);
        let c = v[i].copy();
        r.push(c);
        assert(scripts_view(r@) =~= before.push(c@));
        i = i + 1;
    }
    assert(scripts_view(v@).subrange(0, v.len() as int) =~= scripts_view(v@));
    r
}

impl TerminalSize {
    /// The rows and columns of a terminal of this size; neither may be zero.
    pub fn dimensions(&self) -> (r: Result<(u16, u16), String>)
        ensures
            r is Ok <==> self.columns > 0 && self.rows > 0,
            r matches Ok(d) ==> d == (self.rows, self.columns),
            r matches Err(e) ==> e@ == "terminal dimensions must be greater than zero"@,
    {
        if self.columns == 0 || self.rows == 0 {
            return Err(String::from_str("terminal dimensions must be greater than zero"));
        }
        Ok((self.rows, self.columns))
    }
}

/// The identifier of the `n`-th run.
pub fn run_id(n: u64) -> (r: String)
    ensures
        r@ == "run-"@ + decimal(n as nat),
{
    let mut v = chars_of("run-");
    let d = decimal_of(n as u128);
    push_chars(&mut v, &d);
    string_of(&v)
}

/// The identifier of a new script made at this time (in nanoseconds).
pub fn new_script_id(timestamp: u128) -> (r: String)
    ensures
        r@ == "script-"@ + decimal(timestamp as nat),
{
    let mut v = chars_of("script-");
    let d = decimal_of(timestamp);
    push_chars(&mut v, &d);
    string_of(&v)
}

/// The directory name of a project's settings: the SHA-256 digest of its
/// identifier, in lowercase hexadecimal.
pub fn project_directory_name(project_id: &str) -> (r: String)
    ensures
        r@ == hex(sha256(project_id.spec_bytes())),
{
    let digest = sha256_digest(project_id.as_bytes());
    let h = hex_of(&digest, digest.len());
    assert(digest@.subrange(0, digest.len() as int) =~= digest@);
    string_of(&h)
}

/// The subdirectory of a scope inside a project's directory; the `run`
/// scope lives in the project's directory itself.
pub fn scope_subdirectory(scope: &str) -> (r: Option<String>)
    ensures
        r is None <==> scope@ == "run"@,
        r matches Some(s) ==> s@ == scope@,
{
    if crate::text::same_text(scope, "run") {
        None
    } else {
        Some(String::from_str(scope))
    }
}

pub open spec fn spec_script_file_name(id: Seq<char>) -> Seq<char> {
    id + ".sh"@
}

/// The file a script with this identifier is stored in.
pub fn script_file_name(id: &str) -> (r: String)
    ensures
        r@ == spec_script_file_name(id@),
{
    let mut v = chars_of(id);
    push_str(&mut v, ".sh");
    string_of(&v)
}

/// Whether `c` may appear in a script identifier.
pub open spec fn id_char(c: char) -> bool {
    ('0' <= c && c <= '9') || ('a' <= c && c <= 'z') || ('A' <= c && c <= 'Z') || c == '-'
}

/// A stored entry is sound when its file is named after its identifier and
/// the identifier holds only ASCII letters, digits and `-`.
pub open spec fn sound_metadata(script: ScriptView) -> bool {
    script.file_name == spec_script_file_name(script.id) && forall|i: int|
        0 <= i < script.id.len() ==> id_char(#[trigger] script.id[i])
}

pub open spec fn metadata_error() -> Seq<char> {
    "invalid run script metadata"@
}

/// A stored entry must be sound before its file is touched.
pub fn validate_metadata(script: &StoredRunScript) -> (r: Result<(), String>)
    ensures
        r is Ok <==> sound_metadata(script@),
        r matches Err(e) ==> e@ == metadata_error(),
{
    let expected = script_file_name(script.id.as_str());
    if script.file_name != expected {
        return Err(String::from_str("invalid run script metadata"));
    }
    let id = chars_of(script.id.as_str());
    let mut i: usize = 0;
    while i < id.len()
        invariant
            i <= id.len(),
            id@ == script.id@,
            forall|k: int| 0 <= k < i ==> id_char(#[trigger] id@[k]),
        decreases id.len() - i,
    {
        let c = id[i];
        if !(('0' <= c && c <= '9') || ('a' <= c && c <= 'z') || ('A' <= c && c <= 'Z') || c == '-') {
            assert(!id_char(script@.id[i as int]));
            return Err(String::from_str("invalid run script metadata"));
        }
        i = i + 1;
    }
    Ok(())
}

pub open spec fn input_error(input: ScriptInput) -> Option<Seq<char>> {
    if trim(input.label@).len() == 0 {
        Some("script label is required"@)
    } else if trim(input.content@).len() == 0 {
        Some("script content is required"@)
    } else {
        None
    }
}

/// A script needs a label and content that hold more than whitespace.
pub fn validate_input(input: &ScriptInput) -> (r: Result<(), String>)
    ensures
        match input_error(*input) {
            Some(e) => r matches Err(m) && m@ == e,
            None => r is Ok,
        },
{
    if trim_chars(&chars_of(input.label.as_str())).len() == 0 {
        return Err(String::from_str("script label is required"));
    }
    if trim_chars(&chars_of(input.content.as_str())).len() == 0 {
        return Err(String::from_str("script content is required"));
    }
    Ok(())
}

pub open spec fn has_script(scripts: Seq<ScriptView>, id: Seq<char>) -> bool {
    exists|i: int| 0 <= i < scripts.len() && (#[trigger] scripts[i]).id == id
}

pub open spec fn first_script(scripts: Seq<ScriptView>, id: Seq<char>, i: int) -> bool {
    0 <= i < scripts.len() && scripts[i].id == id && forall|j: int| 0 <= j < i ==> (#[trigger] scripts[j]).id != id
}

proof fn lemma_first_script_unique(scripts: Seq<ScriptView>, id: Seq<char>, i: int)
    requires
        first_script(scripts, id, i),
    ensures
        (choose|k: int| first_script(scripts, id, k)) == i,
{
    let k = choose|k: int| first_script(scripts, id, k);
    assert(first_script(scripts, id, k));
    if k < i {
        assert(scripts[k].id != id);
    } else if i < k {
        assert(scripts[i].id != id);
    }
}

fn position_of(scripts: &Vec<StoredRunScript>, id: &String) -> (r: Option<usize>)
    ensures
        match r {
            Some(i) => first_script(scripts_view(scripts@), id@, i as int),
            None => !has_script(scripts_view(scripts@), id@),
        },
{
    let mut i: usize = 0;
    while i < scripts.len()
        invariant
            i <= scripts.len(),
            forall|j: int| 0 <= j < i ==> (#[trigger] scripts_view(scripts@)[j]).id != id@,
        decreases scripts.len() - i,
    {
        if scripts[i].id == *id {
            return Some(i);
        }
        i = i + 1;
    }
    None
}

pub open spec fn not_found() -> Seq<char> {
    "run script not found"@
}

/// The identifier a saved script is stored under.
pub open spec fn saved_id(input: ScriptInput, fresh_id: Seq<char>) -> Seq<char> {
    match input.id {
        Some(id) => id@,
        None => fresh_id,
    }
}

/// The stored settings after a successful save: the entry with the
/// identifier gets the trimmed label (its file name stays), or a new entry
/// is added at the end; and the default updated.
pub open spec fn saved(settings: StoredView, input: ScriptInput, fresh_id: Seq<char>) -> StoredView {
    let id = saved_id(input, fresh_id);
    StoredView {
        scripts: match input.id {
            Some(given) => {
                let i = choose|i: int| first_script(settings.scripts, given@, i);
                settings.scripts.update(i, ScriptView { label: trim(input.label@), ..settings.scripts[i] })
            },
            None => settings.scripts.push(
                ScriptView { id: id, label: trim(input.label@), file_name: spec_script_file_name(id) },
            ),
        },
        default_script_id: if input.make_default || settings.default_script_id is None {
            Some(id)
        } else {
            settings.default_script_id
        },
    }
}

/// The stored settings after adding or editing a script, with the script's
/// identifier and the file its content goes to: the input must be valid, an
/// edit must name a stored script, and a new script is stored under
/// `fresh_id`.
pub fn save_script(settings: &StoredRunSettings, input: &ScriptInput, fresh_id: &str) -> (r: Result<(StoredRunSettings, String, String), String>)
    ensures
        r is Ok <==> input_error(*input) is None && match input.id {
            Some(id) => has_script(settings@.scripts, id@),
            None => true,
        },
        r matches Err(e) ==> e@ == match input_error(*input) {
            Some(m) => m,
            None => not_found(),
        },
        r matches Ok(v) ==> {
            &&& v.0@ == saved(settings@, *input, fresh_id@)
            &&& v.1@ == saved_id(*input, fresh_id@)
            &&& v.2@ == spec_script_file_name(saved_id(*input, fresh_id@))
        },
{
    validate_input(input)?;
    let mut scripts = copy_scripts(&settings.scripts);
    let (id, position) = match &input.id {
        Some(given) => match position_of(&scripts, given) {
            Some(p) => (given.clone(), Some(p)),
            None => return Err(String::from_str("run script not found")),
        },
        None => (String::from_str(fresh_id), None),
    };
    let file_name = script_file_name(id.as_str());
    let label = string_of(&trim_chars(&chars_of(input.label.as_str())));
    let ghost before = scripts_view(scripts@);
    match position {
        Some(p) => {
            let entry = StoredRunScript { id: scripts[p].id.clone(), label: label, file_name: scripts[p].file_name.clone() };
            scripts.set(p, entry);
            assert(scripts_view(scripts@) =~= before.update(p as int, entry@));
            proof {
                lemma_first_script_unique(settings@.scripts, id@, p as int);
            }
        },
        None => {
            let entry = StoredRunScript { id: id.clone(), label: label, file_name: file_name.clone() };
            scripts.push(entry);
            assert(scripts_view(scripts@) =~= before.push(entry@));
        },
    }
    let default_script_id = if input.make_default || settings.default_script_id.is_none() {
        Some(id.clone())
    } else {
        copy_opt(&settings.default_script_id)
    };
    Ok((StoredRunSettings { default_script_id, scripts }, id, file_name))
}

/// The scripts other than those with identifier `id`, in order.
pub open spec fn without_script(scripts: Seq<ScriptView>, id: Seq<char>) -> Seq<ScriptView>
    decreases scripts.len(),
{
    if scripts.len() == 0 {
        Seq::empty()
    } else if scripts.last().id == id {
        without_script(scripts.drop_last(), id)
    } else {
        without_script(scripts.drop_last(), id).push(scripts.last())
    }
}

/// The stored settings after removing script `id`, with the file to remove:
/// the script must be stored and sound; every entry with the identifier goes,
/// and when it was the default, the first remaining script (if any) becomes
/// the default.
pub fn delete_script(settings: &StoredRunSettings, script_id: &str) -> (r: Result<(StoredRunSettings, String), String>)
    ensures
        r is Ok <==> has_script(settings@.scripts, script_id@) && sound_metadata(
            settings@.scripts[choose|i: int| first_script(settings@.scripts, script_id@, i)],
        ),
        r matches Err(e) ==> e@ == if has_script(settings@.scripts, script_id@) {
            metadata_error()
        } else {
            not_found()
        },
        r matches Ok(v) ==> {
            &&& v.0@.scripts == without_script(settings@.scripts, script_id@)
            &&& v.0@.default_script_id == if settings@.default_script_id == Some(script_id@) {
                if v.0@.scripts.len() > 0 {
                    Some(v.0@.scripts[0].id)
                } else {
                    None
                }
            } else {
                settings@.default_script_id
            }
            &&& v.1@ == settings@.scripts[choose|i: int| first_script(settings@.scripts, script_id@, i)].file_name
        },
{
    let target = String::from_str(script_id);
    let p = match position_of(&settings.scripts, &target) {
        Some(p) => p,
        None => return Err(String::from_str("run script not found")),
    };
    proof {
        lemma_first_script_unique(settings@.scripts, script_id@, p as int);
    }
    validate_metadata(&settings.scripts[p])?;
    let file_name = settings.scripts[p].file_name.clone();
    let ghost all = scripts_view(settings.scripts@);
    let mut scripts: Vec<StoredRunScript> = Vec::new();
    let mut i: usize = 0;
    while i < settings.scripts.len()
        invariant
            i <= settings.scripts.len(),
            all == scripts_view(settings.scripts@),
            target@ == script_id@,
            scripts_view(scripts@) == without_script(all.subrange(0, i as int), script_id@),
        decreases settings.scripts.len() - i,
    {
        assert(all.subrange(0, i + 1).drop_last() =~= all.subrange(0, i as int));
        assert(all.subrange(0, i + 1).last() == settings.scripts@[i as int]@);
        if settings.scripts[i].id != target {
            let ghost before = scripts_view(scripts@);
            let c = settings.scripts[i].copy();
            scripts.push(c);
            assert(scripts_view(scripts@) =~= before.push(c@));
        }
        i = i + 1;
    }
    assert(all.subrange(0, settings.scripts.len() as int) =~= all);
    let is_default = match &settings.default_script_id {
        Some(d) => *d == target,
        None => false,
    };
    let default_script_id = if is_default {
        if scripts.len() > 0 {
            Some(scripts[0].id.clone())
        } else {
            None
        }
    } else {
        copy_opt(&settings.default_script_id)
    };
    Ok((StoredRunSettings { default_script_id, scripts }, file_name))
}

/// The file of a stored script, which must be sound.
pub fn script_path(settings: &StoredRunSettings, script_id: &str) -> (r: Result<String, String>)
    ensures
        r is Ok <==> has_script(settings@.scripts, script_id@) && sound_metadata(
            settings@.scripts[choose|i: int| first_script(settings@.scripts, script_id@, i)],
        ),
        r matches Err(e) ==> e@ == if has_script(settings@.scripts, script_id@) {
            metadata_error()
        } else {
            not_found()
        },
        r matches Ok(f) ==> f@ == settings@.scripts[choose|i: int| first_script(settings@.scripts, script_id@, i)].file_name,
{
    let target = String::from_str(script_id);
    let p = match position_of(&settings.scripts, &target) {
        Some(p) => p,
        None => return Err(String::from_str("run script not found")),
    };
    proof {
        lemma_first_script_unique(settings@.scripts, script_id@, p as int);
    }
    validate_metadata(&settings.scripts[p])?;
    Ok(settings.scripts[p].file_name.clone())
}

/// The settings as shown: every stored script, in order, with the path of
/// its file and its content (`paths[i]` and `contents[i]` for script `i`).
pub fn load_settings(stored: &StoredRunSettings, paths: &Vec<String>, contents: &Vec<String>) -> (r: RunSettings)
    requires
        paths.len() == stored.scripts.len(),
        contents.len() == stored.scripts.len(),
    ensures
        opt_view(r.default_script_id) == opt_view(stored.default_script_id),
        r.scripts.len() == stored.scripts.len(),
        forall|i: int| 0 <= i < r.scripts.len() ==> {
            let a = #[trigger] r.scripts@[i];
            let s = stored.scripts@[i];
            a.id@ == s.id@ && a.label@ == s.label@ && a.file_name@ == s.file_name@ && a.file_path@
                == paths@[i]@ && a.content@ == contents@[i]@
        },
{
    let mut scripts: Vec<RunScript> = Vec::new();
    let mut i: usize = 0;
    while i < stored.scripts.len()
        invariant
            i <= stored.scripts.len(),
            paths.len() == stored.scripts.len(),
            contents.len() == stored.scripts.len(),
            scripts.len() == i,
            forall|k: int| 0 <= k < i ==> {
                let a = #[trigger] scripts@[k];
                let s = stored.scripts@[k];
                a.id@ == s.id@ && a.label@ == s.label@ && a.file_name@ == s.file_name@
                    && a.file_path@ == paths@[k]@ && a.content@ == contents@[k]@
            },
        decreases stored.scripts.len() - i,
    {
        let s = &stored.scripts[i];
        scripts.push(
            RunScript {
                id: s.id.clone(),
                label: s.label.clone(),
                file_name: s.file_name.clone(),
                file_path: paths[i].clone(),
                content: contents[i].clone(),
            },
        );
        i = i + 1;
    }
    RunSettings { default_script_id: copy_opt(&stored.default_script_id), scripts }
}

/// How a run script is started in its terminal: the shell, the script as
/// its one argument, the checkout as working directory, and the
/// environment that names the checkout and asks for colour.
#[derive(Debug)]
pub struct CommandPlan {
    pub program: String,
    pub args: Vec<String>,
    pub cwd: String,
    pub env: Vec<(String, String)>,
}

/// How a run script is started.
pub fn run_command(script: &str, working_directory: &str) -> (r: CommandPlan)
    ensures
        r.program@ == "/bin/zsh"@,
        r.args.len() == 1 && r.args@[0]@ == script@,
        r.cwd@ == working_directory@,
        r.env.len() == 3,
        r.env@[0].0@ == "SHIPYARD_WORKTREE_PATH"@ && r.env@[0].1@ == working_directory@,
        r.env@[1].0@ == "TERM"@ && r.env@[1].1@ == "xterm-256color"@,
        r.env@[2].0@ == "COLORTERM"@ && r.env@[2].1@ == "truecolor"@,
{
    let mut args: Vec<String> = Vec::new();
    args.push(script.to_string());
    let mut env: Vec<(String, String)> = Vec::new();
    env.push((String::from_str("SHIPYARD_WORKTREE_PATH"), working_directory.to_string()));
    env.push((String::from_str("TERM"), String::from_str("xterm-256color")));
    env.push((String::from_str("COLORTERM"), String::from_str("truecolor")));
    CommandPlan { program: String::from_str("/bin/zsh"), args, cwd: working_directory.to_string(), env }
}

/// A run needs its checkout: it must still exist as a directory and belong
/// to the project (`belongs`, asked only when it exists).
pub fn validate_working_directory(is_dir: bool, belongs: Result<bool, String>) -> (r: Result<(), String>)
    ensures
        !is_dir ==> (r matches Err(e) && e@ == "run checkout no longer exists"@),
        is_dir && belongs is Err ==> (r matches Err(e) && e@ == belongs->Err_0@),
        is_dir && belongs == Ok::<bool, String>(false) ==> (r matches Err(e) && e@ == "run checkout does not belong to this project"@),
        is_dir && belongs == Ok::<bool, String>(true) ==> r is Ok,
{
    if !is_dir {
        return Err(String::from_str("run checkout no longer exists"));
    }
    match belongs {
        Err(e) => Err(e),
        Ok(false) => Err(String::from_str("run checkout does not belong to this project")),
        Ok(true) => Ok(()),
    }
}

/// The end of a run, as reported to the window.
#[derive(Debug)]
pub struct RunFinished {
    pub run_id: String,
    pub exit_code: Option<i32>,
    pub success: bool,
}

/// The end of a run: the exit code and success of the script when waiting
/// for it worked (`Some((code, success))`), else no code and failure.
pub fn run_finished(run_id: String, status: Option<(i32, bool)>) -> (r: RunFinished)
    ensures
        r.run_id@ == run_id@,
        status matches Some((code, ok)) ==> r.exit_code == Some(code) && r.success == ok,
        status is None ==> r.exit_code is None && !r.success,
{
    match status {
        Some((code, ok)) => RunFinished { run_id, exit_code: Some(code), success: ok },
        None => RunFinished { run_id, exit_code: None, success: false },
    }
}

/// A run that is not active cannot be written to, resized or cancelled.
pub fn active_or_error(found: bool) -> (r: Result<(), String>)
    ensures
        found ==> r is Ok,
        !found ==> (r matches Err(e) && e@ == "run is not active"@),
{
    if found {
        Ok(())
    } else {
        Err(String::from_str("run is not active"))
    }
}

proof fn lemma_first_script_exists(scripts: Seq<ScriptView>, id: Seq<char>)
    requires
        has_script(scripts, id),
    ensures
        exists|i: int| first_script(scripts, id, i),
    decreases scripts.len(),
{
    let q = scripts.drop_last();
    if has_script(q, id) {
        lemma_first_script_exists(q, id);
        let i = choose|i: int| first_script(q, id, i);
        assert forall|j: int| 0 <= j < i implies (#[trigger] scripts[j]).id != id by {
            assert(scripts[j] == q[j]);
        }
        assert(first_script(scripts, id, i));
    } else {
        let n = scripts.len() - 1;
        let k = choose|k: int| 0 <= k < scripts.len() && (#[trigger] scripts[k]).id == id;
        if k < n {
            assert(q[k] == scripts[k]);
        }
        assert forall|j: int| 0 <= j < n implies (#[trigger] scripts[j]).id != id by {
            assert(scripts[j] == q[j]);
        }
        assert(first_script(scripts, id, n));
    }
}

/// A saved script is found again under its identifier with the trimmed
/// label; a new script's file is named after its identifier; it is the
/// default when asked to be.
pub proof fn law_saved_script_reads_back(settings: StoredView, input: ScriptInput, fresh_id: Seq<char>)
    requires
        match input.id {
            Some(id) => has_script(settings.scripts, id@),
            None => !has_script(settings.scripts, fresh_id),
        },
    ensures
        ({
            let s = saved(settings, input, fresh_id);
            let id = saved_id(input, fresh_id);
            &&& exists|i: int| first_script(s.scripts, id, i) && s.scripts[i].label == trim(input.label@)
                && (input.id is None ==> s.scripts[i].file_name == spec_script_file_name(id))
            &&& input.make_default ==> s.default_script_id == Some(id)
        }),
{
    let s = saved(settings, input, fresh_id);
    let id = saved_id(input, fresh_id);
    match input.id {
        Some(given) => {
            lemma_first_script_exists(settings.scripts, given@);
            let i = choose|i: int| first_script(settings.scripts, given@, i);
            assert forall|j: int| 0 <= j < i implies (#[trigger] s.scripts[j]).id != id by {
                assert(s.scripts[j] == settings.scripts[j]);
            }
            assert(first_script(s.scripts, id, i));
        },
        None => {
            let n = settings.scripts.len() as int;
            assert forall|j: int| 0 <= j < n implies (#[trigger] s.scripts[j]).id != id by {
                assert(s.scripts[j] == settings.scripts[j]);
            }
            assert(first_script(s.scripts, id, n));
        },
    }
}

proof fn lemma_without_script_members(scripts: Seq<ScriptView>, id: Seq<char>)
    ensures
        forall|j: int| 0 <= j < without_script(scripts, id).len() ==> (#[trigger] without_script(scripts, id)[j]).id != id,
    decreases scripts.len(),
{
    if scripts.len() > 0 {
        lemma_without_script_members(scripts.drop_last(), id);
        let k = without_script(scripts.drop_last(), id);
        assert forall|j: int| 0 <= j < without_script(scripts, id).len() implies (#[trigger] without_script(scripts, id)[j]).id != id by {
            if j < k.len() {
                assert(without_script(scripts, id)[j] == k[j]);
            }
        }
    }
}

/// A deleted script is gone: no script has its identifier any more.
pub proof fn law_deleted_script_is_gone(scripts: Seq<ScriptView>, id: Seq<char>)
    ensures
        !has_script(without_script(scripts, id), id),
{
    lemma_without_script_members(scripts, id);
}

} // verus!
