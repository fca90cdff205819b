//! What is remembered about shipping work items into the default branch:
//! the last attempt per work item, and which of them still count.
use crate::run::{
    first_script, metadata_error, not_found, sound_metadata, without_script,
    has_script, input_error, saved, saved_id, spec_script_file_name, ScriptInput, StoredRunSettings,
    StoredView,
};
use crate::git::ship_safety::{spec_validate_ship, validate_ship, ShipFacts};
use crate::git::worktree::opt_view;
use vstd::prelude::*;
use vstd::string::StringSliceAdditionalSpecFns;

verus! {

/// The settings scope that ship scripts are kept under.
pub const SCOPE: &'static str = "ship";

/// The label of the script a project starts with.
pub const DEFAULT_LABEL: &'static str = "Merge into default branch";

/// The script a project starts with: it checks that nothing moved since the
/// request was validated, then that the source commit merges into the
/// default branch without a conflict (`git merge-tree --write-tree`, which
/// touches no worktree and fails on a conflict), and only then merges it
/// into the default branch's worktree.
pub const DEFAULT_SCRIPT: &'static str = "#!/bin/zsh\nset -euo pipefail\n\n[[ \"$(git -C \"$SHIPYARD_WORKTREE_PATH\" rev-parse HEAD)\" == \"$SHIPYARD_SOURCE_SHA\" ]]\n[[ -z \"$(git -C \"$SHIPYARD_WORKTREE_PATH\" status --porcelain --untracked-files=normal)\" ]]\n[[ \"$(git -C \"$SHIPYARD_TARGET_WORKTREE_PATH\" branch --show-current)\" == \"$SHIPYARD_DEFAULT_BRANCH\" ]]\n[[ -z \"$(git -C \"$SHIPYARD_TARGET_WORKTREE_PATH\" status --porcelain --untracked-files=normal)\" ]]\ngit -C \"$SHIPYARD_TARGET_WORKTREE_PATH\" merge-tree --write-tree HEAD \"$SHIPYARD_SOURCE_SHA\" >/dev/null\ngit -C \"$SHIPYARD_TARGET_WORKTREE_PATH\" merge --no-edit \"$SHIPYARD_SOURCE_SHA\"\n";

/// The script that projects used to start with: it merged straight into the
/// default branch's worktree, so a conflict was left there half merged.
pub const LEGACY_DEFAULT_SCRIPT: &'static str = "#!/bin/zsh\nset -euo pipefail\n\n[[ \"$(git -C \"$SHIPYARD_WORKTREE_PATH\" rev-parse HEAD)\" == \"$SHIPYARD_SOURCE_SHA\" ]]\n[[ -z \"$(git -C \"$SHIPYARD_WORKTREE_PATH\" status --porcelain --untracked-files=normal)\" ]]\n[[ \"$(git -C \"$SHIPYARD_TARGET_WORKTREE_PATH\" branch --show-current)\" == \"$SHIPYARD_DEFAULT_BRANCH\" ]]\n[[ -z \"$(git -C \"$SHIPYARD_TARGET_WORKTREE_PATH\" status --porcelain --untracked-files=normal)\" ]]\ngit -C \"$SHIPYARD_TARGET_WORKTREE_PATH\" merge --no-edit \"$SHIPYARD_SOURCE_SHA\"\n";

/// A request to ship a work item into the default branch.
#[derive(Clone, Debug)]
pub struct ShipRequest {
    pub project_id: String,
    pub script_id: String,
    pub work_item_id: String,
    pub source_path: String,
    pub source_branch: Option<String>,
    pub source_sha: String,
    pub default_branch: String,
}

/// The script a project's ship settings start with.
pub fn default_script_input() -> (r: ScriptInput)
    ensures
        r.id is None,
        r.label@ == DEFAULT_LABEL@,
        r.content@ == DEFAULT_SCRIPT@,
        r.make_default,
{
    ScriptInput {
        id: None,
        label: String::from_str(DEFAULT_LABEL),
        content: String::from_str(DEFAULT_SCRIPT),
        make_default: true,
    }
}

/// The ship settings to use: those stored when they hold a script;
/// otherwise the default script added under `fresh_id` and made the default,
/// with its identifier and file name so that its content can be written.
pub fn load_settings(stored: &StoredRunSettings, fresh_id: &str) -> (r: (StoredRunSettings, Option<(String, String)>))
    ensures
        stored.scripts.len() > 0 ==> r.0@ == stored@ && r.1 is None,
        stored.scripts.len() == 0 ==> {
            &&& r.0@.scripts == seq![crate::run::ScriptView {
                id: fresh_id@,
                label: DEFAULT_LABEL@,
                file_name: spec_script_file_name(fresh_id@),
            }]
            &&& r.0@.default_script_id == Some(fresh_id@)
            &&& r.1 matches Some(added) && added.0@ == fresh_id@ && added.1@ == spec_script_file_name(fresh_id@)
        },
{
    if stored.scripts.len() > 0 {
        let copy = StoredRunSettings {
            default_script_id: match &stored.default_script_id {
                Some(d) => Some(d.clone()),
                None => None,
            },
            scripts: crate::run::copy_scripts(&stored.scripts),
        };
        return (copy, None);
    }
    let input = default_script_input();
    proof {
        reveal_strlit("Merge into default branch");
        crate::text::lemma_trim_keeps(input.label@, 0);
        reveal_strlit("#!/bin/zsh\nset -euo pipefail\n\n[[ \"$(git -C \"$SHIPYARD_WORKTREE_PATH\" rev-parse HEAD)\" == \"$SHIPYARD_SOURCE_SHA\" ]]\n[[ -z \"$(git -C \"$SHIPYARD_WORKTREE_PATH\" status --porcelain --untracked-files=normal)\" ]]\n[[ \"$(git -C \"$SHIPYARD_TARGET_WORKTREE_PATH\" branch --show-current)\" == \"$SHIPYARD_DEFAULT_BRANCH\" ]]\n[[ -z \"$(git -C \"$SHIPYARD_TARGET_WORKTREE_PATH\" status --porcelain --untracked-files=normal)\" ]]\ngit -C \"$SHIPYARD_TARGET_WORKTREE_PATH\" merge-tree --write-tree HEAD \"$SHIPYARD_SOURCE_SHA\" >/dev/null\ngit -C \"$SHIPYARD_TARGET_WORKTREE_PATH\" merge --no-edit \"$SHIPYARD_SOURCE_SHA\"\n");
        crate::text::lemma_trim_nonempty(input.content@, 0);
        assert(input_error(input) is None);
    }
    match crate::run::save_script(stored, &input, fresh_id) {
        Ok((settings, id, file_name)) => {
            assert(stored@.scripts =~= Seq::<crate::run::ScriptView>::empty());
            (settings, Some((id, file_name)))
        },
        Err(_) => {
            assert(false);
            (StoredRunSettings { default_script_id: None, scripts: Vec::new() }, None)
        },
    }
}

/// A script's content once loaded: an unchanged legacy default script
/// becomes the current default script; any other content stays as it is.
pub open spec fn spec_upgraded(content: Seq<char>) -> Seq<char> {
    if content == LEGACY_DEFAULT_SCRIPT@ {
        DEFAULT_SCRIPT@
    } else {
        content
    }
}

/// The contents of a project's ship scripts once loaded (see
/// `spec_upgraded`), with, for each script, whether its file must be
/// rewritten with the new content.
pub fn upgrade_scripts(contents: &Vec<String>) -> (r: (Vec<String>, Vec<bool>))
    ensures
        r.0.len() == contents.len(),
        r.1.len() == contents.len(),
        forall|i: int| 0 <= i < contents.len() ==> (#[trigger] r.0@[i])@ == spec_upgraded(contents@[i]@),
        forall|i: int| 0 <= i < contents.len() ==> #[trigger] r.1@[i] == (contents@[i]@ == LEGACY_DEFAULT_SCRIPT@),
{
    let mut upgraded: Vec<String> = Vec::new();
    let mut rewrite: Vec<bool> = Vec::new();
    let mut i: usize = 0;
    while i < contents.len()
        invariant
            i <= contents.len(),
            upgraded.len() == i,
            rewrite.len() == i,
            forall|k: int| 0 <= k < i ==> (#[trigger] upgraded@[k])@ == spec_upgraded(contents@[k]@),
            forall|k: int| 0 <= k < i ==> #[trigger] rewrite@[k] == (contents@[k]@ == LEGACY_DEFAULT_SCRIPT@),
        decreases contents.len() - i,
    {
        let legacy = crate::text::same_text(contents[i].as_str(), LEGACY_DEFAULT_SCRIPT);
        if legacy {
            upgraded.push(String::from_str(DEFAULT_SCRIPT));
        } else {
            upgraded.push(contents[i].clone());
        }
        rewrite.push(legacy);
        i = i + 1;
    }
    (upgraded, rewrite)
}

/// A ship script saved into the ship settings (see `run::save_script`).
pub fn save_script(settings: &StoredRunSettings, input: &ScriptInput, fresh_id: &str) -> (r: Result<(StoredRunSettings, String, String), String>)
    ensures
        r is Ok <==> input_error(*input) is None && match input.id {
            Some(id) => has_script(settings@.scripts, id@),
            None => true,
        },
        r matches Ok(v) ==> v.0@ == saved(settings@, *input, fresh_id@) && v.1@ == saved_id(*input, fresh_id@),
{
    crate::run::save_script(settings, input, fresh_id)
}

/// A ship script removed from the ship settings (see `run::delete_script`).
pub fn delete_script(settings: &StoredRunSettings, script_id: &str) -> (r: Result<(StoredRunSettings, String), String>)
    ensures
        r is Ok <==> has_script(settings@.scripts, script_id@) && sound_metadata(
            settings@.scripts[choose|i: int| first_script(settings@.scripts, script_id@, i)],
        ),
        r matches Err(e) ==> e@ == if has_script(settings@.scripts, script_id@) {
            metadata_error()
        } else {
            not_found()
        },
        r matches Ok(v) ==> {
            &&& v.0@.scripts == without_script(settings@.scripts, script_id@)
            &&& v.0@.default_script_id == if settings@.default_script_id == Some(script_id@) {
                if v.0@.scripts.len() > 0 {
                    Some(v.0@.scripts[0].id)
                } else {
                    None
                }
            } else {
                settings@.default_script_id
            }
            &&& v.1@ == settings@.scripts[choose|i: int| first_script(settings@.scripts, script_id@, i)].file_name
        },
{
    crate::run::delete_script(settings, script_id)
}

/// The file of a ship script: the settings are first given their default
/// script when they hold none (see `load_settings`), then the script is
/// looked up in them (see `run::script_path`).
pub fn script_path(stored: &StoredRunSettings, fresh_id: &str, script_id: &str) -> (r: (StoredRunSettings, Option<(String, String)>, Result<String, String>))
    ensures
        stored.scripts.len() > 0 ==> r.0@ == stored@ && r.1 is None,
        stored.scripts.len() == 0 ==> {
            &&& r.0@.scripts == seq![crate::run::ScriptView {
                id: fresh_id@,
                label: DEFAULT_LABEL@,
                file_name: spec_script_file_name(fresh_id@),
            }]
            &&& r.0@.default_script_id == Some(fresh_id@)
            &&& r.1 matches Some(added) && added.0@ == fresh_id@ && added.1@ == spec_script_file_name(fresh_id@)
        },
        r.2 is Ok <==> has_script(r.0@.scripts, script_id@) && sound_metadata(
            r.0@.scripts[choose|i: int| first_script(r.0@.scripts, script_id@, i)],
        ),
        r.2 matches Err(e) ==> e@ == if has_script(r.0@.scripts, script_id@) {
            metadata_error()
        } else {
            not_found()
        },
        r.2 matches Ok(f) ==> f@ == r.0@.scripts[choose|i: int| first_script(r.0@.scripts, script_id@, i)].file_name,
{
    let (settings, added) = load_settings(stored, fresh_id);
    let path = crate::run::script_path(&settings, script_id);
    (settings, added, path)
}

/// A validated request to ship a work item into the default branch.
#[derive(Clone, Debug)]
pub struct ShipContext {
    pub project_id: String,
    pub work_item_id: String,
    pub source_path: String,
    pub source_branch: Option<String>,
    pub source_sha: String,
    pub default_branch: String,
    pub target_path: String,
}

impl ShipContext {
    /// The context of a ship request, once the checks before shipping pass
    /// (see `git::ship_safety::validate_ship`): the request's own fields, with
    /// the default branch's worktree as the target.
    pub fn validated(request: &ShipRequest, facts: &ShipFacts) -> (r: Result<ShipContext, String>)
        ensures
            match spec_validate_ship(opt_view(request.source_branch), request.source_sha@, request.default_branch@, *facts) {
                Ok(target) => r matches Ok(c) && c.project_id@ == request.project_id@ && c.work_item_id@ == request.work_item_id@
                    && c.source_path@ == request.source_path@ && opt_view(c.source_branch) == opt_view(request.source_branch)
                    && c.source_sha@ == request.source_sha@ && c.default_branch@ == request.default_branch@
                    && c.target_path@ == target,
                Err(e) => r matches Err(m) && m@ == e,
            },
    {
        let target_path = match validate_ship(&request.source_branch, request.source_sha.as_str(), request.default_branch.as_str(), facts) {
            Ok(t) => t,
            Err(e) => return Err(e),
        };
        Ok(ShipContext {
            project_id: request.project_id.clone(),
            work_item_id: request.work_item_id.clone(),
            source_path: request.source_path.clone(),
            source_branch: match &request.source_branch {
                Some(b) => Some(b.clone()),
                None => None,
            },
            source_sha: request.source_sha.clone(),
            default_branch: request.default_branch.clone(),
            target_path,
        })
    }
}

/// The remembered outcome of the last attempt to ship a work item.
#[derive(Clone, Debug)]
pub struct ShipRecord {
    pub work_item_id: String,
    pub source_sha: String,
    pub default_branch: String,
    pub source_path: String,
    pub target_path: String,
    pub successful: bool,
}

/// The work items that shipped, with the commit that shipped, and those
/// whose shipping stopped on a conflict, with the worktree to resolve it in.
#[derive(Clone, Debug, Default)]
pub struct ShipStates {
    pub conflicts: Vec<(String, String)>,
    pub shipped: Vec<(String, String)>,
}

pub struct RecordView {
    pub work_item_id: Seq<char>,
    pub source_sha: Seq<char>,
    pub default_branch: Seq<char>,
    pub source_path: Seq<char>,
    pub target_path: Seq<char>,
    pub successful: bool,
}

impl View for ShipRecord {
    type V = RecordView;

    open spec fn view(&self) -> RecordView {
        RecordView {
            work_item_id: self.work_item_id@,
            source_sha: self.source_sha@,
            default_branch: self.default_branch@,
            source_path: self.source_path@,
            target_path: self.target_path@,
            successful: self.successful,
        }
    }
}

pub open spec fn records_view(v: Seq<ShipRecord>) -> Seq<RecordView> {
    v.map_values(|r: ShipRecord| r@)
}

pub open spec fn pairs_view(v: Seq<(String, String)>) -> Seq<(Seq<char>, Seq<char>)> {
    v.map_values(|p: (String, String)| (p.0@, p.1@))
}

/// The records of other work items, in order.
pub open spec fn others(records: Seq<RecordView>, work_item_id: Seq<char>) -> Seq<RecordView>
    decreases records.len(),
{
    if records.len() == 0 {
        Seq::empty()
    } else if records.last().work_item_id == work_item_id {
        others(records.drop_last(), work_item_id)
    } else {
        others(records.drop_last(), work_item_id).push(records.last())
    }
}

/// The record of an attempt in `context` with this outcome.
pub open spec fn attempt(context: ShipContext, successful: bool) -> RecordView {
    RecordView {
        work_item_id: context.work_item_id@,
        source_sha: context.source_sha@,
        default_branch: context.default_branch@,
        source_path: context.source_path@,
        target_path: context.target_path@,
        successful: successful,
    }
}

/// The records after an attempt: the work item's earlier record replaced by
/// one for this attempt, placed last.
pub open spec fn spec_record(records: Seq<RecordView>, context: ShipContext, successful: bool) -> Seq<RecordView> {
    others(records, context.work_item_id@).push(attempt(context, successful))
}

impl ShipRecord {
    pub fn copy(&self) -> (r: Self)
        ensures
            r@ == self@,
    {
        ShipRecord {
            work_item_id: self.work_item_id.clone(),
            source_sha: self.source_sha.clone(),
            default_branch: self.default_branch.clone(),
            source_path: self.source_path.clone(),
            target_path: self.target_path.clone(),
            successful: self.successful,
        }
    }
}

fn record(records: &Vec<ShipRecord>, context: &ShipContext, successful: bool) -> (r: Vec<ShipRecord>)
    ensures
        records_view(r@) == spec_record(records_view(records@), *context, successful),
{
    let ghost all = records_view(records@);
    let mut kept: Vec<ShipRecord> = Vec::new();
    let mut i: usize = 0;
    while i < records.len()
        invariant
            i <= records.len(),
            all == records_view(records@),
            records_view(kept@) == others(all.subrange(0, i as int), context.work_item_id@),
        decreases records.len() - i,
    {
        assert(all.subrange(0, i + 1).drop_last() =~= all.subrange(0, i as int));
        assert(all.subrange(0, i + 1).last() == records@[i as int]@);
        if records[i].work_item_id != context.work_item_id {
            let ghost before = records_view(kept@);
            let copy = records[i].copy();
            kept.push(copy);
            assert(records_view(kept@) =~= before.push(copy@));
        }
        i = i + 1;
    }
    assert(all.subrange(0, records.len() as int) =~= all);
    let entry = ShipRecord {
        work_item_id: context.work_item_id.clone(),
        source_sha: context.source_sha.clone(),
        default_branch: context.default_branch.clone(),
        source_path: context.source_path.clone(),
        target_path: context.target_path.clone(),
        successful: successful,
    };
    let ghost before = records_view(kept@);
    kept.push(entry);
    assert(records_view(kept@) =~= before.push(entry@));
    kept
}

/// The records after an attempt that stopped on a conflict.
pub fn record_conflict(records: &Vec<ShipRecord>, context: &ShipContext) -> (r: Vec<ShipRecord>)
    ensures
        records_view(r@) == spec_record(records_view(records@), *context, false),
{
    record(records, context, false)
}

/// The records after an attempt that succeeded.
pub fn record_success(records: &Vec<ShipRecord>, context: &ShipContext) -> (r: Vec<ShipRecord>)
    ensures
        records_view(r@) == spec_record(records_view(records@), *context, true),
{
    record(records, context, true)
}

/// Whether Git must be asked if a record's commit reached the default branch:
/// only a conflict can have been resolved since.
pub fn merge_check_needed(record: &ShipRecord) -> (r: bool)
    ensures
        r == !record.successful,
{
    !record.successful
}

/// The records that still count: every success, and every conflict whose
/// commit has not reached the default branch (`merged[i]` answers that for
/// record `i`).
pub open spec fn active(records: Seq<RecordView>, merged: Seq<bool>) -> Seq<RecordView>
    decreases records.len(),
{
    if records.len() == 0 {
        Seq::empty()
    } else {
        let n = records.len() - 1;
        let before = active(records.drop_last(), merged.subrange(0, n));
        if records.last().successful || !merged[n] {
            before.push(records.last())
        } else {
            before
        }
    }
}

pub open spec fn shipped_of(records: Seq<RecordView>) -> Seq<(Seq<char>, Seq<char>)>
    decreases records.len(),
{
    if records.len() == 0 {
        Seq::empty()
    } else if records.last().successful {
        shipped_of(records.drop_last()).push((records.last().work_item_id, records.last().source_sha))
    } else {
        shipped_of(records.drop_last())
    }
}

pub open spec fn conflicts_of(records: Seq<RecordView>) -> Seq<(Seq<char>, Seq<char>)>
    decreases records.len(),
{
    if records.len() == 0 {
        Seq::empty()
    } else if !records.last().successful {
        conflicts_of(records.drop_last()).push((records.last().work_item_id, records.last().target_path))
    } else {
        conflicts_of(records.drop_last())
    }
}

/// The states that still count, and the records to store when some record
/// no longer counts.
pub fn active_states(records: &Vec<ShipRecord>, merged: &Vec<bool>) -> (r: (ShipStates, Option<Vec<ShipRecord>>))
    requires
        merged.len() == records.len(),
    ensures
        pairs_view(r.0.shipped@) == shipped_of(active(records_view(records@), merged@)),
        pairs_view(r.0.conflicts@) == conflicts_of(active(records_view(records@), merged@)),
        match r.1 {
            Some(kept) => records_view(kept@) == active(records_view(records@), merged@)
                && active(records_view(records@), merged@).len() < records.len(),
            None => active(records_view(records@), merged@) == records_view(records@),
        },
{
    let ghost all = records_view(records@);
    let mut kept: Vec<ShipRecord> = Vec::new();
    let mut shipped: Vec<(String, String)> = Vec::new();
    let mut conflicts: Vec<(String, String)> = Vec::new();
    let mut i: usize = 0;
    while i < records.len()
        invariant
            i <= records.len(),
            merged.len() == records.len(),
            all == records_view(records@),
            records_view(kept@) == active(all.subrange(0, i as int), merged@.subrange(0, i as int)),
            pairs_view(shipped@) == shipped_of(records_view(kept@)),
            pairs_view(conflicts@) == conflicts_of(records_view(kept@)),
            kept.len() <= i,
            kept.len() == i ==> records_view(kept@) == all.subrange(0, i as int),
        decreases records.len() - i,
    {
        let ghost prefix = all.subrange(0, i + 1);
        assert(prefix.drop_last() =~= all.subrange(0, i as int));
        assert(merged@.subrange(0, i + 1).subrange(0, i as int) =~= merged@.subrange(0, i as int));
        assert(prefix.last() == records@[i as int]@);
        if records[i].successful || !merged[i] {
            let ghost before = records_view(kept@);
            let copy = records[i].copy();
            if copy.successful {
                let ghost b = pairs_view(shipped@);
                shipped.push((copy.work_item_id.clone(), copy.source_sha.clone()));
                assert(pairs_view(shipped@) =~= b.push((copy@.work_item_id, copy@.source_sha)));
            } else {
                let ghost b = pairs_view(conflicts@);
                conflicts.push((copy.work_item_id.clone(), copy.target_path.clone()));
                assert(pairs_view(conflicts@) =~= b.push((copy@.work_item_id, copy@.target_path)));
            }
            kept.push(copy);
            assert(records_view(kept@) =~= before.push(copy@));
            assert(before.push(copy@).drop_last() =~= before);
        }
        i = i + 1;
    }
    assert(all.subrange(0, records.len() as int) =~= all);
    assert(merged@.subrange(0, records.len() as int) =~= merged@);
    let states = ShipStates { conflicts, shipped };
    if kept.len() < records.len() {
        (states, Some(kept))
    } else {
        (states, None)
    }
}

/// A record counts when it is a success, or a conflict whose commit has
/// not reached the default branch.
pub open spec fn counts(r: RecordView, merged: bool) -> bool {
    r.successful || !merged
}

/// A record that is one of `records` and counts.
pub open spec fn counted_record(records: Seq<RecordView>, merged: Seq<bool>, x: RecordView) -> bool {
    exists|i: int| 0 <= i < records.len() && counts(records[i], merged[i]) && x == #[trigger] records[i]
}

proof fn lemma_active_members(records: Seq<RecordView>, merged: Seq<bool>)
    requires
        merged.len() == records.len(),
    ensures
        forall|i: int| 0 <= i < records.len() && counts(records[i], merged[i]) ==> active(records, merged).contains(#[trigger] records[i]),
        forall|j: int| 0 <= j < active(records, merged).len() ==> counted_record(records, merged, #[trigger] active(records, merged)[j]),
        active(records, merged).len() <= records.len(),
    decreases records.len(),
{
    if records.len() > 0 {
        let n = records.len() - 1;
        let q = records.drop_last();
        let m = merged.subrange(0, n);
        lemma_active_members(q, m);
        let before = active(q, m);
        let a = active(records, merged);
        assert forall|i: int| 0 <= i < records.len() && counts(records[i], merged[i]) implies a.contains(#[trigger] records[i]) by {
            if i < n {
                assert(q[i] == records[i] && m[i] == merged[i]);
                assert(before.contains(q[i]));
                let k = choose|k: int| 0 <= k < before.len() && before[k] == q[i];
                assert(a[k] == before[k]);
            } else {
                assert(a[a.len() - 1] == records[i]);
            }
        }
        assert forall|j: int| 0 <= j < a.len() implies counted_record(records, merged, #[trigger] a[j]) by {
            if j < before.len() {
                assert(counted_record(q, m, before[j]));
                let i = choose|i: int| 0 <= i < q.len() && counts(q[i], m[i]) && before[j] == #[trigger] q[i];
                assert(q[i] == records[i] && m[i] == merged[i]);
                assert(a[j] == before[j]);
                assert(0 <= i < records.len() && counts(records[i], merged[i]) && a[j] == records[i]);
            } else {
                assert(counts(records.last(), merged[n]));
                assert(a[j] == records[n]);
                assert(counts(records[n], merged[n]) && a[j] == records[n]);
            }
        }
    }
}

/// A successful shipment keeps counting on every later scan, whatever Git
/// says of the other records; a conflict keeps counting until Git shows its
/// commit in the default branch.
pub proof fn law_success_survives_rescans(records: Seq<RecordView>, merged: Seq<bool>, i: int)
    requires
        merged.len() == records.len(),
        0 <= i < records.len(),
        records[i].successful || !merged[i],
    ensures
        active(records, merged).contains(records[i]),
{
    lemma_active_members(records, merged);
}

/// Once Git shows that a conflict's commit reached the default branch, the
/// conflict stops counting (each work item having one record).
pub proof fn law_merged_conflict_is_dropped(records: Seq<RecordView>, merged: Seq<bool>, i: int)
    requires
        merged.len() == records.len(),
        0 <= i < records.len(),
        !records[i].successful,
        merged[i],
        forall|a: int, b: int| 0 <= a < b < records.len() ==> (#[trigger] records[a]).work_item_id != (#[trigger] records[b]).work_item_id,
    ensures
        !active(records, merged).contains(records[i]),
{
    lemma_active_members(records, merged);
    let act = active(records, merged);
    if act.contains(records[i]) {
        let j = choose|j: int| 0 <= j < act.len() && act[j] == records[i];
        assert(counted_record(records, merged, act[j]));
        let k = choose|k: int| 0 <= k < records.len() && counts(records[k], merged[k]) && act[j] == #[trigger] records[k];
        if k < i {
            assert(records[k].work_item_id != records[i].work_item_id);
        } else if i < k {
            assert(records[i].work_item_id != records[k].work_item_id);
        }
    }
}

proof fn lemma_others(records: Seq<RecordView>, id: Seq<char>)
    ensures
        forall|j: int| 0 <= j < others(records, id).len() ==> (#[trigger] others(records, id)[j]).work_item_id != id,
        (forall|a: int, b: int| 0 <= a < b < records.len() ==> (#[trigger] records[a]).work_item_id != (#[trigger] records[b]).work_item_id)
            ==> (forall|a: int, b: int| 0 <= a < b < others(records, id).len() ==> (#[trigger] others(records, id)[a]).work_item_id != (#[trigger] others(records, id)[b]).work_item_id),
        forall|j: int| 0 <= j < others(records, id).len() ==> records.contains(#[trigger] others(records, id)[j]),
    decreases records.len(),
{
    if records.len() > 0 {
        let q = records.drop_last();
        lemma_others(q, id);
        let o = others(records, id);
        let p = others(q, id);
        assert forall|j: int| 0 <= j < o.len() implies records.contains(#[trigger] o[j]) by {
            if j < p.len() {
                assert(o[j] == p[j]);
                assert(q.contains(p[j]));
                let k = choose|k: int| 0 <= k < q.len() && q[k] == p[j];
                assert(records[k] == q[k]);
            } else {
                assert(o[j] == records[records.len() - 1]);
            }
        }
        if forall|a: int, b: int| 0 <= a < b < records.len() ==> (#[trigger] records[a]).work_item_id != (#[trigger] records[b]).work_item_id {
            assert forall|a: int, b: int| 0 <= a < b < q.len() implies (#[trigger] q[a]).work_item_id != (#[trigger] q[b]).work_item_id by {
                assert(q[a] == records[a] && q[b] == records[b]);
            }
            assert forall|a: int, b: int| 0 <= a < b < o.len() implies (#[trigger] o[a]).work_item_id != (#[trigger] o[b]).work_item_id by {
                if b < p.len() {
                    assert(o[a] == p[a] && o[b] == p[b]);
                } else {
                    assert(o[b] == records.last());
                    assert(o[a] == p[a]);
                    assert(q.contains(p[a]));
                    let k = choose|k: int| 0 <= k < q.len() && q[k] == p[a];
                    assert(records[k] == q[k]);
                    assert(records[k].work_item_id != records[records.len() - 1].work_item_id);
                }
            }
        }
    }
}

/// Recording an attempt keeps one record per work item: the attempt's record
/// comes last and no other record names its work item; records that named
/// distinct work items still do.
pub proof fn law_one_record_per_work_item(records: Seq<RecordView>, context: ShipContext, successful: bool)
    requires
        forall|a: int, b: int| 0 <= a < b < records.len() ==> (#[trigger] records[a]).work_item_id != (#[trigger] records[b]).work_item_id,
    ensures
        spec_record(records, context, successful).last() == attempt(context, successful),
        forall|a: int, b: int| 0 <= a < b < spec_record(records, context, successful).len()
            ==> (#[trigger] spec_record(records, context, successful)[a]).work_item_id != (#[trigger] spec_record(records, context, successful)[b]).work_item_id,
{
    lemma_others(records, context.work_item_id@);
    let r = spec_record(records, context, successful);
    let o = others(records, context.work_item_id@);
    assert forall|a: int, b: int| 0 <= a < b < r.len() implies (#[trigger] r[a]).work_item_id != (#[trigger] r[b]).work_item_id by {
        assert(r[a] == o[a]);
        if b < o.len() {
            assert(r[b] == o[b]);
        }
    }
}

/// Where a project's ship records are kept:
/// `<app data>/projects/<SHA-256 of the project's identifier, in hexadecimal>/ship-state.json`.
pub fn records_path(base: &str, project_id: &str) -> (r: String)
    ensures
        r@ == crate::git::checkout::join_path(
            crate::git::checkout::join_path(crate::git::checkout::join_path(base@, "projects"@), crate::text::hex(crate::external::sha256(project_id.spec_bytes()))),
            "ship-state.json"@,
        ),
{
    let mut v = crate::external::chars_of(base);
    join_part(&mut v, &crate::external::chars_of("projects"));
    join_part(&mut v, &crate::external::chars_of(crate::run::project_directory_name(project_id).as_str()));
    join_part(&mut v, &crate::external::chars_of("ship-state.json"));
    crate::external::string_of(&v)
}

fn join_part(base: &mut Vec<char>, part: &Vec<char>)
    ensures
        final(base)@ == crate::git::checkout::join_path(old(base)@, part@),
{
    if base.len() > 0 && base[base.len() - 1] != '/' {
        base.push('/');
    }
    crate::text::push_chars(base, part);
    assert(base@ =~= crate::git::checkout::join_path(old(base)@, part@));
}

} // verus!
