//! Preparing a planned task for execution: storing its generated specification,
//! decomposing it into child tasks, and recovering interrupted planning.
use vstd::prelude::*;
use vstd::string::*;
use crate::status::TaskStatus;
use crate::compose::{join_with, string_views};
use crate::prompts::{json_string_list, list_section, opt_string};
use crate::swarm::{resolved_agents, last_index_of};
use crate::ids::uuid_eq;

verus! {

/// A specification sheet as an agent generated it.
pub struct GeneratedSpec {
    pub overview: String,
    pub requirements: Vec<String>,
    pub acceptance_criteria: Vec<String>,
    pub constraints: Vec<String>,
    pub tech_notes: String,
}

/// The fields of a specification sheet to store; list fields hold JSON arrays of strings.
pub struct CreateSpecSheet {
    pub overview: Option<String>,
    pub requirements: Option<String>,
    pub acceptance_criteria: Option<String>,
    pub constraints: Option<String>,
    pub tech_notes: Option<String>,
}

/// Changes to a specification sheet; absent fields are left as they are.
pub struct UpdateSpecSheet {
    pub overview: Option<String>,
    pub requirements: Option<String>,
    pub acceptance_criteria: Option<String>,
    pub constraints: Option<String>,
    pub tech_notes: Option<String>,
}

/// A planning session to record for a task.
pub struct CreatePlanningSession {
    pub session_ref: String,
    pub notes: Option<String>,
}

/// Changes to a planning session; absent fields are left as they are.
pub struct UpdatePlanningSession {
    pub session_ref: Option<String>,
    pub notes: Option<String>,
}

impl UpdatePlanningSession {
    /// The session reference and notes after this update: each field given
    /// replaces the current one, absent fields keep it.
    pub fn apply(&self, current_ref: &str, current_notes: Option<&str>) -> (r: (String, Option<String>))
        ensures
            r.0@ == match self.session_ref {
                Some(s) => s@,
                None => current_ref@,
            },
            opt_string(r.1) == match self.notes {
                Some(n) => Some(n@),
                None => match current_notes {
                    Some(c) => Some(c@),
                    None => None,
                },
            },
    {
        let session_ref = match &self.session_ref {
            Some(s) => s.clone(),
            None => String::from_str(current_ref),
        };
        let notes = match &self.notes {
            Some(n) => Some(n.clone()),
            None => match current_notes {
                Some(c) => Some(String::from_str(c)),
                None => None,
            },
        };
        (session_ref, notes)
    }
}

/// The texts of a sheet's five fields.
pub open spec fn sheet_fields(
    overview: Option<String>,
    requirements: Option<String>,
    acceptance_criteria: Option<String>,
    constraints: Option<String>,
    tech_notes: Option<String>,
) -> Seq<Option<Seq<char>>> {
    seq![
        opt_string(overview),
        opt_string(requirements),
        opt_string(acceptance_criteria),
        opt_string(constraints),
        opt_string(tech_notes),
    ]
}

fn copy_field(o: &Option<String>) -> (r: Option<String>)
    ensures
        opt_string(r) == opt_string(*o),
{
    match o {
        Some(s) => Some(s.clone()),
        None => None,
    }
}

impl CreateSpecSheet {
    /// Storing a sheet over an existing one replaces every field with this
    /// sheet's, absent ones included.
    pub fn as_update(&self) -> (r: UpdateSpecSheet)
        ensures
            sheet_fields(r.overview, r.requirements, r.acceptance_criteria, r.constraints, r.tech_notes)
                == sheet_fields(
                self.overview,
                self.requirements,
                self.acceptance_criteria,
                self.constraints,
                self.tech_notes,
            ),
    {
        UpdateSpecSheet {
            overview: copy_field(&self.overview),
            requirements: copy_field(&self.requirements),
            acceptance_criteria: copy_field(&self.acceptance_criteria),
            constraints: copy_field(&self.constraints),
            tech_notes: copy_field(&self.tech_notes),
        }
    }
}

/// A request to store a task's specification and decompose it in one call.
pub struct MakeRalphReadyRequest {
    pub overview: Option<String>,
    pub requirements: Option<String>,
    pub acceptance_criteria: Option<String>,
    pub constraints: Option<String>,
    pub tech_notes: Option<String>,
}

impl MakeRalphReadyRequest {
    /// The specification sheet the request stores: its fields as given.
    pub fn to_spec_sheet(self) -> (r: CreateSpecSheet)
        ensures
            sheet_fields(r.overview, r.requirements, r.acceptance_criteria, r.constraints, r.tech_notes)
                == sheet_fields(
                self.overview,
                self.requirements,
                self.acceptance_criteria,
                self.constraints,
                self.tech_notes,
            ),
    {
        CreateSpecSheet {
            overview: self.overview,
            requirements: self.requirements,
            acceptance_criteria: self.acceptance_criteria,
            constraints: self.constraints,
            tech_notes: self.tech_notes,
        }
    }
}

/// A generated specification as returned to the user.
pub struct GenerateSpecResponse {
    pub overview: String,
    pub requirements: Vec<String>,
    pub acceptance_criteria: Vec<String>,
    pub constraints: Vec<String>,
    pub tech_notes: String,
}

impl GenerateSpecResponse {
    /// The response for a generated specification: its fields unchanged.
    pub fn from_generated(spec: GeneratedSpec) -> (r: Self)
        ensures
            r.overview@ == spec.overview@,
            r.requirements@ == spec.requirements@,
            r.acceptance_criteria@ == spec.acceptance_criteria@,
            r.constraints@ == spec.constraints@,
            r.tech_notes@ == spec.tech_notes@,
    {
        GenerateSpecResponse {
            overview: spec.overview,
            requirements: spec.requirements,
            acceptance_criteria: spec.acceptance_criteria,
            constraints: spec.constraints,
            tech_notes: spec.tech_notes,
        }
    }
}

/// How `serde_json` writes one character inside a string literal: `"` and `\`
/// escaped with `\`; backspace, tab, line feed, form feed and carriage return
/// as `\b`, `\t`, `\n`, `\f`, `\r`; the other control characters below
/// U+0020 as `\u00` and two lower-case hexadecimal digits; every other
/// character as it is.
pub open spec fn json_char_escape(c: char) -> Seq<char> {
    let u = c as u32;
    if c == '"' {
        seq!['\\', '"']
    } else if c == '\\' {
        seq!['\\', '\\']
    } else if u == 8 {
        seq!['\\', 'b']
    } else if u == 9 {
        seq!['\\', 't']
    } else if u == 10 {
        seq!['\\', 'n']
    } else if u == 12 {
        seq!['\\', 'f']
    } else if u == 13 {
        seq!['\\', 'r']
    } else if u < 0x20 {
        seq![
            '\\',
            'u',
            '0',
            '0',
            crate::naming::hex_digit(u as int / 16),
            crate::naming::hex_digit(u as int % 16),
        ]
    } else {
        seq![c]
    }
}

/// The characters of a string as `serde_json` writes them inside its literal.
pub open spec fn json_escaped(s: Seq<char>) -> Seq<char>
    decreases s.len(),
{
    if s.len() == 0 {
        seq![]
    } else {
        json_escaped(s.drop_last()) + json_char_escape(s.last())
    }
}

/// A string as a JSON string literal.
pub open spec fn json_string_literal(s: Seq<char>) -> Seq<char> {
    seq!['"'] + json_escaped(s) + seq!['"']
}

/// What `serde_json::to_string` writes for a list of strings (compact form):
/// `[`, the string literals separated by `,`, `]`.
pub open spec fn json_of_strings(items: Seq<Seq<char>>) -> Seq<char> {
    seq!['['] + join_with(items.map_values(|s: Seq<char>| json_string_literal(s)), seq![',']) + seq![']']
}

/// Writes a list of strings as JSON with `serde_json::to_string` (compact
/// form: `[`, each string as a literal escaped by serde_json's escape table,
/// `,` between them, `]`). For a list of strings it does not fail: its only
/// errors are those of the writer, and it writes into a `Vec<u8>`, whose writes
/// do not fail. The text written parses back (`serde_json::from_str`) to the
/// same strings: serde_json's parser reads back every escape its writer uses.
#[verifier::external_body]
fn write_string_list(items: &Vec<String>) -> (r: Option<String>)
    ensures
        r is Some,
        r matches Some(t) ==> t@ == json_of_strings(string_views(items@)) && json_string_list(t@) == Some(
            string_views(items@),
        ),
{
    serde_json::to_string(items).ok()
}

/// A list field as stored: the list written as JSON, which reads back as the
/// same strings.
fn stored_list_of(items: &Vec<String>) -> (r: String)
    ensures
        r@ == json_of_strings(string_views(items@)),
        json_string_list(r@) == Some(string_views(items@)),
{
    match write_string_list(items) {
        Some(t) => t,
        None => String::new(),
    }
}

/// A stored list field: present, the list written as JSON, reading back as the
/// written strings.
pub open spec fn list_field_ok(field: Option<String>, items: Seq<Seq<char>>) -> bool {
    field matches Some(f) && f@ == json_of_strings(items) && json_string_list(f@) == Some(items)
}

/// The specification sheet stored for a generated specification: every field
/// present, the lists as JSON arrays.
pub fn spec_sheet_from_generated(spec: &GeneratedSpec) -> (r: CreateSpecSheet)
    ensures
        r.overview matches Some(o) && o@ == spec.overview@,
        list_field_ok(r.requirements, string_views(spec.requirements@)),
        list_field_ok(r.acceptance_criteria, string_views(spec.acceptance_criteria@)),
        list_field_ok(r.constraints, string_views(spec.constraints@)),
        r.tech_notes matches Some(t) && t@ == spec.tech_notes@,
{
    CreateSpecSheet {
        overview: Some(spec.overview.clone()),
        requirements: Some(stored_list_of(&spec.requirements)),
        acceptance_criteria: Some(stored_list_of(&spec.acceptance_criteria)),
        constraints: Some(stored_list_of(&spec.constraints)),
        tech_notes: Some(spec.tech_notes.clone()),
    }
}

/// A generated list written into a sheet is read back by the prompts as the
/// same bullet list: its heading and one bullet per
/// item, or nothing for an empty list.
pub proof fn lemma_stored_list_renders(field: Option<String>, items: Seq<Seq<char>>, heading: Seq<char>)
    requires
        field matches Some(f) && json_string_list(f@) == Some(items),
    ensures
        list_section(heading, opt_string(field)) == if items.len() > 0 {
            heading + crate::prompts::bullet_lines(items) + "\n"@
        } else {
            Seq::<char>::empty()
        },
{
}

/// A decomposed story as the decomposition agent returned it.
pub struct DecompositionStory {
    pub id: String,
    pub title: String,
    pub description: String,
    pub depends_on: Vec<String>,
    pub sort_order: i32,
}

/// The stories a decomposition returned.
pub struct DecompositionResult {
    pub stories: Vec<DecompositionStory>,
}

/// Why decomposing a specification failed.
pub enum DecomposerError {
    /// The agent could not be run.
    ExecutionFailed(String),
    /// Its output did not parse.
    ParseFailed(String),
    /// It returned no stories.
    NoStories,
}

/// Why generating a specification failed.
pub enum SpecGeneratorError {
    /// The agent could not be run.
    ExecutionFailed(String),
    /// Its output did not parse.
    ParseFailed(String),
}

/// Why assessing a specification failed.
pub enum SpecAssessorError {
    /// The agent could not be run.
    ExecutionFailed(String),
    /// Its output did not parse.
    ParseFailed(String),
}

/// Accepts a parsed decomposition only when it has stories.
pub fn check_decomposition(result: DecompositionResult) -> (r: Result<DecompositionResult, DecomposerError>)
    ensures
        result.stories@.len() > 0 ==> (r matches Ok(d) && d.stories@ == result.stories@),
        result.stories@.len() == 0 ==> (r matches Err(e) && e is NoStories),
{
    if result.stories.len() == 0 {
        Err(DecomposerError::NoStories)
    } else {
        Ok(result)
    }
}

/// The identifiers of the child tasks created for the stories: each story gets
/// the fresh identifier drawn for the last story with its id (stories are
/// keyed by their ids, later ones replacing earlier ones).
pub open spec fn story_task_ids(story_ids: Seq<Seq<char>>, fresh: Seq<uuid::Uuid>) -> Seq<uuid::Uuid> {
    Seq::new(story_ids.len(), |i: int| fresh[last_index_of(story_ids, story_ids[i], story_ids.len() as int)])
}

/// Assigns the child task identifiers of a decomposition from one fresh
/// identifier drawn per story.
pub fn child_task_ids(story_ids: &Vec<String>, fresh: &Vec<uuid::Uuid>) -> (r: Vec<uuid::Uuid>)
    requires
        story_ids@.len() == fresh@.len(),
    ensures
        r@ == story_task_ids(string_views(story_ids@), fresh@),
{
    let ghost keys = string_views(story_ids@);
    let mut out: Vec<uuid::Uuid> = Vec::new();
    let mut i: usize = 0;
    while i < story_ids.len()
        invariant
            i <= story_ids@.len() == fresh@.len(),
            keys == string_views(story_ids@),
            out@.len() == i,
            forall|k: int| 0 <= k < i ==> #[trigger] out@[k] == story_task_ids(keys, fresh@)[k],
        decreases story_ids@.len() - i,
    {
        let one = vec![story_ids[i].clone()];
        let ids = crate::swarm::story_dependency_agents(story_ids, fresh, &one);
        proof {
            assert(string_views(one@) =~= seq![keys[i as int]]);
            assert(string_views(one@).drop_last() =~= Seq::<Seq<char>>::empty());
            lemma_last_index_found(keys, i as int);
            let j = last_index_of(keys, keys[i as int], keys.len() as int);
            assert(resolved_agents(keys, fresh@, string_views(one@).drop_last()) =~= Seq::<uuid::Uuid>::empty());
            assert(ids@ == seq![fresh@[j]]);
            assert(story_task_ids(keys, fresh@)[i as int] == fresh@[j]);
        }
        out.push(ids[0]);
        i = i + 1;
    }
    assert(out@ =~= story_task_ids(keys, fresh@));
    out
}

proof fn lemma_last_index_found(keys: Seq<Seq<char>>, i: int)
    requires
        0 <= i < keys.len(),
    ensures
        0 <= last_index_of(keys, keys[i], keys.len() as int) < keys.len(),
    decreases keys.len() - i,
{
    lemma_last_index_at_least(keys, keys[i], i, keys.len() as int);
}

proof fn lemma_last_index_at_least<K>(keys: Seq<K>, k: K, i: int, n: int)
    requires
        0 <= i < n <= keys.len(),
        keys[i] == k,
    ensures
        i <= last_index_of(keys, k, n) < n,
    decreases n,
{
    if keys[n - 1] != k {
        lemma_last_index_at_least(keys, k, i, n - 1);
    }
}

/// What preparing a planned task has just learned.
#[derive(Debug, Clone, Copy, PartialEq, Eq, Structural)]
pub enum PrepareEvent {
    /// Whether the task already has a specification sheet.
    SpecFound(bool),
    /// Whether a specification was generated and parsed.
    SpecGenerated(bool),
    /// Whether the generated specification was stored.
    SpecStored(bool),
    /// How many child tasks the task has, when that could be read.
    ChildrenCounted(Option<usize>),
    /// Whether a decomposition was produced and parsed.
    Decomposed(bool),
    /// Whether the child tasks were created.
    ChildrenCreated(bool),
}

/// What preparing a planned task does next.
#[derive(Debug, Clone, Copy, PartialEq, Eq, Structural)]
pub enum PrepareAction {
    /// Generate a specification from the plan.
    GenerateSpec,
    /// Store the generated specification.
    StoreSpec,
    /// Count the task's child tasks.
    CountChildren,
    /// Decompose the specification into stories.
    Decompose,
    /// Create child tasks from the stories.
    CreateChildren,
    /// Stop, reporting whether the task was prepared.
    Finish(bool),
}

/// The step that follows each thing learned while preparing a task: an existing
/// specification or child tasks are kept; the preparation succeeds once the task
/// has child tasks, and fails when the specification cannot be generated or
/// stored, or the task cannot be decomposed into child tasks.
pub open spec fn prepare_step(event: PrepareEvent) -> PrepareAction {
    match event {
        PrepareEvent::SpecFound(found) => if found {
            PrepareAction::CountChildren
        } else {
            PrepareAction::GenerateSpec
        },
        PrepareEvent::SpecGenerated(ok) => if ok {
            PrepareAction::StoreSpec
        } else {
            PrepareAction::Finish(false)
        },
        PrepareEvent::SpecStored(ok) => if ok {
            PrepareAction::CountChildren
        } else {
            PrepareAction::Finish(false)
        },
        PrepareEvent::ChildrenCounted(n) => match n {
            Some(c) => if c > 0 {
                PrepareAction::Finish(true)
            } else {
                PrepareAction::Decompose
            },
            None => PrepareAction::Decompose,
        },
        PrepareEvent::Decomposed(ok) => if ok {
            PrepareAction::CreateChildren
        } else {
            PrepareAction::Finish(false)
        },
        PrepareEvent::ChildrenCreated(ok) => PrepareAction::Finish(ok),
    }
}

/// Decides the next step of preparing a planned task for execution.
pub fn next_prepare_action(event: PrepareEvent) -> (r: PrepareAction)
    ensures
        r == prepare_step(event),
{
    match event {
        PrepareEvent::SpecFound(found) => if found {
            PrepareAction::CountChildren
        } else {
            PrepareAction::GenerateSpec
        },
        PrepareEvent::SpecGenerated(ok) => if ok {
            PrepareAction::StoreSpec
        } else {
            PrepareAction::Finish(false)
        },
        PrepareEvent::SpecStored(ok) => if ok {
            PrepareAction::CountChildren
        } else {
            PrepareAction::Finish(false)
        },
        PrepareEvent::ChildrenCounted(n) => match n {
            Some(c) => if c > 0 {
                PrepareAction::Finish(true)
            } else {
                PrepareAction::Decompose
            },
            None => PrepareAction::Decompose,
        },
        PrepareEvent::Decomposed(ok) => if ok {
            PrepareAction::CreateChildren
        } else {
            PrepareAction::Finish(false)
        },
        PrepareEvent::ChildrenCreated(ok) => PrepareAction::Finish(ok),
    }
}

/// Preparation reports success exactly when the task ends up with child tasks
/// (found, or created from a decomposition), and failure exactly when a step
/// failed: generating or storing the specification, decomposing it, or
/// creating the child tasks.
pub proof fn lemma_prepare_succeeds_only_when_prepared(event: PrepareEvent)
    ensures
        prepare_step(event) == PrepareAction::Finish(true) <==> ((event matches PrepareEvent::ChildrenCounted(
            Some(c),
        ) && c > 0) || event == PrepareEvent::ChildrenCreated(true)),
        prepare_step(event) == PrepareAction::Finish(false) <==> (event == PrepareEvent::SpecGenerated(false)
            || event == PrepareEvent::SpecStored(false) || event == PrepareEvent::Decomposed(false) || event
            == PrepareEvent::ChildrenCreated(false)),
{
}

/// What recovery does with a task whose plan generation was interrupted.
#[derive(Debug, Clone, Copy, PartialEq, Eq, Structural)]
pub enum StuckPlanAction {
    /// Leave it: a question to the user is pending.
    Skip,
    /// Generate its plan again, first moving it to `plangenerating` when `set_status`.
    Regenerate { set_status: bool },
}

/// Decides how to recover a task whose plan generation was interrupted, given
/// the tasks that have approvals pending.
pub fn stuck_plan_action(task_id: &uuid::Uuid, status: TaskStatus, pending: &Vec<uuid::Uuid>) -> (r: StuckPlanAction)
    ensures
        pending@.contains(*task_id) ==> r == StuckPlanAction::Skip,
        !pending@.contains(*task_id) ==> r == (StuckPlanAction::Regenerate {
            set_status: status != TaskStatus::PlanGenerating,
        }),
{
    let mut i: usize = 0;
    while i < pending.len()
        invariant
            i <= pending@.len(),
            forall|k: int| 0 <= k < i ==> pending@[k] != *task_id,
        decreases pending@.len() - i,
    {
        if uuid_eq(&pending[i], task_id) {
            assert(pending@[i as int] == *task_id);
            return StuckPlanAction::Skip;
        }
        i = i + 1;
    }
    StuckPlanAction::Regenerate { set_status: status != TaskStatus::PlanGenerating }
}

} // verus!
