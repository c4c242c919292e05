//! The sequencing engine: turns a resolved checkpoint list into the flat,
//! ordered plan of emulator actions that a driver executes one by one.
//!
//! The plan is pure data.  For each checkpoint, in list order: the optional
//! program-counter override, then every memory write in order, then the
//! frame advances, then the capture.  Mutations from one checkpoint persist
//! into the next by design: nothing between checkpoints resets state.

use vstd::prelude::*;
use vstd::string::StringExecFns;
use crate::checkpoint::Checkpoint;
use crate::checkpoint::CheckpointModel;
use crate::checkpoint::MemoryWrite;
use crate::checkpoint::ScriptedCheckpoint;
use crate::checkpoint::ScriptedCheckpointModel;
use crate::checkpoint::resolve_script;
use crate::checkpoint::resolved_checkpoint;
use crate::checkpoint::script_references;
use crate::checkpoint::script_resolvable;
use crate::labels::LabelResolver;
use crate::labels::MissingLabelError;

verus! {

/// One primitive step of a checkpoint run, executed against the emulator
/// adapter by an outer driver.
#[derive(Debug, PartialEq, Eq)]
pub enum Action {
    /// Load the given raw address into the instruction-pointer register.
    SetProgramCounter { address: u16 },
    /// Store the byte at the given raw address of the emulator's memory.
    WriteMemory { address: u16, value: u8 },
    /// Advance the emulator by the given number of whole display frames.
    AdvanceFrames { frames: u32 },
    /// Read the current framebuffer, encode it, and persist it to the file.
    Capture { file_name: String },
}

/// Mathematical image of an `Action`.
pub enum ActionModel {
    SetProgramCounter { address: u16 },
    WriteMemory { address: u16, value: u8 },
    AdvanceFrames { frames: u32 },
    Capture { file_name: Seq<char> },
}

impl View for Action {
    type V = ActionModel;

    open spec fn view(&self) -> ActionModel {
        match self {
            Action::SetProgramCounter { address } => ActionModel::SetProgramCounter {
                address: *address,
            },
            Action::WriteMemory { address, value } => ActionModel::WriteMemory {
                address: *address,
                value: *value,
            },
            Action::AdvanceFrames { frames } => ActionModel::AdvanceFrames { frames: *frames },
            Action::Capture { file_name } => ActionModel::Capture { file_name: file_name@ },
        }
    }
}

/// The models of a sequence of actions.
pub open spec fn models_of(actions: Seq<Action>) -> Seq<ActionModel> {
    actions.map_values(|a: Action| a@)
}

/// Name of the image file a checkpoint capture is written to: the ROM base
/// name, the checkpoint's suffix, and the image extension.
pub open spec fn output_name(base: Seq<char>, suffix: Seq<char>) -> Seq<char> {
    base + suffix + ".png"@
}

/// Builds the output file name for one capture.
pub fn capture_file_name(base: &str, suffix: &str) -> (name: String)
    ensures
        name@ == output_name(base@, suffix@),
{
    let mut name: String = base.to_owned();
    name.append(suffix);
    name.append(".png");
    name
}

/// The program-counter action a checkpoint begins with, if it has one.
pub open spec fn override_actions(cp: CheckpointModel) -> Seq<ActionModel> {
    match cp.register_override {
        Some(address) => seq![ActionModel::SetProgramCounter { address }],
        None => Seq::empty(),
    }
}

/// The memory-write actions of a checkpoint, in list order.
pub open spec fn write_actions(writes: Seq<MemoryWrite>) -> Seq<ActionModel> {
    writes.map_values(
        |w: MemoryWrite| ActionModel::WriteMemory { address: w.address, value: w.value },
    )
}

/// All actions of one checkpoint: optional register override, then the
/// memory writes in order, then the frame advances, then the capture.
pub open spec fn checkpoint_actions_model(cp: CheckpointModel, base: Seq<char>) -> Seq<
    ActionModel,
> {
    override_actions(cp) + write_actions(cp.memory_writes) + seq![
        ActionModel::AdvanceFrames { frames: cp.frames_to_advance },
        ActionModel::Capture { file_name: output_name(base, cp.capture_suffix) },
    ]
}

/// All actions of a checkpoint list: the checkpoints' actions concatenated
/// strictly in list order.
pub open spec fn plan_model(cps: Seq<CheckpointModel>, base: Seq<char>) -> Seq<ActionModel>
    decreases cps.len(),
{
    if cps.len() == 0 {
        Seq::empty()
    } else {
        plan_model(cps.drop_last(), base) + checkpoint_actions_model(cps.last(), base)
    }
}

/// Lays out the actions of one checkpoint.
pub fn checkpoint_actions(cp: &Checkpoint, base: &str) -> (actions: Vec<Action>)
    ensures
        models_of(actions@) == checkpoint_actions_model(cp@, base@),
{
    let mut actions: Vec<Action> = Vec::new();
    if let Some(address) = cp.register_override {
        actions.push(Action::SetProgramCounter { address });
    }
    let n = cp.memory_writes.len();
    for i in 0..n
        invariant
            n == cp.memory_writes@.len(),
            models_of(actions@) == override_actions(cp@) + write_actions(
                cp@.memory_writes.take(i as int),
            ),
    {
        let w = cp.memory_writes[i];
        let ghost prev = actions@;
        actions.push(Action::WriteMemory { address: w.address, value: w.value });
        proof {
            let a = Action::WriteMemory { address: w.address, value: w.value };
            assert(actions@ == prev.push(a));
            assert(models_of(prev.push(a)) =~= models_of(prev).push(a@));
            assert(write_actions(cp@.memory_writes.take(i + 1)) =~= write_actions(
                cp@.memory_writes.take(i as int),
            ).push(ActionModel::WriteMemory { address: w.address, value: w.value }));
            assert(models_of(actions@) =~= override_actions(cp@) + write_actions(
                cp@.memory_writes.take(i + 1),
            ));
        }
    }
    actions.push(Action::AdvanceFrames { frames: cp.frames_to_advance });
    let file_name = capture_file_name(base, cp.capture_suffix.as_str());
    actions.push(Action::Capture { file_name });
    proof {
        assert(cp@.memory_writes.take(n as int) =~= cp@.memory_writes);
        assert(models_of(actions@) =~= checkpoint_actions_model(cp@, base@));
    }
    actions
}

/// Lays out the full action plan of a resolved checkpoint list.
pub fn plan(checkpoints: &Vec<Checkpoint>, base: &str) -> (actions: Vec<Action>)
    ensures
        models_of(actions@) == plan_model(
            checkpoints@.map_values(|c: Checkpoint| c@),
            base@,
        ),
{
    let ghost cps = checkpoints@.map_values(|c: Checkpoint| c@);
    let mut actions: Vec<Action> = Vec::new();
    let n = checkpoints.len();
    for i in 0..n
        invariant
            n == checkpoints@.len(),
            cps == checkpoints@.map_values(|c: Checkpoint| c@),
            models_of(actions@) == plan_model(cps.take(i as int), base@),
    {
        let mut next = checkpoint_actions(&checkpoints[i], base);
        actions.append(&mut next);
        proof {
            assert(cps.take(i + 1).drop_last() =~= cps.take(i as int));
            assert(cps.take(i + 1).last() == cps[i as int]);
            assert(models_of(actions@) =~= plan_model(cps.take(i + 1), base@));
        }
    }
    proof {
        assert(cps.take(n as int) =~= cps);
    }
    actions
}

/// The capture file names an action sequence writes, in order.
pub open spec fn capture_names_of(actions: Seq<ActionModel>) -> Seq<Seq<char>>
    decreases actions.len(),
{
    if actions.len() == 0 {
        Seq::empty()
    } else {
        let rest = capture_names_of(actions.drop_last());
        match actions.last() {
            ActionModel::Capture { file_name } => rest.push(file_name),
            _ => rest,
        }
    }
}

/// The frame-advance counts an action sequence performs, in order.
pub open spec fn advance_counts_of(actions: Seq<ActionModel>) -> Seq<u32>
    decreases actions.len(),
{
    if actions.len() == 0 {
        Seq::empty()
    } else {
        let rest = advance_counts_of(actions.drop_last());
        match actions.last() {
            ActionModel::AdvanceFrames { frames } => rest.push(frames),
            _ => rest,
        }
    }
}

/// The memory writes an action sequence performs, as `(address, value)`
/// pairs, in order.
pub open spec fn writes_of(actions: Seq<ActionModel>) -> Seq<(u16, u8)>
    decreases actions.len(),
{
    if actions.len() == 0 {
        Seq::empty()
    } else {
        let rest = writes_of(actions.drop_last());
        match actions.last() {
            ActionModel::WriteMemory { address, value } => rest.push((address, value)),
            _ => rest,
        }
    }
}

/// No action in the sequence writes memory.
spec fn write_free(actions: Seq<ActionModel>) -> bool {
    forall|i: int| 0 <= i < actions.len() ==> !(actions[i] is WriteMemory)
}

/// No action in the sequence takes a capture.
spec fn capture_free(actions: Seq<ActionModel>) -> bool {
    forall|i: int| 0 <= i < actions.len() ==> !(actions[i] is Capture)
}

/// No action in the sequence advances a frame.
spec fn advance_free(actions: Seq<ActionModel>) -> bool {
    forall|i: int| 0 <= i < actions.len() ==> !(actions[i] is AdvanceFrames)
}

proof fn lemma_capture_names_concat(a: Seq<ActionModel>, b: Seq<ActionModel>)
    ensures
        capture_names_of(a + b) == capture_names_of(a) + capture_names_of(b),
    decreases b.len(),
{
    if b.len() == 0 {
        assert(a + b =~= a);
        assert(capture_names_of(a) + capture_names_of(b) =~= capture_names_of(a));
    } else {
        lemma_capture_names_concat(a, b.drop_last());
        assert((a + b).drop_last() =~= a + b.drop_last());
        assert((a + b).last() == b.last());
        match b.last() {
            ActionModel::Capture { file_name } => {
                assert(capture_names_of(a) + capture_names_of(b) =~= (capture_names_of(a)
                    + capture_names_of(b.drop_last())).push(file_name));
            },
            _ => {},
        }
    }
}

proof fn lemma_advance_counts_concat(a: Seq<ActionModel>, b: Seq<ActionModel>)
    ensures
        advance_counts_of(a + b) == advance_counts_of(a) + advance_counts_of(b),
    decreases b.len(),
{
    if b.len() == 0 {
        assert(a + b =~= a);
        assert(advance_counts_of(a) + advance_counts_of(b) =~= advance_counts_of(a));
    } else {
        lemma_advance_counts_concat(a, b.drop_last());
        assert((a + b).drop_last() =~= a + b.drop_last());
        assert((a + b).last() == b.last());
        match b.last() {
            ActionModel::AdvanceFrames { frames } => {
                assert(advance_counts_of(a) + advance_counts_of(b) =~= (advance_counts_of(a)
                    + advance_counts_of(b.drop_last())).push(frames));
            },
            _ => {},
        }
    }
}

proof fn lemma_writes_of_concat(a: Seq<ActionModel>, b: Seq<ActionModel>)
    ensures
        writes_of(a + b) == writes_of(a) + writes_of(b),
    decreases b.len(),
{
    if b.len() == 0 {
        assert(a + b =~= a);
        assert(writes_of(a) + writes_of(b) =~= writes_of(a));
    } else {
        lemma_writes_of_concat(a, b.drop_last());
        assert((a + b).drop_last() =~= a + b.drop_last());
        assert((a + b).last() == b.last());
        match b.last() {
            ActionModel::WriteMemory { address, value } => {
                assert(writes_of(a) + writes_of(b) =~= (writes_of(a) + writes_of(
                    b.drop_last(),
                )).push((address, value)));
            },
            _ => {},
        }
    }
}

proof fn lemma_write_free(actions: Seq<ActionModel>)
    requires
        write_free(actions),
    ensures
        writes_of(actions) == Seq::<(u16, u8)>::empty(),
    decreases actions.len(),
{
    if actions.len() > 0 {
        assert(forall|i: int|
            0 <= i < actions.drop_last().len() ==> actions.drop_last()[i] == actions[i]);
        lemma_write_free(actions.drop_last());
    }
}

/// The write actions of a write list perform exactly those writes, in order.
proof fn lemma_writes_of_write_actions(writes: Seq<MemoryWrite>)
    ensures
        writes_of(write_actions(writes)) == writes.map_values(
            |w: MemoryWrite| (w.address, w.value),
        ),
    decreases writes.len(),
{
    if writes.len() == 0 {
        assert(writes_of(write_actions(writes)) =~= writes.map_values(
            |w: MemoryWrite| (w.address, w.value),
        ));
    } else {
        lemma_writes_of_write_actions(writes.drop_last());
        assert(write_actions(writes).drop_last() =~= write_actions(writes.drop_last()));
        assert(write_actions(writes).last() == (ActionModel::WriteMemory {
            address: writes.last().address,
            value: writes.last().value,
        }));
        assert(writes.map_values(|w: MemoryWrite| (w.address, w.value)) =~= writes.drop_last()
            .map_values(|w: MemoryWrite| (w.address, w.value)).push(
            (writes.last().address, writes.last().value),
        ));
    }
}

proof fn lemma_capture_free(actions: Seq<ActionModel>)
    requires
        capture_free(actions),
    ensures
        capture_names_of(actions) == Seq::<Seq<char>>::empty(),
    decreases actions.len(),
{
    if actions.len() > 0 {
        assert(forall|i: int|
            0 <= i < actions.drop_last().len() ==> actions.drop_last()[i] == actions[i]);
        lemma_capture_free(actions.drop_last());
    }
}

proof fn lemma_advance_free(actions: Seq<ActionModel>)
    requires
        advance_free(actions),
    ensures
        advance_counts_of(actions) == Seq::<u32>::empty(),
    decreases actions.len(),
{
    if actions.len() > 0 {
        assert(forall|i: int|
            0 <= i < actions.drop_last().len() ==> actions.drop_last()[i] == actions[i]);
        lemma_advance_free(actions.drop_last());
    }
}

/// The register override and the memory writes of a checkpoint neither
/// capture nor advance: all they do is mutate emulator state.
proof fn lemma_mutations_only(cp: CheckpointModel)
    ensures
        capture_free(override_actions(cp) + write_actions(cp.memory_writes)),
        advance_free(override_actions(cp) + write_actions(cp.memory_writes)),
{
    let prefix = override_actions(cp) + write_actions(cp.memory_writes);
    assert forall|i: int| 0 <= i < prefix.len() implies !(prefix[i] is Capture) && !(prefix[i]
        is AdvanceFrames) by {
        if i < override_actions(cp).len() {
            assert(prefix[i] == override_actions(cp)[i]);
        } else {
            assert(prefix[i] == write_actions(cp.memory_writes)[i - override_actions(cp).len()]);
        }
    }
}

/// One checkpoint takes exactly one capture, named after its suffix,
/// advances exactly its scripted number of frames, and performs exactly its
/// scripted memory writes, in list order.
pub proof fn lemma_checkpoint_schedule(cp: CheckpointModel, base: Seq<char>)
    ensures
        capture_names_of(checkpoint_actions_model(cp, base)) == seq![
            output_name(base, cp.capture_suffix),
        ],
        advance_counts_of(checkpoint_actions_model(cp, base)) == seq![cp.frames_to_advance],
        writes_of(checkpoint_actions_model(cp, base)) == cp.memory_writes.map_values(
            |w: MemoryWrite| (w.address, w.value),
        ),
{
    let prefix = override_actions(cp) + write_actions(cp.memory_writes);
    let advance = ActionModel::AdvanceFrames { frames: cp.frames_to_advance };
    let capture = ActionModel::Capture { file_name: output_name(base, cp.capture_suffix) };
    let acts = checkpoint_actions_model(cp, base);
    assert(acts =~= prefix.push(advance).push(capture));
    lemma_mutations_only(cp);
    lemma_capture_free(prefix);
    lemma_advance_free(prefix);
    assert(prefix.push(advance).drop_last() =~= prefix);
    assert(forall|i: int| 0 <= i < prefix.len() ==> prefix.push(advance)[i] == prefix[i]);
    assert(capture_free(prefix.push(advance)));
    lemma_capture_free(prefix.push(advance));
    assert(acts.drop_last() =~= prefix.push(advance));
    assert(capture_names_of(acts) =~= seq![output_name(base, cp.capture_suffix)]);
    assert(advance_counts_of(prefix.push(advance)) =~= seq![cp.frames_to_advance]);
    assert(advance_counts_of(acts) =~= seq![cp.frames_to_advance]);
    assert(forall|i: int|
        0 <= i < override_actions(cp).len() ==> !(override_actions(cp)[i] is WriteMemory));
    lemma_write_free(override_actions(cp));
    lemma_writes_of_concat(override_actions(cp), write_actions(cp.memory_writes));
    lemma_writes_of_write_actions(cp.memory_writes);
    assert(writes_of(prefix) =~= cp.memory_writes.map_values(
        |w: MemoryWrite| (w.address, w.value),
    ));
    assert(writes_of(prefix.push(advance)) == writes_of(prefix));
    assert(writes_of(acts) =~= cp.memory_writes.map_values(|w: MemoryWrite| (w.address, w.value)));
}

/// The capture suffixes of a checkpoint list, resolved against a base name.
pub open spec fn scheduled_captures(cps: Seq<CheckpointModel>, base: Seq<char>) -> Seq<Seq<char>> {
    cps.map_values(|c: CheckpointModel| output_name(base, c.capture_suffix))
}

/// The frame-advance counts of a checkpoint list.
pub open spec fn scheduled_advances(cps: Seq<CheckpointModel>) -> Seq<u32> {
    cps.map_values(|c: CheckpointModel| c.frames_to_advance)
}

/// The memory writes of a checkpoint list: each checkpoint's writes in list
/// order, checkpoint after checkpoint.  Nothing in between ever erases a
/// write: mutations accumulate across checkpoints by design.
pub open spec fn scheduled_writes(cps: Seq<CheckpointModel>) -> Seq<(u16, u8)>
    decreases cps.len(),
{
    if cps.len() == 0 {
        Seq::empty()
    } else {
        scheduled_writes(cps.drop_last()) + cps.last().memory_writes.map_values(
            |w: MemoryWrite| (w.address, w.value),
        )
    }
}

/// A plan takes exactly one capture per checkpoint, in checkpoint order,
/// each named after the base name and its checkpoint's suffix; it advances
/// frames exactly as the checkpoints prescribe, count for count, in order;
/// and it performs exactly the scripted memory writes, in order, with
/// nothing between checkpoints resetting state.
pub proof fn lemma_plan_schedule(cps: Seq<CheckpointModel>, base: Seq<char>)
    ensures
        capture_names_of(plan_model(cps, base)) == scheduled_captures(cps, base),
        advance_counts_of(plan_model(cps, base)) == scheduled_advances(cps),
        writes_of(plan_model(cps, base)) == scheduled_writes(cps),
    decreases cps.len(),
{
    if cps.len() == 0 {
        assert(capture_names_of(plan_model(cps, base)) =~= scheduled_captures(cps, base));
        assert(advance_counts_of(plan_model(cps, base)) =~= scheduled_advances(cps));
        assert(writes_of(plan_model(cps, base)) =~= scheduled_writes(cps));
    } else {
        lemma_plan_schedule(cps.drop_last(), base);
        lemma_checkpoint_schedule(cps.last(), base);
        lemma_capture_names_concat(
            plan_model(cps.drop_last(), base),
            checkpoint_actions_model(cps.last(), base),
        );
        lemma_advance_counts_concat(
            plan_model(cps.drop_last(), base),
            checkpoint_actions_model(cps.last(), base),
        );
        lemma_writes_of_concat(
            plan_model(cps.drop_last(), base),
            checkpoint_actions_model(cps.last(), base),
        );
        assert(capture_names_of(plan_model(cps, base)) =~= scheduled_captures(cps, base));
        assert(advance_counts_of(plan_model(cps, base)) =~= scheduled_advances(cps));
        assert(writes_of(plan_model(cps, base)) =~= scheduled_writes(cps));
    }
}

/// Resolution changes no schedule: a resolved checkpoint keeps its
/// checkpoint's frame count and capture suffix, so the plan of a resolved
/// script captures and advances exactly as the script was written.
pub proof fn lemma_resolution_preserves_schedule(
    script: Seq<ScriptedCheckpointModel>,
    m: Map<Seq<char>, u16>,
    base: Seq<char>,
)
    ensures
        scheduled_captures(resolved_script(script, m), base) == script.map_values(
            |c: ScriptedCheckpointModel| output_name(base, c.capture_suffix),
        ),
        scheduled_advances(resolved_script(script, m)) == script.map_values(
            |c: ScriptedCheckpointModel| c.frames_to_advance,
        ),
{
    assert(scheduled_captures(resolved_script(script, m), base) =~= script.map_values(
        |c: ScriptedCheckpointModel| output_name(base, c.capture_suffix),
    ));
    assert(scheduled_advances(resolved_script(script, m)) =~= script.map_values(
        |c: ScriptedCheckpointModel| c.frames_to_advance,
    ));
}

/// The models of a scripted checkpoint list.
pub open spec fn script_models(script: Seq<ScriptedCheckpoint>) -> Seq<ScriptedCheckpointModel> {
    script.map_values(|c: ScriptedCheckpoint| c@)
}

/// The checkpoint list a script resolves to under a loaded symbol map.
pub open spec fn resolved_script(
    script: Seq<ScriptedCheckpointModel>,
    m: Map<Seq<char>, u16>,
) -> Seq<CheckpointModel> {
    script.map_values(|c: ScriptedCheckpointModel| resolved_checkpoint(c, m))
}

/// Resolves a scripted checkpoint list and lays out its full action plan.
///
/// Fail-fast: every label a checkpoint references is resolved before any
/// action is produced, so a missing label yields `MissingLabelError` and an
/// empty run — no frame is ever advanced, no memory written, no capture
/// taken.  Succeeds exactly when every referenced name is in the map.
pub fn sequence(resolver: &LabelResolver, script: &Vec<ScriptedCheckpoint>, base: &str) -> (result:
    Result<Vec<Action>, MissingLabelError>)
    requires
        resolver.wf(),
    ensures
        result is Ok <==> script_resolvable(script_models(script@), resolver@),
        result matches Ok(actions) ==> models_of(actions@) == plan_model(
            resolved_script(script_models(script@), resolver@),
            base@,
        ),
        result matches Err(e) ==> !resolver@.contains_key(e.name@) && script_references(
            script_models(script@),
            e.name@,
        ),
{
    match resolve_script(resolver, script) {
        Ok(checkpoints) => {
            let actions = plan(&checkpoints, base);
            Ok(actions)
        },
        Err(e) => Err(e),
    }
}

} // verus!
