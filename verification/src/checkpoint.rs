//! Checkpoints: scripted points in an emulator run where registers and
//! memory are poked, a fixed number of frames is advanced, and a capture is
//! taken.  A checkpoint is first written symbolically, against label names,
//! and resolved to raw addresses before any sequencing starts.

use vstd::prelude::*;
use vstd::string::StringExecFns;
use crate::labels::LabelResolver;
use crate::labels::MissingLabelError;

verus! {

/// A scripted memory write: the named variable and the byte to store there.
pub struct ScriptedWrite {
    pub label: String,
    pub value: u8,
}

impl View for ScriptedWrite {
    type V = (Seq<char>, u8);

    open spec fn view(&self) -> (Seq<char>, u8) {
        (self.label@, self.value)
    }
}

/// A checkpoint written against label names, before resolution.
pub struct ScriptedCheckpoint {
    /// What state this checkpoint drives the emulator into.
    pub description: String,
    /// How many display frames to advance after the mutations.
    pub frames_to_advance: u32,
    /// Label of the address to load into the program counter, if any.
    pub register_override: Option<String>,
    /// Memory writes to apply, in order, before advancing frames.
    pub memory_writes: Vec<ScriptedWrite>,
    /// Suffix of the output file captured at this checkpoint.
    pub capture_suffix: String,
}

/// Mathematical image of a `ScriptedCheckpoint`.
pub struct ScriptedCheckpointModel {
    pub description: Seq<char>,
    pub frames_to_advance: u32,
    pub register_override: Option<Seq<char>>,
    pub memory_writes: Seq<(Seq<char>, u8)>,
    pub capture_suffix: Seq<char>,
}

impl View for ScriptedCheckpoint {
    type V = ScriptedCheckpointModel;

    open spec fn view(&self) -> ScriptedCheckpointModel {
        ScriptedCheckpointModel {
            description: self.description@,
            frames_to_advance: self.frames_to_advance,
            register_override: match self.register_override {
                Some(ref name) => Some(name@),
                None => None,
            },
            memory_writes: self.memory_writes@.map_values(|w: ScriptedWrite| w@),
            capture_suffix: self.capture_suffix@,
        }
    }
}

/// A resolved memory write: raw address and the byte to store there.
#[derive(Clone, Copy, PartialEq, Eq, Structural)]
pub struct MemoryWrite {
    pub address: u16,
    pub value: u8,
}

/// A checkpoint whose label references have been resolved to raw addresses.
pub struct Checkpoint {
    /// What state this checkpoint drives the emulator into.
    pub description: String,
    /// How many display frames to advance after the mutations.
    pub frames_to_advance: u32,
    /// Address to load into the program counter, if any.
    pub register_override: Option<u16>,
    /// Memory writes to apply, in order, before advancing frames.
    pub memory_writes: Vec<MemoryWrite>,
    /// Suffix of the output file captured at this checkpoint.
    pub capture_suffix: String,
}

/// Mathematical image of a `Checkpoint`.
pub struct CheckpointModel {
    pub description: Seq<char>,
    pub frames_to_advance: u32,
    pub register_override: Option<u16>,
    pub memory_writes: Seq<MemoryWrite>,
    pub capture_suffix: Seq<char>,
}

impl View for Checkpoint {
    type V = CheckpointModel;

    open spec fn view(&self) -> CheckpointModel {
        CheckpointModel {
            description: self.description@,
            frames_to_advance: self.frames_to_advance,
            register_override: self.register_override,
            memory_writes: self.memory_writes@,
            capture_suffix: self.capture_suffix@,
        }
    }
}

/// The checkpoint references the name: as its register override or in one
/// of its memory writes.
pub open spec fn checkpoint_references(cp: ScriptedCheckpointModel, name: Seq<char>) -> bool {
    ||| cp.register_override == Some(name)
    ||| exists|i: int| 0 <= i < cp.memory_writes.len() && cp.memory_writes[i].0 == name
}

/// Some checkpoint of the script references the name.
pub open spec fn script_references(script: Seq<ScriptedCheckpointModel>, name: Seq<char>) -> bool {
    exists|i: int| 0 <= i < script.len() && checkpoint_references(script[i], name)
}

/// Every label name a scripted checkpoint references exists in the map.
pub open spec fn checkpoint_resolvable(cp: ScriptedCheckpointModel, m: Map<Seq<char>, u16>) -> bool {
    &&& (cp.register_override matches Some(name) ==> m.contains_key(name))
    &&& forall|i: int| 0 <= i < cp.memory_writes.len() ==> m.contains_key(cp.memory_writes[i].0)
}

/// The checkpoint obtained by resolving every label reference through the map.
pub open spec fn resolved_checkpoint(
    cp: ScriptedCheckpointModel,
    m: Map<Seq<char>, u16>,
) -> CheckpointModel {
    CheckpointModel {
        description: cp.description,
        frames_to_advance: cp.frames_to_advance,
        register_override: match cp.register_override {
            Some(name) => Some(m[name]),
            None => None,
        },
        memory_writes: cp.memory_writes.map_values(
            |w: (Seq<char>, u8)| MemoryWrite { address: m[w.0], value: w.1 },
        ),
        capture_suffix: cp.capture_suffix,
    }
}

/// Resolves one scripted checkpoint against a loaded symbol map.  Succeeds
/// exactly when every referenced name exists; on failure the error names a
/// missing label.
pub fn resolve_checkpoint(resolver: &LabelResolver, cp: &ScriptedCheckpoint) -> (result: Result<
    Checkpoint,
    MissingLabelError,
>)
    requires
        resolver.wf(),
    ensures
        result is Ok <==> checkpoint_resolvable(cp@, resolver@),
        result matches Ok(r) ==> r@ == resolved_checkpoint(cp@, resolver@),
        result matches Err(e) ==> !resolver@.contains_key(e.name@) && checkpoint_references(
            cp@,
            e.name@,
        ),
{
    let register_override: Option<u16> = match &cp.register_override {
        Some(name) => match resolver.get(name.as_str()) {
            Ok(address) => Some(address),
            Err(e) => {
                proof {
                    assert(cp@.register_override == Some(name@));
                    assert(!checkpoint_resolvable(cp@, resolver@));
                }
                return Err(e);
            },
        },
        None => None,
    };
    let mut memory_writes: Vec<MemoryWrite> = Vec::new();
    let n = cp.memory_writes.len();
    for i in 0..n
        invariant
            n == cp.memory_writes@.len(),
            resolver.wf(),
            forall|j: int| 0 <= j < i ==> resolver@.contains_key(cp@.memory_writes[j].0),
            memory_writes@.len() == i,
            forall|j: int|
                0 <= j < i ==> memory_writes@[j] == (MemoryWrite {
                    address: resolver@[cp@.memory_writes[j].0],
                    value: cp@.memory_writes[j].1,
                }),
    {
        match resolver.get(cp.memory_writes[i].label.as_str()) {
            Ok(address) => {
                memory_writes.push(MemoryWrite { address, value: cp.memory_writes[i].value });
            },
            Err(e) => {
                proof {
                    assert(cp@.memory_writes[i as int].0 == cp.memory_writes@[i as int].label@);
                    assert(!checkpoint_resolvable(cp@, resolver@));
                }
                return Err(e);
            },
        }
    }
    let out = Checkpoint {
        description: cp.description.clone(),
        frames_to_advance: cp.frames_to_advance,
        register_override,
        memory_writes,
        capture_suffix: cp.capture_suffix.clone(),
    };
    proof {
        assert(out@.memory_writes =~= resolved_checkpoint(cp@, resolver@).memory_writes);
        assert(out@ == resolved_checkpoint(cp@, resolver@));
    }
    Ok(out)
}

/// Every checkpoint in the list is resolvable against the map.
pub open spec fn script_resolvable(
    script: Seq<ScriptedCheckpointModel>,
    m: Map<Seq<char>, u16>,
) -> bool {
    forall|i: int| 0 <= i < script.len() ==> checkpoint_resolvable(script[i], m)
}

/// Resolves a whole scripted checkpoint list, in order, failing fast on the
/// first missing label: either every referenced name resolves and the whole
/// resolved list is returned, or a missing name is reported and nothing else
/// happens — no frame is ever advanced on a partially resolved script.
pub fn resolve_script(resolver: &LabelResolver, script: &Vec<ScriptedCheckpoint>) -> (result:
    Result<Vec<Checkpoint>, MissingLabelError>)
    requires
        resolver.wf(),
    ensures
        result is Ok <==> script_resolvable(
            script@.map_values(|c: ScriptedCheckpoint| c@),
            resolver@,
        ),
        result matches Ok(r) ==> r@.map_values(|c: Checkpoint| c@) == script@.map_values(
            |c: ScriptedCheckpoint| c@,
        ).map_values(|c: ScriptedCheckpointModel| resolved_checkpoint(c, resolver@)),
        result matches Err(e) ==> !resolver@.contains_key(e.name@) && script_references(
            script@.map_values(|c: ScriptedCheckpoint| c@),
            e.name@,
        ),
{
    let ghost script_models = script@.map_values(|c: ScriptedCheckpoint| c@);
    let mut out: Vec<Checkpoint> = Vec::new();
    let n = script.len();
    for i in 0..n
        invariant
            n == script@.len(),
            script_models == script@.map_values(|c: ScriptedCheckpoint| c@),
            resolver.wf(),
            out@.len() == i,
            forall|j: int| 0 <= j < i ==> checkpoint_resolvable(script_models[j], resolver@),
            forall|j: int|
                0 <= j < i ==> out@[j]@ == resolved_checkpoint(script_models[j], resolver@),
    {
        match resolve_checkpoint(resolver, &script[i]) {
            Ok(cp) => {
                out.push(cp);
            },
            Err(e) => {
                proof {
                    assert(script_models[i as int] == script@[i as int]@);
                    assert(!script_resolvable(script_models, resolver@));
                }
                return Err(e);
            },
        }
    }
    proof {
        assert(out@.map_values(|c: Checkpoint| c@) =~= script_models.map_values(
            |c: ScriptedCheckpointModel| resolved_checkpoint(c, resolver@),
        ));
    }
    Ok(out)
}

/// Builds the canonical five-checkpoint sequence for the supported game: a
/// bootstrapping checkpoint with no mutations, then the title screen, the
/// game menu, the level menu, and finally a jump directly into deep gameplay
/// state, which sets four state variables at once.  The frame-advance counts
/// are exactly 11, 4, 4, 5 and 22, in that order, and the capture suffixes
/// are `_legal`, `_title`, `_gamemenu`, `_levelmenu` and `_game`.
pub fn canonical_checkpoints() -> (script: Vec<ScriptedCheckpoint>)
    ensures
        script@.len() == 5,
        script@[0]@.frames_to_advance == 11,
        script@[1]@.frames_to_advance == 4,
        script@[2]@.frames_to_advance == 4,
        script@[3]@.frames_to_advance == 5,
        script@[4]@.frames_to_advance == 22,
        script@[0]@.register_override is None,
        script@[0]@.memory_writes.len() == 0,
        script@[0]@.capture_suffix == "_legal"@,
        script@[1]@.register_override == Some("@mainLoop"@),
        script@[1]@.memory_writes =~= seq![("gameMode"@, 1u8)],
        script@[1]@.capture_suffix == "_title"@,
        script@[2]@.register_override == Some("@mainLoop"@),
        script@[2]@.memory_writes =~= seq![("gameMode"@, 2u8)],
        script@[2]@.capture_suffix == "_gamemenu"@,
        script@[3]@.register_override == Some("@mainLoop"@),
        script@[3]@.memory_writes =~= seq![("gameMode"@, 3u8)],
        script@[3]@.capture_suffix == "_levelmenu"@,
        script@[4]@.register_override == Some("@mainLoop"@),
        script@[4]@.memory_writes =~= seq![
            ("gameMode"@, 4u8),
            ("gameType"@, 1u8),
            ("player1_startLevel"@, 18u8),
            ("player1_startHeight"@, 5u8),
        ],
        script@[4]@.capture_suffix == "_game"@,
        forall|i: int| 0 <= i < 5 ==> script@[i]@.frames_to_advance >= 1,
{
    let mut script: Vec<ScriptedCheckpoint> = Vec::new();
    script.push(
        ScriptedCheckpoint {
            description: String::from_str("bootstrap to the legal screen"),
            frames_to_advance: 11,
            register_override: None,
            memory_writes: Vec::new(),
            capture_suffix: String::from_str("_legal"),
        },
    );
    let mut title_writes: Vec<ScriptedWrite> = Vec::new();
    title_writes.push(ScriptedWrite { label: String::from_str("gameMode"), value: 1 });
    script.push(
        ScriptedCheckpoint {
            description: String::from_str("title screen"),
            frames_to_advance: 4,
            register_override: Some(String::from_str("@mainLoop")),
            memory_writes: title_writes,
            capture_suffix: String::from_str("_title"),
        },
    );
    let mut menu_writes: Vec<ScriptedWrite> = Vec::new();
    menu_writes.push(ScriptedWrite { label: String::from_str("gameMode"), value: 2 });
    script.push(
        ScriptedCheckpoint {
            description: String::from_str("game menu"),
            frames_to_advance: 4,
            register_override: Some(String::from_str("@mainLoop")),
            memory_writes: menu_writes,
            capture_suffix: String::from_str("_gamemenu"),
        },
    );
    let mut level_writes: Vec<ScriptedWrite> = Vec::new();
    level_writes.push(ScriptedWrite { label: String::from_str("gameMode"), value: 3 });
    script.push(
        ScriptedCheckpoint {
            description: String::from_str("level menu"),
            frames_to_advance: 5,
            register_override: Some(String::from_str("@mainLoop")),
            memory_writes: level_writes,
            capture_suffix: String::from_str("_levelmenu"),
        },
    );
    let mut game_writes: Vec<ScriptedWrite> = Vec::new();
    game_writes.push(ScriptedWrite { label: String::from_str("gameMode"), value: 4 });
    game_writes.push(ScriptedWrite { label: String::from_str("gameType"), value: 1 });
    game_writes.push(ScriptedWrite { label: String::from_str("player1_startLevel"), value: 18 });
    game_writes.push(ScriptedWrite { label: String::from_str("player1_startHeight"), value: 5 });
    script.push(
        ScriptedCheckpoint {
            description: String::from_str("deep gameplay state"),
            frames_to_advance: 22,
            register_override: Some(String::from_str("@mainLoop")),
            memory_writes: game_writes,
            capture_suffix: String::from_str("_game"),
        },
    );
    script
}

} // verus!
