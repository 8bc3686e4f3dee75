use vstd::prelude::*;
use vstd::string::StringExecFns;

use crate::app::Channel;
use crate::app::spec_channel_sound;
use crate::json::AtomModel;
use crate::json::JsonAtom;
use crate::json::JsonDoc;
use crate::json::JsonValue;
use crate::json::ValueModel;
use crate::json::lemma_doc_round_trip;
use crate::json::doc_find;
use crate::json::doc_get;
use crate::json::doc_model;
use crate::json::doc_to_string;
use crate::json::obj_find;
use crate::json::obj_get;
use crate::json::obj_model;
use crate::json::parse_document;
use crate::json::parse_json_doc;
use crate::json::ser_doc;
use crate::json::value_model;
use crate::json::wf_atom_m;
use crate::json::wf_doc_m;
use crate::json::wf_value_m;

verus! {

/// Per-channel persisted state: volume in 0..=100 and a mute flag.
#[derive(Clone, Copy, PartialEq, Eq, Structural, Debug)]
pub struct SoundConfig {
    pub volume: u8,
    pub muted: bool,
}

impl Default for SoundConfig {
    /// The default channel state: volume 70, not muted.
    fn default() -> (r: Self)
        ensures
            r.volume == 70,
            !r.muted,
    {
        SoundConfig { volume: 70, muted: false }
    }
}

/// The persisted root aggregate: one `SoundConfig` per channel plus the
/// optional version of the installed sound assets.
#[derive(Clone, Debug)]
pub struct Config {
    pub rain: SoundConfig,
    pub thunder: SoundConfig,
    pub campfire: SoundConfig,
    pub master: SoundConfig,
    pub sounds_version: Option<String>,
}

impl Default for Config {
    /// The default configuration: all volumes 70, nothing muted, no sound
    /// assets recorded as installed.
    fn default() -> (r: Self)
        ensures
            r.rain == (SoundConfig { volume: 70, muted: false }),
            r.thunder == (SoundConfig { volume: 70, muted: false }),
            r.campfire == (SoundConfig { volume: 70, muted: false }),
            r.master == (SoundConfig { volume: 70, muted: false }),
            r.sounds_version is None,
    {
        Config {
            rain: SoundConfig::default(),
            thunder: SoundConfig::default(),
            campfire: SoundConfig::default(),
            master: SoundConfig::default(),
            sounds_version: None,
        }
    }
}

/// The mathematical value of a `Config`: the same fields with the version
/// string abstracted to its character sequence.
pub ghost struct ConfigModel {
    pub rain: SoundConfig,
    pub thunder: SoundConfig,
    pub campfire: SoundConfig,
    pub master: SoundConfig,
    pub sounds_version: Option<Seq<char>>,
}

impl ConfigModel {
    /// Every stored volume lies in 0..=100.
    pub open spec fn wf(self) -> bool {
        &&& self.rain.volume <= 100
        &&& self.thunder.volume <= 100
        &&& self.campfire.volume <= 100
        &&& self.master.volume <= 100
    }
}

impl Config {
    pub open spec fn model(self) -> ConfigModel {
        ConfigModel {
            rain: self.rain,
            thunder: self.thunder,
            campfire: self.campfire,
            master: self.master,
            sounds_version: match self.sounds_version {
                Option::Some(s) => Option::Some(s@),
                Option::None => Option::None,
            },
        }
    }

    pub open spec fn wf(self) -> bool {
        self.model().wf()
    }
}

/// The effective gain of a channel, as a fraction of full scale in units of
/// 1/10000. A muted non-master channel is silent; otherwise its gain is
/// `(volume/100) * (master.volume/100)`. Master's own gain ignores its mute
/// flag, since master mute is not an exposed operation.
pub open spec fn spec_effective_volume(c: Config, ch: Channel) -> int {
    if ch == Channel::Master {
        c.master.volume * 100
    } else {
        let s = spec_channel_sound(c, ch);
        if s.muted {
            0
        } else {
            s.volume * c.master.volume
        }
    }
}

impl Config {
    /// The effective gain for a channel, in units of 1/10000 of full scale.
    pub fn effective_volume(&self, channel: Channel) -> (r: u16)
        ensures
            r as int == spec_effective_volume(*self, channel),
    {
        let sound = match channel {
            Channel::Rain => self.rain,
            Channel::Thunder => self.thunder,
            Channel::Campfire => self.campfire,
            Channel::Master => self.master,
        };
        if channel == Channel::Master {
            (self.master.volume as u16) * 100
        } else if sound.muted {
            0
        } else {
            proof {
                assert(sound.volume as int * self.master.volume as int <= 255 * 255)
                    by (nonlinear_arith)
                    requires
                        sound.volume <= 255,
                        self.master.volume <= 255,
                ;
            }
            (sound.volume as u16) * (self.master.volume as u16)
        }
    }
}

/// The gain formula, spelled out: a muted non-master channel is silent, any
/// other non-master channel scales its volume by master's volume — and
/// master's own mute flag never enters into it.
pub proof fn lemma_effective_volume_formula(c: Config, ch: Channel)
    ensures
        ch != Channel::Master ==> spec_effective_volume(c, ch) == (if spec_channel_sound(
            c,
            ch,
        ).muted {
            0int
        } else {
            spec_channel_sound(c, ch).volume * c.master.volume
        }),
        spec_effective_volume(
            Config {
                master: SoundConfig { volume: c.master.volume, muted: !c.master.muted },
                ..c
            },
            ch,
        ) == spec_effective_volume(c, ch),
{
    let c2 = Config {
        master: SoundConfig { volume: c.master.volume, muted: !c.master.muted },
        ..c
    };
    match ch {
        Channel::Rain => {
            assert(spec_channel_sound(c2, ch) == c.rain);
        },
        Channel::Thunder => {
            assert(spec_channel_sound(c2, ch) == c.thunder);
        },
        Channel::Campfire => {
            assert(spec_channel_sound(c2, ch) == c.campfire);
        },
        Channel::Master => {},
    }
}

// ------------------------------------------------------------------
// The persisted form: a JSON document, with migration from the legacy
// schema. Version 1 stored `master_volume` as a bare number on the root
// object; version 2 stores `master` as a full per-channel object.
// ------------------------------------------------------------------

/// Why a configuration file could not be loaded.
#[derive(Clone, Copy, PartialEq, Eq, Structural, Debug)]
pub enum ConfigError {
    /// The file is not a document in the configuration grammar.
    BadJson,
    /// The document matches neither schema version.
    BadSchema,
}

pub open spec fn opt_str_view(o: Option<String>) -> Option<Seq<char>> {
    match o {
        Option::Some(s) => Option::Some(s@),
        Option::None => Option::None,
    }
}

/// A channel's state as a document value.
pub open spec fn sound_value(sc: SoundConfig) -> ValueModel {
    ValueModel::Obj(
        seq![
            ("volume"@, AtomModel::Num(sc.volume as u64)),
            ("muted"@, AtomModel::Bool(sc.muted)),
        ],
    )
}

pub open spec fn version_value(v: Option<Seq<char>>) -> ValueModel {
    match v {
        Option::None => ValueModel::Atom(AtomModel::Null),
        Option::Some(s) => ValueModel::Atom(AtomModel::Str(s)),
    }
}

/// The schema-v2 document of a configuration.
pub open spec fn spec_config_doc(m: ConfigModel) -> Seq<(Seq<char>, ValueModel)> {
    seq![
        ("rain"@, sound_value(m.rain)),
        ("thunder"@, sound_value(m.thunder)),
        ("campfire"@, sound_value(m.campfire)),
        ("master"@, sound_value(m.master)),
        ("sounds_version"@, version_value(m.sounds_version)),
    ]
}

/// The exact text that saving a configuration writes.
pub open spec fn spec_config_json(m: ConfigModel) -> Seq<char> {
    ser_doc(spec_config_doc(m))
}

/// Decode a member value as a channel's state: an object with a numeric
/// `volume` in 0..=100 and a boolean `muted`.
pub open spec fn decode_sound(v: ValueModel) -> Option<SoundConfig> {
    match v {
        ValueModel::Obj(es) => match (obj_get(es, "volume"@), obj_get(es, "muted"@)) {
            (Option::Some(AtomModel::Num(n)), Option::Some(AtomModel::Bool(b))) => if n <= 100 {
                Option::Some(SoundConfig { volume: n as u8, muted: b })
            } else {
                Option::None
            },
            _ => Option::None,
        },
        _ => Option::None,
    }
}

pub open spec fn field_sound(es: Seq<(Seq<char>, ValueModel)>, k: Seq<char>) -> Option<
    SoundConfig,
> {
    match doc_get(es, k) {
        Option::Some(v) => decode_sound(v),
        Option::None => Option::None,
    }
}

/// Decode the stored assets version: absent or null mean none; anything but
/// a string is a schema error (the outer `None`).
pub open spec fn decode_version(es: Seq<(Seq<char>, ValueModel)>) -> Option<Option<Seq<char>>> {
    match doc_get(es, "sounds_version"@) {
        Option::None => Option::Some(Option::None),
        Option::Some(ValueModel::Atom(AtomModel::Null)) => Option::Some(Option::None),
        Option::Some(ValueModel::Atom(AtomModel::Str(s))) => Option::Some(Option::Some(s)),
        Option::Some(_) => Option::None,
    }
}

/// Decode a parsed document under either schema. A numeric `master_volume`
/// member marks the legacy schema: the per-channel fields are copied, the
/// scalar becomes `master.volume` with `master.muted = false`, and the
/// result is flagged as migrated so it can be persisted at once. Any other
/// document is decoded under the current schema. The returned flag says
/// whether migration happened.
pub open spec fn spec_decode_doc(es: Seq<(Seq<char>, ValueModel)>) -> Result<
    (ConfigModel, bool),
    ConfigError,
> {
    match doc_get(es, "master_volume"@) {
        Option::Some(ValueModel::Atom(AtomModel::Num(mv))) => {
            if mv <= 100 {
                match (
                    field_sound(es, "rain"@),
                    field_sound(es, "thunder"@),
                    field_sound(es, "campfire"@),
                    decode_version(es),
                ) {
                    (
                        Option::Some(r),
                        Option::Some(t),
                        Option::Some(c),
                        Option::Some(sv),
                    ) => Result::Ok(
                        (
                            ConfigModel {
                                rain: r,
                                thunder: t,
                                campfire: c,
                                master: SoundConfig { volume: mv as u8, muted: false },
                                sounds_version: sv,
                            },
                            true,
                        ),
                    ),
                    _ => Result::Err(ConfigError::BadSchema),
                }
            } else {
                Result::Err(ConfigError::BadSchema)
            }
        },
        _ => {
            match (
                field_sound(es, "rain"@),
                field_sound(es, "thunder"@),
                field_sound(es, "campfire"@),
                field_sound(es, "master"@),
                decode_version(es),
            ) {
                (
                    Option::Some(r),
                    Option::Some(t),
                    Option::Some(c),
                    Option::Some(ms),
                    Option::Some(sv),
                ) => Result::Ok(
                    (
                        ConfigModel {
                            rain: r,
                            thunder: t,
                            campfire: c,
                            master: ms,
                            sounds_version: sv,
                        },
                        false,
                    ),
                ),
                _ => Result::Err(ConfigError::BadSchema),
            }
        },
    }
}

/// What loading a configuration text yields: a parse failure, a schema
/// failure, or the configuration with its migration flag.
pub open spec fn spec_load_config(s: Seq<char>) -> Result<(ConfigModel, bool), ConfigError> {
    match parse_json_doc(s) {
        Option::None => Result::Err(ConfigError::BadJson),
        Option::Some(es) => spec_decode_doc(es),
    }
}

fn sound_to_value(sc: &SoundConfig) -> (r: JsonValue)
    ensures
        value_model(r) == sound_value(*sc),
{
    let mut es: Vec<(String, JsonAtom)> = Vec::new();
    es.push((String::from_str("volume"), JsonAtom::Num(sc.volume as u64)));
    es.push((String::from_str("muted"), JsonAtom::Bool(sc.muted)));
    proof {
        assert(obj_model(es@) =~= seq![
            ("volume"@, AtomModel::Num(sc.volume as u64)),
            ("muted"@, AtomModel::Bool(sc.muted)),
        ]);
    }
    JsonValue::Obj(es)
}

fn decode_sound_value(v: &JsonValue) -> (r: Option<SoundConfig>)
    ensures
        r == decode_sound(value_model(*v)),
{
    match v {
        JsonValue::Obj(es) => {
            match (obj_find(es, "volume"), obj_find(es, "muted")) {
                (Some(JsonAtom::Num(n)), Some(JsonAtom::Bool(b))) => {
                    if *n <= 100 {
                        Some(SoundConfig { volume: *n as u8, muted: *b })
                    } else {
                        None
                    }
                },
                _ => None,
            }
        },
        _ => None,
    }
}

fn field_sound_value(d: &JsonDoc, k: &str) -> (r: Option<SoundConfig>)
    ensures
        r == field_sound(doc_model(*d), k@),
{
    match doc_find(d, k) {
        Some(v) => decode_sound_value(v),
        None => None,
    }
}

fn decode_version_value(d: &JsonDoc) -> (r: Option<Option<String>>)
    ensures
        match r {
            Option::Some(ov) => decode_version(doc_model(*d)) == Option::Some(opt_str_view(ov)),
            Option::None => decode_version(doc_model(*d)) is None,
        },
{
    match doc_find(d, "sounds_version") {
        None => Some(None),
        Some(JsonValue::Atom(JsonAtom::Null)) => Some(None),
        Some(JsonValue::Atom(JsonAtom::Str(s))) => Some(Some(s.clone())),
        Some(_) => None,
    }
}

impl Config {
    /// The exact schema-v2 text of this configuration, as saving writes it.
    pub fn to_json_string(&self) -> (r: String)
        ensures
            r@ == spec_config_json(self.model()),
    {
        let mut entries: Vec<(String, JsonValue)> = Vec::new();
        entries.push((String::from_str("rain"), sound_to_value(&self.rain)));
        entries.push((String::from_str("thunder"), sound_to_value(&self.thunder)));
        entries.push((String::from_str("campfire"), sound_to_value(&self.campfire)));
        entries.push((String::from_str("master"), sound_to_value(&self.master)));
        let version = match &self.sounds_version {
            Some(s) => JsonValue::Atom(JsonAtom::Str(s.clone())),
            None => JsonValue::Atom(JsonAtom::Null),
        };
        entries.push((String::from_str("sounds_version"), version));
        let d = JsonDoc { entries };
        proof {
            assert(doc_model(d) =~= spec_config_doc(self.model()));
        }
        doc_to_string(&d)
    }

    /// Load a configuration from file text, migrating a legacy document to
    /// the current schema. The boolean is true when migration happened and
    /// the migrated form must be persisted.
    pub fn load_config_string(contents: &str) -> (r: Result<(Config, bool), ConfigError>)
        ensures
            match r {
                Result::Ok((c, migrated)) => spec_load_config(contents@) == Result::<
                    (ConfigModel, bool),
                    ConfigError,
                >::Ok((c.model(), migrated)) && c.wf(),
                Result::Err(e) => spec_load_config(contents@) == Result::<
                    (ConfigModel, bool),
                    ConfigError,
                >::Err(e),
            },
    {
        let d = match parse_document(contents) {
            Some(d) => d,
            None => {
                return Err(ConfigError::BadJson);
            },
        };
        let legacy_master: Option<u64> = match doc_find(&d, "master_volume") {
            Some(JsonValue::Atom(JsonAtom::Num(mv))) => Some(*mv),
            _ => None,
        };
        if let Some(mv) = legacy_master {
            if mv <= 100 {
                let rain = field_sound_value(&d, "rain");
                let thunder = field_sound_value(&d, "thunder");
                let campfire = field_sound_value(&d, "campfire");
                let version = decode_version_value(&d);
                match (rain, thunder, campfire, version) {
                    (Some(r), Some(t), Some(c), Some(sv)) => {
                        let config = Config {
                            rain: r,
                            thunder: t,
                            campfire: c,
                            master: SoundConfig { volume: mv as u8, muted: false },
                            sounds_version: sv,
                        };
                        Ok((config, true))
                    },
                    _ => Err(ConfigError::BadSchema),
                }
            } else {
                Err(ConfigError::BadSchema)
            }
        } else {
            let rain = field_sound_value(&d, "rain");
            let thunder = field_sound_value(&d, "thunder");
            let campfire = field_sound_value(&d, "campfire");
            let master = field_sound_value(&d, "master");
            let version = decode_version_value(&d);
            match (rain, thunder, campfire, master, version) {
                (Some(r), Some(t), Some(c), Some(ms), Some(sv)) => {
                    let config = Config {
                        rain: r,
                        thunder: t,
                        campfire: c,
                        master: ms,
                        sounds_version: sv,
                    };
                    Ok((config, false))
                },
                _ => Err(ConfigError::BadSchema),
            }
        }
    }
}

proof fn lemma_decode_sound_round(sc: SoundConfig)
    requires
        sc.volume <= 100,
    ensures
        decode_sound(sound_value(sc)) == Option::Some(sc),
{
    let es = seq![("volume"@, AtomModel::Num(sc.volume as u64)), ("muted"@, AtomModel::Bool(sc.muted))];
    reveal_strlit("volume");
    reveal_strlit("muted");
    assert("volume"@.len() == 6);
    assert("muted"@.len() == 5);
    assert(es[0].0 == "volume"@);
    assert(obj_get(es, "volume"@) == Option::Some(AtomModel::Num(sc.volume as u64)));
    let es1 = es.drop_first();
    assert(es1 =~= seq![("muted"@, AtomModel::Bool(sc.muted))]);
    assert(obj_get(es, "muted"@) == obj_get(es1, "muted"@));
    assert(obj_get(es1, "muted"@) == Option::Some(AtomModel::Bool(sc.muted)));
    assert((sc.volume as u64) as u8 == sc.volume);
}

/// Round trip: saving a well-formed configuration and loading the text back
/// yields the identical configuration, with no migration reported.
#[verifier::rlimit(100)]
pub proof fn lemma_config_round_trip(m: ConfigModel)
    requires
        m.wf(),
    ensures
        spec_load_config(spec_config_json(m)) == Result::<(ConfigModel, bool), ConfigError>::Ok(
            (m, false),
        ),
{
    let es = spec_config_doc(m);
    reveal_strlit("rain");
    reveal_strlit("thunder");
    reveal_strlit("campfire");
    reveal_strlit("master");
    reveal_strlit("sounds_version");
    reveal_strlit("master_volume");
    assert("rain"@.len() == 4);
    assert("thunder"@.len() == 7);
    assert("campfire"@.len() == 8);
    assert("master"@.len() == 6);
    assert("sounds_version"@.len() == 14);
    assert("master_volume"@.len() == 13);

    // The document is well formed: every number in it is a volume.
    assert(wf_doc_m(es)) by {
        assert forall|x: int| 0 <= x < es.len() implies wf_value_m(#[trigger] es[x].1) by {
            if x == 0 {
                lemma_sound_value_wf(m.rain);
            } else if x == 1 {
                lemma_sound_value_wf(m.thunder);
            } else if x == 2 {
                lemma_sound_value_wf(m.campfire);
            } else if x == 3 {
                lemma_sound_value_wf(m.master);
            } else {
                assert(es[4].1 == version_value(m.sounds_version));
            }
        }
    }
    lemma_doc_round_trip(es);

    // Walk the five members for each key the decoder looks up.
    let es1 = es.drop_first();
    let es2 = es1.drop_first();
    let es3 = es2.drop_first();
    let es4 = es3.drop_first();
    let es5 = es4.drop_first();
    assert(es1 =~= seq![
        ("thunder"@, sound_value(m.thunder)),
        ("campfire"@, sound_value(m.campfire)),
        ("master"@, sound_value(m.master)),
        ("sounds_version"@, version_value(m.sounds_version)),
    ]);
    assert(es2 =~= seq![
        ("campfire"@, sound_value(m.campfire)),
        ("master"@, sound_value(m.master)),
        ("sounds_version"@, version_value(m.sounds_version)),
    ]);
    assert(es3 =~= seq![
        ("master"@, sound_value(m.master)),
        ("sounds_version"@, version_value(m.sounds_version)),
    ]);
    assert(es4 =~= seq![("sounds_version"@, version_value(m.sounds_version))]);
    assert(es5 =~= Seq::<(Seq<char>, ValueModel)>::empty());

    let kmv = "master_volume"@;
    assert(doc_get(es, kmv) == doc_get(es1, kmv));
    assert(doc_get(es1, kmv) == doc_get(es2, kmv));
    assert(doc_get(es2, kmv) == doc_get(es3, kmv));
    assert(doc_get(es3, kmv) == doc_get(es4, kmv));
    assert(doc_get(es4, kmv) == doc_get(es5, kmv));
    assert(doc_get(es, kmv) is None);

    assert(doc_get(es, "rain"@) == Option::Some(sound_value(m.rain)));
    assert(doc_get(es, "thunder"@) == doc_get(es1, "thunder"@));
    assert(doc_get(es1, "thunder"@) == Option::Some(sound_value(m.thunder)));
    assert(doc_get(es, "campfire"@) == doc_get(es1, "campfire"@));
    assert(doc_get(es1, "campfire"@) == doc_get(es2, "campfire"@));
    assert(doc_get(es2, "campfire"@) == Option::Some(sound_value(m.campfire)));
    assert(doc_get(es, "master"@) == doc_get(es1, "master"@));
    assert(doc_get(es1, "master"@) == doc_get(es2, "master"@));
    assert(doc_get(es2, "master"@) == doc_get(es3, "master"@));
    assert(doc_get(es3, "master"@) == Option::Some(sound_value(m.master)));
    let ksv = "sounds_version"@;
    assert(doc_get(es, ksv) == doc_get(es1, ksv));
    assert(doc_get(es1, ksv) == doc_get(es2, ksv));
    assert(doc_get(es2, ksv) == doc_get(es3, ksv));
    assert(doc_get(es3, ksv) == doc_get(es4, ksv));
    assert(doc_get(es4, ksv) == Option::Some(version_value(m.sounds_version)));

    lemma_decode_sound_round(m.rain);
    lemma_decode_sound_round(m.thunder);
    lemma_decode_sound_round(m.campfire);
    lemma_decode_sound_round(m.master);
    assert(decode_version(es) == Option::Some(m.sounds_version));
    assert(spec_decode_doc(es) == Result::<(ConfigModel, bool), ConfigError>::Ok((m, false)));
}

proof fn lemma_sound_value_wf(sc: SoundConfig)
    requires
        sc.volume <= 100,
    ensures
        wf_value_m(sound_value(sc)),
{
    let es = seq![("volume"@, AtomModel::Num(sc.volume as u64)), ("muted"@, AtomModel::Bool(sc.muted))];
    assert forall|x: int| 0 <= x < es.len() implies wf_atom_m(#[trigger] es[x].1) by {
        if x == 0 {
        } else {
        }
    }
}

} // verus!
