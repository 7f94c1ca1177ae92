//! Data model of the preset settings compiler: the two catalogs, the presets,
//! and the compiled records, together with their mathematical views.
use vstd::prelude::*;

verus! {

/// A notable strategy as it stands in the canonical catalog: a composite key
/// (room identifier, notable identifier) plus display names.
#[derive(Debug, Clone, PartialEq, Eq)]
pub struct NotableStrategy {
    pub room_id: u64,
    pub notable_id: u64,
    pub room_name: String,
    pub name: String,
}

/// Mathematical view of a catalog notable strategy.
#[verifier::ext_equal]
pub ghost struct NotableStrategyV {
    pub room_id: u64,
    pub notable_id: u64,
    pub room_name: Seq<char>,
    pub name: Seq<char>,
}

impl View for NotableStrategy {
    type V = NotableStrategyV;

    open spec fn view(&self) -> NotableStrategyV {
        NotableStrategyV {
            room_id: self.room_id,
            notable_id: self.notable_id,
            room_name: self.room_name@,
            name: self.name@,
        }
    }
}

/// A preset-supplied notable-strategy setting: the catalog key it claims,
/// plus the display metadata the preset carries through unchanged.
#[derive(Debug, Clone, PartialEq, Eq)]
pub struct NotableSetting {
    pub room_id: u64,
    pub notable_id: u64,
    pub room_name: String,
    pub name: String,
}

/// Mathematical view of a preset-supplied notable setting.
#[verifier::ext_equal]
pub ghost struct NotableSettingV {
    pub room_id: u64,
    pub notable_id: u64,
    pub room_name: Seq<char>,
    pub name: Seq<char>,
}

impl View for NotableSetting {
    type V = NotableSettingV;

    open spec fn view(&self) -> NotableSettingV {
        NotableSettingV {
            room_id: self.room_id,
            notable_id: self.notable_id,
            room_name: self.room_name@,
            name: self.name@,
        }
    }
}

/// An ordered difficulty tier: its name, the capability identifiers it newly
/// unlocks, and the notable-strategy settings it newly unlocks.
#[derive(Debug, Clone, PartialEq, Eq)]
pub struct Preset {
    pub name: String,
    pub tech: Vec<String>,
    pub notables: Vec<NotableSetting>,
}

/// Mathematical view of a preset.
#[verifier::ext_equal]
pub ghost struct PresetV {
    pub name: Seq<char>,
    pub tech: Seq<Seq<char>>,
    pub notables: Seq<NotableSettingV>,
}

impl View for Preset {
    type V = PresetV;

    open spec fn view(&self) -> PresetV {
        PresetV {
            name: self.name@,
            tech: self.tech@.map_values(|t: String| t@),
            notables: self.notables@.map_values(|n: NotableSetting| n@),
        }
    }
}

/// One compiled record: the source preset, the cumulative capability vector
/// (implicit entries first, then the visible catalog in catalog order), the
/// implicit capability list, and the cumulative notable vector in catalog
/// order.
#[derive(Debug, Clone, PartialEq, Eq)]
pub struct CompiledPreset {
    pub preset: Preset,
    pub tech_setting: Vec<(String, bool)>,
    pub implicit_tech: Vec<String>,
    pub notable_setting: Vec<(NotableSetting, bool)>,
}

/// Mathematical view of a compiled record.
#[verifier::ext_equal]
pub ghost struct CompiledPresetV {
    pub preset: PresetV,
    pub tech_setting: Seq<(Seq<char>, bool)>,
    pub implicit_tech: Seq<Seq<char>>,
    pub notable_setting: Seq<(NotableSettingV, bool)>,
}

impl View for CompiledPreset {
    type V = CompiledPresetV;

    open spec fn view(&self) -> CompiledPresetV {
        CompiledPresetV {
            preset: self.preset@,
            tech_setting: self.tech_setting@.map_values(|t: (String, bool)| (t.0@, t.1)),
            implicit_tech: self.implicit_tech@.map_values(|t: String| t@),
            notable_setting: self.notable_setting@.map_values(|n: (NotableSetting, bool)| (n.0@, n.1)),
        }
    }
}

/// The views of a list of strings.
pub open spec fn str_views(v: Seq<String>) -> Seq<Seq<char>> {
    v.map_values(|s: String| s@)
}

/// The views of a list of presets.
pub open spec fn preset_views(v: Seq<Preset>) -> Seq<PresetV> {
    v.map_values(|p: Preset| p@)
}

/// The views of a notable-strategy catalog.
pub open spec fn strategy_views(v: Seq<NotableStrategy>) -> Seq<NotableStrategyV> {
    v.map_values(|n: NotableStrategy| n@)
}

/// The views of a list of compiled records.
pub open spec fn compiled_views(v: Seq<CompiledPreset>) -> Seq<CompiledPresetV> {
    v.map_values(|c: CompiledPreset| c@)
}

} // verus!
