//! The built-in capability classifications: the implicit set (always enabled,
//! outside the preset progression) and the ignored set (catalog entries kept
//! out of preset visibility and coverage checks).
use vstd::prelude::*;
use crate::model::str_views;

verus! {

/// The names of the implicit capabilities, in their fixed order.
pub open spec fn implicit_tech_names() -> Seq<Seq<char>> {
    seq![
        "canSpecialBeamAttack"@,
        "canTrivialMidAirMorph"@,
        "canTurnaroundSpinJump"@,
        "canStopOnADime"@,
        "canUseGrapple"@,
        "canEscapeEnemyGrab"@,
        "canDownBack"@,
        "canTrivialUseFrozenEnemies"@,
    ]
}

/// The names of the ignored capabilities, in their fixed order: tech not yet
/// used by any strategy in logic, kept off every preset's visible vector.
pub open spec fn ignored_tech_names() -> Seq<Seq<char>> {
    seq![
        "canSpikeSuit"@,
        "canTrickyCarryFlashSuit"@,
        "canElevatorCrystalFlash"@,
        "canRiskPermanentLossOfAccess"@,
        "canEscapeMorphLocation"@,
    ]
}

/// The implicit capability identifiers: always enabled, regardless of preset.
pub fn get_implicit_tech() -> (r: Vec<String>)
    ensures
        str_views(r@) == implicit_tech_names(),
{
    let mut v: Vec<String> = Vec::new();
    v.push("canSpecialBeamAttack".to_owned());
    v.push("canTrivialMidAirMorph".to_owned());
    v.push("canTurnaroundSpinJump".to_owned());
    v.push("canStopOnADime".to_owned());
    v.push("canUseGrapple".to_owned());
    v.push("canEscapeEnemyGrab".to_owned());
    v.push("canDownBack".to_owned());
    v.push("canTrivialUseFrozenEnemies".to_owned());
    proof {
        assert(str_views(v@) =~= implicit_tech_names());
    }
    v
}

/// The ignored capability identifiers: catalog entries hidden from every
/// preset's visible vector and exempt from the coverage check.
pub fn get_ignored_tech() -> (r: Vec<String>)
    ensures
        str_views(r@) == ignored_tech_names(),
{
    let mut v: Vec<String> = Vec::new();
    v.push("canSpikeSuit".to_owned());
    v.push("canTrickyCarryFlashSuit".to_owned());
    v.push("canElevatorCrystalFlash".to_owned());
    v.push("canRiskPermanentLossOfAccess".to_owned());
    v.push("canEscapeMorphLocation".to_owned());
    proof {
        assert(str_views(v@) =~= ignored_tech_names());
    }
    v
}

} // verus!
