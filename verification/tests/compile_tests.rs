use preset_compiler::{compile, CompileError, NotableSetting, NotableStrategy, Preset};

fn s(x: &str) -> String {
    x.to_string()
}

fn strs(xs: &[&str]) -> Vec<String> {
    xs.iter().map(|x| x.to_string()).collect()
}

fn preset(name: &str, techs: &[&str], notables: &[(u64, u64, &str, &str)]) -> Preset {
    Preset {
        name: s(name),
        tech: strs(techs),
        notables: notables
            .iter()
            .map(|&(room_id, notable_id, room_name, nname)| NotableSetting {
                room_id,
                notable_id,
                room_name: s(room_name),
                name: s(nname),
            })
            .collect(),
    }
}

fn strat(room_id: u64, notable_id: u64, room_name: &str, name: &str) -> NotableStrategy {
    NotableStrategy {
        room_id,
        notable_id,
        room_name: s(room_name),
        name: s(name),
    }
}

fn tech_flags(cp: &preset_compiler::CompiledPreset) -> Vec<(String, bool)> {
    cp.tech_setting.clone()
}

#[test]
fn scenario_two_tiers_exact_vectors() {
    let catalog = strs(&["a", "b", "c"]);
    let presets = vec![preset("Easy", &["a"], &[]), preset("Hard", &["b", "c"], &[])];
    let out = compile(presets, &catalog, &vec![], &vec![], &vec![]).unwrap();
    assert_eq!(out.len(), 2);
    assert_eq!(out[0].preset.name, s("Easy"));
    assert_eq!(
        tech_flags(&out[0]),
        vec![(s("a"), true), (s("b"), false), (s("c"), false)]
    );
    assert_eq!(out[1].preset.name, s("Hard"));
    assert_eq!(
        tech_flags(&out[1]),
        vec![(s("a"), true), (s("b"), true), (s("c"), true)]
    );
}

#[test]
fn scenario_unclaimed_capability_is_fatal() {
    let catalog = strs(&["a", "b", "c", "d"]);
    let presets = vec![preset("Easy", &["a"], &[]), preset("Hard", &["b", "c"], &[])];
    let err = compile(presets, &catalog, &vec![], &vec![], &vec![]).unwrap_err();
    assert_eq!(err, CompileError::MissingTech(strs(&["d"])));
}

#[test]
fn scenario_doubly_claimed_capability_is_fatal() {
    let catalog = strs(&["a", "b", "c"]);
    let presets = vec![
        preset("Easy", &["a"], &[]),
        preset("Hard", &["a", "b", "c"], &[]),
    ];
    let err = compile(presets, &catalog, &vec![], &vec![], &vec![]).unwrap_err();
    assert_eq!(err, CompileError::DuplicateTech(s("a")));
}

#[test]
fn scenario_implicit_capability_always_on_and_invisible() {
    let catalog = strs(&["x", "a", "b"]);
    let implicit = strs(&["x"]);
    let presets = vec![preset("Easy", &["a"], &[]), preset("Hard", &["b"], &[])];
    let out = compile(presets, &catalog, &vec![], &implicit, &vec![]).unwrap();
    for cp in &out {
        // the implicit entry leads the vector, enabled in every tier
        assert_eq!(cp.tech_setting[0], (s("x"), true));
        assert_eq!(cp.implicit_tech, strs(&["x"]));
        // x is not part of the visible portion
        assert_eq!(
            cp.tech_setting.iter().filter(|e| e.0 == s("x")).count(),
            1
        );
        assert_eq!(cp.tech_setting.len(), 3);
    }
    assert_eq!(
        tech_flags(&out[0]),
        vec![(s("x"), true), (s("a"), true), (s("b"), false)]
    );
}

#[test]
fn unrecognized_ignored_tech_is_fatal() {
    let catalog = strs(&["a"]);
    let presets = vec![preset("Easy", &["a"], &[])];
    let err = compile(presets, &catalog, &vec![], &vec![], &strs(&["ghost"])).unwrap_err();
    assert_eq!(err, CompileError::UnrecognizedIgnoredTech(s("ghost")));
}

#[test]
fn unrecognized_implicit_tech_is_fatal() {
    let catalog = strs(&["a"]);
    let presets = vec![preset("Easy", &["a"], &[])];
    let err = compile(presets, &catalog, &vec![], &strs(&["phantom"]), &vec![]).unwrap_err();
    assert_eq!(err, CompileError::UnrecognizedImplicitTech(s("phantom")));
}

#[test]
fn implicit_and_ignored_clash_is_fatal() {
    let catalog = strs(&["a", "b"]);
    let presets = vec![preset("Easy", &["a"], &[])];
    let err = compile(presets, &catalog, &vec![], &strs(&["b"]), &strs(&["b"])).unwrap_err();
    assert_eq!(err, CompileError::ImplicitAndIgnoredTech(s("b")));
}

#[test]
fn ignored_tech_never_appears_in_vectors() {
    let catalog = strs(&["a", "hidden", "b"]);
    let ignored = strs(&["hidden"]);
    let presets = vec![preset("Easy", &["a"], &[]), preset("Hard", &["b"], &[])];
    let out = compile(presets, &catalog, &vec![], &vec![], &ignored).unwrap();
    for cp in &out {
        assert!(cp.tech_setting.iter().all(|e| e.0 != s("hidden")));
        assert_eq!(cp.tech_setting.len(), 2);
    }
}

#[test]
fn claiming_an_ignored_tech_is_unrecognized() {
    let catalog = strs(&["a", "hidden"]);
    let ignored = strs(&["hidden"]);
    let presets = vec![preset("Easy", &["a", "hidden"], &[])];
    let err = compile(presets, &catalog, &vec![], &vec![], &ignored).unwrap_err();
    assert_eq!(err, CompileError::UnrecognizedTech(s("hidden"), s("Easy")));
}

#[test]
fn claiming_an_implicit_tech_is_a_duplicate() {
    let catalog = strs(&["a", "x"]);
    let implicit = strs(&["x"]);
    let presets = vec![preset("Easy", &["x", "a"], &[])];
    let err = compile(presets, &catalog, &vec![], &implicit, &vec![]).unwrap_err();
    assert_eq!(err, CompileError::DuplicateTech(s("x")));
}

#[test]
fn unknown_tech_names_the_preset() {
    let catalog = strs(&["a"]);
    let presets = vec![preset("Easy", &["a"], &[]), preset("Hard", &["zzz"], &[])];
    let err = compile(presets, &catalog, &vec![], &vec![], &vec![]).unwrap_err();
    assert_eq!(err, CompileError::UnrecognizedTech(s("zzz"), s("Hard")));
}

#[test]
fn duplicate_notable_claim_is_fatal() {
    let catalog = strs(&["a", "b"]);
    let ncat = vec![strat(7, 1, "Landing Site", "Gate Jump")];
    let presets = vec![
        preset("Easy", &["a"], &[(7, 1, "Landing Site", "Gate Jump")]),
        preset("Hard", &["b"], &[(7, 1, "Landing Site", "Gate Jump (again)")]),
    ];
    let err = compile(presets, &catalog, &ncat, &vec![], &vec![]).unwrap_err();
    assert_eq!(
        err,
        CompileError::DuplicateNotable(s("Landing Site"), s("Gate Jump (again)"))
    );
}

#[test]
fn unclaimed_notable_is_fatal() {
    let catalog = strs(&["a"]);
    let ncat = vec![
        strat(7, 1, "Landing Site", "Gate Jump"),
        strat(8, 2, "Parlor", "Quick Charge"),
    ];
    let presets = vec![preset("Easy", &["a"], &[(7, 1, "Landing Site", "Gate Jump")])];
    let err = compile(presets, &catalog, &ncat, &vec![], &vec![]).unwrap_err();
    assert_eq!(
        err,
        CompileError::MissingNotables(vec![strat(8, 2, "Parlor", "Quick Charge")])
    );
}

#[test]
fn notable_outside_catalog_is_fatal() {
    let catalog = strs(&["a"]);
    let ncat = vec![strat(7, 1, "Landing Site", "Gate Jump")];
    let presets = vec![preset(
        "Easy",
        &["a"],
        &[(7, 1, "Landing Site", "Gate Jump"), (99, 5, "Nowhere", "Void Walk")],
    )];
    let err = compile(presets, &catalog, &ncat, &vec![], &vec![]).unwrap_err();
    assert_eq!(err, CompileError::ExtraneousNotables(vec![(99, 5)]));
}

#[test]
fn notable_vectors_are_cumulative_in_catalog_order() {
    let catalog = strs(&["a", "b"]);
    let ncat = vec![
        strat(7, 1, "Landing Site", "Gate Jump"),
        strat(8, 2, "Parlor", "Quick Charge"),
    ];
    let presets = vec![
        preset("Easy", &["a"], &[(8, 2, "Parlor", "Quick Charge")]),
        preset("Hard", &["b"], &[(7, 1, "Landing Site", "Gate Jump")]),
    ];
    let out = compile(presets, &catalog, &ncat, &vec![], &vec![]).unwrap();
    // catalog order is kept; the claiming preset's setting is carried through
    assert_eq!(out[0].notable_setting.len(), 2);
    assert_eq!(out[0].notable_setting[0].0.room_name, s("Landing Site"));
    assert_eq!(out[0].notable_setting[1].0.room_name, s("Parlor"));
    // tier one has only its own claim enabled
    assert_eq!(out[0].notable_setting[0].1, false);
    assert_eq!(out[0].notable_setting[1].1, true);
    // tier two has both
    assert_eq!(out[1].notable_setting[0].1, true);
    assert_eq!(out[1].notable_setting[1].1, true);
}

#[test]
fn flags_never_fall_back_to_false() {
    let catalog = strs(&["a", "b", "c", "d"]);
    let ncat = vec![strat(1, 1, "R1", "N1"), strat(2, 2, "R2", "N2")];
    let presets = vec![
        preset("Basic", &["b"], &[(2, 2, "R2", "N2")]),
        preset("Medium", &["a", "d"], &[]),
        preset("Expert", &["c"], &[(1, 1, "R1", "N1")]),
    ];
    let out = compile(presets, &catalog, &ncat, &vec![], &vec![]).unwrap();
    for w in out.windows(2) {
        for (e1, e2) in w[0].tech_setting.iter().zip(w[1].tech_setting.iter()) {
            assert!(!e1.1 || e2.1);
        }
        for (n1, n2) in w[0].notable_setting.iter().zip(w[1].notable_setting.iter()) {
            assert!(!n1.1 || n2.1);
        }
    }
}

#[test]
fn claims_cover_the_catalogs_exactly() {
    let catalog = strs(&["a", "b", "c", "x", "h"]);
    let implicit = strs(&["x"]);
    let ignored = strs(&["h"]);
    let ncat = vec![strat(1, 1, "R1", "N1"), strat(2, 2, "R2", "N2")];
    let presets = vec![
        preset("Basic", &["b"], &[(2, 2, "R2", "N2")]),
        preset("Expert", &["a", "c"], &[(1, 1, "R1", "N1")]),
    ];
    let out = compile(presets.clone(), &catalog, &ncat, &implicit, &ignored).unwrap();
    assert_eq!(out.len(), 2);
    // the union of the presets' claims is exactly the visible catalog
    let mut claimed: Vec<String> = presets.iter().flat_map(|p| p.tech.clone()).collect();
    claimed.sort();
    let mut visible: Vec<String> = catalog
        .iter()
        .filter(|t| !implicit.contains(t) && !ignored.contains(t))
        .cloned()
        .collect();
    visible.sort();
    assert_eq!(claimed, visible);
}

#[test]
fn compiling_twice_gives_identical_output() {
    let catalog = strs(&["a", "b", "x"]);
    let implicit = strs(&["x"]);
    let ncat = vec![strat(1, 1, "R1", "N1")];
    let presets1 = vec![
        preset("Basic", &["a"], &[(1, 1, "R1", "N1")]),
        preset("Expert", &["b"], &[]),
    ];
    let presets2 = vec![
        preset("Basic", &["a"], &[(1, 1, "R1", "N1")]),
        preset("Expert", &["b"], &[]),
    ];
    let out1 = compile(presets1, &catalog, &ncat, &implicit, &vec![]).unwrap();
    let out2 = compile(presets2, &catalog, &ncat, &implicit, &vec![]).unwrap();
    assert_eq!(out1, out2);
}

#[test]
fn empty_visible_catalog_compiles_with_empty_vectors() {
    let catalog = strs(&["x"]);
    let implicit = strs(&["x"]);
    let presets = vec![preset("Easy", &[], &[])];
    let out = compile(presets, &catalog, &vec![], &implicit, &vec![]).unwrap();
    assert_eq!(out.len(), 1);
    assert_eq!(tech_flags(&out[0]), vec![(s("x"), true)]);
    assert_eq!(out[0].notable_setting.len(), 0);
}

#[test]
fn duplicate_within_one_preset_is_fatal() {
    let catalog = strs(&["a", "b"]);
    let presets = vec![preset("Easy", &["a", "a", "b"], &[])];
    let err = compile(presets, &catalog, &vec![], &vec![], &vec![]).unwrap_err();
    assert_eq!(err, CompileError::DuplicateTech(s("a")));
}

#[test]
fn missing_tech_lists_every_gap_in_catalog_order() {
    let catalog = strs(&["a", "b", "c", "d"]);
    let presets = vec![preset("Easy", &["b"], &[])];
    let err = compile(presets, &catalog, &vec![], &vec![], &vec![]).unwrap_err();
    assert_eq!(err, CompileError::MissingTech(strs(&["a", "c", "d"])));
}

#[test]
fn ignored_set_is_validated_before_the_implicit_set() {
    let catalog = strs(&["a"]);
    let presets = vec![preset("Easy", &["a"], &[])];
    let err = compile(
        presets,
        &catalog,
        &vec![],
        &strs(&["phantom"]),
        &strs(&["ghost"]),
    )
    .unwrap_err();
    assert_eq!(err, CompileError::UnrecognizedIgnoredTech(s("ghost")));
}

#[test]
fn duplicate_notables_are_found_before_tech_claims_are_checked() {
    let catalog = strs(&["a"]);
    let ncat = vec![strat(7, 1, "Landing Site", "Gate Jump")];
    let presets = vec![
        preset("Easy", &["a", "a"], &[(7, 1, "Landing Site", "Gate Jump")]),
        preset("Hard", &[], &[(7, 1, "Landing Site", "Gate Jump")]),
    ];
    let err = compile(presets, &catalog, &ncat, &vec![], &vec![]).unwrap_err();
    assert_eq!(
        err,
        CompileError::DuplicateNotable(s("Landing Site"), s("Gate Jump"))
    );
}

#[test]
fn missing_tech_is_reported_before_missing_notables() {
    let catalog = strs(&["a", "b"]);
    let ncat = vec![strat(7, 1, "Landing Site", "Gate Jump")];
    let presets = vec![preset("Easy", &["a"], &[])];
    let err = compile(presets, &catalog, &ncat, &vec![], &vec![]).unwrap_err();
    assert_eq!(err, CompileError::MissingTech(strs(&["b"])));
}

#[test]
fn missing_notables_are_reported_before_extraneous_ones() {
    let catalog = strs(&["a"]);
    let ncat = vec![strat(7, 1, "Landing Site", "Gate Jump")];
    let presets = vec![preset("Easy", &["a"], &[(99, 5, "Nowhere", "Void Walk")])];
    let err = compile(presets, &catalog, &ncat, &vec![], &vec![]).unwrap_err();
    assert_eq!(
        err,
        CompileError::MissingNotables(vec![strat(7, 1, "Landing Site", "Gate Jump")])
    );
}

#[test]
fn builtin_lists_have_expected_contents() {
    let implicit = preset_compiler::get_implicit_tech();
    assert_eq!(implicit.len(), 8);
    assert_eq!(implicit[0], s("canSpecialBeamAttack"));
    assert_eq!(implicit[7], s("canTrivialUseFrozenEnemies"));
    let ignored = preset_compiler::get_ignored_tech();
    assert_eq!(ignored.len(), 5);
    assert_eq!(ignored[0], s("canSpikeSuit"));
    assert_eq!(ignored[4], s("canEscapeMorphLocation"));
}

#[test]
fn builtin_lists_compile_against_a_matching_catalog() {
    let implicit = preset_compiler::get_implicit_tech();
    let ignored = preset_compiler::get_ignored_tech();
    let mut catalog: Vec<String> = implicit.clone();
    catalog.extend(ignored.clone());
    catalog.push(s("canWalljump"));
    let presets = vec![preset("Expert", &["canWalljump"], &[])];
    let out = compile(presets, &catalog, &vec![], &implicit, &ignored).unwrap();
    assert_eq!(out[0].tech_setting.len(), 9);
    assert!(out[0].tech_setting.iter().all(|e| e.1));
    assert!(out[0].tech_setting.iter().all(|e| !ignored.contains(&e.0)));
}
