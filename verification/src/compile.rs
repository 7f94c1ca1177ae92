//! The preset settings compiler: validates the configuration against the two
//! catalogs and produces the cumulative per-preset settings vectors.
use vstd::prelude::*;
use vstd::pervasive::unreached;
use crate::conds::{
    compiled_entry_ok, compiled_ok, distinct_strs, ext_row, ext_rows, has_key,
    has_str, ign_err_at, ignored_ok, lemma_ext_rows_iff, lemma_missing_notes_iff,
    lemma_missing_tech_iff, lemma_unique_claim, note_claimed_before, notable_setting_ok,
    tech_claimed_before, tech_setting_ok,
    imp_clash_err, imp_missing_err, implicit_entry_ok, implicit_ok, inputs_wf, lex_before,
    missing_notes_upto, missing_tech_upto, nkey, no_extraneous, note_at, note_claimed,
    note_dup_at, note_dup_err, note_pos, notes_covered, notes_unique, notes_unique_before,
    skey, tech_all_ok, tech_at, tech_claimed, tech_covered, tech_dup_at, tech_dup_err,
    tech_ok_at, tech_ok_before, tech_pos, tech_unrec_err, valid_config, visible_idx,
    visible_name, visible_of, visible_upto,
};
use crate::model::{
    compiled_views, preset_views, str_views, strategy_views, CompiledPreset, CompiledPresetV,
    NotableSetting, NotableStrategy, Preset, PresetV,
};
use crate::sets::{idx_set_view, key_map_view, key_set_view, IdxSet, KeyMap, KeySet};
use crate::util::{
    clone_preset, clone_setting, clone_strategy, clone_string, clone_strings, contains_note,
    contains_str, find_str,
};

verus! {

/// A configuration-consistency violation. Every violation is fatal: the
/// compiler returns the first one it finds and produces no partial result.
#[derive(Debug, Clone, PartialEq, Eq)]
pub enum CompileError {
    /// An ignored capability identifier is absent from the catalog.
    UnrecognizedIgnoredTech(String),
    /// An implicit capability identifier is absent from the catalog.
    UnrecognizedImplicitTech(String),
    /// A capability identifier is both implicit and ignored.
    ImplicitAndIgnoredTech(String),
    /// A notable strategy (room name, strategy name) is claimed by more than
    /// one preset.
    DuplicateNotable(String, String),
    /// A capability identifier is claimed twice, or claimed although it is
    /// implicit.
    DuplicateTech(String),
    /// A capability identifier claimed by the named preset is not a visible
    /// catalog entry.
    UnrecognizedTech(String, String),
    /// The listed visible catalog capabilities are claimed by no preset.
    MissingTech(Vec<String>),
    /// The listed catalog notable strategies are claimed by no preset.
    MissingNotables(Vec<NotableStrategy>),
    /// The listed notable keys are claimed by presets but absent from the
    /// catalog.
    ExtraneousNotables(Vec<(u64, u64)>),
}

/// What each returned violation says of the inputs: the variant matches the
/// first violation in validation order, and the reported identifiers are
/// exactly the offending ones.
pub open spec fn err_ok(
    cat: Seq<Seq<char>>,
    ncat: Seq<crate::model::NotableStrategyV>,
    ps: Seq<PresetV>,
    imp: Seq<Seq<char>>,
    ign: Seq<Seq<char>>,
    e: CompileError,
) -> bool {
    match e {
        CompileError::UnrecognizedIgnoredTech(t) => ign_err_at(cat, ign, t@),
        CompileError::UnrecognizedImplicitTech(t) => ignored_ok(cat, ign) && imp_missing_err(
            cat,
            ign,
            imp,
            t@,
        ),
        CompileError::ImplicitAndIgnoredTech(t) => ignored_ok(cat, ign) && imp_clash_err(
            cat,
            ign,
            imp,
            t@,
        ),
        CompileError::DuplicateNotable(room_name, name) => ignored_ok(cat, ign) && implicit_ok(
            cat,
            ign,
            imp,
        ) && note_dup_err(ps, room_name@, name@),
        CompileError::DuplicateTech(t) => ignored_ok(cat, ign) && implicit_ok(cat, ign, imp)
            && notes_unique(ps) && tech_dup_err(cat, ign, imp, ps, t@),
        CompileError::UnrecognizedTech(t, pname) => ignored_ok(cat, ign) && implicit_ok(
            cat,
            ign,
            imp,
        ) && notes_unique(ps) && tech_unrec_err(cat, ign, imp, ps, t@, pname@),
        CompileError::MissingTech(list) => ignored_ok(cat, ign) && implicit_ok(cat, ign, imp)
            && notes_unique(ps) && tech_all_ok(cat, ign, imp, ps)
            && str_views(list@) == missing_tech_upto(cat, ign, imp, ps, cat.len() as int)
            && list@.len() > 0,
        CompileError::MissingNotables(list) => ignored_ok(cat, ign) && implicit_ok(cat, ign, imp)
            && notes_unique(ps) && tech_all_ok(cat, ign, imp, ps) && tech_covered(cat, ign, imp, ps)
            && strategy_views(list@) == missing_notes_upto(ncat, ps, ncat.len() as int)
            && list@.len() > 0,
        CompileError::ExtraneousNotables(keys) => ignored_ok(cat, ign) && implicit_ok(cat, ign, imp)
            && notes_unique(ps) && tech_all_ok(cat, ign, imp, ps) && tech_covered(cat, ign, imp, ps)
            && notes_covered(ncat, ps)
            && keys@ == ext_rows(ncat, ps, ps.len() as int)
            && keys@.len() > 0,
    }
}

/// Checks that every ignored identifier is in the catalog, in order, and
/// reports the first one that is not.
fn check_ignored(cat: &Vec<String>, ignored: &Vec<String>) -> (r: Result<(), CompileError>)
    ensures
        r is Ok ==> ignored_ok(str_views(cat@), str_views(ignored@)),
        r is Err ==> !ignored_ok(str_views(cat@), str_views(ignored@)),
        r matches Err(e) ==> (e matches CompileError::UnrecognizedIgnoredTech(t)
            && ign_err_at(str_views(cat@), str_views(ignored@), t@)),
{
    let ghost catv = str_views(cat@);
    let ghost ignv = str_views(ignored@);
    let mut i: usize = 0;
    while i < ignored.len()
        invariant
            i <= ignored@.len(),
            catv == str_views(cat@),
            ignv == str_views(ignored@),
            forall|j: int| 0 <= j < i ==> has_str(catv, #[trigger] ignv[j]),
        decreases ignored@.len() - i,
    {
        if !contains_str(cat, &ignored[i]) {
            let t = clone_string(&ignored[i]);
            proof {
                assert(ignv[i as int] == t@);
                assert(ign_err_at(catv, ignv, t@));
            }
            return Err(CompileError::UnrecognizedIgnoredTech(t));
        }
        i = i + 1;
    }
    Ok(())
}

/// Checks every implicit identifier against the catalog and the ignored set,
/// in order; on success returns the catalog index of each implicit entry.
fn check_implicit(cat: &Vec<String>, ignored: &Vec<String>, implicit: &Vec<String>) -> (r: Result<
    Vec<usize>,
    CompileError,
>)
    ensures
        r matches Ok(v) ==> {
            &&& implicit_ok(str_views(cat@), str_views(ignored@), str_views(implicit@))
            &&& v@.len() == implicit@.len()
            &&& forall|j: int| 0 <= j < v@.len() ==> (v@[j] as int) < cat@.len()
                && str_views(cat@)[#[trigger] v@[j] as int] == str_views(implicit@)[j]
        },
        r is Err ==> !implicit_ok(str_views(cat@), str_views(ignored@), str_views(implicit@)),
        r matches Err(e) ==> ((e matches CompileError::UnrecognizedImplicitTech(t)
            && imp_missing_err(str_views(cat@), str_views(ignored@), str_views(implicit@), t@))
            || (e matches CompileError::ImplicitAndIgnoredTech(t)
            && imp_clash_err(str_views(cat@), str_views(ignored@), str_views(implicit@), t@))),
{
    let ghost catv = str_views(cat@);
    let ghost ignv = str_views(ignored@);
    let ghost impv = str_views(implicit@);
    let mut idxs: Vec<usize> = Vec::new();
    let mut i: usize = 0;
    while i < implicit.len()
        invariant
            i <= implicit@.len(),
            catv == str_views(cat@),
            ignv == str_views(ignored@),
            impv == str_views(implicit@),
            idxs@.len() == i,
            forall|j: int| 0 <= j < i ==> #[trigger] implicit_entry_ok(catv, ignv, impv, j),
            forall|j: int| 0 <= j < i ==> (idxs@[j] as int) < cat@.len()
                && catv[#[trigger] idxs@[j] as int] == impv[j],
        decreases implicit@.len() - i,
    {
        let found = find_str(cat, &implicit[i]);
        match found {
            None => {
                let t = clone_string(&implicit[i]);
                proof {
                    assert(impv[i as int] == t@);
                    assert(forall|j: int| 0 <= j < catv.len() ==> catv[j] != t@);
                    assert(!has_str(catv, impv[i as int]));
                    assert(imp_missing_err(catv, ignv, impv, t@));
                    assert(!implicit_entry_ok(catv, ignv, impv, i as int));
                }
                return Err(CompileError::UnrecognizedImplicitTech(t));
            },
            Some(ix) => {
                if contains_str(ignored, &implicit[i]) {
                    let t = clone_string(&implicit[i]);
                    proof {
                        assert(impv[i as int] == t@);
                        assert(catv[ix as int] == impv[i as int]);
                        assert(has_str(catv, impv[i as int]));
                        assert(imp_clash_err(catv, ignv, impv, t@));
                        assert(!implicit_entry_ok(catv, ignv, impv, i as int));
                    }
                    return Err(CompileError::ImplicitAndIgnoredTech(t));
                }
                proof {
                    assert(catv[ix as int] == impv[i as int]);
                    assert(has_str(catv, impv[i as int]));
                    assert(implicit_entry_ok(catv, ignv, impv, i as int));
                }
                idxs.push(ix);
            },
        }
        i = i + 1;
    }
    Ok(idxs)
}

/// Builds the set of visible catalog indices: catalog entries that are
/// neither ignored nor implicit.
fn build_visible(cat: &Vec<String>, ignored: &Vec<String>, implicit: &Vec<String>) -> (vset: IdxSet)
    ensures
        forall|x: int| idx_set_view(vset).contains(x) <==> (0 <= x < cat@.len()
            && visible_idx(str_views(cat@), str_views(ignored@), str_views(implicit@), x)),
{
    let ghost catv = str_views(cat@);
    let ghost ignv = str_views(ignored@);
    let ghost impv = str_views(implicit@);
    let mut vset = IdxSet::new();
    let mut c: usize = 0;
    while c < cat.len()
        invariant
            c <= cat@.len(),
            catv == str_views(cat@),
            ignv == str_views(ignored@),
            impv == str_views(implicit@),
            forall|x: int| idx_set_view(vset).contains(x) <==> (0 <= x < c
                && visible_idx(catv, ignv, impv, x)),
        decreases cat@.len() - c,
    {
        let ig = contains_str(ignored, &cat[c]);
        let im = contains_str(implicit, &cat[c]);
        if !ig && !im {
            proof {
                assert(catv[c as int] == cat@[c as int]@);
            }
            vset.insert(c);
        }
        c = c + 1;
    }
    vset
}

/// Scans every preset's notable claims in order, recording for each claimed
/// key its (unique) claiming position; fails on the first key claimed twice.
/// Also collects, in scan order, the claimed keys absent from the catalog.
fn build_claims(presets: &Vec<Preset>, ncat: &Vec<NotableStrategy>) -> (r: Result<
    (KeyMap, Vec<(u64, u64)>),
    CompileError,
>)
    ensures
        r matches Ok(pair) ==> {
            &&& notes_unique(preset_views(presets@))
            &&& (forall|key: (u64, u64)| key_map_view(pair.0).dom().contains(key)
                <==> note_claimed(preset_views(presets@), presets@.len() as int, key))
            &&& (forall|key: (u64, u64)| #[trigger] key_map_view(pair.0).dom().contains(key)
                ==> note_pos(
                    preset_views(presets@),
                    key_map_view(pair.0)[key].0 as int,
                    key_map_view(pair.0)[key].1 as int,
                ) && nkey(note_at(
                    preset_views(presets@),
                    key_map_view(pair.0)[key].0 as int,
                    key_map_view(pair.0)[key].1 as int,
                )) == key)
            &&& pair.1@ == ext_rows(strategy_views(ncat@), preset_views(presets@), presets@.len() as int)
        },
        r is Err ==> !notes_unique(preset_views(presets@)),
        r matches Err(e) ==> (e matches CompileError::DuplicateNotable(rn, nn)
            && note_dup_err(preset_views(presets@), rn@, nn@)),
{
    let ghost psv = preset_views(presets@);
    let ghost ncatv = strategy_views(ncat@);
    let mut cm = KeyMap::new();
    let mut ext: Vec<(u64, u64)> = Vec::new();
    let mut k: usize = 0;
    while k < presets.len()
        invariant
            k <= presets@.len(),
            psv == preset_views(presets@),
            ncatv == strategy_views(ncat@),
            forall|key: (u64, u64)| key_map_view(cm).dom().contains(key) <==> note_claimed_before(
                psv,
                k as int,
                0,
                key,
            ),
            forall|key: (u64, u64)| #[trigger] key_map_view(cm).dom().contains(key) ==> note_pos(
                psv,
                key_map_view(cm)[key].0 as int,
                key_map_view(cm)[key].1 as int,
            ) && lex_before(
                key_map_view(cm)[key].0 as int,
                key_map_view(cm)[key].1 as int,
                k as int,
                0,
            ) && nkey(note_at(
                psv,
                key_map_view(cm)[key].0 as int,
                key_map_view(cm)[key].1 as int,
            )) == key,
            notes_unique_before(psv, k as int, 0),
            ext@ == ext_rows(ncatv, psv, k as int),
        decreases presets@.len() - k,
    {
        let p = &presets[k];
        proof {
            assert(psv[k as int] == presets@[k as int]@);
        }
        let mut s: usize = 0;
        while s < p.notables.len()
            invariant
                k < presets@.len(),
                s <= p.notables@.len(),
                psv == preset_views(presets@),
                ncatv == strategy_views(ncat@),
                p == &presets@[k as int],
                psv[k as int].notables.len() == p.notables@.len(),
                forall|key: (u64, u64)| key_map_view(cm).dom().contains(key)
                    <==> note_claimed_before(psv, k as int, s as int, key),
                forall|key: (u64, u64)| #[trigger] key_map_view(cm).dom().contains(key)
                    ==> note_pos(
                        psv,
                        key_map_view(cm)[key].0 as int,
                        key_map_view(cm)[key].1 as int,
                    ) && lex_before(
                        key_map_view(cm)[key].0 as int,
                        key_map_view(cm)[key].1 as int,
                        k as int,
                        s as int,
                    ) && nkey(note_at(
                        psv,
                        key_map_view(cm)[key].0 as int,
                        key_map_view(cm)[key].1 as int,
                    )) == key,
                notes_unique_before(psv, k as int, s as int),
                ext@ == ext_rows(ncatv, psv, k as int) + ext_row(ncatv, psv[k as int], s as int),
            decreases p.notables@.len() - s,
        {
            let rid = p.notables[s].room_id;
            let nid = p.notables[s].notable_id;
            proof {
                assert(psv[k as int].notables[s as int] == p.notables@[s as int]@);
                assert(nkey(note_at(psv, k as int, s as int)) == (rid, nid));
            }
            let got = cm.get((rid, nid));
            match got {
                Some(_) => {
                    let rn = clone_string(&p.notables[s].room_name);
                    let nn = clone_string(&p.notables[s].name);
                    proof {
                        assert(note_dup_at(psv, k as int, s as int));
                        assert(note_pos(psv, k as int, s as int));
                        assert(note_at(psv, k as int, s as int).room_name == rn@);
                        assert(note_at(psv, k as int, s as int).name == nn@);
                        assert(note_dup_err(psv, rn@, nn@));
                        assert(!notes_unique(psv));
                    }
                    return Err(CompileError::DuplicateNotable(rn, nn));
                },
                None => {},
            }
            cm.insert((rid, nid), (k, s));
            let inc = contains_note(ncat, rid, nid);
            if !inc {
                ext.push((rid, nid));
            }
            proof {
                assert forall|key: (u64, u64)| key_map_view(cm).dom().contains(key)
                    <==> note_claimed_before(psv, k as int, s + 1, key) by {
                    if note_claimed_before(psv, k as int, s + 1, key) {
                        let (a, b) = choose|a: int, b: int|
                            note_pos(psv, a, b) && lex_before(a, b, k as int, s + 1) && nkey(
                                note_at(psv, a, b),
                            ) == key;
                        if lex_before(a, b, k as int, s as int) {
                            assert(note_claimed_before(psv, k as int, s as int, key));
                        } else {
                            assert(a == k as int && b == s as int);
                        }
                    }
                }
                assert(notes_unique_before(psv, k as int, s + 1));
                assert(ext@ =~= ext_rows(ncatv, psv, k as int) + ext_row(
                    ncatv,
                    psv[k as int],
                    s + 1,
                ));
            }
            s = s + 1;
        }
        proof {
            assert forall|key: (u64, u64)|
                note_claimed_before(psv, k as int, p.notables@.len() as int, key)
                    <==> note_claimed_before(psv, k + 1, 0, key) by {}
            assert forall|a: int, b: int|
                note_pos(psv, a, b) && lex_before(a, b, k as int, p.notables@.len() as int)
                    <==> note_pos(psv, a, b) && lex_before(a, b, k + 1, 0) by {}
            assert(notes_unique_before(psv, k + 1, 0));
            assert(ext_row(ncatv, psv[k as int], psv[k as int].notables.len() as int) == ext_row(
                ncatv,
                psv[k as int],
                p.notables@.len() as int,
            ));
            assert(ext@ =~= ext_rows(ncatv, psv, k + 1));
        }
        k = k + 1;
    }
    proof {
        assert forall|key: (u64, u64)| note_claimed_before(psv, psv.len() as int, 0, key)
            <==> note_claimed(psv, psv.len() as int, key) by {}
        assert(notes_unique(psv)) by {
            assert forall|a: int, b: int| note_pos(psv, a, b) implies !note_dup_at(psv, a, b) by {
                assert(lex_before(a, b, psv.len() as int, 0));
            }
        }
    }
    Ok((cm, ext))
}

/// Scans every preset's capability claims in order against the running
/// cumulative set seeded with the implicit entries; fails on the first claim
/// already unlocked (duplicate) or outside the visible catalog. On success
/// returns each claim's catalog index and the final cumulative set.
fn check_tech(
    presets: &Vec<Preset>,
    cat: &Vec<String>,
    vset: &IdxSet,
    imp_idx: &Vec<usize>,
    Ghost(ignv): Ghost<Seq<Seq<char>>>,
    Ghost(impv): Ghost<Seq<Seq<char>>>,
) -> (r: Result<(Vec<Vec<usize>>, IdxSet), CompileError>)
    requires
        distinct_strs(str_views(cat@)),
        forall|x: int| idx_set_view(*vset).contains(x) <==> (0 <= x < cat@.len() && visible_idx(
            str_views(cat@),
            ignv,
            impv,
            x,
        )),
        imp_idx@.len() == impv.len(),
        forall|j: int| 0 <= j < imp_idx@.len() ==> (imp_idx@[j] as int) < cat@.len()
            && str_views(cat@)[#[trigger] imp_idx@[j] as int] == impv[j],
    ensures
        r matches Ok(pair) ==> {
            &&& tech_all_ok(str_views(cat@), ignv, impv, preset_views(presets@))
            &&& pair.0@.len() == presets@.len()
            &&& (forall|k: int| 0 <= k < presets@.len() ==> (#[trigger] pair.0@[k])@.len()
                == preset_views(presets@)[k].tech.len())
            &&& (forall|k: int, j: int| tech_pos(preset_views(presets@), k, j)
                ==> ((#[trigger] pair.0@[k]@[j]) as int) < cat@.len()
                && str_views(cat@)[pair.0@[k]@[j] as int] == tech_at(preset_views(presets@), k, j))
            &&& (forall|x: int| idx_set_view(pair.1).contains(x) <==> (0 <= x < cat@.len()
                && (has_str(impv, str_views(cat@)[x]) || tech_claimed(
                    preset_views(presets@),
                    presets@.len() as int,
                    str_views(cat@)[x],
                ))))
        },
        r is Err ==> !tech_all_ok(str_views(cat@), ignv, impv, preset_views(presets@)),
        r matches Err(e) ==> ((e matches CompileError::DuplicateTech(t) && tech_dup_err(
            str_views(cat@),
            ignv,
            impv,
            preset_views(presets@),
            t@,
        )) || (e matches CompileError::UnrecognizedTech(t, pn) && tech_unrec_err(
            str_views(cat@),
            ignv,
            impv,
            preset_views(presets@),
            t@,
            pn@,
        ))),
{
    let ghost psv = preset_views(presets@);
    let ghost catv = str_views(cat@);
    let mut cum = implicit_set(cat, imp_idx, Ghost(impv));
    let mut ti: Vec<Vec<usize>> = Vec::new();
    let mut k: usize = 0;
    while k < presets.len()
        invariant
            k <= presets@.len(),
            psv == preset_views(presets@),
            catv == str_views(cat@),
            distinct_strs(catv),
            forall|x: int| idx_set_view(*vset).contains(x) <==> (0 <= x < catv.len()
                && visible_idx(catv, ignv, impv, x)),
            imp_idx@.len() == impv.len(),
            forall|j: int| 0 <= j < imp_idx@.len() ==> (imp_idx@[j] as int) < catv.len()
                && catv[#[trigger] imp_idx@[j] as int] == impv[j],
            forall|x: int| idx_set_view(cum).contains(x) <==> (0 <= x < catv.len() && (has_str(
                impv,
                catv[x],
            ) || tech_claimed_before(psv, k as int, 0, catv[x]))),
            tech_ok_before(catv, ignv, impv, psv, k as int, 0),
            ti@.len() == k,
            forall|a: int| 0 <= a < k ==> (#[trigger] ti@[a])@.len() == psv[a].tech.len(),
            forall|a: int, b: int| tech_pos(psv, a, b) && a < k ==> ((#[trigger] ti@[a]@[b]) as int)
                < catv.len() && catv[ti@[a]@[b] as int] == tech_at(psv, a, b),
        decreases presets@.len() - k,
    {
        let p = &presets[k];
        proof {
            assert(psv[k as int] == presets@[k as int]@);
        }
        let mut row: Vec<usize> = Vec::new();
        let mut j: usize = 0;
        while j < p.tech.len()
            invariant
                k < presets@.len(),
                j <= p.tech@.len(),
                psv == preset_views(presets@),
                catv == str_views(cat@),
                distinct_strs(catv),
                p == &presets@[k as int],
                psv[k as int].tech.len() == p.tech@.len(),
                forall|x: int| idx_set_view(*vset).contains(x) <==> (0 <= x < catv.len()
                    && visible_idx(catv, ignv, impv, x)),
                imp_idx@.len() == impv.len(),
                forall|q: int| 0 <= q < imp_idx@.len() ==> (imp_idx@[q] as int) < catv.len()
                    && catv[#[trigger] imp_idx@[q] as int] == impv[q],
                forall|x: int| idx_set_view(cum).contains(x) <==> (0 <= x < catv.len() && (has_str(
                    impv,
                    catv[x],
                ) || tech_claimed_before(psv, k as int, j as int, catv[x]))),
                tech_ok_before(catv, ignv, impv, psv, k as int, j as int),
                row@.len() == j,
                forall|b: int| 0 <= b < j ==> ((#[trigger] row@[b]) as int) < catv.len()
                    && catv[row@[b] as int] == tech_at(psv, k as int, b),
            decreases p.tech@.len() - j,
        {
            let t = &p.tech[j];
            let ghost tv = tech_at(psv, k as int, j as int);
            proof {
                assert(tv == p.tech@[j as int]@);
            }
            let found = find_str(cat, t);
            match found {
                None => {
                    proof {
                        assert(!has_str(catv, tv)) by {
                            if has_str(catv, tv) {
                                let q = choose|q: int| 0 <= q < catv.len() && catv[q] == tv;
                                assert(cat@[q]@ == tv);
                            }
                        }
                        assert(!tech_dup_at(impv, psv, k as int, j as int)) by {
                            if has_str(impv, tv) {
                                let q = choose|q: int| 0 <= q < impv.len() && impv[q] == tv;
                                assert(catv[imp_idx@[q] as int] == tv);
                                assert(has_str(catv, tv));
                            }
                            if tech_claimed_before(psv, k as int, j as int, tv) {
                                let (a, b) = choose|a: int, b: int|
                                    tech_pos(psv, a, b) && lex_before(a, b, k as int, j as int)
                                        && tech_at(psv, a, b) == tv;
                                assert(tech_ok_at(catv, ignv, impv, psv, a, b));
                                assert(has_str(catv, tv));
                            }
                        }
                        assert(!visible_name(catv, ignv, impv, tv));
                        assert(tech_unrec_err(catv, ignv, impv, psv, tv, psv[k as int].name));
                        assert(tech_pos(psv, k as int, j as int));
                        assert(!tech_ok_at(catv, ignv, impv, psv, k as int, j as int));
                        assert(!tech_all_ok(catv, ignv, impv, psv));
                    }
                    let te = clone_string(t);
                    let pn = clone_string(&p.name);
                    return Err(CompileError::UnrecognizedTech(te, pn));
                },
                Some(ix) => {
                    proof {
                        assert(catv[ix as int] == tv);
                        assert(has_str(catv, tv));
                    }
                    if cum.contains(ix) {
                        proof {
                            assert(tech_dup_at(impv, psv, k as int, j as int));
                            assert(tech_dup_err(catv, ignv, impv, psv, tv));
                            assert(tech_pos(psv, k as int, j as int));
                            assert(!tech_ok_at(catv, ignv, impv, psv, k as int, j as int));
                            assert(!tech_all_ok(catv, ignv, impv, psv));
                        }
                        let te = clone_string(t);
                        return Err(CompileError::DuplicateTech(te));
                    }
                    proof {
                        assert(!has_str(impv, catv[ix as int]));
                        assert(!tech_claimed_before(psv, k as int, j as int, catv[ix as int]));
                        assert(!tech_dup_at(impv, psv, k as int, j as int));
                    }
                    if !vset.contains(ix) {
                        proof {
                            assert(!visible_idx(catv, ignv, impv, ix as int));
                            assert(!visible_name(catv, ignv, impv, tv));
                            assert(tech_unrec_err(catv, ignv, impv, psv, tv, psv[k as int].name));
                            assert(tech_pos(psv, k as int, j as int));
                            assert(!tech_ok_at(catv, ignv, impv, psv, k as int, j as int));
                            assert(!tech_all_ok(catv, ignv, impv, psv));
                        }
                        let te = clone_string(t);
                        let pn = clone_string(&p.name);
                        return Err(CompileError::UnrecognizedTech(te, pn));
                    }
                    proof {
                        assert(visible_idx(catv, ignv, impv, ix as int));
                        assert(!has_str(ignv, tv) && !has_str(impv, tv));
                        assert(visible_name(catv, ignv, impv, tv));
                        assert(tech_ok_at(catv, ignv, impv, psv, k as int, j as int));
                    }
                    cum.insert(ix);
                    row.push(ix);
                    proof {
                        assert forall|x: int| idx_set_view(cum).contains(x) <==> (0 <= x
                            < catv.len() && (has_str(impv, catv[x]) || tech_claimed_before(
                            psv,
                            k as int,
                            j + 1,
                            catv[x],
                        ))) by {
                            if 0 <= x < catv.len() && tech_claimed_before(psv, k as int, j + 1, catv[x]) {
                                let (a, b) = choose|a: int, b: int|
                                    tech_pos(psv, a, b) && lex_before(a, b, k as int, j + 1)
                                        && tech_at(psv, a, b) == catv[x];
                                if lex_before(a, b, k as int, j as int) {
                                    assert(tech_claimed_before(psv, k as int, j as int, catv[x]));
                                } else {
                                    assert(a == k as int && b == j as int);
                                    assert(catv[x] == tv);
                                    assert(x == ix as int);
                                }
                            }
                        }
                        assert(tech_ok_before(catv, ignv, impv, psv, k as int, j + 1));
                    }
                    j = j + 1;
                },
            }
        }
        ti.push(row);
        proof {
            assert forall|x: int| 0 <= x < catv.len() implies (tech_claimed_before(
                psv,
                k as int,
                p.tech@.len() as int,
                catv[x],
            ) <==> tech_claimed_before(psv, k + 1, 0, catv[x])) by {}
            assert(tech_ok_before(catv, ignv, impv, psv, k + 1, 0)) by {
                assert forall|a: int, b: int|
                    tech_pos(psv, a, b) && lex_before(a, b, k + 1, 0) implies #[trigger] tech_ok_at(
                    catv,
                    ignv,
                    impv,
                    psv,
                    a,
                    b,
                ) by {
                    assert(lex_before(a, b, k as int, p.tech@.len() as int));
                }
            }
        }
        k = k + 1;
    }
    proof {
        assert(tech_all_ok(catv, ignv, impv, psv)) by {
            assert forall|a: int, b: int| tech_pos(psv, a, b) implies #[trigger] tech_ok_at(
                catv,
                ignv,
                impv,
                psv,
                a,
                b,
            ) by {
                assert(lex_before(a, b, psv.len() as int, 0));
            }
        }
        assert forall|x: int| 0 <= x < catv.len() implies (tech_claimed_before(
            psv,
            psv.len() as int,
            0,
            catv[x],
        ) <==> tech_claimed(psv, psv.len() as int, catv[x])) by {}
    }
    Ok((ti, cum))
}

/// Collects, in catalog order, the visible catalog capabilities that no
/// preset claims, given the final cumulative set.
fn collect_missing_tech(
    cat: &Vec<String>,
    vset: &IdxSet,
    cum: &IdxSet,
    Ghost(ignv): Ghost<Seq<Seq<char>>>,
    Ghost(impv): Ghost<Seq<Seq<char>>>,
    Ghost(psv): Ghost<Seq<PresetV>>,
) -> (m: Vec<String>)
    requires
        forall|x: int| idx_set_view(*vset).contains(x) <==> (0 <= x < cat@.len() && visible_idx(
            str_views(cat@),
            ignv,
            impv,
            x,
        )),
        forall|x: int| idx_set_view(*cum).contains(x) <==> (0 <= x < cat@.len() && (has_str(
            impv,
            str_views(cat@)[x],
        ) || tech_claimed(psv, psv.len() as int, str_views(cat@)[x]))),
    ensures
        str_views(m@) == missing_tech_upto(str_views(cat@), ignv, impv, psv, cat@.len() as int),
{
    let ghost catv = str_views(cat@);
    let mut m: Vec<String> = Vec::new();
    let mut c: usize = 0;
    while c < cat.len()
        invariant
            c <= cat@.len(),
            catv == str_views(cat@),
            forall|x: int| idx_set_view(*vset).contains(x) <==> (0 <= x < cat@.len()
                && visible_idx(catv, ignv, impv, x)),
            forall|x: int| idx_set_view(*cum).contains(x) <==> (0 <= x < cat@.len() && (has_str(
                impv,
                catv[x],
            ) || tech_claimed(psv, psv.len() as int, catv[x]))),
            str_views(m@) == missing_tech_upto(catv, ignv, impv, psv, c as int),
        decreases cat@.len() - c,
    {
        let vis = vset.contains(c);
        let cl = cum.contains(c);
        if vis && !cl {
            let s = clone_string(&cat[c]);
            proof {
                assert(s@ == catv[c as int]);
                assert(str_views(m@.push(s)) =~= str_views(m@).push(catv[c as int]));
            }
            m.push(s);
        }
        c = c + 1;
    }
    m
}

/// Collects, in catalog order, the catalog notables that no preset claims,
/// given the claim map.
fn collect_missing_notes(
    ncat: &Vec<NotableStrategy>,
    cm: &KeyMap,
    Ghost(psv): Ghost<Seq<PresetV>>,
) -> (m: Vec<NotableStrategy>)
    requires
        forall|key: (u64, u64)| key_map_view(*cm).dom().contains(key) <==> note_claimed(
            psv,
            psv.len() as int,
            key,
        ),
    ensures
        strategy_views(m@) == missing_notes_upto(strategy_views(ncat@), psv, ncat@.len() as int),
{
    let ghost ncatv = strategy_views(ncat@);
    let mut m: Vec<NotableStrategy> = Vec::new();
    let mut c: usize = 0;
    while c < ncat.len()
        invariant
            c <= ncat@.len(),
            ncatv == strategy_views(ncat@),
            forall|key: (u64, u64)| key_map_view(*cm).dom().contains(key) <==> note_claimed(
                psv,
                psv.len() as int,
                key,
            ),
            strategy_views(m@) == missing_notes_upto(ncatv, psv, c as int),
        decreases ncat@.len() - c,
    {
        let rid = ncat[c].room_id;
        let nid = ncat[c].notable_id;
        proof {
            assert(skey(ncatv[c as int]) == (rid, nid));
        }
        let got = cm.get((rid, nid));
        match got {
            Some(_) => {},
            None => {
                let e = clone_strategy(&ncat[c]);
                proof {
                    assert(e@ == ncatv[c as int]);
                    assert(strategy_views(m@.push(e)) =~= strategy_views(m@).push(ncatv[c as int]));
                }
                m.push(e);
            },
        }
        c = c + 1;
    }
    m
}

/// The cumulative set seeded with the implicit capabilities' catalog indices.
fn implicit_set(cat: &Vec<String>, imp_idx: &Vec<usize>, Ghost(impv): Ghost<Seq<Seq<char>>>) -> (s: IdxSet)
    requires
        distinct_strs(str_views(cat@)),
        imp_idx@.len() == impv.len(),
        forall|j: int| 0 <= j < imp_idx@.len() ==> (imp_idx@[j] as int) < cat@.len()
            && str_views(cat@)[#[trigger] imp_idx@[j] as int] == impv[j],
    ensures
        forall|x: int| idx_set_view(s).contains(x) <==> (0 <= x < cat@.len() && has_str(
            impv,
            str_views(cat@)[x],
        )),
{
    let ghost catv = str_views(cat@);
    let mut s = IdxSet::new();
    let mut i: usize = 0;
    while i < imp_idx.len()
        invariant
            i <= imp_idx@.len(),
            catv == str_views(cat@),
            distinct_strs(catv),
            imp_idx@.len() == impv.len(),
            forall|j: int| 0 <= j < imp_idx@.len() ==> (imp_idx@[j] as int) < cat@.len()
                && catv[#[trigger] imp_idx@[j] as int] == impv[j],
            forall|x: int| idx_set_view(s).contains(x) <==> exists|j: int|
                0 <= j < i && (#[trigger] imp_idx@[j] as int) == x,
        decreases imp_idx@.len() - i,
    {
        s.insert(imp_idx[i]);
        i = i + 1;
    }
    proof {
        assert forall|x: int| idx_set_view(s).contains(x) <==> (0 <= x < catv.len() && has_str(
            impv,
            catv[x],
        )) by {
            if idx_set_view(s).contains(x) {
                let j = choose|j: int| 0 <= j < imp_idx@.len() && (#[trigger] imp_idx@[j] as int) == x;
                assert(catv[x] == impv[j]);
                assert(has_str(impv, catv[x]));
            }
            if 0 <= x < catv.len() && has_str(impv, catv[x]) {
                let j = choose|j: int| 0 <= j < impv.len() && impv[j] == catv[x];
                assert(catv[imp_idx@[j] as int] == impv[j]);
                assert((imp_idx@[j] as int) == x);
            }
        }
    }
    s
}

/// Builds the compiled records for a configuration that passed every check:
/// one record per preset, with cumulative capability and notable vectors.
fn emit(
    presets: &Vec<Preset>,
    cat: &Vec<String>,
    ncat: &Vec<NotableStrategy>,
    implicit: &Vec<String>,
    imp_idx: &Vec<usize>,
    vset: &IdxSet,
    ti: &Vec<Vec<usize>>,
    cm: &KeyMap,
    Ghost(ignv): Ghost<Seq<Seq<char>>>,
) -> (out: Vec<CompiledPreset>)
    requires
        distinct_strs(str_views(cat@)),
        forall|x: int| idx_set_view(*vset).contains(x) <==> (0 <= x < cat@.len() && visible_idx(
            str_views(cat@),
            ignv,
            str_views(implicit@),
            x,
        )),
        imp_idx@.len() == implicit@.len(),
        forall|j: int| 0 <= j < imp_idx@.len() ==> (imp_idx@[j] as int) < cat@.len()
            && str_views(cat@)[#[trigger] imp_idx@[j] as int] == str_views(implicit@)[j],
        ti@.len() == presets@.len(),
        forall|k: int| 0 <= k < presets@.len() ==> (#[trigger] ti@[k])@.len()
            == preset_views(presets@)[k].tech.len(),
        forall|k: int, j: int| tech_pos(preset_views(presets@), k, j)
            ==> ((#[trigger] ti@[k]@[j]) as int) < cat@.len()
            && str_views(cat@)[ti@[k]@[j] as int] == tech_at(preset_views(presets@), k, j),
        forall|key: (u64, u64)| key_map_view(*cm).dom().contains(key) <==> note_claimed(
            preset_views(presets@),
            presets@.len() as int,
            key,
        ),
        forall|key: (u64, u64)| #[trigger] key_map_view(*cm).dom().contains(key) ==> note_pos(
            preset_views(presets@),
            key_map_view(*cm)[key].0 as int,
            key_map_view(*cm)[key].1 as int,
        ) && nkey(note_at(
            preset_views(presets@),
            key_map_view(*cm)[key].0 as int,
            key_map_view(*cm)[key].1 as int,
        )) == key,
        notes_unique(preset_views(presets@)),
        notes_covered(strategy_views(ncat@), preset_views(presets@)),
    ensures
        compiled_ok(
            str_views(cat@),
            strategy_views(ncat@),
            preset_views(presets@),
            str_views(implicit@),
            ignv,
            compiled_views(out@),
        ),
{
    let ghost psv = preset_views(presets@);
    let ghost catv = str_views(cat@);
    let ghost ncatv = strategy_views(ncat@);
    let ghost impv = str_views(implicit@);
    let mut out: Vec<CompiledPreset> = Vec::new();
    let mut cum = implicit_set(cat, imp_idx, Ghost(impv));
    let mut cums = KeySet::new();
    let mut i: usize = 0;
    while i < presets.len()
        invariant
            i <= presets@.len(),
            psv == preset_views(presets@),
            catv == str_views(cat@),
            ncatv == strategy_views(ncat@),
            impv == str_views(implicit@),
            distinct_strs(catv),
            forall|x: int| idx_set_view(*vset).contains(x) <==> (0 <= x < catv.len()
                && visible_idx(catv, ignv, impv, x)),
            ti@.len() == presets@.len(),
            forall|k: int| 0 <= k < presets@.len() ==> (#[trigger] ti@[k])@.len()
                == psv[k].tech.len(),
            forall|k: int, j: int| tech_pos(psv, k, j) ==> ((#[trigger] ti@[k]@[j]) as int)
                < catv.len() && catv[ti@[k]@[j] as int] == tech_at(psv, k, j),
            forall|key: (u64, u64)| key_map_view(*cm).dom().contains(key) <==> note_claimed(
                psv,
                psv.len() as int,
                key,
            ),
            forall|key: (u64, u64)| #[trigger] key_map_view(*cm).dom().contains(key) ==> note_pos(
                psv,
                key_map_view(*cm)[key].0 as int,
                key_map_view(*cm)[key].1 as int,
            ) && nkey(note_at(
                psv,
                key_map_view(*cm)[key].0 as int,
                key_map_view(*cm)[key].1 as int,
            )) == key,
            notes_unique(psv),
            notes_covered(ncatv, psv),
            forall|x: int| idx_set_view(cum).contains(x) <==> (0 <= x < catv.len() && (has_str(
                impv,
                catv[x],
            ) || tech_claimed(psv, i as int, catv[x]))),
            forall|key: (u64, u64)| key_set_view(cums).contains(key) <==> note_claimed(
                psv,
                i as int,
                key,
            ),
            out@.len() == i,
            forall|a: int| 0 <= a < i ==> compiled_entry_ok(
                catv,
                ncatv,
                psv,
                impv,
                ignv,
                a,
                #[trigger] compiled_views(out@)[a],
            ),
        decreases presets@.len() - i,
    {
        let p = &presets[i];
        proof {
            assert(psv[i as int] == presets@[i as int]@);
        }
        // unlock this preset's capabilities
        let row = &ti[i];
        let mut j: usize = 0;
        while j < row.len()
            invariant
                i < presets@.len(),
                j <= row@.len(),
                psv == preset_views(presets@),
                catv == str_views(cat@),
                impv == str_views(implicit@),
                distinct_strs(catv),
                row == &ti@[i as int],
                row@.len() == psv[i as int].tech.len(),
                forall|b: int| 0 <= b < row@.len() ==> ((#[trigger] row@[b]) as int) < catv.len()
                    && catv[row@[b] as int] == tech_at(psv, i as int, b),
                forall|x: int| idx_set_view(cum).contains(x) <==> (0 <= x < catv.len() && (has_str(
                    impv,
                    catv[x],
                ) || tech_claimed(psv, i as int, catv[x]) || (exists|b: int|
                    0 <= b < j && tech_at(psv, i as int, b) == catv[x]))),
            decreases row@.len() - j,
        {
            cum.insert(row[j]);
            proof {
                assert forall|x: int| idx_set_view(cum).contains(x) <==> (0 <= x < catv.len() && (
                has_str(impv, catv[x]) || tech_claimed(psv, i as int, catv[x]) || (exists|b: int|
                    0 <= b < j + 1 && tech_at(psv, i as int, b) == catv[x]))) by {
                    if 0 <= x < catv.len() && (exists|b: int|
                        0 <= b < j + 1 && tech_at(psv, i as int, b) == catv[x]) {
                        let b = choose|b: int| 0 <= b < j + 1 && tech_at(psv, i as int, b) == catv[x];
                        if b < j {
                        } else {
                            assert(catv[row@[j as int] as int] == catv[x]);
                            assert((row@[j as int] as int) == x);
                        }
                    }
                }
            }
            j = j + 1;
        }
        proof {
            assert forall|x: int| idx_set_view(cum).contains(x) <==> (0 <= x < catv.len() && (
            has_str(impv, catv[x]) || tech_claimed(psv, i + 1, catv[x]))) by {
                if 0 <= x < catv.len() && tech_claimed(psv, i + 1, catv[x]) {
                    let (a, b) = choose|a: int, b: int|
                        0 <= a < i + 1 && 0 <= b < psv[a].tech.len() && #[trigger] tech_at(
                            psv,
                            a,
                            b,
                        ) == catv[x];
                    if a < i {
                        assert(tech_claimed(psv, i as int, catv[x]));
                    }
                }
            }
        }
        // the capability vector: implicit entries, then the visible catalog
        let mut ts: Vec<(String, bool)> = Vec::new();
        let mut q: usize = 0;
        while q < implicit.len()
            invariant
                q <= implicit@.len(),
                impv == str_views(implicit@),
                ts@.len() == q,
                forall|b: int| 0 <= b < q ==> (#[trigger] ts@[b]).0@ == impv[b] && ts@[b].1,
            decreases implicit@.len() - q,
        {
            ts.push((clone_string(&implicit[q]), true));
            q = q + 1;
        }
        let mut c: usize = 0;
        while c < cat.len()
            invariant
                c <= cat@.len(),
                i < presets@.len(),
                psv == preset_views(presets@),
                catv == str_views(cat@),
                impv == str_views(implicit@),
                forall|x: int| idx_set_view(*vset).contains(x) <==> (0 <= x < catv.len()
                    && visible_idx(catv, ignv, impv, x)),
                forall|x: int| idx_set_view(cum).contains(x) <==> (0 <= x < catv.len() && (has_str(
                    impv,
                    catv[x],
                ) || tech_claimed(psv, i + 1, catv[x]))),
                ts@.len() == impv.len() + visible_upto(catv, ignv, impv, c as int).len(),
                forall|b: int| 0 <= b < impv.len() ==> (#[trigger] ts@[b]).0@ == impv[b] && ts@[b].1,
                forall|q2: int| 0 <= q2 < visible_upto(catv, ignv, impv, c as int).len()
                    ==> (#[trigger] ts@[impv.len() + q2]).0@ == catv[visible_upto(
                        catv,
                        ignv,
                        impv,
                        c as int,
                    )[q2]] && ts@[impv.len() + q2].1 == tech_claimed(
                        psv,
                        i + 1,
                        catv[visible_upto(catv, ignv, impv, c as int)[q2]],
                    ),
            decreases cat@.len() - c,
        {
            if vset.contains(c) {
                let flag = cum.contains(c);
                proof {
                    assert(visible_idx(catv, ignv, impv, c as int));
                    assert(!has_str(impv, catv[c as int]));
                    assert(flag == tech_claimed(psv, i + 1, catv[c as int]));
                    assert(visible_upto(catv, ignv, impv, c + 1) =~= visible_upto(
                        catv,
                        ignv,
                        impv,
                        c as int,
                    ).push(c as int));
                }
                ts.push((clone_string(&cat[c]), flag));
            } else {
                proof {
                    assert(visible_upto(catv, ignv, impv, c + 1) =~= visible_upto(
                        catv,
                        ignv,
                        impv,
                        c as int,
                    ));
                }
            }
            c = c + 1;
        }
        // record this preset's notable claims
        let mut s: usize = 0;
        while s < p.notables.len()
            invariant
                i < presets@.len(),
                s <= p.notables@.len(),
                psv == preset_views(presets@),
                p == &presets@[i as int],
                psv[i as int].notables.len() == p.notables@.len(),
                forall|key: (u64, u64)| key_set_view(cums).contains(key) <==> (note_claimed(
                    psv,
                    i as int,
                    key,
                ) || (exists|b: int| 0 <= b < s && nkey(#[trigger] note_at(psv, i as int, b))
                    == key)),
            decreases p.notables@.len() - s,
        {
            let rid = p.notables[s].room_id;
            let nid = p.notables[s].notable_id;
            proof {
                assert(psv[i as int].notables[s as int] == p.notables@[s as int]@);
                assert(nkey(note_at(psv, i as int, s as int)) == (rid, nid));
            }
            cums.insert((rid, nid));
            proof {
                assert forall|key: (u64, u64)| key_set_view(cums).contains(key) <==> (note_claimed(
                    psv,
                    i as int,
                    key,
                ) || (exists|b: int| 0 <= b < s + 1 && nkey(#[trigger] note_at(psv, i as int, b))
                    == key)) by {
                    if exists|b: int| 0 <= b < s + 1 && nkey(#[trigger] note_at(psv, i as int, b)) == key {
                        let b = choose|b: int|
                            0 <= b < s + 1 && nkey(#[trigger] note_at(psv, i as int, b)) == key;
                        if b < s {
                        } else {
                            assert(nkey(note_at(psv, i as int, s as int)) == key);
                        }
                    }
                }
            }
            s = s + 1;
        }
        proof {
            assert forall|key: (u64, u64)| key_set_view(cums).contains(key) <==> note_claimed(
                psv,
                i + 1,
                key,
            ) by {
                if note_claimed(psv, i + 1, key) {
                    let (a, b) = choose|a: int, b: int|
                        0 <= a < i + 1 && 0 <= b < psv[a].notables.len() && nkey(#[trigger] note_at(
                            psv,
                            a,
                            b,
                        )) == key;
                    if a < i {
                        assert(note_claimed(psv, i as int, key));
                    } else {
                        assert(nkey(note_at(psv, i as int, b)) == key);
                    }
                }
            }
        }
        // the notable vector: one entry per catalog notable, in catalog order
        let mut ns: Vec<(NotableSetting, bool)> = Vec::new();
        let mut c2: usize = 0;
        while c2 < ncat.len()
            invariant
                c2 <= ncat@.len(),
                i < presets@.len(),
                psv == preset_views(presets@),
                ncatv == strategy_views(ncat@),
                forall|key: (u64, u64)| key_map_view(*cm).dom().contains(key) <==> note_claimed(
                    psv,
                    psv.len() as int,
                    key,
                ),
                forall|key: (u64, u64)| #[trigger] key_map_view(*cm).dom().contains(key)
                    ==> note_pos(
                        psv,
                        key_map_view(*cm)[key].0 as int,
                        key_map_view(*cm)[key].1 as int,
                    ) && nkey(note_at(
                        psv,
                        key_map_view(*cm)[key].0 as int,
                        key_map_view(*cm)[key].1 as int,
                    )) == key,
                notes_unique(psv),
                notes_covered(ncatv, psv),
                forall|key: (u64, u64)| key_set_view(cums).contains(key) <==> note_claimed(
                    psv,
                    i + 1,
                    key,
                ),
                ns@.len() == c2,
                forall|d: int| 0 <= d < c2 ==> (#[trigger] ns@[d]).1 == note_claimed(
                    psv,
                    i + 1,
                    skey(ncatv[d]),
                ),
                forall|d: int, k: int, s2: int|
                    0 <= d < c2 && note_pos(psv, k, s2) && nkey(#[trigger] note_at(psv, k, s2))
                        == skey(ncatv[d]) ==> (#[trigger] ns@[d]).0@ == note_at(psv, k, s2),
            decreases ncat@.len() - c2,
        {
            let rid = ncat[c2].room_id;
            let nid = ncat[c2].notable_id;
            proof {
                assert(ncatv[c2 as int] == ncat@[c2 as int]@);
                assert(skey(ncatv[c2 as int]) == (rid, nid));
            }
            let got = cm.get((rid, nid));
            match got {
                Some(pos) => {
                    let kk: usize = pos.0;
                    let ss: usize = pos.1;
                    proof {
                        assert(key_map_view(*cm).dom().contains((rid, nid)));
                        assert(note_pos(psv, kk as int, ss as int));
                        assert(nkey(note_at(psv, kk as int, ss as int)) == (rid, nid));
                        assert(psv[kk as int] == presets@[kk as int]@);
                        assert(psv[kk as int].notables[ss as int]
                            == presets@[kk as int].notables@[ss as int]@);
                    }
                    let setting = clone_setting(&presets[kk].notables[ss]);
                    let flag = cums.contains((rid, nid));
                    proof {
                        assert(setting@ == note_at(psv, kk as int, ss as int));
                        assert forall|k: int, s2: int|
                            note_pos(psv, k, s2) && nkey(#[trigger] note_at(psv, k, s2)) == skey(
                                ncatv[c2 as int],
                            ) implies note_at(psv, k, s2) == note_at(psv, kk as int, ss as int) by {
                            lemma_unique_claim(psv, k, s2, kk as int, ss as int);
                        }
                    }
                    ns.push((setting, flag));
                },
                None => {
                    proof {
                        assert(note_claimed(psv, psv.len() as int, (rid, nid)));
                        assert(false);
                    }
                    unreached()
                },
            }
            c2 = c2 + 1;
        }
        // assemble the record
        let cp = CompiledPreset {
            preset: clone_preset(p),
            tech_setting: ts,
            implicit_tech: clone_strings(implicit),
            notable_setting: ns,
        };
        proof {
            assert(cp@.preset == psv[i as int]);
            assert(cp@.implicit_tech =~= impv);
            assert(cp@.tech_setting =~= ts@.map_values(|t: (String, bool)| (t.0@, t.1)));
            assert forall|b: int| 0 <= b < impv.len() implies #[trigger] cp@.tech_setting[b] == (
            impv[b], true) by {
                assert(ts@[b].0@ == impv[b] && ts@[b].1);
            }
            assert forall|q2: int| 0 <= q2 < visible_of(catv, ignv, impv).len()
                implies #[trigger] cp@.tech_setting[impv.len() + q2] == (
                catv[visible_of(catv, ignv, impv)[q2]],
                tech_claimed(psv, i + 1, catv[visible_of(catv, ignv, impv)[q2]]),
            ) by {
                assert(ts@[impv.len() + q2].0@ == catv[visible_of(catv, ignv, impv)[q2]]);
            }
            assert(tech_setting_ok(catv, ignv, impv, psv, i as int, cp@.tech_setting));
            assert forall|d: int| 0 <= d < ncatv.len() implies (#[trigger] cp@.notable_setting[d]).1
                == note_claimed(psv, i + 1, skey(ncatv[d])) by {
                assert(ns@[d].1 == note_claimed(psv, i + 1, skey(ncatv[d])));
            }
            assert forall|d: int, k: int, s2: int|
                0 <= d < ncatv.len() && note_pos(psv, k, s2) && nkey(#[trigger] note_at(psv, k, s2))
                    == skey(ncatv[d]) implies (#[trigger] cp@.notable_setting[d]).0 == note_at(
                psv,
                k,
                s2,
            ) by {
                assert(ns@[d].0@ == note_at(psv, k, s2));
            }
            assert(notable_setting_ok(ncatv, psv, i as int, cp@.notable_setting));
            assert(compiled_entry_ok(catv, ncatv, psv, impv, ignv, i as int, cp@));
        }
        let ghost prev = out@;
        out.push(cp);
        proof {
            assert(compiled_views(out@).len() == i + 1);
            assert(compiled_views(out@)[i as int] == cp@);
            assert forall|a: int| 0 <= a < i + 1 implies compiled_entry_ok(
                catv,
                ncatv,
                psv,
                impv,
                ignv,
                a,
                #[trigger] compiled_views(out@)[a],
            ) by {
                if a < i {
                    assert(compiled_views(out@)[a] == compiled_views(prev)[a]);
                }
            }
        }
        i = i + 1;
    }
    out
}

/// Compiles the ordered preset sequence against the two catalogs: validates
/// the whole configuration (membership, disjointness, uniqueness, coverage)
/// and, when it is consistent, returns one cumulative record per preset, in
/// order. The first violation found, in validation order, is returned as the
/// error, and no partial result is produced.
pub fn compile(
    presets: Vec<Preset>,
    tech_catalog: &Vec<String>,
    notable_catalog: &Vec<NotableStrategy>,
    implicit: &Vec<String>,
    ignored: &Vec<String>,
) -> (r: Result<Vec<CompiledPreset>, CompileError>)
    requires
        inputs_wf(
            str_views(tech_catalog@),
            strategy_views(notable_catalog@),
            str_views(implicit@),
            str_views(ignored@),
        ),
    ensures
        (r is Ok) == valid_config(
            str_views(tech_catalog@),
            strategy_views(notable_catalog@),
            preset_views(presets@),
            str_views(implicit@),
            str_views(ignored@),
        ),
        r matches Ok(out) ==> compiled_ok(
            str_views(tech_catalog@),
            strategy_views(notable_catalog@),
            preset_views(presets@),
            str_views(implicit@),
            str_views(ignored@),
            compiled_views(out@),
        ),
        r matches Err(e) ==> err_ok(
            str_views(tech_catalog@),
            strategy_views(notable_catalog@),
            preset_views(presets@),
            str_views(implicit@),
            str_views(ignored@),
            e,
        ),
{
    let ghost catv = str_views(tech_catalog@);
    let ghost ncatv = strategy_views(notable_catalog@);
    let ghost psv = preset_views(presets@);
    let ghost impv = str_views(implicit@);
    let ghost ignv = str_views(ignored@);

    match check_ignored(tech_catalog, ignored) {
        Ok(()) => {},
        Err(e) => {
            return Err(e);
        },
    }
    let imp_idx = match check_implicit(tech_catalog, ignored, implicit) {
        Ok(v) => v,
        Err(e) => {
            return Err(e);
        },
    };
    let claims = match build_claims(&presets, notable_catalog) {
        Ok(pair) => pair,
        Err(e) => {
            return Err(e);
        },
    };
    let cm = claims.0;
    let ext = claims.1;
    let vset = build_visible(tech_catalog, ignored, implicit);
    let checked = match check_tech(&presets, tech_catalog, &vset, &imp_idx, Ghost(ignv), Ghost(impv)) {
        Ok(pair) => pair,
        Err(e) => {
            return Err(e);
        },
    };
    let ti = checked.0;
    let cum = checked.1;
    let missing = collect_missing_tech(tech_catalog, &vset, &cum, Ghost(ignv), Ghost(impv), Ghost(psv));
    proof {
        lemma_missing_tech_iff(catv, ignv, impv, psv, catv.len() as int);
    }
    if missing.len() > 0 {
        proof {
            assert(str_views(missing@).len() > 0);
            assert(!tech_covered(catv, ignv, impv, psv));
        }
        return Err(CompileError::MissingTech(missing));
    }
    proof {
        assert(str_views(missing@).len() == 0);
        assert(tech_covered(catv, ignv, impv, psv));
    }
    let missing_notes = collect_missing_notes(notable_catalog, &cm, Ghost(psv));
    proof {
        lemma_missing_notes_iff(ncatv, psv, ncatv.len() as int);
    }
    if missing_notes.len() > 0 {
        proof {
            assert(strategy_views(missing_notes@).len() > 0);
            assert(!notes_covered(ncatv, psv));
        }
        return Err(CompileError::MissingNotables(missing_notes));
    }
    proof {
        assert(strategy_views(missing_notes@).len() == 0);
        assert(notes_covered(ncatv, psv));
    }
    proof {
        lemma_ext_rows_iff(ncatv, psv, psv.len() as int);
    }
    if ext.len() > 0 {
        proof {
            assert(!no_extraneous(ncatv, psv)) by {
                let (a, b) = choose|a: int, b: int|
                    0 <= a < psv.len() && 0 <= b < psv[a].notables.len() && !has_key(
                        ncatv,
                        nkey(note_at(psv, a, b)),
                    );
                assert(note_pos(psv, a, b));
                assert(!has_key(ncatv, nkey(note_at(psv, a, b))));
            }
        }
        return Err(CompileError::ExtraneousNotables(ext));
    }
    proof {
        assert(no_extraneous(ncatv, psv)) by {
            assert forall|k: int, s: int| note_pos(psv, k, s) implies has_key(
                ncatv,
                nkey(#[trigger] note_at(psv, k, s)),
            ) by {
                assert(0 <= k < psv.len() && 0 <= s < psv[k].notables.len());
            }
        }
        assert(valid_config(catv, ncatv, psv, impv, ignv));
    }
    let out = emit(
        &presets,
        tech_catalog,
        notable_catalog,
        implicit,
        &imp_idx,
        &vset,
        &ti,
        &cm,
        Ghost(ignv),
    );
    Ok(out)
}

} // verus!
