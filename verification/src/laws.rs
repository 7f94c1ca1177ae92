//! The global guarantees of a successful compilation, each stated and proved
//! over the compiler's contract.
use vstd::prelude::*;
use crate::conds::{
    compiled_entry_ok, compiled_ok, has_key, has_str, lemma_unique_claim, lemma_visible_upto_props,
    nkey, note_at, note_claimed, note_pos, skey, tech_at, tech_claimed, tech_dup_at, tech_ok_at,
    tech_pos, valid_config, visible_idx, visible_name, visible_of,
};
use crate::model::{CompiledPresetV, NotableStrategyV, PresetV};

verus! {

/// Widening a claim horizon keeps a capability claimed.
proof fn lemma_tech_claimed_mono(ps: Seq<PresetV>, u1: int, u2: int, t: Seq<char>)
    requires
        u1 <= u2,
        tech_claimed(ps, u1, t),
    ensures
        tech_claimed(ps, u2, t),
{
    let (k, j) = choose|k: int, j: int|
        0 <= k < u1 && 0 <= j < ps[k].tech.len() && #[trigger] tech_at(ps, k, j) == t;
    assert(0 <= k < u2 && 0 <= j < ps[k].tech.len() && tech_at(ps, k, j) == t);
}

/// Widening a claim horizon keeps a notable key claimed.
proof fn lemma_note_claimed_mono(ps: Seq<PresetV>, u1: int, u2: int, key: (u64, u64))
    requires
        u1 <= u2,
        note_claimed(ps, u1, key),
    ensures
        note_claimed(ps, u2, key),
{
    let (k, s) = choose|k: int, s: int|
        0 <= k < u1 && 0 <= s < ps[k].notables.len() && nkey(#[trigger] note_at(ps, k, s)) == key;
    assert(0 <= k < u2 && 0 <= s < ps[k].notables.len() && nkey(note_at(ps, k, s)) == key);
}

/// Monotonicity: across the compiled sequence, every capability flag and
/// every notable flag is non-decreasing; once a flag is true in one record it
/// is true in every later record.
pub proof fn lemma_monotone_flags(
    cat: Seq<Seq<char>>,
    ncat: Seq<NotableStrategyV>,
    ps: Seq<PresetV>,
    imp: Seq<Seq<char>>,
    ign: Seq<Seq<char>>,
    out: Seq<CompiledPresetV>,
    i1: int,
    i2: int,
)
    requires
        compiled_ok(cat, ncat, ps, imp, ign, out),
        0 <= i1 <= i2 < out.len(),
    ensures
        out[i1].tech_setting.len() == out[i2].tech_setting.len(),
        forall|p: int| 0 <= p < out[i1].tech_setting.len() && (#[trigger] out[i1].tech_setting[p]).1
            ==> out[i2].tech_setting[p].1,
        out[i1].notable_setting.len() == out[i2].notable_setting.len(),
        forall|c: int| 0 <= c < out[i1].notable_setting.len()
            && (#[trigger] out[i1].notable_setting[c]).1 ==> out[i2].notable_setting[c].1,
{
    assert(compiled_entry_ok(cat, ncat, ps, imp, ign, i1, out[i1]));
    assert(compiled_entry_ok(cat, ncat, ps, imp, ign, i2, out[i2]));
    let vis = visible_of(cat, ign, imp);
    assert forall|p: int|
        0 <= p < out[i1].tech_setting.len() && (#[trigger] out[i1].tech_setting[p]).1
        implies out[i2].tech_setting[p].1 by {
        if p < imp.len() {
            assert(out[i2].tech_setting[p] == (imp[p], true));
        } else {
            let q = p - imp.len();
            assert(out[i1].tech_setting[imp.len() + q] == (
                cat[vis[q]],
                tech_claimed(ps, i1 + 1, cat[vis[q]]),
            ));
            assert(out[i2].tech_setting[imp.len() + q] == (
                cat[vis[q]],
                tech_claimed(ps, i2 + 1, cat[vis[q]]),
            ));
            lemma_tech_claimed_mono(ps, i1 + 1, i2 + 1, cat[vis[q]]);
        }
    }
    assert forall|c: int|
        0 <= c < out[i1].notable_setting.len() && (#[trigger] out[i1].notable_setting[c]).1
        implies out[i2].notable_setting[c].1 by {
        assert((out[i1].notable_setting[c]).1 == note_claimed(ps, i1 + 1, skey(ncat[c])));
        assert((out[i2].notable_setting[c]).1 == note_claimed(ps, i2 + 1, skey(ncat[c])));
        lemma_note_claimed_mono(ps, i1 + 1, i2 + 1, skey(ncat[c]));
    }
}

/// Exact coverage: over a consistent configuration, the capability names
/// claimed across all presets are exactly the visible catalog names, and the
/// notable keys claimed across all presets are exactly the catalog keys.
pub proof fn lemma_exact_coverage(
    cat: Seq<Seq<char>>,
    ncat: Seq<NotableStrategyV>,
    ps: Seq<PresetV>,
    imp: Seq<Seq<char>>,
    ign: Seq<Seq<char>>,
    t: Seq<char>,
    key: (u64, u64),
)
    requires
        valid_config(cat, ncat, ps, imp, ign),
    ensures
        tech_claimed(ps, ps.len() as int, t) == visible_name(cat, ign, imp, t),
        note_claimed(ps, ps.len() as int, key) == has_key(ncat, key),
{
    if tech_claimed(ps, ps.len() as int, t) {
        let (k, j) = choose|k: int, j: int|
            0 <= k < ps.len() && 0 <= j < ps[k].tech.len() && #[trigger] tech_at(ps, k, j) == t;
        assert(tech_ok_at(cat, ign, imp, ps, k, j));
        assert(visible_name(cat, ign, imp, t));
    }
    if visible_name(cat, ign, imp, t) {
        let i = choose|i: int| 0 <= i < cat.len() && cat[i] == t;
        assert(visible_idx(cat, ign, imp, i));
        assert(tech_claimed(ps, ps.len() as int, cat[i]));
    }
    if note_claimed(ps, ps.len() as int, key) {
        let (k, s) = choose|k: int, s: int|
            0 <= k < ps.len() && 0 <= s < ps[k].notables.len() && nkey(#[trigger] note_at(ps, k, s))
                == key;
        assert(note_pos(ps, k, s));
        assert(has_key(ncat, nkey(note_at(ps, k, s))));
    }
    if has_key(ncat, key) {
        let i = choose|i: int| 0 <= i < ncat.len() && skey(ncat[i]) == key;
        assert(note_claimed(ps, ps.len() as int, skey(ncat[i])));
    }
}

/// No duplication: over a consistent configuration, two distinct presets
/// claim disjoint capability sets and disjoint notable key sets.
pub proof fn lemma_no_duplication(
    cat: Seq<Seq<char>>,
    ncat: Seq<NotableStrategyV>,
    ps: Seq<PresetV>,
    imp: Seq<Seq<char>>,
    ign: Seq<Seq<char>>,
    k1: int,
    j1: int,
    k2: int,
    j2: int,
)
    requires
        valid_config(cat, ncat, ps, imp, ign),
        k1 != k2,
    ensures
        tech_pos(ps, k1, j1) && tech_pos(ps, k2, j2) ==> tech_at(ps, k1, j1) != tech_at(ps, k2, j2),
        note_pos(ps, k1, j1) && note_pos(ps, k2, j2) ==> nkey(note_at(ps, k1, j1)) != nkey(
            note_at(ps, k2, j2),
        ),
{
    if tech_pos(ps, k1, j1) && tech_pos(ps, k2, j2) && tech_at(ps, k1, j1) == tech_at(ps, k2, j2) {
        if k1 < k2 {
            assert(tech_dup_at(imp, ps, k2, j2));
            assert(tech_ok_at(cat, ign, imp, ps, k2, j2));
        } else {
            assert(tech_dup_at(imp, ps, k1, j1));
            assert(tech_ok_at(cat, ign, imp, ps, k1, j1));
        }
    }
    if note_pos(ps, k1, j1) && note_pos(ps, k2, j2) && nkey(note_at(ps, k1, j1)) == nkey(
        note_at(ps, k2, j2),
    ) {
        lemma_unique_claim(ps, k1, j1, k2, j2);
    }
}

/// Implicit always-on: in every compiled record, every implicit capability
/// stands at its position with its flag true.
pub proof fn lemma_implicit_always_on(
    cat: Seq<Seq<char>>,
    ncat: Seq<NotableStrategyV>,
    ps: Seq<PresetV>,
    imp: Seq<Seq<char>>,
    ign: Seq<Seq<char>>,
    out: Seq<CompiledPresetV>,
    i: int,
    j: int,
)
    requires
        compiled_ok(cat, ncat, ps, imp, ign, out),
        0 <= i < out.len(),
        0 <= j < imp.len(),
    ensures
        out[i].tech_setting[j] == (imp[j], true),
{
    assert(compiled_entry_ok(cat, ncat, ps, imp, ign, i, out[i]));
}

/// Ignored invisibility: no ignored capability name appears anywhere in any
/// compiled record's capability vector.
pub proof fn lemma_ignored_invisible(
    cat: Seq<Seq<char>>,
    ncat: Seq<NotableStrategyV>,
    ps: Seq<PresetV>,
    imp: Seq<Seq<char>>,
    ign: Seq<Seq<char>>,
    out: Seq<CompiledPresetV>,
    i: int,
    p: int,
)
    requires
        valid_config(cat, ncat, ps, imp, ign),
        compiled_ok(cat, ncat, ps, imp, ign, out),
        0 <= i < out.len(),
        0 <= p < out[i].tech_setting.len(),
    ensures
        !has_str(ign, out[i].tech_setting[p].0),
{
    assert(compiled_entry_ok(cat, ncat, ps, imp, ign, i, out[i]));
    let vis = visible_of(cat, ign, imp);
    lemma_visible_upto_props(cat, ign, imp, cat.len() as int);
    if p < imp.len() {
        assert(out[i].tech_setting[p] == (imp[p], true));
        assert(crate::conds::implicit_entry_ok(cat, ign, imp, p));
    } else {
        let q = p - imp.len();
        assert(out[i].tech_setting[imp.len() + q] == (
            cat[vis[q]],
            tech_claimed(ps, i + 1, cat[vis[q]]),
        ));
        assert(visible_idx(cat, ign, imp, vis[q]));
    }
}

/// Determinism: the compiled output is a function of the inputs alone; any
/// two compiled sequences for the same consistent inputs are equal.
pub proof fn lemma_deterministic(
    cat: Seq<Seq<char>>,
    ncat: Seq<NotableStrategyV>,
    ps: Seq<PresetV>,
    imp: Seq<Seq<char>>,
    ign: Seq<Seq<char>>,
    out1: Seq<CompiledPresetV>,
    out2: Seq<CompiledPresetV>,
)
    requires
        valid_config(cat, ncat, ps, imp, ign),
        compiled_ok(cat, ncat, ps, imp, ign, out1),
        compiled_ok(cat, ncat, ps, imp, ign, out2),
    ensures
        out1 == out2,
{
    assert forall|i: int| 0 <= i < out1.len() implies out1[i] =~~= out2[i] by {
        assert(compiled_entry_ok(cat, ncat, ps, imp, ign, i, out1[i]));
        assert(compiled_entry_ok(cat, ncat, ps, imp, ign, i, out2[i]));
        let o1 = out1[i];
        let o2 = out2[i];
        let vis = visible_of(cat, ign, imp);
        assert forall|p: int| 0 <= p < o1.tech_setting.len() implies o1.tech_setting[p]
            == o2.tech_setting[p] by {
            if p < imp.len() {
                assert(o1.tech_setting[p] == (imp[p], true));
                assert(o2.tech_setting[p] == (imp[p], true));
            } else {
                let q = p - imp.len();
                assert(o1.tech_setting[imp.len() + q] == (
                    cat[vis[q]],
                    tech_claimed(ps, i + 1, cat[vis[q]]),
                ));
                assert(o2.tech_setting[imp.len() + q] == (
                    cat[vis[q]],
                    tech_claimed(ps, i + 1, cat[vis[q]]),
                ));
            }
        }
        assert(o1.tech_setting =~= o2.tech_setting);
        assert forall|c: int| 0 <= c < o1.notable_setting.len() implies o1.notable_setting[c]
            =~~= o2.notable_setting[c] by {
            assert(note_claimed(ps, ps.len() as int, skey(ncat[c])));
            let (k, s) = choose|k: int, s: int|
                0 <= k < ps.len() && 0 <= s < ps[k].notables.len() && nkey(#[trigger] note_at(
                    ps,
                    k,
                    s,
                )) == skey(ncat[c]);
            assert(note_pos(ps, k, s));
            assert((o1.notable_setting[c]).0 == note_at(ps, k, s));
            assert((o2.notable_setting[c]).0 == note_at(ps, k, s));
            assert((o1.notable_setting[c]).1 == note_claimed(ps, i + 1, skey(ncat[c])));
            assert((o2.notable_setting[c]).1 == note_claimed(ps, i + 1, skey(ncat[c])));
        }
        assert(o1.notable_setting =~~= o2.notable_setting);
    }
    assert(out1 =~~= out2);
}

} // verus!
