//! The consistency conditions the compiler enforces, stated mathematically:
//! membership, duplication, coverage and visibility over the two catalogs.
use vstd::prelude::*;
use crate::model::{CompiledPresetV, NotableSettingV, NotableStrategyV, PresetV};

verus! {

/// A name occurs in a list of names.
pub open spec fn has_str(a: Seq<Seq<char>>, t: Seq<char>) -> bool {
    exists|i: int| 0 <= i < a.len() && a[i] == t
}

/// All names in the list are distinct.
pub open spec fn distinct_strs(a: Seq<Seq<char>>) -> bool {
    forall|i: int, j: int| 0 <= i < j < a.len() ==> a[i] != a[j]
}

/// The composite key of a preset-supplied notable setting.
pub open spec fn nkey(n: NotableSettingV) -> (u64, u64) {
    (n.room_id, n.notable_id)
}

/// The composite key of a catalog notable strategy.
pub open spec fn skey(c: NotableStrategyV) -> (u64, u64) {
    (c.room_id, c.notable_id)
}

/// A key occurs in the notable catalog.
pub open spec fn has_key(ncat: Seq<NotableStrategyV>, key: (u64, u64)) -> bool {
    exists|i: int| 0 <= i < ncat.len() && skey(ncat[i]) == key
}

/// All keys of the notable catalog are distinct.
pub open spec fn distinct_keys(ncat: Seq<NotableStrategyV>) -> bool {
    forall|i: int, j: int| 0 <= i < j < ncat.len() ==> skey(ncat[i]) != skey(ncat[j])
}

/// Position (k, j) indexes a capability claimed by preset k.
pub open spec fn tech_pos(ps: Seq<PresetV>, k: int, j: int) -> bool {
    0 <= k < ps.len() && 0 <= j < ps[k].tech.len()
}

/// The capability name at position (k, j).
pub open spec fn tech_at(ps: Seq<PresetV>, k: int, j: int) -> Seq<char> {
    ps[k].tech[j]
}

/// Position (k, s) indexes a notable setting claimed by preset k.
pub open spec fn note_pos(ps: Seq<PresetV>, k: int, s: int) -> bool {
    0 <= k < ps.len() && 0 <= s < ps[k].notables.len()
}

/// The notable setting at position (k, s).
pub open spec fn note_at(ps: Seq<PresetV>, k: int, s: int) -> NotableSettingV {
    ps[k].notables[s]
}

/// Position (a, b) comes strictly before position (k, j) in scan order.
pub open spec fn lex_before(a: int, b: int, k: int, j: int) -> bool {
    a < k || (a == k && b < j)
}

/// Every ignored identifier belongs to the capability catalog.
pub open spec fn ignored_ok(cat: Seq<Seq<char>>, ign: Seq<Seq<char>>) -> bool {
    forall|i: int| 0 <= i < ign.len() ==> has_str(cat, #[trigger] ign[i])
}

/// Implicit entry i belongs to the catalog and is not ignored.
pub open spec fn implicit_entry_ok(
    cat: Seq<Seq<char>>,
    ign: Seq<Seq<char>>,
    imp: Seq<Seq<char>>,
    i: int,
) -> bool {
    has_str(cat, imp[i]) && !has_str(ign, imp[i])
}

/// Every implicit identifier belongs to the catalog and is not ignored.
pub open spec fn implicit_ok(cat: Seq<Seq<char>>, ign: Seq<Seq<char>>, imp: Seq<Seq<char>>) -> bool {
    forall|i: int| 0 <= i < imp.len() ==> #[trigger] implicit_entry_ok(cat, ign, imp, i)
}

/// Catalog entry i is visible: neither ignored nor implicit.
pub open spec fn visible_idx(cat: Seq<Seq<char>>, ign: Seq<Seq<char>>, imp: Seq<Seq<char>>, i: int) -> bool {
    !has_str(ign, cat[i]) && !has_str(imp, cat[i])
}

/// A name is a visible catalog name: in the catalog, neither ignored nor implicit.
pub open spec fn visible_name(cat: Seq<Seq<char>>, ign: Seq<Seq<char>>, imp: Seq<Seq<char>>, t: Seq<char>) -> bool {
    has_str(cat, t) && !has_str(ign, t) && !has_str(imp, t)
}

/// The visible catalog indices below n, in catalog order.
pub open spec fn visible_upto(cat: Seq<Seq<char>>, ign: Seq<Seq<char>>, imp: Seq<Seq<char>>, n: int) -> Seq<int>
    decreases n,
{
    if n <= 0 {
        Seq::empty()
    } else if visible_idx(cat, ign, imp, n - 1) {
        visible_upto(cat, ign, imp, n - 1).push(n - 1)
    } else {
        visible_upto(cat, ign, imp, n - 1)
    }
}

/// All visible catalog indices, in catalog order.
pub open spec fn visible_of(cat: Seq<Seq<char>>, ign: Seq<Seq<char>>, imp: Seq<Seq<char>>) -> Seq<int> {
    visible_upto(cat, ign, imp, cat.len() as int)
}

/// The capability at (k, j) was already unlocked when the scan reaches (k, j):
/// it is implicit, or an earlier position claims the same name.
pub open spec fn tech_dup_at(imp: Seq<Seq<char>>, ps: Seq<PresetV>, k: int, j: int) -> bool {
    has_str(imp, tech_at(ps, k, j)) || exists|a: int, b: int|
        tech_pos(ps, a, b) && lex_before(a, b, k, j) && tech_at(ps, a, b) == tech_at(ps, k, j)
}

/// The capability claim at (k, j) is accepted: not a duplicate, and a visible
/// catalog name.
pub open spec fn tech_ok_at(
    cat: Seq<Seq<char>>,
    ign: Seq<Seq<char>>,
    imp: Seq<Seq<char>>,
    ps: Seq<PresetV>,
    k: int,
    j: int,
) -> bool {
    !tech_dup_at(imp, ps, k, j) && visible_name(cat, ign, imp, tech_at(ps, k, j))
}

/// Every capability claim strictly before (k, j) is accepted.
pub open spec fn tech_ok_before(
    cat: Seq<Seq<char>>,
    ign: Seq<Seq<char>>,
    imp: Seq<Seq<char>>,
    ps: Seq<PresetV>,
    k: int,
    j: int,
) -> bool {
    forall|a: int, b: int| tech_pos(ps, a, b) && lex_before(a, b, k, j)
        ==> #[trigger] tech_ok_at(cat, ign, imp, ps, a, b)
}

/// Every capability claim of every preset is accepted.
pub open spec fn tech_all_ok(
    cat: Seq<Seq<char>>,
    ign: Seq<Seq<char>>,
    imp: Seq<Seq<char>>,
    ps: Seq<PresetV>,
) -> bool {
    forall|k: int, j: int| tech_pos(ps, k, j) ==> #[trigger] tech_ok_at(cat, ign, imp, ps, k, j)
}

/// Some preset strictly before position `upto` claims the capability name t.
pub open spec fn tech_claimed(ps: Seq<PresetV>, upto: int, t: Seq<char>) -> bool {
    exists|k: int, j: int| 0 <= k < upto && 0 <= j < ps[k].tech.len() && #[trigger] tech_at(ps, k, j) == t
}

/// Every visible catalog capability is claimed by some preset.
pub open spec fn tech_covered(
    cat: Seq<Seq<char>>,
    ign: Seq<Seq<char>>,
    imp: Seq<Seq<char>>,
    ps: Seq<PresetV>,
) -> bool {
    forall|i: int| 0 <= i < cat.len() && visible_idx(cat, ign, imp, i)
        ==> tech_claimed(ps, ps.len() as int, #[trigger] cat[i])
}

/// An earlier position claims the same notable key as (k, s).
pub open spec fn note_dup_at(ps: Seq<PresetV>, k: int, s: int) -> bool {
    exists|a: int, b: int|
        note_pos(ps, a, b) && lex_before(a, b, k, s) && nkey(#[trigger] note_at(ps, a, b)) == nkey(note_at(ps, k, s))
}

/// No notable position strictly before (k, s) repeats an earlier key.
pub open spec fn notes_unique_before(ps: Seq<PresetV>, k: int, s: int) -> bool {
    forall|a: int, b: int| note_pos(ps, a, b) && lex_before(a, b, k, s) ==> !#[trigger] note_dup_at(ps, a, b)
}

/// No notable key is claimed by two positions.
pub open spec fn notes_unique(ps: Seq<PresetV>) -> bool {
    forall|k: int, s: int| note_pos(ps, k, s) ==> !#[trigger] note_dup_at(ps, k, s)
}

/// Some preset strictly before position `upto` claims the notable key.
pub open spec fn note_claimed(ps: Seq<PresetV>, upto: int, key: (u64, u64)) -> bool {
    exists|k: int, s: int| 0 <= k < upto && 0 <= s < ps[k].notables.len() && nkey(#[trigger] note_at(ps, k, s)) == key
}

/// Every catalog notable key is claimed by some preset.
pub open spec fn notes_covered(ncat: Seq<NotableStrategyV>, ps: Seq<PresetV>) -> bool {
    forall|i: int| 0 <= i < ncat.len() ==> note_claimed(ps, ps.len() as int, skey(#[trigger] ncat[i]))
}

/// Every notable key claimed by a preset exists in the catalog.
pub open spec fn no_extraneous(ncat: Seq<NotableStrategyV>, ps: Seq<PresetV>) -> bool {
    forall|k: int, s: int| note_pos(ps, k, s) ==> has_key(ncat, nkey(#[trigger] note_at(ps, k, s)))
}

/// The whole configuration is consistent: this is exactly when compilation
/// succeeds.
pub open spec fn valid_config(
    cat: Seq<Seq<char>>,
    ncat: Seq<NotableStrategyV>,
    ps: Seq<PresetV>,
    imp: Seq<Seq<char>>,
    ign: Seq<Seq<char>>,
) -> bool {
    &&& ignored_ok(cat, ign)
    &&& implicit_ok(cat, ign, imp)
    &&& notes_unique(ps)
    &&& tech_all_ok(cat, ign, imp, ps)
    &&& tech_covered(cat, ign, imp, ps)
    &&& notes_covered(ncat, ps)
    &&& no_extraneous(ncat, ps)
}

/// Well-formedness of the inputs: the catalogs are duplicate-free lists, and
/// the implicit and ignored identifier sets are given without repetition.
pub open spec fn inputs_wf(
    cat: Seq<Seq<char>>,
    ncat: Seq<NotableStrategyV>,
    imp: Seq<Seq<char>>,
    ign: Seq<Seq<char>>,
) -> bool {
    &&& distinct_strs(cat)
    &&& distinct_keys(ncat)
    &&& distinct_strs(imp)
    &&& distinct_strs(ign)
}

/// Some position strictly before (k, j) in scan order claims the capability
/// name t.
pub open spec fn tech_claimed_before(ps: Seq<PresetV>, k: int, j: int, t: Seq<char>) -> bool {
    exists|a: int, b: int| tech_pos(ps, a, b) && lex_before(a, b, k, j) && #[trigger] tech_at(ps, a, b) == t
}

/// Some position strictly before (k, s) in scan order claims the notable key.
pub open spec fn note_claimed_before(ps: Seq<PresetV>, k: int, s: int, key: (u64, u64)) -> bool {
    exists|a: int, b: int| note_pos(ps, a, b) && lex_before(a, b, k, s) && nkey(#[trigger] note_at(ps, a, b)) == key
}

/// The capability vector of compiled record i: the implicit entries first,
/// every one enabled, then the visible catalog in catalog order, each entry
/// enabled exactly when preset i or an earlier one claims it.
pub open spec fn tech_setting_ok(
    cat: Seq<Seq<char>>,
    ign: Seq<Seq<char>>,
    imp: Seq<Seq<char>>,
    ps: Seq<PresetV>,
    i: int,
    ts: Seq<(Seq<char>, bool)>,
) -> bool {
    let vis = visible_of(cat, ign, imp);
    &&& ts.len() == imp.len() + vis.len()
    &&& (forall|j: int| 0 <= j < imp.len() ==> #[trigger] ts[j] == (imp[j], true))
    &&& (forall|q: int| 0 <= q < vis.len() ==> #[trigger] ts[imp.len() + q] == (
        cat[vis[q]],
        tech_claimed(ps, i + 1, cat[vis[q]]),
    ))
}

/// The notable vector of compiled record i: one entry per catalog notable in
/// catalog order, carrying the (unique) claiming preset's setting, enabled
/// exactly when preset i or an earlier one claims the key.
pub open spec fn notable_setting_ok(
    ncat: Seq<NotableStrategyV>,
    ps: Seq<PresetV>,
    i: int,
    ns: Seq<(NotableSettingV, bool)>,
) -> bool {
    &&& ns.len() == ncat.len()
    &&& (forall|c: int| 0 <= c < ncat.len() ==> (#[trigger] ns[c]).1 == note_claimed(
        ps,
        i + 1,
        skey(ncat[c]),
    ))
    &&& (forall|c: int, k: int, s: int|
        0 <= c < ncat.len() && note_pos(ps, k, s) && nkey(#[trigger] note_at(ps, k, s)) == skey(
            ncat[c],
        ) ==> (#[trigger] ns[c]).0 == note_at(ps, k, s))
}

/// Compiled record i is exactly what the inputs dictate.
pub open spec fn compiled_entry_ok(
    cat: Seq<Seq<char>>,
    ncat: Seq<NotableStrategyV>,
    ps: Seq<PresetV>,
    imp: Seq<Seq<char>>,
    ign: Seq<Seq<char>>,
    i: int,
    o: CompiledPresetV,
) -> bool {
    &&& o.preset == ps[i]
    &&& o.implicit_tech == imp
    &&& tech_setting_ok(cat, ign, imp, ps, i, o.tech_setting)
    &&& notable_setting_ok(ncat, ps, i, o.notable_setting)
}

/// The compiled sequence is exactly what the inputs dictate: one record per
/// preset, in order.
pub open spec fn compiled_ok(
    cat: Seq<Seq<char>>,
    ncat: Seq<NotableStrategyV>,
    ps: Seq<PresetV>,
    imp: Seq<Seq<char>>,
    ign: Seq<Seq<char>>,
    out: Seq<CompiledPresetV>,
) -> bool {
    &&& out.len() == ps.len()
    &&& forall|i: int| 0 <= i < out.len() ==> compiled_entry_ok(cat, ncat, ps, imp, ign, i, #[trigger] out[i])
}

/// The name t is the first ignored entry that is missing from the catalog.
pub open spec fn ign_err_at(cat: Seq<Seq<char>>, ign: Seq<Seq<char>>, t: Seq<char>) -> bool {
    exists|i: int| 0 <= i < ign.len() && #[trigger] ign[i] == t && !has_str(cat, ign[i])
        && (forall|j: int| 0 <= j < i ==> has_str(cat, #[trigger] ign[j]))
}

/// The name t is the first implicit entry that is missing from the catalog.
pub open spec fn imp_missing_err(
    cat: Seq<Seq<char>>,
    ign: Seq<Seq<char>>,
    imp: Seq<Seq<char>>,
    t: Seq<char>,
) -> bool {
    exists|i: int| 0 <= i < imp.len() && #[trigger] imp[i] == t && !has_str(cat, imp[i])
        && (forall|j: int| 0 <= j < i ==> #[trigger] implicit_entry_ok(cat, ign, imp, j))
}

/// The name t is the first implicit entry that is also ignored (and is in the
/// catalog, so the missing-entry error does not fire first).
pub open spec fn imp_clash_err(
    cat: Seq<Seq<char>>,
    ign: Seq<Seq<char>>,
    imp: Seq<Seq<char>>,
    t: Seq<char>,
) -> bool {
    exists|i: int| 0 <= i < imp.len() && #[trigger] imp[i] == t && has_str(cat, imp[i])
        && has_str(ign, imp[i])
        && (forall|j: int| 0 <= j < i ==> #[trigger] implicit_entry_ok(cat, ign, imp, j))
}

/// The names belong to the first notable position, in scan order, whose key
/// was already claimed earlier.
pub open spec fn note_dup_err(ps: Seq<PresetV>, room_name: Seq<char>, name: Seq<char>) -> bool {
    exists|k: int, s: int| note_pos(ps, k, s) && #[trigger] note_dup_at(ps, k, s)
        && notes_unique_before(ps, k, s)
        && note_at(ps, k, s).room_name == room_name
        && note_at(ps, k, s).name == name
}

/// The name t stands at the first rejected capability position, in scan
/// order, and was already unlocked when the scan reached it.
pub open spec fn tech_dup_err(
    cat: Seq<Seq<char>>,
    ign: Seq<Seq<char>>,
    imp: Seq<Seq<char>>,
    ps: Seq<PresetV>,
    t: Seq<char>,
) -> bool {
    exists|k: int, j: int| tech_pos(ps, k, j) && #[trigger] tech_dup_at(imp, ps, k, j)
        && tech_ok_before(cat, ign, imp, ps, k, j)
        && tech_at(ps, k, j) == t
}

/// The name t stands at the first rejected capability position, in scan
/// order, is no duplicate there, and is not a visible catalog name; pname is
/// the name of the preset claiming it.
pub open spec fn tech_unrec_err(
    cat: Seq<Seq<char>>,
    ign: Seq<Seq<char>>,
    imp: Seq<Seq<char>>,
    ps: Seq<PresetV>,
    t: Seq<char>,
    pname: Seq<char>,
) -> bool {
    exists|k: int, j: int| tech_pos(ps, k, j) && !#[trigger] tech_dup_at(imp, ps, k, j)
        && !visible_name(cat, ign, imp, tech_at(ps, k, j))
        && tech_ok_before(cat, ign, imp, ps, k, j)
        && tech_at(ps, k, j) == t
        && ps[k].name == pname
}

/// The visible catalog names below index n that no preset claims, in catalog
/// order.
pub open spec fn missing_tech_upto(
    cat: Seq<Seq<char>>,
    ign: Seq<Seq<char>>,
    imp: Seq<Seq<char>>,
    ps: Seq<PresetV>,
    n: int,
) -> Seq<Seq<char>>
    decreases n,
{
    if n <= 0 {
        Seq::empty()
    } else {
        let pre = missing_tech_upto(cat, ign, imp, ps, n - 1);
        if visible_idx(cat, ign, imp, n - 1) && !tech_claimed(ps, ps.len() as int, cat[n - 1]) {
            pre.push(cat[n - 1])
        } else {
            pre
        }
    }
}

/// The catalog notables below index n that no preset claims, in catalog order.
pub open spec fn missing_notes_upto(ncat: Seq<NotableStrategyV>, ps: Seq<PresetV>, n: int) -> Seq<NotableStrategyV>
    decreases n,
{
    if n <= 0 {
        Seq::empty()
    } else {
        let pre = missing_notes_upto(ncat, ps, n - 1);
        if !note_claimed(ps, ps.len() as int, skey(ncat[n - 1])) {
            pre.push(ncat[n - 1])
        } else {
            pre
        }
    }
}

/// The keys claimed by the first s notable settings of one preset that are
/// absent from the catalog, in claim order.
pub open spec fn ext_row(ncat: Seq<NotableStrategyV>, p: PresetV, s: int) -> Seq<(u64, u64)>
    decreases s,
{
    if s <= 0 {
        Seq::empty()
    } else {
        let pre = ext_row(ncat, p, s - 1);
        if !has_key(ncat, nkey(p.notables[s - 1])) {
            pre.push(nkey(p.notables[s - 1]))
        } else {
            pre
        }
    }
}

/// The keys claimed by the first k presets that are absent from the catalog,
/// in claim order.
pub open spec fn ext_rows(ncat: Seq<NotableStrategyV>, ps: Seq<PresetV>, k: int) -> Seq<(u64, u64)>
    decreases k,
{
    if k <= 0 {
        Seq::empty()
    } else {
        ext_rows(ncat, ps, k - 1) + ext_row(ncat, ps[k - 1], ps[k - 1].notables.len() as int)
    }
}

/// The missing-capability list below n is empty exactly when every visible
/// catalog entry below n is claimed.
pub proof fn lemma_missing_tech_iff(
    cat: Seq<Seq<char>>,
    ign: Seq<Seq<char>>,
    imp: Seq<Seq<char>>,
    ps: Seq<PresetV>,
    n: int,
)
    ensures
        missing_tech_upto(cat, ign, imp, ps, n).len() == 0 <==> (forall|i: int|
            0 <= i < n && visible_idx(cat, ign, imp, i) ==> tech_claimed(
                ps,
                ps.len() as int,
                #[trigger] cat[i],
            )),
    decreases n,
{
    if n > 0 {
        lemma_missing_tech_iff(cat, ign, imp, ps, n - 1);
    }
}

/// The missing-notable list below n is empty exactly when every catalog
/// notable below n is claimed.
pub proof fn lemma_missing_notes_iff(ncat: Seq<NotableStrategyV>, ps: Seq<PresetV>, n: int)
    ensures
        missing_notes_upto(ncat, ps, n).len() == 0 <==> (forall|i: int|
            0 <= i < n ==> note_claimed(ps, ps.len() as int, skey(#[trigger] ncat[i]))),
    decreases n,
{
    if n > 0 {
        lemma_missing_notes_iff(ncat, ps, n - 1);
    }
}

/// One preset's extraneous-key row below s is empty exactly when each of its
/// first s claims is a catalog key.
pub proof fn lemma_ext_row_iff(ncat: Seq<NotableStrategyV>, p: PresetV, s: int)
    ensures
        ext_row(ncat, p, s).len() == 0 <==> (forall|b: int|
            0 <= b < s ==> has_key(ncat, nkey(#[trigger] p.notables[b]))),
    decreases s,
{
    if s > 0 {
        lemma_ext_row_iff(ncat, p, s - 1);
    }
}

/// The extraneous-key list over the first k presets is empty exactly when
/// every claim of those presets is a catalog key.
pub proof fn lemma_ext_rows_iff(ncat: Seq<NotableStrategyV>, ps: Seq<PresetV>, k: int)
    ensures
        ext_rows(ncat, ps, k).len() == 0 <==> (forall|a: int, b: int|
            0 <= a < k && 0 <= b < ps[a].notables.len() ==> has_key(
                ncat,
                nkey(#[trigger] note_at(ps, a, b)),
            )),
    decreases k,
{
    if k > 0 {
        let p = ps[k - 1];
        let m = p.notables.len() as int;
        lemma_ext_rows_iff(ncat, ps, k - 1);
        lemma_ext_row_iff(ncat, p, m);
        if ext_rows(ncat, ps, k).len() == 0 {
            assert(ext_rows(ncat, ps, k - 1).len() == 0);
            assert(ext_row(ncat, p, m).len() == 0);
            assert forall|a: int, b: int|
                0 <= a < k && 0 <= b < ps[a].notables.len() implies has_key(
                ncat,
                nkey(#[trigger] note_at(ps, a, b)),
            ) by {
                if a == k - 1 {
                    assert(has_key(ncat, nkey(p.notables[b])));
                }
            }
        } else if ext_rows(ncat, ps, k - 1).len() == 0 {
            assert(ext_row(ncat, p, m).len() > 0);
            let bw = choose|b: int| 0 <= b < m && !has_key(ncat, nkey(p.notables[b]));
            assert(note_at(ps, k - 1, bw) == p.notables[bw]);
            assert(!has_key(ncat, nkey(note_at(ps, k - 1, bw))));
        }
    }
}

/// When no key is claimed twice, two positions claiming the same key are the
/// same position.
pub proof fn lemma_unique_claim(ps: Seq<PresetV>, k1: int, s1: int, k2: int, s2: int)
    requires
        notes_unique(ps),
        note_pos(ps, k1, s1),
        note_pos(ps, k2, s2),
        nkey(note_at(ps, k1, s1)) == nkey(note_at(ps, k2, s2)),
    ensures
        k1 == k2 && s1 == s2,
{
    if lex_before(k1, s1, k2, s2) {
        assert(note_dup_at(ps, k2, s2));
    } else if lex_before(k2, s2, k1, s1) {
        assert(note_dup_at(ps, k1, s1));
    }
}

/// The visible-index list below n: its elements are exactly the visible
/// catalog indices below n, in increasing catalog order.
pub proof fn lemma_visible_upto_props(cat: Seq<Seq<char>>, ign: Seq<Seq<char>>, imp: Seq<Seq<char>>, n: int)
    ensures
        forall|q: int| 0 <= q < visible_upto(cat, ign, imp, n).len() ==> 0 <= #[trigger] visible_upto(
            cat,
            ign,
            imp,
            n,
        )[q] < n,
        forall|q: int| 0 <= q < visible_upto(cat, ign, imp, n).len() ==> visible_idx(
            cat,
            ign,
            imp,
            #[trigger] visible_upto(cat, ign, imp, n)[q],
        ),
        forall|q1: int, q2: int|
            0 <= q1 < q2 < visible_upto(cat, ign, imp, n).len() ==> #[trigger] visible_upto(
                cat,
                ign,
                imp,
                n,
            )[q1] < #[trigger] visible_upto(cat, ign, imp, n)[q2],
        forall|i: int| 0 <= i < n && visible_idx(cat, ign, imp, i) ==> visible_upto(
            cat,
            ign,
            imp,
            n,
        ).contains(i),
    decreases n,
{
    if n > 0 {
        lemma_visible_upto_props(cat, ign, imp, n - 1);
        let pre = visible_upto(cat, ign, imp, n - 1);
        let cur = visible_upto(cat, ign, imp, n);
        assert forall|i: int| 0 <= i < n && visible_idx(cat, ign, imp, i) implies cur.contains(
            i,
        ) by {
            if i < n - 1 {
                assert(pre.contains(i));
                let q = choose|q: int| 0 <= q < pre.len() && pre[q] == i;
                assert(cur[q] == i);
            } else {
                assert(cur[cur.len() - 1] == i);
            }
        }
    }
}

} // verus!
