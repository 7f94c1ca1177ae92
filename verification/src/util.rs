//! Small verified building blocks: linear catalog scans and deep clones with
//! exact contracts.
use vstd::prelude::*;
use crate::conds::{has_str, skey};
use crate::model::{str_views, strategy_views, NotableSetting, NotableStrategy, Preset};

verus! {

/// The index of the first occurrence of the name t in the list, if any.
pub fn find_str(v: &Vec<String>, t: &String) -> (r: Option<usize>)
    ensures
        match r {
            Some(ix) => ix < v@.len() && v@[ix as int]@ == t@ && (forall|j: int|
                0 <= j < ix ==> v@[j]@ != t@),
            None => forall|j: int| 0 <= j < v@.len() ==> v@[j]@ != t@,
        },
{
    let mut i: usize = 0;
    while i < v.len()
        invariant
            i <= v@.len(),
            forall|j: int| 0 <= j < i ==> v@[j]@ != t@,
        decreases v@.len() - i,
    {
        if v[i].eq(t) {
            return Some(i);
        }
        i = i + 1;
    }
    None
}

/// Whether the name t occurs in the list.
pub fn contains_str(v: &Vec<String>, t: &String) -> (r: bool)
    ensures
        r == has_str(str_views(v@), t@),
{
    let r = find_str(v, t);
    match r {
        Some(ix) => {
            proof {
                assert(str_views(v@)[ix as int] == t@);
            }
            true
        },
        None => {
            proof {
                assert(forall|i: int| 0 <= i < v@.len() ==> str_views(v@)[i] != t@);
            }
            false
        },
    }
}

/// The index of the first catalog notable with the given composite key, if
/// any.
pub fn find_note(cat: &Vec<NotableStrategy>, room_id: u64, notable_id: u64) -> (r: Option<usize>)
    ensures
        match r {
            Some(ix) => ix < cat@.len() && skey(cat@[ix as int]@) == (room_id, notable_id)
                && (forall|j: int| 0 <= j < ix ==> skey(cat@[j]@) != (room_id, notable_id)),
            None => forall|j: int| 0 <= j < cat@.len() ==> skey(cat@[j]@) != (room_id, notable_id),
        },
{
    let mut i: usize = 0;
    while i < cat.len()
        invariant
            i <= cat@.len(),
            forall|j: int| 0 <= j < i ==> skey(cat@[j]@) != (room_id, notable_id),
        decreases cat@.len() - i,
    {
        if cat[i].room_id == room_id && cat[i].notable_id == notable_id {
            return Some(i);
        }
        i = i + 1;
    }
    None
}

/// Whether the composite key occurs in the notable catalog.
pub fn contains_note(cat: &Vec<NotableStrategy>, room_id: u64, notable_id: u64) -> (r: bool)
    ensures
        r == crate::conds::has_key(strategy_views(cat@), (room_id, notable_id)),
{
    let r = find_note(cat, room_id, notable_id);
    match r {
        Some(ix) => {
            proof {
                assert(skey(strategy_views(cat@)[ix as int]) == (room_id, notable_id));
            }
            true
        },
        None => {
            proof {
                assert(forall|i: int| 0 <= i < cat@.len()
                    ==> skey(strategy_views(cat@)[i]) != (room_id, notable_id));
            }
            false
        },
    }
}

/// A copy of the string, character for character.
pub fn clone_string(s: &String) -> (r: String)
    ensures
        r == *s,
{
    s.clone()
}

/// A copy of a list of strings, element for element.
pub fn clone_strings(v: &Vec<String>) -> (r: Vec<String>)
    ensures
        r@ == v@,
{
    let mut out: Vec<String> = Vec::new();
    let mut i: usize = 0;
    while i < v.len()
        invariant
            i <= v@.len(),
            out@ == v@.subrange(0, i as int),
        decreases v@.len() - i,
    {
        out.push(clone_string(&v[i]));
        proof {
            assert(out@ =~= v@.subrange(0, i + 1));
        }
        i = i + 1;
    }
    proof {
        assert(out@ =~= v@);
    }
    out
}

/// A copy of a notable setting, field for field.
pub fn clone_setting(n: &NotableSetting) -> (r: NotableSetting)
    ensures
        r == *n,
{
    NotableSetting {
        room_id: n.room_id,
        notable_id: n.notable_id,
        room_name: clone_string(&n.room_name),
        name: clone_string(&n.name),
    }
}

/// A copy of a catalog notable strategy, field for field.
pub fn clone_strategy(c: &NotableStrategy) -> (r: NotableStrategy)
    ensures
        r == *c,
{
    NotableStrategy {
        room_id: c.room_id,
        notable_id: c.notable_id,
        room_name: clone_string(&c.room_name),
        name: clone_string(&c.name),
    }
}

/// A copy of a list of notable settings, element for element.
pub fn clone_settings(v: &Vec<NotableSetting>) -> (r: Vec<NotableSetting>)
    ensures
        r@ == v@,
{
    let mut out: Vec<NotableSetting> = Vec::new();
    let mut i: usize = 0;
    while i < v.len()
        invariant
            i <= v@.len(),
            out@ == v@.subrange(0, i as int),
        decreases v@.len() - i,
    {
        out.push(clone_setting(&v[i]));
        proof {
            assert(out@ =~= v@.subrange(0, i + 1));
        }
        i = i + 1;
    }
    proof {
        assert(out@ =~= v@);
    }
    out
}

/// A copy of a preset, field for field.
pub fn clone_preset(p: &Preset) -> (r: Preset)
    ensures
        r@ == p@,
{
    let r = Preset {
        name: clone_string(&p.name),
        tech: clone_strings(&p.tech),
        notables: clone_settings(&p.notables),
    };
    r
}

} // verus!
