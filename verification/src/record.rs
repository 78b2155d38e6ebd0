//! `Record`: a struct with one field of a given type for each variant of an enum.

use std::ops::{Index, IndexMut};
use vstd::prelude::*;

use crate::error::Result;

verus! {

/// A trait for types that have a record representation.
pub trait HasRecord: Sized {
    /// The record representation of the type.
    type Record: Record<Keys = Self>;

    /// The name of the key.
    fn as_str(&self) -> &'static str;

    /// The key of the given name.
    fn try_from_str(s: &str) -> Result<Self>;
}

/// A trait for record representations of types.
pub trait Record: Index<Self::Keys> + IndexMut<Self::Keys> + Sized {
    /// The type that the record representation is for.
    type Keys;
    /// The type that of the records values.
    type Type;

    /// The number of fields in the record.
    const N: usize;

    /// The keys of the record.
    fn keys() -> Vec<Self::Keys>;

    /// The values of the record.
    fn values(&self) -> Vec<&Self::Type>;
    /// The mutable values of the record.
    fn values_mut(&mut self) -> Vec<&mut Self::Type>;

    /// The entries of the record.
    fn entries(&self) -> Vec<(Self::Keys, &Self::Type)>;
    /// The mutable entries of the record.
    /// Note. that the keys are not mutable.
    fn entires_mut(&mut self) -> Vec<(Self::Keys, &mut Self::Type)>;

    /// Try convert a vector of entries to the record representation.
    fn try_from_entries(entries: Vec<(Self::Keys, Self::Type)>) -> Result<Self>;
}

/// Why a list of entries does not make a record.
#[derive(Debug, Clone, Copy, PartialEq, Eq, Structural)]
pub enum FillError {
    /// An entry repeats the key at this position.
    Duplicate(usize),
    /// No entry has the key at this position.
    Missing(usize),
}

/// The keys of a list of entries, in order.
pub open spec fn entry_keys<T>(entries: Seq<(usize, T)>) -> Seq<usize> {
    entries.map_values(|e: (usize, T)| e.0)
}

/// The entry at `j` repeats a key of an earlier entry.
pub open spec fn repeats_earlier(keys: Seq<usize>, j: int) -> bool {
    exists|i: int| 0 <= i < j && keys[i] == keys[j]
}

/// No entry repeats the key of an earlier one.
pub open spec fn keys_distinct(keys: Seq<usize>) -> bool {
    forall|j: int| 0 <= j < keys.len() ==> !#[trigger] repeats_earlier(keys, j)
}

/// Fills the `n` slots of a record from entries that name their slot by position,
/// as `Record::try_from_entries` does: reading the entries in order, the first one
/// whose slot is already filled gives `Duplicate` with that slot; else the first
/// slot that no entry fills gives `Missing`; else the values, slot by slot.
#[verifier::loop_isolation(false)]
pub fn try_fill<T>(n: usize, entries: Vec<(usize, T)>) -> (r: core::result::Result<Vec<T>, FillError>)
    requires
        forall|j: int| 0 <= j < entries@.len() ==> #[trigger] entries@[j].0 < n,
    ensures
        match r {
            Err(FillError::Duplicate(k)) => exists|j: int|
                0 <= j < entries@.len() && entry_keys(entries@)[j] == k
                && #[trigger] repeats_earlier(entry_keys(entries@), j)
                && forall|i: int| 0 <= i < j ==> !#[trigger] repeats_earlier(entry_keys(entries@), i),
            Err(FillError::Missing(k)) => keys_distinct(entry_keys(entries@)) && k < n
                && !entry_keys(entries@).contains(k)
                && forall|m: int| 0 <= m < k ==> #[trigger] entry_keys(entries@).contains(m as usize),
            Ok(v) => keys_distinct(entry_keys(entries@)) && v@.len() == n
                && forall|j: int| 0 <= j < entries@.len()
                    ==> v@[#[trigger] entry_keys(entries@)[j] as int] == entries@[j].1,
        },
        !keys_distinct(entry_keys(entries@)) ==> r matches Err(FillError::Duplicate(_)),
        (keys_distinct(entry_keys(entries@)) && exists|m: int| 0 <= m < n
            && !#[trigger] entry_keys(entries@).contains(m as usize)) ==> r matches Err(FillError::Missing(_)),
{
    let ghost es = entries@;
    let ghost keys = entry_keys(es);
    let mut slots: Vec<Option<T>> = Vec::new();
    let mut k: usize = 0;
    while k < n
        invariant
            0 <= k <= n,
            slots@.len() == k,
            forall|m: int| 0 <= m < k ==> #[trigger] slots@[m] is None,
        decreases n - k,
    {
        slots.push(None);
        k = k + 1;
    }
    let len = entries.len();
    let mut rest = entries;
    let mut i: usize = 0;
    proof {
        assert(es.skip(0) =~= es);
    }
    while i < len
        invariant
            len == es.len(),
            keys == entry_keys(es),
            forall|j: int| 0 <= j < es.len() ==> #[trigger] es[j].0 < n,
            0 <= i <= len,
            rest@ == es.skip(i as int),
            slots@.len() == n,
            forall|j: int| 0 <= j < i ==> !#[trigger] repeats_earlier(keys, j),
            forall|m: int| 0 <= m < n ==> (#[trigger] slots@[m] is Some <==> exists|j: int| 0 <= j < i && keys[j] == m),
            forall|j: int| 0 <= j < i ==> slots@[#[trigger] keys[j] as int] == Some(es[j].1),
        decreases len - i,
    {
        proof {
            assert(es.skip(i as int)[0] == es[i as int]);
            assert(es.skip(i as int).remove(0) =~= es.skip(i + 1));
            assert(keys[i as int] == es[i as int].0);
        }
        let (key, value) = rest.remove(0);
        if slots[key].is_some() {
            proof {
                let j = choose|j: int| 0 <= j < i && keys[j] == key;
                assert(keys[i as int] == key);
                assert(repeats_earlier(keys, i as int));
                assert(!keys_distinct(keys));
            }
            return Err(FillError::Duplicate(key));
        }
        proof {
            assert(!repeats_earlier(keys, i as int));
        }
        slots.set(key, Some(value));
        proof {
            assert forall|j: int| 0 <= j < i + 1 implies slots@[#[trigger] keys[j] as int] == Some(es[j].1) by {
                if j < i {
                    assert(keys[j] != key);
                }
            }
            assert forall|m: int| 0 <= m < n implies (#[trigger] slots@[m] is Some <==> exists|j: int| 0 <= j < i + 1 && keys[j] == m) by {
                if m == key as int {
                    assert(keys[i as int] == m);
                } else {
                    if exists|j: int| 0 <= j < i + 1 && keys[j] == m {
                        let j = choose|j: int| 0 <= j < i + 1 && keys[j] == m;
                        assert(j < i);
                    }
                }
            }
        }
        i = i + 1;
    }
    proof {
        assert(keys_distinct(keys));
        assert forall|m: int| 0 <= m < n implies (#[trigger] slots@[m] is Some <==> keys.contains(m as usize)) by {
            if slots@[m] is Some {
                let j = choose|j: int| 0 <= j < len && keys[j] == m;
                assert(keys[j] == m as usize);
            }
            if keys.contains(m as usize) {
                let j = choose|j: int| 0 <= j < keys.len() && keys[j] == m as usize;
                assert(keys[j] == m);
            }
        }
    }
    let ghost full = slots@;
    let mut out: Vec<T> = Vec::new();
    let mut k: usize = 0;
    while k < n
        invariant
            0 <= k <= n,
            full.len() == n,
            slots@ == full.skip(k as int),
            out@.len() == k,
            forall|m: int| 0 <= m < k ==> full[m] == Some(#[trigger] out@[m]),
            forall|m: int| 0 <= m < k ==> #[trigger] full[m] is Some,
            forall|m: int| 0 <= m < n ==> (#[trigger] full[m] is Some <==> keys.contains(m as usize)),
            keys_distinct(keys),
        decreases n - k,
    {
        proof {
            assert(full.skip(k as int)[0] == full[k as int]);
            assert(full.skip(k as int).remove(0) =~= full.skip(k + 1));
        }
        match slots.remove(0) {
            Some(v) => {
                out.push(v);
            },
            None => {
                proof {
                    assert(full[k as int] is None);
                    assert(!keys.contains(k));
                    assert forall|m: int| 0 <= m < k implies #[trigger] keys.contains(m as usize) by {
                        assert(full[m] is Some);
                    }
                }
                return Err(FillError::Missing(k));
            },
        }
        k = k + 1;
    }
    proof {
        assert forall|m: int| 0 <= m < n implies #[trigger] keys.contains(m as usize) by {
            assert(full[m] is Some);
        }
        assert forall|j: int| 0 <= j < keys.len() implies out@[#[trigger] keys[j] as int] == es[j].1 by {
            assert(full[keys[j] as int] == Some(es[j].1));
        }
    }
    Ok(out)
}

} // verus!
