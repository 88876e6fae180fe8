//! Parameters of live filters: an ordered list of named values.

use vstd::prelude::*;

verus! {

/// Value of a filter parameter. Real numbers are fixed point
/// (`geometry::FIXED_ONE` = 1.0).
#[derive(Debug, Clone, PartialEq)]
pub enum ParamValue {
    Float(i64),
    Int(i32),
    Bool(bool),
    Color([i64; 4]),
    Text(String),
    Enum(String),
}

/// A named parameter.
#[derive(Debug, Clone, PartialEq)]
pub struct ParamEntry {
    pub key: String,
    pub value: ParamValue,
}

/// Index of the first entry named `key`, if any.
pub open spec fn param_index(entries: Seq<ParamEntry>, key: Seq<char>) -> Option<int>
    decreases entries.len(),
{
    if entries.len() == 0 {
        None
    } else if entries[0].key@ == key {
        Some(0)
    } else {
        match param_index(entries.drop_first(), key) {
            Some(i) => Some(i + 1),
            None => None,
        }
    }
}

/// Value of the parameter `key` (its first entry), if any.
pub open spec fn param_lookup(entries: Seq<ParamEntry>, key: Seq<char>) -> Option<ParamValue> {
    match param_index(entries, key) {
        Some(i) => Some(entries[i].value),
        None => None,
    }
}

/// The list after setting `key` to `value`: the first entry of that name
/// takes the value, or a new entry is appended.
pub open spec fn params_with(entries: Seq<ParamEntry>, key: String, value: ParamValue) -> Seq<
    ParamEntry,
> {
    match param_index(entries, key@) {
        Some(i) => entries.update(i, ParamEntry { key: entries[i].key, value }),
        None => entries.push(ParamEntry { key, value }),
    }
}

/// `param_index` is the first position holding `key`.
pub proof fn lemma_param_index(entries: Seq<ParamEntry>, key: Seq<char>)
    ensures
        match param_index(entries, key) {
            Some(i) => 0 <= i < entries.len() && entries[i].key@ == key && forall|j: int|
                0 <= j < i ==> entries[j].key@ != key,
            None => forall|j: int| 0 <= j < entries.len() ==> entries[j].key@ != key,
        },
    decreases entries.len(),
{
    if entries.len() > 0 {
        lemma_param_index(entries.drop_first(), key);
        if entries[0].key@ != key {
            assert forall|j: int| 1 <= j < entries.len() implies #[trigger] entries[j] == entries.drop_first()[j - 1] by {}
        }
    }
}

/// No name occurs twice in the list.
pub open spec fn keys_unique(entries: Seq<ParamEntry>) -> bool {
    forall|i: int, j: int|
        0 <= i < j < entries.len() ==> #[trigger] entries[i].key@ != #[trigger] entries[j].key@
}

/// Setting a parameter keeps every name at most once in the list (when it
/// was so before); reading that name then gives back the value written,
/// and every other name keeps its value.
pub proof fn law_set_param(entries: Seq<ParamEntry>, key: String, value: ParamValue, other: Seq<char>)
    requires
        keys_unique(entries),
    ensures
        keys_unique(params_with(entries, key, value)),
        param_lookup(params_with(entries, key, value), key@) == Some(value),
        other != key@ ==> param_lookup(params_with(entries, key, value), other) == param_lookup(
            entries,
            other,
        ),
{
    let r = params_with(entries, key, value);
    lemma_param_index(entries, key@);
    lemma_param_index(entries, other);
    lemma_param_index(r, key@);
    lemma_param_index(r, other);
    assert forall|i: int, j: int| 0 <= i < j < r.len() implies #[trigger] r[i].key@
        != #[trigger] r[j].key@ by {
        if j == entries.len() {
            assert(r[i].key@ == entries[i].key@);
        }
    }
    match param_index(entries, key@) {
        Some(k) => {
            assert(r[k].key@ == key@);
            if other != key@ {
                match param_index(entries, other) {
                    Some(m) => {
                        assert(r[m] == entries[m]);
                    },
                    None => {
                        assert forall|j: int| 0 <= j < r.len() implies r[j].key@ != other by {
                            if j != k {
                                assert(r[j] == entries[j]);
                            }
                        }
                    },
                }
            }
        },
        None => {
            assert(r[entries.len() as int].key@ == key@);
            if other != key@ {
                match param_index(entries, other) {
                    Some(m) => {
                        assert(r[m] == entries[m]);
                    },
                    None => {},
                }
            }
        },
    }
}

/// Setting a parameter to another value, then back to the value it had,
/// gives back the list.
pub proof fn lemma_params_set_back(
    entries: Seq<ParamEntry>,
    key: String,
    after: ParamValue,
    key2: String,
    before: ParamValue,
)
    requires
        param_lookup(entries, key@) == Some(before),
        key2@ == key@,
    ensures
        params_with(params_with(entries, key, after), key2, before) == entries,
{
    let once = params_with(entries, key, after);
    lemma_param_index(entries, key@);
    lemma_param_index(once, key@);
    let k = param_index(entries, key@)->0;
    assert(once =~= entries.update(k, ParamEntry { key: entries[k].key, value: after }));
    assert(param_index(once, key@) == Some(k)) by {
        match param_index(once, key@) {
            Some(m) => {
                if m < k {
                    assert(once[m] == entries[m]);
                } else if m > k {
                    assert(once[k].key@ == key@);
                }
            },
            None => {
                assert(once[k].key@ == key@);
            },
        }
    }
    assert(params_with(once, key2, before) =~= entries);
}

/// Sets the parameter `key` to `value` (replacing the first entry of that
/// name, or appending one).
pub fn set_param(entries: &mut Vec<ParamEntry>, key: String, value: ParamValue)
    ensures
        final(entries)@ == params_with(old(entries)@, key, value),
        keys_unique(old(entries)@) ==> keys_unique(final(entries)@),
{
    proof {
        lemma_param_index(entries@, key@);
        if keys_unique(entries@) {
            law_set_param(entries@, key, value, key@);
        }
    }
    let mut i: usize = 0;
    while i < entries.len()
        invariant
            i <= entries.len(),
            entries@ == old(entries)@,
            forall|j: int| 0 <= j < i ==> entries@[j].key@ != key@,
            match param_index(entries@, key@) {
                Some(k) => 0 <= k < entries.len() && entries@[k].key@ == key@ && forall|j: int|
                    0 <= j < k ==> entries@[j].key@ != key@,
                None => forall|j: int| 0 <= j < entries.len() ==> entries@[j].key@ != key@,
            },
        decreases entries.len() - i,
    {
        if entries[i].key == key {
            let ghost k = param_index(entries@, key@);
            assert(k == Some(i as int)) by {
                if k is None {
                } else {
                    let kk = k->0;
                    if kk < i {
                    } else if kk > i {
                    }
                }
            }
            let name = entries[i].key.clone();
            entries.set(i, ParamEntry { key: name, value });
            return;
        }
        i += 1;
    }
    entries.push(ParamEntry { key, value });
}

/// Value of the parameter `key`, if any.
pub fn get_param<'a>(entries: &'a Vec<ParamEntry>, key: &String) -> (v: Option<&'a ParamValue>)
    ensures
        match v {
            Some(x) => param_lookup(entries@, key@) == Some(*x),
            None => param_lookup(entries@, key@) is None,
        },
{
    proof {
        lemma_param_index(entries@, key@);
    }
    let mut i: usize = 0;
    while i < entries.len()
        invariant
            i <= entries.len(),
            forall|j: int| 0 <= j < i ==> entries@[j].key@ != key@,
            match param_index(entries@, key@) {
                Some(k) => 0 <= k < entries.len() && entries@[k].key@ == key@ && forall|j: int|
                    0 <= j < k ==> entries@[j].key@ != key@,
                None => forall|j: int| 0 <= j < entries.len() ==> entries@[j].key@ != key@,
            },
        decreases entries.len() - i,
    {
        if entries[i].key == *key {
            let ghost k = param_index(entries@, key@);
            assert(k == Some(i as int)) by {
                if k is Some {
                    let kk = k->0;
                    if kk < i {
                    } else if kk > i {
                    }
                }
            }
            return Some(&entries[i].value);
        }
        i += 1;
    }
    None
}

} // verus!
