//! Lookup by user name, and character-wise string equality.
//!
//! Configurations and the ledger key their entries by user name; a lookup
//! always means the first entry carrying the name.

use vstd::prelude::*;
use vstd::string::StrSliceExecFns;

verus! {

/// The character sequences a list of strings holds.
pub open spec fn spec_names(v: Seq<String>) -> Seq<Seq<char>> {
    v.map_values(|s: String| s@)
}

/// Index of the first entry keyed by `name`, or `-1` when none is.
/// Entries are `(name, value)` pairs, as configurations and the ledger
/// hold them.
pub open spec fn spec_name_idx<T>(entries: Seq<(Seq<char>, T)>, name: Seq<char>) -> int
    decreases entries.len(),
{
    if entries.len() == 0 {
        -1
    } else if entries[0].0 == name {
        0
    } else if spec_name_idx(entries.drop_first(), name) == -1 {
        -1
    } else {
        spec_name_idx(entries.drop_first(), name) + 1
    }
}

/// Whether some entry is keyed by `name`.
pub open spec fn spec_has_name<T>(entries: Seq<(Seq<char>, T)>, name: Seq<char>) -> bool {
    spec_name_idx(entries, name) != -1
}

/// What `spec_name_idx` returns: `-1` exactly when no entry carries the
/// name; otherwise an in-range index carrying it, with no earlier entry
/// carrying it.
pub proof fn lemma_name_idx<T>(entries: Seq<(Seq<char>, T)>, name: Seq<char>)
    ensures
        spec_name_idx(entries, name) == -1 <==> (forall|i: int|
            0 <= i < entries.len() ==> entries[i].0 != name),
        spec_name_idx(entries, name) != -1 ==> 0 <= spec_name_idx(entries, name) < entries.len()
            && entries[spec_name_idx(entries, name)].0 == name,
        forall|j: int| 0 <= j < spec_name_idx(entries, name) ==> entries[j].0 != name,
    decreases entries.len(),
{
    if entries.len() > 0 {
        let rest = entries.drop_first();
        lemma_name_idx(rest, name);
        if entries[0].0 != name {
            if spec_name_idx(rest, name) == -1 {
                assert forall|i: int| 0 <= i < entries.len() implies entries[i].0 != name by {
                    if i > 0 {
                        assert(rest[i - 1] == entries[i]);
                    }
                }
            } else {
                let k = spec_name_idx(rest, name);
                assert(rest[k] == entries[k + 1]);
                assert forall|j: int| 0 <= j < k + 1 implies entries[j].0 != name by {
                    if j > 0 {
                        assert(rest[j - 1] == entries[j]);
                    }
                }
            }
        }
    }
}

/// The converse: an entry carrying `name`, with no earlier entry carrying
/// it, sits at the index `spec_name_idx` returns.
pub proof fn lemma_name_idx_is<T>(entries: Seq<(Seq<char>, T)>, name: Seq<char>, i: int)
    requires
        0 <= i < entries.len(),
        entries[i].0 == name,
        forall|j: int| 0 <= j < i ==> entries[j].0 != name,
    ensures
        spec_name_idx(entries, name) == i,
    decreases entries.len(),
{
    if i > 0 {
        let rest = entries.drop_first();
        assert(forall|j: int| 0 <= j < rest.len() ==> rest[j] == entries[j + 1]);
        lemma_name_idx_is(rest, name, i - 1);
    }
}

/// Character-for-character string equality: true exactly when the two
/// strings read the same.
pub fn str_eq(a: &str, b: &str) -> (r: bool)
    ensures
        r == (a@ == b@),
{
    let alen = a.unicode_len();
    let blen = b.unicode_len();
    if alen != blen {
        return false;
    }
    let mut i: usize = 0;
    while i < alen
        invariant
            i <= alen,
            alen == a@.len(),
            blen == b@.len(),
            alen == blen,
            forall|j: int| 0 <= j < i ==> a@[j] == b@[j],
        decreases alen - i,
    {
        let ca = a.get_char(i);
        let cb = b.get_char(i);
        if ca != cb {
            return false;
        }
        i = i + 1;
    }
    proof {
        assert(a@ =~= b@);
    }
    true
}

} // verus!
