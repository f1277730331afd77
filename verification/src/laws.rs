use vstd::prelude::*;

use crate::object::SharedObject;
use crate::registry::Registry;
use crate::registry::ids_unique;
use crate::registry::map_has_id;

verus! {

/// Law of mutual exclusion: once an attach has succeeded, the name is bound
/// to exactly the attached entry, so until a removal any further attach for
/// the same name finds the name present and — by `Registry::try_attach`'s
/// contract — is rejected rather than overwriting the entry.
pub proof fn lemma_attach_exclusion(
    m: Map<Seq<char>, (u64, SharedObject)>,
    n: Seq<char>,
    e: (u64, SharedObject),
)
    ensures
        m.insert(n, e).contains_key(n),
        m.insert(n, e)[n] == e,
{
}

/// Law of the lifecycle tie: attaching a name and then discharging the
/// attaching handle's obligation (which removes the name) leaves the name
/// absent, whatever was bound before.
pub proof fn lemma_lifecycle_tie(
    m: Map<Seq<char>, (u64, SharedObject)>,
    n: Seq<char>,
    e: (u64, SharedObject),
)
    ensures
        !m.insert(n, e).remove(n).contains_key(n),
{
}

/// Law of idempotent removal: removing an absent name leaves the model
/// exactly as it was.
pub proof fn lemma_remove_absent(m: Map<Seq<char>, (u64, SharedObject)>, n: Seq<char>)
    requires
        !m.contains_key(n),
    ensures
        m.remove(n) == m,
{
    assert(m.remove(n) =~= m);
}

/// Law of non-resurrection: when no two names share an issue number, removing
/// a name takes its issue number out of the model entirely, so a reference
/// that was handed out for the removed entry no longer resolves anywhere.
pub proof fn lemma_removal_unresolvable(m: Map<Seq<char>, (u64, SharedObject)>, n: Seq<char>)
    requires
        ids_unique(m),
        m.contains_key(n),
    ensures
        !map_has_id(m.remove(n), m[n].0),
{
    assert forall|k: Seq<char>| #[trigger] m.remove(n).contains_key(k)
        implies m.remove(n)[k].0 != m[n].0 by {
        assert(k != n);
        assert(m.contains_key(k) && m.remove(n)[k] == m[k]);
        if m[k].0 == m[n].0 {
            assert(k == n);
        }
    }
}

/// The non-resurrection law on a live registry: a well-formed registry never
/// shares issue numbers between names, so once the entry of `n` is removed,
/// a reference handed out for it resolves nowhere — which is exactly the
/// situation `Registry::remove` leaves behind and `Registry::resolve` reads.
pub proof fn lemma_removed_reference_resolves_nowhere(r: Registry, n: Seq<char>)
    requires
        r.wf(),
        r@.contains_key(n),
    ensures
        !map_has_id(r@.remove(n), r@[n].0),
{
    r.lemma_ids();
    lemma_removal_unresolvable(r@, n);
}

/// Law of non-resurrection across a re-attach: even if the same name is
/// attached again afterwards, a reference to the removed entry still
/// resolves nowhere, because the new entry carries a different issue number.
pub proof fn lemma_reattach_no_resurrection(
    m: Map<Seq<char>, (u64, SharedObject)>,
    n: Seq<char>,
    e: (u64, SharedObject),
)
    requires
        ids_unique(m),
        m.contains_key(n),
        e.0 != m[n].0,
    ensures
        !map_has_id(m.remove(n).insert(n, e), m[n].0),
{
    let m2 = m.remove(n).insert(n, e);
    assert forall|k: Seq<char>| #[trigger] m2.contains_key(k) implies m2[k].0 != m[n].0 by {
        if k == n {
            assert(m2[k] == e);
        } else {
            assert(m.contains_key(k) && m2[k] == m[k]);
            if m[k].0 == m[n].0 {
                assert(k == n);
            }
        }
    }
}

} // verus!
