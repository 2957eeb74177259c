//! The library-wide laws: statements that tie several operations
//! together, each proved from the contracts in the other modules.

use crate::codec::{
    enc_catalog, enc_ids_ok, enc_request, lemma_p_catalog_doc_enc, lemma_p_request_doc_enc,
    lemma_request_not_response, p_catalog_doc, ModeView,
};
use crate::coordinator::{classify_spec, handle_event_spec, DirectiveView, EventView};
use crate::song::{ids_unique, SongView};
use crate::store::{
    filter_public, find_id, lemma_find_id_spec, lemma_max_id_ge, next_id_spec, remove_id,
    set_vis, with_public,
};
use vstd::prelude::*;

verus! {

/// Each created song's id exceeds every id already in the catalog, so
/// across any sequence of creations the assigned ids strictly increase;
/// and in an empty catalog — in particular after deleting every song —
/// the next id is 0.
pub proof fn law_created_id_fresh(c: Seq<SongView>)
    ensures
        forall|k: int| 0 <= k < c.len() ==> (#[trigger] c[k]).id < next_id_spec(c),
        c.len() == 0 ==> next_id_spec(c) == 0,
{
    assert forall|k: int| 0 <= k < c.len() implies (#[trigger] c[k]).id < next_id_spec(c) by {
        lemma_max_id_ge(c, k);
    }
}

/// Appending a song with the next id keeps the catalog's ids unique.
pub proof fn law_create_keeps_ids_unique(c: Seq<SongView>, s: SongView)
    requires
        ids_unique(c),
        s.id == next_id_spec(c),
    ensures
        ids_unique(c.push(s)),
{
    law_created_id_fresh(c);
    let d = c.push(s);
    assert forall|i: int, j: int|
        0 <= i < d.len() && 0 <= j < d.len() && i != j implies d[i].id != d[j].id by {
        if i < c.len() && j < c.len() {
            assert(c[i].id != c[j].id);
        } else if j == c.len() {
            assert(d[i] == c[i] && d[j] == s);
        } else {
            assert(d[j] == c[j] && d[i] == s);
        }
    }
}

/// A public snapshot never includes a private song, whatever the
/// catalog holds.
pub proof fn law_snapshot_only_public(c: Seq<SongView>)
    ensures
        forall|k: int|
            0 <= k < filter_public(c).len() ==> (#[trigger] filter_public(c)[k]).public,
    decreases c.len(),
{
    if c.len() > 0 {
        law_snapshot_only_public(c.drop_first());
        if c[0].public {
            assert forall|k: int|
                0 <= k < filter_public(c).len() implies (#[trigger] filter_public(
                c,
            )[k]).public by {
                if k > 0 {
                    assert(filter_public(c)[k] == filter_public(c.drop_first())[k - 1]);
                }
            }
        }
    }
}

/// Publishing a song and then making it private again restores the
/// catalog, for any id whose song is private to begin with — and so for
/// every song the store itself created — and also when no song has the
/// id at all.
pub proof fn law_visibility_toggle_restores(c: Seq<SongView>, id: int)
    requires
        forall|k: int| 0 <= k < c.len() && (#[trigger] c[k]).id == id ==> !c[k].public,
    ensures
        set_vis(set_vis(c, id, true), id, false) == c,
{
    let d = set_vis(c, id, true);
    let e = set_vis(d, id, false);
    assert forall|k: int| 0 <= k < c.len() implies e[k] == c[k] by {
        assert(d[k] == if c[k].id == id {
            with_public(c[k], true)
        } else {
            c[k]
        });
        assert(e[k] == if d[k].id == id {
            with_public(d[k], false)
        } else {
            d[k]
        });
    }
    assert(e =~= c);
}

/// Setting visibility for an id no song has changes nothing.
pub proof fn law_set_visibility_absent(c: Seq<SongView>, id: int, public: bool)
    requires
        find_id(c, id) == -1,
    ensures
        set_vis(c, id, public) == c,
{
    lemma_find_id_spec(c, id);
    assert(set_vis(c, id, public) =~= c);
}

/// Deleting removes exactly the one song with the id when it exists —
/// under id uniqueness there is only one — and leaves the catalog
/// unchanged when it does not.
pub proof fn law_delete_exact(c: Seq<SongView>, id: int)
    requires
        ids_unique(c),
    ensures
        find_id(c, id) >= 0 ==> {
            &&& c[find_id(c, id)].id == id
            &&& remove_id(c, id) == c.remove(find_id(c, id))
            &&& remove_id(c, id).len() == c.len() - 1
            &&& forall|k: int|
                0 <= k < c.len() && k != find_id(c, id) ==> (#[trigger] c[k]).id != id
        },
        find_id(c, id) == -1 ==> remove_id(c, id) == c,
{
    lemma_find_id_spec(c, id);
    if find_id(c, id) >= 0 {
        let f = find_id(c, id);
        assert forall|k: int| 0 <= k < c.len() && k != f implies (#[trigger] c[k]).id != id by {
            assert(c[k].id != c[f].id);
        }
    }
}

/// Loading what the store saved gives back exactly the saved catalog.
pub proof fn law_load_after_save(c: Seq<SongView>)
    requires
        enc_ids_ok(c),
    ensures
        p_catalog_doc(enc_catalog(c)) == Some(c),
{
    lemma_p_catalog_doc_enc(c);
}

/// Saving what was loaded reproduces the document, byte for byte, for
/// every document the store itself wrote (every document in canonical
/// form; a document that spells the same catalog with other escapes or
/// spacing re-saves in canonical form instead).
pub proof fn law_save_after_load(doc: Seq<char>)
    requires
        exists|c: Seq<SongView>| enc_ids_ok(c) && doc == enc_catalog(c),
    ensures
        p_catalog_doc(doc) is Some,
        enc_catalog(p_catalog_doc(doc)->Some_0) == doc,
{
    let c = choose|c: Seq<SongView>| enc_ids_ok(c) && doc == enc_catalog(c);
    lemma_p_catalog_doc_enc(c);
}

/// One whole load-mutate-save cycle of the store, as a value: which
/// mutation it runs.
pub ghost enum StoreCycle {
    Create { title: Seq<char>, artist: Seq<char>, lyrics: Seq<char>, explicit: Seq<char> },
    Delete(int),
    SetVisibility(int, bool),
}

/// What one cycle does to the catalog it loaded.
pub open spec fn apply_cycle(c: Seq<SongView>, op: StoreCycle) -> Seq<SongView> {
    match op {
        StoreCycle::Create { title, artist, lyrics, explicit } => c.push(
            SongView { id: next_id_spec(c), title, artist, lyrics, explicit, public: false },
        ),
        StoreCycle::Delete(id) => remove_id(c, id),
        StoreCycle::SetVisibility(id, public) => set_vis(c, id, public),
    }
}

/// The document one cycle saves, given the document it loaded: the
/// canonical encoding of the mutated catalog.  This is exactly what the
/// contracts of `store::create`, `store::delete` and
/// `store::set_visibility` say each call writes.
pub open spec fn cycle_doc(doc: Seq<char>, op: StoreCycle) -> Seq<char> {
    enc_catalog(apply_cycle(p_catalog_doc(doc)->Some_0, op))
}

/// Whether the cycle stays inside the id space: only a creation can run
/// out of ids.
pub open spec fn cycle_fits(c: Seq<SongView>, op: StoreCycle) -> bool {
    match op {
        StoreCycle::Create { .. } => next_id_spec(c) <= usize::MAX as int,
        _ => true,
    }
}

/// A cycle keeps every id inside the range a `usize` can hold.
proof fn lemma_apply_cycle_ids_ok(c: Seq<SongView>, op: StoreCycle)
    requires
        enc_ids_ok(c),
        cycle_fits(c, op),
    ensures
        enc_ids_ok(apply_cycle(c, op)),
{
    let d = apply_cycle(c, op);
    match op {
        StoreCycle::Create { title, artist, lyrics, explicit } => {
            if c.len() > 0 {
                lemma_max_id_ge(c, 0);
            }
            assert forall|k: int| 0 <= k < d.len() implies 0 <= (#[trigger] d[k]).id
                <= usize::MAX as int by {
                if k < c.len() {
                    assert(d[k] == c[k]);
                }
            }
        },
        StoreCycle::Delete(id) => {
            lemma_find_id_spec(c, id);
            if find_id(c, id) != -1 {
                let f = find_id(c, id);
                assert forall|k: int| 0 <= k < d.len() implies 0 <= (#[trigger] d[k]).id
                    <= usize::MAX as int by {
                    if k < f {
                        assert(d[k] == c[k]);
                    } else {
                        assert(d[k] == c[k + 1]);
                    }
                }
            }
        },
        StoreCycle::SetVisibility(id, public) => {
            assert forall|k: int| 0 <= k < d.len() implies 0 <= (#[trigger] d[k]).id
                <= usize::MAX as int by {
                assert(d[k] == if c[k].id == id {
                    with_public(c[k], public)
                } else {
                    c[k]
                });
            }
        },
    }
}

/// Two catalog-mutating commands submitted through the coordinator run
/// as two whole cycles, one after the other: the second cycle's load
/// observes exactly the catalog the first cycle saved — never a partial
/// or stale state — and the final catalog is the sequential composition
/// of the two mutations.
pub proof fn law_cycles_never_interleave(
    c: Seq<SongView>,
    doc: Seq<char>,
    op1: StoreCycle,
    op2: StoreCycle,
)
    requires
        enc_ids_ok(c),
        p_catalog_doc(doc) == Some(c),
        cycle_fits(c, op1),
        cycle_fits(apply_cycle(c, op1), op2),
    ensures
        p_catalog_doc(cycle_doc(doc, op1)) == Some(apply_cycle(c, op1)),
        p_catalog_doc(cycle_doc(cycle_doc(doc, op1), op2)) == Some(
            apply_cycle(apply_cycle(c, op1), op2),
        ),
{
    lemma_apply_cycle_ids_ok(c, op1);
    lemma_p_catalog_doc_enc(apply_cycle(c, op1));
    lemma_apply_cycle_ids_ok(apply_cycle(c, op1), op2);
    lemma_p_catalog_doc_enc(apply_cycle(apply_cycle(c, op1), op2));
}

/// A request aimed at one identity is ignored by every node with a
/// different identity: no response is produced there.
pub proof fn law_targeted_request_ignored_elsewhere(
    self_id: Seq<char>,
    source: Seq<char>,
    target: Seq<char>,
)
    requires
        target != self_id,
    ensures
        handle_event_spec(
            self_id,
            EventView::Inbound { source, payload: enc_request(ModeView::One(target)) },
        ) == DirectiveView::Ignore,
{
    let payload = enc_request(ModeView::One(target));
    lemma_request_not_response(ModeView::One(target));
    lemma_p_request_doc_enc(ModeView::One(target));
    assert(classify_spec(self_id, source, payload) == DirectiveView::Ignore);
}

} // verus!
