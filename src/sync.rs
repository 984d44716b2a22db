//! The decisions of a synchronisation run, one catalog entry at a time.
use vstd::prelude::*;
use crate::doc::Doc;
use crate::episode::{is_merge_of, is_stale, refreshed, Episode, VERSION};
use crate::metadata::Metadata as ItemMetadata;
use crate::mp3metadata::Mp3Metadata;

verus! {

/// What the local corpus holds for a catalog entry.
pub enum LocalRecord {
    /// No record file.
    Absent,
    /// A record file that could not be read or parsed.
    Unreadable,
    /// The record read from its file.
    Present(Episode),
}

/// What to do for a catalog entry.
pub enum Plan {
    /// Fetch the item's metadata and create its record.
    Fetch,
    /// Leave the entry for a later run (its record is unreadable).
    Skip,
    /// The record is up to date.
    Keep,
    /// Write this updated record (no notification).
    Persist(Episode),
}

/// The plan for entry `doc` given what is stored for it.
pub open spec fn plan_of(doc: Doc, local: LocalRecord) -> Plan {
    match local {
        LocalRecord::Absent => Plan::Fetch,
        LocalRecord::Unreadable => Plan::Skip,
        LocalRecord::Present(e) => if is_stale(e, doc) {
            Plan::Persist(refreshed(e, doc))
        } else {
            Plan::Keep
        },
    }
}

/// Decides what to do for the catalog entry `doc`.
pub fn plan_entry(doc: &Doc, local: LocalRecord) -> (r: Plan)
    ensures
        r == plan_of(*doc, local),
{
    match local {
        LocalRecord::Absent => Plan::Fetch,
        LocalRecord::Unreadable => Plan::Skip,
        LocalRecord::Present(e) => {
            let mut e = e;
            if e.refresh(doc) {
                Plan::Persist(e)
            } else {
                Plan::Keep
            }
        },
    }
}

/// The record of a new entry once its two fetches are back: `None` unless
/// both brought data. A record made here is written and announced.
pub fn create_entry(doc: &Doc, meta: Option<ItemMetadata>, mp3: Option<Mp3Metadata>) -> (r: Option<
    Episode,
>)
    ensures
        r is Some <==> meta is Some && mp3 is Some,
        r matches Some(e) ==> is_merge_of(e, *doc, meta->0, mp3->0),
{
    match (meta, mp3) {
        (Some(m), Some(a)) => Some(Episode::combine(doc, &m, &a)),
        _ => None,
    }
}

/// Whether a run writes a record for entry `doc`, given what is stored and
/// what its fetches yield (`created`).
pub open spec fn writes(doc: Doc, local: LocalRecord, created: Option<Episode>) -> bool {
    match plan_of(doc, local) {
        Plan::Persist(_) => true,
        Plan::Fetch => created is Some,
        _ => false,
    }
}

/// What is stored for entry `doc` after a run whose writes succeed.
pub open spec fn after_run(doc: Doc, local: LocalRecord, created: Option<Episode>) -> LocalRecord {
    match plan_of(doc, local) {
        Plan::Persist(e) => LocalRecord::Present(e),
        Plan::Fetch => match created {
            Some(e) => LocalRecord::Present(e),
            None => LocalRecord::Absent,
        },
        _ => local,
    }
}

/// A record stored with layout version 0 is always written again, at the
/// current version, even when nothing else about it changed.
pub proof fn lemma_old_layout_rewritten(doc: Doc, e: Episode)
    requires
        e.metadata.version == 0,
    ensures
        plan_of(doc, LocalRecord::Present(e)) == Plan::Persist(refreshed(e, doc)),
        refreshed(e, doc).metadata.version == VERSION,
{
}

/// Against an unchanged catalog entry and unchanged remote metadata, a
/// second run right after a first one writes nothing.
pub proof fn lemma_resync_idempotent(
    doc: Doc,
    local: LocalRecord,
    created: Option<Episode>,
    meta: ItemMetadata,
    mp3: Mp3Metadata,
)
    requires
        created matches Some(e) ==> is_merge_of(e, doc, meta, mp3),
    ensures
        !writes(doc, after_run(doc, local, created), created),
{
}


/// How many records a run over the entries `docs` writes, given what is
/// stored for each (`locals`) and what its fetches yield (`created`).
pub open spec fn batch_writes(docs: Seq<Doc>, locals: Seq<LocalRecord>, created: Seq<Option<Episode>>) -> nat
    decreases docs.len(),
{
    if docs.len() == 0 || locals.len() == 0 || created.len() == 0 {
        0
    } else {
        batch_writes(docs.drop_last(), locals.drop_last(), created.drop_last()) + if writes(
            docs.last(),
            locals.last(),
            created.last(),
        ) {
            1nat
        } else {
            0nat
        }
    }
}

/// What is stored for each of the entries `docs` after a run whose writes
/// succeed.
pub open spec fn batch_after(docs: Seq<Doc>, locals: Seq<LocalRecord>, created: Seq<Option<Episode>>) -> Seq<
    LocalRecord,
> {
    Seq::new(docs.len(), |i: int| after_run(docs[i], locals[i], created[i]))
}

/// Run twice over an unchanged catalog, with unchanged remote metadata (the
/// record made for entry `i` merges `docs[i]`, `metas[i]` and `mp3s[i]`),
/// the second run writes no record.
pub proof fn lemma_batch_resync_idempotent(
    docs: Seq<Doc>,
    locals: Seq<LocalRecord>,
    created: Seq<Option<Episode>>,
    metas: Seq<ItemMetadata>,
    mp3s: Seq<Mp3Metadata>,
)
    requires
        locals.len() == docs.len(),
        created.len() == docs.len(),
        metas.len() == docs.len(),
        mp3s.len() == docs.len(),
        forall|i: int|
            0 <= i < docs.len() ==> (#[trigger] created[i] matches Some(e) ==> is_merge_of(
                e,
                docs[i],
                metas[i],
                mp3s[i],
            )),
    ensures
        batch_writes(docs, batch_after(docs, locals, created), created) == 0,
    decreases docs.len(),
{
    if docs.len() > 0 {
        let n = docs.len() - 1;
        lemma_batch_resync_idempotent(
            docs.drop_last(),
            locals.drop_last(),
            created.drop_last(),
            metas.drop_last(),
            mp3s.drop_last(),
        );
        assert(batch_after(docs, locals, created).drop_last() =~= batch_after(
            docs.drop_last(),
            locals.drop_last(),
            created.drop_last(),
        ));
        assert(created[n] matches Some(e) ==> is_merge_of(e, docs[n], metas[n], mp3s[n]));
        lemma_resync_idempotent(docs[n], locals[n], created[n], metas[n], mp3s[n]);
    }
}

} // verus!
