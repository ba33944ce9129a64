use vstd::prelude::*;
use vstd::string::StrSliceExecFns;
use crate::models::api::{ApiPrinter, ApiPrinterView};
use crate::models::{Printer, PrinterView};
use crate::printer_storage::{
    find_stable_id, has_stable_id, lemma_find_stable_id_hit, unique_stable_ids, PrinterMap,
};
use crate::seqs::{
    first_where, lemma_contains_push, lemma_first_where_hit, lemma_first_where_none,
};

verus! {

/// Matches a remote record through the primary index: its stable id
/// equals the local printer's.
pub open spec fn stable_record_pred(sid: Seq<char>) -> spec_fn(ApiPrinterView) -> bool {
    |r: ApiPrinterView| r.system_name == Some(sid)
}

/// Matches a remote record through the fallback index: it predates stable
/// ids and its display name equals the local printer's.
pub open spec fn legacy_record_pred(name: Seq<char>) -> spec_fn(ApiPrinterView) -> bool {
    |r: ApiPrinterView| r.system_name is None && r.name == name
}

/// The first remote record carrying this stable id.
pub open spec fn find_stable_record(remote: Seq<ApiPrinterView>, sid: Seq<char>) -> Option<
    ApiPrinterView,
> {
    first_where(remote, stable_record_pred(sid))
}

/// The first remote record without a stable id carrying this display name.
pub open spec fn find_legacy_record(remote: Seq<ApiPrinterView>, name: Seq<char>) -> Option<
    ApiPrinterView,
> {
    first_where(remote, legacy_record_pred(name))
}

/// How a local printer resolves its remote identity: by stable id first,
/// else by the legacy display-name fallback (which flags the record for a
/// forced backfill update), else from the previously synced map, else not
/// at all. The second component is the legacy flag.
pub open spec fn resolution(
    p: PrinterView,
    remote: Seq<ApiPrinterView>,
    synced: Seq<PrinterView>,
) -> (Option<u32>, bool) {
    match find_stable_record(remote, p.stable_id) {
        Some(r) => (r.id, false),
        None => match find_legacy_record(remote, p.display_name) {
            Some(r) => (r.id, true),
            None => match find_stable_id(synced, p.stable_id) {
                Some(q) => (q.remote_id, false),
                None => (None, false),
            },
        },
    }
}

/// The local printer as the pass will sync it: its own fields under the
/// resolved remote identity.
pub open spec fn resolved_view(
    p: PrinterView,
    remote: Seq<ApiPrinterView>,
    synced: Seq<PrinterView>,
) -> PrinterView {
    PrinterView { remote_id: resolution(p, remote, synced).0, ..p }
}

/// The fields whose change drives a remote update.
pub open spec fn comparable_fields_differ(a: PrinterView, b: PrinterView) -> bool {
    ||| a.description != b.description
    ||| a.location != b.location
    ||| a.driver_info != b.driver_info
    ||| a.media_sizes != b.media_sizes
    ||| a.remote_id != b.remote_id
}

/// Whether the pass must update this printer remotely: it has a remote
/// identity, and either it was matched through the legacy fallback (always
/// updated, so the stable id gets backfilled), or the synced map holds it
/// with differing comparable fields.
pub open spec fn needs_update(
    p: PrinterView,
    remote: Seq<ApiPrinterView>,
    synced: Seq<PrinterView>,
) -> bool {
    let r = resolution(p, remote, synced);
    &&& r.0 is Some
    &&& {
        ||| r.1
        ||| (find_stable_id(synced, p.stable_id) matches Some(e) && comparable_fields_differ(
            resolved_view(p, remote, synced),
            e,
        ))
    }
}

/// What one pass decides for the locally discovered printers: the map to
/// sync, the printers to create remotely, and the printers to update.
#[verifier::ext_equal]
pub struct SyncPlanModel {
    pub resolved: Seq<PrinterView>,
    pub creates: Seq<PrinterView>,
    pub updates: Seq<PrinterView>,
}

pub open spec fn plan_model(
    local: Seq<PrinterView>,
    synced: Seq<PrinterView>,
    remote: Seq<ApiPrinterView>,
) -> SyncPlanModel
    decreases local.len(),
{
    if local.len() == 0 {
        SyncPlanModel { resolved: Seq::empty(), creates: Seq::empty(), updates: Seq::empty() }
    } else {
        let rest = plan_model(local.drop_last(), synced, remote);
        let p = local.last();
        let rp = resolved_view(p, remote, synced);
        SyncPlanModel {
            resolved: rest.resolved.push(rp),
            creates: if resolution(p, remote, synced).0 is None {
                rest.creates.push(rp)
            } else {
                rest.creates
            },
            updates: if needs_update(p, remote, synced) {
                rest.updates.push(rp)
            } else {
                rest.updates
            },
        }
    }
}

/// The synced entries one pass removes remotely: those no longer reported
/// by the local spooler, provided they ever got a remote identity.
pub open spec fn deletes_model(synced: Seq<PrinterView>, local: Seq<PrinterView>) -> Seq<
    PrinterView,
>
    decreases synced.len(),
{
    if synced.len() == 0 {
        Seq::empty()
    } else {
        let rest = deletes_model(synced.drop_last(), local);
        let e = synced.last();
        if !has_stable_id(local, e.stable_id) && e.remote_id is Some {
            rest.push(e)
        } else {
            rest
        }
    }
}

/// The planned pass holds its entries in discovery order; the map is
/// well-formed whenever the discovered printers were.
pub proof fn lemma_plan_resolved_pointwise(
    local: Seq<PrinterView>,
    synced: Seq<PrinterView>,
    remote: Seq<ApiPrinterView>,
)
    ensures
        plan_model(local, synced, remote).resolved.len() == local.len(),
        forall|j: int|
            0 <= j < local.len() ==> plan_model(local, synced, remote).resolved[j]
                == resolved_view(#[trigger] local[j], remote, synced),
    decreases local.len(),
{
    if local.len() > 0 {
        lemma_plan_resolved_pointwise(local.drop_last(), synced, remote);
        assert(forall|j: int| 0 <= j < local.len() - 1 ==> local.drop_last()[j] == local[j]);
    }
}

/// Resolution never alters a printer's stable id, so the planned map keys
/// exactly the discovered printers.
pub proof fn lemma_plan_resolved_sids(
    local: Seq<PrinterView>,
    synced: Seq<PrinterView>,
    remote: Seq<ApiPrinterView>,
)
    ensures
        plan_model(local, synced, remote).resolved.len() == local.len(),
        forall|j: int|
            0 <= j < local.len() ==> plan_model(local, synced, remote).resolved[j].stable_id == (
            #[trigger] local[j]).stable_id,
        unique_stable_ids(local) ==> unique_stable_ids(plan_model(local, synced, remote).resolved),
{
    lemma_plan_resolved_pointwise(local, synced, remote);
    let r = plan_model(local, synced, remote).resolved;
    if unique_stable_ids(local) {
        assert forall|i: int, j: int| 0 <= i < j < r.len() implies (#[trigger] r[i]).stable_id != (
        #[trigger] r[j]).stable_id by {
            assert(r[i].stable_id == local[i].stable_id);
            assert(r[j].stable_id == local[j].stable_id);
        }
    }
}

/// The executable pass plan.
pub struct SyncPlan {
    pub resolved: PrinterMap,
    pub creates: Vec<Printer>,
    pub updates: Vec<Printer>,
    pub deletes: Vec<Printer>,
}

/// Whether the fields that drive a remote update differ.
pub fn update_fields_differ(a: &Printer, b: &Printer) -> (r: bool)
    ensures
        r == comparable_fields_differ(a@, b@),
{
    !a.description.eq(&b.description) || !a.location.eq(&b.location) || !a.driver_info.eq(
        &b.driver_info,
    ) || !crate::models::string_vecs_equal(&a.media_sizes, &b.media_sizes) || a.remote_id
        != b.remote_id
}

/// Resolve one local printer's remote identity; see `resolution` for the
/// order of precedence. Returns the identity and the legacy flag.
pub fn resolve_remote_identity(p: &Printer, remote: &Vec<ApiPrinter>, synced: &PrinterMap) -> (r:
    (Option<u32>, bool))
    ensures
        r == resolution(p@, remote.deep_view(), synced@),
{
    let ghost rv = remote.deep_view();
    proof {
        assert(rv.len() == remote@.len());
    }
    let n = remote.len();
    let mut i: usize = 0;
    while i < n
        invariant
            i <= n,
            n == remote@.len(),
            rv == remote.deep_view(),
            rv.len() == n,
            forall|j: int| 0 <= j < i ==> !stable_record_pred(p@.stable_id)(#[trigger] rv[j]),
        decreases n - i,
    {
        let rec = &remote[i];
        let hit: bool = match &rec.system_name {
            Some(s) => s.eq(&p.stable_id),
            None => false,
        };
        if hit {
            proof {
                assert(stable_record_pred(p@.stable_id)(rv[i as int]));
                lemma_first_where_hit(rv, stable_record_pred(p@.stable_id), i as int);
            }
            return (rec.id, false);
        }
        i = i + 1;
    }
    proof {
        lemma_first_where_none(rv, stable_record_pred(p@.stable_id));
    }
    let mut i: usize = 0;
    while i < n
        invariant
            i <= n,
            n == remote@.len(),
            rv == remote.deep_view(),
            rv.len() == n,
            find_stable_record(rv, p@.stable_id) is None,
            forall|j: int| 0 <= j < i ==> !legacy_record_pred(p@.display_name)(#[trigger] rv[j]),
        decreases n - i,
    {
        let rec = &remote[i];
        let hit: bool = match &rec.system_name {
            Some(_) => false,
            None => rec.name.eq(&p.display_name),
        };
        if hit {
            proof {
                assert(legacy_record_pred(p@.display_name)(rv[i as int]));
                lemma_first_where_hit(rv, legacy_record_pred(p@.display_name), i as int);
            }
            return (rec.id, true);
        }
        i = i + 1;
    }
    proof {
        lemma_first_where_none(rv, legacy_record_pred(p@.display_name));
    }
    match synced.get(&p.stable_id) {
        Some(q) => (q.remote_id, false),
        None => (None, false),
    }
}

/// Plan one synchronization pass: resolve every discovered printer, and
/// decide the creates, updates and deletes the remote directory needs.
/// The creates are the printers without a resolved identity; the updates
/// are exactly what `needs_update` selects; the deletes are exactly what
/// `deletes_model` selects. The caller issues the remote calls and folds
/// their results back with `PrinterMap::set_remote_id` and
/// `restore_failed_delete`.
pub fn plan_sync(local: &PrinterMap, synced: &PrinterMap, remote: &Vec<ApiPrinter>) -> (plan:
    SyncPlan)
    requires
        local.wf(),
    ensures
        plan.resolved@ == plan_model(local@, synced@, remote.deep_view()).resolved,
        plan.creates.deep_view() == plan_model(local@, synced@, remote.deep_view()).creates,
        plan.updates.deep_view() == plan_model(local@, synced@, remote.deep_view()).updates,
        plan.deletes.deep_view() == deletes_model(synced@, local@),
        plan.resolved.wf(),
{
    let ghost lv = local@;
    let ghost sv = synced@;
    let ghost rv = remote.deep_view();
    let n = local.len();
    let mut resolved = PrinterMap::new();
    let mut creates: Vec<Printer> = Vec::new();
    let mut updates: Vec<Printer> = Vec::new();
    let mut i: usize = 0;
    proof {
        assert(lv.take(0) =~= Seq::<PrinterView>::empty());
        assert(creates.deep_view() =~= Seq::<PrinterView>::empty());
        assert(updates.deep_view() =~= Seq::<PrinterView>::empty());
        assert(plan_model(lv.take(0), sv, rv) =~= (SyncPlanModel {
            resolved: Seq::empty(),
            creates: Seq::empty(),
            updates: Seq::empty(),
        }));
    }
    while i < n
        invariant
            i <= n,
            n == lv.len(),
            lv == local@,
            sv == synced@,
            rv == remote.deep_view(),
            local.wf(),
            resolved@ == plan_model(lv.take(i as int), sv, rv).resolved,
            creates.deep_view() == plan_model(lv.take(i as int), sv, rv).creates,
            updates.deep_view() == plan_model(lv.take(i as int), sv, rv).updates,
        decreases n - i,
    {
        let ghost prefix = lv.take(i as int);
        let ghost next = lv.take(i + 1 as int);
        proof {
            assert(next.drop_last() =~= prefix);
            assert(next.last() == lv[i as int]);
        }
        let p = local.entry_at(i);
        let (rid, legacy) = resolve_remote_identity(p, remote, synced);
        let rp = p.with_remote_id(rid);
        proof {
            assert(rp@ == resolved_view(lv[i as int], rv, sv));
            lemma_plan_resolved_sids(prefix, sv, rv);
            assert(forall|j: int|
                0 <= j < i ==> (#[trigger] resolved@[j]).stable_id == lv.take(i as int)[j].stable_id);
            assert(forall|j: int| 0 <= j < i ==> lv.take(i as int)[j] == lv[j]);
            if has_stable_id(resolved@, rp@.stable_id) {
                let w = choose|w: int|
                    0 <= w < resolved@.len() && (#[trigger] resolved@[w]).stable_id
                        == rp@.stable_id;
                assert(lv[w].stable_id == lv[i as int].stable_id);
                assert(false);
            }
        }
        let is_create = rid.is_none();
        if is_create {
            creates.push(rp.duplicate());
            proof {
                assert(creates.deep_view() =~= plan_model(prefix, sv, rv).creates.push(
                    resolved_view(lv[i as int], rv, sv),
                ));
            }
        }
        let do_update: bool = if rid.is_some() {
            if legacy {
                true
            } else {
                match synced.get(&p.stable_id) {
                    Some(e) => update_fields_differ(&rp, e),
                    None => false,
                }
            }
        } else {
            false
        };
        proof {
            assert(do_update == needs_update(lv[i as int], rv, sv));
        }
        if do_update {
            updates.push(rp.duplicate());
            proof {
                assert(updates.deep_view() =~= plan_model(prefix, sv, rv).updates.push(
                    resolved_view(lv[i as int], rv, sv),
                ));
            }
        }
        resolved.push_new(rp);
        i = i + 1;
    }
    proof {
        assert(lv.take(n as int) =~= lv);
        lemma_plan_resolved_sids(lv, sv, rv);
    }
    let mut deletes: Vec<Printer> = Vec::new();
    let m = synced.len();
    let mut k: usize = 0;
    proof {
        assert(sv.take(0) =~= Seq::<PrinterView>::empty());
        assert(deletes.deep_view() =~= Seq::<PrinterView>::empty());
    }
    while k < m
        invariant
            k <= m,
            m == sv.len(),
            sv == synced@,
            lv == local@,
            deletes.deep_view() == deletes_model(sv.take(k as int), lv),
        decreases m - k,
    {
        let ghost prefix = sv.take(k as int);
        let ghost next = sv.take(k + 1 as int);
        proof {
            assert(next.drop_last() =~= prefix);
            assert(next.last() == sv[k as int]);
        }
        let e = synced.entry_at(k);
        let gone = !local.contains(&e.stable_id);
        let has_id = e.remote_id.is_some();
        let ghost before = deletes.deep_view();
        if gone && has_id {
            deletes.push(e.duplicate());
            proof {
                assert(deletes.deep_view() =~= before.push(sv[k as int]));
            }
        }
        k = k + 1;
    }
    proof {
        assert(sv.take(m as int) =~= sv);
    }
    SyncPlan { resolved, creates, updates, deletes }
}

/// A queue name carrying the network-discovery marker names a shadow
/// copy of a real queue, not a queue of its own.
pub open spec fn spec_is_shadow_name(s: Seq<char>) -> bool {
    exists|i: int| 0 <= i < s.len() && s[i] == '@'
}

/// Whether a discovered queue name marks a network-discovery shadow.
pub fn is_shadow_queue_name(name: &str) -> (r: bool)
    ensures
        r == spec_is_shadow_name(name@),
{
    let n = name.unicode_len();
    let mut i: usize = 0;
    while i < n
        invariant
            i <= n,
            n == name@.len(),
            forall|j: int| 0 <= j < i ==> name@[j] != '@',
        decreases n - i,
    {
        if name.get_char(i) == '@' {
            return true;
        }
        i = i + 1;
    }
    false
}

/// What discovery keeps: every queue whose stable id does not mark it as
/// a shadow copy, in discovery order.
pub open spec fn discovery_filter_model(d: Seq<PrinterView>) -> Seq<PrinterView>
    decreases d.len(),
{
    if d.len() == 0 {
        Seq::empty()
    } else {
        let rest = discovery_filter_model(d.drop_last());
        if spec_is_shadow_name(d.last().stable_id) {
            rest
        } else {
            rest.push(d.last())
        }
    }
}

/// Exclude network-discovery shadow queues before a pass begins; see
/// `discovery_filter_model`.
pub fn filter_shadow_queues(discovered: Vec<Printer>) -> (r: Vec<Printer>)
    ensures
        r.deep_view() == discovery_filter_model(discovered.deep_view()),
{
    let ghost dv = discovered.deep_view();
    let n = discovered.len();
    let mut r: Vec<Printer> = Vec::new();
    let mut i: usize = 0;
    proof {
        assert(dv.len() == discovered@.len());
        assert(dv.take(0) =~= Seq::<PrinterView>::empty());
        assert(r.deep_view() =~= Seq::<PrinterView>::empty());
    }
    while i < n
        invariant
            i <= n,
            n == discovered@.len(),
            dv == discovered.deep_view(),
            dv.len() == n,
            r.deep_view() == discovery_filter_model(dv.take(i as int)),
        decreases n - i,
    {
        let ghost prefix = dv.take(i as int);
        let ghost next = dv.take(i + 1 as int);
        proof {
            assert(next.drop_last() =~= prefix);
            assert(next.last() == dv[i as int]);
        }
        let ghost before = r.deep_view();
        if !is_shadow_queue_name(discovered[i].stable_id.as_str()) {
            r.push(discovered[i].duplicate());
            proof {
                assert(r.deep_view() =~= before.push(dv[i as int]));
            }
        }
        i = i + 1;
    }
    proof {
        assert(dv.take(n as int) =~= dv);
    }
    r
}

/// A 2xx answer deletes the record; a 404 means it was already gone, which
/// the pass counts as success as well.
pub fn delete_outcome_is_success(status: u16) -> (r: bool)
    ensures
        r == (crate::spec_status_is_success(status) || status == 404),
{
    crate::status_is_success(status) || status == 404
}

/// The id a create response assigned: the creation endpoint answers with
/// the new record under the key data, its id inside.
pub open spec fn spec_created_printer_id(body: Seq<char>) -> Option<u32> {
    match crate::json::json_nested_u64(body, "data"@, "id"@) {
        Some(n) => if n <= 0xffff_ffff {
            Some(n as u32)
        } else {
            None
        },
        None => None,
    }
}

/// Extract the printer id a successful create call returned, so the pass
/// can fold it into the synced map.
pub fn created_printer_id(body: &str) -> (r: Option<u32>)
    ensures
        r == spec_created_printer_id(body@),
{
    match crate::json::json_u64_under(body, "data", "id") {
        Some(n) => {
            if n <= 0xffff_ffff {
                Some(n as u32)
            } else {
                None
            }
        },
        None => None,
    }
}

/// Keep a synced entry whose remote delete failed, so the next pass sees
/// it again among its removal candidates.
pub fn restore_failed_delete(resolved: &mut PrinterMap, entry: &Printer)
    requires
        !has_stable_id(old(resolved)@, entry@.stable_id),
    ensures
        final(resolved)@ == old(resolved)@.push(entry@),
        old(resolved).wf() ==> final(resolved).wf(),
{
    resolved.push_new(entry.duplicate());
}

/// A printer matched through the primary index resolves to that record's
/// identity, and the legacy display-name fallback never re-matches it.
pub proof fn lemma_stable_id_precedence(
    p: PrinterView,
    remote: Seq<ApiPrinterView>,
    synced: Seq<PrinterView>,
)
    requires
        find_stable_record(remote, p.stable_id) is Some,
    ensures
        resolution(p, remote, synced).0 == (find_stable_record(remote, p.stable_id)->0).id,
        resolution(p, remote, synced).1 == false,
{
}

/// A pass deletes exactly the synced entries that the local spooler no
/// longer reports and that carry a remote identity.
pub proof fn lemma_removal_correctness(
    synced: Seq<PrinterView>,
    local: Seq<PrinterView>,
    e: PrinterView,
)
    ensures
        deletes_model(synced, local).contains(e) <==> (synced.contains(e) && !has_stable_id(
            local,
            e.stable_id,
        ) && e.remote_id is Some),
    decreases synced.len(),
{
    if synced.len() == 0 {
    } else {
        let rest = deletes_model(synced.drop_last(), local);
        let last = synced.last();
        lemma_removal_correctness(synced.drop_last(), local, e);
        if !has_stable_id(local, last.stable_id) && last.remote_id is Some {
            lemma_contains_push(rest, last, e);
        }
        lemma_contains_push(synced.drop_last(), last, e);
        assert(synced.drop_last().push(last) =~= synced);
    }
}

/// A pass over printers that all carry a resolved identity and need no
/// update issues no creates and no updates.
pub proof fn lemma_plan_no_work(
    local: Seq<PrinterView>,
    synced: Seq<PrinterView>,
    remote: Seq<ApiPrinterView>,
)
    requires
        forall|i: int|
            0 <= i < local.len() ==> resolution(#[trigger] local[i], remote, synced).0 is Some,
        forall|i: int| 0 <= i < local.len() ==> !needs_update(#[trigger] local[i], remote, synced),
    ensures
        plan_model(local, synced, remote).creates.len() == 0,
        plan_model(local, synced, remote).updates.len() == 0,
    decreases local.len(),
{
    if local.len() > 0 {
        assert(forall|j: int| 0 <= j < local.len() - 1 ==> local.drop_last()[j] == local[j]);
        lemma_plan_no_work(local.drop_last(), synced, remote);
    }
}

/// Synced entries that are all still reported locally yield no deletes.
pub proof fn lemma_deletes_none(synced: Seq<PrinterView>, local: Seq<PrinterView>)
    requires
        forall|i: int| 0 <= i < synced.len() ==> has_stable_id(local, (#[trigger] synced[i]).stable_id),
    ensures
        deletes_model(synced, local).len() == 0,
    decreases synced.len(),
{
    if synced.len() > 0 {
        assert(forall|j: int| 0 <= j < synced.len() - 1 ==> synced.drop_last()[j] == synced[j]);
        lemma_deletes_none(synced.drop_last(), local);
    }
}

/// Idempotent synchronization: once every discovered printer resolves to
/// a remote identity, and none through the legacy fallback, the pass that
/// starts from the map the previous pass produced plans no create, no
/// update and no delete, and reproduces that map, so its write is skipped.
pub proof fn lemma_idempotent_sync(
    local: Seq<PrinterView>,
    synced: Seq<PrinterView>,
    remote: Seq<ApiPrinterView>,
)
    requires
        unique_stable_ids(local),
        forall|i: int|
            0 <= i < local.len() ==> resolution(#[trigger] local[i], remote, synced).0 is Some,
        forall|i: int|
            0 <= i < local.len() ==> resolution(#[trigger] local[i], remote, synced).1 == false,
    ensures
        ({
            let m1 = plan_model(local, synced, remote).resolved;
            let plan2 = plan_model(local, m1, remote);
            &&& plan2.creates.len() == 0
            &&& plan2.updates.len() == 0
            &&& deletes_model(m1, local).len() == 0
            &&& plan2.resolved == m1
            &&& crate::printer_storage::same_synced_contents(plan2.resolved, m1)
        }),
{
    let m1 = plan_model(local, synced, remote).resolved;
    lemma_plan_resolved_pointwise(local, synced, remote);
    lemma_plan_resolved_sids(local, synced, remote);

    // Pass two resolves every printer to the identity pass one recorded.
    assert forall|i: int| 0 <= i < local.len() implies resolution(
        #[trigger] local[i],
        remote,
        m1,
    ) == (m1[i].remote_id, false) && m1[i].remote_id is Some by {
        let p = local[i];
        assert(forall|j: int| 0 <= j < i ==> (#[trigger] m1[j]).stable_id != p.stable_id);
        lemma_find_stable_id_hit(m1, p.stable_id, i);
        match find_stable_record(remote, p.stable_id) {
            Some(r) => {
                assert(m1[i].remote_id == r.id);
            },
            None => {
                assert(resolution(p, remote, synced).1 == false);
                assert(find_legacy_record(remote, p.display_name) is None);
                assert(resolution(p, remote, m1).0 == m1[i].remote_id);
            },
        }
    }

    // With identical identities, nothing differs, so nothing is updated.
    assert forall|i: int| 0 <= i < local.len() implies !needs_update(
        #[trigger] local[i],
        remote,
        m1,
    ) by {
        let p = local[i];
        assert(forall|j: int| 0 <= j < i ==> (#[trigger] m1[j]).stable_id != p.stable_id);
        lemma_find_stable_id_hit(m1, p.stable_id, i);
        assert(resolved_view(p, remote, m1) =~= m1[i]);
        assert(!comparable_fields_differ(resolved_view(p, remote, m1), m1[i]));
    }

    lemma_plan_no_work(local, m1, remote);

    // The second pass reproduces the map of the first.
    lemma_plan_resolved_pointwise(local, m1, remote);
    assert forall|i: int| 0 <= i < local.len() implies plan_model(local, m1, remote).resolved[i]
        == m1[i] by {
        assert(resolved_view(local[i], remote, m1) =~= m1[i]);
    }
    assert(plan_model(local, m1, remote).resolved =~= m1);

    // Every synced entry is still local, so nothing is deleted.
    assert forall|i: int| 0 <= i < m1.len() implies has_stable_id(
        local,
        (#[trigger] m1[i]).stable_id,
    ) by {
        assert(local[i].stable_id == m1[i].stable_id);
    }
    lemma_deletes_none(m1, local);

    // The reproduced map compares as unchanged, so the write is skipped.
    assert forall|i: int| 0 <= i < m1.len() implies find_stable_id(
        m1,
        (#[trigger] m1[i]).stable_id,
    ) == Some(m1[i]) by {
        assert(forall|j: int| 0 <= j < i ==> (#[trigger] m1[j]).stable_id != m1[i].stable_id);
        lemma_find_stable_id_hit(m1, m1[i].stable_id, i);
    }
}

} // verus!
