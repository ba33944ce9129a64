use vstd::prelude::*;
use crate::models::{printers_equal, Printer, PrinterView};
use crate::seqs::{first_where, lemma_first_where_hit, lemma_first_where_none};

verus! {

/// Matches the entry holding a given stable id.
pub open spec fn sid_pred(sid: Seq<char>) -> spec_fn(PrinterView) -> bool {
    |p: PrinterView| p.stable_id == sid
}

/// Matches the entry holding a given remote id.
pub open spec fn rid_pred(id: u32) -> spec_fn(PrinterView) -> bool {
    |p: PrinterView| p.remote_id == Some(id)
}

/// Some entry of `s` carries this stable id.
pub open spec fn has_stable_id(s: Seq<PrinterView>, sid: Seq<char>) -> bool {
    exists|i: int| 0 <= i < s.len() && (#[trigger] s[i]).stable_id == sid
}

/// No two entries of `s` share a stable id.
pub open spec fn unique_stable_ids(s: Seq<PrinterView>) -> bool {
    forall|i: int, j: int|
        0 <= i < j < s.len() ==> (#[trigger] s[i]).stable_id != (#[trigger] s[j]).stable_id
}

/// The first entry of `s` carrying this stable id.
pub open spec fn find_stable_id(s: Seq<PrinterView>, sid: Seq<char>) -> Option<PrinterView> {
    first_where(s, sid_pred(sid))
}

/// The first entry of `s` carrying this remote id.
pub open spec fn find_remote_id(s: Seq<PrinterView>, id: u32) -> Option<PrinterView> {
    first_where(s, rid_pred(id))
}

pub proof fn lemma_find_stable_id_hit(s: Seq<PrinterView>, sid: Seq<char>, i: int)
    requires
        0 <= i < s.len(),
        s[i].stable_id == sid,
        forall|j: int| 0 <= j < i ==> (#[trigger] s[j]).stable_id != sid,
    ensures
        find_stable_id(s, sid) == Some(s[i]),
{
    assert(sid_pred(sid)(s[i]));
    assert(forall|j: int| 0 <= j < i ==> !sid_pred(sid)(#[trigger] s[j]));
    lemma_first_where_hit(s, sid_pred(sid), i);
}

pub proof fn lemma_find_stable_id_none(s: Seq<PrinterView>, sid: Seq<char>)
    requires
        forall|j: int| 0 <= j < s.len() ==> (#[trigger] s[j]).stable_id != sid,
    ensures
        find_stable_id(s, sid) is None,
{
    assert(forall|j: int| 0 <= j < s.len() ==> !sid_pred(sid)(#[trigger] s[j]));
    lemma_first_where_none(s, sid_pred(sid));
}

/// Every entry of `a` appears in `b`, field for field, under its stable
/// id, and both hold as many entries: the two synced maps have the same
/// contents.
pub open spec fn same_synced_contents(a: Seq<PrinterView>, b: Seq<PrinterView>) -> bool {
    &&& a.len() == b.len()
    &&& forall|i: int|
        0 <= i < a.len() ==> find_stable_id(b, (#[trigger] a[i]).stable_id) == Some(a[i])
}

/// The synchronized printer map: the last successfully synced image of the
/// local spooler, keyed by stable id. Well-formed maps never hold two
/// entries for one stable id.
pub struct PrinterMap {
    entries: Vec<Printer>,
}

impl View for PrinterMap {
    type V = Seq<PrinterView>;

    closed spec fn view(&self) -> Seq<PrinterView> {
        self.entries.deep_view()
    }
}

impl PrinterMap {
    pub open spec fn wf(&self) -> bool {
        unique_stable_ids(self@)
    }

    pub fn new() -> (m: PrinterMap)
        ensures
            m@ == Seq::<PrinterView>::empty(),
            m.wf(),
    {
        let m = PrinterMap { entries: Vec::new() };
        proof {
            assert(m@ =~= Seq::<PrinterView>::empty());
        }
        m
    }

    pub fn len(&self) -> (n: usize)
        ensures
            n == self@.len(),
    {
        self.entries.len()
    }

    pub fn entry_at(&self, i: usize) -> (p: &Printer)
        requires
            i < self@.len(),
        ensures
            p@ == self@[i as int],
    {
        &self.entries[i]
    }

    /// Index of the entry carrying `sid`, if one does.
    fn index_of(&self, sid: &String) -> (r: Option<usize>)
        ensures
            match r {
                Some(i) => {
                    &&& i < self@.len()
                    &&& self@[i as int].stable_id == sid@
                    &&& forall|j: int| 0 <= j < i ==> (#[trigger] self@[j]).stable_id != sid@
                },
                None => !has_stable_id(self@, sid@),
            },
    {
        let n = self.entries.len();
        let mut i: usize = 0;
        while i < n
            invariant
                i <= n,
                n == self@.len(),
                forall|j: int| 0 <= j < i ==> (#[trigger] self@[j]).stable_id != sid@,
            decreases n - i,
        {
            if self.entries[i].stable_id.eq(sid) {
                return Some(i);
            }
            i = i + 1;
        }
        None
    }

    /// Whether the map holds an entry for this stable id.
    pub fn contains(&self, sid: &String) -> (r: bool)
        ensures
            r == has_stable_id(self@, sid@),
    {
        match self.index_of(sid) {
            Some(_) => true,
            None => false,
        }
    }

    /// The entry synced under this stable id.
    pub fn get(&self, sid: &String) -> (r: Option<&Printer>)
        ensures
            match r {
                Some(p) => find_stable_id(self@, sid@) == Some(p@),
                None => find_stable_id(self@, sid@) is None,
            },
    {
        match self.index_of(sid) {
            Some(i) => {
                proof {
                    lemma_find_stable_id_hit(self@, sid@, i as int);
                }
                Some(&self.entries[i])
            },
            None => {
                proof {
                    lemma_find_stable_id_none(self@, sid@);
                }
                None
            },
        }
    }

    /// The entry synced under this remote directory id.
    pub fn get_by_remote_id(&self, id: u32) -> (r: Option<&Printer>)
        ensures
            match r {
                Some(p) => find_remote_id(self@, id) == Some(p@),
                None => find_remote_id(self@, id) is None,
            },
    {
        let n = self.entries.len();
        let mut i: usize = 0;
        while i < n
            invariant
                i <= n,
                n == self@.len(),
                forall|j: int| 0 <= j < i ==> (#[trigger] self@[j]).remote_id != Some(id),
            decreases n - i,
        {
            let found: bool = match self.entries[i].remote_id {
                Some(r) => r == id,
                None => false,
            };
            if found {
                proof {
                    assert(rid_pred(id)(self@[i as int]));
                    assert(forall|j: int| 0 <= j < i ==> !rid_pred(id)(#[trigger] self@[j]));
                    lemma_first_where_hit(self@, rid_pred(id), i as int);
                }
                return Some(&self.entries[i]);
            }
            i = i + 1;
        }
        proof {
            assert(forall|j: int| 0 <= j < self@.len() ==> !rid_pred(id)(#[trigger] self@[j]));
            lemma_first_where_none(self@, rid_pred(id));
        }
        None
    }

    /// Add an entry whose stable id is not in the map yet.
    pub fn push_new(&mut self, p: Printer)
        requires
            !has_stable_id(old(self)@, p@.stable_id),
        ensures
            final(self)@ == old(self)@.push(p@),
            old(self).wf() ==> final(self).wf(),
    {
        self.entries.push(p);
        proof {
            assert(final(self)@ =~= old(self)@.push(p@));
        }
    }

    /// Record the remote identity a create call returned: the entry under
    /// `sid`, if any, now carries `Some(id)`; nothing else moves.
    pub fn set_remote_id(&mut self, sid: &String, id: u32)
        ensures
            final(self)@.len() == old(self)@.len(),
            forall|i: int|
                0 <= i < old(self)@.len() ==> final(self)@[i] == if old(self)@[i].stable_id
                    == sid@ {
                    PrinterView { remote_id: Some(id), ..old(self)@[i] }
                } else {
                    old(self)@[i]
                },
            old(self).wf() ==> final(self).wf(),
    {
        let n = self.entries.len();
        let mut i: usize = 0;
        while i < n
            invariant
                i <= n,
                n == self@.len(),
                self@.len() == old(self)@.len(),
                forall|j: int|
                    0 <= j < self@.len() ==> self@[j] == if j < i && old(self)@[j].stable_id
                        == sid@ {
                        PrinterView { remote_id: Some(id), ..old(self)@[j] }
                    } else {
                        old(self)@[j]
                    },
            decreases n - i,
        {
            let ghost prev = self@;
            if self.entries[i].stable_id.eq(sid) {
                let updated = self.entries[i].with_remote_id(Some(id));
                self.entries.set(i, updated);
                proof {
                    assert(self@ =~= prev.update(i as int, updated@));
                }
            }
            proof {
                assert forall|j: int| 0 <= j < self@.len() implies self@[j] == if j < i + 1
                    && old(self)@[j].stable_id == sid@ {
                    PrinterView { remote_id: Some(id), ..old(self)@[j] }
                } else {
                    old(self)@[j]
                } by {
                    if j != i {
                        assert(self@[j] == prev[j]);
                    } else {
                        assert(prev[j] == old(self)@[j]);
                        if old(self)@[j].stable_id == sid@ {
                            assert(self@[j] =~= (PrinterView {
                                remote_id: Some(id),
                                ..old(self)@[j]
                            }));
                        }
                    }
                }
            }
            i = i + 1;
        }
        proof {
            if old(self).wf() {
                assert(forall|i: int, j: int|
                    0 <= i < j < self@.len() ==> (#[trigger] self@[i]).stable_id != (
                    #[trigger] self@[j]).stable_id);
            }
        }
    }

    /// The stable ids of all entries, in map order: the quick-membership
    /// set the supervisor shares with the other loops.
    pub fn stable_ids(&self) -> (r: Vec<String>)
        ensures
            r@.len() == self@.len(),
            forall|i: int| 0 <= i < r@.len() ==> (#[trigger] r@[i])@ == self@[i].stable_id,
    {
        let n = self.entries.len();
        let mut r: Vec<String> = Vec::new();
        let mut i: usize = 0;
        while i < n
            invariant
                i <= n,
                n == self@.len(),
                r@.len() == i,
                forall|j: int| 0 <= j < i ==> (#[trigger] r@[j])@ == self@[j].stable_id,
            decreases n - i,
        {
            r.push(self.entries[i].stable_id.clone());
            i = i + 1;
        }
        r
    }
}

/// Whether the updated map differs from the stored one: compared field by
/// field across all entries, so that unchanged passes skip the write.
pub fn printers_have_changed(current: &PrinterMap, saved: &PrinterMap) -> (r: bool)
    ensures
        r == !same_synced_contents(current@, saved@),
{
    if current.len() != saved.len() {
        return true;
    }
    let n = current.len();
    let mut i: usize = 0;
    while i < n
        invariant
            n == current@.len(),
            current@.len() == saved@.len(),
            i <= n,
            forall|j: int|
                0 <= j < i ==> find_stable_id(saved@, (#[trigger] current@[j]).stable_id) == Some(
                    current@[j],
                ),
        decreases n - i,
    {
        let entry = current.entry_at(i);
        match saved.get(&entry.stable_id) {
            Some(q) => {
                if !printers_equal(entry, q) {
                    return true;
                }
            },
            None => {
                return true;
            },
        }
        i = i + 1;
    }
    false
}

/// Whether this pass's outcome must be persisted. The caller writes the
/// map to storage exactly when this returns true; an unchanged map is not
/// rewritten.
pub fn save_printers_if_changed(printers: &PrinterMap, saved_printers: &PrinterMap) -> (r: bool)
    ensures
        r == !same_synced_contents(printers@, saved_printers@),
{
    printers_have_changed(printers, saved_printers)
}

/// The synced map a discovery pass starts from: the discovered printers,
/// first occurrence of each stable id, each carrying the remote identity
/// the saved map held for it (a printer the saved map does not know keeps
/// the identity it came with, which discovery leaves empty).
pub open spec fn merge_model(d: Seq<PrinterView>, saved: Seq<PrinterView>) -> Seq<PrinterView>
    decreases d.len(),
{
    if d.len() == 0 {
        Seq::empty()
    } else {
        let rest = merge_model(d.drop_last(), saved);
        let p = d.last();
        if has_stable_id(rest, p.stable_id) {
            rest
        } else {
            rest.push(
                PrinterView {
                    remote_id: match find_stable_id(saved, p.stable_id) {
                        Some(q) => q.remote_id,
                        None => p.remote_id,
                    },
                    ..p
                },
            )
        }
    }
}

/// Build the map for a discovery pass; see `merge_model` for what it holds.
pub fn merge_discovered(discovered: &Vec<Printer>, saved: &PrinterMap) -> (m: PrinterMap)
    ensures
        m@ == merge_model(discovered.deep_view(), saved@),
        m.wf(),
{
    let n = discovered.len();
    let mut m = PrinterMap::new();
    let mut i: usize = 0;
    proof {
        assert(discovered.deep_view().take(0) =~= Seq::<PrinterView>::empty());
    }
    while i < n
        invariant
            i <= n,
            n == discovered@.len(),
            discovered.deep_view().len() == discovered@.len(),
            m@ == merge_model(discovered.deep_view().take(i as int), saved@),
            m.wf(),
        decreases n - i,
    {
        let ghost prefix = discovered.deep_view().take(i as int);
        let ghost next = discovered.deep_view().take(i + 1 as int);
        proof {
            assert(next.drop_last() =~= prefix);
            assert(next.last() == discovered.deep_view()[i as int]);
        }
        let p = &discovered[i];
        match m.index_of(&p.stable_id) {
            Some(_) => {},
            None => {
                let carried: Option<u32> = match saved.get(&p.stable_id) {
                    Some(q) => q.remote_id,
                    None => p.remote_id,
                };
                m.push_new(p.with_remote_id(carried));
            },
        }
        i = i + 1;
    }
    proof {
        assert(discovered.deep_view().take(n as int) =~= discovered.deep_view());
    }
    m
}

/// The stable ids the updated map adds over the saved one, in map order:
/// the newly discovered printers a pass reports.
pub open spec fn new_ids_model(updated: Seq<PrinterView>, saved: Seq<PrinterView>) -> Seq<
    Seq<char>,
>
    decreases updated.len(),
{
    if updated.len() == 0 {
        Seq::empty()
    } else {
        let rest = new_ids_model(updated.drop_last(), saved);
        if !has_stable_id(saved, updated.last().stable_id) {
            rest.push(updated.last().stable_id)
        } else {
            rest
        }
    }
}

/// Report the printers the pass added; see `new_ids_model` for which.
pub fn new_printer_ids(updated: &PrinterMap, saved: &PrinterMap) -> (r: Vec<String>)
    ensures
        r.deep_view() == new_ids_model(updated@, saved@),
{
    let n = updated.len();
    let mut r: Vec<String> = Vec::new();
    let mut i: usize = 0;
    proof {
        assert(updated@.take(0) =~= Seq::<PrinterView>::empty());
        assert(r.deep_view() =~= Seq::<Seq<char>>::empty());
    }
    while i < n
        invariant
            i <= n,
            n == updated@.len(),
            r.deep_view() == new_ids_model(updated@.take(i as int), saved@),
        decreases n - i,
    {
        let ghost prefix = updated@.take(i as int);
        let ghost next = updated@.take(i + 1 as int);
        proof {
            assert(next.drop_last() =~= prefix);
            assert(next.last() == updated@[i as int]);
        }
        let entry = updated.entry_at(i);
        let ghost before = r.deep_view();
        if !saved.contains(&entry.stable_id) {
            r.push(entry.stable_id.clone());
            proof {
                assert(r.deep_view() =~= before.push(updated@[i as int].stable_id));
            }
        }
        i = i + 1;
    }
    proof {
        assert(updated@.take(n as int) =~= updated@);
    }
    r
}

} // verus!
