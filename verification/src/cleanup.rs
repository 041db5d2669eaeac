//! The cleanup list: every WorkSession Switchboard knows, and the local
//! realizations it no longer knows (orphans), by id.
use vstd::prelude::*;
use crate::text::{owned, contains_str, in_names, str_views};
use crate::model::work_session::WorkSessionView;
use crate::model::runtime::{RealizationStatus, WorkSessionRuntime};
use crate::model::lifecycle::state_name;
use crate::model::error::opt_view;
use crate::sorting::{Keyed, sort_by_key, sorted_by_key};

verus! {

/// One entry of the cleanup list.
#[derive(Debug)]
pub struct CleanupItem {
    pub work_session_id: String,
    pub project_id: String,
    pub lifecycle: String,
    pub path: String,
    pub orphan: bool,
}

impl Keyed for CleanupItem {
    open spec fn key(&self) -> Seq<char> {
        self.work_session_id@
    }

    fn key_text(&self) -> (r: &str) {
        self.work_session_id.as_str()
    }
}

/// Model of an entry.
pub struct CleanupView {
    pub work_session_id: Seq<char>,
    pub project_id: Seq<char>,
    pub lifecycle: Seq<char>,
    pub path: Seq<char>,
    pub orphan: bool,
}

pub open spec fn item_view(i: CleanupItem) -> CleanupView {
    CleanupView {
        work_session_id: i.work_session_id@,
        project_id: i.project_id@,
        lifecycle: i.lifecycle@,
        path: i.path@,
        orphan: i.orphan,
    }
}

/// The entry for a WorkSession Switchboard knows.
pub open spec fn session_entry(v: WorkSessionView) -> CleanupView {
    CleanupView {
        work_session_id: v.work_session.work_session_id@,
        project_id: match opt_view(v.work_session.project_id) { Some(p) => p, None => Seq::empty() },
        lifecycle: state_name(v.work_session.state),
        path: match v.runtime {
            Some(rt) => match rt.workspace { Some(w) => w.path@, None => Seq::empty() },
            None => Seq::empty(),
        },
        orphan: false,
    }
}

/// A local realization Switchboard does not list becomes an orphan entry,
/// unless it is cleaned or still pending.
pub open spec fn is_orphan(rt: WorkSessionRuntime, known: Seq<Seq<char>>, id: Seq<char>) -> bool {
    !in_names(known, id) && rt.realization_status != RealizationStatus::Cleaned
        && rt.realization_status != RealizationStatus::Pending
}

/// The entry for an orphan realization.
pub open spec fn orphan_entry(id: Seq<char>, rt: WorkSessionRuntime) -> CleanupView {
    CleanupView {
        work_session_id: id,
        project_id: Seq::empty(),
        lifecycle: "orphan-local"@,
        path: match rt.workspace { Some(w) => w.path@, None => Seq::empty() },
        orphan: true,
    }
}

/// The entries before sorting: sessions in order, then orphans in order.
pub open spec fn unsorted_entries(sessions: Seq<WorkSessionView>, runtimes: Seq<(String, WorkSessionRuntime)>) -> Seq<CleanupView> {
    let known = Seq::new(sessions.len(), |i: int| sessions[i].work_session.work_session_id@);
    Seq::new(sessions.len(), |i: int| session_entry(sessions[i]))
        + runtimes.filter(|e: (String, WorkSessionRuntime)| is_orphan(e.1, known, e.0@))
            .map_values(|e: (String, WorkSessionRuntime)| orphan_entry(e.0@, e.1))
}

fn session_item(v: &WorkSessionView) -> (r: CleanupItem)
    ensures
        item_view(r) == session_entry(*v),
{
    CleanupItem {
        work_session_id: v.work_session.work_session_id.clone(),
        project_id: match &v.work_session.project_id {
            Some(p) => p.clone(),
            None => String::new(),
        },
        lifecycle: owned(v.work_session.state.as_str()),
        path: match &v.runtime {
            Some(rt) => match &rt.workspace {
                Some(w) => w.path.clone(),
                None => String::new(),
            },
            None => String::new(),
        },
        orphan: false,
    }
}

/// The cleanup list, sorted by WorkSession id.
pub fn cleanup_items(sessions: &Vec<WorkSessionView>, runtimes: &Vec<(String, WorkSessionRuntime)>) -> (r: Vec<CleanupItem>)
    ensures
        sorted_by_key(r@),
        r@.map_values(|i: CleanupItem| item_view(i)).to_multiset()
            == unsorted_entries(sessions@, runtimes@).to_multiset(),
{
    let mut items: Vec<CleanupItem> = Vec::new();
    let mut known: Vec<String> = Vec::new();
    let ghost kv = Seq::new(sessions@.len(), |i: int| sessions@[i].work_session.work_session_id@);
    let mut i: usize = 0;
    while i < sessions.len()
        invariant
            i <= sessions@.len(),
            kv == Seq::new(sessions@.len(), |k: int| sessions@[k].work_session.work_session_id@),
            str_views(known@) == kv.subrange(0, i as int),
            items@.map_values(|x: CleanupItem| item_view(x)) == Seq::new(i as nat, |k: int| session_entry(sessions@[k])),
        decreases sessions@.len() - i,
    {
        let ghost iv = items@;
        let ghost knv = str_views(known@);
        known.push(sessions[i].work_session.work_session_id.clone());
        let item = session_item(&sessions[i]);
        items.push(item);
        proof {
            assert(str_views(known@) =~= knv.push(kv[i as int]));
            assert(kv.subrange(0, i as int + 1) =~= kv.subrange(0, i as int).push(kv[i as int]));
            assert(items@ == iv.push(item));
            assert(iv.map_values(|x: CleanupItem| item_view(x)).len() == i);
            assert(iv.len() == i);
            assert forall|k: int| 0 <= k < i + 1 implies #[trigger] item_view(items@[k]) == session_entry(sessions@[k]) by {
                if k < i {
                    assert(iv.map_values(|x: CleanupItem| item_view(x))[k] == item_view(iv[k]));
                }
            }
            assert(items@.map_values(|x: CleanupItem| item_view(x)) =~= Seq::new(i as nat + 1, |k: int| session_entry(sessions@[k])));
        }
        i = i + 1;
    }
    proof {
        assert(kv.subrange(0, kv.len() as int) =~= kv);
    }
    let ghost pred = |e: (String, WorkSessionRuntime)| is_orphan(e.1, kv, e.0@);
    let ghost f = |e: (String, WorkSessionRuntime)| orphan_entry(e.0@, e.1);
    let ghost head = items@.map_values(|x: CleanupItem| item_view(x));
    let mut j: usize = 0;
    while j < runtimes.len()
        invariant
            j <= runtimes@.len(),
            str_views(known@) == kv,
            pred == (|e: (String, WorkSessionRuntime)| is_orphan(e.1, kv, e.0@)),
            f == (|e: (String, WorkSessionRuntime)| orphan_entry(e.0@, e.1)),
            items@.map_values(|x: CleanupItem| item_view(x)) == head + runtimes@.subrange(0, j as int).filter(pred).map_values(f),
        decreases runtimes@.len() - j,
    {
        let ghost before = items@.map_values(|x: CleanupItem| item_view(x));
        proof {
            reveal(Seq::filter);
            assert(runtimes@.subrange(0, j as int + 1).drop_last() =~= runtimes@.subrange(0, j as int));
            assert(runtimes@.subrange(0, j as int + 1).last() == runtimes@[j as int]);
        }
        let (id, rt) = (&runtimes[j].0, &runtimes[j].1);
        let orphan = !contains_str(&known, id.as_str())
            && !(rt.realization_status == RealizationStatus::Cleaned)
            && !(rt.realization_status == RealizationStatus::Pending);
        if orphan {
            let item = CleanupItem {
                work_session_id: id.clone(),
                project_id: String::new(),
                lifecycle: owned("orphan-local"),
                path: match &rt.workspace {
                    Some(w) => w.path.clone(),
                    None => String::new(),
                },
                orphan: true,
            };
            items.push(item);
            proof {
                let fl = runtimes@.subrange(0, j as int).filter(pred);
                assert(runtimes@.subrange(0, j as int + 1).filter(pred) == fl.push(runtimes@[j as int]));
                assert(fl.push(runtimes@[j as int]).map_values(f) =~= fl.map_values(f).push(f(runtimes@[j as int])));
                assert(items@.map_values(|x: CleanupItem| item_view(x)) =~= before.push(item_view(items@.last())));
            }
        } else {
            proof {
                assert(runtimes@.subrange(0, j as int + 1).filter(pred) == runtimes@.subrange(0, j as int).filter(pred));
            }
        }
        j = j + 1;
    }
    proof {
        assert(runtimes@.subrange(0, runtimes@.len() as int) =~= runtimes@);
    }
    let ghost unsorted = items@;
    let r = sort_by_key(items);
    proof {
        crate::sorting::lemma_map_multiset(r@, unsorted, |x: CleanupItem| item_view(x));
    }
    r
}

} // verus!
