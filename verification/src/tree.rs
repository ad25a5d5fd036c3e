use vstd::prelude::*;
use vstd::utf8::encode_utf8;
use vstd::string::StringSliceAdditionalSpecFns;
use crate::bytes::bytes_eq;
use crate::layout::{frontend_ext, frontend_exts, FRONTEND_EXT_COUNT};
use crate::path::{spec_extension, spec_join, spec_starts_with, FsPath};

verus! {

/// Whether `e` is the extension of a frontend source.
pub open spec fn is_frontend_ext(e: Seq<u8>) -> bool {
    exists|i: int| 0 <= i < frontend_exts().len() && e == encode_utf8(#[trigger] frontend_exts()[i])
}

/// Whether the file at `p` is a frontend source, judged by its extension.
pub open spec fn is_frontend_source(p: Seq<u8>) -> bool {
    match spec_extension(p) {
        Some(e) => is_frontend_ext(e),
        None => false,
    }
}

/// Whether `p` lies at or under one of the paths in `exclude`.
pub open spec fn is_excluded(p: Seq<u8>, exclude: Seq<Seq<u8>>) -> bool {
    exists|k: int| 0 <= k < exclude.len() && spec_starts_with(p, #[trigger] exclude[k])
}

/// Byte strings ordered as std orders them: lexicographically.
pub open spec fn lex_le(a: Seq<u8>, b: Seq<u8>) -> bool
    decreases a.len(),
{
    if a.len() == 0 {
        true
    } else if b.len() == 0 {
        false
    } else if a[0] < b[0] {
        true
    } else if a[0] > b[0] {
        false
    } else {
        lex_le(a.drop_first(), b.drop_first())
    }
}

/// Entries in ascending order of their names.
pub open spec fn sorted_by_name(s: Seq<(Seq<u8>, bool)>) -> bool {
    forall|i: int, j: int| 0 <= i < j < s.len() ==> lex_le(#[trigger] s[i].0, #[trigger] s[j].0)
}

/// A directory entry as the walk sees it: its name and whether its path is a
/// directory.
pub open spec fn entry_of(e: (Vec<u8>, bool)) -> (Seq<u8>, bool) {
    (e.0@, e.1)
}

pub open spec fn entries_of(v: Seq<(Vec<u8>, bool)>) -> Seq<(Seq<u8>, bool)> {
    v.map_values(|e: (Vec<u8>, bool)| entry_of(e))
}

/// One step of a walk: a directory to descend into, or a file to take.
pub struct Visit {
    pub path: FsPath,
    pub descend: bool,
}

impl View for Visit {
    type V = (Seq<u8>, bool);

    open spec fn view(&self) -> (Seq<u8>, bool) {
        (self.path@, self.descend)
    }
}

pub open spec fn visits_of(v: Seq<Visit>) -> Seq<(Seq<u8>, bool)> {
    v.map_values(|x: Visit| x@)
}

/// What the walk of `dir` does with one entry: an excluded path is passed
/// over, a directory is descended into, a frontend source is taken, anything
/// else is passed over.
pub open spec fn visit_for(dir: Seq<u8>, exclude: Seq<Seq<u8>>) -> spec_fn((Seq<u8>, bool)) -> Option<
    (Seq<u8>, bool),
> {
    |e: (Seq<u8>, bool)|
        {
            let p = spec_join(dir, e.0);
            if is_excluded(p, exclude) {
                None
            } else if e.1 {
                Some((p, true))
            } else if is_frontend_source(p) {
                Some((p, false))
            } else {
                None
            }
        }
}

/// The visits for the entries of `dir`, in the entries' order.
pub open spec fn spec_plan(
    dir: Seq<u8>,
    entries: Seq<(Seq<u8>, bool)>,
    exclude: Seq<Seq<u8>>,
) -> Seq<(Seq<u8>, bool)> {
    entries.filter_map(visit_for(dir, exclude))
}

/// Whether `e` is one of the frontend source extensions.
pub fn frontend_ext_matches(e: &[u8]) -> (r: bool)
    ensures
        r == is_frontend_ext(e@),
{
    let mut i: usize = 0;
    while i < FRONTEND_EXT_COUNT
        invariant
            0 <= i <= FRONTEND_EXT_COUNT,
            frontend_exts().len() == FRONTEND_EXT_COUNT,
            forall|k: int| 0 <= k < i ==> e@ != encode_utf8(#[trigger] frontend_exts()[k]),
        decreases FRONTEND_EXT_COUNT - i,
    {
        let x = frontend_ext(i);
        if bytes_eq(e, x.as_bytes()) {
            return true;
        }
        i = i + 1;
    }
    false
}

/// Whether the file at `p` is a frontend source.
pub fn frontend_source(p: &FsPath) -> (r: bool)
    ensures
        r == is_frontend_source(p@),
{
    match p.extension() {
        Some(e) => frontend_ext_matches(e.as_slice()),
        None => false,
    }
}

/// Whether `p` lies at or under one of the paths in `exclude`.
pub fn excluded(p: &FsPath, exclude: &Vec<FsPath>) -> (r: bool)
    ensures
        r == is_excluded(p@, exclude@.map_values(|x: FsPath| x@)),
{
    let ghost ex = exclude@.map_values(|x: FsPath| x@);
    let mut k: usize = 0;
    while k < exclude.len()
        invariant
            0 <= k <= exclude@.len(),
            ex == exclude@.map_values(|x: FsPath| x@),
            forall|m: int| 0 <= m < k ==> !spec_starts_with(p@, #[trigger] ex[m]),
        decreases exclude@.len() - k,
    {
        assert(ex[k as int] == exclude@[k as int]@);
        if p.starts_with(&exclude[k]) {
            return true;
        }
        k = k + 1;
    }
    false
}

/// Sorts entries with `slice::sort`, which orders `(name, is_dir)` pairs by
/// name first, names byte by byte.
#[verifier::external_body]
fn sort_entries(v: &mut Vec<(Vec<u8>, bool)>)
    ensures
        entries_of(final(v)@).to_multiset() == entries_of(old(v)@).to_multiset(),
        sorted_by_name(entries_of(final(v)@)),
{
    v.sort();
}

/// The visits for `entries` of `dir`, in the order given.
fn plan_in_order(dir: &FsPath, entries: &Vec<(Vec<u8>, bool)>, exclude: &Vec<FsPath>) -> (r: Vec<
    Visit,
>)
    ensures
        visits_of(r@) == spec_plan(
            dir@,
            entries_of(entries@),
            exclude@.map_values(|x: FsPath| x@),
        ),
{
    let ghost es = entries_of(entries@);
    let ghost ex = exclude@.map_values(|x: FsPath| x@);
    let mut out: Vec<Visit> = Vec::new();
    let n = entries.len();
    let mut i: usize = 0;
    assert(es.subrange(0, 0) =~= Seq::<(Seq<u8>, bool)>::empty());
    while i < n
        invariant
            n == entries@.len(),
            es == entries_of(entries@),
            ex == exclude@.map_values(|x: FsPath| x@),
            0 <= i <= n,
            visits_of(out@) == spec_plan(dir@, es.subrange(0, i as int), ex),
        decreases n - i,
    {
        let e = &entries[i];
        assert(es[i as int] == entry_of(entries@[i as int]));
        assert(es.subrange(0, i + 1).drop_last() =~= es.subrange(0, i as int));
        assert(es.subrange(0, i + 1).last() == es[i as int]);
        let p = dir.join_bytes(e.0.as_slice());
        let ghost old_out = out@;
        if excluded(&p, exclude) {
        } else if e.1 {
            out.push(Visit { path: p, descend: true });
            assert(visits_of(out@) =~= visits_of(old_out).push(out@.last()@));
        } else if frontend_source(&p) {
            out.push(Visit { path: p, descend: false });
            assert(visits_of(out@) =~= visits_of(old_out).push(out@.last()@));
        }
        i = i + 1;
    }
    assert(es.subrange(0, n as int) =~= es);
    out
}

/// What the watch of `dir` does with its entries, in the order the directory
/// listed them: directories are descended into, frontend sources are watched,
/// everything else is passed over.
pub fn watch_frontend_dir(dir: &FsPath, entries: &Vec<(Vec<u8>, bool)>) -> (r: Vec<Visit>)
    ensures
        visits_of(r@) == spec_plan(dir@, entries_of(entries@), Seq::empty()),
{
    let exclude: Vec<FsPath> = Vec::new();
    let r = plan_in_order(dir, entries, &exclude);
    assert(exclude@.map_values(|x: FsPath| x@) =~= Seq::<Seq<u8>>::empty());
    r
}

/// What the hash of `dir` does with its entries: they are taken in ascending
/// order of their names; paths at or under an `exclude` entry are passed over,
/// directories are descended into, frontend sources are hashed.
pub fn hash_tree_dir(dir: &FsPath, entries: Vec<(Vec<u8>, bool)>, exclude: &Vec<FsPath>) -> (r: Vec<
    Visit,
>)
    ensures
        exists|s: Seq<(Seq<u8>, bool)>|
            {
                &&& s.to_multiset() == entries_of(entries@).to_multiset()
                &&& sorted_by_name(s)
                &&& visits_of(r@) == spec_plan(dir@, s, exclude@.map_values(|x: FsPath| x@))
            },
{
    let mut sorted = entries;
    sort_entries(&mut sorted);
    plan_in_order(dir, &sorted, exclude)
}

} // verus!

verus! {

/// A walk of a directory tree in depth-first order: each directory's
/// entries are planned when it is listed, and handed out one at a time.
pub struct Walk {
    /// Visits not handed out yet; the next one is last.
    pending: Vec<Visit>,
    exclude: Vec<FsPath>,
    sorted: bool,
    /// The directory listed last.
    dir: FsPath,
}

#[verifier::ext_equal]
pub struct WalkView {
    pub pending: Seq<(Seq<u8>, bool)>,
    pub exclude: Seq<Seq<u8>>,
    /// Whether each listing is taken in ascending order of names (otherwise
    /// in the order the directory gave).
    pub sorted: bool,
    pub dir: Seq<u8>,
}

impl View for Walk {
    type V = WalkView;

    closed spec fn view(&self) -> WalkView {
        WalkView {
            pending: visits_of(self.pending@),
            exclude: self.exclude@.map_values(|x: FsPath| x@),
            sorted: self.sorted,
            dir: self.dir@,
        }
    }
}

/// The walk of the tree under `root` that has not started: its first visit
/// lists `root`.
pub open spec fn walk_begin(root: Seq<u8>, exclude: Seq<Seq<u8>>, sorted: bool) -> WalkView {
    WalkView { pending: seq![(root, true)], exclude, sorted, dir: Seq::empty() }
}

/// Hands out the next visit, if any; a directory handed out becomes the one
/// whose listing comes next.
pub open spec fn walk_pop(w: WalkView) -> (WalkView, Option<(Seq<u8>, bool)>) {
    if w.pending.len() == 0 {
        (w, None)
    } else {
        let top = w.pending.last();
        (
            WalkView {
                pending: w.pending.drop_last(),
                dir: if top.1 {
                    top.0
                } else {
                    w.dir
                },
                ..w
            },
            Some(top),
        )
    }
}

/// An order in which the walk may take a listing: ascending by name for a
/// sorted walk, as listed otherwise.
pub open spec fn walk_order_ok(
    w: WalkView,
    listed: Seq<(Seq<u8>, bool)>,
    order: Seq<(Seq<u8>, bool)>,
) -> bool {
    if w.sorted {
        order.to_multiset() == listed.to_multiset() && sorted_by_name(order)
    } else {
        order == listed
    }
}

/// The walk once the last directory's entries, taken in `order`, are planned:
/// their visits come next, in order, before anything pending before.
pub open spec fn walk_listed(w: WalkView, order: Seq<(Seq<u8>, bool)>) -> WalkView {
    WalkView { pending: w.pending + spec_plan(w.dir, order, w.exclude).reverse(), ..w }
}

impl Walk {
    /// A walk of the tree under `root`, passing over paths at or under an
    /// `exclude` entry, taking listings sorted by name when `sorted`.
    pub fn new(root: FsPath, exclude: Vec<FsPath>, sorted: bool) -> (r: Walk)
        ensures
            r@ == walk_begin(root@, exclude@.map_values(|x: FsPath| x@), sorted),
    {
        let mut pending: Vec<Visit> = Vec::new();
        let ghost rv = root@;
        pending.push(Visit { path: root, descend: true });
        let r = Walk { pending, exclude, sorted, dir: FsPath::from_bytes(Vec::new()) };
        assert(visits_of(r.pending@) =~= seq![(rv, true)]);
        r
    }

    /// Hands out the next visit (see [`walk_pop`]).
    pub fn pop(&mut self) -> (r: Option<Visit>)
        ensures
            (final(self)@, match r {
                Some(v) => Some(v@),
                None => None,
            }) == walk_pop(old(self)@),
    {
        let ghost before = visits_of(self.pending@);
        match self.pending.pop() {
            Some(v) => {
                assert(visits_of(self.pending@) =~= before.drop_last());
                if v.descend {
                    self.dir = v.path.duplicate();
                }
                Some(v)
            },
            None => None,
        }
    }

    /// Plans the entries of the directory handed out last (no entries where
    /// it could not be listed).
    pub fn listed(&mut self, entries: Option<Vec<(Vec<u8>, bool)>>)
        ensures
            exists|order: Seq<(Seq<u8>, bool)>|
                walk_order_ok(old(self)@, listing_of(entries), order) && final(self)@
                    == walk_listed(old(self)@, order),
    {
        let ghost listed = listing_of(entries);
        let entries = match entries {
            Some(v) => v,
            None => Vec::new(),
        };
        assert(entries_of(entries@) == listed);
        let ghost mut order = listed;
        let plan = if self.sorted {
            let p = hash_tree_dir(&self.dir, entries, &self.exclude);
            proof {
                order = choose|o: Seq<(Seq<u8>, bool)>|
                    {
                        &&& o.to_multiset() == entries_of(entries@).to_multiset()
                        &&& sorted_by_name(o)
                        &&& visits_of(p@) == spec_plan(
                            self.dir@,
                            o,
                            self.exclude@.map_values(|x: FsPath| x@),
                        )
                    };
            }
            p
        } else {
            plan_in_order(&self.dir, &entries, &self.exclude)
        };
        assert(walk_order_ok(self@, listed, order));
        assert(visits_of(plan@) == spec_plan(self@.dir, order, self@.exclude));
        let ghost pv = visits_of(plan@);
        let ghost start = visits_of(self.pending@);
        let mut k: usize = plan.len();
        let mut plan = plan;
        while k > 0
            invariant
                k == plan@.len(),
                k <= pv.len(),
                visits_of(plan@) == pv.subrange(0, k as int),
                visits_of(self.pending@) == start + pv.subrange(k as int, pv.len() as int).reverse(),
                start == old(self)@.pending,
                pv == spec_plan(old(self)@.dir, order, old(self)@.exclude),
                self.dir@ == old(self)@.dir,
                self.exclude@.map_values(|x: FsPath| x@) == old(self)@.exclude,
                self.sorted == old(self)@.sorted,
            decreases k,
        {
            let ghost before = visits_of(self.pending@);
            assert(visits_of(plan@)[k - 1] == plan@[k - 1]@);
            let v = plan.pop().unwrap();
            assert(v@ == pv[k - 1]);
            self.pending.push(v);
            k = k - 1;
            assert(visits_of(plan@) =~= pv.subrange(0, k as int));
            assert(pv.subrange(k as int, pv.len() as int).reverse() =~= pv.subrange(
                k + 1,
                pv.len() as int,
            ).reverse().push(pv[k as int]));
            assert(visits_of(self.pending@) =~= before.push(pv[k as int]));
        }
        assert(pv.subrange(0, pv.len() as int) =~= pv);
        assert(self@ =~= walk_listed(old(self)@, order));
    }
}

/// The entries a listing carries; none where the directory could not be listed.
pub open spec fn listing_of(entries: Option<Vec<(Vec<u8>, bool)>>) -> Seq<(Seq<u8>, bool)> {
    match entries {
        Some(v) => entries_of(v@),
        None => Seq::empty(),
    }
}

} // verus!
