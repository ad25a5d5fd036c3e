use vstd::prelude::*;
use vstd::utf8::{encode_utf8, encode_utf8_decode_utf8};
use crate::frontend::FrontendView;
use crate::io::{flag_of, text_or_empty, EventView, OpView};
use crate::layout::frontend_exts;
use crate::path::{
    component_prefix, cur_dir_component, is_normal, lemma_filter_push, normal_filter, scan,
    segments, sep,
    spec_components, spec_extension, spec_join, spec_starts_with,
};
use vstd::seq_lib::{to_multiset_contains, to_multiset_len, to_multiset_remove};
use crate::run::{
    gate_lead_of, gate_open, hash_exclude, install_due, install_stamp_path, run_next, run_start,
    run_step, stamp_path, step_digest, RunStage, RunView,
};
use crate::digest::{
    blob_chunks, blobs_hash, bytes_chunks, file_chunks, inputs_chunks, inputs_hash, lead_chunks,
    path_chunks, spec_lower_hex, text_chunks,
};
use crate::io::{bytes_of, RequestView};
use crate::steps::config_path;
use crate::lines::{build_dir_line, env_changed_line};
use crate::steps::watch_drain;
use crate::cwd::{cwd_config, cwd_next, cwd_stage_ok, spec_needs_install, CwdStage, CwdView};
use crate::io::time_of;
use crate::lines::rerun_line;
use crate::steps::{build_args, install_args, under};
use crate::tree::{
    lex_le, sorted_by_name, is_excluded, is_frontend_ext, is_frontend_source, spec_plan, visit_for, walk_begin,
    walk_listed, walk_pop, WalkView,
};

verus! {

/// The stages reached only after the change gate opened.
pub open spec fn past_gate(stage: RunStage) -> bool {
    match stage {
        RunStage::Manifest(_) | RunStage::InstallStamp | RunStage::NodeModules
        | RunStage::Installed | RunStage::InstallStampWritten | RunStage::Generated
        | RunStage::Built | RunStage::StampWritten => true,
        _ => false,
    }
}

/// In every stage after the change check, the check found a change or a missing bundle.
pub open spec fn gate_kept(s: RunView) -> bool {
    past_gate(s.stage) ==> gate_open(s)
}

/// The OpenAPI spec is written exactly when a spec is configured and the
/// text read back from its file (empty where unreadable) differs from it;
/// it is written, whole, to its file under the root, and only in the step
/// that reads it back, before any skip or gate.
pub proof fn law_spec_written_only_when_changed(s: RunView, e: EventView, d: Seq<char>, o: Seq<(Seq<u8>, bool)>)
    ensures
        (run_next(s, e, d, o).1.op is WriteText) <==> (s.stage == RunStage::SpecRead
            && s.fe.openapi is Some && text_or_empty(e) != s.fe.openapi->0.spec),
        run_next(s, e, d, o).1.op is WriteText ==> run_next(s, e, d, o).1.op == OpView::WriteText(
            spec_join(s.fe.root, s.fe.openapi->0.json),
            s.fe.openapi->0.spec,
        ),
{
}

/// When the skip variable is set, the run ends there, with the warning and
/// no npm step; an ended run stays ended and asks for nothing more.
pub proof fn law_skip_ends_run(
    s: RunView,
    e: EventView,
    d: Seq<char>,
    o: Seq<(Seq<u8>, bool)>,
    f: EventView,
    g: Seq<char>,
    o2: Seq<(Seq<u8>, bool)>,
)
    requires
        s.stage == RunStage::Skip,
        flag_of(e),
    ensures
        run_next(s, e, d, o).0.stage == RunStage::Finished,
        run_next(s, e, d, o).1.op == OpView::Finish,
        run_next(run_next(s, e, d, o).0, f, g, o2).0 == run_next(s, e, d, o).0,
        run_next(run_next(s, e, d, o).0, f, g, o2).1.op == OpView::Finish,
{
}

/// An ended run stays ended.
pub proof fn law_finished_is_final(s: RunView, e: EventView, d: Seq<char>, o: Seq<(Seq<u8>, bool)>)
    requires
        s.stage == RunStage::Finished,
    ensures
        run_next(s, e, d, o).0 == s,
        run_next(s, e, d, o).1.op == OpView::Finish,
        run_next(s, e, d, o).1.lines.len() == 0,
{
}

/// A run starts with [`gate_kept`] holding, and no step breaks it.
pub proof fn law_gate_invariant(fe: FrontendView, s: RunView, e: EventView, d: Seq<char>, o: Seq<(Seq<u8>, bool)>)
    ensures
        gate_kept(run_start(fe)),
        gate_kept(s) ==> gate_kept(run_next(s, e, d, o).0),
{
}

/// npm runs only when the inputs' digest differs from the recorded one or
/// the built bundle is missing.
pub proof fn law_npm_only_when_changed(s: RunView, e: EventView, d: Seq<char>, o: Seq<(Seq<u8>, bool)>)
    requires
        gate_kept(s),
        run_next(s, e, d, o).1.op is Npm,
    ensures
        gate_open(run_next(s, e, d, o).0),
{
}

/// When the digest matches the recorded one and the bundle exists, the run
/// ends with the note and no npm step.
pub proof fn law_unchanged_skips_npm(s: RunView, e: EventView, d: Seq<char>, o: Seq<(Seq<u8>, bool)>)
    requires
        s.stage == RunStage::Bundle,
        s.current == s.previous,
        flag_of(e),
    ensures
        run_next(s, e, d, o).0.stage == RunStage::Finished,
        run_next(s, e, d, o).1.op == OpView::Finish,
{
}

/// `npm install` runs exactly when `node_modules` is missing or the install
/// manifests' digest differs from the one recorded at the last install.
pub proof fn law_install_only_when_due(s: RunView, e: EventView, d: Seq<char>, o: Seq<(Seq<u8>, bool)>)
    ensures
        (run_next(s, e, d, o).1.op == OpView::Npm(Some(s.fe.root), install_args())) <==> (s.stage
            == RunStage::NodeModules && install_due(flag_of(e), s.have, s.want)),
{
    assert(install_args().len() == 1);
    assert(build_args().len() == 2);
}

/// Stamps are written only after the work they record: the install stamp
/// after `npm install`, the build stamp after `npm run build`, each with its
/// digest; and the build stage is entered only through `npm run build`.
pub proof fn law_stamps_follow_work(s: RunView, e: EventView, d: Seq<char>, o: Seq<(Seq<u8>, bool)>)
    ensures
        run_next(s, e, d, o).1.op is WriteStamp ==> (s.stage == RunStage::Installed
            && run_next(s, e, d, o).1.op == OpView::WriteStamp(
            install_stamp_path(s.out_dir),
            s.want,
        )) || (s.stage == RunStage::Built && run_next(s, e, d, o).1.op == OpView::WriteStamp(
            stamp_path(s.out_dir),
            s.current,
        )),
        (run_next(s, e, d, o).0.stage == RunStage::Built && s.stage != RunStage::Built) ==> run_next(
            s,
            e,
            d,
            o,
        ).1.op == OpView::Npm(Some(s.fe.root), build_args()),
{
}

/// The hash walks `src/` under the root in ascending order of names, with the
/// generated client's directory left out.
pub proof fn law_generated_dir_not_hashed(
    s: RunView,
    e: EventView,
    d: Seq<char>,
    o: Seq<(Seq<u8>, bool)>,
)
    requires
        s.stage == RunStage::OutDir,
        s.fe.openapi is Some,
    ensures
        run_next(s, e, d, o).1.op == OpView::ListDir(under(s.fe.root, "src"@)),
        run_next(s, e, d, o).0.walk.exclude == seq![spec_join(s.fe.root, s.fe.openapi->0.out_dir)],
        run_next(s, e, d, o).0.walk.sorted,
        run_next(s, e, d, o).0.walk.dir == under(s.fe.root, "src"@),
{
}

/// Every file a walk takes is a frontend source outside the excluded paths,
/// and every directory it descends into is outside them too.
pub proof fn law_walk_takes_sources(
    dir: Seq<u8>,
    entries: Seq<(Seq<u8>, bool)>,
    exclude: Seq<Seq<u8>>,
    k: int,
)
    requires
        0 <= k < spec_plan(dir, entries, exclude).len(),
    ensures
        !is_excluded(spec_plan(dir, entries, exclude)[k].0, exclude),
        !spec_plan(dir, entries, exclude)[k].1 ==> is_frontend_source(
            spec_plan(dir, entries, exclude)[k].0,
        ),
    decreases entries.len(),
{
    let plan = spec_plan(dir, entries, exclude);
    if entries.len() > 0 {
        let rest = spec_plan(dir, entries.drop_last(), exclude);
        if k < rest.len() {
            law_walk_takes_sources(dir, entries.drop_last(), exclude, k);
        }
    }
}

/// A Rust source is never watched or hashed.
pub proof fn law_rust_sources_ignored(p: Seq<u8>)
    requires
        spec_extension(p) == Some(encode_utf8("rs"@)),
    ensures
        !is_frontend_source(p),
{
    reveal_strlit("rs");
    reveal_strlit("svelte");
    reveal_strlit("ts");
    reveal_strlit("js");
    reveal_strlit("mjs");
    reveal_strlit("css");
    reveal_strlit("html");
    assert forall|i: int| 0 <= i < frontend_exts().len() implies encode_utf8("rs"@) != encode_utf8(
        #[trigger] frontend_exts()[i],
    ) by {
        encode_utf8_decode_utf8("rs"@);
        encode_utf8_decode_utf8(frontend_exts()[i]);
        assert("rs"@ != frontend_exts()[i]) by {
            if i == 0 {
                assert("rs"@.len() != "svelte"@.len());
            } else if i == 1 {
                assert("rs"@[0] != "ts"@[0]);
            } else if i == 2 {
                assert("rs"@[0] != "js"@[0]);
            } else if i == 3 {
                assert("rs"@.len() != "mjs"@.len());
            } else if i == 4 {
                assert("rs"@.len() != "css"@.len());
            } else {
                assert("rs"@.len() != "html"@.len());
            }
        }
    }
    assert(!is_frontend_ext(encode_utf8("rs"@)));
}


proof fn lemma_scan_plain_tail(x: Seq<u8>, n: Seq<u8>)
    requires
        !n.contains(sep()),
    ensures
        scan(x + n) == (scan(x).0, scan(x).1 + n),
    decreases n.len(),
{
    if n.len() == 0 {
        assert(x + n =~= x);
        assert(scan(x).1 + n =~= scan(x).1);
    } else {
        let m = n.drop_last();
        assert(!m.contains(sep())) by {
            if m.contains(sep()) {
                let k = choose|k: int| 0 <= k < m.len() && m[k] == sep();
                assert(n[k] == sep());
            }
        }
        lemma_scan_plain_tail(x, m);
        assert((x + n).drop_last() =~= x + m);
        assert((x + n).last() == n.last());
        assert(n.last() != sep()) by {
            if n.last() == sep() {
                assert(n.contains(sep()));
            }
        }
        assert((scan(x).1 + m).push(n.last()) =~= scan(x).1 + n);
    }
}

/// The path of a plain name under a directory has the directory's
/// components and then the name; so it lies under the directory, and so
/// does everything a walk of the directory plans.
pub proof fn law_entry_lies_under_dir(dir: Seq<u8>, name: Seq<u8>)
    requires
        name.len() > 0,
        !name.contains(sep()),
        name != cur_dir_component(),
    ensures
        spec_components(spec_join(dir, name)) == spec_components(dir).push(name),
        spec_starts_with(spec_join(dir, name), dir),
{
    let j = spec_join(dir, name);
    assert(is_normal(name));
    if dir.len() == 0 {
        assert(j =~= Seq::<u8>::empty() + name);
        lemma_scan_plain_tail(Seq::empty(), name);
        assert(scan(Seq::<u8>::empty()) == (Seq::<Seq<u8>>::empty(), Seq::<u8>::empty()));
        assert(Seq::<u8>::empty() + name =~= name);
        assert(segments(j) =~= Seq::<Seq<u8>>::empty().push(name));
        lemma_filter_push(Seq::empty(), name);
        reveal(Seq::filter);
        assert(Seq::<Seq<u8>>::empty().filter(normal_filter()) =~= Seq::<Seq<u8>>::empty());
        assert(name[0] != sep()) by {
            if name[0] == sep() {
                assert(name.contains(sep()));
            }
        }
        assert(component_prefix(j) =~= Seq::<Seq<u8>>::empty()) by {
            if name.len() == 1 && name[0] == 46u8 {
                assert(name =~= cur_dir_component());
            }
            if name.len() > 1 && name[1] == sep() {
                assert(name.contains(sep()));
            }
        }
        assert(segments(dir) =~= seq![Seq::<u8>::empty()]);
        assert(seq![Seq::<u8>::empty()] =~= Seq::<Seq<u8>>::empty().push(Seq::<u8>::empty()));
        lemma_filter_push(Seq::empty(), Seq::empty());
        assert(spec_components(dir) =~= Seq::<Seq<u8>>::empty());
        assert(spec_components(j) =~= spec_components(dir).push(name));
    } else if dir.last() != sep() {
        let d1 = dir.push(sep());
        assert(j =~= d1 + name);
        assert(d1.drop_last() =~= dir);
        assert(scan(d1) == (scan(dir).0.push(scan(dir).1), Seq::<u8>::empty()));
        lemma_scan_plain_tail(d1, name);
        assert(Seq::<u8>::empty() + name =~= name);
        assert(segments(j) =~= segments(dir).push(name));
        lemma_filter_push(segments(dir), name);
        assert(component_prefix(j) =~= component_prefix(dir)) by {
            assert(j[0] == dir[0]);
            if dir.len() >= 2 {
                assert(j[1] == dir[1]);
            } else {
                assert(j[1] == sep());
            }
        }
        assert(spec_components(j) =~= spec_components(dir).push(name));
    } else {
        assert(j =~= dir + name);
        assert(dir.drop_last() + seq![sep()] =~= dir);
        assert(scan(dir).1 == Seq::<u8>::empty());
        lemma_scan_plain_tail(dir, name);
        assert(Seq::<u8>::empty() + name =~= name);
        assert(segments(j) =~= scan(dir).0.push(name));
        lemma_filter_push(scan(dir).0, name);
        lemma_filter_push(scan(dir).0, Seq::empty());
        assert(component_prefix(j) =~= component_prefix(dir)) by {
            assert(j[0] == dir[0]);
            if dir.len() >= 2 {
                assert(j[1] == dir[1]);
            }
        }
        assert(spec_components(j) =~= spec_components(dir).push(name));
    }
    assert(spec_components(j).subrange(0, spec_components(dir).len() as int) =~= spec_components(
        dir,
    ));
}

proof fn lemma_filter_map_contains<A, B>(s: Seq<A>, f: spec_fn(A) -> Option<B>, v: B)
    ensures
        s.filter_map(f).contains(v) <==> exists|e: A| s.contains(e) && f(e) == Some(v),
    decreases s.len(),
{
    if s.len() == 0 {
        assert(s.filter_map(f) =~= Seq::<B>::empty());
    } else {
        let rest = s.drop_last();
        let x = s.last();
        let fm = s.filter_map(f);
        let rm = rest.filter_map(f);
        lemma_filter_map_contains(rest, f, v);
        assert(fm == match f(x) {
            Some(y) => rm + seq![y],
            None => rm,
        });
        assert forall|e: A| rest.contains(e) implies s.contains(e) by {
            let i = choose|i: int| 0 <= i < rest.len() && rest[i] == e;
            assert(s[i] == e);
        }
        if fm.contains(v) {
            if f(x) != Some(v) {
                let k = choose|k: int| 0 <= k < fm.len() && fm[k] == v;
                assert(k < rm.len());
                assert(rm[k] == v);
                assert(rm.contains(v));
            } else {
                assert(s.contains(x));
            }
        }
        if exists|e: A| s.contains(e) && f(e) == Some(v) {
            let e = choose|e: A| s.contains(e) && f(e) == Some(v);
            let i = choose|i: int| 0 <= i < s.len() && s[i] == e;
            if i == s.len() - 1 {
                assert(fm[fm.len() - 1] == v);
                assert(fm.contains(v));
            } else {
                assert(rest[i] == e);
                assert(rest.contains(e));
                assert(rm.contains(v));
                let k = choose|k: int| 0 <= k < rm.len() && rm[k] == v;
                assert(fm[k] == v);
                assert(fm.contains(v));
            }
        }
    }
}

/// Hashing takes what watching takes: with nothing excluded, the sorted
/// entries the hash walks and the listed entries the watch walks give the
/// same visits, only in another order.
pub proof fn law_hash_mirrors_watch(
    dir: Seq<u8>,
    listed: Seq<(Seq<u8>, bool)>,
    sorted: Seq<(Seq<u8>, bool)>,
    v: (Seq<u8>, bool),
)
    requires
        sorted.to_multiset() == listed.to_multiset(),
    ensures
        spec_plan(dir, sorted, Seq::empty()).contains(v) <==> spec_plan(
            dir,
            listed,
            Seq::empty(),
        ).contains(v),
{
    let f = visit_for(dir, Seq::empty());
    lemma_filter_map_contains(sorted, f, v);
    lemma_filter_map_contains(listed, f, v);
    assert forall|e: (Seq<u8>, bool)| sorted.contains(e) <==> listed.contains(e) by {
        to_multiset_contains(sorted, e);
        to_multiset_contains(listed, e);
    }
}

/// Every file a walk has pending is a frontend source outside its excluded paths.
pub open spec fn walk_files_ok(w: WalkView) -> bool {
    forall|i: int|
        0 <= i < w.pending.len() && !(#[trigger] w.pending[i]).1 ==> is_frontend_source(
            w.pending[i].0,
        ) && !is_excluded(w.pending[i].0, w.exclude)
}

/// A walk only ever hands out frontend sources outside its excluded paths:
/// true of a new walk, and kept by handing out and by planning a listing.
pub proof fn law_walk_hands_out_sources(
    root: Seq<u8>,
    exclude: Seq<Seq<u8>>,
    sorted: bool,
    w: WalkView,
    order: Seq<(Seq<u8>, bool)>,
)
    ensures
        walk_files_ok(walk_begin(root, exclude, sorted)),
        walk_files_ok(w) ==> walk_files_ok(walk_pop(w).0),
        walk_files_ok(w) ==> walk_files_ok(walk_listed(w, order)),
        walk_files_ok(w) && walk_pop(w).1 is Some && !walk_pop(w).1.unwrap().1 ==> is_frontend_source(
            walk_pop(w).1.unwrap().0,
        ) && !is_excluded(walk_pop(w).1.unwrap().0, w.exclude),
{
    if walk_files_ok(w) {
        let plan = spec_plan(w.dir, order, w.exclude);
        let l = walk_listed(w, order);
        assert forall|i: int| 0 <= i < l.pending.len() && !(#[trigger] l.pending[i]).1 implies is_frontend_source(
            l.pending[i].0,
        ) && !is_excluded(l.pending[i].0, l.exclude) by {
            if i >= w.pending.len() {
                let j = i - w.pending.len();
                assert(l.pending[i] == plan.reverse()[j]);
                assert(plan.reverse()[j] == plan[plan.len() - 1 - j]);
                law_walk_takes_sources(w.dir, order, w.exclude, plan.len() - 1 - j);
            } else {
                assert(l.pending[i] == w.pending[i]);
            }
        }
        if w.pending.len() > 0 {
            let p = walk_pop(w).0;
            assert forall|i: int| 0 <= i < p.pending.len() && !(#[trigger] p.pending[i]).1 implies is_frontend_source(
                p.pending[i].0,
            ) && !is_excluded(p.pending[i].0, p.exclude) by {
                assert(p.pending[i] == w.pending[i]);
            }
            let k = w.pending.len() - 1;
            assert(w.pending[k] == w.pending.last());
        }
    }
}

proof fn lemma_drain_files_ok(w: WalkView, lines: Seq<Seq<u8>>)
    requires
        walk_files_ok(w),
    ensures
        walk_files_ok(watch_drain(w, lines).0),
    decreases w.pending.len(),
{
    law_walk_hands_out_sources(Seq::empty(), Seq::empty(), false, w, Seq::empty());
    if w.pending.len() > 0 && !w.pending.last().1 {
        lemma_drain_files_ok(walk_pop(w).0, lines.push(rerun_line(w.pending.last().0)));
    }
}

/// What the hash of a run reads: its walk's pending files, and the file it
/// is reading, are frontend sources outside the excluded paths.
pub open spec fn run_reads_ok(s: RunView) -> bool {
    &&& walk_files_ok(s.walk)
    &&& s.stage == RunStage::HashFile ==> is_frontend_source(s.reading) && !is_excluded(
        s.reading,
        s.walk.exclude,
    )
}

/// The hash of a run reads only frontend sources outside the excluded paths
/// (the generated client's directory): true when the run starts and after
/// every step, and the step that moves to reading a file asks to read it.
pub proof fn law_hash_reads_sources(
    fe: FrontendView,
    s: RunView,
    e: EventView,
    d: Seq<char>,
    o: Seq<(Seq<u8>, bool)>,
)
    ensures
        run_reads_ok(run_start(fe)),
        run_reads_ok(s) ==> run_reads_ok(run_next(s, e, d, o).0),
        run_next(s, e, d, o).0.stage == RunStage::HashFile && s.stage != RunStage::HashFile
            ==> run_next(s, e, d, o).1.op == OpView::ReadBytes(run_next(s, e, d, o).0.reading),
{
    law_walk_hands_out_sources(Seq::empty(), Seq::empty(), false, run_start(fe).walk, Seq::empty());
    if run_reads_ok(s) {
        let root = s.fe.root;
        let src = under(root, "src"@);
        let wh = walk_begin(src, hash_exclude(s.fe), true);
        let ww = walk_begin(src, Seq::empty(), false);
        law_walk_hands_out_sources(src, hash_exclude(s.fe), true, s.walk, o);
        law_walk_hands_out_sources(src, Seq::empty(), false, wh, o);
        law_walk_hands_out_sources(src, Seq::empty(), false, ww, o);
        law_walk_hands_out_sources(src, Seq::empty(), false, walk_listed(s.walk, o), o);
        lemma_drain_files_ok(ww, Seq::empty());
        lemma_drain_files_ok(walk_listed(s.walk, o), Seq::empty());
        match s.stage {
            RunStage::Config(i) => {
                if flag_of(e) {
                    lemma_drain_files_ok(ww, seq![rerun_line(under(root, crate::layout::config_files()[i as int]))]);
                } else {
                    lemma_drain_files_ok(ww, Seq::empty());
                }
            },
            _ => {},
        }
    }
}

/// In the working-directory build, `npm install` runs exactly when, with
/// the last manifest's time known, `node_modules` is missing, its time is
/// unknown, or a manifest is newer than it; and `npm run build` follows in
/// every case before the build ends.
pub proof fn law_cwd_install_when_needed(s: CwdView, e: EventView)
    requires
        cwd_stage_ok(s.stage),
    ensures
        (cwd_next(s, e).1.op == OpView::Npm(None, install_args())) <==> (s.stage
            == CwdStage::ManifestTime(1) && spec_needs_install(
            s.node_modules,
            s.installed,
            s.times.push(time_of(e)),
        )),
        (cwd_next(s, e).0.stage == CwdStage::Built && s.stage != CwdStage::Built) ==> cwd_next(
            s,
            e,
        ).1.op == OpView::Npm(None, build_args()),
        cwd_next(s, e).0.stage == CwdStage::Finished && s.stage != CwdStage::Finished ==> s.stage
            == CwdStage::Built,
{
    assert(install_args().len() == 1);
    assert(build_args().len() == 2);
}

/// No two entries share a name, as in a directory's listing.
pub open spec fn names_distinct(s: Seq<(Seq<u8>, bool)>) -> bool {
    forall|i: int, j: int|
        0 <= i < s.len() && 0 <= j < s.len() && i != j ==> #[trigger] s[i].0 != #[trigger] s[j].0
}

proof fn lemma_lex_le_antisymmetric(a: Seq<u8>, b: Seq<u8>)
    requires
        lex_le(a, b),
        lex_le(b, a),
    ensures
        a == b,
    decreases a.len(),
{
    if a.len() == 0 {
        assert(b.len() == 0);
        assert(a =~= b);
    } else {
        assert(b.len() > 0);
        assert(a[0] == b[0]);
        lemma_lex_le_antisymmetric(a.drop_first(), b.drop_first());
        assert(a =~= seq![a[0]] + a.drop_first());
        assert(b =~= seq![b[0]] + b.drop_first());
    }
}

proof fn lemma_names_distinct_moves(listed: Seq<(Seq<u8>, bool)>, o: Seq<(Seq<u8>, bool)>)
    requires
        names_distinct(listed),
        o.to_multiset() == listed.to_multiset(),
    ensures
        names_distinct(o),
{
    assert(listed.no_duplicates()) by {
        assert forall|i: int, j: int|
            0 <= i < listed.len() && 0 <= j < listed.len() && i != j implies listed[i]
            != listed[j] by {
            assert(listed[i].0 != listed[j].0);
        }
    }
    listed.lemma_multiset_has_no_duplicates();
    assert forall|x: (Seq<u8>, bool)| o.to_multiset().contains(x) implies o.to_multiset().count(x)
        == 1 by {
        assert(listed.to_multiset().contains(x));
    }
    o.lemma_multiset_has_no_duplicates_conv();
    assert forall|a: int, b: int| 0 <= a < o.len() && 0 <= b < o.len() && a != b implies #[trigger] o[a].0
        != #[trigger] o[b].0 by {
        if o[a].0 == o[b].0 {
            assert(o.contains(o[a]));
            assert(o.contains(o[b]));
            to_multiset_contains(o, o[a]);
            to_multiset_contains(o, o[b]);
            to_multiset_contains(listed, o[a]);
            to_multiset_contains(listed, o[b]);
            let a2 = choose|k: int| 0 <= k < listed.len() && listed[k] == o[a];
            let b2 = choose|k: int| 0 <= k < listed.len() && listed[k] == o[b];
            if a2 != b2 {
                assert(listed[a2].0 != listed[b2].0);
            }
            assert(o[a] == o[b]);
        }
    }
}

proof fn lemma_sorted_order_unique(o1: Seq<(Seq<u8>, bool)>, o2: Seq<(Seq<u8>, bool)>)
    requires
        sorted_by_name(o1),
        sorted_by_name(o2),
        names_distinct(o1),
        o1.to_multiset() == o2.to_multiset(),
    ensures
        o1 == o2,
    decreases o1.len(),
{
    to_multiset_len(o1);
    to_multiset_len(o2);
    if o1.len() == 0 {
        assert(o1 =~= o2);
    } else {
        let x = o1[0];
        let y = o2[0];
        assert(o1.contains(x));
        assert(o2.contains(y));
        to_multiset_contains(o1, x);
        to_multiset_contains(o2, x);
        to_multiset_contains(o1, y);
        to_multiset_contains(o2, y);
        let j = choose|j: int| 0 <= j < o2.len() && o2[j] == x;
        let k = choose|k: int| 0 <= k < o1.len() && o1[k] == y;
        if k > 0 {
            assert(lex_le(o1[0].0, o1[k].0));
            if j > 0 {
                assert(lex_le(o2[0].0, o2[j].0));
                lemma_lex_le_antisymmetric(x.0, y.0);
            }
            assert(o1[0].0 == o1[k].0);
            assert(false);
        }
        assert(x == y);
        to_multiset_remove(o1, 0);
        to_multiset_remove(o2, 0);
        assert(o1.remove(0) =~= o1.drop_first());
        assert(o2.remove(0) =~= o2.drop_first());
        let r1 = o1.drop_first();
        let r2 = o2.drop_first();
        assert(sorted_by_name(r1)) by {
            assert forall|a: int, b: int| 0 <= a < b < r1.len() implies lex_le(
                #[trigger] r1[a].0,
                #[trigger] r1[b].0,
            ) by {
                assert(lex_le(o1[a + 1].0, o1[b + 1].0));
            }
        }
        assert(sorted_by_name(r2)) by {
            assert forall|a: int, b: int| 0 <= a < b < r2.len() implies lex_le(
                #[trigger] r2[a].0,
                #[trigger] r2[b].0,
            ) by {
                assert(lex_le(o2[a + 1].0, o2[b + 1].0));
            }
        }
        assert(names_distinct(r1)) by {
            assert forall|a: int, b: int|
                0 <= a < r1.len() && 0 <= b < r1.len() && a != b implies #[trigger] r1[a].0
                != #[trigger] r1[b].0 by {
                assert(o1[a + 1].0 != o1[b + 1].0);
            }
        }
        lemma_sorted_order_unique(r1, r2);
        assert(o1 =~= seq![x] + r1);
        assert(o2 =~= seq![y] + r2);
    }
}

/// A sorted walk takes a directory's entries in one order, whatever order
/// the directory listed them in: two name-sorted orders of the same entries,
/// whose names are distinct as a directory's are, are the same order, and so
/// give the same visits.
pub proof fn law_sorted_listing_order_unique(
    dir: Seq<u8>,
    exclude: Seq<Seq<u8>>,
    listed1: Seq<(Seq<u8>, bool)>,
    listed2: Seq<(Seq<u8>, bool)>,
    o1: Seq<(Seq<u8>, bool)>,
    o2: Seq<(Seq<u8>, bool)>,
)
    requires
        names_distinct(listed1),
        listed1.to_multiset() == listed2.to_multiset(),
        o1.to_multiset() == listed1.to_multiset(),
        sorted_by_name(o1),
        o2.to_multiset() == listed2.to_multiset(),
        sorted_by_name(o2),
    ensures
        o1 == o2,
        spec_plan(dir, o1, exclude) == spec_plan(dir, o2, exclude),
{
    lemma_names_distinct_moves(listed1, o1);
    lemma_sorted_order_unique(o1, o2);
}

proof fn lemma_filter_map_add<A, B>(a: Seq<A>, b: Seq<A>, f: spec_fn(A) -> Option<B>)
    ensures
        (a + b).filter_map(f) == a.filter_map(f) + b.filter_map(f),
    decreases b.len(),
{
    if b.len() == 0 {
        assert(a + b =~= a);
        assert(a.filter_map(f) + b.filter_map(f) =~= a.filter_map(f));
    } else {
        lemma_filter_map_add(a, b.drop_last(), f);
        assert((a + b).drop_last() =~= a + b.drop_last());
        assert((a + b).last() == b.last());
        match f(b.last()) {
            Some(v) => {
                assert(a.filter_map(f) + b.drop_last().filter_map(f) + seq![v] =~= a.filter_map(f)
                    + (b.drop_last().filter_map(f) + seq![v]));
            },
            None => {},
        }
    }
}

/// An entry that is excluded, or is a file but no frontend source, leaves
/// the visits of a directory as they are wherever it stands in the listing:
/// backend files and the generated directory never change what a walk takes.
pub proof fn law_ignored_entry_changes_nothing(
    dir: Seq<u8>,
    exclude: Seq<Seq<u8>>,
    before: Seq<(Seq<u8>, bool)>,
    after: Seq<(Seq<u8>, bool)>,
    x: (Seq<u8>, bool),
)
    requires
        is_excluded(spec_join(dir, x.0), exclude) || (!x.1 && !is_frontend_source(
            spec_join(dir, x.0),
        )),
    ensures
        spec_plan(dir, before + seq![x] + after, exclude) == spec_plan(dir, before + after, exclude),
{
    let f = visit_for(dir, exclude);
    lemma_filter_map_add(before + seq![x], after, f);
    lemma_filter_map_add(before, seq![x], f);
    lemma_filter_map_add(before, after, f);
    assert(seq![x].drop_last() =~= Seq::<(Seq<u8>, bool)>::empty());
    assert(seq![x].last() == x);
    assert(f(x) is None);
    assert(Seq::<(Seq<u8>, bool)>::empty().filter_map(f) =~= Seq::<(Seq<u8>, bool)>::empty());
    assert(seq![x].filter_map(f) =~= Seq::<(Seq<u8>, bool)>::empty());
    assert(before.filter_map(f) + Seq::<(Seq<u8>, bool)>::empty() =~= before.filter_map(f));
}


/// `files` feeds the hasher four pieces a file.
pub proof fn lemma_file_chunks_len(files: Seq<(Seq<u8>, Seq<u8>)>)
    ensures
        file_chunks(files).len() == 4 * files.len(),
    decreases files.len(),
{
    if files.len() > 0 {
        lemma_file_chunks_len(files.drop_last());
    }
}

/// `blobs` feeds the hasher two pieces a blob.
pub proof fn lemma_blob_chunks_len(blobs: Seq<Seq<u8>>)
    ensures
        blob_chunks(blobs).len() == 2 * blobs.len(),
    decreases blobs.len(),
{
    if blobs.len() > 0 {
        lemma_blob_chunks_len(blobs.drop_last());
    }
}

/// Different files feed the hasher different inputs: what the hasher takes
/// for a list of files gives back every path and every file's contents, in
/// order.
pub proof fn law_file_chunks_distinct(f1: Seq<(Seq<u8>, Seq<u8>)>, f2: Seq<(Seq<u8>, Seq<u8>)>)
    requires
        file_chunks(f1) == file_chunks(f2),
    ensures
        f1 == f2,
    decreases f1.len(),
{
    lemma_file_chunks_len(f1);
    lemma_file_chunks_len(f2);
    if f1.len() > 0 {
        let n = f1.len() - 1;
        let c1 = file_chunks(f1);
        let a1 = file_chunks(f1.drop_last());
        let a2 = file_chunks(f2.drop_last());
        lemma_file_chunks_len(f1.drop_last());
        lemma_file_chunks_len(f2.drop_last());
        assert(c1 == a1 + path_chunks(f1.last().0) + bytes_chunks(f1.last().1));
        assert(c1 == a2 + path_chunks(f2.last().0) + bytes_chunks(f2.last().1));
        assert(c1[4 * n] == f1.last().0);
        assert(c1[4 * n] == f2.last().0);
        assert(c1[4 * n + 3] == f1.last().1);
        assert(c1[4 * n + 3] == f2.last().1);
        assert(c1.take(4 * n) =~= a1);
        assert(c1.take(4 * n) =~= a2);
        law_file_chunks_distinct(f1.drop_last(), f2.drop_last());
        assert(f1 =~= f1.drop_last().push(f1.last()));
        assert(f2 =~= f2.drop_last().push(f2.last()));
    } else {
        assert(f1 =~= f2);
    }
}

/// Different manifest contents feed the hasher different inputs: what the
/// hasher takes for the blobs gives back every blob, in order.
pub proof fn law_blob_chunks_distinct(b1: Seq<Seq<u8>>, b2: Seq<Seq<u8>>)
    requires
        blob_chunks(b1) == blob_chunks(b2),
    ensures
        b1 == b2,
    decreases b1.len(),
{
    lemma_blob_chunks_len(b1);
    lemma_blob_chunks_len(b2);
    if b1.len() > 0 {
        let n = b1.len() - 1;
        let c1 = blob_chunks(b1);
        let a1 = blob_chunks(b1.drop_last());
        let a2 = blob_chunks(b2.drop_last());
        lemma_blob_chunks_len(b1.drop_last());
        lemma_blob_chunks_len(b2.drop_last());
        assert(c1 == a1 + bytes_chunks(b1.last()));
        assert(c1 == a2 + bytes_chunks(b2.last()));
        assert(c1[2 * n + 1] == b1.last());
        assert(c1[2 * n + 1] == b2.last());
        assert(c1.take(2 * n) =~= a1);
        assert(c1.take(2 * n) =~= a2);
        law_blob_chunks_distinct(b1.drop_last(), b2.drop_last());
        assert(b1 =~= b1.drop_last().push(b1.last()));
        assert(b2 =~= b2.drop_last().push(b2.last()));
    } else {
        assert(b1 =~= b2);
    }
}

/// `lead` feeds the hasher two pieces a text.
pub proof fn lemma_lead_chunks_len(lead: Seq<Seq<char>>)
    ensures
        lead_chunks(lead).len() == 2 * lead.len(),
    decreases lead.len(),
{
    if lead.len() > 0 {
        lemma_lead_chunks_len(lead.drop_last());
    }
}

/// Different texts feed the hasher different inputs: what the hasher takes
/// for as many texts gives back every text, in order.
pub proof fn law_lead_chunks_distinct(l1: Seq<Seq<char>>, l2: Seq<Seq<char>>)
    requires
        l1.len() == l2.len(),
        lead_chunks(l1) == lead_chunks(l2),
    ensures
        l1 == l2,
    decreases l1.len(),
{
    if l1.len() > 0 {
        let n = l1.len() - 1;
        let c1 = lead_chunks(l1);
        let a1 = lead_chunks(l1.drop_last());
        let a2 = lead_chunks(l2.drop_last());
        lemma_lead_chunks_len(l1.drop_last());
        lemma_lead_chunks_len(l2.drop_last());
        assert(c1 == a1 + text_chunks(l1.last()));
        assert(c1 == a2 + text_chunks(l2.last()));
        assert(c1[2 * n] == encode_utf8(l1.last()));
        assert(c1[2 * n] == encode_utf8(l2.last()));
        encode_utf8_decode_utf8(l1.last());
        encode_utf8_decode_utf8(l2.last());
        assert(c1.take(2 * n) =~= a1);
        assert(c1.take(2 * n) =~= a2);
        law_lead_chunks_distinct(l1.drop_last(), l2.drop_last());
        assert(l1 =~= l1.drop_last().push(l1.last()));
        assert(l2 =~= l2.drop_last().push(l2.last()));
    } else {
        assert(l1 =~= l2);
    }
}

/// Different inputs feed the change hash different inputs: with as many
/// texts first (an OpenAPI spec configured in both or in neither), what the
/// hasher takes gives back the texts and the files, so a changed spec or a
/// changed file changes what is hashed.
pub proof fn law_inputs_chunks_distinct(
    l1: Seq<Seq<char>>,
    f1: Seq<(Seq<u8>, Seq<u8>)>,
    l2: Seq<Seq<char>>,
    f2: Seq<(Seq<u8>, Seq<u8>)>,
)
    requires
        l1.len() == l2.len(),
        inputs_chunks(l1, f1) == inputs_chunks(l2, f2),
    ensures
        l1 == l2,
        f1 == f2,
{
    lemma_lead_chunks_len(l1);
    lemma_lead_chunks_len(l2);
    let n = lead_chunks(l1).len() as int;
    assert(inputs_chunks(l1, f1).take(n) =~= lead_chunks(l1));
    assert(inputs_chunks(l2, f2).take(n) =~= lead_chunks(l2));
    law_lead_chunks_distinct(l1, l2);
    assert(inputs_chunks(l1, f1).skip(n) =~= file_chunks(f1));
    assert(inputs_chunks(l2, f2).skip(n) =~= file_chunks(f2));
    law_file_chunks_distinct(f1, f2);
}

/// The change digest is taken over everything the run read: once the last
/// config file's answer is in, `current` is the digest of the OpenAPI spec
/// (where one is configured) and of all the files recorded, the sources of
/// `src/` and then the readable config files, that answer's file among them;
/// and the run goes on to read the build stamp.
pub proof fn law_change_digest_covers_files(s: RunView, e: EventView, t: RunView, r: RequestView)
    requires
        s.stage == RunStage::ConfigHash(5),
        run_step(s, e, t, r),
    ensures
        t.files == (match bytes_of(e) {
            Some(b) => s.files.push((config_path(s.fe.root, 5), b)),
            None => s.files,
        }),
        t.current == spec_lower_hex(inputs_hash(gate_lead_of(s.fe), t.files) as nat),
        t.stage == RunStage::Previous,
        r.op == OpView::ReadText(stamp_path(s.out_dir)),
{
    let o = choose|o: Seq<(Seq<u8>, bool)>|
        (t, r) == #[trigger] run_next(s, e, step_digest(s, e), o);
    assert((t, r) == run_next(s, e, step_digest(s, e), o));
}

/// The change digest is one function of the run's inputs, the same in
/// every run: two runs that hashed the same OpenAPI spec (or none) and
/// recorded the same files get the same digest, and two runs, each with a
/// spec configured or each without, that hashed different specs or recorded
/// different files (an edited source, a changed config file) feed the hasher
/// different inputs.
pub proof fn law_change_digest_same_inputs_same_digest(
    s1: RunView,
    e1: EventView,
    t1: RunView,
    r1: RequestView,
    s2: RunView,
    e2: EventView,
    t2: RunView,
    r2: RequestView,
)
    requires
        s1.stage == RunStage::ConfigHash(5),
        s2.stage == RunStage::ConfigHash(5),
        s1.fe.openapi is Some == s2.fe.openapi is Some,
        run_step(s1, e1, t1, r1),
        run_step(s2, e2, t2, r2),
    ensures
        gate_lead_of(s1.fe) == gate_lead_of(s2.fe) && t1.files == t2.files ==> t1.current
            == t2.current,
        gate_lead_of(s1.fe) != gate_lead_of(s2.fe) || t1.files != t2.files ==> inputs_chunks(
            gate_lead_of(s1.fe),
            t1.files,
        ) != inputs_chunks(gate_lead_of(s2.fe), t2.files),
{
    law_change_digest_covers_files(s1, e1, t1, r1);
    law_change_digest_covers_files(s2, e2, t2, r2);
    if inputs_chunks(gate_lead_of(s1.fe), t1.files) == inputs_chunks(gate_lead_of(s2.fe), t2.files) {
        law_inputs_chunks_distinct(gate_lead_of(s1.fe), t1.files, gate_lead_of(s2.fe), t2.files);
    }
}

/// The install digest is taken over the manifests read: once the last
/// manifest's answer is in, `want` is the digest of the contents of the
/// readable manifests, that answer's among them; and the run goes on to
/// read the install stamp.
pub proof fn law_install_digest_covers_manifests(s: RunView, e: EventView, t: RunView, r: RequestView)
    requires
        s.stage == RunStage::Manifest(1),
        run_step(s, e, t, r),
    ensures
        t.blobs == (match bytes_of(e) {
            Some(b) => s.blobs.push(b),
            None => s.blobs,
        }),
        t.want == spec_lower_hex(blobs_hash(t.blobs) as nat),
        t.stage == RunStage::InstallStamp,
        r.op == OpView::ReadText(install_stamp_path(s.out_dir)),
{
    let o = choose|o: Seq<(Seq<u8>, bool)>|
        (t, r) == #[trigger] run_next(s, e, step_digest(s, e), o);
    assert((t, r) == run_next(s, e, step_digest(s, e), o));
}

/// The install digest is one function of the manifests' contents, the same
/// in every run: the same contents give the same digest, and different
/// contents (a dependency added to `package.json`) feed the hasher different
/// inputs.
pub proof fn law_install_digest_same_contents_same_digest(
    s1: RunView,
    e1: EventView,
    t1: RunView,
    r1: RequestView,
    s2: RunView,
    e2: EventView,
    t2: RunView,
    r2: RequestView,
)
    requires
        s1.stage == RunStage::Manifest(1),
        s2.stage == RunStage::Manifest(1),
        run_step(s1, e1, t1, r1),
        run_step(s2, e2, t2, r2),
    ensures
        t1.blobs == t2.blobs ==> t1.want == t2.want,
        t1.blobs != t2.blobs ==> blob_chunks(t1.blobs) != blob_chunks(t2.blobs),
{
    law_install_digest_covers_manifests(s1, e1, t1, r1);
    law_install_digest_covers_manifests(s2, e2, t2, r2);
    if blob_chunks(t1.blobs) == blob_chunks(t2.blobs) {
        law_blob_chunks_distinct(t1.blobs, t2.blobs);
    }
}

/// Handing out a visit takes that visit and no other: with the visit put
/// back on top, the pending visits after a pop are those before it, in
/// sorted and unsorted walks alike, whether it is a file or a directory; a
/// walk with nothing pending hands out nothing and stays as it is; a pop
/// keeps the walk's exclusions and order.
pub proof fn law_pop_takes_one_visit(w: WalkView)
    ensures
        w.pending.len() > 0 ==> walk_pop(w).1 == Some(w.pending.last()) && walk_pop(
            w,
        ).0.pending.push(w.pending.last()) == w.pending,
        w.pending.len() == 0 ==> walk_pop(w).1 is None && walk_pop(w).0 == w,
        walk_pop(w).0.exclude == w.exclude,
        walk_pop(w).0.sorted == w.sorted,
{
    if w.pending.len() > 0 {
        assert(w.pending.drop_last().push(w.pending.last()) =~= w.pending);
    }
}

/// With `node_modules` present and its time known, one manifest newer than
/// it calls for `npm install` wherever it stands in the list and whatever
/// the other manifests' times are.
pub proof fn law_newer_manifest_anywhere_installs(
    installed: i128,
    manifests: Seq<Option<i128>>,
    k: int,
    newer: i128,
)
    requires
        0 <= k <= manifests.len(),
        newer > installed,
    ensures
        spec_needs_install(true, Some(installed), manifests.insert(k, Some(newer))),
{
    assert(manifests.insert(k, Some(newer))[k] == Some(newer));
}

/// A manifest more never takes away the need to install, wherever it is
/// added to the list.
pub proof fn law_install_need_kept_by_more_manifests(
    node_modules: bool,
    installed: Option<i128>,
    manifests: Seq<Option<i128>>,
    k: int,
    time: Option<i128>,
)
    requires
        0 <= k <= manifests.len(),
        spec_needs_install(node_modules, installed, manifests),
    ensures
        spec_needs_install(node_modules, installed, manifests.insert(k, time)),
{
    if node_modules && installed is Some {
        let j = choose|j: int|
            0 <= j < manifests.len() && #[trigger] manifests[j] is Some && manifests[j]->0
                > installed->0;
        let m2 = manifests.insert(k, time);
        if j < k {
            assert(m2[j] == manifests[j]);
        } else {
            assert(m2[j + 1] == manifests[j]);
        }
    }
}

/// With `node_modules` present and its time known, no install is needed
/// when no manifest is known to be newer than it.
pub proof fn law_no_newer_manifest_no_install(installed: i128, manifests: Seq<Option<i128>>)
    requires
        forall|k: int|
            0 <= k < manifests.len() ==> (#[trigger] manifests[k] is None || manifests[k]->0
                <= installed),
    ensures
        !spec_needs_install(true, Some(installed), manifests),
{
}

/// Every config file that exists gets its rerun line, the last one too:
/// the request that follows the existence check of config `i` prints that
/// file's rerun line exactly when the check answers yes, and no other line.
pub proof fn law_existing_config_watched(
    s: RunView,
    e: EventView,
    d: Seq<char>,
    o: Seq<(Seq<u8>, bool)>,
    i: usize,
)
    requires
        s.stage == RunStage::Config(i),
        i < 6,
    ensures
        run_next(s, e, d, o).1.lines.contains(rerun_line(config_path(s.fe.root, i as int)))
            <==> flag_of(e),
        run_next(s, e, d, o).1.lines.len() <= 1,
{
    let l = run_next(s, e, d, o).1.lines;
    if flag_of(e) {
        assert(l[0] == rerun_line(config_path(s.fe.root, i as int)));
    }
}


/// With `node_modules` missing, or its time unknown, `npm install` is
/// needed whatever the manifests' times.
pub proof fn law_missing_or_unknown_installs(
    node_modules: bool,
    installed: Option<i128>,
    manifests: Seq<Option<i128>>,
)
    requires
        !node_modules || installed is None,
    ensures
        spec_needs_install(node_modules, installed, manifests),
{
}

/// In the working-directory build too, every config file that exists gets
/// its rerun line, the last one too, and no other line comes with it.
pub proof fn law_cwd_existing_config_watched(s: CwdView, e: EventView, i: usize)
    requires
        s.stage == CwdStage::Config(i),
        i < 6,
    ensures
        cwd_next(s, e).1.lines.contains(rerun_line(cwd_config(i as int))) <==> flag_of(e),
        cwd_next(s, e).1.lines.len() <= 1,
{
    let l = cwd_next(s, e).1.lines;
    if flag_of(e) {
        assert(l[0] == rerun_line(cwd_config(i as int)));
    }
}

/// `static/` is watched exactly when it exists, and the skip variable is
/// always watched, before its check: in the run, the request that follows
/// the check of `static/` prints the skip variable's line, with the rerun
/// line of `static/` besides exactly when the check answers yes, and asks
/// whether that variable is set.
pub proof fn law_static_and_skip_watched(s: RunView, e: EventView, d: Seq<char>, o: Seq<(Seq<u8>, bool)>)
    requires
        s.stage == RunStage::Static,
    ensures
        flag_of(e) ==> run_next(s, e, d, o).1.lines.contains(
            rerun_line(under(s.fe.root, "static"@)),
        ),
        run_next(s, e, d, o).1.lines.len() == if flag_of(e) {
            2int
        } else {
            1int
        },
        run_next(s, e, d, o).1.lines.contains(env_changed_line(s.fe.skip_env)),
        run_next(s, e, d, o).1.op == OpView::EnvSet(s.fe.skip_env),
{
    let l = run_next(s, e, d, o).1.lines;
    if flag_of(e) {
        assert(l[0] == rerun_line(under(s.fe.root, "static"@)));
        assert(l[1] == env_changed_line(s.fe.skip_env));
    } else {
        assert(l[0] == env_changed_line(s.fe.skip_env));
    }
}

/// Every readable file that the run asks for is recorded with the bytes of
/// the answer, after what was recorded before, and an unreadable one is
/// passed over: a source of `src/` and a config file among the change
/// hash's files, an install manifest among the manifests' contents.
pub proof fn law_read_answer_recorded(
    s: RunView,
    e: EventView,
    d: Seq<char>,
    o: Seq<(Seq<u8>, bool)>,
    i: usize,
)
    ensures
        s.stage == RunStage::HashFile ==> run_next(s, e, d, o).0.files == (match bytes_of(e) {
            Some(b) => s.files.push((s.reading, b)),
            None => s.files,
        }),
        s.stage == RunStage::ConfigHash(i) && i < 6 ==> run_next(s, e, d, o).0.files == (
        match bytes_of(e) {
            Some(b) => s.files.push((config_path(s.fe.root, i as int), b)),
            None => s.files,
        }),
        s.stage == RunStage::Manifest(i) && i < 2 ==> run_next(s, e, d, o).0.blobs == (
        match bytes_of(e) {
            Some(b) => s.blobs.push(b),
            None => s.blobs,
        }),
{
}

/// Planning a listing keeps everything that was pending: those visits stay,
/// in their order, beneath the visits of the listed directory, which come
/// next; the walk's exclusions, order and directory are kept.
pub proof fn law_listing_keeps_pending(w: WalkView, order: Seq<(Seq<u8>, bool)>)
    ensures
        walk_listed(w, order).pending.take(w.pending.len() as int) == w.pending,
        walk_listed(w, order).pending.len() == w.pending.len() + spec_plan(
            w.dir,
            order,
            w.exclude,
        ).len(),
        walk_listed(w, order).exclude == w.exclude,
        walk_listed(w, order).sorted == w.sorted,
        walk_listed(w, order).dir == w.dir,
{
    let p = w.pending + spec_plan(w.dir, order, w.exclude).reverse();
    assert(p.take(w.pending.len() as int) =~= w.pending);
}

/// Draining a watch prints, after the lines given, the rerun line of each
/// file it hands out, in the order handed out, and nothing else: it takes
/// the visits from the top of the walk while they are files, and stops at
/// the first directory, handed out to be listed next, or when nothing is
/// pending.
pub proof fn law_drain_prints_files_taken(w: WalkView, lines: Seq<Seq<u8>>)
    ensures
        watch_drain(w, lines).1.len() >= lines.len(),
        watch_drain(w, lines).1.take(lines.len() as int) == lines,
        forall|j: int|
            0 <= j < watch_drain(w, lines).1.len() - lines.len() ==> (!(#[trigger] w.pending[
                w.pending.len() - 1 - j
            ]).1 && watch_drain(w, lines).1[lines.len() + j] == rerun_line(
                w.pending[w.pending.len() - 1 - j].0,
            )),
        watch_drain(w, lines).2 is Some ==> {
            let n = watch_drain(w, lines).1.len() - lines.len();
            &&& n < w.pending.len()
            &&& w.pending[w.pending.len() - 1 - n] == (watch_drain(w, lines).2->0, true)
            &&& watch_drain(w, lines).0.pending == w.pending.take(w.pending.len() - 1 - n)
        },
        watch_drain(w, lines).2 is None ==> watch_drain(w, lines).1.len() - lines.len()
            == w.pending.len() && watch_drain(w, lines).0.pending.len() == 0,
    decreases w.pending.len(),
{
    let len = w.pending.len() as int;
    if len == 0 {
        assert(lines.take(lines.len() as int) =~= lines);
    } else {
        let top = w.pending.last();
        if top.1 {
            assert(lines.take(lines.len() as int) =~= lines);
            assert(w.pending.drop_last() =~= w.pending.take(len - 1));
            assert(watch_drain(w, lines).1 == lines);
        } else {
            let w1 = walk_pop(w).0;
            let x = rerun_line(top.0);
            let l1 = lines.push(x);
            law_drain_prints_files_taken(w1, l1);
            let l2 = watch_drain(w, lines).1;
            assert(watch_drain(w, lines) == watch_drain(w1, l1));
            assert(w1.pending =~= w.pending.drop_last());
            assert(l2.take(l1.len() as int)[lines.len() as int] == x);
            assert(l2.take(lines.len() as int) =~= l2.take(l1.len() as int).take(lines.len() as int));
            assert forall|j: int|
                0 <= j < l2.len() - lines.len() implies (!(#[trigger] w.pending[len - 1 - j]).1
                && l2[lines.len() + j] == rerun_line(w.pending[len - 1 - j].0)) by {
                if j > 0 {
                    assert(l2[l1.len() + (j - 1)] == rerun_line(
                        w1.pending[w1.pending.len() - 1 - (j - 1)].0,
                    ));
                    assert(w1.pending[w1.pending.len() - 1 - (j - 1)] == w.pending[len - 1 - j]);
                    assert(!w1.pending[w1.pending.len() - 1 - (j - 1)].1);
                } else {
                    assert(w.pending[len - 1 - j] == top);
                    assert(l2[lines.len() as int] == l2.take(l1.len() as int)[lines.len() as int]);
                }
            }
            if watch_drain(w, lines).2 is Some {
                let n1 = l2.len() - l1.len();
                assert(w1.pending[w1.pending.len() - 1 - n1] == w.pending[len - 1 - (n1 + 1)]);
                assert(w1.pending.take(w1.pending.len() - 1 - n1) =~= w.pending.take(len - 1 - (n1
                    + 1)));
            }
        }
    }
}


/// Both builds first tell cargo the build directory: the first request of
/// a run, and of a working-directory build, prints that line and no other.
pub proof fn law_build_dir_told_first(
    s: RunView,
    c: CwdView,
    e: EventView,
    d: Seq<char>,
    o: Seq<(Seq<u8>, bool)>,
)
    requires
        s.stage == RunStage::Begin,
        c.stage == CwdStage::Begin,
    ensures
        run_next(s, e, d, o).1.lines == seq![build_dir_line(s.fe.build_dir)],
        cwd_next(c, e).1.lines == seq![build_dir_line(c.build_dir)],
{
}

/// In the working-directory build, `static/` is watched exactly when it
/// exists: the request that follows its check prints its rerun line
/// exactly when the check answers yes, and no other line.
pub proof fn law_cwd_static_watched(s: CwdView, e: EventView)
    requires
        s.stage == CwdStage::Static,
    ensures
        cwd_next(s, e).1.lines.contains(rerun_line(encode_utf8("static"@))) <==> flag_of(e),
        cwd_next(s, e).1.lines.len() <= 1,
{
    let l = cwd_next(s, e).1.lines;
    if flag_of(e) {
        assert(l[0] == rerun_line(encode_utf8("static"@)));
    }
}


/// Every directory, and every frontend source, outside the excluded paths
/// is planned wherever it stands in the listing: its visit, under the
/// listed directory, comes between the visits of the entries before it and
/// those of the entries after it.
pub proof fn law_kept_entry_planned(
    dir: Seq<u8>,
    exclude: Seq<Seq<u8>>,
    before: Seq<(Seq<u8>, bool)>,
    after: Seq<(Seq<u8>, bool)>,
    x: (Seq<u8>, bool),
)
    requires
        !is_excluded(spec_join(dir, x.0), exclude),
        x.1 || is_frontend_source(spec_join(dir, x.0)),
    ensures
        spec_plan(dir, before + seq![x] + after, exclude) == spec_plan(dir, before, exclude) + seq![
            (spec_join(dir, x.0), x.1),
        ] + spec_plan(dir, after, exclude),
{
    let f = visit_for(dir, exclude);
    lemma_filter_map_add(before + seq![x], after, f);
    lemma_filter_map_add(before, seq![x], f);
    assert(seq![x].drop_last() =~= Seq::<(Seq<u8>, bool)>::empty());
    assert(seq![x].last() == x);
    assert(f(x) == Some((spec_join(dir, x.0), x.1)));
    assert(Seq::<(Seq<u8>, bool)>::empty().filter_map(f) =~= Seq::<(Seq<u8>, bool)>::empty());
    assert(seq![x].filter_map(f) =~= seq![(spec_join(dir, x.0), x.1)]);
}


/// The hash goes depth-first into what it listed: after a directory's
/// listing, the next request is for the first entry that the walk plans
/// (in name order), listing it if it is a directory and reading it if it
/// is a file.
pub proof fn law_hash_takes_first_entry(s: RunView, e: EventView, d: Seq<char>, o: Seq<(Seq<u8>, bool)>)
    requires
        s.stage == RunStage::Hashing,
        spec_plan(s.walk.dir, o, s.walk.exclude).len() > 0,
    ensures
        ({
            let v = spec_plan(s.walk.dir, o, s.walk.exclude)[0];
            run_next(s, e, d, o).1.op == if v.1 {
                OpView::ListDir(v.0)
            } else {
                OpView::ReadBytes(v.0)
            }
        }),
{
    let p = spec_plan(s.walk.dir, o, s.walk.exclude);
    let w = walk_listed(s.walk, o);
    assert(w.pending.last() == p.reverse()[p.len() - 1]);
}

/// The watch goes depth-first into what it listed: after a directory's
/// listing, a file planned first gets the first line printed, its rerun
/// line, and a directory planned first is the next to be listed.
pub proof fn law_watch_takes_first_entry(s: RunView, e: EventView, d: Seq<char>, o: Seq<(Seq<u8>, bool)>)
    requires
        s.stage == RunStage::Watching,
        spec_plan(s.walk.dir, o, s.walk.exclude).len() > 0,
    ensures
        ({
            let v = spec_plan(s.walk.dir, o, s.walk.exclude)[0];
            &&& !v.1 ==> run_next(s, e, d, o).1.lines.len() > 0 && run_next(s, e, d, o).1.lines[0]
                == rerun_line(v.0)
            &&& v.1 ==> run_next(s, e, d, o).1.lines.len() == 0 && run_next(s, e, d, o).1.op
                == OpView::ListDir(v.0)
        }),
{
    let p = spec_plan(s.walk.dir, o, s.walk.exclude);
    let w = walk_listed(s.walk, o);
    let none = Seq::<Seq<u8>>::empty();
    assert(w.pending.last() == p.reverse()[p.len() - 1]);
    law_drain_prints_files_taken(w, none);
    if !p[0].1 {
        let top = w.pending[w.pending.len() - 1 - 0int];
        assert(!top.1);
        assert(watch_drain(w, none).1.len() > 0);
        assert(watch_drain(w, none).1[0] == rerun_line(top.0));
    }
}

} // verus!
