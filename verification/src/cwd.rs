use vstd::prelude::*;
use vstd::utf8::encode_utf8;
use vstd::string::StringSliceAdditionalSpecFns;
use crate::io::{flag_of, listing_in, time_of, Event, EventView, Op, OpView, Request, RequestView};
use crate::bytes::seqs_of;
use crate::tree::{walk_begin, walk_listed, Walk, WalkView};
use crate::layout::{config_file, config_files, install_manifest, install_manifests};
use crate::lines::{build_dir_env, build_dir_line, rerun_if_changed, rerun_line};
use crate::path::FsPath;
use crate::steps::{
    add_line, ask, build_args, drain_watch, install_args, no_lines, npm_build_args,
    npm_install_args, one_line, request, under, watch_drain, lemma_drain_keeps_settings,
};

verus! {

/// Whether `npm install` should run: `node_modules` is missing, its
/// modification time is unknown, or some manifest was modified after it.
pub open spec fn spec_needs_install(
    node_modules: bool,
    installed: Option<i128>,
    manifests: Seq<Option<i128>>,
) -> bool {
    !node_modules || installed is None || exists|k: int|
        0 <= k < manifests.len() && #[trigger] manifests[k] is Some && manifests[k]->0
            > installed->0
}

/// Whether `npm install` should run, from whether `node_modules` exists,
/// its modification time and those of the install manifests (`None` where
/// a time is unknown). A manifest whose time is unknown counts as unchanged.
pub fn needs_install(node_modules: bool, installed: Option<i128>, manifests: &Vec<Option<i128>>) -> (r:
    bool)
    ensures
        r == spec_needs_install(node_modules, installed, manifests@),
{
    if !node_modules {
        return true;
    }
    let t = match installed {
        Some(t) => t,
        None => {
            return true;
        },
    };
    let mut k: usize = 0;
    while k < manifests.len()
        invariant
            0 <= k <= manifests@.len(),
            installed == Some(t),
            forall|j: int|
                0 <= j < k ==> !(#[trigger] manifests@[j] is Some && manifests@[j]->0 > t),
        decreases manifests@.len() - k,
    {
        match manifests[k] {
            Some(m) => {
                if m > t {
                    return true;
                }
            },
            None => {},
        }
        k = k + 1;
    }
    false
}

/// Where a working-directory build stands.
#[derive(PartialEq, Eq, Structural, Clone, Copy)]
pub enum CwdStage {
    Begin,
    Config(usize),
    Watching,
    Static,
    NodeExists,
    NodeTime,
    ManifestTime(usize),
    Installed,
    Built,
    Finished,
}

/// A build of the SvelteKit project in the working directory: print the
/// rerun lines, install when the dependencies changed, build.
pub struct CwdRun {
    build_dir: String,
    stage: CwdStage,
    walk: Walk,
    node_modules: bool,
    installed: Option<i128>,
    times: Vec<Option<i128>>,
}

#[verifier::ext_equal]
pub struct CwdView {
    pub build_dir: Seq<char>,
    pub stage: CwdStage,
    /// The walk of `src/` under way.
    pub walk: WalkView,
    pub node_modules: bool,
    pub installed: Option<i128>,
    pub times: Seq<Option<i128>>,
}

impl View for CwdRun {
    type V = CwdView;

    closed spec fn view(&self) -> CwdView {
        CwdView {
            build_dir: self.build_dir@,
            stage: self.stage,
            walk: self.walk@,
            node_modules: self.node_modules,
            installed: self.installed,
            times: self.times@,
        }
    }
}

/// A working-directory build's state: its counter within its list and its
/// walk taking listings as given.
pub open spec fn cwd_ok(s: CwdView) -> bool {
    cwd_stage_ok(s.stage) && !s.walk.sorted
}

pub open spec fn cwd_stage_ok(stage: CwdStage) -> bool {
    match stage {
        CwdStage::Config(i) => i < 6,
        CwdStage::ManifestTime(i) => i < 2,
        _ => true,
    }
}

/// The `i`th config file, relative to the working directory.
pub open spec fn cwd_config(i: int) -> Seq<u8> {
    encode_utf8(config_files()[i])
}

/// The `i`th install manifest, under `.`.
pub open spec fn cwd_manifest(i: int) -> Seq<u8> {
    under(seq![46u8], install_manifests()[i])
}

/// Goes on watching with the walk `w`, the `lines` printed first.
pub open spec fn cwd_watch_from(s: CwdView, w: WalkView, lines: Seq<Seq<u8>>) -> (CwdView, RequestView) {
    let (w2, l2, next) = watch_drain(w, lines);
    match next {
        Some(d) => (CwdView { walk: w2, stage: CwdStage::Watching, ..s }, ask(l2, OpView::ListDir(d))),
        None => (
            CwdView { walk: w2, stage: CwdStage::Static, ..s },
            ask(l2, OpView::Exists(encode_utf8("static"@))),
        ),
    }
}

pub open spec fn cwd_at(s: CwdView, stage: CwdStage) -> CwdView {
    CwdView { stage, ..s }
}

/// One step of a working-directory build.
pub open spec fn cwd_next(s: CwdView, e: EventView) -> (CwdView, RequestView) {
    let none = Seq::<Seq<u8>>::empty();
    match s.stage {
        CwdStage::Begin => (
            cwd_at(s, CwdStage::Config(0)),
            ask(seq![build_dir_line(s.build_dir)], OpView::Exists(cwd_config(0))),
        ),
        CwdStage::Config(i) => {
            let lines = if flag_of(e) {
                seq![rerun_line(cwd_config(i as int))]
            } else {
                none
            };
            if i + 1 < 6 {
                (
                    cwd_at(s, CwdStage::Config((i + 1) as usize)),
                    ask(lines, OpView::Exists(cwd_config(i + 1))),
                )
            } else {
                cwd_watch_from(s, walk_begin(encode_utf8("src"@), Seq::empty(), false), lines)
            }
        },
        CwdStage::Watching => cwd_watch_from(s, walk_listed(s.walk, listing_in(e)), none),
        CwdStage::Static => {
            let lines = if flag_of(e) {
                seq![rerun_line(encode_utf8("static"@))]
            } else {
                none
            };
            (
                cwd_at(s, CwdStage::NodeExists),
                ask(lines, OpView::Exists(under(seq![46u8], "node_modules"@))),
            )
        },
        CwdStage::NodeExists => (
            CwdView { stage: CwdStage::NodeTime, node_modules: flag_of(e), ..s },
            ask(none, OpView::Modified(under(seq![46u8], "node_modules"@))),
        ),
        CwdStage::NodeTime => (
            CwdView { stage: CwdStage::ManifestTime(0), installed: time_of(e), ..s },
            ask(none, OpView::Modified(cwd_manifest(0))),
        ),
        CwdStage::ManifestTime(i) => {
            let times = s.times.push(time_of(e));
            if i + 1 < 2 {
                (
                    CwdView { stage: CwdStage::ManifestTime((i + 1) as usize), times, ..s },
                    ask(none, OpView::Modified(cwd_manifest(i + 1))),
                )
            } else if spec_needs_install(s.node_modules, s.installed, times) {
                (
                    CwdView { stage: CwdStage::Installed, times, ..s },
                    ask(none, OpView::Npm(None, install_args())),
                )
            } else {
                (
                    CwdView { stage: CwdStage::Built, times, ..s },
                    ask(none, OpView::Npm(None, build_args())),
                )
            }
        },
        CwdStage::Installed => (
            cwd_at(s, CwdStage::Built),
            ask(none, OpView::Npm(None, build_args())),
        ),
        CwdStage::Built => (cwd_at(s, CwdStage::Finished), ask(none, OpView::Finish)),
        CwdStage::Finished => (s, ask(none, OpView::Finish)),
    }
}

/// The working-directory build that has not started.
pub open spec fn cwd_start(build_dir: Seq<char>) -> CwdView {
    CwdView {
        build_dir,
        stage: CwdStage::Begin,
        walk: walk_begin(Seq::empty(), Seq::empty(), false),
        node_modules: false,
        installed: None,
        times: Seq::empty(),
    }
}

/// Starts a build of the SvelteKit project in the working directory, whose
/// static output goes to `build_dir`; the first step is answered with
/// `Event::Start`.
pub fn frontend(build_dir: String) -> (r: CwdRun)
    ensures
        r@ == cwd_start(build_dir@),
{
    CwdRun {
        build_dir,
        stage: CwdStage::Begin,
        walk: Walk::new(FsPath::from_bytes(Vec::new()), Vec::new(), false),
        node_modules: false,
        installed: None,
        times: Vec::new(),
    }
}

fn dot_path() -> (r: FsPath)
    ensures
        r@ == seq![46u8],
{
    let mut v: Vec<u8> = Vec::new();
    v.push(46u8);
    FsPath::from_bytes(v)
}

impl CwdRun {
    fn watch_on(&mut self, lines: Vec<Vec<u8>>) -> (r: Request)
        requires
            cwd_ok(old(self)@),
        ensures
            cwd_ok(final(self)@),
            (final(self)@, r@) == cwd_watch_from(old(self)@, old(self)@.walk, seqs_of(lines@)),
    {
        proof {
            lemma_drain_keeps_settings(self@.walk, seqs_of(lines@));
        }
        let mut lines = lines;
        match drain_watch(&mut self.walk, &mut lines) {
            Some(d) => {
                self.stage = CwdStage::Watching;
                request(lines, Op::ListDir(d))
            },
            None => {
                self.stage = CwdStage::Static;
                request(lines, Op::Exists(FsPath::from_text("static")))
            },
        }
    }

    /// Whether the build is over.
    pub fn finished(&self) -> (r: bool)
        ensures
            r == (self@.stage == CwdStage::Finished),
    {
        match self.stage {
            CwdStage::Finished => true,
            _ => false,
        }
    }

    /// Takes the answer to the last request and gives the next request.
    pub fn step(&mut self, ev: Event) -> (r: Request)
        requires
            cwd_ok(old(self)@),
        ensures
            cwd_ok(final(self)@),
            (final(self)@, r@) == cwd_next(old(self)@, ev@),
    {
        match self.stage {
            CwdStage::Begin => {
                let lines = one_line(build_dir_env(&self.build_dir));
                self.stage = CwdStage::Config(0);
                request(lines, Op::Exists(FsPath::from_text(config_file(0))))
            },
            CwdStage::Config(i) => {
                let lines = if ev.flag() {
                    one_line(rerun_if_changed(&FsPath::from_text(config_file(i))))
                } else {
                    no_lines()
                };
                if i + 1 < 6 {
                    self.stage = CwdStage::Config(i + 1);
                    request(lines, Op::Exists(FsPath::from_text(config_file(i + 1))))
                } else {
                    let ex: Vec<FsPath> = Vec::new();
                    assert(ex@.map_values(|x: FsPath| x@) =~= Seq::<Seq<u8>>::empty());
                    self.walk = Walk::new(FsPath::from_text("src"), ex, false);
                    self.watch_on(lines)
                }
            },
            CwdStage::Watching => {
                let ghost s0 = self@;
                self.walk.listed(ev.take_listing());
                assert(self@.walk == walk_listed(s0.walk, listing_in(ev@)));
                self.watch_on(no_lines())
            },
            CwdStage::Static => {
                let mut lines = no_lines();
                if ev.flag() {
                    add_line(&mut lines, rerun_if_changed(&FsPath::from_text("static")));
                }
                self.stage = CwdStage::NodeExists;
                request(lines, Op::Exists(dot_path().join_text("node_modules")))
            },
            CwdStage::NodeExists => {
                self.node_modules = ev.flag();
                self.stage = CwdStage::NodeTime;
                request(no_lines(), Op::Modified(dot_path().join_text("node_modules")))
            },
            CwdStage::NodeTime => {
                self.installed = ev.time();
                self.stage = CwdStage::ManifestTime(0);
                request(no_lines(), Op::Modified(dot_path().join_text(install_manifest(0))))
            },
            CwdStage::ManifestTime(i) => {
                self.times.push(ev.time());
                if i + 1 < 2 {
                    self.stage = CwdStage::ManifestTime(i + 1);
                    request(no_lines(), Op::Modified(dot_path().join_text(install_manifest(i + 1))))
                } else if needs_install(self.node_modules, self.installed, &self.times) {
                    self.stage = CwdStage::Installed;
                    request(no_lines(), Op::Npm(None, npm_install_args()))
                } else {
                    self.stage = CwdStage::Built;
                    request(no_lines(), Op::Npm(None, npm_build_args()))
                }
            },
            CwdStage::Installed => {
                self.stage = CwdStage::Built;
                request(no_lines(), Op::Npm(None, npm_build_args()))
            },
            CwdStage::Built => {
                self.stage = CwdStage::Finished;
                request(no_lines(), Op::Finish)
            },
            CwdStage::Finished => request(no_lines(), Op::Finish),
        }
    }
}

} // verus!
