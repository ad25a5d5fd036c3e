use vstd::prelude::*;
use vstd::utf8::encode_utf8;
use crate::bytes::{copy_bytes, copy_text, seqs_of};
use crate::digest::{blobs_digest, blobs_hash, inputs_digest, inputs_hash, lower_hex, spec_lower_hex};
use crate::frontend::{Frontend, FrontendView};
use crate::io::{
    bytes_of, files_of, flag_of, listing_in, path_in, text_or_empty, Event, EventView, Op, OpView,
    Request, RequestView,
};
use crate::lines::{
    build_dir_env, build_dir_line, env_changed_line, rerun_if_changed, rerun_if_env_changed,
    rerun_line, skip_warning, skip_warning_line, unchanged_line, unchanged_note,
};
use crate::path::{paths_of, spec_join, FsPath};
use crate::steps::{
    add_line, ask, build_args, config_at, config_path, generate_args, install_args, manifest_at,
    manifest_path, no_lines, npm_build_args, npm_generate_args, npm_install_args, one_line,
    request, under, drain_watch, watch_drain,
};
use crate::tree::{walk_begin, walk_listed, walk_order_ok, walk_pop, Walk, WalkView};

verus! {

/// Where a run of [`Frontend`] stands; each stage but the last awaits the
/// answer to the request that led to it.
#[derive(PartialEq, Eq, Structural, Clone, Copy)]
pub enum RunStage {
    Begin,
    SpecRead,
    SpecWritten,
    Config(usize),
    Watching,
    Static,
    Skip,
    OutDir,
    Hashing,
    HashFile,
    ConfigHash(usize),
    Previous,
    Bundle,
    Manifest(usize),
    InstallStamp,
    NodeModules,
    Installed,
    InstallStampWritten,
    Generated,
    Built,
    StampWritten,
    Finished,
}

/// A run of [`Frontend`]: write the OpenAPI spec, print the rerun lines,
/// then, unless skipped or unchanged, install, generate and build.
pub struct Run {
    fe: Frontend,
    stage: RunStage,
    out_dir: FsPath,
    walk: Walk,
    reading: FsPath,
    files: Vec<(Vec<u8>, Vec<u8>)>,
    current: String,
    previous: String,
    bundle_ok: bool,
    blobs: Vec<Vec<u8>>,
    want: String,
    have: String,
}

#[verifier::ext_equal]
pub struct RunView {
    pub fe: FrontendView,
    pub stage: RunStage,
    /// The directory cargo gave the build script.
    pub out_dir: Seq<u8>,
    /// The walk of the source tree under way.
    pub walk: WalkView,
    /// The file whose bytes are being read for the hash.
    pub reading: Seq<u8>,
    /// The files read for the change hash so far, path and contents: the
    /// frontend sources of `src/` in walk order, then the readable config files.
    pub files: Seq<(Seq<u8>, Seq<u8>)>,
    /// The digest of the change hash's inputs: [`gate_lead_of`] of the
    /// frontend, then `files`.
    pub current: Seq<char>,
    /// The digest recorded by the last build.
    pub previous: Seq<char>,
    /// Whether the built bundle's `index.html` exists.
    pub bundle_ok: bool,
    /// The install manifests read so far.
    pub blobs: Seq<Seq<u8>>,
    /// The digest of the install manifests.
    pub want: Seq<char>,
    /// The digest recorded by the last install.
    pub have: Seq<char>,
}

impl View for Run {
    type V = RunView;

    closed spec fn view(&self) -> RunView {
        RunView {
            fe: self.fe@,
            stage: self.stage,
            out_dir: self.out_dir@,
            walk: self.walk@,
            reading: self.reading@,
            files: files_of(self.files@),
            current: self.current@,
            previous: self.previous@,
            bundle_ok: self.bundle_ok,
            blobs: seqs_of(self.blobs@),
            want: self.want@,
            have: self.have@,
        }
    }
}

/// The stage's counter is within its list.
pub open spec fn stage_ok(stage: RunStage) -> bool {
    match stage {
        RunStage::Config(i) => i < 6,
        RunStage::ConfigHash(i) => i < 6,
        RunStage::Manifest(i) => i < 2,
        _ => true,
    }
}

pub open spec fn stamp_path(out_dir: Seq<u8>) -> Seq<u8> {
    under(out_dir, "svelte-rust.stamp"@)
}

pub open spec fn install_stamp_path(out_dir: Seq<u8>) -> Seq<u8> {
    under(out_dir, "svelte-rust-install.stamp"@)
}

/// The built bundle's entry page.
pub open spec fn index_path(fe: FrontendView) -> Seq<u8> {
    under(spec_join(fe.root, encode_utf8(fe.build_dir)), "index.html"@)
}

/// The paths left out of the change hash: the generated client's directory.
pub open spec fn hash_exclude(fe: FrontendView) -> Seq<Seq<u8>> {
    match fe.openapi {
        Some(a) => seq![spec_join(fe.root, a.out_dir)],
        None => Seq::empty(),
    }
}

/// The texts the change hash takes before the files: the OpenAPI spec,
/// where one is configured.
pub open spec fn gate_lead_of(fe: FrontendView) -> Seq<Seq<char>> {
    match fe.openapi {
        Some(a) => seq![a.spec],
        None => Seq::<Seq<char>>::empty(),
    }
}

/// The texts the change hash takes before the files (see [`gate_lead_of`]).
pub fn gate_lead(fe: &Frontend) -> (r: Vec<String>)
    ensures
        r@.map_values(|s: String| s@) == gate_lead_of(fe@),
{
    let mut lead: Vec<String> = Vec::new();
    match fe.openapi_parts() {
        Some((spec, _json, _out)) => {
            lead.push(copy_text(spec));
        },
        None => {},
    }
    assert(lead@.map_values(|s: String| s@) =~= gate_lead_of(fe@));
    lead
}

/// Whether the npm steps are due: the inputs changed or the bundle is missing.
pub open spec fn gate_open(s: RunView) -> bool {
    s.current != s.previous || !s.bundle_ok
}

/// Whether `npm install` is due: `node_modules` is missing or the manifests
/// changed since the last install.
pub open spec fn install_due(node_modules: bool, have: Seq<char>, want: Seq<char>) -> bool {
    !node_modules || have != want
}

pub open spec fn self_with_walk(s: RunView, w: WalkView) -> RunView {
    RunView { walk: w, ..s }
}

pub open spec fn at(s: RunView, stage: RunStage) -> RunView {
    RunView { stage, ..s }
}

/// From the config files on: check the first one.
pub open spec fn to_configs(s: RunView) -> (RunView, RequestView) {
    (at(s, RunStage::Config(0)), ask(Seq::empty(), OpView::Exists(config_path(s.fe.root, 0))))
}

/// From the generator or the build on.
pub open spec fn to_build(s: RunView) -> (RunView, RequestView) {
    if s.fe.openapi is Some {
        (
            at(s, RunStage::Generated),
            ask(Seq::empty(), OpView::Npm(Some(s.fe.root), generate_args())),
        )
    } else {
        (at(s, RunStage::Built), ask(Seq::empty(), OpView::Npm(Some(s.fe.root), build_args())))
    }
}

/// Goes on watching with the walk `w`, the `lines` printed first: the rerun
/// lines of the files handed out, then the next directory to list, or, once
/// the walk is done, the check of `static/`.
pub open spec fn watch_from(s: RunView, w: WalkView, lines: Seq<Seq<u8>>) -> (RunView, RequestView) {
    let (w2, l2, next) = watch_drain(w, lines);
    match next {
        Some(d) => (RunView { walk: w2, stage: RunStage::Watching, ..s }, ask(l2, OpView::ListDir(d))),
        None => (
            RunView { walk: w2, stage: RunStage::Static, ..s },
            ask(l2, OpView::Exists(under(s.fe.root, "static"@))),
        ),
    }
}

/// Goes on hashing with the walk `w`: list the next directory, read the next
/// file, or, once the walk is done, read the first config file.
pub open spec fn hash_from(s: RunView, w: WalkView) -> (RunView, RequestView) {
    let (w2, next) = walk_pop(w);
    match next {
        Some((p, true)) => (
            RunView { walk: w2, stage: RunStage::Hashing, ..s },
            ask(Seq::empty(), OpView::ListDir(p)),
        ),
        Some((p, false)) => (
            RunView { walk: w2, stage: RunStage::HashFile, reading: p, ..s },
            ask(Seq::empty(), OpView::ReadBytes(p)),
        ),
        None => (
            RunView { walk: w2, stage: RunStage::ConfigHash(0), ..s },
            ask(Seq::empty(), OpView::ReadBytes(config_path(s.fe.root, 0))),
        ),
    }
}

/// Whether the stage awaits a directory listing.
pub open spec fn awaits_listing(stage: RunStage) -> bool {
    stage == RunStage::Watching || stage == RunStage::Hashing
}

/// The files recorded once the answer `e` to reading `path` is in: the path
/// with its bytes added, where it could be read.
pub open spec fn with_read(
    files: Seq<(Seq<u8>, Seq<u8>)>,
    path: Seq<u8>,
    e: EventView,
) -> Seq<(Seq<u8>, Seq<u8>)> {
    match bytes_of(e) {
        Some(b) => files.push((path, b)),
        None => files,
    }
}

/// The manifests' contents read once the answer `e` is in.
pub open spec fn with_blob(blobs: Seq<Seq<u8>>, e: EventView) -> Seq<Seq<u8>> {
    match bytes_of(e) {
        Some(b) => blobs.push(b),
        None => blobs,
    }
}

/// The digest that the step from `s` on the answer `e` computes: in a
/// config-hash stage, that of [`gate_lead_of`] the frontend and the files
/// recorded with the answer; in a manifest stage, that of the manifests'
/// contents read with the answer; none elsewhere. (Only the last stage of
/// each list keeps it.)
pub open spec fn step_digest(s: RunView, e: EventView) -> Seq<char> {
    match s.stage {
        RunStage::ConfigHash(i) => spec_lower_hex(
            inputs_hash(gate_lead_of(s.fe), with_read(s.files, config_path(s.fe.root, i as int), e))
                as nat,
        ),
        RunStage::Manifest(_) => spec_lower_hex(blobs_hash(with_blob(s.blobs, e)) as nat),
        _ => Seq::empty(),
    }
}

/// One step of a run: from the stage `s` and the answer `e`, the next stage
/// and the next request. `digest` is the text of the digest computed in the
/// two stages that compute one; `order` is the order in which a listing is
/// taken.
pub open spec fn run_next(
    s: RunView,
    e: EventView,
    digest: Seq<char>,
    order: Seq<(Seq<u8>, bool)>,
) -> (RunView, RequestView) {
    let fe = s.fe;
    let root = fe.root;
    let none = Seq::<Seq<u8>>::empty();
    match s.stage {
        RunStage::Begin => {
            let lines = seq![build_dir_line(fe.build_dir)];
            match fe.openapi {
                Some(a) => (
                    at(s, RunStage::SpecRead),
                    ask(lines, OpView::ReadText(spec_join(root, a.json))),
                ),
                None => (
                    at(s, RunStage::Config(0)),
                    ask(lines, OpView::Exists(config_path(root, 0))),
                ),
            }
        },
        RunStage::SpecRead => match fe.openapi {
            Some(a) => if text_or_empty(e) != a.spec {
                (
                    at(s, RunStage::SpecWritten),
                    ask(none, OpView::WriteText(spec_join(root, a.json), a.spec)),
                )
            } else {
                to_configs(s)
            },
            None => to_configs(s),
        },
        RunStage::SpecWritten => to_configs(s),
        RunStage::Config(i) => {
            let lines = if flag_of(e) {
                seq![rerun_line(config_path(root, i as int))]
            } else {
                none
            };
            if i + 1 < 6 {
                (
                    at(s, RunStage::Config((i + 1) as usize)),
                    ask(lines, OpView::Exists(config_path(root, i + 1))),
                )
            } else {
                watch_from(s, walk_begin(under(root, "src"@), Seq::empty(), false), lines)
            }
        },
        RunStage::Watching => watch_from(s, walk_listed(s.walk, order), none),
        RunStage::Static => {
            let lines = if flag_of(e) {
                seq![rerun_line(under(root, "static"@)), env_changed_line(fe.skip_env)]
            } else {
                seq![env_changed_line(fe.skip_env)]
            };
            (at(s, RunStage::Skip), ask(lines, OpView::EnvSet(fe.skip_env)))
        },
        RunStage::Skip => if flag_of(e) {
            (
                at(s, RunStage::Finished),
                ask(seq![skip_warning_line(fe.skip_env)], OpView::Finish),
            )
        } else {
            (at(s, RunStage::OutDir), ask(none, OpView::OutDir))
        },
        RunStage::OutDir => hash_from(
            RunView { out_dir: path_in(e), ..s },
            walk_begin(under(root, "src"@), hash_exclude(fe), true),
        ),
        RunStage::Hashing => hash_from(s, walk_listed(s.walk, order)),
        RunStage::HashFile => {
            let files = with_read(s.files, s.reading, e);
            hash_from(RunView { files, ..s }, s.walk)
        },
        RunStage::ConfigHash(i) => {
            let files = with_read(s.files, config_path(root, i as int), e);
            if i + 1 < 6 {
                (
                    RunView { stage: RunStage::ConfigHash((i + 1) as usize), files, ..s },
                    ask(none, OpView::ReadBytes(config_path(root, i + 1))),
                )
            } else {
                (
                    RunView { stage: RunStage::Previous, files, current: digest, ..s },
                    ask(none, OpView::ReadText(stamp_path(s.out_dir))),
                )
            }
        },
        RunStage::Previous => (
            RunView { stage: RunStage::Bundle, previous: text_or_empty(e), ..s },
            ask(none, OpView::Exists(index_path(fe))),
        ),
        RunStage::Bundle => {
            let t = RunView { bundle_ok: flag_of(e), ..s };
            if gate_open(t) {
                (at(t, RunStage::Manifest(0)), ask(none, OpView::ReadBytes(manifest_path(root, 0))))
            } else {
                (at(t, RunStage::Finished), ask(seq![unchanged_line()], OpView::Finish))
            }
        },
        RunStage::Manifest(i) => {
            let blobs = with_blob(s.blobs, e);
            if i + 1 < 2 {
                (
                    RunView { stage: RunStage::Manifest((i + 1) as usize), blobs, ..s },
                    ask(none, OpView::ReadBytes(manifest_path(root, i + 1))),
                )
            } else {
                (
                    RunView { stage: RunStage::InstallStamp, blobs, want: digest, ..s },
                    ask(none, OpView::ReadText(install_stamp_path(s.out_dir))),
                )
            }
        },
        RunStage::InstallStamp => (
            RunView { stage: RunStage::NodeModules, have: text_or_empty(e), ..s },
            ask(none, OpView::Exists(under(root, "node_modules"@))),
        ),
        RunStage::NodeModules => if install_due(flag_of(e), s.have, s.want) {
            (at(s, RunStage::Installed), ask(none, OpView::Npm(Some(root), install_args())))
        } else {
            to_build(s)
        },
        RunStage::Installed => (
            at(s, RunStage::InstallStampWritten),
            ask(none, OpView::WriteStamp(install_stamp_path(s.out_dir), s.want)),
        ),
        RunStage::InstallStampWritten => to_build(s),
        RunStage::Generated => (
            at(s, RunStage::Built),
            ask(none, OpView::Npm(Some(root), build_args())),
        ),
        RunStage::Built => (
            at(s, RunStage::StampWritten),
            ask(none, OpView::WriteStamp(stamp_path(s.out_dir), s.current)),
        ),
        RunStage::StampWritten => (at(s, RunStage::Finished), ask(none, OpView::Finish)),
        RunStage::Finished => (s, ask(none, OpView::Finish)),
    }
}

/// A step of a run, with the digest of [`step_digest`] and some order the
/// walk may take the listing in.
pub open spec fn run_step(s: RunView, e: EventView, t: RunView, r: RequestView) -> bool {
    exists|order: Seq<(Seq<u8>, bool)>|
        (awaits_listing(s.stage) ==> walk_order_ok(s.walk, listing_in(e), order)) && (t, r)
            == #[trigger] run_next(s, e, step_digest(s, e), order)
}

/// The run that has not started.
pub open spec fn run_start(fe: FrontendView) -> RunView {
    RunView {
        fe,
        stage: RunStage::Begin,
        out_dir: Seq::empty(),
        walk: walk_begin(Seq::empty(), Seq::empty(), false),
        reading: Seq::empty(),
        files: Seq::empty(),
        current: Seq::empty(),
        previous: Seq::empty(),
        bundle_ok: false,
        blobs: Seq::empty(),
        want: Seq::empty(),
        have: Seq::empty(),
    }
}

impl Run {
    pub fn stage(&self) -> (r: RunStage)
        ensures
            r == self@.stage,
    {
        self.stage
    }

    /// Whether the run is over.
    pub fn finished(&self) -> (r: bool)
        ensures
            r == (self@.stage == RunStage::Finished),
    {
        match self.stage {
            RunStage::Finished => true,
            _ => false,
        }
    }

    fn goto(&mut self, stage: RunStage)
        requires
            stage_ok(stage),
        ensures
            final(self)@ == at(old(self)@, stage),
    {
        self.stage = stage;
    }

    fn configs(&mut self) -> (r: Request)
        ensures
            (final(self)@, r@) == to_configs(old(self)@),
    {
        let p = config_at(self.fe.root(), 0);
        self.goto(RunStage::Config(0));
        request(no_lines(), Op::Exists(p))
    }

    fn build(&mut self) -> (r: Request)
        ensures
            (final(self)@, r@) == to_build(old(self)@),
    {
        let root = self.fe.root().duplicate();
        if self.fe.has_openapi() {
            self.goto(RunStage::Generated);
            request(no_lines(), Op::Npm(Some(root), npm_generate_args()))
        } else {
            self.goto(RunStage::Built);
            request(no_lines(), Op::Npm(Some(root), npm_build_args()))
        }
    }

    fn begin(&mut self) -> (r: Request)
        requires
            old(self)@.stage == RunStage::Begin,
        ensures
            (final(self)@, r@) == run_next(old(self)@, EventView::Start, Seq::empty(), Seq::empty()),
    {
        let lines = one_line(build_dir_env(self.fe.build_dir()));
        match self.fe.openapi_parts() {
            Some((_spec, json, _out)) => {
                let p = self.fe.root().join(json);
                self.goto(RunStage::SpecRead);
                request(lines, Op::ReadText(p))
            },
            None => {
                let p = config_at(self.fe.root(), 0);
                self.goto(RunStage::Config(0));
                request(lines, Op::Exists(p))
            },
        }
    }

    fn spec_read(&mut self, ev: Event) -> (r: Request)
        requires
            old(self)@.stage == RunStage::SpecRead,
        ensures
            (final(self)@, r@) == run_next(old(self)@, ev@, Seq::empty(), Seq::empty()),
    {
        let existing = ev.take_text();
        match self.fe.openapi_parts() {
            Some((spec, json, _out)) => {
                if !(existing == *spec) {
                    let p = self.fe.root().join(json);
                    let text = copy_text(spec);
                    self.goto(RunStage::SpecWritten);
                    request(no_lines(), Op::WriteText(p, text))
                } else {
                    self.configs()
                }
            },
            None => self.configs(),
        }
    }

    fn config(&mut self, i: usize, ev: Event) -> (r: Request)
        requires
            old(self)@.stage == RunStage::Config(i),
            i < 6,
        ensures
            (final(self)@, r@) == run_next(old(self)@, ev@, Seq::empty(), Seq::empty()),
    {
        let lines = if ev.flag() {
            one_line(rerun_if_changed(&config_at(self.fe.root(), i)))
        } else {
            no_lines()
        };
        if i + 1 < 6 {
            let p = config_at(self.fe.root(), i + 1);
            self.goto(RunStage::Config(i + 1));
            request(lines, Op::Exists(p))
        } else {
            let ghost s0 = self@;
            let ex: Vec<FsPath> = Vec::new();
            assert(ex@.map_values(|x: FsPath| x@) =~= Seq::<Seq<u8>>::empty());
            self.walk = Walk::new(self.fe.root().join_text("src"), ex, false);
            let ghost w = self@.walk;
            let r = self.watch_on(lines);
            assert(watch_from(self_with_walk(s0, w), w, seqs_of(lines@)) == watch_from(s0, w, seqs_of(lines@)));
            r
        }
    }

    fn watch_on(&mut self, lines: Vec<Vec<u8>>) -> (r: Request)
        ensures
            (final(self)@, r@) == watch_from(old(self)@, old(self)@.walk, seqs_of(lines@)),
    {
        let mut lines = lines;
        match drain_watch(&mut self.walk, &mut lines) {
            Some(d) => {
                self.goto(RunStage::Watching);
                request(lines, Op::ListDir(d))
            },
            None => {
                let p = self.fe.root().join_text("static");
                self.goto(RunStage::Static);
                request(lines, Op::Exists(p))
            },
        }
    }

    fn hash_on(&mut self) -> (r: Request)
        ensures
            (final(self)@, r@) == hash_from(old(self)@, old(self)@.walk),
    {
        match self.walk.pop() {
            Some(v) => {
                if v.descend {
                    self.goto(RunStage::Hashing);
                    request(no_lines(), Op::ListDir(v.path))
                } else {
                    self.reading = v.path.duplicate();
                    self.goto(RunStage::HashFile);
                    request(no_lines(), Op::ReadBytes(v.path))
                }
            },
            None => {
                let p = config_at(self.fe.root(), 0);
                self.goto(RunStage::ConfigHash(0));
                request(no_lines(), Op::ReadBytes(p))
            },
        }
    }

    fn watching(&mut self, ev: Event) -> (r: Request)
        requires
            old(self)@.stage == RunStage::Watching,
        ensures
            exists|order: Seq<(Seq<u8>, bool)>|
                walk_order_ok(old(self)@.walk, listing_in(ev@), order) && (final(self)@, r@)
                    == run_next(old(self)@, ev@, Seq::empty(), order),
    {
        let ghost s0 = self@;
        self.walk.listed(ev.take_listing());
        let ghost w = self@.walk;
        let ghost order = choose|o: Seq<(Seq<u8>, bool)>|
            walk_order_ok(s0.walk, listing_in(ev@), o) && w == walk_listed(s0.walk, o);
        let r = self.watch_on(no_lines());
        assert(watch_from(self_with_walk(s0, w), w, Seq::empty()) == watch_from(s0, w, Seq::empty()));
        assert((self@, r@) == run_next(s0, ev@, Seq::empty(), order));
        r
    }

    fn hashing(&mut self, ev: Event) -> (r: Request)
        requires
            old(self)@.stage == RunStage::Hashing,
        ensures
            exists|order: Seq<(Seq<u8>, bool)>|
                walk_order_ok(old(self)@.walk, listing_in(ev@), order) && (final(self)@, r@)
                    == run_next(old(self)@, ev@, Seq::empty(), order),
    {
        let ghost s0 = self@;
        self.walk.listed(ev.take_listing());
        let ghost w = self@.walk;
        let ghost order = choose|o: Seq<(Seq<u8>, bool)>|
            walk_order_ok(s0.walk, listing_in(ev@), o) && w == walk_listed(s0.walk, o);
        let r = self.hash_on();
        assert(hash_from(self_with_walk(s0, w), w) == hash_from(s0, w));
        assert((self@, r@) == run_next(s0, ev@, Seq::empty(), order));
        r
    }

    fn hash_file(&mut self, ev: Event) -> (r: Request)
        requires
            old(self)@.stage == RunStage::HashFile,
        ensures
            (final(self)@, r@) == run_next(old(self)@, ev@, Seq::empty(), Seq::empty()),
    {
        match ev.take_bytes() {
            Some(b) => {
                let ghost before = files_of(self.files@);
                let ghost item = (self.reading@, b@);
                self.files.push((copy_bytes(self.reading.as_bytes()), b));
                assert(files_of(self.files@) =~= before.push(item));
            },
            None => {},
        }
        self.hash_on()
    }

    fn static_dir(&mut self, ev: Event) -> (r: Request)
        requires
            old(self)@.stage == RunStage::Static,
        ensures
            (final(self)@, r@) == run_next(old(self)@, ev@, Seq::empty(), Seq::empty()),
    {
        let mut lines = no_lines();
        if ev.flag() {
            add_line(&mut lines, rerun_if_changed(&self.fe.root().join_text("static")));
        }
        add_line(&mut lines, rerun_if_env_changed(self.fe.skip_var()));
        assert(seqs_of(lines@) =~= (if flag_of(ev@) {
            seq![rerun_line(under(self@.fe.root, "static"@)), env_changed_line(self@.fe.skip_env)]
        } else {
            seq![env_changed_line(self@.fe.skip_env)]
        }));
        let var = copy_text(self.fe.skip_var());
        self.goto(RunStage::Skip);
        request(lines, Op::EnvSet(var))
    }

    fn skip(&mut self, ev: Event) -> (r: Request)
        requires
            old(self)@.stage == RunStage::Skip,
        ensures
            (final(self)@, r@) == run_next(old(self)@, ev@, Seq::empty(), Seq::empty()),
    {
        if ev.flag() {
            let lines = one_line(skip_warning(self.fe.skip_var()));
            self.goto(RunStage::Finished);
            request(lines, Op::Finish)
        } else {
            self.goto(RunStage::OutDir);
            request(no_lines(), Op::OutDir)
        }
    }

    fn out_dir(&mut self, ev: Event) -> (r: Request)
        requires
            old(self)@.stage == RunStage::OutDir,
        ensures
            (final(self)@, r@) == run_next(old(self)@, ev@, Seq::empty(), Seq::empty()),
    {
        self.out_dir = ev.take_path();
        let src = self.fe.root().join_text("src");
        let mut exclude: Vec<FsPath> = Vec::new();
        match self.fe.openapi_parts() {
            Some((_spec, _json, out)) => {
                exclude.push(self.fe.root().join(out));
            },
            None => {},
        }
        assert(paths_of(exclude@) =~= hash_exclude(self@.fe));
        let ghost s0 = self@;
        self.walk = Walk::new(src, exclude, true);
        let ghost w = self@.walk;
        let r = self.hash_on();
        assert(hash_from(self_with_walk(s0, w), w) == hash_from(s0, w));
        r
    }

    fn config_hash(&mut self, i: usize, ev: Event) -> (r: Request)
        requires
            old(self)@.stage == RunStage::ConfigHash(i),
            i < 6,
        ensures
            (final(self)@, r@) == run_next(old(self)@, ev@, step_digest(old(self)@, ev@), Seq::empty()),
    {
        let ghost e = ev@;
        match ev.take_bytes() {
            Some(b) => {
                let p = config_at(self.fe.root(), i);
                let ghost before = files_of(self.files@);
                let ghost item = (p@, b@);
                self.files.push((copy_bytes(p.as_bytes()), b));
                assert(files_of(self.files@) =~= before.push(item));
            },
            None => {},
        }
        if i + 1 < 6 {
            let p = config_at(self.fe.root(), i + 1);
            self.goto(RunStage::ConfigHash(i + 1));
            let r = request(no_lines(), Op::ReadBytes(p));
            assert((self@, r@) == run_next(old(self)@, e, step_digest(old(self)@, e), Seq::empty()));
            r
        } else {
            let n = inputs_digest(&gate_lead(&self.fe), &self.files);
            assert(files_of(self.files@) == with_read(old(self)@.files, config_path(self@.fe.root, i as int), e));
            self.current = lower_hex(n);
            let p = self.out_dir.join_text("svelte-rust.stamp");
            self.goto(RunStage::Previous);
            let r = request(no_lines(), Op::ReadText(p));
            assert((self@, r@) == run_next(old(self)@, e, step_digest(old(self)@, e), Seq::empty()));
            r
        }
    }

    fn previous(&mut self, ev: Event) -> (r: Request)
        requires
            old(self)@.stage == RunStage::Previous,
        ensures
            (final(self)@, r@) == run_next(old(self)@, ev@, Seq::empty(), Seq::empty()),
    {
        self.previous = ev.take_text();
        let p = self.fe.root().join_text(self.fe.build_dir().as_str()).join_text("index.html");
        self.goto(RunStage::Bundle);
        request(no_lines(), Op::Exists(p))
    }

    fn bundle(&mut self, ev: Event) -> (r: Request)
        requires
            old(self)@.stage == RunStage::Bundle,
        ensures
            (final(self)@, r@) == run_next(old(self)@, ev@, Seq::empty(), Seq::empty()),
    {
        self.bundle_ok = ev.flag();
        if !(self.current == self.previous) || !self.bundle_ok {
            let p = manifest_at(self.fe.root(), 0);
            self.goto(RunStage::Manifest(0));
            request(no_lines(), Op::ReadBytes(p))
        } else {
            self.goto(RunStage::Finished);
            request(one_line(unchanged_note()), Op::Finish)
        }
    }

    fn manifest(&mut self, i: usize, ev: Event) -> (r: Request)
        requires
            old(self)@.stage == RunStage::Manifest(i),
            i < 2,
        ensures
            (final(self)@, r@) == run_next(old(self)@, ev@, step_digest(old(self)@, ev@), Seq::empty()),
    {
        let ghost e = ev@;
        match ev.take_bytes() {
            Some(b) => {
                let ghost before = seqs_of(self.blobs@);
                let ghost item = b@;
                self.blobs.push(b);
                assert(seqs_of(self.blobs@) =~= before.push(item));
            },
            None => {},
        }
        if i + 1 < 2 {
            let p = manifest_at(self.fe.root(), i + 1);
            self.goto(RunStage::Manifest(i + 1));
            let r = request(no_lines(), Op::ReadBytes(p));
            assert((self@, r@) == run_next(old(self)@, e, step_digest(old(self)@, e), Seq::empty()));
            r
        } else {
            let n = blobs_digest(&self.blobs);
            self.want = lower_hex(n);
            let p = self.out_dir.join_text("svelte-rust-install.stamp");
            self.goto(RunStage::InstallStamp);
            let r = request(no_lines(), Op::ReadText(p));
            assert((self@, r@) == run_next(old(self)@, e, step_digest(old(self)@, e), Seq::empty()));
            r
        }
    }

    fn install_stamp(&mut self, ev: Event) -> (r: Request)
        requires
            old(self)@.stage == RunStage::InstallStamp,
        ensures
            (final(self)@, r@) == run_next(old(self)@, ev@, Seq::empty(), Seq::empty()),
    {
        self.have = ev.take_text();
        let p = self.fe.root().join_text("node_modules");
        self.goto(RunStage::NodeModules);
        request(no_lines(), Op::Exists(p))
    }

    fn node_modules(&mut self, ev: Event) -> (r: Request)
        requires
            old(self)@.stage == RunStage::NodeModules,
        ensures
            (final(self)@, r@) == run_next(old(self)@, ev@, Seq::empty(), Seq::empty()),
    {
        if !ev.flag() || !(self.have == self.want) {
            let root = self.fe.root().duplicate();
            self.goto(RunStage::Installed);
            request(no_lines(), Op::Npm(Some(root), npm_install_args()))
        } else {
            self.build()
        }
    }

    fn installed(&mut self) -> (r: Request)
        requires
            old(self)@.stage == RunStage::Installed,
        ensures
            forall|e: EventView, d: Seq<char>, o: Seq<(Seq<u8>, bool)>|
                (final(self)@, r@) == #[trigger] run_next(old(self)@, e, d, o),
    {
        let p = self.out_dir.join_text("svelte-rust-install.stamp");
        let text = copy_text(&self.want);
        self.goto(RunStage::InstallStampWritten);
        request(no_lines(), Op::WriteStamp(p, text))
    }

    fn generated(&mut self) -> (r: Request)
        requires
            old(self)@.stage == RunStage::Generated,
        ensures
            forall|e: EventView, d: Seq<char>, o: Seq<(Seq<u8>, bool)>|
                (final(self)@, r@) == #[trigger] run_next(old(self)@, e, d, o),
    {
        let root = self.fe.root().duplicate();
        self.goto(RunStage::Built);
        request(no_lines(), Op::Npm(Some(root), npm_build_args()))
    }

    fn built(&mut self) -> (r: Request)
        requires
            old(self)@.stage == RunStage::Built,
        ensures
            forall|e: EventView, d: Seq<char>, o: Seq<(Seq<u8>, bool)>|
                (final(self)@, r@) == #[trigger] run_next(old(self)@, e, d, o),
    {
        let p = self.out_dir.join_text("svelte-rust.stamp");
        let text = copy_text(&self.current);
        self.goto(RunStage::StampWritten);
        request(no_lines(), Op::WriteStamp(p, text))
    }

    /// Takes the answer to the last request and gives the next request.
    ///
    /// In the two stages that compute a digest, it is the one of
    /// [`step_digest`]: of [`gate_lead`] of the frontend with the recorded
    /// `files` (change hash), and of the recorded `blobs` (install hash).
    pub fn step(&mut self, ev: Event) -> (r: Request)
        requires
            stage_ok(old(self)@.stage),
        ensures
            stage_ok(final(self)@.stage),
            run_step(old(self)@, ev@, final(self)@, r@),
    {
        let ghost e = ev@;
        let ghost z = step_digest(old(self)@, e);
        match self.stage {
            RunStage::Begin => {
                let r = self.begin();
                assert((self@, r@) == run_next(old(self)@, e, z, Seq::empty()));
                r
            },
            RunStage::SpecRead => {
                let r = self.spec_read(ev);
                assert((self@, r@) == run_next(old(self)@, e, z, Seq::empty()));
                r
            },
            RunStage::SpecWritten => {
                let r = self.configs();
                assert((self@, r@) == run_next(old(self)@, e, z, Seq::empty()));
                r
            },
            RunStage::Config(i) => {
                let r = self.config(i, ev);
                assert((self@, r@) == run_next(old(self)@, e, z, Seq::empty()));
                r
            },
            RunStage::Watching => {
                let r = self.watching(ev);
                proof {
                    let o = choose|o: Seq<(Seq<u8>, bool)>|
                        walk_order_ok(old(self)@.walk, listing_in(e), o) && (self@, r@) == run_next(
                            old(self)@,
                            e,
                            Seq::empty(),
                            o,
                        );
                    assert((self@, r@) == run_next(old(self)@, e, z, o));
                }
                r
            },
            RunStage::Static => {
                let r = self.static_dir(ev);
                assert((self@, r@) == run_next(old(self)@, e, z, Seq::empty()));
                r
            },
            RunStage::Skip => {
                let r = self.skip(ev);
                assert((self@, r@) == run_next(old(self)@, e, z, Seq::empty()));
                r
            },
            RunStage::OutDir => {
                let r = self.out_dir(ev);
                assert((self@, r@) == run_next(old(self)@, e, z, Seq::empty()));
                r
            },
            RunStage::Hashing => {
                let r = self.hashing(ev);
                proof {
                    let o = choose|o: Seq<(Seq<u8>, bool)>|
                        walk_order_ok(old(self)@.walk, listing_in(e), o) && (self@, r@) == run_next(
                            old(self)@,
                            e,
                            Seq::empty(),
                            o,
                        );
                    assert((self@, r@) == run_next(old(self)@, e, z, o));
                }
                r
            },
            RunStage::HashFile => {
                let r = self.hash_file(ev);
                assert((self@, r@) == run_next(old(self)@, e, z, Seq::empty()));
                r
            },
            RunStage::ConfigHash(i) => self.config_hash(i, ev),
            RunStage::Previous => {
                let r = self.previous(ev);
                assert((self@, r@) == run_next(old(self)@, e, z, Seq::empty()));
                r
            },
            RunStage::Bundle => {
                let r = self.bundle(ev);
                assert((self@, r@) == run_next(old(self)@, e, z, Seq::empty()));
                r
            },
            RunStage::Manifest(i) => self.manifest(i, ev),
            RunStage::InstallStamp => {
                let r = self.install_stamp(ev);
                assert((self@, r@) == run_next(old(self)@, e, z, Seq::empty()));
                r
            },
            RunStage::NodeModules => {
                let r = self.node_modules(ev);
                assert((self@, r@) == run_next(old(self)@, e, z, Seq::empty()));
                r
            },
            RunStage::Installed => {
                let r = self.installed();
                assert((self@, r@) == run_next(old(self)@, e, z, Seq::empty()));
                r
            },
            RunStage::InstallStampWritten => {
                let r = self.build();
                assert((self@, r@) == run_next(old(self)@, e, z, Seq::empty()));
                r
            },
            RunStage::Generated => {
                let r = self.generated();
                assert((self@, r@) == run_next(old(self)@, e, z, Seq::empty()));
                r
            },
            RunStage::Built => {
                let r = self.built();
                assert((self@, r@) == run_next(old(self)@, e, z, Seq::empty()));
                r
            },
            RunStage::StampWritten => {
                self.goto(RunStage::Finished);
                let r = request(no_lines(), Op::Finish);
                assert((self@, r@) == run_next(old(self)@, e, z, Seq::empty()));
                r
            },
            RunStage::Finished => {
                let r = request(no_lines(), Op::Finish);
                assert((self@, r@) == run_next(old(self)@, e, z, Seq::empty()));
                r
            },
        }
    }
}

} // verus!

verus! {

impl Frontend {
    /// Starts a run of this build: the first step, answered with
    /// `Event::Start`, prints the build directory's line.
    pub fn run(self) -> (r: Run)
        ensures
            r@ == run_start(self@),
    {
        Run {
            fe: self,
            stage: RunStage::Begin,
            out_dir: FsPath::from_bytes(Vec::new()),
            walk: Walk::new(FsPath::from_bytes(Vec::new()), Vec::new(), false),
            reading: FsPath::from_bytes(Vec::new()),
            files: Vec::new(),
            current: String::new(),
            previous: String::new(),
            bundle_ok: false,
            blobs: Vec::new(),
            want: String::new(),
            have: String::new(),
        }
    }
}

} // verus!
