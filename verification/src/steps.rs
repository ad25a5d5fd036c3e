use vstd::prelude::*;
use vstd::utf8::encode_utf8;
use vstd::string::StringSliceAdditionalSpecFns;
use crate::bytes::{seqs_of, texts_of};
use crate::io::{Op, OpView, Request, RequestView};
use crate::layout::{config_file, config_files, install_manifest, install_manifests};
use crate::lines::{rerun_if_changed, rerun_line};
use crate::path::{spec_join, FsPath};
use crate::tree::{walk_pop, Walk, WalkView};

verus! {

/// The request for `op` with `lines` printed first.
pub open spec fn ask(lines: Seq<Seq<u8>>, op: OpView) -> RequestView {
    RequestView { lines, op }
}

/// The path of `name` under `dir`.
pub open spec fn under(dir: Seq<u8>, name: Seq<char>) -> Seq<u8> {
    spec_join(dir, encode_utf8(name))
}

/// The `i`th config file under `root`.
pub open spec fn config_path(root: Seq<u8>, i: int) -> Seq<u8> {
    under(root, config_files()[i])
}

/// The `i`th install manifest under `root`.
pub open spec fn manifest_path(root: Seq<u8>, i: int) -> Seq<u8> {
    under(root, install_manifests()[i])
}

pub open spec fn install_args() -> Seq<Seq<char>> {
    seq!["install"@]
}

pub open spec fn build_args() -> Seq<Seq<char>> {
    seq!["run"@, "build"@]
}

pub open spec fn generate_args() -> Seq<Seq<char>> {
    seq!["exec"@, "--"@, "openapi-ts"@]
}

pub fn request(lines: Vec<Vec<u8>>, op: Op) -> (r: Request)
    ensures
        r@ == ask(seqs_of(lines@), op@),
{
    Request { lines, op }
}

pub fn no_lines() -> (r: Vec<Vec<u8>>)
    ensures
        seqs_of(r@) == Seq::<Seq<u8>>::empty(),
{
    let r: Vec<Vec<u8>> = Vec::new();
    assert(seqs_of(r@) =~= Seq::<Seq<u8>>::empty());
    r
}

pub fn one_line(l: Vec<u8>) -> (r: Vec<Vec<u8>>)
    ensures
        seqs_of(r@) == seq![l@],
{
    let mut r: Vec<Vec<u8>> = Vec::new();
    let ghost lv = l@;
    r.push(l);
    assert(seqs_of(r@) =~= seq![lv]);
    r
}

/// `lines` with `l` added at the end.
pub fn add_line(lines: &mut Vec<Vec<u8>>, l: Vec<u8>)
    ensures
        seqs_of(final(lines)@) == seqs_of(old(lines)@).push(l@),
{
    let ghost lv = l@;
    lines.push(l);
    assert(seqs_of(lines@) =~= seqs_of(old(lines)@).push(lv));
}

pub fn config_at(root: &FsPath, i: usize) -> (p: FsPath)
    requires
        i < 6,
    ensures
        p@ == config_path(root@, i as int),
{
    root.join_text(config_file(i))
}

pub fn manifest_at(root: &FsPath, i: usize) -> (p: FsPath)
    requires
        i < 2,
    ensures
        p@ == manifest_path(root@, i as int),
{
    root.join_text(install_manifest(i))
}

fn texts1(a: &str) -> (r: Vec<String>)
    ensures
        texts_of(r@) == seq![a@],
{
    let mut r: Vec<String> = Vec::new();
    r.push(a.to_owned());
    assert(texts_of(r@) =~= seq![a@]);
    r
}

pub fn npm_install_args() -> (r: Vec<String>)
    ensures
        texts_of(r@) == install_args(),
{
    texts1("install")
}

pub fn npm_build_args() -> (r: Vec<String>)
    ensures
        texts_of(r@) == build_args(),
{
    let mut r: Vec<String> = Vec::new();
    r.push("run".to_owned());
    r.push("build".to_owned());
    assert(texts_of(r@) =~= build_args());
    r
}

pub fn npm_generate_args() -> (r: Vec<String>)
    ensures
        texts_of(r@) == generate_args(),
{
    let mut r: Vec<String> = Vec::new();
    r.push("exec".to_owned());
    r.push("--".to_owned());
    r.push("openapi-ts".to_owned());
    assert(texts_of(r@) =~= generate_args());
    r
}

/// Hands out the walk's visits until a directory to list comes up or the
/// walk is done, adding the rerun line of each file handed out before it.
pub open spec fn watch_drain(w: WalkView, lines: Seq<Seq<u8>>) -> (
    WalkView,
    Seq<Seq<u8>>,
    Option<Seq<u8>>,
)
    decreases w.pending.len(),
{
    if w.pending.len() == 0 {
        (w, lines, None)
    } else {
        let w2 = walk_pop(w).0;
        let top = w.pending.last();
        if top.1 {
            (w2, lines, Some(top.0))
        } else {
            watch_drain(w2, lines.push(rerun_line(top.0)))
        }
    }
}

/// Draining a watch changes neither the walk's order nor its exclusions.
pub proof fn lemma_drain_keeps_settings(w: WalkView, lines: Seq<Seq<u8>>)
    ensures
        watch_drain(w, lines).0.sorted == w.sorted,
        watch_drain(w, lines).0.exclude == w.exclude,
    decreases w.pending.len(),
{
    if w.pending.len() > 0 && !w.pending.last().1 {
        lemma_drain_keeps_settings(walk_pop(w).0, lines.push(rerun_line(w.pending.last().0)));
    }
}

/// See [`watch_drain`]: the directory to list next, if any.
pub fn drain_watch(walk: &mut Walk, lines: &mut Vec<Vec<u8>>) -> (r: Option<FsPath>)
    ensures
        (final(walk)@, seqs_of(final(lines)@), match r {
            Some(p) => Some(p@),
            None => None,
        }) == watch_drain(old(walk)@, seqs_of(old(lines)@)),
{
    loop
        invariant
            watch_drain(walk@, seqs_of(lines@)) == watch_drain(
                old(walk)@,
                seqs_of(old(lines)@),
            ),
        decreases walk@.pending.len(),
    {
        let ghost w = walk@;
        let ghost l = seqs_of(lines@);
        match walk.pop() {
            None => {
                return None;
            },
            Some(v) => {
                if v.descend {
                    return Some(v.path);
                }
                add_line(lines, rerun_if_changed(&v.path));
                assert(watch_drain(w, l) == watch_drain(walk@, seqs_of(lines@)));
            },
        }
    }
}

} // verus!
