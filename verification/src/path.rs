use vstd::prelude::*;
use crate::bytes::{bytes_eq, copy_bytes, push_all, seqs_of};
use vstd::string::StringSliceAdditionalSpecFns;

verus! {

/// The separator byte `/`.
pub open spec fn sep() -> u8 {
    47u8
}

/// The byte `.`.
pub open spec fn dot() -> u8 {
    46u8
}

/// The component that stands for the root directory.
pub open spec fn root_component() -> Seq<u8> {
    seq![sep()]
}

/// The component that stands for the current directory.
pub open spec fn cur_dir_component() -> Seq<u8> {
    seq![dot()]
}

/// The component that stands for the parent directory.
pub open spec fn parent_component() -> Seq<u8> {
    seq![dot(), dot()]
}

/// The path that results from pushing `tail` onto `base`: an absolute `tail`
/// replaces `base`; otherwise a separator goes between them unless `base` is
/// empty or already ends with one.
pub open spec fn spec_join(base: Seq<u8>, tail: Seq<u8>) -> Seq<u8> {
    if tail.len() > 0 && tail[0] == sep() {
        tail
    } else if base.len() > 0 && base.last() != sep() {
        base + seq![sep()] + tail
    } else {
        base + tail
    }
}

/// Splits `s` at every separator: the finished pieces and the piece after the
/// last separator.
pub open spec fn scan(s: Seq<u8>) -> (Seq<Seq<u8>>, Seq<u8>)
    decreases s.len(),
{
    if s.len() == 0 {
        (Seq::empty(), Seq::empty())
    } else {
        let (done, cur) = scan(s.drop_last());
        if s.last() == sep() {
            (done.push(cur), Seq::empty())
        } else {
            (done, cur.push(s.last()))
        }
    }
}

/// The pieces of `s` between separators, empty ones included.
pub open spec fn segments(s: Seq<u8>) -> Seq<Seq<u8>> {
    scan(s).0.push(scan(s).1)
}

/// A piece that names something: neither empty nor `.`.
pub open spec fn is_normal(c: Seq<u8>) -> bool {
    c.len() > 0 && c != cur_dir_component()
}

pub open spec fn normal_filter() -> spec_fn(Seq<u8>) -> bool {
    |c: Seq<u8>| is_normal(c)
}

/// Whether the path starts at the root directory.
pub open spec fn has_root(s: Seq<u8>) -> bool {
    s.len() > 0 && s[0] == sep()
}

/// Whether a relative path starts with the current directory (`.` alone or `./`).
pub open spec fn leading_cur_dir(s: Seq<u8>) -> bool {
    !has_root(s) && s.len() > 0 && s[0] == dot() && (s.len() == 1 || s[1] == sep())
}

pub open spec fn component_prefix(s: Seq<u8>) -> Seq<Seq<u8>> {
    if has_root(s) {
        seq![root_component()]
    } else if leading_cur_dir(s) {
        seq![cur_dir_component()]
    } else {
        Seq::empty()
    }
}

/// The components of a path, each as its bytes: the root directory or a leading
/// current directory, then every non-empty piece between separators other than
/// `.`; repeated separators and inner `.` pieces leave no trace.
pub open spec fn spec_components(s: Seq<u8>) -> Seq<Seq<u8>> {
    component_prefix(s) + segments(s).filter(normal_filter())
}

/// `base` is a whole-component prefix of `p`.
pub open spec fn spec_starts_with(p: Seq<u8>, base: Seq<u8>) -> bool {
    let pc = spec_components(p);
    let bc = spec_components(base);
    bc.len() <= pc.len() && pc.subrange(0, bc.len() as int) == bc
}

/// The final component of a path, when it names a file or directory.
pub open spec fn spec_file_name(p: Seq<u8>) -> Option<Seq<u8>> {
    let c = spec_components(p);
    if c.len() > 0 && c.last() != root_component() && c.last() != cur_dir_component()
        && c.last() != parent_component() {
        Some(c.last())
    } else {
        None
    }
}

/// Index of the last `.` in a name, or -1.
pub open spec fn last_dot(f: Seq<u8>) -> int
    decreases f.len(),
{
    if f.len() == 0 {
        -1
    } else if f.last() == dot() {
        f.len() - 1
    } else {
        last_dot(f.drop_last())
    }
}

/// The extension of a file name: what follows its last `.`, where that dot is
/// not the name's first byte.
pub open spec fn name_extension(f: Seq<u8>) -> Option<Seq<u8>> {
    if f == parent_component() || last_dot(f) <= 0 {
        None
    } else {
        Some(f.subrange(last_dot(f) + 1, f.len() as int))
    }
}

/// The extension of a path's file name.
pub open spec fn spec_extension(p: Seq<u8>) -> Option<Seq<u8>> {
    match spec_file_name(p) {
        Some(f) => name_extension(f),
        None => None,
    }
}

/// Filtering the normal pieces of `a` with `x` added.
pub proof fn lemma_filter_push(a: Seq<Seq<u8>>, x: Seq<u8>)
    ensures
        a.push(x).filter(normal_filter()) == (if is_normal(x) {
            a.filter(normal_filter()).push(x)
        } else {
            a.filter(normal_filter())
        }),
{
    reveal(Seq::filter);
    assert(a.push(x).drop_last() =~= a);
}

/// A filesystem path on a Unix host, held as the bytes of its text: `/` is
/// the only separator and there are no drive or UNC prefixes.
pub struct FsPath {
    bytes: Vec<u8>,
}

impl View for FsPath {
    type V = Seq<u8>;

    closed spec fn view(&self) -> Seq<u8> {
        self.bytes@
    }
}

/// The views of a sequence of paths.
pub open spec fn paths_of(v: Seq<FsPath>) -> Seq<Seq<u8>> {
    v.map_values(|p: FsPath| p@)
}

impl FsPath {
    /// The path whose text is `bytes`.
    pub fn from_bytes(bytes: Vec<u8>) -> (p: FsPath)
        ensures
            p@ == bytes@,
    {
        FsPath { bytes }
    }

    /// The path whose text is `s`.
    pub fn from_text(s: &str) -> (p: FsPath)
        ensures
            p@ == s.spec_bytes(),
    {
        FsPath { bytes: copy_bytes(s.as_bytes()) }
    }

    /// The bytes of the path's text.
    pub fn as_bytes(&self) -> (r: &[u8])
        ensures
            r@ == self@,
    {
        self.bytes.as_slice()
    }

    /// A second path with the same text.
    pub fn duplicate(&self) -> (p: FsPath)
        ensures
            p@ == self@,
    {
        FsPath { bytes: copy_bytes(self.bytes.as_slice()) }
    }

    /// `self` with `tail` pushed onto it (see [`spec_join`]).
    pub fn join_bytes(&self, tail: &[u8]) -> (p: FsPath)
        ensures
            p@ == spec_join(self@, tail@),
    {
        if tail.len() > 0 && tail[0] == 47u8 {
            return FsPath { bytes: copy_bytes(tail) };
        }
        let mut out = copy_bytes(self.bytes.as_slice());
        let n = self.bytes.len();
        if n > 0 && self.bytes[n - 1] != 47u8 {
            out.push(47u8);
        }
        push_all(&mut out, tail);
        FsPath { bytes: out }
    }

    /// `self` with the path `tail` pushed onto it.
    pub fn join(&self, tail: &FsPath) -> (p: FsPath)
        ensures
            p@ == spec_join(self@, tail@),
    {
        self.join_bytes(tail.bytes.as_slice())
    }

    /// `self` with the path written `tail` pushed onto it.
    pub fn join_text(&self, tail: &str) -> (p: FsPath)
        ensures
            p@ == spec_join(self@, tail.spec_bytes()),
    {
        self.join_bytes(tail.as_bytes())
    }

    /// The components of the path (see [`spec_components`]).
    pub fn components(&self) -> (r: Vec<Vec<u8>>)
        ensures
            seqs_of(r@) == spec_components(self@),
    {
        let ghost s = self@;
        let n = self.bytes.len();
        let mut out: Vec<Vec<u8>> = Vec::new();
        if n > 0 && self.bytes[0] == 47u8 {
            let mut c: Vec<u8> = Vec::new();
            c.push(47u8);
            assert(c@ =~= root_component());
            out.push(c);
        } else if n > 0 && self.bytes[0] == 46u8 && (n == 1 || self.bytes[1] == 47u8) {
            let mut c: Vec<u8> = Vec::new();
            c.push(46u8);
            assert(c@ =~= cur_dir_component());
            out.push(c);
        }
        assert(seqs_of(out@) =~= component_prefix(s));
        let ghost prefix = seqs_of(out@);
        let mut cur: Vec<u8> = Vec::new();
        let mut i: usize = 0;
        assert(s.subrange(0, 0) =~= Seq::<u8>::empty());
        while i < n
            invariant
                n == s.len(),
                s == self@,
                0 <= i <= n,
                cur@ == scan(s.subrange(0, i as int)).1,
                seqs_of(out@) == prefix + scan(s.subrange(0, i as int)).0.filter(normal_filter()),
            decreases n - i,
        {
            let b = self.bytes[i];
            let ghost before = scan(s.subrange(0, i as int));
            assert(s.subrange(0, i + 1).drop_last() =~= s.subrange(0, i as int));
            if b == 47u8 {
                proof {
                    lemma_filter_push(before.0, before.1);
                }
                if cur.len() > 0 && !(cur.len() == 1 && cur[0] == 46u8) {
                    assert(is_normal(cur@));
                    let ghost old_out = out@;
                    out.push(cur);
                    assert(seqs_of(out@) =~= seqs_of(old_out).push(before.1));
                } else {
                    assert(!is_normal(cur@)) by {
                        if cur@.len() == 1 && cur@[0] == 46u8 {
                            assert(cur@ =~= cur_dir_component());
                        }
                    }
                }
                cur = Vec::new();
            } else {
                cur.push(b);
            }
            i = i + 1;
        }
        assert(s.subrange(0, n as int) =~= s);
        proof {
            lemma_filter_push(scan(s).0, scan(s).1);
        }
        if cur.len() > 0 && !(cur.len() == 1 && cur[0] == 46u8) {
            let ghost old_out = out@;
            out.push(cur);
            assert(seqs_of(out@) =~= seqs_of(old_out).push(scan(s).1));
        } else {
            assert(!is_normal(cur@)) by {
                if cur@.len() == 1 && cur@[0] == 46u8 {
                    assert(cur@ =~= cur_dir_component());
                }
            }
        }
        assert(seqs_of(out@) =~= spec_components(s));
        out
    }

    /// Whether `base` is a whole-component prefix of this path.
    pub fn starts_with(&self, base: &FsPath) -> (r: bool)
        ensures
            r == spec_starts_with(self@, base@),
    {
        let pc = self.components();
        let bc = base.components();
        let ghost pv = seqs_of(pc@);
        let ghost bv = seqs_of(bc@);
        if bc.len() > pc.len() {
            return false;
        }
        let m = bc.len();
        let mut j: usize = 0;
        while j < m
            invariant
                m == bc@.len(),
                m <= pc@.len(),
                pv == seqs_of(pc@),
                bv == seqs_of(bc@),
                pv == spec_components(self@),
                bv == spec_components(base@),
                pv.len() == pc@.len(),
                bv.len() == bc@.len(),
                0 <= j <= m,
                forall|k: int| 0 <= k < j ==> pv[k] == bv[k],
            decreases m - j,
        {
            assert(pv[j as int] == pc@[j as int]@);
            assert(bv[j as int] == bc@[j as int]@);
            if !bytes_eq(pc[j].as_slice(), bc[j].as_slice()) {
                assert(pv.subrange(0, m as int)[j as int] != bv[j as int]);
                assert(pv.subrange(0, m as int) != bv);
                return false;
            }
            j = j + 1;
        }
        assert(pv.subrange(0, m as int) =~= bv);
        true
    }

    /// The extension of the path's file name (see [`spec_extension`]).
    pub fn extension(&self) -> (r: Option<Vec<u8>>)
        ensures
            match r {
                Some(e) => spec_extension(self@) == Some(e@),
                None => spec_extension(self@) is None,
            },
    {
        let comps = self.components();
        let ghost cv = seqs_of(comps@);
        let k = comps.len();
        if k == 0 {
            return None;
        }
        let last = &comps[k - 1];
        assert(last@ == cv.last());
        let len = last.len();
        if (len == 1 && last[0] == 47u8) || (len == 1 && last[0] == 46u8) || (len == 2
            && last[0] == 46u8 && last[1] == 46u8) {
            assert(spec_file_name(self@) is None) by {
                if len == 1 && last[0] == 47u8 {
                    assert(last@ =~= root_component());
                } else if len == 1 && last[0] == 46u8 {
                    assert(last@ =~= cur_dir_component());
                } else {
                    assert(last@ =~= parent_component());
                }
            }
            return None;
        }
        assert(last@ != root_component() && last@ != cur_dir_component() && last@
            != parent_component()) by {
            if last@ == root_component() {
                assert(last@.len() == 1 && last@[0] == 47u8);
            }
            if last@ == cur_dir_component() {
                assert(last@.len() == 1 && last@[0] == 46u8);
            }
            if last@ == parent_component() {
                assert(last@.len() == 2 && last@[0] == 46u8 && last@[1] == 46u8);
            }
        }
        assert(spec_file_name(self@) == Some(last@));
        // Find the last dot.
        let mut i: usize = len;
        assert(last@.subrange(0, len as int) =~= last@);
        while i > 0 && last[i - 1] != 46u8
            invariant
                len == last@.len(),
                0 <= i <= len,
                last_dot(last@) == last_dot(last@.subrange(0, i as int)),
            decreases i,
        {
            assert(last@.subrange(0, i as int).drop_last() =~= last@.subrange(0, i - 1));
            i = i - 1;
        }
        assert(last@.subrange(0, len as int) =~= last@);
        if i == 0 {
            assert(last@.subrange(0, 0) =~= Seq::<u8>::empty());
            return None;
        }
        assert(last_dot(last@) == i - 1);
        if i == 1 {
            return None;
        }
        let mut ext: Vec<u8> = Vec::new();
        let mut j: usize = i;
        while j < len
            invariant
                len == last@.len(),
                1 <= i <= j <= len,
                ext@ == last@.subrange(i as int, j as int),
            decreases len - j,
        {
            ext.push(last[j]);
            j = j + 1;
            assert(ext@ =~= last@.subrange(i as int, j as int));
        }
        Some(ext)
    }
}

} // verus!
