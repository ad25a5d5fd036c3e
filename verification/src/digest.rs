use vstd::prelude::*;
use vstd::bytes::{spec_u64_to_le_bytes, u64_to_le_bytes};
use vstd::std_specs::hash::DefaultHasherAdditionalSpecFns;
use vstd::utf8::encode_utf8;
use std::collections::hash_map::DefaultHasher;
use std::hash::Hasher;
use crate::bytes::{seqs_of, texts_of};
use crate::io::files_of;

verus! {

/// The lower-case hexadecimal digit for `d < 16`.
pub open spec fn hex_digit(d: nat) -> char {
    if d < 10 {
        (48 + d) as char
    } else {
        (87 + d) as char
    }
}

/// `n` written in lower-case hexadecimal, without leading zeros.
pub open spec fn spec_lower_hex(n: nat) -> Seq<char>
    decreases n,
{
    if n < 16 {
        seq![hex_digit(n)]
    } else {
        spec_lower_hex(n / 16).push(hex_digit(n % 16))
    }
}

/// The lower-case hexadecimal digit for `d`.
fn digit_text(d: u64) -> (r: &'static str)
    requires
        d < 16,
    ensures
        r@ == seq![hex_digit(d as nat)],
{
    if d == 0 {
        proof {
            reveal_strlit("0");
        }
        return "0";
    }
    if d == 1 {
        proof {
            reveal_strlit("1");
        }
        return "1";
    }
    if d == 2 {
        proof {
            reveal_strlit("2");
        }
        return "2";
    }
    if d == 3 {
        proof {
            reveal_strlit("3");
        }
        return "3";
    }
    if d == 4 {
        proof {
            reveal_strlit("4");
        }
        return "4";
    }
    if d == 5 {
        proof {
            reveal_strlit("5");
        }
        return "5";
    }
    if d == 6 {
        proof {
            reveal_strlit("6");
        }
        return "6";
    }
    if d == 7 {
        proof {
            reveal_strlit("7");
        }
        return "7";
    }
    if d == 8 {
        proof {
            reveal_strlit("8");
        }
        return "8";
    }
    if d == 9 {
        proof {
            reveal_strlit("9");
        }
        return "9";
    }
    if d == 10 {
        proof {
            reveal_strlit("a");
        }
        return "a";
    }
    if d == 11 {
        proof {
            reveal_strlit("b");
        }
        return "b";
    }
    if d == 12 {
        proof {
            reveal_strlit("c");
        }
        return "c";
    }
    if d == 13 {
        proof {
            reveal_strlit("d");
        }
        return "d";
    }
    if d == 14 {
        proof {
            reveal_strlit("e");
        }
        return "e";
    }
    proof {
        reveal_strlit("f");
    }
    "f"
}

/// `n` in lower-case hexadecimal without leading zeros, as `{:x}` writes it.
pub fn lower_hex(n: u64) -> (r: String)
    ensures
        r@ == spec_lower_hex(n as nat),
    decreases n,
{
    if n < 16 {
        digit_text(n).to_owned()
    } else {
        let mut s = lower_hex(n / 16);
        s.append(digit_text(n % 16));
        s
    }
}

/// What the hasher takes for a text: its UTF-8 bytes, then the byte `0xff`,
/// as std hashes a `str`.
pub open spec fn text_chunks(t: Seq<char>) -> Seq<Seq<u8>> {
    seq![encode_utf8(t), seq![0xffu8]]
}

/// What the hasher takes for a path: its bytes, then the byte `0xff`, as
/// std hashes the path's text where the path is valid UTF-8.
pub open spec fn path_chunks(p: Seq<u8>) -> Seq<Seq<u8>> {
    seq![p, seq![0xffu8]]
}

/// What the hasher takes for a byte string: its length as eight
/// little-endian bytes, then the bytes, as std hashes a byte vector on a
/// 64-bit little-endian machine.
pub open spec fn bytes_chunks(b: Seq<u8>) -> Seq<Seq<u8>> {
    seq![spec_u64_to_le_bytes(b.len() as u64), b]
}

/// What the hasher takes for the texts of `lead`, in order.
pub open spec fn lead_chunks(lead: Seq<Seq<char>>) -> Seq<Seq<u8>>
    decreases lead.len(),
{
    if lead.len() == 0 {
        Seq::empty()
    } else {
        lead_chunks(lead.drop_last()) + text_chunks(lead.last())
    }
}

/// What the hasher takes for `files`, in order: each file's path, then its
/// contents.
pub open spec fn file_chunks(files: Seq<(Seq<u8>, Seq<u8>)>) -> Seq<Seq<u8>>
    decreases files.len(),
{
    if files.len() == 0 {
        Seq::empty()
    } else {
        file_chunks(files.drop_last()) + path_chunks(files.last().0) + bytes_chunks(
            files.last().1,
        )
    }
}

/// What the hasher takes for `blobs`, in order.
pub open spec fn blob_chunks(blobs: Seq<Seq<u8>>) -> Seq<Seq<u8>>
    decreases blobs.len(),
{
    if blobs.len() == 0 {
        Seq::empty()
    } else {
        blob_chunks(blobs.drop_last()) + bytes_chunks(blobs.last())
    }
}

/// What the change hash feeds the hasher: the texts of `lead`, then `files`.
pub open spec fn inputs_chunks(lead: Seq<Seq<char>>, files: Seq<(Seq<u8>, Seq<u8>)>) -> Seq<Seq<u8>> {
    lead_chunks(lead) + file_chunks(files)
}

/// The digest of the change hash's inputs: what a fresh
/// `std::hash::DefaultHasher` finishes with once fed [`inputs_chunks`].
pub open spec fn inputs_hash(lead: Seq<Seq<char>>, files: Seq<(Seq<u8>, Seq<u8>)>) -> u64 {
    DefaultHasher::spec_finish(inputs_chunks(lead, files))
}

/// The digest of the install manifests' contents: what a fresh
/// `std::hash::DefaultHasher` finishes with once fed [`blob_chunks`].
pub open spec fn blobs_hash(blobs: Seq<Seq<u8>>) -> u64 {
    DefaultHasher::spec_finish(blob_chunks(blobs))
}

fn feed_end(h: &mut DefaultHasher)
    ensures
        final(h)@ == old(h)@.push(seq![0xffu8]),
{
    let mut end: Vec<u8> = Vec::new();
    end.push(0xff);
    assert(end@ =~= seq![0xffu8]);
    h.write(end.as_slice());
}

fn feed_text(h: &mut DefaultHasher, t: &String)
    ensures
        final(h)@ == old(h)@ + text_chunks(t@),
{
    h.write(t.as_str().as_bytes());
    feed_end(h);
    assert(h@ =~= old(h)@ + text_chunks(t@));
}

fn feed_path(h: &mut DefaultHasher, p: &Vec<u8>)
    ensures
        final(h)@ == old(h)@ + path_chunks(p@),
{
    h.write(p.as_slice());
    feed_end(h);
    assert(h@ =~= old(h)@ + path_chunks(p@));
}

fn feed_bytes(h: &mut DefaultHasher, b: &Vec<u8>)
    ensures
        final(h)@ == old(h)@ + bytes_chunks(b@),
{
    let n = u64_to_le_bytes(b.len() as u64);
    h.write(n.as_slice());
    h.write(b.as_slice());
    assert(h@ =~= old(h)@ + bytes_chunks(b@));
}

/// The digest of the change hash's inputs: the texts of `lead`, then each
/// file's path and contents (see [`inputs_chunks`]).
pub(crate) fn inputs_digest(lead: &Vec<String>, files: &Vec<(Vec<u8>, Vec<u8>)>) -> (r: u64)
    ensures
        r == inputs_hash(texts_of(lead@), files_of(files@)),
{
    let mut h = DefaultHasher::new();
    let mut i: usize = 0;
    while i < lead.len()
        invariant
            0 <= i <= lead@.len(),
            h@ == lead_chunks(texts_of(lead@).take(i as int)),
        decreases lead@.len() - i,
    {
        feed_text(&mut h, &lead[i]);
        assert(texts_of(lead@).take(i + 1).drop_last() =~= texts_of(lead@).take(i as int));
        i = i + 1;
    }
    assert(texts_of(lead@).take(i as int) =~= texts_of(lead@));
    let ghost at_files = h@;
    let mut k: usize = 0;
    while k < files.len()
        invariant
            0 <= k <= files@.len(),
            at_files == lead_chunks(texts_of(lead@)),
            h@ == at_files + file_chunks(files_of(files@).take(k as int)),
        decreases files@.len() - k,
    {
        let ghost before = h@;
        feed_path(&mut h, &files[k].0);
        feed_bytes(&mut h, &files[k].1);
        assert(files_of(files@).take(k + 1).drop_last() =~= files_of(files@).take(k as int));
        assert(h@ =~= before + path_chunks(files@[k as int].0@) + bytes_chunks(files@[k as int].1@));
        k = k + 1;
    }
    assert(files_of(files@).take(k as int) =~= files_of(files@));
    h.finish()
}

/// The digest of the install manifests' contents, each in turn (see
/// [`blob_chunks`]).
pub(crate) fn blobs_digest(blobs: &Vec<Vec<u8>>) -> (r: u64)
    ensures
        r == blobs_hash(seqs_of(blobs@)),
{
    let mut h = DefaultHasher::new();
    let mut i: usize = 0;
    while i < blobs.len()
        invariant
            0 <= i <= blobs@.len(),
            h@ == blob_chunks(seqs_of(blobs@).take(i as int)),
        decreases blobs@.len() - i,
    {
        feed_bytes(&mut h, &blobs[i]);
        assert(seqs_of(blobs@).take(i + 1).drop_last() =~= seqs_of(blobs@).take(i as int));
        i = i + 1;
    }
    assert(seqs_of(blobs@).take(i as int) =~= seqs_of(blobs@));
    h.finish()
}

} // verus!
