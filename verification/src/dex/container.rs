//! DEX 041 containers: several logical DEX files back to back, each with its
//! own header.
use crate::bytes::{le_u32, u32_at};
use crate::dex::header::DEX_HEADER_MIN_SIZE;
use crate::text::{ascii_chars, decimal_digits, decimal_string};
use std::borrow::Cow;
use vstd::prelude::*;

verus! {

/// The magic `dex\n041\0` a DEX 041 container starts with.
pub const DEX041_MAGIC: [u8; 8] = [0x64, 0x65, 0x78, 0x0a, 0x30, 0x34, 0x31, 0x00];

/// `s` holds a header-sized run of bytes at `off` that starts with the DEX 041 magic.
pub open spec fn dex041_header_at(s: Seq<u8>, off: int) -> bool {
    0 <= off && off + DEX_HEADER_MIN_SIZE <= s.len() && s.subrange(off, off + 8) == DEX041_MAGIC@
}

/// What `is_dex041_container` returns.
pub open spec fn spec_is_dex041_container(s: Seq<u8>) -> bool {
    dex041_header_at(s, 0)
}

/// Offsets of the logical DEX files from `off` on: each has the magic, and a
/// `file_size` of at least a header that fits in what is left; the next one
/// starts where it ends.
pub open spec fn logical_chain(s: Seq<u8>, off: int) -> Seq<usize>
    decreases s.len() - off,
{
    if !dex041_header_at(s, off) {
        seq![]
    } else {
        let file_size = le_u32(s, off + 0x20);
        if file_size < DEX_HEADER_MIN_SIZE || file_size > s.len() - off {
            seq![]
        } else {
            seq![off as usize] + logical_chain(s, off + file_size)
        }
    }
}

/// What `dex041_logical_offsets` returns.
pub open spec fn spec_dex041_logical_offsets(s: Seq<u8>) -> Seq<usize> {
    if !spec_is_dex041_container(s) || logical_chain(s, 0).len() == 0 {
        seq![0usize]
    } else {
        logical_chain(s, 0)
    }
}

/// Size of the header that the logical DEX at `header_off` declares, when it
/// is at least the minimum and fits; the minimum otherwise.
pub open spec fn logical_header_size(s: Seq<u8>, header_off: int) -> int {
    let logical = if header_off <= s.len() {
        s.subrange(header_off, s.len() as int)
    } else {
        Seq::<u8>::empty()
    };
    if logical.len() >= 0x28 && DEX_HEADER_MIN_SIZE <= le_u32(logical, 0x24) <= logical.len() {
        le_u32(logical, 0x24) as int
    } else {
        DEX_HEADER_MIN_SIZE as int
    }
}

/// What `normalize_dex041_logical` returns: the container with its first
/// bytes replaced by the header of the logical DEX at `header_off`.
pub open spec fn spec_normalize_dex041_logical(s: Seq<u8>, header_off: int) -> Seq<u8> {
    let hs = logical_header_size(s, header_off);
    if header_off == 0 || header_off > s.len() || hs > s.len() - header_off || hs > s.len() {
        s
    } else {
        s.subrange(header_off, header_off + hs) + s.subrange(hs, s.len() as int)
    }
}

/// The first eight bytes at `off` are the DEX 041 magic, with a header's worth behind.
fn dex041_header_check(data: &[u8], off: usize) -> (r: bool)
    ensures
        r == dex041_header_at(data@, off as int),
        r ==> off + DEX_HEADER_MIN_SIZE <= data.len(),
{
    if off > data.len() || data.len() - off < DEX_HEADER_MIN_SIZE {
        return false;
    }
    let mut i: usize = 0;
    while i < 8
        invariant
            off + DEX_HEADER_MIN_SIZE <= data.len(),
            i <= 8,
            forall|j: int| 0 <= j < i ==> data@[off + j] == DEX041_MAGIC@[j],
        decreases 8 - i,
    {
        if data[off + i] != DEX041_MAGIC[i] {
            proof {
                assert(data@.subrange(off as int, off + 8)[i as int] != DEX041_MAGIC@[i as int]);
            }
            return false;
        }
        i += 1;
    }
    assert(data@.subrange(off as int, off + 8) =~= DEX041_MAGIC@);
    true
}

/// Each offset of a chain from `off` on has a DEX 041 header at it, lies at
/// or after `off`, and lies after the one before.
pub proof fn lemma_logical_chain(s: Seq<u8>, off: int)
    requires
        s.len() <= usize::MAX,
    ensures
        forall|i: int|
            0 <= i < logical_chain(s, off).len() ==> off <= #[trigger] logical_chain(s, off)[i]
                && dex041_header_at(s, logical_chain(s, off)[i] as int),
        forall|i: int, j: int|
            0 <= i < j < logical_chain(s, off).len() ==> #[trigger] logical_chain(s, off)[i]
                < #[trigger] logical_chain(s, off)[j],
    decreases s.len() - off,
{
    if dex041_header_at(s, off) {
        let file_size = le_u32(s, off + 0x20);
        if DEX_HEADER_MIN_SIZE <= file_size <= s.len() - off {
            lemma_logical_chain(s, off + file_size);
            let rest = logical_chain(s, off + file_size);
            assert(logical_chain(s, off) == seq![off as usize] + rest);
            assert forall|i: int| 0 <= i < logical_chain(s, off).len() implies off <= #[trigger] logical_chain(s, off)[i]
                && dex041_header_at(s, logical_chain(s, off)[i] as int) by {
                if i > 0 {
                    assert(logical_chain(s, off)[i] == rest[i - 1]);
                }
            }
            assert forall|i: int, j: int| 0 <= i < j < logical_chain(s, off).len() implies #[trigger] logical_chain(s, off)[i]
                < #[trigger] logical_chain(s, off)[j] by {
                assert(logical_chain(s, off)[j] == rest[j - 1]);
                if i > 0 {
                    assert(logical_chain(s, off)[i] == rest[i - 1]);
                }
            }
        }
    }
}

/// The logical offsets of any buffer start at 0 and increase; in a DEX 041
/// container each one holds a DEX 041 header.
pub proof fn lemma_logical_offsets(s: Seq<u8>)
    requires
        s.len() <= usize::MAX,
    ensures
        spec_dex041_logical_offsets(s).len() >= 1,
        spec_dex041_logical_offsets(s)[0] == 0,
        forall|i: int, j: int|
            0 <= i < j < spec_dex041_logical_offsets(s).len() ==> #[trigger] spec_dex041_logical_offsets(s)[i]
                < #[trigger] spec_dex041_logical_offsets(s)[j],
        spec_is_dex041_container(s) ==> forall|i: int|
            0 <= i < spec_dex041_logical_offsets(s).len() ==> dex041_header_at(
                s,
                #[trigger] spec_dex041_logical_offsets(s)[i] as int,
            ),
{
    lemma_logical_chain(s, 0);
    if spec_is_dex041_container(s) && logical_chain(s, 0).len() > 0 {
        assert(logical_chain(s, 0)[0] == 0);
    }
}

/// Normalizing keeps the container's length, whatever the offset.
pub proof fn lemma_normalize_keeps_length(s: Seq<u8>, header_off: int)
    requires
        0 <= header_off,
    ensures
        spec_normalize_dex041_logical(s, header_off).len() == s.len(),
{
}

/// Every buffer gives at least one logical DEX file, and each is as long as
/// the buffer.
pub proof fn lemma_logical_buffers(name: Seq<char>, s: Seq<u8>)
    requires
        s.len() <= usize::MAX,
    ensures
        spec_logical_dex_buffers(name, s).len() >= 1,
        forall|j: int|
            0 <= j < spec_logical_dex_buffers(name, s).len() ==> (#[trigger] spec_logical_dex_buffers(
                name,
                s,
            )[j]).1.len() == s.len(),
{
    lemma_logical_offsets(s);
    assert forall|j: int|
        0 <= j < spec_logical_dex_buffers(name, s).len() implies (#[trigger] spec_logical_dex_buffers(
        name,
        s,
    )[j]).1.len() == s.len() by {
        if spec_dex041_logical_offsets(s).len() > 1 {
            lemma_normalize_keeps_length(s, spec_dex041_logical_offsets(s)[j] as int);
        }
    }
}

/// Returns true if the buffer starts with the DEX041 container magic.
pub fn is_dex041_container(data: &[u8]) -> (r: bool)
    ensures
        r == spec_is_dex041_container(data@),
{
    dex041_header_check(data, 0)
}

/// Extracts logical header offsets for each logical DEX inside a DEX041 container.
/// Returns `vec![0]` if the buffer is not a DEX041 container.
pub fn dex041_logical_offsets(data: &[u8]) -> (r: Vec<usize>)
    ensures
        r@ == spec_dex041_logical_offsets(data@),
{
    if !is_dex041_container(data) {
        return vec![0];
    }
    let mut offsets: Vec<usize> = Vec::new();
    let mut off: usize = 0;
    assert(offsets@ + logical_chain(data@, 0) =~= logical_chain(data@, 0));
    loop
        invariant_except_break
            offsets@ + logical_chain(data@, off as int) == logical_chain(data@, 0),
        invariant
            off <= data@.len(),
        ensures
            offsets@ == logical_chain(data@, 0),
        decreases data@.len() - off,
    {
        if !dex041_header_check(data, off) {
            assert(offsets@ + Seq::<usize>::empty() =~= offsets@);
            break;
        }
        let file_size = u32_at(data, off + 0x20).unwrap() as usize;
        if file_size < DEX_HEADER_MIN_SIZE || file_size > data.len() - off {
            assert(offsets@ + Seq::<usize>::empty() =~= offsets@);
            break;
        }
        let ghost before = offsets@;
        offsets.push(off);
        proof {
            assert(before + (seq![off] + logical_chain(data@, off + file_size)) =~= offsets@
                + logical_chain(data@, off + file_size));
        }
        off = off + file_size;
    }
    if offsets.len() == 0 {
        vec![0]
    } else {
        offsets
    }
}

/// Normalizes a logical DEX from a DEX041 container by replacing the first `header_size`
/// bytes with the header at `header_off`.
pub fn normalize_dex041_logical(data: &[u8], header_off: usize) -> (r: Vec<u8>)
    ensures
        r@ == spec_normalize_dex041_logical(data@, header_off as int),
{
    let mut out = vstd::slice::slice_to_vec(data);
    if header_off == 0 || header_off > data.len() {
        return out;
    }
    let ghost logical = data@.subrange(header_off as int, data@.len() as int);
    let avail = data.len() - header_off;
    let header_size = if avail < 0x28 {
        DEX_HEADER_MIN_SIZE
    } else {
        let sz = u32_at(data, header_off + 0x24).unwrap() as usize;
        if DEX_HEADER_MIN_SIZE <= sz && sz <= avail {
            sz
        } else {
            DEX_HEADER_MIN_SIZE
        }
    };
    proof {
        if logical.len() >= 0x28 {
            assert(le_u32(logical, 0x24) == le_u32(data@, header_off + 0x24));
        }
    }
    if header_size > avail || header_size > data.len() {
        return out;
    }
    let mut i: usize = 0;
    while i < header_size
        invariant
            header_size <= avail,
            avail == data.len() - header_off,
            header_size <= data@.len(),
            out@.len() == data@.len(),
            i <= header_size,
            forall|j: int| 0 <= j < i ==> out@[j] == data@[header_off + j],
            forall|j: int| i <= j < data@.len() ==> out@[j] == data@[j],
        decreases header_size - i,
    {
        out.set(i, data[header_off + i]);
        i += 1;
    }
    assert(out@ =~= data@.subrange(header_off as int, header_off + header_size) + data@.subrange(
        header_size as int,
        data@.len() as int,
    ));
    out
}

/// The name `iter_logical_dex_buffers` gives the `n`th logical DEX of `name`.
pub open spec fn logical_name(name: Seq<char>, n: nat) -> Seq<char> {
    name + "!classes"@ + ascii_chars(decimal_digits(n)) + ".dex"@
}

/// What `iter_logical_dex_buffers` returns, as (name, bytes) pairs: the buffer
/// itself under its own name when it holds at most one logical DEX, and each
/// normalized logical DEX under its numbered name otherwise.
pub open spec fn spec_logical_dex_buffers(name: Seq<char>, s: Seq<u8>) -> Seq<(Seq<char>, Seq<u8>)> {
    let offsets = spec_dex041_logical_offsets(s);
    if offsets.len() <= 1 {
        seq![(name, s)]
    } else {
        Seq::new(
            offsets.len(),
            |i: int| (logical_name(name, (i + 1) as nat), spec_normalize_dex041_logical(s, offsets[i] as int)),
        )
    }
}

/// The view of each (name, bytes) pair.
pub open spec fn buffer_views(v: Seq<(String, Cow<'_, [u8]>)>) -> Seq<(Seq<char>, Seq<u8>)> {
    v.map_values(|p: (String, Cow<'_, [u8]>)| (p.0@, p.1@))
}

/// Each buffer of `v` is borrowed when `borrowed` holds, and owned otherwise.
pub open spec fn all_borrowed_when(v: Seq<(String, Cow<'_, [u8]>)>, borrowed: bool) -> bool {
    forall|i: int|
        0 <= i < v.len() ==> (#[trigger] v[i].1 matches Cow::Borrowed(_) <==> borrowed)
}

/// Iterates logical DEX buffers, returning (logical_name, buffer).
/// For standard DEX, returns `[(name, Cow::Borrowed(data))]`.
/// For DEX041 multi-DEX, returns one entry per sub-DEX.
pub fn iter_logical_dex_buffers<'a>(name: &'a str, data: &'a [u8]) -> (r: Vec<(String, Cow<'a, [u8]>)>)
    ensures
        buffer_views(r@) == spec_logical_dex_buffers(name@, data@),
        all_borrowed_when(r@, spec_dex041_logical_offsets(data@).len() <= 1),
{
    let offsets = dex041_logical_offsets(data);
    if offsets.len() <= 1 {
        let r = vec![(name.to_owned(), Cow::Borrowed(data))];
        assert(buffer_views(r@) =~= seq![(name@, data@)]);
        assert(r@[0].1 matches Cow::Borrowed(_));
        return r;
    }
    let mut out: Vec<(String, Cow<'a, [u8]>)> = Vec::new();
    let mut i: usize = 0;
    while i < offsets.len()
        invariant
            offsets@ == spec_dex041_logical_offsets(data@),
            i <= offsets@.len(),
            buffer_views(out@) =~= spec_logical_dex_buffers(name@, data@).subrange(0, i as int),
            all_borrowed_when(out@, false),
            out@.len() == i,
            offsets@.len() > 1,
        decreases offsets@.len() - i,
    {
        let mut logical = name.to_owned();
        logical.append("!classes");
        let number = decimal_string(i + 1);
        logical.append(number.as_str());
        logical.append(".dex");
        let normalized = normalize_dex041_logical(data, offsets[i]);
        let ghost before = buffer_views(out@);
        proof {
            assert(logical@ =~= logical_name(name@, (i + 1) as nat));
        }
        out.push((logical, Cow::Owned(normalized)));
        proof {
            assert(buffer_views(out@) =~= before.push(
                (logical_name(name@, (i + 1) as nat), normalized@),
            ));
        }
        i += 1;
    }
    out
}

} // verus!
