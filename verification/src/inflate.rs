//! Extracting a DEX entry from an APK: stored entries are copied, deflated
//! ones are inflated with `flate2` in chunks, polling a cancellation token.
use crate::bytes::{fits, le_u16, record, u16_at};
use crate::cancel::is_cancelled;
use crate::error::AscError;
use crate::zip::{sig_at, DexEntry, LH_SIG};
use flate2::{Decompress, DecompressError, FlushDecompress, Status};
use std::sync::atomic::AtomicBool;
use vstd::prelude::*;

verus! {

/// `flate2`'s inflater; its state is seen only through `inflater_input`,
/// `inflater_output`, `inflater_flushed` and `inflater_failed`.
#[verifier::external_type_specification]
#[verifier::external_body]
pub struct ExDecompress(Decompress);

/// `flate2`'s error for a stream that cannot be inflated, carried through unread.
#[verifier::external_type_specification]
#[verifier::external_body]
pub struct ExDecompressError(DecompressError);

/// Size of a local file header before its name.
pub const LOCAL_HEADER_LEN: usize = 30;

/// Compressed input handed to the inflater at a time, between cancellation checks.
pub const DEFLATE_CHUNK: usize = 524288;

/// Size of the buffer the inflater writes into.
pub const INFLATE_BUFFER_LEN: usize = 65536;

/// Upper bound of raw deflate expansion (258-byte match per ~2 bits of input).
pub const DEFLATE_MAX_RATIO: usize = 1032;

/// What a step of the inflater reports.
pub enum InflateStatus {
    /// Progress was made; more input or output room may be needed.
    Progress,
    /// No progress was possible with the buffers given.
    Stalled,
    /// The end of the deflate stream was reached.
    StreamEnd,
}

/// What `flate2`'s streaming raw inflater (`Decompress::new(false)`, its first
/// call made without `FlushDecompress::Finish`, with room to write) gives when
/// handed all of `data`: the bytes it writes up to reporting the end of the
/// stream; it takes in nothing after that end, so the bytes that follow it do
/// not matter. `None` when it reports an error or never reaches the end.
/// This is raw DEFLATE decoding as `miniz_oxide` does it, which is not the same
/// as validity under RFC 1951: for one, a back-reference reaching before the
/// start of the output reads zeros from its window rather than failing.
pub uninterp spec fn raw_inflate(data: Seq<u8>) -> Option<Seq<u8>>;

/// The input bytes that an inflater has taken in so far, in order.
pub uninterp spec fn inflater_input(d: Decompress) -> Seq<u8>;

/// The bytes that an inflater has written out so far, in order.
pub uninterp spec fn inflater_output(d: Decompress) -> Seq<u8>;

/// A call with `FlushDecompress::Finish` has been accepted by the inflater;
/// from then on only such calls succeed.
pub uninterp spec fn inflater_flushed(d: Decompress) -> bool;

/// A call has stopped the inflater on a corrupt or unfinishable stream;
/// every later call fails.
pub uninterp spec fn inflater_failed(d: Decompress) -> bool;

/// `after` is `before` followed by the first bytes of `buf`.
pub open spec fn appended(before: Seq<u8>, after: Seq<u8>, buf: Seq<u8>) -> bool {
    &&& before.len() <= after.len() <= before.len() + buf.len()
    &&& after == before + buf.subrange(0, after.len() - before.len())
}

/// Every input that begins with `input` and that `raw_inflate` completes
/// inflates to bytes that begin with `output`.
pub open spec fn decodes_from(input: Seq<u8>, output: Seq<u8>) -> bool {
    forall|s: Seq<u8>|
        input.is_prefix_of(s) && #[trigger] raw_inflate(s) is Some ==> output.is_prefix_of(
            raw_inflate(s)->0,
        )
}

/// Everything that begins with `input` inflates to exactly `output`.
pub open spec fn decodes_to(input: Seq<u8>, output: Seq<u8>) -> bool {
    forall|s: Seq<u8>| input.is_prefix_of(s) ==> #[trigger] raw_inflate(s) == Some(output)
}

/// Some input that `raw_inflate` completes begins with `input`.
pub open spec fn may_decode(input: Seq<u8>) -> bool {
    exists|s: Seq<u8>| input.is_prefix_of(s) && #[trigger] raw_inflate(s) is Some
}

/// `flate2`'s `Decompress::new(false)`: a raw deflate inflater, expecting no
/// zlib header, that has taken in and written out nothing.
#[verifier::external_body]
fn new_raw_inflater() -> (r: Decompress)
    ensures
        inflater_input(r) == Seq::<u8>::empty(),
        inflater_output(r) == Seq::<u8>::empty(),
        !inflater_flushed(r),
        !inflater_failed(r),
{
    Decompress::new(false)
}

/// `flate2`'s `Decompress::total_in`: how many input bytes the inflater has
/// taken in.
#[verifier::external_body]
fn total_in(d: &Decompress) -> (r: u64)
    requires
        inflater_input(*d).len() <= u64::MAX,
    ensures
        r == inflater_input(*d).len(),
{
    d.total_in()
}

/// `flate2`'s `Decompress::total_out`: how many bytes the inflater has
/// written out.
#[verifier::external_body]
fn total_out(d: &Decompress) -> (r: u64)
    requires
        inflater_output(*d).len() <= u64::MAX,
    ensures
        r == inflater_output(*d).len(),
{
    d.total_out()
}

/// `flate2`'s `Decompress::decompress` with `FlushDecompress::None`, as its
/// `miniz_oxide` backend does it. It takes in the first bytes of `input` and
/// writes its next output bytes to the start of `output`, whose length stays;
/// the counts it keeps are `u64`, hence the bounds asked for. Streaming
/// inflation does not depend on how the input is cut into calls, so what it
/// has written is always the start of `raw_inflate` of every input that
/// begins with what it has taken in, and when it reports the end it is all
/// of it. Unless it has failed or been flushed, a call on input that
/// `raw_inflate` completes when continued, with room to write, succeeds and
/// takes in input, writes output or reports the end. After a success it has
/// failed exactly when it had; a `BufError` is reported as `Stalled`.
#[verifier::external_body]
fn inflate_some(d: &mut Decompress, input: &[u8], output: &mut Vec<u8>) -> (r: Result<
    InflateStatus,
    DecompressError,
>)
    requires
        inflater_input(*old(d)).len() + input@.len() <= u64::MAX,
        inflater_output(*old(d)).len() + old(output)@.len() <= u64::MAX,
    ensures
        final(output)@.len() == old(output)@.len(),
        appended(inflater_input(*old(d)), inflater_input(*final(d)), input@),
        appended(inflater_output(*old(d)), inflater_output(*final(d)), final(output)@),
        inflater_flushed(*final(d)) == inflater_flushed(*old(d)),
        r is Ok ==> inflater_failed(*final(d)) == inflater_failed(*old(d)),
        decodes_from(inflater_input(*final(d)), inflater_output(*final(d))),
        r matches Ok(InflateStatus::StreamEnd) ==> decodes_to(
            inflater_input(*final(d)),
            inflater_output(*final(d)),
        ),
        !inflater_failed(*old(d)) && !inflater_flushed(*old(d)) && input@.len() > 0 && old(
            output,
        )@.len() > 0 && may_decode(inflater_input(*old(d)) + input@) ==> r is Ok && (r matches Ok(
            InflateStatus::StreamEnd,
        ) || inflater_input(*final(d)).len() > inflater_input(*old(d)).len()
            || inflater_output(*final(d)).len() > inflater_output(*old(d)).len()),
{
    match d.decompress(input, output.as_mut_slice(), FlushDecompress::None) {
        Ok(Status::Ok) => Ok(InflateStatus::Progress),
        Ok(Status::BufError) => Ok(InflateStatus::Stalled),
        Ok(Status::StreamEnd) => Ok(InflateStatus::StreamEnd),
        Err(e) => Err(e),
    }
}

/// `flate2`'s `Decompress::decompress` with no input and
/// `FlushDecompress::Finish`, as its `miniz_oxide` backend does it: it writes
/// its next output bytes to the start of `output`, whose length stays. What it
/// has written is always the start of `raw_inflate` of every input that
/// begins with what it has taken in, and when it reports the end it is all of
/// it. (As a first call it decodes in one shot, but it then has taken in
/// nothing and cannot reach the end.) When `raw_inflate` completes on what it
/// has taken in and it has not failed, a call with room to write succeeds,
/// writes output or reports the end, and leaves it not failed. A `BufError`
/// is reported as `Stalled`.
#[verifier::external_body]
fn inflate_finish(d: &mut Decompress, output: &mut Vec<u8>) -> (r: Result<
    InflateStatus,
    DecompressError,
>)
    requires
        inflater_output(*old(d)).len() + old(output)@.len() <= u64::MAX,
    ensures
        final(output)@.len() == old(output)@.len(),
        inflater_input(*final(d)) == inflater_input(*old(d)),
        appended(inflater_output(*old(d)), inflater_output(*final(d)), final(output)@),
        decodes_from(inflater_input(*final(d)), inflater_output(*final(d))),
        r matches Ok(InflateStatus::StreamEnd) ==> decodes_to(
            inflater_input(*final(d)),
            inflater_output(*final(d)),
        ),
        !inflater_failed(*old(d)) && old(output)@.len() > 0 && raw_inflate(
            inflater_input(*old(d)),
        ) is Some ==> !inflater_failed(*final(d)) && r is Ok && (r matches Ok(
            InflateStatus::StreamEnd,
        ) || inflater_output(*final(d)).len() > inflater_output(*old(d)).len()),
{
    match d.decompress(&[], output.as_mut_slice(), FlushDecompress::Finish) {
        Ok(Status::Ok) => Ok(InflateStatus::Progress),
        Ok(Status::BufError) => Ok(InflateStatus::Stalled),
        Ok(Status::StreamEnd) => Ok(InflateStatus::StreamEnd),
        Err(e) => Err(e),
    }
}

/// `a - b`, or `None` when `b` exceeds `a` or the difference does not fit a `usize`.
fn progress(a: u64, b: u64) -> (r: Option<usize>)
    ensures
        r is Some <==> b <= a && a - b <= usize::MAX,
        r matches Some(n) ==> n == a - b,
{
    if b > a {
        return None;
    }
    let d = a - b;
    if d > usize::MAX as u64 {
        return None;
    }
    Some(d as usize)
}

/// The corrupt-stream error for the entry `name`.
fn corrupt(name: &String) -> (r: AscError)
    ensures
        r matches AscError::CorruptDeflateStream(n) && n@ == name@,
{
    AscError::CorruptDeflateStream(name.clone())
}

/// `r` is the corrupt-stream error for the entry named `name`.
pub open spec fn is_corrupt(r: Result<Option<Seq<u8>>, AscError>, name: Seq<char>) -> bool {
    r matches Err(AscError::CorruptDeflateStream(n)) && n@ == name
}

/// What inflating `comp` for the entry named `name` gives when it is not
/// cancelled: what `raw_inflate` gives for it, or the corrupt-stream error
/// when that is `None`. A decoding within a buffer's length of the
/// largest `usize` may also give that error, as the inflater's counts would
/// overflow.
pub open spec fn deflate_result(
    comp: Seq<u8>,
    name: Seq<char>,
    r: Result<Option<Seq<u8>>, AscError>,
) -> bool {
    match raw_inflate(comp) {
        Some(p) => r == Ok::<Option<Seq<u8>>, AscError>(Some(p)) || (p.len() > usize::MAX
            - INFLATE_BUFFER_LEN && is_corrupt(r, name)),
        None => is_corrupt(r, name),
    }
}

/// `a * b`, or `usize::MAX` when that does not fit.
fn saturating_product(a: usize, b: usize) -> (r: usize)
    ensures
        r == if a * b > usize::MAX {
            usize::MAX as int
        } else {
            a * b
        },
{
    match a.checked_mul(b) {
        Some(x) => x,
        None => usize::MAX,
    }
}

/// `s[0..a] + s[a..b] == s[0..b]`, and `s[0..b]` begins `s`.
proof fn lemma_prefix_step(s: Seq<u8>, a: int, b: int)
    requires
        0 <= a <= b <= s.len(),
    ensures
        s.subrange(0, a) + s.subrange(a, b) == s.subrange(0, b),
        s.subrange(0, b).is_prefix_of(s),
{
    assert(s.subrange(0, a) + s.subrange(a, b) =~= s.subrange(0, b));
    assert(s.subrange(0, b) =~= s.subrange(0, s.subrange(0, b).len() as int));
}

/// Inflates a raw deflate stream, checking `cancel` before each chunk of
/// input and once the stream has ended.
fn inflate_deflate(
    comp_slice: &[u8],
    capacity_hint: usize,
    entry_name: &String,
    cancel: Option<&AtomicBool>,
) -> (r: Result<Option<Vec<u8>>, AscError>)
    ensures
        r matches Ok(None) ==> cancel is Some,
        !(r matches Ok(None)) ==> deflate_result(comp_slice@, entry_name@, inflate_view(r)),
{
    let mut decompressor = new_raw_inflater();
    // The hint comes from the central directory and is attacker-controlled; never
    // reserve more than the stream could possibly produce.
    let max_output = saturating_product(comp_slice.len(), DEFLATE_MAX_RATIO);
    let reserve = if capacity_hint > 0 {
        if capacity_hint < max_output {
            capacity_hint
        } else {
            max_output
        }
    } else {
        saturating_product(comp_slice.len(), 2)
    };
    let mut out: Vec<u8> = Vec::with_capacity(reserve);
    let mut temp_buf: Vec<u8> = vec![0u8; INFLATE_BUFFER_LEN];
    let ghost comp = comp_slice@;
    let mut start: usize = 0;
    let len = comp_slice.len();
    proof {
        assert(comp.subrange(0, 0) =~= Seq::<u8>::empty());
        assert forall|s: Seq<u8>| comp.subrange(0, 0).is_prefix_of(s) && #[trigger] raw_inflate(
            s,
        ) is Some implies out@.is_prefix_of(raw_inflate(s)->0) by {
            assert(out@ =~= raw_inflate(s)->0.subrange(0, 0));
        }
    }
    while start < len
        invariant
            len == comp.len(),
            comp == comp_slice@,
            start <= len,
            temp_buf@.len() == INFLATE_BUFFER_LEN,
            inflater_input(decompressor) == comp.subrange(0, start as int),
            inflater_output(decompressor) == out@,
            decodes_from(comp.subrange(0, start as int), out@),
            !inflater_flushed(decompressor),
            !inflater_failed(decompressor),
        decreases len - start,
    {
        let end = if len - start > DEFLATE_CHUNK {
            start + DEFLATE_CHUNK
        } else {
            len
        };
        if is_cancelled(cancel) {
            return Ok(None);
        }
        let mut pos: usize = start;
        while pos < end
            invariant
                len == comp.len(),
                comp == comp_slice@,
                start < end <= len,
                start <= pos <= end,
                temp_buf@.len() == INFLATE_BUFFER_LEN,
                inflater_input(decompressor) == comp.subrange(0, pos as int),
                inflater_output(decompressor) == out@,
                decodes_from(comp.subrange(0, pos as int), out@),
                !inflater_flushed(decompressor),
                !inflater_failed(decompressor),
            decreases end - pos, usize::MAX - out@.len(),
        {
            proof {
                lemma_prefix_step(comp, pos as int, end as int);
                lemma_prefix_step(comp, 0, pos as int);
            }
            // The inflater counts what it writes in a `u64`; stop while a
            // whole buffer more still fits.
            if out.len() > usize::MAX - INFLATE_BUFFER_LEN {
                return Err(corrupt(entry_name));
            }
            let chunk = vstd::slice::slice_subrange(comp_slice, pos, end);
            let before_in = total_in(&decompressor);
            let before_out = total_out(&decompressor);
            let ghost fed = inflater_input(decompressor) + chunk@;
            proof {
                if raw_inflate(comp) is Some {
                    assert(fed.is_prefix_of(comp) && raw_inflate(comp) is Some);
                    assert(may_decode(fed));
                }
            }
            let status = match inflate_some(&mut decompressor, chunk, &mut temp_buf) {
                Ok(s) => s,
                Err(_) => {
                    return Err(corrupt(entry_name));
                },
            };
            let consumed = match progress(total_in(&decompressor), before_in) {
                Some(n) => n,
                None => {
                    return Err(corrupt(entry_name));
                },
            };
            let produced = match progress(total_out(&decompressor), before_out) {
                Some(n) => n,
                None => {
                    return Err(corrupt(entry_name));
                },
            };
            // flate2 never reports more than it was given, so these cannot fail.
            if consumed > end - pos || produced > temp_buf.len() {
                return Err(corrupt(entry_name));
            }
            out.extend_from_slice(vstd::slice::slice_subrange(temp_buf.as_slice(), 0, produced));
            pos = pos + consumed;
            proof {
                assert(out@ =~= inflater_output(decompressor));
                assert(inflater_input(decompressor) =~= comp.subrange(0, pos as int));
                lemma_prefix_step(comp, 0, pos as int);
            }
            if let InflateStatus::StreamEnd = status {
                if is_cancelled(cancel) {
                    return Ok(None);
                }
                return Ok(Some(out));
            }
            if consumed == 0 && produced == 0 {
                return Err(corrupt(entry_name));
            }
        }
        start = end;
    }
    proof {
        assert(comp.subrange(0, len as int) =~= comp);
    }
    let mut finished = false;
    loop
        invariant_except_break
            !finished,
        invariant
            comp == comp_slice@,
            temp_buf@.len() == INFLATE_BUFFER_LEN,
            inflater_input(decompressor) == comp,
            inflater_output(decompressor) == out@,
            decodes_from(comp, out@),
            raw_inflate(comp) is Some ==> !inflater_failed(decompressor),
        ensures
            finished ==> raw_inflate(comp) == Some(out@),
            !finished ==> raw_inflate(comp) is None,
        decreases usize::MAX - out@.len(),
    {
        proof {
            assert(comp.is_prefix_of(comp)) by {
                assert(comp =~= comp.subrange(0, comp.len() as int));
            }
        }
        if out.len() > usize::MAX - INFLATE_BUFFER_LEN {
            return Err(corrupt(entry_name));
        }
        let before_out = total_out(&decompressor);
        let status = match inflate_finish(&mut decompressor, &mut temp_buf) {
            Ok(s) => s,
            Err(_) => {
                return Err(corrupt(entry_name));
            },
        };
        let produced = match progress(total_out(&decompressor), before_out) {
            Some(n) => n,
            None => {
                return Err(corrupt(entry_name));
            },
        };
        if produced > temp_buf.len() {
            return Err(corrupt(entry_name));
        }
        out.extend_from_slice(vstd::slice::slice_subrange(temp_buf.as_slice(), 0, produced));
        proof {
            assert(out@ =~= inflater_output(decompressor));
        }
        if let InflateStatus::StreamEnd = status {
            finished = true;
            break;
        }
        if produced == 0 {
            break;
        }
    }
    if !finished {
        return Err(corrupt(entry_name));
    }
    if is_cancelled(cancel) {
        return Ok(None);
    }
    Ok(Some(out))
}

/// Where the data of `entry` lies in `s`: behind its local file header, whose
/// signature must be there, and `comp_size` bytes long.
pub open spec fn entry_data_range(s: Seq<u8>, entry: crate::zip::DexEntryView) -> Result<
    (int, int),
    AscError,
> {
    let lh = entry.local_header_off as int;
    if lh + LOCAL_HEADER_LEN > s.len() || !sig_at(s, lh, LH_SIG@) {
        Err(AscError::BadLocalHeaderSignature)
    } else {
        let start = lh + LOCAL_HEADER_LEN + le_u16(s, lh + 26) + le_u16(s, lh + 28);
        if !fits(s, start, entry.comp_size as int) {
            Err(AscError::BadCompressedDataRange)
        } else {
            Ok((start, start + entry.comp_size))
        }
    }
}

/// `bytes` as the entry's data, checked against the size the central
/// directory gives (0 means not given).
pub open spec fn size_checked(uncomp_size: u32, bytes: Seq<u8>) -> Result<Option<Seq<u8>>, AscError> {
    if uncomp_size != 0 && bytes.len() != uncomp_size {
        Err(AscError::SizeMismatch { expected: uncomp_size, got: bytes.len() as usize })
    } else {
        Ok(Some(bytes))
    }
}

/// The view of an inflate result.
pub open spec fn inflate_view(r: Result<Option<Vec<u8>>, AscError>) -> Result<Option<Seq<u8>>, AscError> {
    match r {
        Ok(Some(v)) => Ok(Some(v@)),
        Ok(None) => Ok(None),
        Err(e) => Err(e),
    }
}

/// `r` is a result `inflate_entry` may give for `entry` of `s`; `may_cancel`
/// says whether a cancellation token was handed over. A stored entry gives
/// its bytes, a deflated one what `raw_inflate` gives for its data (or the
/// corrupt-stream error), either checked against the size the central
/// directory gives.
pub open spec fn inflate_entry_outcome(
    s: Seq<u8>,
    entry: crate::zip::DexEntryView,
    may_cancel: bool,
    r: Result<Option<Seq<u8>>, AscError>,
) -> bool {
    match entry_data_range(s, entry) {
        Err(e) => r == Err::<Option<Seq<u8>>, AscError>(e),
        Ok((start, end)) => if entry.method == 0 {
            (may_cancel && r == Ok::<Option<Seq<u8>>, AscError>(None)) || r == size_checked(
                entry.uncomp_size,
                s.subrange(start, end),
            )
        } else if entry.method == 8 {
            ||| may_cancel && r == Ok::<Option<Seq<u8>>, AscError>(None)
            ||| match raw_inflate(s.subrange(start, end)) {
                Some(p) => r == size_checked(entry.uncomp_size, p) || (p.len() > usize::MAX
                    - INFLATE_BUFFER_LEN && is_corrupt(r, entry.name)),
                None => is_corrupt(r, entry.name),
            }
        } else {
            r == Err::<Option<Seq<u8>>, AscError>(AscError::UnsupportedCompressionMethod(entry.method))
        },
    }
}

/// Inflates a DEX entry from an APK / ZIP buffer.
///
/// Supports method 0 (stored) and method 8 (raw deflate, wbits = -15).
/// Respects optional cancellation token checked every 512 KiB.
pub fn inflate_entry(data: &[u8], entry: &DexEntry, cancel: Option<&AtomicBool>) -> (r: Result<
    Option<Vec<u8>>,
    AscError,
>)
    ensures
        inflate_entry_outcome(data@, entry@, cancel is Some, inflate_view(r)),
{
    let lh_off = entry.local_header_off as usize;
    if lh_off > data.len() || data.len() - lh_off < LOCAL_HEADER_LEN || !crate::zip::sig_matches(
        data,
        lh_off,
        &LH_SIG,
    ) {
        return Err(AscError::BadLocalHeaderSignature);
    }
    let name_len = u16_at(data, lh_off + 26).unwrap() as usize;
    let extra_len = u16_at(data, lh_off + 28).unwrap() as usize;
    let data_off = match (lh_off + LOCAL_HEADER_LEN).checked_add(name_len) {
        Some(x) => match x.checked_add(extra_len) {
            Some(y) => y,
            None => {
                return Err(AscError::BadCompressedDataRange);
            },
        },
        None => {
            return Err(AscError::BadCompressedDataRange);
        },
    };
    let comp_size = entry.comp_size as usize;
    let comp_slice = match record(data, data_off, comp_size) {
        Some(s) => s,
        None => {
            return Err(AscError::BadCompressedDataRange);
        },
    };
    let decompressed = if entry.method == 0 {
        if is_cancelled(cancel) {
            return Ok(None);
        }
        vstd::slice::slice_to_vec(comp_slice)
    } else if entry.method == 8 {
        match inflate_deflate(comp_slice, entry.uncomp_size as usize, &entry.name, cancel)? {
            Some(d) => d,
            None => {
                return Ok(None);
            },
        }
    } else {
        return Err(AscError::UnsupportedCompressionMethod(entry.method));
    };
    if entry.uncomp_size != 0 && decompressed.len() != entry.uncomp_size as usize {
        return Err(AscError::SizeMismatch { expected: entry.uncomp_size, got: decompressed.len() });
    }
    Ok(Some(decompressed))
}

} // verus!
