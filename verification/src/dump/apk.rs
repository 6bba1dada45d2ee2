//! Everything the primitive dump reads from an APK: its DEX entries in order
//! of compressed size, each entry inflated, the classes that each defines,
//! and the dump of every logical DEX file inside each.
use crate::dex::header::{spec_parse_header, Header};
use crate::dex::container::{
    buffer_views, dex041_logical_offsets, is_dex041_container, iter_logical_dex_buffers,
    spec_dex041_logical_offsets, spec_is_dex041_container, spec_logical_dex_buffers,
};
use crate::dex::reader::{
    dex_defines_class_raw, find_type_idx_raw, spec_dex_defines_class, spec_find_type_idx_raw,
    spec_get_class, ClassInfoView, Dex,
};
use crate::dump::dex::{dump_dex_primitives, is_dex_report, DexReport};
use crate::mutf8::{encode_mutf8, mutf8_encoding};
use crate::unicode::{str_to_utf16, utf16_of_chars};
use std::borrow::Cow;
use crate::digest::{sha256_hex, sha256_text};
use crate::dump::names::{sorted_name_set, string_seq_views, strictly_sorted_names};
use crate::unicode::utf16_lossy_chars;
use crate::error::AscError;
use crate::inflate::{inflate_entry, inflate_entry_outcome};
use crate::zip::{
    entry_views, find_classes, find_eocd, first_classes, parse_cd_dex_entries, spec_find_eocd,
    spec_parse_cd, DexEntry, DexEntryView, Eocd,
};
use vstd::prelude::*;
use vstd::seq_lib::lemma_seq_contains_after_push;
use vstd::string::*;

verus! {

/// Picks the entries of compressed size `k`.
pub open spec fn comp_size_is(k: u32) -> spec_fn(DexEntryView) -> bool {
    |e: DexEntryView| e.comp_size == k
}

/// The entries of `v` of compressed size `k`, in their order in `v`.
pub open spec fn with_comp_size(v: Seq<DexEntryView>, k: u32) -> Seq<DexEntryView> {
    v.filter(comp_size_is(k))
}

/// Each entry is no larger, compressed, than the ones after it.
pub open spec fn sorted_by_comp_size(v: Seq<DexEntryView>) -> bool {
    forall|i: int, j: int| 0 <= i < j < v.len() ==> (#[trigger] v[i]).comp_size <= (#[trigger] v[j]).comp_size
}

/// `b` is `a` sorted by compressed size, entries of equal size kept in the
/// order of `a`.
pub open spec fn stable_sorted_by_comp_size(a: Seq<DexEntryView>, b: Seq<DexEntryView>) -> bool {
    &&& sorted_by_comp_size(b)
    &&& forall|k: u32| #[trigger] with_comp_size(b, k) == with_comp_size(a, k)
}

proof fn lemma_filter_push(s: Seq<DexEntryView>, x: DexEntryView, pred: spec_fn(DexEntryView) -> bool)
    ensures
        s.push(x).filter(pred) == if pred(x) {
            s.filter(pred).push(x)
        } else {
            s.filter(pred)
        },
{
    reveal(Seq::filter);
    assert(s.push(x).drop_last() =~= s);
}

proof fn lemma_filter_none(s: Seq<DexEntryView>, pred: spec_fn(DexEntryView) -> bool)
    requires
        forall|i: int| 0 <= i < s.len() ==> !pred(#[trigger] s[i]),
    ensures
        s.filter(pred) == Seq::<DexEntryView>::empty(),
    decreases s.len(),
{
    reveal(Seq::filter);
    if s.len() > 0 {
        lemma_filter_none(s.drop_last(), pred);
    }
}

/// Putting `e` at `p`, behind every entry no larger and before every larger
/// one, adds `e` to the entries of its size and leaves the others alone.
proof fn lemma_insert_by_comp_size(out: Seq<DexEntryView>, p: int, e: DexEntryView, k: u32)
    requires
        0 <= p <= out.len(),
        forall|q: int| p <= q < out.len() ==> (#[trigger] out[q]).comp_size > e.comp_size,
    ensures
        with_comp_size(out.insert(p, e), k) == if e.comp_size == k {
            with_comp_size(out, k).push(e)
        } else {
            with_comp_size(out, k)
        },
{
    let pred = comp_size_is(k);
    let left = out.subrange(0, p);
    let right = out.subrange(p, out.len() as int);
    assert(out =~= left + right);
    assert(out.insert(p, e) =~= left.push(e) + right);
    Seq::filter_distributes_over_add(left, right, pred);
    Seq::filter_distributes_over_add(left.push(e), right, pred);
    lemma_filter_push(left, e, pred);
    if e.comp_size == k {
        lemma_filter_none(right, pred);
        assert(left.filter(pred) + right.filter(pred) =~= left.filter(pred));
        assert(left.filter(pred).push(e) + right.filter(pred) =~= left.filter(pred).push(e));
    }
}

/// A copy of `e`.
fn copy_entry(e: &DexEntry) -> (r: DexEntry)
    ensures
        r@ == e@,
{
    DexEntry {
        name: e.name.clone(),
        uncomp_size: e.uncomp_size,
        comp_size: e.comp_size,
        local_header_off: e.local_header_off,
        method: e.method,
    }
}

/// The entries sorted by compressed size; entries of equal size keep their order.
pub fn sort_by_comp_size(entries: &Vec<DexEntry>) -> (r: Vec<DexEntry>)
    ensures
        stable_sorted_by_comp_size(entry_views(entries@), entry_views(r@)),
{
    let ghost all = entry_views(entries@);
    let mut out: Vec<DexEntry> = Vec::new();
    let mut i: usize = 0;
    assert(entry_views(out@) =~= all.subrange(0, 0));
    while i < entries.len()
        invariant
            all == entry_views(entries@),
            i <= entries@.len(),
            sorted_by_comp_size(entry_views(out@)),
            forall|k: u32| #[trigger] with_comp_size(entry_views(out@), k) == with_comp_size(all.subrange(0, i as int), k),
        decreases entries@.len() - i,
    {
        let e = copy_entry(&entries[i]);
        let mut p: usize = out.len();
        while p > 0 && out[p - 1].comp_size > e.comp_size
            invariant
                p <= out@.len(),
                forall|q: int| p <= q < out@.len() ==> (#[trigger] out@[q]).comp_size > e.comp_size,
            decreases p,
        {
            p -= 1;
        }
        let ghost before = entry_views(out@);
        let ghost ev = e@;
        out.insert(p, e);
        proof {
            let now = entry_views(out@);
            assert(now =~= before.insert(p as int, ev));
            assert forall|q: int| p <= q < before.len() implies (#[trigger] before[q]).comp_size > ev.comp_size by {
                assert(before[q] == out@[q + 1]@) by {
                    assert(now[q + 1] == before[q]);
                }
            }
            assert forall|a: int, b: int| 0 <= a < b < now.len() implies (#[trigger] now[a]).comp_size
                <= (#[trigger] now[b]).comp_size by {
                if p > 0 && a < p as int && b == p as int {
                    assert(before[a].comp_size <= before[p - 1].comp_size);
                }
            }
            assert(all.subrange(0, i + 1) =~= all.subrange(0, i as int).push(ev));
            assert forall|k: u32| #[trigger] with_comp_size(now, k) == with_comp_size(all.subrange(0, i + 1), k) by {
                lemma_insert_by_comp_size(before, p as int, ev, k);
                lemma_filter_push(all.subrange(0, i as int), ev, comp_size_is(k));
            }
        }
        i += 1;
    }
    assert(all.subrange(0, entries@.len() as int) =~= all);
    out
}

/// The DEX entries of an APK's central directory, and where it lies.
#[derive(Debug)]
pub struct EntryListing {
    pub eocd: Eocd,
    /// The central directory holds `classes` somewhere, so the entries were
    /// first looked for by name.
    pub fast_path: bool,
    /// The DEX entries, in order of compressed size.
    pub entries: Vec<DexEntry>,
}

/// The error that stops listing the DEX entries of `s`, if one does.
pub open spec fn listing_error(s: Seq<u8>) -> Option<AscError> {
    match spec_find_eocd(s) {
        Err(e) => Some(e),
        Ok(eocd) => match spec_parse_cd(s, eocd) {
            Err(e) => Some(e),
            Ok(_) => None,
        },
    }
}

/// `l` lists the DEX entries of `s`.
pub open spec fn is_listing_of(s: Seq<u8>, l: EntryListing) -> bool {
    &&& spec_find_eocd(s) == Ok::<Eocd, AscError>(l.eocd)
    &&& l.fast_path == first_classes(s, l.eocd.cd_off as int, l.eocd.cd_off + l.eocd.cd_size) is Some
    &&& spec_parse_cd(s, l.eocd) matches Ok(found) && stable_sorted_by_comp_size(found, entry_views(l.entries@))
}

/// The DEX entries of the APK `apk`, in order of compressed size.
pub fn list_entries(apk: &[u8]) -> (r: Result<EntryListing, AscError>)
    ensures
        match listing_error(apk@) {
            Some(e) => r == Err::<EntryListing, AscError>(e),
            None => r matches Ok(l) && is_listing_of(apk@, l),
        },
{
    let eocd = find_eocd(apk)?;
    assert(eocd.cd_off + eocd.cd_size <= apk.len());
    let fast_path = find_classes(apk, eocd.cd_off, eocd.cd_off + eocd.cd_size).is_some();
    let found = parse_cd_dex_entries(apk)?;
    let entries = sort_by_comp_size(&found);
    Ok(EntryListing { eocd, fast_path, entries })
}

/// An entry inflated: its bytes and their SHA-256 digest in hexadecimal.
#[derive(Debug)]
pub struct Inflated {
    pub data: Vec<u8>,
    pub sha256: String,
}

/// The bytes an inflate outcome holds.
pub open spec fn inflated_bytes(r: Result<Option<Inflated>, AscError>) -> Result<Option<Seq<u8>>, AscError> {
    match r {
        Ok(Some(x)) => Ok(Some(x.data@)),
        Ok(None) => Ok(None),
        Err(e) => Err(e),
    }
}

/// `r` is what inflating `entry` of `s` may give, with no cancellation, and
/// each digest is that of the bytes beside it.
pub open spec fn is_inflated(s: Seq<u8>, entry: DexEntryView, r: Result<Option<Inflated>, AscError>) -> bool {
    &&& inflate_entry_outcome(s, entry, false, inflated_bytes(r))
    &&& r matches Ok(Some(x)) ==> x.sha256@ == sha256_text(x.data@)
}

/// `entry` of `apk` inflated, with the digest of its bytes.
pub fn inflate_with_digest(apk: &[u8], entry: &DexEntry) -> (r: Result<Option<Inflated>, AscError>)
    ensures
        is_inflated(apk@, entry@, r),
{
    match inflate_entry(apk, entry, None)? {
        Some(data) => {
            let sha256 = sha256_hex(data.as_slice());
            Ok(Some(Inflated { data, sha256 }))
        },
        None => Ok(None),
    }
}

/// Class definition `k` of the DEX file `d` can be read, and its name,
/// decoded lossily, is `x`.
#[verifier::opaque]
pub open spec fn class_named(d: Seq<u8>, h: Header, k: int, x: Seq<char>) -> bool {
    spec_get_class(d, h, k) matches Ok(c) && utf16_lossy_chars(c.fullname) == x
}

/// One of the first `n` class definitions of `d` is named `x`.
pub open spec fn class_named_below(d: Seq<u8>, h: Header, x: Seq<char>, n: int) -> bool {
    exists|k: int| 0 <= k < n && #[trigger] class_named(d, h, k, x)
}

/// `x` is the name, decoded lossily, of a class of the DEX file `d` whose
/// definition can be read.
pub open spec fn names_class_of(d: Seq<u8>, x: Seq<char>) -> bool {
    match spec_parse_header(d) {
        Err(_) => false,
        Ok(h) => class_named_below(d, h, x, h.classes.1 as int),
    }
}

proof fn lemma_class_named_below_step(d: Seq<u8>, h: Header, x: Seq<char>, n: int)
    requires
        0 <= n,
    ensures
        class_named_below(d, h, x, n + 1) <==> (class_named_below(d, h, x, n) || class_named(d, h, n, x)),
{
    if class_named_below(d, h, x, n + 1) && !class_named(d, h, n, x) {
        let k = choose|k: int| 0 <= k < n + 1 && #[trigger] class_named(d, h, k, x);
        assert(k < n);
    }
}

/// Where class definition `k` ends when the definitions start at `off`.
pub open spec fn def_end(off: int, k: int) -> int {
    off + k * 32 + 32
}

/// How many of `count` class definitions at `off` lie, one after another,
/// inside `len` bytes; all later ones run past the end.
fn defs_in_range(off: usize, count: usize, len: usize) -> (r: usize)
    ensures
        r <= count,
        forall|k: int| r <= k < count ==> #[trigger] def_end(off as int, k) > len,
{
    if off > len {
        return 0;
    }
    let fit = (len - off) / 32;
    proof {
        let l = len - off;
        assert forall|k: int| fit <= k implies #[trigger] def_end(off as int, k) > len by {
            assert(k * 32 + 32 > l) by (nonlinear_arith)
                requires
                    fit <= k,
                    fit == l / 32,
                    l >= 0,
            ;
        }
    }
    if fit < count {
        fit
    } else {
        count
    }
}

/// The name, decoded lossily, of class definition `idx` of `dex`, when it can be read.
fn class_name_at(dex: &Dex, idx: usize) -> (r: Option<String>)
    ensures
        match r {
            Some(n) => forall|x: Seq<char>| #[trigger] class_named(dex.buf@, dex.header, idx as int, x) <==> x == n@,
            None => forall|x: Seq<char>| !#[trigger] class_named(dex.buf@, dex.header, idx as int, x),
        },
{
    reveal(class_named);
    match dex.get_class(idx) {
        Ok(c) => Some(c.fullname.to_string_lossy()),
        Err(_) => None,
    }
}

/// Class definitions past the end of the buffer cannot be read.
proof fn lemma_class_past_end(d: Seq<u8>, h: Header, k: int, x: Seq<char>)
    requires
        0 <= k,
        def_end(h.classes.0 as int, k) > d.len(),
    ensures
        !class_named(d, h, k, x),
{
    reveal(class_named);
}

/// Appends to `names` the names of the classes of the DEX file `d` whose
/// definitions can be read.
fn add_class_names(d: &[u8], names: &mut Vec<String>)
    ensures
        forall|x: Seq<char>|
            #[trigger] string_seq_views(final(names)@).contains(x) <==> (string_seq_views(old(names)@).contains(x)
                || names_class_of(d@, x)),
{
    broadcast use lemma_seq_contains_after_push;

    let dex = match Dex::new(d) {
        Ok(dex) => dex,
        Err(_) => {
            return;
        },
    };
    let ghost h = dex.header;
    let ghost start = string_seq_views(names@);
    let (off, count) = dex.header.classes;
    // Definitions lie one after another: once one runs past the end, so do all later ones.
    let limit = defs_in_range(off, count, d.len());
    let mut idx: usize = 0;
    while idx < limit
        invariant
            dex.buf@ == d@,
            dex.header == h,
            (off, count) == h.classes,
            limit <= count,
            idx <= limit,
            forall|x: Seq<char>|
                #[trigger] string_seq_views(names@).contains(x) <==> (start.contains(x)
                    || class_named_below(d@, h, x, idx as int)),
        decreases limit - idx,
    {
        let ghost before = string_seq_views(names@);
        match class_name_at(&dex, idx) {
            Some(n) => {
                let ghost nv = n@;
                names.push(n);
                proof {
                    assert(string_seq_views(names@) =~= before.push(nv));
                    assert forall|x: Seq<char>| #[trigger] string_seq_views(names@).contains(x) <==> (start.contains(x)
                        || class_named_below(d@, h, x, idx + 1)) by {
                        lemma_class_named_below_step(d@, h, x, idx as int);
                        lemma_seq_contains_after_push(before, nv, x);
                        assert(class_named(dex.buf@, dex.header, idx as int, x) <==> x == nv);
                    }
                }
            },
            None => {
                proof {
                    assert(string_seq_views(names@) =~= before);
                    assert forall|x: Seq<char>| #[trigger] string_seq_views(names@).contains(x) <==> (start.contains(x)
                        || class_named_below(d@, h, x, idx + 1)) by {
                        lemma_class_named_below_step(d@, h, x, idx as int);
                        assert(!class_named(dex.buf@, dex.header, idx as int, x));
                    }
                }
            },
        }
        idx += 1;
    }
    proof {
        assert forall|x: Seq<char>| #[trigger] string_seq_views(names@).contains(x) <==> (start.contains(x)
            || names_class_of(d@, x)) by {
            if class_named_below(d@, h, x, count as int) {
                let k = choose|k: int| 0 <= k < count && #[trigger] class_named(d@, h, k, x);
                if k >= limit {
                    lemma_class_past_end(d@, h, k, x);
                }
            }
        }
    }
}

/// A name every dump looks up, whatever the APK holds.
pub open spec fn probe_name(x: Seq<char>) -> bool {
    x == "Ldoes/not/Exist;"@ || x == "Lcom/missing/TargetClass;"@ || x == "Lnonexistent/Cls;"@
}

/// Entry `i` was inflated and `x` names a class of its DEX file.
pub open spec fn entry_names(inflated: Seq<Result<Option<Inflated>, AscError>>, i: int, x: Seq<char>) -> bool {
    inflated[i] matches Ok(Some(d)) && names_class_of(d.data@, x)
}

/// `x` names a class of one of the first `n` entries inflated.
pub open spec fn entry_names_below(inflated: Seq<Result<Option<Inflated>, AscError>>, x: Seq<char>, n: int) -> bool {
    exists|i: int| 0 <= i < n && #[trigger] entry_names(inflated, i, x)
}

/// `x` is a name the DEX files of an APK are looked up for: the name of a
/// class of an entry inflated, a probe, or a name asked for.
pub open spec fn is_query_name(
    inflated: Seq<Result<Option<Inflated>, AscError>>,
    extras: Seq<Seq<char>>,
    x: Seq<char>,
) -> bool {
    ||| entry_names_below(inflated, x, inflated.len() as int)
    ||| probe_name(x)
    ||| extras.contains(x)
}

proof fn lemma_entry_names_below_step(inflated: Seq<Result<Option<Inflated>, AscError>>, x: Seq<char>, n: int)
    requires
        0 <= n,
    ensures
        entry_names_below(inflated, x, n + 1) <==> (entry_names_below(inflated, x, n) || entry_names(inflated, n, x)),
{
    if entry_names_below(inflated, x, n + 1) && !entry_names(inflated, n, x) {
        let k = choose|k: int| 0 <= k < n + 1 && #[trigger] entry_names(inflated, k, x);
        assert(k < n);
    }
}

/// The class names of the entries inflated.
fn inflated_class_names(inflated: &Vec<Result<Option<Inflated>, AscError>>) -> (r: Vec<String>)
    ensures
        forall|x: Seq<char>|
            #[trigger] string_seq_views(r@).contains(x) <==> entry_names_below(inflated@, x, inflated@.len() as int),
{
    let mut names: Vec<String> = Vec::new();
    let mut i: usize = 0;
    while i < inflated.len()
        invariant
            i <= inflated@.len(),
            forall|x: Seq<char>|
                #[trigger] string_seq_views(names@).contains(x) <==> entry_names_below(inflated@, x, i as int),
        decreases inflated@.len() - i,
    {
        match &inflated[i] {
            Ok(Some(d)) => {
                add_class_names(d.data.as_slice(), &mut names);
            },
            _ => {},
        }
        proof {
            assert forall|x: Seq<char>| #[trigger] string_seq_views(names@).contains(x) <==> entry_names_below(
                inflated@,
                x,
                i + 1,
            ) by {
                lemma_entry_names_below_step(inflated@, x, i as int);
            }
        }
        i += 1;
    }
    names
}

/// `v` with `more` appended: what it holds is what either holds.
fn append_names(v: &mut Vec<String>, more: &[String])
    ensures
        forall|x: Seq<char>|
            #[trigger] string_seq_views(final(v)@).contains(x) <==> (string_seq_views(old(v)@).contains(x)
                || string_seq_views(more@).contains(x)),
{
    broadcast use lemma_seq_contains_after_push;

    let ghost start = string_seq_views(v@);
    let ghost all = string_seq_views(more@);
    let mut j: usize = 0;
    while j < more.len()
        invariant
            j <= more@.len(),
            all == string_seq_views(more@),
            forall|x: Seq<char>|
                #[trigger] string_seq_views(v@).contains(x) <==> (start.contains(x) || all.subrange(
                    0,
                    j as int,
                ).contains(x)),
        decreases more@.len() - j,
    {
        let ghost before = string_seq_views(v@);
        v.push(more[j].clone());
        proof {
            assert(string_seq_views(v@) =~= before.push(all[j as int]));
            assert(all.subrange(0, j + 1) =~= all.subrange(0, j as int).push(all[j as int]));
            assert forall|x: Seq<char>| #[trigger] string_seq_views(v@).contains(x) <==> (start.contains(x)
                || all.subrange(0, j + 1).contains(x)) by {
                lemma_seq_contains_after_push(before, all[j as int], x);
                lemma_seq_contains_after_push(all.subrange(0, j as int), all[j as int], x);
            }
        }
        j += 1;
    }
    assert(all.subrange(0, more@.len() as int) =~= all);
}

/// The names to look up, sorted, each once.
pub fn query_list(inflated: &Vec<Result<Option<Inflated>, AscError>>, extras: &[String]) -> (r: Vec<String>)
    ensures
        strictly_sorted_names(string_seq_views(r@)),
        forall|x: Seq<char>|
            string_seq_views(r@).contains(x) <==> is_query_name(
                inflated@,
                string_seq_views(extras@),
                x,
            ),
{
    broadcast use lemma_seq_contains_after_push;

    let mut names = inflated_class_names(inflated);
    let probes = vec![
        String::from_str("Ldoes/not/Exist;"),
        String::from_str("Lcom/missing/TargetClass;"),
        String::from_str("Lnonexistent/Cls;"),
    ];
    proof {
        let pv = string_seq_views(probes@);
        assert(pv =~= seq!["Ldoes/not/Exist;"@, "Lcom/missing/TargetClass;"@, "Lnonexistent/Cls;"@]);
        assert forall|x: Seq<char>| pv.contains(x) <==> probe_name(x) by {
            if x == "Ldoes/not/Exist;"@ {
                assert(pv[0] == x);
            }
            if x == "Lcom/missing/TargetClass;"@ {
                assert(pv[1] == x);
            }
            if x == "Lnonexistent/Cls;"@ {
                assert(pv[2] == x);
            }
        }
    }
    append_names(&mut names, probes.as_slice());
    append_names(&mut names, extras);
    sorted_name_set(&names)
}

/// What the dump reports of whether a DEX file defines a class.
#[derive(Debug)]
pub struct DefinesRecord {
    /// The descriptor looked up.
    pub name: String,
    /// The type index of the descriptor, and whether a class definition is of
    /// that type; `None` when no type has the descriptor.
    pub outcome: Result<Option<(usize, bool)>, AscError>,
}

/// What the dump reports of whether the DEX file `d` defines the class `name`:
/// a definition that cannot be searched counts as none.
pub open spec fn spec_defines(d: Seq<u8>, name: Seq<char>) -> Result<Option<(usize, bool)>, AscError> {
    let q = mutf8_encoding(utf16_of_chars(name));
    match spec_find_type_idx_raw(d, q) {
        Err(e) => Err(e),
        Ok(None) => Ok(None),
        Ok(Some(t)) => Ok(Some((t, spec_dex_defines_class(d, q) == Ok::<bool, AscError>(true)))),
    }
}

/// Whether the DEX file `d` defines the class `name`.
fn defines_record(d: &[u8], name: &String) -> (r: DefinesRecord)
    ensures
        r.name@ == name@,
        r.outcome == spec_defines(d@, name@),
{
    let units = str_to_utf16(name.as_str());
    let q = encode_mutf8(units.as_slice());
    let outcome = match find_type_idx_raw(d, q.as_slice()) {
        Ok(Some(t)) => {
            let defined = match dex_defines_class_raw(d, q.as_slice()) {
                Ok(b) => b,
                Err(_) => false,
            };
            Ok(Some((t, defined)))
        },
        Ok(None) => Ok(None),
        Err(e) => Err(e),
    };
    DefinesRecord { name: name.clone(), outcome }
}

/// `r` holds, in order, whether the DEX file `d` defines each of `queries`.
pub open spec fn is_defines_list(d: Seq<u8>, queries: Seq<Seq<char>>, r: Seq<DefinesRecord>) -> bool {
    &&& r.len() == queries.len()
    &&& forall|k: int|
        0 <= k < queries.len() ==> (#[trigger] r[k]).name@ == queries[k] && r[k].outcome
            == spec_defines(d, queries[k])
}

/// Whether the DEX file `d` defines each of `queries`.
fn defines_records(d: &[u8], queries: &Vec<String>) -> (r: Vec<DefinesRecord>)
    ensures
        is_defines_list(d@, string_seq_views(queries@), r@),
{
    let mut r: Vec<DefinesRecord> = Vec::new();
    let mut k: usize = 0;
    while k < queries.len()
        invariant
            k <= queries@.len(),
            r@.len() == k,
            forall|m: int|
                0 <= m < k ==> (#[trigger] r@[m]).name@ == queries@[m]@ && r@[m].outcome
                    == spec_defines(d@, queries@[m]@),
        decreases queries@.len() - k,
    {
        r.push(defines_record(d, &queries[k]));
        k += 1;
    }
    r
}

/// One logical DEX file of an entry: its name, the digest of its bytes as
/// normalized, and its dump.
#[derive(Debug)]
pub struct LogicalDex {
    pub name: String,
    pub normalized_sha256: String,
    pub primitives: Result<DexReport, AscError>,
}

/// `l` reports the logical DEX file `b` named `name`, looked up for `queries`.
pub open spec fn is_logical_dex(name: Seq<char>, b: Seq<u8>, queries: Seq<Seq<char>>, l: LogicalDex) -> bool {
    &&& l.name@ == name
    &&& l.normalized_sha256@ == sha256_text(b)
    &&& match spec_parse_header(b) {
        Err(e) => l.primitives == Err::<DexReport, AscError>(e),
        Ok(h) => l.primitives matches Ok(rep) && is_dex_report(b, h, queries, rep),
    }
}

/// The bytes a `Cow` holds.
fn cow_bytes<'b>(c: &'b Cow<'_, [u8]>) -> (r: &'b [u8])
    ensures
        r@ == c@,
{
    match c {
        Cow::Borrowed(b) => b,
        Cow::Owned(v) => v.as_slice(),
    }
}

/// `r` reports each logical DEX file of the entry `name` holding `d`.
pub open spec fn is_logical_list(name: Seq<char>, d: Seq<u8>, queries: Seq<Seq<char>>, r: Seq<LogicalDex>) -> bool {
    let bufs = spec_logical_dex_buffers(name, d);
    &&& r.len() == bufs.len()
    &&& forall|j: int| 0 <= j < r.len() ==> is_logical_dex(bufs[j].0, bufs[j].1, queries, #[trigger] r[j])
}

/// The dump of each logical DEX file of the entry `name` holding `d`.
fn logical_dexes(name: &String, d: &[u8], queries: &Vec<String>) -> (r: Vec<LogicalDex>)
    ensures
        is_logical_list(name@, d@, string_seq_views(queries@), r@),
{
    let bufs = iter_logical_dex_buffers(name.as_str(), d);
    let ghost spec_bufs = spec_logical_dex_buffers(name@, d@);
    let mut r: Vec<LogicalDex> = Vec::new();
    let mut j: usize = 0;
    while j < bufs.len()
        invariant
            buffer_views(bufs@) == spec_bufs,
            spec_bufs == spec_logical_dex_buffers(name@, d@),
            j <= bufs@.len(),
            r@.len() == j,
            forall|m: int|
                0 <= m < j ==> is_logical_dex(
                    spec_bufs[m].0,
                    spec_bufs[m].1,
                    string_seq_views(queries@),
                    #[trigger] r@[m],
                ),
        decreases bufs@.len() - j,
    {
        let b = cow_bytes(&bufs[j].1);
        let normalized_sha256 = sha256_hex(b);
        let primitives = dump_dex_primitives(b, queries.as_slice());
        let ghost bv = spec_bufs[j as int];
        proof {
            assert(bv == (bufs@[j as int].0@, bufs@[j as int].1@));
        }
        r.push(LogicalDex { name: bufs[j].0.clone(), normalized_sha256, primitives });
        j += 1;
    }
    r
}

/// What the dump reports of one DEX entry of an APK, past inflating it.
#[derive(Debug)]
pub struct EntryReport {
    /// Whether the entry's DEX files define each class looked up.
    pub defines: Vec<DefinesRecord>,
    /// The entry is a DEX 041 container.
    pub is_041: bool,
    /// Where its logical DEX files start.
    pub logical_offsets: Vec<usize>,
    /// The dump of each of its logical DEX files.
    pub logical: Vec<LogicalDex>,
}

/// `e` reports the entry `name`, inflated as `inflated`, looked up for `queries`;
/// an entry that did not inflate has nothing to report.
pub open spec fn is_entry_report(
    name: Seq<char>,
    inflated: Result<Option<Inflated>, AscError>,
    queries: Seq<Seq<char>>,
    e: EntryReport,
) -> bool {
    match inflated {
        Ok(Some(x)) => {
            &&& is_defines_list(x.data@, queries, e.defines@)
            &&& e.is_041 == spec_is_dex041_container(x.data@)
            &&& e.logical_offsets@ == spec_dex041_logical_offsets(x.data@)
            &&& is_logical_list(name, x.data@, queries, e.logical@)
        },
        _ => {
            &&& e.defines@.len() == 0
            &&& !e.is_041
            &&& e.logical_offsets@.len() == 0
            &&& e.logical@.len() == 0
        },
    }
}

/// The report of the entry `name`, inflated as `inflated`.
fn entry_report(name: &String, inflated: &Result<Option<Inflated>, AscError>, queries: &Vec<String>) -> (r: EntryReport)
    ensures
        is_entry_report(name@, *inflated, string_seq_views(queries@), r),
{
    match inflated {
        Ok(Some(x)) => {
            let d = x.data.as_slice();
            EntryReport {
                defines: defines_records(d, queries),
                is_041: is_dex041_container(d),
                logical_offsets: dex041_logical_offsets(d),
                logical: logical_dexes(name, d, queries),
            }
        },
        _ => EntryReport {
            defines: Vec::new(),
            is_041: false,
            logical_offsets: Vec::new(),
            logical: Vec::new(),
        },
    }
}

/// Everything the dump reads from an APK.
#[derive(Debug)]
pub struct ApkReport {
    /// Its DEX entries, in order of compressed size.
    pub listing: EntryListing,
    /// Each entry inflated, in the same order.
    pub inflated: Vec<Result<Option<Inflated>, AscError>>,
    /// The class names looked up, sorted, each once.
    pub queries: Vec<String>,
    /// The report of each entry, in the same order.
    pub entries: Vec<EntryReport>,
}

/// `rep` reports the APK `s`, with `extras` looked up besides the names found.
pub open spec fn is_apk_report(s: Seq<u8>, extras: Seq<Seq<char>>, rep: ApkReport) -> bool {
    let entries = entry_views(rep.listing.entries@);
    let queries = string_seq_views(rep.queries@);
    &&& is_listing_of(s, rep.listing)
    &&& rep.inflated@.len() == entries.len()
    &&& rep.entries@.len() == entries.len()
    &&& forall|i: int| 0 <= i < entries.len() ==> is_inflated(s, entries[i], #[trigger] rep.inflated@[i])
    &&& strictly_sorted_names(queries)
    &&& forall|x: Seq<char>| #[trigger] queries.contains(x) <==> is_query_name(rep.inflated@, extras, x)
    &&& forall|i: int|
        0 <= i < entries.len() ==> is_entry_report(
            entries[i].name,
            rep.inflated@[i],
            queries,
            #[trigger] rep.entries@[i],
        )
}

/// Each entry of `entries` inflated.
fn inflate_entries(apk: &[u8], entries: &Vec<DexEntry>) -> (r: Vec<Result<Option<Inflated>, AscError>>)
    ensures
        r@.len() == entries@.len(),
        forall|i: int| 0 <= i < entries@.len() ==> is_inflated(apk@, entries@[i]@, #[trigger] r@[i]),
{
    let mut r: Vec<Result<Option<Inflated>, AscError>> = Vec::new();
    let mut i: usize = 0;
    while i < entries.len()
        invariant
            i <= entries@.len(),
            r@.len() == i,
            forall|m: int| 0 <= m < i ==> is_inflated(apk@, entries@[m]@, #[trigger] r@[m]),
        decreases entries@.len() - i,
    {
        r.push(inflate_with_digest(apk, &entries[i]));
        i += 1;
    }
    r
}

/// Everything the APK `apk` gives: its DEX entries in order of compressed
/// size, each inflated, the class names to look up (those of every DEX file,
/// a few that exist nowhere, and `extra_queries`), whether each DEX file
/// defines each of them, and the dump of each logical DEX file; the error
/// that stops listing the entries when one does.
pub fn dump_apk_primitives(apk: &[u8], extra_queries: &[String]) -> (r: Result<ApkReport, AscError>)
    ensures
        match listing_error(apk@) {
            Some(e) => r == Err::<ApkReport, AscError>(e),
            None => r matches Ok(rep) && is_apk_report(apk@, string_seq_views(extra_queries@), rep),
        },
{
    let listing = list_entries(apk)?;
    let inflated = inflate_entries(apk, &listing.entries);
    let queries = query_list(&inflated, extra_queries);
    let mut entries: Vec<EntryReport> = Vec::new();
    let mut i: usize = 0;
    while i < listing.entries.len()
        invariant
            i <= listing.entries@.len(),
            inflated@.len() == listing.entries@.len(),
            entries@.len() == i,
            forall|m: int|
                0 <= m < i ==> is_entry_report(
                    listing.entries@[m]@.name,
                    inflated@[m],
                    string_seq_views(queries@),
                    #[trigger] entries@[m],
                ),
        decreases listing.entries@.len() - i,
    {
        entries.push(entry_report(&listing.entries[i].name, &inflated[i], &queries));
        i += 1;
    }
    Ok(ApkReport { listing, inflated, queries, entries })
}

} // verus!
