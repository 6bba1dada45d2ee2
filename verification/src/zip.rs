//! The parts of the ZIP format an APK reader needs: the end of central
//! directory record and the central directory entries of top-level `.dex` files.
use crate::bytes::{le_u16, le_u32, u16_at, u32_at};
use crate::error::AscError;
use crate::text::{ascii_chars, lemma_ascii_utf8};
use crate::unicode::{
    lemma_decode_utf8_concat, lemma_decoded_ascii_from, lemma_kept_bytes_ascii_tail,
    lemma_kept_bytes_from, lemma_utf8_kept_bytes_valid, string_from_utf8, utf8_keep_valid,
    utf8_kept_bytes,
};
use vstd::prelude::*;
use vstd::utf8::decode_utf8;

verus! {

pub const EOCD_SIG: [u8; 4] = [0x50, 0x4b, 0x05, 0x06];

pub const CD_SIG: [u8; 4] = [0x50, 0x4b, 0x01, 0x02];

pub const LH_SIG: [u8; 4] = [0x50, 0x4b, 0x03, 0x04];

/// Size of a central directory file header before its name.
pub const CD_HEADER_LEN: usize = 46;

/// Size of the end of central directory record without its comment.
pub const EOCD_LEN: usize = 22;

/// How far back from the end the EOCD record may start: its own size plus the
/// longest comment it can carry.
pub const EOCD_SEARCH_WINDOW: usize = 65558;

#[derive(Debug, Clone, PartialEq, Eq)]
pub struct DexEntry {
    pub name: String,
    pub uncomp_size: u32,
    pub comp_size: u32,
    pub local_header_off: u32,
    pub method: u16,
}

/// A `DexEntry` with its name taken as characters.
pub struct DexEntryView {
    pub name: Seq<char>,
    pub uncomp_size: u32,
    pub comp_size: u32,
    pub local_header_off: u32,
    pub method: u16,
}

impl View for DexEntry {
    type V = DexEntryView;

    open spec fn view(&self) -> DexEntryView {
        DexEntryView {
            name: self.name@,
            uncomp_size: self.uncomp_size,
            comp_size: self.comp_size,
            local_header_off: self.local_header_off,
            method: self.method,
        }
    }
}

#[derive(Debug, Clone, Copy, PartialEq, Eq)]
pub struct Eocd {
    pub offset: usize,
    pub cd_size: usize,
    pub cd_off: usize,
}

/// What `decode_utf8_ignore` returns: the characters of the well-formed UTF-8
/// sequences in `s`, with every ill-formed byte left out.
pub open spec fn utf8_ignore(s: Seq<u8>) -> Seq<char> {
    decode_utf8(utf8_kept_bytes(s))
}

/// Decodes byte slice to String using UTF-8 with errors="ignore" behavior,
/// omitting any invalid byte sequences without replacing them.
pub fn decode_utf8_ignore(bytes: &[u8]) -> (r: String)
    ensures
        r@ == utf8_ignore(bytes@),
{
    let kept = utf8_keep_valid(bytes);
    proof {
        lemma_utf8_kept_bytes_valid(bytes@);
    }
    string_from_utf8(kept)
}

/// The four bytes at `p` are `sig`.
pub open spec fn sig_at(s: Seq<u8>, p: int, sig: Seq<u8>) -> bool {
    0 <= p && p + 4 <= s.len() && s.subrange(p, p + 4) == sig
}

/// The last position in `lo..=p` where the EOCD signature starts, searching down.
pub open spec fn eocd_sig_before(s: Seq<u8>, lo: int, p: int) -> Option<int>
    decreases p - lo + 1,
{
    if p < lo {
        None
    } else if sig_at(s, p, EOCD_SIG@) {
        Some(p)
    } else {
        eocd_sig_before(s, lo, p - 1)
    }
}

/// Where the EOCD search starts: `EOCD_SEARCH_WINDOW` bytes before the end, or
/// at the start of a shorter buffer.
pub open spec fn eocd_search_start(len: int) -> int {
    if len < EOCD_SEARCH_WINDOW {
        0
    } else {
        len - EOCD_SEARCH_WINDOW
    }
}

/// What `find_eocd` returns.
pub open spec fn spec_find_eocd(s: Seq<u8>) -> Result<Eocd, AscError> {
    if s.len() < EOCD_LEN {
        Err(AscError::EocdNotFound)
    } else {
        match eocd_sig_before(s, eocd_search_start(s.len() as int), s.len() - 4) {
            None => Err(AscError::EocdNotFound),
            Some(p) => if p + EOCD_LEN > s.len() {
                Err(AscError::BadEocdHeader)
            } else {
                let cd_size = le_u32(s, p + 12);
                let cd_off = le_u32(s, p + 16);
                if cd_off + cd_size > s.len() {
                    Err(AscError::BadCentralDirectoryRange)
                } else {
                    Ok(Eocd { offset: p as usize, cd_size: cd_size as usize, cd_off: cd_off as usize })
                }
            },
        }
    }
}

/// The four bytes at `p` are `sig`.
pub(crate) fn sig_matches(data: &[u8], p: usize, sig: &[u8; 4]) -> (r: bool)
    requires
        p + 4 <= data@.len(),
    ensures
        r == sig_at(data@, p as int, sig@),
{
    let r = data[p] == sig[0] && data[p + 1] == sig[1] && data[p + 2] == sig[2] && data[p + 3]
        == sig[3];
    proof {
        if r {
            assert(data@.subrange(p as int, p + 4) =~= sig@);
        } else {
            if data@.subrange(p as int, p + 4) == sig@ {
                assert(data@.subrange(p as int, p + 4)[0] == data@[p as int]);
                assert(data@.subrange(p as int, p + 4)[1] == data@[p + 1]);
                assert(data@.subrange(p as int, p + 4)[2] == data@[p + 2]);
                assert(data@.subrange(p as int, p + 4)[3] == data@[p + 3]);
            }
        }
    }
    r
}

/// Locates the EOCD (End of Central Directory) record in an APK / ZIP buffer.
///
/// Searches backward from the end in the last min(len, 65536 + 22) bytes.
pub fn find_eocd(data: &[u8]) -> (r: Result<Eocd, AscError>)
    ensures
        r == spec_find_eocd(data@),
{
    let len = data.len();
    if len < EOCD_LEN {
        return Err(AscError::EocdNotFound);
    }
    let search_start = if len < EOCD_SEARCH_WINDOW {
        0
    } else {
        len - EOCD_SEARCH_WINDOW
    };
    let mut p: usize = len - 4;
    let mut found: Option<usize> = None;
    loop
        invariant_except_break
            found is None,
            eocd_sig_before(data@, search_start as int, len - 4) == eocd_sig_before(
                data@,
                search_start as int,
                p as int,
            ),
        invariant
            len == data@.len(),
            len >= EOCD_LEN,
            search_start == eocd_search_start(len as int),
            search_start <= p + 1,
            p + 4 <= len,
        ensures
            found is None <==> eocd_sig_before(data@, search_start as int, len - 4) is None,
            found matches Some(q) ==> eocd_sig_before(data@, search_start as int, len - 4) == Some(
                q as int,
            ),
        decreases p + 1 - search_start,
    {
        if p < search_start {
            break;
        }
        if sig_matches(data, p, &EOCD_SIG) {
            found = Some(p);
            break;
        }
        if p == 0 {
            proof {
                assert(eocd_sig_before(data@, search_start as int, -1) is None);
            }
            break;
        }
        p = p - 1;
    }
    let pos = match found {
        Some(q) => q,
        None => {
            return Err(AscError::EocdNotFound);
        },
    };
    if pos > len - EOCD_LEN {
        return Err(AscError::BadEocdHeader);
    }
    let cd_size = match u32_at(data, pos + 12) {
        Some(v) => v as usize,
        None => {
            return Err(AscError::BadEocdHeader);
        },
    };
    let cd_off = match u32_at(data, pos + 16) {
        Some(v) => v as usize,
        None => {
            return Err(AscError::BadEocdHeader);
        },
    };
    if cd_off > len || cd_size > len - cd_off {
        return Err(AscError::BadCentralDirectoryRange);
    }
    Ok(Eocd { offset: pos, cd_size, cd_off })
}

/// The bytes of `classes`, which every DEX entry name of an APK starts with.
pub const CLASSES: [u8; 7] = [0x63, 0x6c, 0x61, 0x73, 0x73, 0x65, 0x73];

/// The bytes of `.dex`.
pub const DEX_SUFFIX: [u8; 4] = [0x2e, 0x64, 0x65, 0x78];

/// `classes` starts at `m`.
pub open spec fn classes_at(s: Seq<u8>, m: int) -> bool {
    0 <= m && m + 7 <= s.len() && s.subrange(m, m + 7) == CLASSES@
}

/// The first position `m >= p` with `classes` at `m` and `m + 7 <= end`.
pub open spec fn first_classes(s: Seq<u8>, p: int, end: int) -> Option<int>
    decreases end - p,
{
    if p < 0 || p + 7 > end {
        None
    } else if classes_at(s, p) {
        Some(p)
    } else {
        first_classes(s, p + 1, end)
    }
}

pub proof fn lemma_first_classes(s: Seq<u8>, p: int, end: int)
    ensures
        first_classes(s, p, end) matches Some(m) ==> p <= m && m + 7 <= end && classes_at(s, m),
    decreases end - p,
{
    if p >= 0 && p + 7 <= end && !classes_at(s, p) {
        lemma_first_classes(s, p + 1, end);
    }
}

/// A name an APK's DEX entry may have: it ends in `.dex` and has no `/`.
pub open spec fn dex_name_ok(name: Seq<u8>) -> bool {
    &&& name.len() >= 4
    &&& name.subrange(name.len() - 4, name.len() as int) == DEX_SUFFIX@
    &&& !name.contains(0x2f)
}

/// The entry described by the central directory header at `h` whose name
/// occupies `ns..ne`.
pub open spec fn cd_entry(s: Seq<u8>, h: int, ns: int, ne: int) -> DexEntryView {
    DexEntryView {
        name: utf8_ignore(s.subrange(ns, ne)),
        uncomp_size: le_u32(s, h + 24),
        comp_size: le_u32(s, h + 20),
        local_header_off: le_u32(s, h + 42),
        method: le_u16(s, h + 10),
    }
}

/// The header offset and name range of the central directory header whose
/// name starts with the `classes` found at `m`, when it lies inside
/// `cd_off..cd_end` and names a top-level `.dex` file.
pub open spec fn classes_header(s: Seq<u8>, cd_off: int, cd_end: int, m: int) -> Option<(int, int)> {
    if m < CD_HEADER_LEN || m - CD_HEADER_LEN < cd_off || m > cd_end || !sig_at(
        s,
        m - CD_HEADER_LEN,
        CD_SIG@,
    ) {
        None
    } else {
        let ne = m + le_u16(s, m - CD_HEADER_LEN + 28);
        if ne > cd_end || !dex_name_ok(s.subrange(m, ne)) {
            None
        } else {
            Some((m - CD_HEADER_LEN, ne))
        }
    }
}

/// Entries the search for `classes` finds from `p` on, keeping only the first
/// entry of each name; `seen` holds the names already kept.
pub open spec fn classes_scan(s: Seq<u8>, cd_off: int, cd_end: int, p: int, seen: Seq<Seq<u8>>) -> Seq<
    DexEntryView,
>
    decreases cd_end - p,
{
    match first_classes(s, p, cd_end) {
        None => seq![],
        Some(m) => {
            proof {
                lemma_first_classes(s, p, cd_end);
            }
            match classes_header(s, cd_off, cd_end, m) {
                Some((h, ne)) => if seen.contains(s.subrange(m, ne)) {
                    classes_scan(s, cd_off, cd_end, m + 7, seen)
                } else {
                    seq![cd_entry(s, h, m, ne)] + classes_scan(
                        s,
                        cd_off,
                        cd_end,
                        m + 7,
                        seen.push(s.subrange(m, ne)),
                    )
                },
                None => classes_scan(s, cd_off, cd_end, m + 7, seen),
            }
        },
    }
}

/// How far `p` is from `end`, and nothing once past it.
pub open spec fn remaining(end: int, p: int) -> int {
    if p < end {
        end - p
    } else {
        0
    }
}

/// Entries of the central directory read record by record from `ptr`, up to
/// the first record that does not fit or lacks the header signature.
pub open spec fn records_scan(s: Seq<u8>, cd_end: int, ptr: int) -> Seq<DexEntryView>
    decreases remaining(cd_end, ptr),
{
    if ptr + CD_HEADER_LEN > cd_end || !sig_at(s, ptr, CD_SIG@) {
        seq![]
    } else {
        let ns = ptr + CD_HEADER_LEN;
        let ne = ns + le_u16(s, ptr + 28);
        let next = ne + le_u16(s, ptr + 30) + le_u16(s, ptr + 32);
        if ne > cd_end {
            seq![]
        } else if dex_name_ok(s.subrange(ns, ne)) {
            seq![cd_entry(s, ptr, ns, ne)] + records_scan(s, cd_end, next)
        } else {
            records_scan(s, cd_end, next)
        }
    }
}

/// What `parse_cd_dex_entries_with_eocd` returns.
pub open spec fn spec_parse_cd(s: Seq<u8>, eocd: Eocd) -> Result<Seq<DexEntryView>, AscError> {
    let cd_off = eocd.cd_off as int;
    let cd_end = eocd.cd_off + eocd.cd_size;
    if cd_off > s.len() || cd_end > s.len() {
        Err(AscError::BadCentralDirectoryRange)
    } else {
        let found = classes_scan(s, cd_off, cd_end, cd_off, seq![]);
        if found.len() > 0 {
            Ok(found)
        } else {
            Ok(records_scan(s, cd_end, cd_off))
        }
    }
}

/// The characters `.dex`.
pub open spec fn dex_suffix_chars() -> Seq<char> {
    seq!['.', 'd', 'e', 'x']
}

/// The name of a top-level DEX file: it ends in `.dex` and holds no `/`.
pub open spec fn dex_file_name(name: Seq<char>) -> bool {
    &&& name.len() >= 4
    &&& name.subrange(name.len() - 4, name.len() as int) == dex_suffix_chars()
    &&& !name.contains('/')
}

/// A raw name that `dex_name_ok` accepts decodes, ill-formed bytes left out, to
/// the name of a top-level DEX file.
pub proof fn lemma_dex_name_decodes(raw: Seq<u8>)
    requires
        dex_name_ok(raw),
    ensures
        dex_file_name(utf8_ignore(raw)),
{
    let n = raw.len() as int;
    let p = raw.subrange(0, n - 4);
    let suffix = raw.subrange(n - 4, n);
    assert(raw =~= p + suffix);
    assert(suffix == DEX_SUFFIX@);
    assert forall|i: int| 0 <= i < suffix.len() implies #[trigger] suffix[i] < 0x80 by {
        assert(suffix[i] == DEX_SUFFIX@[i]);
    }
    lemma_kept_bytes_ascii_tail(p, suffix);
    lemma_utf8_kept_bytes_valid(p);
    lemma_ascii_utf8(suffix);
    lemma_decode_utf8_concat(utf8_kept_bytes(p), suffix);
    let head = decode_utf8(utf8_kept_bytes(p));
    let name = utf8_ignore(raw);
    assert(ascii_chars(suffix) =~= dex_suffix_chars());
    assert(name == head + dex_suffix_chars());
    assert(name.subrange(name.len() - 4, name.len() as int) =~= dex_suffix_chars());
    lemma_kept_bytes_from(raw, 0x2f);
    lemma_utf8_kept_bytes_valid(raw);
    lemma_decoded_ascii_from(utf8_kept_bytes(raw), 0x2f);
    assert('/' == (0x2fu8 as char));
}

proof fn lemma_classes_scan_names(s: Seq<u8>, cd_off: int, cd_end: int, p: int, seen: Seq<Seq<u8>>)
    ensures
        forall|i: int|
            0 <= i < classes_scan(s, cd_off, cd_end, p, seen).len() ==> dex_file_name(
                (#[trigger] classes_scan(s, cd_off, cd_end, p, seen)[i]).name,
            ),
    decreases cd_end - p,
{
    if let Some(m) = first_classes(s, p, cd_end) {
        lemma_first_classes(s, p, cd_end);
        match classes_header(s, cd_off, cd_end, m) {
            Some((h, ne)) => {
                if seen.contains(s.subrange(m, ne)) {
                    lemma_classes_scan_names(s, cd_off, cd_end, m + 7, seen);
                    assert(classes_scan(s, cd_off, cd_end, p, seen) == classes_scan(s, cd_off, cd_end, m + 7, seen));
                } else {
                    let rest = classes_scan(s, cd_off, cd_end, m + 7, seen.push(s.subrange(m, ne)));
                    lemma_classes_scan_names(s, cd_off, cd_end, m + 7, seen.push(s.subrange(m, ne)));
                    lemma_dex_name_decodes(s.subrange(m, ne));
                    let all = classes_scan(s, cd_off, cd_end, p, seen);
                    assert(all == seq![cd_entry(s, h, m, ne)] + rest);
                    assert forall|i: int| 0 <= i < all.len() implies dex_file_name((#[trigger] all[i]).name) by {
                        if i > 0 {
                            assert(all[i] == rest[i - 1]);
                        }
                    }
                }
            },
            None => {
                lemma_classes_scan_names(s, cd_off, cd_end, m + 7, seen);
                assert(classes_scan(s, cd_off, cd_end, p, seen) == classes_scan(s, cd_off, cd_end, m + 7, seen));
            },
        }
    }
}

proof fn lemma_records_scan_names(s: Seq<u8>, cd_end: int, ptr: int)
    ensures
        forall|i: int|
            0 <= i < records_scan(s, cd_end, ptr).len() ==> dex_file_name(
                (#[trigger] records_scan(s, cd_end, ptr)[i]).name,
            ),
    decreases remaining(cd_end, ptr),
{
    if !(ptr + CD_HEADER_LEN > cd_end || !sig_at(s, ptr, CD_SIG@)) {
        let ns = ptr + CD_HEADER_LEN;
        let ne = ns + le_u16(s, ptr + 28);
        let next = ne + le_u16(s, ptr + 30) + le_u16(s, ptr + 32);
        if ne <= cd_end {
            lemma_records_scan_names(s, cd_end, next);
            if dex_name_ok(s.subrange(ns, ne)) {
                lemma_dex_name_decodes(s.subrange(ns, ne));
                let rest = records_scan(s, cd_end, next);
                let all = records_scan(s, cd_end, ptr);
                assert(all == seq![cd_entry(s, ptr, ns, ne)] + rest);
                assert forall|i: int| 0 <= i < all.len() implies dex_file_name((#[trigger] all[i]).name) by {
                    if i > 0 {
                        assert(all[i] == rest[i - 1]);
                    }
                }
            } else {
                assert(records_scan(s, cd_end, ptr) == records_scan(s, cd_end, next));
            }
        }
    }
}

/// Every entry the central directory lists is a top-level DEX file: its name,
/// decoded with ill-formed bytes left out, ends in `.dex` and holds no `/`.
pub proof fn lemma_entries_are_dex_files(s: Seq<u8>, eocd: Eocd)
    ensures
        spec_parse_cd(s, eocd) matches Ok(es) ==> forall|i: int|
            0 <= i < es.len() ==> dex_file_name(#[trigger] es[i].name),
{
    let cd_off = eocd.cd_off as int;
    let cd_end = eocd.cd_off + eocd.cd_size;
    lemma_classes_scan_names(s, cd_off, cd_end, cd_off, seq![]);
    lemma_records_scan_names(s, cd_end, cd_off);
}

/// The views of a list of entries.
pub open spec fn entry_views(v: Seq<DexEntry>) -> Seq<DexEntryView> {
    v.map_values(|e: DexEntry| e@)
}

/// The views of a list of byte vectors.
pub open spec fn byte_views(v: Seq<Vec<u8>>) -> Seq<Seq<u8>> {
    v.map_values(|b: Vec<u8>| b@)
}

/// First position `m >= from` with `classes` at `m` and `m + 7 <= end`.
pub(crate) fn find_classes(data: &[u8], from: usize, end: usize) -> (r: Option<usize>)
    requires
        end <= data@.len(),
    ensures
        r is None <==> first_classes(data@, from as int, end as int) is None,
        r matches Some(m) ==> first_classes(data@, from as int, end as int) == Some(m as int),
{
    let mut p: usize = from;
    while p <= end && 7 <= end - p
        invariant
            end <= data@.len(),
            from <= p,
            first_classes(data@, from as int, end as int) == first_classes(
                data@,
                p as int,
                end as int,
            ),
        decreases end - p,
    {
        let hit = data[p] == CLASSES[0] && data[p + 1] == CLASSES[1] && data[p + 2] == CLASSES[2]
            && data[p + 3] == CLASSES[3] && data[p + 4] == CLASSES[4] && data[p + 5]
            == CLASSES[5] && data[p + 6] == CLASSES[6];
        proof {
            let w = data@.subrange(p as int, p + 7);
            if hit {
                assert(w =~= CLASSES@);
            } else if w == CLASSES@ {
                assert(w[0] == data@[p as int] && w[1] == data@[p + 1] && w[2] == data@[p + 2]
                    && w[3] == data@[p + 3] && w[4] == data@[p + 4] && w[5] == data@[p + 5]
                    && w[6] == data@[p + 6]);
            }
        }
        if hit {
            return Some(p);
        }
        p += 1;
    }
    None
}

/// `name` ends in `.dex` and has no `/`.
fn is_dex_name(name: &[u8]) -> (r: bool)
    ensures
        r == dex_name_ok(name@),
{
    let n = name.len();
    if n < 4 {
        return false;
    }
    let suffix = name[n - 4] == DEX_SUFFIX[0] && name[n - 3] == DEX_SUFFIX[1] && name[n - 2]
        == DEX_SUFFIX[2] && name[n - 1] == DEX_SUFFIX[3];
    proof {
        let w = name@.subrange(n - 4, n as int);
        if suffix {
            assert(w =~= DEX_SUFFIX@);
        } else if w == DEX_SUFFIX@ {
            assert(w[0] == name@[n - 4] && w[1] == name@[n - 3] && w[2] == name@[n - 2] && w[3]
                == name@[n - 1]);
        }
    }
    if !suffix {
        return false;
    }
    let mut i: usize = 0;
    while i < n
        invariant
            n == name@.len(),
            i <= n,
            forall|j: int| 0 <= j < i ==> name@[j] != 0x2f,
        decreases n - i,
    {
        if name[i] == 0x2f {
            proof {
                assert(name@[i as int] == 0x2f);
            }
            return false;
        }
        i += 1;
    }
    true
}

/// The two byte strings are equal.
fn bytes_equal(a: &[u8], b: &[u8]) -> (r: bool)
    ensures
        r == (a@ == b@),
{
    if a.len() != b.len() {
        return false;
    }
    let mut i: usize = 0;
    while i < a.len()
        invariant
            a@.len() == b@.len(),
            i <= a@.len(),
            forall|j: int| 0 <= j < i ==> a@[j] == b@[j],
        decreases a@.len() - i,
    {
        if a[i] != b[i] {
            return false;
        }
        i += 1;
    }
    assert(a@ =~= b@);
    true
}

/// `name` is one of `seen`.
fn seen_contains(seen: &Vec<Vec<u8>>, name: &[u8]) -> (r: bool)
    ensures
        r == byte_views(seen@).contains(name@),
{
    let mut i: usize = 0;
    while i < seen.len()
        invariant
            i <= seen@.len(),
            forall|j: int| 0 <= j < i ==> seen@[j]@ != name@,
        decreases seen@.len() - i,
    {
        if bytes_equal(seen[i].as_slice(), name) {
            proof {
                assert(byte_views(seen@)[i as int] == name@);
            }
            return true;
        }
        i += 1;
    }
    proof {
        if byte_views(seen@).contains(name@) {
            let j = choose|j: int| 0 <= j < byte_views(seen@).len() && byte_views(seen@)[j] == name@;
            assert(seen@[j]@ == name@);
        }
    }
    false
}

/// The entry described by the central directory header at `h` whose name
/// occupies `ns..ne`.
fn entry_at(data: &[u8], h: usize, ns: usize, ne: usize) -> (r: DexEntry)
    requires
        h + CD_HEADER_LEN <= data.len(),
        ns <= ne <= data.len(),
    ensures
        r@ == cd_entry(data@, h as int, ns as int, ne as int),
{
    DexEntry {
        name: decode_utf8_ignore(&data[ns..ne]),
        uncomp_size: u32_at(data, h + 24).unwrap(),
        comp_size: u32_at(data, h + 20).unwrap(),
        local_header_off: u32_at(data, h + 42).unwrap(),
        method: u16_at(data, h + 10).unwrap(),
    }
}

/// Parses DEX entries from the central directory of an APK.
///
/// First attempts a fast path searching for `classes` with deduplication.
/// If no entries are found, falls back to a sequential scan without deduplication.
pub fn parse_cd_dex_entries(data: &[u8]) -> (r: Result<Vec<DexEntry>, AscError>)
    ensures
        match spec_find_eocd(data@) {
            Err(e) => r == Err::<Vec<DexEntry>, AscError>(e),
            Ok(eocd) => match spec_parse_cd(data@, eocd) {
                Err(e) => r == Err::<Vec<DexEntry>, AscError>(e),
                Ok(entries) => r matches Ok(v) && entry_views(v@) == entries,
            },
        },
{
    let eocd = find_eocd(data)?;
    assert(eocd.cd_off + eocd.cd_size <= data.len());
    parse_cd_dex_entries_with_eocd(data, &eocd)
}

/// Parses DEX entries given a pre-located EOCD.
pub fn parse_cd_dex_entries_with_eocd(data: &[u8], eocd: &Eocd) -> (r: Result<
    Vec<DexEntry>,
    AscError,
>)
    requires
        eocd.cd_off + eocd.cd_size <= usize::MAX,
    ensures
        match spec_parse_cd(data@, *eocd) {
            Err(e) => r == Err::<Vec<DexEntry>, AscError>(e),
            Ok(entries) => r matches Ok(v) && entry_views(v@) == entries,
        },
{
    let cd_off = eocd.cd_off;
    let cd_end = cd_off + eocd.cd_size;
    if cd_off > data.len() || cd_end > data.len() {
        return Err(AscError::BadCentralDirectoryRange);
    }
    let ghost s = data@;
    let ghost co = cd_off as int;
    let ghost ce = cd_end as int;
    // Fast path: search for `classes` in the central directory with name deduplication.
    let mut entries: Vec<DexEntry> = Vec::new();
    let mut seen_names: Vec<Vec<u8>> = Vec::new();
    let mut search_pos: usize = cd_off;
    assert(byte_views(seen_names@) =~= Seq::<Seq<u8>>::empty());
    assert(entry_views(entries@) + classes_scan(s, co, ce, co, seq![]) =~= classes_scan(
        s,
        co,
        ce,
        co,
        seq![],
    ));
    loop
        invariant
            s == data@,
            co == cd_off,
            ce == cd_end,
            cd_off <= cd_end <= s.len(),
            cd_off <= search_pos,
            classes_scan(s, co, ce, co, seq![]) == entry_views(entries@) + classes_scan(
                s,
                co,
                ce,
                search_pos as int,
                byte_views(seen_names@),
            ),
        ensures
            classes_scan(s, co, ce, co, seq![]) == entry_views(entries@),
        decreases cd_end + 7 - search_pos,
    {
        let ghost before = entry_views(entries@);
        let ghost seen = byte_views(seen_names@);
        let ghost old_pos = search_pos as int;
        proof {
            lemma_first_classes(s, old_pos, ce);
        }
        let match_pos = match find_classes(data, search_pos, cd_end) {
            Some(m) => m,
            None => {
                assert(before + Seq::<DexEntryView>::empty() =~= before);
                break;
            },
        };
        search_pos = match_pos + 7;
        let ghost skip = classes_scan(s, co, ce, search_pos as int, seen);
        if match_pos < CD_HEADER_LEN {
            assert(classes_scan(s, co, ce, old_pos, seen) == skip);
            continue;
        }
        let header_off = match_pos - CD_HEADER_LEN;
        if header_off < cd_off || match_pos > cd_end {
            assert(classes_scan(s, co, ce, old_pos, seen) == skip);
            continue;
        }
        if !sig_matches(data, header_off, &CD_SIG) {
            assert(classes_scan(s, co, ce, old_pos, seen) == skip);
            continue;
        }
        let name_len = u16_at(data, header_off + 28).unwrap() as usize;
        if name_len > cd_end - match_pos {
            assert(classes_scan(s, co, ce, old_pos, seen) == skip);
            continue;
        }
        let name_end = match_pos + name_len;
        let name_bytes = &data[match_pos..name_end];
        if !is_dex_name(name_bytes) || seen_contains(&seen_names, name_bytes) {
            assert(classes_scan(s, co, ce, old_pos, seen) == skip);
            continue;
        }
        let entry = entry_at(data, header_off, match_pos, name_end);
        seen_names.push(vstd::slice::slice_to_vec(name_bytes));
        entries.push(entry);
        proof {
            let name = s.subrange(match_pos as int, name_end as int);
            assert(byte_views(seen_names@) =~= seen.push(name));
            assert(entry_views(entries@) =~= before.push(entry@));
            let rest = classes_scan(s, co, ce, search_pos as int, seen.push(name));
            assert(classes_scan(s, co, ce, old_pos, seen) == seq![entry@] + rest);
            assert(before + (seq![entry@] + rest) =~= before.push(entry@) + rest);
        }
    }
    if entries.len() > 0 {
        return Ok(entries);
    }
    // Fallback: sequential scan of central directory records without deduplication.
    let mut ptr: usize = cd_off;
    assert(entry_views(entries@) + records_scan(s, ce, co) =~= records_scan(s, ce, co));
    loop
        invariant_except_break
            records_scan(s, ce, co) == entry_views(entries@) + records_scan(s, ce, ptr as int),
        invariant
            s == data@,
            co == cd_off,
            ce == cd_end,
            cd_end <= s.len(),
        ensures
            records_scan(s, ce, co) == entry_views(entries@),
        decreases remaining(ce, ptr as int),
    {
        let ghost before = entry_views(entries@);
        let ghost here = ptr as int;
        if ptr > cd_end || cd_end - ptr < CD_HEADER_LEN {
            assert(before + Seq::<DexEntryView>::empty() =~= before);
            break;
        }
        if !sig_matches(data, ptr, &CD_SIG) {
            assert(before + Seq::<DexEntryView>::empty() =~= before);
            break;
        }
        let name_len = u16_at(data, ptr + 28).unwrap() as usize;
        let extra_len = u16_at(data, ptr + 30).unwrap() as usize;
        let comment_len = u16_at(data, ptr + 32).unwrap() as usize;
        let name_start = ptr + CD_HEADER_LEN;
        if name_len > cd_end - name_start {
            assert(before + Seq::<DexEntryView>::empty() =~= before);
            break;
        }
        let name_end = name_start + name_len;
        let ghost next = name_end + extra_len + comment_len;
        let ghost rest = records_scan(s, ce, next);
        let name_bytes = &data[name_start..name_end];
        if is_dex_name(name_bytes) {
            let entry = entry_at(data, ptr, name_start, name_end);
            entries.push(entry);
            proof {
                assert(records_scan(s, ce, here) == seq![entry@] + rest);
                assert(entry_views(entries@) =~= before.push(entry@));
                assert(before + (seq![entry@] + rest) =~= entry_views(entries@) + rest);
            }
        } else {
            assert(records_scan(s, ce, here) == rest);
        }
        match name_end.checked_add(extra_len) {
            Some(x) => match x.checked_add(comment_len) {
                Some(y) => {
                    ptr = y;
                },
                None => {
                    assert(rest == Seq::<DexEntryView>::empty());
                    assert(entry_views(entries@) + rest =~= entry_views(entries@));
                    break;
                },
            },
            None => {
                assert(rest == Seq::<DexEntryView>::empty());
                assert(entry_views(entries@) + rest =~= entry_views(entries@));
                break;
            },
        }
    }
    Ok(entries)
}

} // verus!
