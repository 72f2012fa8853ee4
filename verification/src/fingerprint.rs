//! Fingerprints of the files that derived data depends on.
//!
//! A report keeps the fingerprint of its file. A direct `_pqtdir/` input
//! follows its parquet files instead: rewriting `<TABLE>.parquet` in place may
//! leave the directory's own time and size unchanged, and what is derived from
//! it must still be rebuilt.
use crate::nsys_rep::{is_parquetdir, names_parquetdir};
use crate::order::{
    in_order_distinct, keys_of, lex_lt, lex_lt_irreflexive, lex_lt_transitive, numbers,
    placed_before, positions, sort_order, sort_order_covers, sort_order_exists, sort_order_of,
    ListKey, SortKey,
};
use vstd::prelude::*;

verus! {

/// What derived data was built from.
#[derive(Debug, Clone, Copy, PartialEq, Eq, Structural)]
pub struct SourceFingerprint {
    pub mtime_secs: i64,
    pub size: u64,
}

/// Where a hash starts.
pub const HASH_SEED: u64 = 0xcbf2_9ce4_8422_2325;

/// Factor of the hash.
pub const HASH_PRIME: u64 = 0x0000_0100_0000_01b3;

/// The hash with one more byte.
pub open spec fn mixed(hash: u64, byte: u8) -> u64 {
    (hash ^ (byte as u64)).wrapping_mul(HASH_PRIME)
}

/// The hash with these bytes behind it.
pub open spec fn hashed(hash: u64, bytes: Seq<u8>) -> u64
    decreases bytes.len(),
{
    if bytes.len() == 0 {
        hash
    } else {
        mixed(hashed(hash, bytes.drop_last()), bytes.last())
    }
}

/// The `n` lowest bytes of the value, lowest first.
pub open spec fn le_bytes(value: u64, n: nat) -> Seq<u8>
    decreases n,
{
    if n == 0 {
        seq![]
    } else {
        seq![(value % 256) as u8] + le_bytes(value / 256, (n - 1) as nat)
    }
}

/// Hashing one list of bytes behind another is hashing both.
pub proof fn hashed_in_turn(hash: u64, first: Seq<u8>, second: Seq<u8>)
    ensures
        hashed(hashed(hash, first), second) == hashed(hash, first + second),
    decreases second.len(),
{
    if second.len() == 0 {
        assert(first + second =~= first);
    } else {
        hashed_in_turn(hash, first, second.drop_last());
        assert((first + second).drop_last() =~= first + second.drop_last());
    }
}

/// Adds bytes to the hash.
pub fn hash_bytes(hash: &mut u64, bytes: &[u8])
    ensures
        *final(hash) == hashed(*old(hash), bytes@),
{
    let ghost start = *hash;
    let mut i: usize = 0;
    assert(bytes@.take(0) =~= seq![]);
    while i < bytes.len()
        invariant
            i <= bytes.len(),
            *hash == hashed(start, bytes@.take(i as int)),
        decreases bytes.len() - i,
    {
        assert(bytes@.take(i + 1).drop_last() =~= bytes@.take(i as int));
        *hash = (*hash ^ (bytes[i] as u64)).wrapping_mul(HASH_PRIME);
        i = i + 1;
    }
    assert(bytes@.take(bytes.len() as int) =~= bytes@);
}

fn hash_low_bytes(hash: &mut u64, value: u64, n: u32)
    ensures
        *final(hash) == hashed(*old(hash), le_bytes(value, n as nat)),
    decreases n,
{
    if n > 0 {
        let ghost start = *hash;
        let byte: u8 = (value % 256) as u8;
        *hash = (*hash ^ (byte as u64)).wrapping_mul(HASH_PRIME);
        proof {
            assert(seq![byte].drop_last() =~= seq![]);
            assert(hashed(start, seq![byte]) == mixed(hashed(start, seq![]), byte));
            hashed_in_turn(start, seq![byte], le_bytes(value / 256, (n - 1) as nat));
        }
        hash_low_bytes(hash, value / 256, n - 1);
    }
}

/// Adds an integer to the hash.
pub fn hash_u64(hash: &mut u64, value: u64)
    ensures
        *final(hash) == hashed(*old(hash), le_bytes(value, 8)),
{
    hash_low_bytes(hash, value, 8);
}

/// Adds a signed integer to the hash, by its bits.
pub fn hash_i64(hash: &mut u64, value: i64)
    ensures
        *final(hash) == hashed(*old(hash), le_bytes(value as u64, 8)),
{
    hash_low_bytes(hash, value as u64, 8);
}

/// Adds a short integer to the hash.
pub fn hash_u32(hash: &mut u64, value: u32)
    ensures
        *final(hash) == hashed(*old(hash), le_bytes(value as u64, 4)),
{
    hash_low_bytes(hash, value as u64, 4);
}

/// When a file was last written.
#[derive(Debug, Clone, Copy, PartialEq, Eq, Structural)]
pub struct ModifiedTime {
    pub secs: i64,
    pub nanos: u32,
}

/// One file of a directory.
#[derive(Debug)]
pub struct DirFile {
    /// The bytes of its name.
    pub name: Vec<u8>,
    /// Whether the name is text.
    pub is_text: bool,
    /// What is known of the file.
    pub state: FileState,
}

/// What is known of a file.
#[derive(Debug, Clone, Copy, PartialEq, Eq, Structural)]
pub struct FileState {
    /// Its length in bytes.
    pub len: u64,
    /// When it was last written, where that can be told.
    pub modified: Option<ModifiedTime>,
}

/// A file of a directory, by its name.
pub struct DirFileView {
    pub name: Seq<u8>,
    pub is_text: bool,
    pub state: FileState,
}

impl View for DirFile {
    type V = DirFileView;

    open spec fn view(&self) -> DirFileView {
        DirFileView {
            name: self.name@,
            is_text: self.is_text,
            state: self.state,
        }
    }
}

/// The files by their names.
pub open spec fn file_views(files: Seq<DirFile>) -> Seq<DirFileView> {
    files.map_values(|f: DirFile| f@)
}

/// `.parquet`
pub open spec fn parquet_suffix() -> Seq<u8> {
    seq![46, 112, 97, 114, 113, 117, 101, 116]
}

/// The name has the extension `parquet`.
pub open spec fn is_parquet_name(name: Seq<u8>) -> bool {
    name.len() > 8 && name.skip(name.len() - 8) == parquet_suffix()
}

/// The places among the first `n` of names with the extension `parquet`.
pub open spec fn kept_places(names: Seq<Seq<u8>>, n: nat) -> Seq<int>
    decreases n,
{
    if n == 0 {
        seq![]
    } else if is_parquet_name(names[n - 1]) {
        kept_places(names, (n - 1) as nat).push(n - 1)
    } else {
        kept_places(names, (n - 1) as nat)
    }
}

/// Bytes as integers.
pub open spec fn byte_codes(bytes: Seq<u8>) -> Seq<int> {
    bytes.map_values(|b: u8| b as int)
}

/// The sort keys of the names at these places.
pub open spec fn name_keys(names: Seq<Seq<u8>>, places: Seq<int>) -> Seq<Seq<int>> {
    places.map_values(|i: int| byte_codes(names[i]))
}

/// The places of the names with the extension `parquet`, by name.
pub open spec fn parquet_order_of(names: Seq<Seq<u8>>) -> Seq<int> {
    let kept = kept_places(names, names.len());
    sort_order_of(name_keys(names, kept)).map_values(|x: int| kept[x])
}

/// The names of the files.
pub open spec fn file_names(files: Seq<DirFileView>) -> Seq<Seq<u8>> {
    files.map_values(|f: DirFileView| f.name)
}

/// The parquet files of the directory, in the order in which it lists them.
pub open spec fn parquet_files(files: Seq<DirFileView>) -> Seq<DirFileView> {
    kept_places(file_names(files), files.len()).map_values(|i: int| files[i])
}

/// The parquet files of the directory, by name.
pub open spec fn parquet_listing(files: Seq<DirFileView>) -> Seq<DirFileView> {
    parquet_order_of(file_names(files)).map_values(|i: int| files[i])
}

/// The hash with one file behind it.
pub open spec fn file_hashed(hash: u64, file: DirFileView) -> u64 {
    let named = if file.is_text {
        hashed(hashed(hash, le_bytes(file.name.len() as u64, 8)), file.name)
    } else {
        hash
    };
    let sized = hashed(named, le_bytes(file.state.len, 8));
    match file.state.modified {
        Some(time) => hashed(
            hashed(sized, le_bytes(time.secs as u64, 8)),
            le_bytes(time.nanos as u64, 4),
        ),
        None => sized,
    }
}

/// The hash with these files behind it.
pub open spec fn files_hashed(hash: u64, files: Seq<DirFileView>) -> u64
    decreases files.len(),
{
    if files.len() == 0 {
        hash
    } else {
        file_hashed(files_hashed(hash, files.drop_last()), files.last())
    }
}

/// The latest second in which one of the files was written; 0 where there is
/// none later.
pub open spec fn newest_secs(files: Seq<DirFileView>) -> i64
    decreases files.len(),
{
    if files.len() == 0 {
        0
    } else {
        let before = newest_secs(files.drop_last());
        match files.last().state.modified {
            Some(time) => if time.secs > before {
                time.secs
            } else {
                before
            },
            None => before,
        }
    }
}

/// The fingerprint of a directory with these files.
pub open spec fn dir_fingerprint(files: Seq<DirFileView>) -> SourceFingerprint {
    let listed = parquet_listing(files);
    SourceFingerprint {
        mtime_secs: newest_secs(listed),
        size: files_hashed(hashed(HASH_SEED, le_bytes(listed.len() as u64, 8)), listed),
    }
}

/// Whether the name has the extension `parquet`.
fn has_parquet_name(name: &Vec<u8>) -> (b: bool)
    ensures
        b == is_parquet_name(name@),
{
    let n: usize = name.len();
    if n <= 8 {
        return false;
    }
    let ghost tail = name@.skip(n - 8);
    let b = name[n - 8] == 46 && name[n - 7] == 112 && name[n - 6] == 97 && name[n - 5] == 114
        && name[n - 4] == 113 && name[n - 3] == 117 && name[n - 2] == 101 && name[n - 1] == 116;
    proof {
        if b {
            assert(tail =~= parquet_suffix());
        } else {
            assert(tail[0] == name@[n - 8] && tail[1] == name@[n - 7] && tail[2] == name@[n - 6]
                && tail[3] == name@[n - 5] && tail[4] == name@[n - 4] && tail[5] == name@[n - 3]
                && tail[6] == name@[n - 2] && tail[7] == name@[n - 1]);
        }
    }
    b
}

fn name_key(name: &Vec<u8>) -> (key: ListKey)
    ensures
        key.sort_key() == byte_codes(name@),
{
    let mut parts: Vec<i128> = Vec::new();
    let mut i: usize = 0;
    while i < name.len()
        invariant
            i <= name.len(),
            parts.len() == i,
            forall|x: int| 0 <= x < i ==> #[trigger] parts@[x] == name@[x],
        decreases name.len() - i,
    {
        parts.push(name[i] as i128);
        i = i + 1;
    }
    let key = ListKey { parts };
    assert(numbers(key.parts@) =~= byte_codes(name@));
    key
}

fn hash_file(hash: &mut u64, file: &DirFile)
    ensures
        *final(hash) == file_hashed(*old(hash), file@),
{
    if file.is_text {
        hash_u64(hash, file.name.len() as u64);
        hash_bytes(hash, file.name.as_slice());
    }
    hash_u64(hash, file.state.len);
    if let Some(time) = file.state.modified {
        hash_i64(hash, time.secs);
        hash_u32(hash, time.nanos);
    }
}

/// Names as bytes.
pub open spec fn names_as_bytes(names: Seq<Vec<u8>>) -> Seq<Seq<u8>> {
    names.map_values(|n: Vec<u8>| n@)
}

proof fn kept_places_bound(names: Seq<Seq<u8>>, n: nat)
    requires
        n <= names.len(),
    ensures
        forall|x: int|
            0 <= x < kept_places(names, n).len() ==> 0 <= #[trigger] kept_places(names, n)[x] < n,
    decreases n,
{
    if n > 0 {
        kept_places_bound(names, (n - 1) as nat);
        let before = kept_places(names, (n - 1) as nat);
        let kept = kept_places(names, n);
        assert forall|x: int| 0 <= x < kept.len() implies 0 <= #[trigger] kept[x] < n by {
            if x < before.len() {
                assert(kept[x] == before[x]);
            }
        }
    }
}

/// The places of the names with the extension `parquet`, by name.
pub fn parquet_order(names: &Vec<Vec<u8>>) -> (places: Vec<usize>)
    ensures
        positions(places@) == parquet_order_of(names_as_bytes(names@)),
        forall|x: int| 0 <= x < places@.len() ==> 0 <= #[trigger] places@[x] < names@.len(),
{
    let ghost bytes = names_as_bytes(names@);
    let mut kept: Vec<usize> = Vec::new();
    let mut keys: Vec<ListKey> = Vec::new();
    let mut i: usize = 0;
    assert(positions(kept@) =~= kept_places(bytes, 0));
    while i < names.len()
        invariant
            i <= names.len(),
            bytes == names_as_bytes(names@),
            kept.len() == keys.len(),
            positions(kept@) == kept_places(bytes, i as nat),
            forall|x: int| 0 <= x < kept.len() ==> 0 <= #[trigger] kept@[x] < names@.len(),
            forall|x: int|
                0 <= x < keys.len() ==> (#[trigger] keys@[x]).sort_key() == byte_codes(
                    bytes[kept@[x] as int],
                ),
        decreases names.len() - i,
    {
        assert(bytes[i as int] == names@[i as int]@);
        let ghost before = kept@;
        if has_parquet_name(&names[i]) {
            keys.push(name_key(&names[i]));
            kept.push(i);
            assert(positions(kept@) =~= positions(before).push(i as int));
        }
        i = i + 1;
    }
    let ghost all = kept_places(bytes, bytes.len());
    assert(keys_of(keys@) =~= name_keys(bytes, all)) by {
        assert forall|x: int| 0 <= x < all.len() implies keys_of(keys@)[x] == #[trigger] name_keys(
            bytes,
            all,
        )[x] by {
            assert(positions(kept@)[x] == kept@[x]);
            assert(keys_of(keys@)[x] == keys@[x].sort_key());
        }
    }
    let order = sort_order(keys.as_slice());
    assert forall|x: int| 0 <= x < order.len() implies 0 <= #[trigger] order@[x] < all.len() by {
        assert(0 <= positions(order@)[x] < all.len());
    }
    let mut places: Vec<usize> = Vec::new();
    let mut j: usize = 0;
    let ghost wanted = parquet_order_of(bytes);
    while j < order.len()
        invariant
            j <= order.len(),
            places.len() == j,
            all == kept_places(bytes, bytes.len()),
            positions(kept@) == all,
            kept.len() == all.len(),
            positions(order@) == sort_order_of(name_keys(bytes, all)),
            wanted == parquet_order_of(bytes),
            wanted.len() == order.len(),
            forall|x: int| 0 <= x < order.len() ==> 0 <= #[trigger] order@[x] < all.len(),
            forall|x: int| 0 <= x < kept.len() ==> 0 <= #[trigger] kept@[x] < names@.len(),
            forall|x: int|
                0 <= x < j ==> #[trigger] places@[x] == wanted[x] && 0 <= places@[x]
                    < names@.len(),
        decreases order.len() - j,
    {
        assert(positions(order@)[j as int] == order@[j as int]);
        assert(positions(kept@)[order@[j as int] as int] == kept@[order@[j as int] as int]);
        places.push(kept[order[j]]);
        j = j + 1;
    }
    assert(positions(places@) =~= wanted);
    places
}

/// The places of the parquet files of the directory, by name.
fn parquet_places(files: &Vec<DirFile>) -> (places: Vec<usize>)
    ensures
        places@.len() == parquet_listing(file_views(files@)).len(),
        forall|x: int|
            0 <= x < places@.len() ==> 0 <= #[trigger] places@[x] < files@.len() && files@[places@[x]
                as int]@ == parquet_listing(file_views(files@))[x],
{
    let mut names: Vec<Vec<u8>> = Vec::with_capacity(files.len());
    let mut i: usize = 0;
    while i < files.len()
        invariant
            i <= files.len(),
            names.len() == i,
            forall|x: int| 0 <= x < i ==> (#[trigger] names@[x])@ == files@[x].name@,
        decreases files.len() - i,
    {
        names.push(copied_bytes(&files[i].name));
        i = i + 1;
    }
    assert(names_as_bytes(names@) =~= file_names(file_views(files@)));
    let places = parquet_order(&names);
    assert forall|x: int| 0 <= x < places@.len() implies files@[(#[trigger] places@[x]) as int]@
        == parquet_listing(file_views(files@))[x] by {
        assert(positions(places@)[x] == places@[x]);
        assert(file_views(files@)[places@[x] as int] == files@[places@[x] as int]@);
    }
    assert(positions(places@).len() == places@.len());
    places
}

/// A copy of the bytes.
pub fn copied_bytes(bytes: &Vec<u8>) -> (copy: Vec<u8>)
    ensures
        copy@ == bytes@,
{
    let mut copy: Vec<u8> = Vec::with_capacity(bytes.len());
    let mut i: usize = 0;
    while i < bytes.len()
        invariant
            i <= bytes.len(),
            copy@ =~= bytes@.take(i as int),
        decreases bytes.len() - i,
    {
        copy.push(bytes[i]);
        i = i + 1;
    }
    assert(copy@ =~= bytes@);
    copy
}

/// The fingerprint of a directory with these files, in any order.
pub fn parquetdir_fingerprint(files: &Vec<DirFile>) -> (fingerprint: SourceFingerprint)
    ensures
        fingerprint == dir_fingerprint(file_views(files@)),
{
    let places = parquet_places(files);
    let ghost listed = parquet_listing(file_views(files@));
    let mut hash: u64 = HASH_SEED;
    hash_u64(&mut hash, places.len() as u64);
    let ghost start = hash;
    let mut newest: i64 = 0;
    let mut i: usize = 0;
    assert(listed.take(0) =~= seq![]);
    while i < places.len()
        invariant
            i <= places.len(),
            places.len() == listed.len(),
            forall|x: int|
                0 <= x < places@.len() ==> 0 <= #[trigger] places@[x] < files@.len()
                    && files@[places@[x] as int]@ == listed[x],
            hash == files_hashed(start, listed.take(i as int)),
            newest == newest_secs(listed.take(i as int)),
        decreases places.len() - i,
    {
        let file = &files[places[i]];
        assert(listed.take(i + 1).drop_last() =~= listed.take(i as int));
        hash_file(&mut hash, file);
        if let Some(time) = file.state.modified {
            if time.secs > newest {
                newest = time.secs;
            }
        }
        i = i + 1;
    }
    assert(listed.take(places.len() as int) =~= listed);
    SourceFingerprint { mtime_secs: newest, size: hash }
}

/// No two of the files have the same name.
pub open spec fn names_differ(files: Seq<DirFileView>) -> bool {
    forall|i: int, j: int|
        0 <= i < j < files.len() ==> #[trigger] files[i].name != #[trigger] files[j].name
}

/// The two listings hold the same files.
pub open spec fn same_files(a: Seq<DirFileView>, b: Seq<DirFileView>) -> bool {
    forall|f: DirFileView| #[trigger] a.contains(f) <==> b.contains(f)
}

/// The files stand by strictly growing names.
pub open spec fn by_name(files: Seq<DirFileView>) -> bool {
    forall|i: int, j: int|
        0 <= i < j < files.len() ==> lex_lt(
            byte_codes(#[trigger] files[i].name),
            byte_codes(#[trigger] files[j].name),
        )
}

proof fn kept_places_are_those(names: Seq<Seq<u8>>, n: nat)
    requires
        n <= names.len(),
    ensures
        forall|i: int| #[trigger]
            kept_places(names, n).contains(i) <==> 0 <= i < n && is_parquet_name(names[i]),
        kept_places(names, n).no_duplicates(),
    decreases n,
{
    let kept = kept_places(names, n);
    if n > 0 {
        let before = kept_places(names, (n - 1) as nat);
        kept_places_are_those(names, (n - 1) as nat);
        kept_places_bound(names, (n - 1) as nat);
        assert forall|i: int| #[trigger] kept.contains(i) <==> 0 <= i < n && is_parquet_name(
            names[i],
        ) by {
            if kept.contains(i) {
                let x = choose|x: int| 0 <= x < kept.len() && kept[x] == i;
                if x < before.len() {
                    assert(before[x] == i);
                    assert(before.contains(i));
                }
            }
            if 0 <= i < n && is_parquet_name(names[i]) {
                if i < n - 1 {
                    assert(before.contains(i));
                    let x = choose|x: int| 0 <= x < before.len() && before[x] == i;
                    assert(kept[x] == i);
                } else {
                    assert(kept.last() == i);
                }
            }
        }
    }
}

pub(crate) proof fn listing_is_by_name(files: Seq<DirFileView>)
    requires
        names_differ(files),
    ensures
        by_name(parquet_listing(files)),
        forall|f: DirFileView| #[trigger]
            parquet_listing(files).contains(f) <==> files.contains(f) && is_parquet_name(f.name),
{
    let names = file_names(files);
    let kept = kept_places(names, names.len());
    let keys = name_keys(names, kept);
    let order = sort_order_of(keys);
    let listed = parquet_listing(files);
    kept_places_are_those(names, names.len());
    kept_places_bound(names, names.len());
    sort_order_exists(keys);
    sort_order_covers(keys, order);
    in_order_distinct(keys, order);
    assert forall|i: int, j: int| 0 <= i < j < listed.len() implies lex_lt(
        byte_codes(#[trigger] listed[i].name),
        byte_codes(#[trigger] listed[j].name),
    ) by {
        assert(placed_before(keys, order[i], order[j]));
        let x = kept[order[i]];
        let y = kept[order[j]];
        assert(listed[i] == files[x]);
        assert(listed[j] == files[y]);
        assert(order[i] != order[j]);
        assert(x != y);
        let a = files[x].name;
        let b = files[y].name;
        assert(names[x] == a && names[y] == b);
        assert(a != b);
        assert(keys[order[i]] == byte_codes(a));
        assert(keys[order[j]] == byte_codes(b));
        if byte_codes(a) == byte_codes(b) {
            assert(byte_codes(a).len() == a.len() && byte_codes(b).len() == b.len());
            assert forall|k: int| 0 <= k < a.len() implies a[k] == b[k] by {
                assert(byte_codes(a)[k] == byte_codes(b)[k]);
            }
            assert(a =~= b);
        }
    }
    assert forall|f: DirFileView| #[trigger] listed.contains(f) <==> files.contains(f)
        && is_parquet_name(f.name) by {
        if listed.contains(f) {
            let x = choose|x: int| 0 <= x < listed.len() && listed[x] == f;
            let i = kept[order[x]];
            assert(kept.contains(i));
            assert(files[i] == f);
            assert(names[i] == f.name);
        }
        if files.contains(f) && is_parquet_name(f.name) {
            let i = choose|i: int| 0 <= i < files.len() && files[i] == f;
            assert(names[i] == f.name);
            assert(kept.contains(i));
            let k = choose|k: int| 0 <= k < kept.len() && kept[k] == i;
            assert(order.contains(k));
            let x = choose|x: int| 0 <= x < order.len() && order[x] == k;
            assert(listed[x] == f);
        }
    }
}

proof fn by_name_unique(a: Seq<DirFileView>, b: Seq<DirFileView>)
    requires
        by_name(a),
        by_name(b),
        same_files(a, b),
    ensures
        a == b,
    decreases a.len(),
{
    if a.len() == 0 {
        if b.len() > 0 {
            assert(b.contains(b[0]));
            assert(a.contains(b[0]));
        }
        assert(a =~= b);
    } else {
        assert(a.contains(a[0]));
        assert(b.contains(a[0]));
        let j = choose|j: int| 0 <= j < b.len() && b[j] == a[0];
        assert(b.contains(b[0]));
        assert(a.contains(b[0]));
        let i = choose|i: int| 0 <= i < a.len() && a[i] == b[0];
        if j > 0 {
            assert(lex_lt(byte_codes(b[0].name), byte_codes(b[j].name)));
            lex_lt_irreflexive(byte_codes(a[0].name));
            if i > 0 {
                assert(lex_lt(byte_codes(a[0].name), byte_codes(a[i].name)));
                lex_lt_transitive(
                    byte_codes(a[0].name),
                    byte_codes(b[0].name),
                    byte_codes(a[0].name),
                );
            }
        }
        assert(a[0] == b[0]);
        lex_lt_irreflexive(byte_codes(a[0].name));
        let x = a.drop_first();
        let y = b.drop_first();
        assert forall|p: int, q: int| 0 <= p < q < x.len() implies lex_lt(
            byte_codes(#[trigger] x[p].name),
            byte_codes(#[trigger] x[q].name),
        ) by {
            assert(lex_lt(byte_codes(a[p + 1].name), byte_codes(a[q + 1].name)));
        }
        assert forall|p: int, q: int| 0 <= p < q < y.len() implies lex_lt(
            byte_codes(#[trigger] y[p].name),
            byte_codes(#[trigger] y[q].name),
        ) by {
            assert(lex_lt(byte_codes(b[p + 1].name), byte_codes(b[q + 1].name)));
        }
        assert forall|f: DirFileView| #[trigger] x.contains(f) <==> y.contains(f) by {
            if x.contains(f) {
                let p = choose|p: int| 0 <= p < x.len() && x[p] == f;
                assert(a[p + 1] == f);
                assert(lex_lt(byte_codes(a[0].name), byte_codes(a[p + 1].name)));
                assert(a.contains(f));
                assert(b.contains(f));
                let q = choose|q: int| 0 <= q < b.len() && b[q] == f;
                assert(y[q - 1] == f);
            }
            if y.contains(f) {
                let p = choose|p: int| 0 <= p < y.len() && y[p] == f;
                assert(b[p + 1] == f);
                assert(lex_lt(byte_codes(b[0].name), byte_codes(b[p + 1].name)));
                assert(b.contains(f));
                assert(a.contains(f));
                let q = choose|q: int| 0 <= q < a.len() && a[q] == f;
                assert(x[q - 1] == f);
            }
        }
        by_name_unique(x, y);
        assert(b.len() > 0);
        assert(a =~= seq![a[0]] + x);
        assert(b =~= seq![b[0]] + y);
    }
}

/// The fingerprint of a directory depends on the files in it, not on the order
/// in which they are listed.
pub proof fn fingerprint_ignores_listing_order(a: Seq<DirFileView>, b: Seq<DirFileView>)
    requires
        names_differ(a),
        names_differ(b),
        same_files(a, b),
    ensures
        dir_fingerprint(a) == dir_fingerprint(b),
{
    listing_is_by_name(a);
    listing_is_by_name(b);
    let x = parquet_listing(a);
    let y = parquet_listing(b);
    assert forall|f: DirFileView| #[trigger] x.contains(f) <==> y.contains(f) by {
        assert(a.contains(f) <==> b.contains(f));
        assert(x.contains(f) <==> a.contains(f) && is_parquet_name(f.name));
        assert(y.contains(f) <==> b.contains(f) && is_parquet_name(f.name));
    }
    by_name_unique(x, y);
}

/// Files that are no tables do not count: the fingerprint is that of the
/// parquet files alone.
pub proof fn other_files_do_not_count(files: Seq<DirFileView>)
    requires
        names_differ(files),
    ensures
        dir_fingerprint(files) == dir_fingerprint(parquet_files(files)),
{
    let names = file_names(files);
    let places = kept_places(names, names.len());
    let kept = parquet_files(files);
    kept_places_are_those(names, names.len());
    kept_places_bound(names, names.len());
    assert forall|i: int, j: int| 0 <= i < j < kept.len() implies #[trigger] kept[i].name
        != #[trigger] kept[j].name by {
        let x = places[i];
        let y = places[j];
        assert(x != y);
        assert(kept[i] == files[x] && kept[j] == files[y]);
        if x < y {
            assert(files[x].name != files[y].name);
        } else {
            assert(files[y].name != files[x].name);
        }
    }
    listing_is_by_name(files);
    listing_is_by_name(kept);
    let x = parquet_listing(files);
    let y = parquet_listing(kept);
    assert forall|f: DirFileView| #[trigger] x.contains(f) <==> y.contains(f) by {
        if x.contains(f) {
            assert(files.contains(f) && is_parquet_name(f.name));
            let i = choose|i: int| 0 <= i < files.len() && files[i] == f;
            assert(names[i] == f.name);
            assert(places.contains(i));
            let k = choose|k: int| 0 <= k < places.len() && places[k] == i;
            assert(kept[k] == f);
            assert(kept.contains(f));
        }
        if y.contains(f) {
            assert(kept.contains(f) && is_parquet_name(f.name));
            let k = choose|k: int| 0 <= k < kept.len() && kept[k] == f;
            assert(files[places[k]] == f);
            assert(files.contains(f));
        }
    }
    by_name_unique(x, y);
}

/// Whether a source is fingerprinted by the parquet files in it;
/// `is_dir` says whether it is a directory. Another source has the
/// fingerprint of its own file.
pub fn fingerprints_by_tables(path: &str, is_dir: bool) -> (b: bool)
    ensures
        b == (names_parquetdir(path@) && is_dir),
{
    is_parquetdir(path) && is_dir
}

} // verus!
