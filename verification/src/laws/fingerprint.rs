//! What fingerprints and freshness keys are made of.
use crate::fingerprint::{
    by_name, byte_codes, dir_fingerprint, file_hashed, files_hashed, hashed, hashed_in_turn,
    is_parquet_name, le_bytes, listing_is_by_name, names_differ, newest_secs, parquet_listing,
    parquet_order_of, DirFileView, FileState, ModifiedTime,
};
use crate::order::lex_lt;
use crate::resident_identity::{
    freshness, sidecars_hashed, state_hashed, state_names, states_hashed, tables_hashed, TableState,
};
use vstd::prelude::*;
use vstd::utf8::encode_utf8;

verus! {

/// A hash takes in bytes one by one: each is put in by exclusive or, and the hash
/// is multiplied by a prime, in 64 bits.
pub proof fn bytes_are_mixed_in(hash: u64, bytes: Seq<u8>, byte: u8)
    ensures
        hashed(hash, Seq::empty()) == hash,
        hashed(hash, bytes.push(byte)) == ((hashed(hash, bytes) ^ (byte as u64))
            * 0x100_0000_01b3) as int % 0x1_0000_0000_0000_0000,
{
    assert(bytes.push(byte).drop_last() =~= bytes);
}

/// Sum of the bytes, the first counting ones, each further 256 times as much as
/// the one before.
pub open spec fn worth(bytes: Seq<u8>) -> int
    decreases bytes.len(),
{
    if bytes.len() == 0 {
        0
    } else {
        bytes[0] + 256 * worth(bytes.skip(1))
    }
}

/// The places that `n` bytes can count.
pub open spec fn room(n: nat) -> int
    decreases n,
{
    if n == 0 {
        1
    } else {
        256 * room((n - 1) as nat)
    }
}

/// A number is taken in as its bytes, the lowest first.
pub proof fn bytes_tell_the_number(value: u64, n: nat)
    ensures
        le_bytes(value, n).len() == n,
        value < room(n) ==> worth(le_bytes(value, n)) == value,
    decreases n,
{
    if n > 0 {
        let rest = le_bytes(value / 256, (n - 1) as nat);
        bytes_tell_the_number(value / 256, (n - 1) as nat);
        assert(le_bytes(value, n).skip(1) =~= rest);
        assert(le_bytes(value, n)[0] == (value % 256) as u8);
        assert((value % 256) as u8 == value % 256);
        assert(value < room(n) ==> value / 256 < room((n - 1) as nat));
        assert(value == 256 * (value / 256) + value % 256);
    }
}

/// All numbers of 64 bits are told by eight bytes, all of 32 bits by four.
pub proof fn eight_bytes_are_enough(value: u64)
    ensures
        worth(le_bytes(value, 8)) == value,
        value <= u32::MAX ==> worth(le_bytes(value, 4)) == value,
{
    reveal_with_fuel(room, 9);
    bytes_tell_the_number(value, 8);
    bytes_tell_the_number(value, 4);
    assert(room(8) == 0x1_0000_0000_0000_0000);
    assert(room(4) == 0x1_0000_0000);
}

/// The time as bytes: the seconds, and behind them the fraction in so many bytes.
pub open spec fn time_bytes(time: Option<ModifiedTime>, width: nat) -> Seq<u8> {
    match time {
        Some(t) => le_bytes(t.secs as u64, 8) + le_bytes(t.nanos as u64, width),
        None => Seq::empty(),
    }
}

/// What a file of a directory adds: the length of its name and the name, where it
/// is text, its length, and its time.
pub open spec fn file_bytes(file: DirFileView) -> Seq<u8> {
    (if file.is_text {
        le_bytes(file.name.len() as u64, 8) + file.name
    } else {
        Seq::empty()
    }) + le_bytes(file.state.len, 8) + time_bytes(file.state.modified, 4)
}

proof fn file_is_taken_in(hash: u64, file: DirFileView)
    ensures
        file_hashed(hash, file) == hashed(hash, file_bytes(file)),
{
    let name = le_bytes(file.name.len() as u64, 8) + file.name;
    let start: Seq<u8> = if file.is_text {
        name
    } else {
        Seq::empty()
    };
    hashed_in_turn(hash, le_bytes(file.name.len() as u64, 8), file.name);
    hashed_in_turn(hash, start, le_bytes(file.state.len, 8));
    let sized = start + le_bytes(file.state.len, 8);
    match file.state.modified {
        Some(t) => {
            let secs = le_bytes(t.secs as u64, 8);
            let nanos = le_bytes(t.nanos as u64, 4);
            hashed_in_turn(hash, sized, secs);
            hashed_in_turn(hash, sized + secs, nanos);
            assert(sized + (secs + nanos) =~= sized + secs + nanos);
        },
        None => {
            assert(sized + Seq::<u8>::empty() =~= sized);
        },
    }
}

proof fn files_are_taken_in(hash: u64, files: Seq<DirFileView>)
    ensures
        files_hashed(hash, files) == hashed(
            hash,
            files.map_values(|f: DirFileView| file_bytes(f)).flatten(),
        ),
    decreases files.len(),
{
    let f = |f: DirFileView| file_bytes(f);
    if files.len() > 0 {
        let less = files.drop_last();
        files_are_taken_in(hash, less);
        file_is_taken_in(files_hashed(hash, less), files.last());
        assert(files.map_values(f) =~= less.map_values(f).push(file_bytes(files.last())));
        less.map_values(f).lemma_flatten_push(file_bytes(files.last()));
        hashed_in_turn(hash, less.map_values(f).flatten(), file_bytes(files.last()));
    } else {
        assert(files.map_values(f) =~= Seq::<Seq<u8>>::empty());
    }
}

/// The name ends in `.parquet`, with something before it.
pub open spec fn is_table_name(name: Seq<u8>) -> bool {
    name.len() > 8 && name.skip(name.len() - 8) == ".parquet"@.map_values(|c: char| c as u8)
}

/// The first byte in which the names differ is smaller in the first name; a name
/// that goes on comes after the one that ends.
pub open spec fn name_before(a: Seq<u8>, b: Seq<u8>) -> bool {
    exists|p: int| #[trigger] bytes_differ_at(a, b, p)
}

/// Up to the place the names are the same, there the first is smaller or ends.
pub open spec fn bytes_differ_at(a: Seq<u8>, b: Seq<u8>, p: int) -> bool {
    &&& 0 <= p <= a.len()
    &&& p < b.len()
    &&& a.take(p) == b.take(p)
    &&& p < a.len() ==> a[p] < b[p]
}

proof fn byte_codes_tell(a: Seq<u8>, b: Seq<u8>)
    requires
        lex_lt(byte_codes(a), byte_codes(b)),
    ensures
        name_before(a, b),
    decreases a.len(),
{
    let x = byte_codes(a);
    let y = byte_codes(b);
    assert(x.len() == a.len() && y.len() == b.len());
    if a.len() == 0 {
        assert(a.take(0) =~= b.take(0));
        assert(bytes_differ_at(a, b, 0));
    } else {
        assert(x[0] == a[0] as int && y[0] == b[0] as int);
        if a[0] == b[0] {
            let a1 = a.drop_first();
            let b1 = b.drop_first();
            assert(x.drop_first() =~= byte_codes(a1));
            assert(y.drop_first() =~= byte_codes(b1));
            byte_codes_tell(a1, b1);
            let p: int = choose|p: int| bytes_differ_at(a1, b1, p);
            assert forall|i: int| 0 <= i < p + 1 implies #[trigger] a.take(p + 1)[i] == b.take(
                p + 1,
            )[i] by {
                if i > 0 {
                    assert(a1.take(p)[i - 1] == b1.take(p)[i - 1]);
                }
            }
            assert(a.take(p + 1) =~= b.take(p + 1));
            assert(p < a1.len() ==> a[p + 1] == a1[p] && b[p + 1] == b1[p]);
            assert(bytes_differ_at(a, b, p + 1));
        } else {
            assert(a.take(0) =~= b.take(0));
            assert(bytes_differ_at(a, b, 0));
        }
    }
}

/// The tables of a directory: its files with a table's name, by name.
pub open spec fn are_tables(listed: Seq<DirFileView>, files: Seq<DirFileView>) -> bool {
    &&& forall|f: DirFileView| #[trigger] listed.contains(f) <==> files.contains(f) && is_table_name(f.name)
    &&& forall|i: int, j: int|
        #![trigger listed[i], listed[j]]
        0 <= i < j < listed.len() ==> name_before(listed[i].name, listed[j].name)
}

/// The fingerprint of a directory is made of its tables in the order of their
/// names: the size hashes their number and then each table's name, length and
/// time; the second is that of the newest, and no earlier than the epoch.
pub proof fn directories_are_fingerprinted(files: Seq<DirFileView>) -> (listed: Seq<DirFileView>)
    requires
        names_differ(files),
    ensures
        are_tables(listed, files),
        dir_fingerprint(files).size == hashed(
            0xcbf2_9ce4_8422_2325u64,
            le_bytes(listed.len() as u64, 8) + listed.map_values(
                |f: DirFileView| file_bytes(f),
            ).flatten(),
        ),
        dir_fingerprint(files).mtime_secs >= 0,
        forall|i: int|
            0 <= i < listed.len() && (#[trigger] listed[i]).state.modified is Some ==> listed[i].state.modified->0.secs
                <= dir_fingerprint(files).mtime_secs,
        dir_fingerprint(files).mtime_secs > 0 ==> exists|i: int|
            0 <= i < listed.len() && (#[trigger] listed[i]).state.modified is Some
                && listed[i].state.modified->0.secs == dir_fingerprint(files).mtime_secs,
{
    let listed = parquet_listing(files);
    listing_is_by_name(files);
    reveal_strlit(".parquet");
    assert(".parquet"@.map_values(|c: char| c as u8) =~= crate::fingerprint::parquet_suffix());
    assert forall|f: DirFileView| #[trigger]
        listed.contains(f) <==> files.contains(f) && is_table_name(f.name) by {
        assert(is_table_name(f.name) <==> is_parquet_name(f.name));
    }
    assert forall|i: int, j: int|
        #![trigger listed[i], listed[j]]
        0 <= i < j < listed.len() implies name_before(listed[i].name, listed[j].name) by {
        assert(by_name(listed));
        assert(lex_lt(byte_codes(listed[i].name), byte_codes(listed[j].name)));
        byte_codes_tell(listed[i].name, listed[j].name);
    }
    let count = le_bytes(listed.len() as u64, 8);
    files_are_taken_in(hashed(0xcbf2_9ce4_8422_2325u64, count), listed);
    hashed_in_turn(
        0xcbf2_9ce4_8422_2325u64,
        count,
        listed.map_values(|f: DirFileView| file_bytes(f)).flatten(),
    );
    newest_is_found(listed);
    listed
}

proof fn newest_is_found(files: Seq<DirFileView>)
    ensures
        newest_secs(files) >= 0,
        forall|i: int|
            0 <= i < files.len() && (#[trigger] files[i]).state.modified is Some ==> files[i].state.modified->0.secs
                <= newest_secs(files),
        newest_secs(files) > 0 ==> exists|i: int|
            0 <= i < files.len() && (#[trigger] files[i]).state.modified is Some
                && files[i].state.modified->0.secs == newest_secs(files),
    decreases files.len(),
{
    if files.len() > 0 {
        let less = files.drop_last();
        newest_is_found(less);
        assert forall|i: int|
            0 <= i < files.len() && (#[trigger] files[i]).state.modified is Some implies files[i].state.modified->0.secs
            <= newest_secs(files) by {
            if i < less.len() {
                assert(less[i] == files[i]);
            }
        }
        if newest_secs(files) > 0 {
            if newest_secs(files) == newest_secs(less) {
                let i: int = choose|i: int|
                    0 <= i < less.len() && (#[trigger] less[i]).state.modified is Some
                        && less[i].state.modified->0.secs == newest_secs(less);
                assert(files[i] == less[i]);
            } else {
                assert(files[files.len() - 1].state.modified is Some);
            }
        }
    }
}

/// What a file adds to a freshness key: its label, a word for whether it is there,
/// and where it is its length and its time.
pub open spec fn state_bytes(label: Seq<char>, state: Option<FileState>) -> Seq<u8> {
    encode_utf8(label) + match state {
        None => "missing"@.map_values(|c: char| c as u8),
        Some(s) => "present"@.map_values(|c: char| c as u8) + le_bytes(s.len, 8) + time_bytes(
            s.modified,
            8,
        ),
    }
}

proof fn state_is_taken_in(hash: u64, label: Seq<char>, state: Option<FileState>)
    ensures
        state_hashed(hash, label, state) == hashed(hash, state_bytes(label, state)),
{
    reveal_strlit("missing");
    reveal_strlit("present");
    let l = encode_utf8(label);
    match state {
        None => {
            let m = "missing"@.map_values(|c: char| c as u8);
            assert(m =~= crate::resident_identity::missing_mark());
            hashed_in_turn(hash, l, m);
        },
        Some(s) => {
            let p = "present"@.map_values(|c: char| c as u8);
            assert(p =~= crate::resident_identity::present_mark());
            let len = le_bytes(s.len, 8);
            hashed_in_turn(hash, l, p);
            hashed_in_turn(hash, l + p, len);
            match s.modified {
                Some(t) => {
                    let secs = le_bytes(t.secs as u64, 8);
                    let nanos = le_bytes(t.nanos as u64, 8);
                    hashed_in_turn(hash, l + p + len, secs);
                    hashed_in_turn(hash, l + p + len + secs, nanos);
                    assert(l + (p + len + (secs + nanos)) =~= l + p + len + secs + nanos);
                },
                None => {
                    assert(l + (p + len + Seq::<u8>::empty()) =~= l + p + len);
                },
            }
        },
    }
}

/// The bytes of files one after the other, each with its label.
pub open spec fn labelled_bytes(files: Seq<(Seq<char>, Option<FileState>)>) -> Seq<u8> {
    files.map_values(|f: (Seq<char>, Option<FileState>)| state_bytes(f.0, f.1)).flatten()
}

proof fn labelled_push(
    hash: u64,
    files: Seq<(Seq<char>, Option<FileState>)>,
    file: (Seq<char>, Option<FileState>),
)
    ensures
        hashed(hash, labelled_bytes(files.push(file))) == state_hashed(
            hashed(hash, labelled_bytes(files)),
            file.0,
            file.1,
        ),
        labelled_bytes(Seq::empty()) == Seq::<u8>::empty(),
{
    let f = |f: (Seq<char>, Option<FileState>)| state_bytes(f.0, f.1);
    assert(files.push(file).map_values(f) =~= files.map_values(f).push(state_bytes(file.0, file.1)));
    files.map_values(f).lemma_flatten_push(state_bytes(file.0, file.1));
    hashed_in_turn(hash, labelled_bytes(files), state_bytes(file.0, file.1));
    state_is_taken_in(hashed(hash, labelled_bytes(files)), file.0, file.1);
    assert(Seq::<(Seq<char>, Option<FileState>)>::empty().map_values(f) =~= Seq::<Seq<u8>>::empty());
}

/// The tables with their labels, in this order.
pub open spec fn tables_in(files: Seq<TableState>, order: Seq<int>) -> Seq<(
    Seq<char>,
    Option<FileState>,
)> {
    order.map_values(|i: int| (files[i].label@, files[i].state))
}

proof fn tables_are_taken_in(hash: u64, files: Seq<TableState>, order: Seq<int>)
    ensures
        states_hashed(hash, files, order) == hashed(hash, labelled_bytes(tables_in(files, order))),
    decreases order.len(),
{
    if order.len() > 0 {
        let less = order.drop_last();
        let file = files[order.last()];
        tables_are_taken_in(hash, files, less);
        assert(tables_in(files, order) =~= tables_in(files, less).push((file.label@, file.state)));
        labelled_push(hash, tables_in(files, less), (file.label@, file.state));
    } else {
        labelled_push(hash, Seq::empty(), ("source"@, None));
        assert(tables_in(files, order) =~= Seq::<(Seq<char>, Option<FileState>)>::empty());
    }
}

/// What a freshness key hashes: the source, the directory of tables, the number of
/// tables and each of them in the order of their names where they can be listed,
/// and the five sidecars.
pub proof fn freshness_takes_in_all(
    source: Option<FileState>,
    parquetdir: Option<FileState>,
    files: Option<Seq<TableState>>,
    sidecars: Seq<Option<FileState>>,
)
    requires
        sidecars.len() == 5,
    ensures
        freshness(source, parquetdir, files, sidecars) == hashed(
            0xcbf2_9ce4_8422_2325u64,
            labelled_bytes(seq![("source"@, source), ("parquetdir"@, parquetdir)]) + (match files {
                Some(list) => {
                    let order = parquet_order_of(list.map_values(|f: TableState| f.name@));
                    le_bytes(order.len() as u64, 8) + labelled_bytes(tables_in(list, order))
                },
                None => Seq::empty(),
            }) + labelled_bytes(
                seq![
                    ("correlation.bin"@, sidecars[0]),
                    ("meta.bin"@, sidecars[1]),
                    ("gpu-work-events.parquet"@, sidecars[2]),
                    ("nvtx-parent.parquet"@, sidecars[3]),
                    ("nvtx-tree.parquet"@, sidecars[4]),
                ],
            ),
        ),
{
    let seed: u64 = 0xcbf2_9ce4_8422_2325u64;
    let none = Seq::<(Seq<char>, Option<FileState>)>::empty();
    let one = none.push(("source"@, source));
    let two = one.push(("parquetdir"@, parquetdir));
    labelled_push(seed, none, ("source"@, source));
    labelled_push(seed, one, ("parquetdir"@, parquetdir));
    assert(two =~= seq![("source"@, source), ("parquetdir"@, parquetdir)]);
    let start = labelled_bytes(two);
    let opened = hashed(seed, start);
    let middle: Seq<u8> = match files {
        Some(list) => {
            let order = parquet_order_of(list.map_values(|f: TableState| f.name@));
            le_bytes(order.len() as u64, 8) + labelled_bytes(tables_in(list, order))
        },
        None => Seq::empty(),
    };
    assert(tables_hashed(opened, files) == hashed(opened, middle)) by {
        if let Some(list) = files {
            let order = parquet_order_of(state_names(list));
            let count = le_bytes(order.len() as u64, 8);
            assert(state_names(list) =~= list.map_values(|f: TableState| f.name@));
            tables_are_taken_in(hashed(opened, count), list, order);
            hashed_in_turn(opened, count, labelled_bytes(tables_in(list, order)));
        }
    }
    hashed_in_turn(seed, start, middle);
    let h = hashed(seed, start + middle);
    let s1 = none.push(("correlation.bin"@, sidecars[0]));
    let s2 = s1.push(("meta.bin"@, sidecars[1]));
    let s3 = s2.push(("gpu-work-events.parquet"@, sidecars[2]));
    let s4 = s3.push(("nvtx-parent.parquet"@, sidecars[3]));
    let s5 = s4.push(("nvtx-tree.parquet"@, sidecars[4]));
    labelled_push(h, none, ("correlation.bin"@, sidecars[0]));
    labelled_push(h, s1, ("meta.bin"@, sidecars[1]));
    labelled_push(h, s2, ("gpu-work-events.parquet"@, sidecars[2]));
    labelled_push(h, s3, ("nvtx-parent.parquet"@, sidecars[3]));
    labelled_push(h, s4, ("nvtx-tree.parquet"@, sidecars[4]));
    reveal_with_fuel(sidecars_hashed, 6);
    assert(sidecars_hashed(h, sidecars, 5) == hashed(h, labelled_bytes(s5)));
    assert(s5 =~= seq![
        ("correlation.bin"@, sidecars[0]),
        ("meta.bin"@, sidecars[1]),
        ("gpu-work-events.parquet"@, sidecars[2]),
        ("nvtx-parent.parquet"@, sidecars[3]),
        ("nvtx-tree.parquet"@, sidecars[4]),
    ]);
    hashed_in_turn(seed, start + middle, labelled_bytes(s5));
}

} // verus!
