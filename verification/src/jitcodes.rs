//! The lowered code tables: reading them back, and what they say about the
//! portal.
//!
//! A table is its records' bodies one after the other and the offsets they
//! start at. The order of the records is what everything that names one by
//! number relies on.
use vstd::prelude::*;
use vstd::utf8::{decode_utf8, valid_utf8};

use crate::jit_state::Kind;

verus! {

/// What reading a table can fail with.
#[derive(Clone, Copy, Debug, PartialEq, Eq, Structural)]
pub enum TableError {
    /// The bytes are not a table of this kind.
    Undecodable,
    /// An offset lies outside the bodies, or before the one ahead of it.
    OutOfBounds,
}

/// The error of `bincode`, carried out of it and no further.
#[verifier::external_type_specification]
#[verifier::external_body]
pub struct ExBincodeErrorKind(bincode::ErrorKind);

// ---------------------------------------------------------------------------
// Decoding.

/// The sixty-four-bit number written at `at`, low byte first.
pub open spec fn long_at(bytes: Seq<u8>, at: int) -> int {
    bytes[at] + 0x100 * bytes[at + 1] + 0x1_0000 * bytes[at + 2] + 0x100_0000 * bytes[at + 3]
        + 0x1_0000_0000 * bytes[at + 4] + 0x100_0000_0000 * bytes[at + 5] + 0x1_0000_0000_0000
        * bytes[at + 6] + 0x100_0000_0000_0000 * bytes[at + 7]
}

/// How many entries a row written at `at` has, and where they start.
pub open spec fn count_at(bytes: Seq<u8>, at: int) -> Option<(nat, int)> {
    if at + 8 > bytes.len() {
        None
    } else {
        Some((long_at(bytes, at) as nat, at + 8))
    }
}

/// The row of thirty-two-bit numbers written at `at`: how many there are, then
/// each of them, low byte first. Nothing where the bytes run out.
pub open spec fn row_at(bytes: Seq<u8>, at: int) -> Option<Seq<u32>> {
    match count_at(bytes, at) {
        Some((n, from)) if from + 4 * n <= bytes.len() => Some(
            Seq::new(n, |i: int| crate::bytecode::dword(bytes, from + 4 * i)),
        ),
        _ => None,
    }
}

/// The text written at `at`, as its length and its bytes, and where it ends.
/// Nothing where the bytes run out or are no text.
pub open spec fn text_at(bytes: Seq<u8>, at: int) -> Option<(Seq<char>, int)> {
    match count_at(bytes, at) {
        Some((n, from)) if from + n <= bytes.len() && valid_utf8(
            bytes.subrange(from, from + n),
        ) => Some((decode_utf8(bytes.subrange(from, from + n)), from + n)),
        _ => None,
    }
}

/// `n` texts written one after the other from `at` on, and where they end.
pub open spec fn texts_at(bytes: Seq<u8>, at: int, n: nat) -> Option<(Seq<Seq<char>>, int)>
    decreases n,
{
    if n == 0 {
        Some((Seq::empty(), at))
    } else {
        match text_at(bytes, at) {
            None => None,
            Some((text, next)) => match texts_at(bytes, next, (n - 1) as nat) {
                None => None,
                Some((rest, end)) => Some((seq![text] + rest, end)),
            },
        }
    }
}

/// `n` numbers, each with a path, written one after the other from `at` on.
pub open spec fn numbered_texts_at(bytes: Seq<u8>, at: int, n: nat) -> Option<
    Seq<(i64, Seq<char>)>,
>
    decreases n,
{
    if n == 0 {
        Some(Seq::empty())
    } else if at + 8 > bytes.len() {
        None
    } else {
        match text_at(bytes, at + 8) {
            None => None,
            Some((text, next)) => match numbered_texts_at(bytes, next, (n - 1) as nat) {
                None => None,
                Some(rest) => Some(seq![((long_at(bytes, at) as u64) as i64, text)] + rest),
            },
        }
    }
}

/// `n` names, each with a byte, written one after the other from `at` on.
pub open spec fn texts_with_bytes_at(bytes: Seq<u8>, at: int, n: nat) -> Option<
    Seq<(Seq<char>, u8)>,
>
    decreases n,
{
    if n == 0 {
        Some(Seq::empty())
    } else {
        match text_at(bytes, at) {
            Some((text, next)) if next < bytes.len() => match texts_with_bytes_at(
                bytes,
                next + 1,
                (n - 1) as nat,
            ) {
                None => None,
                Some(rest) => Some(seq![(text, bytes[next])] + rest),
            },
            _ => None,
        }
    }
}

/// The offsets written in `bytes`.
pub open spec fn offsets_in(bytes: Seq<u8>) -> Option<Seq<u32>> {
    row_at(bytes, 0)
}

/// The names and the offsets written in `bytes`.
pub open spec fn index_in(bytes: Seq<u8>) -> Option<(Seq<Seq<char>>, Seq<u32>)> {
    match count_at(bytes, 0) {
        None => None,
        Some((n, from)) => match texts_at(bytes, from, n) {
            None => None,
            Some((names, next)) => match row_at(bytes, next) {
                None => None,
                Some(offsets) => Some((names, offsets)),
            },
        },
    }
}

/// The addresses with their paths written in `bytes`.
pub open spec fn paths_in(bytes: Seq<u8>) -> Option<Seq<(i64, Seq<char>)>> {
    match count_at(bytes, 0) {
        None => None,
        Some((n, from)) => numbered_texts_at(bytes, from, n),
    }
}

/// What is bound by pairs, later ones outranking earlier ones.
pub open spec fn bound_by(pairs: Seq<(Seq<char>, u8)>) -> Map<Seq<char>, u8>
    decreases pairs.len(),
{
    if pairs.len() == 0 {
        Map::empty()
    } else {
        bound_by(pairs.drop_last()).insert(pairs.last().0, pairs.last().1)
    }
}

/// The names with their numbers written in `bytes`.
pub open spec fn insns_in(bytes: Seq<u8>) -> Option<Map<Seq<char>, u8>> {
    match count_at(bytes, 0) {
        None => None,
        Some((n, from)) => match texts_with_bytes_at(bytes, from, n) {
            None => None,
            Some(pairs) => Some(bound_by(pairs)),
        },
    }
}

pub open spec fn name_views(names: Seq<String>) -> Seq<Seq<char>> {
    Seq::new(names.len(), |i: int| names[i]@)
}

pub open spec fn path_views(paths: Seq<(i64, String)>) -> Seq<(i64, Seq<char>)> {
    Seq::new(paths.len(), |i: int| (paths[i].0, paths[i].1@))
}

pub open spec fn insn_views(insns: Seq<(String, u8)>) -> Seq<(Seq<char>, u8)> {
    Seq::new(insns.len(), |i: int| (insns[i].0@, insns[i].1))
}

/// `bincode::deserialize` to `Vec<u32>`.
///
/// Claims that it reads a length of eight bytes and then that many numbers of
/// four bytes, low byte first, that it fails exactly where the bytes run out,
/// and that it leaves any bytes after that alone.
#[verifier::external_body]
fn decode_offsets(bytes: &[u8]) -> (out: Result<Vec<u32>, Box<bincode::ErrorKind>>)
    ensures
        match out {
            Ok(offsets) => offsets_in(bytes@) == Some(offsets@),
            Err(_) => offsets_in(bytes@) is None,
        },
{
    bincode::deserialize::<Vec<u32>>(bytes)
}

/// `bincode::deserialize` to `(Vec<String>, Vec<u32>)`.
///
/// Claims that it reads a row of texts and then a row of numbers, each row a
/// length of eight bytes and its entries, a text being a length of eight bytes
/// and its bytes; that it fails exactly where the bytes run out or a text is
/// not UTF-8; and that it leaves any bytes after that alone.
#[verifier::external_body]
fn decode_index(bytes: &[u8]) -> (out: Result<
    (Vec<String>, Vec<u32>),
    Box<bincode::ErrorKind>,
>)
    ensures
        match out {
            Ok((names, offsets)) => index_in(bytes@) == Some((name_views(names@), offsets@)),
            Err(_) => index_in(bytes@) is None,
        },
{
    bincode::deserialize::<(Vec<String>, Vec<u32>)>(bytes)
}

/// `bincode::deserialize` to `Vec<(i64, String)>`.
///
/// Claims that it reads a row of pairs, each a signed number of eight bytes,
/// low byte first, and a text; that it fails exactly where the bytes run out or
/// a text is not UTF-8; and that it leaves any bytes after that alone.
#[verifier::external_body]
fn decode_paths(bytes: &[u8]) -> (out: Result<Vec<(i64, String)>, Box<bincode::ErrorKind>>)
    ensures
        match out {
            Ok(paths) => paths_in(bytes@) == Some(path_views(paths@)),
            Err(_) => paths_in(bytes@) is None,
        },
{
    bincode::deserialize::<Vec<(i64, String)>>(bytes)
}

/// `bincode::deserialize` to `BTreeMap<String, u8>`, with the entries handed
/// out one by one.
///
/// Claims that it reads a row of pairs, each a text and a byte, of which the
/// last of a name counts; that every name is handed out once; that it fails
/// exactly where the bytes run out or a text is not UTF-8; and that it leaves
/// any bytes after that alone. It says nothing of the order.
#[verifier::external_body]
fn decode_insns(bytes: &[u8]) -> (out: Result<Vec<(String, u8)>, Box<bincode::ErrorKind>>)
    ensures
        match out {
            Ok(insns) => insns_in(bytes@) == Some(bound_by(insn_views(insns@))) && insns@.len()
                == bound_by(insn_views(insns@)).dom().len(),
            Err(_) => insns_in(bytes@) is None,
        },
{
    bincode::deserialize::<std::collections::BTreeMap<String, u8>>(bytes)
        .map(|insns| insns.into_iter().collect())
}

// ---------------------------------------------------------------------------
// Records.

/// Whether an offset and the next one bound a stretch of `len` bytes.
pub open spec fn bounds_record(offsets: Seq<u32>, len: nat, i: int) -> bool {
    offsets[i] <= offsets[i + 1] <= len
}

/// Whether every two neighbouring offsets bound a stretch of `len` bytes.
pub open spec fn bounds_records(offsets: Seq<u32>, len: nat) -> bool {
    forall|i: int|
        0 <= i < offsets.len() - 1 ==> #[trigger] bounds_record(offsets, len, i)
}

/// How many records some offsets bound: one fewer than there are offsets.
pub open spec fn record_count(offsets: Seq<u32>) -> nat {
    if offsets.len() == 0 {
        0
    } else {
        (offsets.len() - 1) as nat
    }
}

/// The records of a table: the stretches of its bodies between neighbouring
/// offsets.
pub open spec fn records_of(bodies: Seq<u8>, offsets: Seq<u32>) -> Seq<Seq<u8>> {
    Seq::new(
        record_count(offsets),
        |i: int| bodies.subrange(offsets[i] as int, offsets[i + 1] as int),
    )
}

pub open spec fn record_views(records: Seq<Vec<u8>>) -> Seq<Seq<u8>> {
    Seq::new(records.len(), |i: int| records[i]@)
}

fn bounds_hold(offsets: &Vec<u32>, len: usize) -> (r: bool)
    ensures
        r == bounds_records(offsets@, len as nat),
{
    let mut i: usize = 1;
    while i < offsets.len()
        invariant
            1 <= i,
            i <= offsets@.len() || i == 1,
            forall|j: int| 0 <= j < i - 1 ==> #[trigger] bounds_record(offsets@, len as nat, j),
        decreases offsets@.len() - i,
    {
        if offsets[i - 1] > offsets[i] || offsets[i] as usize > len {
            assert(!bounds_record(offsets@, len as nat, i - 1));
            return false;
        }
        i = i + 1;
    }
    true
}

fn stretch(bodies: &Vec<u8>, from: usize, to: usize) -> (out: Vec<u8>)
    requires
        from <= to <= bodies@.len(),
    ensures
        out@ == bodies@.subrange(from as int, to as int),
{
    let mut out: Vec<u8> = Vec::new();
    let mut i: usize = from;
    while i < to
        invariant
            from <= i <= to <= bodies@.len(),
            out@ == bodies@.subrange(from as int, i as int),
        decreases to - i,
    {
        out.push(bodies[i]);
        i = i + 1;
        assert(out@ =~= bodies@.subrange(from as int, i as int));
    }
    out
}

/// One table's records, in their order.
pub fn entries(bodies: &Vec<u8>, offsets: &Vec<u32>) -> (records: Vec<Vec<u8>>)
    requires
        bounds_records(offsets@, bodies@.len()),
    ensures
        record_views(records@) == records_of(bodies@, offsets@),
{
    let mut records: Vec<Vec<u8>> = Vec::new();
    let mut i: usize = 1;
    while i < offsets.len()
        invariant
            1 <= i,
            i <= offsets@.len() || i == 1,
            bounds_records(offsets@, bodies@.len()),
            records@.len() == i - 1,
            forall|j: int|
                0 <= j < records@.len() ==> (#[trigger] records@[j])@ == records_of(
                    bodies@,
                    offsets@,
                )[j],
        decreases offsets@.len() - i,
    {
        assert(bounds_record(offsets@, bodies@.len(), i - 1));
        records.push(stretch(bodies, offsets[i - 1] as usize, offsets[i] as usize));
        i = i + 1;
    }
    assert(record_views(records@) =~= records_of(bodies@, offsets@));
    records
}

/// The bodies of the lowered code, in the order they were allocated, and their
/// names.
pub open spec fn bodies_read(bodies: Seq<u8>, index: Option<(Seq<Seq<char>>, Seq<u32>)>) -> Result<
    (Seq<Seq<char>>, Seq<Seq<u8>>),
    TableError,
> {
    match index {
        None => Err(TableError::Undecodable),
        Some((names, offsets)) => if bounds_records(offsets, bodies.len()) {
            Ok((names, records_of(bodies, offsets)))
        } else {
            Err(TableError::OutOfBounds)
        },
    }
}

/// The records of a table whose index is offsets alone.
pub open spec fn records_read(bodies: Seq<u8>, offsets: Option<Seq<u32>>) -> Result<
    Seq<Seq<u8>>,
    TableError,
> {
    match offsets {
        None => Err(TableError::Undecodable),
        Some(offsets) => if bounds_records(offsets, bodies.len()) {
            Ok(records_of(bodies, offsets))
        } else {
            Err(TableError::OutOfBounds)
        },
    }
}

/// The records of a table, once its offsets are read.
pub fn split_records(bodies: &Vec<u8>, offsets: Option<Vec<u32>>) -> (out: Result<
    Vec<Vec<u8>>,
    TableError,
>)
    ensures
        (match out {
            Ok(records) => Ok(record_views(records@)),
            Err(err) => Err(err),
        }) == records_read(
            bodies@,
            match offsets {
                Some(offsets) => Some(offsets@),
                None => None,
            },
        ),
{
    match offsets {
        None => Err(TableError::Undecodable),
        Some(offsets) => if bounds_hold(&offsets, bodies.len()) {
            Ok(entries(bodies, &offsets))
        } else {
            Err(TableError::OutOfBounds)
        },
    }
}

/// The names and the bodies of the lowered code.
pub fn jitcode_bodies(bodies: &Vec<u8>, index: &Vec<u8>) -> (out: Result<
    (Vec<String>, Vec<Vec<u8>>),
    TableError,
>)
    ensures
        (match out {
            Ok((names, records)) => Ok((name_views(names@), record_views(records@))),
            Err(err) => Err(err),
        }) == bodies_read(bodies@, index_in(index@)),
{
    match decode_index(index.as_slice()) {
        Err(_) => Err(TableError::Undecodable),
        Ok((names, offsets)) => match split_records(bodies, Some(offsets)) {
            Ok(records) => Ok((names, records)),
            Err(err) => Err(err),
        },
    }
}

/// The bodies of the descriptors.
pub fn descr_bodies(bodies: &Vec<u8>, index: &Vec<u8>) -> (out: Result<Vec<Vec<u8>>, TableError>)
    ensures
        (match out {
            Ok(records) => Ok(record_views(records@)),
            Err(err) => Err(err),
        }) == records_read(bodies@, offsets_in(index@)),
{
    match decode_offsets(index.as_slice()) {
        Err(_) => Err(TableError::Undecodable),
        Ok(offsets) => split_records(bodies, Some(offsets)),
    }
}

// ---------------------------------------------------------------------------
// Symbolic addresses.

/// The table of symbolic addresses.
pub fn symbolic_fnaddrs(bytes: &Vec<u8>) -> (out: Result<Vec<(i64, String)>, TableError>)
    ensures
        match out {
            Ok(paths) => paths_in(bytes@) == Some(path_views(paths@)),
            Err(err) => paths_in(bytes@) is None && err == TableError::Undecodable,
        },
{
    match decode_paths(bytes.as_slice()) {
        Ok(paths) => Ok(paths),
        Err(_) => Err(TableError::Undecodable),
    }
}

/// The path recorded first for an address, from `i` on.
pub open spec fn path_from(paths: Seq<(i64, Seq<char>)>, fnaddr: i64, i: int) -> Option<Seq<char>>
    decreases paths.len() - i,
{
    if i < 0 || i >= paths.len() {
        None
    } else if paths[i].0 == fnaddr {
        Some(paths[i].1)
    } else {
        path_from(paths, fnaddr, i + 1)
    }
}

/// The path recorded for a symbolic address, if there is one.
pub fn resolve_symbolic_fnaddr_path(paths: &Vec<(i64, String)>, fnaddr: i64) -> (out: Option<&str>)
    ensures
        (match out {
            Some(path) => Some(path@),
            None => None,
        }) == path_from(path_views(paths@), fnaddr, 0),
{
    let mut i: usize = 0;
    while i < paths.len()
        invariant
            i <= paths@.len(),
            path_from(path_views(paths@), fnaddr, 0) == path_from(
                path_views(paths@),
                fnaddr,
                i as int,
            ),
        decreases paths@.len() - i,
    {
        let entry = &paths[i];
        if entry.0 == fnaddr {
            return Some(entry.1.as_str());
        }
        i = i + 1;
    }
    None
}

// ---------------------------------------------------------------------------
// The portal.

/// A lowered body, and where its merge point is if it has one.
#[derive(Debug)]
pub struct Body {
    pub code: Vec<u8>,
    pub jit_merge_point_offset: Option<usize>,
}

/// A driver as the lowering recorded it: which body is the portal, and the
/// names and types of its greens and reds.
#[derive(Debug)]
pub struct CompiledJitDriver {
    pub main_jitcode_index: usize,
    pub greens: Vec<String>,
    pub green_args_spec: Vec<Kind>,
    pub reds: Vec<String>,
    pub red_args_types: Vec<Kind>,
}

/// The driver that was lowered, if one was.
pub fn driver(drivers: &Vec<CompiledJitDriver>) -> (out: Option<&CompiledJitDriver>)
    ensures
        drivers@.len() == 0 ==> out is None,
        drivers@.len() > 0 ==> out == Some(&drivers@[0]),
{
    if drivers.len() == 0 {
        None
    } else {
        Some(&drivers[0])
    }
}

pub open spec fn portal_of(drivers: Seq<CompiledJitDriver>) -> Option<usize> {
    if drivers.len() == 0 {
        None
    } else {
        Some(drivers[0].main_jitcode_index)
    }
}

pub open spec fn merge_point_of(
    drivers: Seq<CompiledJitDriver>,
    table: Seq<Body>,
) -> Option<usize> {
    match portal_of(drivers) {
        Some(portal) if portal < table.len() => table[portal as int].jit_merge_point_offset,
        _ => None,
    }
}

/// Which body is the portal: the one that carries the merge point.
pub fn portal_index(drivers: &Vec<CompiledJitDriver>) -> (out: Option<usize>)
    ensures
        out == portal_of(drivers@),
{
    match driver(drivers) {
        Some(driver) => Some(driver.main_jitcode_index),
        None => None,
    }
}

/// Where the portal's merge point is in its own body.
pub fn portal_merge_point_offset(drivers: &Vec<CompiledJitDriver>, table: &Vec<Body>) -> (out:
    Option<usize>)
    ensures
        out == merge_point_of(drivers@, table@),
{
    match portal_index(drivers) {
        Some(portal) => if portal < table.len() {
            table[portal].jit_merge_point_offset
        } else {
            None
        },
        None => None,
    }
}

/// The byte at an offset of a body, if both are there.
pub open spec fn byte_of(table: Seq<Body>, index: usize, offset: usize) -> Option<u8> {
    if index < table.len() && offset < table[index as int].code@.len() {
        Some(table[index as int].code@[offset as int])
    } else {
        None
    }
}

/// The tables agree: the portal is a body, and the merge point recorded for a
/// body is in its code.
pub open spec fn tables_agree(drivers: Seq<CompiledJitDriver>, table: Seq<Body>) -> bool {
    &&& portal_of(drivers) matches Some(portal) ==> portal < table.len()
    &&& forall|i: int|
        0 <= i < table.len() ==> ((#[trigger] table[i]).jit_merge_point_offset matches Some(offset)
            ==> offset < table[i].code@.len())
}

/// Whether the tables agree.
pub fn check_tables(drivers: &Vec<CompiledJitDriver>, table: &Vec<Body>) -> (r: bool)
    ensures
        r == tables_agree(drivers@, table@),
{
    if let Some(portal) = portal_index(drivers) {
        if portal >= table.len() {
            return false;
        }
    }
    let mut i: usize = 0;
    while i < table.len()
        invariant
            i <= table@.len(),
            portal_of(drivers@) matches Some(portal) ==> portal < table@.len(),
            forall|j: int|
                0 <= j < i ==> ((#[trigger] table@[j]).jit_merge_point_offset matches Some(offset)
                    ==> offset < table@[j].code@.len()),
        decreases table@.len() - i,
    {
        if let Some(offset) = table[i].jit_merge_point_offset {
            if offset >= table[i].code.len() {
                assert(!(table@[i as int].jit_merge_point_offset matches Some(offset)
                    ==> offset < table@[i as int].code@.len()));
                return false;
            }
        }
        i = i + 1;
    }
    true
}

/// A portal with a merge point has a byte there, where the tables agree.
pub proof fn portals_have_their_merge_points(
    drivers: Seq<CompiledJitDriver>,
    table: Seq<Body>,
    portal: usize,
    offset: usize,
)
    requires
        tables_agree(drivers, table),
        portal_of(drivers) == Some(portal),
        merge_point_of(drivers, table) == Some(offset),
    ensures
        portal < table.len(),
        byte_of(table, portal, offset) is Some,
{
}

/// One byte of one lowered body.
pub fn body_byte(table: &Vec<Body>, index: usize, offset: usize) -> (out: Option<u8>)
    ensures
        out == byte_of(table@, index, offset),
{
    if index < table.len() && offset < table[index].code.len() {
        Some(table[index].code[offset])
    } else {
        None
    }
}

/// Every lowered body, in the order they were allocated: what names a body by
/// number names its place in this order.
pub fn all(table: &Vec<Body>) -> (bodies: &[Body])
    ensures
        bodies@ == table@,
{
    table.as_slice()
}

/// How many bodies were lowered.
pub fn count(table: &Vec<Body>) -> (n: usize)
    ensures
        n == table@.len(),
{
    table.len()
}

/// The opcode names with their numbers, each name once, in no particular order.
pub fn liveness_parts(insns: &Vec<u8>) -> (out: Result<Vec<(String, u8)>, TableError>)
    ensures
        match out {
            Ok(list) => insns_in(insns@) == Some(bound_by(insn_views(list@))) && list@.len()
                == bound_by(insn_views(list@)).dom().len(),
            Err(err) => insns_in(insns@) is None && err == TableError::Undecodable,
        },
{
    match decode_insns(insns.as_slice()) {
        Ok(list) => Ok(list),
        Err(_) => Err(TableError::Undecodable),
    }
}

/// The types of the reds, in the order the merge point passes them.
pub fn red_kinds(driver: &CompiledJitDriver) -> (kinds: &Vec<Kind>)
    ensures
        *kinds == driver.red_args_types,
{
    &driver.red_args_types
}

/// The portal's operands: greens and reds, each with its name and its type.
#[derive(Debug)]
pub struct Descriptor {
    pub greens: Vec<(String, Kind)>,
    pub reds: Vec<(String, Kind)>,
}

pub open spec fn operand_views(row: Seq<(String, Kind)>) -> Seq<(Seq<char>, Kind)> {
    Seq::new(row.len(), |i: int| (row[i].0@, row[i].1))
}

/// Names paired with types.
pub open spec fn named_types(names: Seq<String>, kinds: Seq<Kind>) -> Seq<(Seq<char>, Kind)> {
    Seq::new(names.len(), |i: int| (names[i]@, kinds[i]))
}

fn name_and_kind(names: &Vec<String>, kinds: &Vec<Kind>) -> (row: Vec<(String, Kind)>)
    requires
        names@.len() == kinds@.len(),
    ensures
        operand_views(row@) == named_types(names@, kinds@),
{
    let mut row: Vec<(String, Kind)> = Vec::new();
    let mut i: usize = 0;
    while i < names.len()
        invariant
            i <= names@.len(),
            names@.len() == kinds@.len(),
            row@.len() == i,
            forall|j: int|
                0 <= j < i ==> (#[trigger] row@[j]).0@ == names@[j]@ && row@[j].1 == kinds@[j],
        decreases names@.len() - i,
    {
        row.push((names[i].clone(), kinds[i]));
        i = i + 1;
    }
    assert(operand_views(row@) =~= named_types(names@, kinds@));
    row
}

/// The portal's descriptor. The first green is the address a back edge resumes
/// at, and every operand has a name and a type.
pub fn grain_driver_descriptor(driver: &CompiledJitDriver) -> (descriptor: Descriptor)
    requires
        driver.greens@.len() > 0,
        driver.greens@[0]@ == "pc"@,
        driver.greens@.len() == driver.green_args_spec@.len(),
        driver.reds@.len() == driver.red_args_types@.len(),
    ensures
        operand_views(descriptor.greens@) == named_types(
            driver.greens@,
            driver.green_args_spec@,
        ),
        operand_views(descriptor.reds@) == named_types(driver.reds@, driver.red_args_types@),
{
    Descriptor {
        greens: name_and_kind(&driver.greens, &driver.green_args_spec),
        reds: name_and_kind(&driver.reds, &driver.red_args_types),
    }
}

/// Bytes after a row of offsets do not change what is read of it.
pub proof fn bytes_after_offsets_do_not_matter(bytes: Seq<u8>, more: Seq<u8>)
    requires
        offsets_in(bytes) is Some,
    ensures
        offsets_in(bytes + more) == offsets_in(bytes),
{
    let whole = bytes + more;
    assert(forall|i: int| 0 <= i < bytes.len() ==> whole[i] == bytes[i]);
    assert(long_at(whole, 0) == long_at(bytes, 0));
    let n = long_at(bytes, 0);
    let (a, b) = (offsets_in(whole)->0, offsets_in(bytes)->0);
    assert forall|i: int| 0 <= i < n implies #[trigger] a[i] == b[i] by {
        assert(8 + 4 * i + 3 < bytes.len());
    }
    assert(a =~= b);
}

/// A table without records has the one offset zero, and its records in their
/// order make up the stretch from its first offset to its last.
pub proof fn records_are_contiguous(bodies: Seq<u8>, offsets: Seq<u32>, i: int)
    requires
        bounds_records(offsets, bodies.len()),
        0 <= i < record_count(offsets),
    ensures
        records_of(bodies, seq![0u32]).len() == 0,
        records_of(bodies, offsets)[i].len() == offsets[i + 1] - offsets[i],
        forall|j: int|
            0 <= j < offsets[i + 1] - offsets[i] ==> records_of(bodies, offsets)[i][j]
                == bodies[offsets[i] + j],
{
    assert(bounds_record(offsets, bodies.len(), i));
}

} // verus!
