//! The values a script works with, and how they are copied and overwritten.
//!
//! [`Dynamic`] is what the machine holds; [`Datum`] is its mathematical model,
//! the same shape with sequences in place of vectors. A shared value is a
//! number naming a cell of the machine's [heap](crate::heap).
use vstd::prelude::*;

verus! {

/// Whether a value may be written where it lies.
#[derive(Clone, Copy, Debug, PartialEq, Eq, Structural)]
pub enum AccessMode {
    ReadWrite,
    ReadOnly,
}

/// How a function pointer is called.
#[derive(Clone, Copy, Debug, PartialEq, Eq, Structural)]
pub enum FnPtrType {
    /// By looking its name up.
    Normal,
    /// Straight into a compiled function: the program's identity and the
    /// function's index in its name pool.
    Native { program: u64, index: u32 },
}

/// A function pointer and the arguments bound into it.
#[derive(Debug)]
pub struct FnPtr {
    pub name: String,
    pub curry: Vec<Dynamic>,
    pub typ: FnPtrType,
}

/// What a value holds.
#[derive(Debug)]
pub enum Union {
    Unit,
    Bool(bool),
    Str(String),
    Char(char),
    Int(i64),
    /// A floating-point number, by its bits.
    Float(u64),
    Array(Vec<Dynamic>),
    Blob(Vec<u8>),
    /// An object map.
    Dict(Dict),
    FnPtr(FnPtr),
    TimeStamp(u64),
    /// An exclusive integer range.
    Range(i64, i64),
    /// A host type: its name and the host's handle on the value.
    Variant(String, u64),
    /// A cell of the heap.
    Shared(usize),
}

/// The entries of an object map, each key once.
#[derive(Debug)]
pub struct Dict {
    pub(crate) pairs: Vec<(String, Dynamic)>,
}

/// A script value: what it holds, the host's tag on it and its access mode.
#[derive(Debug)]
pub struct Dynamic {
    pub value: Union,
    pub tag: i32,
    pub mode: AccessMode,
}

/// The model of a [`Union`].
#[verifier::ext_equal]
pub enum Data {
    Unit,
    Bool(bool),
    Str(Seq<char>),
    Char(char),
    Int(i64),
    Float(u64),
    Array(Seq<Datum>),
    Blob(Seq<u8>),
    Dict(Seq<(Seq<char>, Datum)>),
    FnPtr(Seq<char>, Seq<Datum>, FnPtrType),
    TimeStamp(u64),
    Range(i64, i64),
    Variant(Seq<char>, u64),
    Shared(usize),
}

/// The model of a [`Dynamic`].
#[verifier::ext_equal]
pub struct Datum {
    pub data: Data,
    pub tag: i32,
    pub mode: AccessMode,
}

impl Dict {
    /// Each key stands once.
    #[verifier::type_invariant]
    pub(crate) open(crate) spec fn keyed(self) -> bool {
        forall|i: int, j: int|
            0 <= i < j < self.pairs@.len() ==> (#[trigger] self.pairs@[i]).0@ != (
            #[trigger] self.pairs@[j]).0@
    }

    /// The entries as a mathematical object.
    pub open(crate) spec fn view(self) -> Seq<(Seq<char>, Datum)> {
        pair_views(self.pairs@)
    }
}

impl Dict {
    /// Take the entries out, leaving none. Their keys stand once.
    pub(crate) fn take_pairs(&mut self) -> (pairs: Vec<(String, Dynamic)>)
        ensures
            pairs == old(self).pairs,
            final(self).pairs@.len() == 0,
            forall|i: int, j: int|
                0 <= i < j < pairs@.len() ==> (#[trigger] pairs@[i]).0@ != (
                #[trigger] pairs@[j]).0@,
    {
        let mut held = Dict { pairs: Vec::new() };
        core::mem::swap(self, &mut held);
        proof {
            use_type_invariant(&held);
        }
        held.pairs
    }
}

impl Dynamic {
    /// The value as a mathematical object.
    pub open(crate) spec fn view(self) -> Datum
        decreases self,
    {
        Datum {
            data: match self.value {
                Union::Unit => Data::Unit,
                Union::Bool(b) => Data::Bool(b),
                Union::Str(s) => Data::Str(s@),
                Union::Char(c) => Data::Char(c),
                Union::Int(i) => Data::Int(i),
                Union::Float(f) => Data::Float(f),
                Union::Array(a) => Data::Array(
                    Seq::new(
                        a@.len(),
                        |i: int|
                            if 0 <= i < a@.len() {
                                a@[i].view()
                            } else {
                                arbitrary()
                            },
                    ),
                ),
                Union::Blob(b) => Data::Blob(b@),
                Union::Dict(a) => Data::Dict(
                    Seq::new(
                        a.pairs@.len(),
                        |i: int|
                            if 0 <= i < a.pairs@.len() {
                                (a.pairs@[i].0@, a.pairs@[i].1.view())
                            } else {
                                arbitrary()
                            },
                    ),
                ),
                Union::FnPtr(p) => Data::FnPtr(
                    p.name@,
                    Seq::new(
                        p.curry@.len(),
                        |i: int|
                            if 0 <= i < p.curry@.len() {
                                p.curry@[i].view()
                            } else {
                                arbitrary()
                            },
                    ),
                    p.typ,
                ),
                Union::TimeStamp(t) => Data::TimeStamp(t),
                Union::Range(a, b) => Data::Range(a, b),
                Union::Variant(name, id) => Data::Variant(name@, id),
                Union::Shared(cell) => Data::Shared(cell),
            },
            tag: self.tag,
            mode: self.mode,
        }
    }
}

/// The models of a row of values.
pub open spec fn all_views(row: Seq<Dynamic>) -> Seq<Datum> {
    Seq::new(row.len(), |i: int| row[i]@)
}

/// The models of the entries of an object map.
pub open spec fn pair_views(row: Seq<(String, Dynamic)>) -> Seq<(Seq<char>, Datum)> {
    Seq::new(row.len(), |i: int| (row[i].0@, row[i].1@))
}

/// What the model of each composite value is, in terms of its parts.
pub broadcast proof fn view_of_composite(d: Dynamic)
    ensures
        (#[trigger] d@).tag == d.tag,
        d@.mode == d.mode,
        d.value matches Union::Array(a) ==> d@.data == Data::Array(all_views(a@)),
        d.value matches Union::Dict(a) ==> d@.data == Data::Dict(a@),
        d.value matches Union::FnPtr(p) ==> d@.data == Data::FnPtr(
            p.name@,
            all_views(p.curry@),
            p.typ,
        ),
{
    match d.value {
        Union::Array(a) => {
            assert(d@.data->Array_0 =~= all_views(a@));
        },
        Union::Dict(a) => {
            assert(d@.data->Dict_0 =~= a@);
        },
        Union::FnPtr(p) => {
            assert(d@.data->FnPtr_1 =~= all_views(p.curry@));
        },
        _ => {},
    }
}

/// A fresh value: no tag, and free to be written.
pub open spec fn datum(data: Data) -> Datum {
    Datum { data, tag: 0, mode: AccessMode::ReadWrite }
}

pub open spec fn unit() -> Datum {
    datum(Data::Unit)
}

/// What copying a value gives: the same value, read-write all the way down,
/// however the original was marked. A shared value is copied as its cell.
pub open spec fn copied(d: Datum) -> Datum
    decreases d,
{
    Datum {
        data: match d.data {
            Data::Array(a) => Data::Array(
                Seq::new(
                    a.len(),
                    |i: int|
                        if 0 <= i < a.len() {
                            copied(a[i])
                        } else {
                            arbitrary()
                        },
                ),
            ),
            Data::Dict(a) => Data::Dict(
                Seq::new(
                    a.len(),
                    |i: int|
                        if 0 <= i < a.len() {
                            (a[i].0, copied(a[i].1))
                        } else {
                            arbitrary()
                        },
                ),
            ),
            Data::FnPtr(name, curry, typ) => Data::FnPtr(
                name,
                Seq::new(
                    curry.len(),
                    |i: int|
                        if 0 <= i < curry.len() {
                            copied(curry[i])
                        } else {
                            arbitrary()
                        },
                ),
                typ,
            ),
            other => other,
        },
        tag: d.tag,
        mode: AccessMode::ReadWrite,
    }
}

pub open spec fn all_copied(row: Seq<Datum>) -> Seq<Datum> {
    Seq::new(row.len(), |i: int| copied(row[i]))
}

pub open spec fn pairs_copied(row: Seq<(Seq<char>, Datum)>) -> Seq<(Seq<char>, Datum)> {
    Seq::new(row.len(), |i: int| (row[i].0, copied(row[i].1)))
}

/// A copy in terms of the copies of its parts.
pub broadcast proof fn copied_of_composite(d: Datum)
    ensures
        (#[trigger] copied(d)).tag == d.tag,
        copied(d).mode == AccessMode::ReadWrite,
        d.data matches Data::Array(a) ==> copied(d).data == Data::Array(all_copied(a)),
        d.data matches Data::Dict(a) ==> copied(d).data == Data::Dict(pairs_copied(a)),
        d.data matches Data::FnPtr(name, curry, typ) ==> copied(d).data == Data::FnPtr(
            name,
            all_copied(curry),
            typ,
        ),
        !(d.data is Array || d.data is Dict || d.data is FnPtr) ==> copied(d).data == d.data,
{
    match d.data {
        Data::Array(a) => {
            assert(copied(d).data->Array_0 =~= all_copied(a));
        },
        Data::Dict(a) => {
            assert(copied(d).data->Dict_0 =~= pairs_copied(a));
        },
        Data::FnPtr(name, curry, typ) => {
            assert(copied(d).data->FnPtr_1 =~= all_copied(curry));
        },
        _ => {},
    }
}

fn copy_row(row: &Vec<Dynamic>) -> (out: Vec<Dynamic>)
    ensures
        all_views(out@) == all_copied(all_views(row@)),
    decreases row,
{
    let mut out: Vec<Dynamic> = Vec::new();
    let mut i: usize = 0;
    while i < row.len()
        invariant
            i <= row.len(),
            out@.len() == i,
            forall|j: int| 0 <= j < i ==> (#[trigger] out@[j])@ == copied(row@[j]@),
        decreases row.len() - i,
    {
        proof {
            assert(decreases_to!(row@ => row@[i as int]));
            assert(decreases_to!(*row => row@));
        }
        out.push(clone_value(&row[i]));
        i = i + 1;
    }
    assert(all_views(out@) =~= all_copied(all_views(row@)));
    out
}

fn copy_pairs(row: &Dict) -> (out: Dict)
    ensures
        out@ == pairs_copied(row@),
    decreases row,
{
    let mut out: Vec<(String, Dynamic)> = Vec::new();
    let mut i: usize = 0;
    proof {
        use_type_invariant(row);
    }
    while i < row.pairs.len()
        invariant
            i <= row.pairs@.len(),
            out@.len() == i,
            forall|j: int|
                0 <= j < i ==> (#[trigger] out@[j]).0@ == row.pairs@[j].0@ && out@[j].1@ == copied(
                    row.pairs@[j].1@,
                ),
        decreases row.pairs.len() - i,
    {
        proof {
            assert(decreases_to!(row.pairs@[i as int] => row.pairs@[i as int].1));
            assert(decreases_to!(row.pairs@ => row.pairs@[i as int]));
            assert(decreases_to!(row.pairs => row.pairs@));
        }
        out.push((row.pairs[i].0.clone(), clone_value(&row.pairs[i].1)));
        i = i + 1;
    }
    assert(pair_views(out@) =~= pairs_copied(row@));
    Dict { pairs: out }
}

/// A copy of a value that owns nothing, or nothing for one that does.
fn plain_copy(value: &Dynamic) -> (copy: Option<Dynamic>)
    ensures
        is_plain_data(value@.data) ==> copy is Some && copy->0@ == copied(value@),
        !is_plain_data(value@.data) ==> copy is None,
{
    let held = match &value.value {
        Union::Unit => Union::Unit,
        Union::Bool(b) => Union::Bool(*b),
        Union::Char(c) => Union::Char(*c),
        Union::Int(i) => Union::Int(*i),
        Union::Float(f) => Union::Float(*f),
        _ => return None,
    };
    Some(Dynamic { value: held, tag: value.tag, mode: AccessMode::ReadWrite })
}

/// The kinds of value that own neither an allocation nor a share of a cell.
pub open spec fn is_plain_data(data: Data) -> bool {
    data is Unit || data is Bool || data is Char || data is Int || data is Float
}

/// Copy a value.
pub fn clone_value(value: &Dynamic) -> (copy: Dynamic)
    ensures
        copy@ == copied(value@),
    decreases value,
{
    broadcast use {view_of_composite, copied_of_composite};

    if let Some(copy) = plain_copy(value) {
        return copy;
    }
    let held = match &value.value {
        Union::Unit => Union::Unit,
        Union::Bool(b) => Union::Bool(*b),
        Union::Str(s) => Union::Str(s.clone()),
        Union::Char(c) => Union::Char(*c),
        Union::Int(i) => Union::Int(*i),
        Union::Float(f) => Union::Float(*f),
        Union::Array(a) => Union::Array(copy_row(a)),
        Union::Blob(b) => Union::Blob(copy_bytes(b)),
        Union::Dict(a) => Union::Dict(copy_pairs(a)),
        Union::FnPtr(p) => Union::FnPtr(
            FnPtr { name: p.name.clone(), curry: copy_row(&p.curry), typ: p.typ },
        ),
        Union::TimeStamp(t) => Union::TimeStamp(*t),
        Union::Range(a, b) => Union::Range(*a, *b),
        Union::Variant(name, id) => Union::Variant(name.clone(), *id),
        Union::Shared(cell) => Union::Shared(*cell),
    };
    Dynamic { value: held, tag: value.tag, mode: AccessMode::ReadWrite }
}

/// Copy a row of bytes.
pub fn copy_bytes(bytes: &Vec<u8>) -> (out: Vec<u8>)
    ensures
        out@ == bytes@,
{
    let mut out: Vec<u8> = Vec::new();
    let mut i: usize = 0;
    while i < bytes.len()
        invariant
            i <= bytes.len(),
            out@ == bytes@.subrange(0, i as int),
        decreases bytes.len() - i,
    {
        out.push(bytes[i]);
        i = i + 1;
    }
    assert(bytes@.subrange(0, bytes@.len() as int) =~= bytes@);
    out
}

/// Put a value in a slot, giving up what the slot held.
pub fn overwrite(slot: &mut Dynamic, value: Dynamic)
    ensures
        *final(slot) == value,
{
    *slot = value;
}

/// A value marked with an access mode, elements of arrays and maps included.
pub open spec fn with_mode(d: Datum, mode: AccessMode) -> Datum
    decreases d,
{
    Datum {
        data: match d.data {
            Data::Array(a) => Data::Array(
                Seq::new(
                    a.len(),
                    |i: int|
                        if 0 <= i < a.len() {
                            with_mode(a[i], mode)
                        } else {
                            arbitrary()
                        },
                ),
            ),
            Data::Dict(a) => Data::Dict(
                Seq::new(
                    a.len(),
                    |i: int|
                        if 0 <= i < a.len() {
                            (a[i].0, with_mode(a[i].1, mode))
                        } else {
                            arbitrary()
                        },
                ),
            ),
            other => other,
        },
        tag: d.tag,
        mode,
    }
}

pub open spec fn all_marked(row: Seq<Datum>, mode: AccessMode) -> Seq<Datum> {
    Seq::new(row.len(), |i: int| with_mode(row[i], mode))
}

pub open spec fn pairs_marked(row: Seq<(Seq<char>, Datum)>, mode: AccessMode) -> Seq<
    (Seq<char>, Datum),
> {
    Seq::new(row.len(), |i: int| (row[i].0, with_mode(row[i].1, mode)))
}

/// Marking a composite value marks its parts.
proof fn marked_composite(d: Datum, mode: AccessMode)
    ensures
        d.data matches Data::Array(a) ==> with_mode(d, mode).data == Data::Array(
            all_marked(a, mode),
        ),
        d.data matches Data::Dict(a) ==> with_mode(d, mode).data == Data::Dict(
            pairs_marked(a, mode),
        ),
{
    match d.data {
        Data::Array(a) => {
            assert(with_mode(d, mode).data->Array_0 =~= all_marked(a, mode));
        },
        Data::Dict(a) => {
            assert(with_mode(d, mode).data->Dict_0 =~= pairs_marked(a, mode));
        },
        _ => {},
    }
}

fn mark_row(row: &mut Vec<Dynamic>, mode: AccessMode)
    ensures
        all_views(final(row)@) == all_marked(all_views(old(row)@), mode),
    decreases *old(row),
{
    let ghost before = *row;
    let mut i: usize = 0;
    while i < row.len()
        invariant
            i <= row@.len() == before@.len(),
            before == *old(row),
            forall|j: int| 0 <= j < i ==> (#[trigger] row@[j])@ == with_mode(before@[j]@, mode),
            forall|j: int| i <= j < row@.len() ==> #[trigger] row@[j] == before@[j],
        decreases row@.len() - i,
    {
        proof {
            assert(decreases_to!(before@ => before@[i as int]));
            assert(decreases_to!(before => before@));
        }
        row[i].set_access_mode(mode);
        i = i + 1;
    }
    assert(all_views(row@) =~= all_marked(all_views(before@), mode));
}

fn mark_pairs(row: &mut Dict, mode: AccessMode)
    ensures
        final(row)@ == pairs_marked(old(row)@, mode),
    decreases *old(row),
{
    let ghost before = *row;
    let mut pairs = row.take_pairs();
    let mut i: usize = 0;
    while i < pairs.len()
        invariant
            i <= pairs@.len() == before.pairs@.len(),
            before == *old(row),
            forall|j: int|
                0 <= j < i ==> (#[trigger] pairs@[j]).0@ == before.pairs@[j].0@
                    && pairs@[j].1@ == with_mode(before.pairs@[j].1@, mode),
            forall|j: int| i <= j < pairs@.len() ==> #[trigger] pairs@[j] == before.pairs@[j],
        decreases pairs@.len() - i,
    {
        proof {
            assert(decreases_to!(before.pairs@[i as int] => before.pairs@[i as int].1));
            assert(decreases_to!(before.pairs@ => before.pairs@[i as int]));
            assert(decreases_to!(before.pairs => before.pairs@));
            assert(decreases_to!(before => before.pairs));
        }
        pairs[i].1.set_access_mode(mode);
        i = i + 1;
    }
    *row = Dict { pairs };
    assert(row@ =~= pairs_marked(before@, mode));
}

impl Dynamic {
    /// Mark a value, and what it contains, with an access mode.
    pub fn set_access_mode(&mut self, mode: AccessMode)
        ensures
            final(self)@ == with_mode(old(self)@, mode),
        decreases *old(self),
    {
        broadcast use view_of_composite;

        let ghost before = *self;
        match &mut self.value {
            Union::Array(a) => {
                mark_row(a, mode);
            },
            Union::Dict(a) => {
                mark_pairs(a, mode);
            },
            _ => {},
        }
        self.mode = mode;
        proof {
            marked_composite(before@, mode);
        }
    }

    /// The same value, read-only.
    pub fn into_read_only(self) -> (out: Dynamic)
        ensures
            out@ == with_mode(self@, AccessMode::ReadOnly),
    {
        let mut out = self;
        out.set_access_mode(AccessMode::ReadOnly);
        out
    }

    /// The unit value.
    pub fn unit() -> (d: Dynamic)
        ensures
            d@ == unit(),
    {
        Dynamic::of(Union::Unit)
    }

    /// A fresh value: no tag, and free to be written.
    pub fn of(value: Union) -> (d: Dynamic)
        ensures
            d == (Dynamic { value, tag: 0, mode: AccessMode::ReadWrite }),
    {
        Dynamic { value, tag: 0, mode: AccessMode::ReadWrite }
    }

    /// An integer.
    pub fn from_int(i: i64) -> (d: Dynamic)
        ensures
            d@ == datum(Data::Int(i)),
    {
        Dynamic::of(Union::Int(i))
    }

    /// A boolean.
    pub fn from_bool(b: bool) -> (d: Dynamic)
        ensures
            d@ == datum(Data::Bool(b)),
    {
        Dynamic::of(Union::Bool(b))
    }

    /// A string.
    pub fn from_text(s: String) -> (d: Dynamic)
        ensures
            d@ == datum(Data::Str(s@)),
    {
        Dynamic::of(Union::Str(s))
    }

    /// An array.
    pub fn from_array(a: Vec<Dynamic>) -> (d: Dynamic)
        ensures
            d@ == datum(Data::Array(all_views(a@))),
    {
        broadcast use view_of_composite;

        Dynamic::of(Union::Array(a))
    }

    /// An object map.
    pub fn from_dict(a: Dict) -> (d: Dynamic)
        ensures
            d@ == datum(Data::Dict(a@)),
    {
        broadcast use view_of_composite;

        Dynamic::of(Union::Dict(a))
    }

    /// A function pointer.
    pub fn from_fn_ptr(p: FnPtr) -> (d: Dynamic)
        ensures
            d@ == datum(Data::FnPtr(p.name@, all_views(p.curry@), p.typ)),
    {
        broadcast use view_of_composite;

        Dynamic::of(Union::FnPtr(p))
    }

    /// Whether this is the unit value.
    pub fn is_unit(&self) -> (r: bool)
        ensures
            r == (self@.data is Unit),
    {
        matches!(self.value, Union::Unit)
    }

    /// The integer this is, or the name of the type it is instead.
    pub fn as_int(&self) -> (r: Result<i64, String>)
        ensures
            match r {
                Ok(i) => self@.data == Data::Int(i),
                Err(name) => !(self@.data is Int) && name@ == name_of_type(self@.data),
            },
    {
        match self.value {
            Union::Int(i) => Ok(i),
            _ => Err(type_text(self)),
        }
    }

    /// Whether this is a shared cell.
    pub fn is_shared(&self) -> (r: bool)
        ensures
            r == (self@.data is Shared),
    {
        matches!(self.value, Union::Shared(_))
    }

    /// Whether this is a value of a host type.
    pub fn is_variant(&self) -> (r: bool)
        ensures
            r == is_host_data(self@.data),
    {
        matches!(self.value, Union::Variant(_, _) | Union::Range(_, _))
    }

    /// Whether this is a string.
    pub fn is_string(&self) -> (r: bool)
        ensures
            r == (self@.data is Str),
    {
        matches!(self.value, Union::Str(_))
    }

    /// Move the value out, leaving unit behind.
    pub fn take(&mut self) -> (out: Dynamic)
        ensures
            out == *old(self),
            final(self)@ == unit(),
    {
        let mut out = Dynamic::unit();
        core::mem::swap(self, &mut out);
        out
    }
}

/// Values whose type is the host's rather than one of the machine's own.
pub open spec fn is_host_data(data: Data) -> bool {
    data is Variant || data is Range
}

/// Which kind of value this is, or zero for the kinds whose type the kind
/// alone does not decide.
pub open spec fn code_of(data: Data) -> u8 {
    match data {
        Data::Unit => 1,
        Data::Bool(_) => 2,
        Data::Str(_) => 3,
        Data::Char(_) => 4,
        Data::Int(_) => 5,
        Data::Float(_) => 6,
        Data::Array(_) => 8,
        Data::Blob(_) => 9,
        Data::Dict(_) => 10,
        Data::FnPtr(_, _, _) => 11,
        Data::TimeStamp(_) => 12,
        _ => 0,
    }
}

/// The kind code of a value.
pub fn type_code(value: &Dynamic) -> (code: u8)
    ensures
        code == code_of(value@.data),
{
    match &value.value {
        Union::Unit => 1,
        Union::Bool(_) => 2,
        Union::Str(_) => 3,
        Union::Char(_) => 4,
        Union::Int(_) => 5,
        Union::Float(_) => 6,
        Union::Array(_) => 8,
        Union::Blob(_) => 9,
        Union::Dict(_) => 10,
        Union::FnPtr(_) => 11,
        Union::TimeStamp(_) => 12,
        _ => 0,
    }
}

/// The name of a value's type.
pub open spec fn name_of_type(data: Data) -> Seq<char> {
    match data {
        Data::Unit => "()"@,
        Data::Bool(_) => "bool"@,
        Data::Str(_) => "string"@,
        Data::Char(_) => "char"@,
        Data::Int(_) => "i64"@,
        Data::Float(_) => "f64"@,
        Data::Array(_) => "array"@,
        Data::Blob(_) => "blob"@,
        Data::Dict(_) => "map"@,
        Data::FnPtr(_, _, _) => "Fn"@,
        Data::TimeStamp(_) => "timestamp"@,
        Data::Range(_, _) => "core::ops::range::Range<i64>"@,
        Data::Variant(name, _) => name,
        Data::Shared(_) => "shared"@,
    }
}

/// The name of a value's type.
pub fn type_text(value: &Dynamic) -> (name: String)
    ensures
        name@ == name_of_type(value@.data),
{
    match &value.value {
        Union::Unit => "()".to_owned(),
        Union::Bool(_) => "bool".to_owned(),
        Union::Str(_) => "string".to_owned(),
        Union::Char(_) => "char".to_owned(),
        Union::Int(_) => "i64".to_owned(),
        Union::Float(_) => "f64".to_owned(),
        Union::Array(_) => "array".to_owned(),
        Union::Blob(_) => "blob".to_owned(),
        Union::Dict(_) => "map".to_owned(),
        Union::FnPtr(_) => "Fn".to_owned(),
        Union::TimeStamp(_) => "timestamp".to_owned(),
        Union::Range(_, _) => "core::ops::range::Range<i64>".to_owned(),
        Union::Variant(name, _) => name.clone(),
        Union::Shared(_) => "shared".to_owned(),
    }
}

} // verus!
