//! A compiled program: its code and the pools its instructions name.
use vstd::prelude::*;

use crate::arith::BinOpKind;
use crate::position::{nowhere, Position};
use crate::text::same_text;
use crate::value::{Dynamic, Union};

verus! {

/// Where a body of code begins and where it ends.
#[derive(Clone, Copy, Debug, PartialEq, Eq, Structural)]
pub struct Chunk {
    pub entry: u32,
    pub end: u32,
}

/// A compiled function.
#[derive(Debug)]
pub struct Function {
    /// Its name, in the name pool.
    pub name: u32,
    pub param_names: Vec<String>,
    /// The type it is a method of, in the name pool.
    pub this_type: Option<u32>,
    pub takes_this: bool,
    pub chunk: Chunk,
}

/// An operator assignment.
#[derive(Clone, Copy, Debug, PartialEq, Eq, Structural)]
pub struct AssignOp {
    /// The operator, where it is one that can be said by number.
    pub kind: Option<BinOpKind>,
    /// `+=`, in the name pool.
    pub op_assign_name: u32,
    /// `+`, in the name pool.
    pub op_name: u32,
}

/// What a chain starts from.
#[derive(Clone, Copy, Debug, PartialEq, Eq, Structural)]
pub enum Root {
    Local { slot: u16, name: u32 },
    Named { name: u32, pos: Position },
    This { pos: Position },
    /// A value on the operand stack.
    Temporary,
}

/// One step of a chain. A step that skips unit stops the chain there.
#[derive(Clone, Copy, Debug, PartialEq, Eq, Structural)]
pub enum Step {
    Index { operand: u16, skip: bool, pos: Position, bracket: Position },
    Property { name: u32, getter: u32, setter: u32, skip: bool, pos: Position },
    Method { name: u32, argc: u8, operand: u16, skip: bool, pos: Position },
}

/// What a chain does when it gets there.
#[derive(Clone, Copy, Debug, PartialEq, Eq, Structural)]
pub enum Tail {
    Read,
    /// Assign, through an operator of the pool where there is one.
    Assign { op: Option<u16> },
}

/// `a.b[i].c`, read or assigned to.
#[derive(Debug)]
pub struct Chain {
    pub root: Root,
    pub steps: Vec<Step>,
    /// How many operands the steps take.
    pub operands: u16,
    pub tail: Tail,
}

/// A case of a `switch`: a literal and where it goes.
#[derive(Debug)]
pub struct Case {
    pub literal: Dynamic,
    pub target: u32,
}

/// A case of a `switch` that is a range of integers.
#[derive(Clone, Copy, Debug, PartialEq, Eq, Structural)]
pub struct RangeCase {
    pub from: i64,
    pub to: i64,
    pub inclusive: bool,
    pub target: u32,
}

/// A `switch`: its literals, then its ranges, each in order, and where
/// everything else goes.
#[derive(Debug)]
pub struct Switch {
    pub cases: Vec<Case>,
    pub ranges: Vec<RangeCase>,
    pub default: u32,
}

/// A compiled program.
#[derive(Debug)]
pub struct Program {
    /// Which program this is, among those a host holds.
    pub id: u64,
    pub code: Vec<u8>,
    pub names: Vec<String>,
    pub constants: Vec<Dynamic>,
    pub tokens: Vec<String>,
    pub assign_ops: Vec<AssignOp>,
    pub chains: Vec<Chain>,
    pub switches: Vec<Switch>,
    pub functions: Vec<Function>,
    /// How many fragments were left for the host to interpret.
    pub residuals: u32,
    /// The position of the instruction at each address.
    pub positions: Vec<Position>,
    pub main: Chunk,
    pub max_stack: u32,
    pub source: Option<String>,
    /// The host's library of functions left to it.
    pub lib: Option<u64>,
    /// The host's resolver of the modules this program brings with it.
    pub resolver: Option<u64>,
}

impl Step {
    /// Whether the step stops the chain at unit.
    pub open spec fn skips(self) -> bool {
        match self {
            Step::Index { skip, .. } => skip,
            Step::Property { skip, .. } => skip,
            Step::Method { skip, .. } => skip,
        }
    }

    /// Whether the step stops the chain at unit.
    pub fn coalesces(&self) -> (r: bool)
        ensures
            r == self.skips(),
    {
        match self {
            Step::Index { skip, .. } => *skip,
            Step::Property { skip, .. } => *skip,
            Step::Method { skip, .. } => *skip,
        }
    }

    /// How many positions the step has.
    pub open spec fn places(self) -> nat {
        if self is Index {
            2
        } else {
            1
        }
    }
}

/// How many positions these steps have between them.
pub open spec fn places_of(steps: Seq<Step>) -> nat
    decreases steps.len(),
{
    if steps.len() == 0 {
        0
    } else {
        places_of(steps.drop_last()) + steps.last().places()
    }
}

/// A number held to what thirty-two bits can say.
pub open spec fn clamped(n: nat) -> u32 {
    if n > u32::MAX {
        u32::MAX
    } else {
        n as u32
    }
}

fn capped_sum(a: u32, b: u32) -> (n: u32)
    ensures
        n == clamped((a + b) as nat),
{
    if a > u32::MAX - b {
        u32::MAX
    } else {
        a + b
    }
}

fn count_places(steps: &Vec<Step>, upto: usize) -> (n: u32)
    requires
        upto <= steps@.len(),
    ensures
        n == clamped(places_of(steps@.subrange(0, upto as int))),
{
    let mut n: u32 = 0;
    let mut i: usize = 0;
    while i < upto
        invariant
            i <= upto <= steps@.len(),
            n == clamped(places_of(steps@.subrange(0, i as int))),
        decreases upto - i,
    {
        let more: u32 = if matches!(steps[i], Step::Index { .. }) {
            2
        } else {
            1
        };
        n = capped_sum(n, more);
        assert(steps@.subrange(0, i + 1).drop_last() =~= steps@.subrange(0, i as int));
        assert(steps@.subrange(0, i + 1).last() == steps@[i as int]);
        i = i + 1;
    }
    n
}

impl Chain {
    /// Whether the chain assigns.
    pub open spec fn writes(self) -> bool {
        self.tail is Assign
    }

    /// How many operands the chain takes off the stack.
    pub open spec fn taken(self) -> int {
        self.operands + (if self.root is Temporary {
            1int
        } else {
            0
        }) + (if self.writes() {
            1int
        } else {
            0
        })
    }

    /// The positions the root has.
    pub open spec fn root_places(self) -> nat {
        if self.root is Named || self.root is This {
            1
        } else {
            0
        }
    }

    /// How many positions the chain has.
    pub open spec fn places(self) -> nat {
        self.root_places() + places_of(self.steps@)
    }

    /// The slot of a step's first position.
    pub open spec fn slot_of(self, step: int) -> Option<u32> {
        if 0 <= step < self.steps@.len() {
            Some(clamped(self.root_places() + places_of(self.steps@.subrange(0, step))))
        } else {
            None
        }
    }

    /// Whether the chain assigns.
    pub fn assigns(&self) -> (r: bool)
        ensures
            r == self.writes(),
    {
        matches!(self.tail, Tail::Assign { .. })
    }

    /// How many operands the chain takes off the stack.
    pub fn consumes(&self) -> (n: usize)
        ensures
            n == self.taken(),
    {
        let mut n: usize = self.operands as usize;
        if matches!(self.root, Root::Temporary) {
            n = n + 1;
        }
        if self.assigns() {
            n = n + 1;
        }
        n
    }

    fn root_count(&self) -> (n: u32)
        ensures
            n == self.root_places(),
    {
        if matches!(self.root, Root::Named { .. } | Root::This { .. }) {
            1
        } else {
            0
        }
    }

    /// How many positions the chain has.
    pub fn position_slots(&self) -> (n: u32)
        ensures
            n == clamped(self.places()),
    {
        assert(self.steps@.subrange(0, self.steps@.len() as int) =~= self.steps@);
        capped_sum(self.root_count(), count_places(&self.steps, self.steps.len()))
    }

    /// The slot of a step's first position.
    pub fn step_slot(&self, step: usize) -> (slot: Option<u32>)
        ensures
            slot == self.slot_of(step as int),
    {
        if step < self.steps.len() {
            Some(capped_sum(self.root_count(), count_places(&self.steps, step)))
        } else {
            None
        }
    }
}

/// How many positions these chains have between them.
pub open spec fn chain_places(chains: Seq<Chain>) -> nat
    decreases chains.len(),
{
    if chains.len() == 0 {
        0
    } else {
        chain_places(chains.drop_last()) + chains.last().places()
    }
}

/// Where a chain's slots start, counting those of the chains before it.
pub open spec fn slot_base(p: Program, index: int) -> u32 {
    clamped(
        chain_places(
            p.chains@.subrange(
                0,
                if index <= p.chains@.len() {
                    index
                } else {
                    p.chains@.len() as int
                },
            ),
        ),
    )
}

/// Where a chain's slots start.
pub fn chain_slot_base(p: &Program, index: usize) -> (n: u32)
    ensures
        n == slot_base(*p, index as int),
{
    let upto: usize = if index <= p.chains.len() {
        index
    } else {
        p.chains.len()
    };
    let mut n: u32 = 0;
    let mut i: usize = 0;
    while i < upto
        invariant
            i <= upto <= p.chains@.len(),
            n == clamped(chain_places(p.chains@.subrange(0, i as int))),
        decreases upto - i,
    {
        n = capped_sum(n, p.chains[i].position_slots());
        assert(p.chains@.subrange(0, i + 1).drop_last() =~= p.chains@.subrange(0, i as int));
        assert(p.chains@.subrange(0, i + 1).last() == p.chains@[i as int]);
        i = i + 1;
    }
    n
}

/// Two slot numbers added, held to thirty-two bits.
pub fn slot_sum(a: u32, b: u32) -> (n: u32)
    ensures
        n == clamped((a + b) as nat),
{
    capped_sum(a, b)
}

impl RangeCase {
    /// Whether an integer is in the range.
    pub open spec fn holds(self, i: i64) -> bool {
        self.from <= i && (i < self.to || (self.inclusive && i == self.to))
    }

    /// Whether an integer is in the range.
    pub fn contains(&self, i: i64) -> (r: bool)
        ensures
            r == self.holds(i),
    {
        self.from <= i && (i < self.to || (self.inclusive && i == self.to))
    }
}

/// Two literals are the same value of the same kind.
pub open spec fn same_literal(a: crate::value::Data, b: crate::value::Data) -> bool {
    match (a, b) {
        (crate::value::Data::Unit, crate::value::Data::Unit) => true,
        (crate::value::Data::Bool(x), crate::value::Data::Bool(y)) => x == y,
        (crate::value::Data::Int(x), crate::value::Data::Int(y)) => x == y,
        (crate::value::Data::Float(x), crate::value::Data::Float(y)) => x == y,
        (crate::value::Data::Char(x), crate::value::Data::Char(y)) => x == y,
        (crate::value::Data::Str(x), crate::value::Data::Str(y)) => x == y,
        _ => false,
    }
}

fn is_literal(a: &Dynamic, b: &Dynamic) -> (r: bool)
    ensures
        r == same_literal(a@.data, b@.data),
{
    match (&a.value, &b.value) {
        (Union::Unit, Union::Unit) => true,
        (Union::Bool(x), Union::Bool(y)) => *x == *y,
        (Union::Int(x), Union::Int(y)) => *x == *y,
        (Union::Float(x), Union::Float(y)) => *x == *y,
        (Union::Char(x), Union::Char(y)) => *x == *y,
        (Union::Str(x), Union::Str(y)) => same_text(x.as_str(), y.as_str()),
        _ => false,
    }
}

impl Switch {
    /// Where an integer goes, looking from range `i` on.
    pub open spec fn ranged(self, n: i64, i: int) -> u32
        decreases self.ranges@.len() - i,
    {
        if i < 0 || i >= self.ranges@.len() {
            self.default
        } else if self.ranges@[i].holds(n) {
            self.ranges@[i].target
        } else {
            self.ranged(n, i + 1)
        }
    }

    /// Where a value goes, looking from case `i` on: to the first literal it
    /// is, else to the first range it is in, else to the default.
    pub open spec fn goes(self, subject: crate::value::Data, i: int) -> u32
        decreases self.cases@.len() - i,
    {
        if i < 0 || i >= self.cases@.len() {
            match subject {
                crate::value::Data::Int(n) => self.ranged(n, 0),
                _ => self.default,
            }
        } else if same_literal(self.cases@[i].literal@.data, subject) {
            self.cases@[i].target
        } else {
            self.goes(subject, i + 1)
        }
    }

    fn dispatch_range(&self, n: i64) -> (target: u32)
        ensures
            target == self.ranged(n, 0),
    {
        let mut i: usize = 0;
        while i < self.ranges.len()
            invariant
                i <= self.ranges@.len(),
                self.ranged(n, 0) == self.ranged(n, i as int),
            decreases self.ranges@.len() - i,
        {
            if self.ranges[i].contains(n) {
                return self.ranges[i].target;
            }
            i = i + 1;
        }
        self.default
    }

    /// Where a value goes.
    pub fn dispatch(&self, subject: &Dynamic) -> (target: u32)
        ensures
            target == self.goes(subject@.data, 0),
    {
        let mut i: usize = 0;
        while i < self.cases.len()
            invariant
                i <= self.cases@.len(),
                self.goes(subject@.data, 0) == self.goes(subject@.data, i as int),
            decreases self.cases@.len() - i,
        {
            if is_literal(&self.cases[i].literal, subject) {
                return self.cases[i].target;
            }
            i = i + 1;
        }
        match &subject.value {
            Union::Int(n) => self.dispatch_range(*n),
            _ => self.default,
        }
    }

    /// The integer a case is, if it is one.
    pub open spec fn key_at(self, i: int) -> Option<i64> {
        if 0 <= i < self.cases@.len() {
            match self.cases@[i].literal@.data {
                crate::value::Data::Int(n) => Some(n),
                _ => None,
            }
        } else {
            None
        }
    }

    /// The integer a case is, if it is one.
    pub fn int_key(&self, i: usize) -> (key: Option<i64>)
        ensures
            key == self.key_at(i as int),
    {
        if i < self.cases.len() {
            match self.cases[i].literal.value {
                Union::Int(n) => Some(n),
                _ => None,
            }
        } else {
            None
        }
    }

    /// A range, or one that holds nothing and goes nowhere past the last.
    pub open spec fn range_at(self, i: int) -> RangeCase {
        if 0 <= i < self.ranges@.len() {
            self.ranges@[i]
        } else {
            RangeCase { from: 0, to: 0, inclusive: false, target: 0 }
        }
    }

    /// A range, or one that holds nothing and goes nowhere past the last.
    pub fn range(&self, i: usize) -> (range: RangeCase)
        ensures
            range == self.range_at(i as int),
    {
        if i < self.ranges.len() {
            self.ranges[i]
        } else {
            RangeCase { from: 0, to: 0, inclusive: false, target: 0 }
        }
    }
}

/// A function a plain call of this name and argument count reaches.
pub open spec fn plain_match(f: Function, name: u32, argc: int) -> bool {
    f.name == name && f.param_names@.len() == argc && f.this_type is None
}

impl Program {
    /// The name at a pool index.
    pub open spec fn name_of(self, i: int) -> Option<Seq<char>> {
        if 0 <= i < self.names@.len() {
            Some(self.names@[i]@)
        } else {
            None
        }
    }

    /// The position of an address, or nowhere in a stripped program.
    pub open spec fn pos_of(self, pc: int) -> Position {
        if 0 <= pc < self.positions@.len() {
            self.positions@[pc]
        } else {
            nowhere()
        }
    }

    /// The first plain function of a name and argument count, from `i` on.
    pub open spec fn plain_from(self, name: u32, argc: int, i: int) -> Option<int>
        decreases self.functions@.len() - i,
    {
        if i < 0 || i >= self.functions@.len() {
            None
        } else if plain_match(self.functions@[i], name, argc) {
            Some(i)
        } else {
            self.plain_from(name, argc, i + 1)
        }
    }

    /// The first plain function of a name's text and argument count, from `i`.
    pub open spec fn texted_from(self, name: Seq<char>, argc: int, i: int) -> Option<int>
        decreases self.functions@.len() - i,
    {
        if i < 0 || i >= self.functions@.len() {
            None
        } else {
            let f = self.functions@[i];
            if f.this_type is None && f.param_names@.len() == argc && self.name_of(f.name as int)
                == Some(name) {
                Some(i)
            } else {
                self.texted_from(name, argc, i + 1)
            }
        }
    }

    /// The first method of a type with this name and argument count.
    pub open spec fn typed_from(self, name: u32, argc: int, typed: Seq<char>, i: int) -> Option<int>
        decreases self.functions@.len() - i,
    {
        if i < 0 || i >= self.functions@.len() {
            None
        } else {
            let f = self.functions@[i];
            if f.name == name && f.param_names@.len() == argc && (f.this_type matches Some(t)
                && self.name_of(t as int) == Some(typed)) {
                Some(i)
            } else {
                self.typed_from(name, argc, typed, i + 1)
            }
        }
    }

    /// What a method call reaches: a method of the receiver's type, else a
    /// plain function.
    pub open spec fn method_of(self, name: u32, argc: int, typed: Seq<char>) -> Option<int> {
        match self.typed_from(name, argc, typed, 0) {
            Some(i) => Some(i),
            None => self.plain_from(name, argc, 0),
        }
    }

    /// The name at a pool index.
    pub fn name(&self, i: u32) -> (name: Option<&str>)
        ensures
            match name {
                Some(text) => self.name_of(i as int) == Some(text@),
                None => self.name_of(i as int) is None,
            },
    {
        if (i as usize) < self.names.len() {
            Some(self.names[i as usize].as_str())
        } else {
            None
        }
    }

    /// The position of an address.
    pub fn position(&self, pc: usize) -> (pos: Position)
        ensures
            pos == self.pos_of(pc as int),
    {
        if pc < self.positions.len() {
            self.positions[pc]
        } else {
            Position::none()
        }
    }

    /// Find a plain function by its name index.
    pub fn function(&self, name: u32, argc: usize) -> (at: Option<usize>)
        ensures
            match at {
                Some(i) => i < self.functions@.len() && self.plain_from(name, argc as int, 0)
                    == Some(i as int) && plain_match(self.functions@[i as int], name, argc as int),
                None => self.plain_from(name, argc as int, 0) is None,
            },
    {
        let mut i: usize = 0;
        while i < self.functions.len()
            invariant
                i <= self.functions@.len(),
                self.plain_from(name, argc as int, 0) == self.plain_from(
                    name,
                    argc as int,
                    i as int,
                ),
            decreases self.functions@.len() - i,
        {
            let f = &self.functions[i];
            if f.name == name && f.param_names.len() == argc && f.this_type.is_none() {
                return Some(i);
            }
            i = i + 1;
        }
        None
    }

    /// Find a plain function by the text of its name.
    pub fn function_named(&self, name: &str, argc: usize) -> (at: Option<usize>)
        ensures
            match at {
                Some(i) => i < self.functions@.len() && self.texted_from(name@, argc as int, 0)
                    == Some(i as int) && self.functions@[i as int].param_names@.len() == argc,
                None => self.texted_from(name@, argc as int, 0) is None,
            },
    {
        let mut i: usize = 0;
        while i < self.functions.len()
            invariant
                i <= self.functions@.len(),
                self.texted_from(name@, argc as int, 0) == self.texted_from(
                    name@,
                    argc as int,
                    i as int,
                ),
            decreases self.functions@.len() - i,
        {
            let f = &self.functions[i];
            if f.this_type.is_none() && f.param_names.len() == argc {
                if let Some(text) = self.name(f.name) {
                    if same_text(text, name) {
                        return Some(i);
                    }
                }
            }
            i = i + 1;
        }
        None
    }

    /// Find what a method call reaches.
    pub fn method(&self, name: u32, argc: usize, typed: &str) -> (at: Option<usize>)
        ensures
            match at {
                Some(i) => i < self.functions@.len() && self.method_of(name, argc as int, typed@)
                    == Some(i as int) && self.functions@[i as int].param_names@.len() == argc,
                None => self.method_of(name, argc as int, typed@) is None,
            },
    {
        let mut i: usize = 0;
        while i < self.functions.len()
            invariant
                i <= self.functions@.len(),
                self.typed_from(name, argc as int, typed@, 0) == self.typed_from(
                    name,
                    argc as int,
                    typed@,
                    i as int,
                ),
            decreases self.functions@.len() - i,
        {
            let f = &self.functions[i];
            if f.name == name && f.param_names.len() == argc {
                if let Some(t) = f.this_type {
                    if let Some(text) = self.name(t) {
                        if same_text(text, typed) {
                            return Some(i);
                        }
                    }
                }
            }
            i = i + 1;
        }
        self.function(name, argc)
    }

    /// How many fragments were left for the host to interpret.
    pub fn residual_count(&self) -> (n: u32)
        ensures
            n == self.residuals,
    {
        self.residuals
    }
}

/// A call of a program's function by index finds what a call by that name's
/// text finds, in a program whose name pool holds each name once.
pub proof fn index_and_text_agree(p: Program, name: u32, argc: int, i: int)
    requires
        name < p.names@.len(),
        forall|a: int, b: int|
            0 <= a < b < p.names@.len() ==> (#[trigger] p.names@[a])@ != (#[trigger] p.names@[b])@,
        0 <= i,
    ensures
        p.plain_from(name, argc, i) == p.texted_from(p.names@[name as int]@, argc, i),
    decreases p.functions@.len() - i,
{
    if i < p.functions@.len() {
        index_and_text_agree(p, name, argc, i + 1);
    }
}

} // verus!
