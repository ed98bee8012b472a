//! What a host sets up before anything runs: limits, options and constants.
use vstd::prelude::*;

use crate::dict::{find, find_key};
use crate::error::{fail, raised, Error, Fail, FailureKind};
use crate::position::{nowhere, Position};
use crate::text::{is_listed, listed, same_text};
use crate::value::{clone_value, copied, pair_views, Datum, Dynamic};

verus! {

/// The host's settings.
#[derive(Debug)]
pub struct Engine {
    /// Which engine this is, among those a host holds.
    pub id: u64,
    /// Whether the operators of the machine's own types run without a lookup.
    pub fast_operators: bool,
    /// The most operations a run may take, or zero for no limit.
    pub max_operations: u64,
    pub max_call_levels: usize,
    pub max_variables: usize,
    /// The longest string, or zero for no limit; and so on.
    pub max_string_size: usize,
    pub max_array_size: usize,
    pub max_map_size: usize,
    /// Whether reading a key a map lacks is an error.
    pub fail_on_invalid_map_property: bool,
    /// Variables the global modules publish.
    pub module_vars: Vec<(String, Dynamic)>,
    /// Types with a name of the host's choosing.
    pub type_names: Vec<(String, String)>,
    /// Names the host answers itself, without looking for a function.
    pub syntactic: Vec<String>,
    /// Words of the language, which no function can be named.
    pub reserved: Vec<String>,
    /// Whether the host resolves variables.
    pub resolves_vars: bool,
    /// Whether the host watches progress.
    pub watches_progress: bool,
    /// What its modules say about integer ranges, in the order they are asked:
    /// nothing, or whether one iterates over its own integers.
    pub ranges: Vec<Option<bool>>,
    /// What its sub-modules say about them.
    pub sub_ranges: Vec<Option<bool>>,
    /// Whether a debugger is registered.
    pub debugger: bool,
}

/// What the first module that says anything says, looking from `i` on.
pub open spec fn said_from(said: Seq<Option<bool>>, i: int) -> Option<bool>
    decreases said.len() - i,
{
    if i < 0 || i >= said.len() {
        None
    } else if said[i] is Some {
        said[i]
    } else {
        said_from(said, i + 1)
    }
}

/// What the first module that says anything says.
pub fn first_said(said: &Vec<Option<bool>>) -> (out: Option<bool>)
    ensures
        out == said_from(said@, 0),
{
    let mut i: usize = 0;
    while i < said.len()
        invariant
            i <= said@.len(),
            said_from(said@, 0) == said_from(said@, i as int),
        decreases said@.len() - i,
    {
        if said[i].is_some() {
            return said[i];
        }
        i = i + 1;
    }
    None
}

/// The name a type goes by, looking from `i` on.
pub open spec fn mapped_from(names: Seq<(String, String)>, name: Seq<char>, i: int) -> Seq<char>
    decreases names.len() - i,
{
    if i < 0 || i >= names.len() {
        name
    } else if names[i].0@ == name {
        names[i].1@
    } else {
        mapped_from(names, name, i + 1)
    }
}

/// The words a script is written with.
pub open spec fn keywords() -> Seq<Seq<char>> {
    seq![
        "true"@, "false"@, "let"@, "const"@, "if"@, "else"@, "switch"@, "do"@, "while"@, "until"@,
        "loop"@, "for"@, "in"@, "continue"@, "break"@, "return"@, "throw"@, "try"@, "catch"@,
        "import"@, "export"@, "as"@, "fn"@, "private"@, "this"@,
    ]
}

pub open spec fn text_views(list: Seq<String>) -> Seq<Seq<char>> {
    Seq::new(list.len(), |i: int| list[i]@)
}

/// The words a script is written with.
fn keyword_list() -> (list: Vec<String>)
    ensures
        text_views(list@) == keywords(),
{
    let words: Vec<&'static str> = vec![
        "true", "false", "let", "const", "if", "else", "switch", "do", "while", "until", "loop",
        "for", "in", "continue", "break", "return", "throw", "try", "catch", "import", "export",
        "as", "fn", "private", "this",
    ];
    let mut list: Vec<String> = Vec::new();
    let mut i: usize = 0;
    while i < words.len()
        invariant
            i <= words@.len(),
            list@.len() == i,
            forall|j: int| 0 <= j < i ==> (#[trigger] list@[j])@ == words@[j]@,
        decreases words@.len() - i,
    {
        list.push(words[i].to_owned());
        i = i + 1;
    }
    assert(text_views(list@) =~= keywords());
    list
}

impl Engine {
    /// Settings a run can start from: a call level is a number that can still
    /// be counted past.
    pub open spec fn wf(self) -> bool {
        self.max_call_levels < usize::MAX
    }

    /// An engine with no limits but the call depth and no host hooks.
    pub fn new(id: u64) -> (engine: Engine)
        ensures
            engine.wf(),
            engine.id == id,
            engine.fast_operators,
            engine.max_operations == 0,
            engine.max_call_levels == 64,
            engine.max_variables == usize::MAX,
            engine.max_string_size == 0 && engine.max_array_size == 0 && engine.max_map_size == 0,
            !engine.fail_on_invalid_map_property,
            engine.module_vars@.len() == 0 && engine.type_names@.len() == 0,
            engine.syntactic@.len() == 0,
            text_views(engine.reserved@) == keywords(),
            !engine.resolves_vars && !engine.watches_progress && !engine.debugger,
            engine.ranges@ == seq![Some(true)] && engine.sub_ranges@.len() == 0,
    {
        let ranges: Vec<Option<bool>> = vec![Some(true)];
        assert(ranges@ =~= seq![Some(true)]);
        Engine {
            id,
            fast_operators: true,
            max_operations: 0,
            max_call_levels: 64,
            max_variables: usize::MAX,
            max_string_size: 0,
            max_array_size: 0,
            max_map_size: 0,
            fail_on_invalid_map_property: false,
            module_vars: Vec::new(),
            type_names: Vec::new(),
            syntactic: Vec::new(),
            reserved: keyword_list(),
            resolves_vars: false,
            watches_progress: false,
            ranges,
            sub_ranges: Vec::new(),
            debugger: false,
        }
    }

    /// The name a type goes by.
    pub open spec fn mapped(self, name: Seq<char>) -> Seq<char> {
        mapped_from(self.type_names@, name, 0)
    }

    /// A variable of the global modules.
    pub open spec fn published(self, name: Seq<char>) -> Option<Datum> {
        match find_key(pair_views(self.module_vars@), name) {
            Some(i) => Some(copied(self.module_vars@[i].1@)),
            None => None,
        }
    }

    /// The name a type goes by.
    pub fn map_type_name(&self, name: &str) -> (out: String)
        ensures
            out@ == self.mapped(name@),
    {
        let mut i: usize = 0;
        while i < self.type_names.len()
            invariant
                i <= self.type_names@.len(),
                self.mapped(name@) == mapped_from(self.type_names@, name@, i as int),
            decreases self.type_names@.len() - i,
        {
            if same_text(self.type_names[i].0.as_str(), name) {
                return self.type_names[i].1.clone();
            }
            i = i + 1;
        }
        name.to_owned()
    }

    /// A variable of the global modules.
    pub fn module_var(&self, name: &str) -> (out: Option<Dynamic>)
        ensures
            match out {
                Some(v) => self.published(name@) == Some(v@),
                None => self.published(name@) is None,
            },
    {
        match find(&self.module_vars, name) {
            Some(i) => Some(clone_value(&self.module_vars[i].1)),
            None => None,
        }
    }

    /// Whether the host answers a name itself.
    pub fn is_syntactic_fn_name(&self, name: &str) -> (r: bool)
        ensures
            r == listed(self.syntactic@, name@),
    {
        is_listed(&self.syntactic, name)
    }

    /// What is wrong with data of these sizes: elements of arrays, entries of
    /// maps, bytes of strings.
    pub open spec fn too_large(self, arrays: usize, maps: usize, strings: usize) -> Option<Fail> {
        if self.max_string_size > 0 && strings > self.max_string_size {
            Some(fail(FailureKind::ErrorDataTooLarge("Length of string"@), nowhere()))
        } else if self.max_array_size > 0 && arrays > self.max_array_size {
            Some(fail(FailureKind::ErrorDataTooLarge("Size of array/BLOB"@), nowhere()))
        } else if self.max_map_size > 0 && maps > self.max_map_size {
            Some(fail(FailureKind::ErrorDataTooLarge("Size of object map"@), nowhere()))
        } else {
            None
        }
    }

    /// Refuse data over a limit.
    pub fn throw_on_size(&self, arrays: usize, maps: usize, strings: usize) -> (out: Option<Error>)
        ensures
            match out {
                Some(err) => self.too_large(arrays, maps, strings) == Some(err@),
                None => self.too_large(arrays, maps, strings) is None,
            },
    {
        if self.max_string_size > 0 && strings > self.max_string_size {
            Some(
                raised(
                    FailureKind::ErrorDataTooLarge("Length of string".to_owned()),
                    Position::none(),
                ),
            )
        } else if self.max_array_size > 0 && arrays > self.max_array_size {
            Some(
                raised(
                    FailureKind::ErrorDataTooLarge("Size of array/BLOB".to_owned()),
                    Position::none(),
                ),
            )
        } else if self.max_map_size > 0 && maps > self.max_map_size {
            Some(
                raised(
                    FailureKind::ErrorDataTooLarge("Size of object map".to_owned()),
                    Position::none(),
                ),
            )
        } else {
            None
        }
    }
}

} // verus!
