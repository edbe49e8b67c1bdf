//! Cross-instruction translation state: the logical name of the current
//! source input, the function currently being defined, the counters that
//! mint globally unique labels, and the set of labels defined so far.
use vstd::prelude::*;

use crate::strutil::str_eq;

verus! {

/// Why a translation run aborts: a command with a missing or ill-formed
/// operand (or a target address that does not exist on the machine), an
/// unknown segment name in a push or pop, a label defined twice in one
/// scope, and a `return` outside any function.
#[derive(Debug, PartialEq, Eq, Structural, Clone, Copy)]
pub enum ErrorKind {
    Malformed,
    UnknownSegment,
    DuplicateLabel,
    ReturnOutsideFunction,
}

/// A fatal condition, with enough context to locate the fault: the index
/// of the instruction that raised it in the normalized instruction
/// sequence, and the instruction's text.
#[derive(Debug)]
pub struct TransError {
    pub kind: ErrorKind,
    pub line: usize,
    pub content: String,
}

/// The mathematical model of the translation context.
pub struct CtxView {
    pub source_name: Seq<char>,
    pub current_function: Option<Seq<char>>,
    pub comparison_counter: nat,
    pub call_counter: nat,
    pub labels: Set<Seq<char>>,
}

/// Mutable state scoped to one full translation run, threaded through the
/// code generator instruction by instruction and never rolled back.
pub struct Context {
    pub source_name: String,
    pub current_function: Option<String>,
    pub comparison_counter: u64,
    pub call_counter: u64,
    pub defined_labels: Vec<String>,
}

impl View for Context {
    type V = CtxView;

    open spec fn view(&self) -> CtxView {
        CtxView {
            source_name: self.source_name@,
            current_function: match self.current_function {
                Some(f) => Some(f@),
                None => None,
            },
            comparison_counter: self.comparison_counter as nat,
            call_counter: self.call_counter as nat,
            labels: self.defined_labels.deep_view().to_set(),
        }
    }
}

/// The context a translation run starts from: no enclosing function, both
/// counters at zero, no label defined yet.
pub open spec fn initial_ctx(source_name: Seq<char>) -> CtxView {
    CtxView {
        source_name: source_name,
        current_function: None,
        comparison_counter: 0,
        call_counter: 0,
        labels: Set::empty(),
    }
}

impl Context {
    pub fn new(source_name: String) -> (c: Context)
        ensures
            c@ == initial_ctx(source_name@),
    {
        let c = Context {
            source_name,
            current_function: None,
            comparison_counter: 0,
            call_counter: 0,
            defined_labels: Vec::new(),
        };
        proof {
            assert(c.defined_labels.deep_view() =~= Seq::<Seq<char>>::empty());
            assert(c@.labels =~= Set::<Seq<char>>::empty());
            assert(c@ == initial_ctx(c.source_name@));
        }
        c
    }

    /// Switches the logical source name, as the driver does when it starts
    /// another input; only `static` symbol naming depends on it.
    pub fn set_source_name(&mut self, source_name: String)
        ensures
            final(self)@ == (CtxView { source_name: source_name@, ..old(self)@ }),
    {
        self.source_name = source_name;
    }

    /// Whether the scoped label has already been defined in this run.
    pub fn contains_label(&self, name: &str) -> (r: bool)
        ensures
            r == self@.labels.contains(name@),
    {
        let mut i: usize = 0;
        while i < self.defined_labels.len()
            invariant
                i <= self.defined_labels@.len(),
                forall|j: int| 0 <= j < i ==> self.defined_labels.deep_view()[j] != name@,
        decreases self.defined_labels@.len() - i,
        {
            if str_eq(self.defined_labels[i].as_str(), name) {
                proof {
                    assert(self.defined_labels.deep_view()[i as int] == name@);
                    assert(self@.labels.contains(name@));
                }
                return true;
            }
            i = i + 1;
        }
        proof {
            assert(forall|j: int|
                0 <= j < self.defined_labels.deep_view().len()
                    ==> self.defined_labels.deep_view()[j] != name@);
            assert(!self.defined_labels.deep_view().contains(name@));
        }
        false
    }

    /// Records a scoped label as defined.
    pub fn add_label(&mut self, name: String)
        ensures
            final(self)@ == (CtxView {
                labels: old(self)@.labels.insert(name@),
                ..old(self)@
            }),
    {
        let ghost prev = self.defined_labels.deep_view();
        let ghost nv = name@;
        self.defined_labels.push(name);
        proof {
            let s2 = self.defined_labels.deep_view();
            assert(s2 =~= prev.push(nv));
            assert forall|x: Seq<char>| s2.to_set().contains(x) implies prev.to_set().insert(
                nv,
            ).contains(x) by {
                let i = choose|i: int| 0 <= i < s2.len() && s2[i] == x;
                if i < prev.len() {
                    assert(prev[i] == x);
                } else {
                    assert(x == nv);
                }
            };
            assert forall|x: Seq<char>| prev.to_set().insert(nv).contains(x) implies s2
                .to_set()
                .contains(x) by {
                if prev.contains(x) {
                    let i = choose|i: int| 0 <= i < prev.len() && prev[i] == x;
                    assert(s2[i] == x);
                } else {
                    assert(s2[prev.len() as int] == nv);
                }
            };
            assert(s2.to_set() =~= prev.to_set().insert(nv));
            assert(self@ == (CtxView { labels: old(self)@.labels.insert(nv), ..old(self)@ }));
        }
    }
}

} // verus!
