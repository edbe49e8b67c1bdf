//! The instruction reader: keeps the normalized instruction lines, a cursor,
//! and a cache of the current line's classification, and exposes the command
//! kind and the positional operands of the instruction under the cursor.
use vstd::prelude::*;

use crate::strutil::{
    get_token, nth_token, normalize, normalize_view, parse_index, parse_u16_str, str_eq,
};

verus! {

/// The nine kinds of VM command. An `Arithmetic` command carries its
/// operator name as the first argument.
#[derive(Debug, PartialEq, Eq, Structural, Clone, Copy)]
pub enum CommandType {
    Arithmetic,
    Push,
    Pop,
    Label,
    Goto,
    If,
    Function,
    Return,
    Call,
}

/// The fixed keyword table: what the leading token of a line classifies as.
pub open spec fn kind_of_token(t: Seq<char>) -> Option<CommandType> {
    if t == "add"@ || t == "sub"@ || t == "neg"@ || t == "eq"@ || t == "gt"@ || t == "lt"@
        || t == "and"@ || t == "or"@ || t == "not"@ {
        Some(CommandType::Arithmetic)
    } else if t == "push"@ {
        Some(CommandType::Push)
    } else if t == "pop"@ {
        Some(CommandType::Pop)
    } else if t == "label"@ {
        Some(CommandType::Label)
    } else if t == "goto"@ {
        Some(CommandType::Goto)
    } else if t == "if-goto"@ {
        Some(CommandType::If)
    } else if t == "function"@ {
        Some(CommandType::Function)
    } else if t == "return"@ {
        Some(CommandType::Return)
    } else if t == "call"@ {
        Some(CommandType::Call)
    } else {
        None
    }
}

/// Classification of one instruction line by its leading token.
pub open spec fn line_kind(l: Seq<char>) -> Option<CommandType> {
    match crate::strutil::nth_token(l, 0) {
        Some(t) => kind_of_token(t),
        None => None,
    }
}

/// The first argument of an instruction line: the operator name itself for
/// an arithmetic command, the second token for every command that takes a
/// symbol, nothing for `return`, an unclassifiable line, or a missing token.
pub open spec fn line_arg1(l: Seq<char>) -> Option<Seq<char>> {
    match line_kind(l) {
        Some(CommandType::Arithmetic) => nth_token(l, 0),
        Some(CommandType::Return) => None,
        Some(_) => nth_token(l, 1),
        None => None,
    }
}

/// The second argument of an instruction line: the third token read as a
/// decimal index, for the commands that carry one; nothing for the others,
/// for a missing token, and for a token that is no well-formed index.
pub open spec fn line_arg2(l: Seq<char>) -> Option<u16> {
    match line_kind(l) {
        Some(CommandType::Push) | Some(CommandType::Pop) | Some(CommandType::Function)
            | Some(CommandType::Call) => match nth_token(l, 2) {
            Some(t) => parse_index(t),
            None => None,
        },
        _ => None,
    }
}

fn classify_token(t: &str) -> (r: Option<CommandType>)
    ensures
        r == kind_of_token(t@),
{
    if str_eq(t, "add") || str_eq(t, "sub") || str_eq(t, "neg") || str_eq(t, "eq")
        || str_eq(t, "gt") || str_eq(t, "lt") || str_eq(t, "and") || str_eq(t, "or")
        || str_eq(t, "not") {
        Some(CommandType::Arithmetic)
    } else if str_eq(t, "push") {
        Some(CommandType::Push)
    } else if str_eq(t, "pop") {
        Some(CommandType::Pop)
    } else if str_eq(t, "label") {
        Some(CommandType::Label)
    } else if str_eq(t, "goto") {
        Some(CommandType::Goto)
    } else if str_eq(t, "if-goto") {
        Some(CommandType::If)
    } else if str_eq(t, "function") {
        Some(CommandType::Function)
    } else if str_eq(t, "return") {
        Some(CommandType::Return)
    } else if str_eq(t, "call") {
        Some(CommandType::Call)
    } else {
        None
    }
}

/// A cursor over the normalized instruction lines. The cached classification
/// is only ever the classification of the line under the cursor; it is
/// dropped when the cursor advances.
pub struct Parser {
    pub lines: Vec<String>,
    pub current_instruction: usize,
    pub current_command_type: Option<CommandType>,
}

impl Parser {
    /// The cache, when filled, holds what classifying the current line gives.
    pub open spec fn wf(self) -> bool {
        self.current_command_type is Some ==> {
            &&& self.current_instruction < self.lines@.len()
            &&& line_kind(self.lines@[self.current_instruction as int]@)
                == self.current_command_type
        }
    }

    /// The classification the accessors answer from: nothing once the cursor
    /// is past the last instruction, else the current line's kind.
    pub open spec fn spec_command_type(self) -> Option<CommandType> {
        if self.current_instruction >= self.lines@.len() {
            None
        } else {
            line_kind(self.lines@[self.current_instruction as int]@)
        }
    }

    /// Builds a parser over the meaningful lines of the raw text: comments
    /// and surrounding blank space removed, blank lines dropped.
    pub fn create(contents: String) -> (p: Parser)
        requires
            contents@.len() < usize::MAX,
        ensures
            p.lines.deep_view() == normalize_view(contents@),
            p.lines.deep_view().len() <= contents@.len(),
            p.current_instruction == 0,
            p.current_command_type is None,
            p.wf(),
    {
        let lines = normalize(contents.as_str());
        Parser { lines, current_instruction: 0, current_command_type: None }
    }

    /// Whether a line follows the current one.
    pub fn has_more_lines(&self) -> (r: bool)
        ensures
            r == (self.lines@.len() > self.current_instruction + 1),
    {
        self.lines.len() > self.current_instruction
            && self.lines.len() - self.current_instruction > 1
    }

    /// Moves the cursor forward by one and drops the cached classification.
    pub fn advance(&mut self)
        requires
            old(self).current_instruction < usize::MAX,
        ensures
            final(self).lines == old(self).lines,
            final(self).current_instruction == old(self).current_instruction + 1,
            final(self).current_command_type is None,
            final(self).wf(),
    {
        self.current_instruction = self.current_instruction + 1;
        self.current_command_type = None;
    }

    /// Classifies the current line, caching the answer until the cursor
    /// advances; nothing past the last instruction or for an unrecognized
    /// leading keyword.
    pub fn command_type(&mut self) -> (r: Option<CommandType>)
        requires
            old(self).wf(),
        ensures
            r == old(self).spec_command_type(),
            final(self).lines == old(self).lines,
            final(self).current_instruction == old(self).current_instruction,
            final(self).wf(),
            final(self).spec_command_type() == old(self).spec_command_type(),
    {
        if self.current_instruction >= self.lines.len() {
            return None;
        }
        if self.current_command_type.is_some() {
            return self.current_command_type;
        }
        let line = &self.lines[self.current_instruction];
        let command_type = match get_token(line.as_str(), 0) {
            Some(t) => classify_token(t.as_str()),
            None => None,
        };
        self.current_command_type = command_type;
        command_type
    }

    /// The first argument of the current instruction, if its kind carries
    /// one and the line supplies it; nothing past the last instruction.
    pub fn arg1(&mut self) -> (r: Option<String>)
        requires
            old(self).wf(),
        ensures
            r.deep_view() == (if old(self).current_instruction >= old(self).lines@.len() {
                None::<Seq<char>>
            } else {
                line_arg1(old(self).lines@[old(self).current_instruction as int]@)
            }),
            final(self).lines == old(self).lines,
            final(self).current_instruction == old(self).current_instruction,
            final(self).wf(),
    {
        if self.current_instruction >= self.lines.len() {
            return None;
        }
        let command_type = self.command_type();
        let line = &self.lines[self.current_instruction];
        match command_type {
            Some(CommandType::Arithmetic) => get_token(line.as_str(), 0),
            Some(CommandType::Return) => None,
            Some(_) => get_token(line.as_str(), 1),
            None => None,
        }
    }

    /// The index operand of the current instruction, if its kind carries one
    /// and the line supplies a well-formed one; nothing past the last
    /// instruction, for the other kinds, and for a malformed operand.
    pub fn arg2(&mut self) -> (r: Option<u16>)
        requires
            old(self).wf(),
        ensures
            r == (if old(self).current_instruction >= old(self).lines@.len() {
                None::<u16>
            } else {
                line_arg2(old(self).lines@[old(self).current_instruction as int]@)
            }),
            final(self).lines == old(self).lines,
            final(self).current_instruction == old(self).current_instruction,
            final(self).wf(),
    {
        if self.current_instruction >= self.lines.len() {
            return None;
        }
        let command_type = self.command_type();
        let line = &self.lines[self.current_instruction];
        match command_type {
            Some(CommandType::Push) | Some(CommandType::Pop) | Some(CommandType::Function)
                | Some(CommandType::Call) => match get_token(line.as_str(), 2) {
                Some(t) => parse_u16_str(t.as_str()),
                None => None,
            },
            _ => None,
        }
    }
}

} // verus!
