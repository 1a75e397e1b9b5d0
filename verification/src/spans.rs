//! Span metadata for editors: each parsed instruction's source position as
//! a line number, column and length, together with the name of its node
//! kind. A consumer maps highlights onto source text with these.

use vstd::prelude::*;

verus! {

use vstd::string::StringSliceAdditionalSpecFns;
use crate::grammar::{lemma_song_spans, song, sp_err_offset, sp_song, ParseError};
use crate::model::{Instruction, SpannedInstruction};

/// How many line feeds come strictly before offset `l`.
pub open spec fn newlines_before(s: Seq<u8>, l: int) -> int
    decreases l,
{
    if l <= 0 {
        0
    } else {
        newlines_before(s, l - 1) + if s[l - 1] == ('\n' as u8) {
            1int
        } else {
            0int
        }
    }
}

/// Offset of the first byte of the line holding offset `l`: just past the
/// last line feed strictly before `l`, or 0 on the first line.
pub open spec fn line_start(s: Seq<u8>, l: int) -> int
    decreases l,
{
    if l <= 0 {
        0
    } else if s[l - 1] == ('\n' as u8) {
        l
    } else {
        line_start(s, l - 1)
    }
}

/// The node-kind name an instruction reports to a consumer.
pub open spec fn spec_node_type(i: Instruction) -> Seq<char> {
    match i {
        Instruction::SetBPM(_) => "SetBPM"@,
        Instruction::SetKey(_) => "SetKey"@,
        Instruction::SetScale(_) => "SetScale"@,
        Instruction::PlayNote(_) => "PlayNote"@,
        Instruction::SkipToNote => "SkipToNote"@,
        Instruction::SetHarmony(_) => "SetHarmony"@,
    }
}

/// Where an instruction sits in its source text, for highlighting: 0-based
/// line and column of its first byte, its byte length, and its node kind.
pub struct Syntax {
    pub line_no: usize,
    pub col_no: usize,
    pub len: usize,
    pub node_type: String,
}

impl Syntax {
    /// The node-kind name.
    pub fn node_type(&self) -> (r: String)
        ensures
            r@ == self.node_type@,
    {
        self.node_type.clone()
    }

    /// Replaces the node-kind name.
    pub fn set_node_type(&mut self, s: &str)
        ensures
            final(self).node_type@ == s@,
            final(self).line_no == old(self).line_no,
            final(self).col_no == old(self).col_no,
            final(self).len == old(self).len,
    {
        self.node_type = s.to_owned();
    }

    /// Copies the record.
    pub fn duplicate(&self) -> (r: Syntax)
        ensures
            r.line_no == self.line_no,
            r.col_no == self.col_no,
            r.len == self.len,
            r.node_type@ == self.node_type@,
    {
        Syntax {
            line_no: self.line_no,
            col_no: self.col_no,
            len: self.len,
            node_type: self.node_type.clone(),
        }
    }
}

/// The span metadata a spanned instruction of source `s` yields.
pub open spec fn syntax_matches(s: Seq<u8>, si: SpannedInstruction, sx: Syntax) -> bool {
    &&& sx.line_no == newlines_before(s, si.l as int)
    &&& sx.col_no == si.l - line_start(s, si.l as int)
    &&& sx.len == si.r - si.l
    &&& sx.node_type@ == spec_node_type(si.instruction)
}

/// A parse together with its span metadata, index for index.
pub struct ParseResult {
    pub spanned_instructions: Vec<SpannedInstruction>,
    pub syntaxes: Vec<Syntax>,
}

fn node_type_string(i: &Instruction) -> (r: String)
    ensures
        r@ == spec_node_type(*i),
{
    match i {
        Instruction::SetBPM(_) => "SetBPM".to_owned(),
        Instruction::SetKey(_) => "SetKey".to_owned(),
        Instruction::SetScale(_) => "SetScale".to_owned(),
        Instruction::PlayNote(_) => "PlayNote".to_owned(),
        Instruction::SkipToNote => "SkipToNote".to_owned(),
        Instruction::SetHarmony(_) => "SetHarmony".to_owned(),
    }
}

/// Line number and column of offset `l` in `s`.
fn line_col_at(s: &[u8], l: usize) -> (r: (usize, usize))
    requires
        l <= s@.len(),
    ensures
        r.0 == newlines_before(s@, l as int),
        r.1 == l - line_start(s@, l as int),
{
    let mut count: usize = 0;
    let mut start: usize = 0;
    let mut p: usize = 0;
    while p < l
        invariant
            0 <= p <= l <= s@.len(),
            count == newlines_before(s@, p as int),
            start == line_start(s@, p as int),
            count <= p,
            start <= p,
        decreases l - p,
    {
        if s[p] == ('\n' as u8) {
            count = count + 1;
            start = p + 1;
        }
        p = p + 1;
    }
    (count, l - start)
}

/// Parses a piece and computes each instruction's span metadata. On failure
/// the syntax error is returned unchanged.
pub fn parse(s: &str) -> (r: Result<ParseResult, ParseError>)
    ensures
        match r {
            Ok(pr) => {
                &&& sp_song(s.spec_bytes()) == Some(pr.spanned_instructions@)
                &&& pr.syntaxes@.len() == pr.spanned_instructions@.len()
                &&& forall|k: int|
                    0 <= k < pr.syntaxes@.len() ==> syntax_matches(
                        s.spec_bytes(),
                        pr.spanned_instructions@[k],
                        #[trigger] pr.syntaxes@[k],
                    )
            },
            Err(e) => sp_song(s.spec_bytes()) is None && e.offset as int == sp_err_offset(
                s.spec_bytes(),
            ),
        },
{
    let b = s.as_bytes();
    let total = b.len();
    proof {
        assert(b@.len() == total);
    }
    let spanned_instructions = match song(s) {
        Ok(v) => v,
        Err(e) => {
            return Err(e);
        },
    };
    proof {
        lemma_song_spans(b@);
    }
    let n = spanned_instructions.len();
    let mut syntaxes: Vec<Syntax> = Vec::new();
    let mut k: usize = 0;
    while k < n
        invariant
            0 <= k <= n,
            n == spanned_instructions@.len(),
            b@ == s.spec_bytes(),
            syntaxes@.len() == k,
            forall|j: int|
                0 <= j < spanned_instructions@.len() ==> (
                #[trigger] spanned_instructions@[j]).l <= spanned_instructions@[j].r <= b@.len(),
            forall|j: int|
                0 <= j < k ==> syntax_matches(
                    s.spec_bytes(),
                    spanned_instructions@[j],
                    #[trigger] syntaxes@[j],
                ),
        decreases n - k,
    {
        let si = &spanned_instructions[k];
        let (line_no, col_no) = line_col_at(b, si.l);
        let len = si.r - si.l;
        let node_type = node_type_string(&si.instruction);
        syntaxes.push(Syntax { line_no, col_no, len, node_type });
        k = k + 1;
    }
    Ok(ParseResult { spanned_instructions, syntaxes })
}

/// The span metadata of a piece's instructions, in order.
pub fn syntax(s: &str) -> (r: Result<Vec<Syntax>, ParseError>)
    ensures
        match r {
            Ok(v) => {
                &&& sp_song(s.spec_bytes()) is Some
                &&& v@.len() == sp_song(s.spec_bytes()).unwrap().len()
                &&& forall|k: int|
                    0 <= k < v@.len() ==> syntax_matches(
                        s.spec_bytes(),
                        sp_song(s.spec_bytes()).unwrap()[k],
                        #[trigger] v@[k],
                    )
            },
            Err(e) => sp_song(s.spec_bytes()) is None && e.offset as int == sp_err_offset(
                s.spec_bytes(),
            ),
        },
{
    match parse(s) {
        Ok(pr) => Ok(pr.syntaxes),
        Err(e) => Err(e),
    }
}

} // verus!
