use vstd::prelude::*;

verus! {

broadcast use vstd::seq::group_seq_axioms;

/// An individual line of code: its zero-based line number and its text.
#[derive(Debug, PartialEq, Eq)]
pub struct CodeLine {
    pub number: u32,
    pub text: String,
}

/// A code block: the ordered, numbered lines of one source file, ready for
/// rendering.
#[derive(Debug, PartialEq, Eq)]
pub struct Code {
    pub codelines: Vec<CodeLine>,
}

/// Converts the lines of a text file into numbered code lines, in order,
/// numbering from zero.
pub fn get_text(lines: &Vec<String>) -> (r: Vec<CodeLine>)
    requires
        lines@.len() < 0x1_0000_0000,
    ensures
        r@.len() == lines@.len(),
        forall|k: int| 0 <= k < r@.len() ==> r@[k].number as int == k,
        forall|k: int| 0 <= k < r@.len() ==> r@[k].text == lines@[k],
{
    let mut r: Vec<CodeLine> = Vec::new();
    let mut i: usize = 0;
    let mut num: u32 = 0;
    while i < lines.len()
        invariant
            i <= lines@.len(),
            lines@.len() < 0x1_0000_0000,
            num == i,
            r@.len() == i,
            forall|k: int| 0 <= k < i ==> r@[k].number as int == k,
            forall|k: int| 0 <= k < i ==> r@[k].text == lines@[k],
        decreases lines@.len() - i,
    {
        let ghost r0 = r@;
        r.push(CodeLine { number: num, text: lines[i].clone() });
        num = num + 1;
        proof {
            assert forall|k: int| 0 <= k < i + 1 implies r@[k].number as int == k && r@[k].text
                == lines@[k] by {
                if k < i {
                    assert(r@[k] == r0[k]);
                } else {
                    assert(r@[k] == r@[r@.len() - 1]);
                }
            }
        }
        i = i + 1;
    }
    r
}

} // verus!
