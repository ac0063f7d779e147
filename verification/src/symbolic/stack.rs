//! The stack of symbols that instructions work on.

use vstd::prelude::*;
use vstd::string::*;
use crate::symbolic::symbol::{expression_texts, Expression, Symbol};
use crate::text::join_text;

verus! {

/// The text of a stack: its entries from the bottom to the top, separated by `, `, in
/// square brackets.
pub open spec fn stack_text(entries: Seq<Expression>) -> Seq<char> {
    "["@ + join_text(expression_texts(entries), ", "@) + "]"@
}

/// A stack of symbols that counts its entries.
#[derive(Debug, PartialEq, Eq)]
pub struct Stack {
    size: usize,
    elements: Vec<Symbol>,
}

impl View for Stack {
    type V = Seq<Expression>;

    /// The expressions on the stack, the top last.
    closed spec fn view(&self) -> Seq<Expression> {
        self.elements@.map_values(|s: Symbol| s@)
    }
}

impl Stack {
    /// The stack's invariant: the counter is the number of entries.
    pub closed spec fn wf(&self) -> bool {
        self.size == self.elements@.len()
    }

    // Creates a new stack.
    pub fn new() -> (r: Stack)
        ensures
            r.wf(),
            r@ == Seq::<Expression>::empty(),
    {
        let r = Stack { size: 0, elements: Vec::new() };
        assert(r@ =~= Seq::empty());
        r
    }

    /// Returns the size of the stack.
    pub fn size(&self) -> (r: usize)
        requires
            self.wf(),
        ensures
            r == self@.len(),
    {
        self.size
    }

    /// Returns the entries of the stack, the top last.
    pub fn elements(&self) -> (r: &Vec<Symbol>)
        ensures
            r@.map_values(|s: Symbol| s@) == self@,
    {
        &self.elements
    }

    /// Pushes a new element to the stack.
    pub fn push(&mut self, element: Symbol)
        requires
            old(self).wf(),
        ensures
            final(self).wf(),
            final(self)@ == old(self)@.push(element@),
    {
        self.elements.push(element);
        assert(self.elements.len() == self.elements@.len());
        self.size += 1;
        assert(self@ =~= old(self)@.push(element@));
    }

    /// Pops from the stack.
    pub fn pop(&mut self) -> (r: Option<Symbol>)
        requires
            old(self).wf(),
        ensures
            final(self).wf(),
            match r {
                Some(top) => {
                    &&& old(self)@.len() > 0
                    &&& top@ == old(self)@.last()
                    &&& final(self)@ == old(self)@.drop_last()
                },
                None => old(self)@.len() == 0 && final(self)@ == old(self)@,
            },
    {
        if let Some(elem) = self.elements.pop() {
            self.size -= 1;
            assert(self@ =~= old(self)@.drop_last());
            Some(elem)
        } else {
            None
        }
    }

    /// Returns the text of the stack.
    pub fn to_string(&self) -> (r: String)
        ensures
            r@ == stack_text(self@),
    {
        let mut out = "[".to_owned();
        let ghost head = out@;
        let ghost parts = expression_texts(self@);
        let mut k: usize = 0;
        while k < self.elements.len()
            invariant
                k <= self.elements.len(),
                parts == expression_texts(self@),
                out@ == head + join_text(parts.take(k as int), ", "@),
            decreases self.elements.len() - k,
        {
            if k > 0 {
                out.append(", ");
            }
            self.elements[k].write_to(&mut out);
            proof {
                assert(parts.take(k + 1).drop_last() =~= parts.take(k as int));
                assert(out@ =~= head + join_text(parts.take(k + 1), ", "@));
            }
            k = k + 1;
        }
        out.append("]");
        proof {
            assert(parts.take(k as int) =~= parts);
            assert(out@ =~= stack_text(self@));
        }
        out
    }
}

} // verus!
