//! The models that are shared by the whole process.
use vstd::prelude::*;

verus! {

/// The shared models, if there are any.
#[derive(Debug)]
pub struct DefaultSlot<L> {
    current: Option<L>,
}

impl<L> View for DefaultSlot<L> {
    type V = Option<L>;

    closed spec fn view(&self) -> Option<L> {
        self.current
    }
}

impl<L> DefaultSlot<L> {
    /// A slot without models.
    pub fn empty() -> (s: Self)
        ensures
            s@ is None,
    {
        DefaultSlot { current: None }
    }

    /// The shared models.
    pub fn get(&self) -> (r: Option<&L>)
        ensures
            match r {
                Some(l) => self@ == Some(*l),
                None => self@ is None,
            },
    {
        self.current.as_ref()
    }

    /// Shares the models, unless some are shared already: of several that are set up at the same
    /// time the first is kept.
    pub fn default_llama_cpp(&mut self, made: L)
        ensures
            final(self)@ == (if old(self)@ is Some {
                old(self)@
            } else {
                Some(made)
            }),
    {
        if self.current.is_none() {
            self.current = Some(made);
        }
    }

    /// Puts other models, or none, in the place of the shared ones.
    pub fn set_default_llama_cpp(&mut self, llama: Option<L>)
        ensures
            final(self)@ == llama,
    {
        self.current = llama;
    }

    /// Takes the shared models out, to be shut down.
    pub fn dispose_default_llama_cpp(&mut self) -> (r: Option<L>)
        ensures
            r == old(self)@,
            final(self)@ is None,
    {
        self.current.take()
    }
}

} // verus!
