//! A loop that reads lines and has them handled.

use vstd::prelude::*;

verus! {

#[derive(Debug, PartialEq, Eq, Structural, Clone, Copy)]
pub enum HandleUserInputError {
    Terminate,
}

/// Handles the lines that a user enters.
pub trait HandleUserInput: Sized {
    /// What a handler asks for on a line.
    type Reaction;

    /// Whether `r` is what the handler answers to a line.
    spec fn answers(
        &self,
        user_input: Seq<char>,
        r: Result<Self::Reaction, HandleUserInputError>,
    ) -> bool;

    /// The handler after a line.
    spec fn after(&self, user_input: Seq<char>) -> Self;

    fn handle(&mut self, user_input: String) -> (r: Result<Self::Reaction, HandleUserInputError>)
        ensures
            old(self).answers(user_input@, r),
            *final(self) == old(self).after(user_input@),
    ;
}

/// What the loop does after a line.
pub enum Step<R> {
    /// There was no line: the loop asks again.
    Again,
    /// The loop carries out what the handler asks for, and asks again.
    React(R),
    Stop,
}

pub struct Repl<H: HandleUserInput> {
    pub handler: H,
    pub prompt: Option<String>,
}

impl<H: HandleUserInput> Repl<H> {
    pub fn new(handler: H, prompt: Option<String>) -> (r: Self)
        ensures
            r == (Repl { handler, prompt }),
    {
        Self { handler, prompt }
    }

    /// What stands before each line.
    pub fn prompt(&self) -> (r: Option<&String>)
        ensures
            match r {
                Some(p) => self.prompt == Some(*p),
                None => self.prompt is None,
            },
    {
        match &self.prompt {
            Some(p) => Some(p),
            None => None,
        }
    }

    /// One round of the loop. It stops where the handler refuses a line.
    pub fn serve(&mut self, line: Option<String>) -> (r: Step<H::Reaction>)
        ensures
            final(self).prompt == old(self).prompt,
            match line {
                None => r is Again && final(self).handler == old(self).handler,
                Some(l) => {
                    &&& final(self).handler == old(self).handler.after(l@)
                    &&& match r {
                        Step::Again => false,
                        Step::React(reaction) => old(self).handler.answers(l@, Ok(reaction)),
                        Step::Stop => old(self).handler.answers(
                            l@,
                            Err(HandleUserInputError::Terminate),
                        ),
                    }
                },
            },
    {
        match line {
            Some(l) => match self.handler.handle(l) {
                Ok(reaction) => Step::React(reaction),
                Err(e) => {
                    assert(e == HandleUserInputError::Terminate);
                    Step::Stop
                },
            },
            None => Step::Again,
        }
    }
}

} // verus!
