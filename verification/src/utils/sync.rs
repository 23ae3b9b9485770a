//! Senders that several tasks share.

use vstd::prelude::*;

verus! {

#[derive(Debug, PartialEq, Eq, Structural, Clone, Copy)]
pub enum SendError {
    AlreadySent,
    ReceiverDropped,
}

/// Holds the sender of a single message. Whoever asks first gets it.
pub struct RaceOneShotSender<S> {
    pub inner: Option<S>,
}

/// What someone gets who asks for the sender.
pub open spec fn race_result<S>(inner: Option<S>) -> Result<S, SendError> {
    match inner {
        Some(sender) => Ok(sender),
        None => Err(SendError::AlreadySent),
    }
}

impl<S> RaceOneShotSender<S> {
    pub fn new(sender: S) -> (r: Self)
        ensures
            r.inner == Some(sender),
    {
        Self { inner: Some(sender) }
    }

    /// Wins the race, or learns that it is over.
    pub fn take(&mut self) -> (r: Result<S, SendError>)
        ensures
            final(self).inner is None,
            r == race_result(old(self).inner),
    {
        match self.inner.take() {
            Some(sender) => Ok(sender),
            None => Err(SendError::AlreadySent),
        }
    }

    /// What the winner reports, where `delivered` says whether the receiver was still there.
    pub fn sent(delivered: bool) -> (r: Result<(), SendError>)
        ensures
            r == (if delivered {
                Ok::<(), SendError>(())
            } else {
                Err(SendError::ReceiverDropped)
            }),
    {
        if delivered {
            Ok(())
        } else {
            Err(SendError::ReceiverDropped)
        }
    }
}

/// What those who ask one after another get. The first leaves no sender for the others.
pub open spec fn race_results<S>(inner: Option<S>, n: nat) -> Seq<Result<S, SendError>>
    decreases n,
{
    if n == 0 {
        Seq::empty()
    } else {
        seq![race_result(inner)] + race_results(None, (n - 1) as nat)
    }
}

/// However many ask, only the first gets the sender, and all others are told that the message
/// has been sent.
pub proof fn law_race_is_won_once<S>(inner: Option<S>, n: nat, i: int)
    requires
        0 <= i < n,
    ensures
        race_results(inner, n).len() == n,
        race_results(inner, n)[i] == if i == 0 {
            race_result(inner)
        } else {
            Err(SendError::AlreadySent)
        },
    decreases n,
{
    if n > 1 {
        law_race_is_won_once::<S>(
            None,
            (n - 1) as nat,
            if i > 0 {
                i - 1
            } else {
                0
            },
        );
    } else {
        assert(race_results(None::<S>, 0).len() == 0);
    }
}

/// The one who asks first gets the sender that is there, and is told that the message has been sent
/// where there is none.
pub proof fn law_first_gets_the_sender<S>(sender: S)
    ensures
        race_result(Some(sender)) == Ok::<S, SendError>(sender),
        race_result(None::<S>) == Err::<S, SendError>(SendError::AlreadySent),
{
}

} // verus!
