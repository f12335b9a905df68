use vstd::prelude::*;

verus! {

/// Holds the one notification that may be on screen. Showing a new one hands
/// back the previous handle, which the caller closes.
pub struct NotificationSlot<H> {
    current: Option<H>,
}

impl<H> NotificationSlot<H> {
    /// The handle of the notification on screen, if any.
    pub closed spec fn live(&self) -> Option<H> {
        self.current
    }

    pub fn new() -> (r: Self)
        ensures
            r.live() is None,
    {
        NotificationSlot { current: None }
    }

    /// Records `handle` as the notification on screen and returns the one it
    /// replaces.
    pub fn replace(&mut self, handle: H) -> (previous: Option<H>)
        ensures
            final(self).live() == Some(handle),
            previous == old(self).live(),
    {
        let previous = self.current.take();
        self.current = Some(handle);
        previous
    }
}

/// The handle left on screen and the handles handed back for closing, after
/// `shown` were recorded one after the other starting from `live`.
pub open spec fn after_showing<H>(live: Option<H>, shown: Seq<H>) -> (Option<H>, Seq<H>)
    decreases shown.len(),
{
    if shown.len() == 0 {
        (live, Seq::empty())
    } else {
        let (l, closed) = after_showing(live, shown.drop_last());
        let handed_back = match l {
            Some(h) => closed.push(h),
            None => closed,
        };
        (Some(shown.last()), handed_back)
    }
}

/// After any number of notifications shown in a row, only the last one is
/// live, and every earlier one has been handed back for closing, in order.
pub proof fn lemma_at_most_one_notification<H>(shown: Seq<H>)
    requires
        shown.len() > 0,
    ensures
        after_showing(None, shown) == (Some(shown.last()), shown.drop_last()),
    decreases shown.len(),
{
    if shown.len() == 1 {
        assert(shown.drop_last() =~= Seq::<H>::empty());
        assert(after_showing(None, shown.drop_last()) == (None::<H>, Seq::<H>::empty()));
    } else {
        lemma_at_most_one_notification(shown.drop_last());
        assert(shown.drop_last().drop_last().push(shown.drop_last().last()) =~= shown.drop_last());
    }
}

} // verus!
