//! The launcher's side of the conversation with the daemon: where the answers land.
use crate::messages::{Calculation, Response};
use crate::model::Hit;
use vstd::prelude::*;

verus! {

use crate::session::next_epoch;
use crate::text::views;

/// How many earlier searches the launcher asks for.
pub const HISTORY_LIMIT: u32 = 10;

/// The last answer to a search, until the window has picked it up.
pub struct ReplySlot<S> {
    pub hits: Vec<Hit<S>>,
    pub calculation: Option<Calculation>,
    /// The number of the answer.
    pub response_epoch: u64,
    /// The number of the answer that was last picked up.
    pub last_epoch: u64,
}

/// What a slot holds.
pub struct SlotView<S> {
    pub hits: Seq<Hit<S>>,
    pub calculation: Option<Calculation>,
    pub response_epoch: u64,
    pub last_epoch: u64,
}

impl<S> View for ReplySlot<S> {
    type V = SlotView<S>;

    open spec fn view(&self) -> SlotView<S> {
        SlotView {
            hits: self.hits@,
            calculation: self.calculation,
            response_epoch: self.response_epoch,
            last_epoch: self.last_epoch,
        }
    }
}

/// The slot once a reply came to a search that was sent in session `sent`, while session
/// `current` runs: a reply from another session and one without hits are dropped.
pub open spec fn received<S>(v: SlotView<S>, reply: Response<S>, sent: u64, current: u64) -> SlotView<
    S,
> {
    if sent != current {
        v
    } else {
        match reply {
            Response::Hits(hits) => SlotView {
                hits: hits@,
                calculation: None,
                response_epoch: next_epoch(v.response_epoch),
                ..v
            },
            Response::HitsWithExtras { hits, calculation } => SlotView {
                hits: hits@,
                calculation,
                response_epoch: next_epoch(v.response_epoch),
                ..v
            },
            _ => v,
        }
    }
}

/// The answer that waits to be picked up, where there is one.
pub open spec fn waiting<S>(v: SlotView<S>) -> Option<(Seq<Hit<S>>, Option<Calculation>)> {
    if v.response_epoch == v.last_epoch {
        None
    } else {
        Some((v.hits, v.calculation))
    }
}

/// The slot once the answer was picked up.
pub open spec fn picked_up<S>(v: SlotView<S>) -> SlotView<S> {
    if v.response_epoch == v.last_epoch {
        v
    } else {
        SlotView {
            hits: Seq::empty(),
            calculation: None,
            last_epoch: v.response_epoch,
            ..v
        }
    }
}

/// What an answer that was picked up holds.
pub open spec fn answer_view<S>(r: Option<(Vec<Hit<S>>, Option<Calculation>)>) -> Option<
    (Seq<Hit<S>>, Option<Calculation>),
> {
    match r {
        Some(a) => Some((a.0@, a.1)),
        None => None,
    }
}

impl<S> ReplySlot<S> {
    /// A slot without an answer.
    pub fn new() -> (r: Self)
        ensures
            r@ == (SlotView::<S> {
                hits: Seq::empty(),
                calculation: None,
                response_epoch: 0,
                last_epoch: 0,
            }),
    {
        let r = ReplySlot { hits: Vec::new(), calculation: None, response_epoch: 0, last_epoch: 0 };
        assert(r@.hits =~= Seq::empty());
        r
    }

    fn bump(&mut self)
        ensures
            final(self)@ == (SlotView {
                response_epoch: next_epoch(old(self)@.response_epoch),
                ..old(self)@
            }),
    {
        if self.response_epoch == u64::MAX {
            self.response_epoch = 0;
        } else {
            self.response_epoch = self.response_epoch + 1;
        }
    }

    /// A reply came to a search that was sent in session `sent`, while session `current` runs.
    pub fn receive(&mut self, reply: Response<S>, sent: u64, current: u64)
        ensures
            final(self)@ == received(old(self)@, reply, sent, current),
    {
        if sent != current {
            return;
        }
        match reply {
            Response::Hits(hits) => {
                self.hits = hits;
                self.calculation = None;
                self.bump();
            },
            Response::HitsWithExtras { hits, calculation } => {
                self.hits = hits;
                self.calculation = calculation;
                self.bump();
            },
            _ => {},
        }
    }

    /// Picks the answer up, where there is one that was not picked up before.
    pub fn poll(&mut self) -> (r: Option<(Vec<Hit<S>>, Option<Calculation>)>)
        ensures
            final(self)@ == picked_up(old(self)@),
            answer_view(r) == waiting(old(self)@),
    {
        if self.response_epoch == self.last_epoch {
            return None;
        }
        self.last_epoch = self.response_epoch;
        let mut hits: Vec<Hit<S>> = Vec::new();
        std::mem::swap(&mut hits, &mut self.hits);
        let calculation = self.calculation.take();
        assert(self@.hits =~= Seq::empty());
        Some((hits, calculation))
    }
}

/// The queries that a reply holds.
pub open spec fn queries_in<S>(reply: Option<Response<S>>) -> Seq<Seq<char>> {
    match reply {
        Some(Response::Queries(qs)) => views(qs@),
        _ => Seq::empty(),
    }
}

/// The earlier searches that the daemon answered with; none where it answered otherwise or
/// not at all.
pub fn queries_of<S>(reply: Option<Response<S>>) -> (r: Vec<String>)
    ensures
        views(r@) == queries_in(reply),
{
    match reply {
        Some(Response::Queries(qs)) => qs,
        _ => {
            let r: Vec<String> = Vec::new();
            assert(views(r@) =~= Seq::empty());
            r
        },
    }
}

/// A reply to a search of an earlier session leaves the slot as it is; one of the running
/// session is there to be picked up, exactly once.
pub proof fn law_replies<S>(v: SlotView<S>, hits: Vec<Hit<S>>, sent: u64, current: u64)
    requires
        v.response_epoch == v.last_epoch,
    ensures
        sent != current ==> received(v, Response::Hits(hits), sent, current) == v,
        sent == current ==> ({
            let w = received(v, Response::Hits(hits), sent, current);
            w.response_epoch != w.last_epoch && w.hits == hits@
        }),
{
}

/// The answer to the search that was last asked for is picked up, with the hits and the
/// calculation that it came with, and is picked up once; a later answer takes the place of one
/// that was not picked up yet.
pub proof fn law_answer_is_picked_up<S>(
    v: SlotView<S>,
    first: Response<S>,
    hits: Vec<Hit<S>>,
    calculation: Option<Calculation>,
    sent: u64,
)
    requires
        waiting(v) is None,
    ensures
        ({
            let plain = received(v, Response::Hits(hits), sent, sent);
            let full = received(v, Response::HitsWithExtras { hits, calculation }, sent, sent);
            &&& waiting(plain) == Some((hits@, None::<Calculation>))
            &&& waiting(full) == Some((hits@, calculation))
            &&& waiting(picked_up(plain)) is None
            &&& waiting(picked_up(full)) is None
            &&& picked_up(v) == v
        }),
        ({
            let w = received(v, first, sent, sent);
            waiting(received(w, Response::HitsWithExtras { hits, calculation }, sent, sent))
                == Some((hits@, calculation))
        }),
{
}

/// A reply to an earlier search, and a reply that holds no hits, leave the slot as it is.
pub proof fn law_other_replies<S>(v: SlotView<S>, reply: Response<S>, sent: u64, current: u64)
    ensures
        sent != current ==> received(v, reply, sent, current) == v,
        !(reply is Hits) && !(reply is HitsWithExtras) ==> received(v, reply, sent, current) == v,
        received(v, reply, sent, current).last_epoch == v.last_epoch,
{
}

/// Earlier searches are taken from a reply that holds them, all and in their order, and from no
/// other.
pub proof fn law_queries_in<S>(reply: Option<Response<S>>, qs: Vec<String>)
    ensures
        queries_in(Some(Response::<S>::Queries(qs))) == views(qs@),
        queries_in::<S>(None).len() == 0,
        !(reply matches Some(Response::Queries(_))) ==> queries_in(reply).len() == 0,
{
}

}
