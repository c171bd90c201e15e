//! Whole runs of the driver. A run is the driver's side of a dialogue: the
//! requests that it makes as its environment answers, one answer after the
//! other.

use crate::discovery::ClassEntry;
use crate::driver::{next, Driver, DriverView};
use crate::protocol::{Request, RequestView, Response, ResponseView};
use vstd::prelude::*;

verus! {

/// The requests that the driver `d` makes as its environment gives
/// `answers`, first to last.
pub open spec fn asked(d: DriverView, answers: Seq<ResponseView>) -> Seq<RequestView>
    decreases answers.len(),
{
    if answers.len() == 0 {
        Seq::empty()
    } else {
        seq![next(d, answers.first()).1] + asked(next(d, answers.first()).0, answers.drop_first())
    }
}

/// The state in which `answers` leave the driver `d`.
pub open spec fn reached(d: DriverView, answers: Seq<ResponseView>) -> DriverView
    decreases answers.len(),
{
    if answers.len() == 0 {
        d
    } else {
        reached(next(d, answers.first()).0, answers.drop_first())
    }
}

/// The class that a request hands over for registration, if it is a
/// request to register.
pub open spec fn registered_by(request: RequestView) -> Option<ClassEntry> {
    match request {
        RequestView::Register { class } => Some(class),
        _ => None,
    }
}

/// The classes that `requests` hand over for registration, first to last.
pub open spec fn registrations(requests: Seq<RequestView>) -> Seq<ClassEntry> {
    requests.filter_map(|request: RequestView| registered_by(request))
}

/// A run over one answer is one transition.
pub proof fn lemma_run_of_one(d: DriverView, answer: ResponseView)
    ensures
        asked(d, seq![answer]) == seq![next(d, answer).1],
        reached(d, seq![answer]) == next(d, answer).0,
{
    let answers = seq![answer];
    assert(asked(next(d, answer).0, answers.drop_first()) =~= Seq::empty());
    assert(reached(next(d, answer).0, answers.drop_first()) == next(d, answer).0);
}

/// A run over answers given in two parts is the run over the first part,
/// followed by the run over the second part from where the first part left
/// the driver.
pub proof fn lemma_run_in_two_parts(
    d: DriverView,
    first: Seq<ResponseView>,
    second: Seq<ResponseView>,
)
    ensures
        asked(d, first + second) == asked(d, first) + asked(reached(d, first), second),
        reached(d, first + second) == reached(reached(d, first), second),
    decreases first.len(),
{
    if first.len() > 0 {
        let after = next(d, first.first()).0;
        assert((first + second).drop_first() =~= first.drop_first() + second);
        lemma_run_in_two_parts(after, first.drop_first(), second);
    }
}

/// The classes handed over by requests made in two parts are those of the
/// first part followed by those of the second.
pub proof fn lemma_registrations_in_two_parts(first: Seq<RequestView>, second: Seq<RequestView>)
    ensures
        registrations(first + second) == registrations(first) + registrations(second),
    decreases second.len(),
{
    if second.len() > 0 {
        assert((first + second).drop_last() =~= first + second.drop_last());
        lemma_registrations_in_two_parts(first, second.drop_last());
    }
}

/// The classes that a single request hands over: its class, if it is a
/// request to register.
pub proof fn lemma_registrations_of_one(request: RequestView)
    ensures
        registrations(seq![request]) == match registered_by(request) {
            Some(class) => seq![class],
            None => Seq::<ClassEntry>::empty(),
        },
{
    assert(registrations(seq![request].drop_last()) =~= Seq::empty());
}

/// Requests of which none is a request to register hand over no class.
pub proof fn lemma_nothing_registered(requests: Seq<RequestView>)
    requires
        forall|i: int| 0 <= i < requests.len() ==> !(#[trigger] requests[i] is Register),
    ensures
        registrations(requests) == Seq::<ClassEntry>::empty(),
    decreases requests.len(),
{
    if requests.len() > 0 {
        lemma_nothing_registered(requests.drop_last());
    }
}

/// A run over three answers is three transitions.
pub proof fn lemma_run_of_three(
    d: DriverView,
    first: ResponseView,
    second: ResponseView,
    third: ResponseView,
)
    ensures
        ({
            let d1 = next(d, first).0;
            let d2 = next(d1, second).0;
            &&& asked(d, seq![first, second, third]) == seq![
                next(d, first).1,
                next(d1, second).1,
                next(d2, third).1,
            ]
            &&& reached(d, seq![first, second, third]) == next(d2, third).0
        }),
{
    let d1 = next(d, first).0;
    let d2 = next(d1, second).0;
    lemma_run_of_one(d, first);
    lemma_run_of_one(d1, second);
    lemma_run_of_one(d2, third);
    lemma_run_in_two_parts(d, seq![first], seq![second]);
    lemma_run_in_two_parts(d, seq![first, second], seq![third]);
    assert(seq![first] + seq![second] =~= seq![first, second]);
    assert(seq![first, second] + seq![third] =~= seq![first, second, third]);
    assert(asked(d, seq![first, second, third]) =~= seq![
        next(d, first).1,
        next(d1, second).1,
        next(d2, third).1,
    ]);
}

/// The views of a sequence of answers.
pub open spec fn answers_of(answers: Seq<Response>) -> Seq<ResponseView> {
    answers.map_values(|answer: Response| answer@)
}

/// The views of a sequence of requests.
pub open spec fn requests_of(requests: Seq<Request>) -> Seq<RequestView> {
    requests.map_values(|request: Request| request@)
}

impl Driver {
    /// Gives the driver `answers`, first to last, and returns the request
    /// that it made on each of them.
    pub fn replay(&mut self, answers: Vec<Response>) -> (requests: Vec<Request>)
        ensures
            requests_of(requests@) == asked(old(self)@, answers_of(answers@)),
            final(self)@ == reached(old(self)@, answers_of(answers@)),
    {
        let ghost start = self@;
        let ghost given = answers_of(answers@);
        let mut requests: Vec<Request> = Vec::new();
        for answer in it: answers
            invariant
                given == answers_of(it.seq()),
                requests_of(requests@) == asked(start, given.take(it.index() as int)),
                self@ == reached(start, given.take(it.index() as int)),
        {
            let ghost done = given.take(it.index() as int);
            let ghost before = self@;
            let request = self.step(answer);
            requests.push(request);
            proof {
                assert(given.take(it.index() + 1) =~= done + seq![answer@]);
                lemma_run_of_one(before, answer@);
                lemma_run_in_two_parts(start, done, seq![answer@]);
            }
        }
        proof {
            assert(given.take(given.len() as int) =~= given);
        }
        requests
    }
}

} // verus!
