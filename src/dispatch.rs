use vstd::prelude::*;

use crate::format::{command_line, format_command};

verus! {

/// Number of consecutive empty polls after which a keepalive is transmitted.
pub const IDLE_POLLS_BEFORE_KEEPALIVE: u32 = 4;

/// Sequence number carried by the first command line after the handshake.
pub const FIRST_SEQUENCE_NUMBER: usize = 3;

/// Name of the keepalive (watchdog) command.
pub open spec fn keepalive_name() -> Seq<char> {
    seq!['C', 'O', 'M', 'W', 'D', 'G']
}

/// A command waiting to be transmitted: a name and pre-formatted parameters.
pub struct Command {
    pub name: String,
    pub params: Vec<String>,
}

impl Command {
    /// Builds a command from its name and its parameters.
    pub fn new(name: String, params: Vec<String>) -> (r: Command)
        ensures
            r.name@ == name@,
            r.params.deep_view() == params.deep_view(),
    {
        Command { name, params }
    }
}

/// What travels on the command channel: a command, or the request to stop.
pub enum Message {
    Command(Command),
    Exit,
}

/// What one non-blocking receive on the command channel gave.
pub enum Poll {
    Received(Message),
    Empty,
    Disconnected,
}

/// What the worker does after a poll.
pub enum Action {
    /// Send this command line on the command socket, then sleep one interval.
    Transmit(String),
    /// Send this keepalive line on the command socket, then sleep one interval.
    Keepalive(String),
    /// Send nothing, sleep one interval.
    Wait,
    /// Leave the loop; the socket is dropped.
    Stop,
}

/// Model of a poll outcome.
pub enum Event {
    Command(Seq<char>, Seq<Seq<char>>),
    Empty,
    Exit,
}

/// Model of a transmitted line.
pub struct Sent {
    pub seq_num: nat,
    pub name: Seq<char>,
    pub params: Seq<Seq<char>>,
    pub keepalive: bool,
}

/// Model of the dispatch worker's state.
pub struct DispatchModel {
    pub seq_num: nat,
    pub idle: nat,
    pub stopped: bool,
}

pub open spec fn sent_line(s: Sent) -> Seq<char> {
    command_line(s.seq_num, s.name, s.params)
}

pub open spec fn poll_event(p: Poll) -> Event {
    match p {
        Poll::Received(Message::Command(c)) => Event::Command(c.name@, c.params.deep_view()),
        Poll::Received(Message::Exit) => Event::Exit,
        Poll::Disconnected => Event::Exit,
        Poll::Empty => Event::Empty,
    }
}

/// One poll of the dispatch worker: the next state and the line transmitted, if any.
pub open spec fn step(s: DispatchModel, e: Event) -> (DispatchModel, Option<Sent>) {
    if s.stopped {
        (s, None)
    } else {
        match e {
            Event::Command(name, params) => (
                DispatchModel { seq_num: s.seq_num + 1, idle: 0, stopped: false },
                Some(Sent { seq_num: s.seq_num, name, params, keepalive: false }),
            ),
            Event::Exit => (DispatchModel { stopped: true, ..s }, None),
            Event::Empty => if s.idle + 1 >= IDLE_POLLS_BEFORE_KEEPALIVE {
                (
                    DispatchModel { seq_num: s.seq_num + 1, idle: 0, stopped: false },
                    Some(
                        Sent {
                            seq_num: s.seq_num,
                            name: keepalive_name(),
                            params: Seq::empty(),
                            keepalive: true,
                        },
                    ),
                )
            } else {
                (DispatchModel { idle: s.idle + 1, ..s }, None)
            },
        }
    }
}

/// The state after a run of polls and the lines transmitted, in order.
pub open spec fn run(s: DispatchModel, es: Seq<Event>) -> (DispatchModel, Seq<Sent>)
    decreases es.len(),
{
    if es.len() == 0 {
        (s, Seq::empty())
    } else {
        let (mid, sent) = run(s, es.drop_last());
        let (next, out) = step(mid, es.last());
        match out {
            Some(x) => (next, sent.push(x)),
            None => (next, sent),
        }
    }
}

/// The commands among the transmitted lines, keepalives left out.
pub open spec fn real_commands(sent: Seq<Sent>) -> Seq<(Seq<char>, Seq<Seq<char>>)>
    decreases sent.len(),
{
    if sent.len() == 0 {
        Seq::empty()
    } else if sent.last().keepalive {
        real_commands(sent.drop_last())
    } else {
        real_commands(sent.drop_last()).push((sent.last().name, sent.last().params))
    }
}

/// The commands received in a run of polls, in order.
pub open spec fn commands_of(es: Seq<Event>) -> Seq<(Seq<char>, Seq<Seq<char>>)>
    decreases es.len(),
{
    if es.len() == 0 {
        Seq::empty()
    } else {
        match es.last() {
            Event::Command(name, params) => commands_of(es.drop_last()).push((name, params)),
            _ => commands_of(es.drop_last()),
        }
    }
}

/// Commands are transmitted in the order in which they were received, each
/// exactly once, and the lines carry consecutive, hence strictly increasing
/// and distinct, sequence numbers starting at the worker's counter.
pub proof fn lemma_commands_in_order(s: DispatchModel, es: Seq<Event>)
    requires
        !s.stopped,
        forall|i: int| 0 <= i < es.len() ==> !(es[i] is Exit),
    ensures
        !run(s, es).0.stopped,
        run(s, es).0.seq_num == s.seq_num + run(s, es).1.len(),
        forall|i: int| 0 <= i < run(s, es).1.len() ==> #[trigger] run(s, es).1[i].seq_num == s.seq_num + i,
        real_commands(run(s, es).1) == commands_of(es),
    decreases es.len(),
{
    if es.len() > 0 {
        let pre = es.drop_last();
        lemma_commands_in_order(s, pre);
        let (mid, sent) = run(s, pre);
        let (next, out) = step(mid, es.last());
        assert(!(es[es.len() - 1] is Exit));
        if let Some(x) = out {
            let all = sent.push(x);
            assert(all.drop_last() =~= sent);
            assert forall|i: int| 0 <= i < all.len() implies #[trigger] all[i].seq_num == s.seq_num + i by {
                if i < sent.len() {
                    assert(all[i] == sent[i]);
                }
            }
        }
    }
}

/// A keepalive goes out exactly when the fourth consecutive empty poll is seen:
/// before that nothing is transmitted and the idle count grows; on it one
/// keepalive line is transmitted and the idle count returns to zero.
pub proof fn lemma_keepalive_after_idle_polls(s: DispatchModel, n: nat)
    requires
        !s.stopped,
        s.idle < IDLE_POLLS_BEFORE_KEEPALIVE,
        s.idle + n <= IDLE_POLLS_BEFORE_KEEPALIVE,
    ensures
        ({
            let (t, sent) = run(s, Seq::new(n, |i: int| Event::Empty));
            &&& !t.stopped
            &&& s.idle + n < IDLE_POLLS_BEFORE_KEEPALIVE ==> sent.len() == 0 && t.idle == s.idle + n
                && t.seq_num == s.seq_num
            &&& s.idle + n == IDLE_POLLS_BEFORE_KEEPALIVE ==> {
                &&& sent.len() == 1
                &&& sent[0] == Sent {
                    seq_num: s.seq_num,
                    name: keepalive_name(),
                    params: Seq::empty(),
                    keepalive: true,
                }
                &&& t.idle == 0
                &&& t.seq_num == s.seq_num + 1
            }
        }),
    decreases n,
{
    if n > 0 {
        let es = Seq::new(n, |i: int| Event::Empty);
        assert(es.drop_last() =~= Seq::new((n - 1) as nat, |i: int| Event::Empty));
        lemma_keepalive_after_idle_polls(s, (n - 1) as nat);
    }
}

/// Commands received back to back are transmitted back to back: no keepalive
/// is ever placed between them.
pub proof fn lemma_no_keepalive_between_commands(s: DispatchModel, es: Seq<Event>)
    requires
        !s.stopped,
        forall|i: int| 0 <= i < es.len() ==> es[i] is Command,
    ensures
        run(s, es).1.len() == es.len(),
        run(s, es).0.idle == if es.len() == 0 { s.idle } else { 0 },
        forall|i: int| 0 <= i < run(s, es).1.len() ==> !(#[trigger] run(s, es).1[i]).keepalive,
    decreases es.len(),
{
    if es.len() > 0 {
        let pre = es.drop_last();
        lemma_no_keepalive_between_commands(s, pre);
        lemma_commands_in_order(s, pre);
        assert(es[es.len() - 1] is Command);
        let (mid, sent) = run(s, pre);
        let (next, out) = step(mid, es.last());
        let all = sent.push(out->Some_0);
        assert forall|i: int| 0 <= i < all.len() implies !(#[trigger] all[i]).keepalive by {
            if i < sent.len() {
                assert(all[i] == sent[i]);
            }
        }
    }
}

/// Once the stop request is seen, nothing more is transmitted, whatever
/// arrives afterwards.
pub proof fn lemma_silent_after_exit(s: DispatchModel, es: Seq<Event>)
    ensures
        step(s, Event::Exit).0.stopped,
        step(s, Event::Exit).1 is None,
        run(step(s, Event::Exit).0, es).1.len() == 0,
        run(step(s, Event::Exit).0, es).0 == step(s, Event::Exit).0,
    decreases es.len(),
{
    if es.len() > 0 {
        lemma_silent_after_exit(s, es.drop_last());
    }
}

/// The state of the command dispatch worker: the next sequence number and the
/// number of consecutive empty polls.
pub struct Dispatcher {
    seq_num: usize,
    idle: u32,
    stopped: bool,
}

impl View for Dispatcher {
    type V = DispatchModel;

    closed spec fn view(&self) -> DispatchModel {
        DispatchModel { seq_num: self.seq_num as nat, idle: self.idle as nat, stopped: self.stopped }
    }
}

impl Dispatcher {
    pub open spec fn wf(&self) -> bool {
        self@.idle < IDLE_POLLS_BEFORE_KEEPALIVE
    }

    /// Whether the sequence counter can still advance.
    pub open spec fn can_advance(&self) -> bool {
        self@.seq_num < usize::MAX
    }

    /// A worker that has sent nothing yet.
    pub fn new() -> (r: Dispatcher)
        ensures
            r.wf(),
            r@ == (DispatchModel { seq_num: FIRST_SEQUENCE_NUMBER as nat, idle: 0, stopped: false }),
    {
        Dispatcher { seq_num: FIRST_SEQUENCE_NUMBER, idle: 0, stopped: false }
    }

    /// The two lines sent on the command socket before the worker starts:
    /// a bare carriage return, then the mode and miscellaneous settings.
    pub fn handshake() -> (r: Vec<String>)
        ensures
            r@.len() == 2,
            r@[0]@ == seq!['\r'],
            r@[1]@ == "AT*PMODE=1,2\rAT*MISC=2,2,20,2000,3000\r"@,
    {
        let mut r: Vec<String> = Vec::new();
        proof {
            reveal_strlit("\r");
        }
        r.push(String::from_str("\r"));
        r.push(String::from_str("AT*PMODE=1,2\rAT*MISC=2,2,20,2000,3000\r"));
        r
    }

    /// Whether the worker has left its loop.
    pub fn is_stopped(&self) -> (r: bool)
        ensures
            r == self@.stopped,
    {
        self.stopped
    }

    /// Whether one more line can be numbered.
    pub fn has_sequence_room(&self) -> (r: bool)
        ensures
            r == self.can_advance(),
    {
        self.seq_num < usize::MAX
    }

    /// Decides what to do with the outcome of one poll of the command channel.
    pub fn poll(&mut self, event: Poll) -> (r: Action)
        requires
            old(self).wf(),
            old(self).can_advance(),
        ensures
            final(self).wf(),
            final(self)@ == step(old(self)@, poll_event(event)).0,
            r is Transmit <==> (step(old(self)@, poll_event(event)).1 is Some && !step(
                old(self)@,
                poll_event(event),
            ).1->Some_0.keepalive),
            r is Keepalive <==> (step(old(self)@, poll_event(event)).1 is Some && step(
                old(self)@,
                poll_event(event),
            ).1->Some_0.keepalive),
            r is Transmit ==> r->Transmit_0@ == sent_line(step(old(self)@, poll_event(event)).1->Some_0),
            r is Keepalive ==> r->Keepalive_0@ == sent_line(step(old(self)@, poll_event(event)).1->Some_0),
            r is Stop <==> final(self)@.stopped,
    {
        if self.stopped {
            return Action::Stop;
        }
        match event {
            Poll::Received(Message::Command(c)) => {
                let line = format_command(self.seq_num, c.name.as_str(), &c.params);
                self.seq_num = self.seq_num + 1;
                self.idle = 0;
                Action::Transmit(line)
            },
            Poll::Received(Message::Exit) | Poll::Disconnected => {
                self.stopped = true;
                Action::Stop
            },
            Poll::Empty => {
                if self.idle + 1 >= IDLE_POLLS_BEFORE_KEEPALIVE {
                    let name = "COMWDG";
                    proof {
                        reveal_strlit("COMWDG");
                    }
                    let params: Vec<String> = Vec::new();
                    let line = format_command(self.seq_num, name, &params);
                    assert(params.deep_view() =~= Seq::<Seq<char>>::empty());
                    assert(name@ =~= keepalive_name());
                    self.seq_num = self.seq_num + 1;
                    self.idle = 0;
                    Action::Keepalive(line)
                } else {
                    self.idle = self.idle + 1;
                    Action::Wait
                }
            },
        }
    }
}

} // verus!
