use vstd::prelude::*;

use crate::command::{command_of, decode_command, Command};
use crate::response::{encode_response, response_bytes, Response};
use crate::socket::{power_for, SmartSocket, NOMINAL_POWER, ZERO_POWER};

verus! {

/// The socket state after a command: `TurnOn` and `TurnOff` switch it,
/// the others leave it as it was.
pub open spec fn next_state(s: SmartSocket, c: Command) -> SmartSocket {
    match c {
        Command::TurnOn => SmartSocket::enabled(),
        Command::TurnOff => SmartSocket::disabled(),
        Command::QueryInfo => s,
        Command::Unknown => s,
    }
}

/// The reply to a command given in state `s`.
pub open spec fn reply(s: SmartSocket, c: Command) -> Response {
    match c {
        Command::TurnOn => Response::Success,
        Command::TurnOff => Response::Success,
        Command::QueryInfo => Response::Info(s.is_enabled, s.power),
        Command::Unknown => Response::Unknown,
    }
}

/// A reply never shows a torn state: an `Info` carries the power that goes
/// with its on/off flag.
pub open spec fn reply_consistent(r: Response) -> bool {
    r matches Response::Info(enabled, power) ==> power == power_for(enabled)
}

/// The state after a sequence of commands, applied one at a time in order.
pub open spec fn run(s: SmartSocket, cs: Seq<Command>) -> SmartSocket
    decreases cs.len(),
{
    if cs.len() == 0 {
        s
    } else {
        next_state(run(s, cs.drop_last()), cs.last())
    }
}

/// Serialises access to one socket: every change of its state goes through
/// `handle`.
pub struct RequestHandler {
    smart_socket: SmartSocket,
}

impl View for RequestHandler {
    type V = SmartSocket;

    closed spec fn view(&self) -> SmartSocket {
        self.smart_socket
    }
}

impl RequestHandler {
    #[verifier::type_invariant]
    spec fn inv(self) -> bool {
        self.smart_socket.wf()
    }

    /// Takes charge of a socket whose power agrees with its flag.
    pub fn new(smart_socket: SmartSocket) -> (h: RequestHandler)
        requires
            smart_socket.wf(),
        ensures
            h@ == smart_socket,
    {
        RequestHandler { smart_socket }
    }

    /// The current state of the socket, which is always consistent.
    pub fn state(&self) -> (s: SmartSocket)
        ensures
            s == self@,
            s.wf(),
    {
        proof {
            use_type_invariant(self);
        }
        self.smart_socket
    }

    /// Applies a decoded command: switches the socket for `TurnOn` and
    /// `TurnOff` and answers `Success`, reports the state for `QueryInfo`,
    /// and answers `Unknown` to `Unknown` without touching the state.
    pub fn handle_command(&mut self, command: Command) -> (r: Response)
        ensures
            final(self)@ == next_state(old(self)@, command),
            r == reply(old(self)@, command),
            final(self)@.wf(),
            reply_consistent(r),
            command == Command::Unknown ==> final(self)@ == old(self)@,
    {
        proof {
            use_type_invariant(&*self);
        }
        match command {
            Command::TurnOn => {
                self.enable();
                Response::Success
            },
            Command::TurnOff => {
                self.disable();
                Response::Success
            },
            Command::QueryInfo => Response::Info(self.smart_socket.is_enabled, self.smart_socket.power),
            Command::Unknown => Response::Unknown,
        }
    }

    /// Decodes a request byte and applies the command it stands for.
    pub fn handle(&mut self, request: u8) -> (r: Response)
        ensures
            final(self)@ == next_state(old(self)@, command_of(request)),
            r == reply(old(self)@, command_of(request)),
            final(self)@.wf(),
            reply_consistent(r),
            command_of(request) == Command::Unknown ==> final(self)@ == old(self)@,
    {
        let command = decode_command(request);
        self.handle_command(command)
    }

    /// One round of a connection: the request byte in, the five reply bytes
    /// out.
    pub fn respond(&mut self, request: u8) -> (bytes: [u8; 5])
        ensures
            final(self)@ == next_state(old(self)@, command_of(request)),
            bytes@ == response_bytes(reply(old(self)@, command_of(request))),
            final(self)@.wf(),
    {
        let r = self.handle(request);
        encode_response(r)
    }

    fn enable(&mut self)
        ensures
            final(self)@ == SmartSocket::enabled(),
    {
        self.smart_socket.enable();
    }

    fn disable(&mut self)
        ensures
            final(self)@ == SmartSocket::disabled(),
    {
        self.smart_socket.disable();
    }
}

/// Switching on and then asking reports the socket on at nominal power;
/// switching off and then asking reports it off at zero power. Asking
/// changes nothing.
pub proof fn lemma_switch_then_query(s: SmartSocket)
    ensures
        reply(next_state(s, Command::TurnOn), Command::QueryInfo) == Response::Info(
            true,
            NOMINAL_POWER,
        ),
        reply(next_state(s, Command::TurnOff), Command::QueryInfo) == Response::Info(
            false,
            ZERO_POWER,
        ),
        next_state(s, Command::QueryInfo) == s,
{
}

/// An unknown command leaves any state as it was and is answered `Unknown`.
pub proof fn lemma_unknown_is_inert(s: SmartSocket)
    ensures
        next_state(s, Command::Unknown) == s,
        reply(s, Command::Unknown) == Response::Unknown,
{
}

/// However the commands of concurrent connections are interleaved, the lock
/// applies them one at a time in some order; along any such order from a
/// consistent state every state is consistent and no reply shows a torn
/// state.
pub proof fn lemma_no_torn_state(s: SmartSocket, cs: Seq<Command>)
    requires
        s.wf(),
    ensures
        run(s, cs).wf(),
        forall|i: int| 0 <= i < cs.len() ==> #[trigger] reply_consistent(reply(run(s, cs.take(i)), cs[i])),
    decreases cs.len(),
{
    if cs.len() > 0 {
        let prefix = cs.drop_last();
        lemma_no_torn_state(s, prefix);
        assert forall|i: int| 0 <= i < cs.len() implies #[trigger] reply_consistent(
            reply(run(s, cs.take(i)), cs[i]),
        ) by {
            if i < cs.len() - 1 {
                assert(cs.take(i) =~= prefix.take(i));
                assert(cs[i] == prefix[i]);
            } else {
                assert(cs.take(i) =~= prefix);
            }
        }
    }
}

} // verus!
