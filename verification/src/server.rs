//! The chat session logic: the table of sessions, one per connection, and
//! the commands that each event asks the transport to carry out. Nothing
//! here touches the network.

use vstd::prelude::*;
use crate::protocol::{
    encode_response,
    message_to_request,
    request_of_bytes,
    response_payload,
    ChatRequest,
    ChatResponse,
    RequestView,
    ResponseView,
};
use crate::server_database::{ServerDatabase, UserCredentialsRaw};
use crate::user_service::{
    authentication_outcome,
    registration_error,
    registration_step,
    verdict,
    AuthenticationError,
    RegistrationError,
    UserService,
};

verus! {

/// What the session logic asks the transport to do.
#[derive(Debug, PartialEq, Eq)]
pub enum ChatServerResponseCommand {
    /// Send the payload to every connection.
    SendToAll(Vec<u8>),
    /// Send the payload to every connection but the named one.
    SendToAllExcept(String, Vec<u8>),
    /// Send the payload to the named connections.
    SendToSome(Vec<String>, Vec<u8>),
    /// Drop the named connection.
    DisconnectUser(String),
}

/// A command, its texts as sequences of characters and its payload as a
/// sequence of bytes.
pub enum CommandView {
    SendToAll(Seq<u8>),
    SendToAllExcept(Seq<char>, Seq<u8>),
    SendToSome(Seq<Seq<char>>, Seq<u8>),
    DisconnectUser(Seq<char>),
}

/// The characters of each string of a list.
pub open spec fn texts(strings: Seq<String>) -> Seq<Seq<char>> {
    strings.map_values(|s: String| s@)
}

impl View for ChatServerResponseCommand {
    type V = CommandView;

    open spec fn view(&self) -> CommandView {
        match *self {
            ChatServerResponseCommand::SendToAll(payload) => CommandView::SendToAll(payload@),
            ChatServerResponseCommand::SendToAllExcept(except, payload) => {
                CommandView::SendToAllExcept(except@, payload@)
            },
            ChatServerResponseCommand::SendToSome(ids, payload) => CommandView::SendToSome(
                texts(ids@),
                payload@,
            ),
            ChatServerResponseCommand::DisconnectUser(id) => CommandView::DisconnectUser(id@),
        }
    }
}

/// The view of a command that may be absent.
pub open spec fn command_view(command: Option<ChatServerResponseCommand>) -> Option<CommandView> {
    match command {
        Some(command) => Some(command@),
        None => None,
    }
}

/// The views of a list of commands that may be absent.
pub open spec fn command_views(commands: Option<Vec<ChatServerResponseCommand>>) -> Option<
    Seq<CommandView>,
> {
    match commands {
        Some(commands) => Some(commands@.map_values(|c: ChatServerResponseCommand| c@)),
        None => None,
    }
}

/// A session as the contracts see it: the connection it belongs to and, once
/// authenticated, the user's name. A session is authenticated exactly if it
/// has a name.
pub struct SessionView {
    pub id: Seq<char>,
    pub name: Option<Seq<char>>,
}

/// No two sessions belong to one connection.
pub open spec fn distinct_ids(sessions: Seq<SessionView>) -> bool {
    forall|i: int, j: int|
        0 <= i < j < sessions.len() ==> (#[trigger] sessions[i]).id != (#[trigger] sessions[j]).id
}

/// Whether the connection has a session.
pub open spec fn has_session(sessions: Seq<SessionView>, id: Seq<char>) -> bool {
    exists|i: int| 0 <= i < sessions.len() && (#[trigger] sessions[i]).id == id
}

/// Where the session of a connection stands in the table.
pub open spec fn session_index(sessions: Seq<SessionView>, id: Seq<char>) -> int {
    choose|i: int| 0 <= i < sessions.len() && (#[trigger] sessions[i]).id == id
}

/// The name under which a connection is authenticated, if it is.
pub open spec fn session_name(sessions: Seq<SessionView>, id: Seq<char>) -> Option<Seq<char>> {
    if has_session(sessions, id) {
        sessions[session_index(sessions, id)].name
    } else {
        None
    }
}

/// Whether the connection has a session and that session is authenticated.
pub open spec fn is_authenticated(sessions: Seq<SessionView>, id: Seq<char>) -> bool {
    session_name(sessions, id) is Some
}

/// The test that picks the authenticated sessions of connections other than
/// `sender`.
pub open spec fn is_other_authenticated(sender: Seq<char>) -> spec_fn(SessionView) -> bool {
    |session: SessionView| session.name is Some && session.id != sender
}

/// The connections, in table order, that a broadcast from `sender` goes to:
/// every authenticated one but the sender's own.
pub open spec fn other_authenticated(sessions: Seq<SessionView>, sender: Seq<char>) -> Seq<
    Seq<char>,
> {
    sessions.filter(is_other_authenticated(sender)).map_values(|session: SessionView| session.id)
}

/// The table after a connection was opened: a fresh, unauthenticated session,
/// in the place of an earlier one for the same connection if there was one.
pub open spec fn connected(sessions: Seq<SessionView>, id: Seq<char>) -> Seq<SessionView> {
    if has_session(sessions, id) {
        sessions.update(session_index(sessions, id), SessionView { id, name: None })
    } else {
        sessions.push(SessionView { id, name: None })
    }
}

/// The table after a connection was closed: without its session.
pub open spec fn disconnected(sessions: Seq<SessionView>, id: Seq<char>) -> Seq<SessionView> {
    if has_session(sessions, id) {
        sessions.remove(session_index(sessions, id))
    } else {
        sessions
    }
}

/// The table after a connection authenticated under `name`.
pub open spec fn authenticated(sessions: Seq<SessionView>, id: Seq<char>, name: Seq<char>) -> Seq<
    SessionView,
> {
    if has_session(sessions, id) {
        sessions.update(session_index(sessions, id), SessionView { id, name: Some(name) })
    } else {
        sessions
    }
}

/// The command that sends a response to one connection.
pub open spec fn reply(id: Seq<char>, response: ResponseView) -> CommandView {
    CommandView::SendToSome(seq![id], response_payload(response))
}

/// The command that sends a response to every authenticated connection but
/// the sender's.
pub open spec fn broadcast(
    sessions: Seq<SessionView>,
    sender: Seq<char>,
    response: ResponseView,
) -> CommandView {
    CommandView::SendToSome(other_authenticated(sessions, sender), response_payload(response))
}

/// What is announced when a connection closes: to everyone, that the user
/// has left, if the session was authenticated; nothing otherwise.
pub open spec fn farewell(sessions: Seq<SessionView>, id: Seq<char>) -> Option<CommandView> {
    match session_name(sessions, id) {
        Some(user_name) => Some(
            CommandView::SendToAll(
                response_payload(ResponseView::Connection { user_name, is_connected: false }),
            ),
        ),
        None => None,
    }
}

/// The commands that answer an authentication: on success the result to the
/// connection itself, then the arrival to the other authenticated
/// connections; on failure the result alone. A success for a connection
/// without a session is answered by nothing.
pub open spec fn authentication_commands(
    sessions: Seq<SessionView>,
    records: Map<Seq<char>, Seq<char>>,
    id: Seq<char>,
    name: Seq<char>,
    password: Seq<char>,
) -> Option<Seq<CommandView>> {
    match authentication_outcome(records, name, password) {
        Ok(_) => if has_session(sessions, id) {
            Some(
                seq![
                    reply(id, ResponseView::AuthenticationResult { result: true, error: None }),
                    broadcast(
                        sessions,
                        id,
                        ResponseView::Connection { user_name: name, is_connected: true },
                    ),
                ],
            )
        } else {
            None
        },
        Err(error) => Some(
            seq![
                reply(
                    id,
                    ResponseView::AuthenticationResult { result: false, error: Some(error) },
                ),
            ],
        ),
    }
}

/// The table after an authentication was tried.
pub open spec fn authentication_sessions(
    sessions: Seq<SessionView>,
    records: Map<Seq<char>, Seq<char>>,
    id: Seq<char>,
    name: Seq<char>,
    password: Seq<char>,
) -> Seq<SessionView> {
    if authentication_outcome(records, name, password) is Ok {
        authenticated(sessions, id, name)
    } else {
        sessions
    }
}

/// The command that answers a registration: its result, to the connection
/// itself.
pub open spec fn registration_commands(
    records: Map<Seq<char>, Seq<char>>,
    id: Seq<char>,
    name: Seq<char>,
    password: Seq<char>,
) -> Seq<CommandView> {
    seq![
        reply(
            id,
            ResponseView::RegistrationResult {
                result: registration_error(records, name, password) is None,
                error: registration_error(records, name, password),
            },
        ),
    ]
}

/// The commands that answer a request from an authenticated connection: a
/// chat message goes to the other authenticated connections under the
/// sender's name; anything else is dropped.
pub open spec fn authenticated_commands(
    sessions: Seq<SessionView>,
    id: Seq<char>,
    request: RequestView,
) -> Option<Seq<CommandView>> {
    match request {
        RequestView::Message { message } => match session_name(sessions, id) {
            Some(user_name) => Some(
                seq![broadcast(sessions, id, ResponseView::Message { user_name, message })],
            ),
            None => None,
        },
        _ => None,
    }
}

/// The commands that answer a request from a connection that is not
/// authenticated: a chat message is dropped.
pub open spec fn unauthenticated_commands(
    sessions: Seq<SessionView>,
    records: Map<Seq<char>, Seq<char>>,
    id: Seq<char>,
    request: RequestView,
) -> Option<Seq<CommandView>> {
    match request {
        RequestView::Authentication { name, password } => authentication_commands(
            sessions,
            records,
            id,
            name,
            password,
        ),
        RequestView::Registration { name, password } => Some(
            registration_commands(records, id, name, password),
        ),
        RequestView::Message { message } => None,
    }
}

/// The table after a request from a connection that is not authenticated.
pub open spec fn unauthenticated_sessions(
    sessions: Seq<SessionView>,
    records: Map<Seq<char>, Seq<char>>,
    id: Seq<char>,
    request: RequestView,
) -> Seq<SessionView> {
    match request {
        RequestView::Authentication { name, password } => authentication_sessions(
            sessions,
            records,
            id,
            name,
            password,
        ),
        _ => sessions,
    }
}

/// How the records change on a request from a connection that is not
/// authenticated: a registration does what `registration_step` says, and
/// nothing else changes them.
pub open spec fn unauthenticated_records(
    before: Map<Seq<char>, Seq<char>>,
    request: RequestView,
    after: Map<Seq<char>, Seq<char>>,
) -> bool {
    match request {
        RequestView::Registration { name, password } => registration_step(
            before,
            name,
            password,
            verdict(registration_error(before, name, password)),
            after,
        ),
        _ => after == before,
    }
}

/// The commands that answer a request. A connection without a session gets
/// no answer.
pub open spec fn request_commands(
    sessions: Seq<SessionView>,
    records: Map<Seq<char>, Seq<char>>,
    id: Seq<char>,
    request: RequestView,
) -> Option<Seq<CommandView>> {
    if !has_session(sessions, id) {
        None
    } else if is_authenticated(sessions, id) {
        authenticated_commands(sessions, id, request)
    } else {
        unauthenticated_commands(sessions, records, id, request)
    }
}

/// The table after a request.
pub open spec fn request_sessions(
    sessions: Seq<SessionView>,
    records: Map<Seq<char>, Seq<char>>,
    id: Seq<char>,
    request: RequestView,
) -> Seq<SessionView> {
    if has_session(sessions, id) && !is_authenticated(sessions, id) {
        unauthenticated_sessions(sessions, records, id, request)
    } else {
        sessions
    }
}

/// How the records change on a request.
pub open spec fn request_records(
    sessions: Seq<SessionView>,
    before: Map<Seq<char>, Seq<char>>,
    id: Seq<char>,
    request: RequestView,
    after: Map<Seq<char>, Seq<char>>,
) -> bool {
    if has_session(sessions, id) && !is_authenticated(sessions, id) {
        unauthenticated_records(before, request, after)
    } else {
        after == before
    }
}

/// The session of one connection.
struct UserData {
    id: String,
    authenticated: bool,
    name: Option<String>,
}

impl View for UserData {
    type V = SessionView;

    closed spec fn view(&self) -> SessionView {
        SessionView {
            id: self.id@,
            name: match self.name {
                Some(name) => Some(name@),
                None => None,
            },
        }
    }
}

/// The table of sessions, in the order in which the connections were opened.
/// It is a vector that is searched by connection id, each id occurring once:
/// the targets of a broadcast then come in a fixed order, that of the table.
struct ChatState {
    users: Vec<UserData>,
}

/// The chat session logic over a user service.
pub struct ChatServer<T: ServerDatabase> {
    state: ChatState,
    user_service: UserService<T>,
}

/// Among the authenticated connections other than the sender's, the sender's
/// own does not occur.
pub proof fn law_broadcast_spares_sender(sessions: Seq<SessionView>, sender: Seq<char>)
    ensures
        !other_authenticated(sessions, sender).contains(sender),
{
    let kept = sessions.filter(is_other_authenticated(sender));
    assert forall|i: int| 0 <= i < kept.len() implies (#[trigger] kept[i]).id != sender by {
        sessions.lemma_filter_pred(is_other_authenticated(sender), i);
    }
}

/// A broadcast goes to authenticated connections of the table only.
pub proof fn law_broadcast_reaches_authenticated(
    sessions: Seq<SessionView>,
    sender: Seq<char>,
    target: Seq<char>,
)
    requires
        distinct_ids(sessions),
    ensures
        other_authenticated(sessions, sender).contains(target) <==> target != sender
            && is_authenticated(sessions, target),
{
    let test = is_other_authenticated(sender);
    let kept = sessions.filter(test);
    let targets = other_authenticated(sessions, sender);
    if targets.contains(target) {
        let i = choose|i: int| 0 <= i < targets.len() && targets[i] == target;
        sessions.lemma_filter_pred(test, i);
        assert(kept.contains(kept[i]));
        sessions.lemma_filter_contains_rev(test, kept[i]);
        let j = choose|j: int| 0 <= j < sessions.len() && sessions[j] == kept[i];
        lemma_session_index(sessions, j);
    }
    if target != sender && is_authenticated(sessions, target) {
        let j = session_index(sessions, target);
        sessions.lemma_filter_contains(test, j);
        let i = choose|i: int| 0 <= i < kept.len() && kept[i] == sessions[j];
        assert(targets[i] == target);
    }
}

/// In a table without duplicates, a session is found where it stands.
pub proof fn lemma_session_index(sessions: Seq<SessionView>, at: int)
    requires
        distinct_ids(sessions),
        0 <= at < sessions.len(),
    ensures
        has_session(sessions, sessions[at].id),
        session_index(sessions, sessions[at].id) == at,
        session_name(sessions, sessions[at].id) == sessions[at].name,
{
    let found = session_index(sessions, sessions[at].id);
    if found < at {
        assert(sessions[found].id != sessions[at].id);
    } else if at < found {
        assert(sessions[at].id != sessions[found].id);
    }
}

/// Opening or closing one connection leaves the session of every other
/// connection as it was.
pub proof fn law_other_sessions_untouched(
    sessions: Seq<SessionView>,
    id: Seq<char>,
    other: Seq<char>,
)
    requires
        distinct_ids(sessions),
        other != id,
    ensures
        has_session(connected(sessions, id), other) == has_session(sessions, other),
        session_name(connected(sessions, id), other) == session_name(sessions, other),
        has_session(disconnected(sessions, id), other) == has_session(sessions, other),
        session_name(disconnected(sessions, id), other) == session_name(sessions, other),
        has_session(connected(sessions, id), id),
        session_name(connected(sessions, id), id) is None,
        !has_session(disconnected(sessions, id), id),
{
    let opened = connected(sessions, id);
    let closed = disconnected(sessions, id);
    if has_session(sessions, id) {
        let at = session_index(sessions, id);
        assert(opened[at].id == id);
        assert forall|i: int, j: int| 0 <= i < j < opened.len() implies (#[trigger] opened[i]).id
            != (#[trigger] opened[j]).id by {
            assert(opened[i].id == sessions[i].id);
            assert(opened[j].id == sessions[j].id);
        }
        lemma_session_index(opened, at);
        assert forall|i: int| 0 <= i < closed.len() implies (#[trigger] closed[i]).id != id by {
            let i0 = if i < at { i } else { i + 1 };
            assert(closed[i] == sessions[i0]);
            if i0 < at {
                assert(sessions[i0].id != sessions[at].id);
            } else {
                assert(sessions[at].id != sessions[i0].id);
            }
        }
        assert forall|i: int, j: int| 0 <= i < j < closed.len() implies (#[trigger] closed[i]).id
            != (#[trigger] closed[j]).id by {
            let i0 = if i < at { i } else { i + 1 };
            let j0 = if j < at { j } else { j + 1 };
            assert(closed[i] == sessions[i0]);
            assert(closed[j] == sessions[j0]);
        }
        if has_session(sessions, other) {
            let k = session_index(sessions, other);
            assert(opened[k] == sessions[k]);
            lemma_session_index(opened, k);
            let k1 = if k < at { k } else { k - 1 };
            assert(closed[k1] == sessions[k]);
            lemma_session_index(closed, k1);
        } else {
            assert forall|i: int| 0 <= i < opened.len() implies (#[trigger] opened[i]).id
                != other by {
                assert(opened[i].id == sessions[i].id);
            }
            assert forall|i: int| 0 <= i < closed.len() implies (#[trigger] closed[i]).id
                != other by {
                let i0 = if i < at { i } else { i + 1 };
                assert(closed[i] == sessions[i0]);
            }
        }
    } else {
        let at = sessions.len() as int;
        assert(opened[at].id == id);
        assert forall|i: int, j: int| 0 <= i < j < opened.len() implies (#[trigger] opened[i]).id
            != (#[trigger] opened[j]).id by {
            assert(opened[i] == sessions[i]);
            if j < at {
                assert(opened[j] == sessions[j]);
            }
        }
        lemma_session_index(opened, at);
        if has_session(sessions, other) {
            let k = session_index(sessions, other);
            assert(opened[k] == sessions[k]);
            lemma_session_index(opened, k);
        } else {
            assert forall|i: int| 0 <= i < opened.len() implies (#[trigger] opened[i]).id
                != other by {
                if i < at {
                    assert(opened[i] == sessions[i]);
                }
            }
        }
    }
}

/// The commands are a single one, a send to some, and `sender` is not among
/// its targets.
pub open spec fn spares_sender(commands: Option<Seq<CommandView>>, sender: Seq<char>) -> bool {
    match commands {
        Some(list) => list.len() == 1 && match list[0] {
            CommandView::SendToSome(targets, _) => !targets.contains(sender),
            _ => false,
        },
        None => false,
    }
}

/// A chat message from an authenticated connection is answered by one
/// command, a send to some, and the sender's own connection is not among its
/// targets.
pub proof fn law_message_spares_sender(
    sessions: Seq<SessionView>,
    records: Map<Seq<char>, Seq<char>>,
    id: Seq<char>,
    message: Seq<char>,
)
    requires
        is_authenticated(sessions, id),
    ensures
        spares_sender(
            request_commands(sessions, records, id, RequestView::Message { message }),
            id,
        ),
{
    law_broadcast_spares_sender(sessions, id);
}

/// A session that is authenticated stays authenticated, under the same name,
/// whatever request any connection sends.
pub proof fn law_authentication_is_kept(
    sessions: Seq<SessionView>,
    records: Map<Seq<char>, Seq<char>>,
    id: Seq<char>,
    request: RequestView,
    other: Seq<char>,
)
    requires
        distinct_ids(sessions),
        is_authenticated(sessions, other),
    ensures
        distinct_ids(request_sessions(sessions, records, id, request)),
        session_name(request_sessions(sessions, records, id, request), other) == session_name(
            sessions,
            other,
        ),
{
    let after = request_sessions(sessions, records, id, request);
    if after != sessions {
        let at = session_index(sessions, id);
        let name = request->Authentication_name;
        assert(after == sessions.update(at, SessionView { id, name: Some(name) }));
        assert forall|i: int, j: int| 0 <= i < j < after.len() implies (#[trigger] after[i]).id != (
        #[trigger] after[j]).id by {
            assert(after[i].id == sessions[i].id);
            assert(after[j].id == sessions[j].id);
        }
        let k = session_index(sessions, other);
        lemma_session_index(sessions, k);
        assert(k != at);
        assert(after[k] == sessions[k]);
        lemma_session_index(after, k);
    }
}

impl<T: ServerDatabase> ChatServer<T> {
    /// The table of sessions.
    pub closed spec fn sessions(&self) -> Seq<SessionView> {
        self.state.users@.map_values(|user: UserData| user@)
    }

    /// The records of the credential store.
    pub closed spec fn records(&self) -> Map<Seq<char>, Seq<char>> {
        self.user_service.records()
    }

    /// The table holds one session per connection, and a session has a name
    /// exactly if it is marked authenticated.
    pub closed spec fn wf(&self) -> bool {
        &&& distinct_ids(self.sessions())
        &&& forall|i: int|
            0 <= i < self.state.users@.len() ==> (#[trigger] self.state.users@[i]).authenticated
                == (self.state.users@[i].name is Some)
    }

    /// A well-formed table has no two sessions for one connection.
    pub proof fn lemma_wf_distinct(&self)
        requires
            self.wf(),
        ensures
            distinct_ids(self.sessions()),
    {
    }

    /// A server without sessions.
    pub fn new(user_service: UserService<T>) -> (server: Self)
        ensures
            server.wf(),
            server.sessions() == Seq::<SessionView>::empty(),
            server.records() == user_service.records(),
    {
        let server = Self { state: ChatState { users: Vec::new() }, user_service };
        assert(server.sessions() =~= Seq::<SessionView>::empty());
        server
    }

    /// Where the session of a connection stands.
    fn find(&self, user_id: &str) -> (found: Option<usize>)
        requires
            self.wf(),
        ensures
            found is Some <==> has_session(self.sessions(), user_id@),
            found matches Some(at) ==> at < self.state.users@.len() && at == session_index(
                self.sessions(),
                user_id@,
            ) && self.state.users@[at as int].id@ == user_id@,
    {
        let wanted = user_id.to_owned();
        let mut i: usize = 0;
        while i < self.state.users.len()
            invariant
                i <= self.state.users@.len(),
                self.wf(),
                wanted@ == user_id@,
                self.sessions().len() == self.state.users@.len(),
                forall|j: int| 0 <= j < i ==> (#[trigger] self.sessions()[j]).id != user_id@,
            decreases self.state.users@.len() - i,
        {
            if self.state.users[i].id == wanted {
                proof {
                    assert(self.sessions()[i as int].id == user_id@);
                    lemma_session_index(self.sessions(), i as int);
                }
                return Some(i);
            }
            i = i + 1;
        }
        None
    }

    /// Opens the session of a connection: unauthenticated and without a name.
    /// A session that the connection had before is replaced.
    pub fn on_user_connect(&mut self, user_id: String)
        requires
            old(self).wf(),
        ensures
            final(self).wf(),
            final(self).sessions() == connected(old(self).sessions(), user_id@),
            final(self).records() == old(self).records(),
    {
        let found = self.find(user_id.as_str());
        let fresh = UserData { id: user_id, authenticated: false, name: None };
        match found {
            Some(at) => {
                self.state.users.set(at, fresh);
                assert(self.sessions() =~= connected(old(self).sessions(), user_id@));
                assert forall|i: int, j: int| 0 <= i < j < self.sessions().len() implies (
                #[trigger] self.sessions()[i]).id != (#[trigger] self.sessions()[j]).id by {
                    assert(self.sessions()[i].id == old(self).sessions()[i].id);
                    assert(self.sessions()[j].id == old(self).sessions()[j].id);
                }
            },
            None => {
                self.state.users.push(fresh);
                assert(self.sessions() =~= connected(old(self).sessions(), user_id@));
                assert forall|i: int, j: int| 0 <= i < j < self.sessions().len() implies (
                #[trigger] self.sessions()[i]).id != (#[trigger] self.sessions()[j]).id by {
                    assert(self.sessions()[i].id == old(self).sessions()[i].id);
                    if j < old(self).sessions().len() {
                        assert(self.sessions()[j].id == old(self).sessions()[j].id);
                    }
                }
            },
        }
    }

    /// Closes the session of a connection. If it was authenticated, everyone
    /// is told that the user has left.
    pub fn on_user_disconnect(&mut self, user_id: String) -> (command: Option<
        ChatServerResponseCommand,
    >)
        requires
            old(self).wf(),
        ensures
            final(self).wf(),
            final(self).sessions() == disconnected(old(self).sessions(), user_id@),
            final(self).records() == old(self).records(),
            command_view(command) == farewell(old(self).sessions(), user_id@),
    {
        let at = match self.find(user_id.as_str()) {
            Some(at) => at,
            None => {
                return None;
            },
        };
        let user = self.state.users.remove(at);
        proof {
            assert(self.sessions() =~= disconnected(old(self).sessions(), user_id@));
            assert forall|i: int, j: int| 0 <= i < j < self.sessions().len() implies (
            #[trigger] self.sessions()[i]).id != (#[trigger] self.sessions()[j]).id by {
                let before = old(self).sessions();
                let i0 = if i < at { i } else { i + 1 };
                let j0 = if j < at { j } else { j + 1 };
                assert(self.sessions()[i] == before[i0]);
                assert(self.sessions()[j] == before[j0]);
            }
            assert(user@ == old(self).sessions()[at as int]);
        }
        if user.authenticated {
            match user.name {
                Some(user_name) => Some(
                    Self::make_response_to_all(
                        &ChatResponse::Connection { user_name, is_connected: false },
                    ),
                ),
                None => None,
            }
        } else {
            None
        }
    }

    /// Answers the payload of a frame from a connection. A payload that is
    /// no request, and a connection without a session, are answered by
    /// nothing and change nothing.
    pub fn on_user_message(&mut self, user_id: String, message: &[u8]) -> (commands: Option<
        Vec<ChatServerResponseCommand>,
    >)
        requires
            old(self).wf(),
        ensures
            final(self).wf(),
            match request_of_bytes(message@) {
                Some(request) => {
                    &&& command_views(commands) == request_commands(
                        old(self).sessions(),
                        old(self).records(),
                        user_id@,
                        request,
                    )
                    &&& final(self).sessions() == request_sessions(
                        old(self).sessions(),
                        old(self).records(),
                        user_id@,
                        request,
                    )
                    &&& request_records(
                        old(self).sessions(),
                        old(self).records(),
                        user_id@,
                        request,
                        final(self).records(),
                    )
                },
                None => {
                    &&& commands is None
                    &&& final(self).sessions() == old(self).sessions()
                    &&& final(self).records() == old(self).records()
                },
            },
            forall|other: Seq<char>|
                is_authenticated(old(self).sessions(), other) ==> #[trigger] session_name(
                    final(self).sessions(),
                    other,
                ) == session_name(old(self).sessions(), other),
            (request_of_bytes(message@) matches Some(RequestView::Message { .. }))
                && is_authenticated(old(self).sessions(), user_id@) ==> spares_sender(
                command_views(commands),
                user_id@,
            ),
    {
        let request = match message_to_request(message) {
            Some(request) => request,
            None => {
                return None;
            },
        };
        let authenticated_already = match self.find(user_id.as_str()) {
            Some(at) => self.state.users[at].authenticated,
            None => {
                return None;
            },
        };
        proof {
            self.lemma_wf_distinct();
            assert forall|other: Seq<char>|
                is_authenticated(old(self).sessions(), other) implies #[trigger] session_name(
                request_sessions(old(self).sessions(), old(self).records(), user_id@, request@),
                other,
            ) == session_name(old(self).sessions(), other) by {
                law_authentication_is_kept(
                    old(self).sessions(),
                    old(self).records(),
                    user_id@,
                    request@,
                    other,
                );
            }
        }
        if authenticated_already {
            self.process_request_authenticated(user_id.as_str(), request)
        } else {
            self.process_request_unauthenticated(user_id.as_str(), request)
        }
    }

    /// Answers a request as from an authenticated connection: a chat message
    /// goes to the other authenticated connections, never to the sender's
    /// own; anything else is dropped.
    pub fn process_request_authenticated(&mut self, user_id: &str, request: ChatRequest) -> (commands:
        Option<Vec<ChatServerResponseCommand>>)
        requires
            old(self).wf(),
        ensures
            final(self).wf(),
            final(self).sessions() == old(self).sessions(),
            final(self).records() == old(self).records(),
            command_views(commands) == authenticated_commands(
                old(self).sessions(),
                user_id@,
                request@,
            ),
            commands is Some ==> spares_sender(command_views(commands), user_id@),
    {
        if let ChatRequest::Message { message } = request {
            let at = match self.find(user_id) {
                Some(at) => at,
                None => {
                    return None;
                },
            };
            let user_name = match &self.state.users[at].name {
                Some(name) => name.clone(),
                None => {
                    return None;
                },
            };
            let response = ChatResponse::Message { user_name, message };
            let command = self.make_response_to_all_authenticated(user_id, &response);
            proof {
                law_broadcast_spares_sender(self.sessions(), user_id@);
            }
            let commands = vec![command];
            assert(command_views(Some(commands)) =~= authenticated_commands(
                old(self).sessions(),
                user_id@,
                request@,
            ));
            return Some(commands);
        }
        None
    }

    /// Answers a request as from a connection that is not authenticated: an
    /// authentication or a registration is carried out, a chat message is
    /// dropped.
    pub fn process_request_unauthenticated(&mut self, user_id: &str, request: ChatRequest) -> (commands:
        Option<Vec<ChatServerResponseCommand>>)
        requires
            old(self).wf(),
        ensures
            final(self).wf(),
            final(self).sessions() == unauthenticated_sessions(
                old(self).sessions(),
                old(self).records(),
                user_id@,
                request@,
            ),
            unauthenticated_records(old(self).records(), request@, final(self).records()),
            command_views(commands) == unauthenticated_commands(
                old(self).sessions(),
                old(self).records(),
                user_id@,
                request@,
            ),
    {
        match request {
            ChatRequest::Authentication { user_credentials_raw } => self.authenticate(
                user_id,
                &user_credentials_raw,
            ),
            ChatRequest::Registration { user_credentials_raw } => self.register(
                user_id,
                &user_credentials_raw,
            ),
            ChatRequest::Message { message: _ } => None,
        }
    }

    /// Registers the credentials and answers the connection with the result.
    /// A registration does not authenticate.
    pub fn register(&mut self, user_id: &str, user_credentials_raw: &UserCredentialsRaw) -> (commands:
        Option<Vec<ChatServerResponseCommand>>)
        requires
            old(self).wf(),
        ensures
            final(self).wf(),
            final(self).sessions() == old(self).sessions(),
            registration_step(
                old(self).records(),
                user_credentials_raw.name@,
                user_credentials_raw.password@,
                verdict(
                    registration_error(
                        old(self).records(),
                        user_credentials_raw.name@,
                        user_credentials_raw.password@,
                    ),
                ),
                final(self).records(),
            ),
            command_views(commands) == Some(
                registration_commands(
                    old(self).records(),
                    user_id@,
                    user_credentials_raw.name@,
                    user_credentials_raw.password@,
                ),
            ),
    {
        let response = match self.user_service.add_user(user_credentials_raw) {
            Ok(_) => ChatResponse::RegistrationResult { result: true, error: None },
            Err(error) => ChatResponse::RegistrationResult { result: false, error: Some(error) },
        };
        let commands = vec![Self::make_response_to_user(user_id, &response)];
        assert(command_views(Some(commands)) =~= Some(
            registration_commands(
                old(self).records(),
                user_id@,
                user_credentials_raw.name@,
                user_credentials_raw.password@,
            ),
        ));
        Some(commands)
    }

    /// Authenticates the credentials. On success the session takes the name,
    /// the connection is answered, and the other authenticated connections
    /// are told of the arrival; on failure the connection is answered and
    /// the session stays as it was.
    pub fn authenticate(&mut self, user_id: &str, user_credentials_raw: &UserCredentialsRaw) -> (commands:
        Option<Vec<ChatServerResponseCommand>>)
        requires
            old(self).wf(),
        ensures
            final(self).wf(),
            final(self).records() == old(self).records(),
            final(self).sessions() == authentication_sessions(
                old(self).sessions(),
                old(self).records(),
                user_id@,
                user_credentials_raw.name@,
                user_credentials_raw.password@,
            ),
            command_views(commands) == authentication_commands(
                old(self).sessions(),
                old(self).records(),
                user_id@,
                user_credentials_raw.name@,
                user_credentials_raw.password@,
            ),
    {
        match self.user_service.authenticate_user(user_credentials_raw) {
            Ok(_) => {
                let at = match self.find(user_id) {
                    Some(at) => at,
                    None => {
                        return None;
                    },
                };
                let entry = UserData {
                    id: self.state.users[at].id.clone(),
                    authenticated: true,
                    name: Some(user_credentials_raw.name.clone()),
                };
                self.state.users.set(at, entry);
                proof {
                    assert(self.sessions() =~= authenticated(
                        old(self).sessions(),
                        user_id@,
                        user_credentials_raw.name@,
                    ));
                    assert forall|i: int, j: int| 0 <= i < j < self.sessions().len() implies (
                    #[trigger] self.sessions()[i]).id != (#[trigger] self.sessions()[j]).id by {
                        assert(self.sessions()[i].id == old(self).sessions()[i].id);
                        assert(self.sessions()[j].id == old(self).sessions()[j].id);
                    }
                    lemma_other_authenticated_update(
                        old(self).sessions(),
                        at as int,
                        self.sessions()[at as int],
                    );
                }
                let result = Self::make_response_to_user(
                    user_id,
                    &ChatResponse::AuthenticationResult { result: true, error: None },
                );
                let arrival = self.make_response_to_all_authenticated(
                    user_id,
                    &ChatResponse::Connection {
                        user_name: user_credentials_raw.name.clone(),
                        is_connected: true,
                    },
                );
                let commands = vec![result, arrival];
                assert(command_views(Some(commands)) =~= authentication_commands(
                    old(self).sessions(),
                    old(self).records(),
                    user_id@,
                    user_credentials_raw.name@,
                    user_credentials_raw.password@,
                ));
                Some(commands)
            },
            Err(error) => {
                let commands = vec![
                    Self::make_response_to_user(
                        user_id,
                        &ChatResponse::AuthenticationResult { result: false, error: Some(error) },
                    ),
                ];
                assert(command_views(Some(commands)) =~= authentication_commands(
                    old(self).sessions(),
                    old(self).records(),
                    user_id@,
                    user_credentials_raw.name@,
                    user_credentials_raw.password@,
                ));
                Some(commands)
            },
        }
    }

    /// The command that sends a response to one connection.
    pub fn make_response_to_user(user_id: &str, response: &ChatResponse) -> (command:
        ChatServerResponseCommand)
        ensures
            command@ == reply(user_id@, response@),
    {
        let ids = vec![user_id.to_owned()];
        assert(texts(ids@) =~= seq![user_id@]);
        ChatServerResponseCommand::SendToSome(ids, encode_response(response))
    }

    /// The command that sends a response to every connection.
    pub fn make_response_to_all(response: &ChatResponse) -> (command: ChatServerResponseCommand)
        ensures
            command@ == CommandView::SendToAll(response_payload(response@)),
    {
        ChatServerResponseCommand::SendToAll(encode_response(response))
    }

    /// The command that sends a response to every authenticated connection
    /// but the sender's.
    pub fn make_response_to_all_authenticated(
        &self,
        sender_user_id: &str,
        response: &ChatResponse,
    ) -> (command: ChatServerResponseCommand)
        requires
            self.wf(),
        ensures
            command@ == broadcast(self.sessions(), sender_user_id@, response@),
    {
        let sender = sender_user_id.to_owned();
        let mut authenticated_users: Vec<String> = Vec::new();
        let ghost test = is_other_authenticated(sender_user_id@);
        let mut i: usize = 0;
        proof {
            reveal(Seq::filter);
            assert(self.sessions().take(0) =~= Seq::<SessionView>::empty());
            assert(texts(authenticated_users@) =~= other_authenticated(
                self.sessions().take(0),
                sender_user_id@,
            ));
        }
        while i < self.state.users.len()
            invariant
                i <= self.state.users@.len(),
                self.wf(),
                sender@ == sender_user_id@,
                test == is_other_authenticated(sender_user_id@),
                self.sessions().len() == self.state.users@.len(),
                texts(authenticated_users@) == other_authenticated(
                    self.sessions().take(i as int),
                    sender_user_id@,
                ),
            decreases self.state.users@.len() - i,
        {
            let user = &self.state.users[i];
            proof {
                reveal(Seq::filter);
                let next = self.sessions().take(i as int + 1);
                assert(next.drop_last() =~= self.sessions().take(i as int));
                assert(next.last() == user@);
            }
            if user.id != sender && user.authenticated {
                let ghost before = authenticated_users@;
                authenticated_users.push(user.id.clone());
                proof {
                    let kept = self.sessions().take(i as int).filter(test);
                    assert(self.sessions().take(i as int + 1).filter(test) == kept.push(user@));
                    assert(texts(authenticated_users@) =~= texts(before).push(user@.id));
                }
                assert(texts(authenticated_users@) =~= other_authenticated(
                    self.sessions().take(i as int + 1),
                    sender_user_id@,
                ));
            }
            i = i + 1;
        }
        assert(self.sessions().take(i as int) =~= self.sessions());
        ChatServerResponseCommand::SendToSome(authenticated_users, encode_response(response))
    }
}

/// Whom a broadcast from a connection reaches does not depend on that
/// connection's own session.
pub proof fn lemma_other_authenticated_update(
    sessions: Seq<SessionView>,
    at: int,
    session: SessionView,
)
    requires
        0 <= at < sessions.len(),
        session.id == sessions[at].id,
    ensures
        sessions.update(at, session).filter(is_other_authenticated(session.id)) == sessions.filter(
            is_other_authenticated(session.id),
        ),
        other_authenticated(sessions.update(at, session), session.id) == other_authenticated(
            sessions,
            session.id,
        ),
    decreases sessions.len(),
{
    reveal(Seq::filter);
    let after = sessions.update(at, session);
    if at == sessions.len() - 1 {
        assert(after.drop_last() =~= sessions.drop_last());
    } else {
        assert(after.drop_last() =~= sessions.drop_last().update(at, session));
        lemma_other_authenticated_update(sessions.drop_last(), at, session);
    }
}

} // verus!
