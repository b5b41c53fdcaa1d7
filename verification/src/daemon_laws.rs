//! What holds of every conversation with a daemon.

use vstd::prelude::*;

#[allow(unused_imports)]
use crate::client_laws::{failures, lemma_counted_on, lemma_names_stay_single, Outcome};
#[allow(unused_imports)]
use crate::daemon::{
    acknowledgement, arrived_line, commanded, concluded, connection_failure, greeted, observing,
    routed, target_of, ArrivalView, DaemonView,
};
#[allow(unused_imports)]
use crate::json::{text_or, JsonView};
#[allow(unused_imports)]
use crate::lists::{joined, somes};
#[allow(unused_imports)]
use crate::names::{lemma_with_name, lemma_without_name};
#[allow(unused_imports)]
use crate::proto::ErrorView;
#[allow(unused_imports)]
use crate::requests::{closing, given_up, next_name, numbered, reply_of, settled};
#[allow(unused_imports)]
use crate::text::decimal;
#[allow(unused_imports)]
use crate::wire::parsed;

verus! {

/// Something that passes over the connection to a daemon, or comes of it.
#[allow(inconsistent_fields)]
pub enum DaemonExchange {
    /// A command is made as the daemon knows it.
    Command { fields: JsonView },
    /// A request is made.
    Request { kind: Seq<char>, fields: JsonView },
    /// The daemon has made a session.
    Created { data: JsonView },
    /// A command could not be sent, and is taken back.
    Unsent { id: Seq<char> },
    /// The command behind a request has come to something.
    Concluded { kind: Seq<char>, target: Seq<char>, result: Result<JsonView, ErrorView> },
    /// The daemon sends a line.
    Line { line: Seq<char> },
}

/// A conversation: the connection, the messages handed on to the session, what
/// the commands came to, and the words sent back, in order.
pub struct DaemonConversation {
    pub client: DaemonView,
    pub messages: Seq<JsonView>,
    pub outcomes: Seq<Outcome>,
    pub acknowledgements: Seq<JsonView>,
    pub closed: bool,
}

/// The connection after a command was made.
pub open spec fn after_command(d: DaemonView, fields: JsonView) -> DaemonView {
    if fields is Object {
        commanded(d)
    } else {
        DaemonView { requests: numbered(d.requests), ..d }
    }
}

/// The connection after a request was made. Without a session none is made.
pub open spec fn after_request(d: DaemonView, kind: Seq<char>, fields: JsonView) -> DaemonView {
    if d.root is Some && fields is Object {
        commanded(DaemonView { observed: observing(d, kind, target_of(d, fields)), ..d })
    } else {
        d
    }
}

/// The connection after the daemon has made a session.
pub open spec fn after_creation(d: DaemonView, data: JsonView) -> DaemonView {
    match data.at("activeSessionId"@).as_text() {
        Some(root) => DaemonView { root: Some(root), ..d },
        None => d,
    }
}

/// A conversation that is closed for a reason: what was waited for fails, and
/// the session is told last.
pub open spec fn shut(v: DaemonConversation, reason: Seq<char>) -> DaemonConversation {
    DaemonConversation {
        client: DaemonView { requests: given_up(v.client.requests), ..v.client },
        messages: v.messages.push(closing(reason)),
        outcomes: v.outcomes + failures(v.client.requests.waiting, reason),
        acknowledgements: v.acknowledgements,
        closed: true,
    }
}

/// What an exchange makes of a conversation. After the close no line is read.
pub open spec fn exchanged(v: DaemonConversation, e: DaemonExchange) -> DaemonConversation {
    let d = v.client;
    match e {
        DaemonExchange::Command { fields } => DaemonConversation {
            client: after_command(d, fields),
            ..v
        },
        DaemonExchange::Request { kind, fields } => DaemonConversation {
            client: after_request(d, kind, fields),
            ..v
        },
        DaemonExchange::Created { data } => DaemonConversation {
            client: after_creation(d, data),
            ..v
        },
        DaemonExchange::Unsent { id } => DaemonConversation {
            client: DaemonView { requests: settled(d.requests, id), ..d },
            ..v
        },
        DaemonExchange::Concluded { kind, target, result } => DaemonConversation {
            client: concluded(d, kind, target, result).0,
            ..v
        },
        DaemonExchange::Line { line } => if v.closed {
            v
        } else {
            let (client, arrival) = arrived_line(d, line);
            let next = DaemonConversation { client, ..v };
            match arrival {
                ArrivalView::Reply { id, reply, acknowledgement } => DaemonConversation {
                    outcomes: v.outcomes.push((id, reply)),
                    acknowledgements: v.acknowledgements.push(acknowledgement),
                    ..next
                },
                ArrivalView::Messages(list) => DaemonConversation {
                    messages: v.messages + list,
                    ..next
                },
                ArrivalView::Failure(reason) => shut(next, reason),
            }
        },
    }
}

/// The conversation with a daemon that was greeted, after some exchanges.
pub open spec fn conversation(
    client_id: Seq<char>,
    version: u64,
    exchanges: Seq<DaemonExchange>,
) -> DaemonConversation
    decreases exchanges.len(),
{
    if exchanges.len() == 0 {
        DaemonConversation {
            client: greeted(client_id, version),
            messages: Seq::empty(),
            outcomes: Seq::empty(),
            acknowledgements: Seq::empty(),
            closed: false,
        }
    } else {
        exchanged(conversation(client_id, version, exchanges.drop_last()), exchanges.last())
    }
}

/// The whole conversation with a daemon whose connection ends after some
/// exchanges, with an error or without.
pub open spec fn whole_conversation(
    client_id: Seq<char>,
    version: u64,
    exchanges: Seq<DaemonExchange>,
    error: Option<Seq<char>>,
) -> DaemonConversation {
    let v = conversation(client_id, version, exchanges);
    if v.closed {
        v
    } else {
        shut(v, connection_failure(error))
    }
}

/// The value in a line, if there is one.
pub open spec fn value_in(e: DaemonExchange) -> Option<JsonView> {
    match e {
        DaemonExchange::Line { line } => if line.len() > 0 {
            match parsed(line) {
                Ok(value) => Some(value),
                Err(_) => None,
            }
        } else {
            None
        },
        _ => None,
    }
}

/// Whether an exchange is a line that is not empty and no JSON.
pub open spec fn is_broken(e: DaemonExchange) -> bool {
    match e {
        DaemonExchange::Line { line } => line.len() > 0 && parsed(line) is Err,
        _ => false,
    }
}

/// The session that the daemon made last.
pub open spec fn root_after(exchanges: Seq<DaemonExchange>) -> Option<Seq<char>>
    decreases exchanges.len(),
{
    if exchanges.len() == 0 {
        None
    } else {
        let before = root_after(exchanges.drop_last());
        match exchanges.last() {
            DaemonExchange::Created { data } => match data.at("activeSessionId"@).as_text() {
                Some(root) => Some(root),
                None => before,
            },
            _ => before,
        }
    }
}

/// The kind of the request at an index and the session that it is on: the one
/// that it names, or else the last that was made. There is none where there is
/// no session.
pub open spec fn request_at(exchanges: Seq<DaemonExchange>, k: int) -> Option<
    (Seq<char>, Seq<char>),
> {
    match exchanges[k] {
        DaemonExchange::Request { kind, fields } => match root_after(exchanges.take(k)) {
            Some(root) => if fields is Object {
                Some((kind, text_or(fields.field("activeSessionId"@), root)))
            } else {
                None
            },
            None => None,
        },
        _ => None,
    }
}

/// Whether the exchange at an index takes a number for a command.
pub open spec fn takes_number(exchanges: Seq<DaemonExchange>, k: int) -> bool {
    exchanges[k] is Command || request_at(exchanges, k) is Some
}

/// The numbers that were taken for commands.
pub open spec fn numbers_taken(exchanges: Seq<DaemonExchange>) -> nat
    decreases exchanges.len(),
{
    if exchanges.len() == 0 {
        0
    } else if takes_number(exchanges, exchanges.len() - 1) {
        numbers_taken(exchanges.drop_last()) + 1
    } else {
        numbers_taken(exchanges.drop_last())
    }
}

/// Whether the exchange at an index makes the command of a name. Commands are
/// named by the numbers taken before; the numbers start again after the largest.
pub open spec fn asks(exchanges: Seq<DaemonExchange>, k: int, name: Seq<char>) -> bool {
    &&& 0 <= k < exchanges.len()
    &&& match exchanges[k] {
        DaemonExchange::Command { fields } => fields is Object,
        _ => request_at(exchanges, k) is Some,
    }
    &&& name == "jj-"@ + decimal(numbers_taken(exchanges.take(k)) % (u64::MAX as nat + 1))
}

/// The response in a line: the name that it carries, and what it says.
pub open spec fn response_in(e: DaemonExchange) -> Option<Outcome> {
    match value_in(e) {
        Some(value) => if value.at("type"@).is_text("response"@) {
            match value.at("id"@).as_text() {
                Some(id) => Some((id, reply_of(value, "Prime daemon request failed"@))),
                None => None,
            }
        } else {
            None
        },
        None => None,
    }
}

/// Whether an exchange takes back the command of a name or responds to it.
pub open spec fn settles(e: DaemonExchange, name: Seq<char>) -> bool {
    match e {
        DaemonExchange::Unsent { id } => id == name,
        _ => match response_in(e) {
            Some((id, _)) => id == name,
            None => false,
        },
    }
}

/// Whether a command of a name was made, and neither taken back nor responded
/// to since.
pub open spec fn is_pending(exchanges: Seq<DaemonExchange>, name: Seq<char>) -> bool {
    exists|k: int| #[trigger]
        asks(exchanges, k, name) && forall|m: int|
            k < m < exchanges.len() ==> !settles(#[trigger] exchanges[m], name)
}

/// The response at an index, where the command whose name it carries is pending
/// at that time.
pub open spec fn answer_in(exchanges: Seq<DaemonExchange>, k: int) -> Option<Outcome> {
    match response_in(exchanges[k]) {
        Some((id, reply)) => if is_pending(exchanges.take(k), id) {
            Some((id, reply))
        } else {
            None
        },
        None => None,
    }
}

/// The responses to commands that are pending, in order.
pub open spec fn answers_in(exchanges: Seq<DaemonExchange>) -> Seq<Outcome> {
    somes(Seq::new(exchanges.len(), |k: int| answer_in(exchanges, k)))
}

/// Whether the exchange at an index asks to observe a session.
pub open spec fn watches(exchanges: Seq<DaemonExchange>, k: int, name: Seq<char>) -> bool {
    0 <= k < exchanges.len() && request_at(exchanges, k) == Some(("observe"@, name))
}

/// Whether the exchange at an index gives up the observation of a session: it
/// asks for that, or the observation failed.
pub open spec fn unwatches(exchanges: Seq<DaemonExchange>, k: int, name: Seq<char>) -> bool {
    request_at(exchanges, k) == Some(("unobserve"@, name)) || match exchanges[k] {
        DaemonExchange::Concluded { kind, target, result } => kind == "observe"@ && target == name
            && result is Err,
        _ => false,
    }
}

/// Whether a session was asked to be observed, and the observation was not given
/// up since.
pub open spec fn is_watched(exchanges: Seq<DaemonExchange>, name: Seq<char>) -> bool {
    exists|k: int| #[trigger]
        watches(exchanges, k, name) && forall|m: int|
            k < m < exchanges.len() ==> !#[trigger] unwatches(exchanges, m, name)
}

/// The messages for the session in the line at an index, by what the connection
/// knows at that time.
pub open spec fn heard_at(
    client_id: Seq<char>,
    version: u64,
    exchanges: Seq<DaemonExchange>,
    k: int,
) -> Seq<JsonView> {
    match value_in(exchanges[k]) {
        Some(value) => if value.at("type"@).is_text("response"@) {
            Seq::empty()
        } else {
            routed(conversation(client_id, version, exchanges.take(k)).client, value)
        },
        None => Seq::empty(),
    }
}

/// The messages for the session in the lines, in order.
pub open spec fn heard_in(
    client_id: Seq<char>,
    version: u64,
    exchanges: Seq<DaemonExchange>,
) -> Seq<JsonView> {
    joined(
        Seq::new(exchanges.len(), |k: int| heard_at(client_id, version, exchanges, k)),
    )
}

/// The words that commands were replied to, by the names of the commands.
pub open spec fn acknowledgements(
    client_id: Seq<char>,
    version: u64,
    outcomes: Seq<Outcome>,
) -> Seq<JsonView> {
    outcomes.map_values(
        |outcome: Outcome| acknowledgement(greeted(client_id, version), outcome.0),
    )
}

/// Why a conversation is closed, where the first line that is no JSON is at an
/// index, and the connection ends with an error or without.
pub open spec fn close_reason(
    exchanges: Seq<DaemonExchange>,
    at: int,
    error: Option<Seq<char>>,
) -> Seq<char> {
    if at < exchanges.len() {
        "Prime daemon sent invalid JSON: "@ + parsed(exchanges[at]->line)->Err_0
    } else {
        connection_failure(error)
    }
}

/// A command is pending if it was just made, or was pending and is not settled.
proof fn lemma_pending_next(exchanges: Seq<DaemonExchange>, name: Seq<char>)
    requires
        exchanges.len() > 0,
    ensures
        is_pending(exchanges, name) <==> asks(exchanges, exchanges.len() - 1, name) || (is_pending(
            exchanges.drop_last(),
            name,
        ) && !settles(exchanges.last(), name)),
{
    let before = exchanges.drop_last();
    let n = before.len() as int;
    assert forall|k: int| 0 <= k < n implies asks(exchanges, k, name) == asks(before, k, name) by {
        assert(exchanges.take(k) =~= before.take(k));
    }
    if is_pending(exchanges, name) {
        let k = choose|k: int| #[trigger]
            asks(exchanges, k, name) && forall|m: int|
                k < m < exchanges.len() ==> !settles(#[trigger] exchanges[m], name);
        if k < n {
            assert(asks(before, k, name));
            assert(!settles(exchanges[n], name));
            assert forall|m: int| k < m < n implies !settles(#[trigger] before[m], name) by {
                assert(before[m] == exchanges[m]);
            }
        }
    }
    if is_pending(before, name) && !settles(exchanges.last(), name) {
        let k = choose|k: int| #[trigger]
            asks(before, k, name) && forall|m: int|
                k < m < before.len() ==> !settles(#[trigger] before[m], name);
        assert(asks(exchanges, k, name));
        assert forall|m: int| k < m < exchanges.len() implies !settles(
            #[trigger] exchanges[m],
            name,
        ) by {
            if m < n {
                assert(before[m] == exchanges[m]);
            }
        }
    }
    if asks(exchanges, n, name) {
        assert(forall|m: int| n < m < exchanges.len() ==> !settles(#[trigger] exchanges[m], name));
    }
}

/// A session is observed if that was just asked for, or it was and is not given
/// up.
proof fn lemma_watched_next(exchanges: Seq<DaemonExchange>, name: Seq<char>)
    requires
        exchanges.len() > 0,
    ensures
        is_watched(exchanges, name) <==> watches(exchanges, exchanges.len() - 1, name) || (
        is_watched(exchanges.drop_last(), name) && !unwatches(
            exchanges,
            exchanges.len() - 1,
            name,
        )),
{
    let before = exchanges.drop_last();
    let n = before.len() as int;
    if is_watched(exchanges, name) {
        let k = choose|k: int| #[trigger]
            watches(exchanges, k, name) && forall|m: int|
                k < m < exchanges.len() ==> !#[trigger] unwatches(exchanges, m, name);
        if k < n {
            assert(exchanges.take(k) =~= before.take(k));
            assert(watches(before, k, name));
            assert(!unwatches(exchanges, n, name));
            assert forall|m: int| k < m < n implies !#[trigger] unwatches(before, m, name) by {
                assert(exchanges.take(m) =~= before.take(m));
                assert(!unwatches(exchanges, m, name));
            }
        }
    }
    if is_watched(before, name) && !unwatches(exchanges, n, name) {
        let k = choose|k: int| #[trigger]
            watches(before, k, name) && forall|m: int|
                k < m < before.len() ==> !#[trigger] unwatches(before, m, name);
        assert(exchanges.take(k) =~= before.take(k));
        assert(watches(exchanges, k, name));
        assert forall|m: int| k < m < exchanges.len() implies !#[trigger] unwatches(
            exchanges,
            m,
            name,
        ) by {
            if m < n {
                assert(exchanges.take(m) =~= before.take(m));
                assert(!unwatches(before, m, name));
            }
        }
    }
    if watches(exchanges, n, name) {
        assert(forall|m: int|
            n < m < exchanges.len() ==> !#[trigger] unwatches(exchanges, m, name));
    }
}

proof fn lemma_lists_next(client_id: Seq<char>, version: u64, exchanges: Seq<DaemonExchange>)
    requires
        exchanges.len() > 0,
    ensures
        answers_in(exchanges) == match answer_in(exchanges, exchanges.len() - 1) {
            Some(outcome) => answers_in(exchanges.drop_last()).push(outcome),
            None => answers_in(exchanges.drop_last()),
        },
        heard_in(client_id, version, exchanges) == heard_in(
            client_id,
            version,
            exchanges.drop_last(),
        ) + heard_at(client_id, version, exchanges, exchanges.len() - 1),
{
    let before = exchanges.drop_last();
    let all = Seq::new(exchanges.len(), |k: int| answer_in(exchanges, k));
    let rest = Seq::new(before.len(), |k: int| answer_in(before, k));
    assert forall|k: int| 0 <= k < before.len() implies all[k] == #[trigger] rest[k] by {
        assert(exchanges.take(k) =~= before.take(k));
    }
    assert(all.drop_last() =~= rest);
    let heard = Seq::new(exchanges.len(), |k: int| heard_at(client_id, version, exchanges, k));
    let first = Seq::new(before.len(), |k: int| heard_at(client_id, version, before, k));
    assert forall|k: int| 0 <= k < before.len() implies heard[k] == #[trigger] first[k] by {
        assert(exchanges.take(k) =~= before.take(k));
    }
    assert(heard.drop_last() =~= first);
}

/// What a connection knows of its sessions and commands is what was exchanged.
spec fn knows(d: DaemonView, exchanges: Seq<DaemonExchange>) -> bool {
    &&& d.root == root_after(exchanges)
    &&& d.requests.next == numbers_taken(exchanges) % (u64::MAX as nat + 1)
    &&& d.requests.waiting.no_duplicates()
    &&& forall|name: Seq<char>| #[trigger]
        d.requests.waiting.contains(name) <==> is_pending(exchanges, name)
    &&& forall|name: Seq<char>| #[trigger]
        d.observed.contains(name) <==> is_watched(exchanges, name)
}

proof fn lemma_knows(
    client_id: Seq<char>,
    version: u64,
    exchanges: Seq<DaemonExchange>,
)
    requires
        exchanges.len() > 0,
        !is_broken(exchanges.last()),
        !conversation(client_id, version, exchanges.drop_last()).closed,
        knows(
            conversation(client_id, version, exchanges.drop_last()).client,
            exchanges.drop_last(),
        ),
    ensures
        knows(conversation(client_id, version, exchanges).client, exchanges),
{
    let before = exchanges.drop_last();
    let n = before.len() as int;
    let e = exchanges.last();
    assert(exchanges.take(n) =~= before);
    assert(exchanges[n] == e);
    let d = conversation(client_id, version, before).client;
    let after = conversation(client_id, version, exchanges).client;
    let name = next_name(d.requests, "jj-"@);
    reveal_strlit("observe");
    reveal_strlit("unobserve");
    assert("observe"@.len() != "unobserve"@.len());
    match e {
        DaemonExchange::Command { .. } => {
            lemma_counted_on(numbers_taken(before), d.requests.next);
            lemma_with_name(d.requests.waiting, name);
            lemma_names_stay_single(d.requests.waiting, name);
        },
        DaemonExchange::Request { kind, fields } => {
            lemma_counted_on(numbers_taken(before), d.requests.next);
            lemma_with_name(d.requests.waiting, name);
            lemma_names_stay_single(d.requests.waiting, name);
            lemma_with_name(d.observed, target_of(d, fields));
            lemma_without_name(d.observed, target_of(d, fields));
        },
        DaemonExchange::Unsent { id } => {
            lemma_without_name(d.requests.waiting, id);
            lemma_names_stay_single(d.requests.waiting, id);
        },
        DaemonExchange::Concluded { target, .. } => {
            lemma_without_name(d.observed, target);
        },
        DaemonExchange::Line { .. } => {
            match response_in(e) {
                Some((id, _)) => {
                    lemma_without_name(d.requests.waiting, id);
                    lemma_names_stay_single(d.requests.waiting, id);
                },
                None => {},
            }
        },
        _ => {},
    }
    assert forall|other: Seq<char>| #[trigger]
        after.requests.waiting.contains(other) <==> is_pending(exchanges, other) by {
        lemma_pending_next(exchanges, other);
        assert(d.requests.waiting.contains(other) <==> is_pending(before, other));
    }
    assert forall|other: Seq<char>| #[trigger]
        after.observed.contains(other) <==> is_watched(exchanges, other) by {
        lemma_watched_next(exchanges, other);
        assert(d.observed.contains(other) <==> is_watched(before, other));
    }
}

/// As long as every line is JSON, a conversation is what was exchanged.
proof fn lemma_conversation(client_id: Seq<char>, version: u64, exchanges: Seq<DaemonExchange>)
    requires
        forall|i: int| 0 <= i < exchanges.len() ==> !is_broken(#[trigger] exchanges[i]),
    ensures
        ({
            let v = conversation(client_id, version, exchanges);
            &&& !v.closed
            &&& v.client.client_id == client_id
            &&& v.client.version == version
            &&& knows(v.client, exchanges)
            &&& v.messages == heard_in(client_id, version, exchanges)
            &&& v.outcomes == answers_in(exchanges)
            &&& v.acknowledgements == acknowledgements(
                client_id,
                version,
                answers_in(exchanges),
            )
        }),
    decreases exchanges.len(),
{
    if exchanges.len() == 0 {
        assert(heard_in(client_id, version, exchanges) =~= Seq::<JsonView>::empty());
        assert(answers_in(exchanges) =~= Seq::<Outcome>::empty());
        assert(acknowledgements(client_id, version, answers_in(exchanges)) =~= Seq::<
            JsonView,
        >::empty());
        let d = greeted(client_id, version);
        assert(numbers_taken(exchanges) == 0);
        assert(d.requests.waiting.no_duplicates());
        assert forall|name: Seq<char>| #[trigger]
            d.requests.waiting.contains(name) <==> is_pending(exchanges, name) by {
            assert(!is_pending(exchanges, name));
        }
        assert forall|name: Seq<char>| #[trigger]
            d.observed.contains(name) <==> is_watched(exchanges, name) by {
            assert(!is_watched(exchanges, name));
        }
        assert(knows(d, exchanges));
    } else {
        let before = exchanges.drop_last();
        let n = before.len() as int;
        let e = exchanges.last();
        assert forall|i: int| 0 <= i < before.len() implies !is_broken(#[trigger] before[i]) by {
            assert(before[i] == exchanges[i]);
        }
        lemma_conversation(client_id, version, before);
        lemma_lists_next(client_id, version, exchanges);
        assert(exchanges.take(n) =~= before);
        assert(!is_broken(exchanges[n]));
        lemma_knows(client_id, version, exchanges);
        let v = conversation(client_id, version, before);
        let heard = heard_in(client_id, version, before);
        let none = Seq::<JsonView>::empty();
        assert(heard + none =~= heard);
        match response_in(e) {
            Some((id, reply)) => {
                assert(v.client.requests.waiting.contains(id) <==> is_pending(before, id));
                assert(acknowledgements(client_id, version, answers_in(before).push((id, reply)))
                    =~= acknowledgements(client_id, version, answers_in(before)).push(
                    acknowledgement(greeted(client_id, version), id),
                ));
            },
            None => {},
        }
    }
}

/// A closed conversation brings nothing more.
proof fn lemma_closed(
    client_id: Seq<char>,
    version: u64,
    exchanges: Seq<DaemonExchange>,
    i: int,
)
    requires
        0 <= i <= exchanges.len(),
        conversation(client_id, version, exchanges.take(i)).closed,
    ensures
        ({
            let v = conversation(client_id, version, exchanges);
            let w = conversation(client_id, version, exchanges.take(i));
            &&& v.closed
            &&& v.messages == w.messages
            &&& v.outcomes == w.outcomes
            &&& v.acknowledgements == w.acknowledgements
        }),
    decreases exchanges.len() - i,
{
    if i < exchanges.len() {
        assert(exchanges.take(i + 1).drop_last() =~= exchanges.take(i));
        lemma_closed(client_id, version, exchanges, i + 1);
    } else {
        assert(exchanges.take(i) =~= exchanges);
    }
}

/// At every time before the close, a connection goes by the session that was
/// made last, hears the sessions that were asked to be observed and not given
/// up since, and waits for the commands that are pending.
pub proof fn a_connection_knows_what_was_exchanged(
    client_id: Seq<char>,
    version: u64,
    exchanges: Seq<DaemonExchange>,
    name: Seq<char>,
)
    requires
        forall|i: int| 0 <= i < exchanges.len() ==> !is_broken(#[trigger] exchanges[i]),
    ensures
        ({
            let d = conversation(client_id, version, exchanges).client;
            &&& d.root == root_after(exchanges)
            &&& d.observed.contains(name) <==> is_watched(exchanges, name)
            &&& d.requests.waiting.contains(name) <==> is_pending(exchanges, name)
            &&& d.requests.waiting.no_duplicates()
        }),
{
    lemma_conversation(client_id, version, exchanges);
}

/// Of all that a daemon sends, the messages handed on to the session are those
/// of the lines that are no responses, in order, each by what was exchanged up
/// to it, as far as the first line that is no JSON or the end; and then one last
/// message that says why the conversation is closed. A response completes the
/// command whose name it carries, where that is pending, and is acknowledged by
/// that name; otherwise it is ignored. Each command that is pending at the close
/// fails once, for the reason of the close.
pub proof fn a_daemon_conversation_is_carried_whole(
    client_id: Seq<char>,
    version: u64,
    exchanges: Seq<DaemonExchange>,
    error: Option<Seq<char>>,
    at: int,
)
    requires
        0 <= at <= exchanges.len(),
        forall|i: int| 0 <= i < at ==> !is_broken(#[trigger] exchanges[i]),
        at < exchanges.len() ==> is_broken(exchanges[at]),
    ensures
        ({
            let v = whole_conversation(client_id, version, exchanges, error);
            let read = exchanges.take(at);
            let reason = close_reason(exchanges, at, error);
            let left = conversation(client_id, version, read).client.requests.waiting;
            &&& v.closed
            &&& v.messages == heard_in(client_id, version, read).push(closing(reason))
            &&& v.outcomes == answers_in(read) + failures(left, reason)
            &&& v.acknowledgements == acknowledgements(client_id, version, answers_in(read))
            &&& left.no_duplicates()
            &&& forall|name: Seq<char>| #[trigger]
                left.contains(name) <==> is_pending(read, name)
        }),
{
    let read = exchanges.take(at);
    assert forall|i: int| 0 <= i < read.len() implies !is_broken(#[trigger] read[i]) by {
        assert(read[i] == exchanges[i]);
    }
    lemma_conversation(client_id, version, read);
    if at < exchanges.len() {
        assert(exchanges.take(at + 1).drop_last() =~= read);
        lemma_closed(client_id, version, exchanges, at + 1);
    } else {
        assert(read =~= exchanges);
    }
}

} // verus!
