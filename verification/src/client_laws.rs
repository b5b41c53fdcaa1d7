//! What holds of every conversation with an agent that runs as a process.

#[allow(unused_imports)]
use vstd::arithmetic::div_mod::{
    lemma_fundamental_div_mod, lemma_fundamental_div_mod_converse,
};
use vstd::prelude::*;

#[allow(unused_imports)]
use crate::client::{stdout_failure, taken, taken_line, IncomingView};
#[allow(unused_imports)]
use crate::counter::following;
#[allow(unused_imports)]
use crate::json::JsonView;
#[allow(unused_imports)]
use crate::lists::somes;
#[allow(unused_imports)]
use crate::names::{lemma_with_name, lemma_without_name, with_name, without_name};
#[allow(unused_imports)]
use crate::requests::{
    asked, closing, given_up, next_name, nothing_asked, numbered, reply_of, settled, WaitingView,
};
#[allow(unused_imports)]
use crate::text::decimal;
#[allow(unused_imports)]
use crate::wire::parsed;

verus! {

/// Something that passes over the connection to an agent, or fails to.
#[allow(inconsistent_fields)]
pub enum Exchange {
    /// A request is made.
    Request { fields: JsonView },
    /// A request could not be sent, and is taken back.
    Unsent { id: Seq<char> },
    /// The agent sends a line.
    Line { line: Seq<char> },
}

/// What a request came to.
pub type Outcome = (Seq<char>, Result<JsonView, Seq<char>>);

/// A conversation: the connection, the messages handed on to the session, and
/// what the requests came to, in order.
pub struct Conversation {
    pub client: WaitingView,
    pub messages: Seq<JsonView>,
    pub outcomes: Seq<Outcome>,
    pub closed: bool,
}

/// The connection after a request was made.
pub open spec fn requested(w: WaitingView, fields: JsonView) -> WaitingView {
    if fields is Object {
        asked(numbered(w), next_name(w, ""@))
    } else {
        numbered(w)
    }
}

/// Requests that fail for a reason.
pub open spec fn failures(names: Seq<Seq<char>>, reason: Seq<char>) -> Seq<Outcome> {
    names.map_values(|name: Seq<char>| (name, Err(reason)))
}

/// A conversation that is closed for a reason: what was waited for fails, and
/// the session is told last.
pub open spec fn shut(v: Conversation, reason: Seq<char>) -> Conversation {
    Conversation {
        client: given_up(v.client),
        messages: v.messages.push(closing(reason)),
        outcomes: v.outcomes + failures(v.client.waiting, reason),
        closed: true,
    }
}

/// What an exchange makes of a conversation. After the close no line is read.
pub open spec fn exchanged(v: Conversation, e: Exchange) -> Conversation {
    match e {
        Exchange::Request { fields } => Conversation { client: requested(v.client, fields), ..v },
        Exchange::Unsent { id } => Conversation { client: settled(v.client, id), ..v },
        Exchange::Line { line } => if v.closed {
            v
        } else {
            let (client, incoming) = taken_line(v.client, line);
            let next = Conversation { client, ..v };
            match incoming {
                IncomingView::Nothing => next,
                IncomingView::Reply { id, reply } => Conversation {
                    outcomes: v.outcomes.push((id, reply)),
                    ..next
                },
                IncomingView::Message(value) => Conversation {
                    messages: v.messages.push(value),
                    ..next
                },
                IncomingView::Failure(reason) => shut(next, reason),
            }
        },
    }
}

/// The conversation after some exchanges.
pub open spec fn conversation(exchanges: Seq<Exchange>) -> Conversation
    decreases exchanges.len(),
{
    if exchanges.len() == 0 {
        Conversation {
            client: nothing_asked(),
            messages: Seq::empty(),
            outcomes: Seq::empty(),
            closed: false,
        }
    } else {
        exchanged(conversation(exchanges.drop_last()), exchanges.last())
    }
}

/// The whole conversation with an agent whose output ends after some exchanges,
/// with an error or without.
pub open spec fn whole_conversation(
    exchanges: Seq<Exchange>,
    error: Option<Seq<char>>,
) -> Conversation {
    let v = conversation(exchanges);
    if v.closed {
        v
    } else {
        shut(v, stdout_failure(error))
    }
}

/// The value in a line, if there is one.
pub open spec fn value_in(e: Exchange) -> Option<JsonView> {
    match e {
        Exchange::Line { line } => if line.len() > 0 {
            match parsed(line) {
                Ok(value) => Some(value),
                Err(_) => None,
            }
        } else {
            None
        },
        _ => None,
    }
}

/// Whether an exchange is a line that is not empty and no JSON.
pub open spec fn is_broken(e: Exchange) -> bool {
    match e {
        Exchange::Line { line } => line.len() > 0 && parsed(line) is Err,
        _ => false,
    }
}

/// The message for the session in a line: its value, unless it is a response.
pub open spec fn message_in(e: Exchange) -> Option<JsonView> {
    match value_in(e) {
        Some(value) => if value.field("type"@) == Some("response"@) {
            None
        } else {
            Some(value)
        },
        None => None,
    }
}

/// The messages for the session in the lines, in order.
pub open spec fn messages_in(exchanges: Seq<Exchange>) -> Seq<JsonView> {
    somes(exchanges.map_values(|e: Exchange| message_in(e)))
}

/// The response in a line: the name that it carries, and what it says.
pub open spec fn response_in(e: Exchange) -> Option<Outcome> {
    match value_in(e) {
        Some(value) => if value.field("type"@) == Some("response"@) {
            match value.field("id"@) {
                Some(id) => Some((id, reply_of(value, "Prime RPC request failed"@))),
                None => None,
            }
        } else {
            None
        },
        None => None,
    }
}

/// The number of requests among some exchanges.
pub open spec fn requests_made(exchanges: Seq<Exchange>) -> nat
    decreases exchanges.len(),
{
    if exchanges.len() == 0 {
        0
    } else if exchanges.last() is Request {
        requests_made(exchanges.drop_last()) + 1
    } else {
        requests_made(exchanges.drop_last())
    }
}

/// Whether an exchange is a request of a name. Requests are named by the number
/// of those before; the numbers start again after the largest.
pub open spec fn asks(exchanges: Seq<Exchange>, k: int, name: Seq<char>) -> bool {
    0 <= k < exchanges.len() && match exchanges[k] {
        Exchange::Request { fields } => fields is Object && name == decimal(
            requests_made(exchanges.take(k)) % (u64::MAX as nat + 1),
        ),
        _ => false,
    }
}

/// Whether an exchange takes back the request of a name or responds to it.
pub open spec fn settles(e: Exchange, name: Seq<char>) -> bool {
    match e {
        Exchange::Unsent { id } => id == name,
        _ => match response_in(e) {
            Some((id, _)) => id == name,
            None => false,
        },
    }
}

/// Whether a request of a name was made, and neither taken back nor responded
/// to since.
pub open spec fn is_pending(exchanges: Seq<Exchange>, name: Seq<char>) -> bool {
    exists|k: int| #[trigger]
        asks(exchanges, k, name) && forall|m: int|
            k < m < exchanges.len() ==> !settles(#[trigger] exchanges[m], name)
}

/// What an exchange makes of a request that is pending: the response in it,
/// where the request whose name it carries is pending at that time.
pub open spec fn answer_in(exchanges: Seq<Exchange>, k: int) -> Option<Outcome> {
    match response_in(exchanges[k]) {
        Some((id, reply)) => if is_pending(exchanges.take(k), id) {
            Some((id, reply))
        } else {
            None
        },
        None => None,
    }
}

/// The responses to requests that are pending, in order.
pub open spec fn answers_in(exchanges: Seq<Exchange>) -> Seq<Outcome> {
    somes(Seq::new(exchanges.len(), |k: int| answer_in(exchanges, k)))
}

/// Why a conversation is closed, where the first line that is no JSON is at an
/// index, and the output ends with an error or without.
pub open spec fn close_reason(
    exchanges: Seq<Exchange>,
    at: int,
    error: Option<Seq<char>>,
) -> Seq<char> {
    if at < exchanges.len() {
        "Prime RPC sent invalid JSON: "@ + parsed(exchanges[at]->line)->Err_0
    } else {
        stdout_failure(error)
    }
}

/// A request is pending if it was just made, or was pending and is not settled.
proof fn lemma_pending_next(exchanges: Seq<Exchange>, name: Seq<char>)
    requires
        exchanges.len() > 0,
    ensures
        is_pending(exchanges, name) <==> asks(exchanges, exchanges.len() - 1, name) || (is_pending(
            exchanges.drop_last(),
            name,
        ) && !settles(exchanges.last(), name)),
{
    let before = exchanges.drop_last();
    let n = before.len() as int;
    assert forall|k: int| 0 <= k < n implies asks(exchanges, k, name) == asks(before, k, name) by {
        assert(exchanges.take(k) =~= before.take(k));
    }
    if is_pending(exchanges, name) {
        let k = choose|k: int| #[trigger]
            asks(exchanges, k, name) && forall|m: int|
                k < m < exchanges.len() ==> !settles(#[trigger] exchanges[m], name);
        if k < n {
            assert(asks(before, k, name));
            assert(!settles(exchanges[n], name));
            assert forall|m: int| k < m < n implies !settles(#[trigger] before[m], name) by {
                assert(before[m] == exchanges[m]);
            }
        }
    }
    if is_pending(before, name) && !settles(exchanges.last(), name) {
        let k = choose|k: int| #[trigger]
            asks(before, k, name) && forall|m: int|
                k < m < before.len() ==> !settles(#[trigger] before[m], name);
        assert(asks(exchanges, k, name));
        assert forall|m: int| k < m < exchanges.len() implies !settles(
            #[trigger] exchanges[m],
            name,
        ) by {
            if m < n {
                assert(before[m] == exchanges[m]);
            }
        }
    }
    if asks(exchanges, n, name) {
        assert(forall|m: int| n < m < exchanges.len() ==> !settles(#[trigger] exchanges[m], name));
    }
}

proof fn lemma_answers_next(exchanges: Seq<Exchange>)
    requires
        exchanges.len() > 0,
    ensures
        answers_in(exchanges) == match answer_in(exchanges, exchanges.len() - 1) {
            Some(outcome) => answers_in(exchanges.drop_last()).push(outcome),
            None => answers_in(exchanges.drop_last()),
        },
{
    let before = exchanges.drop_last();
    let all = Seq::new(exchanges.len(), |k: int| answer_in(exchanges, k));
    let rest = Seq::new(before.len(), |k: int| answer_in(before, k));
    assert forall|k: int| 0 <= k < before.len() implies all[k] == #[trigger] rest[k] by {
        assert(exchanges.take(k) =~= before.take(k));
    }
    assert(all.drop_last() =~= rest);
}

proof fn lemma_messages_next(exchanges: Seq<Exchange>)
    requires
        exchanges.len() > 0,
    ensures
        messages_in(exchanges) == match message_in(exchanges.last()) {
            Some(message) => messages_in(exchanges.drop_last()).push(message),
            None => messages_in(exchanges.drop_last()),
        },
{
    let found = exchanges.map_values(|e: Exchange| message_in(e));
    assert(found.drop_last() =~= exchanges.drop_last().map_values(|e: Exchange| message_in(e)));
}

pub proof fn lemma_names_stay_single(list: Seq<Seq<char>>, name: Seq<char>)
    requires
        list.no_duplicates(),
    ensures
        with_name(list, name).no_duplicates(),
        without_name(list, name).no_duplicates(),
    decreases list.len(),
{
    if list.len() > 0 {
        let before = list.drop_last();
        lemma_names_stay_single(before, name);
        lemma_without_name(before, name);
        let rest = without_name(before, name);
        let last = list.last();
        if rest.contains(last) {
            let i = choose|i: int| 0 <= i < before.len() && before[i] == last;
            assert(list[i] == list[list.len() - 1]);
        }
    }
}

pub proof fn lemma_counted_on(n: nat, number: u64)
    requires
        number == n % (u64::MAX as nat + 1),
    ensures
        following(number) == (n + 1) % (u64::MAX as nat + 1),
{
    let m = u64::MAX as int + 1;
    lemma_fundamental_div_mod(n as int, m);
    let q = n as int / m;
    if number == u64::MAX {
        assert(n + 1 == (q + 1) * m + 0) by (nonlinear_arith)
            requires
                n == m * q + number,
                number == m - 1,
        ;
        lemma_fundamental_div_mod_converse(n as int + 1, m, q + 1, 0);
    } else {
        assert(n + 1 == q * m + (number + 1)) by (nonlinear_arith)
            requires
                n == m * q + number,
        ;
        lemma_fundamental_div_mod_converse(n as int + 1, m, q, number + 1);
    }
}

/// As long as every line is JSON, a conversation is what was exchanged.
proof fn lemma_conversation(exchanges: Seq<Exchange>)
    requires
        forall|i: int| 0 <= i < exchanges.len() ==> !is_broken(#[trigger] exchanges[i]),
    ensures
        !conversation(exchanges).closed,
        conversation(exchanges).messages == messages_in(exchanges),
        conversation(exchanges).outcomes == answers_in(exchanges),
        conversation(exchanges).client.next == requests_made(exchanges) % (u64::MAX as nat + 1),
        conversation(exchanges).client.waiting.no_duplicates(),
        forall|name: Seq<char>| #[trigger]
            conversation(exchanges).client.waiting.contains(name) <==> is_pending(exchanges, name),
    decreases exchanges.len(),
{
    if exchanges.len() == 0 {
        assert(messages_in(exchanges) =~= Seq::<JsonView>::empty());
        assert(answers_in(exchanges) =~= Seq::<Outcome>::empty());
    } else {
        let before = exchanges.drop_last();
        let n = before.len() as int;
        let e = exchanges.last();
        assert forall|i: int| 0 <= i < before.len() implies !is_broken(#[trigger] before[i]) by {
            assert(before[i] == exchanges[i]);
        }
        lemma_conversation(before);
        lemma_messages_next(exchanges);
        lemma_answers_next(exchanges);
        assert(exchanges.take(n) =~= before);
        assert(!is_broken(exchanges[n]));
        let w = conversation(before).client;
        let after = conversation(exchanges).client;
        match e {
            Exchange::Request { fields } => {
                let name = next_name(w, ""@);
                lemma_counted_on(requests_made(before), w.next);
                reveal_strlit("");
                assert(name =~= decimal(w.next as nat));
                lemma_with_name(w.waiting, name);
                lemma_names_stay_single(w.waiting, name);
            },
            Exchange::Unsent { id } => {
                lemma_without_name(w.waiting, id);
                lemma_names_stay_single(w.waiting, id);
            },
            Exchange::Line { .. } => {
                match response_in(e) {
                    Some((id, _)) => {
                        lemma_without_name(w.waiting, id);
                        lemma_names_stay_single(w.waiting, id);
                        assert(w.waiting.contains(id) <==> is_pending(before, id));
                    },
                    None => {},
                }
            },
        }
        assert forall|name: Seq<char>| #[trigger]
            after.waiting.contains(name) <==> is_pending(exchanges, name) by {
            lemma_pending_next(exchanges, name);
            assert(w.waiting.contains(name) <==> is_pending(before, name));
        }
    }
}

/// A closed conversation brings nothing more.
proof fn lemma_closed(exchanges: Seq<Exchange>, i: int)
    requires
        0 <= i <= exchanges.len(),
        conversation(exchanges.take(i)).closed,
    ensures
        conversation(exchanges).closed,
        conversation(exchanges).messages == conversation(exchanges.take(i)).messages,
        conversation(exchanges).outcomes == conversation(exchanges.take(i)).outcomes,
    decreases exchanges.len() - i,
{
    if i < exchanges.len() {
        assert(exchanges.take(i + 1).drop_last() =~= exchanges.take(i));
        lemma_closed(exchanges, i + 1);
    } else {
        assert(exchanges.take(i) =~= exchanges);
    }
}

/// Of all that an agent sends, the messages handed on to the session are the
/// lines that are not empty and no responses, as they came and in order, up to
/// the first that is no JSON or to the end; and then one last message that says
/// why the conversation is closed. A response completes the request whose name
/// it carries, where that is pending, and is ignored otherwise. Each request
/// that is pending at the close fails once, for the reason of the close.
pub proof fn a_conversation_is_carried_whole(
    exchanges: Seq<Exchange>,
    error: Option<Seq<char>>,
    at: int,
)
    requires
        0 <= at <= exchanges.len(),
        forall|i: int| 0 <= i < at ==> !is_broken(#[trigger] exchanges[i]),
        at < exchanges.len() ==> is_broken(exchanges[at]),
    ensures
        ({
            let v = whole_conversation(exchanges, error);
            let read = exchanges.take(at);
            let reason = close_reason(exchanges, at, error);
            let left = conversation(read).client.waiting;
            &&& v.closed
            &&& v.messages == messages_in(read).push(closing(reason))
            &&& v.outcomes == answers_in(read) + failures(left, reason)
            &&& left.no_duplicates()
            &&& forall|name: Seq<char>| #[trigger]
                left.contains(name) <==> is_pending(read, name)
        }),
{
    let read = exchanges.take(at);
    assert forall|i: int| 0 <= i < read.len() implies !is_broken(#[trigger] read[i]) by {
        assert(read[i] == exchanges[i]);
    }
    lemma_conversation(read);
    if at < exchanges.len() {
        assert(exchanges.take(at + 1).drop_last() =~= read);
        lemma_closed(exchanges, at + 1);
    } else {
        assert(read =~= exchanges);
    }
}

} // verus!
