//! What holds of every request to the agent and of every answer to one.

use vstd::prelude::*;

#[allow(unused_imports)]
use crate::client::{answer, stdout_reason, Incoming, PrimeClient};
#[allow(unused_imports)]
use crate::extension_ui::{answer_request, listed_options, method_asks_user, read_question};
#[allow(unused_imports)]
use crate::json::{empty_object, lemma_get_set, texts, Json, JsonView};
#[allow(unused_imports)]
use crate::lists::somes;
#[allow(unused_imports)]
use crate::names::lemma_with_name;
#[allow(unused_imports)]
use crate::proto::{ErrorView, HarnessError, UserInputAnswer, UserInputQuestion};
#[allow(unused_imports)]
use crate::requests::{
    closing_message, prompt_fields, quiescence_fields, read_reply, session_fields, steer_fields,
};

verus! {

/// The first prompt carries the user's text and all of the user's pictures, in
/// order, and nothing else.
pub proof fn the_first_prompt_carries_text_and_pictures(
    message: &str,
    images: Vec<Json>,
    fields: Json,
    other: Seq<char>,
)
    requires
        call_ensures(prompt_fields, (message, images), fields),
    ensures
        fields@ is Object,
        fields@.get("message"@) == Some(JsonView::Text(message@)),
        fields@.get("images"@) matches Some(JsonView::Array(list)) && list.len() == images@.len()
            && forall|i: int| 0 <= i < list.len() ==> #[trigger] list[i] == images@[i]@,
        other != "message"@ && other != "images"@ ==> fields@.get(other) is None,
{
    broadcast use lemma_get_set;

    reveal_strlit("message");
    reveal_strlit("images");
    assert("message"@.len() == 7);
    assert("images"@.len() == 6);
    assert(empty_object().get(other) is None);
    assert(empty_object().set("message"@, JsonView::Text(message@)) is Object);
}

/// A prompt to an agent that may be at work carries the user's text, and says
/// that it is to steer the agent.
pub proof fn a_later_prompt_steers(message: &str, fields: Json, other: Seq<char>)
    requires
        call_ensures(steer_fields, (message,), fields),
    ensures
        fields@ is Object,
        fields@.get("message"@) == Some(JsonView::Text(message@)),
        fields@.get("streamingBehavior"@) == Some(JsonView::Text("steer"@)),
        other != "message"@ && other != "streamingBehavior"@ ==> fields@.get(other) is None,
{
    broadcast use lemma_get_set;

    reveal_strlit("message");
    reveal_strlit("streamingBehavior");
    assert("message"@.len() == 7);
    assert("streamingBehavior"@.len() == 17);
    assert(empty_object().get(other) is None);
    assert(empty_object().set("message"@, JsonView::Text(message@)) is Object);
}

/// A wait for rest says that it waits for the children too, and nothing else.
pub proof fn a_wait_for_rest_is_marked(fields: Json, other: Seq<char>)
    requires
        call_ensures(quiescence_fields, (), fields),
    ensures
        fields@.get("waitForRlmQuiescence"@) == Some(JsonView::Bool(true)),
        other != "waitForRlmQuiescence"@ ==> fields@.get(other) is None,
{
    broadcast use lemma_get_set;

    assert(empty_object().get(other) is None);
}

/// A request on another session names it, and nothing else.
pub proof fn a_request_on_a_session_names_it(key: &str, fields: Json, other: Seq<char>)
    requires
        call_ensures(session_fields, (key,), fields),
    ensures
        fields@.get("activeSessionId"@) == Some(JsonView::Text(key@)),
        other != "activeSessionId"@ ==> fields@.get(other) is None,
{
    broadcast use lemma_get_set;

    assert(empty_object().get(other) is None);
}

/// The word that a transport is closed names itself and the reason.
pub proof fn the_word_of_a_close_names_the_reason(reason: &str, message: Json)
    requires
        call_ensures(closing_message, (reason,), message),
    ensures
        message@.get("type"@) == Some(JsonView::Text("_transport_closed"@)),
        message@.get("error"@) == Some(JsonView::Text(reason@)),
{
    broadcast use lemma_get_set;

    reveal_strlit("type");
    reveal_strlit("error");
    assert("type"@.len() == 4);
    assert("error"@.len() == 5);
    assert(empty_object().set("type"@, JsonView::Text("_transport_closed"@)) is Object);
}

/// A reply gives its data if and only if it says that the request succeeded; any
/// other gives its error, or the default where it has none.
pub proof fn a_reply_gives_its_data_or_its_error(
    value: Json,
    default: &str,
    reply: Result<Json, String>,
)
    requires
        call_ensures(read_reply, (&value, default), reply),
    ensures
        reply is Ok <==> value@.get("success"@) == Some(JsonView::Bool(true)),
        reply matches Ok(data) ==> data@ == match value@.get("data"@) {
            Some(data) => data,
            None => JsonView::Null,
        },
        reply matches Err(error) ==> error@ == match value@.get("error"@) {
            Some(JsonView::Text(text)) => text,
            _ => default@,
        },
{
}

/// What a request to a process came to: its data, or an error that names the
/// request and the reason, or that the transport was closed during it.
pub proof fn a_request_comes_to_its_reply(
    kind: &str,
    reply: Option<Result<Json, String>>,
    result: Result<Json, HarnessError>,
)
    requires
        call_ensures(answer, (kind, reply), result),
    ensures
        reply matches Some(Ok(data)) ==> result is Ok && result->Ok_0@ == data@,
        reply matches Some(Err(error)) ==> result is Err && result->Err_0@ == ErrorView::Protocol(
            "Prime RPC "@ + kind@ + ": "@ + error@,
        ),
        reply is None ==> result is Err && result->Err_0@ == ErrorView::Protocol(
            "Prime RPC closed during "@ + kind@,
        ),
{
}

/// The reason for the end of a process's output is the error of reading it, or
/// that it was closed.
pub proof fn the_end_of_the_output_is_explained(error: Option<&str>, reason: String)
    requires
        call_ensures(stdout_reason, (error,), reason),
    ensures
        error matches Some(error) ==> reason@ == "Prime RPC stdout failed: "@ + error@,
        error is None ==> reason@ == "Prime RPC process closed stdout"@,
{
}

/// A request to a process is sent with all of its fields, under its kind and its
/// name; it is refused if and only if its fields are no object.
pub proof fn a_request_is_sent_with_its_fields(
    client: &mut PrimeClient,
    kind: &str,
    fields: Json,
    sent: Result<(String, Json), HarnessError>,
    other: Seq<char>,
)
    requires
        call_ensures(PrimeClient::request, (client, kind, fields), sent),
        other != "id"@,
        other != "type"@,
    ensures
        sent is Ok <==> fields@ is Object,
        sent matches Ok((id, line)) ==> {
            &&& line@.get("type"@) == Some(JsonView::Text(kind@))
            &&& line@.get("id"@) == Some(JsonView::Text(id@))
            &&& line@.get(other) == fields@.get(other)
            &&& final(client)@.waiting.contains(id@)
        },
        sent matches Err(error) ==> error@ == ErrorView::Protocol(
            "Prime RPC request fields must be an object"@,
        ) && final(client)@.waiting == old(client)@.waiting,
{
    broadcast use lemma_get_set;

    reveal_strlit("id");
    reveal_strlit("type");
    assert("id"@.len() == 2);
    assert("type"@.len() == 4);
    match sent {
        Ok((id, line)) => {
            assert(fields@.set("id"@, JsonView::Text(id@)) is Object);
            lemma_with_name(old(client)@.waiting, id@);
        },
        Err(_) => {},
    }
}

/// A value of a process that is no response is a message for the session, as it
/// came. A response that names a request which is waited for is the reply to it;
/// any other response is nothing.
pub proof fn a_value_is_a_message_or_a_reply(
    client: &mut PrimeClient,
    value: Json,
    incoming: Incoming,
)
    requires
        call_ensures(PrimeClient::take_value, (client, value), incoming),
    ensures
        value@.get("type"@) != Some(JsonView::Text("response"@)) ==> (incoming matches
            Incoming::Message(message) && message@ == value@) && final(client)@ == old(client)@,
        value@.get("type"@) == Some(JsonView::Text("response"@)) ==> match value@.get("id"@) {
            Some(JsonView::Text(id)) => if old(client)@.waiting.contains(id) {
                incoming matches Incoming::Reply { id: name, reply } && name@ == id && (reply is Ok
                    <==> value@.get("success"@) == Some(JsonView::Bool(true)))
            } else {
                incoming is Nothing
            },
            _ => incoming is Nothing,
        },
{
}

/// An extension asks the user with the methods that select, confirm, take a line
/// and take a text, and with no other.
pub proof fn four_methods_ask_the_user(method: &str, asks: bool)
    requires
        call_ensures(method_asks_user, (method,), asks),
    ensures
        asks <==> method@ == "select"@ || method@ == "confirm"@ || method@ == "input"@ || method@
            == "editor"@,
{
}

/// A question goes to the user under its own name, with the title of the request
/// as its header and the message of the request as its text; where there is no
/// message, the title is the text. One choice can be made.
pub proof fn a_question_says_what_the_extension_asks(
    message: Json,
    id: &str,
    question: UserInputQuestion,
)
    requires
        call_ensures(read_question, (&message, id), question),
    ensures
        question.id@ == id@,
        question.header@ == match message@.get("title"@) {
            Some(JsonView::Text(title)) => title,
            _ => "Prime Agent"@,
        },
        question.question@ == match (message@.get("message"@), message@.get("title"@)) {
            (Some(JsonView::Text(text)), _) => text,
            (_, Some(JsonView::Text(title))) => title,
            _ => "Prime Agent requests input"@,
        },
        !question.multi_select,
{
}

/// A question that wants a confirmation can be answered with Yes and with No.
pub proof fn a_confirmation_is_yes_or_no(message: Json, id: &str, question: UserInputQuestion)
    requires
        call_ensures(read_question, (&message, id), question),
        message@.get("method"@) == Some(JsonView::Text("confirm"@)),
    ensures
        question.options@.len() == 2,
        question.options@[0]@ == "Yes"@,
        question.options@[1]@ == "No"@,
{
    assert(question@.options == seq!["Yes"@, "No"@]);
    assert(texts(question.options@).len() == question.options@.len());
    assert(texts(question.options@)[0] == question.options@[0]@);
    assert(texts(question.options@)[1] == question.options@[1]@);
}

proof fn lemma_options(items: Seq<JsonView>, labels: Seq<Seq<char>>)
    requires
        items.len() == labels.len(),
        forall|i: int| 0 <= i < items.len() ==> #[trigger] items[i] == JsonView::Text(labels[i]),
    ensures
        somes(items.map_values(|item: JsonView| item.as_text())) == labels,
    decreases items.len(),
{
    let all = items.map_values(|item: JsonView| item.as_text());
    if items.len() > 0 {
        let before = items.drop_last();
        let rest = labels.drop_last();
        assert forall|i: int| 0 <= i < before.len() implies #[trigger] before[i] == JsonView::Text(
            rest[i],
        ) by {
            assert(before[i] == items[i]);
        }
        lemma_options(before, rest);
        assert(all.drop_last() =~= before.map_values(|item: JsonView| item.as_text()));
        assert(items[items.len() - 1] == JsonView::Text(labels[labels.len() - 1]));
        assert(rest.push(labels.last()) =~= labels);
    } else {
        assert(labels =~= Seq::<Seq<char>>::empty());
    }
}

/// Any other question can be answered with the options of the request, all of
/// them and in order, where they are texts; without a list there are none.
pub proof fn a_question_offers_the_options_of_the_request(
    message: Json,
    id: &str,
    question: UserInputQuestion,
    items: Seq<JsonView>,
    labels: Seq<Seq<char>>,
)
    requires
        call_ensures(read_question, (&message, id), question),
        message@.get("method"@) != Some(JsonView::Text("confirm"@)),
    ensures
        message@.get("options"@) == Some(JsonView::Array(items)) && items.len() == labels.len()
            && (forall|i: int|
            0 <= i < items.len() ==> #[trigger] items[i] == JsonView::Text(labels[i]))
            ==> texts(question.options@) == labels,
        !(message@.get("options"@) matches Some(JsonView::Array(_))) ==> question.options@.len()
            == 0,
{
    reveal_strlit("");
    reveal_strlit("confirm");
    assert("confirm"@.len() == 7);
    assert(texts(question.options@).len() == question.options@.len());
    if items.len() == labels.len() && forall|i: int|
        0 <= i < items.len() ==> #[trigger] items[i] == JsonView::Text(labels[i]) {
        lemma_options(items, labels);
    }
}

/// An item of the options that is no text is left out, and the others stay.
pub proof fn an_option_that_is_no_text_is_left_out(
    message: JsonView,
    more: JsonView,
    items: Seq<JsonView>,
    item: JsonView,
)
    requires
        message.get("options"@) == Some(JsonView::Array(items)),
        more.get("options"@) == Some(JsonView::Array(items.push(item))),
    ensures
        item matches JsonView::Text(text) ==> listed_options(more) == listed_options(message).push(
            text,
        ),
        !(item is Text) ==> listed_options(more) == listed_options(message),
{
    let all = items.push(item).map_values(|item: JsonView| item.as_text());
    assert(all.drop_last() =~= items.map_values(|item: JsonView| item.as_text()));
}

/// The user's answer goes back to the extension under the name of its question:
/// a confirmation says whether the answer was Yes, any other answer is given as
/// it is, and no answer cancels.
pub proof fn an_answer_goes_back_as_given(
    method: &str,
    id: &str,
    answers: Vec<UserInputAnswer>,
    response: Json,
)
    requires
        call_ensures(answer_request, (method, id, &answers), response),
    ensures
        response@.get("type"@) == Some(JsonView::Text("extension_ui_response"@)),
        response@.get("id"@) == Some(JsonView::Text(id@)),
        answers@.len() > 0 && answers@[0].labels@.len() > 0 ==> {
            let label = answers@[0].labels@[0]@;
            &&& response@.get("cancelled"@) is None
            &&& method@ == "confirm"@ ==> response@.get("confirmed"@) == Some(
                JsonView::Bool(label == "Yes"@),
            ) && response@.get("value"@) is None
            &&& method@ != "confirm"@ ==> response@.get("value"@) == Some(JsonView::Text(label))
                && response@.get("confirmed"@) is None
        },
        answers@.len() == 0 || answers@[0].labels@.len() == 0 ==> response@.get("cancelled"@)
            == Some(JsonView::Bool(true)) && response@.get("value"@) is None && response@.get(
            "confirmed"@,
        ) is None,
{
    broadcast use lemma_get_set;

    reveal_strlit("type");
    reveal_strlit("id");
    reveal_strlit("confirmed");
    reveal_strlit("value");
    reveal_strlit("cancelled");
    assert("type"@.len() == 4);
    assert("id"@.len() == 2);
    assert("confirmed"@.len() == 9);
    assert("value"@.len() == 5);
    assert("cancelled"@.len() == 9);
    assert("confirmed"@[1] == 'o');
    assert("cancelled"@[1] == 'a');
    assert(empty_object().get("confirmed"@) is None);
    assert(empty_object().get("value"@) is None);
    assert(empty_object().get("cancelled"@) is None);
    let first = empty_object().set("type"@, JsonView::Text("extension_ui_response"@));
    assert(first is Object);
    let head = first.set("id"@, JsonView::Text(id@));
    assert(head is Object);
}

} // verus!
