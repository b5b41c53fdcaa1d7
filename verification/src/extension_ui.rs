//! Questions that an extension of the agent puts to the user.

use vstd::prelude::*;

use crate::json::{text_or_else, Json, JsonView};
#[allow(unused_imports)]
use crate::json::{empty_object, jsons, text_or, texts};
#[allow(unused_imports)]
use crate::lists::{lemma_somes_next, somes};
use crate::proto::{QuestionView, UserInputAnswer, UserInputQuestion};
use crate::text::same_text;

verus! {

/// Whether a method of an extension asks the user something.
pub open spec fn asks_user(method: Seq<char>) -> bool {
    method == "select"@ || method == "confirm"@ || method == "input"@ || method == "editor"@
}

/// The method of a request.
pub open spec fn request_method(message: JsonView) -> Seq<char> {
    text_or(message.field("method"@), ""@)
}

/// The texts in the list of options of a request.
pub open spec fn listed_options(message: JsonView) -> Seq<Seq<char>> {
    match message.get("options"@) {
        Some(options) => match options.as_array() {
            Some(items) => somes(items.map_values(|item: JsonView| item.as_text())),
            None => Seq::empty(),
        },
        None => Seq::empty(),
    }
}

/// The question that a request puts to the user.
pub open spec fn question_of(message: JsonView, id: Seq<char>) -> QuestionView {
    QuestionView {
        id,
        header: text_or(message.at("title"@).as_text(), "Prime Agent"@),
        question: match message.at("message"@).as_text() {
            Some(text) => text,
            None => text_or(message.at("title"@).as_text(), "Prime Agent requests input"@),
        },
        options: if request_method(message) == "confirm"@ {
            seq!["Yes"@, "No"@]
        } else {
            listed_options(message)
        },
        multi_select: false,
    }
}

/// The first label of the first answer.
pub open spec fn first_label(answers: Seq<UserInputAnswer>) -> Option<Seq<char>> {
    if answers.len() > 0 && answers[0].labels@.len() > 0 {
        Some(answers[0].labels@[0]@)
    } else {
        None
    }
}

/// The response to a request, by its method and the user's answer.
pub open spec fn response_of(method: Seq<char>, id: Seq<char>, answer: Option<Seq<char>>) -> JsonView {
    let head = empty_object().set("type"@, JsonView::Text("extension_ui_response"@)).set(
        "id"@,
        JsonView::Text(id),
    );
    match answer {
        Some(value) => if method == "confirm"@ {
            head.set("confirmed"@, JsonView::Bool(value == "Yes"@))
        } else {
            head.set("value"@, JsonView::Text(value))
        },
        None => head.set("cancelled"@, JsonView::Bool(true)),
    }
}

/// The texts in the list of options of a request.
fn read_options(message: &Json) -> (options: Vec<String>)
    ensures
        texts(options@) == listed_options(message@),
{
    let mut options: Vec<String> = Vec::new();
    proof {
        assert(texts(options@) =~= Seq::<Seq<char>>::empty());
    }
    let list = match message.get("options") {
        Some(list) => list,
        None => {
            return options;
        },
    };
    let items = match list.as_array() {
        Some(items) => items,
        None => {
            return options;
        },
    };
    let ghost all = jsons(items@).map_values(|item: JsonView| item.as_text());
    let mut i: usize = 0;
    proof {
        assert(all.take(0) =~= Seq::<Option<Seq<char>>>::empty());
    }
    while i < items.len()
        invariant
            i <= items@.len(),
            all == jsons(items@).map_values(|item: JsonView| item.as_text()),
            texts(options@) == somes(all.take(i as int)),
        decreases items@.len() - i,
    {
        let ghost before = options@;
        proof {
            lemma_somes_next(all, i as int);
        }
        match items[i].as_text() {
            Some(text) => {
                options.push(text.to_owned());
                proof {
                    assert(texts(options@) =~= texts(before).push(text@));
                }
            },
            None => {},
        }
        i = i + 1;
    }
    proof {
        assert(all.take(i as int) =~= all);
    }
    options
}

/// Whether a method of an extension asks the user something.
pub fn method_asks_user(method: &str) -> (asks: bool)
    ensures
        asks == asks_user(method@),
{
    same_text(method, "select") || same_text(method, "confirm") || same_text(method, "input")
        || same_text(method, "editor")
}

/// The question that a request puts to the user.
pub fn read_question(message: &Json, id: &str) -> (question: UserInputQuestion)
    ensures
        question@ == question_of(message@, id@),
{
    let method = text_or_else(message.field("method"), "");
    let options = if same_text(method, "confirm") {
        let mut options: Vec<String> = Vec::new();
        options.push("Yes".to_owned());
        options.push("No".to_owned());
        proof {
            assert(texts(options@) =~= seq!["Yes"@, "No"@]);
        }
        options
    } else {
        read_options(message)
    };
    let header = text_or_else(message.at("title").as_text(), "Prime Agent");
    let question = match message.at("message").as_text() {
        Some(text) => text,
        None => text_or_else(message.at("title").as_text(), "Prime Agent requests input"),
    };
    UserInputQuestion {
        id: id.to_owned(),
        header: header.to_owned(),
        question: question.to_owned(),
        options,
        multi_select: false,
    }
}

/// The response to a request, by its method and the user's answers.
pub fn answer_request(method: &str, id: &str, answers: &Vec<UserInputAnswer>) -> (response: Json)
    ensures
        response@ == response_of(method@, id@, first_label(answers@)),
{
    let head = Json::object().set("type", Json::text("extension_ui_response")).set(
        "id",
        Json::text(id),
    );
    if answers.len() > 0 && answers[0].labels.len() > 0 {
        let value = answers[0].labels[0].as_str();
        if same_text(method, "confirm") {
            head.set("confirmed", Json::Bool(same_text(value, "Yes")))
        } else {
            head.set("value", Json::text(value))
        }
    } else {
        head.set("cancelled", Json::Bool(true))
    }
}

} // verus!
