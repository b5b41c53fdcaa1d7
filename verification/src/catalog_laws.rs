//! What holds of the models, the commands and the skills that are offered.

use vstd::prelude::*;

#[allow(unused_imports)]
use crate::catalog::{
    all_models, command_names, command_of, commands_in, entry_names, fallback_models, knows_level,
    listed_commands, model_id, model_of, offered, offered_levels, parse_commands, parse_models,
    parse_skills, prime_levels, reasoning_levels, reasoning_name, skill_name, skill_of,
};
#[allow(unused_imports)]
use crate::event_laws::says;
#[allow(unused_imports)]
use crate::json::{jsons, opt_str, opt_text, texts, Json, JsonView};
#[allow(unused_imports)]
use crate::lists::{lemma_somes_next, somes};
#[allow(unused_imports)]
use crate::proto::{
    commands, models, skills, CommandView, ErrorView, HarnessError, HarnessId, Model, ModelView,
    ReasoningLevel, Skill, SkillView, SlashCommand,
};
#[allow(unused_imports)]
use crate::text::after_prefix;

verus! {

/// Prime knows six levels of thinking, each by a name of its own. The name of
/// every other level is that of no thinking.
pub proof fn levels_have_their_names(
    levels: Vec<ReasoningLevel>,
    level: ReasoningLevel,
    name: &'static str,
    known: bool,
)
    requires
        call_ensures(reasoning_levels, (), levels),
        call_ensures(reasoning_name, (level,), name),
        call_ensures(knows_level, (level,), known),
    ensures
        levels@ == seq![
            ReasoningLevel::Minimal,
            ReasoningLevel::Low,
            ReasoningLevel::Medium,
            ReasoningLevel::High,
            ReasoningLevel::XHigh,
            ReasoningLevel::Max,
        ],
        known <==> level != ReasoningLevel::Other,
        level == ReasoningLevel::Minimal ==> name@ == "minimal"@,
        level == ReasoningLevel::Low ==> name@ == "low"@,
        level == ReasoningLevel::Medium ==> name@ == "medium"@,
        level == ReasoningLevel::High ==> name@ == "high"@,
        level == ReasoningLevel::XHigh ==> name@ == "xhigh"@,
        level == ReasoningLevel::Max ==> name@ == "max"@,
        level == ReasoningLevel::Other ==> name@ == "off"@,
{
    let all = prime_levels();
    assert(all[0] == ReasoningLevel::Minimal && all[1] == ReasoningLevel::Low);
    assert(all[2] == ReasoningLevel::Medium && all[3] == ReasoningLevel::High);
    assert(all[4] == ReasoningLevel::XHigh && all[5] == ReasoningLevel::Max);
}

/// A model is named by its provider and its own name, with a stroke between
/// them. Without one of the two it has no name.
pub proof fn a_model_is_named_by_its_provider(entry: Json, id: Option<String>)
    requires
        call_ensures(model_id, (&entry,), id),
    ensures
        opt_text(id) == match (entry@.get("provider"@), entry@.get("id"@)) {
            (Some(JsonView::Text(provider)), Some(JsonView::Text(own))) => Some(
                provider + "/"@ + own,
            ),
            _ => None,
        },
{
}

/// A level of thinking, unless an entry maps its name to nothing.
pub open spec fn unless_refused(
    entry: JsonView,
    name: Seq<char>,
    level: ReasoningLevel,
) -> Seq<ReasoningLevel> {
    if entry.at("thinkingLevelMap"@).get(name) == Some(JsonView::Null) {
        seq![]
    } else {
        seq![level]
    }
}

/// The levels of thinking that an entry of the list of models offers.
pub open spec fn levels_taken(entry: JsonView) -> Seq<ReasoningLevel> {
    if entry.get("reasoning"@) == Some(JsonView::Bool(true)) {
        unless_refused(entry, "minimal"@, ReasoningLevel::Minimal) + unless_refused(
            entry,
            "low"@,
            ReasoningLevel::Low,
        ) + unless_refused(entry, "medium"@, ReasoningLevel::Medium) + unless_refused(
            entry,
            "high"@,
            ReasoningLevel::High,
        ) + unless_refused(entry, "xhigh"@, ReasoningLevel::XHigh) + unless_refused(
            entry,
            "max"@,
            ReasoningLevel::Max,
        )
    } else {
        seq![]
    }
}

proof fn lemma_levels_taken(entry: JsonView)
    ensures
        offered_levels(entry) == levels_taken(entry),
{
    let all = prime_levels().map_values(|level: ReasoningLevel| offered(entry, level));
    let a = unless_refused(entry, "minimal"@, ReasoningLevel::Minimal);
    let b = unless_refused(entry, "low"@, ReasoningLevel::Low);
    let c = unless_refused(entry, "medium"@, ReasoningLevel::Medium);
    let d = unless_refused(entry, "high"@, ReasoningLevel::High);
    let e = unless_refused(entry, "xhigh"@, ReasoningLevel::XHigh);
    let f = unless_refused(entry, "max"@, ReasoningLevel::Max);
    assert(all.take(0) =~= Seq::<Option<ReasoningLevel>>::empty());
    lemma_somes_next(all, 0);
    assert(somes(all.take(1)) =~= a);
    lemma_somes_next(all, 1);
    assert(somes(all.take(2)) =~= a + b);
    lemma_somes_next(all, 2);
    assert(somes(all.take(3)) =~= a + b + c);
    lemma_somes_next(all, 3);
    assert(somes(all.take(4)) =~= a + b + c + d);
    lemma_somes_next(all, 4);
    assert(somes(all.take(5)) =~= a + b + c + d + e);
    lemma_somes_next(all, 5);
    assert(somes(all.take(6)) =~= a + b + c + d + e + f);
    assert(all.take(6) =~= all);
}

/// The models of a list of entries, in order: those that have a provider and a
/// name, with a label that says both, and the levels that they take.
pub open spec fn models_in(entries: Seq<JsonView>) -> Seq<ModelView>
    decreases entries.len(),
{
    if entries.len() == 0 {
        seq![]
    } else {
        let entry = entries.last();
        let before = models_in(entries.drop_last());
        match (entry.get("provider"@), entry.get("id"@)) {
            (Some(JsonView::Text(provider)), Some(JsonView::Text(id))) => before.push(
                ModelView {
                    id: provider + "/"@ + id,
                    label: (match entry.get("name"@) {
                        Some(JsonView::Text(name)) => name,
                        _ => id,
                    }) + " ("@ + provider + ")"@,
                    description: None,
                    reasoning_levels: levels_taken(entry),
                    options: seq![],
                },
            ),
            _ => before,
        }
    }
}

proof fn lemma_models_in(entries: Seq<JsonView>)
    ensures
        somes(entries.map_values(|entry: JsonView| model_of(entry))) == models_in(entries),
    decreases entries.len(),
{
    if entries.len() > 0 {
        let step = |entry: JsonView| model_of(entry);
        lemma_models_in(entries.drop_last());
        lemma_levels_taken(entries.last());
        assert(entries.map_values(step).drop_last() =~= entries.drop_last().map_values(step));
    }
}

/// The models that the agent lists are read in order. An answer without a list
/// is refused.
pub proof fn the_listed_models_are_read(data: Json, list: Result<Vec<Model>, HarnessError>)
    requires
        call_ensures(parse_models, (&data,), list),
    ensures
        match data@.get("models"@) {
            Some(JsonView::Array(entries)) => list matches Ok(list) && models(list@) == models_in(
                entries,
            ),
            _ => list matches Err(error) && error@ == ErrorView::Protocol(
                "Prime RPC returned no model list"@,
            ),
        },
{
    match data@.get("models"@) {
        Some(JsonView::Array(entries)) => {
            lemma_models_in(entries);
        },
        _ => {},
    }
}

/// The model that Prime is set up with can be chosen without asking the agent.
pub proof fn the_default_can_always_be_chosen(list: Vec<Model>)
    requires
        call_ensures(fallback_models, (), list),
    ensures
        models(list@) == seq![
            ModelView {
                id: "default"@,
                label: "Prime default"@,
                description: Some("Use the model configured in Prime Agent"@),
                reasoning_levels: seq![],
                options: seq![],
            },
        ],
{
}

/// The models to choose from are the one that Prime is set up with and those
/// that the agent lists, in this order.
pub proof fn the_default_comes_before_the_listed_models(
    data: Json,
    first: Vec<Model>,
    listed: Result<Vec<Model>, HarnessError>,
    list: Result<Vec<Model>, HarnessError>,
)
    requires
        call_ensures(fallback_models, (), first),
        call_ensures(parse_models, (&data,), listed),
        call_ensures(all_models, (&data,), list),
    ensures
        match (listed, list) {
            (Ok(listed), Ok(list)) => models(list@) == models(first@) + models(listed@),
            (Err(a), Err(b)) => a@ == b@,
            _ => false,
        },
{
}

/// The entries of the commands are those of the answer. An answer without a list
/// is refused.
pub proof fn the_commands_are_those_of_the_answer(
    data: Json,
    entries: Result<&Vec<Json>, HarnessError>,
)
    requires
        call_ensures(commands_in, (&data,), entries),
    ensures
        match data@.get("commands"@) {
            Some(JsonView::Array(all)) => entries matches Ok(entries) && jsons(entries@) == all,
            _ => entries matches Err(error) && error@ == ErrorView::Protocol(
                "Prime RPC returned no command list"@,
            ),
        },
{
}

/// The commands of a list of entries whose names are valid, in order.
pub open spec fn valid_commands_in(entries: Seq<JsonView>, valid: Seq<Seq<char>>) -> Seq<
    CommandView,
>
    decreases entries.len(),
{
    if entries.len() == 0 {
        seq![]
    } else {
        let entry = entries.last();
        let before = valid_commands_in(entries.drop_last(), valid);
        match entry.get("name"@) {
            Some(JsonView::Text(name)) => if valid.contains(name) {
                before.push(
                    CommandView {
                        name,
                        description: match entry.get("description"@) {
                            Some(JsonView::Text(description)) => description,
                            _ => ""@,
                        },
                        input_hint: None,
                    },
                )
            } else {
                before
            },
            _ => before,
        }
    }
}

/// A list of commands and, unless it has one of the same name, a command more.
pub open spec fn unless_listed(list: Seq<CommandView>, command: CommandView) -> Seq<CommandView> {
    if exists|i: int| 0 <= i < list.len() && (#[trigger] list[i]).name == command.name {
        list
    } else {
        list.push(command)
    }
}

proof fn lemma_valid_commands_in(entries: Seq<JsonView>, valid: Seq<Seq<char>>)
    ensures
        listed_commands(entries, valid) == valid_commands_in(entries, valid),
    decreases entries.len(),
{
    if entries.len() > 0 {
        let step = |entry: JsonView| command_of(entry, valid);
        lemma_valid_commands_in(entries.drop_last(), valid);
        assert(entries.map_values(step).drop_last() =~= entries.drop_last().map_values(step));
    }
}

/// The commands that the user can type are those that the agent lists by a valid
/// name, in order, and behind them those of four that the agent has built in and
/// did not list. An answer without a list is refused.
pub proof fn the_built_in_commands_come_last(
    data: Json,
    valid: Vec<String>,
    list: Result<Vec<SlashCommand>, HarnessError>,
)
    requires
        call_ensures(parse_commands, (&data, &valid), list),
    ensures
        match data@.get("commands"@) {
            Some(JsonView::Array(entries)) => list matches Ok(list) && commands(list@)
                == unless_listed(
                unless_listed(
                    unless_listed(
                        unless_listed(
                            valid_commands_in(entries, texts(valid@)),
                            CommandView {
                                name: "compact"@,
                                description: "Compact the session context"@,
                                input_hint: Some("optional instructions"@),
                            },
                        ),
                        CommandView {
                            name: "refine"@,
                            description: "Refine Prime's continual harness"@,
                            input_hint: Some("optional instructions"@),
                        },
                    ),
                    CommandView {
                        name: "goal"@,
                        description: "Set or view a persistent goal; pause, resume, or clear it"@,
                        input_hint: Some("objective or status/pause/resume/clear"@),
                    },
                ),
                CommandView {
                    name: "autonomous"@,
                    description: "Set or view autonomous mode"@,
                    input_hint: Some("status or on/off with options"@),
                },
            ),
            _ => list matches Err(error) && error@ == ErrorView::Protocol(
                "Prime RPC returned no command list"@,
            ),
        },
{
    match data@.get("commands"@) {
        Some(JsonView::Array(entries)) => {
            lemma_valid_commands_in(entries, texts(valid@));
        },
        _ => {},
    }
}

/// Whether a command is that of a skill.
pub open spec fn invokes_skill(command: Seq<char>, name: Seq<char>) -> bool {
    command == "skill:"@ + name
}

proof fn lemma_invokes_skill(command: Seq<char>)
    ensures
        after_prefix(command, "skill:"@) matches Some(name) ==> invokes_skill(command, name),
        forall|name: Seq<char>| #[trigger]
            invokes_skill(command, name) ==> after_prefix(command, "skill:"@) == Some(name),
{
    let prefix = "skill:"@;
    match after_prefix(command, prefix) {
        Some(name) => {
            assert(command =~= prefix + name);
        },
        None => {},
    }
    assert forall|name: Seq<char>| #[trigger] invokes_skill(command, name) implies after_prefix(
        command,
        prefix,
    ) == Some(name) by {
        assert(command.take(prefix.len() as int) =~= prefix);
        assert(command.skip(prefix.len() as int) =~= name);
        assert(prefix.is_prefix_of(command));
    }
}

/// The name of a skill is what follows the prefix in its command; a command
/// without the prefix is that of none.
pub proof fn a_skill_is_named_by_its_command(command: &str, name: Option<&str>)
    requires
        call_ensures(skill_name, (command,), name),
    ensures
        name matches Some(name) ==> invokes_skill(command@, name@),
        forall|text: Seq<char>| #[trigger]
            invokes_skill(command@, text) ==> opt_str(name) == Some(text),
{
    lemma_invokes_skill(command@);
}

/// Whether an entry of the list of commands is that of a skill of a name.
pub open spec fn is_skill_entry(
    entry: JsonView,
    command: Seq<char>,
    name: Seq<char>,
    valid_commands: Seq<Seq<char>>,
    valid_names: Seq<Seq<char>>,
) -> bool {
    &&& says(entry, "source"@, "skill"@)
    &&& says(entry, "name"@, command)
    &&& invokes_skill(command, name)
    &&& valid_names.contains(name)
    &&& valid_commands.contains(command)
}

/// Whether a skill is the one of an entry: it is enabled, it is invoked by its
/// command, and it is kept where the entry says, or else under a name of its own.
pub open spec fn shows_skill(
    entry: JsonView,
    command: Seq<char>,
    name: Seq<char>,
    skill: SkillView,
) -> bool {
    &&& skill.name == name
    &&& skill.enabled
    &&& skill.command == Some((command, HarnessId::Prime))
    &&& skill.description == match entry.get("description"@) {
        Some(JsonView::Text(description)) => description,
        _ => ""@,
    }
    &&& skill.path == match entry.at("sourceInfo"@).get("path"@) {
        Some(JsonView::Text(path)) => if path.len() > 0 {
            path
        } else {
            "harness-skill:prime:"@ + name
        },
        _ => "harness-skill:prime:"@ + name,
    }
}

/// An answer without a list of commands has no skills. One with an empty list
/// has an empty list of them.
pub proof fn no_commands_no_skills(
    data: Json,
    valid_commands: Vec<String>,
    valid_names: Vec<String>,
    list: Result<Vec<Skill>, HarnessError>,
)
    requires
        call_ensures(parse_skills, (&data, &valid_commands, &valid_names), list),
    ensures
        match data@.get("commands"@) {
            Some(JsonView::Array(entries)) => list is Ok && (entries.len() == 0
                ==> list->Ok_0@.len() == 0),
            _ => list matches Err(error) && error@ == ErrorView::Protocol(
                "Prime RPC returned no command list"@,
            ),
        },
{
    match list {
        Ok(list) => {
            assert(skills(list@).len() == list@.len());
        },
        Err(_) => {},
    }
}

/// One entry more gives one skill more, behind the others, if the entry is that
/// of a skill, whose name and whose command are valid; and none otherwise.
pub proof fn an_entry_of_a_skill_gives_that_skill(
    before: Json,
    after: Json,
    entries: Seq<JsonView>,
    entry: JsonView,
    valid_commands: Vec<String>,
    valid_names: Vec<String>,
    first: Result<Vec<Skill>, HarnessError>,
    list: Result<Vec<Skill>, HarnessError>,
    command: Seq<char>,
    name: Seq<char>,
)
    requires
        call_ensures(parse_skills, (&before, &valid_commands, &valid_names), first),
        call_ensures(parse_skills, (&after, &valid_commands, &valid_names), list),
        before@.get("commands"@) == Some(JsonView::Array(entries)),
        after@.get("commands"@) == Some(JsonView::Array(entries.push(entry))),
    ensures
        first is Ok && list is Ok,
        is_skill_entry(entry, command, name, texts(valid_commands@), texts(valid_names@)) ==> {
            &&& list->Ok_0@.len() == first->Ok_0@.len() + 1
            &&& skills(list->Ok_0@).drop_last() == skills(first->Ok_0@)
            &&& shows_skill(entry, command, name, skills(list->Ok_0@).last())
        },
        (forall|c: Seq<char>, n: Seq<char>|
            !#[trigger] is_skill_entry(
                entry,
                c,
                n,
                texts(valid_commands@),
                texts(valid_names@),
            )) ==> skills(list->Ok_0@) == skills(first->Ok_0@),
{
    let vc = texts(valid_commands@);
    let vn = texts(valid_names@);
    let step = |entry: JsonView| skill_of(entry, vc, vn);
    let all = entries.push(entry).map_values(step);
    assert(all.drop_last() =~= entries.map_values(step));
    assert(all.last() == skill_of(entry, vc, vn));
    assert(skills(list->Ok_0@).len() == list->Ok_0@.len());
    assert(skills(first->Ok_0@).len() == first->Ok_0@.len());
    match entry.get("name"@) {
        Some(JsonView::Text(c)) => {
            lemma_invokes_skill(c);
            match after_prefix(c, "skill:"@) {
                Some(n) => {
                    assert(invokes_skill(c, n));
                    assert(is_skill_entry(entry, c, n, vc, vn) || !(says(
                        entry,
                        "source"@,
                        "skill"@,
                    ) && vn.contains(n) && vc.contains(c)));
                },
                None => {},
            }
        },
        _ => {},
    }
    if skill_of(entry, vc, vn) is Some {
        assert(somes(all).drop_last() =~= somes(entries.map_values(step)));
    }
}

/// The names that the entries of the commands have, in order.
pub open spec fn names_in(entries: Seq<JsonView>) -> Seq<Seq<char>>
    decreases entries.len(),
{
    if entries.len() == 0 {
        seq![]
    } else {
        match entries.last().get("name"@) {
            Some(JsonView::Text(name)) => names_in(entries.drop_last()).push(name),
            _ => names_in(entries.drop_last()),
        }
    }
}

proof fn lemma_names_in(entries: Seq<JsonView>)
    ensures
        entry_names(entries) == names_in(entries),
    decreases entries.len(),
{
    if entries.len() > 0 {
        lemma_names_in(entries.drop_last());
        let all = entries.map_values(|entry: JsonView| entry.field("name"@));
        assert(all.drop_last() =~= entries.drop_last().map_values(
            |entry: JsonView| entry.field("name"@),
        ));
    }
}

/// The names of the commands are those that their entries have, in order; an
/// answer without a list has none.
pub proof fn the_names_of_commands_are_those_of_their_entries(data: Json, names: Vec<String>)
    requires
        call_ensures(command_names, (&data,), names),
    ensures
        texts(names@) == match data@.get("commands"@) {
            Some(JsonView::Array(entries)) => names_in(entries),
            _ => seq![],
        },
{
    match data@.get("commands"@) {
        Some(JsonView::Array(entries)) => {
            lemma_names_in(entries);
        },
        _ => {},
    }
}

} // verus!
