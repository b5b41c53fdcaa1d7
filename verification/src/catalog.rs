//! What Prime offers: models, commands and skills.

use vstd::prelude::*;

use crate::json::{text_or_else, Json, JsonView};
#[allow(unused_imports)]
use crate::json::{jsons, opt_str, opt_text, text_or, texts};
#[allow(unused_imports)]
use crate::lists::{lemma_somes_from, lemma_somes_next, somes};
use crate::names::contains_name;
use crate::proto::{
    protocol_error, CommandView, ErrorView, HarnessError, HarnessId, Model, ModelView,
    ReasoningLevel, Skill, SkillCommand, SkillView, SlashCommand,
};
#[allow(unused_imports)]
use crate::proto::{commands, models, skills};
#[allow(unused_imports)]
use crate::text::after_prefix;
use crate::text::{same_text, strip_prefix};

verus! {

/// The levels of thinking that Prime knows.
pub open spec fn prime_levels() -> Seq<ReasoningLevel> {
    seq![
        ReasoningLevel::Minimal,
        ReasoningLevel::Low,
        ReasoningLevel::Medium,
        ReasoningLevel::High,
        ReasoningLevel::XHigh,
        ReasoningLevel::Max,
    ]
}

/// Prime's name for a level of thinking.
pub open spec fn level_name(level: ReasoningLevel) -> Seq<char> {
    match level {
        ReasoningLevel::Minimal => "minimal"@,
        ReasoningLevel::Low => "low"@,
        ReasoningLevel::Medium => "medium"@,
        ReasoningLevel::High => "high"@,
        ReasoningLevel::XHigh => "xhigh"@,
        ReasoningLevel::Max => "max"@,
        ReasoningLevel::Other => "off"@,
    }
}

/// The name of a model among those of all providers.
pub open spec fn model_name(provider: Seq<char>, id: Seq<char>) -> Seq<char> {
    provider + "/"@ + id
}

/// The name of the model that an entry of the list is of.
pub open spec fn entry_name(entry: JsonView) -> Option<Seq<char>> {
    match (entry.field("provider"@), entry.field("id"@)) {
        (Some(provider), Some(id)) => Some(model_name(provider, id)),
        _ => None,
    }
}

/// A level of thinking that a model takes: every one is taken whose name is not
/// mapped to nothing.
pub open spec fn offered(entry: JsonView, level: ReasoningLevel) -> Option<ReasoningLevel> {
    let refused = match entry.get("thinkingLevelMap"@) {
        Some(map) => map.get(level_name(level)) == Some(JsonView::Null),
        None => false,
    };
    if refused {
        None
    } else {
        Some(level)
    }
}

/// The levels of thinking that a model takes.
pub open spec fn offered_levels(entry: JsonView) -> Seq<ReasoningLevel> {
    match entry.get("reasoning"@) {
        Some(reasoning) => if reasoning.as_bool() == Some(true) {
            somes(prime_levels().map_values(|level: ReasoningLevel| offered(entry, level)))
        } else {
            Seq::empty()
        },
        None => Seq::empty(),
    }
}

/// The model that an entry of the list is of.
pub open spec fn model_of(entry: JsonView) -> Option<ModelView> {
    match (entry.field("provider"@), entry.field("id"@)) {
        (Some(provider), Some(id)) => Some(
            ModelView {
                id: model_name(provider, id),
                label: text_or(entry.field("name"@), id) + " ("@ + provider + ")"@,
                description: None,
                reasoning_levels: offered_levels(entry),
                options: Seq::empty(),
            },
        ),
        _ => None,
    }
}

/// The models of a list.
pub open spec fn listed_models(data: JsonView) -> Result<Seq<ModelView>, ErrorView> {
    match data.at("models"@) {
        JsonView::Array(entries) => Ok(
            somes(entries.map_values(|entry: JsonView| model_of(entry))),
        ),
        _ => Err(ErrorView::Protocol("Prime RPC returned no model list"@)),
    }
}

/// The model that stands for the one that Prime is set up with.
pub open spec fn default_model() -> ModelView {
    ModelView {
        id: "default"@,
        label: "Prime default"@,
        description: Some("Use the model configured in Prime Agent"@),
        reasoning_levels: Seq::empty(),
        options: Seq::empty(),
    }
}

/// The models that the user can choose from.
pub open spec fn offered_models(data: JsonView) -> Result<Seq<ModelView>, ErrorView> {
    match listed_models(data) {
        Ok(list) => Ok(seq![default_model()] + list),
        Err(error) => Err(error),
    }
}

/// The entries of the list of commands.
pub open spec fn command_entries(data: JsonView) -> Result<Seq<JsonView>, ErrorView> {
    match data.at("commands"@) {
        JsonView::Array(entries) => Ok(entries),
        _ => Err(ErrorView::Protocol("Prime RPC returned no command list"@)),
    }
}

/// The command that an entry is of, if its name is a valid one.
pub open spec fn command_of(entry: JsonView, valid: Seq<Seq<char>>) -> Option<CommandView> {
    match entry.field("name"@) {
        Some(name) => if valid.contains(name) {
            Some(
                CommandView {
                    name,
                    description: text_or(entry.field("description"@), ""@),
                    input_hint: None,
                },
            )
        } else {
            None
        },
        None => None,
    }
}

/// Whether a command is in a list.
pub open spec fn has_command(list: Seq<CommandView>, name: Seq<char>) -> bool {
    exists|i: int| 0 <= i < list.len() && (#[trigger] list[i]).name == name
}

/// A list with a command at the end, where it did not have it.
pub open spec fn with_command(
    list: Seq<CommandView>,
    name: Seq<char>,
    description: Seq<char>,
    hint: Seq<char>,
) -> Seq<CommandView> {
    if has_command(list, name) {
        list
    } else {
        list.push(CommandView { name, description, input_hint: Some(hint) })
    }
}

/// A list with the commands that Prime has built in and does not list.
pub open spec fn with_built_in(list: Seq<CommandView>) -> Seq<CommandView> {
    let a = with_command(
        list,
        "compact"@,
        "Compact the session context"@,
        "optional instructions"@,
    );
    let b = with_command(
        a,
        "refine"@,
        "Refine Prime's continual harness"@,
        "optional instructions"@,
    );
    let c = with_command(
        b,
        "goal"@,
        "Set or view a persistent goal; pause, resume, or clear it"@,
        "objective or status/pause/resume/clear"@,
    );
    with_command(
        c,
        "autonomous"@,
        "Set or view autonomous mode"@,
        "status or on/off with options"@,
    )
}

/// The commands of a list whose names are valid.
pub open spec fn listed_commands(entries: Seq<JsonView>, valid: Seq<Seq<char>>) -> Seq<
    CommandView,
> {
    somes(entries.map_values(|entry: JsonView| command_of(entry, valid)))
}

/// The commands that the user can type.
pub open spec fn offered_commands(data: JsonView, valid: Seq<Seq<char>>) -> Result<
    Seq<CommandView>,
    ErrorView,
> {
    match command_entries(data) {
        Ok(entries) => Ok(with_built_in(listed_commands(entries, valid))),
        Err(error) => Err(error),
    }
}

/// Where a skill is kept.
pub open spec fn skill_path(entry: JsonView, name: Seq<char>) -> Seq<char> {
    match entry.at("sourceInfo"@).at("path"@).as_text() {
        Some(path) => if path.len() > 0 {
            path
        } else {
            "harness-skill:prime:"@ + name
        },
        None => "harness-skill:prime:"@ + name,
    }
}

/// The skill that an entry is of. The names of the skill and of its command
/// have to be valid ones.
pub open spec fn skill_of(
    entry: JsonView,
    valid_commands: Seq<Seq<char>>,
    valid_names: Seq<Seq<char>>,
) -> Option<SkillView> {
    if entry.field("source"@) != Some("skill"@) {
        None
    } else {
        match entry.field("name"@) {
            Some(command) => match after_prefix(command, "skill:"@) {
                Some(name) => if valid_names.contains(name) && valid_commands.contains(command) {
                    Some(
                        SkillView {
                            name,
                            path: skill_path(entry, name),
                            description: text_or(entry.field("description"@), ""@),
                            enabled: true,
                            command: Some((command, HarnessId::Prime)),
                        },
                    )
                } else {
                    None
                },
                None => None,
            },
            None => None,
        }
    }
}

/// The skills of a list.
pub open spec fn offered_skills(
    data: JsonView,
    valid_commands: Seq<Seq<char>>,
    valid_names: Seq<Seq<char>>,
) -> Result<Seq<SkillView>, ErrorView> {
    match command_entries(data) {
        Ok(entries) => Ok(
            somes(
                entries.map_values(
                    |entry: JsonView| skill_of(entry, valid_commands, valid_names),
                ),
            ),
        ),
        Err(error) => Err(error),
    }
}

/// The levels of thinking that Prime knows.
pub fn reasoning_levels() -> (levels: Vec<ReasoningLevel>)
    ensures
        levels@ == prime_levels(),
{
    let mut levels: Vec<ReasoningLevel> = Vec::new();
    levels.push(ReasoningLevel::Minimal);
    levels.push(ReasoningLevel::Low);
    levels.push(ReasoningLevel::Medium);
    levels.push(ReasoningLevel::High);
    levels.push(ReasoningLevel::XHigh);
    levels.push(ReasoningLevel::Max);
    proof {
        assert(levels@ =~= prime_levels());
    }
    levels
}

/// Whether Prime knows a level of thinking.
pub fn knows_level(level: ReasoningLevel) -> (known: bool)
    ensures
        known == prime_levels().contains(level),
{
    proof {
        let all = prime_levels();
        assert(all[0] == ReasoningLevel::Minimal);
        assert(all[1] == ReasoningLevel::Low);
        assert(all[2] == ReasoningLevel::Medium);
        assert(all[3] == ReasoningLevel::High);
        assert(all[4] == ReasoningLevel::XHigh);
        assert(all[5] == ReasoningLevel::Max);
    }
    match level {
        ReasoningLevel::Other => false,
        _ => true,
    }
}

/// Prime's name for a level of thinking.
pub fn reasoning_name(level: ReasoningLevel) -> (name: &'static str)
    ensures
        name@ == level_name(level),
{
    match level {
        ReasoningLevel::Minimal => "minimal",
        ReasoningLevel::Low => "low",
        ReasoningLevel::Medium => "medium",
        ReasoningLevel::High => "high",
        ReasoningLevel::XHigh => "xhigh",
        ReasoningLevel::Max => "max",
        ReasoningLevel::Other => "off",
    }
}

/// The name of the model that an entry of the list is of.
pub fn model_id(model: &Json) -> (id: Option<String>)
    ensures
        opt_text(id) == entry_name(model@),
{
    match (model.field("provider"), model.field("id")) {
        (Some(provider), Some(id)) => Some(provider.to_owned().concat("/").concat(id)),
        _ => None,
    }
}

/// The levels of thinking that a model takes.
fn read_levels(entry: &Json) -> (levels: Vec<ReasoningLevel>)
    ensures
        levels@ == offered_levels(entry@),
{
    let mut levels: Vec<ReasoningLevel> = Vec::new();
    let reasons = match entry.get("reasoning") {
        Some(reasoning) => reasoning.as_bool() == Some(true),
        None => false,
    };
    if !reasons {
        return levels;
    }
    let known = reasoning_levels();
    let ghost all = prime_levels().map_values(|level: ReasoningLevel| offered(entry@, level));
    let mut i: usize = 0;
    proof {
        assert(all.take(0) =~= Seq::<Option<ReasoningLevel>>::empty());
    }
    while i < known.len()
        invariant
            i <= known@.len(),
            known@ == prime_levels(),
            all == prime_levels().map_values(|level: ReasoningLevel| offered(entry@, level)),
            levels@ == somes(all.take(i as int)),
        decreases known@.len() - i,
    {
        proof {
            lemma_somes_next(all, i as int);
        }
        let refused = match entry.get("thinkingLevelMap") {
            Some(map) => match map.get(reasoning_name(known[i])) {
                Some(value) => value.is_null(),
                None => false,
            },
            None => false,
        };
        if !refused {
            levels.push(known[i]);
        }
        i = i + 1;
    }
    proof {
        assert(all.take(i as int) =~= all);
    }
    levels
}

/// The model that an entry of the list is of.
fn read_model(entry: &Json) -> (model: Option<Model>)
    ensures
        match model {
            Some(model) => model_of(entry@) == Some(model@),
            None => model_of(entry@) is None,
        },
{
    let id = model_id(entry)?;
    let provider = entry.field("provider")?;
    let name = text_or_else(entry.field("name"), text_or_else(entry.field("id"), "model"));
    let options: Vec<String> = Vec::new();
    proof {
        assert(texts(options@) =~= Seq::<Seq<char>>::empty());
    }
    Some(
        Model {
            id,
            label: name.to_owned().concat(" (").concat(provider).concat(")"),
            description: None,
            reasoning_levels: read_levels(entry),
            options,
        },
    )
}

/// The models of a list.
pub fn parse_models(data: &Json) -> (list: Result<Vec<Model>, HarnessError>)
    ensures
        match list {
            Ok(list) => listed_models(data@) == Ok::<Seq<ModelView>, ErrorView>(models(list@)),
            Err(error) => listed_models(data@) == Err::<Seq<ModelView>, ErrorView>(error@),
        },
{
    let entries = match data.at("models").as_array() {
        Some(entries) => entries,
        None => {
            return Err(protocol_error("Prime RPC returned no model list"));
        },
    };
    let ghost all = jsons(entries@).map_values(|entry: JsonView| model_of(entry));
    let mut list: Vec<Model> = Vec::new();
    let mut i: usize = 0;
    proof {
        assert(all.take(0) =~= Seq::<Option<ModelView>>::empty());
        assert(models(list@) =~= Seq::<ModelView>::empty());
    }
    while i < entries.len()
        invariant
            i <= entries@.len(),
            all == jsons(entries@).map_values(|entry: JsonView| model_of(entry)),
            models(list@) == somes(all.take(i as int)),
        decreases entries@.len() - i,
    {
        let ghost before = list@;
        proof {
            lemma_somes_next(all, i as int);
        }
        match read_model(&entries[i]) {
            Some(model) => {
                list.push(model);
                proof {
                    assert(models(list@) =~= models(before).push(model@));
                }
            },
            None => {},
        }
        i = i + 1;
    }
    proof {
        assert(all.take(i as int) =~= all);
    }
    Ok(list)
}

/// The models that can be chosen without asking Prime.
pub fn fallback_models() -> (list: Vec<Model>)
    ensures
        models(list@) == seq![default_model()],
{
    let options: Vec<String> = Vec::new();
    let reasoning_levels: Vec<ReasoningLevel> = Vec::new();
    proof {
        assert(texts(options@) =~= Seq::<Seq<char>>::empty());
    }
    let mut list: Vec<Model> = Vec::new();
    list.push(
        Model {
            id: "default".to_owned(),
            label: "Prime default".to_owned(),
            description: Some("Use the model configured in Prime Agent".to_owned()),
            reasoning_levels,
            options,
        },
    );
    proof {
        assert(models(list@) =~= seq![default_model()]);
    }
    list
}

/// The models that the user can choose from.
pub fn all_models(data: &Json) -> (list: Result<Vec<Model>, HarnessError>)
    ensures
        match list {
            Ok(list) => offered_models(data@) == Ok::<Seq<ModelView>, ErrorView>(models(list@)),
            Err(error) => offered_models(data@) == Err::<Seq<ModelView>, ErrorView>(error@),
        },
{
    let mut list = fallback_models();
    let ghost first = list@;
    match parse_models(data) {
        Ok(more) => {
            let mut more = more;
            let ghost added = more@;
            list.append(&mut more);
            proof {
                assert(models(list@) =~= models(first) + models(added));
            }
            Ok(list)
        },
        Err(error) => Err(error),
    }
}

/// The entries of the list of commands.
pub fn commands_in(data: &Json) -> (entries: Result<&Vec<Json>, HarnessError>)
    ensures
        match entries {
            Ok(entries) => command_entries(data@) == Ok::<Seq<JsonView>, ErrorView>(
                jsons(entries@),
            ),
            Err(error) => command_entries(data@) == Err::<Seq<JsonView>, ErrorView>(error@),
        },
{
    match data.at("commands").as_array() {
        Some(entries) => Ok(entries),
        None => Err(protocol_error("Prime RPC returned no command list")),
    }
}

/// Adds a command at the end of a list that does not have it.
fn add_command(list: &mut Vec<SlashCommand>, name: &str, description: &str, hint: &str)
    ensures
        commands(final(list)@) == with_command(
            commands(old(list)@),
            name@,
            description@,
            hint@,
        ),
{
    let ghost all = list@;
    let mut i: usize = 0;
    while i < list.len()
        invariant
            i <= list@.len(),
            list@ == all,
            forall|k: int| 0 <= k < i ==> (#[trigger] commands(all)[k]).name != name@,
        decreases list@.len() - i,
    {
        if same_text(list[i].name.as_str(), name) {
            proof {
                assert(commands(all)[i as int].name == name@);
            }
            return;
        }
        i = i + 1;
    }
    list.push(
        SlashCommand {
            name: name.to_owned(),
            description: description.to_owned(),
            input_hint: Some(hint.to_owned()),
        },
    );
    proof {
        assert(!has_command(commands(all), name@));
        assert(commands(list@) =~= with_command(commands(all), name@, description@, hint@));
    }
}

/// The commands that the user can type. The names that the grammar of commands
/// takes are given.
pub fn parse_commands(data: &Json, valid: &Vec<String>) -> (list: Result<
    Vec<SlashCommand>,
    HarnessError,
>)
    ensures
        match list {
            Ok(list) => offered_commands(data@, texts(valid@)) == Ok::<
                Seq<CommandView>,
                ErrorView,
            >(commands(list@)),
            Err(error) => offered_commands(data@, texts(valid@)) == Err::<
                Seq<CommandView>,
                ErrorView,
            >(error@),
        },
{
    let entries = match commands_in(data) {
        Ok(entries) => entries,
        Err(error) => {
            return Err(error);
        },
    };
    let ghost all = jsons(entries@).map_values(
        |entry: JsonView| command_of(entry, texts(valid@)),
    );
    let mut list: Vec<SlashCommand> = Vec::new();
    let mut i: usize = 0;
    proof {
        assert(all.take(0) =~= Seq::<Option<CommandView>>::empty());
        assert(commands(list@) =~= Seq::<CommandView>::empty());
    }
    while i < entries.len()
        invariant
            i <= entries@.len(),
            all == jsons(entries@).map_values(
                |entry: JsonView| command_of(entry, texts(valid@)),
            ),
            commands(list@) == somes(all.take(i as int)),
        decreases entries@.len() - i,
    {
        let ghost before = list@;
        proof {
            lemma_somes_next(all, i as int);
        }
        match entries[i].field("name") {
            Some(name) => {
                if contains_name(valid, name) {
                    let description = text_or_else(entries[i].field("description"), "");
                    list.push(
                        SlashCommand {
                            name: name.to_owned(),
                            description: description.to_owned(),
                            input_hint: None,
                        },
                    );
                    proof {
                        assert(commands(list@) =~= commands(before).push(list@.last()@));
                    }
                }
            },
            None => {},
        }
        i = i + 1;
    }
    proof {
        assert(all.take(i as int) =~= all);
    }
    add_command(
        &mut list,
        "compact",
        "Compact the session context",
        "optional instructions",
    );
    add_command(
        &mut list,
        "refine",
        "Refine Prime's continual harness",
        "optional instructions",
    );
    add_command(
        &mut list,
        "goal",
        "Set or view a persistent goal; pause, resume, or clear it",
        "objective or status/pause/resume/clear",
    );
    add_command(
        &mut list,
        "autonomous",
        "Set or view autonomous mode",
        "status or on/off with options",
    );
    Ok(list)
}

/// The skill that an entry is of.
fn read_skill(
    entry: &Json,
    valid_commands: &Vec<String>,
    valid_names: &Vec<String>,
) -> (skill: Option<Skill>)
    ensures
        match skill {
            Some(skill) => skill_of(entry@, texts(valid_commands@), texts(valid_names@)) == Some(
                skill@,
            ),
            None => skill_of(entry@, texts(valid_commands@), texts(valid_names@)) is None,
        },
{
    match entry.field("source") {
        Some(source) => {
            if !same_text(source, "skill") {
                return None;
            }
        },
        None => {
            return None;
        },
    }
    let command = entry.field("name")?;
    let name = strip_prefix(command, "skill:")?;
    if !contains_name(valid_names, name) || !contains_name(valid_commands, command) {
        return None;
    }
    let kept = text_or_else(entry.at("sourceInfo").at("path").as_text(), "");
    let path = if kept.is_empty() {
        "harness-skill:prime:".to_owned().concat(name)
    } else {
        kept.to_owned()
    };
    proof {
        reveal_strlit("");
    }
    Some(
        Skill {
            name: name.to_owned(),
            path,
            description: text_or_else(entry.field("description"), "").to_owned(),
            enabled: true,
            command: Some(SkillCommand { name: command.to_owned(), harness: HarnessId::Prime }),
        },
    )
}

/// The skills of a list. The names that the grammar of commands takes, for
/// commands and for skills, are given.
pub fn parse_skills(
    data: &Json,
    valid_commands: &Vec<String>,
    valid_names: &Vec<String>,
) -> (list: Result<Vec<Skill>, HarnessError>)
    ensures
        match list {
            Ok(list) => offered_skills(data@, texts(valid_commands@), texts(valid_names@)) == Ok::<
                Seq<SkillView>,
                ErrorView,
            >(skills(list@)),
            Err(error) => offered_skills(data@, texts(valid_commands@), texts(valid_names@))
                == Err::<Seq<SkillView>, ErrorView>(error@),
        },
{
    let entries = match commands_in(data) {
        Ok(entries) => entries,
        Err(error) => {
            return Err(error);
        },
    };
    let ghost all = jsons(entries@).map_values(
        |entry: JsonView| skill_of(entry, texts(valid_commands@), texts(valid_names@)),
    );
    let mut list: Vec<Skill> = Vec::new();
    let mut i: usize = 0;
    proof {
        assert(all.take(0) =~= Seq::<Option<SkillView>>::empty());
        assert(skills(list@) =~= Seq::<SkillView>::empty());
    }
    while i < entries.len()
        invariant
            i <= entries@.len(),
            all == jsons(entries@).map_values(
                |entry: JsonView| skill_of(entry, texts(valid_commands@), texts(valid_names@)),
            ),
            skills(list@) == somes(all.take(i as int)),
        decreases entries@.len() - i,
    {
        let ghost before = list@;
        proof {
            lemma_somes_next(all, i as int);
        }
        match read_skill(&entries[i], valid_commands, valid_names) {
            Some(skill) => {
                list.push(skill);
                proof {
                    assert(skills(list@) =~= skills(before).push(skill@));
                }
            },
            None => {},
        }
        i = i + 1;
    }
    proof {
        assert(all.take(i as int) =~= all);
    }
    Ok(list)
}

/// The names of the commands of a list, valid or not.
pub open spec fn entry_names(entries: Seq<JsonView>) -> Seq<Seq<char>> {
    somes(entries.map_values(|entry: JsonView| entry.field("name"@)))
}

/// The names of the commands of a list, valid or not. There are none where
/// there is no list.
pub fn command_names(data: &Json) -> (names: Vec<String>)
    ensures
        texts(names@) == match command_entries(data@) {
            Ok(entries) => entry_names(entries),
            Err(_) => Seq::empty(),
        },
{
    let mut names: Vec<String> = Vec::new();
    proof {
        assert(texts(names@) =~= Seq::<Seq<char>>::empty());
    }
    let entries = match commands_in(data) {
        Ok(entries) => entries,
        Err(_) => {
            return names;
        },
    };
    let ghost all = jsons(entries@).map_values(|entry: JsonView| entry.field("name"@));
    let mut i: usize = 0;
    proof {
        assert(all.take(0) =~= Seq::<Option<Seq<char>>>::empty());
    }
    while i < entries.len()
        invariant
            i <= entries@.len(),
            all == jsons(entries@).map_values(|entry: JsonView| entry.field("name"@)),
            texts(names@) == somes(all.take(i as int)),
        decreases entries@.len() - i,
    {
        let ghost before = names@;
        proof {
            lemma_somes_next(all, i as int);
        }
        match entries[i].field("name") {
            Some(name) => {
                names.push(name.to_owned());
                proof {
                    assert(texts(names@) =~= texts(before).push(name@));
                }
            },
            None => {},
        }
        i = i + 1;
    }
    proof {
        assert(all.take(i as int) =~= all);
    }
    names
}

/// The name of the skill behind the name of a command, if it has the form of
/// one.
pub fn skill_name(command: &str) -> (name: Option<&str>)
    ensures
        opt_str(name) == after_prefix(command@, "skill:"@),
{
    strip_prefix(command, "skill:")
}

proof fn lemma_with_command(
    list: Seq<CommandView>,
    name: Seq<char>,
    description: Seq<char>,
    hint: Seq<char>,
)
    ensures
        has_command(with_command(list, name, description, hint), name),
        list.is_prefix_of(with_command(list, name, description, hint)),
        forall|other: Seq<char>|
            has_command(list, other) ==> #[trigger] has_command(
                with_command(list, name, description, hint),
                other,
            ),
{
    let all = with_command(list, name, description, hint);
    if !has_command(list, name) {
        assert(all[list.len() as int].name == name);
    }
    assert forall|other: Seq<char>| has_command(list, other) implies #[trigger] has_command(
        all,
        other,
    ) by {
        let i = choose|i: int| 0 <= i < list.len() && (#[trigger] list[i]).name == other;
        assert(all[i].name == other);
    }
}

/// The commands that Prime runs without listing them are always on offer, and
/// what Prime lists stays as it is, in front of them.
pub proof fn built_in_commands_are_always_offered(data: JsonView, valid: Seq<Seq<char>>)
    requires
        command_entries(data) is Ok,
    ensures
        offered_commands(data, valid) is Ok,
        has_command(offered_commands(data, valid)->Ok_0, "compact"@),
        has_command(offered_commands(data, valid)->Ok_0, "refine"@),
        has_command(offered_commands(data, valid)->Ok_0, "goal"@),
        has_command(offered_commands(data, valid)->Ok_0, "autonomous"@),
        listed_commands(command_entries(data)->Ok_0, valid).is_prefix_of(
            offered_commands(data, valid)->Ok_0,
        ),
{
    let list = listed_commands(command_entries(data)->Ok_0, valid);
    let a = with_command(
        list,
        "compact"@,
        "Compact the session context"@,
        "optional instructions"@,
    );
    let b = with_command(
        a,
        "refine"@,
        "Refine Prime's continual harness"@,
        "optional instructions"@,
    );
    let c = with_command(
        b,
        "goal"@,
        "Set or view a persistent goal; pause, resume, or clear it"@,
        "objective or status/pause/resume/clear"@,
    );
    lemma_with_command(
        list,
        "compact"@,
        "Compact the session context"@,
        "optional instructions"@,
    );
    lemma_with_command(
        a,
        "refine"@,
        "Refine Prime's continual harness"@,
        "optional instructions"@,
    );
    lemma_with_command(
        b,
        "goal"@,
        "Set or view a persistent goal; pause, resume, or clear it"@,
        "objective or status/pause/resume/clear"@,
    );
    lemma_with_command(
        c,
        "autonomous"@,
        "Set or view autonomous mode"@,
        "status or on/off with options"@,
    );
}

/// A model is on offer with no level of thinking that it refuses, nor with one
/// that Prime does not know.
pub proof fn no_refused_level_is_offered(entry: JsonView, k: int)
    requires
        0 <= k < offered_levels(entry).len(),
    ensures
        prime_levels().contains(offered_levels(entry)[k]),
        entry.at("thinkingLevelMap"@).get(level_name(offered_levels(entry)[k])) != Some(
            JsonView::Null,
        ),
        entry.at("reasoning"@) == JsonView::Bool(true),
{
    let all = prime_levels().map_values(|level: ReasoningLevel| offered(entry, level));
    lemma_somes_from(all, k);
    let i = choose|i: int| 0 <= i < all.len() && all[i] == Some(#[trigger] somes(all)[k]);
    assert(prime_levels()[i] == offered_levels(entry)[k]);
}

/// The user can always choose the model that Prime is set up with: it comes
/// first.
pub proof fn the_default_model_comes_first(data: JsonView)
    requires
        offered_models(data) is Ok,
    ensures
        offered_models(data)->Ok_0.len() > 0,
        offered_models(data)->Ok_0[0] == default_model(),
{
}

} // verus!
