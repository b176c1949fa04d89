//! The page of the history: what is searched, listed, copied and deleted.

use crate::extraction::ExtractionSource;
use crate::manager::{
    add_choice, effects, emit, profile_at, profile_id_for_index, set_status, set_text, Manager,
    ManagerModel, UiAction, UiEffect,
};
use crate::manager_controls::Control;
use crate::manager_status::{
    in_language, said, status_in, status_text, StatusEvent, StatusOperation,
};
use crate::manager_text::{source_label, source_name, text_in, ui_text, TextKey};
use crate::settings::{
    optional_text, prompt_models, ConfigModel, PromptConfig, PromptModel, UiLanguage,
};
use crate::text::{blank, chars_of, is_blank, string_of, trim, trimmed};
use crate::utf16::{encode_utf16, wide};
use vstd::prelude::*;

verus! {

/// A translation of the history.
#[derive(Debug, PartialEq, Eq)]
pub struct HistoryEntry {
    pub id: i64,
    pub created_at_utc: String,
    pub source: ExtractionSource,
    pub target: String,
    pub context: Option<String>,
    pub output: String,
    pub prompt_id: String,
    pub model: String,
    pub served_from_cache: bool,
}

#[derive(Clone, Copy, Debug, PartialEq, Eq, Structural)]
pub enum HistoryOrder {
    NewestFirst,
    OldestFirst,
}

/// What the history is searched for.
#[derive(Debug, PartialEq, Eq)]
pub struct HistoryQuery {
    pub search: Option<String>,
    pub prompt_id: Option<String>,
    pub source: Option<ExtractionSource>,
    pub order: HistoryOrder,
}

/// The chosen filters of the history.
#[derive(Clone, Copy, Debug, PartialEq, Eq, Structural)]
pub struct HistorySelections {
    pub prompt: Option<usize>,
    pub source: Option<usize>,
    pub order: Option<usize>,
}

/// The text without white space around it, unless it is blank.
pub open spec fn nonempty_text(value: Seq<char>) -> Option<Seq<char>> {
    if is_blank(value) {
        None
    } else {
        Some(trim(value))
    }
}

pub fn nonempty(value: String) -> (text: Option<String>)
    ensures
        optional_text(text) == nonempty_text(value@),
{
    if blank(value.as_str()) {
        None
    } else {
        Some(trimmed(value.as_str()))
    }
}

/// The source that a filter stands for; the first one stands for all.
pub fn history_source_for_index(index: Option<usize>) -> (source: Option<ExtractionSource>)
    ensures
        source == match index {
            Some(1) => Some(ExtractionSource::UiaSelection),
            Some(2) => Some(ExtractionSource::UiaPoint),
            Some(3) => Some(ExtractionSource::Clipboard),
            Some(4) => Some(ExtractionSource::Ocr),
            _ => None,
        },
{
    match index {
        Some(1) => Some(ExtractionSource::UiaSelection),
        Some(2) => Some(ExtractionSource::UiaPoint),
        Some(3) => Some(ExtractionSource::Clipboard),
        Some(4) => Some(ExtractionSource::Ocr),
        _ => None,
    }
}

/// The profile that a filter stands for; the first one stands for all.
pub open spec fn filtered_profile(index: Option<usize>, profiles: Seq<PromptModel>) -> Option<
    Seq<char>,
> {
    match index {
        Some(i) => if i == 0 {
            None
        } else {
            profile_at(Some((i - 1) as usize), profiles)
        },
        None => None,
    }
}

pub fn selected_history_prompt(index: Option<usize>, profiles: &[PromptConfig]) -> (id: Option<
    String,
>)
    ensures
        optional_text(id) == filtered_profile(index, prompt_models(profiles@)),
{
    match index {
        Some(i) => if i == 0 {
            None
        } else {
            profile_id_for_index(Some(i - 1), profiles)
        },
        None => None,
    }
}

/// The index of a selected row, where there is one.
pub fn valid_history_index(selected: isize, length: usize) -> (index: Option<usize>)
    ensures
        index == if 0 <= selected < length {
            Some(selected as usize)
        } else {
            None
        },
{
    if selected < 0 {
        return None;
    }
    let index: usize = selected as usize;
    if index < length {
        Some(index)
    } else {
        None
    }
}

pub open spec fn breaks_line(ch: char) -> bool {
    ch == '\r' || ch == '\n' || ch == '\t'
}

/// The text with its breaks replaced by spaces.
pub open spec fn unbroken(text: Seq<char>) -> Seq<char> {
    text.map_values(
        |ch: char|
            if breaks_line(ch) {
                ' '
            } else {
                ch
            },
    )
}

/// The text on one line, cut where it is too long.
pub open spec fn one_line(text: Seq<char>) -> Seq<char> {
    if text.len() > 180 {
        unbroken(text).take(177) + "..."@
    } else {
        unbroken(text)
    }
}

pub fn single_line(value: &str) -> (line: String)
    ensures
        line@ == one_line(value@),
{
    let chars: Vec<char> = chars_of(value);
    let mut flat: Vec<char> = Vec::new();
    let mut i: usize = 0;
    while i < chars.len()
        invariant
            i <= chars@.len(),
            chars@ == value@,
            flat@ == unbroken(value@).take(i as int),
        decreases chars@.len() - i,
    {
        let ch: char = chars[i];
        if ch == '\r' || ch == '\n' || ch == '\t' {
            flat.push(' ');
        } else {
            flat.push(ch);
        }
        proof {
            assert(flat@ =~= unbroken(value@).take(i as int + 1));
        }
        i = i + 1;
    }
    proof {
        assert(flat@ =~= unbroken(value@));
    }
    if flat.len() > 180 {
        let mut line: String = string_of(flat.as_slice(), 0, 177);
        line.append("...");
        proof {
            assert(line@ =~= one_line(value@));
        }
        line
    } else {
        let line: String = string_of(flat.as_slice(), 0, flat.len());
        proof {
            assert(line@ =~= unbroken(value@));
        }
        line
    }
}

/// A row is one line of bounded length.
pub proof fn lemma_rows_are_single_lines(text: Seq<char>)
    ensures
        one_line(text).len() <= 180,
        forall|i: int| 0 <= i < one_line(text).len() ==> !breaks_line(#[trigger] one_line(text)[i]),
        text.len() <= 180 && (forall|i: int| 0 <= i < text.len() ==> !breaks_line(#[trigger] text[i]))
            ==> one_line(text) == text,
{
    reveal_strlit("...");
    if text.len() <= 180 && (forall|i: int|
        0 <= i < text.len() ==> !breaks_line(#[trigger] text[i])) {
        assert(one_line(text) =~= text);
    }
}

/// The row of an entry: its target and its output.
pub open spec fn row_text(entry: HistoryEntry) -> Seq<char> {
    one_line(entry.target@) + "  |  "@ + one_line(entry.output@)
}

pub fn format_history_row(entry: &HistoryEntry) -> (row: String)
    ensures
        row@ == row_text(*entry),
{
    let mut row: String = single_line(entry.target.as_str());
    row.append("  |  ");
    let output: String = single_line(entry.output.as_str());
    row.append(output.as_str());
    row
}

/// What is shown in place of a missing context.
pub open spec fn context_text(language: UiLanguage, entry: HistoryEntry) -> Seq<char> {
    match entry.context {
        Some(context) => context@,
        None => in_language(language, "(no context)"@, "（无上下文）"@),
    }
}

/// When, where from and how an entry was translated.
pub open spec fn meta_text(language: UiLanguage, entry: HistoryEntry) -> Seq<char> {
    entry.created_at_utc@ + " · "@ + source_name(language, entry.source) + " · "@
        + entry.prompt_id@ + " · "@ + entry.model@ + (if entry.served_from_cache {
        in_language(language, " · cache"@, " · 缓存"@)
    } else {
        seq![]
    })
}

fn entry_meta(language: UiLanguage, entry: &HistoryEntry) -> (text: String)
    ensures
        text@ == meta_text(language, *entry),
{
    let mut text: String = entry.created_at_utc.clone();
    text.append(" · ");
    text.append(source_label(language, entry.source));
    text.append(" · ");
    text.append(entry.prompt_id.as_str());
    text.append(" · ");
    text.append(entry.model.as_str());
    if entry.served_from_cache {
        text.append(said(language, " · cache", " · 缓存"));
    }
    proof {
        assert(text@ =~= meta_text(language, *entry));
    }
    text
}

/// The choices of the profile filter.
pub open spec fn filter_choices(profiles: Seq<PromptModel>) -> Seq<UiEffect> {
    profiles.map_values(
        |profile: PromptModel|
            UiEffect::Choice(Control::HistoryPrompt, profile.id + " — "@ + profile.name),
    )
}

/// The filter that stays chosen when there are `last + 1` of them.
pub open spec fn kept_choice(selected: Option<usize>, last: int) -> usize {
    match selected {
        Some(index) => if index <= last {
            index
        } else {
            last as usize
        },
        None => 0,
    }
}

fn keep_choice(selected: Option<usize>, last: usize) -> (index: usize)
    ensures
        index == kept_choice(selected, last as int),
{
    match selected {
        Some(index) => if index <= last {
            index
        } else {
            last
        },
        None => 0,
    }
}

pub open spec fn prompt_filter(config: ConfigModel, selected: Option<usize>) -> Seq<UiEffect> {
    seq![
        UiEffect::NoChoices(Control::HistoryPrompt),
        UiEffect::Choice(Control::HistoryPrompt, text_in(config.language, TextKey::AllPrompts)),
    ] + filter_choices(config.profiles) + seq![
        UiEffect::Chosen(
            Control::HistoryPrompt,
            kept_choice(selected, config.profiles.len() as int),
        ),
    ]
}

pub open spec fn source_filter(language: UiLanguage, selected: Option<usize>) -> Seq<UiEffect> {
    seq![
        UiEffect::NoChoices(Control::HistorySource),
        UiEffect::Choice(Control::HistorySource, text_in(language, TextKey::AllSources)),
        UiEffect::Choice(Control::HistorySource, text_in(language, TextKey::Selection)),
        UiEffect::Choice(Control::HistorySource, text_in(language, TextKey::Hover)),
        UiEffect::Choice(Control::HistorySource, text_in(language, TextKey::Clipboard)),
        UiEffect::Choice(Control::HistorySource, text_in(language, TextKey::Ocr)),
        UiEffect::Chosen(Control::HistorySource, kept_choice(selected, 4)),
    ]
}

pub open spec fn order_filter(language: UiLanguage, selected: Option<usize>) -> Seq<UiEffect> {
    seq![
        UiEffect::NoChoices(Control::HistoryOrder),
        UiEffect::Choice(Control::HistoryOrder, text_in(language, TextKey::Newest)),
        UiEffect::Choice(Control::HistoryOrder, text_in(language, TextKey::Oldest)),
        UiEffect::Chosen(Control::HistoryOrder, kept_choice(selected, 1)),
    ]
}

/// What the filters are filled with; a chosen one stays chosen where it can.
pub open spec fn history_filters(config: ConfigModel, selections: HistorySelections) -> Seq<
    UiEffect,
> {
    prompt_filter(config, selections.prompt) + source_filter(config.language, selections.source)
        + order_filter(config.language, selections.order)
}

impl ManagerModel {
    /// What is shown where no entry is selected.
    pub open spec fn cleared_detail(self) -> Seq<UiEffect> {
        seq![
            UiEffect::Text(Control::HistoryTarget, seq![]),
            UiEffect::Text(Control::HistoryContext, seq![]),
            UiEffect::Text(Control::HistoryOutput, seq![]),
        ] + (if self.history_loaded {
            seq![
                UiEffect::Text(
                    Control::HistoryMeta,
                    status_in(
                        self.config.language,
                        StatusEvent::HistoryCount { count: self.entries.len() as usize },
                    ),
                ),
            ]
        } else {
            seq![]
        })
    }

    /// What is shown of the selected entry.
    pub open spec fn detail(self, selected: int) -> Seq<UiEffect> {
        if 0 <= selected < self.entries.len() {
            let entry = self.entries[selected];
            seq![
                UiEffect::Text(Control::HistoryTarget, entry.target@),
                UiEffect::Text(Control::HistoryContext, context_text(self.config.language, entry)),
                UiEffect::Text(Control::HistoryOutput, entry.output@),
                UiEffect::Text(Control::HistoryMeta, meta_text(self.config.language, entry)),
            ]
        } else {
            self.cleared_detail()
        }
    }

    /// The list of the entries, with none selected.
    pub open spec fn listed(self) -> Seq<UiEffect> {
        seq![UiEffect::NoRows] + history_rows(self.entries) + self.cleared_detail()
    }

    /// The state once a search gave `entries`.
    pub open spec fn with_entries(self, entries: Seq<HistoryEntry>) -> ManagerModel {
        ManagerModel { entries, history_loaded: true, ..self }
    }
}

pub open spec fn history_rows(entries: Seq<HistoryEntry>) -> Seq<UiEffect> {
    entries.map_values(|entry: HistoryEntry| UiEffect::Row(row_text(entry)))
}

/// The words for a history that cannot be read.
pub open spec fn history_failure(language: UiLanguage, detail: Seq<char>) -> Seq<char> {
    in_language(language, "History unavailable: "@, "历史记录不可用："@) + detail
}

/// The question before an entry is deleted.
pub open spec fn deletion_question(language: UiLanguage, entry: HistoryEntry) -> Seq<char> {
    in_language(
        language,
        "Delete this history entry?\n\n"@,
        "删除这条历史记录？\n\n"@,
    ) + one_line(entry.target@)
}

/// An entry that is to be deleted once the question is answered.
#[derive(Debug, PartialEq, Eq)]
pub struct Deletion {
    pub id: i64,
    pub question: String,
}

/// What became of a deletion.
#[derive(Clone, Copy, Debug, PartialEq, Eq)]
pub enum DeletionReport<'a> {
    Cancelled,
    Deleted,
    AlreadyDeleted,
    Failed { detail: &'a str },
}

impl Manager {
    /// What the page asks the history for.
    pub fn history_query(&self, search: String, selections: HistorySelections) -> (query:
        HistoryQuery)
        ensures
            optional_text(query.search) == nonempty_text(search@),
            optional_text(query.prompt_id) == filtered_profile(
                selections.prompt,
                self@.config.profiles,
            ),
            query.source == match selections.source {
                Some(1) => Some(ExtractionSource::UiaSelection),
                Some(2) => Some(ExtractionSource::UiaPoint),
                Some(3) => Some(ExtractionSource::Clipboard),
                Some(4) => Some(ExtractionSource::Ocr),
                _ => None,
            },
            query.order == if selections.order == Some(1usize) {
                HistoryOrder::OldestFirst
            } else {
                HistoryOrder::NewestFirst
            },
    {
        HistoryQuery {
            search: nonempty(search),
            prompt_id: selected_history_prompt(
                selections.prompt,
                self.config.profiles.as_slice(),
            ),
            source: history_source_for_index(selections.source),
            order: match selections.order {
                Some(1) => HistoryOrder::OldestFirst,
                _ => HistoryOrder::NewestFirst,
            },
        }
    }

    pub fn populate_history_filters(
        &self,
        selections: HistorySelections,
        actions: &mut Vec<UiAction>,
    )
        ensures
            effects(final(actions)@) == effects(old(actions)@) + history_filters(
                self@.config,
                selections,
            ),
    {
        let ghost start = effects(old(actions)@);
        self.populate_prompt_filter(selections.prompt, actions);
        let language: UiLanguage = self.language();
        let ghost first = effects(actions@);
        emit(actions, UiAction::ResetChoices { control: Control::HistorySource });
        add_choice(actions, Control::HistorySource, ui_text(language, TextKey::AllSources));
        add_choice(actions, Control::HistorySource, ui_text(language, TextKey::Selection));
        add_choice(actions, Control::HistorySource, ui_text(language, TextKey::Hover));
        add_choice(actions, Control::HistorySource, ui_text(language, TextKey::Clipboard));
        add_choice(actions, Control::HistorySource, ui_text(language, TextKey::Ocr));
        let source: usize = keep_choice(selections.source, 4);
        emit(actions, UiAction::Choose { control: Control::HistorySource, index: source });
        proof {
            assert(effects(actions@) =~= first + source_filter(language, selections.source));
        }
        let ghost second = effects(actions@);
        emit(actions, UiAction::ResetChoices { control: Control::HistoryOrder });
        add_choice(actions, Control::HistoryOrder, ui_text(language, TextKey::Newest));
        add_choice(actions, Control::HistoryOrder, ui_text(language, TextKey::Oldest));
        let order: usize = keep_choice(selections.order, 1);
        emit(actions, UiAction::Choose { control: Control::HistoryOrder, index: order });
        proof {
            assert(effects(actions@) =~= second + order_filter(language, selections.order));
            assert(effects(actions@) =~= start + history_filters(self@.config, selections));
        }
    }

    fn populate_prompt_filter(&self, selected: Option<usize>, actions: &mut Vec<UiAction>)
        ensures
            effects(final(actions)@) == effects(old(actions)@) + prompt_filter(
                self@.config,
                selected,
            ),
    {
        let ghost start = effects(old(actions)@);
        let ghost models = prompt_models(self.config.profiles@);
        let language: UiLanguage = self.language();
        emit(actions, UiAction::ResetChoices { control: Control::HistoryPrompt });
        add_choice(actions, Control::HistoryPrompt, ui_text(language, TextKey::AllPrompts));
        let ghost head = seq![
            UiEffect::NoChoices(Control::HistoryPrompt),
            UiEffect::Choice(Control::HistoryPrompt, text_in(language, TextKey::AllPrompts)),
        ];
        let mut i: usize = 0;
        proof {
            assert(effects(actions@) =~= start + head + filter_choices(models.take(0)));
        }
        while i < self.config.profiles.len()
            invariant
                i <= self.config.profiles@.len(),
                models == prompt_models(self.config.profiles@),
                effects(actions@) == start + head + filter_choices(models.take(i as int)),
            decreases self.config.profiles@.len() - i,
        {
            let profile: &PromptConfig = &self.config.profiles[i];
            let mut label: String = profile.id.clone();
            label.append(" — ");
            label.append(profile.name.as_str());
            add_choice(actions, Control::HistoryPrompt, label.as_str());
            proof {
                assert(models[i as int] == self.config.profiles@[i as int]@);
                assert(filter_choices(models.take(i as int + 1)) =~= filter_choices(
                    models.take(i as int),
                ).push(UiEffect::Choice(Control::HistoryPrompt, label@)));
                assert(effects(actions@) =~= start + head + filter_choices(
                    models.take(i as int + 1),
                ));
            }
            i = i + 1;
        }
        let index: usize = keep_choice(selected, self.config.profiles.len());
        emit(actions, UiAction::Choose { control: Control::HistoryPrompt, index });
        proof {
            assert(models.take(models.len() as int) =~= models);
            assert(effects(actions@) =~= start + prompt_filter(self@.config, selected));
        }
    }

    pub fn clear_history_detail(&self, actions: &mut Vec<UiAction>)
        ensures
            effects(final(actions)@) == effects(old(actions)@) + self@.cleared_detail(),
    {
        let ghost start = effects(old(actions)@);
        let empty = String::new();
        proof {
            assert(empty@ =~= seq![]);
        }
        set_text(actions, Control::HistoryTarget, empty.as_str());
        set_text(actions, Control::HistoryContext, empty.as_str());
        set_text(actions, Control::HistoryOutput, empty.as_str());
        if self.history_loaded {
            let count: usize = self.history_entries.len();
            set_status(
                actions,
                Control::HistoryMeta,
                self.language(),
                StatusEvent::HistoryCount { count },
            );
        }
        proof {
            assert(effects(actions@) =~= start + self@.cleared_detail());
        }
    }

    /// Shows the selected entry, or nothing where none is selected.
    pub fn history_selection_changed(&self, selected: isize, actions: &mut Vec<UiAction>)
        ensures
            effects(final(actions)@) == effects(old(actions)@) + self@.detail(selected as int),
    {
        let ghost start = effects(old(actions)@);
        let language: UiLanguage = self.language();
        match valid_history_index(selected, self.history_entries.len()) {
            Some(index) => {
                let entry: &HistoryEntry = &self.history_entries[index];
                set_text(actions, Control::HistoryTarget, entry.target.as_str());
                match &entry.context {
                    Some(context) => {
                        set_text(actions, Control::HistoryContext, context.as_str());
                    },
                    None => {
                        set_text(
                            actions,
                            Control::HistoryContext,
                            said(language, "(no context)", "（无上下文）"),
                        );
                    },
                }
                set_text(actions, Control::HistoryOutput, entry.output.as_str());
                let meta: String = entry_meta(language, entry);
                set_text(actions, Control::HistoryMeta, meta.as_str());
                proof {
                    assert(effects(actions@) =~= start + self@.detail(selected as int));
                }
            },
            None => {
                self.clear_history_detail(actions);
            },
        }
    }

    /// Lists the entries, with none selected.
    pub fn populate_history_list(&self, actions: &mut Vec<UiAction>)
        ensures
            effects(final(actions)@) == effects(old(actions)@) + self@.listed(),
    {
        let ghost start = effects(old(actions)@);
        let ghost entries = self.history_entries@;
        emit(actions, UiAction::ResetRows);
        let mut i: usize = 0;
        proof {
            assert(effects(actions@) =~= start + seq![UiEffect::NoRows] + history_rows(
                entries.take(0),
            ));
        }
        while i < self.history_entries.len()
            invariant
                i <= self.history_entries@.len(),
                entries == self.history_entries@,
                effects(actions@) == start + seq![UiEffect::NoRows] + history_rows(
                    entries.take(i as int),
                ),
            decreases self.history_entries@.len() - i,
        {
            let row: String = format_history_row(&self.history_entries[i]);
            emit(actions, UiAction::AddRow { text: row });
            proof {
                assert(history_rows(entries.take(i as int + 1)) =~= history_rows(
                    entries.take(i as int),
                ).push(UiEffect::Row(row_text(entries[i as int]))));
                assert(effects(actions@) =~= start + seq![UiEffect::NoRows] + history_rows(
                    entries.take(i as int + 1),
                ));
            }
            i = i + 1;
        }
        self.clear_history_detail(actions);
        proof {
            assert(entries.take(entries.len() as int) =~= entries);
            assert(effects(actions@) =~= start + self@.listed());
        }
    }

    /// Why the history cannot be opened without a folder for it.
    pub fn history_path_error(&self) -> (reason: String)
        ensures
            reason@ == status_in(
                self@.config.language,
                StatusEvent::LocalAppDataUnavailable { operation: StatusOperation::History },
            ),
    {
        status_text(
            self.language(),
            StatusEvent::LocalAppDataUnavailable { operation: StatusOperation::History },
        )
    }

    /// Takes over the result of a search.
    pub fn refresh_history(
        &mut self,
        result: Result<Vec<HistoryEntry>, String>,
        actions: &mut Vec<UiAction>,
    )
        requires
            old(self)@.wf(),
        ensures
            match result {
                Ok(entries) => {
                    &&& final(self)@ == old(self)@.with_entries(entries@)
                    &&& effects(final(actions)@) == effects(old(actions)@) + final(self)@.listed()
                        + seq![
                        UiEffect::Text(
                            Control::HistoryMeta,
                            status_in(
                                old(self)@.config.language,
                                StatusEvent::HistoryCount { count: entries@.len() as usize },
                            ),
                        ),
                        old(self)@.status(StatusEvent::HistoryRefreshed),
                    ]
                },
                Err(detail) => {
                    let message = history_failure(old(self)@.config.language, detail@);
                    &&& final(self)@ == old(self)@.with_entries(seq![])
                    &&& effects(final(actions)@) == effects(old(actions)@) + final(self)@.listed()
                        + final(self)@.cleared_detail() + seq![
                        UiEffect::Text(Control::HistoryMeta, message),
                        UiEffect::Text(Control::Status, message),
                    ]
                },
            },
            final(self)@.wf(),
    {
        let ghost start = effects(old(actions)@);
        let language: UiLanguage = self.language();
        self.history_loaded = true;
        match result {
            Ok(entries) => {
                let count: usize = entries.len();
                self.history_entries = entries;
                self.populate_history_list(actions);
                let ghost listed = effects(actions@);
                set_status(
                    actions,
                    Control::HistoryMeta,
                    language,
                    StatusEvent::HistoryCount { count },
                );
                set_status(actions, Control::Status, language, StatusEvent::HistoryRefreshed);
                proof {
                    assert(effects(actions@) =~= listed + seq![
                        UiEffect::Text(
                            Control::HistoryMeta,
                            status_in(language, StatusEvent::HistoryCount { count }),
                        ),
                        old(self)@.status(StatusEvent::HistoryRefreshed),
                    ]);
                }
            },
            Err(detail) => {
                self.history_entries = Vec::new();
                proof {
                    assert(self.history_entries@ =~= seq![]);
                }
                self.populate_history_list(actions);
                self.clear_history_detail(actions);
                let ghost cleared = effects(actions@);
                let message: String = status_text(
                    language,
                    StatusEvent::HistoryUnavailable { detail: detail.as_str() },
                );
                set_text(actions, Control::HistoryMeta, message.as_str());
                set_text(actions, Control::Status, message.as_str());
                proof {
                    assert(message@ =~= history_failure(language, detail@));
                    assert(effects(actions@) =~= cleared + seq![
                        UiEffect::Text(Control::HistoryMeta, message@),
                        UiEffect::Text(Control::Status, message@),
                    ]);
                }
            },
        }
    }

    /// The output of the selected entry; without one, that is reported.
    pub fn copy_history_output(&self, selected: isize, actions: &mut Vec<UiAction>) -> (output:
        Option<String>)
        ensures
            if 0 <= selected < self@.entries.len() {
                &&& optional_text(output) == Some(self@.entries[selected as int].output@)
                &&& final(actions)@ == old(actions)@
            } else {
                &&& output is None
                &&& effects(final(actions)@) == effects(old(actions)@).push(
                    self@.status(StatusEvent::SelectHistoryEntry),
                )
            },
    {
        match valid_history_index(selected, self.history_entries.len()) {
            Some(index) => Some(self.history_entries[index].output.clone()),
            None => {
                set_status(
                    actions,
                    Control::Status,
                    self.language(),
                    StatusEvent::SelectHistoryEntry,
                );
                None
            },
        }
    }

    /// Reports a copied output, or why it was not copied.
    pub fn report_copy(&self, failure: Option<&str>, actions: &mut Vec<UiAction>)
        ensures
            effects(final(actions)@) == effects(old(actions)@).push(
                match failure {
                    Some(detail) => self@.status(StatusEvent::CopyOutputFailed { detail }),
                    None => self@.status(StatusEvent::OutputCopied),
                },
            ),
    {
        let language: UiLanguage = self.language();
        match failure {
            Some(detail) => {
                set_status(
                    actions,
                    Control::Status,
                    language,
                    StatusEvent::CopyOutputFailed { detail },
                );
            },
            None => {
                set_status(actions, Control::Status, language, StatusEvent::OutputCopied);
            },
        }
    }

    /// The entry to delete and the question to ask first; without a selected
    /// entry, that is reported.
    pub fn delete_history(&self, selected: isize, actions: &mut Vec<UiAction>) -> (deletion: Option<
        Deletion,
    >)
        ensures
            if 0 <= selected < self@.entries.len() {
                &&& deletion matches Some(asked)
                &&& asked.id == self@.entries[selected as int].id
                &&& asked.question@ == deletion_question(
                    self@.config.language,
                    self@.entries[selected as int],
                )
                &&& final(actions)@ == old(actions)@
            } else {
                &&& deletion is None
                &&& effects(final(actions)@) == effects(old(actions)@).push(
                    self@.status(StatusEvent::SelectHistoryEntry),
                )
            },
    {
        let language: UiLanguage = self.language();
        match valid_history_index(selected, self.history_entries.len()) {
            Some(index) => {
                let entry: &HistoryEntry = &self.history_entries[index];
                let target: String = single_line(entry.target.as_str());
                let question: String = status_text(
                    language,
                    StatusEvent::DeleteHistoryConfirm { target: target.as_str() },
                );
                proof {
                    assert(question@ =~= deletion_question(language, *entry));
                }
                Some(Deletion { id: entry.id, question })
            },
            None => {
                set_status(
                    actions,
                    Control::Status,
                    language,
                    StatusEvent::SelectHistoryEntry,
                );
                None
            },
        }
    }

    /// Reports what became of a deletion. Returns whether the history is to be
    /// searched again.
    pub fn finish_delete_history(&self, report: DeletionReport<'_>, actions: &mut Vec<UiAction>) -> (
        refresh: bool)
        ensures
            refresh == (report is Deleted),
            effects(final(actions)@) == effects(old(actions)@).push(
                self@.status(
                    match report {
                        DeletionReport::Cancelled => StatusEvent::DeletionCancelled,
                        DeletionReport::Deleted => StatusEvent::HistoryEntryDeleted,
                        DeletionReport::AlreadyDeleted => StatusEvent::HistoryEntryAlreadyDeleted,
                        DeletionReport::Failed { detail } => StatusEvent::DeleteHistoryFailed {
                            detail,
                        },
                    },
                ),
            ),
    {
        let (event, refresh) = match report {
            DeletionReport::Cancelled => (StatusEvent::DeletionCancelled, false),
            DeletionReport::Deleted => (StatusEvent::HistoryEntryDeleted, true),
            DeletionReport::AlreadyDeleted => (StatusEvent::HistoryEntryAlreadyDeleted, false),
            DeletionReport::Failed { detail } => (StatusEvent::DeleteHistoryFailed { detail }, false),
        };
        set_status(actions, Control::Status, self.language(), event);
        refresh
    }
}

/// The units that are put on the clipboard for a text, and their size in bytes;
/// the words for a text that is too large.
pub fn clipboard_payload(value: &str, language: UiLanguage) -> (payload: Result<
    (Vec<u16>, usize),
    String,
>)
    ensures
        match payload {
            Ok((units, bytes)) => units@ == encode_utf16(value@).push(0) && bytes == 2
                * units@.len(),
            Err(reason) => 2 * (encode_utf16(value@).len() + 1) > usize::MAX && reason@
                == status_in(language, StatusEvent::OutputTooLarge),
        },
{
    let units: Vec<u16> = wide(value);
    match units.len().checked_mul(2) {
        Some(bytes) => Ok((units, bytes)),
        None => Err(status_text(language, StatusEvent::OutputTooLarge)),
    }
}

/// What is done to put a text on the clipboard, in this order.
#[derive(Clone, Copy, Debug, PartialEq, Eq, Structural)]
pub enum PutStep {
    Allocate,
    Lock,
    Open,
    /// Empty the clipboard and hand the memory over.
    Replace,
}

/// What follows a step.
#[derive(Clone, Copy, Debug, PartialEq, Eq, Structural)]
pub enum PutNext {
    Perform(PutStep),
    /// Close the clipboard or not, and free the memory or not.
    End { close: bool, free: bool },
}

pub open spec fn put_after(step: PutStep, succeeded: bool) -> PutNext {
    match (step, succeeded) {
        (PutStep::Allocate, true) => PutNext::Perform(PutStep::Lock),
        (PutStep::Allocate, false) => PutNext::End { close: false, free: false },
        (PutStep::Lock, true) => PutNext::Perform(PutStep::Open),
        (PutStep::Lock, false) => PutNext::End { close: false, free: true },
        (PutStep::Open, true) => PutNext::Perform(PutStep::Replace),
        (PutStep::Open, false) => PutNext::End { close: false, free: true },
        (PutStep::Replace, true) => PutNext::End { close: true, free: false },
        (PutStep::Replace, false) => PutNext::End { close: true, free: true },
    }
}

pub fn copy_text_to_clipboard(step: PutStep, succeeded: bool) -> (next: PutNext)
    ensures
        next == put_after(step, succeeded),
{
    match (step, succeeded) {
        (PutStep::Allocate, true) => PutNext::Perform(PutStep::Lock),
        (PutStep::Allocate, false) => PutNext::End { close: false, free: false },
        (PutStep::Lock, true) => PutNext::Perform(PutStep::Open),
        (PutStep::Lock, false) => PutNext::End { close: false, free: true },
        (PutStep::Open, true) => PutNext::Perform(PutStep::Replace),
        (PutStep::Open, false) => PutNext::End { close: false, free: true },
        (PutStep::Replace, true) => PutNext::End { close: true, free: false },
        (PutStep::Replace, false) => PutNext::End { close: true, free: true },
    }
}

/// Memory that was allocated is either handed over or freed, and a clipboard
/// that was opened is closed.
pub proof fn lemma_put_leaves_nothing_behind(step: PutStep, succeeded: bool)
    ensures
        put_after(step, succeeded) matches PutNext::End { close, free } ==> {
            let handed_over = step == PutStep::Replace && succeeded;
            let allocated = step != PutStep::Allocate || succeeded;
            let opened = step == PutStep::Replace;
            &&& free == (allocated && !handed_over)
            &&& close == opened
        },
{
}

// What the rules and operations are for.

/// A row keeps the beginning of a text: every character in its place, a line
/// break or tab as a space, and three dots where the text goes on.
pub proof fn lemma_a_row_keeps_the_beginning(text: Seq<char>, i: int)
    ensures
        text.len() <= 180 ==> one_line(text).len() == text.len(),
        text.len() > 180 ==> one_line(text).len() == 180 && one_line(text).skip(177) == "..."@,
        0 <= i < text.len() && (i < 177 || text.len() <= 180) ==> one_line(text)[i] == (if text[i]
            == '\n' || text[i] == '\r' || text[i] == '\t' {
            ' '
        } else {
            text[i]
        }),
{
    reveal_strlit("...");
    if text.len() > 180 {
        assert(one_line(text).skip(177) =~= "..."@);
        if 0 <= i < 177 {
            assert(one_line(text)[i] == unbroken(text)[i]);
        }
    }
}

/// A row shows the target before the output.
pub proof fn lemma_a_row_shows_target_and_output(entry: HistoryEntry)
    ensures
        ({
            let row = row_text(entry);
            let target = one_line(entry.target@);
            let output = one_line(entry.output@);
            &&& row.len() == target.len() + 5 + output.len()
            &&& row.take(target.len() as int) == target
            &&& row.skip(target.len() as int + 5) == output
        }),
{
    reveal_strlit("  |  ");
    let row = row_text(entry);
    assert(row.take(one_line(entry.target@).len() as int) =~= one_line(entry.target@));
    assert(row.skip(one_line(entry.target@).len() as int + 5) =~= one_line(entry.output@));
}

/// The list shows one row for each entry, in the order of the entries, and the
/// details are empty until one is selected; the selected entry's own texts are
/// shown then.
pub proof fn lemma_the_list_shows_every_entry(state: ManagerModel, i: int)
    requires
        0 <= i < state.entries.len(),
    ensures
        state.listed()[0] == UiEffect::NoRows,
        state.listed()[i + 1] == UiEffect::Row(row_text(state.entries[i])),
        state.listed()[state.entries.len() as int + 1] == UiEffect::Text(
            Control::HistoryTarget,
            seq![],
        ),
        state.detail(i)[0] == UiEffect::Text(Control::HistoryTarget, state.entries[i].target@),
        state.detail(i)[2] == UiEffect::Text(Control::HistoryOutput, state.entries[i].output@),
        state.entries[i].context matches Some(context) ==> state.detail(i)[1] == UiEffect::Text(
            Control::HistoryContext,
            context@,
        ),
        state.detail(-1) == state.cleared_detail(),
        state.detail(state.entries.len() as int) == state.cleared_detail(),
{
    let rows = history_rows(state.entries);
    assert(rows.len() == state.entries.len());
    assert(state.listed()[i + 1] == rows[i]);
}

/// Each filter offers everything first. The entries behind it are the profiles
/// in order, and a filter that was set stays where it was as far as there are
/// entries.
pub proof fn lemma_filters_offer_everything_first(
    config: ConfigModel,
    selected: Option<usize>,
    i: int,
)
    requires
        config.profiles.len() < usize::MAX,
    ensures
        filtered_profile(Some(0), config.profiles) is None,
        filtered_profile(None, config.profiles) is None,
        0 <= i < config.profiles.len() ==> filtered_profile(Some((i + 1) as usize), config.profiles)
            == Some(config.profiles[i].id),
        prompt_filter(config, selected).len() == config.profiles.len() + 3,
        0 <= i < config.profiles.len() ==> prompt_filter(config, selected)[i + 2]
            == UiEffect::Choice(
            Control::HistoryPrompt,
            config.profiles[i].id + " — "@ + config.profiles[i].name,
        ),
        kept_choice(None, i) == 0,
        selected matches Some(index) ==> (0 <= index <= i ==> kept_choice(selected, i) == index),
        selected matches Some(index) ==> (0 <= i < index ==> kept_choice(selected, i) == i),
{
    let offered = filter_choices(config.profiles);
    assert(offered.len() == config.profiles.len());
    if 0 <= i < config.profiles.len() {
        assert(prompt_filter(config, selected)[i + 2] == offered[i]);
    }
}

/// A query asks for what the filters say: the entered words without the space
/// around them, the chosen profile and source, and the newest first unless the
/// oldest were asked for.
pub proof fn lemma_a_query_asks_for_what_is_chosen(
    manager: Manager,
    search: String,
    selections: HistorySelections,
    query: HistoryQuery,
)
    requires
        call_ensures(Manager::history_query, (&manager, search, selections), query),
    ensures
        is_blank(search@) <==> query.search is None,
        query.search matches Some(words) ==> words@ == trim(search@),
        selections.source is None || selections.source == Some(0usize) ==> query.source is None,
        query.source == Some(ExtractionSource::UiaSelection) <==> selections.source == Some(1usize),
        query.source == Some(ExtractionSource::UiaPoint) <==> selections.source == Some(2usize),
        query.source == Some(ExtractionSource::Clipboard) <==> selections.source == Some(3usize),
        query.source == Some(ExtractionSource::Ocr) <==> selections.source == Some(4usize),
        query.order == HistoryOrder::OldestFirst <==> selections.order == Some(1usize),
        query.prompt_id matches Some(id) ==> (selections.prompt matches Some(index) && 1 <= index
            && index <= manager@.config.profiles.len() && manager@.config.profiles[index - 1].id
            == id@),
        selections.prompt matches Some(index) ==> (1 <= index <= manager@.config.profiles.len()
            ==> query.prompt_id is Some),
{
}

/// The entries that were read replace those shown; where they could not be
/// read none are, and the reason is told at the end.
pub proof fn lemma_the_entries_read_are_shown(
    manager: &mut Manager,
    result: Result<Vec<HistoryEntry>, String>,
    actions: &mut Vec<UiAction>,
    outcome: (),
)
    requires
        call_ensures(Manager::refresh_history, (manager, result, actions), outcome),
    ensures
        result matches Ok(entries) ==> final(manager)@.entries == entries@,
        result is Err ==> final(manager)@.entries.len() == 0,
        final(manager)@.history_loaded,
        final(manager)@.config == old(manager)@.config,
        final(manager)@.draft == old(manager)@.draft,
        final(manager)@.page == old(manager)@.page,
        result matches Err(detail) ==> effects(final(actions)@).last() == UiEffect::Text(
            Control::Status,
            history_failure(old(manager)@.config.language, detail@),
        ),
{
}

/// What is copied is the whole output of the selected entry, and what is asked
/// to be deleted is that entry; without one nothing is.
pub proof fn lemma_the_selected_entry_is_meant(
    manager: Manager,
    selected: isize,
    copying: &mut Vec<UiAction>,
    deleting: &mut Vec<UiAction>,
    output: Option<String>,
    deletion: Option<Deletion>,
)
    requires
        call_ensures(Manager::copy_history_output, (&manager, selected, copying), output),
        call_ensures(Manager::delete_history, (&manager, selected, deleting), deletion),
    ensures
        0 <= selected < manager@.entries.len() ==> {
            let entry = manager@.entries[selected as int];
            &&& output matches Some(copied) && copied@ == entry.output@
            &&& deletion matches Some(asked) && asked.id == entry.id
        },
        !(0 <= selected < manager@.entries.len()) ==> output is None && deletion is None,
        output is None ==> effects(final(copying)@).len() == effects(old(copying)@).len() + 1,
{
}

/// The list is read again only where an entry was deleted.
pub proof fn lemma_only_a_deletion_reads_the_list_again(
    manager: Manager,
    report: DeletionReport,
    actions: &mut Vec<UiAction>,
    refresh: bool,
)
    requires
        call_ensures(Manager::finish_delete_history, (&manager, report, actions), refresh),
    ensures
        refresh <==> report is Deleted,
        effects(final(actions)@).len() == effects(old(actions)@).len() + 1,
        effects(final(actions)@).drop_last() == effects(old(actions)@),
        report is Cancelled ==> effects(final(actions)@).last() == manager@.status(
            StatusEvent::DeletionCancelled,
        ),
{
    assert(effects(final(actions)@).drop_last() =~= effects(old(actions)@));
}

/// A copied text is put on the clipboard as its units and a closing zero, two
/// bytes each.
pub proof fn lemma_a_text_is_put_with_its_end(
    value: &str,
    language: UiLanguage,
    payload: Result<(Vec<u16>, usize), String>,
)
    requires
        call_ensures(clipboard_payload, (value, language), payload),
    ensures
        payload matches Ok((units, bytes)) ==> bytes == 2 * (encode_utf16(value@).len() + 1)
            && units@.last() == 0 && units@.drop_last() == encode_utf16(value@),
        2 * (encode_utf16(value@).len() + 1) <= usize::MAX ==> payload is Ok,
{
}

/// Putting a text on the clipboard goes in order.
pub proof fn lemma_a_text_is_put_in_order()
    ensures
        put_after(PutStep::Allocate, true) == PutNext::Perform(PutStep::Lock),
        put_after(PutStep::Lock, true) == PutNext::Perform(PutStep::Open),
        put_after(PutStep::Open, true) == PutNext::Perform(PutStep::Replace),
        put_after(PutStep::Replace, true) is End,
        put_after(PutStep::Allocate, false) is End,
        put_after(PutStep::Lock, false) is End,
        put_after(PutStep::Open, false) is End,
{
}

/// The entries of the source filter name the sources that they stand for, and
/// so do those of the order.
pub proof fn lemma_filters_name_what_they_stand_for(
    language: UiLanguage,
    first: Option<ExtractionSource>,
    second: Option<ExtractionSource>,
    third: Option<ExtractionSource>,
    fourth: Option<ExtractionSource>,
    selected: Option<usize>,
)
    requires
        call_ensures(history_source_for_index, (Some(1),), first),
        call_ensures(history_source_for_index, (Some(2),), second),
        call_ensures(history_source_for_index, (Some(3),), third),
        call_ensures(history_source_for_index, (Some(4),), fourth),
    ensures
        first == Some(ExtractionSource::UiaSelection) && source_filter(language, selected)[2]
            == UiEffect::Choice(Control::HistorySource, text_in(language, TextKey::Selection)),
        second == Some(ExtractionSource::UiaPoint) && source_filter(language, selected)[3]
            == UiEffect::Choice(Control::HistorySource, text_in(language, TextKey::Hover)),
        third == Some(ExtractionSource::Clipboard) && source_filter(language, selected)[4]
            == UiEffect::Choice(Control::HistorySource, text_in(language, TextKey::Clipboard)),
        fourth == Some(ExtractionSource::Ocr) && source_filter(language, selected)[5]
            == UiEffect::Choice(Control::HistorySource, text_in(language, TextKey::Ocr)),
        order_filter(language, selected)[1] == UiEffect::Choice(
            Control::HistoryOrder,
            text_in(language, TextKey::Newest),
        ),
        order_filter(language, selected)[2] == UiEffect::Choice(
            Control::HistoryOrder,
            text_in(language, TextKey::Oldest),
        ),
{
}

/// The details of an entry name when, from what, with which prompt and model it
/// was made, in this order, and whether it came from the cache.
pub proof fn lemma_the_details_name_what_an_entry_is(language: UiLanguage, entry: HistoryEntry)
    ensures
        ({
            let text = meta_text(language, entry);
            let start = entry.created_at_utc@ + " · "@ + source_name(language, entry.source)
                + " · "@ + entry.prompt_id@ + " · "@ + entry.model@;
            &&& start.is_prefix_of(text)
            &&& text == start <==> !entry.served_from_cache
        }),
        entry.context is None ==> context_text(UiLanguage::English, entry) == "(no context)"@,
        entry.context matches Some(context) ==> context_text(language, entry) == context@,
        deletion_question(language, entry).len() > one_line(entry.target@).len()
            && deletion_question(
            language,
            entry,
        ).skip(deletion_question(language, entry).len() - one_line(entry.target@).len())
            == one_line(
            entry.target@,
        ),
{
    reveal_strlit(" · cache");
    reveal_strlit(" · 缓存");
    reveal_strlit("Delete this history entry?\n\n");
    reveal_strlit("删除这条历史记录？\n\n");
    let text = meta_text(language, entry);
    let start = entry.created_at_utc@ + " · "@ + source_name(language, entry.source) + " · "@
        + entry.prompt_id@ + " · "@ + entry.model@;
    assert(start =~= text.subrange(0, start.len() as int));
    if entry.served_from_cache {
        assert(text.len() > start.len());
    } else {
        assert(text =~= start);
    }
    let question = deletion_question(language, entry);
    assert(question.skip(question.len() - one_line(entry.target@).len()) =~= one_line(
        entry.target@,
    ));
}

/// Only an index into the list is one.
pub proof fn lemma_only_an_entry_can_be_selected(
    selected: isize,
    length: usize,
    index: Option<usize>,
)
    requires
        call_ensures(valid_history_index, (selected, length), index),
    ensures
        index matches Some(at) ==> at == selected && at < length,
        0 <= selected < length ==> index is Some,
        selected < 0 ==> index is None,
{
}

/// Copying a text to the clipboard moves by the steps of the model, and how it
/// ended is told.
pub proof fn lemma_copying_is_told(
    step: PutStep,
    succeeded: bool,
    next: PutNext,
    manager: Manager,
    actions: &mut Vec<UiAction>,
    others: &mut Vec<UiAction>,
    detail: &str,
    copied: (),
    failed: (),
)
    requires
        call_ensures(copy_text_to_clipboard, (step, succeeded), next),
        call_ensures(Manager::report_copy, (&manager, None, actions), copied),
        call_ensures(Manager::report_copy, (&manager, Some(detail), others), failed),
    ensures
        next == put_after(step, succeeded),
        effects(final(actions)@).last() == manager@.status(StatusEvent::OutputCopied),
        effects(final(others)@).last() == manager@.status(StatusEvent::CopyOutputFailed { detail }),
{
}

} // verus!
