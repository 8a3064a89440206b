//! Hooks declared in settings files.

use vstd::prelude::*;
use vstd::string::*;
use vstd::utf8::encode_utf8;
use crate::text::{
    concat_text, contains_text, decimal, decimal_text, first_word, first_word_of, has_infix,
    last_segment, last_segment_of, lowercase, lowercase_of, push_char, same_text,
};
use crate::scanner::weight::clamp;
use crate::types::{lemma_reordered_rows, permutes_rows, sort_by_name, sorted_by_name, InventoryItem, ItemRarity, ItemSource, ItemType};

verus! {

/// The event a hook runs on.
#[derive(Debug, Clone, Copy, PartialEq, Eq, Structural)]
pub enum HookEvent {
    /// Before a tool runs.
    PreToolUse,
    /// After a tool ran.
    PostToolUse,
    /// When a session starts.
    SessionStart,
    /// On exit.
    Stop,
    /// Before user input is processed.
    UserPromptSubmit,
    /// On a permission dialog.
    PermissionRequest,
}

/// The name of an event as settings files write it.
pub open spec fn event_name(e: HookEvent) -> Seq<char> {
    match e {
        HookEvent::PreToolUse => "PreToolUse"@,
        HookEvent::PostToolUse => "PostToolUse"@,
        HookEvent::SessionStart => "SessionStart"@,
        HookEvent::Stop => "Stop"@,
        HookEvent::UserPromptSubmit => "UserPromptSubmit"@,
        HookEvent::PermissionRequest => "PermissionRequest"@,
    }
}

/// The event a settings file names `name`, if any.
pub open spec fn event_of(name: Seq<char>) -> Option<HookEvent> {
    if name == "PreToolUse"@ {
        Some(HookEvent::PreToolUse)
    } else if name == "PostToolUse"@ {
        Some(HookEvent::PostToolUse)
    } else if name == "SessionStart"@ {
        Some(HookEvent::SessionStart)
    } else if name == "Stop"@ {
        Some(HookEvent::Stop)
    } else if name == "UserPromptSubmit"@ {
        Some(HookEvent::UserPromptSubmit)
    } else if name == "PermissionRequest"@ {
        Some(HookEvent::PermissionRequest)
    } else {
        None
    }
}

impl HookEvent {
    /// The event named `s`, if any.
    pub fn from_str(s: &str) -> (r: Option<HookEvent>)
        ensures
            r == event_of(s@),
    {
        if same_text(s, "PreToolUse") {
            Some(HookEvent::PreToolUse)
        } else if same_text(s, "PostToolUse") {
            Some(HookEvent::PostToolUse)
        } else if same_text(s, "SessionStart") {
            Some(HookEvent::SessionStart)
        } else if same_text(s, "Stop") {
            Some(HookEvent::Stop)
        } else if same_text(s, "UserPromptSubmit") {
            Some(HookEvent::UserPromptSubmit)
        } else if same_text(s, "PermissionRequest") {
            Some(HookEvent::PermissionRequest)
        } else {
            None
        }
    }

    /// What hooks of this event do.
    pub fn description(&self) -> (r: &'static str)
        ensures
            r@ == event_description(*self),
    {
        match self {
            HookEvent::PreToolUse => "Guards operations before execution",
            HookEvent::PostToolUse => "Runs after tool execution (formatting, linting)",
            HookEvent::SessionStart => "Injects context at session start",
            HookEvent::Stop => "Intercepts exit attempts",
            HookEvent::UserPromptSubmit => "Processes user input before the assistant",
            HookEvent::PermissionRequest => "Handles permission requests",
        }
    }

    /// The name of the event as settings files write it.
    pub fn as_str(&self) -> (r: &'static str)
        ensures
            r@ == event_name(*self),
    {
        match self {
            HookEvent::PreToolUse => "PreToolUse",
            HookEvent::PostToolUse => "PostToolUse",
            HookEvent::SessionStart => "SessionStart",
            HookEvent::Stop => "Stop",
            HookEvent::UserPromptSubmit => "UserPromptSubmit",
            HookEvent::PermissionRequest => "PermissionRequest",
        }
    }

    /// Hooks of every event fill the one hooks slot.
    pub fn item_type(&self) -> (r: ItemType)
        ensures
            r == ItemType::Hooks,
    {
        ItemType::Hooks
    }
}

/// Which settings file a hook comes from.
#[derive(Debug, Clone, Copy, PartialEq, Eq, Structural)]
pub enum HookScope {
    /// The user's settings.
    User,
    /// The project's settings.
    Project,
}

/// The name of a hook scope in item ids.
pub open spec fn hook_scope_name(s: HookScope) -> Seq<char> {
    match s {
        HookScope::User => "user"@,
        HookScope::Project => "project"@,
    }
}

impl HookScope {
    /// The name of the scope in item ids.
    pub fn as_str(&self) -> (r: &'static str)
        ensures
            r@ == hook_scope_name(*self),
    {
        match self {
            HookScope::User => "user",
            HookScope::Project => "project",
        }
    }
}

/// The rarity of a hook: guards with a matcher and complex commands are
/// rare, formatting hooks uncommon, the rest common.
pub open spec fn hook_rarity(event: HookEvent, has_matcher: bool, command: Seq<char>) -> ItemRarity {
    if event == HookEvent::PreToolUse && has_matcher {
        ItemRarity::Rare
    } else if has_infix(command, "&&"@) || encode_utf8(command).len() > 50 {
        ItemRarity::Rare
    } else if event == HookEvent::PostToolUse {
        ItemRarity::Uncommon
    } else {
        ItemRarity::Common
    }
}

/// Rarity of a hook from its event, whether it has a matcher, and its command.
pub fn determine_hook_rarity(event: &HookEvent, has_matcher: bool, command: &str) -> (r: ItemRarity)
    ensures
        r == hook_rarity(*event, has_matcher, command@),
{
    if *event == HookEvent::PreToolUse && has_matcher {
        return ItemRarity::Rare;
    }
    if contains_text(command, "&&") || command.as_bytes().len() > 50 {
        return ItemRarity::Rare;
    }
    if *event == HookEvent::PostToolUse {
        return ItemRarity::Uncommon;
    }
    ItemRarity::Common
}

/// Token weight of a hook: 500 for the hook itself and a token for every
/// four bytes of its command, at most 5000.
pub open spec fn hook_weight(command: Seq<char>) -> int {
    clamp((500 + encode_utf8(command).len() / 4) as int, 500, 5000)
}

/// Token weight of a hook: 500 for the hook itself and a token for every
/// four bytes of its command, at most 5000.
pub fn estimate_hook_weight(command: &str) -> (r: u32)
    ensures
        r == hook_weight(command@),
{
    let tokens = command.as_bytes().len() / 4;
    if tokens >= 4500 {
        5000
    } else {
        500 + tokens as u32
    }
}

/// The description of a hook: what its event does, what it matches, and the
/// command it runs.
pub open spec fn hook_description(event: HookEvent, matcher: Option<Seq<char>>, command: Seq<char>) -> Seq<char> {
    match matcher {
        Some(m) => event_description(event) + ". Matches: "@ + m + ". Runs: "@ + command,
        None => event_description(event) + ". Runs: "@ + command,
    }
}

/// What hooks of an event do.
pub open spec fn event_description(e: HookEvent) -> Seq<char> {
    match e {
        HookEvent::PreToolUse => "Guards operations before execution"@,
        HookEvent::PostToolUse => "Runs after tool execution (formatting, linting)"@,
        HookEvent::SessionStart => "Injects context at session start"@,
        HookEvent::Stop => "Intercepts exit attempts"@,
        HookEvent::UserPromptSubmit => "Processes user input before the assistant"@,
        HookEvent::PermissionRequest => "Handles permission requests"@,
    }
}

/// A hook's command as a settings file writes it.
pub enum CommandValue {
    /// A string.
    Text(String),
    /// A list; entries that are not strings are `None`.
    Parts(Vec<Option<String>>),
    /// Any other value, in its compact JSON text.
    Other(String),
}

/// A hook written as an object.
pub struct HookEntry {
    pub matcher: Option<String>,
    pub command: Option<CommandValue>,
    pub prompt: Option<String>,
    pub timeout: Option<u64>,
}

/// A hook as a settings file writes it: a bare command, or an object.
pub enum HookConfig {
    CommandOnly(String),
    Full(HookEntry),
}

/// The string entries of a list, in order.
pub open spec fn present_parts(ps: Seq<Option<String>>) -> Seq<Seq<char>>
    decreases ps.len(),
{
    if ps.len() == 0 {
        Seq::empty()
    } else {
        match ps.last() {
            Some(t) => present_parts(ps.drop_last()).push(t@),
            None => present_parts(ps.drop_last()),
        }
    }
}

/// Words joined with single spaces.
pub open spec fn joined(ws: Seq<Seq<char>>) -> Seq<char>
    decreases ws.len(),
{
    if ws.len() == 0 {
        Seq::empty()
    } else if ws.len() == 1 {
        ws[0]
    } else {
        joined(ws.drop_last()) + seq![' '] + ws.last()
    }
}

/// The command line a command value stands for: a string as it is, the
/// string entries of a list joined with spaces, any other value as JSON.
pub open spec fn command_text(v: CommandValue) -> Seq<char> {
    match v {
        CommandValue::Text(s) => s@,
        CommandValue::Parts(ps) => joined(present_parts(ps@)),
        CommandValue::Other(s) => s@,
    }
}

/// The command line of a command value.
pub fn format_command(value: &CommandValue) -> (r: String)
    ensures
        r@ == command_text(*value),
{
    match value {
        CommandValue::Text(s) => s.clone(),
        CommandValue::Other(s) => s.clone(),
        CommandValue::Parts(ps) => {
            let mut out = String::new();
            let mut any = false;
            let mut i: usize = 0;
            assert(ps@.take(0) =~= Seq::<Option<String>>::empty());
            while i < ps.len()
                invariant
                    i <= ps@.len(),
                    out@ == joined(present_parts(ps@.take(i as int))),
                    any == (present_parts(ps@.take(i as int)).len() > 0),
                decreases ps@.len() - i,
            {
                assert(ps@.take(i + 1).drop_last() =~= ps@.take(i as int));
                assert(ps@.take(i + 1).last() == ps@[i as int]);
                if let Some(t) = &ps[i] {
                    let ghost prev = present_parts(ps@.take(i as int));
                    assert(prev.push(t@).drop_last() =~= prev);
                    if any {
                        push_char(&mut out, ' ');
                    }
                    out.append(t.as_str());
                    any = true;
                }
                i += 1;
            }
            assert(ps@.take(ps@.len() as int) =~= ps@);
            out
        },
    }
}

/// The command a hook runs, if it has one: a prompt hook runs its prompt.
pub open spec fn command_of(config: HookConfig) -> Option<Seq<char>> {
    match config {
        HookConfig::CommandOnly(c) => Some(c@),
        HookConfig::Full(e) => match e.command {
            Some(v) => Some(command_text(v)),
            None => match e.prompt {
                Some(p) => Some("(prompt) "@ + p@),
                None => None,
            },
        },
    }
}

/// The matcher of a hook, if it has one.
pub open spec fn matcher_of(config: HookConfig) -> Option<Seq<char>> {
    match config {
        HookConfig::CommandOnly(_) => None,
        HookConfig::Full(e) => match e.matcher {
            Some(m) => Some(m@),
            None => None,
        },
    }
}

impl HookConfig {
    /// The command the hook runs, if it has one.
    pub fn get_command(&self) -> (r: Option<String>)
        ensures
            match command_of(*self) {
                Some(c) => r is Some && r->Some_0@ == c,
                None => r is None,
            },
    {
        match self {
            HookConfig::CommandOnly(cmd) => Some(cmd.clone()),
            HookConfig::Full(entry) => {
                if let Some(cmd) = &entry.command {
                    Some(format_command(cmd))
                } else if let Some(prompt) = &entry.prompt {
                    Some(concat_text("(prompt) ", prompt.as_str()))
                } else {
                    None
                }
            },
        }
    }

    /// The matcher of the hook, if it has one.
    pub fn get_matcher(&self) -> (r: Option<String>)
        ensures
            match matcher_of(*self) {
                Some(m) => r is Some && r->Some_0@ == m,
                None => r is None,
            },
    {
        match self {
            HookConfig::CommandOnly(_) => None,
            HookConfig::Full(entry) => match &entry.matcher {
                Some(m) => Some(m.clone()),
                None => None,
            },
        }
    }
}

/// The display name of a hook: a guard names its matcher, well-known tools
/// are named, otherwise the last path segment of the command's first word.
pub open spec fn hook_name(event: HookEvent, matcher: Option<Seq<char>>, command: Seq<char>) -> Seq<char> {
    match matcher {
        Some(m) => event_name(event) + " Guard: "@ + m,
        None => if has_infix(command, "eslint"@) {
            event_name(event) + ": ESLint"@
        } else if has_infix(command, "prettier"@) {
            event_name(event) + ": Prettier"@
        } else if has_infix(command, "git"@) {
            event_name(event) + ": Git"@
        } else {
            event_name(event) + ": "@ + match first_word(command) {
                Some(w) => last_segment(w),
                None => "Hook"@,
            }
        },
    }
}

/// The view of an optional string.
pub open spec fn opt_view(o: Option<String>) -> Option<Seq<char>> {
    match o {
        Some(s) => Some(s@),
        None => None,
    }
}

/// The display name of a hook.
pub fn generate_hook_name(event: &HookEvent, matcher: &Option<String>, command: &str, _index: usize) -> (r: String)
    ensures
        r@ == hook_name(*event, opt_view(*matcher), command@),
{
    let mut name = String::from_str(event.as_str());
    match matcher {
        Some(m) => {
            name.append(" Guard: ");
            name.append(m.as_str());
        },
        None => {
            if contains_text(command, "eslint") {
                name.append(": ESLint");
            } else if contains_text(command, "prettier") {
                name.append(": Prettier");
            } else if contains_text(command, "git") {
                name.append(": Git");
            } else {
                name.append(": ");
                match first_word_of(command) {
                    Some(w) => name.append(last_segment_of(w)),
                    None => name.append("Hook"),
                }
            }
        },
    }
    name
}

/// The description of a hook.
pub fn generate_hook_description(event: &HookEvent, matcher: &Option<String>, command: &str) -> (r: String)
    ensures
        r@ == hook_description(*event, opt_view(*matcher), command@),
{
    let mut d = String::from_str(event.description());
    match matcher {
        Some(m) => {
            d.append(". Matches: ");
            d.append(m.as_str());
            d.append(". Runs: ");
            d.append(command);
        },
        None => {
            d.append(". Runs: ");
            d.append(command);
        },
    }
    d
}

/// The id of the hook at `index` in the list of `event` in the settings of
/// `scope`.
pub open spec fn hook_id(scope: HookScope, event: HookEvent, index: nat) -> Seq<char> {
    "hook_"@ + hook_scope_name(scope) + "_"@ + lowercase_of(event_name(event)) + "_"@ + decimal(index)
}

/// `item` is the inventory item of the hook `config` at `index` in the list
/// of `event`, in the settings of `scope`.
#[verifier::opaque]
pub open spec fn is_hook_item(
    item: InventoryItem,
    scope: HookScope,
    event: HookEvent,
    index: int,
    config: HookConfig,
) -> bool {
    let command = command_of(config)->Some_0;
    let matcher = matcher_of(config);
    &&& 0 <= index
    &&& item.id@ == hook_id(scope, event, index as nat)
    &&& item.name@ == hook_name(event, matcher, command)
    &&& item.description@ == hook_description(event, matcher, command)
    &&& item.item_type == ItemType::Hooks
    &&& item.rarity == hook_rarity(event, matcher is Some, command)
    &&& item.source == ItemSource::Hook
    &&& item.source_path@.len() == 0
    &&& item.token_weight == hook_weight(command)
    &&& item.enabled
    &&& item.version is None
    &&& item.author is None
    &&& item.status is None
}

/// The inventory item of one hook, if it has a command.
fn hook_item(scope: HookScope, event: HookEvent, index: usize, config: &HookConfig) -> (r: Option<
    InventoryItem,
>)
    ensures
        command_of(*config) is None ==> r is None,
        command_of(*config) is Some ==> r is Some && is_hook_item(
            r->Some_0,
            scope,
            event,
            index as int,
            *config,
        ),
{
    let command = match config.get_command() {
        Some(c) => c,
        None => return None,
    };
    let matcher = config.get_matcher();
    assert(opt_view(matcher) == matcher_of(*config));
    let name = generate_hook_name(&event, &matcher, command.as_str(), index);
    let description = generate_hook_description(&event, &matcher, command.as_str());
    let rarity = determine_hook_rarity(&event, matcher.is_some(), command.as_str());
    let token_weight = estimate_hook_weight(command.as_str());
    proof {
        reveal(is_hook_item);
    }
    let mut id = String::from_str("hook_");
    id.append(scope.as_str());
    id.append("_");
    id.append(lowercase(event.as_str()).as_str());
    id.append("_");
    id.append(decimal_text(index).as_str());
    Some(
        InventoryItem {
            id,
            name,
            description,
            item_type: event.item_type(),
            rarity,
            source: ItemSource::Hook,
            source_path: String::new(),
            token_weight,
            enabled: true,
            version: None,
            author: None,
            status: None,
        },
    )
}

/// The hooks with a command among the list `configs` of `event`, with their
/// positions in the list.
pub open spec fn config_rows(event: HookEvent, configs: Seq<HookConfig>) -> Seq<
    (HookEvent, int, HookConfig),
>
    decreases configs.len(),
{
    if configs.len() == 0 {
        Seq::empty()
    } else {
        let rest = config_rows(event, configs.drop_last());
        if command_of(configs.last()) is Some {
            rest.push((event, configs.len() - 1, configs.last()))
        } else {
            rest
        }
    }
}

/// The hooks with a command of a settings file, event by event in the
/// order given; lists of unknown events are skipped.
pub open spec fn hook_rows(settings: Seq<(String, Vec<HookConfig>)>) -> Seq<
    (HookEvent, int, HookConfig),
>
    decreases settings.len(),
{
    if settings.len() == 0 {
        Seq::empty()
    } else {
        hook_rows(settings.drop_last()) + match event_of(settings.last().0@) {
            Some(e) => config_rows(e, settings.last().1@),
            None => Seq::empty(),
        }
    }
}

/// The items of the hooks of one settings file, given as its lists of hooks
/// by event name.
pub fn scan_hooks_from_settings(settings: &Vec<(String, Vec<HookConfig>)>, scope: HookScope) -> (r:
    Vec<InventoryItem>)
    ensures
        r@.len() == hook_rows(settings@).len(),
        forall|k: int|
            0 <= k < r@.len() ==> is_hook_item(
                #[trigger] r@[k],
                scope,
                hook_rows(settings@)[k].0,
                hook_rows(settings@)[k].1,
                hook_rows(settings@)[k].2,
            ),
{
    let mut hooks: Vec<InventoryItem> = Vec::new();
    let mut i: usize = 0;
    assert(settings@.take(0) =~= Seq::<(String, Vec<HookConfig>)>::empty());
    while i < settings.len()
        invariant
            i <= settings@.len(),
            hooks@.len() == hook_rows(settings@.take(i as int)).len(),
            forall|k: int|
                0 <= k < hooks@.len() ==> is_hook_item(
                    #[trigger] hooks@[k],
                    scope,
                    hook_rows(settings@.take(i as int))[k].0,
                    hook_rows(settings@.take(i as int))[k].1,
                    hook_rows(settings@.take(i as int))[k].2,
                ),
        decreases settings@.len() - i,
    {
        let ghost done = hook_rows(settings@.take(i as int));
        assert(settings@.take(i + 1).drop_last() =~= settings@.take(i as int));
        assert(settings@.take(i + 1).last() == settings@[i as int]);
        let entry = &settings[i];
        match HookEvent::from_str(entry.0.as_str()) {
            None => {
                assert(hook_rows(settings@.take(i + 1)) =~= done);
            },
            Some(event) => {
                let configs = &entry.1;
                let mut j: usize = 0;
                assert(configs@.take(0) =~= Seq::<HookConfig>::empty());
                while j < configs.len()
                    invariant
                        j <= configs@.len(),
                        hooks@.len() == done.len() + config_rows(event, configs@.take(j as int)).len(),
                        forall|k: int|
                            0 <= k < hooks@.len() ==> is_hook_item(
                                #[trigger] hooks@[k],
                                scope,
                                (done + config_rows(event, configs@.take(j as int)))[k].0,
                                (done + config_rows(event, configs@.take(j as int)))[k].1,
                                (done + config_rows(event, configs@.take(j as int)))[k].2,
                            ),
                    decreases configs@.len() - j,
                {
                    let ghost before = done + config_rows(event, configs@.take(j as int));
                    assert(configs@.take(j + 1).drop_last() =~= configs@.take(j as int));
                    assert(configs@.take(j + 1).last() == configs@[j as int]);
                    let ghost old_hooks = hooks@;
                    match hook_item(scope, event, j, &configs[j]) {
                        Some(item) => {
                            hooks.push(item);
                            let ghost after = done + config_rows(event, configs@.take(j + 1));
                            assert(after =~= before.push((event, j as int, configs@[j as int])));
                            assert forall|k: int| 0 <= k < hooks@.len() implies is_hook_item(
                                #[trigger] hooks@[k],
                                scope,
                                after[k].0,
                                after[k].1,
                                after[k].2,
                            ) by {
                                if k < old_hooks.len() {
                                    assert(hooks@[k] == old_hooks[k]);
                                }
                            }
                        },
                        None => {
                            assert(done + config_rows(event, configs@.take(j + 1)) =~= before);
                        },
                    }
                    j += 1;
                }
                assert(configs@.take(configs@.len() as int) =~= configs@);
                assert(hook_rows(settings@.take(i + 1)) =~= done + config_rows(event, configs@));
            },
        }
        i += 1;
    }
    assert(settings@.take(settings@.len() as int) =~= settings@);
    hooks
}

/// The hooks with a command of a settings file that could be read; none
/// where it could not.
pub open spec fn rows_of(settings: Option<&Vec<(String, Vec<HookConfig>)>>) -> Seq<
    (HookEvent, int, HookConfig),
> {
    match settings {
        Some(s) => hook_rows(s@),
        None => Seq::empty(),
    }
}

/// `item` is the item of one of the hooks of `rows`, in the settings of
/// `scope`.
pub open spec fn is_item_of_rows(
    item: InventoryItem,
    scope: HookScope,
    rows: Seq<(HookEvent, int, HookConfig)>,
) -> bool {
    exists|j: int| 0 <= j < rows.len() && is_hook_item(item, scope, rows[j].0, rows[j].1, rows[j].2)
}

/// Each hook of `rows`, in the settings of `scope`, has its item in `items`.
pub open spec fn rows_listed(
    items: Seq<InventoryItem>,
    scope: HookScope,
    rows: Seq<(HookEvent, int, HookConfig)>,
) -> bool {
    forall|j: int| 0 <= j < rows.len() ==> #[trigger] row_listed(items, scope, rows[j])
}

/// The hook `row`, in the settings of `scope`, has its item in `items`.
pub open spec fn row_listed(
    items: Seq<InventoryItem>,
    scope: HookScope,
    row: (HookEvent, int, HookConfig),
) -> bool {
    exists|k: int| 0 <= k < items.len() && is_hook_item(#[trigger] items[k], scope, row.0, row.1, row.2)
}

/// Whether an item is the item of a given row of the hooks: the user's
/// hooks first, then the project's.
pub open spec fn hook_fits(
    user: Option<&Vec<(String, Vec<HookConfig>)>>,
    project: Option<&Vec<(String, Vec<HookConfig>)>>,
) -> spec_fn(InventoryItem, int) -> bool {
    |it: InventoryItem, j: int|
        if 0 <= j < rows_of(user).len() {
            is_hook_item(it, HookScope::User, rows_of(user)[j].0, rows_of(user)[j].1, rows_of(user)[j].2)
        } else {
            let q = j - rows_of(user).len();
            0 <= q < rows_of(project).len() && is_hook_item(
                it,
                HookScope::Project,
                rows_of(project)[q].0,
                rows_of(project)[q].1,
                rows_of(project)[q].2,
            )
        }
}

/// The items of the hooks of the user's settings and of the project's,
/// ordered by lower-case name: one item for each hook with a command. Each
/// settings file is given as its lists of hooks by event name, or `None`
/// where it could not be read.
pub fn scan_hooks(
    user: Option<&Vec<(String, Vec<HookConfig>)>>,
    project: Option<&Vec<(String, Vec<HookConfig>)>>,
) -> (r: Vec<InventoryItem>)
    ensures
        r@.len() == rows_of(user).len() + rows_of(project).len(),
        sorted_by_name(r@),
        forall|k: int|
            0 <= k < r@.len() ==> is_item_of_rows(#[trigger] r@[k], HookScope::User, rows_of(user))
                || is_item_of_rows(r@[k], HookScope::Project, rows_of(project)),
        rows_listed(r@, HookScope::User, rows_of(user)),
        rows_listed(r@, HookScope::Project, rows_of(project)),
        permutes_rows(r@, hook_fits(user, project), (rows_of(user).len() + rows_of(project).len()) as int),
{
    let mut all: Vec<InventoryItem> = Vec::new();
    if let Some(settings) = user {
        let mut found = scan_hooks_from_settings(settings, HookScope::User);
        all.append(&mut found);
    }
    let ghost first = all@;
    if let Some(settings) = project {
        let mut found = scan_hooks_from_settings(settings, HookScope::Project);
        all.append(&mut found);
    }
    let ghost a = all@;
    let ghost u = rows_of(user);
    let ghost p = rows_of(project);
    assert(first.len() == u.len());
    assert(a.len() == u.len() + p.len());
    assert(forall|k: int|
        0 <= k < u.len() ==> is_hook_item(#[trigger] a[k], HookScope::User, u[k].0, u[k].1, u[k].2));
    assert(forall|k: int|
        0 <= k < p.len() ==> is_hook_item(
            #[trigger] a[u.len() + k],
            HookScope::Project,
            p[k].0,
            p[k].1,
            p[k].2,
        ));
    let ghost fits = hook_fits(user, project);
    assert forall|k: int| 0 <= k < a.len() implies #[trigger] fits(a[k], k) by {
        if k >= u.len() {
            let j = k - u.len();
            assert(a[u.len() + j] == a[k]);
        }
    }
    let r = sort_by_name(all);
    proof {
        lemma_reordered_rows(a, r@, fits);
        a.to_multiset_ensures();
        r@.to_multiset_ensures();
        assert forall|k: int| 0 <= k < r@.len() implies is_item_of_rows(
            #[trigger] r@[k],
            HookScope::User,
            u,
        ) || is_item_of_rows(r@[k], HookScope::Project, p) by {
            assert(r@.contains(r@[k]));
            assert(r@.to_multiset().count(r@[k]) > 0);
            assert(a.to_multiset().count(r@[k]) > 0);
            assert(a.contains(r@[k]));
            let idx = choose|idx: int| 0 <= idx < a.len() && a[idx] == r@[k];
            if idx < u.len() {
                assert(is_hook_item(a[idx], HookScope::User, u[idx].0, u[idx].1, u[idx].2));
            } else {
                let j = idx - u.len();
                assert(a[u.len() + j] == a[idx]);
                assert(is_hook_item(a[idx], HookScope::Project, p[j].0, p[j].1, p[j].2));
            }
        }
        assert forall|j: int| 0 <= j < u.len() implies #[trigger] row_listed(r@, HookScope::User, u[j]) by {
            assert(a.contains(a[j]));
            assert(a.to_multiset().count(a[j]) > 0);
            assert(r@.to_multiset().count(a[j]) > 0);
            assert(r@.contains(a[j]));
            let k = choose|k: int| 0 <= k < r@.len() && r@[k] == a[j];
            assert(is_hook_item(a[j], HookScope::User, u[j].0, u[j].1, u[j].2));
            assert(is_hook_item(r@[k], HookScope::User, u[j].0, u[j].1, u[j].2));
        }
        assert forall|j: int| 0 <= j < p.len() implies #[trigger] row_listed(r@, HookScope::Project, p[j]) by {
            let idx = u.len() + j;
            assert(a.contains(a[idx]));
            assert(a.to_multiset().count(a[idx]) > 0);
            assert(r@.to_multiset().count(a[idx]) > 0);
            assert(r@.contains(a[idx]));
            let k = choose|k: int| 0 <= k < r@.len() && r@[k] == a[idx];
            assert(is_hook_item(a[u.len() + j], HookScope::Project, p[j].0, p[j].1, p[j].2));
            assert(is_hook_item(r@[k], HookScope::Project, p[j].0, p[j].1, p[j].2));
        }
        assert(rows_listed(r@, HookScope::User, u));
        assert(rows_listed(r@, HookScope::Project, p));
    }
    r
}

} // verus!
