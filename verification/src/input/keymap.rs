use vstd::prelude::*;

use super::action::Action;
use crate::ui::state::{PanelId, Workspace};

verus! {

/// A key as the keymap sees it.
#[derive(Clone, Copy, Debug, PartialEq, Eq, Structural)]
pub enum KeyCode {
    Char(char),
    Enter,
    Esc,
    Backspace,
    Tab,
    BackTab,
    Up,
    Down,
    Left,
    Right,
    PageUp,
    PageDown,
    Home,
    End,
    Insert,
    Delete,
    F(u8),
    /// Any other key; no binding uses it.
    Other,
}

/// The modifier keys held during a key event.
#[derive(Clone, Copy, Debug, PartialEq, Eq, Structural)]
pub struct KeyModifiers {
    pub shift: bool,
    pub control: bool,
    pub alt: bool,
}

impl KeyModifiers {
    pub fn none() -> (r: Self)
        ensures
            !r.shift && !r.control && !r.alt,
    {
        KeyModifiers { shift: false, control: false, alt: false }
    }

    pub fn shift() -> (r: Self)
        ensures
            r.shift && !r.control && !r.alt,
    {
        KeyModifiers { shift: true, control: false, alt: false }
    }

    pub fn control() -> (r: Self)
        ensures
            !r.shift && r.control && !r.alt,
    {
        KeyModifiers { shift: false, control: true, alt: false }
    }

    pub fn alt() -> (r: Self)
        ensures
            !r.shift && !r.control && r.alt,
    {
        KeyModifiers { shift: false, control: false, alt: true }
    }
}

#[derive(Clone, Copy, Debug, PartialEq, Eq, Structural)]
pub enum KeyEventKind {
    Press,
    Repeat,
    Release,
}

/// A key event from the terminal.
#[derive(Clone, Copy, Debug, PartialEq, Eq, Structural)]
pub struct KeyEvent {
    pub code: KeyCode,
    pub modifiers: KeyModifiers,
    pub kind: KeyEventKind,
}

impl KeyEvent {
    /// A key press.
    pub fn new(code: KeyCode, modifiers: KeyModifiers) -> (r: Self)
        ensures
            r.code == code,
            r.modifiers == modifiers,
            r.kind == KeyEventKind::Press,
    {
        KeyEvent { code, modifiers, kind: KeyEventKind::Press }
    }
}

#[derive(Clone, Copy, Debug, PartialEq, Eq, Structural)]
pub enum Context {
    Confirm,
    Detail,
    Filter,
    Menu,
    Panel(PanelId),
    Workspace(Workspace),
    Global,
}

pub open spec fn is_exclusive(c: Context) -> bool {
    c is Confirm || c is Filter
}

impl Context {
    /// Exclusive contexts swallow keys they do not bind.
    pub fn exclusive(self) -> (r: bool)
        ensures
            r == is_exclusive(self),
    {
        match self {
            Context::Confirm | Context::Filter => true,
            _ => false,
        }
    }
}

#[derive(Clone, Copy, Debug, PartialEq, Eq, Structural)]
pub struct KeySpec {
    pub code: KeyCode,
    pub shift: bool,
}

pub open spec fn is_ascii_upper(c: char) -> bool {
    'A' <= c <= 'Z'
}

pub open spec fn is_ascii_alpha(c: char) -> bool {
    'A' <= c <= 'Z' || 'a' <= c <= 'z'
}

pub open spec fn ascii_lower(c: char) -> char {
    if is_ascii_upper(c) {
        ((c as u32) + 32) as char
    } else {
        c
    }
}

/// The Unicode control characters (general category Cc), as `char::is_control` documents them.
pub open spec fn is_control_char(c: char) -> bool {
    (c as u32) <= 0x1F || 0x7F <= (c as u32) <= 0x9F
}

fn is_control(c: char) -> (r: bool)
    ensures
        r == is_control_char(c),
{
    let v = c as u32;
    v <= 0x1F || (0x7F <= v && v <= 0x9F)
}

fn to_ascii_lower(c: char) -> (r: char)
    ensures
        r == ascii_lower(c),
{
    if 'A' <= c && c <= 'Z' {
        let v = c as u32 + 32;
        assert(0x61 <= v <= 0x7a);
        char_from_ascii(v)
    } else {
        c
    }
}

fn char_from_ascii(v: u32) -> (r: char)
    requires
        v < 0x80,
    ensures
        r == v as char,
{
    let b = v as u8;
    b as char
}

/// The key a key event stands for: letters in lowercase, `shift` carrying the case.
pub open spec fn key_spec_of(event: KeyEvent) -> KeySpec {
    match event.code {
        KeyCode::Char(c) => if is_ascii_alpha(c) {
            KeySpec {
                code: KeyCode::Char(ascii_lower(c)),
                shift: event.modifiers.shift || is_ascii_upper(c),
            }
        } else {
            KeySpec { code: event.code, shift: event.modifiers.shift }
        },
        _ => KeySpec { code: event.code, shift: event.modifiers.shift },
    }
}

impl KeySpec {
    /// Letters are normalized to lowercase with `shift` carrying the case.
    pub fn from_event(event: &KeyEvent) -> (r: Self)
        ensures
            r == key_spec_of(*event),
    {
        let shift = event.modifiers.shift;
        match event.code {
            KeyCode::Char(c) => {
                if ('A' <= c && c <= 'Z') || ('a' <= c && c <= 'z') {
                    KeySpec {
                        code: KeyCode::Char(to_ascii_lower(c)),
                        shift: shift || ('A' <= c && c <= 'Z'),
                    }
                } else {
                    KeySpec { code: event.code, shift }
                }
            },
            _ => KeySpec { code: event.code, shift },
        }
    }
}

#[derive(Clone, Copy, Debug, PartialEq, Eq)]
pub struct Binding {
    pub context: Context,
    pub key: KeySpec,
    pub action: Action,
    pub label: &'static str,
    pub hint: Option<&'static str>,
}

/// Every key binding, in priority order within each context.
pub open spec fn binding_table() -> Seq<Binding> {
    seq![
        Binding { context: Context::Confirm, key: KeySpec { code: KeyCode::Char('y'), shift: false }, action: Action::Confirm, label: "Y", hint: Some("CONFIRM") },
        Binding { context: Context::Confirm, key: KeySpec { code: KeyCode::Char('n'), shift: false }, action: Action::Cancel, label: "N", hint: Some("CANCEL") },
        Binding { context: Context::Confirm, key: KeySpec { code: KeyCode::Esc, shift: false }, action: Action::Cancel, label: "ESC", hint: None },
        Binding { context: Context::Filter, key: KeySpec { code: KeyCode::Enter, shift: false }, action: Action::FilterSubmit, label: "ENTER", hint: Some("DONE") },
        Binding { context: Context::Filter, key: KeySpec { code: KeyCode::Esc, shift: false }, action: Action::FilterSubmit, label: "ESC", hint: Some("CLOSE") },
        Binding { context: Context::Filter, key: KeySpec { code: KeyCode::Backspace, shift: false }, action: Action::FilterBackspace, label: "⌫", hint: None },
        Binding { context: Context::Detail, key: KeySpec { code: KeyCode::Esc, shift: false }, action: Action::Back, label: "ESC", hint: Some("CLOSE") },
        Binding { context: Context::Detail, key: KeySpec { code: KeyCode::Char('k'), shift: false }, action: Action::Terminate, label: "K", hint: Some("TERMINATE") },
        Binding { context: Context::Detail, key: KeySpec { code: KeyCode::Char('k'), shift: true }, action: Action::Kill, label: "⇧K", hint: Some("KILL") },
        Binding { context: Context::Menu, key: KeySpec { code: KeyCode::Esc, shift: false }, action: Action::ToggleMenu, label: "ESC", hint: Some("CLOSE MENU") },
        Binding { context: Context::Panel(PanelId::Processes), key: KeySpec { code: KeyCode::Enter, shift: false }, action: Action::Open, label: "ENTER", hint: Some("DETAIL") },
        Binding { context: Context::Panel(PanelId::Processes), key: KeySpec { code: KeyCode::Char('f'), shift: false }, action: Action::StartFilter, label: "F", hint: Some("FILTER") },
        Binding { context: Context::Panel(PanelId::Processes), key: KeySpec { code: KeyCode::Char('s'), shift: false }, action: Action::CycleSort, label: "S", hint: Some("SORT") },
        Binding { context: Context::Panel(PanelId::Processes), key: KeySpec { code: KeyCode::Char('k'), shift: false }, action: Action::Terminate, label: "K", hint: Some("TERMINATE") },
        Binding { context: Context::Panel(PanelId::Processes), key: KeySpec { code: KeyCode::Char('k'), shift: true }, action: Action::Kill, label: "⇧K", hint: Some("KILL") },
        Binding { context: Context::Global, key: KeySpec { code: KeyCode::Char('q'), shift: false }, action: Action::Quit, label: "Q", hint: Some("QUIT") },
        Binding { context: Context::Global, key: KeySpec { code: KeyCode::Tab, shift: false }, action: Action::FocusNext, label: "TAB", hint: Some("PANEL") },
        Binding { context: Context::Global, key: KeySpec { code: KeyCode::BackTab, shift: false }, action: Action::FocusPrev, label: "⇧TAB", hint: None },
        Binding { context: Context::Global, key: KeySpec { code: KeyCode::Up, shift: false }, action: Action::MoveUp, label: "↑↓", hint: Some("MOVE") },
        Binding { context: Context::Global, key: KeySpec { code: KeyCode::Down, shift: false }, action: Action::MoveDown, label: "↓", hint: None },
        Binding { context: Context::Global, key: KeySpec { code: KeyCode::PageUp, shift: false }, action: Action::PageUp, label: "PGUP", hint: None },
        Binding { context: Context::Global, key: KeySpec { code: KeyCode::PageDown, shift: false }, action: Action::PageDown, label: "PGDN", hint: None },
        Binding { context: Context::Global, key: KeySpec { code: KeyCode::Home, shift: false }, action: Action::Home, label: "HOME", hint: None },
        Binding { context: Context::Global, key: KeySpec { code: KeyCode::End, shift: false }, action: Action::End, label: "END", hint: None },
        Binding { context: Context::Global, key: KeySpec { code: KeyCode::Left, shift: false }, action: Action::PrevWorkspace, label: "←→", hint: Some("WORKSPACE") },
        Binding { context: Context::Global, key: KeySpec { code: KeyCode::Right, shift: false }, action: Action::NextWorkspace, label: "→", hint: None },
        Binding { context: Context::Global, key: KeySpec { code: KeyCode::Char('1'), shift: false }, action: Action::GoWorkspace(Workspace::Overview), label: "1", hint: None },
        Binding { context: Context::Global, key: KeySpec { code: KeyCode::Char('2'), shift: false }, action: Action::GoWorkspace(Workspace::Processes), label: "2", hint: None },
        Binding { context: Context::Global, key: KeySpec { code: KeyCode::Char('3'), shift: false }, action: Action::GoWorkspace(Workspace::Network), label: "3", hint: None },
        Binding { context: Context::Global, key: KeySpec { code: KeyCode::Char('4'), shift: false }, action: Action::GoWorkspace(Workspace::Disks), label: "4", hint: None },
        Binding { context: Context::Global, key: KeySpec { code: KeyCode::Char('5'), shift: false }, action: Action::GoWorkspace(Workspace::More), label: "5", hint: None },
        Binding { context: Context::Global, key: KeySpec { code: KeyCode::Esc, shift: false }, action: Action::Back, label: "ESC", hint: None },
        Binding { context: Context::Global, key: KeySpec { code: KeyCode::Char('m'), shift: false }, action: Action::ToggleMenu, label: "M", hint: Some("MENU") },
        Binding { context: Context::Global, key: KeySpec { code: KeyCode::Char('h'), shift: false }, action: Action::TogglePanel, label: "H", hint: Some("HIDE") },
        Binding { context: Context::Global, key: KeySpec { code: KeyCode::Char('l'), shift: false }, action: Action::CycleDensity, label: "L", hint: Some("LAYOUT") },
        Binding { context: Context::Global, key: KeySpec { code: KeyCode::Char('t'), shift: false }, action: Action::CycleTheme, label: "T", hint: Some("THEME") },
        Binding { context: Context::Global, key: KeySpec { code: KeyCode::Char('r'), shift: false }, action: Action::Refresh, label: "R", hint: Some("REFRESH") },
    ]
}

/// The key bindings, as one table.
pub fn bindings() -> (r: Vec<Binding>)
    ensures
        r@ == binding_table(),
{
    let mut table: Vec<Binding> = Vec::new();
    table.push(Binding { context: Context::Confirm, key: KeySpec { code: KeyCode::Char('y'), shift: false }, action: Action::Confirm, label: "Y", hint: Some("CONFIRM") });
    table.push(Binding { context: Context::Confirm, key: KeySpec { code: KeyCode::Char('n'), shift: false }, action: Action::Cancel, label: "N", hint: Some("CANCEL") });
    table.push(Binding { context: Context::Confirm, key: KeySpec { code: KeyCode::Esc, shift: false }, action: Action::Cancel, label: "ESC", hint: None });
    table.push(Binding { context: Context::Filter, key: KeySpec { code: KeyCode::Enter, shift: false }, action: Action::FilterSubmit, label: "ENTER", hint: Some("DONE") });
    table.push(Binding { context: Context::Filter, key: KeySpec { code: KeyCode::Esc, shift: false }, action: Action::FilterSubmit, label: "ESC", hint: Some("CLOSE") });
    table.push(Binding { context: Context::Filter, key: KeySpec { code: KeyCode::Backspace, shift: false }, action: Action::FilterBackspace, label: "⌫", hint: None });
    table.push(Binding { context: Context::Detail, key: KeySpec { code: KeyCode::Esc, shift: false }, action: Action::Back, label: "ESC", hint: Some("CLOSE") });
    table.push(Binding { context: Context::Detail, key: KeySpec { code: KeyCode::Char('k'), shift: false }, action: Action::Terminate, label: "K", hint: Some("TERMINATE") });
    table.push(Binding { context: Context::Detail, key: KeySpec { code: KeyCode::Char('k'), shift: true }, action: Action::Kill, label: "⇧K", hint: Some("KILL") });
    table.push(Binding { context: Context::Menu, key: KeySpec { code: KeyCode::Esc, shift: false }, action: Action::ToggleMenu, label: "ESC", hint: Some("CLOSE MENU") });
    table.push(Binding { context: Context::Panel(PanelId::Processes), key: KeySpec { code: KeyCode::Enter, shift: false }, action: Action::Open, label: "ENTER", hint: Some("DETAIL") });
    table.push(Binding { context: Context::Panel(PanelId::Processes), key: KeySpec { code: KeyCode::Char('f'), shift: false }, action: Action::StartFilter, label: "F", hint: Some("FILTER") });
    table.push(Binding { context: Context::Panel(PanelId::Processes), key: KeySpec { code: KeyCode::Char('s'), shift: false }, action: Action::CycleSort, label: "S", hint: Some("SORT") });
    table.push(Binding { context: Context::Panel(PanelId::Processes), key: KeySpec { code: KeyCode::Char('k'), shift: false }, action: Action::Terminate, label: "K", hint: Some("TERMINATE") });
    table.push(Binding { context: Context::Panel(PanelId::Processes), key: KeySpec { code: KeyCode::Char('k'), shift: true }, action: Action::Kill, label: "⇧K", hint: Some("KILL") });
    table.push(Binding { context: Context::Global, key: KeySpec { code: KeyCode::Char('q'), shift: false }, action: Action::Quit, label: "Q", hint: Some("QUIT") });
    table.push(Binding { context: Context::Global, key: KeySpec { code: KeyCode::Tab, shift: false }, action: Action::FocusNext, label: "TAB", hint: Some("PANEL") });
    table.push(Binding { context: Context::Global, key: KeySpec { code: KeyCode::BackTab, shift: false }, action: Action::FocusPrev, label: "⇧TAB", hint: None });
    table.push(Binding { context: Context::Global, key: KeySpec { code: KeyCode::Up, shift: false }, action: Action::MoveUp, label: "↑↓", hint: Some("MOVE") });
    table.push(Binding { context: Context::Global, key: KeySpec { code: KeyCode::Down, shift: false }, action: Action::MoveDown, label: "↓", hint: None });
    table.push(Binding { context: Context::Global, key: KeySpec { code: KeyCode::PageUp, shift: false }, action: Action::PageUp, label: "PGUP", hint: None });
    table.push(Binding { context: Context::Global, key: KeySpec { code: KeyCode::PageDown, shift: false }, action: Action::PageDown, label: "PGDN", hint: None });
    table.push(Binding { context: Context::Global, key: KeySpec { code: KeyCode::Home, shift: false }, action: Action::Home, label: "HOME", hint: None });
    table.push(Binding { context: Context::Global, key: KeySpec { code: KeyCode::End, shift: false }, action: Action::End, label: "END", hint: None });
    table.push(Binding { context: Context::Global, key: KeySpec { code: KeyCode::Left, shift: false }, action: Action::PrevWorkspace, label: "←→", hint: Some("WORKSPACE") });
    table.push(Binding { context: Context::Global, key: KeySpec { code: KeyCode::Right, shift: false }, action: Action::NextWorkspace, label: "→", hint: None });
    table.push(Binding { context: Context::Global, key: KeySpec { code: KeyCode::Char('1'), shift: false }, action: Action::GoWorkspace(Workspace::Overview), label: "1", hint: None });
    table.push(Binding { context: Context::Global, key: KeySpec { code: KeyCode::Char('2'), shift: false }, action: Action::GoWorkspace(Workspace::Processes), label: "2", hint: None });
    table.push(Binding { context: Context::Global, key: KeySpec { code: KeyCode::Char('3'), shift: false }, action: Action::GoWorkspace(Workspace::Network), label: "3", hint: None });
    table.push(Binding { context: Context::Global, key: KeySpec { code: KeyCode::Char('4'), shift: false }, action: Action::GoWorkspace(Workspace::Disks), label: "4", hint: None });
    table.push(Binding { context: Context::Global, key: KeySpec { code: KeyCode::Char('5'), shift: false }, action: Action::GoWorkspace(Workspace::More), label: "5", hint: None });
    table.push(Binding { context: Context::Global, key: KeySpec { code: KeyCode::Esc, shift: false }, action: Action::Back, label: "ESC", hint: None });
    table.push(Binding { context: Context::Global, key: KeySpec { code: KeyCode::Char('m'), shift: false }, action: Action::ToggleMenu, label: "M", hint: Some("MENU") });
    table.push(Binding { context: Context::Global, key: KeySpec { code: KeyCode::Char('h'), shift: false }, action: Action::TogglePanel, label: "H", hint: Some("HIDE") });
    table.push(Binding { context: Context::Global, key: KeySpec { code: KeyCode::Char('l'), shift: false }, action: Action::CycleDensity, label: "L", hint: Some("LAYOUT") });
    table.push(Binding { context: Context::Global, key: KeySpec { code: KeyCode::Char('t'), shift: false }, action: Action::CycleTheme, label: "T", hint: Some("THEME") });
    table.push(Binding { context: Context::Global, key: KeySpec { code: KeyCode::Char('r'), shift: false }, action: Action::Refresh, label: "R", hint: Some("REFRESH") });
    assert(table@ =~= binding_table());
    table
}

/// The first binding at or after `i` in `table` for `context` and `key`.
pub open spec fn lookup_from(table: Seq<Binding>, context: Context, key: KeySpec, i: int) -> Option<Binding>
    decreases table.len() - i,
{
    if i < 0 || i >= table.len() {
        None
    } else if table[i].context == context && table[i].key == key {
        Some(table[i])
    } else {
        lookup_from(table, context, key, i + 1)
    }
}

/// The binding of `key` in `context`: the first in the table.
pub open spec fn lookup_spec(context: Context, key: KeySpec) -> Option<Binding> {
    lookup_from(binding_table(), context, key, 0)
}

fn lookup(table: &Vec<Binding>, context: Context, key: KeySpec) -> (r: Option<Binding>)
    requires
        table@ == binding_table(),
    ensures
        r == lookup_spec(context, key),
{
    let mut i: usize = 0;
    while i < table.len()
        invariant
            i <= table@.len(),
            table@ == binding_table(),
            lookup_spec(context, key) == lookup_from(table@, context, key, i as int),
        decreases table@.len() - i,
    {
        if table[i].context == context && table[i].key == key {
            return Some(table[i]);
        }
        i = i + 1;
    }
    None
}

/// What one context makes of an event: typed text in the filter, else its binding of the
/// key, falling back from a shifted key to the unshifted one.
pub open spec fn context_result(context: Context, event: KeyEvent) -> Option<Action> {
    let key = key_spec_of(event);
    match event.code {
        KeyCode::Char(c) if context is Filter && !event.modifiers.control && !is_control_char(c) => Some(
            Action::FilterInput(c),
        ),
        _ => match lookup_spec(context, key) {
            Some(b) => Some(b.action),
            None => if key.shift {
                match lookup_spec(context, KeySpec { code: key.code, shift: false }) {
                    Some(b) => Some(b.action),
                    None => None,
                }
            } else {
                None
            },
        },
    }
}

/// The action of the first context from position `i` on that binds the event, stopping at
/// an exclusive context.
pub open spec fn resolve_from(stack: Seq<Context>, event: KeyEvent, i: int) -> Option<Action>
    decreases stack.len() - i,
{
    if i < 0 || i >= stack.len() {
        None
    } else {
        match context_result(stack[i], event) {
            Some(a) => Some(a),
            None => if is_exclusive(stack[i]) {
                None
            } else {
                resolve_from(stack, event, i + 1)
            },
        }
    }
}

/// The action a key event resolves to in a stack of contexts, highest priority first.
pub open spec fn resolve_spec(stack: Seq<Context>, event: KeyEvent) -> Option<Action> {
    if !(event.kind is Press || event.kind is Repeat) {
        None
    } else if event.modifiers.control && event.code == KeyCode::Char('c') {
        Some(Action::Quit)
    } else if event.modifiers.control || event.modifiers.alt {
        None
    } else {
        resolve_from(stack, event, 0)
    }
}

/// Resolve a key event against the context stack, highest priority first.
pub fn resolve(stack: &[Context], event: &KeyEvent) -> (r: Option<Action>)
    ensures
        r == resolve_spec(stack@, *event),
{
    match event.kind {
        KeyEventKind::Press | KeyEventKind::Repeat => {},
        KeyEventKind::Release => {
            return None;
        },
    }
    let control = event.modifiers.control;
    if control && event.code == KeyCode::Char('c') {
        return Some(Action::Quit);
    }
    let alt = event.modifiers.alt;
    if control || alt {
        return None;
    }
    let table = bindings();
    let key = KeySpec::from_event(event);
    let mut i: usize = 0;
    while i < stack.len()
        invariant
            i <= stack@.len(),
            table@ == binding_table(),
            key == key_spec_of(*event),
            !control,
            control == event.modifiers.control,
            resolve_spec(stack@, *event) == resolve_from(stack@, *event, i as int),
        decreases stack@.len() - i,
    {
        let context = stack[i];
        if context == Context::Filter {
            if let KeyCode::Char(c) = event.code {
                if !control && !is_control(c) {
                    return Some(Action::FilterInput(c));
                }
            }
        }
        let unshifted = KeySpec { code: key.code, shift: false };
        let found = match lookup(&table, context, key) {
            Some(b) => Some(b),
            None => if key.shift {
                lookup(&table, context, unshifted)
            } else {
                None
            },
        };
        if let Some(binding) = found {
            return Some(binding.action);
        }
        if context.exclusive() {
            return None;
        }
        i = i + 1;
    }
    None
}

/// The bindings of `context`, in table order.
pub open spec fn bindings_of(table: Seq<Binding>, context: Context) -> Seq<Binding>
    decreases table.len(),
{
    if table.len() == 0 {
        Seq::empty()
    } else if table.last().context == context {
        bindings_of(table.drop_last(), context).push(table.last())
    } else {
        bindings_of(table.drop_last(), context)
    }
}

/// The contexts that take part: all up to and including the first exclusive one.
pub open spec fn active_contexts(stack: Seq<Context>) -> Seq<Context>
    decreases stack.len(),
{
    if stack.len() == 0 {
        Seq::empty()
    } else if is_exclusive(stack[0]) {
        seq![stack[0]]
    } else {
        seq![stack[0]] + active_contexts(stack.drop_first())
    }
}

/// The bindings of the given contexts, in priority order.
pub open spec fn candidates(contexts: Seq<Context>) -> Seq<Binding>
    decreases contexts.len(),
{
    if contexts.len() == 0 {
        Seq::empty()
    } else {
        candidates(contexts.drop_last()) + bindings_of(binding_table(), contexts.last())
    }
}

/// An earlier candidate binds the same key as candidate `i`.
pub open spec fn shadowed(cands: Seq<Binding>, i: int) -> bool {
    exists|j: int| 0 <= j < i && cands[j].key == cands[i].key
}

/// The candidates that carry a hint and that no earlier candidate shadows.
pub open spec fn unshadowed_hints(cands: Seq<Binding>) -> Seq<Binding>
    decreases cands.len(),
{
    if cands.len() == 0 {
        Seq::empty()
    } else {
        let rest = unshadowed_hints(cands.drop_last());
        if cands.last().hint is Some && !shadowed(cands, cands.len() - 1) {
            rest.push(cands.last())
        } else {
            rest
        }
    }
}

pub open spec fn hints_spec(stack: Seq<Context>) -> Seq<Binding> {
    unshadowed_hints(candidates(active_contexts(stack)))
}

fn bindings_for(table: &Vec<Binding>, context: Context, out: &mut Vec<Binding>)
    ensures
        final(out)@ == old(out)@ + bindings_of(table@, context),
{
    let mut i: usize = 0;
    while i < table.len()
        invariant
            i <= table@.len(),
            out@ == old(out)@ + bindings_of(table@.take(i as int), context),
        decreases table@.len() - i,
    {
        assert(table@.take(i + 1).drop_last() == table@.take(i as int));
        if table[i].context == context {
            out.push(table[i]);
        }
        i = i + 1;
    }
    assert(table@.take(table@.len() as int) == table@);
}

proof fn lemma_active_contexts_step(stack: Seq<Context>, i: int)
    requires
        0 <= i < stack.len(),
        forall|k: int| 0 <= k < i ==> !is_exclusive(stack[k]),
    ensures
        active_contexts(stack) == stack.take(i) + active_contexts(stack.skip(i)),
    decreases i,
{
    if i > 0 {
        assert(stack.drop_first().skip(i - 1) == stack.skip(i));
        lemma_active_contexts_step(stack.drop_first(), i - 1);
        assert(stack.take(i) == seq![stack[0]] + stack.drop_first().take(i - 1));
        assert(active_contexts(stack) == seq![stack[0]] + active_contexts(stack.drop_first()));
    } else {
        assert(stack.skip(0) == stack);
    }
}

/// Hinted bindings reachable from `stack`, in priority order, without shadowed keys.
pub fn hints(stack: &[Context]) -> (r: Vec<Binding>)
    ensures
        r@ == hints_spec(stack@),
{
    let table = bindings();
    let mut cands: Vec<Binding> = Vec::new();
    let mut i: usize = 0;
    let mut done = false;
    while i < stack.len() && !done
        invariant
            i <= stack@.len(),
            table@ == binding_table(),
            !done ==> forall|k: int| 0 <= k < i ==> !is_exclusive(stack@[k]),
            !done ==> cands@ == candidates(stack@.take(i as int)),
            done ==> cands@ == candidates(active_contexts(stack@)),
        decreases stack@.len() - i,
    {
        let context = stack[i];
        let ghost before = cands@;
        bindings_for(&table, context, &mut cands);
        proof {
            assert(stack@.take(i + 1).drop_last() == stack@.take(i as int));
            assert(cands@ == candidates(stack@.take(i + 1)));
        }
        if context.exclusive() {
            proof {
                lemma_active_contexts_step(stack@, i as int);
                assert(active_contexts(stack@.skip(i as int)) == seq![context]);
                assert(stack@.take(i as int) + seq![context] == stack@.take(i + 1));
            }
            done = true;
        }
        i = i + 1;
    }
    proof {
        if !done {
            assert(stack@.take(stack@.len() as int) == stack@);
            lemma_active_all(stack@);
        }
    }
    let mut result: Vec<Binding> = Vec::new();
    let mut k: usize = 0;
    while k < cands.len()
        invariant
            k <= cands@.len(),
            result@ == unshadowed_hints(cands@.take(k as int)),
        decreases cands@.len() - k,
    {
        let mut j: usize = 0;
        let mut seen = false;
        while j < k
            invariant
                j <= k < cands@.len(),
                seen == (exists|m: int| 0 <= m < j && cands@[m].key == cands@[k as int].key),
            decreases k - j,
        {
            if cands[j].key == cands[k].key {
                seen = true;
            }
            j = j + 1;
        }
        let prefix = Ghost(cands@.take(k + 1));
        proof {
            assert(prefix@.drop_last() == cands@.take(k as int));
            assert(seen == shadowed(prefix@, k as int)) by {
                if seen {
                    let m = choose|m: int| 0 <= m < k && cands@[m].key == cands@[k as int].key;
                    assert(prefix@[m].key == prefix@[k as int].key);
                }
                if shadowed(prefix@, k as int) {
                    let m = choose|m: int| 0 <= m < k && prefix@[m].key == prefix@[k as int].key;
                    assert(cands@[m].key == cands@[k as int].key);
                }
            }
        }
        if !seen && cands[k].hint.is_some() {
            result.push(cands[k]);
        }
        k = k + 1;
    }
    assert(cands@.take(cands@.len() as int) == cands@);
    result
}

proof fn lemma_active_all(stack: Seq<Context>)
    requires
        forall|k: int| 0 <= k < stack.len() ==> !is_exclusive(stack[k]),
    ensures
        active_contexts(stack) == stack,
    decreases stack.len(),
{
    if stack.len() > 0 {
        lemma_active_all(stack.drop_first());
        assert(seq![stack[0]] + stack.drop_first() == stack);
    }
}

proof fn lemma_bindings_of_members(table: Seq<Binding>, context: Context)
    ensures
        forall|k: int|
            0 <= k < bindings_of(table, context).len() ==> (#[trigger] bindings_of(table, context)[k]).context
                == context && table.contains(bindings_of(table, context)[k]),
    decreases table.len(),
{
    if table.len() > 0 {
        let d = table.drop_last();
        lemma_bindings_of_members(d, context);
        let b = bindings_of(table, context);
        let rest = bindings_of(d, context);
        assert forall|k: int| 0 <= k < b.len() implies (#[trigger] b[k]).context == context && table.contains(b[k]) by {
            if k < rest.len() {
                assert(b[k] == rest[k]);
                let m = choose|m: int| 0 <= m < d.len() && d[m] == rest[k];
                assert(table[m] == d[m]);
            } else {
                assert(table[table.len() - 1] == table.last());
            }
        }
    }
}

proof fn lemma_candidate_members(contexts: Seq<Context>)
    ensures
        forall|k: int|
            0 <= k < candidates(contexts).len() ==> contexts.contains((#[trigger] candidates(contexts)[k]).context)
                && binding_table().contains(candidates(contexts)[k]),
    decreases contexts.len(),
{
    if contexts.len() > 0 {
        let d = contexts.drop_last();
        lemma_candidate_members(d);
        lemma_bindings_of_members(binding_table(), contexts.last());
        let c = candidates(contexts);
        let rest = candidates(d);
        let tail = bindings_of(binding_table(), contexts.last());
        assert forall|k: int| 0 <= k < c.len() implies contexts.contains((#[trigger] c[k]).context)
            && binding_table().contains(c[k]) by {
            if k < rest.len() {
                assert(c[k] == rest[k]);
                let m = choose|m: int| 0 <= m < d.len() && d[m] == rest[k].context;
                assert(contexts[m] == d[m]);
            } else {
                assert(c[k] == tail[k - rest.len()]);
                assert(contexts[contexts.len() - 1] == contexts.last());
            }
        }
    }
}

proof fn lemma_unshadowed_members(cands: Seq<Binding>)
    ensures
        forall|i: int|
            0 <= i < unshadowed_hints(cands).len() ==> (#[trigger] unshadowed_hints(cands)[i]).hint is Some
                && cands.contains(unshadowed_hints(cands)[i]),
        forall|i: int, j: int|
            0 <= i < j < unshadowed_hints(cands).len() ==> (#[trigger] unshadowed_hints(cands)[i]).key
                != (#[trigger] unshadowed_hints(cands)[j]).key,
    decreases cands.len(),
{
    if cands.len() > 0 {
        let d = cands.drop_last();
        lemma_unshadowed_members(d);
        let rest = unshadowed_hints(d);
        let u = unshadowed_hints(cands);
        let n = cands.len() - 1;
        assert(cands[n] == cands.last());
        assert forall|i: int| 0 <= i < rest.len() implies cands.contains(#[trigger] rest[i]) && exists|m: int|
            0 <= m < n && cands[m] == rest[i] by {
            let m = choose|m: int| 0 <= m < d.len() && d[m] == rest[i];
            assert(cands[m] == d[m]);
        }
        if cands.last().hint is Some && !shadowed(cands, n) {
            assert forall|i: int| 0 <= i < u.len() implies (#[trigger] u[i]).hint is Some && cands.contains(u[i]) by {
                if i < rest.len() {
                    assert(u[i] == rest[i]);
                }
            }
            assert forall|i: int, j: int| 0 <= i < j < u.len() implies (#[trigger] u[i]).key != (#[trigger] u[j]).key by {
                if j < rest.len() {
                    assert(u[i] == rest[i] && u[j] == rest[j]);
                } else {
                    assert(u[i] == rest[i]);
                    let m = choose|m: int| 0 <= m < n && cands[m] == rest[i];
                    assert(u[j] == cands[n]);
                    if u[i].key == u[j].key {
                        assert(cands[m].key == cands[n].key);
                        assert(shadowed(cands, n));
                    }
                }
            }
        }
    }
}

/// The footer's hints come from the key table and the active contexts: each one is a
/// binding of the table that carries a hint, belongs to a context that takes part, and
/// no two hints are for the same key.
pub proof fn lemma_hints_follow_the_active_contexts(stack: Seq<Context>)
    ensures
        forall|i: int|
            0 <= i < hints_spec(stack).len() ==> {
                &&& (#[trigger] hints_spec(stack)[i]).hint is Some
                &&& binding_table().contains(hints_spec(stack)[i])
                &&& active_contexts(stack).contains(hints_spec(stack)[i].context)
            },
        forall|i: int, j: int|
            0 <= i < j < hints_spec(stack).len() ==> (#[trigger] hints_spec(stack)[i]).key
                != (#[trigger] hints_spec(stack)[j]).key,
{
    let cands = candidates(active_contexts(stack));
    lemma_candidate_members(active_contexts(stack));
    lemma_unshadowed_members(cands);
    let h = hints_spec(stack);
    assert forall|i: int| 0 <= i < h.len() implies {
        &&& (#[trigger] h[i]).hint is Some
        &&& binding_table().contains(h[i])
        &&& active_contexts(stack).contains(h[i].context)
    } by {
        assert(cands.contains(h[i]));
        let k = choose|k: int| 0 <= k < cands.len() && cands[k] == h[i];
        assert(active_contexts(stack).contains(cands[k].context));
    }
}

/// On the dashboard, whichever panel and workspace are in front, the arrow keys step
/// through the workspaces: Right goes to the next one and Left to the previous one,
/// pressed or held, with or without Shift.
pub proof fn lemma_arrows_step_workspaces(panel: PanelId, workspace: Workspace, event: KeyEvent)
    requires
        event.kind is Press || event.kind is Repeat,
        !event.modifiers.control,
        !event.modifiers.alt,
    ensures
        event.code == KeyCode::Right ==> resolve_spec(
            seq![Context::Panel(panel), Context::Workspace(workspace), Context::Global],
            event,
        ) == Some(Action::NextWorkspace),
        event.code == KeyCode::Left ==> resolve_spec(
            seq![Context::Panel(panel), Context::Workspace(workspace), Context::Global],
            event,
        ) == Some(Action::PrevWorkspace),
        event.code == KeyCode::Right ==> resolve_spec(seq![Context::Global], event) == Some(
            Action::NextWorkspace,
        ),
        event.code == KeyCode::Left ==> resolve_spec(seq![Context::Global], event) == Some(
            Action::PrevWorkspace,
        ),
{
    reveal_with_fuel(lookup_from, 40);
    let stack = seq![Context::Panel(panel), Context::Workspace(workspace), Context::Global];
    if event.code == KeyCode::Right || event.code == KeyCode::Left {
        assert(context_result(Context::Panel(panel), event) is None);
        assert(context_result(Context::Workspace(workspace), event) is None);
        assert(resolve_from(stack, event, 0) == resolve_from(stack, event, 1));
        assert(resolve_from(stack, event, 1) == resolve_from(stack, event, 2));
        assert(resolve_from(stack, event, 2) == context_result(Context::Global, event));
        assert(resolve_from(seq![Context::Global], event, 0) == context_result(Context::Global, event));
    }
}

/// A key pressed with no modifier.
pub open spec fn plain_press(code: KeyCode) -> KeyEvent {
    KeyEvent {
        code,
        modifiers: KeyModifiers { shift: false, control: false, alt: false },
        kind: KeyEventKind::Press,
    }
}

/// The stack of contexts on the dashboard: the focused panel, the workspace, and the
/// keys that work everywhere.
pub open spec fn dashboard_stack(panel: PanelId, workspace: Workspace) -> Seq<Context> {
    seq![Context::Panel(panel), Context::Workspace(workspace), Context::Global]
}

proof fn lemma_dashboard_falls_to_global(panel: PanelId, workspace: Workspace, event: KeyEvent)
    requires
        context_result(Context::Panel(panel), event) is None,
        context_result(Context::Workspace(workspace), event) is None,
    ensures
        resolve_from(dashboard_stack(panel, workspace), event, 0) == context_result(Context::Global, event),
{
    let stack = dashboard_stack(panel, workspace);
    assert(stack[0] == Context::Panel(panel));
    assert(stack[1] == Context::Workspace(workspace));
    assert(stack[2] == Context::Global);
    assert(resolve_from(stack, event, 3) is None);
    assert(resolve_from(stack, event, 0) == resolve_from(stack, event, 1));
    assert(resolve_from(stack, event, 1) == resolve_from(stack, event, 2));
    assert(resolve_from(stack, event, 2) == context_result(Context::Global, event));
}

/// On the dashboard, whichever panel and workspace are in front, the keys that work
/// everywhere do what the help lists: `q` quits, Tab and Shift-Tab move the focus, the
/// up and down arrows move one row, PageUp and PageDown one page, Home and End to the
/// ends, `1` to `5` pick a workspace, Esc goes back, and `m`, `h`, `l`, `t`, `r` open the
/// menu, hide a panel, change the density, change the theme and refresh.
pub proof fn lemma_global_keys(panel: PanelId, workspace: Workspace)
    ensures
        resolve_spec(dashboard_stack(panel, workspace), plain_press(KeyCode::Char('q'))) == Some(Action::Quit),
        resolve_spec(dashboard_stack(panel, workspace), plain_press(KeyCode::Tab)) == Some(Action::FocusNext),
        resolve_spec(dashboard_stack(panel, workspace), plain_press(KeyCode::BackTab)) == Some(Action::FocusPrev),
        resolve_spec(dashboard_stack(panel, workspace), plain_press(KeyCode::Up)) == Some(Action::MoveUp),
        resolve_spec(dashboard_stack(panel, workspace), plain_press(KeyCode::Down)) == Some(Action::MoveDown),
        resolve_spec(dashboard_stack(panel, workspace), plain_press(KeyCode::PageUp)) == Some(Action::PageUp),
        resolve_spec(dashboard_stack(panel, workspace), plain_press(KeyCode::PageDown)) == Some(Action::PageDown),
        resolve_spec(dashboard_stack(panel, workspace), plain_press(KeyCode::Home)) == Some(Action::Home),
        resolve_spec(dashboard_stack(panel, workspace), plain_press(KeyCode::End)) == Some(Action::End),
        resolve_spec(dashboard_stack(panel, workspace), plain_press(KeyCode::Char('1'))) == Some(
            Action::GoWorkspace(Workspace::Overview),
        ),
        resolve_spec(dashboard_stack(panel, workspace), plain_press(KeyCode::Char('2'))) == Some(
            Action::GoWorkspace(Workspace::Processes),
        ),
        resolve_spec(dashboard_stack(panel, workspace), plain_press(KeyCode::Char('3'))) == Some(
            Action::GoWorkspace(Workspace::Network),
        ),
        resolve_spec(dashboard_stack(panel, workspace), plain_press(KeyCode::Char('4'))) == Some(
            Action::GoWorkspace(Workspace::Disks),
        ),
        resolve_spec(dashboard_stack(panel, workspace), plain_press(KeyCode::Char('5'))) == Some(
            Action::GoWorkspace(Workspace::More),
        ),
        resolve_spec(dashboard_stack(panel, workspace), plain_press(KeyCode::Esc)) == Some(Action::Back),
        resolve_spec(dashboard_stack(panel, workspace), plain_press(KeyCode::Char('m'))) == Some(Action::ToggleMenu),
        resolve_spec(dashboard_stack(panel, workspace), plain_press(KeyCode::Char('h'))) == Some(Action::TogglePanel),
        resolve_spec(dashboard_stack(panel, workspace), plain_press(KeyCode::Char('l'))) == Some(Action::CycleDensity),
        resolve_spec(dashboard_stack(panel, workspace), plain_press(KeyCode::Char('t'))) == Some(Action::CycleTheme),
        resolve_spec(dashboard_stack(panel, workspace), plain_press(KeyCode::Char('r'))) == Some(Action::Refresh),
{
    reveal_with_fuel(lookup_from, 40);
    let codes = seq![
        KeyCode::Char('q'), KeyCode::Tab, KeyCode::BackTab, KeyCode::Up, KeyCode::Down, KeyCode::PageUp,
        KeyCode::PageDown, KeyCode::Home, KeyCode::End, KeyCode::Char('1'), KeyCode::Char('2'),
        KeyCode::Char('3'), KeyCode::Char('4'), KeyCode::Char('5'), KeyCode::Esc, KeyCode::Char('m'),
        KeyCode::Char('h'), KeyCode::Char('l'), KeyCode::Char('t'), KeyCode::Char('r'),
    ];
    assert forall|i: int| 0 <= i < codes.len() implies resolve_spec(dashboard_stack(panel, workspace), #[trigger] plain_press(codes[i]))
        == context_result(Context::Global, plain_press(codes[i])) by {
        lemma_dashboard_falls_to_global(panel, workspace, plain_press(codes[i]));
    }
    assert(codes[0] == KeyCode::Char('q'));
}

/// With the process list in front, Enter opens the selected process, `f` starts the
/// filter, `s` changes the sort, `k` asks to terminate and Shift-`k` (or `K`) asks to
/// kill; in a confirmation only `y` confirms, `n` and Esc cancel, and every other key,
/// `q` included, is swallowed.
pub proof fn lemma_process_and_confirm_keys(workspace: Workspace, other: KeyCode)
    requires
        other != KeyCode::Char('y') && other != KeyCode::Char('n') && other != KeyCode::Esc
            && other != KeyCode::Char('Y') && other != KeyCode::Char('N'),
    ensures
        resolve_spec(dashboard_stack(PanelId::Processes, workspace), plain_press(KeyCode::Enter)) == Some(Action::Open),
        resolve_spec(dashboard_stack(PanelId::Processes, workspace), plain_press(KeyCode::Char('f'))) == Some(
            Action::StartFilter,
        ),
        resolve_spec(dashboard_stack(PanelId::Processes, workspace), plain_press(KeyCode::Char('s'))) == Some(
            Action::CycleSort,
        ),
        resolve_spec(dashboard_stack(PanelId::Processes, workspace), plain_press(KeyCode::Char('k'))) == Some(
            Action::Terminate,
        ),
        resolve_spec(dashboard_stack(PanelId::Processes, workspace), plain_press(KeyCode::Char('K'))) == Some(
            Action::Kill,
        ),
        resolve_spec(seq![Context::Confirm, Context::Global], plain_press(KeyCode::Char('y'))) == Some(Action::Confirm),
        resolve_spec(seq![Context::Confirm, Context::Global], plain_press(KeyCode::Char('n'))) == Some(Action::Cancel),
        resolve_spec(seq![Context::Confirm, Context::Global], plain_press(KeyCode::Esc)) == Some(Action::Cancel),
        resolve_spec(seq![Context::Confirm, Context::Global], plain_press(other)) is None,
{
    reveal_with_fuel(lookup_from, 40);
    let stack = dashboard_stack(PanelId::Processes, workspace);
    assert(stack[0] == Context::Panel(PanelId::Processes));
    let confirm = seq![Context::Confirm, Context::Global];
    assert(confirm[0] == Context::Confirm);
    assert(resolve_from(confirm, plain_press(other), 0) == context_result(Context::Confirm, plain_press(other)));
    assert(resolve_from(confirm, plain_press(KeyCode::Char('y')), 0) == context_result(
        Context::Confirm,
        plain_press(KeyCode::Char('y')),
    ));
    assert(resolve_from(confirm, plain_press(KeyCode::Char('n')), 0) == context_result(
        Context::Confirm,
        plain_press(KeyCode::Char('n')),
    ));
    assert(resolve_from(confirm, plain_press(KeyCode::Esc), 0) == context_result(
        Context::Confirm,
        plain_press(KeyCode::Esc),
    ));
}

} // verus!
