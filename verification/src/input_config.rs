//! Key bindings: which key presses stand for which user actions.
use vstd::prelude::*;

verus! {

/// What the user asks for.
#[derive(Clone, Copy, Debug, PartialEq, Eq, Structural)]
pub enum InputAction {
    // --- Generic actions (implemented by several components) ---
    Up,
    Down,
    Left,
    Right,
    Select,
    Back,
    Quit,
}

/// A key of the keyboard, as the terminal reports it.
#[derive(Clone, Copy, Debug, PartialEq, Eq, Structural)]
pub enum KeyCode {
    Backspace,
    Enter,
    Left,
    Right,
    Up,
    Down,
    Home,
    End,
    PageUp,
    PageDown,
    Tab,
    BackTab,
    Delete,
    Insert,
    F(u8),
    Char(char),
    Null,
    Esc,
    CapsLock,
    ScrollLock,
    NumLock,
    PrintScreen,
    Pause,
    Menu,
    KeypadBegin,
    /// A media key, by its position among the terminal's media keys.
    Media(u8),
    /// A modifier key, by its position among the terminal's modifier keys.
    Modifier(u8),
}

/// The modifier keys held down, as bits: shift 1, control 2, alt 4,
/// super 8, hyper 16, meta 32.
#[derive(Clone, Copy, Debug, PartialEq, Eq, Structural)]
pub struct KeyModifiers {
    pub bits: u8,
}

impl KeyModifiers {
    /// No modifier held down.
    pub fn none() -> (r: KeyModifiers)
        ensures
            r.bits == 0,
    {
        KeyModifiers { bits: 0 }
    }
}

/// Whether a key was pressed, repeated or released.
#[derive(Clone, Copy, Debug, PartialEq, Eq, Structural)]
pub enum KeyEventKind {
    Press,
    Repeat,
    Release,
}

/// A key event from the terminal.
#[derive(Clone, Copy, Debug, PartialEq, Eq, Structural)]
pub struct KeyEvent {
    pub code: KeyCode,
    pub modifiers: KeyModifiers,
    pub kind: KeyEventKind,
}

/// A key with modifiers that triggers an action.
#[derive(Clone, Copy, Debug, PartialEq, Eq, Structural)]
pub struct Shortcut {
    pub code: KeyCode,
    pub modifiers: KeyModifiers,
}

/// `s` matches the event `e`: same key, same modifiers.
pub open spec fn shortcut_matches(s: Shortcut, e: KeyEvent) -> bool {
    s.code == e.code && s.modifiers == e.modifiers
}

impl Shortcut {
    /// The shortcut of `code` with `modifiers`.
    pub fn new(code: KeyCode, modifiers: KeyModifiers) -> (r: Shortcut)
        ensures
            r == (Shortcut { code, modifiers }),
    {
        Shortcut { code, modifiers }
    }

    /// The shortcut of the character key `c` with no modifier.
    pub fn char(c: char) -> (r: Shortcut)
        ensures
            r == (Shortcut { code: KeyCode::Char(c), modifiers: KeyModifiers { bits: 0 } }),
    {
        Shortcut { code: KeyCode::Char(c), modifiers: KeyModifiers::none() }
    }

    /// Whether the event is this shortcut's key with its modifiers.
    pub fn matches(self, event: KeyEvent) -> (r: bool)
        ensures
            r == shortcut_matches(self, event),
    {
        self.code == event.code && self.modifiers == event.modifiers
    }
}

/// An action with the shortcuts that trigger it.
#[derive(Clone, Debug)]
pub struct Binding {
    action: InputAction,
    shortcuts: Vec<Shortcut>,
}

impl View for Binding {
    type V = (InputAction, Seq<Shortcut>);

    closed spec fn view(&self) -> (InputAction, Seq<Shortcut>) {
        (self.action, self.shortcuts@)
    }
}

impl Binding {
    /// The binding of `action` to `shortcuts`.
    pub fn new(action: InputAction, shortcuts: Vec<Shortcut>) -> (r: Binding)
        ensures
            r@ == (action, shortcuts@),
    {
        Binding { action, shortcuts }
    }
}

/// Some shortcut of `shortcuts` matches `e`.
pub open spec fn any_matches(shortcuts: Seq<Shortcut>, e: KeyEvent) -> bool {
    exists|i: int| 0 <= i < shortcuts.len() && shortcut_matches(#[trigger] shortcuts[i], e)
}

/// The action of the first binding with a shortcut that matches `e`.
pub open spec fn first_match(bindings: Seq<(InputAction, Seq<Shortcut>)>, e: KeyEvent) -> Option<InputAction>
    decreases bindings.len(),
{
    if bindings.len() == 0 {
        None
    } else if any_matches(bindings[0].1, e) {
        Some(bindings[0].0)
    } else {
        first_match(bindings.drop_first(), e)
    }
}

/// The key bindings of the application.
#[derive(Clone, Debug)]
pub struct InputConfig {
    bindings: Vec<Binding>,
}

/// The models of a sequence of bindings.
pub open spec fn bindings_view(bs: Seq<Binding>) -> Seq<(InputAction, Seq<Shortcut>)> {
    bs.map_values(|b: Binding| b@)
}

impl View for InputConfig {
    type V = Seq<(InputAction, Seq<Shortcut>)>;

    closed spec fn view(&self) -> Seq<(InputAction, Seq<Shortcut>)> {
        bindings_view(self.bindings@)
    }
}

/// The modifiers of a shortcut without modifier.
pub open spec fn no_mods() -> KeyModifiers {
    KeyModifiers { bits: 0 }
}

/// The default key bindings: `k` or up for up, `j` or down for down, `h` or
/// left for left, `l` or right for right, enter to select, escape to go
/// back, `q` to quit.
pub open spec fn default_bindings() -> Seq<(InputAction, Seq<Shortcut>)> {
    seq![
        (InputAction::Up, seq![
            Shortcut { code: KeyCode::Char('k'), modifiers: no_mods() },
            Shortcut { code: KeyCode::Up, modifiers: no_mods() },
        ]),
        (InputAction::Down, seq![
            Shortcut { code: KeyCode::Char('j'), modifiers: no_mods() },
            Shortcut { code: KeyCode::Down, modifiers: no_mods() },
        ]),
        (InputAction::Left, seq![
            Shortcut { code: KeyCode::Char('h'), modifiers: no_mods() },
            Shortcut { code: KeyCode::Left, modifiers: no_mods() },
        ]),
        (InputAction::Right, seq![
            Shortcut { code: KeyCode::Char('l'), modifiers: no_mods() },
            Shortcut { code: KeyCode::Right, modifiers: no_mods() },
        ]),
        (InputAction::Select, seq![Shortcut { code: KeyCode::Enter, modifiers: no_mods() }]),
        (InputAction::Back, seq![Shortcut { code: KeyCode::Esc, modifiers: no_mods() }]),
        (InputAction::Quit, seq![Shortcut { code: KeyCode::Char('q'), modifiers: no_mods() }]),
    ]
}

impl Default for InputConfig {
    fn default() -> (r: Self)
        ensures
            r@ == default_bindings(),
    {
        let bindings = vec![
            Binding::new(
                InputAction::Up,
                vec![Shortcut::char('k'), Shortcut::new(KeyCode::Up, KeyModifiers::none())],
            ),
            Binding::new(
                InputAction::Down,
                vec![Shortcut::char('j'), Shortcut::new(KeyCode::Down, KeyModifiers::none())],
            ),
            Binding::new(
                InputAction::Left,
                vec![Shortcut::char('h'), Shortcut::new(KeyCode::Left, KeyModifiers::none())],
            ),
            Binding::new(
                InputAction::Right,
                vec![Shortcut::char('l'), Shortcut::new(KeyCode::Right, KeyModifiers::none())],
            ),
            Binding::new(InputAction::Select, vec![Shortcut::new(KeyCode::Enter, KeyModifiers::none())]),
            Binding::new(InputAction::Back, vec![Shortcut::new(KeyCode::Esc, KeyModifiers::none())]),
            Binding::new(InputAction::Quit, vec![Shortcut::char('q')]),
        ];
        let r = InputConfig { bindings };
        assert(r@.len() == 7);
        assert(r@[0].1 =~= default_bindings()[0].1);
        assert(r@[1].1 =~= default_bindings()[1].1);
        assert(r@[2].1 =~= default_bindings()[2].1);
        assert(r@[3].1 =~= default_bindings()[3].1);
        assert(r@[4].1 =~= default_bindings()[4].1);
        assert(r@[5].1 =~= default_bindings()[5].1);
        assert(r@[6].1 =~= default_bindings()[6].1);
        assert(r@ =~= default_bindings());
        r
    }
}

proof fn lemma_first_match_skip(bs: Seq<(InputAction, Seq<Shortcut>)>, e: KeyEvent, i: int)
    requires
        0 <= i <= bs.len(),
        forall|j: int| 0 <= j < i ==> !any_matches(#[trigger] bs[j].1, e),
    ensures
        first_match(bs, e) == first_match(bs.skip(i), e),
    decreases i,
{
    if i > 0 {
        let rest = bs.drop_first();
        assert forall|j: int| 0 <= j < i - 1 implies !any_matches(#[trigger] rest[j].1, e) by {
            assert(rest[j] == bs[j + 1]);
        }
        lemma_first_match_skip(rest, e, i - 1);
        assert(rest.skip(i - 1) =~= bs.skip(i));
    } else {
        assert(bs.skip(0) =~= bs);
    }
}

impl InputConfig {
    /// The action of the first binding with a shortcut that matches the
    /// event, if any.
    pub fn action_for(&self, event: KeyEvent) -> (r: Option<InputAction>)
        ensures
            r == first_match(self@, event),
    {
        let n = self.bindings.len();
        for i in 0..n
            invariant
                n == self@.len(),
                forall|j: int| 0 <= j < i ==> !any_matches(#[trigger] self@[j].1, event),
        {
            let binding = &self.bindings[i];
            let m = binding.shortcuts.len();
            let mut found = false;
            let mut k: usize = 0;
            while k < m
                invariant_except_break
                    !found,
                invariant
                    m == binding.shortcuts@.len(),
                    k <= m,
                    forall|l: int| 0 <= l < k ==> !shortcut_matches(#[trigger] binding.shortcuts@[l], event),
                ensures
                    found ==> k < m && shortcut_matches(binding.shortcuts@[k as int], event),
                    !found ==> forall|l: int| 0 <= l < m ==> !shortcut_matches(#[trigger] binding.shortcuts@[l], event),
                decreases m - k,
            {
                if binding.shortcuts[k].matches(event) {
                    found = true;
                    break;
                }
                k = k + 1;
            }
            proof {
                assert(self@[i as int] == binding@);
                lemma_first_match_skip(self@, event, i as int);
            }
            if found {
                assert(self@.skip(i as int)[0] == self@[i as int]);
                return Some(binding.action);
            }
        }
        proof {
            lemma_first_match_skip(self@, event, n as int);
        }
        None
    }
}

// ---------------------------------------------------------------------------
// Laws of the bindings
// ---------------------------------------------------------------------------

/// An action comes out of a lookup only from a binding of that action with
/// a shortcut that matches the event, and no earlier binding matches it.
pub proof fn law_action_from_matching_binding(bs: Seq<(InputAction, Seq<Shortcut>)>, e: KeyEvent)
    ensures
        first_match(bs, e) matches Some(a) ==> exists|i: int|
            0 <= i < bs.len() && #[trigger] bs[i].0 == a && any_matches(bs[i].1, e)
                && forall|j: int| 0 <= j < i ==> !any_matches(#[trigger] bs[j].1, e),
        first_match(bs, e) is None <==> forall|i: int| 0 <= i < bs.len() ==> !any_matches(#[trigger] bs[i].1, e),
    decreases bs.len(),
{
    if bs.len() > 0 {
        let rest = bs.drop_first();
        law_action_from_matching_binding(rest, e);
        if !any_matches(bs[0].1, e) {
            if let Some(a) = first_match(bs, e) {
                let k = choose|i: int|
                    0 <= i < rest.len() && #[trigger] rest[i].0 == a && any_matches(rest[i].1, e)
                        && forall|j: int| 0 <= j < i ==> !any_matches(#[trigger] rest[j].1, e);
                assert(bs[k + 1] == rest[k]);
                assert forall|j: int| 0 <= j < k + 1 implies !any_matches(#[trigger] bs[j].1, e) by {
                    if j > 0 {
                        assert(bs[j] == rest[j - 1]);
                    }
                }
            }
            if first_match(bs, e) is None {
                assert forall|i: int| 0 <= i < bs.len() implies !any_matches(#[trigger] bs[i].1, e) by {
                    if i > 0 {
                        assert(bs[i] == rest[i - 1]);
                    }
                }
            } else {
                let i0 = choose|i: int| 0 <= i < rest.len() && any_matches(#[trigger] rest[i].1, e);
                assert(bs[i0 + 1] == rest[i0]);
            }
        }
    }
}

/// The action that the default bindings give a key event.
pub open spec fn default_action(e: KeyEvent) -> Option<InputAction> {
    if e.modifiers.bits != 0 {
        None
    } else {
        match e.code {
            KeyCode::Char('k') | KeyCode::Up => Some(InputAction::Up),
            KeyCode::Char('j') | KeyCode::Down => Some(InputAction::Down),
            KeyCode::Char('h') | KeyCode::Left => Some(InputAction::Left),
            KeyCode::Char('l') | KeyCode::Right => Some(InputAction::Right),
            KeyCode::Enter => Some(InputAction::Select),
            KeyCode::Esc => Some(InputAction::Back),
            KeyCode::Char('q') => Some(InputAction::Quit),
            _ => None,
        }
    }
}

proof fn lemma_any_matches_small(ss: Seq<Shortcut>, e: KeyEvent)
    requires
        1 <= ss.len() <= 2,
    ensures
        ss.len() == 1 ==> (any_matches(ss, e) == shortcut_matches(ss[0], e)),
        ss.len() == 2 ==> (any_matches(ss, e) == (shortcut_matches(ss[0], e) || shortcut_matches(ss[1], e))),
{
    if shortcut_matches(ss[0], e) {
        assert(any_matches(ss, e));
    }
    if ss.len() == 2 && shortcut_matches(ss[1], e) {
        assert(any_matches(ss, e));
    }
}

/// With the default bindings, `k` or up gives up, `j` or down gives down,
/// `h` or left gives left, `l` or right gives right, enter gives select,
/// escape gives back and `q` gives quit, all without modifiers; every other
/// key event gives no action.
pub proof fn law_default_bindings(e: KeyEvent)
    ensures
        first_match(default_bindings(), e) == default_action(e),
{
    let bs = default_bindings();
    lemma_any_matches_small(bs[0].1, e);
    lemma_any_matches_small(bs[1].1, e);
    lemma_any_matches_small(bs[2].1, e);
    lemma_any_matches_small(bs[3].1, e);
    lemma_any_matches_small(bs[4].1, e);
    lemma_any_matches_small(bs[5].1, e);
    lemma_any_matches_small(bs[6].1, e);
    let b1 = bs.drop_first();
    let b2 = b1.drop_first();
    let b3 = b2.drop_first();
    let b4 = b3.drop_first();
    let b5 = b4.drop_first();
    let b6 = b5.drop_first();
    let b7 = b6.drop_first();
    assert(b1[0] == bs[1] && b2[0] == bs[2] && b3[0] == bs[3] && b4[0] == bs[4]);
    assert(b5[0] == bs[5] && b6[0] == bs[6] && b7.len() == 0);
    assert(first_match(b7, e) is None);
    assert(first_match(b6, e) == if any_matches(bs[6].1, e) { Some(InputAction::Quit) } else { None });
    assert(first_match(b5, e) == if any_matches(bs[5].1, e) { Some(InputAction::Back) } else { first_match(b6, e) });
    assert(first_match(b4, e) == if any_matches(bs[4].1, e) { Some(InputAction::Select) } else { first_match(b5, e) });
    assert(first_match(b3, e) == if any_matches(bs[3].1, e) { Some(InputAction::Right) } else { first_match(b4, e) });
    assert(first_match(b2, e) == if any_matches(bs[2].1, e) { Some(InputAction::Left) } else { first_match(b3, e) });
    assert(first_match(b1, e) == if any_matches(bs[1].1, e) { Some(InputAction::Down) } else { first_match(b2, e) });
    assert(first_match(bs, e) == if any_matches(bs[0].1, e) { Some(InputAction::Up) } else { first_match(b1, e) });
    assert(first_match(bs, e) == default_action(e));
}

} // verus!
