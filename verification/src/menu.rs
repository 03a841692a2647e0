use vstd::prelude::*;
use vstd::string::StringSliceAdditionalSpecFns;

verus! {

/// Whether the player is in a menu or playing.
#[derive(Clone, Copy, PartialEq, Eq, Hash, Debug, Structural)]
pub enum GameState {
    InMenu,
    Playing,
}

impl Default for GameState {
    fn default() -> (r: GameState)
        ensures
            r == GameState::InMenu,
    {
        GameState::InMenu
    }
}

/// SipHash-2-4 with both keys zero, of a byte string.
pub uninterp spec fn sip_hash_24(bytes: Seq<u8>) -> u64;

/// Calls `const_siphasher::sip::SipHasher::new().hash(bytes)`: SipHash-2-4 keyed
/// with zeros, a function of the bytes alone.
#[verifier::external_body]
fn sip_hash(bytes: &[u8]) -> (h: u64)
    ensures
        h == sip_hash_24(bytes@),
{
    const_siphasher::sip::SipHasher::new().hash(bytes)
}

/// Identifies a menu: a name's hash shifted left one bit, with the low bit set
/// for menus that close when escape is pressed with nothing behind them.
#[derive(Clone, Copy, PartialEq, Eq, Hash, Debug, Structural)]
pub struct MenuId(pub u64);

pub open spec fn spec_menu_id(name: Seq<u8>) -> u64 {
    sip_hash_24(name) << 1u64
}

impl MenuId {
    pub fn new(ident: &str) -> (r: MenuId)
        ensures
            r == MenuId(spec_menu_id(ident.spec_bytes())),
    {
        let h = sip_hash(ident.as_bytes());
        MenuId(h << 1u64)
    }

    pub fn new_auto_close(ident: &str) -> (r: MenuId)
        ensures
            r == MenuId(spec_menu_id(ident.spec_bytes()) | 1u64),
    {
        let mut id = Self::new(ident).0;
        id = id | 1u64;
        MenuId(id)
    }

    pub open spec fn spec_auto_close(self) -> bool {
        self.0 & 1u64 == 1u64
    }

    pub fn auto_close(self) -> (r: bool)
        ensures
            r == self.spec_auto_close(),
    {
        self.0 & 1 == 1
    }
}

impl Default for MenuId {
    fn default() -> (r: MenuId)
        ensures
            r == MenuId(spec_menu_id("main_menu".spec_bytes())),
    {
        MainMenu::id()
    }
}

/// A menu made with `new` never closes on its own; one made with
/// `new_auto_close` always does, and differs from the plain one only in the low
/// bit.
pub proof fn lemma_auto_close_flag(h: u64)
    ensures
        !MenuId(h << 1u64).spec_auto_close(),
        MenuId((h << 1u64) | 1u64).spec_auto_close(),
        ((h << 1u64) | 1u64) & !1u64 == h << 1u64,
{
    assert((h << 1u64) & 1u64 == 0u64) by (bit_vector);
    assert(((h << 1u64) | 1u64) & 1u64 == 1u64) by (bit_vector);
    assert(((h << 1u64) | 1u64) & !1u64 == h << 1u64) by (bit_vector);
}

/// The menu shown first.
pub struct MainMenu;

/// The pause menu; escape from it resumes play.
pub struct EscapeMenu;

pub struct SettingsMenu;

pub struct CameraSettingsMenu;

pub struct DebugMenu;

pub struct ViewMenu;

/// Stands for "no menu open": id 0.
pub struct NoMenu;

impl MainMenu {
    pub fn id() -> (r: MenuId)
        ensures
            r == MenuId(spec_menu_id("main_menu".spec_bytes())),
    {
        MenuId::new("main_menu")
    }
}

impl EscapeMenu {
    pub fn id() -> (r: MenuId)
        ensures
            r == MenuId(spec_menu_id("esc_menu".spec_bytes()) | 1u64),
            r.spec_auto_close(),
    {
        proof {
            lemma_auto_close_flag(sip_hash_24("esc_menu".spec_bytes()));
        }
        MenuId::new_auto_close("esc_menu")
    }
}

impl SettingsMenu {
    pub fn id() -> (r: MenuId)
        ensures
            r == MenuId(spec_menu_id("settings_menu".spec_bytes())),
    {
        MenuId::new("settings_menu")
    }
}

impl CameraSettingsMenu {
    pub fn id() -> (r: MenuId)
        ensures
            r == MenuId(spec_menu_id("camera_settings_menu".spec_bytes())),
    {
        MenuId::new("camera_settings_menu")
    }
}

impl DebugMenu {
    pub fn id() -> (r: MenuId)
        ensures
            r == MenuId(spec_menu_id("debug_menu".spec_bytes())),
    {
        MenuId::new("debug_menu")
    }
}

impl ViewMenu {
    pub fn id() -> (r: MenuId)
        ensures
            r == MenuId(spec_menu_id("view_menu".spec_bytes())),
    {
        MenuId::new("view_menu")
    }
}

impl NoMenu {
    pub fn id() -> (r: MenuId)
        ensures
            r == MenuId(0),
    {
        MenuId(0)
    }
}

/// The menus to go back to, most recent last.
pub struct MenuStack(pub Vec<MenuId>);

/// What pressing escape asks for: a menu to show and a game state to enter.
#[derive(Clone, Copy, PartialEq, Eq, Debug, Structural)]
pub struct EscAction {
    pub next_menu: Option<MenuId>,
    pub next_state: Option<GameState>,
}

/// The stack after opening `target` from `current`.
pub open spec fn stack_after_open(stack: Seq<MenuId>, current: MenuId) -> Seq<MenuId> {
    stack.push(current)
}

/// What escape does to the stack of menus to go back to, and what it asks for.
pub open spec fn esc_outcome(stack: Seq<MenuId>, state: GameState, open_menu: Option<MenuId>) -> (
    Seq<MenuId>,
    EscAction,
) {
    match state {
        GameState::InMenu => if stack.len() > 0 {
            (stack.drop_last(), EscAction { next_menu: Some(stack.last()), next_state: None })
        } else {
            (
                stack,
                EscAction {
                    next_menu: None,
                    next_state: match open_menu {
                        Some(m) => if m.spec_auto_close() {
                            Some(GameState::Playing)
                        } else {
                            None
                        },
                        None => Some(GameState::Playing),
                    },
                },
            )
        },
        GameState::Playing => (
            stack,
            EscAction {
                next_menu: Some(
                    if stack.len() == 0 {
                        MenuId(spec_menu_id("esc_menu".spec_bytes()) | 1u64)
                    } else {
                        stack.last()
                    },
                ),
                next_state: Some(GameState::InMenu),
            },
        ),
    }
}

impl MenuStack {
    pub fn new() -> (r: MenuStack)
        ensures
            r.0@ == Seq::<MenuId>::empty(),
    {
        MenuStack(Vec::new())
    }

    /// Opens `target` from `current`, remembering `current` to go back to.
    pub fn open_menu(&mut self, current: MenuId, target: MenuId) -> (next: MenuId)
        ensures
            final(self).0@ == stack_after_open(old(self).0@, current),
            next == target,
    {
        self.0.push(current);
        target
    }

    /// Forgets every menu to go back to.
    pub fn clear_stack(&mut self)
        ensures
            final(self).0@ == Seq::<MenuId>::empty(),
    {
        self.0.clear();
    }

    /// Escape: in a menu, go back to the previous one; with none to go back to,
    /// resume play if the open menu closes on its own or no menu is open. While
    /// playing, open the menu last gone back from, or the pause menu.
    pub fn on_esc(&mut self, state: GameState, open_menu: Option<MenuId>) -> (r: EscAction)
        ensures
            (final(self).0@, r) == esc_outcome(old(self).0@, state, open_menu),
    {
        match state {
            GameState::InMenu => {
                if let Some(prev) = self.0.pop() {
                    EscAction { next_menu: Some(prev), next_state: None }
                } else if let Some(open) = open_menu {
                    if open.auto_close() {
                        EscAction { next_menu: None, next_state: Some(GameState::Playing) }
                    } else {
                        EscAction { next_menu: None, next_state: None }
                    }
                } else {
                    EscAction { next_menu: None, next_state: Some(GameState::Playing) }
                }
            },
            GameState::Playing => {
                let n = self.0.len();
                let menu = if n == 0 {
                    EscapeMenu::id()
                } else {
                    self.0[n - 1]
                };
                EscAction { next_menu: Some(menu), next_state: Some(GameState::InMenu) }
            },
        }
    }
}

/// Opening a menu and then pressing escape goes back to the menu it was
/// opened from, asks for no change of game state, and leaves the stack as it
/// was before the menu was opened.
pub proof fn lemma_open_then_escape(before: Seq<MenuId>, current: MenuId, open_menu: Option<MenuId>)
    ensures
        esc_outcome(stack_after_open(before, current), GameState::InMenu, open_menu) == (
            before,
            EscAction { next_menu: Some(current), next_state: None },
        ),
{
    assert(before.push(current).drop_last() =~= before);
}

/// Escape while playing never changes the stack and always enters a menu:
/// the one last gone back from, or the pause menu, which closes on its own.
pub proof fn lemma_escape_while_playing(stack: Seq<MenuId>, open_menu: Option<MenuId>)
    ensures
        esc_outcome(stack, GameState::Playing, open_menu).0 == stack,
        esc_outcome(stack, GameState::Playing, open_menu).1.next_state == Some(GameState::InMenu),
        stack.len() == 0 ==> esc_outcome(stack, GameState::Playing, open_menu).1.next_menu.unwrap().spec_auto_close(),
{
    lemma_auto_close_flag(sip_hash_24("esc_menu".spec_bytes()));
}

} // verus!
