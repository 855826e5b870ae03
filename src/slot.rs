//! The callback slots of the export table and of the extras protocol.
use vstd::prelude::*;

verus! {

/// One optional callback position. The first seven live in the export table;
/// the last four belong to the unofficial extras subscriber protocol.
#[derive(Clone, Copy, Debug, PartialEq, Eq, Structural)]
pub enum SlotId {
    Combat,
    CombatLocal,
    Imgui,
    OptionsEnd,
    OptionsWindows,
    WndFilter,
    WndNofilter,
    ExtrasInit,
    ExtrasSquadUpdate,
    ExtrasChatMessage,
    ExtrasChatMessage2,
}

/// Number of slots.
pub const SLOT_COUNT: usize = 11;

/// Number of slots that are fields of the export table.
pub const TABLE_SLOT_COUNT: usize = 7;

impl SlotId {
    /// Position of the slot, in declaration order.
    pub open spec fn spec_index(self) -> nat {
        match self {
            SlotId::Combat => 0,
            SlotId::CombatLocal => 1,
            SlotId::Imgui => 2,
            SlotId::OptionsEnd => 3,
            SlotId::OptionsWindows => 4,
            SlotId::WndFilter => 5,
            SlotId::WndNofilter => 6,
            SlotId::ExtrasInit => 7,
            SlotId::ExtrasSquadUpdate => 8,
            SlotId::ExtrasChatMessage => 9,
            SlotId::ExtrasChatMessage2 => 10,
        }
    }

    /// The slot at a position, the inverse of `spec_index`.
    pub open spec fn at(i: int) -> SlotId
        recommends
            0 <= i < SLOT_COUNT,
    {
        if i == 0 {
            SlotId::Combat
        } else if i == 1 {
            SlotId::CombatLocal
        } else if i == 2 {
            SlotId::Imgui
        } else if i == 3 {
            SlotId::OptionsEnd
        } else if i == 4 {
            SlotId::OptionsWindows
        } else if i == 5 {
            SlotId::WndFilter
        } else if i == 6 {
            SlotId::WndNofilter
        } else if i == 7 {
            SlotId::ExtrasInit
        } else if i == 8 {
            SlotId::ExtrasSquadUpdate
        } else if i == 9 {
            SlotId::ExtrasChatMessage
        } else {
            SlotId::ExtrasChatMessage2
        }
    }

    pub fn index(&self) -> (r: usize)
        ensures
            r == self.spec_index(),
            r < SLOT_COUNT,
            SlotId::at(r as int) == *self,
    {
        match self {
            SlotId::Combat => 0,
            SlotId::CombatLocal => 1,
            SlotId::Imgui => 2,
            SlotId::OptionsEnd => 3,
            SlotId::OptionsWindows => 4,
            SlotId::WndFilter => 5,
            SlotId::WndNofilter => 6,
            SlotId::ExtrasInit => 7,
            SlotId::ExtrasSquadUpdate => 8,
            SlotId::ExtrasChatMessage => 9,
            SlotId::ExtrasChatMessage2 => 10,
        }
    }

    /// Declaration name of the slot's idiomatic variant.
    pub open spec fn safe_name(self) -> Seq<char> {
        match self {
            SlotId::Combat => "combat"@,
            SlotId::CombatLocal => "combat_local"@,
            SlotId::Imgui => "imgui"@,
            SlotId::OptionsEnd => "options_end"@,
            SlotId::OptionsWindows => "options_windows"@,
            SlotId::WndFilter => "wnd_filter"@,
            SlotId::WndNofilter => "wnd_nofilter"@,
            SlotId::ExtrasInit => "unofficial_extras_init"@,
            SlotId::ExtrasSquadUpdate => "unofficial_extras_squad_update"@,
            SlotId::ExtrasChatMessage => "unofficial_extras_chat_message"@,
            SlotId::ExtrasChatMessage2 => "unofficial_extras_chat_message2"@,
        }
    }

    /// Declaration name of the slot's raw variant.
    pub open spec fn raw_name(self) -> Seq<char> {
        match self {
            SlotId::Combat => "raw_combat"@,
            SlotId::CombatLocal => "raw_combat_local"@,
            SlotId::Imgui => "raw_imgui"@,
            SlotId::OptionsEnd => "raw_options_end"@,
            SlotId::OptionsWindows => "raw_options_windows"@,
            SlotId::WndFilter => "raw_wnd_filter"@,
            SlotId::WndNofilter => "raw_wnd_nofilter"@,
            SlotId::ExtrasInit => "raw_unofficial_extras_init"@,
            SlotId::ExtrasSquadUpdate => "raw_unofficial_extras_squad_update"@,
            SlotId::ExtrasChatMessage => "raw_unofficial_extras_chat_message"@,
            SlotId::ExtrasChatMessage2 => "raw_unofficial_extras_chat_message2"@,
        }
    }

    pub fn safe_name_str(&self) -> (r: &'static str)
        ensures
            r@ == self.safe_name(),
    {
        match self {
            SlotId::Combat => "combat",
            SlotId::CombatLocal => "combat_local",
            SlotId::Imgui => "imgui",
            SlotId::OptionsEnd => "options_end",
            SlotId::OptionsWindows => "options_windows",
            SlotId::WndFilter => "wnd_filter",
            SlotId::WndNofilter => "wnd_nofilter",
            SlotId::ExtrasInit => "unofficial_extras_init",
            SlotId::ExtrasSquadUpdate => "unofficial_extras_squad_update",
            SlotId::ExtrasChatMessage => "unofficial_extras_chat_message",
            SlotId::ExtrasChatMessage2 => "unofficial_extras_chat_message2",
        }
    }

    pub fn raw_name_str(&self) -> (r: &'static str)
        ensures
            r@ == self.raw_name(),
    {
        match self {
            SlotId::Combat => "raw_combat",
            SlotId::CombatLocal => "raw_combat_local",
            SlotId::Imgui => "raw_imgui",
            SlotId::OptionsEnd => "raw_options_end",
            SlotId::OptionsWindows => "raw_options_windows",
            SlotId::WndFilter => "raw_wnd_filter",
            SlotId::WndNofilter => "raw_wnd_nofilter",
            SlotId::ExtrasInit => "raw_unofficial_extras_init",
            SlotId::ExtrasSquadUpdate => "raw_unofficial_extras_squad_update",
            SlotId::ExtrasChatMessage => "raw_unofficial_extras_chat_message",
            SlotId::ExtrasChatMessage2 => "raw_unofficial_extras_chat_message2",
        }
    }

    pub fn from_index(i: usize) -> (r: SlotId)
        requires
            i < SLOT_COUNT,
        ensures
            r == SlotId::at(i as int),
            r.spec_index() == i,
    {
        if i == 0 {
            SlotId::Combat
        } else if i == 1 {
            SlotId::CombatLocal
        } else if i == 2 {
            SlotId::Imgui
        } else if i == 3 {
            SlotId::OptionsEnd
        } else if i == 4 {
            SlotId::OptionsWindows
        } else if i == 5 {
            SlotId::WndFilter
        } else if i == 6 {
            SlotId::WndNofilter
        } else if i == 7 {
            SlotId::ExtrasInit
        } else if i == 8 {
            SlotId::ExtrasSquadUpdate
        } else if i == 9 {
            SlotId::ExtrasChatMessage
        } else {
            SlotId::ExtrasChatMessage2
        }
    }

    pub proof fn lemma_at_index(self)
        ensures
            SlotId::at(self.spec_index() as int) == self,
            self.spec_index() < SLOT_COUNT,
    {
    }

    /// Whether the slot is a field of the export table.
    pub open spec fn in_table(self) -> bool {
        self.spec_index() < TABLE_SLOT_COUNT
    }
}

/// What a declaration binds to one slot: nothing, an expression that already
/// has the native signature, or an idiomatic callback that needs an adapter.
#[derive(Debug)]
pub enum Binding<E> {
    Unbound,
    Raw(E),
    Safe(E),
}

/// What a table field refers to: the raw expression itself, or the adapter
/// generated for a slot around an idiomatic callback.
#[derive(Debug)]
pub enum Callback<E> {
    Direct(E),
    Adapter(SlotId, E),
}

/// The field a binding resolves to: a raw expression is referenced directly,
/// a safe one through the adapter of its slot, and an unbound slot is absent.
pub open spec fn resolved<E>(b: Binding<E>, slot: SlotId) -> Option<Callback<E>> {
    match b {
        Binding::Unbound => None,
        Binding::Raw(e) => Some(Callback::Direct(e)),
        Binding::Safe(e) => Some(Callback::Adapter(slot, e)),
    }
}

/// Resolves the binding of `slot` into the value of its field.
pub fn resolve<E>(b: Binding<E>, slot: SlotId) -> (r: Option<Callback<E>>)
    ensures
        r == resolved(b, slot),
{
    match b {
        Binding::Unbound => None,
        Binding::Raw(e) => Some(Callback::Direct(e)),
        Binding::Safe(e) => Some(Callback::Adapter(slot, e)),
    }
}

} // verus!
