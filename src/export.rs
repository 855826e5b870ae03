//! The export table the host reads, its error shadow, and the plan of the
//! extras entry point, synthesized from a declaration.
use vstd::prelude::*;
use vstd::string::StringExecFns;
use crate::decl::{declares, last_value, Declaration, Field, Key};
use crate::slot::{resolve, resolved, Binding, Callback, SlotId};

verus! {

/// The UI library version that the table announces.
pub const IMGUI_VERSION: u32 = 18000;

/// What the table's first field holds. The host reads it as the table's byte
/// size; on a failed load the error shadow carries the address of the error
/// text there instead, which is how the host learns why the load failed.
#[derive(Clone, Copy, Debug, PartialEq, Eq, Structural)]
pub enum SizeField {
    /// The byte size of the table record.
    TableSize,
    /// Zero.
    Zero,
    /// The address of the nul-terminated error text.
    ErrorText,
}

/// The host's export record, field for field. `sig` is `None` in the error
/// shadow, which carries zero there.
pub struct ExportTable<E> {
    pub size: SizeField,
    pub sig: Option<E>,
    pub imgui_version: u32,
    pub out_build: String,
    pub out_name: String,
    pub combat: Option<Callback<E>>,
    pub combat_local: Option<Callback<E>>,
    pub imgui: Option<Callback<E>>,
    pub options_end: Option<Callback<E>>,
    pub options_windows: Option<Callback<E>>,
    pub wnd_filter: Option<Callback<E>>,
    pub wnd_nofilter: Option<Callback<E>>,
}

impl<E> ExportTable<E> {
    /// The callback field of a table slot; `None` for the extras slots,
    /// which have no field here.
    pub open spec fn field(&self, s: SlotId) -> Option<Callback<E>> {
        match s {
            SlotId::Combat => self.combat,
            SlotId::CombatLocal => self.combat_local,
            SlotId::Imgui => self.imgui,
            SlotId::OptionsEnd => self.options_end,
            SlotId::OptionsWindows => self.options_windows,
            SlotId::WndFilter => self.wnd_filter,
            SlotId::WndNofilter => self.wnd_nofilter,
            _ => None,
        }
    }
}

/// The callbacks handed to the extras host.
pub struct ExtrasCallbacks<E> {
    pub squad_update: Option<Callback<E>>,
    pub chat_message: Option<Callback<E>>,
    pub chat_message2: Option<Callback<E>>,
}

/// How the extras entry point is provided.
pub enum ExtrasInit<E> {
    /// Not exported: the extras host never calls it.
    Omitted,
    /// Exported as a call of the raw expression, which owns the header.
    Forward(E),
    /// Exported as the version cascade that fills in the callbacks, followed
    /// by a call of the idiomatic hook when there is one.
    Populate { user: Option<E>, callbacks: ExtrasCallbacks<E> },
}

/// The extras entry point that a declaration calls for. A raw init owns the
/// header; otherwise a safe init, a squad update or a chat message callback
/// asks for the cascade, and nothing else does.
pub open spec fn extras_plan<E>(d: Declaration<E>) -> ExtrasInit<E> {
    let callbacks = ExtrasCallbacks {
        squad_update: resolved(d.binding(SlotId::ExtrasSquadUpdate), SlotId::ExtrasSquadUpdate),
        chat_message: resolved(d.binding(SlotId::ExtrasChatMessage), SlotId::ExtrasChatMessage),
        chat_message2: resolved(d.binding(SlotId::ExtrasChatMessage2), SlotId::ExtrasChatMessage2),
    };
    match d.binding(SlotId::ExtrasInit) {
        Binding::Raw(e) => ExtrasInit::Forward(e),
        Binding::Safe(e) => ExtrasInit::Populate { user: Some(e), callbacks },
        Binding::Unbound => if callbacks.squad_update is Some || callbacks.chat_message is Some {
            ExtrasInit::Populate { user: None, callbacks }
        } else {
            ExtrasInit::Omitted
        },
    }
}

/// The name the host shows: the declared one, else the package's.
pub open spec fn shown_name<E>(d: Declaration<E>, package_name: Seq<char>) -> Seq<char> {
    match d.name {
        Some(n) => n@,
        None => package_name,
    }
}

/// Everything the generator emits for one declaration.
pub struct Synthesis<E> {
    /// The table returned on a successful load.
    pub export: ExportTable<E>,
    /// The table returned on a failed load.
    pub export_error: ExportTable<E>,
    /// The extras entry point.
    pub extras: ExtrasInit<E>,
    /// The name the host shows, without terminator.
    pub name: String,
    pub init: Option<E>,
    pub release: Option<E>,
}

/// Whether `t` is the success table for `d`.
pub open spec fn success_table<E>(
    d: Declaration<E>,
    t: ExportTable<E>,
    build: Seq<char>,
    name: Seq<char>,
) -> bool {
    &&& t.size == SizeField::TableSize
    &&& t.sig == Some(d.sig)
    &&& t.imgui_version == IMGUI_VERSION
    &&& t.out_build@ == build.push('\0')
    &&& t.out_name@ == name.push('\0')
    &&& forall|s: SlotId| s.in_table() ==> #[trigger] t.field(s) == resolved(d.binding(s), s)
}

/// Whether `e` is the error shadow of `t`: the same strings, no signature,
/// no callbacks, and a zero size until a load fails.
pub open spec fn error_shadow<E>(t: ExportTable<E>, e: ExportTable<E>) -> bool {
    &&& e.size == SizeField::Zero
    &&& e.sig is None
    &&& e.imgui_version == IMGUI_VERSION
    &&& e.out_build == t.out_build
    &&& e.out_name == t.out_name
    &&& forall|s: SlotId| #[trigger] e.field(s) is None
}

fn nul_terminated(s: &str) -> (r: String)
    ensures
        r@ == s@.push('\0'),
{
    let r = String::from_str(s).concat("\0");
    proof {
        reveal_strlit("\0");
        assert(r@ =~= s@.push('\0'));
    }
    r
}

/// Synthesizes the tables and the extras plan of a declaration. `build` is
/// the package version and `package_name` the name shown when the
/// declaration gives none.
pub fn synthesize<E>(d: Declaration<E>, build: &str, package_name: &str) -> (r: Synthesis<E>)
    requires
        d.wf(),
    ensures
        r.name@ == shown_name(d, package_name@),
        success_table(d, r.export, build@, r.name@),
        error_shadow(r.export, r.export_error),
        r.extras == extras_plan(d),
        r.init == d.init,
        r.release == d.release,
{
    let ghost d0 = d;
    let name = match &d.name {
        Some(n) => n.clone(),
        None => String::from_str(package_name),
    };
    let out_build = nul_terminated(build);
    let out_name = nul_terminated(name.as_str());
    let Declaration { name: _, sig, init, release, slots } = d;
    let mut slots = slots;
    let combat = resolve(slots.remove(0), SlotId::Combat);
    let combat_local = resolve(slots.remove(0), SlotId::CombatLocal);
    let imgui = resolve(slots.remove(0), SlotId::Imgui);
    let options_end = resolve(slots.remove(0), SlotId::OptionsEnd);
    let options_windows = resolve(slots.remove(0), SlotId::OptionsWindows);
    let wnd_filter = resolve(slots.remove(0), SlotId::WndFilter);
    let wnd_nofilter = resolve(slots.remove(0), SlotId::WndNofilter);
    let extras_init = slots.remove(0);
    let squad_update = resolve(slots.remove(0), SlotId::ExtrasSquadUpdate);
    let chat_message = resolve(slots.remove(0), SlotId::ExtrasChatMessage);
    let chat_message2 = resolve(slots.remove(0), SlotId::ExtrasChatMessage2);
    let wanted = squad_update.is_some() || chat_message.is_some();
    let callbacks = ExtrasCallbacks { squad_update, chat_message, chat_message2 };
    let extras = match extras_init {
        Binding::Raw(e) => ExtrasInit::Forward(e),
        Binding::Safe(e) => ExtrasInit::Populate { user: Some(e), callbacks },
        Binding::Unbound => if wanted {
            ExtrasInit::Populate { user: None, callbacks }
        } else {
            ExtrasInit::Omitted
        },
    };
    let export_error = ExportTable {
        size: SizeField::Zero,
        sig: None,
        imgui_version: IMGUI_VERSION,
        out_build: out_build.clone(),
        out_name: out_name.clone(),
        combat: None,
        combat_local: None,
        imgui: None,
        options_end: None,
        options_windows: None,
        wnd_filter: None,
        wnd_nofilter: None,
    };
    let export = ExportTable {
        size: SizeField::TableSize,
        sig: Some(sig),
        imgui_version: IMGUI_VERSION,
        out_build,
        out_name,
        combat,
        combat_local,
        imgui,
        options_end,
        options_windows,
        wnd_filter,
        wnd_nofilter,
    };
    let r = Synthesis { export, export_error, extras, name, init, release };
    proof {
        assert forall|s: SlotId| s.in_table() implies #[trigger] r.export.field(s) == resolved(
            d0.binding(s),
            s,
        ) by {}
    }
    r
}

/// How each table slot is provided, from the entries to the table: a slot
/// bound raw refers to the raw expression itself; one bound only safe refers
/// to the adapter of the slot around it, never to the safe expression
/// itself; an unbound one is absent.
pub proof fn lemma_slot_provision<E>(
    fs: Seq<Field<E>>,
    d: Declaration<E>,
    t: ExportTable<E>,
    build: Seq<char>,
    name: Seq<char>,
    s: SlotId,
)
    requires
        declares(fs, d),
        success_table(d, t, build, name),
        s.in_table(),
    ensures
        last_value(fs, Key::Raw(s)) matches Some(e) ==> t.field(s) == Some(Callback::Direct(e)),
        last_value(fs, Key::Raw(s)) is None ==> (last_value(fs, Key::Safe(s)) matches Some(e)
            ==> t.field(s) == Some(Callback::Adapter(s, e))),
        last_value(fs, Key::Raw(s)) is None && last_value(fs, Key::Safe(s)) is None ==> t.field(
            s,
        ) is None,
{
    assert(d.binding(s) == crate::decl::binding_of(fs, s));
}

} // verus!
