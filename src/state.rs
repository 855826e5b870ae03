//! The module's process-wide state and its lifecycle entry points: attach,
//! load and release.
use vstd::prelude::*;
use vstd::string::StringExecFns;
use crate::export::{ExportTable, SizeField};

verus! {

/// Which table a load hands the host.
#[derive(Clone, Copy, Debug, PartialEq, Eq, Structural)]
pub enum TableRef {
    Success,
    ErrorShadow,
}

/// The functions whose addresses the discoverable entry points return.
#[derive(Clone, Copy, Debug, PartialEq, Eq, Structural)]
pub enum EntryPoint {
    Load,
    Unload,
}

/// The entry point that attach hands out.
pub open spec fn attach_entry() -> EntryPoint {
    EntryPoint::Load
}

/// The entry point that the release lookup hands out.
pub open spec fn release_entry() -> EntryPoint {
    EntryPoint::Unload
}

/// The table a load with this outcome of the init hook hands out.
pub open spec fn load_table(succeeded: bool) -> TableRef {
    if succeeded {
        TableRef::Success
    } else {
        TableRef::ErrorShadow
    }
}

/// What the loaded module keeps for its whole life. It is written while the
/// host attaches and loads the module and only read afterwards.
pub struct ProcessState<E> {
    pub export: ExportTable<E>,
    pub export_error: ExportTable<E>,
    /// The last load failure's text, nul-terminated.
    pub error_text: String,
    /// The swapchain handle the host passed on attach, if not null.
    pub swapchain: Option<usize>,
    /// The UI context handle the host passed on attach, if not null.
    pub ui_context: Option<usize>,
}

/// Whether `e` is `t` with the size field pointed at the error text.
pub open spec fn points_at_error<E>(t: ExportTable<E>, e: ExportTable<E>) -> bool {
    &&& e.size == SizeField::ErrorText
    &&& e.sig == t.sig
    &&& e.imgui_version == t.imgui_version
    &&& e.out_build == t.out_build
    &&& e.out_name == t.out_name
    &&& e.combat == t.combat
    &&& e.combat_local == t.combat_local
    &&& e.imgui == t.imgui
    &&& e.options_end == t.options_end
    &&& e.options_windows == t.options_windows
    &&& e.wnd_filter == t.wnd_filter
    &&& e.wnd_nofilter == t.wnd_nofilter
}

/// Whether `after` is `before` once a load ran with `outcome`. A success
/// changes nothing. A failure keeps the failure's text with a nul after it
/// and points the error shadow's size field at it.
pub open spec fn loaded<E>(
    before: ProcessState<E>,
    after: ProcessState<E>,
    outcome: Result<(), String>,
) -> bool {
    match outcome {
        Ok(_) => after == before,
        Err(m) => {
            &&& after.export == before.export
            &&& after.swapchain == before.swapchain
            &&& after.ui_context == before.ui_context
            &&& after.error_text@ == m@.push('\0')
            &&& points_at_error(before.export_error, after.export_error)
        },
    }
}

impl<E> ProcessState<E> {
    /// The state of a module that has not been attached yet.
    pub fn new(export: ExportTable<E>, export_error: ExportTable<E>) -> (r: Self)
        ensures
            r.export == export,
            r.export_error == export_error,
            r.error_text@.len() == 0,
            r.swapchain is None,
            r.ui_context is None,
    {
        ProcessState { export, export_error, error_text: String::new(), swapchain: None, ui_context: None }
    }

    /// The host attaches the module: keep its handles, where not null, and
    /// hand out the load entry point.
    pub fn attach(&mut self, swapchain: usize, ui_context: usize) -> (r: EntryPoint)
        ensures
            r == attach_entry(),
            final(self).swapchain == if swapchain == 0 {
                None
            } else {
                Some(swapchain)
            },
            final(self).ui_context == if ui_context == 0 {
                None
            } else {
                Some(ui_context)
            },
            final(self).export == old(self).export,
            final(self).export_error == old(self).export_error,
            final(self).error_text == old(self).error_text,
    {
        self.swapchain = if swapchain == 0 {
            None
        } else {
            Some(swapchain)
        };
        self.ui_context = if ui_context == 0 {
            None
        } else {
            Some(ui_context)
        };
        EntryPoint::Load
    }

    /// The host loads the module, after the init hook ran with `outcome`
    /// (`Ok` as well where there is no hook). On success the success table
    /// is handed out and nothing changes. On failure the failure's text is
    /// kept with a nul after it, the error shadow's size field is pointed at
    /// it, and the error shadow is handed out.
    pub fn load(&mut self, outcome: Result<(), String>) -> (r: TableRef)
        ensures
            r == load_table(outcome is Ok),
            loaded(*old(self), *final(self), outcome),
    {
        match outcome {
            Ok(()) => TableRef::Success,
            Err(m) => {
                let text = m.concat("\0");
                proof {
                    reveal_strlit("\0");
                    assert(text@ =~= m@.push('\0'));
                }
                self.error_text = text;
                self.export_error.size = SizeField::ErrorText;
                TableRef::ErrorShadow
            },
        }
    }

    /// The host asks where to call on exit.
    pub fn release_addr(&self) -> (r: EntryPoint)
        ensures
            r == release_entry(),
    {
        EntryPoint::Unload
    }

    /// The table behind a reference that a load handed out.
    pub fn table(&self, t: TableRef) -> (r: &ExportTable<E>)
        ensures
            t == TableRef::Success ==> *r == self.export,
            t == TableRef::ErrorShadow ==> *r == self.export_error,
    {
        match t {
            TableRef::Success => &self.export,
            TableRef::ErrorShadow => &self.export_error,
        }
    }
}

/// A second load with the same outcome hands out the same table, which holds
/// what it held after the first: a reload without a new outcome changes
/// nothing the host can see.
pub proof fn lemma_reload_same<E>(
    s0: ProcessState<E>,
    s1: ProcessState<E>,
    s2: ProcessState<E>,
    outcome: Result<(), String>,
)
    requires
        loaded(s0, s1, outcome),
        loaded(s1, s2, outcome),
    ensures
        s2.export == s1.export,
        s2.export_error == s1.export_error,
        s2.error_text@ == s1.error_text@,
{
}

/// The discoverable entry points are fixed: repeated lookups hand out the
/// same functions, loads with the same outcome hand out the same table, and a
/// failed load never hands out the success table.
pub proof fn lemma_entry_points_stable(first_ok: bool, second_ok: bool)
    ensures
        attach_entry() == EntryPoint::Load,
        release_entry() == EntryPoint::Unload,
        attach_entry() != release_entry(),
        first_ok == second_ok ==> load_table(first_ok) == load_table(second_ok),
        !first_ok ==> load_table(first_ok) != TableRef::Success,
{
}

} // verus!
