//! Adding, changing and removing macros.

use vstd::prelude::*;
use crate::config::ConfigView;
use crate::config_laws::writable;
use crate::gcode::{macro_views, MacroDef, MacroView};
use crate::stepper::{AppView, EditorView, MacroEditor, StepperApp};
use crate::text::{blank, has_char, is_blank, trim, trimmed};
use crate::text_facts::{
    clean_ends, fits_line, lemma_trim_clean, lemma_trim_contains, lemma_trim_result,
};
use crate::text_laws::{all_white, law_blank};

verus! {

/// A name that a macro may have: not blank, and without blanks in it.
pub open spec fn name_ok(name: Seq<char>) -> bool {
    !is_blank(name) && !name.contains(' ')
}

/// The macro that the editor holds. Without a label the macro is labelled with
/// its name.
pub open spec fn edited_macro(e: EditorView) -> MacroView {
    MacroView {
        name: trim(e.name),
        label: if is_blank(e.label) { trim(e.name) } else { trim(e.label) },
        gcode: e.gcode,
    }
}

/// The macros after the macro that the editor holds was saved: in place of the
/// one that was edited, or at the end where it is new.
pub open spec fn macros_after_save(ms: Seq<MacroView>, e: EditorView) -> Seq<MacroView> {
    match e.idx {
        Some(i) => ms.update(i as int, edited_macro(e)),
        None => ms.push(edited_macro(e)),
    }
}

/// The macro that the editor is open for is there.
pub open spec fn target_exists(v: AppView) -> bool {
    match v.editor.idx {
        Some(i) => i < v.config.macros.len(),
        None => true,
    }
}

/// The state after the macro that the editor holds was saved and the editor
/// closed. A name that will not do is not saved.
pub open spec fn after_save(v: AppView) -> AppView {
    if name_ok(v.editor.name) {
        AppView {
            config: ConfigView { macros: macros_after_save(v.config.macros, v.editor), ..v.config },
            editor: EditorView { editing: false, ..v.editor },
            ..v
        }
    } else {
        v
    }
}

/// The state after the editor was opened for a new macro.
pub open spec fn after_add(v: AppView) -> AppView {
    if v.editor.editing {
        v
    } else {
        AppView {
            editor: EditorView {
                editing: true,
                idx: None,
                name: Seq::empty(),
                label: Seq::empty(),
                gcode: Seq::empty(),
            },
            ..v
        }
    }
}

/// The state after the editor was opened for a macro.
pub open spec fn after_edit(v: AppView, idx: usize) -> AppView {
    if v.editor.editing {
        v
    } else {
        let m = v.config.macros[idx as int];
        AppView {
            editor: EditorView {
                editing: true,
                idx: Some(idx),
                name: m.name,
                label: m.label,
                gcode: m.gcode,
            },
            ..v
        }
    }
}

/// The state after a macro was removed.
pub open spec fn after_delete(v: AppView, idx: usize) -> AppView {
    if v.editor.editing {
        v
    } else {
        AppView {
            config: ConfigView { macros: v.config.macros.remove(idx as int), ..v.config },
            ..v
        }
    }
}

/// The state after the editor was closed without saving.
pub open spec fn after_cancel(v: AppView) -> AppView {
    AppView { editor: EditorView { editing: false, ..v.editor }, ..v }
}

impl MacroEditor {
    /// Whether the name will do.
    pub fn has_good_name(&self) -> (r: bool)
        ensures
            r == name_ok(self@.name),
    {
        !blank(self.name.as_str()) && !has_char(self.name.as_str(), ' ')
    }

    /// Whether the name is there but has blanks in it.
    pub fn has_blank_in_name(&self) -> (r: bool)
        ensures
            r == (!is_blank(self@.name) && self@.name.contains(' ')),
    {
        !blank(self.name.as_str()) && has_char(self.name.as_str(), ' ')
    }
}

impl StepperApp {
    /// Opens the editor for a new macro, unless it is open.
    pub fn add_macro(&mut self)
        ensures
            final(self)@ == if old(self)@.editor.editing {
                old(self)@
            } else {
                AppView {
                    editor: EditorView {
                        editing: true,
                        idx: None,
                        name: Seq::empty(),
                        label: Seq::empty(),
                        gcode: Seq::empty(),
                    },
                    ..old(self)@
                }
            },
            final(self)@ == after_add(old(self)@),
    {
        if !self.editor.editing {
            self.editor = MacroEditor {
                editing: true,
                idx: None,
                name: String::new(),
                label: String::new(),
                gcode: String::new(),
            };
        }
    }

    /// Opens the editor for a macro, unless it is open.
    pub fn edit_macro(&mut self, idx: usize)
        requires
            !old(self)@.editor.editing ==> idx < old(self)@.config.macros.len(),
        ensures
            final(self)@ == if old(self)@.editor.editing {
                old(self)@
            } else {
                let m = old(self)@.config.macros[idx as int];
                AppView {
                    editor: EditorView {
                        editing: true,
                        idx: Some(idx),
                        name: m.name,
                        label: m.label,
                        gcode: m.gcode,
                    },
                    ..old(self)@
                }
            },
            final(self)@ == after_edit(old(self)@, idx),
    {
        if !self.editor.editing {
            let m: &MacroDef = &self.config.macros[idx];
            self.editor = MacroEditor {
                editing: true,
                idx: Some(idx),
                name: m.name.clone(),
                label: m.label.clone(),
                gcode: m.gcode.clone(),
            };
        }
    }

    /// Removes a macro, unless the editor is open.
    pub fn delete_macro(&mut self, idx: usize)
        requires
            !old(self)@.editor.editing ==> idx < old(self)@.config.macros.len(),
        ensures
            final(self)@ == if old(self)@.editor.editing {
                old(self)@
            } else {
                AppView {
                    config: ConfigView {
                        macros: old(self)@.config.macros.remove(idx as int),
                        ..old(self)@.config
                    },
                    ..old(self)@
                }
            },
            final(self)@ == after_delete(old(self)@, idx),
    {
        if !self.editor.editing {
            let ghost before = macro_views(self.config.macros@);
            let _ = self.config.macros.remove(idx);
            assert(macro_views(self.config.macros@) == before.remove(idx as int));
        }
    }

    /// Whether the macro that the editor is open for is there.
    pub fn has_target(&self) -> (r: bool)
        ensures
            r == target_exists(self@),
    {
        match self.editor.idx {
            Some(i) => i < self.config.macros.len(),
            None => true,
        }
    }

    /// Saves the macro that the editor holds, and closes the editor. A name
    /// that will not do is not saved.
    pub fn save_macro(&mut self)
        requires
            name_ok(old(self)@.editor.name) ==> target_exists(old(self)@),
        ensures
            final(self)@ == after_save(old(self)@),
    {
        if !self.editor.has_good_name() {
            return;
        }
        let ghost before = macro_views(self.config.macros@);
        let name: String = trimmed(self.editor.name.as_str());
        let label: String = if blank(self.editor.label.as_str()) {
            name.clone()
        } else {
            trimmed(self.editor.label.as_str())
        };
        let m: MacroDef = MacroDef { name, label, gcode: self.editor.gcode.clone() };
        match self.editor.idx {
            Some(i) => {
                self.config.macros.set(i, m);
                assert(macro_views(self.config.macros@) == before.update(i as int, m@));
            },
            None => {
                self.config.macros.push(m);
                assert(macro_views(self.config.macros@) == before.push(m@));
            },
        }
        self.editor.editing = false;
    }

    /// Closes the editor without saving.
    pub fn cancel_edit(&mut self)
        ensures
            final(self)@ == (AppView {
                editor: EditorView { editing: false, ..old(self)@.editor },
                ..old(self)@
            }),
            final(self)@ == after_cancel(old(self)@),
    {
        self.editor.editing = false;
    }
}

/// A macro that was saved has a name without blanks and a label, neither of
/// them empty, both with clean ends. Where no line feed was entered for them,
/// they fit a line, as the configuration file wants it.
pub proof fn law_saved_macro_is_named(e: EditorView)
    requires
        name_ok(e.name),
    ensures
        edited_macro(e).name.len() > 0,
        !edited_macro(e).name.contains(' '),
        clean_ends(edited_macro(e).name),
        edited_macro(e).label.len() > 0,
        clean_ends(edited_macro(e).label),
        !e.name.contains('\n') && !e.label.contains('\n') ==> fits_line(edited_macro(e).name)
            && fits_line(edited_macro(e).label),
{
    lemma_trim_result(e.name);
    lemma_trim_result(e.label);
    if trim(e.name).contains(' ') {
        lemma_trim_contains(e.name, ' ');
    }
    if trim(e.name).contains('\n') {
        lemma_trim_contains(e.name, '\n');
    }
    if trim(e.label).contains('\n') {
        lemma_trim_contains(e.label, '\n');
    }
}

/// Saving a macro that was opened and not changed leaves the macros as they
/// were, where the macro is one that the editor saves: its name will do, and
/// its name and its label have clean ends.
pub proof fn law_unchanged_edit_keeps_macros(ms: Seq<MacroView>, idx: usize)
    requires
        idx < ms.len(),
        name_ok(ms[idx as int].name),
        clean_ends(ms[idx as int].name),
        clean_ends(ms[idx as int].label),
        ms[idx as int].label.len() > 0,
    ensures
        ({
            let m = ms[idx as int];
            let e = EditorView {
                editing: true,
                idx: Some(idx),
                name: m.name,
                label: m.label,
                gcode: m.gcode,
            };
            macros_after_save(ms, e) == ms
        }),
{
    let m = ms[idx as int];
    lemma_trim_clean(m.name);
    lemma_trim_clean(m.label);
    assert(ms.update(idx as int, m) == ms);
}

/// Saving a macro keeps the configuration fit for the file, where no line feed
/// was entered for the macro's name and label.
pub proof fn law_save_keeps_writable(v: AppView)
    requires
        writable(v.config),
        target_exists(v),
        !v.editor.name.contains('\n'),
        !v.editor.label.contains('\n'),
    ensures
        writable(after_save(v).config),
{
    if name_ok(v.editor.name) {
        law_saved_macro_is_named(v.editor);
        let before = v.config.macros;
        let ms = after_save(v).config.macros;
        assert forall|i: int| 0 <= i < ms.len() implies fits_line((#[trigger] ms[i]).name)
            && fits_line(ms[i].label) by {
            if ms[i] != edited_macro(v.editor) {
                assert(ms[i] == before[i]);
            }
        }
    }
}

/// A name will do where it has a character that is not white space and no
/// blank.
pub proof fn law_name_ok(name: Seq<char>)
    ensures
        name_ok(name) <==> !all_white(name) && forall|i: int|
            0 <= i < name.len() ==> #[trigger] name[i] != ' ',
{
    law_blank(name);
    if name.contains(' ') {
        let i = choose|i: int| 0 <= i < name.len() && name[i] == ' ';
        assert(name[i] == ' ');
    }
}

/// Saving puts the macro that the editor holds where it belongs: over the one
/// that was edited, or behind all others where it is new. Its name and label
/// are those in the editor without the white space around them, the label being
/// the name where none was given, and its G-code text is the one in the editor
/// to the letter. Every other macro stays where it was, and so does everything
/// else; the editor is closed.
pub proof fn law_save_puts_macro_in_place(v: AppView)
    requires
        name_ok(v.editor.name),
        target_exists(v),
    ensures
        ({
            let before = v.config.macros;
            let after = after_save(v).config.macros;
            let at = match v.editor.idx {
                Some(i) => i as int,
                None => before.len() as int,
            };
            &&& after.len() == if v.editor.idx is Some {
                before.len()
            } else {
                before.len() + 1
            }
            &&& after[at].name == trim(v.editor.name)
            &&& all_white(v.editor.label) ==> after[at].label == trim(v.editor.name)
            &&& !all_white(v.editor.label) ==> after[at].label == trim(v.editor.label)
            &&& after[at].gcode == v.editor.gcode
            &&& forall|j: int| 0 <= j < before.len() && j != at ==> #[trigger] after[j] == before[j]
            &&& !after_save(v).editor.editing
            &&& after_save(v).config == (ConfigView { macros: after, ..v.config })
            &&& after_save(v) == (AppView {
                config: after_save(v).config,
                editor: after_save(v).editor,
                ..v
            })
        }),
{
    law_blank(v.editor.label);
}

/// A name that will not do saves nothing and leaves the editor open.
pub proof fn law_bad_name_saves_nothing(v: AppView)
    requires
        all_white(v.editor.name) || v.editor.name.contains(' '),
    ensures
        after_save(v) == v,
{
    law_blank(v.editor.name);
}

/// Removing a macro moves those behind it up by one and touches nothing else;
/// while the editor is open nothing is removed.
pub proof fn law_delete_removes_one(v: AppView, idx: usize)
    requires
        idx < v.config.macros.len(),
    ensures
        ({
            let before = v.config.macros;
            let after = after_delete(v, idx).config.macros;
            &&& v.editor.editing ==> after_delete(v, idx) == v
            &&& !v.editor.editing ==> {
                &&& after.len() == before.len() - 1
                &&& forall|j: int| 0 <= j < idx ==> #[trigger] after[j] == before[j]
                &&& forall|j: int| idx <= j < after.len() ==> #[trigger] after[j] == before[j + 1]
                &&& after_delete(v, idx) == (AppView {
                    config: ConfigView { macros: after, ..v.config },
                    ..v
                })
            }
        }),
{
}

/// Opening the editor shows what the macro holds, or nothing for a new one, and
/// changes nothing else; while it is open it stays as it is. Closing it without
/// saving leaves every macro and every setting as it was.
pub proof fn law_editor_opens_and_closes(v: AppView, idx: usize)
    requires
        idx < v.config.macros.len(),
    ensures
        ({
            let m = v.config.macros[idx as int];
            let shown = after_edit(v, idx);
            let fresh = after_add(v);
            &&& v.editor.editing ==> shown == v && fresh == v
            &&& !v.editor.editing ==> {
                &&& shown.editor.editing && shown.editor.idx == Some(idx)
                &&& shown.editor.name == m.name
                &&& shown.editor.label == m.label
                &&& shown.editor.gcode == m.gcode
                &&& fresh.editor.editing && fresh.editor.idx is None
                &&& fresh.editor.name.len() == 0
                &&& fresh.editor.label.len() == 0
                &&& fresh.editor.gcode.len() == 0
            }
            &&& shown.config == v.config && fresh.config == v.config
            &&& !after_cancel(shown).editor.editing
            &&& after_cancel(shown) == (AppView { editor: after_cancel(shown).editor, ..v })
            &&& after_cancel(fresh) == (AppView { editor: after_cancel(fresh).editor, ..v })
        }),
{
}

/// Opening a macro and saving it unchanged leaves the macros as they were,
/// where the macro is one that the editor saves.
pub proof fn law_open_and_save_changes_nothing(v: AppView, idx: usize)
    requires
        !v.editor.editing,
        idx < v.config.macros.len(),
        name_ok(v.config.macros[idx as int].name),
        clean_ends(v.config.macros[idx as int].name),
        clean_ends(v.config.macros[idx as int].label),
        v.config.macros[idx as int].label.len() > 0,
    ensures
        after_save(after_edit(v, idx)).config == v.config,
{
    law_unchanged_edit_keeps_macros(v.config.macros, idx);
}

} // verus!
