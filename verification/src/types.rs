//! The wallet forms and the state of the terminal app that edits them.

use vstd::prelude::*;

use crate::text::{pop_char, push_char, spec_trim, str_eq, trim};

verus! {

/// Which panel receives the arrow keys.
#[derive(Clone, Copy, Debug, PartialEq, Eq, Structural)]
pub enum Focus {
    Actions,
    Fields,
}

/// The `cast wallet` flow that a form drives.
#[derive(Clone, Copy, Debug, PartialEq, Eq, Structural)]
pub enum ActionKind {
    CheckAddress,
    CreateWallet,
    ImportWallet,
}

/// One input of a form.
#[derive(Clone, Debug)]
pub struct FormField {
    pub key: &'static str,
    pub label: &'static str,
    pub hint: &'static str,
    pub value: String,
    pub sensitive: bool,
    pub required: bool,
}

/// A form field as plain values.
pub struct FieldView {
    pub key: Seq<char>,
    pub label: Seq<char>,
    pub hint: Seq<char>,
    pub value: Seq<char>,
    pub sensitive: bool,
    pub required: bool,
}

impl View for FormField {
    type V = FieldView;

    open spec fn view(&self) -> FieldView {
        FieldView {
            key: self.key@,
            label: self.label@,
            hint: self.hint@,
            value: self.value@,
            sensitive: self.sensitive,
            required: self.required,
        }
    }
}

/// A `cast wallet` flow with its inputs.
#[derive(Clone, Debug)]
pub struct ActionForm {
    pub kind: ActionKind,
    pub label: &'static str,
    pub command_label: &'static str,
    pub description: &'static str,
    pub fields: Vec<FormField>,
}

/// A form as plain values.
#[verifier::ext_equal]
pub struct FormView {
    pub kind: ActionKind,
    pub label: Seq<char>,
    pub command_label: Seq<char>,
    pub description: Seq<char>,
    pub fields: Seq<FieldView>,
}

impl View for ActionForm {
    type V = FormView;

    open spec fn view(&self) -> FormView {
        FormView {
            kind: self.kind,
            label: self.label@,
            command_label: self.command_label@,
            description: self.description@,
            fields: self.fields@.map_values(|f: FormField| f@),
        }
    }
}

/// The trimmed value of the first field whose key is `key`, or the empty text when no
/// field has that key.
pub open spec fn spec_field_value(fields: Seq<FieldView>, key: Seq<char>) -> Seq<char>
    decreases fields.len(),
{
    if fields.len() == 0 {
        Seq::empty()
    } else if fields[0].key == key {
        spec_trim(fields[0].value)
    } else {
        spec_field_value(fields.drop_first(), key)
    }
}

impl FormView {
    /// The trimmed value of the field `key` (see [`spec_field_value`]).
    pub open spec fn value(self, key: Seq<char>) -> Seq<char> {
        spec_field_value(self.fields, key)
    }
}

/// The result of one run of `cast`.
pub struct CommandResult {
    pub command_preview: String,
    pub output: String,
    pub success: bool,
}

/// The state of the terminal app.
pub struct App {
    pub forms: Vec<ActionForm>,
    pub selected_action: usize,
    pub selected_field: usize,
    pub focus: Focus,
    pub output: String,
    pub last_command: String,
    pub status: String,
}

/// The app state as plain values.
#[verifier::ext_equal]
pub struct AppView {
    pub forms: Seq<FormView>,
    pub selected_action: int,
    pub selected_field: int,
    pub focus: Focus,
    pub output: Seq<char>,
    pub last_command: Seq<char>,
    pub status: Seq<char>,
}

impl View for App {
    type V = AppView;

    open spec fn view(&self) -> AppView {
        AppView {
            forms: self.forms@.map_values(|f: ActionForm| f@),
            selected_action: self.selected_action as int,
            selected_field: self.selected_field as int,
            focus: self.focus,
            output: self.output@,
            last_command: self.last_command@,
            status: self.status@,
        }
    }
}

impl AppView {
    /// The selected form and field are in range: there is a form, the selected form exists,
    /// and the selected field exists whenever the selected form has fields.
    pub open spec fn wf(self) -> bool {
        &&& self.forms.len() > 0
        &&& 0 <= self.selected_action < self.forms.len()
        &&& self.current_form().fields.len() > 0 ==> 0 <= self.selected_field
            < self.current_form().fields.len()
    }

    pub open spec fn current_form(self) -> FormView {
        self.forms[self.selected_action]
    }

    /// Whether the selected field exists in the selected form.
    pub open spec fn has_current_field(self) -> bool {
        0 <= self.selected_field < self.current_form().fields.len()
    }

    pub open spec fn current_field(self) -> FieldView {
        self.current_form().fields[self.selected_field]
    }

    /// The state with the selected field replaced by `field`.
    pub open spec fn with_current_field(self, field: FieldView) -> AppView {
        let form = self.current_form();
        AppView {
            forms: self.forms.update(
                self.selected_action,
                FormView { fields: form.fields.update(self.selected_field, field), ..form },
            ),
            ..self
        }
    }

    /// The state with the selected field's value replaced by `value`.
    pub open spec fn with_current_value(self, value: Seq<char>) -> AppView {
        self.with_current_field(FieldView { value, ..self.current_field() })
    }

    pub open spec fn select_next_action(self) -> AppView {
        AppView {
            selected_action: (self.selected_action + 1) % (self.forms.len() as int),
            selected_field: 0,
            ..self
        }
    }

    pub open spec fn select_prev_action(self) -> AppView {
        AppView {
            selected_action: if self.selected_action == 0 {
                self.forms.len() - 1
            } else {
                self.selected_action - 1
            },
            selected_field: 0,
            ..self
        }
    }

    pub open spec fn select_next_field(self) -> AppView {
        let n = self.current_form().fields.len() as int;
        if n == 0 {
            self
        } else {
            AppView { selected_field: (self.selected_field + 1) % n, ..self }
        }
    }

    pub open spec fn select_prev_field(self) -> AppView {
        let n = self.current_form().fields.len() as int;
        if n == 0 {
            self
        } else {
            AppView {
                selected_field: if self.selected_field == 0 {
                    n - 1
                } else {
                    self.selected_field - 1
                },
                ..self
            }
        }
    }

    pub open spec fn move_focus_left(self) -> AppView {
        AppView { focus: Focus::Actions, ..self }
    }

    pub open spec fn move_focus_right(self) -> AppView {
        AppView { focus: Focus::Fields, ..self }
    }

    /// Removes the last character of the selected field, if there is such a field.
    pub open spec fn backspace(self) -> AppView {
        if self.has_current_field() {
            let value = self.current_field().value;
            self.with_current_value(if value.len() > 0 { value.drop_last() } else { value })
        } else {
            self
        }
    }

    /// Appends `c` to the selected field, if there is such a field.
    pub open spec fn insert_char(self, c: char) -> AppView {
        if self.has_current_field() {
            self.with_current_value(self.current_field().value.push(c))
        } else {
            self
        }
    }

    pub open spec fn clear_output(self) -> AppView {
        AppView { output: Seq::empty(), status: "Output cleared"@, ..self }
    }
}

/// Whether `f` holds exactly the given texts and flags.
pub open spec fn field_is(
    f: FieldView,
    key: &str,
    label: &str,
    hint: &str,
    value: Seq<char>,
    sensitive: bool,
    required: bool,
) -> bool {
    &&& f.key == key@
    &&& f.label == label@
    &&& f.hint == hint@
    &&& f.value == value
    &&& f.sensitive == sensitive
    &&& f.required == required
}

/// Whether `f` is the form `kind` with the given texts and `n` fields.
pub open spec fn form_is(
    f: FormView,
    kind: ActionKind,
    label: &str,
    command_label: &str,
    description: &str,
    n: int,
) -> bool {
    &&& f.kind == kind
    &&& f.label == label@
    &&& f.command_label == command_label@
    &&& f.description == description@
    &&& f.fields.len() == n
}

fn field(
    key: &'static str,
    label: &'static str,
    hint: &'static str,
    value: &str,
    sensitive: bool,
    required: bool,
) -> (r: FormField)
    ensures
        r.key == key,
        r.label == label,
        r.hint == hint,
        r.value@ == value@,
        r.sensitive == sensitive,
        r.required == required,
{
    FormField { key, label, hint, value: String::from_str(value), sensitive, required }
}

impl App {
    /// The app as it starts: the three wallet flows, the first one selected, the action list
    /// focused, and a greeting in the output panel.
    pub fn new() -> (r: App)
        ensures
            r@.forms.len() == 3,
            form_is(
                r@.forms[0],
                ActionKind::CheckAddress,
                "Check Address",
                "cast wallet address",
                "Paste a private key and derive the wallet address with Foundry.",
                1,
            ),
            field_is(
                r@.forms[0].fields[0],
                "private_key",
                "Private Key",
                "paste your private key here",
                Seq::empty(),
                true,
                true,
            ),
            form_is(
                r@.forms[1],
                ActionKind::CreateWallet,
                "Create New",
                "cast wallet new",
                "Generate a new wallet. Add password plus account name to save it as a Foundry keystore.",
                4,
            ),
            field_is(
                r@.forms[1].fields[0],
                "account_name",
                "Account Name",
                "zus-main",
                Seq::empty(),
                false,
                false,
            ),
            field_is(
                r@.forms[1].fields[1],
                "keystore_dir",
                "Keystore Dir",
                "~/.foundry/keystores",
                Seq::empty(),
                false,
                false,
            ),
            field_is(
                r@.forms[1].fields[2],
                "password",
                "Password",
                "required if saving keystore",
                Seq::empty(),
                true,
                false,
            ),
            field_is(r@.forms[1].fields[3], "number", "Number", "1", "1"@, false, false),
            form_is(
                r@.forms[2],
                ActionKind::ImportWallet,
                "Import Private Key",
                "cast wallet import",
                "Store an existing private key as an encrypted Foundry keystore entry.",
                4,
            ),
            field_is(
                r@.forms[2].fields[0],
                "account_name",
                "Account Name",
                "my-imported-wallet",
                Seq::empty(),
                false,
                true,
            ),
            field_is(
                r@.forms[2].fields[1],
                "private_key",
                "Private Key",
                "paste your private key here",
                Seq::empty(),
                true,
                true,
            ),
            field_is(
                r@.forms[2].fields[2],
                "password",
                "Password",
                "keystore password",
                Seq::empty(),
                true,
                true,
            ),
            field_is(
                r@.forms[2].fields[3],
                "keystore_dir",
                "Keystore Dir",
                "~/.foundry/keystores",
                Seq::empty(),
                false,
                false,
            ),
            r@.selected_action == 0,
            r@.selected_field == 0,
            r@.focus == Focus::Actions,
            r@.output
                == "Yes, this is possible. Pick a flow on the left, fill the fields, then press Enter."@,
            r@.last_command == "cast wallet address --private-key <PRIVATE_KEY>"@,
            r@.status == "Ready"@,
            r@.wf(),
    {
        let check = ActionForm {
            kind: ActionKind::CheckAddress,
            label: "Check Address",
            command_label: "cast wallet address",
            description: "Paste a private key and derive the wallet address with Foundry.",
            fields: vec![
                field(
                    "private_key",
                    "Private Key",
                    "paste your private key here",
                    "",
                    true,
                    true,
                ),
            ],
        };
        let create = ActionForm {
            kind: ActionKind::CreateWallet,
            label: "Create New",
            command_label: "cast wallet new",
            description: "Generate a new wallet. Add password plus account name to save it as a Foundry keystore.",
            fields: vec![
                field("account_name", "Account Name", "zus-main", "", false, false),
                field("keystore_dir", "Keystore Dir", "~/.foundry/keystores", "", false, false),
                field("password", "Password", "required if saving keystore", "", true, false),
                field("number", "Number", "1", "1", false, false),
            ],
        };
        let import = ActionForm {
            kind: ActionKind::ImportWallet,
            label: "Import Private Key",
            command_label: "cast wallet import",
            description: "Store an existing private key as an encrypted Foundry keystore entry.",
            fields: vec![
                field("account_name", "Account Name", "my-imported-wallet", "", false, true),
                field("private_key", "Private Key", "paste your private key here", "", true, true),
                field("password", "Password", "keystore password", "", true, true),
                field("keystore_dir", "Keystore Dir", "~/.foundry/keystores", "", false, false),
            ],
        };
        proof {
            reveal_strlit("");
        }
        let r = App {
            forms: vec![check, create, import],
            selected_action: 0,
            selected_field: 0,
            focus: Focus::Actions,
            output: String::from_str(
                "Yes, this is possible. Pick a flow on the left, fill the fields, then press Enter.",
            ),
            last_command: String::from_str("cast wallet address --private-key <PRIVATE_KEY>"),
            status: String::from_str("Ready"),
        };
        assert(""@ =~= Seq::<char>::empty());
        assert forall|i: int, j: int|
            0 <= i < 3 && 0 <= j < r.forms@[i].fields@.len() implies #[trigger] r@.forms[i].fields[j]
            == r.forms@[i].fields@[j]@ by {
            assert(r@.forms[i] == r.forms@[i]@);
        }
        r
    }

    /// The selected form.
    pub fn current_form(&self) -> (r: &ActionForm)
        requires
            self.selected_action < self.forms.len(),
        ensures
            *r == self.forms@[self.selected_action as int],
            r@ == self@.current_form(),
    {
        &self.forms[self.selected_action]
    }

    /// The selected form, for editing.
    pub fn current_form_mut(&mut self) -> (r: &mut ActionForm)
        requires
            old(self).selected_action < old(self).forms.len(),
        ensures
            *r == old(self).forms@[old(self).selected_action as int],
            final(self).forms@ == old(self).forms@.update(
                old(self).selected_action as int,
                *final(r),
            ),
            final(self).selected_action == old(self).selected_action,
            final(self).selected_field == old(self).selected_field,
            final(self).focus == old(self).focus,
            final(self).output == old(self).output,
            final(self).last_command == old(self).last_command,
            final(self).status == old(self).status,
    {
        let index = self.selected_action;
        &mut self.forms[index]
    }

    /// The selected field of the selected form, if the form has a field at that position.
    pub fn current_field(&self) -> (r: Option<&FormField>)
        requires
            self.selected_action < self.forms.len(),
        ensures
            r is Some <==> self@.has_current_field(),
            r matches Some(f) ==> f@ == self@.current_field(),
    {
        let form = self.current_form();
        if self.selected_field < form.fields.len() {
            Some(&form.fields[self.selected_field])
        } else {
            None
        }
    }

    /// The selected field of the selected form, for editing, if the form has a field at
    /// that position.
    pub fn current_field_mut(&mut self) -> (r: Option<&mut FormField>)
        requires
            old(self).selected_action < old(self).forms.len(),
        ensures
            r is Some <==> old(self)@.has_current_field(),
            r is None ==> final(self)@ =~~= old(self)@,
            r matches Some(f) ==> f@ == old(self)@.current_field() && final(self)@
                =~~= old(self)@.with_current_field(final(f)@),
    {
        let index = self.selected_field;
        let form = self.current_form_mut();
        if index < form.fields.len() {
            Some(&mut form.fields[index])
        } else {
            None
        }
    }

    /// Selects the next form, wrapping around after the last one, and its first field.
    pub fn select_next_action(&mut self)
        requires
            old(self).forms.len() > 0,
            old(self).selected_action < usize::MAX,
        ensures
            final(self)@ == old(self)@.select_next_action(),
    {
        self.selected_action = (self.selected_action + 1) % self.forms.len();
        self.selected_field = 0;
    }

    /// Selects the previous form, wrapping around before the first one, and its first field.
    pub fn select_prev_action(&mut self)
        requires
            old(self).selected_action > 0 || old(self).forms.len() > 0,
        ensures
            final(self)@ == old(self)@.select_prev_action(),
    {
        self.selected_action = if self.selected_action == 0 {
            self.forms.len() - 1
        } else {
            self.selected_action - 1
        };
        self.selected_field = 0;
    }

    /// Selects the next field of the selected form, wrapping around after the last one.
    pub fn select_next_field(&mut self)
        requires
            old(self).selected_action < old(self).forms.len(),
            old(self)@.current_form().fields.len() > 0 ==> old(self).selected_field < usize::MAX,
        ensures
            final(self)@ == old(self)@.select_next_field(),
    {
        if self.current_form().fields.len() == 0 {
            return;
        }
        self.selected_field = (self.selected_field + 1) % self.current_form().fields.len();
    }

    /// Selects the previous field of the selected form, wrapping around before the first one.
    pub fn select_prev_field(&mut self)
        requires
            old(self).selected_action < old(self).forms.len(),
        ensures
            final(self)@ == old(self)@.select_prev_field(),
    {
        if self.current_form().fields.len() == 0 {
            return;
        }
        self.selected_field = if self.selected_field == 0 {
            self.current_form().fields.len() - 1
        } else {
            self.selected_field - 1
        };
    }

    /// Gives the focus to the list of forms.
    pub fn move_focus_left(&mut self)
        ensures
            final(self)@ == old(self)@.move_focus_left(),
    {
        self.focus = Focus::Actions;
    }

    /// Gives the focus to the fields of the selected form.
    pub fn move_focus_right(&mut self)
        ensures
            final(self)@ == old(self)@.move_focus_right(),
    {
        self.focus = Focus::Fields;
    }

    /// Removes the last character of the selected field.
    pub fn backspace(&mut self)
        requires
            old(self).selected_action < old(self).forms.len(),
        ensures
            final(self)@ == old(self)@.backspace(),
    {
        if let Some(field) = self.current_field_mut() {
            pop_char(&mut field.value);
        }
    }

    /// Appends `ch` to the selected field.
    pub fn insert_char(&mut self, ch: char)
        requires
            old(self).selected_action < old(self).forms.len(),
        ensures
            final(self)@ == old(self)@.insert_char(ch),
    {
        if let Some(field) = self.current_field_mut() {
            push_char(&mut field.value, ch);
        }
    }

    /// Empties the output panel and says so in the status line.
    pub fn clear_output(&mut self)
        ensures
            final(self)@ == old(self)@.clear_output(),
    {
        self.output = String::new();
        self.status = String::from_str("Output cleared");
    }
}

/// Selecting the next form and then the previous one comes back to the form that was
/// selected, with its first field selected.
pub proof fn lemma_next_then_prev_action(a: AppView)
    requires
        a.wf(),
    ensures
        a.select_next_action().select_prev_action() == (AppView { selected_field: 0, ..a }),
{
    let n = a.forms.len() as int;
    if a.selected_action + 1 < n {
        assert((a.selected_action + 1) % n == a.selected_action + 1) by (nonlinear_arith)
            requires
                0 <= a.selected_action + 1 < n,
        ;
    } else {
        assert((a.selected_action + 1) % n == 0) by (nonlinear_arith)
            requires
                a.selected_action + 1 == n,
                n > 0,
        ;
    }
}

/// Selecting the previous form and then the next one comes back to the form that was
/// selected, with its first field selected.
pub proof fn lemma_prev_then_next_action(a: AppView)
    requires
        a.wf(),
    ensures
        a.select_prev_action().select_next_action() == (AppView { selected_field: 0, ..a }),
{
    let n = a.forms.len() as int;
    let p = a.select_prev_action().selected_action;
    assert(0 <= p < n);
    if p + 1 < n {
        assert((p + 1) % n == p + 1) by (nonlinear_arith)
            requires
                0 <= p + 1 < n,
        ;
    } else {
        assert((p + 1) % n == 0) by (nonlinear_arith)
            requires
                p + 1 == n,
                n > 0,
        ;
    }
}

/// Within a form that has fields, selecting the next field and then the previous one comes
/// back to the field that was selected.
pub proof fn lemma_next_then_prev_field(a: AppView)
    requires
        a.wf(),
        a.current_form().fields.len() > 0,
    ensures
        a.select_next_field().select_prev_field() == a,
{
    let n = a.current_form().fields.len() as int;
    if a.selected_field + 1 < n {
        assert((a.selected_field + 1) % n == a.selected_field + 1) by (nonlinear_arith)
            requires
                0 <= a.selected_field + 1 < n,
        ;
    } else {
        assert((a.selected_field + 1) % n == 0) by (nonlinear_arith)
            requires
                a.selected_field + 1 == n,
                n > 0,
        ;
    }
}

/// Within a form that has fields, selecting the previous field and then the next one comes
/// back to the field that was selected.
pub proof fn lemma_prev_then_next_field(a: AppView)
    requires
        a.wf(),
        a.current_form().fields.len() > 0,
    ensures
        a.select_prev_field().select_next_field() == a,
{
    let n = a.current_form().fields.len() as int;
    let p = a.select_prev_field().selected_field;
    assert(0 <= p < n);
    if p + 1 < n {
        assert((p + 1) % n == p + 1) by (nonlinear_arith)
            requires
                0 <= p + 1 < n,
        ;
    } else {
        assert((p + 1) % n == 0) by (nonlinear_arith)
            requires
                p + 1 == n,
                n > 0,
        ;
    }
}

/// Typing a character and then pressing backspace leaves the app as it was.
pub proof fn lemma_backspace_undoes_insert(a: AppView, c: char)
    requires
        a.wf(),
    ensures
        a.insert_char(c).backspace() == a,
{
    if a.has_current_field() {
        let b = a.insert_char(c);
        let field = a.current_field();
        assert(b.current_field().value =~= field.value.push(c));
        assert(b.current_field().value.drop_last() =~= field.value);
        assert(b.backspace().forms[a.selected_action].fields =~= a.forms[a.selected_action].fields);
        assert(b.backspace().forms =~= a.forms);
    }
}

/// Backspace on an empty field, or when the selected form has no field at the selected
/// position, leaves the app as it was.
pub proof fn lemma_backspace_on_empty(a: AppView)
    requires
        a.wf(),
        !a.has_current_field() || a.current_field().value.len() == 0,
    ensures
        a.backspace() == a,
{
    if a.has_current_field() {
        assert(a.backspace().forms[a.selected_action].fields =~= a.forms[a.selected_action].fields);
        assert(a.backspace().forms =~= a.forms);
    }
}

/// Every step that the keys drive keeps the selected form and field in range.
pub proof fn lemma_steps_keep_wf(a: AppView, c: char)
    requires
        a.wf(),
    ensures
        a.select_next_action().wf(),
        a.select_prev_action().wf(),
        a.select_next_field().wf(),
        a.select_prev_field().wf(),
        a.move_focus_left().wf(),
        a.move_focus_right().wf(),
        a.backspace().wf(),
        a.insert_char(c).wf(),
        a.clear_output().wf(),
{
    let n = a.forms.len() as int;
    assert(0 <= (a.selected_action + 1) % n < n) by (nonlinear_arith)
        requires
            n > 0,
            a.selected_action >= 0,
    ;
    let m = a.current_form().fields.len() as int;
    if m > 0 {
        assert(0 <= (a.selected_field + 1) % m < m) by (nonlinear_arith)
            requires
                m > 0,
                a.selected_field >= 0,
        ;
    }
}

proof fn lemma_field_value_skip(fields: Seq<FieldView>, key: Seq<char>, i: int)
    requires
        0 <= i <= fields.len(),
        forall|j: int| 0 <= j < i ==> (#[trigger] fields[j]).key != key,
    ensures
        spec_field_value(fields, key) == spec_field_value(fields.skip(i), key),
    decreases i,
{
    if i == 0 {
        assert(fields.skip(0) =~= fields);
    } else {
        lemma_field_value_skip(fields.drop_first(), key, i - 1);
        assert(fields.drop_first().skip(i - 1) =~= fields.skip(i));
    }
}

impl ActionForm {
    /// The trimmed value of the first field whose key is `key`, or `""` when the form has
    /// no such field.
    pub fn value(&self, key: &str) -> (r: &str)
        ensures
            r@ == self@.value(key@),
    {
        let n = self.fields.len();
        let mut i: usize = 0;
        while i < n
            invariant
                n == self.fields@.len(),
                i <= n,
                forall|j: int| 0 <= j < i ==> (#[trigger] self@.fields[j]).key != key@,
            decreases n - i,
        {
            if str_eq(self.fields[i].key, key) {
                proof {
                    lemma_field_value_skip(self@.fields, key@, i as int);
                    assert(self@.fields.skip(i as int)[0] == self.fields@[i as int]@);
                }
                return trim(self.fields[i].value.as_str());
            }
            i = i + 1;
        }
        proof {
            lemma_field_value_skip(self@.fields, key@, n as int);
            reveal_strlit("");
        }
        assert(""@ =~= Seq::<char>::empty());
        ""
    }
}

} // verus!
