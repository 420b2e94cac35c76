//! The interactive entry state machine: one in-progress record buffer, the
//! raw text being typed, and the mode that says which field it belongs to.
//!
//! The host event loop hands the controller one logical input event at a
//! time. Committing a field converts the raw text into the active field of
//! the buffer; a finalize event additionally checks the buffer for
//! completeness and persists it. Field-level failures become messages and
//! keep the session alive; a storage failure at persist time propagates as
//! a fatal error.

use vstd::prelude::*;

use crate::data::{has_id, DataStore};
use crate::date::Date;
use crate::errors::Error;
use crate::record::{Expense, ExpenseView};
use crate::syntax::{date_of_text, i32_of_text, parse_date};
use crate::text::{pop_char, push_char};

verus! {

/// The record field an entry session is editing.
#[derive(Clone, Copy, Debug, PartialEq, Eq, Structural)]
pub enum Field {
    Name,
    Tag,
    Date,
    Amount,
}

/// The controller's mode: idle, or editing one field of a record.
#[derive(Clone, Copy, Debug, PartialEq, Eq, Structural)]
pub enum Mode {
    Normal,
    Insert(Field),
}

/// One logical input event, as the host event loop delivers them.
#[derive(Clone, Copy, Debug)]
pub enum InputEvent {
    /// A printable character was typed.
    Char(char),
    /// The last character of the raw input is removed.
    Backspace,
    /// Commit the active field and move to the next one.
    Advance,
    /// Commit the active field, then check completeness and persist.
    Finalize,
    /// Leave insert mode, discarding the raw input.
    Cancel,
}

/// The mutable state of an entry session.
struct State {
    input: String,
    buffer: Expense,
    mode: Mode,
    msg: String,
}

/// The entry controller: the record store and the session state.
pub struct Controller {
    datastore: DataStore,
    state: State,
}

/// What the controller holds, as plain mathematical values: the stored
/// rows, the raw input, the buffered record, the mode and the message.
#[verifier::ext_equal]
pub struct ControllerView {
    pub rows: Seq<ExpenseView>,
    pub input: Seq<char>,
    pub buffer: ExpenseView,
    pub mode: Mode,
    pub msg: Seq<char>,
}

impl View for Controller {
    type V = ControllerView;

    closed spec fn view(&self) -> ControllerView {
        ControllerView {
            rows: self.datastore@,
            input: self.state.input@,
            buffer: self.state.buffer@,
            mode: self.state.mode,
            msg: self.state.msg@,
        }
    }
}

/// The field that a successful commit moves to, wrapping from the amount
/// back to the name so several records can be entered in a row.
pub open spec fn next_field(f: Field) -> Field {
    match f {
        Field::Name => Field::Date,
        Field::Date => Field::Tag,
        Field::Tag => Field::Amount,
        Field::Amount => Field::Name,
    }
}

/// True when the raw input can be committed to field `f`: name and tag
/// take any text, the date must parse against `today`, and the amount must
/// be a well-formed integer.
pub open spec fn commit_ok(f: Field, input: Seq<char>, today: Date) -> bool {
    match f {
        Field::Name => true,
        Field::Tag => true,
        Field::Date => date_of_text(input, today) is Some,
        Field::Amount => i32_of_text(input) is Some,
    }
}

/// The buffer after a successful commit of `input` to field `f`: name and
/// tag verbatim, the date as its canonical text, the amount as its value.
pub open spec fn committed_buffer(
    b: ExpenseView,
    f: Field,
    input: Seq<char>,
    today: Date,
) -> ExpenseView {
    match f {
        Field::Name => ExpenseView { name: input, ..b },
        Field::Tag => ExpenseView { tag: input, ..b },
        Field::Date => ExpenseView { date: (date_of_text(input, today)->Some_0).spec_text(), ..b },
        Field::Amount => ExpenseView { amount: i32_of_text(input)->Some_0, ..b },
    }
}

/// The controller after the commit of the active field `f`, before any
/// completeness check. Success stores the field, clears the raw input and
/// advances; a date success also clears the message. Failure keeps the
/// buffer, the mode and the raw input, and sets the field's error message.
pub open spec fn after_commit(pre: ControllerView, f: Field, today: Date) -> ControllerView {
    if commit_ok(f, pre.input, today) {
        ControllerView {
            input: Seq::empty(),
            buffer: committed_buffer(pre.buffer, f, pre.input, today),
            mode: Mode::Insert(next_field(f)),
            msg: if f is Date {
                Seq::empty()
            } else {
                pre.msg
            },
            ..pre
        }
    } else {
        ControllerView {
            msg: if f is Date {
                "ERROR: cannot read date input."@
            } else {
                "ERROR: cannot parse amount"@
            },
            ..pre
        }
    }
}

/// The first required field that the buffer leaves unfilled: a record may
/// only be persisted with a name, a date and a non-zero amount.
pub open spec fn missing_field(b: ExpenseView) -> Option<Field> {
    if b.name.len() == 0 {
        Some(Field::Name)
    } else if b.date.len() == 0 {
        Some(Field::Date)
    } else if b.amount == 0 {
        Some(Field::Amount)
    } else {
        None
    }
}

/// The message that names the missing field. A tag is never required, so
/// no message belongs to it.
pub open spec fn missing_msg(f: Field) -> Seq<char> {
    match f {
        Field::Name => "ERROR: record name is empty."@,
        Field::Date => "ERROR: record does not have a date."@,
        Field::Tag => Seq::empty(),
        Field::Amount => "ERROR: record does not have an amount."@,
    }
}

/// True when the event drives the controller to persist the buffer: a
/// finalize in insert mode whose post-commit buffer is complete.
pub open spec fn persists(pre: ControllerView, ev: InputEvent, today: Date) -> bool {
    match pre.mode {
        Mode::Normal => false,
        Mode::Insert(f) => ev is Finalize && missing_field(after_commit(pre, f, today).buffer)
            is None,
    }
}

/// The record that a persisting event hands to the store.
pub open spec fn persisted_record(pre: ControllerView, today: Date) -> ExpenseView {
    match pre.mode {
        Mode::Normal => pre.buffer,
        Mode::Insert(f) => after_commit(pre, f, today).buffer,
    }
}

/// The controller after one event that does not persist. In normal mode
/// only the begin-entry command acts; in insert mode characters and
/// backspace edit the raw input, cancel returns to normal mode discarding
/// it, advance commits the field, and finalize additionally forces the
/// mode to the first missing field.
pub open spec fn step(pre: ControllerView, ev: InputEvent, today: Date) -> ControllerView {
    match pre.mode {
        Mode::Normal => match ev {
            InputEvent::Char(c) => if c == 'i' {
                ControllerView { mode: Mode::Insert(Field::Name), input: Seq::empty(), ..pre }
            } else {
                pre
            },
            _ => pre,
        },
        Mode::Insert(f) => match ev {
            InputEvent::Char(c) => ControllerView { input: pre.input.push(c), ..pre },
            InputEvent::Backspace => ControllerView {
                input: if pre.input.len() > 0 {
                    pre.input.drop_last()
                } else {
                    pre.input
                },
                ..pre
            },
            InputEvent::Cancel => ControllerView { mode: Mode::Normal, input: Seq::empty(), ..pre },
            InputEvent::Advance => after_commit(pre, f, today),
            InputEvent::Finalize => {
                let a = after_commit(pre, f, today);
                match missing_field(a.buffer) {
                    Some(mf) => ControllerView {
                        mode: Mode::Insert(mf),
                        msg: missing_msg(mf),
                        ..a
                    },
                    None => a,
                }
            },
        },
    }
}

impl Controller {
    /// Builds a controller over the given store, idle, with a fresh empty
    /// buffer and no raw input or message.
    pub fn new(datastore: DataStore) -> (c: Controller)
        ensures
            c@.rows == datastore@,
            c@.input == Seq::<char>::empty(),
            c@.mode == Mode::Normal,
            c@.msg == Seq::<char>::empty(),
            c@.buffer.name == Seq::<char>::empty(),
            c@.buffer.tag == Seq::<char>::empty(),
            c@.buffer.date == Seq::<char>::empty(),
            c@.buffer.amount == 0,
    {
        Controller {
            datastore,
            state: State {
                input: String::new(),
                buffer: Expense::empty(),
                mode: Mode::Normal,
                msg: String::new(),
            },
        }
    }

    /// The controller's mode.
    pub fn mode(&self) -> (m: Mode)
        ensures
            m == self@.mode,
    {
        self.state.mode
    }

    /// The raw text typed so far for the active field.
    pub fn input_text(&self) -> (r: &str)
        ensures
            r@ == self@.input,
    {
        self.state.input.as_str()
    }

    /// The current status message.
    pub fn msg_text(&self) -> (r: &str)
        ensures
            r@ == self@.msg,
    {
        self.state.msg.as_str()
    }

    /// The in-progress record buffer.
    pub fn buffer(&self) -> (r: &Expense)
        ensures
            r@ == self@.buffer,
    {
        &self.state.buffer
    }

    /// The record store, for read-only listing at render time.
    pub fn datastore(&self) -> (r: &DataStore)
        ensures
            r@ == self@.rows,
    {
        &self.datastore
    }

    /// Runs one command character from normal mode: `i` begins an entry
    /// session; any other command is a no-op.
    pub fn exec(&mut self, cmd: char)
        ensures
            cmd == 'i' ==> final(self)@ == (ControllerView {
                mode: Mode::Insert(Field::Name),
                input: Seq::<char>::empty(),
                ..old(self)@
            }),
            cmd != 'i' ==> final(self)@ == old(self)@,
    {
        match cmd {
            'i' => {
                self.state.mode = Mode::Insert(Field::Name);
                self.state.input = String::new();
                proof {
                    assert(self@ =~= (ControllerView {
                        mode: Mode::Insert(Field::Name),
                        input: Seq::<char>::empty(),
                        ..old(self)@
                    }));
                }
            },
            _ => {},
        }
    }

    /// Commits the raw input to field `f` of the buffer.
    fn commit_field(&mut self, f: Field, today: &Date)
        requires
            today.is_valid(),
            old(self)@.mode == Mode::Insert(f),
        ensures
            final(self)@ == after_commit(old(self)@, f, *today),
    {
        match f {
            Field::Name => {
                self.state.buffer.set_name(self.state.input.as_str());
                self.state.input = String::new();
                self.state.mode = Mode::Insert(Field::Date);
            },
            Field::Tag => {
                self.state.buffer.set_tag(self.state.input.as_str());
                self.state.input = String::new();
                self.state.mode = Mode::Insert(Field::Amount);
            },
            Field::Date => {
                match parse_date(self.state.input.as_str(), today) {
                    Ok(d) => {
                        let txt = d.to_text();
                        self.state.buffer.set_date(txt.as_str());
                        self.state.input = String::new();
                        self.state.mode = Mode::Insert(Field::Tag);
                        self.state.msg = String::new();
                    },
                    Err(_) => {
                        self.state.msg = "ERROR: cannot read date input.".to_owned();
                    },
                }
            },
            Field::Amount => {
                match self.state.buffer.set_amount(self.state.input.as_str()) {
                    Ok(_) => {
                        self.state.input = String::new();
                        self.state.mode = Mode::Insert(Field::Name);
                    },
                    Err(_) => {
                        self.state.msg = "ERROR: cannot parse amount".to_owned();
                    },
                }
            },
        }
        proof {
            assert(self@ =~= after_commit(old(self)@, f, *today));
        }
    }

    /// Handles one input event: the single entry point the host event loop
    /// drives. Every event is handled in place; only a storage failure
    /// while persisting a complete buffer comes back as an error.
    pub fn handle_event(&mut self, ev: InputEvent, today: &Date) -> (r: Result<(), Error>)
        requires
            today.is_valid(),
        ensures
            !persists(old(self)@, ev, *today) ==> r is Ok && final(self)@ == step(
                old(self)@,
                ev,
                *today,
            ),
            r is Err ==> persists(old(self)@, ev, *today),
            r matches Err(e) ==> e is DBError,
            persists(old(self)@, ev, *today) ==> {
                let a = step(old(self)@, ev, *today);
                let rec = persisted_record(old(self)@, *today);
                &&& final(self)@.mode == a.mode
                &&& final(self)@.msg == a.msg
                &&& final(self)@.input == a.input
                &&& r is Ok ==> {
                    &&& final(self)@.rows == old(self)@.rows.push(rec)
                    &&& !has_id(old(self)@.rows, rec.id)
                    &&& final(self)@.buffer.name == Seq::<char>::empty()
                    &&& final(self)@.buffer.tag == Seq::<char>::empty()
                    &&& final(self)@.buffer.date == Seq::<char>::empty()
                    &&& final(self)@.buffer.amount == 0
                }
                &&& r is Err ==> {
                    &&& final(self)@.rows == old(self)@.rows
                    &&& final(self)@.buffer == rec
                }
            },
    {
        let mode = self.state.mode;
        match mode {
            Mode::Normal => {
                match ev {
                    InputEvent::Char(c) => {
                        self.exec(c);
                        proof {
                            assert(self@ =~= step(old(self)@, ev, *today));
                        }
                        Ok(())
                    },
                    _ => {
                        proof {
                            assert(self@ =~= step(old(self)@, ev, *today));
                        }
                        Ok(())
                    },
                }
            },
            Mode::Insert(f) => {
                match ev {
                    InputEvent::Char(c) => {
                        push_char(&mut self.state.input, c);
                        proof {
                            assert(self@ =~= step(old(self)@, ev, *today));
                        }
                        Ok(())
                    },
                    InputEvent::Backspace => {
                        let _ = pop_char(&mut self.state.input);
                        proof {
                            assert(self@ =~= step(old(self)@, ev, *today));
                        }
                        Ok(())
                    },
                    InputEvent::Cancel => {
                        self.state.mode = Mode::Normal;
                        self.state.input = String::new();
                        proof {
                            assert(self@ =~= step(old(self)@, ev, *today));
                        }
                        Ok(())
                    },
                    InputEvent::Advance => {
                        self.commit_field(f, today);
                        proof {
                            assert(self@ =~= step(old(self)@, ev, *today));
                        }
                        Ok(())
                    },
                    InputEvent::Finalize => {
                        self.commit_field(f, today);
                        if self.state.buffer.name().as_str().is_empty() {
                            self.state.msg = "ERROR: record name is empty.".to_owned();
                            self.state.mode = Mode::Insert(Field::Name);
                            proof {
                                assert(self@ =~= step(old(self)@, ev, *today));
                            }
                            Ok(())
                        } else if self.state.buffer.date().is_empty() {
                            self.state.msg = "ERROR: record does not have a date.".to_owned();
                            self.state.mode = Mode::Insert(Field::Date);
                            proof {
                                assert(self@ =~= step(old(self)@, ev, *today));
                            }
                            Ok(())
                        } else if self.state.buffer.amount() == 0 {
                            self.state.msg = "ERROR: record does not have an amount.".to_owned();
                            self.state.mode = Mode::Insert(Field::Amount);
                            proof {
                                assert(self@ =~= step(old(self)@, ev, *today));
                            }
                            Ok(())
                        } else {
                            match self.datastore.append_one(&self.state.buffer) {
                                Ok(_) => {
                                    self.state.buffer = Expense::empty();
                                    Ok(())
                                },
                                Err(e) => Err(e),
                            }
                        }
                    },
                }
            },
        }
    }
}

} // verus!
