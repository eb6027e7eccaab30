//! The birthday command: one invocation in, one reply out.
use crate::date::{month_day_text, parse_date, parsed_date, BirthDate};
use crate::store::{BirthdayStore, StoreError, Table};
use vstd::prelude::*;

verus! {

/// The sub-commands of the birthday command.
#[derive(Clone, Copy, Debug, PartialEq, Eq, Structural)]
pub enum SubCommand {
    Add,
    Edit,
    Remove,
    Get,
    /// The administrative menu; the caller's permission is checked before
    /// the invocation gets here.
    ModMenu,
}

/// One parsed request.
#[derive(Debug)]
pub struct Invocation {
    pub owner_id: String,
    pub display_name: String,
    pub sub_command: SubCommand,
    pub argument: Option<String>,
}

/// What goes back to the caller.
#[derive(Debug)]
pub struct Reply {
    pub text: String,
    pub ok: bool,
}

/// Why an invocation failed.
#[derive(Clone, Copy, Debug, PartialEq, Eq, Structural)]
pub enum CommandError {
    /// The argument is missing or is not a valid `dd.mm` date.
    InvalidDate,
    Store(StoreError),
}

/// The reply, and the error where the invocation failed.
#[derive(Debug)]
pub struct Outcome {
    pub reply: Reply,
    pub error: Option<CommandError>,
}

pub open spec fn format_hint() -> Seq<char> {
    "Provide a valid date in the format dd.mm."@
}

pub open spec fn already_exists() -> Seq<char> {
    "User's birthday already exists."@
}

pub open spec fn not_found_use_add() -> Seq<char> {
    "Birthday not found. Please add birthday using ~birthday add DD.MM"@
}

pub open spec fn no_birthday_found() -> Seq<char> {
    "No birthday found."@
}

pub open spec fn removed_text() -> Seq<char> {
    "Successfully removed your birthday."@
}

pub open spec fn mod_menu_text() -> Seq<char> {
    "mod_menu"@
}

pub open spec fn storage_failure_text() -> Seq<char> {
    "Couldn't complete the request. Try again."@
}

pub open spec fn added_text(name: Seq<char>, day: int, month: int) -> Seq<char> {
    "Added birthday for user "@ + name + ": "@ + month_day_text(day, month)
}

pub open spec fn edited_text(name: Seq<char>, day: int, month: int) -> Seq<char> {
    "Edited birthday for user "@ + name + ": "@ + month_day_text(day, month)
}

pub open spec fn birthday_text(day: int, month: int) -> Seq<char> {
    "Your birthday is set to be "@ + month_day_text(day, month)
}

/// The new table, the reply text and the error of an invocation of `add`.
pub open spec fn add_spec(t: Table, owner: Seq<char>, name: Seq<char>, arg: Option<Seq<char>>) -> (Table, Seq<char>, Option<CommandError>) {
    match arg {
        None => (t, format_hint(), Some(CommandError::InvalidDate)),
        Some(a) => if t.contains_key(owner) {
            (t, already_exists(), Some(CommandError::Store(StoreError::Conflict)))
        } else {
            match parsed_date(a) {
                None => (t, format_hint(), Some(CommandError::InvalidDate)),
                Some((d, m)) => (t.insert(owner, (d as u32, m as u32, name)), added_text(name, d, m), None),
            }
        },
    }
}

/// The same for `edit`; the record takes the invocation's display name.
pub open spec fn edit_spec(t: Table, owner: Seq<char>, name: Seq<char>, arg: Option<Seq<char>>) -> (Table, Seq<char>, Option<CommandError>) {
    match arg {
        None => (t, format_hint(), Some(CommandError::InvalidDate)),
        Some(a) => if !t.contains_key(owner) {
            (t, not_found_use_add(), Some(CommandError::Store(StoreError::NotFound)))
        } else {
            match parsed_date(a) {
                None => (t, format_hint(), Some(CommandError::InvalidDate)),
                Some((d, m)) => (t.insert(owner, (d as u32, m as u32, name)), edited_text(name, d, m), None),
            }
        },
    }
}

/// The same for `remove`.
pub open spec fn remove_cmd_spec(t: Table, owner: Seq<char>) -> (Table, Seq<char>, Option<CommandError>) {
    if t.contains_key(owner) {
        (t.remove(owner), removed_text(), None)
    } else {
        (t, not_found_use_add(), Some(CommandError::Store(StoreError::NotFound)))
    }
}

/// The same for `get`.
pub open spec fn get_cmd_spec(t: Table, owner: Seq<char>) -> (Table, Seq<char>, Option<CommandError>) {
    if t.contains_key(owner) {
        (t, birthday_text(t[owner].0 as int, t[owner].1 as int), None)
    } else {
        (t, no_birthday_found(), Some(CommandError::Store(StoreError::NotFound)))
    }
}

pub open spec fn argument_view(arg: Option<String>) -> Option<Seq<char>> {
    match arg {
        Some(a) => Some(a@),
        None => None,
    }
}

/// The new table, the reply text and the error of `inv`.
pub open spec fn handle_spec(t: Table, inv: Invocation) -> (Table, Seq<char>, Option<CommandError>) {
    let owner = inv.owner_id@;
    let name = inv.display_name@;
    let arg = argument_view(inv.argument);
    match inv.sub_command {
        SubCommand::Add => add_spec(t, owner, name, arg),
        SubCommand::Edit => edit_spec(t, owner, name, arg),
        SubCommand::Remove => remove_cmd_spec(t, owner),
        SubCommand::Get => get_cmd_spec(t, owner),
        SubCommand::ModMenu => (t, mod_menu_text(), None),
    }
}

fn failed(text: String, error: CommandError) -> (o: Outcome)
    ensures
        o.reply.text@ == text@,
        !o.reply.ok,
        o.error == Some(error),
{
    Outcome { reply: Reply { text, ok: false }, error: Some(error) }
}

fn succeeded(text: String) -> (o: Outcome)
    ensures
        o.reply.text@ == text@,
        o.reply.ok,
        o.error is None,
{
    Outcome { reply: Reply { text, ok: true }, error: None }
}

/// `prefix`, the name, `": "` and the date.
fn confirmation(prefix: &str, name: &String, date: &BirthDate) -> (r: String)
    requires
        date.is_valid(),
    ensures
        r@ == prefix@ + name@ + ": "@ + month_day_text(date.day as int, date.month as int),
{
    let mut text = String::from_str(prefix);
    text.append(name.as_str());
    text.append(": ");
    let shown = date.to_text();
    text.append(shown.as_str());
    text
}

/// The outcome of an invocation whose store could not be reached.
pub fn storage_failure() -> (o: Outcome)
    ensures
        o.reply.text@ == storage_failure_text(),
        !o.reply.ok,
        o.error == Some(CommandError::Store(StoreError::StorageError)),
{
    failed(
        String::from_str("Couldn't complete the request. Try again."),
        CommandError::Store(StoreError::StorageError),
    )
}

fn add_birthday(store: &mut BirthdayStore, inv: &Invocation) -> (o: Outcome)
    requires
        old(store).wf(),
        inv.sub_command == SubCommand::Add,
    ensures
        final(store).wf(),
        (final(store)@, o.reply.text@, o.error) == handle_spec(old(store)@, *inv),
        o.reply.ok == o.error is None,
{
    let arg = match &inv.argument {
        Some(a) => a,
        None => {
            return failed(
                String::from_str("Provide a valid date in the format dd.mm."),
                CommandError::InvalidDate,
            );
        },
    };
    if store.has_record(inv.owner_id.as_str()) {
        return failed(
            String::from_str("User's birthday already exists."),
            CommandError::Store(StoreError::Conflict),
        );
    }
    let date = match parse_date(arg.as_str()) {
        Ok(d) => d,
        Err(_) => {
            return failed(
                String::from_str("Provide a valid date in the format dd.mm."),
                CommandError::InvalidDate,
            );
        },
    };
    match store.insert(inv.owner_id.as_str(), date.day, date.month, inv.display_name.as_str()) {
        Ok(()) => succeeded(confirmation("Added birthday for user ", &inv.display_name, &date)),
        Err(e) => failed(String::from_str("User's birthday already exists."), CommandError::Store(e)),
    }
}

fn edit_birthday(store: &mut BirthdayStore, inv: &Invocation) -> (o: Outcome)
    requires
        old(store).wf(),
        inv.sub_command == SubCommand::Edit,
    ensures
        final(store).wf(),
        (final(store)@, o.reply.text@, o.error) == handle_spec(old(store)@, *inv),
        o.reply.ok == o.error is None,
{
    let arg = match &inv.argument {
        Some(a) => a,
        None => {
            return failed(
                String::from_str("Provide a valid date in the format dd.mm."),
                CommandError::InvalidDate,
            );
        },
    };
    if !store.has_record(inv.owner_id.as_str()) {
        return failed(
            String::from_str("Birthday not found. Please add birthday using ~birthday add DD.MM"),
            CommandError::Store(StoreError::NotFound),
        );
    }
    let date = match parse_date(arg.as_str()) {
        Ok(d) => d,
        Err(_) => {
            return failed(
                String::from_str("Provide a valid date in the format dd.mm."),
                CommandError::InvalidDate,
            );
        },
    };
    match store.update(inv.owner_id.as_str(), date.day, date.month, Some(inv.display_name.as_str())) {
        Ok(()) => succeeded(confirmation("Edited birthday for user ", &inv.display_name, &date)),
        Err(e) => failed(
            String::from_str("Birthday not found. Please add birthday using ~birthday add DD.MM"),
            CommandError::Store(e),
        ),
    }
}

fn remove_birthday(store: &mut BirthdayStore, inv: &Invocation) -> (o: Outcome)
    requires
        old(store).wf(),
        inv.sub_command == SubCommand::Remove,
    ensures
        final(store).wf(),
        (final(store)@, o.reply.text@, o.error) == handle_spec(old(store)@, *inv),
        o.reply.ok == o.error is None,
{
    match store.remove(inv.owner_id.as_str()) {
        Ok(()) => succeeded(String::from_str("Successfully removed your birthday.")),
        Err(e) => failed(
            String::from_str("Birthday not found. Please add birthday using ~birthday add DD.MM"),
            CommandError::Store(e),
        ),
    }
}

fn get_birthday(store: &BirthdayStore, inv: &Invocation) -> (o: Outcome)
    requires
        store.wf(),
        inv.sub_command == SubCommand::Get,
    ensures
        (store@, o.reply.text@, o.error) == handle_spec(store@, *inv),
        o.reply.ok == o.error is None,
{
    match store.get(inv.owner_id.as_str()) {
        Ok(rec) => {
            let date = BirthDate { day: rec.day, month: rec.month };
            let mut text = String::from_str("Your birthday is set to be ");
            let shown = date.to_text();
            text.append(shown.as_str());
            succeeded(text)
        },
        Err(e) => failed(String::from_str("No birthday found."), CommandError::Store(e)),
    }
}

fn mod_menu() -> (o: Outcome)
    ensures
        o.reply.text@ == mod_menu_text(),
        o.reply.ok,
        o.error is None,
{
    succeeded(String::from_str("mod_menu"))
}

/// Runs one invocation against the store. The store changes only on
/// success, and only as `handle_spec` says.
pub fn handle(store: &mut BirthdayStore, inv: &Invocation) -> (o: Outcome)
    requires
        old(store).wf(),
    ensures
        final(store).wf(),
        (final(store)@, o.reply.text@, o.error) == handle_spec(old(store)@, *inv),
        o.reply.ok == o.error is None,
{
    match inv.sub_command {
        SubCommand::Add => add_birthday(store, inv),
        SubCommand::Edit => edit_birthday(store, inv),
        SubCommand::Remove => remove_birthday(store, inv),
        SubCommand::Get => get_birthday(store, inv),
        SubCommand::ModMenu => mod_menu(),
    }
}

} // verus!
