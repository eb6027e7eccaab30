//! What holds across calls of the parser, the store and the handler.
use crate::date::{digit_char, is_valid_day_month, parsed_date, two_digits};
use crate::handler::{handle_spec, CommandError, Invocation, SubCommand};
use crate::store::{get_spec, insert_spec, remove_spec, update_spec, Entry, StoreError, Table};
use vstd::prelude::*;

verus! {

/// Every existing day and month, each written with two digits and joined by
/// a `.`, parses back to that day and month.
pub proof fn law_parse_two_digit_token(day: int, month: int)
    requires
        is_valid_day_month(day, month),
    ensures
        parsed_date(two_digits(day) + seq!['.'] + two_digits(month)) == Some((day, month)),
{
    let s = two_digits(day) + seq!['.'] + two_digits(month);
    assert(s.len() == 5);
    assert(s[0] == digit_char(day / 10));
    assert(s[1] == digit_char(day % 10));
    assert(s[2] == '.');
    assert(s[3] == digit_char(month / 10));
    assert(s[4] == digit_char(month % 10));
    assert(s.subrange(0, 2) =~= two_digits(day));
    assert(s.subrange(3, 5) =~= two_digits(month));
    assert(0 <= day / 10 <= 3 && 0 <= day % 10 <= 9);
    assert(0 <= month / 10 <= 1 && 0 <= month % 10 <= 9);
    assert(10 * (day / 10) + day % 10 == day);
    assert(10 * (month / 10) + month % 10 == month);
}

/// Whatever `parse_date` accepts is a day and month that exists.
pub proof fn law_parsed_dates_exist(s: Seq<char>)
    ensures
        parsed_date(s) matches Some((d, m)) ==> is_valid_day_month(d, m),
{
}

/// Asking for one's birthday leaves the table as it was, so asking twice in
/// a row gives the same reply and the same error both times.
pub proof fn law_get_is_idempotent(t: Table, inv: Invocation)
    requires
        inv.sub_command == SubCommand::Get,
    ensures
        handle_spec(t, inv).0 == t,
        handle_spec(handle_spec(t, inv).0, inv) == handle_spec(t, inv),
{
}

/// After an owner's `add` succeeds, any later `add` with an argument for the
/// same owner fails with `Conflict` and changes nothing.
pub proof fn law_second_add_conflicts(t: Table, first: Invocation, second: Invocation)
    requires
        first.sub_command == SubCommand::Add,
        second.sub_command == SubCommand::Add,
        first.owner_id@ == second.owner_id@,
        second.argument is Some,
        handle_spec(t, first).2 is None,
    ensures
        handle_spec(handle_spec(t, first).0, second).2 == Some(CommandError::Store(StoreError::Conflict)),
        handle_spec(handle_spec(t, first).0, second).0 == handle_spec(t, first).0,
{
}

/// A successful store insert makes every later insert for the owner a
/// `Conflict`.
pub proof fn law_insert_is_unique(t: Table, owner: Seq<char>, day: u32, month: u32, name: Seq<char>, day2: u32, month2: u32, name2: Seq<char>)
    requires
        insert_spec(t, owner, day, month, name).1 is Ok,
    ensures
        insert_spec(insert_spec(t, owner, day, month, name).0, owner, day2, month2, name2).1 == Err::<(), StoreError>(StoreError::Conflict),
{
}

/// Inserting a record for an owner that has none, then reading it, gives back
/// the day, month and name inserted.
pub proof fn law_insert_then_get(t: Table, owner: Seq<char>, day: u32, month: u32, name: Seq<char>)
    requires
        !t.contains_key(owner),
    ensures
        insert_spec(t, owner, day, month, name).1 is Ok,
        get_spec(insert_spec(t, owner, day, month, name).0, owner) == Ok::<Entry, StoreError>((day, month, name)),
{
}

/// Updating an owner's record, then reading it, gives back the new day and
/// month.
pub proof fn law_update_then_get(t: Table, owner: Seq<char>, day: u32, month: u32, name: Option<Seq<char>>)
    requires
        t.contains_key(owner),
    ensures
        update_spec(t, owner, day, month, name).1 is Ok,
        get_spec(update_spec(t, owner, day, month, name).0, owner) matches Ok(e) && e.0 == day && e.1 == month,
{
}

/// Once an inserted record is removed, reading, updating and removing it
/// again all fail with `NotFound`.
pub proof fn law_remove_after_insert(t: Table, owner: Seq<char>, day: u32, month: u32, name: Seq<char>, day2: u32, month2: u32, name2: Option<Seq<char>>)
    ensures
        ({
            let added = insert_spec(t, owner, day, month, name).0;
            let gone = remove_spec(added, owner);
            &&& gone.1 is Ok
            &&& get_spec(gone.0, owner) == Err::<Entry, StoreError>(StoreError::NotFound)
            &&& update_spec(gone.0, owner, day2, month2, name2).1 == Err::<(), StoreError>(StoreError::NotFound)
            &&& remove_spec(gone.0, owner).1 == Err::<(), StoreError>(StoreError::NotFound)
        }),
{
}

/// Removing the record of an owner that has none fails with `NotFound`.
pub proof fn law_remove_without_record(t: Table, owner: Seq<char>)
    requires
        !t.contains_key(owner),
    ensures
        remove_spec(t, owner) == (t, Err::<(), StoreError>(StoreError::NotFound)),
{
}

/// Through the command: after the owner's `remove` succeeds, `get`, `edit`
/// with an argument, and `remove` for that owner fail with `NotFound`.
pub proof fn law_command_after_remove(t: Table, removal: Invocation, later: Invocation)
    requires
        removal.sub_command == SubCommand::Remove,
        handle_spec(t, removal).2 is None,
        later.owner_id@ == removal.owner_id@,
        later.sub_command == SubCommand::Get || later.sub_command == SubCommand::Remove
            || (later.sub_command == SubCommand::Edit && later.argument is Some),
    ensures
        handle_spec(handle_spec(t, removal).0, later).2 == Some(CommandError::Store(StoreError::NotFound)),
{
}

/// A command changes nothing but the caller's own record.
pub proof fn law_command_touches_only_caller(t: Table, inv: Invocation, other: Seq<char>)
    requires
        other != inv.owner_id@,
    ensures
        handle_spec(t, inv).0.contains_key(other) == t.contains_key(other),
        t.contains_key(other) ==> handle_spec(t, inv).0[other] == t[other],
{
}

} // verus!
