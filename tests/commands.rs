use birthday_bot::handler::{handle, storage_failure, CommandError, Invocation, Outcome, SubCommand};
use birthday_bot::store::{BirthdayStore, StoreError};

fn inv(owner: &str, cmd: SubCommand, arg: Option<&str>) -> Invocation {
    Invocation {
        owner_id: owner.to_string(),
        display_name: "Ann".to_string(),
        sub_command: cmd,
        argument: arg.map(|a| a.to_string()),
    }
}

fn run(s: &mut BirthdayStore, owner: &str, cmd: SubCommand, arg: Option<&str>) -> Outcome {
    handle(s, &inv(owner, cmd, arg))
}

#[test]
fn add_leap_day_is_invalid() {
    let mut s = BirthdayStore::new();
    let o = run(&mut s, "X", SubCommand::Add, Some("29.02"));
    assert_eq!(o.error, Some(CommandError::InvalidDate));
    assert_eq!(o.reply.text, "Provide a valid date in the format dd.mm.");
    assert!(!o.reply.ok);
    assert!(!s.has_record("X"));
}

#[test]
fn add_for_fresh_owner() {
    let mut s = BirthdayStore::new();
    let o = run(&mut s, "X", SubCommand::Add, Some("05.07"));
    assert!(o.reply.ok);
    assert_eq!(o.error, None);
    assert_eq!(o.reply.text, "Added birthday for user Ann: July 05");
    let r = s.get("X").unwrap();
    assert_eq!((r.day, r.month), (5, 7));
}

#[test]
fn second_add_conflicts_whatever_the_argument() {
    let mut s = BirthdayStore::new();
    assert!(run(&mut s, "X", SubCommand::Add, Some("05.07")).reply.ok);
    for arg in ["01.01", "29.02", "nonsense"] {
        let o = run(&mut s, "X", SubCommand::Add, Some(arg));
        assert_eq!(o.error, Some(CommandError::Store(StoreError::Conflict)));
        assert_eq!(o.reply.text, "User's birthday already exists.");
        assert!(!o.reply.ok);
    }
    assert_eq!(s.get("X").unwrap().day, 5);
}

#[test]
fn missing_argument_gives_the_hint() {
    let mut s = BirthdayStore::new();
    for cmd in [SubCommand::Add, SubCommand::Edit] {
        let o = run(&mut s, "X", cmd, None);
        assert_eq!(o.error, Some(CommandError::InvalidDate));
        assert_eq!(o.reply.text, "Provide a valid date in the format dd.mm.");
    }
}

#[test]
fn edit_then_get() {
    let mut s = BirthdayStore::new();
    run(&mut s, "X", SubCommand::Add, Some("05.07"));
    let o = run(&mut s, "X", SubCommand::Edit, Some("20.12"));
    assert!(o.reply.ok);
    assert_eq!(o.reply.text, "Edited birthday for user Ann: December 20");
    let g = run(&mut s, "X", SubCommand::Get, None);
    assert_eq!(g.reply.text, "Your birthday is set to be December 20");
    assert!(g.reply.ok);
}

#[test]
fn edit_invalid_date_keeps_record() {
    let mut s = BirthdayStore::new();
    run(&mut s, "X", SubCommand::Add, Some("05.07"));
    let o = run(&mut s, "X", SubCommand::Edit, Some("31.04"));
    assert_eq!(o.error, Some(CommandError::InvalidDate));
    assert_eq!((s.get("X").unwrap().day, s.get("X").unwrap().month), (5, 7));
}

#[test]
fn get_twice_gives_the_same_reply() {
    let mut s = BirthdayStore::new();
    run(&mut s, "X", SubCommand::Add, Some("5.7"));
    let a = run(&mut s, "X", SubCommand::Get, None);
    let b = run(&mut s, "X", SubCommand::Get, None);
    assert_eq!(a.reply.text, "Your birthday is set to be July 05");
    assert_eq!(a.reply.text, b.reply.text);
    assert_eq!(a.error, b.error);
}

#[test]
fn command_lifecycle() {
    let mut s = BirthdayStore::new();
    let o = run(&mut s, "X", SubCommand::Remove, None);
    assert_eq!(o.error, Some(CommandError::Store(StoreError::NotFound)));
    assert_eq!(o.reply.text, "Birthday not found. Please add birthday using ~birthday add DD.MM");
    run(&mut s, "X", SubCommand::Add, Some("05.07"));
    let o = run(&mut s, "X", SubCommand::Remove, None);
    assert!(o.reply.ok);
    assert_eq!(o.reply.text, "Successfully removed your birthday.");
    let g = run(&mut s, "X", SubCommand::Get, None);
    assert_eq!(g.error, Some(CommandError::Store(StoreError::NotFound)));
    assert_eq!(g.reply.text, "No birthday found.");
    let e = run(&mut s, "X", SubCommand::Edit, Some("01.01"));
    assert_eq!(e.error, Some(CommandError::Store(StoreError::NotFound)));
    assert_eq!(e.reply.text, "Birthday not found. Please add birthday using ~birthday add DD.MM");
}

#[test]
fn mod_menu_reply() {
    let mut s = BirthdayStore::new();
    let o = run(&mut s, "X", SubCommand::ModMenu, None);
    assert!(o.reply.ok);
    assert_eq!(o.reply.text, "mod_menu");
}

#[test]
fn storage_failure_reply() {
    let o = storage_failure();
    assert!(!o.reply.ok);
    assert_eq!(o.error, Some(CommandError::Store(StoreError::StorageError)));
    assert_eq!(o.reply.text, "Couldn't complete the request. Try again.");
}
