use nanopass::codec::{encode_encrypted, encode_plain};
use nanopass::password::{ArrayString, PasswordItem};
use nanopass::protocol::{Action, Fresh, Instruction, Phase, Prompt, Session};
use nanopass::session::{
    new_item, read_be32, read_field, reply, reply_error, reply_ok, version_reply, write_be32,
};
use nanopass::status::{Error, SW_BAD_CLA, SW_OK, SW_UNKNOWN};
use nanopass::store::Store;

const KEY: [u8; 32] = [0x11; 32];

fn fresh() -> Fresh {
    Fresh { nonce: [0xa5; 16], draws: [0, 1, 2, 3, 4, 5, 6, 7, 26, 27, 28, 29, 52, 53, 54, 61] }
}

fn command(mode: u8, data: &[&[u8]]) -> [u8; 260] {
    let mut apdu = [0u8; 260];
    apdu[2] = mode;
    let mut at = 5;
    for part in data {
        apdu[at..at + part.len()].copy_from_slice(part);
        at += part.len();
    }
    apdu
}

fn field(text: &str) -> [u8; 32] {
    let mut f = [0u8; 32];
    f[..text.len()].copy_from_slice(text.as_bytes());
    f
}

fn session() -> Session {
    Session::new(Store::new(), KEY)
}

fn status_and_body(action: Action) -> (u16, Vec<u8>) {
    match action {
        Action::Reply { status, body } => (status, body),
        _ => panic!("expected a reply"),
    }
}

fn expect_ask(action: Action, expected: Prompt, name: Option<&str>) {
    match action {
        Action::Ask { prompt, scope } => {
            assert_eq!(prompt, expected);
            match (scope, name) {
                (Some(s), Some(n)) => assert_eq!(s.as_str(), n),
                (None, None) => {}
                _ => panic!("wrong scope"),
            }
        }
        _ => panic!("expected a question"),
    }
}

fn add_entry(s: &mut Session, name: &str, login: &str, pass: &str, consent: bool) -> (u16, Vec<u8>) {
    let apdu = command(0, &[&field(name), &field(login), &field(pass)]);
    let a = s.command(Instruction::Add, &apdu, &fresh());
    assert!(matches!(a, Action::Ask { .. }));
    assert!(s.awaiting_consent());
    status_and_body(s.approval(consent))
}

#[test]
fn instruction_codes() {
    assert_eq!(Instruction::try_from(0x01), Ok(Instruction::GetVersion));
    assert_eq!(Instruction::try_from(0x02), Ok(Instruction::GetSize));
    assert_eq!(Instruction::try_from(0x03), Ok(Instruction::Add));
    assert_eq!(Instruction::try_from(0x04), Ok(Instruction::GetName));
    assert_eq!(Instruction::try_from(0x05), Ok(Instruction::GetByName));
    assert_eq!(Instruction::try_from(0x06), Ok(Instruction::DeleteByName));
    assert_eq!(Instruction::try_from(0x07), Ok(Instruction::Export));
    assert_eq!(Instruction::try_from(0x08), Ok(Instruction::ExportNext));
    assert_eq!(Instruction::try_from(0x09), Ok(Instruction::Import));
    assert_eq!(Instruction::try_from(0x0a), Ok(Instruction::ImportNext));
    assert_eq!(Instruction::try_from(0x0b), Ok(Instruction::Clear));
    assert_eq!(Instruction::try_from(0x0c), Ok(Instruction::Quit));
    assert_eq!(Instruction::try_from(0x0d), Ok(Instruction::ShowOnScreen));
    assert_eq!(Instruction::try_from(0x0e), Ok(Instruction::HasName));
    assert_eq!(Instruction::try_from(0x00), Err(()));
    assert_eq!(Instruction::try_from(0x0f), Err(()));
    assert_eq!(Instruction::try_from(0xff), Err(()));
}

#[test]
fn big_endian_numbers() {
    assert_eq!(write_be32(0), vec![0, 0, 0, 0]);
    assert_eq!(write_be32(128), vec![0, 0, 0, 128]);
    assert_eq!(write_be32(0x01020304), vec![1, 2, 3, 4]);
    assert_eq!(write_be32(u32::MAX), vec![255, 255, 255, 255]);
    let apdu = command(0, &[&[0x01, 0x02, 0x03, 0x04]]);
    assert_eq!(read_be32(&apdu, 5), 0x01020304);
    let apdu = command(0, &[&[0xff, 0xff, 0xff, 0xff]]);
    assert_eq!(read_be32(&apdu, 5), u32::MAX);
}

#[test]
fn replies_carry_status() {
    assert_eq!(status_and_body(reply_ok()), (0x9000, vec![]));
    assert_eq!(status_and_body(reply_error(Error::EntryNotFound)), (0x6a88, vec![]));
    assert_eq!(status_and_body(reply(SW_UNKNOWN, vec![1])), (0x6d00, vec![1]));
    assert_eq!(SW_BAD_CLA, 0x6e00);
}

#[test]
fn read_field_trims() {
    let apdu = command(0, &[&field("abc")]);
    let f = read_field(&apdu, 5);
    assert_eq!(f.as_str(), "abc");
    assert_eq!(f.len(), 3);
}

#[test]
fn new_item_generates_password_when_none_given() {
    let name = ArrayString::from_bytes(b"n");
    let login = ArrayString::from_bytes(b"l");
    let item = new_item(&name, &login, &None, &fresh().draws);
    assert_eq!(item.pass.as_str(), "abcdefghABCD0129");
    assert_eq!(item.name.as_str(), "n");
    assert_eq!(item.login.as_str(), "l");
    let given = ArrayString::from_bytes(b"secret");
    let item = new_item(&name, &login, &Some(given), &fresh().draws);
    assert_eq!(item.pass.as_str(), "secret");
}

#[test]
fn get_version() {
    let mut s = session();
    let (status, body) = status_and_body(s.command(Instruction::GetVersion, &command(0, &[]), &fresh()));
    assert_eq!(status, SW_OK);
    let mut expected = vec![1u8, 8];
    expected.extend_from_slice(b"nanopass");
    expected.push(5);
    expected.extend_from_slice(b"0.1.0");
    expected.push(0);
    assert_eq!(body, expected);
    assert_eq!(version_reply("ab", "1"), vec![1, 2, b'a', b'b', 1, b'1', 0]);
}

#[test]
fn get_size_counts_entries() {
    let mut s = session();
    assert_eq!(
        status_and_body(s.command(Instruction::GetSize, &command(0, &[]), &fresh())),
        (SW_OK, vec![0, 0, 0, 0])
    );
    add_entry(&mut s, "a", "u", "p", true);
    add_entry(&mut s, "b", "u", "p", true);
    assert_eq!(
        status_and_body(s.command(Instruction::GetSize, &command(0, &[]), &fresh())),
        (SW_OK, vec![0, 0, 0, 2])
    );
}

#[test]
fn add_then_get_by_name() {
    let mut s = session();
    let apdu = command(0, &[&field("site1"), &field("user1"), &field("pw1")]);
    expect_ask(s.command(Instruction::Add, &apdu, &fresh()), Prompt::CreatePassword, Some("site1"));
    assert_eq!(status_and_body(s.approval(true)), (SW_OK, vec![]));
    assert_eq!(s.store.len(), 1);

    let query = command(0, &[&field("site1")]);
    expect_ask(s.command(Instruction::GetByName, &query, &fresh()), Prompt::ReadPassword, Some("site1"));
    let (status, body) = status_and_body(s.approval(true));
    assert_eq!(status, SW_OK);
    let mut expected = field("user1").to_vec();
    expected.extend_from_slice(&field("pw1"));
    assert_eq!(body, expected);

    expect_ask(s.command(Instruction::GetByName, &query, &fresh()), Prompt::ReadPassword, Some("site1"));
    assert_eq!(status_and_body(s.approval(false)), (0x69f0, vec![]));
    assert!(!s.awaiting_consent());
}

#[test]
fn add_without_consent_stores_nothing() {
    let mut s = session();
    assert_eq!(add_entry(&mut s, "a", "u", "p", false), (0x69f0, vec![]));
    assert_eq!(s.store.len(), 0);
}

#[test]
fn add_existing_name_asks_to_update() {
    let mut s = session();
    add_entry(&mut s, "a", "u", "old", true);
    add_entry(&mut s, "b", "u", "p", true);
    let apdu = command(0, &[&field("a"), &field("u2"), &field("new")]);
    expect_ask(s.command(Instruction::Add, &apdu, &fresh()), Prompt::UpdatePassword, Some("a"));
    assert_eq!(status_and_body(s.approval(false)), (0x69f0, vec![]));
    assert_eq!(s.store.len(), 2);
    assert_eq!(s.store.get(0).unwrap().pass.as_str(), "old");
    expect_ask(s.command(Instruction::Add, &apdu, &fresh()), Prompt::UpdatePassword, Some("a"));
    assert_eq!(status_and_body(s.approval(true)), (SW_OK, vec![]));
    assert_eq!(s.store.len(), 2);
    assert_eq!(s.store.get(0).unwrap().name.as_str(), "b");
    assert_eq!(s.store.get(1).unwrap().pass.as_str(), "new");
    assert_eq!(s.store.get(1).unwrap().login.as_str(), "u2");
}

#[test]
fn add_with_generated_password() {
    let mut s = session();
    let apdu = command(1, &[&field("a"), &field("u"), &field("ignored")]);
    expect_ask(s.command(Instruction::Add, &apdu, &fresh()), Prompt::CreatePassword, Some("a"));
    assert_eq!(status_and_body(s.approval(true)), (SW_OK, vec![]));
    assert_eq!(s.store.get(0).unwrap().pass.as_str(), "abcdefghABCD0129");
}

#[test]
fn add_to_full_store() {
    let mut s = session();
    for i in 0..128 {
        assert_eq!(add_entry(&mut s, &format!("n{}", i), "u", "p", true).0, SW_OK);
    }
    assert_eq!(add_entry(&mut s, "extra", "u", "p", true), (0x9210, vec![]));
    assert_eq!(s.store.len(), 128);
    assert_eq!(add_entry(&mut s, "n3", "u", "other", true), (SW_OK, vec![]));
    assert_eq!(s.store.len(), 128);
}

#[test]
fn get_name_by_index() {
    let mut s = session();
    add_entry(&mut s, "a", "u", "p", true);
    add_entry(&mut s, "b", "u", "p", true);
    let (status, body) = status_and_body(s.command(Instruction::GetName, &command(0, &[&[0, 0, 0, 1]]), &fresh()));
    assert_eq!(status, SW_OK);
    assert_eq!(body, field("b").to_vec());
    assert_eq!(
        status_and_body(s.command(Instruction::GetName, &command(0, &[&[0, 0, 0, 2]]), &fresh())),
        (0x6a88, vec![])
    );
    assert_eq!(
        status_and_body(s.command(Instruction::GetName, &command(0, &[&[1, 0, 0, 0]]), &fresh())),
        (0x6a88, vec![])
    );
}

#[test]
fn lookups_of_missing_names() {
    let mut s = session();
    add_entry(&mut s, "a", "u", "p", true);
    let query = command(0, &[&field("zz")]);
    for ins in [Instruction::GetByName, Instruction::ShowOnScreen, Instruction::DeleteByName] {
        assert_eq!(status_and_body(s.command(ins, &query, &fresh())), (0x6a88, vec![]));
        assert!(!s.awaiting_consent());
    }
    assert_eq!(s.store.len(), 1);
}

#[test]
fn has_name_needs_no_consent() {
    let mut s = session();
    add_entry(&mut s, "a", "u", "p", true);
    assert_eq!(
        status_and_body(s.command(Instruction::HasName, &command(0, &[&field("a")]), &fresh())),
        (SW_OK, vec![1])
    );
    assert_eq!(
        status_and_body(s.command(Instruction::HasName, &command(0, &[&field("b")]), &fresh())),
        (SW_OK, vec![0])
    );
}

#[test]
fn show_on_screen() {
    let mut s = session();
    add_entry(&mut s, "a", "login", "secret", true);
    let query = command(0, &[&field("a")]);
    expect_ask(s.command(Instruction::ShowOnScreen, &query, &fresh()), Prompt::ReadPassword, Some("a"));
    match s.approval(true) {
        Action::Show { login, pass } => {
            assert_eq!(login.as_str(), "login");
            assert_eq!(pass.as_str(), "secret");
        }
        _ => panic!("expected a display"),
    }
    expect_ask(s.command(Instruction::ShowOnScreen, &query, &fresh()), Prompt::ReadPassword, Some("a"));
    assert_eq!(status_and_body(s.approval(false)), (0x69f0, vec![]));
}

#[test]
fn delete_by_name() {
    let mut s = session();
    add_entry(&mut s, "a", "u", "p", true);
    add_entry(&mut s, "b", "u", "p", true);
    let query = command(0, &[&field("a")]);
    expect_ask(s.command(Instruction::DeleteByName, &query, &fresh()), Prompt::RemovePassword, Some("a"));
    assert_eq!(status_and_body(s.approval(false)), (0x69f0, vec![]));
    assert_eq!(s.store.len(), 2);
    expect_ask(s.command(Instruction::DeleteByName, &query, &fresh()), Prompt::RemovePassword, Some("a"));
    assert_eq!(status_and_body(s.approval(true)), (SW_OK, vec![]));
    assert_eq!(s.store.len(), 1);
    assert_eq!(s.store.get(0).unwrap().name.as_str(), "b");
    assert_eq!(
        status_and_body(s.command(Instruction::HasName, &query, &fresh())),
        (SW_OK, vec![0])
    );
}

#[test]
fn clear_asks_twice() {
    let mut s = session();
    add_entry(&mut s, "a", "u", "p", true);
    expect_ask(s.command(Instruction::Clear, &command(0, &[]), &fresh()), Prompt::RemoveAll, None);
    assert_eq!(status_and_body(s.approval(false)), (0x69f0, vec![]));
    assert_eq!(s.store.len(), 1);
    expect_ask(s.command(Instruction::Clear, &command(0, &[]), &fresh()), Prompt::RemoveAll, None);
    expect_ask(s.approval(true), Prompt::AreYouSure, None);
    assert_eq!(status_and_body(s.approval(false)), (0x69f0, vec![]));
    assert_eq!(s.store.len(), 1);
    expect_ask(s.command(Instruction::Clear, &command(0, &[]), &fresh()), Prompt::RemoveAll, None);
    expect_ask(s.approval(true), Prompt::AreYouSure, None);
    assert_eq!(status_and_body(s.approval(true)), (SW_OK, vec![]));
    assert_eq!(s.store.len(), 0);
}

#[test]
fn quit() {
    let mut s = session();
    assert!(matches!(s.command(Instruction::Quit, &command(0, &[]), &fresh()), Action::Quit));
}

#[test]
fn continuation_outside_a_session_is_rejected() {
    let mut s = session();
    assert_eq!(
        status_and_body(s.command(Instruction::ExportNext, &command(0, &[]), &fresh())),
        (SW_UNKNOWN, vec![])
    );
    assert_eq!(
        status_and_body(s.command(Instruction::ImportNext, &command(0, &[]), &fresh())),
        (SW_UNKNOWN, vec![])
    );
}

#[test]
fn unsupported_mode_is_rejected() {
    let mut s = session();
    assert_eq!(
        status_and_body(s.command(Instruction::Export, &command(2, &[]), &fresh())),
        (SW_UNKNOWN, vec![])
    );
    assert_eq!(
        status_and_body(s.command(Instruction::Import, &command(7, &[&[0, 0, 0, 1]]), &fresh())),
        (SW_UNKNOWN, vec![])
    );
    assert!(matches!(s.phase, Phase::Idle));
}

#[test]
fn export_plaintext_two_records() {
    let mut s = session();
    add_entry(&mut s, "site1", "user1", "pw1", true);
    add_entry(&mut s, "site2", "user2", "pw2", true);
    expect_ask(s.command(Instruction::Export, &command(0, &[]), &fresh()), Prompt::ExportPasswords, None);
    expect_ask(s.approval(true), Prompt::ExportPlaintext, None);
    assert_eq!(status_and_body(s.approval(true)), (SW_OK, vec![0, 0, 0, 2]));
    let first = encode_plain(&s.store.get(0).unwrap());
    let second = encode_plain(&s.store.get(1).unwrap());
    assert_eq!(&first[..5], b"site1");
    assert_eq!(&second[..5], b"site2");
    assert_eq!(
        status_and_body(s.command(Instruction::ExportNext, &command(0, &[]), &fresh())),
        (SW_OK, first)
    );
    assert_eq!(
        status_and_body(s.command(Instruction::ExportNext, &command(0, &[]), &fresh())),
        (SW_OK, second)
    );
    assert!(matches!(s.phase, Phase::Idle));
    assert_eq!(
        status_and_body(s.command(Instruction::ExportNext, &command(0, &[]), &fresh())),
        (SW_UNKNOWN, vec![])
    );
}

#[test]
fn export_needs_consent() {
    let mut s = session();
    add_entry(&mut s, "a", "u", "p", true);
    expect_ask(s.command(Instruction::Export, &command(0, &[]), &fresh()), Prompt::ExportPasswords, None);
    assert_eq!(status_and_body(s.approval(false)), (0x69f0, vec![]));
    assert!(matches!(s.phase, Phase::Idle));
    expect_ask(s.command(Instruction::Export, &command(0, &[]), &fresh()), Prompt::ExportPasswords, None);
    expect_ask(s.approval(true), Prompt::ExportPlaintext, None);
    assert_eq!(status_and_body(s.approval(false)), (0x69f0, vec![]));
    assert!(matches!(s.phase, Phase::Idle));
}

#[test]
fn export_encrypted_asks_once_and_seals() {
    let mut s = session();
    add_entry(&mut s, "a", "u", "p", true);
    expect_ask(s.command(Instruction::Export, &command(1, &[]), &fresh()), Prompt::ExportPasswords, None);
    assert_eq!(status_and_body(s.approval(true)), (SW_OK, vec![0, 0, 0, 1]));
    let expected = encode_encrypted(&s.store.get(0).unwrap(), &KEY, &fresh().nonce);
    let (status, body) = status_and_body(s.command(Instruction::ExportNext, &command(0, &[]), &fresh()));
    assert_eq!(status, SW_OK);
    assert_eq!(body.len(), 128);
    assert_eq!(body, expected);
    assert!(matches!(s.phase, Phase::Idle));
}

#[test]
fn export_of_empty_store_opens_no_session() {
    let mut s = session();
    expect_ask(s.command(Instruction::Export, &command(1, &[]), &fresh()), Prompt::ExportPasswords, None);
    assert_eq!(status_and_body(s.approval(true)), (SW_OK, vec![0, 0, 0, 0]));
    assert!(matches!(s.phase, Phase::Idle));
}

#[test]
fn export_aborts_on_other_instruction() {
    let mut s = session();
    add_entry(&mut s, "a", "u", "p", true);
    add_entry(&mut s, "b", "u", "p", true);
    expect_ask(s.command(Instruction::Export, &command(1, &[]), &fresh()), Prompt::ExportPasswords, None);
    s.approval(true);
    assert!(matches!(s.phase, Phase::Exporting { next: 0, encrypted: true }));
    assert_eq!(
        status_and_body(s.command(Instruction::GetSize, &command(0, &[]), &fresh())),
        (SW_UNKNOWN, vec![])
    );
    assert!(matches!(s.phase, Phase::Idle));
    assert_eq!(
        status_and_body(s.command(Instruction::ExportNext, &command(0, &[]), &fresh())),
        (SW_UNKNOWN, vec![])
    );
}

fn open_import(s: &mut Session, mode: u8, count: u32) {
    let apdu = command(mode, &[&count.to_be_bytes()]);
    expect_ask(s.command(Instruction::Import, &apdu, &fresh()), Prompt::ImportPasswords, None);
    assert_eq!(status_and_body(s.approval(true)), (SW_OK, vec![]));
}

fn item(name: &str, login: &str, pass: &str) -> PasswordItem {
    let mut item = PasswordItem::new();
    item.name = ArrayString::from_bytes(name.as_bytes());
    item.login = ArrayString::from_bytes(login.as_bytes());
    item.pass = ArrayString::from_bytes(pass.as_bytes());
    item
}

#[test]
fn import_plaintext_adds_and_replaces() {
    let mut s = session();
    add_entry(&mut s, "a", "u", "old", true);
    open_import(&mut s, 0, 2);
    assert!(matches!(s.phase, Phase::Importing { remaining: 2, encrypted: false }));
    let first = command(0, &[&field("a"), &field("u"), &field("new")]);
    assert_eq!(status_and_body(s.command(Instruction::ImportNext, &first, &fresh())), (SW_OK, vec![]));
    assert!(matches!(s.phase, Phase::Importing { remaining: 1, encrypted: false }));
    let second = command(0, &[&field("b"), &field("v"), &field("pb")]);
    assert_eq!(status_and_body(s.command(Instruction::ImportNext, &second, &fresh())), (SW_OK, vec![]));
    assert!(matches!(s.phase, Phase::Idle));
    assert_eq!(s.store.len(), 2);
    assert_eq!(s.store.get(0).unwrap().pass.as_str(), "new");
    assert_eq!(s.store.get(1).unwrap().name.as_str(), "b");
    assert_eq!(
        status_and_body(s.command(Instruction::ImportNext, &second, &fresh())),
        (SW_UNKNOWN, vec![])
    );
}

#[test]
fn import_needs_consent() {
    let mut s = session();
    let apdu = command(0, &[&[0, 0, 0, 3]]);
    expect_ask(s.command(Instruction::Import, &apdu, &fresh()), Prompt::ImportPasswords, None);
    assert_eq!(status_and_body(s.approval(false)), (0x69f0, vec![]));
    assert!(matches!(s.phase, Phase::Idle));
}

#[test]
fn import_of_nothing_opens_no_session() {
    let mut s = session();
    open_import(&mut s, 1, 0);
    assert!(matches!(s.phase, Phase::Idle));
}

#[test]
fn import_encrypted_round_trip() {
    let mut s = session();
    open_import(&mut s, 1, 1);
    let envelope = encode_encrypted(&item("site1", "user1", "pw1"), &KEY, &[9u8; 16]);
    let apdu = command(1, &[&envelope]);
    assert_eq!(status_and_body(s.command(Instruction::ImportNext, &apdu, &fresh())), (SW_OK, vec![]));
    assert_eq!(s.store.len(), 1);
    let stored = s.store.get(0).unwrap();
    assert_eq!(stored.name.as_str(), "site1");
    assert_eq!(stored.login.as_str(), "user1");
    assert_eq!(stored.pass.as_str(), "pw1");
    assert!(matches!(s.phase, Phase::Idle));
}

#[test]
fn import_encrypted_with_tampered_tag() {
    let mut s = session();
    add_entry(&mut s, "kept", "u", "p", true);
    open_import(&mut s, 1, 1);
    let mut envelope = encode_encrypted(&item("site1", "user1", "pw1"), &KEY, &[9u8; 16]);
    envelope[127] ^= 0x80;
    let apdu = command(1, &[&envelope]);
    assert_eq!(
        status_and_body(s.command(Instruction::ImportNext, &apdu, &fresh())),
        (0x9d60, vec![])
    );
    assert_eq!(s.store.len(), 1);
    assert_eq!(s.store.get(0).unwrap().name.as_str(), "kept");
    assert!(matches!(s.phase, Phase::Idle));
    assert_eq!(
        status_and_body(s.command(Instruction::ImportNext, &apdu, &fresh())),
        (SW_UNKNOWN, vec![])
    );
}

#[test]
fn import_failure_keeps_earlier_items_and_ends_session() {
    let mut s = session();
    open_import(&mut s, 1, 3);
    let good = encode_encrypted(&item("a", "u", "p"), &KEY, &[1u8; 16]);
    assert_eq!(
        status_and_body(s.command(Instruction::ImportNext, &command(1, &[&good]), &fresh())),
        (SW_OK, vec![])
    );
    let mut bad = encode_encrypted(&item("b", "u", "p"), &KEY, &[2u8; 16]);
    bad[40] ^= 1;
    assert_eq!(
        status_and_body(s.command(Instruction::ImportNext, &command(1, &[&bad]), &fresh())),
        (0x9d60, vec![])
    );
    assert_eq!(s.store.len(), 1);
    assert!(matches!(s.phase, Phase::Idle));
}

#[test]
fn import_aborts_on_other_instruction() {
    let mut s = session();
    open_import(&mut s, 0, 2);
    assert_eq!(
        status_and_body(s.command(Instruction::GetSize, &command(0, &[]), &fresh())),
        (SW_BAD_CLA, vec![])
    );
    assert!(matches!(s.phase, Phase::Idle));
}

#[test]
fn import_into_full_store_reports_and_goes_on() {
    let mut s = session();
    for i in 0..128 {
        add_entry(&mut s, &format!("n{}", i), "u", "p", true);
    }
    open_import(&mut s, 0, 2);
    let extra = command(0, &[&field("extra"), &field("u"), &field("p")]);
    assert_eq!(status_and_body(s.command(Instruction::ImportNext, &extra, &fresh())), (0x9210, vec![]));
    assert_eq!(s.store.len(), 128);
    assert!(matches!(s.phase, Phase::Importing { remaining: 1, encrypted: false }));
    let known = command(0, &[&field("n0"), &field("u"), &field("changed")]);
    assert_eq!(status_and_body(s.command(Instruction::ImportNext, &known, &fresh())), (SW_OK, vec![]));
    assert_eq!(s.store.len(), 128);
    assert_eq!(s.store.get(127).unwrap().pass.as_str(), "changed");
    assert!(matches!(s.phase, Phase::Idle));
}
