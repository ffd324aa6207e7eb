//! The protocol machine itself: one step for each host command and one for
//! each decision of the user.

use crate::codec::{
    append_bytes, authentic, decode_encrypted, decode_plain, encode_encrypted, encode_plain,
    opened, record_of,
};
use crate::generator::{draws_in_range, generate_random_password, password_of};
use crate::password::{lemma_trimmed_len, ArrayString, PasswordItem};
use crate::protocol::{
    approval_spec, be32, be_bytes, command_spec, export_command, export_opens, fails, field_at,
    granted_spec, idle_command, import_command, replies, upsert, upsert_fits, version_body,
    Action, Fresh, Instruction, Pending, Phase, Prompt, Session, APP_NAME, APP_VERSION,
};
use crate::status::{Error, SW_BAD_CLA, SW_OK, SW_UNKNOWN};
use crate::store::{
    has_name, lemma_position_of, lemma_remove_keeps_unique, lemma_remove_only_occurrence,
    position_of, unique_names, without_name, StorageFullError, Store, CAPACITY,
};
use vstd::prelude::*;
use vstd::slice::slice_subrange;
use vstd::string::StringSliceAdditionalSpecFns;

verus! {

/// A reply with a status word and a body.
pub fn reply(status: u16, body: Vec<u8>) -> (action: Action)
    ensures
        replies(action, status, body@),
{
    Action::Reply { status, body }
}

/// The reply that reports success and carries nothing.
pub fn reply_ok() -> (action: Action)
    ensures
        replies(action, SW_OK, Seq::empty()),
{
    Action::Reply { status: SW_OK, body: Vec::new() }
}

/// The reply that reports a failure.
pub fn reply_error(error: Error) -> (action: Action)
    ensures
        fails(action, error),
{
    Action::Reply { status: error.status_word(), body: Vec::new() }
}

/// Reads the 32 bytes of a command from offset `at` as a string.
pub fn read_field(apdu: &[u8; 260], at: usize) -> (r: ArrayString<32>)
    requires
        at + 32 <= 260,
    ensures
        r == field_at(apdu@, at as int),
{
    let bytes = slice_subrange(apdu.as_slice(), at, at + 32);
    proof {
        lemma_trimmed_len(bytes@);
    }
    ArrayString::from_bytes(bytes)
}

/// Reads four bytes of a command from offset `at` as a number, most
/// significant byte first.
pub fn read_be32(apdu: &[u8; 260], at: usize) -> (v: u32)
    requires
        at + 4 <= 260,
    ensures
        v == be32(apdu@.subrange(at as int, at + 4)),
{
    let b0: u32 = apdu[at] as u32;
    let b1: u32 = apdu[at + 1] as u32;
    let b2: u32 = apdu[at + 2] as u32;
    let b3: u32 = apdu[at + 3] as u32;
    b0 * 0x1000000 + b1 * 0x10000 + b2 * 0x100 + b3
}

/// The four bytes of a number, most significant byte first.
pub fn write_be32(v: u32) -> (out: Vec<u8>)
    ensures
        out@ == be_bytes(v as int),
{
    let mut out: Vec<u8> = Vec::new();
    out.push((v / 0x1000000 % 256) as u8);
    out.push((v / 0x10000 % 256) as u8);
    out.push((v / 0x100 % 256) as u8);
    out.push((v % 256) as u8);
    proof {
        assert(out@ =~= be_bytes(v as int));
    }
    out
}

/// The body of the reply to `GetVersion` for a name and a version.
pub fn version_reply(name: &str, version: &str) -> (out: Vec<u8>)
    ensures
        out@ == version_body(name.spec_bytes(), version.spec_bytes()),
{
    let mut out: Vec<u8> = Vec::new();
    out.push(1);
    let name = name.as_bytes();
    let version = version.as_bytes();
    out.push((name.len() % 256) as u8);
    append_bytes(&mut out, name);
    out.push((version.len() % 256) as u8);
    append_bytes(&mut out, version);
    out.push(0);
    proof {
        assert(out@ =~= version_body(name@, version@));
    }
    out
}

/// The entry to store for a name and a login: with the password given,
/// or, where none is given, with one of sixteen characters that the draws
/// pick.
pub fn new_item(
    name: &ArrayString<32>,
    login: &ArrayString<32>,
    pass: &Option<ArrayString<32>>,
    draws: &[u32; 16],
) -> (item: PasswordItem)
    requires
        pass is None ==> draws_in_range(draws@),
    ensures
        item.name == *name,
        item.login == *login,
        item.pass == match *pass {
            Some(p) => p,
            None => ArrayString::<32>::spec_from_bytes(password_of(draws@)),
        },
{
    let mut new_item = PasswordItem::new();
    new_item.name = *name;
    new_item.login = *login;
    match pass {
        Some(a) => {
            new_item.pass = *a;
        },
        None => {
            let mut generated = [0u8;16];
            generate_random_password(&mut generated, 16, draws);
            proof {
                assert(generated@ =~= password_of(draws@));
                lemma_trimmed_len(generated@);
            }
            new_item.pass.set_from_bytes(generated.as_slice());
        },
    }
    new_item
}

/// Puts `item` in the store: the entry with its name, if there is one,
/// leaves first, so a store that is full still takes a replacement.
pub fn put(passwords: &mut Store, item: &PasswordItem) -> (r: Result<(), StorageFullError>)
    requires
        old(passwords).wf(),
    ensures
        final(passwords).wf(),
        final(passwords)@ == upsert(old(passwords)@, *item),
        r is Ok <==> upsert_fits(old(passwords)@, *item),
{
    match passwords.position(&item.name) {
        Some(index) => {
            passwords.remove(index);
        },
        None => {},
    }
    passwords.add(item)
}

/// Adds or updates a password in the store, once the user has decided.
/// Without consent nothing changes. With it the entry replaces the one of
/// the same name, or is added where there is none and the store has room.
pub fn set_password(
    passwords: &mut Store,
    item: &PasswordItem,
    consent: bool,
) -> (r: Result<(), Error>)
    requires
        old(passwords).wf(),
    ensures
        final(passwords).wf(),
        !consent ==> r == Err::<(), Error>(Error::NoConsent) && final(passwords)@ == old(
            passwords,
        )@,
        consent ==> final(passwords)@ == upsert(old(passwords)@, *item),
        consent && upsert_fits(old(passwords)@, *item) ==> r == Ok::<(), Error>(()),
        consent && !upsert_fits(old(passwords)@, *item) ==> r == Err::<(), Error>(
            Error::StorageFull,
        ) && final(passwords)@ == old(passwords)@,
{
    if !consent {
        return Err(Error::NoConsent);
    }
    match put(passwords, item) {
        Ok(()) => Ok(()),
        Err(_) => {
            proof {
                if position_of(old(passwords)@, item.name@) is Some {
                    let i = position_of(old(passwords)@, item.name@)->0;
                    lemma_position_of(old(passwords)@, item.name@, i);
                }
            }
            Err(Error::StorageFull)
        },
    }
}

/// Putting an entry whose name is already stored replaces the old entry:
/// there is room whatever the store holds, the store has as many entries
/// as before, and the new entry is the last one.
pub proof fn lemma_upsert_replaces(items: Seq<PasswordItem>, item: PasswordItem)
    requires
        items.len() <= CAPACITY,
        has_name(items, item.name@),
    ensures
        upsert_fits(items, item),
        upsert(items, item).len() == items.len(),
        upsert(items, item).last() == item,
{
    lemma_position_of(items, item.name@, 0);
    let i = position_of(items, item.name@)->0;
    lemma_position_of(items, item.name@, i);
}

/// Putting an entry keeps names unique: the store never holds two
/// entries of one name as long as entries come in this way.
pub proof fn lemma_upsert_keeps_unique(items: Seq<PasswordItem>, item: PasswordItem)
    requires
        unique_names(items),
    ensures
        unique_names(upsert(items, item)),
{
    let name = item.name@;
    let rest = without_name(items, name);
    lemma_position_of(items, name, 0);
    if position_of(items, name) is Some {
        let i = position_of(items, name)->0;
        lemma_position_of(items, name, i);
        lemma_remove_keeps_unique(items, i);
        assert forall|j: int| 0 <= j < items.len() && j != i implies (#[trigger] items[j]).name@
            != name by {
            assert(items[i].name@ == name);
        }
        lemma_remove_only_occurrence(items, name, i);
    }
    assert(unique_names(rest));
    assert(!has_name(rest, name));
    if rest.len() < CAPACITY {
        let all = rest.push(item);
        assert forall|a: int, b: int| 0 <= a < all.len() && 0 <= b < all.len() && a != b implies (
        #[trigger] all[a]).name@ != (#[trigger] all[b]).name@ by {
            if a < rest.len() && b < rest.len() {
                assert(all[a] == rest[a]);
                assert(all[b] == rest[b]);
            } else if a < rest.len() {
                assert(all[a] == rest[a]);
                assert(rest[a].name@ != name);
            } else {
                assert(all[b] == rest[b]);
                assert(rest[b].name@ != name);
            }
        }
    }
}

/// No command changes the store so that two entries have one name.
pub proof fn lemma_command_keeps_unique(
    s: Session,
    ins: Instruction,
    apdu: Seq<u8>,
    fresh: Fresh,
    t: Session,
    action: Action,
)
    requires
        command_spec(s, ins, apdu, fresh, t, action),
        unique_names(s.store@),
    ensures
        unique_names(t.store@),
{
    match s.phase {
        Phase::Importing { remaining, encrypted } => {
            if ins == Instruction::ImportNext && !(encrypted && !authentic(
                s.key@,
                apdu.subrange(5, 133),
            )) {
                let item = record_of(
                    if encrypted {
                        opened(s.key@, apdu.subrange(5, 133))
                    } else {
                        apdu.subrange(5, 101)
                    },
                );
                lemma_upsert_keeps_unique(s.store@, item);
            }
        },
        _ => {},
    }
}

/// No decision of the user changes the store so that two entries have
/// one name.
pub proof fn lemma_approval_keeps_unique(s: Session, granted: bool, t: Session, action: Action)
    requires
        s.wf(),
        approval_spec(s, granted, t, action),
        unique_names(s.store@),
    ensures
        unique_names(t.store@),
{
    match s.phase {
        Phase::AwaitingConsent(pending) => {
            if granted {
                match pending {
                    Pending::Put { item } => {
                        lemma_upsert_keeps_unique(s.store@, item);
                    },
                    Pending::Remove { index } => {
                        lemma_remove_keeps_unique(s.store@, index as int);
                    },
                    _ => {},
                }
            }
        },
        _ => {},
    }
}

/// Putting an entry whose name is not stored appends it where there is
/// room, and changes nothing where there is none.
pub proof fn lemma_upsert_appends(items: Seq<PasswordItem>, item: PasswordItem)
    requires
        !has_name(items, item.name@),
    ensures
        upsert_fits(items, item) <==> items.len() < CAPACITY,
        upsert(items, item) == if items.len() < CAPACITY {
            items.push(item)
        } else {
            items
        },
{
}

impl Session {
    /// The store is within its capacity, and what the phase points at
    /// exists: the next entry of an export, the entry that a question is
    /// about, at least one more entry of an import.
    pub open spec fn wf(&self) -> bool {
        &&& self.store.wf()
        &&& match self.phase {
            Phase::Idle => true,
            Phase::Exporting { next, .. } => next < self.store@.len(),
            Phase::Importing { remaining, .. } => remaining > 0,
            Phase::AwaitingConsent(pending) => match pending {
                Pending::Read { index } => index < self.store@.len(),
                Pending::Show { index } => index < self.store@.len(),
                Pending::Remove { index } => index < self.store@.len(),
                _ => true,
            },
        }
    }

    /// A session over a store, idle, with the key for export and import.
    pub fn new(store: Store, key: [u8; 32]) -> (r: Session)
        requires
            store.wf(),
        ensures
            r.wf(),
            r.store@ == store@,
            r.key == key,
            r.phase == Phase::Idle,
    {
        Session { store, key, phase: Phase::Idle }
    }

    /// Whether a question is on the screen, so that the next event must
    /// be the user's decision.
    pub fn awaiting_consent(&self) -> (r: bool)
        ensures
            r == (self.phase is AwaitingConsent),
    {
        match self.phase {
            Phase::AwaitingConsent(_) => true,
            _ => false,
        }
    }

    /// Asks the user and remembers what the decision is about.
    fn ask(
        &mut self,
        prompt: Prompt,
        scope: Option<ArrayString<32>>,
        pending: Pending,
    ) -> (action: Action)
        ensures
            final(self).store == old(self).store,
            final(self).key == old(self).key,
            final(self).phase == Phase::AwaitingConsent(pending),
            action == (Action::Ask { prompt, scope }),
    {
        self.phase = Phase::AwaitingConsent(pending);
        Action::Ask { prompt, scope }
    }

    /// Takes one host command. What it does depends on the phase: see
    /// `command_spec`.
    pub fn command(&mut self, ins: Instruction, apdu: &[u8; 260], fresh: &Fresh) -> (action: Action)
        requires
            old(self).wf(),
            !(old(self).phase is AwaitingConsent),
            old(self).phase is Idle && ins == Instruction::Add && apdu[2] != 0 ==> draws_in_range(
                fresh.draws@,
            ),
        ensures
            final(self).wf(),
            command_spec(*old(self), ins, apdu@, *fresh, *final(self), action),
    {
        match self.phase {
            Phase::Idle => self.dispatch(ins, apdu, fresh),
            Phase::Exporting { next, encrypted } => self.export(next, encrypted, ins, fresh),
            Phase::Importing { remaining, encrypted } => self.import(remaining, encrypted, ins, apdu),
            // Left out by the precondition.
            Phase::AwaitingConsent(_) => reply(SW_UNKNOWN, Vec::new()),
        }
    }

    /// Takes a command in the idle phase.
    pub fn dispatch(
        &mut self,
        ins: Instruction,
        apdu: &[u8; 260],
        fresh: &Fresh,
    ) -> (action: Action)
        requires
            old(self).wf(),
            old(self).phase is Idle,
            ins == Instruction::Add && apdu[2] != 0 ==> draws_in_range(fresh.draws@),
        ensures
            final(self).wf(),
            idle_command(*old(self), ins, apdu@, *fresh, *final(self), action),
    {
        match ins {
            Instruction::GetVersion => reply(SW_OK, version_reply(APP_NAME, APP_VERSION)),
            Instruction::GetSize => reply(SW_OK, write_be32(self.store.len() as u32)),
            Instruction::Add => {
                let name = read_field(apdu, 5);
                let login = read_field(apdu, 37);
                let pass = if apdu[2] == 0 {
                    Some(read_field(apdu, 69))
                } else {
                    None
                };
                let item = new_item(&name, &login, &pass, &fresh.draws);
                let prompt = match self.store.position(&name) {
                    Some(_) => Prompt::UpdatePassword,
                    None => Prompt::CreatePassword,
                };
                self.ask(prompt, Some(name), Pending::Put { item })
            },
            Instruction::GetName => {
                let index = read_be32(apdu, 5);
                match self.store.get(index as usize) {
                    Some(password) => {
                        let mut body: Vec<u8> = Vec::new();
                        append_bytes(&mut body, password.name.bytes().as_slice());
                        reply(SW_OK, body)
                    },
                    None => reply_error(Error::EntryNotFound),
                }
            },
            Instruction::GetByName => {
                let name = read_field(apdu, 5);
                match self.store.position(&name) {
                    Some(index) => self.ask(
                        Prompt::ReadPassword,
                        Some(name),
                        Pending::Read { index },
                    ),
                    None => reply_error(Error::EntryNotFound),
                }
            },
            Instruction::ShowOnScreen => {
                let name = read_field(apdu, 5);
                match self.store.position(&name) {
                    Some(index) => self.ask(
                        Prompt::ReadPassword,
                        Some(name),
                        Pending::Show { index },
                    ),
                    None => reply_error(Error::EntryNotFound),
                }
            },
            Instruction::DeleteByName => {
                let name = read_field(apdu, 5);
                match self.store.position(&name) {
                    Some(index) => self.ask(
                        Prompt::RemovePassword,
                        Some(name),
                        Pending::Remove { index },
                    ),
                    None => reply_error(Error::EntryNotFound),
                }
            },
            Instruction::HasName => {
                let name = read_field(apdu, 5);
                let mut body: Vec<u8> = Vec::new();
                match self.store.position(&name) {
                    Some(_) => {
                        body.push(1);
                    },
                    None => {
                        body.push(0);
                    },
                }
                proof {
                    assert(body@ =~= seq![
                        if position_of(self.store@, name@) is Some {
                            1u8
                        } else {
                            0u8
                        },
                    ]);
                }
                reply(SW_OK, body)
            },
            Instruction::Clear => self.ask(Prompt::RemoveAll, None, Pending::ClearFirst),
            Instruction::Export => {
                let mode = apdu[2];
                if mode > 1 {
                    reply(SW_UNKNOWN, Vec::new())
                } else {
                    self.ask(Prompt::ExportPasswords, None, Pending::Export { encrypted: mode == 1 })
                }
            },
            Instruction::Import => {
                let mode = apdu[2];
                if mode > 1 {
                    reply(SW_UNKNOWN, Vec::new())
                } else {
                    let count = read_be32(apdu, 5);
                    self.ask(
                        Prompt::ImportPasswords,
                        None,
                        Pending::Import { count, encrypted: mode == 1 },
                    )
                }
            },
            Instruction::ExportNext => reply(SW_UNKNOWN, Vec::new()),
            Instruction::ImportNext => reply(SW_UNKNOWN, Vec::new()),
            Instruction::Quit => Action::Quit,
        }
    }

    /// Takes a command while an export session is open: sends the entry
    /// at `next` for `ExportNext`, and ends the session on anything else.
    pub fn export(
        &mut self,
        next: usize,
        encrypted: bool,
        ins: Instruction,
        fresh: &Fresh,
    ) -> (action: Action)
        requires
            old(self).wf(),
            old(self).phase == (Phase::Exporting { next, encrypted }),
        ensures
            final(self).wf(),
            export_command(*old(self), next, encrypted, ins, *fresh, *final(self), action),
    {
        match ins {
            Instruction::ExportNext => {
                let password = self.store.entry(next);
                let body = if encrypted {
                    encode_encrypted(&password, &self.key, &fresh.nonce)
                } else {
                    encode_plain(&password)
                };
                if next + 1 == self.store.len() {
                    self.phase = Phase::Idle;
                } else {
                    self.phase = Phase::Exporting { next: next + 1, encrypted };
                }
                reply(SW_OK, body)
            },
            _ => {
                self.phase = Phase::Idle;
                reply(SW_UNKNOWN, Vec::new())
            },
        }
    }

    /// Takes a command while an import session is open: stores the entry
    /// that `ImportNext` brings, and ends the session on an envelope that
    /// is not authentic or on any other instruction.
    pub fn import(
        &mut self,
        remaining: u32,
        encrypted: bool,
        ins: Instruction,
        apdu: &[u8; 260],
    ) -> (action: Action)
        requires
            old(self).wf(),
            old(self).phase == (Phase::Importing { remaining, encrypted }),
        ensures
            final(self).wf(),
            import_command(*old(self), remaining, encrypted, ins, apdu@, *final(self), action),
    {
        match ins {
            Instruction::ImportNext => {
                let decoded = if encrypted {
                    decode_encrypted(slice_subrange(apdu.as_slice(), 5, 133), &self.key)
                } else {
                    Ok(decode_plain(slice_subrange(apdu.as_slice(), 5, 101)))
                };
                match decoded {
                    Ok(new_item) => {
                        if remaining <= 1 {
                            self.phase = Phase::Idle;
                        } else {
                            self.phase = Phase::Importing { remaining: remaining - 1, encrypted };
                        }
                        match put(&mut self.store, &new_item) {
                            Ok(()) => reply_ok(),
                            Err(_) => reply_error(Error::StorageFull),
                        }
                    },
                    Err(_) => {
                        self.phase = Phase::Idle;
                        reply_error(Error::DecryptFailed)
                    },
                }
            },
            _ => {
                self.phase = Phase::Idle;
                reply(SW_BAD_CLA, Vec::new())
            },
        }
    }

    /// Opens an export session once the user has agreed to it.
    fn open_export(&mut self, encrypted: bool) -> (action: Action)
        requires
            old(self).wf(),
        ensures
            final(self).wf(),
            export_opens(*old(self), encrypted, *final(self), action),
    {
        let count = self.store.len();
        if count == 0 {
            self.phase = Phase::Idle;
        } else {
            self.phase = Phase::Exporting { next: 0, encrypted };
        }
        reply(SW_OK, write_be32(count as u32))
    }

    /// Takes the user's decision on the question that is on the screen:
    /// see `approval_spec`.
    pub fn approval(&mut self, granted: bool) -> (action: Action)
        requires
            old(self).wf(),
            old(self).phase is AwaitingConsent,
        ensures
            final(self).wf(),
            approval_spec(*old(self), granted, *final(self), action),
    {
        match self.phase {
            Phase::AwaitingConsent(pending) => {
                self.phase = Phase::Idle;
                if granted {
                    self.carry_out(pending)
                } else {
                    reply_error(Error::NoConsent)
                }
            },
            // Left out by the precondition.
            _ => reply(SW_UNKNOWN, Vec::new()),
        }
    }

    /// Carries out what the user has agreed to.
    fn carry_out(&mut self, pending: Pending) -> (action: Action)
        requires
            old(self).wf(),
            old(self).phase is Idle,
            match pending {
                Pending::Read { index } => index < old(self).store@.len(),
                Pending::Show { index } => index < old(self).store@.len(),
                Pending::Remove { index } => index < old(self).store@.len(),
                _ => true,
            },
        ensures
            final(self).wf(),
            granted_spec(*old(self), pending, *final(self), action),
    {
        match pending {
            Pending::Put { item } => match set_password(&mut self.store, &item, true) {
                Ok(()) => reply_ok(),
                Err(e) => reply_error(e),
            },
            Pending::Read { index } => {
                let p = self.store.entry(index);
                let mut body: Vec<u8> = Vec::new();
                append_bytes(&mut body, p.login.bytes().as_slice());
                append_bytes(&mut body, p.pass.bytes().as_slice());
                reply(SW_OK, body)
            },
            Pending::Show { index } => {
                let p = self.store.entry(index);
                Action::Show { login: p.login, pass: p.pass }
            },
            Pending::Remove { index } => {
                self.store.remove(index);
                reply_ok()
            },
            Pending::ClearFirst => self.ask(Prompt::AreYouSure, None, Pending::ClearSecond),
            Pending::ClearSecond => {
                self.store.clear();
                reply_ok()
            },
            Pending::Export { encrypted } => {
                if encrypted {
                    self.open_export(true)
                } else {
                    self.ask(Prompt::ExportPlaintext, None, Pending::ExportConfirm)
                }
            },
            Pending::ExportConfirm => self.open_export(false),
            Pending::Import { count, encrypted } => {
                if count > 0 {
                    self.phase = Phase::Importing { remaining: count, encrypted };
                }
                reply_ok()
            },
        }
    }
}

} // verus!
