//! The command protocol as a state machine. The surrounding program
//! delivers each host command and each decision of the user; the machine
//! answers with what to do next: reply to the host, or put a question to
//! the user.

use crate::codec::{authentic, opened, record_bytes, record_of, sealed};
use crate::generator::password_of;
use crate::password::{ArrayString, PasswordItem};
use crate::status::{Error, SW_BAD_CLA, SW_OK, SW_UNKNOWN};
use crate::store::{position_of, without_name, Store, CAPACITY};
use vstd::prelude::*;
use vstd::string::StringSliceAdditionalSpecFns;

verus! {

/// Name of the application, as `GetVersion` reports it.
pub const APP_NAME: &'static str = "nanopass";

/// Version of the application, as `GetVersion` reports it.
pub const APP_VERSION: &'static str = "0.1.0";

/// What the host can ask for.
#[derive(Clone, Copy, Debug, PartialEq, Eq, Structural)]
pub enum Instruction {
    GetVersion,
    GetSize,
    Add,
    GetName,
    GetByName,
    DeleteByName,
    Export,
    ExportNext,
    Import,
    ImportNext,
    Clear,
    Quit,
    ShowOnScreen,
    HasName,
}

impl Instruction {
    /// The instruction that a code stands for.
    pub open spec fn spec_try_from(v: u8) -> Option<Instruction> {
        match v {
            0x01 => Some(Instruction::GetVersion),
            0x02 => Some(Instruction::GetSize),
            0x03 => Some(Instruction::Add),
            0x04 => Some(Instruction::GetName),
            0x05 => Some(Instruction::GetByName),
            0x06 => Some(Instruction::DeleteByName),
            0x07 => Some(Instruction::Export),
            0x08 => Some(Instruction::ExportNext),
            0x09 => Some(Instruction::Import),
            0x0a => Some(Instruction::ImportNext),
            0x0b => Some(Instruction::Clear),
            0x0c => Some(Instruction::Quit),
            0x0d => Some(Instruction::ShowOnScreen),
            0x0e => Some(Instruction::HasName),
            _ => None,
        }
    }

    /// Decodes an instruction code; a code that stands for nothing is
    /// refused.
    pub fn try_from(v: u8) -> (r: Result<Instruction, ()>)
        ensures
            r == match Self::spec_try_from(v) {
                Some(i) => Ok::<Instruction, ()>(i),
                None => Err::<Instruction, ()>(()),
            },
    {
        match v {
            0x01 => Ok(Instruction::GetVersion),
            0x02 => Ok(Instruction::GetSize),
            0x03 => Ok(Instruction::Add),
            0x04 => Ok(Instruction::GetName),
            0x05 => Ok(Instruction::GetByName),
            0x06 => Ok(Instruction::DeleteByName),
            0x07 => Ok(Instruction::Export),
            0x08 => Ok(Instruction::ExportNext),
            0x09 => Ok(Instruction::Import),
            0x0a => Ok(Instruction::ImportNext),
            0x0b => Ok(Instruction::Clear),
            0x0c => Ok(Instruction::Quit),
            0x0d => Ok(Instruction::ShowOnScreen),
            0x0e => Ok(Instruction::HasName),
            _ => Err(()),
        }
    }
}

/// A question put to the user.
#[derive(Clone, Copy, Debug, PartialEq, Eq, Structural)]
pub enum Prompt {
    UpdatePassword,
    CreatePassword,
    ReadPassword,
    RemovePassword,
    RemoveAll,
    AreYouSure,
    ExportPasswords,
    ExportPlaintext,
    ImportPasswords,
}

/// What waits for the user's decision.
#[derive(Clone, Copy)]
pub enum Pending {
    /// Store `item`, in place of the entry with its name if there is one.
    Put { item: PasswordItem },
    /// Send login and password of the entry at `index` to the host.
    Read { index: usize },
    /// Show login and password of the entry at `index` on the device.
    Show { index: usize },
    /// Delete the entry at `index`.
    Remove { index: usize },
    /// Empty the store; a second question follows.
    ClearFirst,
    /// Empty the store; this was the second question.
    ClearSecond,
    /// Open an export session.
    Export { encrypted: bool },
    /// Open a plaintext export session; this was the warning.
    ExportConfirm,
    /// Open an import session of `count` entries.
    Import { count: u32, encrypted: bool },
}

/// Where the protocol stands between two events.
#[derive(Clone, Copy)]
pub enum Phase {
    /// Any instruction is accepted.
    Idle,
    /// A question is on the screen.
    AwaitingConsent(Pending),
    /// An export session is open; the entry at `next` goes out next.
    Exporting { next: usize, encrypted: bool },
    /// An import session is open; `remaining` entries are still expected.
    Importing { remaining: u32, encrypted: bool },
}

/// What the surrounding program is to do after an event.
pub enum Action {
    /// Send a status word and a body to the host.
    Reply { status: u16, body: Vec<u8> },
    /// Ask the user, naming the entry concerned where there is one, and
    /// come back with the decision.
    Ask { prompt: Prompt, scope: Option<ArrayString<32>> },
    /// Show login and password on the device, then send the status word
    /// of success.
    Show { login: ArrayString<32>, pass: ArrayString<32> },
    /// Send the status word of success, then leave the application.
    Quit,
}

/// Random values drawn for one command: a nonce for an envelope, and
/// indices into the password alphabet, each drawn uniformly.
pub struct Fresh {
    pub nonce: [u8; 16],
    pub draws: [u32; 16],
}

/// The vault as the protocol sees it: the store, the session key and the
/// phase of the exchange.
pub struct Session {
    pub store: Store,
    pub key: [u8; 32],
    pub phase: Phase,
}

/// The number that four bytes hold, most significant byte first.
pub open spec fn be32(b: Seq<u8>) -> int {
    b[0] * 0x1000000 + b[1] * 0x10000 + b[2] * 0x100 + b[3]
}

/// The four bytes that hold `v`, most significant byte first.
pub open spec fn be_bytes(v: int) -> Seq<u8> {
    seq![
        (v / 0x1000000 % 256) as u8,
        (v / 0x10000 % 256) as u8,
        (v / 0x100 % 256) as u8,
        (v % 256) as u8,
    ]
}

/// Reading back the four bytes of a number gives the number.
pub proof fn lemma_be32_round_trip(v: int)
    requires
        0 <= v < 0x1_0000_0000,
    ensures
        be32(be_bytes(v)) == v,
        be_bytes(v).len() == 4,
{
}

/// The body of the reply to `GetVersion`: a format byte, name and
/// version each behind a byte with its length, and a byte of flags.
pub open spec fn version_body(name: Seq<u8>, version: Seq<u8>) -> Seq<u8> {
    seq![1u8] + seq![(name.len() % 256) as u8] + name + seq![(version.len() % 256) as u8] + version
        + seq![0u8]
}

/// The string that 32 bytes of a command hold from offset `at`.
pub open spec fn field_at(apdu: Seq<u8>, at: int) -> ArrayString<32> {
    ArrayString::<32>::spec_from_bytes(apdu.subrange(at, at + 32))
}

/// The entry that an `Add` command describes: name, login, and the
/// password sent along where the mode byte is zero, else the password that
/// the draws give.
pub open spec fn added_item(apdu: Seq<u8>, draws: Seq<u32>) -> PasswordItem {
    PasswordItem {
        name: field_at(apdu, 5),
        login: field_at(apdu, 37),
        pass: if apdu[2] == 0 {
            field_at(apdu, 69)
        } else {
            ArrayString::<32>::spec_from_bytes(password_of(draws))
        },
    }
}

/// The store after `item` was put in: the first entry with its name, if
/// any, leaves, and `item` joins at the end where there is room.
pub open spec fn upsert(items: Seq<PasswordItem>, item: PasswordItem) -> Seq<PasswordItem> {
    let rest = without_name(items, item.name@);
    if rest.len() < CAPACITY {
        rest.push(item)
    } else {
        rest
    }
}

/// There is room for `item` once the entry with its name has left.
pub open spec fn upsert_fits(items: Seq<PasswordItem>, item: PasswordItem) -> bool {
    without_name(items, item.name@).len() < CAPACITY
}

/// The action is a reply with this status word and this body.
pub open spec fn replies(action: Action, status: u16, body: Seq<u8>) -> bool {
    &&& action is Reply
    &&& action->status == status
    &&& action->body@ == body
}

/// The action is a reply with the status word of `error` and no body.
pub open spec fn fails(action: Action, error: Error) -> bool {
    replies(action, error.spec_status_word(), Seq::empty())
}

/// Nothing changes between `s` and `t`.
pub open spec fn unchanged(s: Session, t: Session) -> bool {
    &&& t.store@ == s.store@
    &&& t.key == s.key
    &&& t.phase == s.phase
}

/// Store and key stay, and the phase becomes `phase`.
pub open spec fn moves_to(s: Session, t: Session, phase: Phase) -> bool {
    &&& t.store@ == s.store@
    &&& t.key == s.key
    &&& t.phase == phase
}

/// The machine asks the user and waits for the decision on `pending`.
pub open spec fn asks(
    s: Session,
    t: Session,
    action: Action,
    prompt: Prompt,
    scope: Option<ArrayString<32>>,
    pending: Pending,
) -> bool {
    &&& moves_to(s, t, Phase::AwaitingConsent(pending))
    &&& action == Action::Ask { prompt, scope }
}

/// What a lookup by name leads to: the question `prompt` where the entry
/// exists, `EntryNotFound` where it does not.
pub open spec fn asks_for_entry(
    s: Session,
    t: Session,
    action: Action,
    name: ArrayString<32>,
    prompt: Prompt,
    pending: spec_fn(usize) -> Pending,
) -> bool {
    match position_of(s.store@, name@) {
        Some(i) => asks(s, t, action, prompt, Some(name), pending(i as usize)),
        None => unchanged(s, t) && fails(action, Error::EntryNotFound),
    }
}

/// What a command does in the idle phase.
pub open spec fn idle_command(
    s: Session,
    ins: Instruction,
    apdu: Seq<u8>,
    fresh: Fresh,
    t: Session,
    action: Action,
) -> bool {
    let name = field_at(apdu, 5);
    let found = position_of(s.store@, name@);
    match ins {
        Instruction::GetVersion => unchanged(s, t) && replies(
            action,
            SW_OK,
            version_body(APP_NAME.spec_bytes(), APP_VERSION.spec_bytes()),
        ),
        Instruction::GetSize => unchanged(s, t) && replies(
            action,
            SW_OK,
            be_bytes(s.store@.len() as int),
        ),
        Instruction::Add => asks(
            s,
            t,
            action,
            if found is Some {
                Prompt::UpdatePassword
            } else {
                Prompt::CreatePassword
            },
            Some(name),
            (Pending::Put { item: added_item(apdu, fresh.draws@) }),
        ),
        Instruction::GetName => {
            let index = be32(apdu.subrange(5, 9));
            unchanged(s, t) && if index < s.store@.len() {
                replies(action, SW_OK, s.store@[index].name.raw())
            } else {
                fails(action, Error::EntryNotFound)
            }
        },
        Instruction::GetByName => asks_for_entry(
            s,
            t,
            action,
            name,
            Prompt::ReadPassword,
            |i: usize| (Pending::Read { index: i }),
        ),
        Instruction::ShowOnScreen => asks_for_entry(
            s,
            t,
            action,
            name,
            Prompt::ReadPassword,
            |i: usize| (Pending::Show { index: i }),
        ),
        Instruction::DeleteByName => asks_for_entry(
            s,
            t,
            action,
            name,
            Prompt::RemovePassword,
            |i: usize| (Pending::Remove { index: i }),
        ),
        Instruction::HasName => unchanged(s, t) && replies(
            action,
            SW_OK,
            seq![
                if found is Some {
                    1u8
                } else {
                    0u8
                },
            ],
        ),
        Instruction::Clear => asks(s, t, action, Prompt::RemoveAll, None, Pending::ClearFirst),
        Instruction::Export => if apdu[2] > 1 {
            unchanged(s, t) && replies(action, SW_UNKNOWN, Seq::empty())
        } else {
            asks(
                s,
                t,
                action,
                Prompt::ExportPasswords,
                None,
                (Pending::Export { encrypted: apdu[2] == 1 }),
            )
        },
        Instruction::Import => if apdu[2] > 1 {
            unchanged(s, t) && replies(action, SW_UNKNOWN, Seq::empty())
        } else {
            asks(
                s,
                t,
                action,
                Prompt::ImportPasswords,
                None,
                (Pending::Import {
                    count: be32(apdu.subrange(5, 9)) as u32,
                    encrypted: apdu[2] == 1,
                }),
            )
        },
        Instruction::ExportNext | Instruction::ImportNext => unchanged(s, t) && replies(
            action,
            SW_UNKNOWN,
            Seq::empty(),
        ),
        Instruction::Quit => unchanged(s, t) && action is Quit,
    }
}

/// What a command does while an export session is open: `ExportNext`
/// sends the next entry in store order, plain or sealed, and closes the
/// session after the last one; anything else is refused and ends the
/// session.
pub open spec fn export_command(
    s: Session,
    next: usize,
    encrypted: bool,
    ins: Instruction,
    fresh: Fresh,
    t: Session,
    action: Action,
) -> bool {
    if ins == Instruction::ExportNext {
        let item = s.store@[next as int];
        &&& moves_to(
            s,
            t,
            if next + 1 == s.store@.len() {
                Phase::Idle
            } else {
                Phase::Exporting { next: (next + 1) as usize, encrypted }
            },
        )
        &&& replies(
            action,
            SW_OK,
            if encrypted {
                sealed(s.key@, fresh.nonce@, record_bytes(item))
            } else {
                record_bytes(item)
            },
        )
    } else {
        moves_to(s, t, Phase::Idle) && replies(action, SW_UNKNOWN, Seq::empty())
    }
}

/// The phase after one more entry of an import session was taken in.
pub open spec fn import_continues(remaining: u32, encrypted: bool) -> Phase {
    if remaining <= 1 {
        Phase::Idle
    } else {
        Phase::Importing { remaining: (remaining - 1) as u32, encrypted }
    }
}

/// What a command does while an import session is open: `ImportNext`
/// brings one entry, which is put in the store in place of the one with
/// its name; an envelope that is not authentic ends the session with
/// `DecryptFailed` and leaves the store as it is; anything else but
/// `ImportNext` is refused and ends the session.
pub open spec fn import_command(
    s: Session,
    remaining: u32,
    encrypted: bool,
    ins: Instruction,
    apdu: Seq<u8>,
    t: Session,
    action: Action,
) -> bool {
    if ins != Instruction::ImportNext {
        moves_to(s, t, Phase::Idle) && replies(action, SW_BAD_CLA, Seq::empty())
    } else if encrypted && !authentic(s.key@, apdu.subrange(5, 133)) {
        moves_to(s, t, Phase::Idle) && fails(action, Error::DecryptFailed)
    } else {
        let item = record_of(
            if encrypted {
                opened(s.key@, apdu.subrange(5, 133))
            } else {
                apdu.subrange(5, 101)
            },
        );
        &&& t.key == s.key
        &&& t.phase == import_continues(remaining, encrypted)
        &&& t.store@ == upsert(s.store@, item)
        &&& if upsert_fits(s.store@, item) {
            replies(action, SW_OK, Seq::empty())
        } else {
            fails(action, Error::StorageFull)
        }
    }
}

/// What a command does, by the phase in which it arrives. While a
/// question is on the screen no command is taken.
pub open spec fn command_spec(
    s: Session,
    ins: Instruction,
    apdu: Seq<u8>,
    fresh: Fresh,
    t: Session,
    action: Action,
) -> bool {
    match s.phase {
        Phase::Idle => idle_command(s, ins, apdu, fresh, t, action),
        Phase::Exporting { next, encrypted } => export_command(
            s,
            next,
            encrypted,
            ins,
            fresh,
            t,
            action,
        ),
        Phase::Importing { remaining, encrypted } => import_command(
            s,
            remaining,
            encrypted,
            ins,
            apdu,
            t,
            action,
        ),
        Phase::AwaitingConsent(_) => unchanged(s, t),
    }
}

/// An export session opens: the reply tells how many entries will come,
/// and the session is open unless there are none.
pub open spec fn export_opens(s: Session, encrypted: bool, t: Session, action: Action) -> bool {
    &&& moves_to(
        s,
        t,
        if s.store@.len() == 0 {
            Phase::Idle
        } else {
            Phase::Exporting { next: 0, encrypted }
        },
    )
    &&& replies(action, SW_OK, be_bytes(s.store@.len() as int))
}

/// What the user's consent sets off.
pub open spec fn granted_spec(s: Session, pending: Pending, t: Session, action: Action) -> bool {
    match pending {
        Pending::Put { item } => {
            &&& t.key == s.key
            &&& t.phase == Phase::Idle
            &&& t.store@ == upsert(s.store@, item)
            &&& if upsert_fits(s.store@, item) {
                replies(action, SW_OK, Seq::empty())
            } else {
                fails(action, Error::StorageFull)
            }
        },
        Pending::Read { index } => {
            let item = s.store@[index as int];
            moves_to(s, t, Phase::Idle) && replies(action, SW_OK, item.login.raw() + item.pass.raw())
        },
        Pending::Show { index } => {
            let item = s.store@[index as int];
            moves_to(s, t, Phase::Idle) && action == (Action::Show {
                login: item.login,
                pass: item.pass,
            })
        },
        Pending::Remove { index } => {
            &&& t.key == s.key
            &&& t.phase == Phase::Idle
            &&& t.store@ == s.store@.remove(index as int)
            &&& replies(action, SW_OK, Seq::empty())
        },
        Pending::ClearFirst => asks(s, t, action, Prompt::AreYouSure, None, Pending::ClearSecond),
        Pending::ClearSecond => {
            &&& t.key == s.key
            &&& t.phase == Phase::Idle
            &&& t.store@ == Seq::<PasswordItem>::empty()
            &&& replies(action, SW_OK, Seq::empty())
        },
        Pending::Export { encrypted } => if encrypted {
            export_opens(s, true, t, action)
        } else {
            asks(s, t, action, Prompt::ExportPlaintext, None, Pending::ExportConfirm)
        },
        Pending::ExportConfirm => export_opens(s, false, t, action),
        Pending::Import { count, encrypted } => {
            &&& moves_to(
                s,
                t,
                if count == 0 {
                    Phase::Idle
                } else {
                    Phase::Importing { remaining: count, encrypted }
                },
            )
            &&& replies(action, SW_OK, Seq::empty())
        },
    }
}

/// What the user's decision leads to: a refusal ends the request with
/// `NoConsent` and changes nothing in the store; consent carries out what
/// was pending.
pub open spec fn approval_spec(s: Session, granted: bool, t: Session, action: Action) -> bool {
    match s.phase {
        Phase::AwaitingConsent(pending) => if granted {
            granted_spec(s, pending, t, action)
        } else {
            moves_to(s, t, Phase::Idle) && fails(action, Error::NoConsent)
        },
        _ => unchanged(s, t),
    }
}

} // verus!
