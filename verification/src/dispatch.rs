use vstd::prelude::*;

use crate::errors::Error;
use crate::otp::CODE_BOUND;
use crate::otp::Selection;
use crate::otp::decode_secret;
use crate::otp::lookahead_needed;
use crate::otp::secret_ok;
use crate::otp::select_slot;
use crate::otp::totp_slot;
use crate::store::CredentialStore;
use crate::store::Login;

verus! {

/// The result of asking for one name's code.
#[derive(Clone, Copy, Debug, PartialEq, Eq, Structural)]
pub enum GetOutcome {
    /// The name is not stored. This is a user-facing outcome, not an
    /// error: the invocation still succeeds.
    NotFound,
    /// The name is stored and its secret decodes; the selection carries
    /// the code and the expiry figures to report.
    Code(Selection),
}

/// The expiry report a non-empty listing carries once, for all its lines.
#[derive(Clone, Copy, Debug, PartialEq, Eq, Structural)]
pub struct Notice {
    /// Whether the look-ahead was triggered, judged on the first entry.
    pub warned: bool,
    /// The seconds the current window had left when the decision was made.
    pub first_secs_left: u32,
    /// The seconds the reported codes remain valid.
    pub expires_in: u32,
    /// The window offset every line's code was computed at.
    pub offset: u32,
}

/// All stored names with their codes, every code from one window offset,
/// so one listing never straddles two decisions.
#[derive(Debug)]
pub struct Listing {
    /// One line per stored entry, in storage order: the name and its code.
    pub lines: Vec<(String, u32)>,
    /// The shared expiry report; absent exactly when the store is empty.
    pub notice: Option<Notice>,
}

/// What a successful `get` on a stored name guarantees: the secret
/// decodes, and the selection obeys the look-ahead policy.
pub open spec fn get_found_ok(store: CredentialStore, name: Seq<char>, sel: Selection, min_secs_left: u32) -> bool {
    &&& store@.contains_key(name)
    &&& secret_ok(store@[name])
    &&& sel.valid(min_secs_left)
}

/// What a successful listing guarantees: one line per entry in storage
/// order, every secret decoded, every code six digits and computed at the
/// single chosen offset, and the shared notice present exactly when the
/// store is not empty and consistent with the look-ahead policy.
pub open spec fn listing_ok(store: CredentialStore, l: Listing, min_secs_left: u32) -> bool {
    &&& l.lines@.len() == store.pairs().len()
    &&& forall|i: int|
        0 <= i < l.lines@.len() ==> (#[trigger] l.lines@[i]).0@ == store.pairs()[i].0
    &&& forall|i: int| 0 <= i < l.lines@.len() ==> (#[trigger] l.lines@[i]).1 < CODE_BOUND
    &&& forall|i: int|
        0 <= i < store.pairs().len() ==> secret_ok((#[trigger] store.pairs()[i]).1)
    &&& (l.notice is Some <==> store.pairs().len() > 0)
    &&& match l.notice {
        Some(n) => {
            &&& n.warned == lookahead_needed(n.first_secs_left, min_secs_left)
            &&& n.offset == if n.warned {
                1u32
            } else {
                0u32
            }
            &&& 0 < n.first_secs_left <= crate::otp::PERIOD
            &&& (min_secs_left == 0 ==> !n.warned)
        },
        None => true,
    }
}

/// Produce the code for one stored name. An absent name is reported, not
/// failed on; a stored secret that is not valid BASE32 is a hard
/// `SecretDecode` error. The store is never touched.
pub fn get_code(store: &CredentialStore, name: &String, min_secs_left: u32) -> (r: Result<
    GetOutcome,
    Error,
>)
    requires
        store.wf(),
    ensures
        !store@.contains_key(name@) ==> r == Ok::<GetOutcome, Error>(GetOutcome::NotFound),
        store@.contains_key(name@) ==> match r {
            Ok(o) => o matches GetOutcome::Code(sel) && get_found_ok(*store, name@, sel,
            min_secs_left),
            Err(e) => e == Error::SecretDecode && !secret_ok(store@[name@]),
        },
{
    let key_text = match store.lookup(name) {
        Some(k) => k,
        None => {
            return Ok(GetOutcome::NotFound);
        },
    };
    let key = match decode_secret(key_text) {
        Ok(v) => v,
        Err(e) => {
            return Err(e);
        },
    };
    let sel = select_slot(&key, min_secs_left);
    Ok(GetOutcome::Code(sel))
}

/// Produce the codes of all stored names, in storage order. The
/// look-ahead decision is made once, on the first entry, and the offset
/// it chose is reused for every later line, so the whole listing reports
/// one moment. The first secret that fails to decode aborts the whole
/// listing with `SecretDecode`, as loading does; nothing is skipped over.
pub fn list_codes(store: &CredentialStore, min_secs_left: u32) -> (r: Result<Listing, Error>)
    requires
        store.wf(),
    ensures
        match r {
            Ok(l) => listing_ok(*store, l, min_secs_left),
            Err(e) => e == Error::SecretDecode && exists|i: int|
                0 <= i < store.pairs().len() && !secret_ok((#[trigger] store.pairs()[i]).1),
        },
{
    let logins: &Vec<Login> = store.logins();
    let n = logins.len();
    let mut lines: Vec<(String, u32)> = Vec::new();
    if n == 0 {
        return Ok(Listing { lines, notice: None });
    }
    let first = &logins[0];
    let key0 = match decode_secret(&first.key) {
        Ok(v) => v,
        Err(e) => {
            return Err(e);
        },
    };
    let sel = select_slot(&key0, min_secs_left);
    lines.push((first.name.clone(), sel.slot.code));
    let offset = sel.slot.offset;
    let mut i: usize = 1;
    while i < n
        invariant
            store.wf(),
            n == logins@.len(),
            n == store.pairs().len(),
            forall|j: int| 0 <= j < n ==> (#[trigger] logins@[j]).pair() == store.pairs()[j],
            1 <= i <= n,
            offset <= 1,
            lines@.len() == i,
            forall|j: int| 0 <= j < i ==> (#[trigger] lines@[j]).0@ == store.pairs()[j].0,
            forall|j: int| 0 <= j < i ==> (#[trigger] lines@[j]).1 < CODE_BOUND,
            forall|j: int| 0 <= j < i ==> secret_ok((#[trigger] store.pairs()[j]).1),
        decreases n - i,
    {
        let entry = &logins[i];
        let key = match decode_secret(&entry.key) {
            Ok(v) => v,
            Err(e) => {
                proof {
                    assert(!secret_ok(store.pairs()[i as int].1));
                }
                return Err(e);
            },
        };
        let (code, _secs) = totp_slot(&key, offset);
        lines.push((entry.name.clone(), code));
        i = i + 1;
    }
    Ok(
        Listing {
            lines,
            notice: Some(
                Notice {
                    warned: sel.warned,
                    first_secs_left: sel.first_secs_left,
                    expires_in: sel.slot.secs_left,
                    offset,
                },
            ),
        },
    )
}

/// One request of an invocation.
pub enum Command {
    /// Produce the code for one name.
    Get { name: String },
    /// Store or replace a secret under a name.
    Add { name: String, key: String },
    /// Drop a name; dropping an absent name is a no-op.
    Rm { name: String },
    /// Produce the codes of all stored names.
    List,
}

/// What a request produced, for the surrounding program to print.
#[derive(Debug)]
pub enum Outcome {
    /// A `Get` found the name: its code and expiry figures.
    Code(Selection),
    /// A `Get` did not find the name.
    NotFound,
    /// A `List` ran: its lines and shared notice.
    Listing(Listing),
    /// An `Add` or `Rm` mutated the store.
    Stored,
}

/// Route one request to the store and the selector. The boolean of a
/// successful result says whether the store must be persisted: mutating
/// requests always ask for it, even a removal that removed nothing;
/// reading requests never do, and leave the store untouched.
pub fn dispatch(store: &mut CredentialStore, cmd: Command, min_secs_left: u32) -> (r: Result<
    (Outcome, bool),
    Error,
>)
    requires
        old(store).wf(),
    ensures
        final(store).wf(),
        match cmd {
            Command::Get { name } => {
                &&& final(store)@ == old(store)@
                &&& match r {
                    Ok((o, persist)) => {
                        &&& !persist
                        &&& (!old(store)@.contains_key(name@) ==> o == Outcome::NotFound)
                        &&& (old(store)@.contains_key(name@) ==> (o matches Outcome::Code(sel)
                            && get_found_ok(*old(store), name@, sel, min_secs_left)))
                    },
                    Err(e) => old(store)@.contains_key(name@) && e == Error::SecretDecode
                        && !secret_ok(old(store)@[name@]),
                }
            },
            Command::Add { name, key } => {
                &&& final(store)@ == old(store)@.insert(name@, key@)
                &&& r matches Ok((o, persist)) && o == Outcome::Stored && persist
            },
            Command::Rm { name } => {
                &&& final(store)@ == old(store)@.remove(name@)
                &&& r matches Ok((o, persist)) && o == Outcome::Stored && persist
            },
            Command::List => {
                &&& final(store)@ == old(store)@
                &&& match r {
                    Ok((o, persist)) => !persist && (o matches Outcome::Listing(l) && listing_ok(
                        *old(store),
                        l,
                        min_secs_left,
                    )),
                    Err(e) => e == Error::SecretDecode && exists|i: int|
                        0 <= i < old(store).pairs().len() && !secret_ok(
                            (#[trigger] old(store).pairs()[i]).1,
                        ),
                }
            },
        },
{
    match cmd {
        Command::Get { name } => {
            match get_code(store, &name, min_secs_left) {
                Ok(GetOutcome::NotFound) => Ok((Outcome::NotFound, false)),
                Ok(GetOutcome::Code(sel)) => Ok((Outcome::Code(sel), false)),
                Err(e) => Err(e),
            }
        },
        Command::Add { name, key } => {
            store.add(name, key);
            Ok((Outcome::Stored, true))
        },
        Command::Rm { name } => {
            store.remove(&name);
            Ok((Outcome::Stored, true))
        },
        Command::List => {
            match list_codes(store, min_secs_left) {
                Ok(l) => Ok((Outcome::Listing(l), false)),
                Err(e) => Err(e),
            }
        },
    }
}

} // verus!
