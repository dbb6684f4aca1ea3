//! The admin commands: create a user with a generated password, delete
//! a user by name. Printing and process exit belong to the binary
//! around the library.

use vstd::prelude::*;

use crate::models::UserV;
use crate::state::CliState;
use crate::store::{has_username, user_named, StoreError};
use crate::password::verifies;

verus! {

broadcast use vstd::seq_lib::group_filter_ensures;

/// The admin command line: no command means "run the server".
#[derive(Debug)]
pub struct Cli {
    pub command: Option<Command>,
}

/// One admin command.
#[derive(Debug)]
pub enum Command {
    AddUser { username: String },
    DeleteUser { username: String },
}

/// Ghost image of [`Command`].
pub ghost enum CommandV {
    AddUser(Seq<char>),
    DeleteUser(Seq<char>),
}

impl View for Command {
    type V = CommandV;

    open spec fn view(&self) -> CommandV {
        match self {
            Command::AddUser { username } => CommandV::AddUser(username@),
            Command::DeleteUser { username } => CommandV::DeleteUser(username@),
        }
    }
}

/// What a completed admin command reports.
#[derive(Debug)]
pub enum CliOutcome {
    /// The account was created; this is its generated password.
    UserCreated { password: String },
    UserDeleted,
    UserNotFound,
}

/// An ASCII letter or digit.
pub open spec fn alphanumeric_char(c: char) -> bool {
    ||| ('0' <= c && c <= '9')
    ||| ('A' <= c && c <= 'Z')
    ||| ('a' <= c && c <= 'z')
}

/// The generated password length.
pub const GENERATED_PASSWORD_LEN: usize = 7;

/// Relies on rand's `Alphanumeric` distribution: each sample is one
/// uniformly random ASCII letter or digit. Randomness admits no more.
#[verifier::external_body]
fn sample_alphanumeric_char() -> (r: char)
    ensures
        alphanumeric_char(r),
{
    char::from(rand::distr::Distribution::sample(&rand::distr::Alphanumeric, &mut rand::rng()))
}

pub assume_specification[ String::push ](s: &mut String, c: char)
    ensures
        final(s)@ == old(s)@.push(c),
;

/// Draws a fresh alphanumeric password of the generated length.
#[verifier::loop_isolation(false)]
fn generate_password() -> (r: String)
    ensures
        r@.len() == GENERATED_PASSWORD_LEN,
        forall|k: int| 0 <= k < r@.len() ==> alphanumeric_char(#[trigger] r@[k]),
{
    let mut password = String::new();
    for i in 0..GENERATED_PASSWORD_LEN
        invariant
            password@.len() == i,
            forall|k: int| 0 <= k < i ==> alphanumeric_char(#[trigger] password@[k]),
    {
        let c = sample_alphanumeric_char();
        password.push(c);
    }
    password
}

/// Runs one admin command against the store: `AddUser` draws a
/// password, hashes it and inserts the account, handing the plain
/// password back for the operator; `DeleteUser` removes the account and
/// everything referencing it, or reports that none exists.
pub fn try_perform(state: &mut CliState, command: Command) -> (r: Result<CliOutcome, StoreError>)
    requires
        old(state).store.wf(),
    ensures
        final(state).store.wf(),
        match command@ {
            CommandV::AddUser(name) => match r {
                Ok(out) => {
                    &&& match out {
                        CliOutcome::UserCreated { password } => {
                            &&& password@.len() == GENERATED_PASSWORD_LEN
                            &&& forall|k: int|
                                0 <= k < password@.len() ==> alphanumeric_char(
                                    #[trigger] password@[k],
                                )
                            &&& !has_username(old(state).store@, name)
                            &&& final(state).store@.users.len() == old(state).store@.users.len()
                                + 1
                            &&& final(state).store@.users.last().username == name
                            &&& verifies(
                                password@,
                                final(state).store@.users.last().password_hash,
                            )
                            &&& final(state).store@.users.drop_last() == old(state).store@.users
                            &&& final(state).store@.rooms == old(state).store@.rooms
                            &&& final(state).store@.rooms_users == old(state).store@.rooms_users
                            &&& final(state).store@.messages == old(state).store@.messages
                        },
                        _ => false,
                    }
                },
                Err(StoreError::UniqueViolation) => has_username(old(state).store@, name)
                    && final(state).store@ == old(state).store@,
                Err(StoreError::IdOverflow) => old(state).store@.next_user_id == i32::MAX
                    && final(state).store@ == old(state).store@,
                Err(_) => false,
            },
            CommandV::DeleteUser(name) => match r {
                Ok(CliOutcome::UserDeleted) => {
                    &&& has_username(old(state).store@, name)
                    &&& final(state).store@.users == old(state).store@.users.filter(
                        (|u: UserV| u.id != user_named(old(state).store@, name).id),
                    )
                    &&& !has_username(final(state).store@, name)
                },
                Ok(CliOutcome::UserNotFound) => !has_username(old(state).store@, name)
                    && final(state).store@ == old(state).store@,
                _ => false,
            },
        },
{
    match command {
        Command::AddUser { username } => {
            let password = generate_password();
            let password_hash = state.password_hasher.hash_password(password.as_str());
            match state.store.insert_user(username, password_hash) {
                Ok(_) => {
                    proof {
                        assert(state.store@.users.drop_last() =~= old(state).store@.users);
                    }
                    Ok(CliOutcome::UserCreated { password })
                },
                Err(e) => Err(e),
            }
        },
        Command::DeleteUser { username } => {
            let ghost name = username@;
            let ghost pre = state.store@;
            let user = match state.store.get_by_username(username) {
                Some(u) => u,
                None => {
                    return Ok(CliOutcome::UserNotFound);
                },
            };
            state.store.delete_user(user.id);
            proof {
                let p1 = |u: UserV| u.id != user.id as int;
                let p2 = |u: UserV| u.id != user_named(pre, name).id;
                assert(user.id as int == user_named(pre, name).id);
                assert(p1 =~= p2);
                assert(state.store@.users == pre.users.filter(p2));
                assert forall|k: int|
                    0 <= k < state.store@.users.len() implies (
                #[trigger] state.store@.users[k]).username != name by {
                    crate::store::lemma_filter_is_subset_index(pre.users, p2, k);
                    let j = choose|j: int|
                        0 <= j < pre.users.len() && pre.users[j] == state.store@.users[k];
                    assert(p2(pre.users[j]));
                    let uidx = crate::store::username_index(pre, name);
                    if j != uidx {
                        assert(pre.users[j].username != pre.users[uidx].username);
                    }
                }
            }
            Ok(CliOutcome::UserDeleted)
        },
    }
}

} // verus!
