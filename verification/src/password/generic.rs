use std::collections::HashMap;
use std::marker::PhantomData;
use vstd::prelude::*;
use vstd::std_specs::hash::obeys_key_model;

verus! {

broadcast use vstd::std_specs::hash::group_hash_axioms;

/// The state of a manager whose passwords cannot be read or changed.
pub struct Locked;

/// The state of a manager whose passwords can be read and changed.
pub struct Unlocked;

/// A password manager whose lock state is part of its type, so that the passwords can only be
/// read or changed while it is unlocked.
pub struct PasswordManager<State = Locked> {
    master_pass: String,
    passwords: HashMap<String, String>,
    state: PhantomData<State>,
}

impl<State> PasswordManager<State> {
    /// The master password.
    pub closed spec fn master(&self) -> Seq<char> {
        self.master_pass@
    }

    /// The stored passwords, by user name.
    pub closed spec fn stored(&self) -> vstd::map::Map<String, String> {
        self.passwords@
    }

    /// The name of the encryption in use: empty, as none is.
    pub fn encryption(&self) -> (r: String)
        ensures
            r@ == Seq::<char>::empty(),
    {
        String::default()
    }

    /// The version of the manager: empty, as none is recorded.
    pub fn version(&self) -> (r: String)
        ensures
            r@ == Seq::<char>::empty(),
    {
        String::default()
    }
}

impl PasswordManager<Locked> {
    /// Unlocks the manager, keeping its master password and passwords.
    pub fn unlock(self, master_pass: String) -> (m: PasswordManager<Unlocked>)
        ensures
            m.master() == self.master(),
            m.stored() == self.stored(),
    {
        PasswordManager {
            master_pass: self.master_pass,
            passwords: self.passwords,
            state: PhantomData,
        }
    }
}

impl PasswordManager<Unlocked> {
    /// Locks the manager, keeping its master password and passwords.
    pub fn lock(self) -> (m: PasswordManager<Locked>)
        ensures
            m.master() == self.master(),
            m.stored() == self.stored(),
    {
        PasswordManager {
            master_pass: self.master_pass,
            passwords: self.passwords,
            state: PhantomData,
        }
    }

    /// The stored passwords.
    pub fn list_passwords(&self) -> (r: &HashMap<String, String>)
        ensures
            r@ == self.stored(),
    {
        &self.passwords
    }

    /// Stores `password` for `username`, replacing any password stored for it.
    pub fn add_password(&mut self, username: String, password: String)
        ensures
            final(self).master() == old(self).master(),
            obeys_key_model::<String>() ==> final(self).stored() == old(self).stored().insert(
                username,
                password,
            ),
    {
        self.passwords.insert(username, password);
    }
}

impl PasswordManager {
    /// A locked manager with the master password `master_pass` and no passwords stored.
    pub fn new(master_pass: String) -> (m: Self)
        ensures
            m.master() == master_pass@,
            m.stored() == vstd::map::Map::<String, String>::empty(),
    {
        PasswordManager { master_pass, passwords: HashMap::new(), state: PhantomData }
    }
}

/// Locking after unlocking gives back a manager with the same master password and passwords.
pub proof fn lemma_unlock_lock_round_trip(
    m: PasswordManager<Locked>,
    u: PasswordManager<Unlocked>,
    l: PasswordManager<Locked>,
)
    requires
        u.master() == m.master() && u.stored() == m.stored(),
        l.master() == u.master() && l.stored() == u.stored(),
    ensures
        l.master() == m.master(),
        l.stored() == m.stored(),
{
}

} // verus!
