use std::collections::HashMap;
use vstd::prelude::*;
use vstd::std_specs::hash::obeys_key_model;

verus! {

broadcast use vstd::std_specs::hash::group_hash_axioms;

/// A password manager that can be used in any order: locked or not, every method is available.
pub struct PasswordManager {
    master_pass: String,
    passwords: HashMap<String, String>,
}

impl PasswordManager {
    /// The master password.
    pub closed spec fn master(&self) -> Seq<char> {
        self.master_pass@
    }

    /// The stored passwords, by user name.
    pub closed spec fn stored(&self) -> vstd::map::Map<String, String> {
        self.passwords@
    }

    /// A manager with the master password `master_pass` and no passwords stored.
    pub fn new(master_pass: String) -> (m: Self)
        ensures
            m.master() == master_pass@,
            m.stored() == vstd::map::Map::<String, String>::empty(),
    {
        PasswordManager { master_pass, passwords: HashMap::new() }
    }

    /// Unlocking changes nothing: this manager keeps no lock state.
    pub fn unlock(&mut self, master_pass: String)
        ensures
            final(self).master() == old(self).master(),
            final(self).stored() == old(self).stored(),
    {
    }

    /// Locking changes nothing: this manager keeps no lock state.
    pub fn lock(&mut self)
        ensures
            final(self).master() == old(self).master(),
            final(self).stored() == old(self).stored(),
    {
    }

    /// The stored passwords.
    pub fn list_passwords(&self) -> (r: &HashMap<String, String>)
        ensures
            r@ == self.stored(),
    {
        &self.passwords
    }

    /// Stores `password` for `username`, replacing any password stored for it.
    pub fn add_password(&mut self, username: String, password: String)
        ensures
            final(self).master() == old(self).master(),
            obeys_key_model::<String>() ==> final(self).stored() == old(self).stored().insert(
                username,
                password,
            ),
    {
        self.passwords.insert(username, password);
    }

    /// The name of the encryption in use: empty, as none is.
    pub fn encryption(&self) -> (r: String)
        ensures
            r@ == Seq::<char>::empty(),
    {
        String::default()
    }

    /// The version of the manager: empty, as none is recorded.
    pub fn version(&self) -> (r: String)
        ensures
            r@ == Seq::<char>::empty(),
    {
        String::default()
    }
}

} // verus!
