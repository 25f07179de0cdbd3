//! The environment store: every environment with the lines of its alias
//! file, as the storage directory holds them.

use crate::error::Error;
use crate::name::{is_valid_env_name, valid_env_name};
use crate::record::{
    delete_alias_from_file, has_alias, lines_of, lines_without, record_line, record_text,
};
use crate::text::str_eq;
use vstd::prelude::*;
use vstd::string::*;

verus! {

/// The storage directory, below the user's home directory.
pub const ROOT_DIR: &'static str = ".alienv";

/// The alias file, below the directory of its environment.
pub const ALIAS_FILE: &'static str = "aliases";

/// The path of the storage directory, one component after the other: the
/// home directory, then the storage directory in it. Without a home
/// directory there is no storage.
pub fn get_root_path(home: Option<&str>) -> (r: Result<Vec<String>, Error>)
    ensures
        match home {
            Some(h) => r is Ok && lines_of(r->Ok_0@) == seq![h@, ROOT_DIR@],
            None => r is Err && r->Err_0 == Error::FileError,
        },
{
    match home {
        Some(h) => {
            let mut r: Vec<String> = Vec::new();
            r.push(String::from_str(h));
            r.push(String::from_str(ROOT_DIR));
            assert(lines_of(r@) =~= seq![h@, ROOT_DIR@]);
            Ok(r)
        },
        None => Err(Error::FileError),
    }
}

/// The path of the alias file of `env`, one component after the other: each
/// environment has a directory of its name in the storage directory, and its
/// alias file in there. Without a home directory there is no storage.
pub fn get_alias_file(home: Option<&str>, env: &str) -> (r: Result<Vec<String>, Error>)
    ensures
        match home {
            Some(h) => r is Ok && lines_of(r->Ok_0@) == seq![h@, ROOT_DIR@, env@, ALIAS_FILE@],
            None => r is Err && r->Err_0 == Error::FileError,
        },
{
    match get_root_path(home) {
        Ok(mut r) => {
            let ghost root = lines_of(r@);
            assert(r@.len() == root.len() == 2);
            assert(root[0] == r@[0]@ && root[1] == r@[1]@);
            r.push(String::from_str(env));
            r.push(String::from_str(ALIAS_FILE));
            assert(lines_of(r@) =~= seq![home->0@, ROOT_DIR@, env@, ALIAS_FILE@]);
            Ok(r)
        },
        Err(e) => Err(e),
    }
}

/// An environment as a value: its name and the lines of its alias file.
pub type EnvModel = (Seq<char>, Seq<Seq<char>>);

/// An environment of that name is in the store.
pub open spec fn has_env(s: Seq<EnvModel>, name: Seq<char>) -> bool {
    exists|i: int| 0 <= i < s.len() && (#[trigger] s[i]).0 == name
}

/// No two environments share a name.
pub open spec fn distinct_names(s: Seq<EnvModel>) -> bool {
    forall|i: int, j: int| 0 <= i < j < s.len() ==> (#[trigger] s[i]).0 != (#[trigger] s[j]).0
}

/// Where the environment of that name stands in the store.
pub open spec fn env_index(s: Seq<EnvModel>, name: Seq<char>) -> int {
    choose|i: int| 0 <= i < s.len() && (#[trigger] s[i]).0 == name
}

/// The lines of the alias file of the environment of that name.
pub open spec fn env_lines(s: Seq<EnvModel>, name: Seq<char>) -> Seq<Seq<char>> {
    s[env_index(s, name)].1
}

/// The store with a new environment of that name, whose alias file is empty.
pub open spec fn store_with(s: Seq<EnvModel>, name: Seq<char>) -> Seq<EnvModel> {
    s.push((name, Seq::empty()))
}

/// The store without the environment of that name.
pub open spec fn store_without(s: Seq<EnvModel>, name: Seq<char>) -> Seq<EnvModel> {
    s.remove(env_index(s, name))
}

/// The store in which the alias file of the environment of that name has
/// these lines.
pub open spec fn store_with_lines(
    s: Seq<EnvModel>,
    name: Seq<char>,
    lines: Seq<Seq<char>>,
) -> Seq<EnvModel> {
    s.update(env_index(s, name), (name, lines))
}

/// One environment of the store.
#[derive(Debug)]
pub struct Environment {
    pub name: String,
    pub aliases: Vec<String>,
}

impl View for Environment {
    type V = EnvModel;

    open spec fn view(&self) -> EnvModel {
        (self.name@, lines_of(self.aliases@))
    }
}

/// The environments that exist, in the order in which the storage directory
/// lists them.
#[derive(Debug)]
pub struct Store {
    envs: Vec<Environment>,
}

impl View for Store {
    type V = Seq<EnvModel>;

    closed spec fn view(&self) -> Seq<EnvModel> {
        self.envs@.map_values(|e: Environment| e@)
    }
}

impl Store {
    /// No two environments of the store share a name.
    pub open spec fn wf(&self) -> bool {
        distinct_names(self@)
    }

    /// A store without environments.
    pub fn new() -> (r: Store)
        ensures
            r@ == Seq::<EnvModel>::empty(),
            r.wf(),
    {
        let r = Store { envs: Vec::new() };
        assert(r@ =~= Seq::<EnvModel>::empty());
        r
    }

    /// Where the environment `env` stands, if it is there.
    fn position(&self, env: &str) -> (r: Option<usize>)
        ensures
            r is Some <==> has_env(self@, env@),
            r matches Some(i) ==> i < self@.len() && self@.len() == self.envs@.len()
                && self@[i as int].0 == env@ && (self.wf() ==> i == env_index(self@, env@)),
    {
        let mut i: usize = 0;
        while i < self.envs.len()
            invariant
                i <= self.envs@.len(),
                self@.len() == self.envs@.len(),
                forall|j: int| 0 <= j < i ==> (#[trigger] self@[j]).0 != env@,
            decreases self.envs@.len() - i,
        {
            if str_eq(self.envs[i].name.as_str(), env) {
                assert(self@[i as int].0 == env@);
                return Some(i);
            }
            i += 1;
        }
        None
    }

    /// Whether an environment of that name exists.
    pub fn env_exists(&self, env: &str) -> (r: bool)
        ensures
            r == has_env(self@, env@),
    {
        self.position(env).is_some()
    }

    /// The names of the environments, in the store's order.
    pub fn list(&self) -> (r: Vec<String>)
        ensures
            lines_of(r@) == self@.map_values(|e: EnvModel| e.0),
    {
        let mut r: Vec<String> = Vec::new();
        let mut i: usize = 0;
        while i < self.envs.len()
            invariant
                i <= self.envs@.len(),
                self@.len() == self.envs@.len(),
                lines_of(r@) == self@.map_values(|e: EnvModel| e.0).take(i as int),
            decreases self.envs@.len() - i,
        {
            let ghost before = lines_of(r@);
            r.push(self.envs[i].name.clone());
            assert(lines_of(r@) =~= before.push(self@[i as int].0));
            assert(lines_of(r@) =~= self@.map_values(|e: EnvModel| e.0).take(i + 1));
            i += 1;
        }
        assert(self@.map_values(|e: EnvModel| e.0).take(i as int) =~= self@.map_values(
            |e: EnvModel| e.0,
        ));
        r
    }

    /// The lines of the alias file of `env`, if it exists.
    pub fn aliases(&self, env: &str) -> (r: Option<&Vec<String>>)
        requires
            self.wf(),
        ensures
            r is Some <==> has_env(self@, env@),
            r matches Some(lines) ==> lines_of(lines@) == env_lines(self@, env@),
    {
        match self.position(env) {
            Some(i) => Some(&self.envs[i].aliases),
            None => None,
        }
    }

    /// Takes in an environment that the storage directory holds, whatever
    /// its name, unless one of that name is there already.
    pub fn insert(&mut self, name: String, aliases: Vec<String>) -> (r: bool)
        requires
            old(self).wf(),
        ensures
            final(self).wf(),
            r == !has_env(old(self)@, name@),
            r ==> final(self)@ == old(self)@.push((name@, lines_of(aliases@))),
            !r ==> final(self)@ == old(self)@,
    {
        if self.position(name.as_str()).is_some() {
            return false;
        }
        let ghost model = (name@, lines_of(aliases@));
        self.envs.push(Environment { name, aliases });
        assert(self@ =~= old(self)@.push(model));
        true
    }

    /// Creates an environment with an empty alias file.
    pub fn create(&mut self, name: &str) -> (r: Result<(), Error>)
        requires
            old(self).wf(),
        ensures
            final(self).wf(),
            r is Ok <==> valid_env_name(name@) && !has_env(old(self)@, name@),
            r is Ok ==> final(self)@ == store_with(old(self)@, name@),
            r is Err ==> final(self)@ == old(self)@,
            r matches Err(e) ==> e == (if !valid_env_name(name@) {
                Error::InvalidName
            } else {
                Error::AlreadyExists
            }),
    {
        if !is_valid_env_name(name) {
            return Err(Error::InvalidName);
        }
        if !self.insert(String::from_str(name), Vec::new()) {
            return Err(Error::AlreadyExists);
        }
        assert(lines_of(Seq::<String>::empty()) =~= Seq::<Seq<char>>::empty());
        Ok(())
    }

    /// Deletes an environment with its alias file.
    pub fn delete(&mut self, name: &str) -> (r: Result<(), Error>)
        requires
            old(self).wf(),
        ensures
            final(self).wf(),
            r is Ok <==> has_env(old(self)@, name@),
            r is Ok ==> final(self)@ == store_without(old(self)@, name@),
            r is Err ==> final(self)@ == old(self)@,
            r matches Err(e) ==> e == Error::NotFound,
    {
        match self.position(name) {
            Some(i) => {
                self.envs.remove(i);
                assert(self@ =~= store_without(old(self)@, name@));
                Ok(())
            },
            None => Err(Error::NotFound),
        }
    }

    /// Appends the record of an alias to the alias file of `env`. A record of
    /// the same alias that is there already stays.
    pub fn append_alias(&mut self, env: &str, alias: &str, command: &str) -> (r: Result<
        (),
        Error,
    >)
        requires
            old(self).wf(),
        ensures
            final(self).wf(),
            r is Ok <==> has_env(old(self)@, env@),
            r is Ok ==> final(self)@ == store_with_lines(
                old(self)@,
                env@,
                env_lines(old(self)@, env@).push(record_line(alias@, command@)),
            ),
            r is Err ==> final(self)@ == old(self)@,
            r matches Err(e) ==> e == Error::FileError,
    {
        match self.position(env) {
            Some(i) => {
                let mut e = self.envs.remove(i);
                let ghost before = lines_of(e.aliases@);
                e.aliases.push(record_text(alias, command));
                assert(lines_of(e.aliases@) =~= before.push(record_line(alias@, command@)));
                self.envs.insert(i, e);
                assert(self@ =~= store_with_lines(
                    old(self)@,
                    env@,
                    env_lines(old(self)@, env@).push(record_line(alias@, command@)),
                ));
                Ok(())
            },
            None => Err(Error::FileError),
        }
    }

    /// Removes every line of `alias` from the alias file of `env`, and tells
    /// whether there was one.
    pub fn remove_alias(&mut self, env: &str, alias: &str) -> (r: Result<bool, Error>)
        requires
            old(self).wf(),
        ensures
            final(self).wf(),
            r is Ok <==> has_env(old(self)@, env@),
            r matches Ok(removed) ==> removed == has_alias(env_lines(old(self)@, env@), alias@)
                && final(self)@ == store_with_lines(
                old(self)@,
                env@,
                lines_without(env_lines(old(self)@, env@), alias@),
            ),
            r matches Ok(removed) ==> !removed ==> final(self)@ == old(self)@,
            r is Err ==> final(self)@ == old(self)@,
            r matches Err(e) ==> e == Error::FileError,
    {
        match self.position(env) {
            Some(i) => {
                let mut e = self.envs.remove(i);
                let ghost before = e.aliases@;
                let removed = delete_alias_from_file(&mut e.aliases, alias);
                self.envs.insert(i, e);
                proof {
                    assert(self@ =~= store_with_lines(
                        old(self)@,
                        env@,
                        lines_without(env_lines(old(self)@, env@), alias@),
                    ));
                    if !removed {
                        assert(self@ =~= old(self)@);
                    }
                    assert(env_lines(old(self)@, env@) == lines_of(before));
                }
                Ok(removed)
            },
            None => Err(Error::FileError),
        }
    }
}

/// An environment that was created exists.
pub proof fn created_env_exists(s: Seq<EnvModel>, name: Seq<char>)
    ensures
        has_env(store_with(s, name), name),
{
    assert(store_with(s, name)[s.len() as int].0 == name);
}

/// An environment that was just created is the last of the store, and the
/// store without it is the store before.
pub proof fn created_is_last(s: Seq<EnvModel>, name: Seq<char>)
    requires
        distinct_names(s),
        !has_env(s, name),
    ensures
        distinct_names(store_with(s, name)),
        has_env(store_with(s, name), name),
        env_index(store_with(s, name), name) == s.len(),
        store_without(store_with(s, name), name) == s,
{
    let t = store_with(s, name);
    assert(t[s.len() as int].0 == name);
    let i = env_index(t, name);
    if i < s.len() {
        assert(s[i].0 == name);
    }
    assert(t.remove(s.len() as int) =~= s);
}

/// The deletion of one environment leaves every other in the store.
pub proof fn other_env_stays(s: Seq<EnvModel>, name: Seq<char>, other: Seq<char>)
    requires
        has_env(s, name),
        has_env(s, other),
        other != name,
    ensures
        has_env(store_without(s, name), other),
{
    let k = env_index(s, name);
    let i = env_index(s, other);
    let t = store_without(s, name);
    if i < k {
        assert(t[i] == s[i]);
    } else {
        assert(t[i - 1] == s[i]);
    }
}

/// An environment that was deleted exists no longer.
pub proof fn deleted_env_is_gone(s: Seq<EnvModel>, name: Seq<char>)
    requires
        distinct_names(s),
        has_env(s, name),
    ensures
        !has_env(store_without(s, name), name),
        distinct_names(store_without(s, name)),
{
    let k = env_index(s, name);
    let t = store_without(s, name);
    assert forall|i: int| 0 <= i < t.len() implies (#[trigger] t[i]).0 != name by {
        if i < k {
            assert(t[i] == s[i]);
        } else {
            assert(t[i] == s[i + 1]);
        }
    }
    assert forall|i: int, j: int| 0 <= i < j < t.len() implies (#[trigger] t[i]).0 != (
    #[trigger] t[j]).0 by {
        let a = if i < k { i } else { i + 1 };
        let b = if j < k { j } else { j + 1 };
        assert(t[i] == s[a]);
        assert(t[j] == s[b]);
    }
}

} // verus!
