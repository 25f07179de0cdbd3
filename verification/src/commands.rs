//! The commands of a session. Each reads the marker and the store, changes
//! the store, and appends to the command buffer the statements that the
//! invoking shell is to evaluate. A command that fails changes nothing.

use crate::emitter::{
    add_output_line, alias_all, batch, set_alias_var, setenv_text, unalias_all, unalias_line,
    Shell,
};
use crate::error::Error;
use crate::name::{valid_env_name, ENV_VAR, NO_ENV_ACTIVE};
use crate::record::{has_alias, lines_of, lines_without, readable, record_line, record_text};
use crate::store::{
    created_env_exists, created_is_last, distinct_names, env_lines, has_env, other_env_stays,
    store_with, store_with_lines, store_without, EnvModel, Store,
};
use crate::tracker::{
    compute_delete_transition, compute_load_transition, delete_plan, is_cur_env, load_plan,
    marker_after, marker_value, Marker, Plan, Transition,
};
use vstd::prelude::*;
use vstd::string::*;

verus! {

/// The statements that undo every alias of the environment `name`. Its alias
/// file has to be there and to be readable.
pub open spec fn unload_text(s: Seq<EnvModel>, name: Seq<char>) -> Result<Seq<char>, Error> {
    if !has_env(s, name) {
        Err(Error::FileError)
    } else if !readable(env_lines(s, name)) {
        Err(Error::CorruptFile)
    } else {
        Ok(batch(env_lines(s, name).map_values(|l: Seq<char>| unalias_line(l))))
    }
}

/// The statements that define every alias of the environment `name`. Its
/// alias file has to be there and to be readable.
pub open spec fn load_text(s: Seq<EnvModel>, name: Seq<char>) -> Result<Seq<char>, Error> {
    if !has_env(s, name) {
        Err(Error::FileError)
    } else if !readable(env_lines(s, name)) {
        Err(Error::CorruptFile)
    } else {
        Ok(batch(env_lines(s, name)))
    }
}

/// The statement that sets the marker.
pub open spec fn set_marker_text(shell: Shell, marker: Option<Seq<char>>) -> Seq<char> {
    setenv_text(shell, ENV_VAR@, marker_value(marker)) + ";"@
}

/// The statements of a transition, in the order of its steps, or the error
/// of the first step that cannot be taken.
pub open spec fn plan_text(s: Seq<EnvModel>, shell: Shell, plan: Plan) -> Result<
    Seq<char>,
    Error,
> {
    let first = match plan.unload {
        Some(name) => unload_text(s, name),
        None => Ok(Seq::empty()),
    };
    let second = match plan.marker {
        Some(m) => set_marker_text(shell, m),
        None => Seq::empty(),
    };
    let third = match plan.load {
        Some(name) => load_text(s, name),
        None => Ok(Seq::empty()),
    };
    match (first, third) {
        (Err(e), _) => Err(e),
        (Ok(_), Err(e)) => Err(e),
        (Ok(a), Ok(c)) => Ok(a + second + c),
    }
}

/// Appends the statements of a transition to the buffer.
pub fn run_transition(output: &mut String, store: &Store, shell: Shell, plan: &Transition) -> (r:
    Result<(), Error>)
    requires
        store.wf(),
    ensures
        match plan_text(store@, shell, plan@) {
            Ok(text) => r is Ok && final(output)@ == old(output)@ + text,
            Err(e) => r == Err::<(), Error>(e) && final(output)@ == old(output)@,
        },
{
    let mut text = String::new();
    match &plan.unload {
        Some(name) => {
            match store.aliases(name.as_str()) {
                Some(lines) => {
                    match unalias_all(&mut text, lines) {
                        Ok(()) => {},
                        Err(e) => {
                            return Err(e);
                        },
                    }
                },
                None => {
                    return Err(Error::FileError);
                },
            }
        },
        None => {},
    }
    match &plan.marker {
        Some(m) => {
            let value = m.value();
            set_alias_var(&mut text, shell, value.as_str());
        },
        None => {},
    }
    match &plan.load {
        Some(name) => {
            match store.aliases(name.as_str()) {
                Some(lines) => {
                    match alias_all(&mut text, lines) {
                        Ok(()) => {},
                        Err(e) => {
                            return Err(e);
                        },
                    }
                },
                None => {
                    return Err(Error::FileError);
                },
            }
        },
        None => {},
    }
    output.append(text.as_str());
    proof {
        assert(plan_text(store@, shell, plan@) is Ok);
        assert(text@ =~= plan_text(store@, shell, plan@)->Ok_0);
    }
    Ok(())
}

/// The marker names an environment of the store, or none: what every
/// command keeps, so that the shell never holds the name of an environment
/// that is gone.
pub open spec fn marker_in_store(s: Seq<EnvModel>, marker: Option<Seq<char>>) -> bool {
    match marker {
        None => true,
        Some(name) => has_env(s, name),
    }
}

/// What `setup` adds to the buffer: the assignment of the sentinel, where the
/// marker variable is not set.
pub open spec fn setup_text(shell: Shell, is_set: bool) -> Seq<char> {
    if is_set {
        Seq::empty()
    } else {
        set_marker_text(shell, None)
    }
}

/// Prepares a session: a shell whose marker variable is not set is told that
/// no environment is active.
pub fn setup(output: &mut String, shell: Shell, value: Option<&str>)
    ensures
        final(output)@ == old(output)@ + setup_text(shell, value is Some),
{
    match value {
        None => {
            set_alias_var(output, shell, NO_ENV_ACTIVE);
        },
        Some(_) => {
            assert(output@ =~= old(output)@ + Seq::<char>::empty());
        },
    }
}

/// What `load` does: the statements it adds to the buffer, or its error.
pub open spec fn load_outcome(
    s: Seq<EnvModel>,
    marker: Option<Seq<char>>,
    shell: Shell,
    env: Seq<char>,
) -> Result<Seq<char>, Error> {
    if marker == Some(env) {
        Err(Error::AlreadyLoaded)
    } else if !has_env(s, env) {
        Err(Error::NotFound)
    } else {
        plan_text(s, shell, load_plan(marker, env))
    }
}

/// Makes `env` the active environment: undoes the aliases of the one that
/// was active, sets the marker, defines the aliases of `env`.
pub fn load(output: &mut String, store: &Store, marker: &Marker, shell: Shell, env: &str) -> (r:
    Result<Marker, Error>)
    requires
        store.wf(),
    ensures
        marker@ == Some(env@) ==> r is Err && r->Err_0 == Error::AlreadyLoaded && final(output)@
            == old(output)@,
        r matches Ok(m) ==> m@ == Some(env@) && marker_in_store(store@, m@),
        match load_outcome(store@, marker@, shell, env@) {
            Ok(text) => r is Ok && r->Ok_0@ == Some(env@) && final(output)@ == old(output)@
                + text,
            Err(e) => r is Err && r->Err_0 == e && final(output)@ == old(output)@,
        },
{
    let plan = match compute_load_transition(marker, env) {
        Ok(plan) => plan,
        Err(e) => {
            return Err(e);
        },
    };
    if !store.env_exists(env) {
        return Err(Error::NotFound);
    }
    match run_transition(output, store, shell, &plan) {
        Ok(()) => Ok(Marker::Active(String::from_str(env))),
        Err(e) => Err(e),
    }
}

/// An environment that was just created is loaded without fail: its alias
/// file is empty, so there is no line in it that could be corrupt, and no
/// alias to define.
pub proof fn fresh_env_loads(s: Seq<EnvModel>, name: Seq<char>)
    requires
        distinct_names(s),
        !has_env(s, name),
    ensures
        load_text(store_with(s, name), name) == Ok::<Seq<char>, Error>(Seq::empty()),
{
    created_is_last(s, name);
    assert(env_lines(store_with(s, name), name) =~= Seq::<Seq<char>>::empty());
    assert(batch(Seq::<Seq<char>>::empty()) =~= Seq::<char>::empty());
}

/// What `new` does: the statements it adds to the buffer, or its error.
pub open spec fn new_outcome(
    s: Seq<EnvModel>,
    marker: Option<Seq<char>>,
    shell: Shell,
    env: Seq<char>,
) -> Result<Seq<char>, Error> {
    if !valid_env_name(env) {
        Err(Error::InvalidName)
    } else if has_env(s, env) {
        Err(Error::AlreadyExists)
    } else {
        load_outcome(store_with(s, env), marker, shell, env)
    }
}

/// Creates the environment `env` and makes it the active one.
pub fn new(output: &mut String, store: &mut Store, marker: &Marker, shell: Shell, env: &str) -> (r:
    Result<Marker, Error>)
    requires
        old(store).wf(),
    ensures
        final(store).wf(),
        r matches Ok(m) ==> m@ == Some(env@) && marker_in_store(final(store)@, m@),
        match new_outcome(old(store)@, marker@, shell, env@) {
            Ok(text) => r is Ok && r->Ok_0@ == Some(env@) && final(output)@ == old(output)@ + text
                && final(store)@ == store_with(old(store)@, env@),
            Err(e) => r is Err && r->Err_0 == e && final(output)@ == old(output)@
                && final(store)@ == old(store)@,
        },
{
    match store.create(env) {
        Ok(()) => {},
        Err(e) => {
            return Err(e);
        },
    }
    match load(output, store, marker, shell, env) {
        Ok(m) => {
            proof {
                created_env_exists(old(store)@, env@);
            }
            Ok(m)
        },
        Err(e) => {
            proof {
                created_is_last(old(store)@, env@);
            }
            let _ = store.delete(env);
            assert(store@ =~= old(store)@);
            Err(e)
        },
    }
}

/// What `delete` does: the statements it adds to the buffer, or its error.
pub open spec fn delete_outcome(
    s: Seq<EnvModel>,
    marker: Option<Seq<char>>,
    shell: Shell,
    env: Seq<char>,
) -> Result<Seq<char>, Error> {
    if !has_env(s, env) {
        Err(Error::NotFound)
    } else {
        plan_text(s, shell, delete_plan(marker, env))
    }
}

/// Deletes the environment `env`. Where it is the active one, its aliases
/// are undone and the marker is set to the sentinel before it goes.
pub fn delete(output: &mut String, store: &mut Store, marker: &Marker, shell: Shell, env: &str) -> (r:
    Result<Marker, Error>)
    requires
        old(store).wf(),
    ensures
        final(store).wf(),
        r matches Ok(m) ==> marker_in_store(old(store)@, marker@) ==> marker_in_store(
            final(store)@,
            m@,
        ),
        match delete_outcome(old(store)@, marker@, shell, env@) {
            Ok(text) => r is Ok && r->Ok_0@ == marker_after(marker@, delete_plan(marker@, env@))
                && final(output)@ == old(output)@ + text && final(store)@ == store_without(
                old(store)@,
                env@,
            ),
            Err(e) => r is Err && r->Err_0 == e && final(output)@ == old(output)@
                && final(store)@ == old(store)@,
        },
{
    if !store.env_exists(env) {
        return Err(Error::NotFound);
    }
    let plan = compute_delete_transition(marker, env);
    match run_transition(output, store, shell, &plan) {
        Ok(()) => {},
        Err(e) => {
            return Err(e);
        },
    }
    match store.delete(env) {
        Ok(()) => {},
        Err(e) => {
            return Err(e);
        },
    }
    proof {
        if marker@ is Some && marker@ != Some(env@) && has_env(old(store)@, marker@->0) {
            other_env_stays(old(store)@, env@, marker@->0);
        }
    }
    match plan.marker {
        Some(m) => Ok(m),
        None => Ok(marker.duplicate()),
    }
}

/// The statements that show the environments, one `echo` for each, the
/// active one with a `*` behind its name.
pub open spec fn show_text(s: Seq<EnvModel>, marker: Option<Seq<char>>) -> Seq<char>
    decreases s.len(),
{
    if s.len() == 0 {
        Seq::empty()
    } else {
        show_text(s.drop_last(), marker) + "echo '"@ + s.last().0 + (if marker == Some(s.last().0) {
            "*';"@
        } else {
            "';"@
        })
    }
}

/// Appends the statements that show every environment.
pub fn show_all(output: &mut String, store: &Store, marker: &Marker)
    ensures
        final(output)@ == old(output)@ + show_text(store@, marker@),
{
    let names = store.list();
    let ghost s = store@;
    let mut i: usize = 0;
    proof {
        assert(output@ =~= old(output)@ + show_text(s.take(0), marker@));
        assert(lines_of(names@).len() == names@.len());
        assert forall|j: int| 0 <= j < s.len() implies (#[trigger] names@[j])@ == s[j].0 by {
            assert(lines_of(names@)[j] == names@[j]@);
        }
    }
    while i < names.len()
        invariant
            i <= names@.len(),
            names@.len() == s.len(),
            forall|j: int| 0 <= j < s.len() ==> (#[trigger] names@[j])@ == s[j].0,
            output@ == old(output)@ + show_text(s.take(i as int), marker@),
        decreases names@.len() - i,
    {
        let ghost before = output@;
        let name = names[i].as_str();
        output.append("echo '");
        output.append(name);
        if is_cur_env(marker, name) {
            output.append("*';");
        } else {
            output.append("';");
        }
        proof {
            assert(s.take(i + 1).drop_last() =~= s.take(i as int));
            assert(s.take(i + 1).last() == s[i as int]);
            assert(output@ =~= old(output)@ + show_text(s.take(i + 1), marker@));
        }
        i += 1;
    }
    assert(s.take(i as int) =~= s);
}

/// Adds an alias to the active environment and defines it in the shell.
pub fn add_alias(
    output: &mut String,
    store: &mut Store,
    marker: &Marker,
    alias: &str,
    command: &str,
) -> (r: Result<(), Error>)
    requires
        old(store).wf(),
    ensures
        final(store).wf(),
        r is Ok <==> marker@ is Some && has_env(old(store)@, marker@->0),
        r is Ok ==> final(output)@ == old(output)@ + record_line(alias@, command@) + ";"@
            && final(store)@ == store_with_lines(
            old(store)@,
            marker@->0,
            env_lines(old(store)@, marker@->0).push(record_line(alias@, command@)),
        ),
        r is Err ==> final(output)@ == old(output)@ && final(store)@ == old(store)@,
        r matches Err(e) ==> e == (if marker@ is None {
            Error::NoActiveEnvironment
        } else {
            Error::FileError
        }),
{
    match marker {
        Marker::Inactive => Err(Error::NoActiveEnvironment),
        Marker::Active(env) => {
            match store.append_alias(env.as_str(), alias, command) {
                Ok(()) => {
                    let new_alias = record_text(alias, command);
                    add_output_line(output, new_alias.as_str());
                    Ok(())
                },
                Err(e) => Err(e),
            }
        },
    }
}

/// Removes an alias from the active environment and undoes it in the shell.
pub fn remove_alias(output: &mut String, store: &mut Store, marker: &Marker, alias: &str) -> (r:
    Result<(), Error>)
    requires
        old(store).wf(),
    ensures
        final(store).wf(),
        r is Ok <==> marker@ is Some && has_env(old(store)@, marker@->0) && has_alias(
            env_lines(old(store)@, marker@->0),
            alias@,
        ),
        r is Ok ==> final(output)@ == old(output)@ + "unalias "@ + alias@ + ";"@ && final(store)@
            == store_with_lines(
            old(store)@,
            marker@->0,
            lines_without(env_lines(old(store)@, marker@->0), alias@),
        ),
        r is Err ==> final(output)@ == old(output)@ && final(store)@ == old(store)@,
        r matches Err(e) ==> e == (if marker@ is None {
            Error::NoActiveEnvironment
        } else if !has_env(old(store)@, marker@->0) {
            Error::FileError
        } else {
            Error::NotFound
        }),
{
    match marker {
        Marker::Inactive => Err(Error::NoActiveEnvironment),
        Marker::Active(env) => {
            match store.remove_alias(env.as_str(), alias) {
                Ok(true) => {
                    let mut temp = String::from_str("unalias ");
                    temp.append(alias);
                    add_output_line(output, temp.as_str());
                    assert(output@ =~= old(output)@ + "unalias "@ + alias@ + ";"@);
                    Ok(())
                },
                Ok(false) => Err(Error::NotFound),
                Err(e) => Err(e),
            }
        },
    }
}

} // verus!
