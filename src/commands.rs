//! The commands of the version manager over a store: each decides and
//! returns the filesystem steps, leaving their execution to the caller.
use vstd::prelude::*;
use crate::actions::{Action, ActionView, GvmError, actions_view};
use crate::store::{
    activate_outcome, activate_state, create_alias_outcome, create_alias_state, environment_actions,
    remove_alias_outcome, remove_alias_state, remove_outcome, remove_state, environment_steps, Store,
};
use crate::text::str_eq;

verus! {

/// Makes the raw version `version` active: see `Store::activate`.
pub fn activate_version(store: &mut Store, version: String) -> (r: Result<Vec<Action>, GvmError>)
    requires
        old(store).wf(),
    ensures
        final(store).wf(),
        final(store)@ == activate_state(old(store)@, version@),
        match r {
            Ok(a) => activate_outcome(old(store)@, version@) == Ok::<Seq<ActionView>, GvmError>(actions_view(a@)),
            Err(e) => activate_outcome(old(store)@, version@) == Err::<Seq<ActionView>, GvmError>(e),
        },
{
    store.activate(version)
}

/// Switches to the raw version `version`: refused when it is not installed,
/// nothing to do when it is active already.
pub fn use_version(store: &mut Store, version: String) -> (r: Result<Vec<Action>, GvmError>)
    requires
        old(store).wf(),
    ensures
        final(store).wf(),
        final(store)@ == activate_state(old(store)@, version@),
        match r {
            Ok(a) => activate_outcome(old(store)@, version@) == Ok::<Seq<ActionView>, GvmError>(actions_view(a@)),
            Err(e) => activate_outcome(old(store)@, version@) == Err::<Seq<ActionView>, GvmError>(e),
        },
{
    activate_version(store, version)
}

/// The steps that rewrite the environment descriptor for `version`, or for
/// the active version when none is given; `NotFound` when neither exists.
pub fn init_go_environment(store: &Store, version: Option<String>) -> (r: Result<Vec<Action>, GvmError>)
    ensures
        match version {
            Some(v) => r is Ok && actions_view(r->Ok_0@) == environment_actions(store@.home, v@),
            None => match store@.active {
                Some(a) => r is Ok && actions_view(r->Ok_0@) == environment_actions(store@.home, a),
                None => r == Err::<Vec<Action>, GvmError>(GvmError::NotFound),
            },
        },
{
    match version {
        Some(v) => Ok(environment_steps(store.home(), v.as_str())),
        None => match store.active() {
            Some(a) => Ok(environment_steps(store.home(), a.as_str())),
            None => Err(GvmError::NotFound),
        },
    }
}

/// What the `alias` command asks for.
pub enum AliasCommand {
    /// List the aliases.
    List,
    /// An alias was created; these steps make the link.
    Created(Vec<Action>),
}

/// The `alias` command: `default` is refused; `list` and `ls` ask for the
/// listing; any other name creates an alias for `target` (the bare `go`
/// when none is given).
pub fn alias(store: &mut Store, name: String, target: Option<String>) -> (r: Result<AliasCommand, GvmError>)
    requires
        old(store).wf(),
    ensures
        final(store).wf(),
        name@ == "default"@ ==> r == Err::<AliasCommand, GvmError>(GvmError::ReservedName) && final(store)@ == old(store)@,
        (name@ == "list"@ || name@ == "ls"@) ==> (r matches Ok(AliasCommand::List)) && final(store)@ == old(store)@,
        !(name@ == "default"@ || name@ == "list"@ || name@ == "ls"@) ==> {
            let t = match target {
                Some(t) => t@,
                None => Seq::<char>::empty(),
            };
            &&& final(store)@ == create_alias_state(old(store)@, name@, t)
            &&& match r {
                Ok(AliasCommand::Created(a)) => create_alias_outcome(old(store)@, name@, t) == Ok::<Seq<ActionView>, GvmError>(actions_view(a@)),
                Ok(AliasCommand::List) => false,
                Err(e) => create_alias_outcome(old(store)@, name@, t) == Err::<Seq<ActionView>, GvmError>(e),
            }
        },
{
    proof {
        reveal_strlit("default");
        reveal_strlit("list");
        reveal_strlit("ls");
        assert("default"@.len() == 7 && "list"@.len() == 4 && "ls"@.len() == 2);
    }
    if str_eq(name.as_str(), "default") {
        return Err(GvmError::ReservedName);
    }
    if str_eq(name.as_str(), "list") || str_eq(name.as_str(), "ls") {
        return Ok(AliasCommand::List);
    }
    let t = match target {
        Some(t) => t,
        None => String::new(),
    };
    match store.create_alias(name, t) {
        Ok(a) => Ok(AliasCommand::Created(a)),
        Err(e) => Err(e),
    }
}

/// The `remove-alias` command: see `Store::remove_alias`.
pub fn remove_alias(store: &mut Store, name: String) -> (r: Result<Vec<Action>, GvmError>)
    requires
        old(store).wf(),
    ensures
        final(store).wf(),
        final(store)@ == remove_alias_state(old(store)@, name@),
        match r {
            Ok(a) => remove_alias_outcome(old(store)@, name@) == Ok::<Seq<ActionView>, GvmError>(actions_view(a@)),
            Err(e) => remove_alias_outcome(old(store)@, name@) == Err::<Seq<ActionView>, GvmError>(e),
        },
{
    store.remove_alias(name)
}

/// The `remove` command: see `Store::remove`.
pub fn remove(store: &mut Store, version: String) -> (r: Result<Vec<Action>, GvmError>)
    requires
        old(store).wf(),
    ensures
        final(store).wf(),
        final(store)@ == remove_state(old(store)@, version@),
        match r {
            Ok(a) => remove_outcome(old(store)@, version@) == Ok::<Seq<ActionView>, GvmError>(actions_view(a@)),
            Err(e) => remove_outcome(old(store)@, version@) == Err::<Seq<ActionView>, GvmError>(e),
        },
{
    store.remove(version)
}

} // verus!
