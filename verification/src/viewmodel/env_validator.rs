//! Getting and checking the environment variables a task needs.
use vstd::prelude::*;
use vstd::string::*;

use std::rc::Rc;

use crate::model::param::{Param, ParamView};
use crate::model::yaml::views;
use crate::model::param_validator::{parse_validator, validation};
use crate::viewmodel::capabilities::Capabilities;
use crate::util::name_map::{insert_named, lemma_position};
use crate::viewmodel::env_with_role_back::EnvWithRoleBack;
use crate::viewmodel::task_viewmodel::TaskViewModel;

verus! {

/// The check of a variable's value against the parameter's rule.
pub open spec fn env_check(p: ParamView, value: Seq<char>) -> Result<(), Seq<char>> {
    match p.validator {
        None => Ok(()),
        Some(t) => match parse_validator(t) {
            Err(e) => Err(e),
            Ok(v) => match validation(v, value) {
                Ok(()) => Ok(()),
                Err(m) => Err(
                    "environment variable validation error: '"@ + p.name + "'='"@ + value + "' ("@
                        + m + ")"@,
                ),
            },
        },
    }
}

/// A parameter that cannot stop a task: it has a default value and no
/// validation rule.
pub open spec fn always_valid(p: ParamView) -> bool {
    p.validator is None && p.default is Some
}

/// How getting and checking the variable of `p` can fail: no value could be
/// had, or a value broke the rule (or the rule does not read).
pub open spec fn refusal(p: ParamView, e: Seq<char>) -> bool {
    e == msg_cant_get(p.name) || exists|v: Seq<char>| #[trigger] env_check(p, v) == Err::<(), Seq<char>>(e)
}

/// `name` is the name of one of the parameters.
pub open spec fn is_param_name(name: Seq<char>, ps: Seq<ParamView>) -> bool {
    exists|k: int| 0 <= k < ps.len() && #[trigger] ps[k].name == name
}

/// Every saved variable is one of the parameters.
pub open spec fn saves_only(saved: Seq<(Seq<char>, Option<String>)>, ps: Seq<ParamView>) -> bool {
    forall|j: int| 0 <= j < saved.len() ==> is_param_name(#[trigger] saved[j].0, ps)
}

/// What getting and checking the variables of `ps` in turn can end with:
/// success once each got a value that passes, or the refusal of the first
/// that failed, a value passing for each before it.
pub open spec fn validation_may_end(ps: Seq<ParamView>, r: Result<(), Seq<char>>) -> bool {
    match r {
        Ok(()) => forall|i: int| 0 <= i < ps.len() ==> passable(#[trigger] ps[i]),
        Err(e) => exists|k: int|
            0 <= k < ps.len() && (forall|i: int| 0 <= i < k ==> passable(#[trigger] ps[i]))
                && #[trigger] refusal(ps[k], e),
    }
}

/// Some value passes the check of `p`.
pub open spec fn passable(p: ParamView) -> bool {
    exists|v: Seq<char>| #[trigger] env_check(p, v) == Ok::<(), Seq<char>>(())
}

/// The message when no value can be had for a variable.
pub open spec fn msg_cant_get(name: Seq<char>) -> Seq<char> {
    "can't get environment variable '"@ + name + "'"@
}

/// Checks a value of the variable against the parameter's rule.
pub fn check_env_value(env: &Param, value: &str) -> (r: Result<(), String>)
    ensures
        match (r, env_check(env@, value@)) {
            (Ok(()), Ok(())) => true,
            (Err(e), Err(m)) => e@ == m,
            _ => false,
        },
{
    match env.validator() {
        None => Ok(()),
        Some(Err(e)) => Err(e),
        Some(Ok(validator)) => match validator.validate(value) {
            Ok(()) => Ok(()),
            Err(e) => {
                let mut m = String::from_str("environment variable validation error: '");
                m.append(env.name());
                m.append("'='");
                m.append(value);
                m.append("' (");
                m.append(e.as_str());
                m.append(")");
                Err(m)
            },
        },
    }
}

proof fn lemma_insert_named_names<V>(s: Seq<(Seq<char>, V)>, n: Seq<char>, v: V)
    ensures
        forall|j: int|
            0 <= j < insert_named(s, n, v).len() ==> #[trigger] insert_named(s, n, v)[j].0 == n || exists|k: int|
                0 <= k < s.len() && s[k].0 == insert_named(s, n, v)[j].0,
{
    lemma_position(s, n);
    let t = insert_named(s, n, v);
    assert forall|j: int| 0 <= j < t.len() implies #[trigger] t[j].0 == n || exists|k: int|
        0 <= k < s.len() && s[k].0 == t[j].0 by {
        if j < s.len() && t[j].0 != n {
            assert(s[j].0 == t[j].0);
        }
    }
}

/// It's [validate_env] in a loop which stops at the first error; the
/// variables set so far are then put back.
pub fn validate_envs<C: Capabilities>(cap: &Rc<C>, task: &TaskViewModel<C>) -> (r: Result<
    EnvWithRoleBack,
    String,
>)
    ensures
        task.param_views().len() == 0 ==> r is Ok,
        r matches Ok(_) ==> forall|i: int|
            0 <= i < task.param_views().len() ==> passable(#[trigger] task.param_views()[i]),
        r matches Ok(e) ==> saves_only(e.saved(), task.param_views()),
        r matches Err(e) ==> exists|i: int| 0 <= i < task.param_views().len() && refusal(#[trigger] task.param_views()[i], e@),
        r matches Err(e) ==> exists|k: int|
            0 <= k < task.param_views().len() && (forall|i: int| 0 <= i < k ==> passable(#[trigger] task.param_views()[i]))
                && #[trigger] refusal(task.param_views()[k], e@),
        (forall|i: int| 0 <= i < task.param_views().len() ==> always_valid(#[trigger] task.param_views()[i]))
            ==> r is Ok,
        validation_may_end(task.param_views(), crate::text::outcome_of(r)),
{
    let mut env_with_role_back = EnvWithRoleBack::new();
    let params = task.params();
    assert(params@.len() == views(params@).len());
    let mut i: usize = 0;
    while i < params.len()
        invariant
            i <= params@.len(),
            params@.len() == task.param_views().len(),
            views(params@) == task.param_views(),
            forall|k: int| 0 <= k < i ==> passable(#[trigger] task.param_views()[k]),
            saves_only(env_with_role_back.saved(), task.param_views().take(i as int)),
        decreases params.len() - i,
    {
        assert(views(params@)[i as int] == params@[i as int]@);
        let ghost before = env_with_role_back.saved();
        if let Err(e) = validate_env(cap, &params[i], &mut env_with_role_back) {
            assert(refusal(task.param_views()[i as int], e@));
            assert(forall|j: int| 0 <= j < i ==> passable(#[trigger] task.param_views()[j]));
            env_with_role_back.role_back(cap);
            return Err(e);
        }
        proof {
            let after = env_with_role_back.saved();
            let name = task.param_views()[i as int].name;
            if after != before {
                let previous = choose|previous: Option<String>| after == #[trigger] insert_named(before, name, previous);
                lemma_insert_named_names(before, name, previous);
            }
            let ps = task.param_views().take(i + 1);
            assert forall|j: int| 0 <= j < after.len() implies is_param_name(#[trigger] after[j].0, ps) by {
                if after[j].0 == name {
                    assert(ps[i as int].name == name);
                } else {
                    let k0 = choose|k0: int| 0 <= k0 < before.len() && before[k0].0 == after[j].0;
                    assert(is_param_name(before[k0].0, task.param_views().take(i as int)));
                    let k = choose|k: int| 0 <= k < i && #[trigger] task.param_views().take(i as int)[k].name == before[k0].0;
                    assert(ps[k] == task.param_views().take(i as int)[k]);
                }
            }
        }
        i = i + 1;
    }
    assert(task.param_views().take(params.len() as int) == task.param_views());
    Ok(env_with_role_back)
}

/// The question that asks the user for the variable `name`.
pub open spec fn msg_env_question(name: Seq<char>) -> Seq<char> {
    "environment variable '"@ + name + "' not found enter "@ + name
}

/// The question that asks the user for the variable `name` when neither the
/// environment nor a default gives it.
pub fn env_question(name: &str) -> (r: String)
    ensures
        r@ == msg_env_question(name@),
{
    let mut q = String::from_str("environment variable '");
    q.append(name);
    q.append("' not found enter ");
    q.append(name);
    proof {
        reveal_strlit("environment variable '");
        reveal_strlit("' not found enter ");
    }
    q
}

/// Where the value of `p`'s variable comes from, given what the host
/// answered: the environment's value `from_env`, else the default, else the
/// user's `answer` without surrounding white space; the flag tells that the
/// value has to be set. `None` where there is no value at all.
pub open spec fn gathered(p: ParamView, from_env: Option<Seq<char>>, answer: Option<Seq<char>>) -> Option<(Seq<char>, bool)> {
    match from_env {
        Some(v) => Some((v, false)),
        None => match p.default {
            Some(d) => Some((d, true)),
            None => match answer {
                Some(a) => Some((crate::text::trim(a), true)),
                None => None,
            },
        },
    }
}

/// What getting and checking the variable of `p` ends with, given what the
/// host answered.
pub open spec fn env_outcome(p: ParamView, from_env: Option<Seq<char>>, answer: Option<Seq<char>>) -> Result<(), Seq<char>> {
    match gathered(p, from_env, answer) {
        None => Err(msg_cant_get(p.name)),
        Some((v, _)) => env_check(p, v),
    }
}

/// The value to check for `env`, from what the host answered (see
/// [gathered]): the environment's value, else the default, else the trimmed
/// answer; with whether it has to be set.
pub fn gathered_value(env: &Param, from_env: Option<String>, answer: Option<String>) -> (r: Option<(String, bool)>)
    ensures
        match (r, gathered(env@, crate::text::opt_view(from_env), crate::text::opt_view(answer))) {
            (Some((v, set)), Some((w, s))) => v@ == w && set == s,
            (None, None) => true,
            _ => false,
        },
{
    match from_env {
        Some(v) => Some((v, false)),
        None => match env.default() {
            Some(d) => Some((d.to_owned(), true)),
            None => match answer {
                Some(a) => {
                    let t = crate::text::trim_chars(crate::text::chars_of(a.as_str()).as_slice());
                    Some((crate::text::string_from(t.as_slice()), true))
                },
                None => None,
            },
        },
    }
}

/// Gets the variable's value: from the environment, else the parameter's
/// default (which is then set), else from the user (set too); then checks it.
pub fn validate_env<C: Capabilities>(
    cap: &Rc<C>,
    env: &Param,
    env_with_role_back: &mut EnvWithRoleBack,
) -> (r: Result<(), String>)
    ensures
        match r {
            Ok(()) => exists|v: Seq<char>| #[trigger] env_check(env@, v) == Ok::<(), Seq<char>>(()),
            Err(e) => refusal(env@, e@),
        },
        always_valid(env@) ==> r is Ok,
        exists|from_env: Option<Seq<char>>, answer: Option<Seq<char>>|
            #![trigger gathered(env@, from_env, answer)]
            {
                &&& cap.env_reply(env@.name, from_env)
                &&& (from_env is Some || env@.default is Some) ==> answer is None
                &&& (from_env is None && env@.default is None) ==> cap.input_reply(answer)
                &&& crate::viewmodel::task_viewmodel::ends_as(r, env_outcome(env@, from_env, answer))
                &&& (gathered(env@, from_env, answer) matches Some((_, true)) ==> exists|previous: Option<String>|
                    final(env_with_role_back).saved() == #[trigger] insert_named(
                        old(env_with_role_back).saved(),
                        env@.name,
                        previous,
                    ))
                &&& (!(gathered(env@, from_env, answer) matches Some((_, true))) ==> final(env_with_role_back).saved() == old(env_with_role_back).saved())
            },
        final(env_with_role_back).saved() == old(env_with_role_back).saved() || exists|previous: Option<String>|
            final(env_with_role_back).saved() == #[trigger] insert_named(
                old(env_with_role_back).saved(),
                env@.name,
                previous,
            ),
{
    let key = env.name();
    let from_env = cap.get_env(key);
    let answer = if from_env.is_none() && env.default().is_none() {
        cap.ask_user(env_question(key).as_str())
    } else {
        None
    };
    let ghost e = crate::text::opt_view(from_env);
    let ghost a = crate::text::opt_view(answer);
    match gathered_value(env, from_env, answer) {
        None => {
            let mut m = String::from_str("can't get environment variable '");
            m.append(key);
            m.append("'");
            assert(gathered(env@, e, a) is None);
            Err(m)
        },
        Some((value, set)) => {
            if set {
                env_with_role_back.set_env(cap, key, value.as_str());
            }
            let r = check_env_value(env, value.as_str());
            assert(crate::viewmodel::task_viewmodel::ends_as(r, env_outcome(env@, e, a)));
            r
        },
    }
}

} // verus!

verus! {

/// A value the environment holds for the variable is the one gathered and
/// checked, whatever the default or the user would give, and it is not set
/// again.
pub proof fn the_environment_value_comes_first(p: ParamView, v: Seq<char>, answer: Option<Seq<char>>)
    ensures
        gathered(p, Some(v), answer) == Some((v, false)),
        env_outcome(p, Some(v), answer) == env_check(p, v),
{
}

/// Without a value in the environment, the parameter's default is gathered
/// (and then set), whatever the user would answer.
pub proof fn the_default_comes_next(p: ParamView, answer: Option<Seq<char>>)
    requires
        p.default is Some,
    ensures
        gathered(p, None, answer) == Some((p.default->0, true)),
        env_outcome(p, None, answer) == env_check(p, p.default->0),
{
}

/// With neither a value in the environment nor a default, the user's answer
/// without surrounding white space is gathered (and then set); no answer
/// means the variable cannot be had.
pub proof fn the_user_answers_last(p: ParamView, answer: Option<Seq<char>>)
    requires
        p.default is None,
    ensures
        answer matches Some(a) ==> gathered(p, None, answer) == Some((crate::text::trim(a), true)),
        answer is None ==> gathered(p, None, answer) is None,
        answer is None ==> env_outcome(p, None, answer) == Err::<(), Seq<char>>(msg_cant_get(p.name)),
{
}

} // verus!
