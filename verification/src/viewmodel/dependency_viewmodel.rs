//! A dependency together with the logic that checks and installs it.
use vstd::prelude::*;
use vstd::string::*;

use std::rc::Rc;

use crate::model::command::{command_views, parse_commands, platform_commands, CommandView};
use crate::model::dependency::{check_list, install_list, link_for, Dependency, DependencyView};
use crate::model::yaml::views;
use crate::util::name_map::{insert_named, NameMap};
use crate::util::platform_specific::Platform;
use crate::util::url::{generate_installation_link, standard_link};
use crate::viewmodel::capabilities::Capabilities;
use crate::viewmodel::task_viewmodel::{ends_as, result_view};
use crate::viewmodel::{share_caps, BakeViewModel, MAX_DEPTH};

verus! {

/// `Unknown` when the dependency has no check commands (or they do not
/// parse), so bake cannot tell whether it is installed.
#[derive(Debug, Clone, Copy, PartialEq, Eq, Structural)]
pub enum IsInstalledState {
    Installed,
    NotInstalled,
    Unknown,
}

/// A [Dependency] with the capabilities it is checked and installed through.
pub struct DependencyViewModel<C: Capabilities> {
    capabilities: Rc<C>,
    dependency: Dependency,
    platform: Platform,
}

/// There are installation commands that parse, or a link, on `platform`.
pub open spec fn installable(d: DependencyView, platform: Platform) -> bool {
    platform_commands(install_list(d, platform), platform) is Ok || link_for(d, platform) is Some
}

/// The dependencies keyed by name, a later one replacing an earlier one of
/// the same name.
pub open spec fn dependencies_by_name(s: Seq<DependencyView>) -> Seq<(Seq<char>, DependencyView)>
    decreases s.len(),
{
    if s.len() == 0 {
        Seq::empty()
    } else {
        insert_named(dependencies_by_name(s.drop_last()), s.last().name, s.last())
    }
}

/// The dependencies of the view models in a name map.
pub open spec fn dependency_entries<C: Capabilities>(s: Seq<(Seq<char>, DependencyViewModel<C>)>) -> Seq<
    (Seq<char>, DependencyView),
> {
    s.map_values(|e: (Seq<char>, DependencyViewModel<C>)| (e.0, e.1.dependency_view()))
}

proof fn lemma_entries_insert<C: Capabilities>(
    s: Seq<(Seq<char>, DependencyViewModel<C>)>,
    name: Seq<char>,
    d: DependencyViewModel<C>,
)
    ensures
        dependency_entries(insert_named(s, name, d)) == insert_named(
            dependency_entries(s),
            name,
            d.dependency_view(),
        ),
{
    lemma_position_entries(s, name);
    crate::util::name_map::lemma_position(s, name);
    let i = crate::util::name_map::position(s, name);
    let a = dependency_entries(insert_named(s, name, d));
    let b = insert_named(dependency_entries(s), name, d.dependency_view());
    assert(a.len() == b.len());
    assert forall|k: int| 0 <= k < a.len() implies a[k] == b[k] by {
        if i >= 0 {
            if k != i {
                assert(insert_named(s, name, d)[k] == s[k]);
            }
        } else {
            if k < s.len() {
                assert(insert_named(s, name, d)[k] == s[k]);
            }
        }
    }
    assert(a =~= b);
}

proof fn lemma_position_entries<C: Capabilities>(s: Seq<(Seq<char>, DependencyViewModel<C>)>, name: Seq<char>)
    ensures
        crate::util::name_map::position(dependency_entries(s), name)
            == crate::util::name_map::position(s, name),
    decreases s.len(),
{
    if s.len() > 0 {
        assert(dependency_entries(s).drop_last() == dependency_entries(s.drop_last()));
        lemma_position_entries(s.drop_last(), name);
    }
}

impl<C: Capabilities> DependencyViewModel<C> {
    /// The dependency.
    pub closed spec fn dependency_view(&self) -> DependencyView {
        self.dependency@
    }

    /// The platform that the capabilities reported when the view model was
    /// made; the check and installation lists are those of this platform.
    pub closed spec fn platform(&self) -> Platform {
        self.platform
    }

    /// The host's capabilities.
    pub closed spec fn host(&self) -> C {
        *self.capabilities
    }

    #[verifier::type_invariant]
    spec fn reported(self) -> bool {
        (*self.capabilities).platform_reply(self.platform)
    }

    pub fn new(capabilities: Rc<C>, dependency: Dependency) -> (r: Self)
        ensures
            r.dependency_view() == dependency@,
            capabilities.platform_reply(r.platform()),
    {
        let platform = capabilities.platform();
        Self { capabilities, dependency, platform }
    }

    /// The dependencies keyed by name.
    pub fn hashmap_from_dependencies(
        capabilities: &Rc<C>,
        dependencies: &[Dependency],
    ) -> (r: NameMap<DependencyViewModel<C>>)
        ensures
            dependency_entries(r.entries()) == dependencies_by_name(views(dependencies@)),
    {
        let mut map: NameMap<DependencyViewModel<C>> = NameMap::new();
        let mut i: usize = 0;
        assert(dependency_entries(map.entries()) =~= dependencies_by_name(
            views(dependencies@.take(0)),
        ));
        while i < dependencies.len()
            invariant
                i <= dependencies@.len(),
                dependency_entries(map.entries()) == dependencies_by_name(
                    views(dependencies@.take(i as int)),
                ),
            decreases dependencies@.len() - i,
        {
            let dependency = &dependencies[i];
            let vm = DependencyViewModel::new(share_caps(capabilities), dependency.duplicate());
            let ghost before = map.entries();
            map.insert(dependency.name().to_owned(), vm);
            proof {
                lemma_entries_insert(before, dependency@.name, vm);
                assert(views(dependencies@.take(i + 1)).drop_last() =~= views(
                    dependencies@.take(i as int),
                ));
            }
            i = i + 1;
        }
        assert(dependencies@.take(dependencies@.len() as int) == dependencies@);
        map
    }

    pub fn name(&self) -> (r: &str)
        ensures
            r@ == self.dependency_view().name,
    {
        self.dependency.name()
    }

    pub fn dependencies(&self) -> (r: &[String])
        ensures
            r.deep_view() == match self.dependency_view().dependencies {
                Some(d) => d,
                None => Seq::empty(),
            },
    {
        self.dependency.dependencies()
    }

    /// Runs the check commands: `Installed` when they all succeed,
    /// `NotInstalled` when one fails, `Unknown` when there are none.
    pub fn is_installed(&self, bake_view_model: &BakeViewModel<C>) -> (r: IsInstalledState)
        ensures
            (forall|p: Platform| #[trigger]
                platform_commands(check_list(self.dependency_view(), p), p) is Err) ==> r
                == IsInstalledState::Unknown,
            trivially_checked(self.dependency_view()) ==> r == IsInstalledState::Installed,
            (r == IsInstalledState::Unknown) == (self.checks() is Err),
            self.checks() matches Ok(cs) ==> ((forall|i: int|
                0 <= i < cs.len() ==> bake_view_model.settled_command(#[trigger] cs[i])) ==> r
                == IsInstalledState::Installed),
            self.checks() matches Ok(cs) ==> ((exists|k: int| bake_view_model.stops_at_stray(cs, k))
                ==> r == IsInstalledState::NotInstalled),
            self.state_may_be(bake_view_model, r, MAX_DEPTH),
    {
        self.is_installed_at(bake_view_model, MAX_DEPTH)
    }

    /// What the check can find: `Unknown` when the check commands do not
    /// read, else what their run ends with (see [state_after]).
    pub open spec fn state_may_be(&self, bvm: &BakeViewModel<C>, s: IsInstalledState, depth: u64) -> bool {
        match self.checks() {
            Err(_) => s == IsInstalledState::Unknown,
            Ok(cs) => exists|ran: Result<(), Seq<char>>|
                #[trigger] bvm.commands_may_end(cs, ran, depth) && s == state_after(ran),
        }
    }

    /// The check commands on the platform of the view model, or why they
    /// cannot be read.
    pub open spec fn checks(&self) -> Result<Seq<CommandView>, Seq<char>> {
        platform_commands(check_list(self.dependency_view(), self.platform()), self.platform())
    }

    pub(crate) fn is_installed_at(&self, bake_view_model: &BakeViewModel<C>, depth: u64) -> (r:
        IsInstalledState)
        ensures
            (forall|p: Platform| #[trigger]
                platform_commands(check_list(self.dependency_view(), p), p) is Err) ==> r
                == IsInstalledState::Unknown,
            trivially_checked(self.dependency_view()) ==> r == IsInstalledState::Installed,
            (r == IsInstalledState::Unknown) == (self.checks() is Err),
            depth > 0 ==> (self.checks() matches Ok(cs) ==> ((forall|i: int|
                0 <= i < cs.len() ==> bake_view_model.settled_command(#[trigger] cs[i])) ==> r
                == IsInstalledState::Installed)),
            depth > 0 ==> (self.checks() matches Ok(cs) ==> ((exists|k: int| bake_view_model.stops_at_stray(cs, k))
                ==> r == IsInstalledState::NotInstalled)),
            self.state_may_be(bake_view_model, r, depth),
        decreases depth, 3int,
    {
        let platform = self.platform;
        let checked = self.dependency.check(platform);
        proof {
            if trivially_checked(self.dependency_view()) {
                assert(check_list(self.dependency_view(), platform) == Some(Seq::<Seq<char>>::empty()));
                assert(parse_commands(Seq::<Seq<char>>::empty()) == Ok::<Seq<CommandView>, Seq<char>>(Seq::empty()));
                if checked is Ok {
                    assert(command_views(checked->Ok_0@).len() == checked->Ok_0@.len());
                }
            }
        }
        let commands = match checked {
            Ok(commands) => commands,
            Err(_) => {
                return IsInstalledState::Unknown;
            },
        };
        let ran = bake_view_model.run_commands_at(&commands, None, depth);
        let r = state_of(&ran);
        assert(bake_view_model.commands_may_end(command_views(commands@), result_view(ran), depth));
        r
    }

    /// There are installation commands or a link for the platform the
    /// capabilities reported.
    pub fn is_installable(&self) -> (r: bool)
        ensures
            r == installable(self.dependency_view(), self.platform()),
            self.host().platform_reply(self.platform()),
    {
        proof {
            use_type_invariant(self);
        }
        let p = self.platform;
        let r = self.dependency.installation_command(p).is_ok() || self.dependency.link(p).is_ok();
        assert(r == installable(self.dependency_view(), p));
        r
    }

    /// Installs the dependency unless it is installed: runs its installation
    /// commands, or opens its link, or offers a web search for it.
    pub fn try_install(&self, bake_view_model: &BakeViewModel<C>) -> (r: Result<(), String>)
        ensures
            (forall|p: Platform| !#[trigger] installable(self.dependency_view(), p)) ==> (r is Ok
                || crate::text::is_err_with(r, msg_not_installable(self.dependency_view().name))),
            trivially_checked(self.dependency_view()) ==> r is Ok,
            unchecked(self.dependency_view()) && (forall|p: Platform| !#[trigger] installable(self.dependency_view(), p))
                ==> crate::text::is_err_with(r, msg_not_installable(self.dependency_view().name)),
            self.install_may_end(bake_view_model, r, MAX_DEPTH),
    {
        self.try_install_at(bake_view_model, MAX_DEPTH)
    }

    /// What installing can end with: [install_result] of what the first
    /// check found, of how the installation commands ran (where the first
    /// check did not find the dependency installed) and of what the check
    /// after them found (where they succeeded).
    pub open spec fn install_may_end(&self, bvm: &BakeViewModel<C>, r: Result<(), String>, depth: u64) -> bool {
        exists|first: IsInstalledState, ran: Result<(), Seq<char>>, second: IsInstalledState|
            #![trigger install_result(self.dependency_view(), self.platform(), first, ran, second)]
            {
                &&& self.state_may_be(bvm, first, depth)
                &&& first != IsInstalledState::Installed ==> (platform_commands(
                    install_list(self.dependency_view(), self.platform()),
                    self.platform(),
                ) matches Ok(cs) ==> bvm.commands_may_end(cs, ran, depth))
                &&& first != IsInstalledState::Installed && ran is Ok ==> self.state_may_be(bvm, second, depth)
                &&& ends_as(r, install_result(self.dependency_view(), self.platform(), first, ran, second))
            }
    }

    pub(crate) fn try_install_at(&self, bake_view_model: &BakeViewModel<C>, depth: u64) -> (r: Result<
        (),
        String,
    >)
        ensures
            (forall|p: Platform| !#[trigger] installable(self.dependency_view(), p)) ==> (r is Ok
                || crate::text::is_err_with(r, msg_not_installable(self.dependency_view().name))),
            trivially_checked(self.dependency_view()) ==> r is Ok,
            unchecked(self.dependency_view()) && (forall|p: Platform| !#[trigger] installable(self.dependency_view(), p))
                ==> crate::text::is_err_with(r, msg_not_installable(self.dependency_view().name)),
            self.install_may_end(bake_view_model, r, depth),
        decreases depth, 4int,
    {
        let first = self.is_installed_at(bake_view_model, depth);
        if first == IsInstalledState::Installed {
            assert(ends_as(Ok(()), install_result(self.dependency_view(), self.platform(), first, Ok(()), first)));
            return Ok(());
        }
        let p = self.platform;
        if let Ok(commands) = self.dependency.installation_command(p) {
            assert(installable(self.dependency_view(), p));
            let ran = bake_view_model.run_commands_at(&commands, None, depth);
            // the check runs again only after the commands succeeded
            let second = if ran.is_ok() {
                self.is_installed_at(bake_view_model, depth)
            } else {
                first
            };
            let r = installation_outcome(self.name(), ran, second);
            assert(ends_as(r, install_result(self.dependency_view(), self.platform(), first, result_view(ran), second)));
            return r;
        }
        if let Ok(link) = self.dependency.link(p) {
            assert(installable(self.dependency_view(), p));
            self.capabilities.open_link(standard_link(link.as_str()).as_str());
            assert(ends_as(Ok(()), install_result(self.dependency_view(), self.platform(), first, Ok(()), first)));
            return Ok(());
        }
        let mut q = String::from_str("There is no installation command or link for '");
        q.append(self.dependency.name());
        q.append("' Do you want to search for it on google");
        // no answer counts as yes
        match self.capabilities.ask_user_yes_no(q.as_str()) {
            Some(false) => {},
            _ => {
                self.capabilities.open_link(
                    generate_installation_link(self.name(), p).as_str(),
                );
            },
        }
        let mut m = String::from_str(self.name());
        m.append(" is not installable");
        assert(ends_as(Err(m), install_result(self.dependency_view(), self.platform(), first, Ok(()), first)));
        Err(m)
    }
}

/// What the check finds once its commands ran with `ran`.
pub open spec fn state_after(ran: Result<(), Seq<char>>) -> IsInstalledState {
    match ran {
        Ok(()) => IsInstalledState::Installed,
        Err(_) => IsInstalledState::NotInstalled,
    }
}

/// What the check finds once its commands ran with `ran`.
pub fn state_of(ran: &Result<(), String>) -> (r: IsInstalledState)
    ensures
        r == state_after(result_view(*ran)),
{
    match ran {
        Ok(_) => IsInstalledState::Installed,
        Err(_) => IsInstalledState::NotInstalled,
    }
}

/// The message when the check after the installation commands does not find
/// the dependency installed.
pub open spec fn msg_double_check_failed(name: Seq<char>) -> Seq<char> {
    "'"@ + name + "' installation ends without error but double check after installation failed"@
}

/// What installing through commands ends with: their error, or else an error
/// when the check after them finds the dependency not installed.
pub open spec fn after_installation(name: Seq<char>, ran: Result<(), Seq<char>>, second: IsInstalledState) -> Result<(), Seq<char>> {
    match ran {
        Err(e) => Err(e),
        Ok(()) => if second == IsInstalledState::NotInstalled {
            Err(msg_double_check_failed(name))
        } else {
            Ok(())
        },
    }
}

/// What installing `d` on `p` ends with, given what the first check found,
/// how the installation commands ran and what the check after them found:
/// nothing to do when it was installed; else the commands' outcome where
/// there are commands, success after opening the link where there is one,
/// and otherwise the error that it is not installable.
pub open spec fn install_result(
    d: DependencyView,
    p: Platform,
    first: IsInstalledState,
    ran: Result<(), Seq<char>>,
    second: IsInstalledState,
) -> Result<(), Seq<char>> {
    if first == IsInstalledState::Installed {
        Ok(())
    } else if platform_commands(install_list(d, p), p) is Ok {
        after_installation(d.name, ran, second)
    } else if link_for(d, p) is Some {
        Ok(())
    } else {
        Err(msg_not_installable(d.name))
    }
}

/// What installing the dependency `name` through commands ends with, given
/// how they ran and what the check after them found (see
/// [after_installation]).
pub fn installation_outcome(name: &str, ran: Result<(), String>, second: IsInstalledState) -> (r: Result<(), String>)
    ensures
        ends_as(r, after_installation(name@, result_view(ran), second)),
{
    match ran {
        Err(e) => Err(e),
        Ok(()) => if second == IsInstalledState::NotInstalled {
            let mut m = String::from_str("'");
            m.append(name);
            m.append("' installation ends without error but double check after installation failed");
            Err(m)
        } else {
            Ok(())
        },
    }
}

/// A dependency whose check is an empty list of commands on every
/// platform: nothing has to run to find it installed.
pub open spec fn trivially_checked(d: DependencyView) -> bool {
    forall|p: Platform| #[trigger] check_list(d, p) == Some(Seq::<Seq<char>>::empty())
}

/// A dependency without a check for any platform: whether it is installed
/// stays unknown.
pub open spec fn unchecked(d: DependencyView) -> bool {
    forall|p: Platform| #[trigger] platform_commands(check_list(d, p), p) is Err
}

/// The message for a dependency with no way to install it.
pub open spec fn msg_not_installable(name: Seq<char>) -> Seq<char> {
    name + " is not installable"@
}

} // verus!
