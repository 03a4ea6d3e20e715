//! Which backend a service belongs to.
use crate::container::BackendError;
use crate::text;
use crate::text::concat3;
use crate::lists;
use vstd::prelude::*;

verus! {

/// The backends that services belong to.
#[derive(Debug, Clone, Copy, PartialEq, Eq, Structural)]
pub enum Owner {
    /// The container backend.
    Container,
    /// The backend of services that are driven by shell commands.
    Custom,
}

/// The backends of a project: containers, if it has any, and the services that
/// are driven by shell commands.
#[derive(Debug, PartialEq, Eq)]
pub struct ServiceRegistry {
    pub has_container: bool,
    /// The services of the custom backend; without any there is no such backend.
    pub custom_names: Vec<String>,
}

/// An action on services: who it goes to, with which names, and whether the custom
/// backend acts alongside without being followed.
#[derive(Debug, PartialEq, Eq)]
pub struct ActionPlan {
    pub owner: Owner,
    pub services: Vec<String>,
    pub custom_alongside: bool,
}

/// The names of a list that are custom, or those that are not, among the first
/// `n`.
pub open spec fn owned(
    services: Seq<Seq<char>>,
    custom: Seq<Seq<char>>,
    wanted: bool,
    n: nat,
) -> Seq<Seq<char>>
    decreases n,
{
    if n == 0 {
        seq![]
    } else {
        let before = owned(services, custom, wanted, (n - 1) as nat);
        if custom.contains(services[n - 1]) == wanted {
            before.push(services[n - 1])
        } else {
            before
        }
    }
}

/// What is said without a container backend.
pub open spec fn no_container() -> Seq<char> {
    "no container backend configured (set runtime.backend = \"compose\")"@
}

/// What is said to an action on services of both backends.
pub open spec fn mixed(action: Seq<char>, custom: nat, container: nat) -> Seq<char> {
    "mixed-backend action `"@ + action + "` ("@ + text::digits(custom) + " custom + "@
        + text::digits(container)
        + " container services); invoke per-service or use the project-wide action"@
}

/// Whether an error is a report of that text.
pub open spec fn reports(e: BackendError, message: Seq<char>) -> bool {
    e matches BackendError::Reported(m) && m@ == message
}

impl ServiceRegistry {
    /// The names of the custom services.
    pub open spec fn custom(&self) -> Seq<Seq<char>> {
        self.custom_names.deep_view()
    }

    /// The backend that a service belongs to: custom where it is declared as such,
    /// else the container backend, if there is one.
    pub open spec fn owner_of(&self, service: Seq<char>) -> Option<Owner> {
        if self.custom().contains(service) {
            Some(Owner::Custom)
        } else if self.has_container {
            Some(Owner::Container)
        } else {
            None
        }
    }

    /// The registry of a project.
    pub fn new(has_container: bool, custom: Option<Vec<String>>) -> (res: Self)
        ensures
            res.has_container == has_container,
            res.custom_names@ == match custom {
                Some(names) => names@,
                None => seq![],
            },
    {
        ServiceRegistry {
            has_container,
            custom_names: match custom {
                Some(names) => names,
                None => Vec::new(),
            },
        }
    }

    fn is_custom(&self, service: &str) -> (res: bool)
        ensures
            res == self.custom().contains(service@),
    {
        let ghost all = self.custom();
        let mut i: usize = 0;
        while i < self.custom_names.len()
            invariant
                i <= self.custom_names@.len(),
                all == self.custom_names.deep_view(),
                forall|k: int| 0 <= k < i ==> #[trigger] all[k] != service@,
            decreases self.custom_names@.len() - i,
        {
            assert(all[i as int] == self.custom_names@[i as int]@);
            if *self.custom_names[i].as_str() == *service {
                assert(all.contains(all[i as int]));
                return true;
            }
            i += 1;
        }
        false
    }

    /// The backend that a service belongs to.
    pub fn route(&self, service: &str) -> (res: Option<Owner>)
        ensures
            res == self.owner_of(service@),
    {
        if self.is_custom(service) {
            return Some(Owner::Custom);
        }
        if self.has_container {
            Some(Owner::Container)
        } else {
            None
        }
    }

    /// Fails without a container backend.
    pub fn require_container(&self) -> (res: Result<(), BackendError>)
        ensures
            match res {
                Ok(_) => self.has_container,
                Err(e) => !self.has_container && reports(e, no_container()),
            },
    {
        if self.has_container {
            Ok(())
        } else {
            Err(
                BackendError::Reported(
                    "no container backend configured (set runtime.backend = \"compose\")".to_owned(),
                ),
            )
        }
    }

    /// The backend that runs commands in a service or follows its log; fails where
    /// there is none.
    pub fn exec_route(&self, service: &str) -> (res: Result<Owner, BackendError>)
        ensures
            match res {
                Ok(o) => self.owner_of(service@) == Some(o),
                Err(e) => self.owner_of(service@) is None && reports(e, no_container()),
            },
    {
        match self.route(service) {
            Some(o) => Ok(o),
            None => match self.require_container() {
                Ok(_) => Ok(Owner::Container),
                Err(e) => Err(e),
            },
        }
    }

    fn split(&self, services: &Vec<String>, wanted: bool) -> (res: Vec<String>)
        ensures
            res.deep_view() == owned(
                services.deep_view(),
                self.custom(),
                wanted,
                services@.len(),
            ),
    {
        let ghost all = services.deep_view();
        let ghost custom = self.custom();
        let mut out: Vec<String> = Vec::new();
        let mut i: usize = 0;
        assert(out.deep_view() =~= owned(all, custom, wanted, 0));
        while i < services.len()
            invariant
                i <= services@.len(),
                all == services.deep_view(),
                custom == self.custom(),
                out.deep_view() == owned(all, custom, wanted, i as nat),
            decreases services@.len() - i,
        {
            let ghost before = out.deep_view();
            assert(all[i as int] == services@[i as int]@);
            if self.is_custom(services[i].as_str()) == wanted {
                out.push(services[i].clone());
                assert(out.deep_view() =~= before.push(all[i as int]));
            }
            i += 1;
        }
        out
    }

    /// Where an action on named services goes: to the one backend that they all
    /// belong to. Services of both are refused.
    pub fn dispatch_targeted(&self, action: &str, services: &Vec<String>) -> (res: Result<
        ActionPlan,
        BackendError,
    >)
        ensures
            ({
                let all = services.deep_view();
                let custom = owned(all, self.custom(), true, all.len());
                let others = owned(all, self.custom(), false, all.len());
                match res {
                    Ok(plan) => !plan.custom_alongside && if custom.len() > 0 {
                        others.len() == 0 && plan.owner == Owner::Custom
                            && plan.services.deep_view() == custom
                    } else {
                        self.has_container && plan.owner == Owner::Container
                            && plan.services.deep_view() == others
                    },
                    Err(e) => if custom.len() > 0 && others.len() > 0 {
                        reports(e, mixed(action@, custom.len(), others.len()))
                    } else {
                        custom.len() == 0 && !self.has_container && reports(e, no_container())
                    },
                }
            }),
    {
        let custom = self.split(services, true);
        let others = self.split(services, false);
        assert(services.deep_view().len() == services@.len());
        assert(custom@.len() == custom.deep_view().len());
        assert(others@.len() == others.deep_view().len());
        if custom.len() > 0 && others.len() > 0 {
            let c = text::decimal(custom.len() as u64);
            let o = text::decimal(others.len() as u64);
            let head = concat3("mixed-backend action `", action, "` (");
            let mid = concat3(head.as_str(), c.as_str(), " custom + ");
            let message = concat3(
                mid.as_str(),
                o.as_str(),
                " container services); invoke per-service or use the project-wide action",
            );
            return Err(BackendError::Reported(message));
        }
        if custom.len() > 0 {
            return Ok(
                ActionPlan { owner: Owner::Custom, services: custom, custom_alongside: false },
            );
        }
        match self.require_container() {
            Ok(_) => Ok(
                ActionPlan { owner: Owner::Container, services: others, custom_alongside: false },
            ),
            Err(e) => Err(e),
        }
    }

    /// Where an action on the whole project goes: to the container backend, the
    /// custom one alongside, or to the only one that there is.
    pub fn dispatch_all(&self) -> (res: Result<ActionPlan, BackendError>)
        ensures
            match res {
                Ok(plan) => plan.services@.len() == 0 && if self.has_container {
                    plan.owner == Owner::Container && plan.custom_alongside == (
                    self.custom_names@.len() > 0)
                } else {
                    self.custom_names@.len() > 0 && plan.owner == Owner::Custom
                        && !plan.custom_alongside
                },
                Err(e) => !self.has_container && self.custom_names@.len() == 0 && reports(
                    e,
                    "no backends configured for service action"@,
                ),
            },
    {
        let has_custom = self.custom_names.len() > 0;
        if self.has_container {
            Ok(
                ActionPlan {
                    owner: Owner::Container,
                    services: Vec::new(),
                    custom_alongside: has_custom,
                },
            )
        } else if has_custom {
            Ok(
                ActionPlan {
                    owner: Owner::Custom,
                    services: Vec::new(),
                    custom_alongside: false,
                },
            )
        } else {
            Err(
                BackendError::Reported("no backends configured for service action".to_owned()),
            )
        }
    }

    /// Every service: those of the container backend, then the custom ones.
    pub fn list_services(&self, container: Vec<String>, custom: Vec<String>) -> (res: Vec<String>)
        ensures
            res@ == (if self.has_container {
                container@
            } else {
                seq![]
            }) + (if self.custom_names@.len() > 0 {
                custom@
            } else {
                seq![]
            }),
    {
        let mut out: Vec<String> = if self.has_container {
            container
        } else {
            Vec::new()
        };
        if self.custom_names.len() > 0 {
            let mut more = custom;
            out.append(&mut more);
        }
        out
    }
}

/// A declared custom service always goes to the custom backend, whatever else the
/// project has; any other goes to the container backend or nowhere.
pub proof fn law_routing(registry: ServiceRegistry, service: Seq<char>)
    ensures
        registry.owner_of(service) == Some(Owner::Custom) <==> registry.custom().contains(service),
        !registry.custom().contains(service) ==> (registry.owner_of(service) is Some
            <==> registry.has_container),
{
}

/// Splitting services by backend loses none: each goes to exactly one side.
pub proof fn law_split_is_complete(services: Seq<Seq<char>>, custom: Seq<Seq<char>>, n: nat)
    requires
        n <= services.len(),
    ensures
        owned(services, custom, true, n).len() + owned(services, custom, false, n).len() == n,
    decreases n,
{
    if n > 0 {
        law_split_is_complete(services, custom, (n - 1) as nat);
    }
}

/// The services of an action that go to a backend are those of the list that are
/// declared custom, or those that are not, all of them and in order.
pub proof fn law_actions_go_to_every_service_of_a_backend(
    services: Seq<Seq<char>>,
    custom: Seq<Seq<char>>,
    wanted: bool,
)
    ensures
        lists::selects(
            owned(services, custom, wanted, services.len()),
            |i: int| services[i],
            |i: int| custom.contains(services[i]) == wanted,
            services.len(),
        ),
{
    lemma_owned(services, custom, wanted, services.len());
}

proof fn lemma_owned(services: Seq<Seq<char>>, custom: Seq<Seq<char>>, wanted: bool, n: nat)
    requires
        n <= services.len(),
    ensures
        lists::selects(
            owned(services, custom, wanted, n),
            |i: int| services[i],
            |i: int| custom.contains(services[i]) == wanted,
            n,
        ),
    decreases n,
{
    let value = |i: int| services[i];
    let keep = |i: int| custom.contains(services[i]) == wanted;
    if n == 0 {
        lists::lemma_selects_none(value, keep);
    } else {
        let m = (n - 1) as nat;
        lemma_owned(services, custom, wanted, m);
        lists::lemma_selects_next(owned(services, custom, wanted, m), value, keep, m);
    }
}

/// A service is custom exactly where it is declared as such; any other belongs to the
/// container backend, if the project has one.
pub proof fn law_declared_services_are_custom(registry: ServiceRegistry, service: Seq<char>)
    ensures
        ({
            let declared = exists|i: int|
                0 <= i < registry.custom_names@.len() && (#[trigger] registry.custom_names@[i])@
                    == service;
            &&& declared ==> registry.owner_of(service) == Some(Owner::Custom)
            &&& !declared && registry.has_container ==> registry.owner_of(service) == Some(
                Owner::Container,
            )
            &&& !declared && !registry.has_container ==> registry.owner_of(service) is None
        }),
{
    let names = registry.custom_names;
    if exists|i: int| 0 <= i < names@.len() && (#[trigger] names@[i])@ == service {
        let i = choose|i: int| 0 <= i < names@.len() && (#[trigger] names@[i])@ == service;
        assert(names.deep_view()[i] == service);
    }
    if names.deep_view().contains(service) {
        let i = names.deep_view().index_of(service);
        assert(names@[i]@ == service);
    }
}

/// An action on services of both backends is refused with the action and both numbers.
pub proof fn law_mixed_actions_are_refused_with_their_numbers(
    action: Seq<char>,
    custom: nat,
    container: nat,
    e: BackendError,
)
    ensures
        mixed(action, custom, container) == "mixed-backend action `"@ + action + "` ("@
            + text::digits(custom) + " custom + "@ + text::digits(container)
            + " container services); invoke per-service or use the project-wide action"@,
        reports(e, no_container()) <==> (e matches BackendError::Reported(m) && m@
            == "no container backend configured (set runtime.backend = \"compose\")"@),
{
}

} // verus!
