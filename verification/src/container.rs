//! The manager of the containers of one configuration.

use crate::config::{ContainerComposeConfig, Service};
use crate::error::{ComposeError, Failure, RuntimeAction};
use crate::name_map::NameMap;
use crate::order::{graph_of, has_cycle, is_start_order, on_cycle, start_order};
use crate::runtime::{
    exec_arguments, exec_command, logs_arguments, logs_command, started_container, Invocation,
};
use crate::status::{
    container_details, details_of, listing_failure, service_containers, services_shown,
};
use crate::stop::StopOutcome;
use crate::text::{has_name, texts, trimmed};
use crate::volume::{
    bind_source, container_part, host_part, is_anonymous, named_volume_directory,
    named_volume_path, optional_text, options_suffix, plan_mount, resolution_text,
    resolve_volume, volume_directories, MountPlan,
};
use vstd::prelude::*;

verus! {

/// The state of a container that the manager knows of.
#[derive(Debug, Clone, Copy, PartialEq, Eq, Structural)]
pub enum ContainerStatus {
    Running,
}

/// What the manager knows of the container of a service.
#[derive(Debug, Clone, PartialEq, Eq)]
pub struct Container {
    pub status: ContainerStatus,
    /// The identifier that the runtime gave the container.
    pub container_id: Option<String>,
}

/// Starts, stops and inspects the services of a configuration. It decides;
/// the caller carries out what it decides and brings back what came of it.
#[derive(Debug)]
pub struct ContainerManager {
    containers: NameMap<Container>,
    config: ContainerComposeConfig,
}

impl ContainerManager {
    /// The configuration that the manager works on.
    pub closed spec fn configuration(&self) -> ContainerComposeConfig {
        self.config
    }

    /// The containers that the manager has started, by service.
    pub closed spec fn records(&self) -> NameMap<Container> {
        self.containers
    }

    /// A manager of `config` that has started nothing yet.
    pub fn new(config: ContainerComposeConfig) -> (m: Self)
        ensures
            m.configuration() == config,
            m.records().names().len() == 0,
    {
        Self { containers: NameMap::new(), config }
    }

    /// The configuration that the manager works on.
    pub fn config(&self) -> (c: &ContainerComposeConfig)
        ensures
            *c == self.configuration(),
    {
        &self.config
    }

    /// The container that the manager has recorded for `service_name`.
    pub fn container(&self, service_name: &str) -> (r: Option<&Container>)
        ensures
            r == match self.records().lookup(service_name@) {
                Some(c) => Some(&c),
                None => None,
            },
    {
        self.containers.get(service_name)
    }

    /// Whether `volume_name` is a named volume of the configuration.
    pub fn is_named_volume(&self, volume_name: &str) -> (b: bool)
        ensures
            b == self.configuration().volumes.contains(volume_name@),
    {
        self.config.volumes.contains_key(volume_name)
    }

    /// The directory on the host that is kept for the named volume
    /// `volume_name`, with `home` the home directory if one is known.
    pub fn get_named_volume_path(&self, volume_name: &str, home: Option<&str>) -> (r: Result<
        String,
        ComposeError,
    >)
        ensures
            resolution_text(r) == (match home {
                Some(h) => Ok(named_volume_path(h@, volume_name@)),
                None => Err(Failure::HomeDirectoryUnresolvable),
            }),
    {
        named_volume_directory(home, volume_name)
    }

    /// The directories that have to exist before any service starts: one
    /// for each named volume, in the order of their declaration.
    pub fn initialize_volumes(&self, home: Option<&str>) -> (r: Result<Vec<String>, ComposeError>)
        ensures
            r is Ok <==> self.configuration().volumes.names().len() == 0 || home is Some,
            r matches Err(e) ==> e@ == Failure::HomeDirectoryUnresolvable,
            r matches Ok(dirs) ==> {
                &&& dirs@.len() == self.configuration().volumes.names().len()
                &&& forall|i: int|
                    0 <= i < dirs@.len() ==> (#[trigger] dirs@[i])@ == named_volume_path(
                        home.unwrap()@,
                        self.configuration().volumes.names()[i],
                    )
            },
    {
        volume_directories(&self.config.volumes, home)
    }

    /// Resolves a volume of a service as far as it goes without the file
    /// system, with `cwd` the current directory and `home` the home
    /// directory if one is known.
    ///
    /// It fails for a volume without `:`, and for a named volume where no
    /// home directory is known. The plan that comes back says whether the
    /// file system is to be asked, and gives the mount argument once it
    /// has been.
    pub fn process_volume_mount(&self, volume: &str, cwd: &str, home: Option<&str>) -> (r: Result<
        MountPlan,
        ComposeError,
    >)
        ensures
            r is Ok <==> !is_anonymous(volume@) && (self.configuration().volumes.contains(
                host_part(volume@),
            ) ==> home is Some),
            match r {
                Ok(plan) => {
                    &&& plan.kind is Named <==> self.configuration().volumes.contains(
                        host_part(volume@),
                    )
                    &&& plan.declared@ == host_part(volume@)
                    &&& plan.host_path@ == (if self.configuration().volumes.contains(
                        host_part(volume@),
                    ) {
                        named_volume_path(home.unwrap()@, host_part(volume@))
                    } else {
                        bind_source(host_part(volume@), cwd@)
                    })
                    &&& plan.container_path@ == container_part(volume@)
                    &&& plan.options@ == options_suffix(volume@)
                    &&& forall|present: bool|
                        #[trigger] plan.outcome(present) == resolve_volume(
                            volume@,
                            self.configuration().volumes.names(),
                            cwd@,
                            optional_text(home),
                            present,
                        )
                },
                Err(e) => forall|present: bool|
                    #[trigger] resolve_volume(
                        volume@,
                        self.configuration().volumes.names(),
                        cwd@,
                        optional_text(home),
                        present,
                    ) == Err::<Seq<char>, Failure>(e@),
            },
    {
        plan_mount(volume, &self.config.volumes, cwd, home)
    }

    /// An order in which the services can start, every service after all
    /// that it depends on; the report of a service that depends on itself
    /// where there is one, and only then.
    pub fn get_start_order(&self) -> (r: Result<Vec<String>, ComposeError>)
        ensures
            match r {
                Ok(order) => is_start_order(
                    graph_of(self.configuration().services),
                    texts(order@),
                ),
                Err(e) => exists|name: Seq<char>|
                    e@ == (Failure::CircularDependency { service: name }) && on_cycle(
                        graph_of(self.configuration().services),
                        name,
                    ),
            },
            r is Ok <==> !has_cycle(graph_of(self.configuration().services)),
    {
        start_order(&self.config.services)
    }

    /// Whether the manager or the runtime has the service as running:
    /// there is a record of it, or `reported` names it.
    pub open spec fn counts_as_running(&self, name: Seq<char>, reported: Seq<Seq<char>>) -> bool {
        self.records().contains(name) || reported.contains(name)
    }

    /// What starting all services begins with: the directories to make for
    /// the named volumes, and then the order in which to start the
    /// services, or the report of a service that depends on itself. It
    /// fails where there are named volumes and no home directory is known.
    pub fn up(&self, home: Option<&str>) -> (r: Result<UpPlan, ComposeError>)
        ensures
            r is Ok <==> self.configuration().volumes.names().len() == 0 || home is Some,
            r matches Err(e) ==> e@ == Failure::HomeDirectoryUnresolvable,
            r matches Ok(plan) ==> {
                &&& plan.directories@.len() == self.configuration().volumes.names().len()
                &&& forall|i: int|
                    0 <= i < plan.directories@.len() ==> (#[trigger] plan.directories@[i])@
                        == named_volume_path(
                        home.unwrap()@,
                        self.configuration().volumes.names()[i],
                    )
                &&& plan.order is Ok <==> !has_cycle(graph_of(self.configuration().services))
                &&& match plan.order {
                    Ok(order) => is_start_order(
                        graph_of(self.configuration().services),
                        texts(order@),
                    ),
                    Err(e) => exists|name: Seq<char>|
                        e@ == (Failure::CircularDependency { service: name }) && on_cycle(
                            graph_of(self.configuration().services),
                            name,
                        ),
                }
            },
    {
        match self.initialize_volumes(home) {
            Ok(directories) => Ok(UpPlan { directories, order: self.get_start_order() }),
            Err(e) => Err(e),
        }
    }

    /// What to do for the service `service_name` when its turn to start
    /// has come, with `reported` the services that the runtime lists as
    /// running. A name that is no service is a failure. A service that
    /// counts as running is left alone; any other is to be launched.
    pub fn start_service(&self, service_name: &str, reported: &Vec<String>) -> (r: Result<
        StartStep,
        ComposeError,
    >)
        ensures
            match r {
                Ok(step) => {
                    &&& self.configuration().services.contains(service_name@)
                    &&& step == (if self.counts_as_running(service_name@, texts(reported@)) {
                        StartStep::AlreadyRunning
                    } else {
                        StartStep::Launch
                    })
                },
                Err(e) => {
                    &&& !self.configuration().services.contains(service_name@)
                    &&& e@ == (Failure::ServiceNotFound { service: service_name@ })
                },
            },
    {
        if !self.config.services.contains_key(service_name) {
            return Err(ComposeError::ServiceNotFound { service: service_name.to_owned() });
        }
        if self.containers.contains_key(service_name) || has_name(reported, service_name) {
            Ok(StartStep::AlreadyRunning)
        } else {
            Ok(StartStep::Launch)
        }
    }

    /// Takes the answer to the run of `service_name`. Where the run
    /// succeeded, the container is recorded as running under the
    /// identifier that the runtime printed, and the identifier is
    /// returned. A run that failed leaves no record.
    pub fn finish_start(&mut self, service_name: &str, answer: &Invocation) -> (r: Result<
        String,
        ComposeError,
    >)
        ensures
            final(self).configuration() == old(self).configuration(),
            (match r {
                Ok(id) => Ok(id@),
                Err(e) => Err(e@),
            }) == (match answer.checked(RuntimeAction::Run, service_name@) {
                Ok(out) => Ok(trimmed(out)),
                Err(f) => Err(f),
            }),
            r is Err ==> final(self).records() == old(self).records(),
            r matches Ok(id) ==> {
                &&& final(self).records().lookup(service_name@) matches Some(c)
                &&& c.status is Running
                &&& c.container_id matches Some(recorded)
                &&& recorded@ == id@
                &&& forall|other: Seq<char>|
                    other != service_name@ ==> #[trigger] final(self).records().lookup(other)
                        == old(self).records().lookup(other)
            },
    {
        let id = match started_container(service_name, answer) {
            Ok(id) => id,
            Err(e) => {
                return Err(e);
            },
        };
        let container = Container {
            status: ContainerStatus::Running,
            container_id: Some(id.clone()),
        };
        self.containers.insert(service_name.to_owned(), container);
        Ok(id)
    }

    /// Takes the end of the stop protocol for `service_name`. A container
    /// that was stopped, or that the runtime does not know, has no record
    /// any more; one that could not be stopped keeps its record.
    pub fn finish_stop(&mut self, service_name: &str, outcome: StopOutcome)
        ensures
            final(self).configuration() == old(self).configuration(),
            outcome is FailedToStop ==> final(self).records() == old(self).records(),
            !(outcome is FailedToStop) ==> {
                &&& final(self).records().lookup(service_name@) is None
                &&& forall|other: Seq<char>|
                    other != service_name@ ==> #[trigger] final(self).records().lookup(other)
                        == old(self).records().lookup(other)
            },
    {
        match outcome {
            StopOutcome::FailedToStop => {},
            _ => {
                self.containers.remove(service_name);
            },
        }
    }

    /// The services to stop, from the answer to a listing of all
    /// containers: those that the listing shows, and the order in which to
    /// stop them, which is the reverse of the order of their declaration.
    /// Where the listing shows none there is nothing to stop.
    pub fn down(&self, answer: &Invocation) -> (r: Result<DownPlan, ComposeError>)
        ensures
            match r {
                Ok(plan) => {
                    &&& listing_failure(*answer) is None
                    &&& texts(plan.existing@) == services_shown(
                        *answer,
                        self.configuration().services.names(),
                    )
                    &&& texts(plan.order@) == stop_order(
                        self.configuration().services.names(),
                        texts(plan.existing@),
                    )
                },
                Err(e) => listing_failure(*answer) == Some(e@),
            },
    {
        let existing = match service_containers(answer, &self.config.services) {
            Ok(found) => found,
            Err(e) => {
                return Err(e);
            },
        };
        let order = reverse_existing(&self.config.services, &existing);
        Ok(DownPlan { existing, order })
    }

    /// The arguments that show the output of the container of
    /// `service_name`, and with `follow` go on showing it. It fails for a
    /// service without a record, and for one whose record has no
    /// identifier.
    pub fn logs(&self, service_name: &str, follow: bool) -> (r: Result<Vec<String>, ComposeError>)
        ensures
            (match r {
                Ok(args) => Ok(texts(args@)),
                Err(e) => Err(e@),
            }) == logs_request(self.records().lookup(service_name@), service_name@, follow),
    {
        logs_of(self.containers.get(service_name), service_name, follow)
    }

    /// The images to fetch, each with its service: the image of
    /// `service_name` where one is given, which has to be a service, and
    /// else those of all services in the order of their declaration.
    pub fn pull(&self, service_name: Option<&str>) -> (r: Result<Vec<PullItem>, ComposeError>)
        ensures
            match service_name {
                Some(name) => match self.configuration().services.lookup(name@) {
                    Some(service) => {
                        &&& r matches Ok(items)
                        &&& items@.len() == 1
                        &&& items@[0].service@ == name@
                        &&& items@[0].image@ == service.image@
                    },
                    None => r matches Err(e) && e@ == (Failure::ServiceNotFound { service: name@ }),
                },
                None => {
                    &&& r matches Ok(items)
                    &&& items@.len() == self.configuration().services.names().len()
                    &&& forall|i: int|
                        0 <= i < items@.len() ==> (#[trigger] items@[i]).service@
                            == self.configuration().services.names()[i] && items@[i].image@
                            == self.configuration().services.values()[i].image@
                },
            },
    {
        let mut items: Vec<PullItem> = Vec::new();
        match service_name {
            Some(name) => match self.config.services.get(name) {
                Some(service) => {
                    items.push(PullItem { service: name.to_owned(), image: service.image.clone() });
                    Ok(items)
                },
                None => Err(ComposeError::ServiceNotFound { service: name.to_owned() }),
            },
            None => {
                let n = self.config.services.len();
                let mut i: usize = 0;
                while i < n
                    invariant
                        n == self.config.services.names().len(),
                        n == self.config.services.values().len(),
                        i <= n,
                        items@.len() == i,
                        forall|j: int|
                            0 <= j < i ==> (#[trigger] items@[j]).service@
                                == self.config.services.names()[j] && items@[j].image@
                                == self.config.services.values()[j].image@,
                    decreases n - i,
                {
                    items.push(
                        PullItem {
                            service: self.config.services.name_at(i).clone(),
                            image: self.config.services.value_at(i).image.clone(),
                        },
                    );
                    i += 1;
                }
                Ok(items)
            },
        }
    }

    /// One row for each service, in the order of their declaration, from
    /// the answers to a listing of all containers and to one of the
    /// running ones. A service that the first does not show is not
    /// created, and its row has the image of the configuration. Of the
    /// others, those that the second shows are running and the rest are
    /// stopped; their rows have what the first listing says of them.
    pub fn ps(&self, all: &Invocation, running: &Invocation) -> (r: Result<
        Vec<StatusRow>,
        ComposeError,
    >)
        ensures
            match r {
                Ok(rows) => {
                    &&& listing_failure(*all) is None
                    &&& listing_failure(*running) is None
                    &&& rows@.len() == self.configuration().services.names().len()
                    &&& forall|i: int|
                        0 <= i < rows@.len() ==> self.is_row_of(#[trigger] rows@[i], i, *all, *running)
                },
                Err(e) => if listing_failure(*all) is Some {
                    listing_failure(*all) == Some(e@)
                } else {
                    listing_failure(*running) == Some(e@)
                },
            },
    {
        let existing = match service_containers(all, &self.config.services) {
            Ok(found) => found,
            Err(e) => {
                return Err(e);
            },
        };
        let started = match service_containers(running, &self.config.services) {
            Ok(found) => found,
            Err(e) => {
                return Err(e);
            },
        };
        let n = self.config.services.len();
        let mut rows: Vec<StatusRow> = Vec::new();
        let mut i: usize = 0;
        while i < n
            invariant
                n == self.config.services.names().len(),
                n == self.config.services.values().len(),
                self.config == self.configuration(),
                i <= n,
                rows@.len() == i,
                texts(existing@) == services_shown(*all, self.config.services.names()),
                texts(started@) == services_shown(*running, self.config.services.names()),
                forall|j: int| 0 <= j < i ==> self.is_row_of(#[trigger] rows@[j], j, *all, *running),
            decreases n - i,
        {
            let name = self.config.services.name_at(i);
            let row = if has_name(&existing, name.as_str()) {
                let status = if has_name(&started, name.as_str()) {
                    ServiceStatus::Running
                } else {
                    ServiceStatus::Stopped
                };
                let details = container_details(all, &self.config.services, name.as_str());
                StatusRow {
                    service: name.clone(),
                    status,
                    container_id: details.0,
                    image: details.1,
                }
            } else {
                StatusRow {
                    service: name.clone(),
                    status: ServiceStatus::NotCreated,
                    container_id: "N/A".to_owned(),
                    image: self.config.services.value_at(i).image.clone(),
                }
            };
            rows.push(row);
            i += 1;
        }
        Ok(rows)
    }

    /// Whether `row` is the row of the service at position `i`, given the
    /// answers to the two listings.
    pub open spec fn is_row_of(
        &self,
        row: StatusRow,
        i: int,
        all: Invocation,
        running: Invocation,
    ) -> bool {
        let services = self.configuration().services;
        let name = services.names()[i];
        &&& row.service@ == name
        &&& if services_shown(all, services.names()).contains(name) {
            &&& row.status == (if services_shown(running, services.names()).contains(name) {
                ServiceStatus::Running
            } else {
                ServiceStatus::Stopped
            })
            &&& (row.container_id@, row.image@) == details_of(all, services, name)
        } else {
            &&& row.status == ServiceStatus::NotCreated
            &&& row.container_id@ == "N/A"@
            &&& row.image@ == services.values()[i].image@
        }
    }

    /// The arguments that run `command` in the container of
    /// `service_name`, which has to be a service.
    pub fn exec(&self, service_name: &str, command: &Vec<String>) -> (r: Result<
        Vec<String>,
        ComposeError,
    >)
        ensures
            match r {
                Ok(args) => {
                    &&& self.configuration().services.contains(service_name@)
                    &&& texts(args@) == exec_command(service_name@, texts(command@))
                },
                Err(e) => {
                    &&& !self.configuration().services.contains(service_name@)
                    &&& e@ == (Failure::ServiceNotFound { service: service_name@ })
                },
            },
    {
        if !self.config.services.contains_key(service_name) {
            return Err(ComposeError::ServiceNotFound { service: service_name.to_owned() });
        }
        Ok(exec_arguments(service_name, command))
    }
}

/// What starting all services begins with.
#[derive(Debug, PartialEq, Eq)]
pub struct UpPlan {
    /// The directories of the named volumes, to be made where they are
    /// missing.
    pub directories: Vec<String>,
    /// The services in the order in which to start them, once the
    /// directories are there; the failure where no such order exists.
    pub order: Result<Vec<String>, ComposeError>,
}

/// What to do for a service whose turn to start has come.
#[derive(Debug, Clone, Copy, PartialEq, Eq, Structural)]
pub enum StartStep {
    /// The service runs already: say so, and do nothing.
    AlreadyRunning,
    /// Resolve the volumes of the service and run it.
    Launch,
}

/// What stopping all services begins with.
#[derive(Debug, Clone, PartialEq, Eq)]
pub struct DownPlan {
    /// The services that the runtime has a container of, as listed.
    pub existing: Vec<String>,
    /// The services in the order in which to stop them.
    pub order: Vec<String>,
}

/// An image to fetch.
#[derive(Debug, Clone, PartialEq, Eq)]
pub struct PullItem {
    pub service: String,
    pub image: String,
}

/// Whether a service has a container, and whether that runs.
#[derive(Debug, Clone, Copy, PartialEq, Eq, Structural)]
pub enum ServiceStatus {
    NotCreated,
    Running,
    Stopped,
}

/// What is shown of one service.
#[derive(Debug, Clone, PartialEq, Eq)]
pub struct StatusRow {
    pub service: String,
    pub status: ServiceStatus,
    pub container_id: String,
    pub image: String,
}

/// What showing the output of the service `name` comes to, with `record`
/// what is known of its container: the arguments for the runtime, or the
/// failure where there is no record, or one without an identifier.
pub open spec fn logs_request(record: Option<Container>, name: Seq<char>, follow: bool) -> Result<
    Seq<Seq<char>>,
    Failure,
> {
    match record {
        None => Err(Failure::ServiceNotFound { service: name }),
        Some(container) => match container.container_id {
            None => Err(Failure::ServiceNotRunning { service: name }),
            Some(id) => Ok(logs_command(id@, follow)),
        },
    }
}

/// The arguments that show the output of the container of `service_name`,
/// with `record` what is known of that container.
pub fn logs_of(record: Option<&Container>, service_name: &str, follow: bool) -> (r: Result<
    Vec<String>,
    ComposeError,
>)
    ensures
        (match r {
            Ok(args) => Ok(texts(args@)),
            Err(e) => Err(e@),
        }) == logs_request(
            match record {
                Some(c) => Some(*c),
                None => None,
            },
            service_name@,
            follow,
        ),
{
    match record {
        None => Err(ComposeError::ServiceNotFound { service: service_name.to_owned() }),
        Some(container) => match &container.container_id {
            None => Err(ComposeError::ServiceNotRunning { service: service_name.to_owned() }),
            Some(id) => Ok(logs_arguments(id.as_str(), follow)),
        },
    }
}

/// The test that the names of `existing` pass.
pub open spec fn is_among(existing: Seq<Seq<char>>) -> spec_fn(Seq<char>) -> bool {
    |name: Seq<char>| existing.contains(name)
}

/// The order in which to stop the services `existing`: the reverse of the
/// declaration order `declared`, without the services that have no
/// container.
pub open spec fn stop_order(declared: Seq<Seq<char>>, existing: Seq<Seq<char>>) -> Seq<Seq<char>> {
    declared.reverse().filter(is_among(existing))
}

/// The services of `services` that `existing` names, last declared first.
pub fn reverse_existing(services: &NameMap<Service>, existing: &Vec<String>) -> (order: Vec<String>)
    ensures
        texts(order@) == stop_order(services.names(), texts(existing@)),
{
    let n = services.len();
    let ghost backwards = services.names().reverse();
    let ghost keep = is_among(texts(existing@));
    let mut order: Vec<String> = Vec::new();
    let mut done: usize = 0;
    proof {
        assert(backwards.take(0) =~= Seq::<Seq<char>>::empty());
        assert(texts(order@) =~= Seq::<Seq<char>>::empty());
    }
    while done < n
        invariant
            n == services.names().len(),
            backwards == services.names().reverse(),
            keep == is_among(texts(existing@)),
            done <= n,
            texts(order@) == backwards.take(done as int).filter(keep),
        decreases n - done,
    {
        let name = services.name_at(n - 1 - done);
        proof {
            assert(backwards[done as int] == name@);
            assert(backwards.take(done + 1) =~= backwards.take(done as int).push(name@));
            backwards.take(done as int).lemma_filter_push(name@, keep);
        }
        if has_name(existing, name.as_str()) {
            let copy = name.clone();
            assert(texts(order@.push(copy)) =~= texts(order@).push(name@));
            order.push(copy);
        }
        done += 1;
    }
    assert(backwards.take(n as int) =~= backwards);
    order
}

} // verus!
