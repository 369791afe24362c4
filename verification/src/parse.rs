//! Compose files: which containers a descriptor declares.

use crate::text::{lowercase, owned_text, parent_directory, path_file_name, path_parent};
use crate::text::to_lowercase;
use crate::yaml::{as_mapping, as_text, entries, error_message, member, parse_document};
use crate::yaml::{yaml_document, yaml_entries, yaml_mapping, yaml_member, yaml_text};
use vstd::prelude::*;
use vstd::string::StringExecFns;

verus! {

/// A container that a compose file declares.
#[derive(Debug, Clone, PartialEq, Eq)]
pub struct ContainerSpec {
    /// The container's name.
    pub name: String,
}

/// The names of `containers`, in order.
pub open spec fn container_names(containers: Seq<ContainerSpec>) -> Seq<Seq<char>> {
    Seq::new(containers.len(), |i: int| containers[i].name@)
}

/// What loading one compose file gave, as a mathematical value.
pub struct DescriptorModel {
    /// The compose file's path.
    pub path: Seq<char>,
    /// The names it declares, or `None` where it could not be loaded.
    pub containers: Option<Seq<Seq<char>>>,
}

/// What loading one compose file gave.
#[derive(Debug, Clone, PartialEq, Eq)]
pub struct Descriptor {
    /// The compose file's path.
    pub path: String,
    /// The containers it declares, in the file's order; `None` where the file
    /// is missing, unreadable or malformed.
    pub containers: Option<Vec<ContainerSpec>>,
}

impl View for Descriptor {
    type V = DescriptorModel;

    open spec fn view(&self) -> DescriptorModel {
        DescriptorModel {
            path: self.path@,
            containers: match self.containers {
                Some(containers) => Some(container_names(containers@)),
                None => None,
            },
        }
    }
}

/// The views of `descriptors`, in order.
pub open spec fn descriptor_views(descriptors: Seq<Descriptor>) -> Seq<DescriptorModel> {
    Seq::new(descriptors.len(), |i: int| descriptors[i]@)
}

/// One entry of a compose file's `services` section, as a mathematical
/// value.
pub struct ServiceModel {
    /// The service's name, where the entry's key is a string.
    pub service: Option<Seq<char>>,
    /// Its `restart` policy, where it names one as a string.
    pub restart: Option<Seq<char>>,
    /// Its `container_name`, where it names one as a string.
    pub container_name: Option<Seq<char>>,
}

/// One entry of a compose file's `services` section: what the library reads
/// of it.
#[derive(Debug, Clone, PartialEq, Eq)]
pub struct ServiceDeclaration {
    /// The service's name, where the entry's key is a string.
    pub service: Option<String>,
    /// Its `restart` policy, where it names one as a string.
    pub restart: Option<String>,
    /// Its `container_name`, where it names one as a string.
    pub container_name: Option<String>,
}

/// The view of a text that may be missing.
pub open spec fn optional_text(text: Option<String>) -> Option<Seq<char>> {
    match text {
        Some(given) => Some(given@),
        None => None,
    }
}

impl View for ServiceDeclaration {
    type V = ServiceModel;

    open spec fn view(&self) -> ServiceModel {
        ServiceModel {
            service: optional_text(self.service),
            restart: optional_text(self.restart),
            container_name: optional_text(self.container_name),
        }
    }
}

/// The views of `services`, in order.
pub open spec fn service_views(services: Seq<ServiceDeclaration>) -> Seq<ServiceModel> {
    Seq::new(services.len(), |i: int| services[i]@)
}

/// The string that `value` holds under `key`, if it holds one.
pub open spec fn text_member(value: serde_yml::Value, key: Seq<char>) -> Option<Seq<char>> {
    match yaml_member(value, key) {
        Some(inner) => yaml_text(inner),
        None => None,
    }
}

/// What the library reads of one entry of the `services` section.
pub open spec fn service_of(entry: (serde_yml::Value, serde_yml::Value)) -> ServiceModel {
    ServiceModel {
        service: yaml_text(entry.0),
        restart: text_member(entry.1, "restart"@),
        container_name: text_member(entry.1, "container_name"@),
    }
}

/// The entries of the `services` section of `document`, in the document's
/// order; none where `document` has no such section or it is no mapping.
pub open spec fn services_in(document: serde_yml::Value) -> Seq<ServiceModel> {
    match yaml_member(document, "services"@) {
        Some(section) => match yaml_mapping(section) {
            Some(mapping) => Seq::new(
                yaml_entries(mapping).len(),
                |i: int| service_of(yaml_entries(mapping)[i]),
            ),
            None => Seq::empty(),
        },
        None => Seq::empty(),
    }
}

/// The restart policy of `service`: the one it names, else `unless-stopped`.
pub open spec fn restart_policy(service: ServiceModel) -> Seq<char> {
    match service.restart {
        Some(policy) => policy,
        None => "unless-stopped"@,
    }
}

/// Whether `service` is supervised: every service is, but for one whose
/// restart policy is exactly `no`.
pub open spec fn supervised(service: ServiceModel) -> bool {
    restart_policy(service) != "no"@
}

/// The name that a container gets where its service names none and its
/// compose file lies in the directory named `directory`.
pub open spec fn default_name(directory: Seq<char>, service: Seq<char>) -> Seq<char> {
    lowercase(directory) + "_"@ + service + "_1"@
}

/// The name of the container of `service`: the declared one; else the
/// default name in `directory`; else, without a directory, the service's
/// own name.
pub open spec fn resolved_name(directory: Option<Seq<char>>, service: ServiceModel) -> Seq<
    char,
> {
    match service.container_name {
        Some(name) => name,
        None => match directory {
            Some(given) => default_name(given, service.service->0),
            None => service.service->0,
        },
    }
}

/// Whether every entry of `services` has a string for its key.
pub open spec fn all_named(services: Seq<ServiceModel>) -> bool {
    forall|i: int| 0 <= i < services.len() ==> (#[trigger] services[i]).service is Some
}

/// The container names of the supervised services among `services`, in
/// order.
pub open spec fn selected_names(directory: Option<Seq<char>>, services: Seq<ServiceModel>) -> Seq<
    Seq<char>,
>
    decreases services.len(),
{
    if services.len() == 0 {
        Seq::empty()
    } else {
        let earlier = selected_names(directory, services.drop_last());
        if supervised(services.last()) {
            earlier.push(resolved_name(directory, services.last()))
        } else {
            earlier
        }
    }
}

/// Whether the compose file at `file_path` with the text `content` declares
/// the containers `names`: the text is a YAML document, every entry of its
/// `services` section has a string for its name, and `names` are the
/// container names of the supervised services, in the file's order, for
/// the directory in which the file lies (or for none, where it lies in no
/// named directory).
pub open spec fn declares(file_path: Seq<char>, content: Seq<char>, names: Seq<Seq<char>>) -> bool {
    match yaml_document(content) {
        Some(document) => all_named(services_in(document)) && names == selected_names(
            parent_directory(file_path),
            services_in(document),
        ),
        None => false,
    }
}

/// Whether a compose file with the text `content` is a YAML document in
/// which an entry of the `services` section has a key that is no string.
pub open spec fn has_unnamed_service(content: Seq<char>) -> bool {
    match yaml_document(content) {
        Some(document) => !all_named(services_in(document)),
        None => false,
    }
}

/// Why a compose file does not yield its containers.
#[derive(Debug, Clone, PartialEq, Eq)]
pub enum ParseError {
    /// The text is not a YAML document; the parser's message.
    InvalidYaml(String),
    /// An entry of the `services` section has a key that is no string.
    ServiceNameNotString,
}

/// Reads compose files.
pub struct ComposeParser;

impl ComposeParser {
    /// The default container name of `service_name` in the directory named
    /// `directory`: the directory's name in lowercase, the service's name
    /// and `1`, joined by underscores.
    pub fn default_name_in(directory: &str, service_name: &str) -> (name: String)
        ensures
            name@ == default_name(directory@, service_name@),
    {
        let mut name = to_lowercase(directory);
        name.append("_");
        name.append(service_name);
        name.append("_1");
        name
    }

    /// The name of the directory in which `file_path` lies: the final
    /// component of the path's parent; `None` where the path has no parent
    /// or the parent has no final component.
    pub fn parent_directory_name(file_path: &str) -> (directory: Option<String>)
        ensures
            optional_text(directory) == parent_directory(file_path@),
    {
        match path_parent(file_path) {
            Some(parent) => path_file_name(parent.as_str()),
            None => None,
        }
    }

    /// The default container name of `service_name` declared in the compose
    /// file at `file_path`: the name of the directory in which the file
    /// lies, in lowercase, the service's name and `1`, joined by
    /// underscores; `None` where the file lies in no named directory.
    pub fn generate_default_name(file_path: &str, service_name: &str) -> (name: Option<String>)
        ensures
            optional_text(name) == default_name_at(file_path@, service_name@),
    {
        match Self::parent_directory_name(file_path) {
            Some(directory) => Some(Self::default_name_in(directory.as_str(), service_name)),
            None => None,
        }
    }

    /// What the library reads of the `services` section of `document`.
    pub fn declared_services(document: &serde_yml::Value) -> (services: Vec<ServiceDeclaration>)
        ensures
            service_views(services@) == services_in(*document),
    {
        let mut services: Vec<ServiceDeclaration> = Vec::new();
        match member(document, "services") {
            Some(section) => match as_mapping(section) {
                Some(mapping) => {
                    let pairs = entries(mapping);
                    let mut i: usize = 0;
                    while i < pairs.len()
                        invariant
                            i <= pairs.len(),
                            services.len() == i,
                            pairs@.len() == yaml_entries(*mapping).len(),
                            forall|k: int|
                                0 <= k < pairs@.len() ==> (*(#[trigger] pairs@[k]).0, *pairs@[k].1)
                                    == yaml_entries(*mapping)[k],
                            forall|k: int|
                                0 <= k < i ==> (#[trigger] services[k])@ == service_of(
                                    yaml_entries(*mapping)[k],
                                ),
                        decreases pairs.len() - i,
                    {
                        let key = pairs[i].0;
                        let value = pairs[i].1;
                        assert((*key, *value) == yaml_entries(*mapping)[i as int]);
                        let service = owned_text(as_text(key));
                        let restart = owned_text(Self::text_member(value, "restart"));
                        let container_name = owned_text(
                            Self::text_member(value, "container_name"),
                        );
                        services.push(ServiceDeclaration { service, restart, container_name });
                        i = i + 1;
                    }
                    assert(service_views(services@) =~= services_in(*document));
                },
                None => {
                    assert(service_views(services@) =~= services_in(*document));
                },
            },
            None => {
                assert(service_views(services@) =~= services_in(*document));
            },
        }
        services
    }

    /// The string that `value` holds under `key`, if it holds one.
    fn text_member<'a>(value: &'a serde_yml::Value, key: &str) -> (text: Option<&'a str>)
        ensures
            match text {
                Some(inner) => text_member(*value, key@) == Some(inner@),
                None => text_member(*value, key@) is None,
            },
    {
        match member(value, key) {
            Some(inner) => as_text(inner),
            None => None,
        }
    }

    /// The containers of the supervised services among `services`, in
    /// order, for a compose file that lies in the directory named
    /// `directory`. A service is left out only where its restart policy is
    /// `no`. An entry without a string for its name fails the whole file.
    pub fn select_containers(
        directory: Option<&str>,
        services: &Vec<ServiceDeclaration>,
    ) -> (result: Result<Vec<ContainerSpec>, ParseError>)
        ensures
            match result {
                Ok(containers) => all_named(service_views(services@)) && container_names(
                    containers@,
                ) == selected_names(
                    match directory {
                        Some(given) => Some(given@),
                        None => None,
                    },
                    service_views(services@),
                ),
                Err(error) => error is ServiceNameNotString && !all_named(
                    service_views(services@),
                ),
            },
    {
        let ghost place: Option<Seq<char>> = match directory {
            Some(given) => Some(given@),
            None => None,
        };
        let ghost all = service_views(services@);
        let unsupervised = String::from_str("no");
        let default_policy = String::from_str("unless-stopped");
        let mut containers: Vec<ContainerSpec> = Vec::new();
        let mut i: usize = 0;
        while i < services.len()
            invariant
                i <= services.len(),
                all == service_views(services@),
                unsupervised@ == "no"@,
                default_policy@ == "unless-stopped"@,
                place == (match directory {
                    Some(given) => Some(given@),
                    None => None,
                }),
                all_named(all.take(i as int)),
                container_names(containers@) =~= selected_names(place, all.take(i as int)),
            decreases services.len() - i,
        {
            let service = &services[i];
            proof {
                assert(all.take(i + 1).drop_last() =~= all.take(i as int));
                assert(all.take(i + 1).last() == service@);
            }
            let service_name: &String = match &service.service {
                Some(name) => name,
                None => {
                    assert(all[i as int].service is None);
                    return Err(ParseError::ServiceNameNotString);
                },
            };
            let policy: &String = match &service.restart {
                Some(declared) => declared,
                None => &default_policy,
            };
            if !(*policy == unsupervised) {
                let name = match &service.container_name {
                    Some(declared) => declared.clone(),
                    None => match directory {
                        Some(given) => Self::default_name_in(given, service_name.as_str()),
                        None => service_name.clone(),
                    },
                };
                containers.push(ContainerSpec { name });
            }
            proof {
                assert forall|k: int| 0 <= k < all.take(i + 1).len() implies (#[trigger] all.take(
                    i + 1,
                )[k]).service is Some by {
                    if k < i {
                        assert(all.take(i as int)[k] == all.take(i + 1)[k]);
                    }
                }
            }
            i = i + 1;
        }
        proof {
            assert(all.take(services.len() as int) =~= all);
        }
        Ok(containers)
    }

    /// The containers that a compose file with the text `content` declares
    /// where it lies in the directory named `directory`: see
    /// `select_containers`. The text must be a YAML document; one without a
    /// `services` mapping declares nothing.
    pub fn parse_in_directory(directory: Option<&str>, content: &str) -> (result: Result<
        Vec<ContainerSpec>,
        ParseError,
    >)
        ensures
            match result {
                Ok(containers) => yaml_document(content@) is Some && all_named(
                    services_in(yaml_document(content@)->0),
                ) && container_names(containers@) == selected_names(
                    match directory {
                        Some(given) => Some(given@),
                        None => None,
                    },
                    services_in(yaml_document(content@)->0),
                ),
                Err(ParseError::InvalidYaml(_)) => yaml_document(content@) is None,
                Err(ParseError::ServiceNameNotString) => has_unnamed_service(content@),
            },
    {
        let document = match parse_document(content) {
            Ok(document) => document,
            Err(error) => {
                return Err(ParseError::InvalidYaml(error_message(&error)));
            },
        };
        let services = Self::declared_services(&document);
        Self::select_containers(directory, &services)
    }

    /// The containers that the compose file at `file_path` with the text
    /// `content` declares: see `parse_in_directory`, for the directory in
    /// which the file lies.
    pub fn parse_containers(file_path: &str, content: &str) -> (result: Result<
        Vec<ContainerSpec>,
        ParseError,
    >)
        ensures
            match result {
                Ok(containers) => declares(
                    file_path@,
                    content@,
                    container_names(containers@),
                ),
                Err(ParseError::InvalidYaml(_)) => yaml_document(content@) is None,
                Err(ParseError::ServiceNameNotString) => has_unnamed_service(content@),
            },
    {
        let directory = Self::parent_directory_name(file_path);
        match &directory {
            Some(given) => Self::parse_in_directory(Some(given.as_str()), content),
            None => Self::parse_in_directory(None, content),
        }
    }
}

/// The default container name of `service` declared in the compose file at
/// `file_path`: `default_name` for the directory in which the file lies;
/// `None` where it lies in no named directory.
pub open spec fn default_name_at(file_path: Seq<char>, service: Seq<char>) -> Option<Seq<char>> {
    match parent_directory(file_path) {
        Some(directory) => Some(default_name(directory, service)),
        None => None,
    }
}

} // verus!
