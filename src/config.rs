//! Turning the fields of a configuration entry into services and groups.
use vstd::prelude::*;
use vstd::string::*;
use crate::service::{Service, ServiceGroup, ServiceType, lower_of, parse_service_type, service_type_spec, unknown_type_message};
use crate::text::decimal_text;
use crate::text::decimal;

verus! {

/// Why a configuration entry does not describe a service.
pub enum ConfigError {
    /// A required field is absent: its name.
    MissingField(String),
    /// The type field names no service type: the message.
    UnknownType(String),
    /// The port is not a number from 0 to 65535: the number given.
    PortOutOfRange(i64),
}

/// A group of the configuration as read: its title and its list of entries,
/// each absent or present.
pub struct GroupFields {
    pub title: Option<String>,
    pub services: Option<Vec<ServiceFields>>,
}

/// The fields of a configuration entry as read, each absent or present.
pub struct ServiceFields {
    pub name: Option<String>,
    pub svc_type: Option<String>,
    pub host: Option<String>,
    pub port: Option<i64>,
    pub ssl: Option<bool>,
}

/// The configured port, if any, is a valid port number.
pub open spec fn port_in_range(p: Option<i64>) -> bool {
    p matches Some(n) ==> 0 <= n <= 65535
}

/// `port` is the configured number `p`, or absent as `p` is.
pub open spec fn same_port(port: Option<u16>, p: Option<i64>) -> bool {
    match (port, p) {
        (Some(a), Some(b)) => a as int == b as int,
        (None, None) => true,
        _ => false,
    }
}

impl ConfigError {
    pub open spec fn missing(&self, field: Seq<char>) -> bool {
        self matches ConfigError::MissingField(f) && f@ == field
    }
}

/// The fields `f` describe a service: name, type and host present, the type
/// known, the port (if any) a valid port number, and a port for a port check.
pub open spec fn fields_valid(f: ServiceFields) -> bool {
    f.name is Some && f.svc_type is Some && f.host is Some && port_in_range(f.port)
        && match service_type_spec(lower_of(f.svc_type->0@)) {
            None => false,
            Some(ty) => !(ty == ServiceType::Port && f.port is None),
        }
}

/// `r` is what the fields `f` call for: the first of these faults that occurs
/// (no name, no type, no host, an unknown type, a port out of range, a port
/// check without a port), else the service, not yet checked, with `ssl` true
/// unless given.
pub open spec fn fields_result(f: ServiceFields, r: Result<Service, ConfigError>) -> bool {
    if f.name is None {
        r matches Err(e) && e.missing("name"@)
    } else if f.svc_type is None {
        r matches Err(e) && e.missing("type"@)
    } else if f.host is None {
        r matches Err(e) && e.missing("host"@)
    } else {
        match service_type_spec(lower_of(f.svc_type->0@)) {
            None => (r matches Err(ConfigError::UnknownType(m)) && m@ == unknown_type_message(
                lower_of(f.svc_type->0@),
            )),
            Some(ty) => if !port_in_range(f.port) {
                (r matches Err(ConfigError::PortOutOfRange(n)) && f.port == Some(n))
            } else if ty == ServiceType::Port && f.port is None {
                (r matches Err(e) && e.missing("port"@))
            } else {
                (r matches Ok(s) && s.name == f.name->0 && s.svc_type == ty && s.host == f.host->0 && !s.up
                    && same_port(s.port, f.port) && s.ssl == match f.ssl {
                    Some(b) => b,
                    None => true,
                })
            },
        }
    }
}

/// The service that `f` describes, or the first fault in it.
pub fn service_from_fields(f: ServiceFields) -> (r: Result<Service, ConfigError>)
    ensures
        fields_result(f, r),
        r is Ok <==> fields_valid(f),
{
    let name = match f.name {
        Some(n) => n,
        None => return Err(ConfigError::MissingField(String::from_str("name"))),
    };
    let type_text = match f.svc_type {
        Some(t) => t,
        None => return Err(ConfigError::MissingField(String::from_str("type"))),
    };
    let host = match f.host {
        Some(h) => h,
        None => return Err(ConfigError::MissingField(String::from_str("host"))),
    };
    let svc_type = match parse_service_type(type_text.as_str()) {
        Ok(t) => t,
        Err(m) => return Err(ConfigError::UnknownType(m)),
    };
    let port = match f.port {
        Some(n) => {
            if n < 0 || n > 65535 {
                return Err(ConfigError::PortOutOfRange(n));
            }
            Some(n as u16)
        },
        None => None,
    };
    let ssl = match f.ssl {
        Some(b) => b,
        None => true,
    };
    match Service::new(name, svc_type, host, port, ssl) {
        Some(s) => Ok(s),
        None => Err(ConfigError::MissingField(String::from_str("port"))),
    }
}

/// The group that holds services listed without a group.
pub fn untitled_group(services: Vec<Service>) -> (r: ServiceGroup)
    ensures
        r.title@ == "Services"@,
        r.services == services,
{
    ServiceGroup { title: String::from_str("Services"), services }
}

/// Every entry of `fs` describes a service.
pub open spec fn entries_valid(fs: Seq<ServiceFields>) -> bool {
    forall|j: int| 0 <= j < fs.len() ==> fields_valid(#[trigger] fs[j])
}

/// Some entry of `fs` fails with `e`.
pub open spec fn entry_fails(fs: Seq<ServiceFields>, e: ConfigError) -> bool {
    exists|j: int| 0 <= j < fs.len() && fields_result(#[trigger] fs[j], Err(e))
}

/// `v` holds, in order, the services that the entries `fs` describe.
pub open spec fn services_from(v: Seq<Service>, fs: Seq<ServiceFields>) -> bool {
    v.len() == fs.len() && forall|j: int| 0 <= j < fs.len() ==> fields_result(#[trigger] fs[j], Ok(v[j]))
}

/// A group is valid: it has a title, and each of its entries (if it lists any)
/// describes a service.
pub open spec fn group_valid(g: GroupFields) -> bool {
    g.title is Some && (g.services matches Some(fs) ==> entries_valid(fs@))
}

/// `g` is the group that `f` describes.
pub open spec fn group_from(g: ServiceGroup, f: GroupFields) -> bool {
    f.title == Some(g.title) && match f.services {
        Some(fs) => services_from(g.services@, fs@),
        None => false,
    }
}

/// Some entry that the group `g` lists fails with `e`.
pub open spec fn group_entry_fails(g: GroupFields, e: ConfigError) -> bool {
    match g.services {
        Some(fs) => entry_fails(fs@, e),
        None => false,
    }
}

/// The groups that list entries, in order (a group without a list is left out).
pub open spec fn listed(groups: Seq<GroupFields>) -> Seq<GroupFields>
    decreases groups.len(),
{
    if groups.len() == 0 {
        Seq::empty()
    } else if groups.last().services is Some {
        listed(groups.drop_last()).push(groups.last())
    } else {
        listed(groups.drop_last())
    }
}

/// The services of `fs`, or the fault of the first entry that has one.
pub fn services_from_fields(fs: Vec<ServiceFields>) -> (r: Result<Vec<Service>, ConfigError>)
    ensures
        r is Ok <==> entries_valid(fs@),
        r matches Ok(v) ==> services_from(v@, fs@),
        r matches Err(e) ==> entry_fails(fs@, e),
{
    let ghost all = fs@;
    let n = fs.len();
    let mut rest = fs;
    let mut out: Vec<Service> = Vec::new();
    let mut k: usize = 0;
    while rest.len() > 0
        invariant
            k + rest@.len() == all.len(),
            all.len() == n,
            all == fs@,
            rest@ == all.subrange(k as int, all.len() as int),
            services_from(out@, all.subrange(0, k as int)),
            entries_valid(all.subrange(0, k as int)),
        decreases rest.len(),
    {
        let f = rest.remove(0);
        assert(f == all[k as int]);
        match service_from_fields(f) {
            Ok(s) => {
                out.push(s);
                proof {
                    let pre = all.subrange(0, k + 1);
                    assert forall|j: int| 0 <= j < pre.len() implies fields_result(#[trigger] pre[j], Ok(out@[j])) by {
                        if j < k {
                            assert(pre[j] == all.subrange(0, k as int)[j]);
                        }
                    }
                    assert forall|j: int| 0 <= j < pre.len() implies fields_valid(#[trigger] pre[j]) by {
                        if j < k {
                            assert(pre[j] == all.subrange(0, k as int)[j]);
                        }
                    }
                }
                k += 1;
            },
            Err(e) => {
                assert(fields_result(all[k as int], Err(e)));
                assert(!fields_valid(all[k as int]));
                assert(!entries_valid(all));
                return Err(e);
            },
        }
    }
    assert(all.subrange(0, k as int) =~= all);
    Ok(out)
}

/// The configured groups: each group that lists entries, in order, then (when
/// `untitled` is given) the group `Services` of the entries listed without a
/// group. Every group needs a title and every entry must describe a service;
/// otherwise the first fault is returned.
pub fn groups_from_config(groups: Vec<GroupFields>, untitled: Option<Vec<ServiceFields>>) -> (r: Result<
    Vec<ServiceGroup>,
    ConfigError,
>)
    ensures
        r is Ok <==> (forall|i: int| 0 <= i < groups@.len() ==> group_valid(#[trigger] groups@[i])) && (
        untitled matches Some(u) ==> entries_valid(u@)),
        r matches Ok(gs) ==> {
            let l = listed(groups@);
            &&& gs.len() == l.len() + if untitled is Some { 1int } else { 0int }
            &&& forall|i: int| 0 <= i < l.len() ==> group_from(#[trigger] gs@[i], l[i])
            &&& untitled matches Some(u) ==> gs@[l.len() as int].title@ == "Services"@ && services_from(
                gs@[l.len() as int].services@,
                u@,
            )
        },
        r matches Err(e) ==> (exists|i: int| 0 <= i < groups@.len() && (#[trigger] groups@[i]).title is None
            && e.missing("title"@)) || (exists|i: int|
            0 <= i < groups@.len() && group_entry_fails(#[trigger] groups@[i], e)) || (
        untitled matches Some(u) && entry_fails(u@, e)),
{
    let ghost all = groups@;
    let n = groups.len();
    let mut rest = groups;
    let mut out: Vec<ServiceGroup> = Vec::new();
    let mut k: usize = 0;
    while rest.len() > 0
        invariant
            k + rest@.len() == all.len(),
            all.len() == n,
            all == groups@,
            rest@ == all.subrange(k as int, all.len() as int),
            out@.len() == listed(all.subrange(0, k as int)).len(),
            forall|i: int| 0 <= i < out@.len() ==> group_from(#[trigger] out@[i], listed(all.subrange(0, k as int))[i]),
            forall|i: int| 0 <= i < k ==> group_valid(#[trigger] all[i]),
        decreases rest.len(),
    {
        let g = rest.remove(0);
        assert(g == all[k as int]);
        let ghost before = listed(all.subrange(0, k as int));
        assert(all.subrange(0, k + 1).drop_last() =~= all.subrange(0, k as int));
        let title = match g.title {
            Some(t) => t,
            None => {
                assert(all[k as int].title is None);
                assert(!group_valid(all[k as int]));
                return Err(ConfigError::MissingField(String::from_str("title")));
            },
        };
        match g.services {
            Some(fs) => {
                let ghost fs_view = fs@;
                match services_from_fields(fs) {
                    Ok(v) => {
                        out.push(ServiceGroup { title, services: v });
                        assert(listed(all.subrange(0, k + 1)) == before.push(all[k as int]));
                        assert forall|i: int| 0 <= i < out@.len() implies group_from(
                            #[trigger] out@[i],
                            listed(all.subrange(0, k + 1))[i],
                        ) by {
                            if i < before.len() {
                                assert(listed(all.subrange(0, k + 1))[i] == before[i]);
                            }
                        }
                    },
                    Err(e) => {
                        assert(group_entry_fails(all[k as int], e));
                        assert(!entries_valid(fs_view));
                        assert(!group_valid(all[k as int]));
                        return Err(e);
                    },
                }
            },
            None => {
                assert(listed(all.subrange(0, k + 1)) == before);
            },
        }
        k += 1;
    }
    assert(all.subrange(0, k as int) =~= all);
    match untitled {
        Some(u) => {
            match services_from_fields(u) {
                Ok(v) => {
                    let ghost n = out@.len();
                    out.push(untitled_group(v));
                    assert forall|i: int| 0 <= i < n implies group_from(#[trigger] out@[i], listed(all)[i]) by {
                        assert(out@[i] == out@.drop_last()[i]);
                    }
                    Ok(out)
                },
                Err(e) => Err(e),
            }
        },
        None => Ok(out),
    }
}

/// The line that reports one check of `host` (with `port` for a port check).
pub open spec fn report_spec(host: Seq<char>, port: Option<u16>, up: bool) -> Seq<char> {
    let target = match port {
        Some(p) => host + ":"@ + decimal(p as nat),
        None => host,
    };
    target + if up { " is up"@ } else { " is down"@ }
}

/// The line that reports one check of `host` (with `port` for a port check).
pub fn report_line(host: &str, port: Option<u16>, up: bool) -> (r: String)
    ensures
        r@ == report_spec(host@, port, up),
{
    let mut r = String::from_str(host);
    match port {
        Some(p) => {
            r.append(":");
            let d = decimal_text(p as usize);
            r.append(d.as_str());
        },
        None => {},
    }
    if up {
        r.append(" is up");
    } else {
        r.append(" is down");
    }
    r
}

} // verus!
