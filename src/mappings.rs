//! The table that tells, for each recognised flag, how its values are read and
//! where in the service document they land.
use vstd::prelude::*;

use crate::text::{chars_of, eq_chars, key_index, lemma_key_absent, lemma_key_index};

pub use crate::builder::parse_key_value_list;
pub use crate::text::strip_quotes;

verus! {

/// How the values of a flag are read.
#[derive(Debug, Clone, Copy, PartialEq, Eq, Structural)]
pub enum ArgType {
    Array,
    Ulimits,
    Switch,
    Value,
    IntValue,
    /// A finite decimal number (optional sign, digits with at most one `.`,
    /// optional exponent) that `serde_yaml::Number` also reads: `0x10`, `.inf`,
    /// `.nan`, `inf` and integers with leading zeros such as `01` are refused.
    /// The value is written as `serde_yaml` reads the text, so `2` stays `2`.
    FloatValue,
    DeviceBlockIOConfigRate,
    DeviceBlockIOConfigWeight,
    Networks,
    MapArray,
    KeyValues,
    Envs,
    Gpus,
}

/// A flag's value kind and its slot path: segments separated by `/`, where the
/// segment `{network}` stands for the network the service is attached to.
/// An empty path means the flag has no effect on the document.
#[derive(Debug, Clone)]
pub struct Mapping {
    pub arg_type: ArgType,
    pub path: String,
}

impl Mapping {
    pub fn new(arg_type: ArgType, path: &str) -> (r: Self)
        ensures
            r.arg_type == arg_type,
            r.path@ == path@,
    {
        Self { arg_type, path: String::from_str(path) }
    }
}

/// The table's entries: flag name, value kind and slot path, in order. The
/// long names come first; the one-letter aliases follow, each an exact copy of
/// its long form's entry.
pub open spec fn table() -> Seq<(Seq<char>, (ArgType, Seq<char>))> {
    table_part_0() + table_part_1() + table_part_2() + table_part_3() + table_part_4()
}
pub open spec fn table_part_0() -> Seq<(Seq<char>, (ArgType, Seq<char>))> {
    seq![
        ("add-host"@, (ArgType::Array, "extra_hosts"@)),
        ("blkio-weight"@, (ArgType::IntValue, "blkio_config/weight"@)),
        ("blkio-weight-device"@, (ArgType::DeviceBlockIOConfigWeight, "blkio_config/weight_device"@)),
        ("cap-add"@, (ArgType::Array, "cap_add"@)),
        ("cap-drop"@, (ArgType::Array, "cap_drop"@)),
        ("cgroup-parent"@, (ArgType::Value, "cgroup_parent"@)),
        ("cgroupns"@, (ArgType::Value, "cgroup"@)),
        ("cpu-period"@, (ArgType::Value, "cpu_period"@)),
        ("cpu-quota"@, (ArgType::Value, "cpu_quota"@)),
        ("cpu-rt-period"@, (ArgType::Value, "cpu_rt_period"@)),
        ("cpu-rt-runtime"@, (ArgType::Value, "cpu_rt_runtime"@)),
        ("cpu-shares"@, (ArgType::IntValue, "cpu_shares"@)),
        ("cpus"@, (ArgType::FloatValue, "deploy/resources/limits/cpus"@)),
        ("detached"@, (ArgType::Switch, ""@)),
        ("device-cgroup-rule"@, (ArgType::Array, "device_cgroup_rules"@)),
        ("device-read-bps"@, (ArgType::DeviceBlockIOConfigRate, "blkio_config/device_read_bps"@)),
        ("device-read-iops"@, (ArgType::DeviceBlockIOConfigRate, "blkio_config/device_read_iops"@)),
        ("device-write-bps"@, (ArgType::DeviceBlockIOConfigRate, "blkio_config/device_write_bps"@)),
        ("device-write-iops"@, (ArgType::DeviceBlockIOConfigRate, "blkio_config/device_write_iops"@)),
        ("device"@, (ArgType::Array, "devices"@)),
    ]
}
pub open spec fn table_part_1() -> Seq<(Seq<char>, (ArgType, Seq<char>))> {
    seq![
        ("dns-opt"@, (ArgType::Array, "dns_opt"@)),
        ("dns-search"@, (ArgType::Array, "dns_search"@)),
        ("dns"@, (ArgType::Array, "dns"@)),
        ("domainname"@, (ArgType::Value, "domainname"@)),
        ("entrypoint"@, (ArgType::Array, "entrypoint"@)),
        ("env-file"@, (ArgType::Array, "env_file"@)),
        ("env"@, (ArgType::Envs, "environment"@)),
        ("expose"@, (ArgType::Array, "expose"@)),
        ("gpus"@, (ArgType::Gpus, "deploy"@)),
        ("group-add"@, (ArgType::Array, "group_add"@)),
        ("health-cmd"@, (ArgType::Value, "healthcheck/test"@)),
        ("health-interval"@, (ArgType::Value, "healthcheck/interval"@)),
        ("health-retries"@, (ArgType::IntValue, "healthcheck/retries"@)),
        ("health-start-period"@, (ArgType::Value, "healthcheck/start_period"@)),
        ("health-timeout"@, (ArgType::Value, "healthcheck/timeout"@)),
        ("hostname"@, (ArgType::Value, "hostname"@)),
        ("init"@, (ArgType::Switch, "init"@)),
        ("interactive"@, (ArgType::Switch, "stdin_open"@)),
        ("ip6"@, (ArgType::Value, "networks/{network}/ipv6_address"@)),
        ("ip"@, (ArgType::Value, "networks/{network}/ipv4_address"@)),
    ]
}
pub open spec fn table_part_2() -> Seq<(Seq<char>, (ArgType, Seq<char>))> {
    seq![
        ("ipc"@, (ArgType::Value, "ipc"@)),
        ("isolation"@, (ArgType::Value, "isolation"@)),
        ("label"@, (ArgType::Array, "labels"@)),
        ("link-local-ip"@, (ArgType::Array, "networks/{network}/link_local_ips"@)),
        ("link"@, (ArgType::Array, "links"@)),
        ("log-driver"@, (ArgType::Value, "logging/driver"@)),
        ("log-opt"@, (ArgType::KeyValues, "logging/options"@)),
        ("mac-address"@, (ArgType::Value, "mac_address"@)),
        ("memory-reservation"@, (ArgType::Value, "deploy/resources/reservations/memory"@)),
        ("memory-swap"@, (ArgType::Value, "memswap_limit"@)),
        ("memory-swappiness"@, (ArgType::Value, "mem_swappiness"@)),
        ("memory"@, (ArgType::Value, "deploy/resources/limits/memory"@)),
        ("mount"@, (ArgType::MapArray, "volumes"@)),
        ("name"@, (ArgType::Value, "container_name"@)),
        ("net"@, (ArgType::Networks, "network_mode"@)),
        ("network-alias"@, (ArgType::Array, "networks/{network}/aliases"@)),
        ("network"@, (ArgType::Networks, "network_mode"@)),
        ("no-healthcheck"@, (ArgType::Switch, "healthcheck/disable"@)),
        ("oom-kill-disable"@, (ArgType::Switch, "oom_kill_disable"@)),
        ("oom-score-adj"@, (ArgType::Value, "oom_score_adj"@)),
    ]
}
pub open spec fn table_part_3() -> Seq<(Seq<char>, (ArgType, Seq<char>))> {
    seq![
        ("pid"@, (ArgType::Value, "pid"@)),
        ("pids-limit"@, (ArgType::IntValue, "deploy/resources/limits/pids"@)),
        ("platform"@, (ArgType::Value, "platform"@)),
        ("privileged"@, (ArgType::Switch, "privileged"@)),
        ("publish"@, (ArgType::Array, "ports"@)),
        ("pull"@, (ArgType::Value, "pull_policy"@)),
        ("read-only"@, (ArgType::Switch, "read_only"@)),
        ("restart"@, (ArgType::Value, "restart"@)),
        ("rm"@, (ArgType::Switch, ""@)),
        ("runtime"@, (ArgType::Value, "runtime"@)),
        ("security-opt"@, (ArgType::Array, "security_opt"@)),
        ("shm-size"@, (ArgType::Value, "shm_size"@)),
        ("stop-signal"@, (ArgType::Value, "stop_signal"@)),
        ("stop-timeout"@, (ArgType::Value, "stop_grace_period"@)),
        ("storage-opt"@, (ArgType::KeyValues, "storage_opt"@)),
        ("sysctl"@, (ArgType::Array, "sysctls"@)),
        ("tmpfs"@, (ArgType::Array, "tmpfs"@)),
        ("tty"@, (ArgType::Switch, "tty"@)),
        ("ulimit"@, (ArgType::Ulimits, "ulimits"@)),
        ("user"@, (ArgType::Value, "user"@)),
    ]
}
pub open spec fn table_part_4() -> Seq<(Seq<char>, (ArgType, Seq<char>))> {
    seq![
        ("userns"@, (ArgType::Value, "userns_mode"@)),
        ("uts"@, (ArgType::Value, "uts"@)),
        ("volume"@, (ArgType::Array, "volumes"@)),
        ("volumes-from"@, (ArgType::Array, "volumes_from"@)),
        ("workdir"@, (ArgType::Value, "working_dir"@)),
        ("v"@, (ArgType::Array, "volumes"@)),
        ("p"@, (ArgType::Array, "ports"@)),
        ("e"@, (ArgType::Envs, "environment"@)),
        ("l"@, (ArgType::Array, "labels"@)),
        ("h"@, (ArgType::Value, "hostname"@)),
        ("u"@, (ArgType::Value, "user"@)),
        ("w"@, (ArgType::Value, "working_dir"@)),
        ("c"@, (ArgType::IntValue, "cpu_shares"@)),
        ("t"@, (ArgType::Switch, "tty"@)),
        ("i"@, (ArgType::Switch, "stdin_open"@)),
        ("m"@, (ArgType::Value, "deploy/resources/limits/memory"@)),
        ("d"@, (ArgType::Switch, ""@)),
    ]
}
/// The entry of a flag name: the first entry of the table under that name.
pub open spec fn mapping_entry(flag: Seq<char>) -> Option<(ArgType, Seq<char>)> {
    let j = key_index(table(), flag);
    if 0 <= j < table().len() {
        Some(table()[j].1)
    } else {
        None
    }
}

pub open spec fn table_view(v: Seq<(String, Mapping)>) -> Seq<(Seq<char>, (ArgType, Seq<char>))> {
    v.map_values(|e: (String, Mapping)| (e.0@, (e.1.arg_type, e.1.path@)))
}

pub open spec fn is_switch(flag: Seq<char>) -> bool {
    match mapping_entry(flag) {
        Some(e) => e.0 == ArgType::Switch,
        None => false,
    }
}

pub open spec fn mapping_matches(r: Option<Mapping>, e: Option<(ArgType, Seq<char>)>) -> bool {
    match (r, e) {
        (Some(m), Some(e)) => m.arg_type == e.0 && m.path@ == e.1,
        (None, None) => true,
        _ => false,
    }
}

#[verifier::rlimit(50)]
fn push_table_part_0(r: &mut Vec<(String, Mapping)>)
    ensures
        table_view(final(r)@) == table_view(old(r)@) + table_part_0(),
{
    r.push((String::from_str("add-host"), Mapping::new(ArgType::Array, "extra_hosts")));
    r.push((String::from_str("blkio-weight"), Mapping::new(ArgType::IntValue, "blkio_config/weight")));
    r.push((String::from_str("blkio-weight-device"), Mapping::new(ArgType::DeviceBlockIOConfigWeight, "blkio_config/weight_device")));
    r.push((String::from_str("cap-add"), Mapping::new(ArgType::Array, "cap_add")));
    r.push((String::from_str("cap-drop"), Mapping::new(ArgType::Array, "cap_drop")));
    r.push((String::from_str("cgroup-parent"), Mapping::new(ArgType::Value, "cgroup_parent")));
    r.push((String::from_str("cgroupns"), Mapping::new(ArgType::Value, "cgroup")));
    r.push((String::from_str("cpu-period"), Mapping::new(ArgType::Value, "cpu_period")));
    r.push((String::from_str("cpu-quota"), Mapping::new(ArgType::Value, "cpu_quota")));
    r.push((String::from_str("cpu-rt-period"), Mapping::new(ArgType::Value, "cpu_rt_period")));
    r.push((String::from_str("cpu-rt-runtime"), Mapping::new(ArgType::Value, "cpu_rt_runtime")));
    r.push((String::from_str("cpu-shares"), Mapping::new(ArgType::IntValue, "cpu_shares")));
    r.push((String::from_str("cpus"), Mapping::new(ArgType::FloatValue, "deploy/resources/limits/cpus")));
    r.push((String::from_str("detached"), Mapping::new(ArgType::Switch, "")));
    r.push((String::from_str("device-cgroup-rule"), Mapping::new(ArgType::Array, "device_cgroup_rules")));
    r.push((String::from_str("device-read-bps"), Mapping::new(ArgType::DeviceBlockIOConfigRate, "blkio_config/device_read_bps")));
    r.push((String::from_str("device-read-iops"), Mapping::new(ArgType::DeviceBlockIOConfigRate, "blkio_config/device_read_iops")));
    r.push((String::from_str("device-write-bps"), Mapping::new(ArgType::DeviceBlockIOConfigRate, "blkio_config/device_write_bps")));
    r.push((String::from_str("device-write-iops"), Mapping::new(ArgType::DeviceBlockIOConfigRate, "blkio_config/device_write_iops")));
    r.push((String::from_str("device"), Mapping::new(ArgType::Array, "devices")));
    assert(table_view(r@) =~= table_view(old(r)@) + table_part_0());
}
#[verifier::rlimit(50)]
fn push_table_part_1(r: &mut Vec<(String, Mapping)>)
    ensures
        table_view(final(r)@) == table_view(old(r)@) + table_part_1(),
{
    r.push((String::from_str("dns-opt"), Mapping::new(ArgType::Array, "dns_opt")));
    r.push((String::from_str("dns-search"), Mapping::new(ArgType::Array, "dns_search")));
    r.push((String::from_str("dns"), Mapping::new(ArgType::Array, "dns")));
    r.push((String::from_str("domainname"), Mapping::new(ArgType::Value, "domainname")));
    r.push((String::from_str("entrypoint"), Mapping::new(ArgType::Array, "entrypoint")));
    r.push((String::from_str("env-file"), Mapping::new(ArgType::Array, "env_file")));
    r.push((String::from_str("env"), Mapping::new(ArgType::Envs, "environment")));
    r.push((String::from_str("expose"), Mapping::new(ArgType::Array, "expose")));
    r.push((String::from_str("gpus"), Mapping::new(ArgType::Gpus, "deploy")));
    r.push((String::from_str("group-add"), Mapping::new(ArgType::Array, "group_add")));
    r.push((String::from_str("health-cmd"), Mapping::new(ArgType::Value, "healthcheck/test")));
    r.push((String::from_str("health-interval"), Mapping::new(ArgType::Value, "healthcheck/interval")));
    r.push((String::from_str("health-retries"), Mapping::new(ArgType::IntValue, "healthcheck/retries")));
    r.push((String::from_str("health-start-period"), Mapping::new(ArgType::Value, "healthcheck/start_period")));
    r.push((String::from_str("health-timeout"), Mapping::new(ArgType::Value, "healthcheck/timeout")));
    r.push((String::from_str("hostname"), Mapping::new(ArgType::Value, "hostname")));
    r.push((String::from_str("init"), Mapping::new(ArgType::Switch, "init")));
    r.push((String::from_str("interactive"), Mapping::new(ArgType::Switch, "stdin_open")));
    r.push((String::from_str("ip6"), Mapping::new(ArgType::Value, "networks/{network}/ipv6_address")));
    r.push((String::from_str("ip"), Mapping::new(ArgType::Value, "networks/{network}/ipv4_address")));
    assert(table_view(r@) =~= table_view(old(r)@) + table_part_1());
}
#[verifier::rlimit(50)]
fn push_table_part_2(r: &mut Vec<(String, Mapping)>)
    ensures
        table_view(final(r)@) == table_view(old(r)@) + table_part_2(),
{
    r.push((String::from_str("ipc"), Mapping::new(ArgType::Value, "ipc")));
    r.push((String::from_str("isolation"), Mapping::new(ArgType::Value, "isolation")));
    r.push((String::from_str("label"), Mapping::new(ArgType::Array, "labels")));
    r.push((String::from_str("link-local-ip"), Mapping::new(ArgType::Array, "networks/{network}/link_local_ips")));
    r.push((String::from_str("link"), Mapping::new(ArgType::Array, "links")));
    r.push((String::from_str("log-driver"), Mapping::new(ArgType::Value, "logging/driver")));
    r.push((String::from_str("log-opt"), Mapping::new(ArgType::KeyValues, "logging/options")));
    r.push((String::from_str("mac-address"), Mapping::new(ArgType::Value, "mac_address")));
    r.push((String::from_str("memory-reservation"), Mapping::new(ArgType::Value, "deploy/resources/reservations/memory")));
    r.push((String::from_str("memory-swap"), Mapping::new(ArgType::Value, "memswap_limit")));
    r.push((String::from_str("memory-swappiness"), Mapping::new(ArgType::Value, "mem_swappiness")));
    r.push((String::from_str("memory"), Mapping::new(ArgType::Value, "deploy/resources/limits/memory")));
    r.push((String::from_str("mount"), Mapping::new(ArgType::MapArray, "volumes")));
    r.push((String::from_str("name"), Mapping::new(ArgType::Value, "container_name")));
    r.push((String::from_str("net"), Mapping::new(ArgType::Networks, "network_mode")));
    r.push((String::from_str("network-alias"), Mapping::new(ArgType::Array, "networks/{network}/aliases")));
    r.push((String::from_str("network"), Mapping::new(ArgType::Networks, "network_mode")));
    r.push((String::from_str("no-healthcheck"), Mapping::new(ArgType::Switch, "healthcheck/disable")));
    r.push((String::from_str("oom-kill-disable"), Mapping::new(ArgType::Switch, "oom_kill_disable")));
    r.push((String::from_str("oom-score-adj"), Mapping::new(ArgType::Value, "oom_score_adj")));
    assert(table_view(r@) =~= table_view(old(r)@) + table_part_2());
}
#[verifier::rlimit(50)]
fn push_table_part_3(r: &mut Vec<(String, Mapping)>)
    ensures
        table_view(final(r)@) == table_view(old(r)@) + table_part_3(),
{
    r.push((String::from_str("pid"), Mapping::new(ArgType::Value, "pid")));
    r.push((String::from_str("pids-limit"), Mapping::new(ArgType::IntValue, "deploy/resources/limits/pids")));
    r.push((String::from_str("platform"), Mapping::new(ArgType::Value, "platform")));
    r.push((String::from_str("privileged"), Mapping::new(ArgType::Switch, "privileged")));
    r.push((String::from_str("publish"), Mapping::new(ArgType::Array, "ports")));
    r.push((String::from_str("pull"), Mapping::new(ArgType::Value, "pull_policy")));
    r.push((String::from_str("read-only"), Mapping::new(ArgType::Switch, "read_only")));
    r.push((String::from_str("restart"), Mapping::new(ArgType::Value, "restart")));
    r.push((String::from_str("rm"), Mapping::new(ArgType::Switch, "")));
    r.push((String::from_str("runtime"), Mapping::new(ArgType::Value, "runtime")));
    r.push((String::from_str("security-opt"), Mapping::new(ArgType::Array, "security_opt")));
    r.push((String::from_str("shm-size"), Mapping::new(ArgType::Value, "shm_size")));
    r.push((String::from_str("stop-signal"), Mapping::new(ArgType::Value, "stop_signal")));
    r.push((String::from_str("stop-timeout"), Mapping::new(ArgType::Value, "stop_grace_period")));
    r.push((String::from_str("storage-opt"), Mapping::new(ArgType::KeyValues, "storage_opt")));
    r.push((String::from_str("sysctl"), Mapping::new(ArgType::Array, "sysctls")));
    r.push((String::from_str("tmpfs"), Mapping::new(ArgType::Array, "tmpfs")));
    r.push((String::from_str("tty"), Mapping::new(ArgType::Switch, "tty")));
    r.push((String::from_str("ulimit"), Mapping::new(ArgType::Ulimits, "ulimits")));
    r.push((String::from_str("user"), Mapping::new(ArgType::Value, "user")));
    assert(table_view(r@) =~= table_view(old(r)@) + table_part_3());
}
#[verifier::rlimit(50)]
fn push_table_part_4(r: &mut Vec<(String, Mapping)>)
    ensures
        table_view(final(r)@) == table_view(old(r)@) + table_part_4(),
{
    r.push((String::from_str("userns"), Mapping::new(ArgType::Value, "userns_mode")));
    r.push((String::from_str("uts"), Mapping::new(ArgType::Value, "uts")));
    r.push((String::from_str("volume"), Mapping::new(ArgType::Array, "volumes")));
    r.push((String::from_str("volumes-from"), Mapping::new(ArgType::Array, "volumes_from")));
    r.push((String::from_str("workdir"), Mapping::new(ArgType::Value, "working_dir")));
    r.push((String::from_str("v"), Mapping::new(ArgType::Array, "volumes")));
    r.push((String::from_str("p"), Mapping::new(ArgType::Array, "ports")));
    r.push((String::from_str("e"), Mapping::new(ArgType::Envs, "environment")));
    r.push((String::from_str("l"), Mapping::new(ArgType::Array, "labels")));
    r.push((String::from_str("h"), Mapping::new(ArgType::Value, "hostname")));
    r.push((String::from_str("u"), Mapping::new(ArgType::Value, "user")));
    r.push((String::from_str("w"), Mapping::new(ArgType::Value, "working_dir")));
    r.push((String::from_str("c"), Mapping::new(ArgType::IntValue, "cpu_shares")));
    r.push((String::from_str("t"), Mapping::new(ArgType::Switch, "tty")));
    r.push((String::from_str("i"), Mapping::new(ArgType::Switch, "stdin_open")));
    r.push((String::from_str("m"), Mapping::new(ArgType::Value, "deploy/resources/limits/memory")));
    r.push((String::from_str("d"), Mapping::new(ArgType::Switch, "")));
    assert(table_view(r@) =~= table_view(old(r)@) + table_part_4());
}
/// The flag table as data: every recognised flag name with its value kind and
/// slot path, the long names first, then the one-letter aliases.
pub fn get_mappings() -> (r: Vec<(String, Mapping)>)
    ensures
        table_view(r@) == table(),
        r@.len() == 97,
        forall|f: Seq<char>|
            #[trigger] mapping_entry(f) is Some ==> exists|i: int|
                0 <= i < r@.len() && r@[i].0@ == f && mapping_entry(f) == Some(
                    (r@[i].1.arg_type, r@[i].1.path@),
                ),
        r@[85].0@ == "v"@ && r@[82].0@ == "volume"@ && r@[85].1.arg_type == r@[82].1.arg_type
            && r@[85].1.path@ == r@[82].1.path@,
        r@[86].0@ == "p"@ && r@[64].0@ == "publish"@ && r@[86].1.arg_type == r@[64].1.arg_type
            && r@[86].1.path@ == r@[64].1.path@,
        r@[87].0@ == "e"@ && r@[26].0@ == "env"@ && r@[87].1.arg_type == r@[26].1.arg_type
            && r@[87].1.path@ == r@[26].1.path@,
        r@[88].0@ == "l"@ && r@[42].0@ == "label"@ && r@[88].1.arg_type == r@[42].1.arg_type
            && r@[88].1.path@ == r@[42].1.path@,
        r@[89].0@ == "h"@ && r@[35].0@ == "hostname"@ && r@[89].1.arg_type == r@[35].1.arg_type
            && r@[89].1.path@ == r@[35].1.path@,
        r@[90].0@ == "u"@ && r@[79].0@ == "user"@ && r@[90].1.arg_type == r@[79].1.arg_type
            && r@[90].1.path@ == r@[79].1.path@,
        r@[91].0@ == "w"@ && r@[84].0@ == "workdir"@ && r@[91].1.arg_type == r@[84].1.arg_type
            && r@[91].1.path@ == r@[84].1.path@,
        r@[92].0@ == "c"@ && r@[11].0@ == "cpu-shares"@ && r@[92].1.arg_type == r@[11].1.arg_type
            && r@[92].1.path@ == r@[11].1.path@,
        r@[93].0@ == "t"@ && r@[77].0@ == "tty"@ && r@[93].1.arg_type == r@[77].1.arg_type
            && r@[93].1.path@ == r@[77].1.path@,
        r@[94].0@ == "i"@ && r@[37].0@ == "interactive"@ && r@[94].1.arg_type == r@[37].1.arg_type
            && r@[94].1.path@ == r@[37].1.path@,
        r@[95].0@ == "m"@ && r@[51].0@ == "memory"@ && r@[95].1.arg_type == r@[51].1.arg_type
            && r@[95].1.path@ == r@[51].1.path@,
        r@[96].0@ == "d"@ && r@[13].0@ == "detached"@ && r@[96].1.arg_type == r@[13].1.arg_type
            && r@[96].1.path@ == r@[13].1.path@,
{
    let mut r: Vec<(String, Mapping)> = Vec::new();
    assert(table_view(r@) =~= Seq::<(Seq<char>, (ArgType, Seq<char>))>::empty());
    push_table_part_0(&mut r);
    push_table_part_1(&mut r);
    push_table_part_2(&mut r);
    push_table_part_3(&mut r);
    push_table_part_4(&mut r);
    assert(table_view(r@) =~= table());
    assert(table_part_0().len() == 20);
    assert(table_part_1().len() == 20);
    assert(table_part_2().len() == 20);
    assert(table_part_3().len() == 20);
    assert(table_part_4().len() == 17);
    assert(table()[85] == table_part_4()[5]);
    assert(table()[82] == table_part_4()[2]);
    assert(table()[86] == table_part_4()[6]);
    assert(table()[64] == table_part_3()[4]);
    assert(table()[87] == table_part_4()[7]);
    assert(table()[26] == table_part_1()[6]);
    assert(table()[88] == table_part_4()[8]);
    assert(table()[42] == table_part_2()[2]);
    assert(table()[89] == table_part_4()[9]);
    assert(table()[35] == table_part_1()[15]);
    assert(table()[90] == table_part_4()[10]);
    assert(table()[79] == table_part_3()[19]);
    assert(table()[91] == table_part_4()[11]);
    assert(table()[84] == table_part_4()[4]);
    assert(table()[92] == table_part_4()[12]);
    assert(table()[11] == table_part_0()[11]);
    assert(table()[93] == table_part_4()[13]);
    assert(table()[77] == table_part_3()[17]);
    assert(table()[94] == table_part_4()[14]);
    assert(table()[37] == table_part_1()[17]);
    assert(table()[95] == table_part_4()[15]);
    assert(table()[51] == table_part_2()[11]);
    assert(table()[96] == table_part_4()[16]);
    assert(table()[13] == table_part_0()[13]);
    assert forall|f: Seq<char>| #[trigger] mapping_entry(f) is Some implies exists|i: int|
        0 <= i < r@.len() && r@[i].0@ == f && mapping_entry(f) == Some(
            (r@[i].1.arg_type, r@[i].1.path@),
        ) by {
        let j = key_index(table(), f);
        assert(table()[j] == table_view(r@)[j]);
    }
    r
}

/// Looks up the entry of a flag name given as characters.
pub fn mapping_of(flag: &[char]) -> (r: Option<Mapping>)
    ensures
        mapping_matches(r, mapping_entry(flag@)),
{
    let t = get_mappings();
    let ghost tv = table_view(t@);
    let mut i: usize = 0;
    while i < t.len()
        invariant
            i <= t@.len(),
            tv == table_view(t@),
            tv == table(),
            forall|j: int| 0 <= j < i ==> tv[j].0 != flag@,
        decreases t@.len() - i,
    {
        let name = chars_of(t[i].0.as_str());
        assert(tv[i as int].0 == t@[i as int].0@);
        if eq_chars(name.as_slice(), flag) {
            proof {
                lemma_key_index(tv, flag@, i as int);
            }
            return Some(Mapping::new(t[i].1.arg_type, t[i].1.path.as_str()));
        }
        i = i + 1;
    }
    proof {
        lemma_key_absent(tv, flag@);
    }
    None
}

/// Looks up the entry of a flag name.
pub fn get_mapping(flag: &str) -> (r: Option<Mapping>)
    ensures
        mapping_matches(r, mapping_entry(flag@)),
{
    let v = chars_of(flag);
    mapping_of(v.as_slice())
}

pub fn is_boolean_flag(flag: &str) -> (r: bool)
    ensures
        r == is_switch(flag@),
{
    match get_mapping(flag) {
        Some(m) => m.arg_type == ArgType::Switch,
        None => false,
    }
}

} // verus!
