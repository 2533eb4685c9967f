//! The settings of a deployment that come from the environment, and what
//! stands in for each that the environment does not set.

use vstd::prelude::*;
use vstd::string::*;

verus! {

/// What the environment sets of each setting, by the name of its variable.
#[derive(Debug, Clone, PartialEq, Eq)]
pub struct Variables {
    /// `MIBPF_ROOT_DIR`
    pub micro_bpf_root_dir: Option<String>,
    /// `COAP_ROOT_DIR`
    pub coap_root_dir: Option<String>,
    /// `OUT_DIR`
    pub out_dir: Option<String>,
    /// `SRC_DIR`
    pub src_dir: Option<String>,
    /// `RIOT_INSTANCE_NET_IF`
    pub riot_instance_net_if: Option<String>,
    /// `RIOT_INSTANCE_IP`
    pub riot_instance_ip: Option<String>,
    /// `HOST_NET_IF`
    pub host_net_if: Option<String>,
    /// `HOST_IP`
    pub host_ip: Option<String>,
    /// `BOARD_NAME`
    pub board_name: Option<String>,
}

/// The settings of a deployment.
#[derive(Debug, Clone, PartialEq, Eq)]
pub struct Environment {
    /// Root directory of the repository.
    pub micro_bpf_root_dir: String,
    /// Root directory of the file server.
    pub coap_root_dir: String,
    /// Directory for the object files.
    pub out_dir: String,
    /// Directory with the source files.
    pub src_dir: String,
    /// Network interface of the device.
    pub riot_instance_net_if: String,
    /// Address of the device.
    pub riot_instance_ip: String,
    /// Network interface of the host.
    pub host_net_if: String,
    /// Address of the host.
    pub host_ip: String,
    /// Name of the board of the device.
    pub board_name: String,
}

/// What is set, or else what stands in for it.
pub open spec fn value_or(value: Option<String>, default: Seq<char>) -> Seq<char> {
    match value {
        Some(value) => value@,
        None => default,
    }
}

/// The file from which the environment is loaded, unless another is named.
pub open spec fn default_environment_file() -> Seq<char> {
    ".env-nucleo"@
}

/// What is set, or else what stands in for it.
fn or_default(value: Option<String>, default: &str) -> (r: String)
    ensures
        r@ == value_or(value, default@),
{
    match value {
        Some(value) => value,
        None => default.to_owned(),
    }
}

/// The file from which the environment is loaded: the one that is named,
/// or else `.env-nucleo`.
pub fn environment_file(named: Option<String>) -> (r: String)
    ensures
        r@ == value_or(named, default_environment_file()),
{
    or_default(named, ".env-nucleo")
}

impl Environment {
    /// The settings that the variables give, with its default for each
    /// setting that no variable gives.
    pub fn from_variables(variables: Variables) -> (r: Environment)
        ensures
            r.micro_bpf_root_dir@ == value_or(variables.micro_bpf_root_dir, ".."@),
            r.coap_root_dir@ == value_or(variables.coap_root_dir, "../coaproot"@),
            r.out_dir@ == value_or(variables.out_dir, "../out"@),
            r.src_dir@ == value_or(variables.src_dir, "../bpf/tests"@),
            r.riot_instance_net_if@ == value_or(variables.riot_instance_net_if, "6"@),
            r.riot_instance_ip@ == value_or(
                variables.riot_instance_ip,
                "fe80::a0d9:ebff:fed5:986b"@,
            ),
            r.host_net_if@ == value_or(variables.host_net_if, "tapbr0"@),
            r.host_ip@ == value_or(variables.host_ip, "bad-ip"@),
            r.board_name@ == value_or(variables.board_name, "bad-board"@),
    {
        Environment {
            micro_bpf_root_dir: or_default(variables.micro_bpf_root_dir, ".."),
            coap_root_dir: or_default(variables.coap_root_dir, "../coaproot"),
            out_dir: or_default(variables.out_dir, "../out"),
            src_dir: or_default(variables.src_dir, "../bpf/tests"),
            riot_instance_net_if: or_default(variables.riot_instance_net_if, "6"),
            riot_instance_ip: or_default(variables.riot_instance_ip, "fe80::a0d9:ebff:fed5:986b"),
            host_net_if: or_default(variables.host_net_if, "tapbr0"),
            host_ip: or_default(variables.host_ip, "bad-ip"),
            board_name: or_default(variables.board_name, "bad-board"),
        }
    }
}

} // verus!
