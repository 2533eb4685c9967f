//! The names of the files, and the addresses of the resources, that the
//! steps of a deployment hand to each other.

use vstd::prelude::*;
use vstd::string::*;
use crate::configuration::ExecutionModel;
use crate::text::{append_number, digits, split, split_text, strings_view};

verus! {

/// What follows the last slash of a path, or the whole path where it has
/// none.
pub open spec fn last_segment(path: Seq<char>) -> Seq<char> {
    split(path, '/').last()
}

/// The file name of a path, up to its first dot.
pub open spec fn base_name(path: Seq<char>) -> Seq<char> {
    split(last_segment(path), '.')[0]
}

/// The name of the object file that compiling `source` leaves in
/// `out_dir`.
pub open spec fn object_file_name(source: Seq<char>, out_dir: Seq<char>) -> Seq<char> {
    out_dir + "/"@ + base_name(source) + ".o"@
}

/// The name of the binary that compiling `source` leaves in `directory`.
pub open spec fn binary_file_name(source: Seq<char>, directory: Seq<char>) -> Seq<char> {
    directory + "/"@ + base_name(source) + ".bin"@
}

/// The name of the signed manifest for a storage slot.
pub open spec fn manifest_name(slot: nat) -> Seq<char> {
    "suit_manifest"@ + digits(slot, 10, 1) + ".signed"@
}

/// Where a binary lies once it has been moved to the root directory of the
/// file server.
pub open spec fn served_binary_name(root: Seq<char>, binary: Seq<char>) -> Seq<char> {
    root + "/"@ + last_segment(binary)
}

/// The path of the script that signs a binary, below the root of the
/// repository, which is the working directory unless another is given.
pub open spec fn signing_script_name(root: Option<Seq<char>>) -> Seq<char> {
    let start = match root {
        Some(root) => root,
        None => "."@,
    };
    start + "/scripts/sign-binary.sh"@
}

/// The name of the file that postprocessing writes, unless another is
/// given.
pub open spec fn output_name(given: Option<Seq<char>>) -> Seq<char> {
    match given {
        Some(name) => name,
        None => "a.bin"@,
    }
}

/// The address of the device, as seen through a network interface of the
/// host.
pub open spec fn device_address(device: Seq<char>, interface: Seq<char>) -> Seq<char> {
    "coap://["@ + device + "%"@ + interface + "]"@
}

/// The resource of the device that starts a VM in the given way.
pub open spec fn execution_resource(model: ExecutionModel) -> Seq<char> {
    match model {
        ExecutionModel::ShortLived => "/short-execution"@,
        ExecutionModel::WithAccessToCoapPacket => "/with_coap_pkt"@,
        ExecutionModel::LongRunning => "/long-running"@,
    }
}

/// The address to which a request to execute is sent.
pub open spec fn execution_address(
    device: Seq<char>,
    interface: Seq<char>,
    model: ExecutionModel,
    benchmark: bool,
) -> Seq<char> {
    let prefix = if benchmark {
        "/benchmark"@
    } else {
        ""@
    };
    device_address(device, interface) + prefix + execution_resource(model)
}

/// The resource of a device that takes its requests as messages, for
/// starting a VM in the given way.
pub open spec fn message_resource(model: ExecutionModel) -> Seq<char> {
    match model {
        ExecutionModel::ShortLived => "/vm/exec"@,
        ExecutionModel::WithAccessToCoapPacket => "/vm/exec/coap-pkt"@,
        ExecutionModel::LongRunning => "/vm/spawn"@,
    }
}

/// The address to which a message to execute is sent.
pub open spec fn message_address(
    device: Seq<char>,
    interface: Seq<char>,
    model: ExecutionModel,
) -> Seq<char> {
    device_address(device, interface) + message_resource(model)
}

/// The address to which a request to pull is sent.
pub open spec fn pull_address(device: Seq<char>, interface: Seq<char>) -> Seq<char> {
    device_address(device, interface) + "/suit/pull"@
}

/// The numbers, each as two hexadecimal digits.
pub open spec fn index_digits(indices: Seq<u8>) -> Seq<char>
    decreases indices.len(),
{
    if indices.len() == 0 {
        Seq::empty()
    } else {
        index_digits(indices.drop_last()) + digits(indices.last() as nat, 16, 2)
    }
}

/// What follows the last slash of `path`.
pub fn file_name(path: &str) -> (r: String)
    ensures
        r@ == last_segment(path@),
{
    let segments = split_text(path, '/');
    proof {
        crate::text::lemma_split_joins_back(path@, '/');
        assert(strings_view(segments@).len() == segments@.len());
        assert(strings_view(segments@)[segments@.len() - 1] == segments@[segments@.len() - 1]@);
    }
    segments[segments.len() - 1].clone()
}

/// The file name of `path`, up to its first dot.
pub fn source_base_name(path: &str) -> (r: String)
    ensures
        r@ == base_name(path@),
{
    let name = file_name(path);
    let parts = split_text(name.as_str(), '.');
    proof {
        crate::text::lemma_split_joins_back(name@, '.');
        assert(strings_view(parts@).len() == parts@.len());
        assert(strings_view(parts@)[0] == parts@[0]@);
    }
    parts[0].clone()
}

/// The name of the object file that compiling `bpf_source_file` leaves in
/// `out_dir`: the directory, a slash, the name of the source file up to its
/// first dot, and `.o`. Every source file has such a name.
pub fn get_object_file_name(bpf_source_file: &str, out_dir: &str) -> (r: Result<String, String>)
    ensures
        r matches Ok(name) && name@ == object_file_name(bpf_source_file@, out_dir@),
{
    let base = source_base_name(bpf_source_file);
    let mut name = out_dir.to_owned();
    name.append("/");
    name.append(base.as_str());
    name.append(".o");
    assert(name@ =~= object_file_name(bpf_source_file@, out_dir@));
    Ok(name)
}

/// The name of the binary that compiling `source` leaves in `directory`.
pub fn get_binary_file_name(source: &str, directory: &str) -> (r: String)
    ensures
        r@ == binary_file_name(source@, directory@),
{
    let base = source_base_name(source);
    let mut name = directory.to_owned();
    name.append("/");
    name.append(base.as_str());
    name.append(".bin");
    assert(name@ =~= binary_file_name(source@, directory@));
    name
}

/// The name of the signed manifest for a storage slot.
pub fn get_manifest_name(slot: usize) -> (r: String)
    ensures
        r@ == manifest_name(slot as nat),
{
    let mut name = "suit_manifest".to_owned();
    append_number(&mut name, slot as u64, 10, 1);
    name.append(".signed");
    assert(name@ =~= manifest_name(slot as nat));
    name
}

/// Where `binary` lies once it has been moved to the directory `root`.
pub fn get_served_binary_name(root: &str, binary: &str) -> (r: String)
    ensures
        r@ == served_binary_name(root@, binary@),
{
    let last = file_name(binary);
    let mut name = root.to_owned();
    name.append("/");
    name.append(last.as_str());
    assert(name@ =~= served_binary_name(root@, binary@));
    name
}

/// The path of the script that signs a binary.
pub fn get_signing_script_name(root: Option<&str>) -> (r: String)
    ensures
        r@ == signing_script_name(
            match root {
                Some(root) => Some(root@),
                None => None,
            },
        ),
{
    let mut name = match root {
        Some(root) => root.to_owned(),
        None => ".".to_owned(),
    };
    name.append("/scripts/sign-binary.sh");
    name
}

/// The name of the file that postprocessing writes.
pub fn get_output_name(given: Option<&str>) -> (r: String)
    ensures
        r@ == output_name(
            match given {
                Some(name) => Some(name@),
                None => None,
            },
        ),
{
    match given {
        Some(name) => name.to_owned(),
        None => "a.bin".to_owned(),
    }
}

/// The address of the device, as seen through a network interface of the
/// host.
fn get_device_address(device: &str, interface: &str) -> (r: String)
    ensures
        r@ == device_address(device@, interface@),
{
    let mut address = "coap://[".to_owned();
    address.append(device);
    address.append("%");
    address.append(interface);
    address.append("]");
    assert(address@ =~= device_address(device@, interface@));
    address
}

/// The address to which a request to execute is sent.
pub fn get_execution_address(
    device: &str,
    interface: &str,
    model: ExecutionModel,
    benchmark: bool,
) -> (r: String)
    ensures
        r@ == execution_address(device@, interface@, model, benchmark),
{
    let mut address = get_device_address(device, interface);
    proof {
        reveal_strlit("");
    }
    if benchmark {
        address.append("/benchmark");
    }
    match model {
        ExecutionModel::ShortLived => address.append("/short-execution"),
        ExecutionModel::WithAccessToCoapPacket => address.append("/with_coap_pkt"),
        ExecutionModel::LongRunning => address.append("/long-running"),
    }
    assert(address@ =~= execution_address(device@, interface@, model, benchmark));
    address
}

/// The address to which a message to execute is sent.
pub fn get_message_address(device: &str, interface: &str, model: ExecutionModel) -> (r: String)
    ensures
        r@ == message_address(device@, interface@, model),
{
    let mut address = get_device_address(device, interface);
    match model {
        ExecutionModel::ShortLived => address.append("/vm/exec"),
        ExecutionModel::WithAccessToCoapPacket => address.append("/vm/exec/coap-pkt"),
        ExecutionModel::LongRunning => address.append("/vm/spawn"),
    }
    address
}

/// The address to which a request to pull is sent.
pub fn get_pull_address(device: &str, interface: &str) -> (r: String)
    ensures
        r@ == pull_address(device@, interface@),
{
    let mut address = get_device_address(device, interface);
    address.append("/suit/pull");
    address
}

/// The numbers, each as two hexadecimal digits.
pub fn helper_indices_text(indices: &[u8]) -> (r: String)
    ensures
        r@ == index_digits(indices@),
{
    let mut out = String::new();
    let mut i: usize = 0;
    assert(indices@.take(0) =~= Seq::<u8>::empty());
    while i < indices.len()
        invariant
            i <= indices.len(),
            out@ == index_digits(indices@.take(i as int)),
        decreases indices.len() - i,
    {
        assert(indices@.take(i + 1).drop_last() == indices@.take(i as int));
        append_number(&mut out, indices[i] as u64, 16, 2);
        i += 1;
    }
    assert(indices@.take(i as int) == indices@);
    out
}

} // verus!
