//! The requests that are sent to the device, and their compact text forms.

use vstd::prelude::*;
use vstd::string::*;
use vstd::utf8::*;
use crate::configuration::{VMConfiguration, decodes_to, encoding_of};
use crate::helpers::{HelperFunctionID, helper_id, known_helpers, lemma_helper_ids_are_unique};
use crate::text::{
    NumberError,
    append_number,
    append_without,
    digit_chars,
    digits,
    join,
    lemma_digit_reads_back,
    lemma_two_hex_digits,
    lemma_two_hex_digits_read_back,
    number,
    number_error_message,
    number_error_text,
    parse_u8,
    split,
    split_text,
    str_equal,
    strings_view,
    without,
};

verus! {

/// A request to start a VM with a given configuration and with access to a
/// given list of helper functions.
#[derive(Debug, Clone, PartialEq, Eq)]
pub struct VMExecutionRequest {
    /// The configuration of the VM.
    pub configuration: VMConfiguration,
    /// The helper functions that the program may call.
    pub allowed_helpers: Vec<HelperFunctionID>,
}

/// The mathematical value of a [`VMExecutionRequest`].
pub struct VMExecutionRequestView {
    pub configuration: VMConfiguration,
    pub allowed_helpers: Seq<HelperFunctionID>,
}

impl View for VMExecutionRequest {
    type V = VMExecutionRequestView;

    open spec fn view(&self) -> VMExecutionRequestView {
        VMExecutionRequestView {
            configuration: self.configuration,
            allowed_helpers: self.allowed_helpers@,
        }
    }
}

/// The IDs of the helpers, each as two hexadecimal digits.
pub open spec fn helper_digits(helpers: Seq<HelperFunctionID>) -> Seq<char>
    decreases helpers.len(),
{
    if helpers.len() == 0 {
        Seq::empty()
    } else {
        helper_digits(helpers.drop_last()) + digits(helper_id(helpers.last()) as nat, 16, 2)
    }
}

/// The text form of a request to execute: the encoded configuration in
/// hexadecimal digits, two of them at least, then the ID of each helper as
/// two hexadecimal digits.
pub open spec fn execution_request_text(request: VMExecutionRequestView) -> Seq<char> {
    digits(encoding_of(request.configuration) as nat, 16, 2) + helper_digits(
        request.allowed_helpers,
    )
}

/// What is said of a request whose text stops in the middle of a pair of
/// digits.
pub open spec fn length_message() -> Seq<char> {
    "Invalid length of the encoded request"@
}

/// What is said of a configuration that cannot be read.
pub open spec fn configuration_message(error: NumberError) -> Seq<char> {
    "Unable to parse the vm configuration from the encoded string: "@ + number_error_message(
        error,
    )
}

/// What is said of a number that cannot be read.
pub open spec fn number_message(error: NumberError) -> Seq<char> {
    "Unable to parse: "@ + number_error_message(error)
}

/// The IDs that the first `n` pairs of digits behind the configuration
/// spell, or what is said of the first pair that spells none.
pub open spec fn helper_ids(bytes: Seq<u8>, n: nat) -> Result<Seq<u8>, Seq<char>>
    decreases n,
{
    if n == 0 {
        Ok(Seq::empty())
    } else {
        match helper_ids(bytes, (n - 1) as nat) {
            Err(message) => Err(message),
            Ok(ids) => if 2 * n + 2 > bytes.len() {
                Err(length_message())
            } else {
                match number(bytes.subrange(2 * n as int, 2 * n as int + 2), 16, u8::MAX as nat) {
                    Err(e) => Err(number_message(e)),
                    Ok(id) => Ok(ids.push(id as u8)),
                }
            },
        }
    }
}

/// What the text of a request to execute stands for: the encoded
/// configuration, from the first two digits, and the IDs of the helpers, from
/// each two digits behind them.
pub open spec fn execution_request_fields(bytes: Seq<u8>) -> Result<(u8, Seq<u8>), Seq<char>> {
    if bytes.len() < 2 {
        Err(length_message())
    } else {
        match number(bytes.subrange(0, 2), 16, u8::MAX as nat) {
            Err(e) => Err(configuration_message(e)),
            Ok(configuration) => match helper_ids(bytes, ((bytes.len() - 1) / 2) as nat) {
                Err(message) => Err(message),
                Ok(ids) => Ok((configuration as u8, ids)),
            },
        }
    }
}

/// The IDs of the helpers, in order.
pub open spec fn ids_of(helpers: Seq<HelperFunctionID>) -> Seq<u8> {
    Seq::new(helpers.len(), |i: int| helper_id(helpers[i]))
}

/// The two hexadecimal digits of a number below 256 are plain characters.
proof fn lemma_two_hex_digits_are_plain(value: nat)
    requires
        value < 256,
    ensures
        digits(value, 16, 2).len() == 2,
        is_ascii_chars(digits(value, 16, 2)),
{
    lemma_two_hex_digits(value);
    lemma_digit_reads_back(value / 16);
    lemma_digit_reads_back(value % 16);
    let pair = digits(value, 16, 2);
    assert forall|i: int| 0 <= i < pair.len() implies '\0' <= #[trigger] pair[i] <= '\u{7f}' by {
        if i == 0 {
            assert(pair[0] == digit_chars()[value as int / 16]);
        } else {
            assert(pair[1] == digit_chars()[value as int % 16]);
        }
    }
}

/// The digits of a list of helpers are two plain characters for each
/// helper: the digits of its ID.
proof fn lemma_helper_digits(helpers: Seq<HelperFunctionID>)
    ensures
        helper_digits(helpers).len() == 2 * helpers.len(),
        is_ascii_chars(helper_digits(helpers)),
        forall|k: int|
            0 <= k < helpers.len() ==> (#[trigger] helper_digits(helpers)[2 * k]) == digits(
                helper_id(helpers[k]) as nat,
                16,
                2,
            )[0] && helper_digits(helpers)[2 * k + 1] == digits(
                helper_id(helpers[k]) as nat,
                16,
                2,
            )[1],
    decreases helpers.len(),
{
    if helpers.len() > 0 {
        let id = helper_id(helpers.last()) as nat;
        lemma_helper_digits(helpers.drop_last());
        lemma_two_hex_digits(id);
        lemma_digit_reads_back(id / 16);
        lemma_digit_reads_back(id % 16);
        let before = helper_digits(helpers.drop_last());
        let all = helper_digits(helpers);
        assert(all == before + digits(id, 16, 2));
        lemma_two_hex_digits_are_plain(id);
        is_ascii_chars_concat(all, before, digits(id, 16, 2));
        assert forall|k: int| 0 <= k < helpers.len() implies (#[trigger] all[2 * k]) == digits(
            helper_id(helpers[k]) as nat,
            16,
            2,
        )[0] && all[2 * k + 1] == digits(helper_id(helpers[k]) as nat, 16, 2)[1] by {
            if k < helpers.len() - 1 {
                assert(helpers.drop_last()[k] == helpers[k]);
                assert(all[2 * k] == before[2 * k]);
                assert(all[2 * k + 1] == before[2 * k + 1]);
            }
        }
    }
}

/// A list of helpers is found again by its IDs.
proof fn lemma_helpers_are_known(helpers: Seq<HelperFunctionID>)
    ensures
        known_helpers(ids_of(helpers)) == helpers,
    decreases helpers.len(),
{
    if helpers.len() == 0 {
        assert(known_helpers(ids_of(helpers)) =~= helpers);
    } else {
        lemma_helpers_are_known(helpers.drop_last());
        lemma_helper_ids_are_unique(helpers.last(), 0);
        assert(ids_of(helpers).drop_last() =~= ids_of(helpers.drop_last()));
        assert(known_helpers(ids_of(helpers)) =~= helpers);
    }
}

/// Decoding inverts encoding: the text of a request whose encoded
/// configuration fits its two digits stands for that encoding and for the
/// IDs of the helpers of the request, which name those helpers again.
pub proof fn lemma_execution_request_reads_back(request: VMExecutionRequestView)
    requires
        encoding_of(request.configuration) < 256,
    ensures
        execution_request_fields(encode_utf8(execution_request_text(request))) == Ok::<
            (u8, Seq<u8>),
            Seq<char>,
        >((encoding_of(request.configuration) as u8, ids_of(request.allowed_helpers))),
        known_helpers(ids_of(request.allowed_helpers)) == request.allowed_helpers,
{
    let helpers = request.allowed_helpers;
    let encoding = encoding_of(request.configuration) as nat;
    let head = digits(encoding, 16, 2);
    let tail = helper_digits(helpers);
    let text = execution_request_text(request);
    let bytes = encode_utf8(text);
    lemma_helpers_are_known(helpers);
    lemma_helper_digits(helpers);
    lemma_two_hex_digits(encoding);
    lemma_digit_reads_back(encoding / 16);
    lemma_digit_reads_back(encoding % 16);
    lemma_two_hex_digits_are_plain(encoding);
    is_ascii_chars_concat(text, head, tail);
    is_ascii_chars_encode_utf8(text);
    assert(bytes.len() == 2 + 2 * helpers.len());
    assert(bytes.subrange(0, 2) =~= seq![head[0] as u8, head[1] as u8]) by {
        assert(text[0] == head[0]);
        assert(text[1] == head[1]);
    }
    lemma_two_hex_digits_read_back(encoding, head[0] as u8, head[1] as u8);
    assert forall|n: nat| n <= helpers.len() implies #[trigger] helper_ids(bytes, n) == Ok::<
        Seq<u8>,
        Seq<char>,
    >(ids_of(helpers.take(n as int))) by {
        lemma_pairs_read_back(request, n);
    }
    assert(helpers.take(helpers.len() as int) == helpers);
    assert(((bytes.len() - 1) / 2) as nat == helpers.len());
}

/// The first `n` pairs of digits behind the configuration spell the IDs of
/// the first `n` helpers.
proof fn lemma_pairs_read_back(request: VMExecutionRequestView, n: nat)
    requires
        encoding_of(request.configuration) < 256,
        n <= request.allowed_helpers.len(),
    ensures
        helper_ids(encode_utf8(execution_request_text(request)), n) == Ok::<Seq<u8>, Seq<char>>(
            ids_of(request.allowed_helpers.take(n as int)),
        ),
    decreases n,
{
    let helpers = request.allowed_helpers;
    let encoding = encoding_of(request.configuration) as nat;
    let head = digits(encoding, 16, 2);
    let tail = helper_digits(helpers);
    let text = execution_request_text(request);
    let bytes = encode_utf8(text);
    if n == 0 {
        assert(ids_of(helpers.take(0)) =~= Seq::<u8>::empty());
    } else {
        lemma_pairs_read_back(request, (n - 1) as nat);
        lemma_helper_digits(helpers);
        lemma_two_hex_digits(encoding);
        lemma_digit_reads_back(encoding / 16);
        lemma_digit_reads_back(encoding % 16);
        lemma_two_hex_digits_are_plain(encoding);
        is_ascii_chars_concat(text, head, tail);
        is_ascii_chars_encode_utf8(text);
        let id = helper_id(helpers[n - 1]) as nat;
        let pair = digits(id, 16, 2);
        assert(text[2 * n as int] == tail[2 * (n - 1)]);
        assert(text[2 * n as int + 1] == tail[2 * (n - 1) + 1]);
        assert(bytes.subrange(2 * n as int, 2 * n as int + 2) =~= seq![
            pair[0] as u8,
            pair[1] as u8,
        ]);
        lemma_two_hex_digits_read_back(id, pair[0] as u8, pair[1] as u8);
        assert(ids_of(helpers.take(n as int)) =~= ids_of(helpers.take(n - 1)).push(id as u8));
    }
}

/// The text `prefix`, followed by what the error says.
fn number_failure(prefix: &str, error: NumberError) -> (r: String)
    ensures
        r@ == prefix@ + number_error_message(error),
{
    prefix.to_owned().concat(number_error_text(error))
}

impl VMExecutionRequest {
    /// The request with the given fields.
    pub fn new(configuration: VMConfiguration, allowed_helpers: Vec<HelperFunctionID>) -> (r: Self)
        ensures
            r.configuration == configuration,
            r.allowed_helpers == allowed_helpers,
    {
        VMExecutionRequest { configuration, allowed_helpers }
    }

    /// The text form of the request, which is short enough for the payload
    /// of one packet: see [`execution_request_text`].
    pub fn encode(&self) -> (r: String)
        ensures
            r@ == execution_request_text(self@),
    {
        let mut encoding = String::new();
        append_number(&mut encoding, self.configuration.encode() as u64, 16, 2);
        let ghost head = encoding@;
        let mut i: usize = 0;
        assert(self.allowed_helpers@.take(0) =~= Seq::<HelperFunctionID>::empty());
        assert(encoding@ =~= head + helper_digits(self.allowed_helpers@.take(0)));
        while i < self.allowed_helpers.len()
            invariant
                i <= self.allowed_helpers.len(),
                encoding@ == head + helper_digits(self.allowed_helpers@.take(i as int)),
            decreases self.allowed_helpers.len() - i,
        {
            assert(self.allowed_helpers@.take(i + 1).drop_last() == self.allowed_helpers@.take(
                i as int,
            ));
            append_number(&mut encoding, self.allowed_helpers[i].id() as u64, 16, 2);
            assert(encoding@ =~= head + helper_digits(self.allowed_helpers@.take(i + 1)));
            i += 1;
        }
        assert(self.allowed_helpers@.take(i as int) == self.allowed_helpers@);
        encoding
    }

    /// Reads a request from its text form.
    ///
    /// The first two digits are the encoded configuration, each two digits
    /// behind them the ID of a helper; an ID that names no helper is
    /// dropped. Fails with what [`execution_request_fields`] says where the
    /// text stops in the middle of a pair or a pair spells no number.
    #[verifier::loop_isolation(false)]
    pub fn decode(data: String) -> (r: Result<VMExecutionRequest, String>)
        ensures
            match execution_request_fields(encode_utf8(data@)) {
                Ok((configuration, ids)) => r matches Ok(request) && decodes_to(
                    configuration as u16,
                    request.configuration,
                ) && request.allowed_helpers@ == known_helpers(ids),
                Err(message) => r matches Err(e) && e@ == message,
            },
    {
        let bytes = data.as_str().as_bytes();
        let len: usize = bytes.len();
        if len < 2 {
            return Err("Invalid length of the encoded request".to_owned());
        }
        let encoded_configuration = match parse_u8(&bytes[0..2], 16) {
            Ok(value) => value,
            Err(e) => {
                return Err(
                    number_failure(
                        "Unable to parse the vm configuration from the encoded string: ",
                        e,
                    ),
                );
            },
        };
        let configuration = VMConfiguration::decode(encoded_configuration as u16);
        let pairs: usize = (len - 1) / 2;
        let mut allowed_helpers: Vec<HelperFunctionID> = Vec::new();
        let ghost mut ids: Seq<u8> = Seq::empty();
        let mut n: usize = 0;
        while n < pairs
            invariant
                n <= pairs,
                helper_ids(bytes@, n as nat) == Ok::<Seq<u8>, Seq<char>>(ids),
                allowed_helpers@ == known_helpers(ids),
            decreases pairs - n,
        {
            assert(2 * (n + 1) <= len - 1);
            let at: usize = 2 * (n + 1);
            let ghost reached = helper_ids(bytes@, (n + 1) as nat);
            if len - at < 2 {
                proof {
                    assert(reached == Err::<Seq<u8>, Seq<char>>(length_message()));
                    lemma_failure_is_kept(bytes@, (n + 1) as nat, pairs as nat);
                }
                return Err("Invalid length of the encoded request".to_owned());
            }
            match parse_u8(&bytes[at..at + 2], 16) {
                Err(e) => {
                    proof {
                        assert(reached == Err::<Seq<u8>, Seq<char>>(number_message(e)));
                        lemma_failure_is_kept(bytes@, (n + 1) as nat, pairs as nat);
                    }
                    return Err(number_failure("Unable to parse: ", e));
                },
                Ok(id) => {
                    proof {
                        assert(reached == Ok::<Seq<u8>, Seq<char>>(ids.push(id)));
                        assert(ids.push(id).drop_last() == ids);
                        ids = ids.push(id);
                    }
                    if let Some(helper) = HelperFunctionID::from_u8(id) {
                        allowed_helpers.push(helper);
                    }
                },
            }
            n += 1;
        }
        Ok(VMExecutionRequest { configuration, allowed_helpers })
    }
}

/// A request to the device to pull a signed program from the file server
/// and to store it.
#[derive(Debug, Clone, PartialEq, Eq)]
pub struct SuitPullRequest {
    /// The address of the host that sends the request.
    pub ip: String,
    /// The name of the manifest of the program.
    pub manifest: String,
    /// The network interface of the device.
    pub riot_netif: String,
    /// The encoded configuration of the VM.
    pub config: u8,
    /// The encoded list of allowed helpers.
    pub helpers: String,
    /// Whether the program that the storage slot holds may be overwritten.
    pub erase: bool,
}

/// The mathematical value of a [`SuitPullRequest`].
pub struct SuitPullRequestView {
    pub ip: Seq<char>,
    pub manifest: Seq<char>,
    pub riot_netif: Seq<char>,
    pub config: u8,
    pub helpers: Seq<char>,
    pub erase: bool,
}

impl View for SuitPullRequest {
    type V = SuitPullRequestView;

    open spec fn view(&self) -> SuitPullRequestView {
        SuitPullRequestView {
            ip: self.ip@,
            manifest: self.manifest@,
            riot_netif: self.riot_netif@,
            config: self.config,
            helpers: self.helpers@,
            erase: self.erase,
        }
    }
}

/// The text form of a request to pull: the address without its colons, the
/// manifest, the interface, the configuration in decimal digits, the
/// helpers, and 1 or 0 for the permission to erase, with a bar between each
/// two.
pub open spec fn pull_request_text(request: SuitPullRequestView) -> Seq<char> {
    without(request.ip, ':') + "|"@ + request.manifest + "|"@ + request.riot_netif + "|"@
        + digits(request.config as nat, 10, 1) + "|"@ + request.helpers + "|"@ + digits(
        if request.erase {
            1
        } else {
            0
        },
        10,
        1,
    )
}

/// The groups of an address that was written without colons: every four
/// bytes of the text are one group. There are none where the text does not
/// fall apart into runs of four bytes that each hold whole characters.
pub open spec fn address_groups(bytes: Seq<u8>) -> Option<Seq<Seq<char>>>
    decreases bytes.len(),
{
    if bytes.len() == 0 {
        Some(Seq::empty())
    } else if bytes.len() < 4 || !is_char_boundary(bytes, 4) {
        None
    } else {
        match address_groups(bytes.skip(4)) {
            None => None,
            Some(groups) => Some(seq![decode_utf8(bytes.take(4))] + groups),
        }
    }
}

/// The address that the groups make up: the first group, two colons, and
/// the other groups with one colon between each two.
pub open spec fn address_text(groups: Seq<Seq<char>>) -> Seq<char> {
    groups[0] + "::"@ + join(groups.skip(1), ":"@)
}

/// What is said of a request that does not have six sections.
pub open spec fn sections_message() -> Seq<char> {
    "Invalid number of sections in the request"@
}

/// What is said of a request whose address has no groups.
pub open spec fn address_message() -> Seq<char> {
    "Invalid address in the request"@
}

/// What the text of a request to pull stands for.
pub open spec fn pull_request_fields(text: Seq<char>) -> Result<SuitPullRequestView, Seq<char>> {
    let parts = split(text, '|');
    if parts.len() != 6 {
        Err(sections_message())
    } else {
        match address_groups(encode_utf8(parts[0])) {
            Some(groups) if groups.len() > 0 => match number(
                encode_utf8(parts[3]),
                10,
                u8::MAX as nat,
            ) {
                Err(e) => Err(number_message(e)),
                Ok(config) => Ok(
                    SuitPullRequestView {
                        ip: address_text(groups),
                        manifest: parts[1],
                        riot_netif: parts[2],
                        config: config as u8,
                        helpers: parts[4],
                        erase: parts[5] == "1"@,
                    },
                ),
            },
            _ => Err(address_message()),
        }
    }
}

/// Puts the colons back into an address that was written without them.
pub fn read_address(section: &str) -> (r: Option<String>)
    ensures
        match address_groups(section.spec_bytes()) {
            Some(groups) if groups.len() > 0 => r matches Some(address) && address@
                == address_text(groups),
            _ => r is None,
        },
{
    let mut rest: &str = section;
    let mut out = String::new();
    let mut seen: u8 = 0;
    let ghost mut groups: Seq<Seq<char>> = Seq::empty();
    assert(Seq::<Seq<char>>::empty() + address_groups(rest.spec_bytes())->0 =~= address_groups(
        rest.spec_bytes(),
    )->0);
    while rest.as_bytes().len() > 0
        invariant
            address_groups(section.spec_bytes()) == match address_groups(rest.spec_bytes()) {
                None => None::<Seq<Seq<char>>>,
                Some(more) => Some(groups + more),
            },
            seen == if groups.len() < 2 {
                groups.len() as u8
            } else {
                2u8
            },
            groups.len() == 0 ==> out@ == Seq::<char>::empty(),
            groups.len() > 0 ==> out@ == address_text(groups),
        decreases rest.spec_bytes().len(),
    {
        let ghost bytes = rest.spec_bytes();
        if rest.as_bytes().len() < 4 || !rest.is_char_boundary(4) {
            return None;
        }
        let (group, tail) = rest.split_at(4);
        proof {
            encode_utf8_decode_utf8(group@);
            assert(group.spec_bytes() == bytes.take(4));
            assert(tail.spec_bytes() == bytes.skip(4));
            let more = address_groups(tail.spec_bytes());
            if more is Some {
                assert(groups + (seq![group@] + more->0) =~= groups.push(group@) + more->0);
            }
            assert(groups.push(group@).skip(1) =~= if groups.len() == 0 {
                Seq::<Seq<char>>::empty()
            } else {
                groups.skip(1).push(group@)
            });
            if groups.len() > 0 {
                assert(groups.skip(1).push(group@).drop_last() == groups.skip(1));
            }
        }
        if seen == 0 {
            out.append(group);
            out.append("::");
            assert(out@ =~= address_text(groups.push(group@)));
        } else {
            if seen > 1 {
                out.append(":");
            }
            out.append(group);
            assert(out@ =~= address_text(groups.push(group@)));
        }
        if seen < 2 {
            seen += 1;
        }
        proof {
            groups = groups.push(group@);
        }
        rest = tail;
    }
    assert(groups + Seq::<Seq<char>>::empty() =~= groups);
    if seen == 0 {
        None
    } else {
        Some(out)
    }
}

impl SuitPullRequest {
    /// The text form of the request: see [`pull_request_text`].
    pub fn encode(&self) -> (r: String)
        ensures
            r@ == pull_request_text(self@),
    {
        let mut out = String::new();
        append_without(&mut out, self.ip.as_str(), ':');
        out.append("|");
        out.append(self.manifest.as_str());
        out.append("|");
        out.append(self.riot_netif.as_str());
        out.append("|");
        append_number(&mut out, self.config as u64, 10, 1);
        out.append("|");
        out.append(self.helpers.as_str());
        out.append("|");
        append_number(&mut out, if self.erase {
            1
        } else {
            0
        }, 10, 1);
        assert(out@ =~= pull_request_text(self@));
        out
    }

    /// Reads a request from its text form.
    ///
    /// The text must hold six sections with a bar between each two. The
    /// first is the address without colons, which are put back: see
    /// [`address_text`]. The fourth is the configuration in decimal digits.
    /// The last allows to erase exactly where it is `1`. Fails with what
    /// [`pull_request_fields`] says otherwise.
    pub fn decode(data: String) -> (r: Result<SuitPullRequest, String>)
        ensures
            match pull_request_fields(data@) {
                Ok(request) => r matches Ok(decoded) && decoded@ == request,
                Err(message) => r matches Err(e) && e@ == message,
            },
    {
        let parts = split_text(data.as_str(), '|');
        assert(strings_view(parts@).len() == parts@.len());
        if parts.len() != 6 {
            return Err("Invalid number of sections in the request".to_owned());
        }
        proof {
            assert forall|i: int| 0 <= i < 6 implies (#[trigger] parts@[i])@ == split(
                data@,
                '|',
            )[i] by {
                assert(strings_view(parts@)[i] == parts@[i]@);
            }
        }
        let ip = match read_address(parts[0].as_str()) {
            Some(ip) => ip,
            None => {
                return Err("Invalid address in the request".to_owned());
            },
        };
        let config = match parse_u8(parts[3].as_str().as_bytes(), 10) {
            Ok(config) => config,
            Err(e) => {
                return Err(number_failure("Unable to parse: ", e));
            },
        };
        Ok(
            SuitPullRequest {
                ip,
                manifest: parts[1].clone(),
                riot_netif: parts[2].clone(),
                config,
                helpers: parts[4].clone(),
                erase: str_equal(parts[5].as_str(), "1"),
            },
        )
    }
}

/// Once a pair has failed to be read, the pairs after it change nothing.
proof fn lemma_failure_is_kept(bytes: Seq<u8>, n: nat, m: nat)
    requires
        n <= m,
        helper_ids(bytes, n) is Err,
    ensures
        helper_ids(bytes, m) == helper_ids(bytes, n),
    decreases m - n,
{
    if n < m {
        lemma_failure_is_kept(bytes, n, (m - 1) as nat);
    }
}

} // verus!
