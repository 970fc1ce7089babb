//! The tunnel configuration: an `Interface` section and any number of peer
//! sections, read from INI text into validated records.

use crate::address::{
    is_ip_address, is_ip_range, is_ip_text, is_socket_address, is_socket_text,
};
use crate::error::{
    prefixed, Error, ErrorView, MissingPropertyError, MissingSectionError, PeerConfigError,
    PeerConfigErrorView,
};
use crate::ini_file::{
    first_section, first_value, get, ini_reading, ini_sections, load_from_str, name_view,
    property_entries, section, sections, Entries, Sections,
};
use crate::text::{
    chars_of, fields, piece_of, pieces, read_unsigned, same_text, split, trim, trim_range,
    unsigned_upto,
};
use vstd::prelude::*;
use vstd::string::*;

verus! {

/// The local end of the tunnel. It holds the private key and is therefore
/// not printable.
#[derive(Clone, PartialEq, Eq)]
pub struct InterfaceConfig {
    pub private_key: String,
    /// Addresses in `ip/prefix` form; never empty.
    pub addresses: Vec<String>,
    pub dns: Option<Vec<String>>,
    pub listen_port: Option<u32>,
}

/// A remote end of the tunnel.
#[derive(Clone, Debug, PartialEq, Eq)]
pub struct PeerConfig {
    pub public_key: [u8; 32],
    /// A socket address, as written.
    pub endpoint: Option<String>,
    /// Networks in `ip/prefix` form; never empty.
    pub allowed_ips: Vec<String>,
}

/// A whole configuration: the interface and its peers in the order of the text.
#[derive(Clone, PartialEq, Eq)]
pub struct WireGuardConfig {
    pub interface: InterfaceConfig,
    pub peers: Vec<PeerConfig>,
}

/// An address with the length of its network prefix.
#[derive(Clone, Debug, PartialEq, Eq)]
pub struct AddressMask {
    /// The address, as written.
    pub ip: String,
    pub cidr: u8,
}

/// Mathematical value of an [`InterfaceConfig`].
pub struct InterfaceConfigView {
    pub private_key: Seq<char>,
    pub addresses: Seq<Seq<char>>,
    pub dns: Option<Seq<Seq<char>>>,
    pub listen_port: Option<u32>,
}

/// Mathematical value of a [`PeerConfig`].
pub struct PeerConfigView {
    pub public_key: Seq<u8>,
    pub endpoint: Option<Seq<char>>,
    pub allowed_ips: Seq<Seq<char>>,
}

/// Mathematical value of a [`WireGuardConfig`].
pub struct WireGuardConfigView {
    pub interface: InterfaceConfigView,
    pub peers: Seq<PeerConfigView>,
}

/// Mathematical value of an [`AddressMask`].
pub struct AddressMaskView {
    pub ip: Seq<char>,
    pub cidr: u8,
}

/// The texts that the strings of `v` hold.
pub open spec fn texts(v: Seq<String>) -> Seq<Seq<char>> {
    Seq::new(v.len(), |i: int| v[i]@)
}

/// The text that `s` holds, where it holds one.
pub open spec fn option_text(s: Option<String>) -> Option<Seq<char>> {
    match s {
        Some(s) => Some(s@),
        None => None,
    }
}

/// The mathematical values of the peers of `v`.
pub open spec fn peer_views(v: Seq<PeerConfig>) -> Seq<PeerConfigView> {
    Seq::new(v.len(), |i: int| v[i]@)
}

/// The mathematical values of the addresses of `v`.
pub open spec fn mask_views(v: Seq<AddressMask>) -> Seq<AddressMaskView> {
    Seq::new(v.len(), |i: int| v[i]@)
}

impl View for InterfaceConfig {
    type V = InterfaceConfigView;

    open spec fn view(&self) -> InterfaceConfigView {
        InterfaceConfigView {
            private_key: self.private_key@,
            addresses: texts(self.addresses@),
            dns: match self.dns {
                Some(d) => Some(texts(d@)),
                None => None,
            },
            listen_port: self.listen_port,
        }
    }
}

impl View for PeerConfig {
    type V = PeerConfigView;

    open spec fn view(&self) -> PeerConfigView {
        PeerConfigView {
            public_key: self.public_key@,
            endpoint: option_text(self.endpoint),
            allowed_ips: texts(self.allowed_ips@),
        }
    }
}

impl View for WireGuardConfig {
    type V = WireGuardConfigView;

    open spec fn view(&self) -> WireGuardConfigView {
        WireGuardConfigView { interface: self.interface@, peers: peer_views(self.peers@) }
    }
}

impl View for AddressMask {
    type V = AddressMaskView;

    open spec fn view(&self) -> AddressMaskView {
        AddressMaskView { ip: self.ip@, cidr: self.cidr }
    }
}

/// The mathematical value of an outcome.
pub open spec fn outcome<T: View>(r: Result<T, Error>) -> Result<T::V, ErrorView> {
    match r {
        Ok(v) => Ok(v@),
        Err(e) => Err(e@),
    }
}

/// The outcome of reading a list of texts.
pub open spec fn list_outcome(r: Result<Vec<String>, Error>) -> Result<Seq<Seq<char>>, ErrorView> {
    match r {
        Ok(v) => Ok(texts(v@)),
        Err(e) => Err(e@),
    }
}

/// The pieces of `parts` that are not blank, each trimmed.
pub open spec fn kept(parts: Seq<Seq<char>>) -> Seq<Seq<char>>
    decreases parts.len(),
{
    if parts.len() == 0 {
        seq![]
    } else if trim(parts[0]).len() == 0 {
        kept(parts.drop_first())
    } else {
        seq![trim(parts[0])] + kept(parts.drop_first())
    }
}

/// The items of a comma-separated list: each piece trimmed, blank pieces dropped.
pub open spec fn list_items(value: Seq<char>) -> Seq<Seq<char>> {
    kept(split(value, ','))
}

/// The pieces of a comma-separated list, each trimmed.
pub open spec fn trimmed_pieces(value: Seq<char>) -> Seq<Seq<char>> {
    let parts = split(value, ',');
    Seq::new(parts.len(), |i: int| trim(parts[i]))
}

/// Whether `item` has the form `ip/prefix`: it holds exactly one `/`, and
/// what stands before it is an IP address. What stands behind it is the
/// prefix; it is read when the entry is applied.
pub open spec fn is_cidr_entry(item: Seq<char>) -> bool {
    let parts = split(item, '/');
    parts.len() == 2 && is_ip_address(parts[0])
}

/// What is wrong with `item` as an `ip/prefix` entry of the property `field`:
/// it does not hold exactly one `/`, or what stands before the `/` is no IP
/// address. `None` where the entry is accepted.
pub open spec fn item_fault(field: Seq<char>, item: Seq<char>) -> Option<Seq<char>> {
    let parts = split(item, '/');
    if parts.len() != 2 {
        Some("Invalid "@ + field + " format: "@ + item)
    } else if !is_ip_address(parts[0]) {
        Some("Invalid IP in "@ + field + ": "@ + parts[0])
    } else {
        None
    }
}

/// The fault of the first of `items` that has one.
pub open spec fn first_fault(field: Seq<char>, items: Seq<Seq<char>>) -> Option<Seq<char>>
    decreases items.len(),
{
    if items.len() == 0 {
        None
    } else {
        match item_fault(field, items[0]) {
            Some(m) => Some(m),
            None => first_fault(field, items.drop_first()),
        }
    }
}

/// The entries that the value of the property `field` lists: the items of
/// the comma-separated `value`, provided that none has a fault and that there
/// is at least one.
pub open spec fn cidr_list(field: Seq<char>, value: Seq<char>) -> Result<Seq<Seq<char>>, ErrorView> {
    let items = list_items(value);
    match first_fault(field, items) {
        Some(m) => Err(ErrorView::InvalidFormat(m)),
        None => if items.len() == 0 {
            Err(ErrorView::MissingProperty(field + " cannot be empty"@))
        } else {
            Ok(items)
        },
    }
}

/// There is at least one of `items`, and every one has the form `ip/prefix`:
/// exactly one `/`, with an IP address before it.
pub open spec fn well_formed_entries(items: Seq<Seq<char>>) -> bool {
    &&& items.len() > 0
    &&& forall|i: int| 0 <= i < items.len() ==> is_cidr_entry(#[trigger] items[i])
}

/// The interface that a section with the pairs `entries` describes.
pub open spec fn interface_of(entries: Entries) -> Result<InterfaceConfigView, ErrorView> {
    match first_value(entries, "PrivateKey"@) {
        None => Err(ErrorView::MissingProperty("PrivateKey is missing"@)),
        Some(private_key) => match first_value(entries, "Address"@) {
            None => Err(ErrorView::MissingProperty("Address is missing"@)),
            Some(value) => match cidr_list("Address"@, value) {
                Err(e) => Err(e),
                Ok(addresses) => {
                    let dns = match first_value(entries, "DNS"@) {
                        Some(d) => Some(trimmed_pieces(d)),
                        None => None,
                    };
                    match first_value(entries, "ListenPort"@) {
                        None => Ok(
                            InterfaceConfigView { private_key, addresses, dns, listen_port: None },
                        ),
                        Some(port) => match unsigned_upto(port, 0xffff_ffff) {
                            None => Err(ErrorView::InvalidFormat("Invalid ListenPort: "@ + port)),
                            Some(n) => Ok(
                                InterfaceConfigView {
                                    private_key,
                                    addresses,
                                    dns,
                                    listen_port: Some(n as u32),
                                },
                            ),
                        },
                    }
                },
            },
        },
    }
}

impl InterfaceConfig {
    /// The addresses are at least one, each of the form `ip/prefix`: exactly
    /// one `/`, with an IP address before it.
    pub open spec fn wf(&self) -> bool {
        well_formed_entries(texts(self.addresses@))
    }

    /// Reads the interface from the section that describes it.
    pub fn load(properties: &ini::Properties) -> (r: Result<InterfaceConfig, Error>)
        ensures
            outcome(r) == interface_of(property_entries(*properties)),
            r matches Ok(c) ==> c.wf(),
    {
        let private_key = match get(properties, "PrivateKey") {
            Some(v) => String::from_str(v),
            None => {
                return Err(
                    Error::MissingProperty(
                        MissingPropertyError(String::from_str("PrivateKey is missing")),
                    ),
                );
            },
        };
        let value = match get(properties, "Address") {
            Some(v) => v,
            None => {
                return Err(
                    Error::MissingProperty(
                        MissingPropertyError(String::from_str("Address is missing")),
                    ),
                );
            },
        };
        let addresses = match load_cidr_list("Address", value) {
            Ok(a) => a,
            Err(e) => {
                return Err(e);
            },
        };
        let dns = match get(properties, "DNS") {
            Some(d) => Some(load_trimmed_pieces(d)),
            None => None,
        };
        let listen_port = match get(properties, "ListenPort") {
            Some(port) => {
                let cs = chars_of(port);
                assert(cs@.subrange(0, cs@.len() as int) == cs@);
                match read_unsigned(&cs, 0, cs.len(), 0xffff_ffff) {
                    Some(n) => Some(n as u32),
                    None => {
                        return Err(
                            Error::InvalidFormat { message: prefixed("Invalid ListenPort: ", port) },
                        );
                    },
                }
            },
            None => None,
        };
        Ok(InterfaceConfig { private_key, addresses, dns, listen_port })
    }
}

/// Reads the value of the property `field` as a list of `ip/prefix` entries.
pub fn load_cidr_list(field: &str, value: &str) -> (r: Result<Vec<String>, Error>)
    ensures
        list_outcome(r) == cidr_list(field@, value@),
        r matches Ok(v) ==> well_formed_entries(texts(v@)),
{
    let cs = chars_of(value);
    let n = cs.len();
    assert(cs@.subrange(0, n as int) == cs@);
    let ranges = fields(&cs, 0, n, ',');
    let ghost parts = split(value@, ',');
    let mut out: Vec<String> = Vec::new();
    let mut k: usize = 0;
    proof {
        assert(parts.skip(0) == parts);
        assert(texts(out@) + kept(parts) == kept(parts));
    }
    while k < ranges.len()
        invariant
            k <= ranges@.len(),
            cs@ == value@,
            n == cs@.len(),
            parts == split(value@, ','),
            parts == pieces(cs@, ranges@),
            forall|j: int|
                0 <= j < ranges@.len() ==> (#[trigger] ranges@[j]).0 <= ranges@[j].1 <= n,
            kept(parts) == texts(out@) + kept(parts.skip(k as int)),
            first_fault(field@, kept(parts)) == first_fault(field@, kept(parts.skip(k as int))),
            forall|j: int| 0 <= j < out@.len() ==> is_cidr_entry(#[trigger] texts(out@)[j]),
        decreases ranges@.len() - k,
    {
        let (lo, hi) = ranges[k];
        let (a, b) = trim_range(&cs, lo, hi);
        let ghost rest = parts.skip(k as int);
        let ghost item = cs@.subrange(a as int, b as int);
        proof {
            assert(rest[0] == parts[k as int]);
            assert(parts[k as int] == cs@.subrange(lo as int, hi as int));
            assert(rest.drop_first() == parts.skip(k + 1));
            assert(item == trim(rest[0]));
        }
        if a < b {
            let halves = fields(&cs, a, b, '/');
            proof {
                assert(kept(rest) == seq![item] + kept(parts.skip(k + 1)));
                assert(kept(rest)[0] == item);
                assert(kept(rest).drop_first() == kept(parts.skip(k + 1)));
            }
            if halves.len() != 2 {
                let whole = piece_of(value, a, b);
                let message = prefixed("Invalid ", field).concat(" format: ").concat(
                    whole.as_str(),
                );
                return Err(Error::InvalidFormat { message });
            }
            let (p, q) = halves[0];
            assert(split(item, '/')[0] == cs@.subrange(p as int, q as int));
            if !is_ip_range(&cs, p, q) {
                let host = piece_of(value, p, q);
                let message = prefixed("Invalid IP in ", field).concat(": ").concat(host.as_str());
                return Err(Error::InvalidFormat { message });
            }
            let ghost before = texts(out@);
            out.push(piece_of(value, a, b));
            proof {
                assert(texts(out@) == before + seq![item]);
                assert(kept(parts) == texts(out@) + kept(parts.skip(k + 1)));
            }
        }
        k = k + 1;
    }
    proof {
        assert(parts.skip(k as int) == Seq::<Seq<char>>::empty());
        assert(kept(parts) == texts(out@));
    }
    if out.len() == 0 {
        let message = String::from_str(field).concat(" cannot be empty");
        return Err(Error::MissingProperty(MissingPropertyError(message)));
    }
    Ok(out)
}

/// Reads `value` as a comma-separated list and trims each piece.
pub fn load_trimmed_pieces(value: &str) -> (r: Vec<String>)
    ensures
        texts(r@) == trimmed_pieces(value@),
{
    let cs = chars_of(value);
    let n = cs.len();
    assert(cs@.subrange(0, n as int) == cs@);
    let ranges = fields(&cs, 0, n, ',');
    let ghost parts = split(value@, ',');
    let mut out: Vec<String> = Vec::new();
    let mut k: usize = 0;
    while k < ranges.len()
        invariant
            k <= ranges@.len(),
            cs@ == value@,
            n == cs@.len(),
            parts == pieces(cs@, ranges@),
            forall|j: int|
                0 <= j < ranges@.len() ==> (#[trigger] ranges@[j]).0 <= ranges@[j].1 <= n,
            out@.len() == k,
            forall|j: int| 0 <= j < k ==> (#[trigger] out@[j])@ == trim(parts[j]),
        decreases ranges@.len() - k,
    {
        let (lo, hi) = ranges[k];
        let (a, b) = trim_range(&cs, lo, hi);
        assert(parts[k as int] == cs@.subrange(lo as int, hi as int));
        out.push(piece_of(value, a, b));
        k = k + 1;
    }
    assert(texts(out@) =~= trimmed_pieces(value@));
    out
}

/// What the base64 decoder makes of a text on the standard alphabet with
/// padding: the bytes, or the description of what it refused.
pub uninterp spec fn base64_decoding(text: Seq<char>) -> Result<Seq<u8>, Seq<char>>;

/// `Engine::decode` of the base64 crate, on its `STANDARD` engine. The
/// description of a failure is the one that the decoder's error displays.
#[verifier::external_body]
fn base64_decode(text: &str) -> (r: Result<Vec<u8>, String>)
    ensures
        match r {
            Ok(bytes) => base64_decoding(text@) == Ok::<Seq<u8>, Seq<char>>(bytes@),
            Err(reason) => base64_decoding(text@) == Err::<Seq<u8>, Seq<char>>(reason@),
        },
{
    match base64::Engine::decode(&base64::prelude::BASE64_STANDARD, text) {
        Ok(bytes) => Ok(bytes),
        Err(e) => Err(format!("{}", e)),
    }
}

/// The public key that `bytes` are: themselves, where they are exactly 32.
pub open spec fn key_of_bytes(bytes: Seq<u8>) -> Result<Seq<u8>, ErrorView> {
    if bytes.len() == 32 {
        Ok(bytes)
    } else {
        Err(
            ErrorView::PeerConfig(
                PeerConfigErrorView::InvalidPublicKey("Public key must be 32 bytes"@),
            ),
        )
    }
}

/// The public key that `text` writes in base64.
pub open spec fn public_key_of(text: Seq<char>) -> Result<Seq<u8>, ErrorView> {
    match base64_decoding(text) {
        Err(reason) => Err(ErrorView::Base64(reason)),
        Ok(bytes) => key_of_bytes(bytes),
    }
}

/// The outcome of reading a key.
pub open spec fn key_outcome(r: Result<[u8; 32], Error>) -> Result<Seq<u8>, ErrorView> {
    match r {
        Ok(k) => Ok(k@),
        Err(e) => Err(e@),
    }
}

/// Takes decoded bytes as a public key.
pub fn public_key_from_bytes(bytes: &Vec<u8>) -> (r: Result<[u8; 32], Error>)
    ensures
        key_outcome(r) == key_of_bytes(bytes@),
{
    if bytes.len() != 32 {
        return Err(
            Error::PeerConfig(
                PeerConfigError::InvalidPublicKey {
                    message: String::from_str("Public key must be 32 bytes"),
                },
            ),
        );
    }
    let mut key = [0u8;32];
    let mut i: usize = 0;
    while i < 32
        invariant
            i <= 32,
            bytes@.len() == 32,
            forall|j: int| 0 <= j < i ==> key@[j] == bytes@[j],
        decreases 32 - i,
    {
        key[i] = bytes[i];
        i = i + 1;
    }
    assert(key@ =~= bytes@);
    Ok(key)
}

/// Reads a public key from its base64 text.
pub fn parse_public_key(text: &str) -> (r: Result<[u8; 32], Error>)
    ensures
        key_outcome(r) == public_key_of(text@),
{
    match base64_decode(text) {
        Ok(bytes) => public_key_from_bytes(&bytes),
        Err(reason) => Err(Error::Base64(reason)),
    }
}

/// A key of exactly 32 bytes reads back from its base64 text as the same
/// bytes; bytes of any other length are refused as an invalid public key.
pub proof fn lemma_public_key_round_trip(text: Seq<char>, bytes: Seq<u8>)
    requires
        base64_decoding(text) == Ok::<Seq<u8>, Seq<char>>(bytes),
    ensures
        bytes.len() == 32 ==> public_key_of(text) == Ok::<Seq<u8>, ErrorView>(bytes),
        bytes.len() != 32 ==> public_key_of(text) matches Err(
            ErrorView::PeerConfig(PeerConfigErrorView::InvalidPublicKey(_)),
        ),
{
}

/// The peer that a section with the pairs `entries` describes.
pub open spec fn peer_of(entries: Entries) -> Result<PeerConfigView, ErrorView> {
    match first_value(entries, "PublicKey"@) {
        None => Err(ErrorView::MissingProperty("PublicKey is missing"@)),
        Some(key_text) => match public_key_of(key_text) {
            Err(e) => Err(e),
            Ok(public_key) => {
                let endpoint = first_value(entries, "Endpoint"@);
                if endpoint is Some && !is_socket_address(endpoint.unwrap()) {
                    Err(
                        ErrorView::PeerConfig(
                            PeerConfigErrorView::EndPoint("invalid socket address syntax"@),
                        ),
                    )
                } else {
                    match first_value(entries, "AllowedIPs"@) {
                        None => Err(ErrorView::MissingProperty("AllowedIPs is missing"@)),
                        Some(value) => match cidr_list("AllowedIPs"@, value) {
                            Err(e) => Err(e),
                            Ok(allowed_ips) => Ok(
                                PeerConfigView { public_key, endpoint, allowed_ips },
                            ),
                        },
                    }
                }
            },
        },
    }
}

impl PeerConfig {
    /// The allowed networks are at least one, each of the form `ip/prefix`:
    /// exactly one `/`, with an IP address before it. The endpoint, where
    /// there is one, is a socket address.
    pub open spec fn wf(&self) -> bool {
        &&& well_formed_entries(texts(self.allowed_ips@))
        &&& (self.endpoint matches Some(e) ==> is_socket_address(e@))
    }

    /// Reads a peer from the section that describes it.
    pub fn load(properties: &ini::Properties) -> (r: Result<PeerConfig, Error>)
        ensures
            outcome(r) == peer_of(property_entries(*properties)),
            r matches Ok(p) ==> p.wf(),
    {
        let key_text = match get(properties, "PublicKey") {
            Some(v) => v,
            None => {
                return Err(
                    Error::MissingProperty(
                        MissingPropertyError(String::from_str("PublicKey is missing")),
                    ),
                );
            },
        };
        let public_key = match parse_public_key(key_text) {
            Ok(k) => k,
            Err(e) => {
                return Err(e);
            },
        };
        let endpoint = match get(properties, "Endpoint") {
            Some(e) => {
                if !is_socket_text(e) {
                    return Err(
                        Error::PeerConfig(
                            PeerConfigError::EndPoint(
                                String::from_str("invalid socket address syntax"),
                            ),
                        ),
                    );
                }
                Some(String::from_str(e))
            },
            None => None,
        };
        let value = match get(properties, "AllowedIPs") {
            Some(v) => v,
            None => {
                return Err(
                    Error::MissingProperty(
                        MissingPropertyError(String::from_str("AllowedIPs is missing")),
                    ),
                );
            },
        };
        let allowed_ips = match load_cidr_list("AllowedIPs", value) {
            Ok(a) => a,
            Err(e) => {
                return Err(e);
            },
        };
        Ok(PeerConfig { public_key, endpoint, allowed_ips })
    }
}

/// Whether a section of this name describes a peer: its name starts with `Peer`.
pub open spec fn is_peer_section(name: Option<Seq<char>>) -> bool {
    name matches Some(n) && "Peer"@.is_prefix_of(n)
}

/// `r` with `done` in front of what it lists.
pub open spec fn after(done: Seq<PeerConfigView>, r: Result<Seq<PeerConfigView>, ErrorView>) -> Result<
    Seq<PeerConfigView>,
    ErrorView,
> {
    match r {
        Ok(rest) => Ok(done + rest),
        Err(e) => Err(e),
    }
}

/// The peers that `sections` describe, in their order; the failure of the
/// first peer section that cannot be read, where there is one.
pub open spec fn peers_of(sections: Sections) -> Result<Seq<PeerConfigView>, ErrorView>
    decreases sections.len(),
{
    if sections.len() == 0 {
        Ok(seq![])
    } else if is_peer_section(sections[0].0) {
        match peer_of(sections[0].1) {
            Err(e) => Err(e),
            Ok(p) => after(seq![p], peers_of(sections.drop_first())),
        }
    } else {
        peers_of(sections.drop_first())
    }
}

/// The configuration that the sections of a document describe.
pub open spec fn config_of(sections: Sections) -> Result<WireGuardConfigView, ErrorView> {
    match first_section(sections, "Interface"@) {
        None => Err(ErrorView::MissingSection("Interface"@)),
        Some(entries) => match interface_of(entries) {
            Err(e) => Err(e),
            Ok(interface) => match peers_of(sections) {
                Err(e) => Err(e),
                Ok(peers) => Ok(WireGuardConfigView { interface, peers }),
            },
        },
    }
}

/// The configuration that a text describes.
pub open spec fn config_of_text(text: Seq<char>) -> Result<WireGuardConfigView, ErrorView> {
    match ini_reading(text) {
        Err(reason) => Err(ErrorView::Ini(reason)),
        Ok(sections) => config_of(sections),
    }
}

impl WireGuardConfig {
    pub open spec fn wf(&self) -> bool {
        &&& self.interface.wf()
        &&& forall|i: int| 0 <= i < self.peers@.len() ==> (#[trigger] self.peers@[i]).wf()
    }
}

fn is_peer_name(name: &Option<String>) -> (b: bool)
    ensures
        b == is_peer_section(name_view(*name)),
{
    match name {
        Some(n) => {
            let cs = chars_of(n.as_str());
            let prefix = chars_of("Peer");
            if prefix.len() <= cs.len() {
                same_text(&cs, 0, prefix.len(), &prefix)
            } else {
                false
            }
        },
        None => false,
    }
}

/// Reads a configuration from a document.
pub fn load_config(document: &ini::Ini) -> (r: Result<WireGuardConfig, Error>)
    ensures
        outcome(r) == config_of(ini_sections(*document)),
        r matches Ok(c) ==> c.wf(),
{
    let interface_section = match section(document, "Interface") {
        Some(p) => p,
        None => {
            return Err(Error::MissingSection(MissingSectionError(String::from_str("Interface"))));
        },
    };
    let interface = match InterfaceConfig::load(interface_section) {
        Ok(i) => i,
        Err(e) => {
            return Err(e);
        },
    };
    let all = sections(document);
    let ghost model = ini_sections(*document);
    let mut peers: Vec<PeerConfig> = Vec::new();
    let mut k: usize = 0;
    proof {
        assert(model.skip(0) == model);
        match peers_of(model) {
            Ok(rest) => {
                assert(peer_views(peers@) + rest == rest);
            },
            Err(_) => {},
        }
    }
    while k < all.len()
        invariant
            k <= all@.len(),
            model == ini_sections(*document),
            all@.len() == model.len(),
            forall|i: int|
                0 <= i < all@.len() ==> (name_view((#[trigger] all@[i]).0), property_entries(
                    *all@[i].1,
                )) == model[i],
            peers_of(model) == after(peer_views(peers@), peers_of(model.skip(k as int))),
            forall|i: int| 0 <= i < peers@.len() ==> (#[trigger] peers@[i]).wf(),
            first_section(model, "Interface"@) matches Some(entries) && interface_of(entries)
                == Ok::<InterfaceConfigView, ErrorView>(interface@),
            interface.wf(),
        decreases all@.len() - k,
    {
        let ghost rest = model.skip(k as int);
        proof {
            assert(rest[0] == model[k as int]);
            assert(rest.drop_first() == model.skip(k + 1));
        }
        if is_peer_name(&all[k].0) {
            let peer = match PeerConfig::load(all[k].1) {
                Ok(p) => p,
                Err(e) => {
                    return Err(e);
                },
            };
            let ghost before = peer_views(peers@);
            let ghost view = peer@;
            peers.push(peer);
            proof {
                assert(peer_views(peers@) == before + seq![view]);
                match peers_of(model.skip(k + 1)) {
                    Ok(tail) => {
                        assert(before + (seq![view] + tail) == (before + seq![view]) + tail);
                    },
                    Err(_) => {},
                }
            }
        }
        k = k + 1;
    }
    proof {
        assert(model.skip(k as int) == Sections::empty());
        assert(peer_views(peers@) + Seq::<PeerConfigView>::empty() == peer_views(peers@));
    }
    Ok(WireGuardConfig { interface, peers })
}

/// Reads a configuration from INI text.
pub fn parse_wg_config(conf_str: &str) -> (r: Result<WireGuardConfig, Error>)
    ensures
        outcome(r) == config_of_text(conf_str@),
        r matches Ok(c) ==> c.wf(),
{
    match load_from_str(conf_str) {
        Ok(document) => load_config(&document),
        Err(reason) => Err(Error::Ini(reason)),
    }
}

/// The fault of a list is the fault of one of its items, and a list where
/// some item has a fault has one.
proof fn lemma_first_fault(field: Seq<char>, items: Seq<Seq<char>>)
    ensures
        first_fault(field, items) is Some <==> exists|i: int|
            0 <= i < items.len() && item_fault(field, #[trigger] items[i]) is Some,
    decreases items.len(),
{
    if items.len() > 0 {
        let rest = items.drop_first();
        lemma_first_fault(field, rest);
        if item_fault(field, items[0]) is None {
            if first_fault(field, items) is Some {
                let i = choose|i: int|
                    0 <= i < rest.len() && item_fault(field, #[trigger] rest[i]) is Some;
                assert(items[i + 1] == rest[i]);
            }
            if exists|i: int|
                0 <= i < items.len() && item_fault(field, #[trigger] items[i]) is Some {
                let i = choose|i: int|
                    0 <= i < items.len() && item_fault(field, #[trigger] items[i]) is Some;
                assert(rest[i - 1] == items[i]);
            }
        }
    }
}

/// How a list of `ip/prefix` entries is judged. An item that does not hold
/// exactly one `/`, or that has something other than an IP address before
/// it, makes the list an invalid format. A list without items is a missing
/// property. Every other list is read as its items, all of them and in
/// their order.
pub proof fn lemma_cidr_list_validation(field: Seq<char>, value: Seq<char>)
    ensures
        (exists|i: int|
            0 <= i < list_items(value).len() && {
                let parts = split(#[trigger] list_items(value)[i], '/');
                parts.len() != 2 || !is_ip_address(parts[0])
            }) ==> cidr_list(field, value) matches Err(ErrorView::InvalidFormat(_)),
        list_items(value).len() == 0 ==> cidr_list(field, value) == Err::<
            Seq<Seq<char>>,
            ErrorView,
        >(ErrorView::MissingProperty(field + " cannot be empty"@)),
        cidr_list(field, value) matches Ok(items) ==> items == list_items(value)
            && well_formed_entries(items),
        cidr_list(field, value) is Ok <==> well_formed_entries(list_items(value)),
{
    let items = list_items(value);
    lemma_first_fault(field, items);
    if exists|i: int|
        0 <= i < items.len() && {
            let parts = split(#[trigger] items[i], '/');
            parts.len() != 2 || !is_ip_address(parts[0])
        } {
        let i = choose|i: int|
            0 <= i < items.len() && {
                let parts = split(#[trigger] items[i], '/');
                parts.len() != 2 || !is_ip_address(parts[0])
            };
        assert(item_fault(field, items[i]) is Some);
    }
    if first_fault(field, items) is None {
        assert forall|i: int| 0 <= i < items.len() implies is_cidr_entry(#[trigger] items[i]) by {
            assert(item_fault(field, items[i]) is None);
        }
    } else {
        let i = choose|i: int|
            0 <= i < items.len() && item_fault(field, #[trigger] items[i]) is Some;
        assert(!is_cidr_entry(items[i]));
    }
}

/// The pairs of those of `sections` that describe a peer, in their order.
pub open spec fn peer_sections(sections: Sections) -> Seq<Entries>
    decreases sections.len(),
{
    if sections.len() == 0 {
        seq![]
    } else if is_peer_section(sections[0].0) {
        seq![sections[0].1] + peer_sections(sections.drop_first())
    } else {
        peer_sections(sections.drop_first())
    }
}

/// The peers of a document are read one from each peer section, in the order
/// of the sections; reading them fails exactly when some peer section cannot
/// be read.
proof fn lemma_peers_of(sections: Sections)
    ensures
        peers_of(sections) matches Ok(peers) ==> peers.len() == peer_sections(sections).len()
            && forall|i: int|
            0 <= i < peers.len() ==> peer_of(peer_sections(sections)[i]) == Ok::<
                PeerConfigView,
                ErrorView,
            >(#[trigger] peers[i]),
        peers_of(sections) is Ok <==> forall|i: int|
            0 <= i < peer_sections(sections).len() ==> peer_of(
                #[trigger] peer_sections(sections)[i],
            ) is Ok,
    decreases sections.len(),
{
    if sections.len() > 0 {
        let rest = sections.drop_first();
        lemma_peers_of(rest);
        if is_peer_section(sections[0].0) {
            let all = peer_sections(sections);
            let tail = peer_sections(rest);
            assert(all[0] == sections[0].1);
            assert forall|i: int| 1 <= i < all.len() implies all[i] == tail[i - 1] by {}
            match peer_of(sections[0].1) {
                Ok(p) => {
                    match peers_of(rest) {
                        Ok(more) => {
                            let peers = seq![p] + more;
                            assert forall|i: int| 0 <= i < peers.len() implies peer_of(all[i])
                                == Ok::<PeerConfigView, ErrorView>(#[trigger] peers[i]) by {
                                if i > 0 {
                                    assert(peers[i] == more[i - 1]);
                                    assert(all[i] == tail[i - 1]);
                                }
                            }
                            assert forall|i: int| 0 <= i < all.len() implies peer_of(
                                #[trigger] all[i],
                            ) is Ok by {
                                if i > 0 {
                                    assert(all[i] == tail[i - 1]);
                                }
                            }
                        },
                        Err(_) => {
                            let j = choose|j: int|
                                0 <= j < tail.len() && !(peer_of(#[trigger] tail[j]) is Ok);
                            assert(all[j + 1] == tail[j]);
                        },
                    }
                },
                Err(_) => {
                    assert(!(peer_of(all[0]) is Ok));
                },
            }
        }
    }
}

/// A configuration lists one peer for each peer section of the document, in
/// the order of the document, and drops none: where the interface section
/// and every peer section can be read, so can the document.
pub proof fn lemma_peers_in_source_order(sections: Sections)
    ensures
        config_of(sections) matches Ok(c) ==> c.peers.len() == peer_sections(sections).len()
            && forall|i: int|
            0 <= i < c.peers.len() ==> peer_of(peer_sections(sections)[i]) == Ok::<
                PeerConfigView,
                ErrorView,
            >(#[trigger] c.peers[i]),
        (first_section(sections, "Interface"@) matches Some(entries) && interface_of(entries) is Ok
            && forall|i: int|
            0 <= i < peer_sections(sections).len() ==> peer_of(
                #[trigger] peer_sections(sections)[i],
            ) is Ok) ==> config_of(sections) is Ok,
{
    lemma_peers_of(sections);
}

/// The address and prefix length that `addr` writes as `ip/prefix`: exactly
/// one `/`, an IP address before it, and behind it a number of at most 255.
pub open spec fn address_mask_of(addr: Seq<char>) -> Result<AddressMaskView, ErrorView> {
    let parts = split(addr, '/');
    if parts.len() != 2 {
        Err(ErrorView::InvalidFormat("Invalid IP/CIDR format: "@ + addr))
    } else if !is_ip_address(parts[0]) {
        Err(ErrorView::InvalidFormat("Invalid IP: "@ + parts[0]))
    } else {
        match unsigned_upto(parts[1], 255) {
            None => Err(ErrorView::InvalidFormat("Invalid CIDR prefix: "@ + parts[1])),
            Some(n) => Ok(AddressMaskView { ip: parts[0], cidr: n as u8 }),
        }
    }
}

/// `r` with `done` in front of what it lists.
pub open spec fn masks_after(
    done: Seq<AddressMaskView>,
    r: Result<Seq<AddressMaskView>, ErrorView>,
) -> Result<Seq<AddressMaskView>, ErrorView> {
    match r {
        Ok(rest) => Ok(done + rest),
        Err(e) => Err(e),
    }
}

/// What `items` write, each as `ip/prefix`; the failure of the first that
/// writes none.
pub open spec fn address_masks_of(items: Seq<Seq<char>>) -> Result<Seq<AddressMaskView>, ErrorView>
    decreases items.len(),
{
    if items.len() == 0 {
        Ok(seq![])
    } else {
        match address_mask_of(items[0]) {
            Err(e) => Err(e),
            Ok(m) => masks_after(seq![m], address_masks_of(items.drop_first())),
        }
    }
}

/// `items` as the addresses of name servers: themselves, where each is an
/// IP address.
pub open spec fn dns_servers_of(items: Seq<Seq<char>>) -> Result<Seq<Seq<char>>, ErrorView> {
    if forall|i: int| 0 <= i < items.len() ==> is_ip_address(#[trigger] items[i]) {
        Ok(items)
    } else {
        Err(ErrorView::InvalidFormat("Invalid DNS IP: invalid IP address syntax"@))
    }
}

/// The outcome of reading a list of addresses.
pub open spec fn masks_outcome(r: Result<Vec<AddressMask>, Error>) -> Result<
    Seq<AddressMaskView>,
    ErrorView,
> {
    match r {
        Ok(v) => Ok(mask_views(v@)),
        Err(e) => Err(e@),
    }
}

/// Reads `addr` as an address with the length of its prefix.
pub fn parse_ip_addr_mask(addr: &str) -> (r: Result<AddressMask, Error>)
    ensures
        outcome(r) == address_mask_of(addr@),
        r matches Ok(m) ==> is_ip_address(m.ip@),
{
    let cs = chars_of(addr);
    let n = cs.len();
    assert(cs@.subrange(0, n as int) == cs@);
    let parts = fields(&cs, 0, n, '/');
    if parts.len() != 2 {
        return Err(Error::InvalidFormat { message: prefixed("Invalid IP/CIDR format: ", addr) });
    }
    let (a, b) = parts[0];
    let (c, d) = parts[1];
    proof {
        let model = split(addr@, '/');
        assert(model[0] == cs@.subrange(a as int, b as int));
        assert(model[1] == cs@.subrange(c as int, d as int));
    }
    if !is_ip_range(&cs, a, b) {
        let host = piece_of(addr, a, b);
        return Err(Error::InvalidFormat { message: prefixed("Invalid IP: ", host.as_str()) });
    }
    match read_unsigned(&cs, c, d, 255) {
        Some(prefix) => Ok(AddressMask { ip: piece_of(addr, a, b), cidr: prefix as u8 }),
        None => {
            let written = piece_of(addr, c, d);
            Err(
                Error::InvalidFormat {
                    message: prefixed("Invalid CIDR prefix: ", written.as_str()),
                },
            )
        },
    }
}

/// Reads each of `items` as an address with the length of its prefix.
pub fn parse_ip_addr_masks(items: &Vec<String>) -> (r: Result<Vec<AddressMask>, Error>)
    ensures
        masks_outcome(r) == address_masks_of(texts(items@)),
{
    let ghost all = texts(items@);
    let mut out: Vec<AddressMask> = Vec::new();
    let mut k: usize = 0;
    proof {
        assert(all.skip(0) == all);
        match address_masks_of(all) {
            Ok(rest) => {
                assert(mask_views(out@) + rest == rest);
            },
            Err(_) => {},
        }
    }
    while k < items.len()
        invariant
            k <= items@.len(),
            all == texts(items@),
            address_masks_of(all) == masks_after(
                mask_views(out@),
                address_masks_of(all.skip(k as int)),
            ),
        decreases items@.len() - k,
    {
        let ghost rest = all.skip(k as int);
        proof {
            assert(rest[0] == items@[k as int]@);
            assert(rest.drop_first() == all.skip(k + 1));
        }
        let mask = match parse_ip_addr_mask(items[k].as_str()) {
            Ok(m) => m,
            Err(e) => {
                return Err(e);
            },
        };
        let ghost before = mask_views(out@);
        let ghost view = mask@;
        out.push(mask);
        proof {
            assert(mask_views(out@) == before + seq![view]);
            match address_masks_of(all.skip(k + 1)) {
                Ok(more) => {
                    assert(before + (seq![view] + more) == (before + seq![view]) + more);
                },
                Err(_) => {},
            }
        }
        k = k + 1;
    }
    proof {
        assert(all.skip(k as int) == Seq::<Seq<char>>::empty());
        assert(mask_views(out@) + Seq::<AddressMaskView>::empty() == mask_views(out@));
    }
    Ok(out)
}

/// Takes `items` as the addresses of name servers.
pub fn parse_dns_servers(items: &Vec<String>) -> (r: Result<Vec<String>, Error>)
    ensures
        list_outcome(r) == dns_servers_of(texts(items@)),
{
    let ghost all = texts(items@);
    let mut out: Vec<String> = Vec::new();
    let mut k: usize = 0;
    while k < items.len()
        invariant
            k <= items@.len(),
            all == texts(items@),
            out@.len() == k,
            forall|i: int| 0 <= i < k ==> (#[trigger] out@[i])@ == all[i],
            forall|i: int| 0 <= i < k ==> is_ip_address(#[trigger] all[i]),
        decreases items@.len() - k,
    {
        if !is_ip_text(items[k].as_str()) {
            assert(!is_ip_address(all[k as int]));
            return Err(
                Error::InvalidFormat {
                    message: String::from_str("Invalid DNS IP: invalid IP address syntax"),
                },
            );
        }
        out.push(items[k].clone());
        k = k + 1;
    }
    assert(texts(out@) =~= all);
    Ok(out)
}

/// A request to the interface manager. It may hold the private key and is
/// therefore not printable.
#[derive(Clone, PartialEq, Eq)]
pub enum ManagerAction {
    CreateInterface,
    ConfigureInterface { name: String, private_key: String, addresses: Vec<AddressMask>, port: u32 },
    ConfigureDns { servers: Vec<String> },
    ConfigurePeer { public_key: [u8; 32], allowed_ips: Vec<AddressMask>, endpoint: Option<String> },
    RemoveInterface,
}

/// Mathematical value of a [`ManagerAction`].
pub enum ManagerActionView {
    CreateInterface,
    ConfigureInterface {
        name: Seq<char>,
        private_key: Seq<char>,
        addresses: Seq<AddressMaskView>,
        port: u32,
    },
    ConfigureDns { servers: Seq<Seq<char>> },
    ConfigurePeer {
        public_key: Seq<u8>,
        allowed_ips: Seq<AddressMaskView>,
        endpoint: Option<Seq<char>>,
    },
    RemoveInterface,
}

impl View for ManagerAction {
    type V = ManagerActionView;

    open spec fn view(&self) -> ManagerActionView {
        match self {
            ManagerAction::CreateInterface => ManagerActionView::CreateInterface,
            ManagerAction::ConfigureInterface {
                name,
                private_key,
                addresses,
                port,
            } => ManagerActionView::ConfigureInterface {
                name: name@,
                private_key: private_key@,
                addresses: mask_views(addresses@),
                port: *port,
            },
            ManagerAction::ConfigureDns { servers } => ManagerActionView::ConfigureDns {
                servers: texts(servers@),
            },
            ManagerAction::ConfigurePeer {
                public_key,
                allowed_ips,
                endpoint,
            } => ManagerActionView::ConfigurePeer {
                public_key: public_key@,
                allowed_ips: mask_views(allowed_ips@),
                endpoint: option_text(*endpoint),
            },
            ManagerAction::RemoveInterface => ManagerActionView::RemoveInterface,
        }
    }
}

/// How far the bringing up of a tunnel has come: what is to be asked of the
/// interface manager next.
#[derive(Clone, Copy, Debug, PartialEq, Eq, Structural)]
pub enum Stage {
    /// The interface is to be created.
    Create,
    /// The interface is to be given its key, addresses and port.
    Interface,
    /// The name servers are to be set, where the configuration names some.
    Dns,
    /// The peer at this index is to be configured, where there is one.
    Peer(usize),
}

/// The request for the peer at index `i`, or `None` behind the last peer.
pub open spec fn peer_step(config: WireGuardConfigView, i: int) -> Result<
    Option<(ManagerActionView, Stage)>,
    ErrorView,
> {
    if !(0 <= i < config.peers.len()) {
        Ok(None)
    } else {
        match address_masks_of(config.peers[i].allowed_ips) {
            Err(e) => Err(e),
            Ok(allowed_ips) => Ok(
                Some(
                    (
                        ManagerActionView::ConfigurePeer {
                            public_key: config.peers[i].public_key,
                            allowed_ips,
                            endpoint: config.peers[i].endpoint,
                        },
                        Stage::Peer((i + 1) as usize),
                    ),
                ),
            ),
        }
    }
}

/// The next request when bringing up the tunnel that `config` describes, at
/// the given stage, together with the stage that follows it: the interface
/// is created, then given its key, its addresses and the port that the
/// configuration names (`port` where it names none), then its name servers
/// where the configuration names some, then each peer in turn. `None` when
/// nothing is left to ask. What the configuration writes is read only when
/// its turn comes, so a value that cannot be read stops the work at that
/// stage, with the failure.
pub open spec fn bring_up_step(
    config: WireGuardConfigView,
    interface_name: Seq<char>,
    port: u32,
    stage: Stage,
) -> Result<Option<(ManagerActionView, Stage)>, ErrorView> {
    match stage {
        Stage::Create => Ok(Some((ManagerActionView::CreateInterface, Stage::Interface))),
        Stage::Interface => match address_masks_of(config.interface.addresses) {
            Err(e) => Err(e),
            Ok(addresses) => Ok(
                Some(
                    (
                        ManagerActionView::ConfigureInterface {
                            name: interface_name,
                            private_key: config.interface.private_key,
                            addresses,
                            port: match config.interface.listen_port {
                                Some(p) => p,
                                None => port,
                            },
                        },
                        Stage::Dns,
                    ),
                ),
            ),
        },
        Stage::Dns => match config.interface.dns {
            Some(names) => match dns_servers_of(names) {
                Err(e) => Err(e),
                Ok(servers) => Ok(
                    Some((ManagerActionView::ConfigureDns { servers }, Stage::Peer(0))),
                ),
            },
            None => peer_step(config, 0),
        },
        Stage::Peer(i) => peer_step(config, i as int),
    }
}

/// The outcome of deciding the next request.
pub open spec fn step_outcome(r: Result<Option<(ManagerAction, Stage)>, Error>) -> Result<
    Option<(ManagerActionView, Stage)>,
    ErrorView,
> {
    match r {
        Ok(Some((action, stage))) => Ok(Some((action@, stage))),
        Ok(None) => Ok(None),
        Err(e) => Err(e@),
    }
}

fn configure_peer(config: &WireGuardConfig, i: usize) -> (r: Result<
    Option<(ManagerAction, Stage)>,
    Error,
>)
    ensures
        step_outcome(r) == peer_step(config@, i as int),
{
    if i >= config.peers.len() {
        return Ok(None);
    }
    let peer = &config.peers[i];
    assert(config@.peers[i as int] == peer@);
    let allowed_ips = match parse_ip_addr_masks(&peer.allowed_ips) {
        Ok(a) => a,
        Err(e) => {
            return Err(e);
        },
    };
    let endpoint = match &peer.endpoint {
        Some(e) => Some(e.clone()),
        None => None,
    };
    Ok(
        Some(
            (
                ManagerAction::ConfigurePeer { public_key: peer.public_key, allowed_ips, endpoint },
                Stage::Peer(i + 1),
            ),
        ),
    )
}

/// Decides the next request to the interface manager when bringing up the
/// tunnel that `config` describes.
pub fn configure_wireguard(
    config: &WireGuardConfig,
    interface_name: &str,
    port: u32,
    stage: Stage,
) -> (r: Result<Option<(ManagerAction, Stage)>, Error>)
    ensures
        step_outcome(r) == bring_up_step(config@, interface_name@, port, stage),
{
    match stage {
        Stage::Create => Ok(Some((ManagerAction::CreateInterface, Stage::Interface))),
        Stage::Interface => {
            let addresses = match parse_ip_addr_masks(&config.interface.addresses) {
                Ok(a) => a,
                Err(e) => {
                    return Err(e);
                },
            };
            let port = match config.interface.listen_port {
                Some(p) => p,
                None => port,
            };
            Ok(
                Some(
                    (
                        ManagerAction::ConfigureInterface {
                            name: String::from_str(interface_name),
                            private_key: config.interface.private_key.clone(),
                            addresses,
                            port,
                        },
                        Stage::Dns,
                    ),
                ),
            )
        },
        Stage::Dns => match &config.interface.dns {
            Some(names) => {
                let servers = match parse_dns_servers(names) {
                    Ok(s) => s,
                    Err(e) => {
                        return Err(e);
                    },
                };
                Ok(Some((ManagerAction::ConfigureDns { servers }, Stage::Peer(0))))
            },
            None => configure_peer(config, 0),
        },
        Stage::Peer(i) => configure_peer(config, i),
    }
}

} // verus!
