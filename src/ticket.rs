//! Tickets: what a receiver needs to reach a sender, and which addresses go into one.

use vstd::prelude::*;
use crate::error::ErrorKind;
use crate::text::chars_of;

verus! {

/// Which addressing hints a ticket carries besides the peer id.
#[derive(Clone, Copy, Debug, PartialEq, Eq, Structural)]
pub enum AddrInfoOptions {
    /// The peer id alone.
    Id,
    /// Relay urls and direct addresses.
    RelayAndAddresses,
    /// Relay urls only.
    Relay,
    /// Direct addresses only.
    Addresses,
}

impl Default for AddrInfoOptions {
    /// Both relay urls and direct addresses.
    fn default() -> (r: AddrInfoOptions)
        ensures
            r == AddrInfoOptions::RelayAndAddresses,
    {
        AddrInfoOptions::RelayAndAddresses
    }
}

/// How a hash is rendered.
#[derive(Clone, Copy, Debug, PartialEq, Eq, Structural)]
pub enum Format {
    Hex,
    Cid,
}

impl Default for Format {
    fn default() -> (r: Format)
        ensures
            r == Format::Hex,
    {
        Format::Hex
    }
}

/// The lowercase ASCII form of a character.
pub open spec fn ascii_lower(c: char) -> char {
    if 'A' <= c && c <= 'Z' {
        ((c as int) + 32) as char
    } else {
        c
    }
}

/// `s` equals `word` ignoring ASCII case.
pub open spec fn eq_ignore_case(s: Seq<char>, word: Seq<char>) -> bool {
    s.len() == word.len() && forall|i: int| 0 <= i < s.len() ==> ascii_lower(#[trigger] s[i]) == word[i]
}

fn lower_char(c: char) -> (r: char)
    ensures
        r == ascii_lower(c),
{
    if 'A' <= c && c <= 'Z' {
        ((c as u8) + 32) as char
    } else {
        c
    }
}

impl Format {
    /// Reads `hex` or `cid`, in any ASCII case. Fails with `InvalidFormat` otherwise.
    pub fn from_text(s: &str) -> (r: Result<Format, ErrorKind>)
        ensures
            r == (if eq_ignore_case(s@, "hex"@) {
                Ok::<Format, ErrorKind>(Format::Hex)
            } else if eq_ignore_case(s@, "cid"@) {
                Ok(Format::Cid)
            } else {
                Err(ErrorKind::InvalidFormat)
            }),
    {
        let cs = chars_of(s);
        proof {
            reveal_strlit("hex");
            reveal_strlit("cid");
        }
        if cs.len() != 3 {
            return Err(ErrorKind::InvalidFormat);
        }
        let a = lower_char(cs[0]);
        let b = lower_char(cs[1]);
        let c = lower_char(cs[2]);
        if a == 'h' && b == 'e' && c == 'x' {
            Ok(Format::Hex)
        } else if a == 'c' && b == 'i' && c == 'd' {
            assert(!eq_ignore_case(s@, "hex"@)) by {
                assert(ascii_lower(s@[0]) != "hex"@[0]);
            }
            Ok(Format::Cid)
        } else {
            assert(!eq_ignore_case(s@, "hex"@)) by {
                if ascii_lower(s@[0]) == 'h' && ascii_lower(s@[1]) == 'e' {
                    assert(ascii_lower(s@[2]) != "hex"@[2]);
                } else if ascii_lower(s@[0]) == 'h' {
                    assert(ascii_lower(s@[1]) != "hex"@[1]);
                } else {
                    assert(ascii_lower(s@[0]) != "hex"@[0]);
                }
            }
            assert(!eq_ignore_case(s@, "cid"@)) by {
                if ascii_lower(s@[0]) == 'c' && ascii_lower(s@[1]) == 'i' {
                    assert(ascii_lower(s@[2]) != "cid"@[2]);
                } else if ascii_lower(s@[0]) == 'c' {
                    assert(ascii_lower(s@[1]) != "cid"@[1]);
                } else {
                    assert(ascii_lower(s@[0]) != "cid"@[0]);
                }
            }
            Err(ErrorKind::InvalidFormat)
        }
    }

    /// The format's name.
    pub fn name(&self) -> (r: &'static str)
        ensures
            r@ == (match *self {
                Format::Hex => "hex"@,
                Format::Cid => "cid"@,
            }),
    {
        match self {
            Format::Hex => "hex",
            Format::Cid => "cid",
        }
    }
}

/// Which relay servers an endpoint uses.
pub enum RelayModeOption {
    /// No relays at all.
    Disabled,
    /// The default public relays.
    Default,
    /// One custom relay, by url.
    Custom(String),
}

impl RelayModeOption {
    /// Reads `disabled`, `default`, or else a relay url.
    pub fn from_text(s: &str) -> (r: RelayModeOption)
        ensures
            s@ == "disabled"@ ==> r is Disabled,
            s@ == "default"@ ==> r is Default,
            s@ != "disabled"@ && s@ != "default"@ ==> (r matches RelayModeOption::Custom(u) && u@ == s@),
    {
        let t = String::from_str(s);
        proof {
            reveal_strlit("disabled");
            reveal_strlit("default");
            assert("disabled"@.len() != "default"@.len());
        }
        if t == String::from_str("disabled") {
            RelayModeOption::Disabled
        } else if t == String::from_str("default") {
            RelayModeOption::Default
        } else {
            RelayModeOption::Custom(t)
        }
    }

    /// The text form that `from_text` reads back.
    pub fn text(&self) -> (r: String)
        ensures
            self is Disabled ==> r@ == "disabled"@,
            self is Default ==> r@ == "default"@,
            self matches RelayModeOption::Custom(u) ==> r@ == u@,
    {
        match self {
            RelayModeOption::Disabled => String::from_str("disabled"),
            RelayModeOption::Default => String::from_str("default"),
            RelayModeOption::Custom(u) => u.clone(),
        }
    }
}

/// What a ticket's hash refers to.
#[derive(Clone, Copy, Debug, PartialEq, Eq, Structural)]
pub enum BlobFormat {
    /// A single blob.
    Raw,
    /// A sequence of hashes: a collection.
    HashSeq,
}

/// One way to reach a peer.
pub enum TransportAddr {
    /// A relay server, by url.
    Relay(String),
    /// A direct UDP address, as `ip:port`.
    Ip(String),
    /// A transport of another kind.
    Custom,
}

/// A peer's id with the addresses known for it.
pub struct EndpointAddr {
    pub id: [u8; 32],
    pub addrs: Vec<TransportAddr>,
}

/// The addresses of `s` that the options keep, in order.
pub open spec fn kept(s: Seq<TransportAddr>, opts: AddrInfoOptions) -> Seq<TransportAddr>
    decreases s.len(),
{
    if s.len() == 0 {
        Seq::<TransportAddr>::empty()
    } else {
        let rest = kept(s.drop_last(), opts);
        if keeps(s.last(), opts) {
            rest.push(s.last())
        } else {
            rest
        }
    }
}

/// Whether the options keep the address `a`.
pub open spec fn keeps(a: TransportAddr, opts: AddrInfoOptions) -> bool {
    match opts {
        AddrInfoOptions::Id => false,
        AddrInfoOptions::RelayAndAddresses => true,
        AddrInfoOptions::Relay => a is Relay,
        AddrInfoOptions::Addresses => a is Ip,
    }
}

fn keeps_exec(a: &TransportAddr, opts: AddrInfoOptions) -> (r: bool)
    ensures
        r == keeps(*a, opts),
{
    match opts {
        AddrInfoOptions::Id => false,
        AddrInfoOptions::RelayAndAddresses => true,
        AddrInfoOptions::Relay => match a {
            TransportAddr::Relay(_) => true,
            _ => false,
        },
        AddrInfoOptions::Addresses => match a {
            TransportAddr::Ip(_) => true,
            _ => false,
        },
    }
}

/// Keeps the addressing hints that `opts` selects: none for `Id`, all for
/// `RelayAndAddresses`, the relay urls for `Relay`, the direct addresses for `Addresses`.
pub fn apply_options(addr: &mut EndpointAddr, opts: AddrInfoOptions)
    ensures
        final(addr).id == old(addr).id,
        final(addr).addrs@ == kept(old(addr).addrs@, opts),
{
    let mut rest: Vec<TransportAddr> = Vec::new();
    std::mem::swap(&mut rest, &mut addr.addrs);
    let ghost all = rest@;
    let mut out: Vec<TransportAddr> = Vec::new();
    let n = rest.len();
    let mut i: usize = 0;
    while rest.len() > 0
        invariant
            n == all.len(),
            i + rest@.len() == all.len(),
            rest@ == all.skip(i as int),
            out@ == kept(all.take(i as int), opts),
        decreases rest@.len(),
    {
        let a = rest.remove(0);
        assert(a == all[i as int]);
        assert(rest@ =~= all.skip(i as int + 1));
        assert(all.take(i as int + 1).drop_last() =~= all.take(i as int));
        if keeps_exec(&a, opts) {
            out.push(a);
        }
        i = i + 1;
    }
    assert(all.take(all.len() as int) =~= all);
    addr.addrs = out;
}

/// What each option leaves: nothing for `Id`, only relay urls for `Relay`, only direct
/// addresses for `Addresses`, everything for `RelayAndAddresses`.
pub proof fn lemma_filtered_kinds(s: Seq<TransportAddr>, opts: AddrInfoOptions)
    ensures
        opts == AddrInfoOptions::Id ==> kept(s, opts).len() == 0,
        opts == AddrInfoOptions::Relay ==> forall|i: int| 0 <= i < kept(s, opts).len() ==> #[trigger] kept(s, opts)[i] is Relay,
        opts == AddrInfoOptions::Addresses ==> forall|i: int| 0 <= i < kept(s, opts).len() ==> #[trigger] kept(s, opts)[i] is Ip,
        opts == AddrInfoOptions::RelayAndAddresses ==> kept(s, opts) == s,
    decreases s.len(),
{
    if s.len() > 0 {
        lemma_filtered_kinds(s.drop_last(), opts);
        let rest = kept(s.drop_last(), opts);
        if keeps(s.last(), opts) {
            assert forall|i: int| 0 <= i < rest.len() + 1 implies #[trigger] rest.push(s.last())[i] == (if i < rest.len() { rest[i] } else { s.last() }) by {}
        }
        if opts == AddrInfoOptions::RelayAndAddresses {
            assert(s.drop_last().push(s.last()) =~= s);
        }
    }
}

/// A receiver must look the peer up by id when the ticket names no relay and no direct
/// address.
pub open spec fn needs_lookup(addrs: Seq<TransportAddr>) -> bool {
    forall|i: int| 0 <= i < addrs.len() ==> !(#[trigger] addrs[i] is Relay) && !(addrs[i] is Ip)
}

/// Whether the receiver must enable lookup by peer id to reach this address.
pub fn needs_discovery(addr: &EndpointAddr) -> (r: bool)
    ensures
        r == needs_lookup(addr.addrs@),
{
    let mut i: usize = 0;
    while i < addr.addrs.len()
        invariant
            i <= addr.addrs@.len(),
            forall|k: int| 0 <= k < i ==> !(#[trigger] addr.addrs@[k] is Relay) && !(addr.addrs@[k] is Ip),
        decreases addr.addrs@.len() - i,
    {
        match &addr.addrs[i] {
            TransportAddr::Custom => {},
            _ => {
                return false;
            },
        }
        i = i + 1;
    }
    true
}

/// An address filtered to the peer id alone sends the receiver to lookup by id.
pub proof fn lemma_id_ticket_needs_lookup(s: Seq<TransportAddr>)
    ensures
        needs_lookup(kept(s, AddrInfoOptions::Id)),
{
    lemma_filtered_kinds(s, AddrInfoOptions::Id);
}

/// The decoded contents of a ticket.
pub struct TicketInfo {
    pub addr: EndpointAddr,
    pub hash: [u8; 32],
    pub format: BlobFormat,
}

/// Whitespace-trimmed form of a string, as `str::trim` gives it.
pub uninterp spec fn trim_of(s: Seq<char>) -> Seq<char>;

/// What the text form of a blob ticket decodes to: the peer id, the hash, whether the
/// hash names a hash sequence, the relay urls and the direct addresses (each in its text
/// form); `None` when the text is not a ticket.
pub uninterp spec fn ticket_fields(s: Seq<char>) -> Option<(Seq<u8>, Seq<u8>, bool, Seq<Seq<char>>, Seq<Seq<char>>)>;

/// `addrs` holds the relay urls `relays`, then the direct addresses `ips`, in order.
pub open spec fn laid_out(addrs: Seq<TransportAddr>, relays: Seq<Seq<char>>, ips: Seq<Seq<char>>) -> bool {
    &&& addrs.len() == relays.len() + ips.len()
    &&& forall|k: int| 0 <= k < relays.len() ==> (#[trigger] addrs[k] matches TransportAddr::Relay(u) && u@ == relays[k])
    &&& forall|k: int| 0 <= k < ips.len() ==> (#[trigger] addrs[relays.len() + k] matches TransportAddr::Ip(a) && a@ == ips[k])
}

/// The decoded ticket `i` agrees with the fields `f`.
pub open spec fn agrees(i: TicketInfo, f: (Seq<u8>, Seq<u8>, bool, Seq<Seq<char>>, Seq<Seq<char>>)) -> bool {
    &&& f.0 == i.addr.id@
    &&& f.1 == i.hash@
    &&& f.2 == (i.format == BlobFormat::HashSeq)
    &&& laid_out(i.addr.addrs@, f.3, f.4)
}

/// A decoded ticket sends the receiver to lookup by id exactly when it carries no relay url
/// and no direct address.
pub proof fn lemma_decoded_lookup(addrs: Seq<TransportAddr>, relays: Seq<Seq<char>>, ips: Seq<Seq<char>>)
    requires
        laid_out(addrs, relays, ips),
    ensures
        needs_lookup(addrs) <==> (relays.len() == 0 && ips.len() == 0),
{
    if relays.len() > 0 {
        assert(addrs[0] is Relay);
    } else if ips.len() > 0 {
        assert(addrs[relays.len() + 0int] is Ip);
    }
}

/// Relies on `str::trim`: removes leading and trailing whitespace; the result depends on
/// the characters alone.
#[verifier::external_body]
fn trim_ws(s: &str) -> (r: &str)
    ensures
        r@ == trim_of(s@),
{
    s.trim()
}

/// Relies on `BlobTicket::from_str` of iroh-blobs, which decodes a ticket string, and on
/// the accessors of `BlobTicket` and `EndpointAddr` to read its parts (relay urls first,
/// then direct addresses).
#[verifier::external_body]
fn decode_ticket(s: &str) -> (r: Option<TicketInfo>)
    ensures
        r is Some == ticket_fields(s@) is Some,
        r matches Some(i) ==> agrees(i, ticket_fields(s@)->Some_0),
{
    let t: iroh_blobs::ticket::BlobTicket = s.parse().ok()?;
    let relays = t.addr().relay_urls().map(|u| TransportAddr::Relay(u.to_string()));
    let addrs = relays.chain(t.addr().ip_addrs().map(|a| TransportAddr::Ip(a.to_string()))).collect();
    let format = if t.format().is_raw() { BlobFormat::Raw } else { BlobFormat::HashSeq };
    let addr = EndpointAddr { id: *t.addr().id.as_bytes(), addrs };
    Some(TicketInfo { addr, hash: *t.hash().as_bytes(), format })
}

/// The command word that may precede a ticket.
pub open spec fn receive_prefix() -> Seq<char> {
    seq!['r', 'e', 'c', 'e', 'i', 'v', 'e', ' ']
}

/// The ticket text inside user input: trimmed, and without a leading `receive ` command.
pub open spec fn ticket_text(input: Seq<char>) -> Seq<char> {
    let t = trim_of(input);
    if t.len() >= 8 && t.take(8) == receive_prefix() {
        trim_of(t.skip(8))
    } else {
        t
    }
}

/// Whether `t` starts with the receive command.
fn has_receive_prefix(t: &str) -> (r: bool)
    ensures
        r == (t@.len() >= 8 && t@.take(8) == receive_prefix()),
{
    let cs = chars_of(t);
    if cs.len() < 8 {
        return false;
    }
    let r = cs[0] == 'r' && cs[1] == 'e' && cs[2] == 'c' && cs[3] == 'e' && cs[4] == 'i' && cs[5] == 'v'
        && cs[6] == 'e' && cs[7] == ' ';
    proof {
        if r {
            assert(cs@.take(8) =~= receive_prefix());
        }
        if cs@.take(8) == receive_prefix() {
            assert(cs@.take(8)[0] == 'r' && cs@.take(8)[7] == ' ');
        }
    }
    r
}

/// Reads a ticket from user input, ignoring surrounding whitespace and a leading
/// `receive ` command. Fails with `TicketParse` when what is left is not a ticket.
pub fn parse_ticket(input: &str) -> (r: Result<TicketInfo, ErrorKind>)
    ensures
        r is Ok <==> ticket_fields(ticket_text(input@)) is Some,
        r matches Ok(i) ==> agrees(i, ticket_fields(ticket_text(input@))->Some_0),
        r is Err ==> r->Err_0 == ErrorKind::TicketParse,
{
    let t = trim_ws(input);
    let text = if has_receive_prefix(t) {
        let n = t.unicode_len();
        let rest = t.substring_char(8, n);
        assert(rest@ == t@.skip(8));
        trim_ws(rest)
    } else {
        t
    };
    match decode_ticket(text) {
        Some(info) => Ok(info),
        None => Err(ErrorKind::TicketParse),
    }
}

} // verus!
