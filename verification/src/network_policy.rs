//! Which client address the server believes: a forwarded identity header is
//! read only from peers inside explicitly trusted proxy ranges.
use vstd::prelude::*;

use crate::auth_policy::{ascending_texts, insert_sorted_text, texts_view};
use crate::validation::{credential_header, header_name_parse, is_credential_header, ip_net_parse, parse_header_name, parse_ip_net};

verus! {

/// Why a trusted proxy policy was refused.
#[derive(Debug, Clone, PartialEq, Eq)]
pub enum TrustedProxyError {
    NoRanges,
    InvalidRange(String),
    InvalidHeader(String),
    CredentialHeader(String),
}

/// The normalized network texts of a list of ranges that all parse.
pub open spec fn range_texts(ranges: Seq<Seq<char>>) -> Set<Seq<char>> {
    ranges.map_values(|r: Seq<char>| ip_net_parse(r)->Ok_0).to_set()
}

/// Explicit policy for accepting one client-IP header from exact proxy
/// ranges. Ranges are kept as their normalized network text, ascending and
/// without duplicates.
#[derive(Debug)]
pub struct TrustedProxyPolicy {
    trusted_ranges: Vec<String>,
    client_ip_header: Option<String>,
}

impl TrustedProxyPolicy {
    pub closed spec fn ranges_view(&self) -> Seq<Seq<char>> {
        texts_view(self.trusted_ranges@)
    }

    pub closed spec fn header_view(&self) -> Option<Seq<char>> {
        match self.client_ip_header {
            Some(h) => Some(h@),
            None => None,
        }
    }

    /// Ignores all proxy identity headers.
    pub fn disabled() -> (policy: Self)
        ensures
            policy.header_view() is None,
            policy.ranges_view().len() == 0,
    {
        let policy = TrustedProxyPolicy { trusted_ranges: Vec::new(), client_ip_header: None };
        assert(policy.ranges_view() =~= Seq::<Seq<char>>::empty());
        policy
    }

    /// Builds a policy from CIDR ranges and the name of the header carrying
    /// the client address. The header must be a valid, non-credential header
    /// name; every range must parse, the first that does not is reported; and
    /// at least one range is required.
    pub fn new(ranges: &Vec<String>, client_ip_header: &str) -> (result: Result<
        Self,
        TrustedProxyError,
    >)
        ensures
            header_name_parse(client_ip_header@) is Err ==> result is Err && result->Err_0 is InvalidHeader
                && result->Err_0->InvalidHeader_0@ == client_ip_header@,
            header_name_parse(client_ip_header@) is Ok && credential_header(
                header_name_parse(client_ip_header@)->Ok_0,
            ) ==> result is Err && result->Err_0 is CredentialHeader
                && result->Err_0->CredentialHeader_0@ == header_name_parse(client_ip_header@)->Ok_0,
            header_name_parse(client_ip_header@) is Ok && !credential_header(
                header_name_parse(client_ip_header@)->Ok_0,
            ) ==> match result {
                Ok(policy) => {
                    &&& ranges@.len() > 0
                    &&& forall|i: int| 0 <= i < ranges@.len() ==> #[trigger] ip_net_parse(ranges@[i]@) is Ok
                    &&& policy.header_view() == Some(header_name_parse(client_ip_header@)->Ok_0)
                    &&& ascending_texts(policy.ranges_view())
                    &&& policy.ranges_view().no_duplicates()
                    &&& policy.ranges_view().to_set() == range_texts(texts_view(ranges@))
                },
                Err(TrustedProxyError::InvalidRange(r)) => exists|i: int|
                    0 <= i < ranges@.len() && #[trigger] ip_net_parse(ranges@[i]@) is Err && r@
                        == ranges@[i]@ && forall|j: int| 0 <= j < i ==> #[trigger] ip_net_parse(ranges@[j]@) is Ok,
                Err(TrustedProxyError::NoRanges) => ranges@.len() == 0,
                Err(_) => false,
            },
    {
        let header = match parse_header_name(client_ip_header) {
            Ok(h) => h,
            Err(_) => return Err(TrustedProxyError::InvalidHeader(client_ip_header.to_owned())),
        };
        if is_credential_header(header.as_str()) {
            return Err(TrustedProxyError::CredentialHeader(header));
        }
        let mut trusted: Vec<String> = Vec::new();
        let mut i: usize = 0;
        assert(texts_view(trusted@) =~= Seq::<Seq<char>>::empty());
        assert(texts_view(ranges@).take(0) =~= Seq::<Seq<char>>::empty());
        while i < ranges.len()
            invariant
                i <= ranges@.len(),
                forall|j: int| 0 <= j < i ==> #[trigger] ip_net_parse(ranges@[j]@) is Ok,
                ascending_texts(texts_view(trusted@)),
                texts_view(trusted@).no_duplicates(),
                texts_view(trusted@).to_set() == range_texts(texts_view(ranges@).take(i as int)),
                i > 0 ==> trusted@.len() > 0,
                i == 0 ==> trusted@.len() == 0,
                header_name_parse(client_ip_header@) == Ok::<Seq<char>, Seq<char>>(header@),
                !credential_header(header@),
            decreases ranges@.len() - i,
        {
            let text = match parse_ip_net(ranges[i].as_str()) {
                Ok(t) => t,
                Err(_) => return Err(TrustedProxyError::InvalidRange(ranges[i].clone())),
            };
            let ghost t = text@;
            insert_sorted_text(&mut trusted, text);
            proof {
                let prefix = texts_view(ranges@).take(i as int);
                let next = texts_view(ranges@).take(i + 1);
                assert(next =~= prefix.push(ranges@[i as int]@));
                assert(next.map_values(|r: Seq<char>| ip_net_parse(r)->Ok_0) =~= prefix.map_values(
                    |r: Seq<char>| ip_net_parse(r)->Ok_0,
                ).push(t));
                prefix.map_values(|r: Seq<char>| ip_net_parse(r)->Ok_0).lemma_push_to_set_commute(t);
                assert(texts_view(trusted@).to_set().contains(t));
                if trusted@.len() == 0 {
                    assert(texts_view(trusted@).to_set() =~= Set::<Seq<char>>::empty());
                }
            }
            i += 1;
        }
        assert(texts_view(ranges@).take(ranges@.len() as int) =~= texts_view(ranges@));
        if trusted.len() == 0 {
            return Err(TrustedProxyError::NoRanges);
        }
        Ok(TrustedProxyPolicy { trusted_ranges: trusted, client_ip_header: Some(header) })
    }

    pub fn is_enabled(&self) -> (enabled: bool)
        ensures
            enabled == self.header_view() is Some,
    {
        self.client_ip_header.is_some()
    }

    /// The trusted ranges, as normalized network text in ascending order.
    pub fn trusted_ranges(&self) -> (ranges: &Vec<String>)
        ensures
            texts_view(ranges@) == self.ranges_view(),
    {
        &self.trusted_ranges
    }

    /// The header that carries the client address, when the policy is enabled.
    pub fn client_ip_header(&self) -> (header: Option<&str>)
        ensures
            match header {
                Some(h) => self.header_view() == Some(h@),
                None => self.header_view() is None,
            },
    {
        match &self.client_ip_header {
            Some(h) => Some(h.as_str()),
            None => None,
        }
    }
}

/// Which address identifies a client.
#[derive(Debug, Clone, Copy, PartialEq, Eq, Structural)]
pub enum ClientIdentity {
    /// The socket peer's address.
    Peer,
    /// The address the identity header forwarded.
    Forwarded,
}

/// The forwarded address is believed only when the policy is enabled, the
/// socket peer lies in a trusted range, and the header holds a single valid
/// address; anything else falls back to the peer.
pub fn client_identity(enabled: bool, peer_trusted: bool, header_address_valid: bool) -> (identity:
    ClientIdentity)
    ensures
        identity == ClientIdentity::Forwarded <==> enabled && peer_trusted && header_address_valid,
{
    if enabled && peer_trusted && header_address_valid {
        ClientIdentity::Forwarded
    } else {
        ClientIdentity::Peer
    }
}

} // verus!
