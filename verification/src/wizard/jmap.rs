//! The JMAP wizard's choice of HTTP authentication scheme.

use vstd::prelude::*;
use vstd::string::*;

verus! {

/// An HTTP authentication scheme the wizard can configure.
#[derive(Clone, Copy, Debug, PartialEq, Eq, Structural)]
pub enum JmapAuthScheme {
    /// A username and a password.
    Basic,
    /// An API token.
    Bearer,
}

impl JmapAuthScheme {
    /// The label the scheme is offered under.
    pub open spec fn spec_label(self) -> Seq<char> {
        match self {
            JmapAuthScheme::Basic => "Basic (username + password)"@,
            JmapAuthScheme::Bearer => "Bearer (API token)"@,
        }
    }

    /// The label the scheme is offered under.
    pub fn label(&self) -> (label: &'static str)
        ensures
            label@ == self.spec_label(),
    {
        match self {
            JmapAuthScheme::Basic => "Basic (username + password)",
            JmapAuthScheme::Bearer => "Bearer (API token)",
        }
    }
}

/// The schemes offered for a discovered endpoint, in order: Basic when
/// it advertises it, Bearer when it advertises a token, both when it
/// advertises nothing at all.
pub open spec fn spec_offered_schemes(basic: bool, token: bool, any: bool) -> Seq<JmapAuthScheme> {
    (if basic || !any {
        seq![JmapAuthScheme::Basic]
    } else {
        Seq::empty()
    }) + (if token || !any {
        seq![JmapAuthScheme::Bearer]
    } else {
        Seq::empty()
    })
}

/// The schemes to offer, from what the endpoint advertised: `basic`,
/// `token` (a bearer token or an OAuth grant), and `any` (anything).
/// A single one is taken without asking.
pub fn offered_schemes(basic: bool, token: bool, any: bool) -> (schemes: Vec<JmapAuthScheme>)
    ensures
        schemes@ == spec_offered_schemes(basic, token, any),
{
    let mut schemes: Vec<JmapAuthScheme> = Vec::new();
    if basic || !any {
        schemes.push(JmapAuthScheme::Basic);
    }
    if token || !any {
        schemes.push(JmapAuthScheme::Bearer);
    }
    assert(schemes@ =~= spec_offered_schemes(basic, token, any));
    schemes
}

/// Whether the token prompt offers the OAuth 2.0 brokers: when the
/// endpoint advertises an OAuth grant, or advertises nothing at all.
pub fn offers_oauth_brokers(oauth: bool, any: bool) -> (b: bool)
    ensures
        b == (oauth || !any),
{
    oauth || !any
}

} // verus!
