//! The closed set of node kinds and their textual codes.
use vstd::prelude::*;
use crate::text::chars_of;
use crate::text::chars_equal;

verus! {

/// The kind of a node in a network topology.
///
/// The variants carry no parameters yet; the descriptor grammar already
/// reserves trailing fields for them.
#[derive(Clone, Copy, Debug, PartialEq, Eq, Structural)]
pub enum NetworkGraphAssetType {
    Pc(),
    Router(),
    Switch(),
    Server(),
    Firewall(),
    Internet(),
}

/// The canonical code of each kind.
pub open spec fn code_of(t: NetworkGraphAssetType) -> Seq<char> {
    match t {
        NetworkGraphAssetType::Pc() => "pc"@,
        NetworkGraphAssetType::Router() => "router"@,
        NetworkGraphAssetType::Switch() => "switch"@,
        NetworkGraphAssetType::Server() => "server"@,
        NetworkGraphAssetType::Firewall() => "firewall"@,
        NetworkGraphAssetType::Internet() => "internet"@,
    }
}

/// The kind whose code is exactly `code`, if any (case-sensitive).
pub open spec fn asset_type_of(code: Seq<char>) -> Option<NetworkGraphAssetType> {
    if code == "pc"@ {
        Some(NetworkGraphAssetType::Pc())
    } else if code == "router"@ {
        Some(NetworkGraphAssetType::Router())
    } else if code == "switch"@ {
        Some(NetworkGraphAssetType::Switch())
    } else if code == "server"@ {
        Some(NetworkGraphAssetType::Server())
    } else if code == "firewall"@ {
        Some(NetworkGraphAssetType::Firewall())
    } else if code == "internet"@ {
        Some(NetworkGraphAssetType::Internet())
    } else {
        None
    }
}

/// The message of a code that names no kind; it names the code.
pub open spec fn unknown_type_message(code: Seq<char>) -> Seq<char> {
    "unknown asset type: "@ + code
}

impl NetworkGraphAssetType {
    /// The canonical code of this kind.
    pub fn as_str(&self) -> (r: &'static str)
        ensures
            r@ == code_of(*self),
    {
        match self {
            NetworkGraphAssetType::Pc() => "pc",
            NetworkGraphAssetType::Router() => "router",
            NetworkGraphAssetType::Switch() => "switch",
            NetworkGraphAssetType::Server() => "server",
            NetworkGraphAssetType::Firewall() => "firewall",
            NetworkGraphAssetType::Internet() => "internet",
        }
    }

    /// The kind whose code is `s`. The extra parameters are accepted and
    /// ignored: no kind takes any yet.
    pub fn from_str(s: &str, _params: Vec<String>) -> (r: Result<Self, String>)
        ensures
            r matches Ok(t) ==> asset_type_of(s@) == Some(t),
            r matches Err(m) ==> asset_type_of(s@) is None && m@ == unknown_type_message(s@),
            r is Ok <==> asset_type_of(s@) is Some,
    {
        let cs = chars_of(s);
        if chars_equal(&cs, "pc") {
            Ok(NetworkGraphAssetType::Pc())
        } else if chars_equal(&cs, "router") {
            Ok(NetworkGraphAssetType::Router())
        } else if chars_equal(&cs, "switch") {
            Ok(NetworkGraphAssetType::Switch())
        } else if chars_equal(&cs, "server") {
            Ok(NetworkGraphAssetType::Server())
        } else if chars_equal(&cs, "firewall") {
            Ok(NetworkGraphAssetType::Firewall())
        } else if chars_equal(&cs, "internet") {
            Ok(NetworkGraphAssetType::Internet())
        } else {
            Err(String::from_str("unknown asset type: ").concat(s))
        }
    }
}

/// Every kind's code reads back as that kind.
pub proof fn lemma_code_round_trip(t: NetworkGraphAssetType)
    ensures
        asset_type_of(code_of(t)) == Some(t),
{
    reveal_strlit("pc");
    reveal_strlit("router");
    reveal_strlit("switch");
    reveal_strlit("server");
    reveal_strlit("firewall");
    reveal_strlit("internet");
    assert("pc"@.len() == 2 && "router"@.len() == 6 && "switch"@.len() == 6);
    assert("server"@.len() == 6 && "firewall"@.len() == 8 && "internet"@.len() == 8);
    assert("router"@[0] != "switch"@[0] && "router"@[0] != "server"@[0]);
    assert("switch"@[1] != "server"@[1]);
    assert("firewall"@[0] != "internet"@[0]);
}

/// A recognised code, read as a kind and written back, is the same code.
pub proof fn lemma_parse_code_round_trip(c: Seq<char>)
    requires
        asset_type_of(c) is Some,
    ensures
        code_of(asset_type_of(c)->0) == c,
        asset_type_of(code_of(asset_type_of(c)->0)) == asset_type_of(c),
{
    lemma_code_round_trip(asset_type_of(c)->0);
}

} // verus!
