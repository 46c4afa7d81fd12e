//! What the server announces of itself on the local network.

use vstd::prelude::*;
use crate::text;

verus! {

/// The type of service that is announced.
pub const SERVICE_TYPE: &'static str = "_elixir-media._tcp.local.";

/// The name of the machine where it has none that is a text.
pub const UNNAMED_HOST: &'static str = "elixir-host";

/// The address that is announced where the server listens on all of them.
pub const LOOPBACK_ADDRESS: &'static str = "127.0.0.1";

/// The name of the machine on the local network.
pub open spec fn local_name(name: Seq<char>) -> Seq<char> {
    if text::has_suffix_seq(name, ".local"@) {
        name + "."@
    } else {
        name + ".local."@
    }
}

/// The name that is announced for a machine, whose own name may not be known.
pub fn announced_host(hostname: Option<&str>) -> (r: String)
    ensures
        r@ == local_name(
            match hostname {
                Some(name) => name@,
                None => UNNAMED_HOST@,
            },
        ),
{
    let name = match hostname {
        Some(name) => name,
        None => UNNAMED_HOST,
    };
    if text::has_suffix(name, ".local") {
        text::join2(name, ".")
    } else {
        text::join2(name, ".local.")
    }
}

/// The address that is announced for a configured host: the host itself where it
/// is an address other than that of all interfaces. `is_address` says whether
/// the host can be read as an address.
pub fn announced_address<'a>(host: &'a str, is_address: bool) -> (r: &'a str)
    ensures
        r@ == if host@ == "0.0.0.0"@ || !is_address {
            LOOPBACK_ADDRESS@
        } else {
            host@
        },
{
    if text::str_eq(host, "0.0.0.0") || !is_address {
        LOOPBACK_ADDRESS
    } else {
        host
    }
}

/// An announced name ends as names of the local network do, and a name that
/// already does is not extended.
pub proof fn announced_names_are_local(name: Seq<char>)
    ensures
        text::has_suffix_seq(local_name(name), ".local."@),
        text::has_suffix_seq(name, ".local"@) ==> local_name(name).len() == name.len() + 1,
{
    reveal_strlit(".local");
    reveal_strlit(".local.");
    reveal_strlit(".");
    let n = local_name(name);
    let k = n.len() - 7;
    if text::has_suffix_seq(name, ".local"@) {
        assert forall|i: int| 0 <= i < 6 implies n[k + i] == ".local."@[i] by {
            assert(name.skip(name.len() - 6)[i] == ".local"@[i]);
        }
    }
    assert(n.skip(k) =~= ".local."@);
}

/// A machine is announced under its name, or as elixir-host where it has none; a server
/// that listens everywhere, or whose host is no address, at the loopback address.
pub proof fn servers_are_announced(
    hostname: Option<&str>,
    name: String,
    host: &str,
    is_address: bool,
    address: &str,
)
    requires
        call_ensures(announced_host, (hostname,), name),
        call_ensures(announced_address, (host, is_address), address),
    ensures
        hostname is None ==> name@ == local_name("elixir-host"@),
        hostname is Some ==> name@ == local_name(hostname->0@),
        hostname is Some && text::has_suffix_seq(hostname->0@, ".local"@) ==> name@
            == hostname->0@ + "."@,
        hostname is Some && !text::has_suffix_seq(hostname->0@, ".local"@) ==> name@
            == hostname->0@ + ".local."@,
        is_address && host@ != "0.0.0.0"@ ==> address@ == host@,
        !is_address || host@ == "0.0.0.0"@ ==> address@ == "127.0.0.1"@,
        SERVICE_TYPE@ == "_elixir-media._tcp.local."@,
{
}

} // verus!
