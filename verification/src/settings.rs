//! Which server to talk to, and through which relay.

use vstd::prelude::*;
use vstd::string::StringExecFns;
use crate::text::opt_text;

verus! {

/// Where a client connects to.
#[derive(Debug)]
pub struct Settings {
    /// The public key of the server.
    pub server_pubkey: String,
    /// The relay through which the server is reached.
    pub relay_url: String,
}

/// The argument at `i`, or what the environment holds for it.
pub open spec fn arg_or(args: Seq<String>, i: int, env: Option<String>) -> Option<Seq<char>> {
    if i < args.len() {
        Some(args[i]@)
    } else {
        opt_text(env)
    }
}

/// Takes the argument at a position, or what the environment holds for it.
fn pick(args: &Vec<String>, i: usize, env: Option<String>) -> (r: Option<String>)
    ensures
        opt_text(r) == arg_or(args@, i as int, env),
{
    if i < args.len() {
        Some(args[i].clone())
    } else {
        env
    }
}

/// Works out the settings from the command line arguments and the environment.
///
/// The first argument is the public key of the server and the second one the
/// URL of the relay. What is not given as an argument comes from the
/// environment; the relay then has a default, and without a public key there
/// are no settings.
pub fn connection_settings(
    args: &Vec<String>,
    env_pubkey: Option<String>,
    env_relay: Option<String>,
) -> (r: Option<Settings>)
    ensures
        match arg_or(args@, 0, env_pubkey) {
            Some(pubkey) => r matches Some(settings) && settings.server_pubkey@ == pubkey
                && settings.relay_url@ == match arg_or(args@, 1, env_relay) {
                Some(relay) => relay,
                None => "ws://localhost:10547"@,
            },
            None => r is None,
        },
{
    let server_pubkey = match pick(args, 0, env_pubkey) {
        Some(pubkey) => pubkey,
        None => {
            return None;
        },
    };
    let relay_url = match pick(args, 1, env_relay) {
        Some(relay) => relay,
        None => "ws://localhost:10547".to_owned(),
    };
    Some(Settings { server_pubkey, relay_url })
}

/// How a client is shown: by the public key of its server.
pub fn client_label(server_pubkey: &str) -> (r: String)
    ensures
        r@ == "bitcoincore_rpc::Client(server_pubkey="@ + server_pubkey@ + ")"@,
{
    "bitcoincore_rpc::Client(server_pubkey=".to_owned().concat(server_pubkey).concat(")")
}

/// The settings come from the arguments, and what is not given there from the
/// environment; the relay then has a default, and without a public key there
/// are none.
pub proof fn law_settings(
    args: &Vec<String>,
    env_pubkey: Option<String>,
    env_relay: Option<String>,
    r: Option<Settings>,
)
    requires
        call_ensures(connection_settings, (args, env_pubkey, env_relay), r),
    ensures
        r is None <==> args@.len() == 0 && env_pubkey is None,
        r matches Some(settings) ==> {
            &&& args@.len() > 0 ==> settings.server_pubkey@ == args@[0]@
            &&& args@.len() == 0 ==> (env_pubkey matches Some(key) && settings.server_pubkey@ == key@)
            &&& args@.len() > 1 ==> settings.relay_url@ == args@[1]@
            &&& args@.len() <= 1 ==> (env_relay matches Some(url) ==> settings.relay_url@ == url@)
            &&& args@.len() <= 1 && env_relay is None ==> settings.relay_url@
                == "ws://localhost:10547"@
        },
{
}

/// A client is shown with the public key of its server.
pub proof fn law_label_shows_the_key(server_pubkey: &str, r: String)
    requires
        call_ensures(client_label, (server_pubkey,), r),
    ensures
        r@ == "bitcoincore_rpc::Client(server_pubkey="@ + server_pubkey@ + ")"@,
{
}

} // verus!
