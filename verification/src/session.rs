//! The settings of the MQTT session of a module.

use vstd::prelude::*;
use vstd::string::StringExecFns;

verus! {

/// The settings with which a module opens its MQTT session, and the name
/// under which it runs.
#[derive(Debug)]
pub struct Session {
    /// The identifier of the client: the module and its identity.
    pub client_id: String,
    /// The host of the broker.
    pub host: String,
    /// The port of the broker.
    pub port: u16,
    /// The keep-alive interval, in seconds.
    pub keep_alive_secs: u64,
    /// The depth of the queue of outbound requests.
    pub capacity: usize,
    /// The name under which the module runs: the name of the module, not
    /// its identity.
    pub module_name: String,
}

/// The mathematical value of a [`Session`].
pub struct SessionView {
    pub client_id: Seq<char>,
    pub host: Seq<char>,
    pub port: u16,
    pub keep_alive_secs: u64,
    pub capacity: usize,
    pub module_name: Seq<char>,
}

impl View for Session {
    type V = SessionView;

    open spec fn view(&self) -> SessionView {
        SessionView {
            client_id: self.client_id@,
            host: self.host@,
            port: self.port,
            keep_alive_secs: self.keep_alive_secs,
            capacity: self.capacity,
            module_name: self.module_name@,
        }
    }
}

/// The session of a module with an identity: the client is named after
/// both, the broker is the local one on port 1883, the keep-alive interval
/// is a minute, and ten outbound requests may wait. The module runs under
/// its own name; the identity enters the name of the client only.
pub open spec fn session_of(module: Seq<char>, identity: Seq<char>) -> SessionView {
    SessionView {
        client_id: module + "/"@ + identity,
        host: "127.0.0.1"@,
        port: 1883,
        keep_alive_secs: 60,
        capacity: 10,
        module_name: module,
    }
}

/// The settings of the session of a module that runs under an identity.
pub fn initialize_mqtt(module: &str, identity: &str) -> (session: Session)
    ensures
        session@ == session_of(module@, identity@),
{
    let mut client_id = String::from_str(module);
    client_id.append("/");
    client_id.append(identity);
    Session {
        client_id,
        host: String::from_str("127.0.0.1"),
        port: 1883,
        keep_alive_secs: 60,
        capacity: 10,
        module_name: String::from_str(module),
    }
}

} // verus!
