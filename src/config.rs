//! The service's settings.
use crate::text::{decimal, decimal_string};
use vstd::prelude::*;

verus! {

/// The flat settings record the service starts from.
pub struct Config {
    pub app_component: String,
    pub api_host: Option<String>,
    pub api_port: Option<u16>,
    pub database_host: String,
    pub database_port: u16,
    pub database_username: String,
    pub database_password: String,
    pub database_name: String,
    pub database_pool_max_size: usize,
    pub amqp_host: String,
    pub amqp_port: u16,
    pub amqp_username: String,
    pub amqp_password: String,
    pub amqp_pool_max_size: usize,
    pub redis_host: String,
    pub redis_port: u16,
    pub redis_username: Option<String>,
    pub redis_password: Option<String>,
    pub redis_database: i64,
    pub redis_use_ssl: bool,
    pub aws_access_key_id: String,
    pub aws_bucket_name: String,
    pub aws_endpoint_url: String,
    pub aws_region: String,
    pub aws_secret_access_key: String,
    pub beatmaps_service_base_url: String,
}

/// `amqp://{username}:{password}@{host}:{port}`.
pub open spec fn amqp_dsn_of(
    username: Seq<char>,
    password: Seq<char>,
    host: Seq<char>,
    port: u16,
) -> Seq<char> {
    "amqp://"@ + username + ":"@ + password + "@"@ + host + ":"@ + decimal(port as int)
}

pub fn amqp_dsn(username: &str, password: &str, host: &str, port: u16) -> (r: String)
    ensures
        r@ == amqp_dsn_of(username@, password@, host@, port),
{
    let port_text = decimal_string(port as i64);
    String::from_str("amqp://").concat(username).concat(":").concat(password).concat("@").concat(
        host,
    ).concat(":").concat(port_text.as_str())
}

/// The components the service binary can run as.
#[derive(Clone, Copy, Debug, PartialEq, Eq, Structural)]
pub enum Component {
    Api,
    Processor,
    MassRecalc,
    IndividualRecalc,
    Deploy,
}

pub open spec fn component_of(name: Seq<char>) -> Option<Component> {
    if name == "api"@ {
        Some(Component::Api)
    } else if name == "processor"@ {
        Some(Component::Processor)
    } else if name == "mass_recalc"@ {
        Some(Component::MassRecalc)
    } else if name == "individual_recalc"@ {
        Some(Component::IndividualRecalc)
    } else if name == "deploy"@ {
        Some(Component::Deploy)
    } else {
        None
    }
}

fn same_text(a: &str, b: &str) -> (r: bool)
    ensures
        r == (a@ == b@),
{
    let n = a.unicode_len();
    if n != b.unicode_len() {
        return false;
    }
    let mut i: usize = 0;
    while i < n
        invariant
            n == a@.len(),
            n == b@.len(),
            i <= n,
            forall|k: int| 0 <= k < i ==> a@[k] == b@[k],
        decreases n - i,
    {
        if a.get_char(i) != b.get_char(i) {
            return false;
        }
        i = i + 1;
    }
    proof {
        assert(a@ =~= b@);
    }
    true
}

/// The component named by the `APP_COMPONENT` setting, if any.
pub fn parse_component(name: &str) -> (r: Option<Component>)
    ensures
        r == component_of(name@),
{
    if same_text(name, "api") {
        Some(Component::Api)
    } else if same_text(name, "processor") {
        Some(Component::Processor)
    } else if same_text(name, "mass_recalc") {
        Some(Component::MassRecalc)
    } else if same_text(name, "individual_recalc") {
        Some(Component::IndividualRecalc)
    } else if same_text(name, "deploy") {
        Some(Component::Deploy)
    } else {
        None
    }
}

} // verus!
