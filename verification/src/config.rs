//! The configuration record that a parse builds: nameservers, domain,
//! search list, sortlist, option flags and values, lookup and family lists.
use vstd::prelude::*;

use crate::ip::{Ip, IpV, Network};

verus! {

/// One entry of the lookup preference list.
#[derive(Clone, Debug, PartialEq, Eq)]
pub enum Lookup {
    File,
    Bind,
    Extra(Vec<u8>),
}

/// The mathematical model of a lookup entry.
pub enum LookupV {
    File,
    Bind,
    Extra(Seq<u8>),
}

impl View for Lookup {
    type V = LookupV;

    open spec fn view(&self) -> LookupV {
        match self {
            Lookup::File => LookupV::File,
            Lookup::Bind => LookupV::Bind,
            Lookup::Extra(s) => LookupV::Extra(s@),
        }
    }
}

/// One entry of the address-family preference list.
#[derive(Clone, Copy, Debug, PartialEq, Eq, Structural)]
pub enum Family {
    Inet4,
    Inet6,
}

/// The parsed resolver configuration.
#[derive(Clone, Debug, PartialEq, Eq)]
pub struct Config {
    /// Nameserver addresses, in order of appearance; duplicates permitted.
    pub nameservers: Vec<Ip>,
    /// The local domain; each `domain` directive overwrites it.
    pub domain: Option<Vec<u8>>,
    /// Search domains; each `search` directive replaces the whole list.
    pub search: Vec<Vec<u8>>,
    /// Sortlist networks; each `sortlist` directive rebuilds the list.
    pub sortlist: Vec<Network>,
    pub debug: bool,
    /// Minimum dots in a name before it is tried as absolute.
    pub ndots: u32,
    /// Query timeout in seconds.
    pub timeout: u32,
    /// Attempts per nameserver.
    pub attempts: u32,
    pub rotate: bool,
    pub no_check_names: bool,
    pub inet6: bool,
    pub ip6_bytestring: bool,
    pub ip6_dotint: bool,
    pub edns0: bool,
    pub single_request: bool,
    pub single_request_reopen: bool,
    pub no_reload: bool,
    pub trust_ad: bool,
    pub no_tld_query: bool,
    pub use_vc: bool,
    /// Lookup preferences; append-only across directives.
    pub lookup: Vec<Lookup>,
    /// Family preferences; append-only across directives.
    pub family: Vec<Family>,
}

/// The mathematical model of a configuration.
#[verifier::ext_equal]
pub struct ConfigV {
    pub nameservers: Seq<IpV>,
    pub domain: Option<Seq<u8>>,
    pub search: Seq<Seq<u8>>,
    pub sortlist: Seq<Network>,
    pub debug: bool,
    pub ndots: u32,
    pub timeout: u32,
    pub attempts: u32,
    pub rotate: bool,
    pub no_check_names: bool,
    pub inet6: bool,
    pub ip6_bytestring: bool,
    pub ip6_dotint: bool,
    pub edns0: bool,
    pub single_request: bool,
    pub single_request_reopen: bool,
    pub no_reload: bool,
    pub trust_ad: bool,
    pub no_tld_query: bool,
    pub use_vc: bool,
    pub lookup: Seq<LookupV>,
    pub family: Seq<Family>,
}

impl View for Config {
    type V = ConfigV;

    open spec fn view(&self) -> ConfigV {
        ConfigV {
            nameservers: self.nameservers@.map_values(|x: Ip| x@),
            domain: match self.domain {
                Some(ref d) => Some(d@),
                None => None,
            },
            search: self.search@.map_values(|x: Vec<u8>| x@),
            sortlist: self.sortlist@,
            debug: self.debug,
            ndots: self.ndots,
            timeout: self.timeout,
            attempts: self.attempts,
            rotate: self.rotate,
            no_check_names: self.no_check_names,
            inet6: self.inet6,
            ip6_bytestring: self.ip6_bytestring,
            ip6_dotint: self.ip6_dotint,
            edns0: self.edns0,
            single_request: self.single_request,
            single_request_reopen: self.single_request_reopen,
            no_reload: self.no_reload,
            trust_ad: self.trust_ad,
            no_tld_query: self.no_tld_query,
            use_vc: self.use_vc,
            lookup: self.lookup@.map_values(|x: Lookup| x@),
            family: self.family@,
        }
    }
}

/// The configuration a parse starts from: empty lists, every flag off, and
/// the conventional resolver numeric defaults.
pub open spec fn default_config() -> ConfigV {
    ConfigV {
        nameservers: Seq::empty(),
        domain: None,
        search: Seq::empty(),
        sortlist: Seq::empty(),
        debug: false,
        ndots: 1,
        timeout: 5,
        attempts: 2,
        rotate: false,
        no_check_names: false,
        inet6: false,
        ip6_bytestring: false,
        ip6_dotint: false,
        edns0: false,
        single_request: false,
        single_request_reopen: false,
        no_reload: false,
        trust_ad: false,
        no_tld_query: false,
        use_vc: false,
        lookup: Seq::empty(),
        family: Seq::empty(),
    }
}

impl Default for Config {
    /// The empty configuration with default numeric option values.
    fn default() -> (c: Config)
        ensures
            c@ == default_config(),
    {
        let c = Config {
            nameservers: Vec::new(),
            domain: None,
            search: Vec::new(),
            sortlist: Vec::new(),
            debug: false,
            ndots: 1,
            timeout: 5,
            attempts: 2,
            rotate: false,
            no_check_names: false,
            inet6: false,
            ip6_bytestring: false,
            ip6_dotint: false,
            edns0: false,
            single_request: false,
            single_request_reopen: false,
            no_reload: false,
            trust_ad: false,
            no_tld_query: false,
            use_vc: false,
            lookup: Vec::new(),
            family: Vec::new(),
        };
        proof {
            assert(c@.nameservers =~= default_config().nameservers);
            assert(c@.search =~= default_config().search);
            assert(c@.sortlist =~= default_config().sortlist);
            assert(c@.lookup =~= default_config().lookup);
            assert(c@.family =~= default_config().family);
            assert(c@ =~= default_config());
        }
        c
    }
}

} // verus!
